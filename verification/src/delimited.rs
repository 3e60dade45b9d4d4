//! Delimited text: lines of fields. The text is cut into lines at every
//! line feed, a carriage return just before the line feed belongs to the
//! line ending, and each line is cut into fields at every separator.
use crate::text::{chars_of, string_of};
use vstd::prelude::*;

verus! {

/// The pieces of `text` between the occurrences of `sep`. There is always at
/// least one piece; a text that ends in `sep` has an empty last piece.
pub open spec fn split(text: Seq<char>, sep: char) -> Seq<Seq<char>>
    decreases text.len(),
{
    if text.len() == 0 {
        seq![Seq::empty()]
    } else {
        let head = split(text.drop_last(), sep);
        if text.last() == sep {
            head.push(Seq::empty())
        } else {
            head.update(head.len() - 1, head.last().push(text.last()))
        }
    }
}

/// A line without the carriage return that ends it, if one does.
pub open spec fn strip_cr(line: Seq<char>) -> Seq<char> {
    if line.len() > 0 && line.last() == '\r' {
        line.drop_last()
    } else {
        line
    }
}

/// The number of lines of a text. What follows the last line feed is a line
/// only if it is not empty.
pub open spec fn line_count(text: Seq<char>) -> int {
    let raw = split(text, '\n');
    if raw.last().len() == 0 {
        raw.len() - 1
    } else {
        raw.len() as int
    }
}

/// The line of number `y`. A line that a line feed ends loses the carriage
/// return before it; a last line without line feed is kept whole.
pub open spec fn line_at(text: Seq<char>, y: int) -> Seq<char> {
    let raw = split(text, '\n');
    if y < raw.len() - 1 {
        strip_cr(raw[y])
    } else {
        raw[y]
    }
}

/// The lines of a text.
pub open spec fn lines(text: Seq<char>) -> Seq<Seq<char>> {
    Seq::new(line_count(text) as nat, |y: int| line_at(text, y))
}

/// The fields of every line of a text.
pub open spec fn table(text: Seq<char>, sep: char) -> Seq<Seq<Seq<char>>> {
    Seq::new(line_count(text) as nat, |y: int| split(line_at(text, y), sep))
}

/// The field in column `x` of line `y`, empty where the text has none.
pub open spec fn field_at(rows: Seq<Seq<Seq<char>>>, x: int, y: int) -> Seq<char> {
    if 0 <= y < rows.len() && 0 <= x < rows[y].len() {
        rows[y][x]
    } else {
        Seq::empty()
    }
}

/// The fields of one line as sequences of characters.
pub open spec fn row_view(row: Vec<String>) -> Seq<Seq<char>> {
    row@.map_values(|field: String| field@)
}

/// The lines of fields as sequences of characters.
pub open spec fn table_view(rows: Seq<Vec<String>>) -> Seq<Seq<Seq<char>>> {
    rows.map_values(|row: Vec<String>| row_view(row))
}

pub proof fn lemma_split_nonempty(text: Seq<char>, sep: char)
    ensures
        split(text, sep).len() >= 1,
    decreases text.len(),
{
    if text.len() > 0 {
        lemma_split_nonempty(text.drop_last(), sep);
    }
}

/// A separator at the end opens a new, empty piece.
pub proof fn lemma_split_push_sep(text: Seq<char>, sep: char)
    ensures
        split(text.push(sep), sep) == split(text, sep).push(Seq::empty()),
{
    assert(text.push(sep).drop_last() =~= text);
}

/// Any other character at the end goes to the last piece.
pub proof fn lemma_split_push_other(text: Seq<char>, sep: char, c: char)
    requires
        c != sep,
    ensures
        split(text, sep).len() >= 1,
        split(text.push(c), sep) == split(text, sep).update(
            split(text, sep).len() - 1,
            split(text, sep).last().push(c),
        ),
{
    lemma_split_nonempty(text, sep);
    assert(text.push(c).drop_last() =~= text);
}

/// No piece holds the separator.
pub proof fn lemma_split_no_sep(text: Seq<char>, sep: char)
    ensures
        forall|i: int, j: int|
            0 <= i < split(text, sep).len() && 0 <= j < split(text, sep)[i].len() ==> (
            #[trigger] split(text, sep)[i][j]) != sep,
    decreases text.len(),
{
    if text.len() > 0 {
        lemma_split_no_sep(text.drop_last(), sep);
        lemma_split_nonempty(text.drop_last(), sep);
    }
}

/// A character that the text does not hold is in no piece.
pub proof fn lemma_split_without(text: Seq<char>, sep: char, c: char)
    requires
        forall|k: int| 0 <= k < text.len() ==> text[k] != c,
    ensures
        forall|i: int, j: int|
            0 <= i < split(text, sep).len() && 0 <= j < split(text, sep)[i].len() ==> (
            #[trigger] split(text, sep)[i][j]) != c,
    decreases text.len(),
{
    if text.len() > 0 {
        let head = text.drop_last();
        assert forall|k: int| 0 <= k < head.len() implies head[k] != c by {
            assert(head[k] == text[k]);
        }
        lemma_split_without(head, sep, c);
        lemma_split_nonempty(head, sep);
        assert(text.last() == text[text.len() - 1]);
    }
}

/// Taking the carriage return off a line takes it off the line's last field.
proof fn lemma_split_strip(line: Seq<char>, sep: char, done: Seq<Seq<char>>, field: Seq<char>)
    requires
        sep != '\r',
        split(line, sep) == done.push(field),
    ensures
        split(strip_cr(line), sep) == done.push(strip_cr(field)),
{
    if line.len() > 0 {
        let head = split(line.drop_last(), sep);
        lemma_split_nonempty(line.drop_last(), sep);
        if line.last() == sep {
            assert(done.push(field).last() == Seq::<char>::empty());
        } else {
            assert(done.push(field).last() == head.last().push(line.last()));
            assert(field.last() == line.last());
            if line.last() == '\r' {
                let whole = head.update(head.len() - 1, head.last().push(line.last()));
                assert(whole == done.push(field));
                assert(whole.len() == done.len() + 1);
                assert(whole[done.len() as int] == field);
                assert(field.drop_last() =~= head.last());
                assert forall|j: int| 0 <= j < done.len() implies head[j] == done[j] by {
                    assert(whole[j] == done.push(field)[j]);
                }
                assert(head =~= done.push(field.drop_last()));
            }
        }
    } else {
        assert(done.push(field).last() == Seq::<char>::empty());
    }
}

/// Cuts a text into its lines and every line into its fields.
pub fn read_table(text: &str, sep: char) -> (rows: Vec<Vec<String>>)
    requires
        sep != '\n',
        sep != '\r',
    ensures
        table_view(rows@) == table(text@, sep),
{
    let chars = chars_of(text);
    let mut rows: Vec<Vec<String>> = Vec::new();
    let mut fields: Vec<String> = Vec::new();
    let mut field: Vec<char> = Vec::new();
    let mut started = false;
    let mut i: usize = 0;
    proof {
        assert(chars@.take(0) =~= Seq::empty());
        assert(row_view(fields).push(field@) =~= seq![Seq::<char>::empty()]);
    }
    while i < chars.len()
        invariant
            sep != '\n',
            sep != '\r',
            i <= chars.len(),
            rows.len() == split(chars@.take(i as int), '\n').len() - 1,
            forall|y: int|
                0 <= y < rows.len() ==> row_view(#[trigger] rows[y]) == split(
                    strip_cr(split(chars@.take(i as int), '\n')[y]),
                    sep,
                ),
            split(split(chars@.take(i as int), '\n').last(), sep) == row_view(fields).push(field@),
            started == (split(chars@.take(i as int), '\n').last().len() > 0),
        decreases chars.len() - i,
    {
        let c = chars[i];
        let ghost before = chars@.take(i as int);
        let ghost raw = split(before, '\n');
        let ghost line = raw.last();
        let ghost done = row_view(fields);
        let ghost typed = field@;
        proof {
            assert(chars@.take(i + 1) =~= before.push(c));
            lemma_split_nonempty(before, '\n');
        }
        if c == '\n' {
            proof {
                lemma_split_push_sep(before, '\n');
                lemma_split_strip(line, sep, done, field@);
            }
            let n = field.len();
            if n > 0 && field[n - 1] == '\r' {
                field.pop();
            }
            fields.push(string_of(&field));
            assert(row_view(fields) =~= done.push(strip_cr(typed)));
            rows.push(fields);
            fields = Vec::new();
            field = Vec::new();
            started = false;
            proof {
                assert(row_view(fields).push(field@) =~= seq![Seq::<char>::empty()]);
            }
        } else if c == sep {
            proof {
                lemma_split_push_other(before, '\n', c);
                lemma_split_push_sep(line, sep);
            }
            fields.push(string_of(&field));
            field = Vec::new();
            started = true;
            proof {
                assert(row_view(fields) =~= done.push(typed));
            }
        } else {
            proof {
                lemma_split_push_other(before, '\n', c);
                lemma_split_push_other(line, sep, c);
            }
            field.push(c);
            started = true;
            proof {
                assert(done.push(typed).update(done.len() as int, typed.push(c)) =~= done.push(
                    field@,
                ));
            }
        }
        i += 1;
    }
    proof {
        assert(chars@.take(i as int) =~= text@);
        lemma_split_nonempty(text@, '\n');
    }
    if started {
        fields.push(string_of(&field));
        proof {
            assert(row_view(fields) =~= split(split(text@, '\n').last(), sep));
        }
        rows.push(fields);
    }
    proof {
        assert(table_view(rows@) =~= table(text@, sep));
    }
    rows
}

} // verus!
