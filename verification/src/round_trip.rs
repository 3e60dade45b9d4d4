//! Saving a sheet and reading the text back: the proof that every cell's
//! text comes back at its own place, and nothing else.
use crate::cell::{classify, is_blank, is_formula_text, number_view, reads_as, CellIndex, CellView, Number};
use crate::delimited::{
    field_at, lemma_split_no_sep, lemma_split_nonempty, lemma_split_push_other,
    lemma_split_push_sep, lemma_split_without, line_at, line_count, split, strip_cr, table,
};
use crate::grid::{
    cursor_after, gap, is_listing, is_rising, lemma_listing_exists, listing, parses_to, render,
    repeat, stands_for, value_at, Entry,
};
use vstd::prelude::*;

verus! {

/// Whether a text ends in a carriage return.
pub open spec fn ends_in_carriage_return(text: Seq<char>) -> bool {
    text.len() > 0 && text.last() == '\r'
}

/// Whether a text can stand as a field of a saved sheet: it is not empty,
/// holds neither the delimiter nor a line feed, and does not end in a
/// carriage return, which a line feed after it would take along.
pub open spec fn is_field(text: Seq<char>) -> bool {
    &&& text.len() > 0
    &&& !ends_in_carriage_return(text)
    &&& forall|j: int| 0 <= j < text.len() ==> text[j] != ';' && text[j] != '\n'
}

/// Whether the text of every entry can stand as a field.
pub open spec fn all_fields(entries: Seq<Entry>) -> bool {
    forall|i: int| 0 <= i < entries.len() ==> is_field((#[trigger] entries[i]).1.text())
}

/// The text of the last entry at `index`, empty where there is none.
pub open spec fn text_at(entries: Seq<Entry>, index: CellIndex) -> Seq<char>
    decreases entries.len(),
{
    if entries.len() == 0 {
        Seq::empty()
    } else if entries.last().0 == index {
        entries.last().1.text()
    } else {
        text_at(entries.drop_last(), index)
    }
}

/// The text cut at every line feed, and every piece cut at every delimiter.
spec fn cut(text: Seq<char>) -> Seq<Seq<Seq<char>>> {
    split(text, '\n').map_values(|line: Seq<char>| split(line, ';'))
}

spec fn blank_rows(n: int) -> Seq<Seq<Seq<char>>> {
    Seq::new(n as nat, |i: int| seq![Seq::<char>::empty()])
}

spec fn blank_fields(n: int) -> Seq<Seq<char>> {
    Seq::new(n as nat, |i: int| Seq::<char>::empty())
}

proof fn lemma_cut_shape(text: Seq<char>)
    ensures
        cut(text).len() >= 1,
        cut(text).len() == split(text, '\n').len(),
        forall|y: int| 0 <= y < cut(text).len() ==> (#[trigger] cut(text)[y]).len() >= 1,
        forall|y: int| 0 <= y < cut(text).len() ==> #[trigger] cut(text)[y] == split(split(text, '\n')[y], ';'),
{
    lemma_split_nonempty(text, '\n');
    assert forall|y: int| 0 <= y < cut(text).len() implies (#[trigger] cut(text)[y]).len()
        >= 1 by {
        lemma_split_nonempty(split(text, '\n')[y], ';');
    }
}

proof fn lemma_cut_push_newline(text: Seq<char>)
    ensures
        cut(text.push('\n')) == cut(text).push(seq![Seq::<char>::empty()]),
{
    lemma_split_push_sep(text, '\n');
    assert(split(Seq::<char>::empty(), ';') == seq![Seq::<char>::empty()]);
    assert(cut(text.push('\n')) =~= cut(text).push(seq![Seq::<char>::empty()]));
}

proof fn lemma_cut_push_delimiter(text: Seq<char>)
    ensures
        cut(text).len() >= 1,
        cut(text.push(';')) == cut(text).update(
            cut(text).len() - 1,
            cut(text).last().push(Seq::empty()),
        ),
{
    lemma_cut_shape(text);
    lemma_split_push_other(text, '\n', ';');
    lemma_split_push_sep(split(text, '\n').last(), ';');
    assert(cut(text.push(';')) =~= cut(text).update(
        cut(text).len() - 1,
        cut(text).last().push(Seq::empty()),
    ));
}

proof fn lemma_cut_push_plain(text: Seq<char>, c: char)
    requires
        c != '\n',
        c != ';',
    ensures
        cut(text).len() >= 1,
        cut(text).last().len() >= 1,
        cut(text.push(c)) == cut(text).update(
            cut(text).len() - 1,
            cut(text).last().update(cut(text).last().len() - 1, cut(text).last().last().push(c)),
        ),
{
    lemma_cut_shape(text);
    lemma_split_push_other(text, '\n', c);
    lemma_split_push_other(split(text, '\n').last(), ';', c);
    assert(cut(text.push(c)) =~= cut(text).update(
        cut(text).len() - 1,
        cut(text).last().update(cut(text).last().len() - 1, cut(text).last().last().push(c)),
    ));
}

proof fn lemma_cut_newlines(text: Seq<char>, n: int)
    requires
        n >= 0,
    ensures
        cut(text + repeat('\n', n)) == cut(text) + blank_rows(n),
    decreases n,
{
    if n == 0 {
        assert(text + repeat('\n', 0) =~= text);
        assert(cut(text) + blank_rows(0) =~= cut(text));
    } else {
        lemma_cut_newlines(text, n - 1);
        assert(text + repeat('\n', n) =~= (text + repeat('\n', n - 1)).push('\n'));
        lemma_cut_push_newline(text + repeat('\n', n - 1));
        assert((cut(text) + blank_rows(n - 1)).push(seq![Seq::<char>::empty()]) =~= cut(text)
            + blank_rows(n));
    }
}

proof fn lemma_cut_delimiters(text: Seq<char>, m: int)
    requires
        m >= 0,
    ensures
        cut(text).len() >= 1,
        cut(text + repeat(';', m)) == cut(text).update(
            cut(text).len() - 1,
            cut(text).last() + blank_fields(m),
        ),
    decreases m,
{
    lemma_cut_shape(text);
    if m == 0 {
        assert(text + repeat(';', 0) =~= text);
        assert(cut(text).last() + blank_fields(0) =~= cut(text).last());
        assert(cut(text).update(cut(text).len() - 1, cut(text).last()) =~= cut(text));
    } else {
        lemma_cut_delimiters(text, m - 1);
        let before = text + repeat(';', m - 1);
        assert(text + repeat(';', m) =~= before.push(';'));
        lemma_cut_push_delimiter(before);
        assert((cut(text).last() + blank_fields(m - 1)).push(Seq::empty()) =~= cut(text).last()
            + blank_fields(m));
        assert(cut(before.push(';')) =~= cut(text).update(
            cut(text).len() - 1,
            cut(text).last() + blank_fields(m),
        ));
    }
}

proof fn lemma_cut_plain(text: Seq<char>, tail: Seq<char>)
    requires
        forall|j: int| 0 <= j < tail.len() ==> tail[j] != '\n' && tail[j] != ';',
    ensures
        cut(text).len() >= 1,
        cut(text).last().len() >= 1,
        cut(text + tail) == cut(text).update(
            cut(text).len() - 1,
            cut(text).last().update(cut(text).last().len() - 1, cut(text).last().last() + tail),
        ),
    decreases tail.len(),
{
    lemma_cut_shape(text);
    let rows = cut(text);
    let row = rows.last();
    if tail.len() == 0 {
        assert(text + tail =~= text);
        assert(row.last() + tail =~= row.last());
        assert(row.update(row.len() - 1, row.last()) =~= row);
        assert(rows.update(rows.len() - 1, row) =~= rows);
    } else {
        let short = tail.drop_last();
        lemma_cut_plain(text, short);
        assert(text + tail =~= (text + short).push(tail.last()));
        lemma_cut_push_plain(text + short, tail.last());
        assert((row.last() + short).push(tail.last()) =~= row.last() + tail);
        let mid = rows.update(rows.len() - 1, row.update(row.len() - 1, row.last() + short));
        assert(cut(text + short) == mid);
        assert(mid.last() == row.update(row.len() - 1, row.last() + short));
        assert(mid.last().update(mid.last().len() - 1, mid.last().last().push(tail.last()))
            =~= row.update(row.len() - 1, row.last() + tail));
        assert(cut(text + tail) =~= rows.update(
            rows.len() - 1,
            row.update(row.len() - 1, row.last() + tail),
        ));
    }
}

/// What the cut text of rising entries looks like: it ends in the row and
/// the column of the last entry, and its fields are the entries' texts.
spec fn laid_out(entries: Seq<Entry>, rows: Seq<Seq<Seq<char>>>) -> bool {
    &&& rows.len() == cursor_after(entries).y + 1
    &&& rows.last().len() == cursor_after(entries).x + 1
    &&& entries.len() > 0 ==> rows.last().last() == entries.last().1.text()
    &&& forall|y: int| 0 <= y < rows.len() ==> 1 <= (#[trigger] rows[y]).len() <= u64::MAX + 1
    &&& forall|index: CellIndex|
        field_at(rows, index.x as int, index.y as int) == #[trigger] text_at(entries, index)
}

#[verifier::spinoff_prover]
#[verifier::rlimit(40)]
proof fn lemma_render_laid_out(entries: Seq<Entry>)
    requires
        is_rising(entries),
        all_fields(entries),
    ensures
        laid_out(entries, cut(render(entries))),
    decreases entries.len(),
{
    if entries.len() == 0 {
        assert(split(Seq::<char>::empty(), '\n') == seq![Seq::<char>::empty()]);
        assert(split(Seq::<char>::empty(), ';') == seq![Seq::<char>::empty()]);
        assert(cut(render(entries)) =~= seq![seq![Seq::<char>::empty()]]);
    } else {
        let head = entries.drop_last();
        let entry = entries.last();
        let at = entry.0;
        let text = entry.1.text();
        let cur = cursor_after(head);
        assert(is_rising(head)) by {
            assert forall|i: int, j: int| 0 <= i < j < head.len() implies (#[trigger] head[i]).0.spec_precedes((#[trigger] head[j]).0) by {
                assert(head[i] == entries[i]);
                assert(head[j] == entries[j]);
            }
        }
        assert(all_fields(head)) by {
            assert forall|i: int| 0 <= i < head.len() implies is_field((#[trigger] head[i]).1.text()) by {
                assert(head[i] == entries[i]);
            }
        }
        lemma_render_laid_out(head);
        let base = render(head);
        let old_rows = cut(base);
        lemma_cut_shape(base);
        assert(is_field(text)) by {
            assert(entries[entries.len() - 1] == entry);
        }
        if head.len() > 0 {
            assert(head.last() == entries[entries.len() - 2]);
            assert(entries[entries.len() - 2].0.spec_precedes(entries[entries.len() - 1].0));
            assert(cur.spec_precedes(at));
        }
        let n: int = if at.y > cur.y { at.y - cur.y } else { 0 };
        let m: int = if at.y > cur.y { at.x as int } else { at.x - cur.x };
        assert(gap(cur, at) =~= repeat('\n', n) + repeat(';', m)) by {
            if at.y > cur.y {
            } else {
                assert(repeat('\n', 0) =~= Seq::empty());
            }
        }
        let t1 = base + repeat('\n', n);
        let t2 = t1 + repeat(';', m);
        assert(render(entries) =~= t2 + text);
        lemma_cut_newlines(base, n);
        lemma_cut_delimiters(t1, m);
        lemma_cut_plain(t2, text);
        let r1 = old_rows + blank_rows(n);
        let r2 = r1.update(r1.len() - 1, r1.last() + blank_fields(m));
        let row2 = r2.last();
        let r3 = r2.update(r2.len() - 1, row2.update(row2.len() - 1, row2.last() + text));
        assert(cut(render(entries)) == r3);
        assert(r3.len() == at.y + 1);
        // The field that takes the text was empty before.
        assert(row2.last().len() == 0) by {
            if m > 0 {
                assert(row2 == r1.last() + blank_fields(m));
                assert(row2.last() == blank_fields(m)[m - 1]);
            } else if n > 0 {
                assert(r1.last() == blank_rows(n)[n - 1]);
                assert(row2 =~= seq![Seq::<char>::empty()]);
            } else {
                assert(head.len() == 0);
                assert(split(Seq::<char>::empty(), '\n') == seq![Seq::<char>::empty()]);
                assert(split(Seq::<char>::empty(), ';') == seq![Seq::<char>::empty()]);
                assert(old_rows =~= seq![seq![Seq::<char>::empty()]]);
                assert(r1 =~= old_rows);
                assert(row2 =~= seq![Seq::<char>::empty()]);
            }
        }
        assert(row2.last() + text =~= text);
        assert(row2.len() == at.x + 1) by {
            if n > 0 {
                assert(r1.last() == blank_rows(n)[n - 1]);
            } else {
                assert(r1 =~= old_rows);
            }
        }
        assert(r3.last().last() == text);
        assert forall|y: int| 0 <= y < r3.len() implies 1 <= (#[trigger] r3[y]).len() <= u64::MAX
            + 1 by {
            if y < old_rows.len() - 1 {
                assert(r3[y] == old_rows[y]);
            } else if y == old_rows.len() - 1 && n > 0 {
                assert(r3[y] == old_rows[y]);
            } else if y < r3.len() - 1 {
                assert(r3[y] == blank_rows(n)[y - old_rows.len()]);
            }
        }
        assert forall|index: CellIndex| field_at(r3, index.x as int, index.y as int)
            == #[trigger] text_at(entries, index) by {
            let x = index.x as int;
            let y = index.y as int;
            if index == at {
                assert(r3[y][x] == text);
            } else {
                assert(text_at(entries, index) == text_at(head, index));
                assert(field_at(old_rows, x, y) == text_at(head, index));
                if y < old_rows.len() - 1 {
                    assert(r3[y] == old_rows[y]);
                } else if y == old_rows.len() - 1 {
                    if n > 0 {
                        assert(r3[y] == old_rows[y]);
                    } else {
                        assert(r1 =~= old_rows);
                        assert(row2 == old_rows.last() + blank_fields(m));
                        if x < old_rows.last().len() {
                            if m == 0 {
                                assert(head.len() == 0);
                            } else {
                                assert(r3[y][x] == old_rows[y][x]);
                            }
                        } else if x < row2.len() {
                            assert(r3[y][x] == blank_fields(m)[x - old_rows.last().len()]);
                        }
                    }
                } else if y < r3.len() - 1 {
                    assert(r3[y] == blank_rows(n)[y - old_rows.len()]);
                    if x == 0 {
                        assert(r3[y][x].len() == 0);
                    }
                } else if y == r3.len() - 1 {
                    assert(r1.last() == blank_rows(n)[n - 1]);
                    assert(row2 =~= seq![Seq::<char>::empty()] + blank_fields(m));
                    if x < row2.len() {
                        assert(r3[y][x].len() == 0);
                    }
                }
            }
        }
    }
}

/// The last character of a text that does not end in the separator is the
/// last character of its last piece.
proof fn lemma_split_last_char(text: Seq<char>, sep: char)
    requires
        text.len() > 0,
        text.last() != sep,
    ensures
        split(text, sep).len() >= 1,
        split(text, sep).last().len() > 0,
        split(text, sep).last().last() == text.last(),
{
    lemma_split_nonempty(text.drop_last(), sep);
}

/// An entry's text, if any, at every place.
proof fn lemma_text_at_is_entry(entries: Seq<Entry>, index: CellIndex)
    ensures
        text_at(entries, index).len() == 0 || exists|i: int|
            0 <= i < entries.len() && (#[trigger] entries[i]).0 == index && entries[i].1.text()
                == text_at(entries, index),
    decreases entries.len(),
{
    if entries.len() > 0 {
        if entries.last().0 == index {
            assert(entries[entries.len() - 1].0 == index);
        } else {
            lemma_text_at_is_entry(entries.drop_last(), index);
            if text_at(entries, index).len() > 0 {
                let i = choose|i: int|
                    0 <= i < entries.len() - 1 && (#[trigger] entries.drop_last()[i]).0 == index
                        && entries.drop_last()[i].1.text() == text_at(entries.drop_last(), index);
                assert(entries[i] == entries.drop_last()[i]);
            }
        }
    }
}

/// In a listing of `cells`, the text at a place is the text of the cell
/// there.
proof fn lemma_text_at_listing(
    entries: Seq<Entry>,
    cells: Map<CellIndex, CellView>,
    index: CellIndex,
)
    requires
        is_listing(entries, cells),
        all_fields(entries),
    ensures
        text_at(entries, index) == (if cells.contains_key(index) {
            cells[index].text()
        } else {
            Seq::empty()
        }),
{
    lemma_text_at_is_entry(entries, index);
    if cells.contains_key(index) {
        let i = choose|i: int| 0 <= i < entries.len() && (#[trigger] entries[i]).0 == index;
        lemma_text_at_found(entries, i);
    }
}

/// With places that rise, the text at the place of an entry is its own.
proof fn lemma_text_at_found(entries: Seq<Entry>, i: int)
    requires
        is_rising(entries),
        0 <= i < entries.len(),
    ensures
        text_at(entries, entries[i].0) == entries[i].1.text(),
    decreases entries.len(),
{
    if i < entries.len() - 1 {
        let head = entries.drop_last();
        assert(entries[i].0.spec_precedes(entries[entries.len() - 1].0));
        assert(is_rising(head)) by {
            assert forall|a: int, b: int| 0 <= a < b < head.len() implies (#[trigger] head[a]).0.spec_precedes((#[trigger] head[b]).0) by {
                assert(head[a] == entries[a]);
                assert(head[b] == entries[b]);
            }
        }
        assert(head[i] == entries[i]);
        lemma_text_at_found(head, i);
    }
}

/// The fields of the saved text of a sheet are the texts of its cells, each
/// at the place of its cell, and there is no field where there is no cell.
/// This holds of every sheet whose cells' texts can stand as fields.
pub proof fn lemma_saved_fields(cells: Map<CellIndex, CellView>, index: CellIndex)
    requires
        cells.dom().finite(),
        forall|at: CellIndex| cells.contains_key(at) ==> is_field(#[trigger] cells[at].text()),
    ensures
        field_at(table(render(listing(cells)), ';'), index.x as int, index.y as int) == (
        if cells.contains_key(index) {
            cells[index].text()
        } else {
            Seq::empty()
        }),
{
    let entries = listing(cells);
    lemma_listing_exists(cells);
    assert(all_fields(entries)) by {
        assert forall|i: int| 0 <= i < entries.len() implies is_field(
            (#[trigger] entries[i]).1.text(),
        ) by {
            assert(cells.contains_key(entries[i].0));
        }
    }
    lemma_render_laid_out(entries);
    lemma_text_at_listing(entries, cells, index);
    let saved = render(entries);
    let rows = cut(saved);
    lemma_cut_shape(saved);
    let raw = split(saved, '\n');
    if entries.len() == 0 {
        assert(line_count(saved) == 0);
    } else {
        assert(is_field(entries[entries.len() - 1].1.text()));
        assert(raw.last().len() > 0) by {
            if raw.last().len() == 0 {
                assert(split(raw.last(), ';') == seq![Seq::<char>::empty()]);
            }
        }
        assert(line_count(saved) == raw.len());
        assert forall|y: int| 0 <= y < raw.len() implies #[trigger] line_at(saved, y)
            == raw[y] by {
            if raw[y].len() > 0 && raw[y].last() == '\r' {
                lemma_split_last_char(raw[y], ';');
                let x = rows[y].len() - 1;
                let place = CellIndex { x: x as u64, y: y as u64 };
                assert(rows[y].len() <= u64::MAX + 1);
                assert(field_at(rows, place.x as int, place.y as int) == rows[y][x]);
                lemma_text_at_is_entry(entries, place);
                assert(text_at(entries, place) == rows[y][x]);
                let i = choose|i: int|
                    0 <= i < entries.len() && (#[trigger] entries[i]).0 == place
                        && entries[i].1.text() == text_at(entries, place);
                assert(is_field(entries[i].1.text()));
            }
        }
        assert(table(saved, ';') =~= rows);
    }
}

/// Reading back the saved text of a sheet gives the sheet, cell for cell,
/// where every cell's text can stand as a field and the number reader takes
/// every cell's own text for that cell.
pub proof fn lemma_round_trip<R: Fn(&str) -> Option<Number>>(
    read: &R,
    cells: Map<CellIndex, CellView>,
    reread: Map<CellIndex, CellView>,
)
    requires
        cells.dom().finite(),
        forall|at: CellIndex| cells.contains_key(at) ==> is_field(#[trigger] cells[at].text()),
        forall|at: CellIndex, cell: CellView|
            cells.contains_key(at) && #[trigger] reads_as(read, cells[at].text(), cell) ==> cell
                == cells[at],
        parses_to(read, table(render(listing(cells)), ';'), reread),
    ensures
        reread == cells,
{
    let saved = table(render(listing(cells)), ';');
    assert forall|at: CellIndex| #[trigger] value_at(reread, at) == value_at(cells, at) by {
        lemma_saved_fields(cells, at);
        let field = field_at(saved, at.x as int, at.y as int);
        assert(stands_for(read, field, value_at(reread, at)));
        if cells.contains_key(at) {
            assert(is_field(cells[at].text()));
            assert(field == cells[at].text());
            if value_at(reread, at) is None {
                let blank = choose|cell: CellView| #[trigger]
                    reads_as(read, field, cell) && is_blank(cell);
                assert(blank == cells[at]);
            } else {
                assert(reads_as(read, cells[at].text(), reread[at]));
            }
        }
    }
    assert forall|at: CellIndex| #[trigger] reread.contains_key(at) == cells.contains_key(at) by {
        assert(value_at(reread, at) == value_at(cells, at));
    }
    assert forall|at: CellIndex| reread.contains_key(at) implies #[trigger] reread[at]
        == cells[at] by {
        assert(value_at(reread, at) == value_at(cells, at));
    }
    assert(reread.dom() =~= cells.dom());
    assert(reread =~= cells);
}

/// No field of a text holds the delimiter or a line feed.
pub proof fn lemma_fields_are_plain(text: Seq<char>, x: int, y: int)
    ensures
        forall|j: int|
            0 <= j < field_at(table(text, ';'), x, y).len() ==> ({
                let c = #[trigger] field_at(table(text, ';'), x, y)[j];
                c != ';' && c != '\n'
            }),
{
    let rows = table(text, ';');
    if 0 <= y < rows.len() && 0 <= x < rows[y].len() {
        let raw = split(text, '\n');
        let line = line_at(text, y);
        lemma_split_no_sep(text, '\n');
        lemma_split_nonempty(text, '\n');
        assert(y < raw.len());
        assert forall|k: int| 0 <= k < line.len() implies line[k] != '\n' by {
            assert(k < raw[y].len());
            assert(line[k] == raw[y][k]);
            assert(raw[y][k] != '\n');
        }
        lemma_split_no_sep(line, ';');
        lemma_split_without(line, ';', '\n');
        assert(rows[y] == split(line, ';'));
    }
}

/// A sheet that was read from a text comes back, cell for cell, when its
/// saved text is read again. This holds where no field of the first text
/// ends in a carriage return, the number reader gives one answer for one
/// text, and every number of the sheet is shown by a text that can stand as
/// a field, starts no formula and reads as that number.
pub proof fn lemma_read_round_trip<R: Fn(&str) -> Option<Number>>(
    read: &R,
    text: Seq<char>,
    cells: Map<CellIndex, CellView>,
    reread: Map<CellIndex, CellView>,
)
    requires
        cells.dom().finite(),
        parses_to(read, table(text, ';'), cells),
        forall|at: CellIndex|
            cells.contains_key(at) ==> !ends_in_carriage_return(
                #[trigger] field_at(table(text, ';'), at.x as int, at.y as int),
            ),
        forall|field: Seq<char>, a: CellView, b: CellView|
            #[trigger] reads_as(read, field, a) && #[trigger] reads_as(read, field, b) ==> a == b,
        forall|at: CellIndex|
            cells.contains_key(at) && (#[trigger] cells[at]) is Num ==> ({
                &&& is_field(cells[at].text())
                &&& !is_formula_text(cells[at].text())
                &&& reads_as(read, cells[at].text(), cells[at])
            }),
        parses_to(read, table(render(listing(cells)), ';'), reread),
    ensures
        reread == cells,
{
    let first = table(text, ';');
    assert forall|at: CellIndex| cells.contains_key(at) implies is_field(
        #[trigger] cells[at].text(),
    ) && reads_as(read, cells[at].text(), cells[at]) by {
        let field = field_at(first, at.x as int, at.y as int);
        assert(stands_for(read, field, value_at(cells, at)));
        assert(reads_as(read, field, cells[at]));
        lemma_fields_are_plain(text, at.x as int, at.y as int);
        match cells[at] {
            CellView::Text(shown) => {
                if is_formula_text(field) {
                } else {
                    let (s, n) = choose|s: &str, n: Option<Number>|
                        s@ == field && #[trigger] call_ensures(read, (s,), n) && cells[at]
                            == classify(field, number_view(n));
                    assert(shown == field);
                }
            },
            CellView::Num(number) => {},
            CellView::Formula => {
                let shown = cells[at].text();
                assert(shown.len() == 2);
                assert(shown[0] == '=' && shown[1] == '?');
                assert(is_formula_text(shown));
            },
        }
    }
    assert forall|at: CellIndex, cell: CellView|
        cells.contains_key(at) && #[trigger] reads_as(read, cells[at].text(), cell) implies cell
        == cells[at] by {
        assert(is_field(cells[at].text()) && reads_as(read, cells[at].text(), cells[at]));
    }
    lemma_round_trip(read, cells, reread);
}

} // verus!
