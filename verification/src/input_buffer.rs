//! The text that is being typed into a cell, with its cursor.
use crate::text::{chars_of, string_of};
use vstd::prelude::*;

verus! {

/// Whether a character is a letter or a digit, as Unicode has it.
pub uninterp spec fn alphanumeric(c: char) -> bool;

/// Asks `char::is_alphanumeric` whether a character is a letter or a digit.
#[verifier::external_body]
fn is_alphanumeric(c: char) -> (answer: bool)
    ensures
        answer == alphanumeric(c),
{
    c.is_alphanumeric()
}

/// Of every character of a text, whether it is alphanumeric.
pub open spec fn kinds_of(text: Seq<char>) -> Seq<bool> {
    text.map_values(|c: char| alphanumeric(c))
}

/// The first position at or after `from` at which the text ends or holds a
/// character that is not of the kind `kind`.
pub open spec fn run_end(kinds: Seq<bool>, from: int, kind: bool) -> int
    decreases kinds.len() - from,
{
    if 0 <= from < kinds.len() && kinds[from] == kind {
        run_end(kinds, from + 1, kind)
    } else {
        from
    }
}

/// The first position at or before `from` that is the start of the text or
/// follows a character that is not of the kind `kind`.
pub open spec fn run_start(kinds: Seq<bool>, from: int, kind: bool) -> int
    decreases from,
{
    if 0 < from <= kinds.len() && kinds[from - 1] == kind {
        run_start(kinds, from - 1, kind)
    } else {
        from
    }
}

/// Where the cursor goes to the right in a text whose characters are of the
/// kinds `kinds`: one position, or with `whole_word` past the run of
/// characters of one kind that it stands in front of. At the end of the
/// text it stays.
pub open spec fn cursor_right(kinds: Seq<bool>, cursor: int, whole_word: bool) -> int {
    if 0 <= cursor < kinds.len() {
        if whole_word {
            run_end(kinds, cursor, kinds[cursor])
        } else {
            cursor + 1
        }
    } else {
        cursor
    }
}

/// Where the cursor goes to the left: one position, or with `whole_word`
/// back over the run of characters of one kind that it stands behind. At
/// the start of the text it stays.
pub open spec fn cursor_left(kinds: Seq<bool>, cursor: int, whole_word: bool) -> int {
    if whole_word {
        if 0 < cursor <= kinds.len() {
            run_start(kinds, cursor, kinds[cursor - 1])
        } else {
            cursor
        }
    } else if cursor > 0 {
        cursor - 1
    } else {
        cursor
    }
}

/// Moves a cursor to the right in a text whose characters are of the kinds
/// `kinds`.
pub fn step_right(kinds: &Vec<bool>, cursor: usize, whole_word: bool) -> (next: usize)
    ensures
        next == cursor_right(kinds@, cursor as int, whole_word),
        cursor <= kinds.len() ==> cursor <= next <= kinds.len(),
{
    if cursor >= kinds.len() {
        return cursor;
    }
    if !whole_word {
        return cursor + 1;
    }
    let kind = kinds[cursor];
    let mut next = cursor;
    while next < kinds.len() && kinds[next] == kind
        invariant
            cursor <= next <= kinds.len(),
            run_end(kinds@, next as int, kind) == run_end(kinds@, cursor as int, kind),
        decreases kinds.len() - next,
    {
        next = next + 1;
    }
    next
}

/// Moves a cursor to the left in a text whose characters are of the kinds
/// `kinds`.
pub fn step_left(kinds: &Vec<bool>, cursor: usize, whole_word: bool) -> (next: usize)
    ensures
        next == cursor_left(kinds@, cursor as int, whole_word),
        next <= cursor,
{
    if !whole_word {
        return if cursor > 0 {
            cursor - 1
        } else {
            cursor
        };
    }
    if cursor == 0 || cursor > kinds.len() {
        return cursor;
    }
    let kind = kinds[cursor - 1];
    let mut next = cursor;
    while next > 0 && kinds[next - 1] == kind
        invariant
            next <= cursor <= kinds.len(),
            run_start(kinds@, next as int, kind) == run_start(kinds@, cursor as int, kind),
        decreases next,
    {
        next = next - 1;
    }
    next
}

/// The length of the longest line of a text, where lines end at every line
/// feed.
pub open spec fn longest_line(text: Seq<char>) -> int
    decreases text.len(),
{
    if text.len() == 0 {
        0
    } else {
        let before = longest_line(text.drop_last());
        let last = last_line_len(text);
        if last > before {
            last
        } else {
            before
        }
    }
}

/// The length of what follows the last line feed of a text.
pub open spec fn last_line_len(text: Seq<char>) -> int
    decreases text.len(),
{
    if text.len() == 0 || text.last() == '\n' {
        0
    } else {
        last_line_len(text.drop_last()) + 1
    }
}

/// The number of line feeds in a text.
pub open spec fn line_feeds(text: Seq<char>) -> int
    decreases text.len(),
{
    if text.len() == 0 {
        0
    } else {
        line_feeds(text.drop_last()) + if text.last() == '\n' {
            1int
        } else {
            0int
        }
    }
}

proof fn lemma_line_bounds(text: Seq<char>)
    ensures
        0 <= last_line_len(text) <= text.len(),
        0 <= longest_line(text) <= text.len(),
        0 <= line_feeds(text) <= text.len(),
    decreases text.len(),
{
    if text.len() > 0 {
        lemma_line_bounds(text.drop_last());
    }
}

pub struct InputBufferView {
    pub text: Seq<char>,
    pub cursor: int,
}

pub struct InputBuffer {
    buffer: Vec<char>,
    cursor: usize,
}

impl View for InputBuffer {
    type V = InputBufferView;

    closed spec fn view(&self) -> InputBufferView {
        InputBufferView { text: self.buffer@, cursor: self.cursor as int }
    }
}

impl InputBuffer {
    /// The cursor stands in the text or at its end.
    pub closed spec fn wf(&self) -> bool {
        self.cursor <= self.buffer.len()
    }

    pub proof fn lemma_wf(&self)
        requires
            self.wf(),
        ensures
            0 <= self@.cursor <= self@.text.len(),
    {
    }

    /// A buffer that holds `opening_chars`, with the cursor at the end.
    pub fn new(opening_chars: &str) -> (buffer: InputBuffer)
        ensures
            buffer.wf(),
            buffer@.text == opening_chars@,
            buffer@.cursor == opening_chars@.len(),
    {
        let buffer = chars_of(opening_chars);
        let cursor = buffer.len();
        InputBuffer { buffer, cursor }
    }

    /// Puts a character in at the cursor, and the cursor behind it.
    pub fn push(&mut self, ch: char)
        requires
            old(self).wf(),
        ensures
            final(self).wf(),
            final(self)@.text == old(self)@.text.insert(old(self)@.cursor, ch),
            final(self)@.cursor == old(self)@.cursor + 1,
    {
        self.buffer.insert(self.cursor, ch);
        let length = self.buffer.len();
        assert(self.cursor < length);
        self.cursor = self.cursor + 1;
    }

    /// Takes out the character before the cursor, if there is one.
    pub fn del_front(&mut self)
        requires
            old(self).wf(),
        ensures
            final(self).wf(),
            old(self)@.cursor > 0 ==> final(self)@.text == old(self)@.text.remove(
                old(self)@.cursor - 1,
            ) && final(self)@.cursor == old(self)@.cursor - 1,
            old(self)@.cursor == 0 ==> final(self)@ == old(self)@,
    {
        if self.cursor > 0 {
            self.buffer.remove(self.cursor - 1);
            self.cursor = self.cursor - 1;
        }
    }

    /// Takes out the character at the cursor, if there is one.
    pub fn del_back(&mut self)
        requires
            old(self).wf(),
        ensures
            final(self).wf(),
            final(self)@.cursor == old(self)@.cursor,
            old(self)@.cursor < old(self)@.text.len() ==> final(self)@.text == old(
                self,
            )@.text.remove(old(self)@.cursor),
            old(self)@.cursor == old(self)@.text.len() ==> final(self)@ == old(self)@,
    {
        if self.cursor < self.buffer.len() {
            self.buffer.remove(self.cursor);
        }
    }

    /// Of every character of the text, whether it is alphanumeric.
    fn kinds(&self) -> (kinds: Vec<bool>)
        ensures
            kinds@ == kinds_of(self.buffer@),
    {
        let mut kinds: Vec<bool> = Vec::new();
        let mut i: usize = 0;
        while i < self.buffer.len()
            invariant
                i <= self.buffer.len(),
                kinds@ == kinds_of(self.buffer@.take(i as int)),
            decreases self.buffer.len() - i,
        {
            kinds.push(is_alphanumeric(self.buffer[i]));
            assert(kinds_of(self.buffer@.take(i + 1)) =~= kinds_of(self.buffer@.take(i as int)).push(
                alphanumeric(self.buffer@[i as int]),
            ));
            i += 1;
        }
        assert(self.buffer@.take(i as int) =~= self.buffer@);
        kinds
    }

    /// Moves the cursor to the right.
    pub fn increment_cursor(&mut self, whole_word: bool)
        requires
            old(self).wf(),
        ensures
            final(self).wf(),
            final(self)@.text == old(self)@.text,
            final(self)@.cursor == cursor_right(
                kinds_of(old(self)@.text),
                old(self)@.cursor,
                whole_word,
            ),
    {
        if whole_word {
            let kinds = self.kinds();
            self.cursor = step_right(&kinds, self.cursor, true);
        } else if self.cursor < self.buffer.len() {
            self.cursor = self.cursor + 1;
        }
    }

    /// Moves the cursor to the left.
    pub fn decrement_cursor(&mut self, whole_word: bool)
        requires
            old(self).wf(),
        ensures
            final(self).wf(),
            final(self)@.text == old(self)@.text,
            final(self)@.cursor == cursor_left(
                kinds_of(old(self)@.text),
                old(self)@.cursor,
                whole_word,
            ),
    {
        if whole_word {
            let kinds = self.kinds();
            self.cursor = step_left(&kinds, self.cursor, true);
        } else if self.cursor > 0 {
            self.cursor = self.cursor - 1;
        }
    }

    /// The text of the buffer.
    pub fn string(&self) -> (text: String)
        ensures
            text@ == self@.text,
    {
        string_of(&self.buffer)
    }

    /// The columns that showing the text takes: the longest line and one
    /// more for the cursor.
    pub fn required_width(&self) -> (width: usize)
        ensures
            width == (if longest_line(self@.text) + 1 > usize::MAX {
                usize::MAX as int
            } else {
                longest_line(self@.text) + 1
            }),
    {
        let mut longest: usize = 0;
        let mut current: usize = 0;
        let mut i: usize = 0;
        assert(self.buffer@.take(0) =~= Seq::empty());
        while i < self.buffer.len()
            invariant
                i <= self.buffer.len(),
                longest == longest_line(self.buffer@.take(i as int)),
                current == last_line_len(self.buffer@.take(i as int)),
            decreases self.buffer.len() - i,
        {
            proof {
                let next = self.buffer@.take(i + 1);
                assert(next.drop_last() =~= self.buffer@.take(i as int));
                assert(next.last() == self.buffer@[i as int]);
                lemma_line_bounds(self.buffer@.take(i as int));
            }
            if self.buffer[i] == '\n' {
                current = 0;
            } else {
                current = current + 1;
            }
            if current > longest {
                longest = current;
            }
            i += 1;
        }
        assert(self.buffer@.take(i as int) =~= self.buffer@);
        longest.saturating_add(1)
    }

    /// The number of line feeds in the text.
    pub fn required_height(&self) -> (height: usize)
        ensures
            height == line_feeds(self@.text),
    {
        let mut count: usize = 0;
        let mut i: usize = 0;
        assert(self.buffer@.take(0) =~= Seq::empty());
        while i < self.buffer.len()
            invariant
                i <= self.buffer.len(),
                count == line_feeds(self.buffer@.take(i as int)),
            decreases self.buffer.len() - i,
        {
            proof {
                let next = self.buffer@.take(i + 1);
                assert(next.drop_last() =~= self.buffer@.take(i as int));
                assert(next.last() == self.buffer@[i as int]);
                lemma_line_bounds(self.buffer@.take(i as int));
            }
            if self.buffer[i] == '\n' {
                count = count + 1;
            }
            i += 1;
        }
        assert(self.buffer@.take(i as int) =~= self.buffer@);
        count
    }

    /// The text before the cursor, the character under it, where there is
    /// one, and the text behind that character.
    pub fn parts(&self) -> (parts: (String, Option<char>, String))
        requires
            self.wf(),
        ensures
            parts.0@ == self@.text.take(self@.cursor),
            parts.1 == (if self@.cursor < self@.text.len() {
                Some(self@.text[self@.cursor])
            } else {
                None
            }),
            parts.2@ == (if self@.cursor < self@.text.len() {
                self@.text.skip(self@.cursor + 1)
            } else {
                Seq::empty()
            }),
    {
        let mut before: Vec<char> = Vec::new();
        let mut after: Vec<char> = Vec::new();
        let mut i: usize = 0;
        assert(self.buffer@.take(0) =~= Seq::empty());
        while i < self.cursor
            invariant
                i <= self.cursor <= self.buffer.len(),
                before@ == self.buffer@.take(i as int),
            decreases self.cursor - i,
        {
            before.push(self.buffer[i]);
            assert(self.buffer@.take(i + 1) =~= self.buffer@.take(i as int).push(
                self.buffer@[i as int],
            ));
            i += 1;
        }
        let under = if self.cursor < self.buffer.len() {
            Some(self.buffer[self.cursor])
        } else {
            None
        };
        if self.cursor < self.buffer.len() {
            let mut j: usize = self.cursor + 1;
            let ghost from = self.cursor + 1;
            assert(self.buffer@.subrange(from, from) =~= Seq::empty());
            while j < self.buffer.len()
                invariant
                    from <= j <= self.buffer.len(),
                    from == self.cursor + 1,
                    after@ == self.buffer@.subrange(from, j as int),
                decreases self.buffer.len() - j,
            {
                after.push(self.buffer[j]);
                assert(self.buffer@.subrange(from, j + 1) =~= self.buffer@.subrange(
                    from,
                    j as int,
                ).push(self.buffer@[j as int]));
                j += 1;
            }
            assert(self.buffer@.subrange(from, self.buffer@.len() as int) =~= self.buffer@.skip(
                from,
            ));
        }
        (string_of(&before), under, string_of(&after))
    }
}

} // verus!
