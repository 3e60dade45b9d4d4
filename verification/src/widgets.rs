//! The frame that is drawn around a cell while it is edited.
use crate::file::byte_len;
use vstd::prelude::*;

verus! {

/// The frame of the editor, with the two hints that its last line shows.
pub struct Editor<'a> {
    validate_text: &'a str,
    cancel_text: &'a str,
}

impl<'a> Editor<'a> {
    /// The hint on how to commit, as characters.
    pub closed spec fn validate_hint(&self) -> Seq<char> {
        self.validate_text@
    }

    /// The hint on how to cancel, as characters.
    pub closed spec fn cancel_hint(&self) -> Seq<char> {
        self.cancel_text@
    }

    pub fn new(validate_text: &'a str, cancel_text: &'a str) -> (editor: Editor<'a>)
        ensures
            editor.validate_hint() == validate_text@,
            editor.cancel_hint() == cancel_text@,
    {
        Editor { validate_text, cancel_text }
    }

    /// The hint on how to commit.
    pub fn validate_text(&self) -> (text: &'a str)
        ensures
            text@ == self.validate_hint(),
    {
        self.validate_text
    }

    /// The hint on how to cancel.
    pub fn cancel_text(&self) -> (text: &'a str)
        ensures
            text@ == self.cancel_hint(),
    {
        self.cancel_text
    }

    /// The width that shows both hints side by side: twice the length in
    /// bytes of the longer one, and one more, held within `usize`.
    pub open spec fn spec_text_widths(&self) -> int {
        let validate = byte_len(self.validate_hint()) as int;
        let cancel = byte_len(self.cancel_hint()) as int;
        let longer = if validate >= cancel { validate } else { cancel };
        if longer * 2 + 1 > usize::MAX {
            usize::MAX as int
        } else {
            longer * 2 + 1
        }
    }

    pub fn text_widths(&self) -> (width: usize)
        ensures
            width == self.spec_text_widths(),
    {
        let validate = self.validate_text.len();
        let cancel = self.cancel_text.len();
        let longer = if validate >= cancel { validate } else { cancel };
        match longer.checked_mul(2) {
            Some(double) => double.saturating_add(1),
            None => usize::MAX,
        }
    }
}

} // verus!
