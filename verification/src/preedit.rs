//! The preedit: the not-yet-committed text shown at the caret.

use vstd::prelude::*;
use crate::text::chars_of;

verus! {

/// Preedit text with a caret position (in characters).
#[derive(Debug)]
pub struct Preedit {
    text: String,
    caret: usize,
}

impl Preedit {
    /// Its text.
    pub closed spec fn shown(&self) -> Seq<char> {
        self.text@
    }

    /// The caret position.
    pub closed spec fn caret_at(&self) -> usize {
        self.caret
    }

    /// An empty preedit.
    pub fn new() -> (p: Preedit)
        ensures
            p.shown().len() == 0,
            p.caret_at() == 0,
    {
        Preedit { text: String::new(), caret: 0 }
    }

    /// `text`, underlined, the caret at its end.
    pub fn with_text_underlined(text: &str) -> (p: Preedit)
        ensures
            p.shown() == text@,
            p.caret_at() == text@.len(),
    {
        let n = chars_of(text).len();
        Preedit { text: text.to_string(), caret: n }
    }

    /// The text.
    pub fn text(&self) -> (t: &str)
        ensures
            t@ == self.shown(),
    {
        self.text.as_str()
    }

    /// The caret position.
    pub fn caret(&self) -> (c: usize)
        ensures
            c == self.caret_at(),
    {
        self.caret
    }

    /// Place the caret.
    pub fn set_caret(&mut self, caret: usize)
        ensures
            final(self).shown() == old(self).shown(),
            final(self).caret_at() == caret,
    {
        self.caret = caret;
    }

    /// A copy.
    pub fn copy(&self) -> (p: Preedit)
        ensures
            p.shown() == self.shown(),
            p.caret_at() == self.caret_at(),
    {
        Preedit { text: self.text.clone(), caret: self.caret }
    }
}

impl Default for Preedit {
    fn default() -> (p: Preedit)
        ensures
            p.shown().len() == 0,
            p.caret_at() == 0,
    {
        Preedit::new()
    }
}

} // verus!
