//! Conversion candidates and the list the candidate window shows.

use vstd::prelude::*;

verus! {

/// Where a candidate came from.
#[derive(Debug, Clone, Copy, PartialEq, Eq, Structural)]
pub enum CandidateSource {
    /// The user's own conversion history
    Learning,
    /// A user dictionary
    UserDictionary,
    /// The system dictionary
    Dictionary,
    /// The conversion model
    Model,
    /// A rewriter variant (half-width katakana, symbol variants, emoji)
    Rewriter,
    /// The plain kana of the reading
    Fallback,
    /// A date or time phrase
    Date,
}

/// The emoji that names a source in the aux line: 📝 learning, 👤 user
/// dictionary, 🤖 model, 📚 system dictionary, 🔄 rewriter; the plain kana
/// and dates have none.
pub open spec fn source_label(s: CandidateSource) -> Option<char> {
    match s {
        CandidateSource::Learning => Some('\u{1F4DD}'),
        CandidateSource::UserDictionary => Some('\u{1F464}'),
        CandidateSource::Model => Some('\u{1F916}'),
        CandidateSource::Dictionary => Some('\u{1F4DA}'),
        CandidateSource::Rewriter => Some('\u{1F504}'),
        CandidateSource::Fallback | CandidateSource::Date => None,
    }
}

impl CandidateSource {
    /// The emoji that names this source, if it has one.
    pub fn label(&self) -> (r: Option<char>)
        ensures
            r == source_label(*self),
    {
        match self {
            CandidateSource::Learning => Some('\u{1F4DD}'),
            CandidateSource::UserDictionary => Some('\u{1F464}'),
            CandidateSource::Model => Some('\u{1F916}'),
            CandidateSource::Dictionary => Some('\u{1F4DA}'),
            CandidateSource::Rewriter => Some('\u{1F504}'),
            CandidateSource::Fallback | CandidateSource::Date => None,
        }
    }

    /// Whether committing a candidate of this source teaches the learning
    /// cache: every source but dates, which are stale tomorrow.
    pub fn is_learnable(&self) -> (r: bool)
        ensures
            r == (*self != CandidateSource::Date),
    {
        !matches!(self, CandidateSource::Date)
    }
}

/// One conversion candidate.
#[derive(Debug)]
pub struct Candidate {
    /// The text committing it produces
    pub text: String,
    /// The reading it converts
    pub reading: Option<String>,
    /// Where it came from
    pub source: Option<CandidateSource>,
    /// A note shown beside it
    pub description: Option<String>,
}

/// The text of an optional string.
pub open spec fn opt_text(o: Option<String>) -> Option<Seq<char>> {
    match o {
        Some(s) => Some(s@),
        None => None,
    }
}

/// A candidate as plain values: its text, reading, source and note.
pub open spec fn cand_view(c: Candidate) -> (Seq<char>, Option<Seq<char>>, Option<CandidateSource>, Option<Seq<char>>) {
    (c.text@, opt_text(c.reading), c.source, opt_text(c.description))
}

/// A copy of `o`.
pub fn copy_opt_string(o: &Option<String>) -> (r: Option<String>)
    ensures
        r matches Some(s) ==> (o matches Some(t) && s@ == t@),
        r is None <==> o is None,
{
    match o {
        Some(s) => Some(s.clone()),
        None => None,
    }
}

impl Candidate {
    /// A candidate with a reading and no source.
    pub fn with_reading(text: &str, reading: &str) -> (c: Candidate)
        ensures
            c.text@ == text@,
            c.reading matches Some(r) && r@ == reading@,
            c.source is None,
            c.description is None,
    {
        Candidate { text: text.to_string(), reading: Some(reading.to_string()), source: None, description: None }
    }

    /// Whether this candidate is a user-history entry that can be deleted
    /// from the learning cache.
    pub fn is_deletable(&self) -> (r: bool)
        ensures
            r == (self.source == Some(CandidateSource::Learning)),
    {
        match self.source {
            Some(CandidateSource::Learning) => true,
            _ => false,
        }
    }

    /// A copy of the candidate.
    pub fn copy(&self) -> (c: Candidate)
        ensures
            cand_view(c) == cand_view(*self),
            c.text@ == self.text@,
            c.source == self.source,
            c.reading is Some <==> self.reading is Some,
            c.reading matches Some(r) ==> (self.reading matches Some(s) && r@ == s@),
            c.description is Some <==> self.description is Some,
    {
        Candidate {
            text: self.text.clone(),
            reading: copy_opt_string(&self.reading),
            source: self.source,
            description: copy_opt_string(&self.description),
        }
    }
}

/// How many candidates a page of the window shows (one per digit key).
pub const PAGE_SIZE: usize = 9;

/// How many pages `n` candidates fill.
pub open spec fn pages_of(n: nat) -> nat {
    n / (PAGE_SIZE as nat) + if n % (PAGE_SIZE as nat) > 0 {
        1nat
    } else {
        0nat
    }
}

/// The candidate the `index`-th slot of the selection's page holds.
pub open spec fn page_target(position: usize, index: usize) -> int {
    (position / PAGE_SIZE) * PAGE_SIZE + index
}

/// The candidates of a window and which one is selected.
#[derive(Debug)]
pub struct CandidateList {
    candidates: Vec<Candidate>,
    cursor: usize,
}

impl CandidateList {
    /// The candidates' texts, in order.
    pub open spec fn texts(&self) -> Seq<Seq<char>> {
        self.items().map_values(|c: Candidate| c.text@)
    }

    /// The candidates, in order.
    pub closed spec fn items(&self) -> Seq<Candidate> {
        self.candidates@
    }

    /// The selected position.
    pub closed spec fn position(&self) -> usize {
        self.cursor
    }

    /// The selection is a candidate, or 0 in an empty list.
    #[verifier::type_invariant]
    pub open spec fn wf(self) -> bool {
        self.position() == 0 || self.position() < self.items().len()
    }

    /// A list of `candidates`, the first selected.
    pub fn new(candidates: Vec<Candidate>) -> (l: CandidateList)
        ensures
            l.items() == candidates@,
            l.position() == 0,
    {
        CandidateList { candidates, cursor: 0 }
    }

    /// An empty list.
    pub fn empty() -> (l: CandidateList)
        ensures
            l.items().len() == 0,
            l.position() == 0,
    {
        CandidateList { candidates: Vec::new(), cursor: 0 }
    }

    /// The candidates.
    pub fn candidates(&self) -> (r: &[Candidate])
        ensures
            r@ == self.items(),
    {
        self.candidates.as_slice()
    }

    /// Number of candidates.
    pub fn len(&self) -> (n: usize)
        ensures
            n == self.items().len(),
    {
        self.candidates.len()
    }

    /// Whether there are none.
    pub fn is_empty(&self) -> (r: bool)
        ensures
            r == (self.items().len() == 0),
    {
        self.candidates.len() == 0
    }

    /// The selected position.
    pub fn cursor(&self) -> (n: usize)
        ensures
            n == self.position(),
    {
        self.cursor
    }

    /// The selected candidate; `None` in an empty list.
    pub fn selected(&self) -> (r: Option<&Candidate>)
        ensures
            self.items().len() == 0 ==> r is None,
            self.items().len() > 0 ==> (r matches Some(c) && *c == self.items()[self.position() as int]),
    {
        proof {
            use_type_invariant(self);
        }
        if self.cursor < self.candidates.len() {
            Some(&self.candidates[self.cursor])
        } else {
            None
        }
    }

    /// The selected candidate's text; `None` in an empty list.
    pub fn selected_text(&self) -> (r: Option<&str>)
        ensures
            self.items().len() == 0 ==> r is None,
            self.items().len() > 0 ==> (r matches Some(t) && t@ == self.items()[self.position() as int].text@),
    {
        match self.selected() {
            Some(c) => Some(c.text.as_str()),
            None => None,
        }
    }

    /// A copy of the list, the selection included.
    pub fn copy(&self) -> (l: CandidateList)
        ensures
            l.texts() == self.texts(),
            l.position() == self.position(),
            l.items().len() == self.items().len(),
            forall|i: int| 0 <= i < self.items().len() ==> (#[trigger] l.items()[i]).source == self.items()[i].source,
    {
        proof {
            use_type_invariant(self);
        }
        let mut v: Vec<Candidate> = Vec::new();
        let mut i: usize = 0;
        while i < self.candidates.len()
            invariant
                0 <= i <= self.candidates@.len(),
                v@.len() == i,
                forall|j: int| 0 <= j < i ==> (#[trigger] v@[j]).text@ == self.candidates@[j].text@
                    && v@[j].source == self.candidates@[j].source,
            decreases self.candidates@.len() - i,
        {
            v.push(self.candidates[i].copy());
            i = i + 1;
        }
        let l = CandidateList { candidates: v, cursor: self.cursor };
        assert(l.texts() =~= self.texts());
        l
    }

    /// How many pages the list fills.
    pub fn total_pages(&self) -> (n: usize)
        ensures
            n == pages_of(self.items().len()),
    {
        let len = self.candidates.len();
        len / PAGE_SIZE + if len % PAGE_SIZE > 0 {
            1
        } else {
            0
        }
    }

    /// The page the selection is on, counted from 0.
    pub fn current_page(&self) -> (n: usize)
        ensures
            n == self.position() / PAGE_SIZE,
    {
        self.cursor / PAGE_SIZE
    }

    /// The position of the `index`-th candidate of the page the selection
    /// is on, if the page has one.
    pub fn page_slot(&self, index: usize) -> (r: Option<usize>)
        ensures
            page_target(self.position(), index) < self.items().len() ==> r == Some(
                page_target(self.position(), index) as usize,
            ),
            page_target(self.position(), index) >= self.items().len() ==> r is None,
    {
        let start = (self.cursor / PAGE_SIZE) * PAGE_SIZE;
        if index < self.candidates.len() && start <= self.candidates.len() - 1 - index {
            Some(start + index)
        } else {
            None
        }
    }

    /// Select the `index`-th candidate of the page the selection is on
    /// (pages of [`PAGE_SIZE`]); `None`, with nothing changed, when the page
    /// has no such candidate.
    pub fn select_on_page(&mut self, index: usize) -> (r: Option<usize>)
        ensures
            final(self).items() == old(self).items(),
            page_target(old(self).position(), index) < old(self).items().len() ==> r == Some(
                page_target(old(self).position(), index) as usize,
            ) && final(self).position() == page_target(old(self).position(), index),
            page_target(old(self).position(), index) >= old(self).items().len() ==> r is None
                && final(self).position() == old(self).position(),
    {
        let start = (self.cursor / PAGE_SIZE) * PAGE_SIZE;
        if index < self.candidates.len() && start <= self.candidates.len() - 1 - index {
            self.cursor = start + index;
            Some(start + index)
        } else {
            None
        }
    }

    /// Move the selection to the next candidate, wrapping to the first.
    pub fn select_next(&mut self)
        ensures
            final(self).items() == old(self).items(),
            old(self).items().len() == 0 ==> final(self).position() == 0,
            old(self).items().len() > 0 ==> final(self).position() == (if old(self).position() + 1 >= old(self).items().len() {
                0
            } else {
                old(self).position() + 1
            }),
    {
        proof {
            use_type_invariant(&*self);
        }
        let n = self.candidates.len();
        if n == 0 {
            return;
        }
        self.cursor = if self.cursor + 1 >= n { 0 } else { self.cursor + 1 };
    }

    /// Move the selection to the previous candidate, wrapping to the last.
    pub fn select_prev(&mut self)
        ensures
            final(self).items() == old(self).items(),
            old(self).items().len() == 0 ==> final(self).position() == 0,
            old(self).items().len() > 0 ==> final(self).position() == (if old(self).position() == 0 {
                old(self).items().len() - 1
            } else {
                old(self).position() - 1
            }),
    {
        proof {
            use_type_invariant(&*self);
        }
        let n = self.candidates.len();
        if n == 0 {
            return;
        }
        self.cursor = if self.cursor == 0 { n - 1 } else { self.cursor - 1 };
    }
}

impl Default for CandidateList {
    fn default() -> (l: CandidateList)
        ensures
            l.items().len() == 0,
            l.position() == 0,
    {
        CandidateList::empty()
    }
}

} // verus!
