//! Input state machine
//!
//! Defines the states of the IME and transitions between them.

use vstd::prelude::*;
use crate::candidate::{CandidateList, CandidateSource};
use crate::preedit::Preedit;

verus! {

/// One 文節 of a conversion: a stretch of the reading with its own
/// candidate list. A conversion starts as a single segment over the whole
/// reading.
#[derive(Debug)]
pub struct Segment {
    /// The (settled) reading this segment converts
    pub reading: String,
    /// Its candidates — the source view's rows while `filter` is set
    pub candidates: CandidateList,
    /// The source filter narrowing this segment's window; `None` shows its
    /// full list
    pub filter: Option<CandidateSource>,
}

/// The text a segment commits: its selected candidate's, or the reading
/// when its list is empty.
pub open spec fn segment_text(s: Segment) -> Seq<char> {
    if s.candidates.items().len() > 0 {
        s.candidates.items()[s.candidates.position() as int].text@
    } else {
        s.reading@
    }
}

/// The texts of `segs` one after the other: what the conversion shows and
/// commits.
pub open spec fn joined(segs: Seq<Segment>) -> Seq<char>
    decreases segs.len(),
{
    if segs.len() == 0 {
        Seq::empty()
    } else {
        joined(segs.drop_last()) + segment_text(segs.last())
    }
}

/// The readings of `segs` one after the other.
pub open spec fn joined_reading(segs: Seq<Segment>) -> Seq<char>
    decreases segs.len(),
{
    if segs.len() == 0 {
        Seq::empty()
    } else {
        joined_reading(segs.drop_last()) + segs.last().reading@
    }
}

/// The joined text of a single segment is its own text.
pub proof fn lemma_joined_one(seg: Segment)
    ensures
        joined(seq![seg]) == segment_text(seg),
        joined_reading(seq![seg]) == seg.reading@,
{
    assert(seq![seg].drop_last() =~= Seq::<Segment>::empty());
    assert(seq![seg].last() == seg);
    assert(joined(Seq::<Segment>::empty()) == Seq::<char>::empty());
    assert(joined_reading(Seq::<Segment>::empty()) == Seq::<char>::empty());
    assert(Seq::<char>::empty() + segment_text(seg) =~= segment_text(seg));
    assert(Seq::<char>::empty() + seg.reading@ =~= seg.reading@);
}

/// The texts of `segs` joined.
pub fn joined_text(segs: &[Segment]) -> (t: String)
    ensures
        t@ == joined(segs@),
{
    let mut out: Vec<char> = Vec::new();
    let mut i: usize = 0;
    assert(segs@.take(0) =~= Seq::<Segment>::empty());
    while i < segs.len()
        invariant
            0 <= i <= segs@.len(),
            out@ == joined(segs@.take(i as int)),
        decreases segs@.len() - i,
    {
        let t = segs[i].selected_text();
        let cs = crate::text::chars_of(t);
        crate::text::chars_extend(&mut out, cs.as_slice());
        assert(segs@.take(i + 1).drop_last() =~= segs@.take(i as int));
        assert(segs@.take(i + 1).last() == segs@[i as int]);
        i = i + 1;
    }
    assert(segs@.take(segs@.len() as int) =~= segs@);
    crate::text::string_from_chars(out.as_slice())
}

impl Segment {
    /// A segment showing its full list.
    pub fn new(reading: &str, candidates: CandidateList) -> (s: Segment)
        ensures
            s.reading@ == reading@,
            s.candidates == candidates,
            s.filter is None,
    {
        Segment { reading: reading.to_string(), candidates, filter: None }
    }

    /// The text this segment commits: the selected candidate, or the raw
    /// reading when the list is empty (a source view narrowed to nothing
    /// displays the reading, so that is what committing produces — never
    /// an empty commit that would eat the composition).
    pub fn selected_text(&self) -> (t: &str)
        ensures
            t@ == segment_text(*self),
    {
        match self.candidates.selected_text() {
            Some(t) => t,
            None => self.reading.as_str(),
        }
    }
}

/// The current state of the IME
#[derive(Debug)]
pub enum InputState {
    /// No input, waiting for user to type
    Empty,
    /// Composing mode - building preedit text (hiragana, katakana, or alphabet)
    Composing {
        /// The preedit string being composed
        preedit: Preedit,
    },
    /// Conversion mode - selecting from candidates
    Conversion {
        /// The preedit string showing conversion result
        preedit: Preedit,
        /// The segments the reading is split into: one over the whole
        /// reading until the user resizes it. Never empty
        segments: Vec<Segment>,
        /// The focused segment — the one the candidate window shows and
        /// the candidate keys act on. Always a valid index
        focus: usize,
    },
}

/// The focused segment of a conversion state, if the focus names one.
pub open spec fn focused_of(s: InputState) -> Option<Segment> {
    match s {
        InputState::Conversion { segments, focus, .. } => if focus < segments@.len() {
            Some(segments@[focus as int])
        } else {
            None
        },
        _ => None,
    }
}

impl Default for InputState {
    fn default() -> (s: InputState)
        ensures
            s is Empty,
    {
        InputState::Empty
    }
}

impl InputState {
    /// Check if the engine is in the Empty (idle) state
    pub fn is_empty(&self) -> (r: bool)
        ensures
            r == (*self is Empty),
    {
        matches!(self, Self::Empty)
    }

    /// Get the current preedit if any
    pub fn preedit(&self) -> (r: Option<&Preedit>)
        ensures
            match *self {
                InputState::Empty => r is None,
                InputState::Composing { preedit } => r == Some(&preedit),
                InputState::Conversion { preedit, .. } => r == Some(&preedit),
            },
    {
        match self {
            Self::Empty => None,
            Self::Composing { preedit, .. } => Some(preedit),
            Self::Conversion { preedit, .. } => Some(preedit),
        }
    }

    /// Get mutable reference to preedit
    pub fn preedit_mut(&mut self) -> (r: Option<&mut Preedit>)
        ensures
            match *old(self) {
                InputState::Empty => r is None && *final(self) is Empty,
                InputState::Composing { preedit } => match r {
                    Some(p) => *p == preedit && *final(self) == (InputState::Composing { preedit: *final(p) }),
                    None => false,
                },
                InputState::Conversion { preedit, segments, focus } => match r {
                    Some(p) => *p == preedit && *final(self) == (InputState::Conversion { preedit: *final(p), segments, focus }),
                    None => false,
                },
            },
    {
        match self {
            Self::Empty => None,
            Self::Composing { preedit, .. } => Some(preedit),
            Self::Conversion { preedit, .. } => Some(preedit),
        }
    }

    /// The conversion's segments, if in the Conversion state.
    pub fn segments(&self) -> (r: Option<&[Segment]>)
        ensures
            match *self {
                InputState::Conversion { segments, .. } => r matches Some(s) && s@ == segments@,
                _ => r is None,
            },
    {
        match self {
            Self::Conversion { segments, .. } => Some(segments.as_slice()),
            _ => None,
        }
    }

    /// Index of the focused segment, if in the Conversion state.
    pub fn focus(&self) -> (r: Option<usize>)
        ensures
            match *self {
                InputState::Conversion { focus, .. } => r == Some(focus),
                _ => r is None,
            },
    {
        match self {
            Self::Conversion { focus, .. } => Some(*focus),
            _ => None,
        }
    }

    /// The focused segment, if in the Conversion state.
    pub fn focused_segment(&self) -> (r: Option<&Segment>)
        ensures
            match focused_of(*self) {
                Some(seg) => r matches Some(s) && *s == seg,
                None => r is None,
            },
    {
        match self {
            Self::Conversion { segments, focus, .. } => {
                if *focus < segments.len() {
                    Some(&segments[*focus])
                } else {
                    None
                }
            },
            _ => None,
        }
    }

    /// The focused segment, mutable.
    pub fn focused_segment_mut(&mut self) -> (r: Option<&mut Segment>)
        ensures
            match *old(self) {
                InputState::Conversion { preedit, segments, focus } => if focus < segments@.len() {
                    match r {
                        Some(s) => *s == segments@[focus as int] && *final(self) == (InputState::Conversion {
                            preedit,
                            segments: final(self)->segments,
                            focus,
                        }) && final(self)->segments@ == segments@.update(focus as int, *final(s)),
                        None => false,
                    }
                } else {
                    r is None && *final(self) == *old(self)
                },
                _ => r is None && *final(self) == *old(self),
            },
    {
        match self {
            Self::Conversion { segments, focus, .. } => {
                if *focus < segments.len() {
                    Some(&mut segments[*focus])
                } else {
                    None
                }
            },
            _ => None,
        }
    }

    /// Whether the conversion has been split into more than one segment.
    pub fn is_segmented(&self) -> (r: bool)
        ensures
            r == (match *self {
                InputState::Conversion { segments, .. } => segments@.len() > 1,
                _ => false,
            }),
    {
        match self.segments() {
            Some(s) => s.len() > 1,
            None => false,
        }
    }

    /// The active source filter of the focused segment's window
    pub fn filter(&self) -> (r: Option<CandidateSource>)
        ensures
            r == (match focused_of(*self) {
                Some(seg) => seg.filter,
                None => None,
            }),
    {
        match self.focused_segment() {
            Some(s) => s.filter,
            None => None,
        }
    }

    /// The reading the focused segment's list was built from, if in the
    /// Conversion state.
    pub fn reading(&self) -> (r: Option<&str>)
        ensures
            match focused_of(*self) {
                Some(seg) => r matches Some(t) && t@ == seg.reading@,
                None => r is None,
            },
    {
        match self.focused_segment() {
            Some(s) => Some(s.reading.as_str()),
            None => None,
        }
    }

    /// The focused segment's candidates in conversion state
    pub fn candidates(&self) -> (r: Option<&CandidateList>)
        ensures
            match focused_of(*self) {
                Some(seg) => r matches Some(c) && *c == seg.candidates,
                None => r is None,
            },
    {
        match self.focused_segment() {
            Some(s) => Some(&s.candidates),
            None => None,
        }
    }

    /// Get mutable reference to the focused segment's candidates
    pub fn candidates_mut(&mut self) -> (r: Option<&mut CandidateList>)
        ensures
            match focused_of(*old(self)) {
                Some(seg) => match r {
                    Some(c) => *c == seg.candidates && focused_of(*final(self)) == Some(
                        Segment { candidates: *final(c), ..seg },
                    ) && match *old(self) {
                        InputState::Conversion { preedit, segments, focus } => *final(self) == (InputState::Conversion {
                            preedit,
                            segments: final(self)->segments,
                            focus,
                        }) && final(self)->segments@ == segments@.update(
                            focus as int,
                            Segment { candidates: *final(c), ..seg },
                        ),
                        _ => false,
                    },
                    None => false,
                },
                None => r is None && *final(self) == *old(self),
            },
    {
        match self.focused_segment_mut() {
            Some(s) => Some(&mut s.candidates),
            None => None,
        }
    }
}

} // verus!
