//! Which symbol the keys with more than one conventional output type.

use vstd::prelude::*;

verus! {

/// What the `,` and `.` keys type.
#[derive(Debug, Clone, Copy, PartialEq, Eq, Structural)]
pub enum PunctuationStyle {
    /// `、` and `。`
    KutenTouten,
    /// `，` and `．`
    CommaPeriod,
    /// `、` and `．`
    ToutenPeriod,
    /// `，` and `。`
    CommaKuten,
}

/// What the `[` and `]` keys type.
#[derive(Debug, Clone, Copy, PartialEq, Eq, Structural)]
pub enum BracketStyle {
    /// `「` and `」`
    Corner,
    /// `［` and `］`
    Square,
}

/// What the `/` key types.
#[derive(Debug, Clone, Copy, PartialEq, Eq, Structural)]
pub enum SlashStyle {
    /// `・`
    MiddleDot,
    /// `／`
    Slash,
}

/// The symbol choices a romaji rule table is built with.
#[derive(Debug, Clone, Copy, PartialEq, Eq, Structural)]
pub struct SymbolStyle {
    pub punctuation: PunctuationStyle,
    pub bracket: BracketStyle,
    pub slash: SlashStyle,
}

/// The output of the `,` key under `p`.
pub open spec fn comma_symbol(p: PunctuationStyle) -> char {
    match p {
        PunctuationStyle::KutenTouten | PunctuationStyle::ToutenPeriod => '、',
        PunctuationStyle::CommaPeriod | PunctuationStyle::CommaKuten => '，',
    }
}

/// The output of the `.` key under `p`.
pub open spec fn period_symbol(p: PunctuationStyle) -> char {
    match p {
        PunctuationStyle::KutenTouten | PunctuationStyle::CommaKuten => '。',
        PunctuationStyle::CommaPeriod | PunctuationStyle::ToutenPeriod => '．',
    }
}

/// The Japanese symbols: `、。`, `「」` and `・`.
pub open spec fn default_symbol_style() -> SymbolStyle {
    SymbolStyle {
        punctuation: PunctuationStyle::KutenTouten,
        bracket: BracketStyle::Corner,
        slash: SlashStyle::MiddleDot,
    }
}

/// What each punctuation style types for `,` and `.` — the two marks its
/// name gives, in that order: `KutenTouten` the Japanese pair 、。,
/// `CommaPeriod` the full-width Western pair ，．, and the mixed styles one
/// of each: `ToutenPeriod` 、．, `CommaKuten` ，。. So `,` always types a
/// comma mark (、 or ，) and `.` a full stop (。 or ．), and no two styles
/// type the same pair.
pub proof fn lemma_punctuation_marks(p: PunctuationStyle, q: PunctuationStyle)
    ensures
        comma_symbol(p) == '、' || comma_symbol(p) == '，',
        period_symbol(p) == '。' || period_symbol(p) == '．',
        (comma_symbol(p), period_symbol(p)) == (match p {
            PunctuationStyle::KutenTouten => ('、', '。'),
            PunctuationStyle::CommaPeriod => ('，', '．'),
            PunctuationStyle::ToutenPeriod => ('、', '．'),
            PunctuationStyle::CommaKuten => ('，', '。'),
        }),
        comma_symbol(p) == comma_symbol(q) && period_symbol(p) == period_symbol(q) ==> p == q,
{
}

impl SymbolStyle {
    /// The Japanese symbols: `、。`, `「」` and `・`.
    pub fn default_style() -> (s: SymbolStyle)
        ensures
            s == default_symbol_style(),
            s.punctuation == PunctuationStyle::KutenTouten,
            s.bracket == BracketStyle::Corner,
            s.slash == SlashStyle::MiddleDot,
    {
        SymbolStyle {
            punctuation: PunctuationStyle::KutenTouten,
            bracket: BracketStyle::Corner,
            slash: SlashStyle::MiddleDot,
        }
    }

    /// What `,` types.
    pub fn comma(&self) -> (c: char)
        ensures
            c == comma_symbol(self.punctuation),
    {
        match self.punctuation {
            PunctuationStyle::KutenTouten | PunctuationStyle::ToutenPeriod => '、',
            PunctuationStyle::CommaPeriod | PunctuationStyle::CommaKuten => '，',
        }
    }

    /// What `.` types.
    pub fn period(&self) -> (c: char)
        ensures
            c == period_symbol(self.punctuation),
    {
        match self.punctuation {
            PunctuationStyle::KutenTouten | PunctuationStyle::CommaKuten => '。',
            PunctuationStyle::CommaPeriod | PunctuationStyle::ToutenPeriod => '．',
        }
    }

    /// What `[` types.
    pub fn open_bracket(&self) -> (c: char)
        ensures
            c == (if self.bracket == BracketStyle::Corner { '「' } else { '［' }),
    {
        match self.bracket {
            BracketStyle::Corner => '「',
            BracketStyle::Square => '［',
        }
    }

    /// What `]` types.
    pub fn close_bracket(&self) -> (c: char)
        ensures
            c == (if self.bracket == BracketStyle::Corner { '」' } else { '］' }),
    {
        match self.bracket {
            BracketStyle::Corner => '」',
            BracketStyle::Square => '］',
        }
    }

    /// What `/` types.
    pub fn slash_symbol(&self) -> (c: char)
        ensures
            c == (if self.slash == SlashStyle::MiddleDot { '・' } else { '／' }),
    {
        match self.slash {
            SlashStyle::MiddleDot => '・',
            SlashStyle::Slash => '／',
        }
    }
}

impl Default for SymbolStyle {
    fn default() -> (s: SymbolStyle)
        ensures
            s.punctuation == PunctuationStyle::KutenTouten,
            s.bracket == BracketStyle::Corner,
            s.slash == SlashStyle::MiddleDot,
    {
        SymbolStyle::default_style()
    }
}

} // verus!
