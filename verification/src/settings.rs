//! User-configurable settings of the input method, and their shipped
//! defaults. Reading and writing the configuration file is the
//! application's part; this is the data and what it means.

use vstd::prelude::*;
use crate::style::{BracketStyle, PunctuationStyle, SlashStyle, SymbolStyle};
use crate::text::string_texts;
use crate::width::{default_width_rules, WidthRules};

verus! {

/// The space the Space key inputs while typing kana. Alphabet and emoji
/// input always take the ASCII one, like the width rules leave direct input
/// alone.
#[derive(Debug, Clone, Copy, PartialEq, Eq, Structural)]
pub enum SpaceStyle {
    /// The ASCII space.
    Half,
    /// The ideographic space `　`.
    Full,
}

impl Default for SpaceStyle {
    fn default() -> (s: SpaceStyle)
        ensures
            s == SpaceStyle::Half,
    {
        SpaceStyle::Half
    }
}

/// Which symbol the keys with more than one conventional output type. The
/// width these settle at is `[width]`, not this section.
#[derive(Debug, Clone, Copy, PartialEq, Eq, Structural)]
pub struct SymbolSettings {
    /// What `,` and `.` type: 、。 ，． 、． ，。
    pub punctuation: PunctuationStyle,
    /// What `[` and `]` type: 「」 or []
    pub bracket: BracketStyle,
    /// What `/` types: ・ or /
    pub slash: SlashStyle,
    /// The space Space inputs while typing kana
    pub space: SpaceStyle,
}

impl SymbolSettings {
    /// The key-to-symbol style the romaji converter is built with. Space is
    /// not part of it: no romaji rule types a space.
    pub fn style(&self) -> (s: SymbolStyle)
        ensures
            s.punctuation == self.punctuation,
            s.bracket == self.bracket,
            s.slash == self.slash,
    {
        SymbolStyle { punctuation: self.punctuation, bracket: self.bracket, slash: self.slash }
    }
}

/// When the candidate window opens.
#[derive(Debug, Clone, Copy, PartialEq, Eq, Structural)]
pub enum CandidateWindow {
    /// While typing too, then through the conversion.
    Always,
    /// Only once Space starts a conversion.
    Conversion,
}

impl Default for CandidateWindow {
    fn default() -> (w: CandidateWindow)
        ensures
            w == CandidateWindow::Always,
    {
        CandidateWindow::Always
    }
}

/// Aux-line settings
#[derive(Debug, Clone, Copy)]
pub struct DisplaySettings {
    /// Start with the detailed aux line (Ctrl+Shift+V toggles it live):
    /// which part the alternatives cover, inference timing, the model that
    /// ran, and the context handed to it.
    pub verbose: bool,
    /// When the candidate window opens: while typing too, or only once
    /// Space starts a conversion.
    pub candidate_window: CandidateWindow,
}

/// Conversion strategy mode
#[derive(Debug, Clone, Copy, PartialEq, Eq, Structural)]
pub enum StrategyMode {
    /// Adaptive: dynamically switch between main and light models based on latency
    Adaptive,
    /// Light: use light_model only (loaded into main slot, beam search on Space)
    Light,
    /// Main: use main model only (no light model loaded)
    Main,
}

impl Default for StrategyMode {
    fn default() -> (m: StrategyMode)
        ensures
            m == StrategyMode::Adaptive,
    {
        StrategyMode::Adaptive
    }
}

/// Conversion-related settings
#[derive(Debug, Clone)]
pub struct ConversionSettings {
    /// Conversion strategy mode (adaptive, light, main)
    pub strategy: StrategyMode,
    /// Number of candidates to show on Space conversion
    pub num_candidates: usize,
    /// How many characters past the typed reading a predictive
    /// (prefix-extending) candidate may run, for dictionaries and the
    /// learning cache alike
    pub predict_extra_chars: usize,
    /// Use surrounding text (text left of cursor) as context for conversion
    pub use_context: bool,
    /// Maximum number of surrounding text characters passed to the conversion API
    pub context_chars: usize,
    /// Maximum reading length (in characters) converted by the model in a
    /// single call during live conversion
    pub chunk_chars: usize,
    /// Marks (、。！？…) a chunk containing Japanese keeps instead of
    /// splitting there
    pub chunk_symbols: usize,
    /// Digits a chunk containing Japanese keeps
    pub chunk_digits: usize,
    /// Alphabet chars a chunk containing Japanese keeps
    pub chunk_alphabets: usize,
    /// Path to dictionary binary file (optional, defaults to data_dir/dict.bin)
    pub dict_path: Option<String>,
    /// Main model: a key in `[models]`
    pub model: String,
    /// Beam search model (Space conversion, adaptive downgrade): a key in `[models]`
    pub light_model: String,
    /// Chars the beam covers, snapped to chunk boundaries
    pub beam_chars: usize,
    /// Beam width: how many alternatives the beam returns
    pub beam_width: usize,
    /// Maximum acceptable latency in milliseconds for auto-suggest (0 = disabled)
    pub max_latency_ms: u64,
    /// Number of threads for inference (0 = all cores)
    pub n_threads: u32,
    /// Enable live conversion at startup (Ctrl+Shift+L still toggles at runtime)
    pub live_conversion: bool,
}

/// Learning cache settings
#[derive(Debug, Clone, Copy)]
pub struct LearningSettings {
    /// Whether learning is enabled
    pub enabled: bool,
    /// Maximum number of total entries in the learning cache
    pub max_entries: usize,
    /// Maximum surface length (in characters) recorded into the learning
    /// cache; longer conversion results are not learned
    pub max_surface_chars: usize,
}

/// A phrase whose reading offers a date: the day `offset_days` from today,
/// written in `formats` when given, else in the section's formats.
#[derive(Debug, Clone)]
pub struct DatePhrase {
    /// The reading that offers the date
    pub reading: String,
    /// Days from today (negative for the past)
    pub offset_days: i64,
    /// The formats for this phrase, when it has its own
    pub formats: Option<Vec<String>>,
}

/// The `[date]` section: the formats a date is written in and the phrases
/// that offer one.
#[derive(Debug, Clone)]
pub struct DateSettings {
    /// The formats shared by every phrase without its own
    pub formats: Vec<String>,
    /// The phrases, in order
    pub phrases: Vec<DatePhrase>,
}

/// A phrase as plain values: reading, offset, and its own formats.
pub open spec fn phrase_view(p: DatePhrase) -> (Seq<char>, i64, Option<Seq<Seq<char>>>) {
    (p.reading@, p.offset_days, match p.formats {
        Some(f) => Some(string_texts(f@)),
        None => None,
    })
}

/// The `[date]` section as plain values: the shared formats and the phrases.
pub open spec fn date_view(d: DateSettings) -> (Seq<Seq<char>>, Seq<(Seq<char>, i64, Option<Seq<Seq<char>>>)>) {
    (string_texts(d.formats@), d.phrases@.map_values(|p: DatePhrase| phrase_view(p)))
}

/// A copy of `v`, string by string.
pub fn copy_strings(v: &Vec<String>) -> (r: Vec<String>)
    ensures
        string_texts(r@) == string_texts(v@),
{
    let mut r: Vec<String> = Vec::new();
    let mut i: usize = 0;
    while i < v.len()
        invariant
            0 <= i <= v@.len(),
            r@.len() == i,
            forall|j: int| 0 <= j < i ==> (#[trigger] r@[j])@ == v@[j]@,
        decreases v@.len() - i,
    {
        let t = v[i].clone();
        r.push(t);
        i = i + 1;
    }
    assert(string_texts(r@) =~= string_texts(v@));
    r
}

impl DatePhrase {
    /// A copy of this phrase.
    pub fn copy(&self) -> (p: DatePhrase)
        ensures
            phrase_view(p) == phrase_view(*self),
    {
        let formats = match &self.formats {
            Some(f) => Some(copy_strings(f)),
            None => None,
        };
        DatePhrase { reading: self.reading.clone(), offset_days: self.offset_days, formats }
    }
}

impl DateSettings {
    /// No formats and no phrases.
    pub fn empty() -> (d: DateSettings)
        ensures
            date_view(d).0.len() == 0,
            date_view(d).1.len() == 0,
    {
        let d = DateSettings { formats: Vec::new(), phrases: Vec::new() };
        assert(date_view(d).1.len() == 0);
        d
    }

    /// A copy of this section.
    pub fn copy(&self) -> (d: DateSettings)
        ensures
            date_view(d) == date_view(*self),
    {
        let mut phrases: Vec<DatePhrase> = Vec::new();
        let mut i: usize = 0;
        while i < self.phrases.len()
            invariant
                0 <= i <= self.phrases@.len(),
                phrases@.len() == i,
                forall|j: int| 0 <= j < i ==> phrase_view(#[trigger] phrases@[j]) == phrase_view(self.phrases@[j]),
            decreases self.phrases@.len() - i,
        {
            phrases.push(self.phrases[i].copy());
            i = i + 1;
        }
        let d = DateSettings { formats: copy_strings(&self.formats), phrases };
        assert(d.phrases@.map_values(|p: DatePhrase| phrase_view(p)) =~= self.phrases@.map_values(
            |p: DatePhrase| phrase_view(p),
        ));
        d
    }
}

/// Configuration settings for the IME: the sections of `config.toml` the
/// engine reads.
#[derive(Debug, Clone)]
pub struct Settings {
    /// Conversion settings
    pub conversion: ConversionSettings,
    /// Learning cache settings
    pub learning: LearningSettings,
    /// What the aux line shows
    pub display: DisplaySettings,
    /// Which symbol each configurable key types
    pub symbol: SymbolSettings,
    /// The width kana input comes out at, per character group
    pub width: WidthRules,
    /// The date phrases and the formats they are written in
    pub date: DateSettings,
}

/// The shipped defaults, section by section.
pub open spec fn shipped_conversion(c: ConversionSettings) -> bool {
    &&& c.strategy == StrategyMode::Adaptive
    &&& c.num_candidates == 9
    &&& c.predict_extra_chars == 0
    &&& c.use_context
    &&& c.context_chars == 10
    &&& c.chunk_chars == 30
    &&& c.chunk_symbols == 1
    &&& c.chunk_digits == 0
    &&& c.chunk_alphabets == 0
    &&& c.dict_path is None
    &&& c.model@ == "jinen-v2-small-q5"@
    &&& c.light_model@ == "jinen-v2-xsmall-q5"@
    &&& c.beam_chars == 30
    &&& c.beam_width == 3
    &&& c.max_latency_ms == 100
    &&& c.n_threads == 4
    &&& c.live_conversion
}

/// Every section at its shipped value.
pub open spec fn shipped_settings(s: Settings) -> bool {
    &&& shipped_conversion(s.conversion)
    &&& s.learning.enabled
    &&& s.learning.max_entries == 10_000
    &&& s.learning.max_surface_chars == 50
    &&& !s.display.verbose
    &&& s.display.candidate_window == CandidateWindow::Always
    &&& s.symbol.punctuation == PunctuationStyle::KutenTouten
    &&& s.symbol.bracket == BracketStyle::Corner
    &&& s.symbol.slash == SlashStyle::MiddleDot
    &&& s.symbol.space == SpaceStyle::Half
    &&& s.width == default_width_rules()
    &&& date_view(s.date).0.len() == 0
    &&& date_view(s.date).1.len() == 0
}

impl Settings {
    /// The shipped configuration.
    pub fn shipped() -> (s: Settings)
        ensures
            shipped_settings(s),
    {
        Settings {
            conversion: ConversionSettings {
                strategy: StrategyMode::Adaptive,
                num_candidates: 9,
                predict_extra_chars: 0,
                use_context: true,
                context_chars: 10,
                chunk_chars: 30,
                chunk_symbols: 1,
                chunk_digits: 0,
                chunk_alphabets: 0,
                dict_path: None,
                model: "jinen-v2-small-q5".to_string(),
                light_model: "jinen-v2-xsmall-q5".to_string(),
                beam_chars: 30,
                beam_width: 3,
                max_latency_ms: 100,
                n_threads: 4,
                live_conversion: true,
            },
            learning: LearningSettings { enabled: true, max_entries: 10_000, max_surface_chars: 50 },
            display: DisplaySettings { verbose: false, candidate_window: CandidateWindow::Always },
            symbol: SymbolSettings {
                punctuation: PunctuationStyle::KutenTouten,
                bracket: BracketStyle::Corner,
                slash: SlashStyle::MiddleDot,
                space: SpaceStyle::Half,
            },
            width: WidthRules::default_rules(),
            date: DateSettings::empty(),
        }
    }
}

impl Default for Settings {
    /// The shipped configuration: [`Settings::shipped`].
    fn default() -> (s: Settings)
        ensures
            shipped_settings(s),
    {
        Settings::shipped()
    }
}

} // verus!
