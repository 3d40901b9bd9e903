//! Type definitions for the IME engine

use vstd::prelude::*;
use crate::candidate::CandidateList;
use crate::preedit::Preedit;
use crate::settings::{date_view, CandidateWindow, DateSettings, Settings, SpaceStyle, StrategyMode};
use crate::style::{default_symbol_style, PunctuationStyle, SymbolStyle};
use crate::width::{default_width_rules, WidthRules};

verus! {

/// Action to be performed by the framework/UI layer
#[derive(Debug)]
pub enum EngineAction {
    /// Update the preedit display
    UpdatePreedit(Preedit),
    /// Show the candidate window with candidates
    ShowCandidates(CandidateList),
    /// Hide the candidate window
    HideCandidates,
    /// Commit text to the application
    Commit(String),
    /// Update auxiliary text (e.g., reading hint, mode indicator)
    UpdateAuxText(String),
    /// Hide auxiliary text
    HideAuxText,
}

/// Result of processing a key event
#[derive(Debug)]
pub struct EngineResult {
    /// Whether the key was consumed by the IME
    pub consumed: bool,
    /// Actions to perform
    pub actions: Vec<EngineAction>,
}

impl EngineResult {
    /// Consumed, no actions.
    pub fn consumed() -> (r: Self)
        ensures
            r.consumed,
            r.actions@.len() == 0,
    {
        Self { consumed: true, actions: Vec::new() }
    }

    /// Not consumed, no actions.
    pub fn not_consumed() -> (r: Self)
        ensures
            !r.consumed,
            r.actions@.len() == 0,
    {
        Self { consumed: false, actions: Vec::new() }
    }

    /// The same result with `action` appended.
    pub fn with_action(self, action: EngineAction) -> (r: Self)
        ensures
            r.consumed == self.consumed,
            r.actions@ == self.actions@.push(action),
    {
        let mut s = self;
        s.actions.push(action);
        s
    }
}

impl Default for EngineResult {
    fn default() -> (r: Self)
        ensures
            !r.consumed,
            r.actions@.len() == 0,
    {
        Self::not_consumed()
    }
}

/// Surrounding text context from the editor (text around the cursor)
#[derive(Debug)]
pub struct SurroundingContext {
    /// Text before the cursor (None if empty)
    pub left: Option<String>,
    /// Text after the cursor (None if empty)
    pub right: Option<String>,
}

/// Configuration for the IME engine
#[derive(Debug, Clone)]
pub struct EngineConfig {
    /// Number of conversion candidates for explicit conversion (Space key)
    pub num_candidates: usize,
    /// How many chars past the typed reading a predictive (prefix-extending)
    /// candidate may run, in the dictionaries and the learning cache alike
    pub predict_extra_chars: usize,
    /// Maximum context length to display
    pub display_context_chars: usize,
    /// Maximum context length for API calls (to avoid overflow)
    pub context_chars: usize,
    /// Maximum reading length (chars) converted by the model in a single call
    pub chunk_chars: usize,
    /// Maximum non-Japanese chars a Japanese chunk absorbs
    pub chunk_symbols: usize,
    /// Digits a chunk containing Japanese keeps (0 = split at every run)
    pub chunk_digits: usize,
    /// Alphabet chars a chunk containing Japanese keeps
    pub chunk_alphabets: usize,
    /// Chars the beam covers, snapped to chunk boundaries
    pub beam_chars: usize,
    /// Beam width: how many alternatives the beam returns
    pub beam_width: usize,
    /// Maximum acceptable latency in milliseconds for auto-suggest (0 = disabled)
    pub max_latency_ms: u64,
    /// Conversion strategy mode (adaptive, light, main)
    pub strategy: StrategyMode,
    /// Show the detailed aux line (Ctrl+Shift+V toggles it).
    pub verbose: bool,
    /// Whether live conversion is enabled at engine startup
    pub live_conversion: bool,
    /// When the candidate window (aux line included) opens
    pub candidate_window: CandidateWindow,
    /// Which symbol the `,` `.` `/` `[` `]` keys type
    pub symbol: SymbolStyle,
    /// The width kana input comes out at, per character group
    pub width: WidthRules,
    /// The space the Space key inputs
    pub space: SpaceStyle,
    /// The date phrases and their formats
    pub date: DateSettings,
}

impl EngineConfig {
    /// Build an engine config from user settings (config.toml): the
    /// conversion, display, symbol and width sections, with the context
    /// length 0 when context use is off.
    pub fn from_settings(settings: &Settings) -> (c: Self)
        ensures
            c.num_candidates == settings.conversion.num_candidates,
            c.predict_extra_chars == settings.conversion.predict_extra_chars,
            c.display_context_chars == 10,
            c.context_chars == (if settings.conversion.use_context { settings.conversion.context_chars } else { 0 }),
            c.chunk_chars == settings.conversion.chunk_chars,
            c.chunk_symbols == settings.conversion.chunk_symbols,
            c.chunk_digits == settings.conversion.chunk_digits,
            c.chunk_alphabets == settings.conversion.chunk_alphabets,
            c.beam_chars == settings.conversion.beam_chars,
            c.beam_width == settings.conversion.beam_width,
            c.max_latency_ms == settings.conversion.max_latency_ms,
            c.strategy == settings.conversion.strategy,
            c.verbose == settings.display.verbose,
            c.live_conversion == settings.conversion.live_conversion,
            c.candidate_window == settings.display.candidate_window,
            c.symbol.punctuation == settings.symbol.punctuation,
            c.symbol.bracket == settings.symbol.bracket,
            c.symbol.slash == settings.symbol.slash,
            c.width == settings.width,
            c.space == settings.symbol.space,
            date_view(c.date) == date_view(settings.date),
    {
        Self {
            num_candidates: settings.conversion.num_candidates,
            predict_extra_chars: settings.conversion.predict_extra_chars,
            display_context_chars: 10,
            context_chars: if settings.conversion.use_context {
                settings.conversion.context_chars
            } else {
                0
            },
            chunk_chars: settings.conversion.chunk_chars,
            chunk_symbols: settings.conversion.chunk_symbols,
            chunk_digits: settings.conversion.chunk_digits,
            chunk_alphabets: settings.conversion.chunk_alphabets,
            beam_chars: settings.conversion.beam_chars,
            beam_width: settings.conversion.beam_width,
            max_latency_ms: settings.conversion.max_latency_ms,
            strategy: settings.conversion.strategy,
            verbose: settings.display.verbose,
            live_conversion: settings.conversion.live_conversion,
            candidate_window: settings.display.candidate_window,
            symbol: settings.symbol.style(),
            width: settings.width,
            space: settings.symbol.space,
            date: settings.date.copy(),
        }
    }
}

/// The engine's defaults.
pub open spec fn default_engine_config(c: EngineConfig) -> bool {
    &&& c.num_candidates == 3
    &&& c.predict_extra_chars == 4
    &&& c.display_context_chars == 10
    &&& c.context_chars == 10
    &&& c.chunk_chars == 30
    &&& c.chunk_symbols == 1
    &&& c.chunk_digits == 0
    &&& c.chunk_alphabets == 0
    &&& c.beam_chars == 30
    &&& c.beam_width == 3
    &&& c.max_latency_ms == 100
    &&& c.strategy == StrategyMode::Adaptive
    &&& !c.verbose
    &&& !c.live_conversion
    &&& c.candidate_window == CandidateWindow::Always
    &&& c.symbol == default_symbol_style()
    &&& c.width == default_width_rules()
    &&& c.space == SpaceStyle::Half
    &&& date_view(c.date).0.len() == 0
    &&& date_view(c.date).1.len() == 0
}

impl Default for EngineConfig {
    fn default() -> (c: Self)
        ensures
            default_engine_config(c),
    {
        Self {
            num_candidates: 3,  // Space conversion: beam search with 3 candidates
            predict_extra_chars: 4,
            display_context_chars: 10,
            context_chars: 10,
            chunk_chars: 30,
            chunk_symbols: 1,
            chunk_digits: 0,
            chunk_alphabets: 0,
            beam_chars: 30,
            beam_width: 3,
            max_latency_ms: 100,
            strategy: StrategyMode::Adaptive,
            verbose: false,
            live_conversion: false,
            candidate_window: CandidateWindow::Always,
            symbol: SymbolStyle::default_style(),
            width: WidthRules::default_rules(),
            space: SpaceStyle::Half,
            date: DateSettings::empty(),
        }
    }
}

/// Input mode for the IME engine
#[derive(Debug, Clone, Copy, PartialEq, Eq, Structural)]
pub enum InputMode {
    /// Hiragana mode (default) — romaji is converted to hiragana
    Hiragana,
    /// Katakana mode — preedit displays katakana instead of hiragana
    Katakana,
    /// Alphabet (direct input) mode — characters bypass romaji conversion
    Alphabet,
    /// Emoji shortcode mode — entered by typing `:` from Empty. Behaves
    /// like [`InputMode::Alphabet`] but auto-exits to the prior mode on
    /// commit/cancel.
    Emoji,
}

/// A temporary, per-composition mode: Emoji or Alphabet.
pub open spec fn is_temporary(mode: InputMode) -> bool {
    mode == InputMode::Emoji || mode == InputMode::Alphabet
}

/// Current [`InputMode`] plus the mode to come back to when a *temporary*
/// mode (Emoji, Alphabet) ends. `comeback` always holds the last
/// non-temporary mode and equals `current` while none is active, so
/// exiting is an unconditional `current = comeback` — even a hop between
/// two temporary modes exits to the user's real kana mode.
#[derive(Debug)]
pub struct ModeState {
    current: InputMode,
    comeback: InputMode,
}

impl ModeState {
    /// The current mode.
    pub closed spec fn now(&self) -> InputMode {
        self.current
    }

    /// The mode a temporary mode exits to.
    pub closed spec fn back(&self) -> InputMode {
        self.comeback
    }

    /// `comeback` is never temporary, and is `current` while `current` is not.
    #[verifier::type_invariant]
    pub open spec fn wf(self) -> bool {
        &&& !is_temporary(self.back())
        &&& !is_temporary(self.now()) ==> self.now() == self.back()
    }

    /// Hiragana, nothing temporary.
    pub fn new() -> (m: Self)
        ensures
            m.now() == InputMode::Hiragana,
            m.back() == InputMode::Hiragana,
    {
        ModeState { current: InputMode::Hiragana, comeback: InputMode::Hiragana }
    }

    /// Whether `mode` is a temporary, per-composition mode.
    pub fn is_temporary(mode: InputMode) -> (r: bool)
        ensures
            r == is_temporary(mode),
    {
        matches!(mode, InputMode::Emoji | InputMode::Alphabet)
    }

    /// The current input mode.
    pub fn current(&self) -> (m: InputMode)
        ensures
            m == self.now(),
    {
        self.current
    }

    /// Switch directly to `mode`. The user explicitly picked it, so it
    /// also becomes the comeback target.
    pub fn set(&mut self, mode: InputMode)
        requires
            !is_temporary(mode),
        ensures
            final(self).now() == mode,
            final(self).back() == mode,
    {
        *self = ModeState { current: mode, comeback: mode };
    }

    /// Enter a *temporary* mode, remembering the current one for
    /// [`ModeState::exit_temporary`]. A hop between two temporary modes
    /// keeps the first comeback target.
    pub fn enter_temporary(&mut self, mode: InputMode)
        requires
            is_temporary(mode),
        ensures
            final(self).now() == mode,
            final(self).back() == (if is_temporary(old(self).now()) { old(self).back() } else { old(self).now() }),
            final(self).back() == comeback_after(old(self).now(), old(self).back()),
            entered_step(*old(self), *final(self), mode),
    {
        proof {
            use_type_invariant(&*self);
        }
        let comeback = if !Self::is_temporary(self.current) {
            self.current
        } else {
            self.comeback
        };
        *self = ModeState { current: mode, comeback };
    }

    /// End any temporary mode: come back to the last non-temporary mode.
    /// No-op when none is active.
    pub fn exit_temporary(&mut self)
        ensures
            final(self).now() == old(self).back(),
            final(self).back() == old(self).back(),
            !is_temporary(old(self).now()) ==> final(self).now() == old(self).now(),
            exited_step(*old(self), *final(self)),
    {
        proof {
            use_type_invariant(&*self);
        }
        *self = ModeState { current: self.comeback, comeback: self.comeback };
    }
}

impl Default for ModeState {
    fn default() -> (m: Self)
        ensures
            m.now() == InputMode::Hiragana,
            m.back() == InputMode::Hiragana,
    {
        ModeState::new()
    }
}

/// Entering a temporary mode and exiting it returns to the mode that was
/// current before, when that one was not temporary itself; a chain of
/// temporary modes exits to the last non-temporary one.
pub proof fn lemma_temporary_round_trip(before: ModeState, entered: ModeState, exited: ModeState, mode: InputMode)
    requires
        is_temporary(mode),
        before.wf(),
        entered.now() == mode,
        entered.back() == (if is_temporary(before.now()) { before.back() } else { before.now() }),
        exited.now() == entered.back(),
    ensures
        !is_temporary(before.now()) ==> exited.now() == before.now(),
        is_temporary(before.now()) ==> exited.now() == before.back(),
        !is_temporary(exited.now()),
{
}

/// The mode a temporary mode entered from `now` (returning to `back`)
/// returns to: `now` itself unless it is temporary too.
pub open spec fn comeback_after(now: InputMode, back: InputMode) -> InputMode {
    if is_temporary(now) { back } else { now }
}

/// The return mode after entering the temporary modes of `hops` one after
/// the other, from a state in mode `now` returning to `back`.
pub open spec fn back_after_hops(now: InputMode, back: InputMode, hops: Seq<InputMode>) -> InputMode
    decreases hops.len(),
{
    if hops.len() == 0 {
        back
    } else {
        let from = if hops.len() == 1 { now } else { hops[hops.len() - 2] };
        comeback_after(from, back_after_hops(now, back, hops.drop_last()))
    }
}

/// However many temporary modes are entered one after the other, exiting
/// returns to the mode current before the first of them, or, when that was
/// temporary itself, to the one it would have returned to — never to a
/// temporary mode.
pub proof fn lemma_temporary_chain(before: ModeState, hops: Seq<InputMode>)
    requires
        before.wf(),
        hops.len() > 0,
        forall|i: int| 0 <= i < hops.len() ==> is_temporary(#[trigger] hops[i]),
    ensures
        back_after_hops(before.now(), before.back(), hops) == comeback_after(before.now(), before.back()),
        !is_temporary(back_after_hops(before.now(), before.back(), hops)),
    decreases hops.len(),
{
    let shorter = hops.drop_last();
    if hops.len() > 1 {
        lemma_temporary_chain(before, shorter);
        assert(is_temporary(hops[hops.len() - 2]));
        assert(back_after_hops(before.now(), before.back(), hops) == comeback_after(
            hops[hops.len() - 2],
            back_after_hops(before.now(), before.back(), shorter),
        ));
    } else {
        assert(back_after_hops(before.now(), before.back(), shorter) == before.back());
        assert(back_after_hops(before.now(), before.back(), hops) == comeback_after(before.now(), before.back()));
    }
}

/// `b` is `a` after `enter_temporary(mode)`, as that call's contract
/// states it.
pub open spec fn entered_step(a: ModeState, b: ModeState, mode: InputMode) -> bool {
    is_temporary(mode) && b.now() == mode && b.back() == comeback_after(a.now(), a.back())
}

/// `b` is `a` after `exit_temporary()`, as that call's contract states it.
pub open spec fn exited_step(a: ModeState, b: ModeState) -> bool {
    b.now() == a.back() && b.back() == a.back()
}

/// Any number of `enter_temporary` calls (none included) followed by
/// `exit_temporary` lands on the mode that was current before them — or,
/// when that was a temporary one, the mode it would have returned to —
/// which is never temporary; a second `exit_temporary` changes nothing.
pub proof fn lemma_enter_then_exit(run: Seq<ModeState>, modes: Seq<InputMode>, exited: ModeState, again: ModeState)
    requires
        run[0].wf(),
        run.len() == modes.len() + 1,
        forall|i: int| #![trigger modes[i]] 0 <= i < modes.len() ==> entered_step(run[i], run[i + 1], modes[i]),
        exited_step(run.last(), exited),
        exited_step(exited, again),
    ensures
        exited.now() == comeback_after(run[0].now(), run[0].back()),
        !is_temporary(exited.now()),
        again.now() == exited.now(),
        again.back() == exited.back(),
    decreases modes.len(),
{
    if modes.len() == 0 {
        assert(run.last() == run[0]);
    } else {
        let k = modes.len() - 1;
        let rd = run.drop_last();
        let md = modes.drop_last();
        assert forall|i: int| #![trigger md[i]] 0 <= i < md.len() implies entered_step(rd[i], rd[i + 1], md[i]) by {
            assert(md[i] == modes[i] && rd[i] == run[i] && rd[i + 1] == run[i + 1]);
        }
        let mid = ModeState { current: rd.last().back(), comeback: rd.last().back() };
        lemma_enter_then_exit(rd, md, mid, mid);
        assert(entered_step(run[k], run[k + 1], modes[k]));
        assert(rd.last() == run[k]);
        assert(rd[0] == run[0]);
        if k > 0 {
            assert(entered_step(run[k - 1], run[k], modes[k - 1]));
        }
    }
}

/// Live conversion state.
#[derive(Debug, Clone, Copy)]
pub struct LiveConversion {
    /// Whether live conversion is enabled (toggled via Ctrl+Shift+L)
    pub enabled: bool,
    /// Whether the live suggestion is currently shown in the preedit.
    pub shown: bool,
}

impl LiveConversion {
    /// Enabled as given, nothing shown yet.
    pub fn new(enabled: bool) -> (l: Self)
        ensures
            l.enabled == enabled,
            !l.shown,
    {
        Self { enabled, shown: false }
    }
}

impl Default for LiveConversion {
    fn default() -> (l: Self)
        ensures
            !l.enabled,
            !l.shown,
    {
        Self::new(false)
    }
}

/// Timing and adaptive model selection metrics for conversion
#[derive(Debug)]
pub struct ConversionMetrics {
    /// Conversion time of the current call in milliseconds (inference only)
    pub conversion_ms: u64,
    /// Last process_key time in milliseconds (input to result, end-to-end)
    pub process_key_ms: u64,
    /// Display name of the model used for the last conversion
    pub model_name: String,
    /// Adaptive flag: set when the main model exceeded max_latency_ms
    pub adaptive_use_light_model: bool,
}

impl Default for ConversionMetrics {
    fn default() -> (m: Self)
        ensures
            m.conversion_ms == 0,
            m.process_key_ms == 0,
            m.model_name@.len() == 0,
            !m.adaptive_use_light_model,
    {
        ConversionMetrics {
            conversion_ms: 0,
            process_key_ms: 0,
            model_name: String::new(),
            adaptive_use_light_model: false,
        }
    }
}

} // verus!
