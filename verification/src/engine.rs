//! The input method engine: the state machine that turns key events into
//! preedit updates, candidate windows and commits.
//!
//! This engine composes with the romaji rules, the learning cache and the
//! kana fallbacks; no conversion model or dictionary is attached to it, so
//! what it suggests comes from the user's own history.

use vstd::prelude::*;
use crate::candidate::{cand_view, page_target, source_label, pages_of, Candidate, CandidateList, CandidateSource, PAGE_SIZE};
use crate::converter::{flush_spec, RomajiConverter};
use crate::engine_types::{
    ConversionMetrics, EngineAction, EngineConfig, EngineResult, InputMode, LiveConversion,
    ModeState, SurroundingContext, default_engine_config, is_temporary,
};
use crate::input_buffer::{flushed, romaji_step, InputBuffer, katakana, to_katakana};
use crate::keys::{
    char_of_code, is_modifier_code, is_mode_toggle_code, KeyEvent, BACKSPACE, DELETE, DOWN, END, ESCAPE, HENKAN, HOME,
    KEY_I, KEY_I_UPPER, KEY_J, KEY_J_UPPER, KEY_K, KEY_K_UPPER, KEY_L, KEY_L_UPPER, KEY_R, KEY_R_UPPER,
    KEY_T, KEY_T_UPPER, KEY_V, KEY_V_UPPER, LEFT, RETURN, RIGHT, SPACE, TAB, UP,
};
use crate::learning::{
    after_removal, first_entry, keep, looked_up, pair_view, pair_views, predictions, recorded, under_prefix, Learned,
    LearningCache,
    LearningConfig,
};
use crate::preedit::Preedit;
use crate::settings::{CandidateWindow, SpaceStyle};
use crate::rules::rules_for;
use crate::state::{focused_of, joined, joined_text, lemma_joined_one, segment_text, InputState, Segment};
use crate::text::{
    after_last_newline, before_first_newline, chars_after_last_newline,
    chars_before_first_newline, chars_extend, chars_keep_first, chars_keep_last, chars_of, chars_range,
    keep_first, keep_last, str_eq, string_from_chars,
};
use crate::tsv::{dec_string, push_decimal};

verus! {

/// The character the Space key inputs in `mode` with the `space` setting:
/// the configured one while typing kana, the ASCII one in direct input.
pub open spec fn space_of(mode: InputMode, space: SpaceStyle) -> char {
    match mode {
        InputMode::Alphabet | InputMode::Emoji => ' ',
        InputMode::Hiragana | InputMode::Katakana => match space {
            SpaceStyle::Full => '\u{3000}',
            SpaceStyle::Half => ' ',
        },
    }
}

/// The Space setting governs the kana modes alike: in Hiragana and in
/// Katakana the Space key inputs the ideographic space U+3000 when the
/// setting is `Full` and the ASCII space when it is `Half`, so the two
/// settings give different spaces there; Alphabet and Emoji input always
/// take the ASCII space, whatever the setting.
pub proof fn lemma_space_setting(mode: InputMode, space: SpaceStyle)
    ensures
        space_of(InputMode::Hiragana, space) == space_of(InputMode::Katakana, space),
        (mode == InputMode::Hiragana || mode == InputMode::Katakana) ==> space_of(mode, SpaceStyle::Full) == '\u{3000}'
            && space_of(mode, SpaceStyle::Half) == ' ' && space_of(mode, SpaceStyle::Full) != space_of(
            mode,
            SpaceStyle::Half,
        ),
        (mode == InputMode::Alphabet || mode == InputMode::Emoji) ==> space_of(mode, space) == ' ',
{
}

/// Space with nothing composed, in Hiragana or Katakana: with the `Full`
/// setting it is taken and commits the ideographic space U+3000 alone;
/// with `Half` it passes on, so the application types its own space.
pub proof fn lemma_space_from_empty(a: InputMethodEngine, b: InputMethodEngine, key: KeyEvent, r: EngineResult)
    requires
        key.keysym.0 == SPACE,
        !key.modifiers.shift_key && !key.modifiers.control_key && !key.modifiers.alt_key,
        a.modes().now() == InputMode::Hiragana || a.modes().now() == InputMode::Katakana,
        empty_key(a, b, key, r),
    ensures
        a.settings().space == SpaceStyle::Full ==> r.consumed && r.actions@.len() == 1 && (r.actions@[0] matches
            EngineAction::Commit(t) && t@ == seq!['\u{3000}']),
        a.settings().space == SpaceStyle::Half ==> !r.consumed && r.actions@.len() == 0,
        untouched(a, b),
{
}

/// The mode indicator of the aux line: `[あ]` `[カ]` `[A]` `[☺]`, led by
/// ⚡ while live conversion is on.
pub open spec fn indicator(mode: InputMode, live: bool) -> Seq<char> {
    let base = match mode {
        InputMode::Alphabet => seq!['[', 'A', ']'],
        InputMode::Katakana => seq!['[', 'カ', ']'],
        InputMode::Hiragana => seq!['[', 'あ', ']'],
        InputMode::Emoji => seq!['[', '☺', ']'],
    };
    if live {
        seq!['⚡'] + base
    } else {
        base
    }
}

/// What the composing preedit shows of `buf` in `mode`: its kana in
/// katakana in Katakana mode, as it is otherwise.
pub open spec fn display_of(buf: InputBuffer, mode: InputMode) -> Seq<char> {
    if mode == InputMode::Katakana {
        katakana(buf.shown())
    } else {
        buf.shown()
    }
}

/// The `used/max` fill counter: `used` characters of a chunk of `max`.
pub open spec fn fill(used: nat, max: usize) -> Seq<char> {
    dec_string(used) + seq!['/'] + dec_string(max as nat)
}

/// The composing aux line: the mode indicator, then — with something typed
/// — the composition with its romaji tail, and the fill of the settled
/// reading against the chunk size (the tail is not counted until it
/// settles).
pub open spec fn aux_composing(mode: InputMode, live: bool, buf: InputBuffer, max: usize) -> Seq<char> {
    if buf.shown().len() == 0 {
        indicator(mode, live)
    } else {
        indicator(mode, live) + seq![' '] + buf.shown() + seq![' '] + fill(buf.settled().len() + buf.after().len(), max)
    }
}

/// The text of an optional string.
pub open spec fn opt_view(o: Option<String>) -> Option<Seq<char>> {
    match o {
        Some(s) => Some(s@),
        None => None,
    }
}

/// The surrounding context kept for the editor text `left` and `right` of
/// the cursor: only the current line (after the last newline on the left,
/// before the first on the right), the left part cut to its last `n`
/// characters and the right to its first `n`, an empty side absent, and
/// nothing at all when both sides are empty.
pub open spec fn context_of(left: Seq<char>, right: Seq<char>, n: usize) -> Option<(Option<Seq<char>>, Option<Seq<char>>)> {
    let l = after_last_newline(left);
    let r = before_first_newline(right);
    if l.len() == 0 && r.len() == 0 {
        None
    } else {
        Some((
            if l.len() == 0 { None } else { Some(keep_last(l, n as nat)) },
            if r.len() == 0 { None } else { Some(keep_first(r, n as nat)) },
        ))
    }
}

/// `std::time::Instant`, a reading of the monotonic clock.
#[verifier::external_type_specification]
#[verifier::external_body]
pub struct ExInstant(std::time::Instant);

/// `Instant::now()`: the monotonic clock now. Nothing is stated of it.
#[verifier::external_body]
fn clock_now() -> std::time::Instant {
    std::time::Instant::now()
}

/// `start.elapsed().as_millis()` as a `u64`: the milliseconds since
/// `start`. Nothing is stated of the value: it is the clock's.
#[verifier::external_body]
fn millis_since(start: &std::time::Instant) -> u64 {
    start.elapsed().as_millis() as u64
}

/// Whether a conversion offers the learned candidates: Space and Down do,
/// Tab skips them so a stale learned entry can be stepped around.
#[derive(Debug, Clone, Copy, PartialEq, Eq, Structural)]
pub enum LearningLookup {
    /// Offer the learned candidates
    Use,
    /// Leave them out
    Skip,
}

/// The main IME engine
pub struct InputMethodEngine {
    /// Current input state
    state: InputState,
    /// The romaji rules and the width typed text settles at
    romaji: RomajiConverter,
    /// Surrounding text context from the editor (text around cursor)
    surrounding_context: Option<SurroundingContext>,
    /// Engine configuration
    config: EngineConfig,
    /// Conversion timing metrics
    metrics: ConversionMetrics,
    /// Current input mode plus the mode a temporary one returns to
    mode: ModeState,
    /// The composition being typed
    input_buf: InputBuffer,
    /// Live conversion state
    live: LiveConversion,
    /// The suggestion window shown while composing
    shown_suggestions: CandidateList,
    /// Learning cache (user conversion history)
    learning: Option<LearningCache>,
}

impl InputMethodEngine {
    /// The input state.
    pub closed spec fn phase(&self) -> InputState {
        self.state
    }

    /// The input mode and the mode a temporary one returns to.
    pub closed spec fn modes(&self) -> ModeState {
        self.mode
    }

    /// The composition.
    pub closed spec fn buffer(&self) -> InputBuffer {
        self.input_buf
    }

    /// The romaji converter typing goes through.
    pub closed spec fn converter(&self) -> RomajiConverter {
        self.romaji
    }

    /// The configuration.
    pub closed spec fn settings(&self) -> EngineConfig {
        self.config
    }

    /// Whether live conversion is on.
    pub closed spec fn live_on(&self) -> bool {
        self.live.enabled
    }

    /// The surrounding context: its left and right text.
    pub closed spec fn context(&self) -> Option<(Option<Seq<char>>, Option<Seq<char>>)> {
        match self.surrounding_context {
            Some(c) => Some((opt_view(c.left), opt_view(c.right))),
            None => None,
        }
    }

    /// The learning cache, when learning is on.
    pub closed spec fn history(&self) -> Option<LearningCache> {
        self.learning
    }

    /// The suggestions shown while composing.
    pub closed spec fn suggestions(&self) -> CandidateList {
        self.shown_suggestions
    }

    /// Create a new IME engine: the default configuration, Hiragana,
    /// nothing typed, no context and no learning cache.
    pub fn new() -> (e: Self)
        ensures
            e.phase() is Empty,
            e.modes().now() == InputMode::Hiragana,
            e.modes().back() == InputMode::Hiragana,
            e.buffer().shown().len() == 0,
            default_engine_config(e.settings()),
            e.converter().rules() == rules_for(e.settings().symbol),
            e.converter().width_rules() == e.settings().width,
            !e.live_on(),
            e.context() is None,
            e.history() is None,
            e.suggestions().items().len() == 0,
            e.timings().conversion_ms == 0,
            e.timings().process_key_ms == 0,
    {
        InputMethodEngine {
            state: InputState::Empty,
            romaji: RomajiConverter::new(),
            surrounding_context: None,
            config: EngineConfig::default(),
            metrics: ConversionMetrics::default(),
            mode: ModeState::new(),
            input_buf: InputBuffer::new(),
            live: LiveConversion::default(),
            shown_suggestions: CandidateList::empty(),
            learning: None,
        }
    }

    /// Create with configuration: the converter types `config.symbol` and
    /// settles at `config.width`, live conversion starts as configured.
    pub fn with_config(config: EngineConfig) -> (e: Self)
        ensures
            e.phase() is Empty,
            e.modes().now() == InputMode::Hiragana,
            e.modes().back() == InputMode::Hiragana,
            e.buffer().shown().len() == 0,
            e.settings() == config,
            e.converter().rules() == rules_for(config.symbol),
            e.converter().width_rules() == config.width,
            e.live_on() == config.live_conversion,
            e.context() is None,
            e.history() is None,
            e.suggestions().items().len() == 0,
            e.timings().conversion_ms == 0,
            e.timings().process_key_ms == 0,
    {
        let live = LiveConversion::new(config.live_conversion);
        InputMethodEngine {
            state: InputState::Empty,
            romaji: RomajiConverter::with_rules(config.symbol, config.width),
            surrounding_context: None,
            config,
            metrics: ConversionMetrics::default(),
            mode: ModeState::new(),
            input_buf: InputBuffer::new(),
            live,
            shown_suggestions: CandidateList::empty(),
            learning: None,
        }
    }

    /// Attach a learning cache (or detach it with `None`).
    pub fn set_learning(&mut self, cache: Option<LearningCache>)
        ensures
            final(self).history() == cache,
            final(self).phase() == old(self).phase(),
            final(self).modes() == old(self).modes(),
            final(self).buffer() == old(self).buffer(),
            final(self).settings() == old(self).settings(),
            final(self).converter() == old(self).converter(),
    {
        self.learning = cache;
    }

    /// Start an empty learning cache with `config` when learning is
    /// `enabled`; drop the cache otherwise.
    pub fn init_learning_cache(&mut self, enabled: bool, config: LearningConfig)
        ensures
            !enabled ==> final(self).history() is None,
            enabled ==> (final(self).history() matches Some(c) && c.entries().len() == 0 && c.entry_limit()
                == config.max_entries && c.surface_limit() == config.max_surface_chars && !c.unsaved()),
            final(self).phase() == old(self).phase(),
            final(self).modes() == old(self).modes(),
            final(self).buffer() == old(self).buffer(),
            final(self).settings() == old(self).settings(),
            final(self).converter() == old(self).converter(),
    {
        self.learning = if enabled {
            Some(LearningCache::new(config))
        } else {
            None
        };
    }

    /// Detach the learning cache and hand it over (to save it, say).
    pub fn take_learning(&mut self) -> (r: Option<LearningCache>)
        ensures
            r == old(self).history(),
            final(self).history() is None,
            final(self).phase() == old(self).phase(),
            final(self).modes() == old(self).modes(),
            final(self).buffer() == old(self).buffer(),
            final(self).settings() == old(self).settings(),
            final(self).converter() == old(self).converter(),
    {
        self.learning.take()
    }

    /// The surrounding text context kept from the editor.
    pub fn surrounding_context(&self) -> (r: Option<&SurroundingContext>)
        ensures
            match r {
                Some(c) => self.context() == Some((opt_view(c.left), opt_view(c.right))),
                None => self.context() is None,
            },
    {
        match &self.surrounding_context {
            Some(c) => Some(c),
            None => None,
        }
    }

    /// The learning cache, when learning is on.
    pub fn learning(&self) -> (r: Option<&LearningCache>)
        ensures
            r matches Some(c) ==> self.history() == Some(*c),
            r is None <==> self.history() is None,
    {
        match &self.learning {
            Some(c) => Some(c),
            None => None,
        }
    }

    /// The timings of the last key.
    pub closed spec fn timings(&self) -> ConversionMetrics {
        self.metrics
    }

    /// Conversion (inference) time of the last `process_key` call in
    /// milliseconds: 0, as this engine runs no conversion model.
    pub fn last_conversion_ms(&self) -> (ms: u64)
        ensures
            ms == self.timings().conversion_ms,
    {
        self.metrics.conversion_ms
    }

    /// Time the last `process_key` call took, in milliseconds, from the
    /// key to its result.
    pub fn last_process_key_ms(&self) -> (ms: u64)
        ensures
            ms == self.timings().process_key_ms,
    {
        self.metrics.process_key_ms
    }

    /// The name of the conversion model in use: `unknown`, as none is
    /// loaded.
    pub fn model_name(&self) -> (r: String)
        ensures
            r@ == seq!['u', 'n', 'k', 'n', 'o', 'w', 'n'],
    {
        let v: Vec<char> = vec!['u', 'n', 'k', 'n', 'o', 'w', 'n'];
        string_from_chars(v.as_slice())
    }

    /// Get the current state
    pub fn state(&self) -> (r: &InputState)
        ensures
            *r == self.phase(),
    {
        &self.state
    }

    /// Get the current preedit
    pub fn preedit(&self) -> (r: Option<&Preedit>)
        ensures
            match self.phase() {
                InputState::Empty => r is None,
                InputState::Composing { preedit } => r == Some(&preedit),
                InputState::Conversion { preedit, .. } => r == Some(&preedit),
            },
    {
        self.state.preedit()
    }

    /// Get the current candidates: the focused segment's list during a
    /// conversion.
    pub fn candidates(&self) -> (r: Option<&CandidateList>)
        ensures
            match focused_of(self.phase()) {
                Some(seg) => r matches Some(c) && *c == seg.candidates,
                None => r is None,
            },
            self.phase() !is Conversion ==> r is None,
    {
        self.state.candidates()
    }

    /// The input mode state.
    pub fn mode(&self) -> (r: &ModeState)
        ensures
            *r == self.modes(),
    {
        &self.mode
    }

    /// Switch the input mode to `mode`, which also becomes the mode
    /// temporary modes return to.
    pub fn set_mode(&mut self, mode: InputMode)
        requires
            !is_temporary(mode),
        ensures
            final(self).modes().now() == mode,
            final(self).modes().back() == mode,
            final(self).phase() == old(self).phase(),
            final(self).buffer() == old(self).buffer(),
            final(self).history() == old(self).history(),
    {
        self.mode.set(mode);
    }

    /// The composition as typed so far: settled text then the romaji tail.
    pub fn reading(&self) -> (r: String)
        ensures
            r@ == self.buffer().shown(),
    {
        self.input_buf.reading()
    }

    /// Reset the engine state: Empty, Hiragana, nothing typed. The
    /// surrounding context is kept — it is set once on activation and must
    /// survive the resets a frontend may send before the first key.
    pub fn reset(&mut self)
        ensures
            final(self).phase() is Empty,
            final(self).modes().now() == InputMode::Hiragana,
            final(self).modes().back() == InputMode::Hiragana,
            final(self).buffer().shown().len() == 0,
            final(self).context() == old(self).context(),
            final(self).history() == old(self).history(),
            final(self).settings() == old(self).settings(),
            final(self).converter() == old(self).converter(),
            final(self).live_on() == old(self).live_on(),
            final(self).suggestions().items().len() == 0,
            final(self).timings().conversion_ms == 0,
            final(self).timings().process_key_ms == 0,
    {
        self.state = InputState::Empty;
        self.mode = ModeState::new();
        self.clear_composition();
        self.metrics = ConversionMetrics::default();
    }

    /// Drop the composition: the buffer, the live display flag and the
    /// suggestion window.
    fn clear_composition(&mut self)
        ensures
            final(self).input_buf.shown().len() == 0,
            !final(self).live.shown,
            final(self).live.enabled == old(self).live.enabled,
            final(self).shown_suggestions.items().len() == 0,
            final(self).state == old(self).state,
            final(self).mode == old(self).mode,
            final(self).romaji == old(self).romaji,
            final(self).config == old(self).config,
            final(self).learning == old(self).learning,
            final(self).surrounding_context == old(self).surrounding_context,
    {
        self.input_buf.clear();
        self.live.shown = false;
        self.shown_suggestions = CandidateList::empty();
    }

    /// End the composition: clear it, return to Empty and leave any
    /// temporary mode.
    fn end_composition(&mut self)
        ensures
            final(self).input_buf.shown().len() == 0,
            final(self).state is Empty,
            final(self).mode.now() == old(self).mode.back(),
            final(self).mode.back() == old(self).mode.back(),
            final(self).live.enabled == old(self).live.enabled,
            final(self).romaji == old(self).romaji,
            final(self).config == old(self).config,
            final(self).learning == old(self).learning,
            final(self).surrounding_context == old(self).surrounding_context,
    {
        self.clear_composition();
        self.state = InputState::Empty;
        self.mode.exit_temporary();
    }

    /// Set surrounding context from the full text plus a cursor offset in
    /// characters: the text splits at the cursor (at its end when the
    /// offset runs past it).
    pub fn set_surrounding_text_at(&mut self, text: &str, cursor_chars: usize)
        ensures
            final(self).context() == context_of(
                text@.subrange(0, if cursor_chars < text@.len() { cursor_chars as int } else { text@.len() as int }),
                text@.subrange(if cursor_chars < text@.len() { cursor_chars as int } else { text@.len() as int }, text@.len() as int),
                old(self).settings().context_chars,
            ),
            final(self).phase() == old(self).phase(),
            final(self).modes() == old(self).modes(),
            final(self).buffer() == old(self).buffer(),
            final(self).settings() == old(self).settings(),
            final(self).history() == old(self).history(),
            final(self).converter() == old(self).converter(),
            final(self).live_on() == old(self).live_on(),
            final(self).suggestions() == old(self).suggestions(),
            final(self).timings() == old(self).timings(),
    {
        let chars = chars_of(text);
        let k = if cursor_chars < chars.len() { cursor_chars } else { chars.len() };
        let left = chars_range(chars.as_slice(), 0, k);
        let right = chars_range(chars.as_slice(), k, chars.len());
        self.set_context_chars(left.as_slice(), right.as_slice());
    }

    /// Set both left and right context from surrounding text (from editor)
    /// left_context: text before cursor
    /// right_context: text after cursor
    pub fn set_surrounding_context(&mut self, left_context: &str, right_context: &str)
        ensures
            final(self).context() == context_of(left_context@, right_context@, old(self).settings().context_chars),
            final(self).phase() == old(self).phase(),
            final(self).modes() == old(self).modes(),
            final(self).buffer() == old(self).buffer(),
            final(self).settings() == old(self).settings(),
            final(self).history() == old(self).history(),
            final(self).converter() == old(self).converter(),
            final(self).live_on() == old(self).live_on(),
            final(self).suggestions() == old(self).suggestions(),
            final(self).timings() == old(self).timings(),
    {
        let left = chars_of(left_context);
        let right = chars_of(right_context);
        self.set_context_chars(left.as_slice(), right.as_slice());
    }

    /// [`Self::set_surrounding_context`] on characters.
    fn set_context_chars(&mut self, left_context: &[char], right_context: &[char])
        ensures
            final(self).context() == context_of(left_context@, right_context@, old(self).config.context_chars),
            final(self).state == old(self).state,
            final(self).mode == old(self).mode,
            final(self).input_buf == old(self).input_buf,
            final(self).config == old(self).config,
            final(self).learning == old(self).learning,
            final(self).romaji == old(self).romaji,
            final(self).live == old(self).live,
            final(self).shown_suggestions == old(self).shown_suggestions,
            final(self).metrics == old(self).metrics,
    {
        let left_line = chars_after_last_newline(left_context);
        let right_line = chars_before_first_newline(right_context);
        if left_line.len() == 0 && right_line.len() == 0 {
            self.surrounding_context = None;
            return;
        }
        let left = if left_line.len() == 0 {
            None
        } else {
            let kept = chars_keep_last(left_line.as_slice(), self.config.context_chars);
            Some(string_from_chars(kept.as_slice()))
        };
        let right = if right_line.len() == 0 {
            None
        } else {
            let kept = chars_keep_first(right_line.as_slice(), self.config.context_chars);
            Some(string_from_chars(kept.as_slice()))
        };
        self.surrounding_context = Some(SurroundingContext { left, right });
    }

    /// The mode indicator for the current mode.
    fn mode_indicator(&self) -> (r: Vec<char>)
        ensures
            r@ == indicator(self.mode.now(), self.live.enabled),
    {
        let mut r: Vec<char> = Vec::new();
        if self.live.enabled {
            r.push('⚡');
        }
        r.push('[');
        match self.mode.current() {
            InputMode::Alphabet => r.push('A'),
            InputMode::Katakana => r.push('カ'),
            InputMode::Hiragana => r.push('あ'),
            InputMode::Emoji => r.push('☺'),
        }
        r.push(']');
        proof {
            let base = match self.mode.now() {
                InputMode::Alphabet => seq!['[', 'A', ']'],
                InputMode::Katakana => seq!['[', 'カ', ']'],
                InputMode::Hiragana => seq!['[', 'あ', ']'],
                InputMode::Emoji => seq!['[', '☺', ']'],
            };
            if self.live.enabled {
                assert(r@ =~= seq!['⚡'] + base);
            } else {
                assert(r@ =~= base);
            }
        }
        r
    }

    /// The space the Space key inputs now.
    fn space_char(&self) -> (c: char)
        ensures
            c == space_of(self.mode.now(), self.config.space),
    {
        match self.mode.current() {
            InputMode::Alphabet | InputMode::Emoji => ' ',
            InputMode::Hiragana | InputMode::Katakana => match self.config.space {
                SpaceStyle::Full => '\u{3000}',
                SpaceStyle::Half => ' ',
            },
        }
    }

    /// The composing aux line.
    fn format_aux_composing(&self) -> (r: String)
        ensures
            r@ == aux_composing(self.mode.now(), self.live.enabled, self.input_buf, self.config.chunk_chars),
    {
        let mut line = self.mode_indicator();
        let shown = self.input_buf.display_chars();
        if shown.len() > 0 {
            line.push(' ');
            let mut i: usize = 0;
            let ghost start = line@;
            while i < shown.len()
                invariant
                    0 <= i <= shown@.len(),
                    line@ == start + shown@.subrange(0, i as int),
                decreases shown@.len() - i,
            {
                line.push(shown[i]);
                i = i + 1;
                assert(line@ =~= start + shown@.subrange(0, i as int));
            }
            assert(shown@.subrange(0, shown@.len() as int) =~= shown@);
            line.push(' ');
            push_decimal(&mut line, self.input_buf.settled_len() as u64);
            line.push('/');
            push_decimal(&mut line, self.config.chunk_chars as u64);
        }
        string_from_chars(line.as_slice())
    }

    /// What the composing preedit shows.
    fn build_input_display(&self) -> (r: Vec<char>)
        ensures
            r@ == display_of(self.input_buf, self.mode.now()),
    {
        let shown = self.input_buf.display_chars();
        if self.mode.current() == InputMode::Katakana {
            to_katakana(shown.as_slice())
        } else {
            shown
        }
    }

    /// Enter the Composing state showing the composition, the caret at its
    /// end; returns the preedit shown.
    fn set_composing_state(&mut self) -> (p: Preedit)
        ensures
            p.shown() == display_of(old(self).input_buf, old(self).mode.now()),
            p.caret_at() == old(self).input_buf.caret_pos(),
            final(self).state matches InputState::Composing { preedit } && preedit.shown() == p.shown()
                && preedit.caret_at() == p.caret_at(),
            final(self).input_buf == old(self).input_buf,
            final(self).mode == old(self).mode,
            final(self).live == old(self).live,
            final(self).romaji == old(self).romaji,
            final(self).config == old(self).config,
            final(self).learning == old(self).learning,
            final(self).surrounding_context == old(self).surrounding_context,
            final(self).shown_suggestions == old(self).shown_suggestions,
    {
        let display = self.build_input_display();
        let mut preedit = Preedit::with_text_underlined(string_from_chars(display.as_slice()).as_str());
        preedit.set_caret(self.input_buf.caret());
        self.state = InputState::Composing { preedit: preedit.copy() };
        preedit
    }
}

impl Default for InputMethodEngine {
    fn default() -> (e: Self)
        ensures
            e.phase() is Empty,
            e.modes().now() == InputMode::Hiragana,
            e.buffer().shown().len() == 0,
            default_engine_config(e.settings()),
            e.history() is None,
    {
        InputMethodEngine::new()
    }
}

} // verus!

verus! {

/// The texts of `v`, in order.
pub open spec fn cand_texts(v: Seq<Candidate>) -> Seq<Seq<char>> {
    v.map_values(|c: Candidate| c.text@)
}

/// `s` without repeats: each text kept at its first occurrence.
pub open spec fn dedup(s: Seq<Seq<char>>) -> Seq<Seq<char>>
    decreases s.len(),
{
    if s.len() == 0 {
        s
    } else {
        let d = dedup(s.drop_last());
        if d.contains(s.last()) {
            d
        } else {
            d.push(s.last())
        }
    }
}

/// How many learned candidates a list shows at most, while typing and
/// when converting alike.
pub const MAX_LEARNED: usize = 3;

/// The first `n` of `s`, or all of it when it is shorter.
pub open spec fn at_most<A>(s: Seq<A>, n: nat) -> Seq<A> {
    if s.len() <= n {
        s
    } else {
        s.take(n as int)
    }
}

/// The entries the learning cache holds for `reading`: those learned under
/// exactly `reading`, then the predictions — readings extending it by at
/// most `max_extra` characters — each group in stored order; none without
/// a learning cache.
pub open spec fn learned_entries(h: Option<LearningCache>, reading: Seq<char>, max_extra: usize) -> Seq<Learned> {
    match h {
        Some(c) => looked_up(c.entries(), reading) + predictions(c.entries(), reading, max_extra),
        None => Seq::empty(),
    }
}

/// The learned entries a list offers for `reading`: the first
/// [`MAX_LEARNED`] of [`learned_entries`].
pub open spec fn shown_learned(h: Option<LearningCache>, reading: Seq<char>, max_extra: usize) -> Seq<Learned> {
    at_most(learned_entries(h, reading, max_extra), MAX_LEARNED as nat)
}

/// The surfaces of the learned entries a list offers for `reading`.
pub open spec fn learned_for(h: Option<LearningCache>, reading: Seq<char>, max_extra: usize) -> Seq<Seq<char>> {
    shown_learned(h, reading, max_extra).map_values(|e: Learned| e.1)
}

/// The plain values of each candidate of `v`, in order.
pub open spec fn cand_views(v: Seq<Candidate>) -> Seq<(Seq<char>, Option<Seq<char>>, Option<CandidateSource>, Option<Seq<char>>)> {
    v.map_values(|c: Candidate| cand_view(c))
}

/// The texts of candidate views.
pub open spec fn view_texts(s: Seq<(Seq<char>, Option<Seq<char>>, Option<CandidateSource>, Option<Seq<char>>)>) -> Seq<Seq<char>> {
    s.map_values(|v: (Seq<char>, Option<Seq<char>>, Option<CandidateSource>, Option<Seq<char>>)| v.0)
}

/// Candidate views without repeated texts: each text kept at its first
/// occurrence, with everything it carries.
pub open spec fn dedup_views(s: Seq<(Seq<char>, Option<Seq<char>>, Option<CandidateSource>, Option<Seq<char>>)>) -> Seq<
    (Seq<char>, Option<Seq<char>>, Option<CandidateSource>, Option<Seq<char>>),
>
    decreases s.len(),
{
    if s.len() == 0 {
        s
    } else {
        let d = dedup_views(s.drop_last());
        if view_texts(d).contains(s.last().0) {
            d
        } else {
            d.push(s.last())
        }
    }
}

/// A learned entry as a candidate: its surface, read as the entry's own
/// reading, from the learning cache, with no note.
pub open spec fn learned_view(e: Learned) -> (Seq<char>, Option<Seq<char>>, Option<CandidateSource>, Option<Seq<char>>) {
    (e.1, Some(e.0), Some(CandidateSource::Learning), None)
}

/// The candidates the learning cache offers for `reading`, as plain values:
/// the entries of [`shown_learned`], each with its own reading.
pub open spec fn learned_views(h: Option<LearningCache>, reading: Seq<char>, max_extra: usize) -> Seq<
    (Seq<char>, Option<Seq<char>>, Option<CandidateSource>, Option<Seq<char>>),
> {
    shown_learned(h, reading, max_extra).map_values(|e: Learned| learned_view(e))
}

/// `l` is the suggestion list for `reading`: the learned candidates, each
/// text once at its first occurrence with its own reading and source, the
/// first selected.
pub open spec fn suggests(l: CandidateList, h: Option<LearningCache>, reading: Seq<char>, max_extra: usize) -> bool {
    &&& l.texts() == dedup(learned_for(h, reading, max_extra))
    &&& cand_views(l.items()) == dedup_views(learned_views(h, reading, max_extra))
    &&& l.position() == 0
}

/// Whether `v` holds a candidate with text `t`.
fn has_text_in(v: &Vec<Candidate>, t: &str) -> (r: bool)
    ensures
        r == cand_texts(v@).contains(t@),
{
    let mut i: usize = 0;
    while i < v.len()
        invariant
            0 <= i <= v@.len(),
            forall|j: int| 0 <= j < i ==> v@[j].text@ != t@,
        decreases v@.len() - i,
    {
        if str_eq(v[i].text.as_str(), t) {
            assert(cand_texts(v@)[i as int] == t@);
            return true;
        }
        i = i + 1;
    }
    proof {
        if cand_texts(v@).contains(t@) {
            let j = choose|j: int| 0 <= j < cand_texts(v@).len() && cand_texts(v@)[j] == t@;
            assert(v@[j].text@ == t@);
        }
    }
    false
}

/// The list a window shows for `candidates`: each text once, at its first
/// occurrence, the first selected.
fn dedup_candidates(candidates: &Vec<Candidate>) -> (l: CandidateList)
    ensures
        l.texts() == dedup(cand_texts(candidates@)),
        cand_views(l.items()) == dedup_views(cand_views(candidates@)),
        l.position() == 0,
{
    let mut kept: Vec<Candidate> = Vec::new();
    let mut i: usize = 0;
    assert(cand_texts(candidates@).subrange(0, 0) =~= Seq::<Seq<char>>::empty());
    assert(cand_texts(kept@) =~= Seq::<Seq<char>>::empty());
    assert(cand_views(candidates@).subrange(0, 0) =~= cand_views(kept@));
    while i < candidates.len()
        invariant
            0 <= i <= candidates@.len(),
            cand_texts(kept@) == dedup(cand_texts(candidates@).subrange(0, i as int)),
            cand_views(kept@) == dedup_views(cand_views(candidates@).subrange(0, i as int)),
        decreases candidates@.len() - i,
    {
        let ghost s = cand_texts(candidates@).subrange(0, i + 1);
        assert(s.drop_last() =~= cand_texts(candidates@).subrange(0, i as int));
        assert(s.last() == candidates@[i as int].text@);
        let ghost sv = cand_views(candidates@).subrange(0, i + 1);
        assert(sv.drop_last() =~= cand_views(candidates@).subrange(0, i as int));
        assert(sv.last() == cand_view(candidates@[i as int]));
        assert(view_texts(cand_views(kept@)) =~= cand_texts(kept@));
        if !has_text_in(&kept, candidates[i].text.as_str()) {
            let ghost before = kept@;
            kept.push(candidates[i].copy());
            assert(cand_texts(kept@) =~= cand_texts(before).push(candidates@[i as int].text@));
            assert(cand_views(kept@) =~= cand_views(before).push(cand_view(candidates@[i as int])));
        }
        i = i + 1;
    }
    assert(cand_texts(candidates@).subrange(0, candidates@.len() as int) =~= cand_texts(candidates@));
    assert(cand_views(candidates@).subrange(0, candidates@.len() as int) =~= cand_views(candidates@));
    let l = CandidateList::new(kept);
    assert(l.texts() =~= cand_texts(kept@));
    l
}

fn candidate_of(text: &str, reading: &str, source: CandidateSource) -> (c: Candidate)
    ensures
        c.text@ == text@,
        c.reading matches Some(r) && r@ == reading@,
        c.source == Some(source),
        c.description is None,
{
    Candidate { text: text.to_string(), reading: Some(reading.to_string()), source: Some(source), description: None }
}

/// Whether `c` is an ASCII capital letter.
fn is_ascii_upper(c: char) -> (r: bool)
    ensures
        r == ('A' <= c && c <= 'Z'),
{
    'A' <= c && c <= 'Z'
}

/// Whether `c` is an ASCII letter.
fn is_ascii_letter(c: char) -> (r: bool)
    ensures
        r == (('A' <= c && c <= 'Z') || ('a' <= c && c <= 'z')),
{
    ('A' <= c && c <= 'Z') || ('a' <= c && c <= 'z')
}

/// The capital of an ASCII lowercase letter; any other character as is.
pub open spec fn ascii_upper(c: char) -> char {
    if 'a' <= c && c <= 'z' {
        ((c as u32 - 32) as u32) as char
    } else {
        c
    }
}

fn to_ascii_upper(c: char) -> (r: char)
    ensures
        r == ascii_upper(c),
{
    if 'a' <= c && c <= 'z' {
        let b: u8 = (c as u32 - 32) as u8;
        b as char
    } else {
        c
    }
}

/// A key typed with Shift on a letter, or a capital letter keysym (the
/// frontend may resolve Shift into the keysym itself).
pub open spec fn shift_alpha(key: KeyEvent, ch: char) -> bool {
    ('A' <= ch && ch <= 'Z') || (key.modifiers.shift_key && (('A' <= ch && ch <= 'Z') || ('a' <= ch && ch <= 'z')))
}

/// Neither Control nor Alt is held.
pub open spec fn plain(key: KeyEvent) -> bool {
    !key.modifiers.control_key && !key.modifiers.alt_key
}

/// A `:` — the colon keysym, or Shift with the semicolon one.
pub open spec fn typed_colon(key: KeyEvent) -> bool {
    char_of_code(key.keysym.0) == Some(':') || (key.modifiers.shift_key && key.keysym.0 == 0x3b)
}

/// The one-character string `c`.
fn char_string(c: char) -> (s: String)
    ensures
        s@ == seq![c],
{
    let v: Vec<char> = vec![c];
    string_from_chars(v.as_slice())
}

/// `a` followed by `b`: consumed when either is, the actions of both in
/// order.
fn then_result(a: EngineResult, b: EngineResult) -> (r: EngineResult)
    ensures
        r.consumed == (a.consumed || b.consumed),
        r.actions@ == a.actions@ + b.actions@,
{
    let mut r = a;
    let mut b = b;
    let ghost bv = b.actions@;
    let ghost av = r.actions@;
    r.actions.append(&mut b.actions);
    r.consumed = r.consumed || b.consumed;
    r
}

} // verus!

verus! {

/// `e` is composing, its preedit showing the composition with the caret
/// after the romaji tail.
pub open spec fn composing_shown(e: InputMethodEngine) -> bool {
    e.phase() matches InputState::Composing { preedit } && preedit.shown() == display_of(e.buffer(), e.modes().now())
        && preedit.caret_at() == e.buffer().caret_pos()
}

/// `r` renders `e`'s composition: consumed; the preedit showing the
/// composition; the suggestion window with `e`'s suggestions, hidden when
/// there are none; the composing aux line.
pub open spec fn renders_composition(r: EngineResult, e: InputMethodEngine) -> bool {
    &&& r.consumed
    &&& r.actions@.len() == 3
    &&& r.actions@[0] matches EngineAction::UpdatePreedit(p) && p.shown() == display_of(e.buffer(), e.modes().now())
        && p.caret_at() == e.buffer().caret_pos()
    &&& if e.suggestions().items().len() == 0 {
        r.actions@[1] is HideCandidates
    } else {
        r.actions@[1] matches EngineAction::ShowCandidates(l) && l.texts() == e.suggestions().texts()
    }
    &&& r.actions@[2] matches EngineAction::UpdateAuxText(t) && t@ == aux_composing(
        e.modes().now(),
        e.live_on(),
        e.buffer(),
        e.settings().chunk_chars,
    )
}

/// `a` and `b` share the converter, the configuration, the context and the
/// live-conversion switch.
pub open spec fn same_setup(a: InputMethodEngine, b: InputMethodEngine) -> bool {
    &&& a.converter() == b.converter()
    &&& a.settings() == b.settings()
    &&& a.context() == b.context()
    &&& a.live_on() == b.live_on()
}

/// `r` closes the composition without committing: an empty preedit with
/// the caret at its start, the window and the aux line hidden.
pub open spec fn renders_cleared(r: EngineResult) -> bool {
    &&& r.consumed
    &&& r.actions@.len() == 3
    &&& r.actions@[0] matches EngineAction::UpdatePreedit(p) && p.shown().len() == 0 && p.caret_at() == 0
    &&& r.actions@[1] is HideCandidates
    &&& r.actions@[2] is HideAuxText
}

/// `r` commits `text` and closes the window and the aux line.
pub open spec fn renders_commit(r: EngineResult, text: Seq<char>) -> bool {
    &&& r.consumed
    &&& r.actions@.len() == 3
    &&& r.actions@[0] matches EngineAction::Commit(t) && t@ == text
    &&& r.actions@[1] is HideCandidates
    &&& r.actions@[2] is HideAuxText
}

/// The settled form of `e`'s composition: the settled text followed by the
/// forced reading of the romaji tail.
pub open spec fn settled_reading(e: InputMethodEngine) -> Seq<char> {
    e.buffer().settled() + flushed(e.converter(), e.buffer().romaji()) + e.buffer().after()
}

/// `buf` is `a`'s composition settled and baked into katakana: the romaji
/// tail settles at the caret and the text on both sides turns katakana.
pub open spec fn baked(a: InputMethodEngine, buf: InputBuffer) -> bool {
    &&& buf.settled() == katakana(a.buffer().settled() + flushed(a.converter(), a.buffer().romaji()))
    &&& buf.romaji().len() == 0
    &&& buf.after() == katakana(a.buffer().after())
}

/// What committing `e`'s composition produces: its settled form, in
/// katakana in Katakana mode.
pub open spec fn composing_commit_text(e: InputMethodEngine) -> Seq<char> {
    if e.modes().now() == InputMode::Katakana {
        katakana(settled_reading(e))
    } else {
        settled_reading(e)
    }
}

/// One more use of `text` for `reading` fits the cache: the pair is new or
/// counted below the `u32` ceiling.
pub open spec fn can_count(c: LearningCache, reading: Seq<char>, text: Seq<char>) -> bool {
    first_entry(c.entries(), reading, text) >= 0 ==> c.entries()[first_entry(c.entries(), reading, text)].2 < u32::MAX
}

/// The learning cache `after` is `before` having learned `text` for
/// `reading`: counted when it fits the surface limit and the counter,
/// unchanged otherwise; no cache stays no cache.
pub open spec fn learns(before: Option<LearningCache>, after: Option<LearningCache>, reading: Seq<char>, text: Seq<char>) -> bool {
    match before {
        None => after is None,
        Some(c) => after matches Some(d) && d.entry_limit() == c.entry_limit() && d.surface_limit()
            == c.surface_limit() && if text.len() <= c.surface_limit() && can_count(c, reading, text) {
            exists|now: u64| d.entries() == recorded(c.entries(), reading, text, now)
        } else {
            d.entries() == c.entries()
        },
    }
}

impl InputMethodEngine {
    /// The learned candidates for `reading`, in stored order, predictions
    /// reaching at most `max_extra` characters further.
    fn lookup_learning_candidates(&self, reading: &str, max_extra: usize) -> (r: Vec<Candidate>)
        ensures
            cand_views(r@) == learned_views(self.history(), reading@, max_extra),
            cand_texts(r@) == learned_for(self.history(), reading@, max_extra),
            forall|i: int| 0 <= i < r@.len() ==> (#[trigger] r@[i]).source == Some(CandidateSource::Learning),
    {
        let mut r: Vec<Candidate> = Vec::new();
        match &self.learning {
            Some(cache) => {
                let exact = cache.lookup_entries(reading);
                let predicted = cache.predict_entries(reading, max_extra);
                let ghost ex = looked_up(cache.entries(), reading@);
                let ghost pr = predictions(cache.entries(), reading@, max_extra);
                let ghost want = ex.map_values(|e: Learned| learned_view(e)) + pr.map_values(|e: Learned| learned_view(e));
                assert(pair_views(exact@).len() == exact@.len());
                assert(pair_views(predicted@).len() == predicted@.len());
                assert forall|j: int| 0 <= j < exact@.len() implies #[trigger] ex[j] == pair_view(exact@[j]) by {
                    assert(pair_views(exact@)[j] == pair_view(exact@[j]));
                }
                assert forall|j: int| 0 <= j < predicted@.len() implies #[trigger] pr[j] == pair_view(predicted@[j]) by {
                    assert(pair_views(predicted@)[j] == pair_view(predicted@[j]));
                }
                let ghost ne = exact@.len();
                let mut i: usize = 0;
                while i < exact.len()
                    invariant
                        0 <= i <= exact@.len(),
                        ne == exact@.len(),
                        ex.len() == ne,
                        pr.len() == predicted@.len(),
                        want == ex.map_values(|e: Learned| learned_view(e)) + pr.map_values(|e: Learned| learned_view(e)),
                        forall|j: int| 0 <= j < exact@.len() ==> #[trigger] ex[j] == pair_view(exact@[j]),
                        r@.len() == i,
                        forall|j: int| 0 <= j < i ==> cand_view(#[trigger] r@[j]) == want[j]
                            && r@[j].source == Some(CandidateSource::Learning),
                    decreases exact@.len() - i,
                {
                    let c = candidate_of(exact[i].1.surface.as_str(), exact[i].0.as_str(), CandidateSource::Learning);
                    assert(ex[i as int] == pair_view(exact@[i as int]));
                    assert(cand_view(c) == want[i as int]);
                    r.push(c);
                    i = i + 1;
                }
                let mut k: usize = 0;
                while k < predicted.len()
                    invariant
                        0 <= k <= predicted@.len(),
                        ne == exact@.len(),
                        ex.len() == ne,
                        pr.len() == predicted@.len(),
                        want == ex.map_values(|e: Learned| learned_view(e)) + pr.map_values(|e: Learned| learned_view(e)),
                        forall|j: int| 0 <= j < predicted@.len() ==> #[trigger] pr[j] == pair_view(predicted@[j]),
                        r@.len() == ne + k,
                        forall|j: int| 0 <= j < ne + k ==> cand_view(#[trigger] r@[j]) == want[j]
                            && r@[j].source == Some(CandidateSource::Learning),
                    decreases predicted@.len() - k,
                {
                    let c = candidate_of(predicted[k].1.surface.as_str(), predicted[k].0.as_str(), CandidateSource::Learning);
                    assert(pr[k as int] == pair_view(predicted@[k as int]));
                    assert(cand_view(c) == want[ne + k]);
                    r.push(c);
                    k = k + 1;
                }
                assert(want =~= learned_entries(self.history(), reading@, max_extra).map_values(
                    |e: Learned| learned_view(e),
                ));
                assert(cand_views(r@) =~= want);
            },
            None => {
                assert(cand_views(r@) =~= learned_entries(self.history(), reading@, max_extra).map_values(
                    |e: Learned| learned_view(e),
                ));
            },
        }
        let ghost all = learned_entries(self.history(), reading@, max_extra);
        let ghost full = r@;
        if r.len() > MAX_LEARNED {
            r.truncate(MAX_LEARNED);
            assert(r@ =~= full.take(MAX_LEARNED as int));
        }
        assert(cand_views(r@) =~= learned_views(self.history(), reading@, max_extra)) by {
            assert(cand_views(full) == all.map_values(|e: Learned| learned_view(e)));
            assert(full.len() == all.len());
            assert forall|j: int| 0 <= j < r@.len() implies cand_view(#[trigger] r@[j]) == learned_view(at_most(all, MAX_LEARNED as nat)[j]) by {
                assert(r@[j] == full[j]);
                assert(cand_view(full[j]) == cand_views(full)[j]);
            }
        }
        assert(cand_texts(r@) =~= learned_for(self.history(), reading@, max_extra)) by {
            assert forall|j: int| 0 <= j < r@.len() implies cand_texts(r@)[j] == learned_for(
                self.history(),
                reading@,
                max_extra,
            )[j] by {
                assert(cand_view(r@[j]) == cand_views(r@)[j]);
            }
        }
        r
    }

    /// Show the composition and the suggestions for it: what the user
    /// taught for this reading.
    fn refresh_input_state(&mut self) -> (r: EngineResult)
        ensures
            composing_shown(*final(self)),
            final(self).buffer() == old(self).buffer(),
            final(self).modes() == old(self).modes(),
            final(self).history() == old(self).history(),
            same_setup(*old(self), *final(self)),
            suggests(final(self).suggestions(), old(self).history(), old(self).buffer().shown(), old(self).settings().predict_extra_chars),
            renders_composition(r, *final(self)),
    {
        let preedit = self.set_composing_state();
        let reading = self.input_buf.reading();
        let candidates = self.lookup_learning_candidates(reading.as_str(), self.config.predict_extra_chars);
        let aux = self.format_aux_composing();
        self.shown_suggestions = dedup_candidates(&candidates);
        if self.shown_suggestions.len() == 0 {
            EngineResult::consumed().with_action(EngineAction::UpdatePreedit(preedit)).with_action(
                EngineAction::HideCandidates,
            ).with_action(EngineAction::UpdateAuxText(aux))
        } else {
            let shown = self.shown_suggestions.copy();
            EngineResult::consumed().with_action(EngineAction::UpdatePreedit(preedit)).with_action(
                EngineAction::ShowCandidates(shown),
            ).with_action(EngineAction::UpdateAuxText(aux))
        }
    }
}

/// `b` is `a` after a composition starts with `ch`, `r` its output: `ch`
/// is typed as it is in Alphabet mode and through the romaji rules
/// otherwise, the composition shows as the preedit, and `r` updates the
/// preedit and the aux line.
pub open spec fn started_input(a: InputMethodEngine, b: InputMethodEngine, ch: char, r: EngineResult) -> bool {
    &&& a.modes().now() == InputMode::Alphabet ==> b.buffer().settled() == seq![ch]
        && b.buffer().romaji().len() == 0
    &&& a.modes().now() != InputMode::Alphabet ==> b.buffer().settled() == romaji_step(
        a.converter(),
        Seq::empty(),
        ch
    ).0 && b.buffer().romaji() == romaji_step(a.converter(), Seq::empty(), ch).1
    &&& b.buffer().after().len() == 0
    &&& composing_shown(b)
    &&& b.modes() == a.modes()
    &&& b.history() == a.history()
    &&& b.suggestions().items().len() == 0
    &&& same_setup(a, b)
    &&& r.consumed
    &&& r.actions@.len() == 2
    &&& r.actions@[0] matches EngineAction::UpdatePreedit(p) && p.shown() == display_of(
        b.buffer(),
        b.modes().now()
    )
    &&& r.actions@[1] matches EngineAction::UpdateAuxText(t) && t@ == aux_composing(
        b.modes().now(),
        b.live_on(),
        b.buffer(),
        b.settings().chunk_chars
    )
}

/// `b` is `a` after an emoji-shortcode composition starts, `r` its output:
/// Emoji mode, remembering the mode to return to; the composition is `:`;
/// the suggestions are what the history holds for it.
pub open spec fn started_emoji(a: InputMethodEngine, b: InputMethodEngine, r: EngineResult) -> bool {
    &&& b.modes().now() == InputMode::Emoji
    &&& b.modes().back() == (if is_temporary(a.modes().now()) {
        a.modes().back()
    } else {
        a.modes().now()
    })
    &&& b.buffer().settled() == seq![':']
    &&& b.buffer().romaji().len() == 0
    &&& b.buffer().after().len() == 0
    &&& composing_shown(b)
    &&& b.history() == a.history()
    &&& same_setup(a, b)
    &&& suggests(b.suggestions(), a.history(), seq![':'], a.settings().predict_extra_chars)
    &&& renders_composition(r, b)
}

/// `b` is `a` after `ch` is typed into the composition, `r` its output:
/// as it is in Alphabet and Emoji mode (the romaji tail settling first),
/// through the romaji rules otherwise; a composition left empty ends, any
/// other is shown with its suggestions.
pub open spec fn typed_char(a: InputMethodEngine, b: InputMethodEngine, ch: char, r: EngineResult) -> bool {
    &&& b.history() == a.history()
    &&& same_setup(a, b)
    &&& ({
        let m = a.modes().now();
        let direct = m == InputMode::Alphabet || m == InputMode::Emoji;
        let settled = if direct {
            (a.buffer().settled() + flushed(a.converter(), a.buffer().romaji())).push(ch)
        } else {
            a.buffer().settled() + romaji_step(a.converter(), a.buffer().romaji(), ch).0
        };
        let pending = if direct {
            Seq::<char>::empty()
        } else {
            romaji_step(a.converter(), a.buffer().romaji(), ch).1
        };
        if settled.len() == 0 && pending.len() == 0 && a.buffer().after().len() == 0 {
            b.phase() is Empty && b.buffer().shown().len() == 0
                && b.modes().now() == a.modes().back() && renders_cleared(r)
        } else {
            b.buffer().settled() == settled && b.buffer().romaji() == pending
                && b.buffer().after() == a.buffer().after()
                && b.modes() == a.modes() && composing_shown(b)
                && renders_composition(r, b)
        }
    })
}

/// `b` is `a` after the Space key's character is typed into the
/// composition (the romaji tail settling first), `r` showing it.
pub open spec fn typed_space(a: InputMethodEngine, b: InputMethodEngine, r: EngineResult) -> bool {
    &&& b.buffer().settled() == (a.buffer().settled() + flushed(
        a.converter(),
        a.buffer().romaji()
    )).push(space_of(a.modes().now(), a.settings().space))
    &&& b.buffer().romaji().len() == 0
    &&& b.buffer().after() == a.buffer().after()
    &&& b.modes() == a.modes()
    &&& b.history() == a.history()
    &&& same_setup(a, b)
    &&& composing_shown(b)
    &&& renders_composition(r, b)
}

/// `b` is `a` after the last character typed is erased — of the romaji
/// tail while there is one — `r` its output; erasing the last one ends the
/// composition and any temporary mode.
pub open spec fn backspaced(a: InputMethodEngine, b: InputMethodEngine, r: EngineResult) -> bool {
    &&& b.history() == a.history()
    &&& same_setup(a, b)
    &&& ({
        let buf = a.buffer();
        let settled = if buf.romaji().len() == 0 && buf.settled().len() > 0 {
            buf.settled().drop_last()
        } else {
            buf.settled()
        };
        let pending = if buf.romaji().len() > 0 {
            buf.romaji().drop_last()
        } else {
            buf.romaji()
        };
        if settled.len() == 0 && pending.len() == 0 && buf.after().len() == 0 {
            b.phase() is Empty && b.buffer().shown().len() == 0
                && b.modes().now() == a.modes().back() && b.modes().back()
                == a.modes().back() && renders_cleared(r)
        } else {
            b.buffer().settled() == settled && b.buffer().romaji() == pending
                && b.buffer().after() == buf.after()
                && b.modes() == a.modes() && composing_shown(b)
                && renders_composition(r, b)
        }
    })
}

/// `b` is `a` after the composition is committed (Enter), `r` its output:
/// the settled reading (in katakana in Katakana mode) is committed and
/// learned — not in Emoji mode — and the composition and any temporary
/// mode end.
pub open spec fn committed_composition(a: InputMethodEngine, b: InputMethodEngine, r: EngineResult) -> bool {
    &&& b.phase() is Empty
    &&& b.buffer().shown().len() == 0
    &&& b.modes().now() == a.modes().back()
    &&& b.modes().back() == a.modes().back()
    &&& same_setup(a, b)
    &&& composing_commit_text(a).len() == 0 ==> b.history() == a.history()
        && r.consumed && r.actions@.len() == 2 && r.actions@[0] is HideCandidates && r.actions@[1] is HideAuxText
    &&& composing_commit_text(a).len() > 0 ==> renders_commit(r, composing_commit_text(a)) && (
    if a.modes().now() == InputMode::Emoji {
        b.history() == a.history()
    } else {
        learns(a.history(), b.history(), settled_reading(a), composing_commit_text(a))
    })
}

/// `b` is `a` after the composition is cancelled (Escape), `r` its output:
/// it ends with any temporary mode; in Emoji mode the typed query is
/// committed as it is.
pub open spec fn cancelled_composition(a: InputMethodEngine, b: InputMethodEngine, r: EngineResult) -> bool {
    &&& b.phase() is Empty
    &&& b.buffer().shown().len() == 0
    &&& b.modes().now() == a.modes().back()
    &&& b.modes().back() == a.modes().back()
    &&& b.history() == a.history()
    &&& same_setup(a, b)
    &&& (a.modes().now() == InputMode::Emoji && a.buffer().shown().len() > 0) ==> renders_commit(
        r,
        a.buffer().shown()
    )
    &&& !(a.modes().now() == InputMode::Emoji && a.buffer().shown().len() > 0) ==> renders_cleared(r)
}

/// `b` is `a` after a conversion starts, `r` its output: the romaji tail
/// settles; the reading's candidates (learned ones when `use_learning`,
/// then the kana fallbacks), each text once, open in a single segment with
/// the first selected; with none, the composition stays.
pub open spec fn started_conversion(a: InputMethodEngine, b: InputMethodEngine, use_learning: bool, r: EngineResult) -> bool {
    &&& b.buffer().settled() == settled_reading(a)
    &&& b.buffer().romaji().len() == 0
    &&& b.buffer().after().len() == 0
    &&& b.modes() == a.modes()
    &&& b.history() == a.history()
    &&& same_setup(a, b)
    &&& ({
        let texts = dedup(conversion_texts(a.history(), settled_reading(a), a.modes().now(), use_learning, a.settings().predict_extra_chars));
        if texts.len() == 0 {
            composing_shown(b) && renders_composition(r, b)
        } else {
            b.phase() matches InputState::Conversion { preedit, segments, focus } && focus == 0
                && segments@.len() == 1 && segments@[0].reading@ == settled_reading(a)
                && segments@[0].candidates.texts() == texts && segments@[0].candidates.position() == 0
                && segments@[0].filter is None && preedit.shown() == texts[0] && renders_conversion(
                r,
                b,
                settled_reading(a),
                segments@[0].candidates,
                None,
            )
        }
    })
}

/// `b` is `a` after the conversion is committed (Enter), `r` its output:
/// the texts of all segments are committed, each learned under its own
/// reading (unless in Emoji mode or a date), and the composition and any
/// temporary mode end.
pub open spec fn committed_conversion(a: InputMethodEngine, b: InputMethodEngine, r: EngineResult) -> bool {
    &&& b.phase() is Empty
    &&& b.buffer().shown().len() == 0
    &&& b.modes().now() == a.modes().back()
    &&& b.modes().back() == a.modes().back()
    &&& same_setup(a, b)
    &&& conversion_commit_text(a.phase()).len() == 0 ==> b.history() == a.history()
        && r.consumed && r.actions@.len() == 2 && r.actions@[0] is HideCandidates && r.actions@[1] is HideAuxText
    &&& conversion_commit_text(a.phase()).len() > 0 ==> renders_commit(r, conversion_commit_text(a.phase())) && (
    if a.modes().now() == InputMode::Emoji {
        b.history() == a.history()
    } else {
        learns_each(a.history(), b.history(), conversion_segments(a.phase()))
    })
}

/// `b` is `a` after Ctrl+K switches to Katakana mode, `r` its output: the
/// composition, if any, shows in katakana.
pub open spec fn entered_katakana(a: InputMethodEngine, b: InputMethodEngine, r: EngineResult) -> bool {
    &&& b.buffer() == a.buffer()
    &&& b.history() == a.history()
    &&& same_setup(a, b)
    &&& a.modes().now() == InputMode::Katakana ==> b.modes() == a.modes()
        && b.phase() == a.phase() && r.consumed && r.actions@.len() == 0
    &&& a.modes().now() != InputMode::Katakana ==> b.modes().now() == InputMode::Katakana
        && b.modes().back() == InputMode::Katakana && (if a.buffer().shown().len() == 0 {
        b.phase() == a.phase() && r.consumed && r.actions@.len() == 0
    } else {
        &&& composing_shown(b)
        &&& r.consumed
        &&& r.actions@.len() == 2
        &&& r.actions@[0] matches EngineAction::UpdatePreedit(p) && p.shown() == display_of(
            b.buffer(),
            InputMode::Katakana,
        )
        &&& r.actions@[1] matches EngineAction::UpdateAuxText(t) && t@ == aux_katakana(b.live_on())
    })
}

impl InputMethodEngine {
    /// Start a composition with `ch`: typed directly in Alphabet mode,
    /// through the romaji rules otherwise.
    fn start_input(&mut self, ch: char) -> (r: EngineResult)
        ensures
            started_input(*old(self), *final(self), ch, r),
    {
        self.clear_composition();
        proof {
            assert(flush_spec(self.romaji.rules(), Seq::<char>::empty()) =~= Seq::<char>::empty());
            assert(flushed(self.romaji, Seq::<char>::empty()) =~= Seq::<char>::empty());
            assert(self.input_buf.settled() =~= Seq::<char>::empty());
            assert(self.input_buf.romaji() =~= Seq::<char>::empty());
        }
        if self.mode.current() == InputMode::Alphabet {
            self.input_buf.push_direct(ch, &self.romaji);
            assert(self.input_buf.settled() =~= seq![ch]);
        } else {
            self.input_buf.push_romaji(ch, &self.romaji);
            assert(self.input_buf.settled() =~= romaji_step(self.romaji, Seq::empty(), ch).0);
        }
        let preedit = self.set_composing_state();
        let aux = self.format_aux_composing();
        EngineResult::consumed().with_action(EngineAction::UpdatePreedit(preedit)).with_action(
            EngineAction::UpdateAuxText(aux),
        )
    }

    /// Begin an emoji-shortcode composition: the mode becomes Emoji
    /// (remembering the mode to come back to) and the composition starts
    /// with `:`.
    fn start_emoji_mode(&mut self) -> (r: EngineResult)
        ensures
            started_emoji(*old(self), *final(self), r),
    {
        self.clear_composition();
        self.mode.enter_temporary(InputMode::Emoji);
        proof {
            assert(flush_spec(self.romaji.rules(), Seq::<char>::empty()) =~= Seq::<char>::empty());
            assert(flushed(self.romaji, Seq::<char>::empty()) =~= Seq::<char>::empty());
        }
        self.input_buf.push_direct(':', &self.romaji);
        assert(self.input_buf.settled() =~= seq![':']);
        assert(self.input_buf.shown() =~= seq![':']);
        self.refresh_input_state()
    }

    /// Type `ch` into the composition: directly in Alphabet and Emoji
    /// mode, through the romaji rules otherwise. A composition left empty
    /// ends.
    fn input_char(&mut self, ch: char) -> (r: EngineResult)
        ensures
            typed_char(*old(self), *final(self), ch, r),
    {
        if matches!(self.mode.current(), InputMode::Alphabet | InputMode::Emoji) {
            self.input_buf.push_direct(ch, &self.romaji);
            assert(self.input_buf.settled().len() > 0);
            assert(self.input_buf.romaji() =~= Seq::<char>::empty());
            return self.refresh_input_state();
        }
        self.input_buf.push_romaji(ch, &self.romaji);
        if self.input_buf.is_empty() {
            self.end_composition();
            return EngineResult::consumed().with_action(EngineAction::UpdatePreedit(Preedit::new())).with_action(
                EngineAction::HideCandidates,
            ).with_action(EngineAction::HideAuxText);
        }
        self.refresh_input_state()
    }

    /// Put the Space key's character into the composition (Shift+Space
    /// while composing, where bare Space converts).
    fn input_space(&mut self) -> (r: EngineResult)
        ensures
            typed_space(*old(self), *final(self), r),
    {
        let space = self.space_char();
        self.input_buf.push_direct(space, &self.romaji);
        self.refresh_input_state()
    }

    /// Erase the last character typed; erasing the last one ends the
    /// composition and any temporary mode.
    fn backspace_composing(&mut self) -> (r: EngineResult)
        ensures
            backspaced(*old(self), *final(self), r),
    {
        self.input_buf.backspace();
        assert(self.input_buf.settled() == (if old(self).input_buf.romaji().len() == 0 && old(self).input_buf.settled().len() > 0 {
            old(self).input_buf.settled().drop_last()
        } else {
            old(self).input_buf.settled()
        }));
        assert(self.input_buf.romaji() =~= (if old(self).input_buf.romaji().len() > 0 {
            old(self).input_buf.romaji().drop_last()
        } else {
            old(self).input_buf.romaji()
        }));
        if self.input_buf.is_empty() {
            self.end_composition();
            return EngineResult::consumed().with_action(EngineAction::UpdatePreedit(Preedit::new())).with_action(
                EngineAction::HideCandidates,
            ).with_action(EngineAction::HideAuxText);
        }
        self.refresh_input_state()
    }

    /// Teach the learning cache that `text` was chosen for `reading`.
    /// Emoji-mode commits are not learned: the cache is keyed by kana.
    fn record_learning(&mut self, reading: &str, text: &str)
        ensures
            old(self).modes().now() == InputMode::Emoji ==> final(self).history() == old(self).history(),
            old(self).modes().now() != InputMode::Emoji ==> learns(old(self).history(), final(self).history(), reading@, text@),
            final(self).phase() == old(self).phase(),
            final(self).modes() == old(self).modes(),
            final(self).buffer() == old(self).buffer(),
            final(self).suggestions() == old(self).suggestions(),
            same_setup(*old(self), *final(self)),
    {
        if self.mode.current() == InputMode::Emoji {
            return;
        }
        let taken = self.learning.take();
        match taken {
            Some(mut cache) => {
                let count = chars_of(text).len();
                if count <= cache.max_surface() && cache.can_record(reading, text) {
                    cache.record(reading, text);
                }
                self.learning = Some(cache);
            },
            None => {},
        }
    }

    /// Commit the composition (Enter): its settled form, in katakana in
    /// Katakana mode. The composition and any temporary mode end; the
    /// choice is learned.
    fn commit_composing(&mut self) -> (r: EngineResult)
        ensures
            committed_composition(*old(self), *final(self), r),
    {
        self.input_buf.settle_romaji(&self.romaji);
        self.input_buf.caret_end();
        let reading = self.input_buf.reading();
        let text = if self.mode.current() == InputMode::Katakana {
            let chars = chars_of(reading.as_str());
            let k = to_katakana(chars.as_slice());
            string_from_chars(k.as_slice())
        } else {
            reading.clone()
        };
        if chars_of(text.as_str()).len() == 0 {
            self.end_composition();
            return EngineResult::consumed().with_action(EngineAction::HideCandidates).with_action(
                EngineAction::HideAuxText,
            );
        }
        self.record_learning(reading.as_str(), text.as_str());
        self.end_composition();
        EngineResult::consumed().with_action(EngineAction::Commit(text)).with_action(
            EngineAction::HideCandidates,
        ).with_action(EngineAction::HideAuxText)
    }

    /// Cancel the composition (Escape). In Emoji mode the typed query is
    /// committed as it is — dismissing the picker keeps what was typed.
    fn cancel_composing(&mut self) -> (r: EngineResult)
        ensures
            cancelled_composition(*old(self), *final(self), r),
    {
        let literal = if self.mode.current() == InputMode::Emoji && !self.input_buf.is_empty() {
            Some(self.input_buf.reading())
        } else {
            None
        };
        self.end_composition();
        match literal {
            Some(text) => EngineResult::consumed().with_action(EngineAction::Commit(text)).with_action(
                EngineAction::HideCandidates,
            ).with_action(EngineAction::HideAuxText),
            None => EngineResult::consumed().with_action(EngineAction::UpdatePreedit(Preedit::new())).with_action(
                EngineAction::HideCandidates,
            ).with_action(EngineAction::HideAuxText),
        }
    }
}

/// The candidates a conversion offers for the settled `reading`: the
/// learned surfaces (unless skipped), then the kana fallbacks — the
/// reading and its katakana, the katakana first in Katakana mode. The
/// emoji picker offers emojis or nothing, never the typed query, and no
/// emoji table is attached here.
pub open spec fn conversion_texts(h: Option<LearningCache>, reading: Seq<char>, mode: InputMode, use_learning: bool, max_extra: usize) -> Seq<Seq<char>> {
    if mode == InputMode::Emoji {
        Seq::empty()
    } else {
        let fallbacks = if mode == InputMode::Katakana {
            seq![katakana(reading), reading]
        } else {
            seq![reading, katakana(reading)]
        };
        (if use_learning {
            learned_for(h, reading, max_extra)
        } else {
            Seq::empty()
        }) + fallbacks
    }
}

/// The footer hint shown while a learned candidate is selected.
pub open spec fn delete_hint() -> Seq<char> {
    "Ctrl+Backspaceで履歴から削除"@
}

/// The selection of `list` is a learned candidate, deletable from the
/// history.
pub open spec fn selected_deletable(list: CandidateList) -> bool {
    list.items().len() > 0 && list.items()[list.position() as int].source == Some(CandidateSource::Learning)
}

/// The page counter of the conversion aux line, ` (page/pages)`, shown
/// when the list fills more than one page.
pub open spec fn page_info(list: CandidateList) -> Seq<char> {
    let pages = pages_of(list.items().len());
    if pages > 1 {
        seq![' ', '('] + dec_string((list.position() / PAGE_SIZE + 1) as nat) + seq!['/'] + dec_string(pages)
            + seq![')']
    } else {
        Seq::empty()
    }
}

/// The reading the conversion aux line shows: the selected candidate's
/// own (a prediction reads longer than what was typed), else `reading`.
pub open spec fn shown_reading(list: CandidateList, reading: Seq<char>) -> Seq<char> {
    if list.items().len() > 0 {
        match list.items()[list.position() as int].reading {
            Some(r) => r@,
            None => reading,
        }
    } else {
        reading
    }
}

/// The head of the conversion aux line: the mode indicator, then `[変換]`,
/// or `[変換:📝]` with the label of the source the window is narrowed to.
pub open spec fn conversion_head(mode: InputMode, live: bool, filter: Option<CandidateSource>) -> Seq<char> {
    indicator(mode, live) + match filter {
        Some(s) => match source_label(s) {
            Some(e) => seq!['[', '変', '換', ':', e, ']'],
            None => seq!['[', '変', '換', ']'],
        },
        None => seq!['[', '変', '換', ']'],
    }
}

/// The note an empty (narrowed) window carries: ` 候補なし`.
pub open spec fn empty_note(list: CandidateList) -> Seq<char> {
    if list.items().len() == 0 {
        seq![' ', '候', '補', 'な', 'し']
    } else {
        Seq::empty()
    }
}

/// The conversion aux line: the head (mode indicator, `[変換]` with the
/// narrowing source's label), the page counter, the shown reading with the
/// fill of the converted `reading` against the chunk size `max`, `候補なし`
/// for an empty window, and the deletion hint while a learned candidate is
/// selected.
pub open spec fn aux_conversion(
    mode: InputMode,
    live: bool,
    reading: Seq<char>,
    list: CandidateList,
    max: usize,
    filter: Option<CandidateSource>,
) -> Seq<char> {
    conversion_head(mode, live, filter) + page_info(list) + seq![' '] + shown_reading(list, reading) + seq![' '] + fill(
        reading.len(),
        max,
    ) + empty_note(list) + if selected_deletable(list) {
        seq![' ', '('] + delete_hint() + seq![')']
    } else {
        Seq::empty()
    }
}

/// `r` renders the conversion of `reading` showing `list`: consumed; the
/// preedit of the selected candidate; the window; the conversion aux line.
pub open spec fn renders_conversion(
    r: EngineResult,
    e: InputMethodEngine,
    reading: Seq<char>,
    list: CandidateList,
    filter: Option<CandidateSource>,
) -> bool {
    &&& r.consumed
    &&& r.actions@.len() == 3
    &&& list.items().len() > 0
    &&& r.actions@[0] matches EngineAction::UpdatePreedit(p) && p.shown() == conversion_commit_text(e.phase())
    &&& r.actions@[1] matches EngineAction::ShowCandidates(l) && l.texts() == list.texts() && l.position() == list.position()
    &&& r.actions@[2] matches EngineAction::UpdateAuxText(t) && t@ == aux_conversion(
        e.modes().now(),
        e.live_on(),
        reading,
        list,
        e.settings().chunk_chars,
        filter,
    )
}

/// The segments of a conversion (none outside one).
pub open spec fn conversion_segments(s: InputState) -> Seq<Segment> {
    match s {
        InputState::Conversion { segments, .. } => segments@,
        _ => Seq::empty(),
    }
}

/// What committing the conversion produces: the texts of all its segments,
/// in order.
pub open spec fn conversion_commit_text(s: InputState) -> Seq<char> {
    joined(conversion_segments(s))
}

/// A segment's selection may be learned: it is not a date.
pub open spec fn segment_learnable(seg: Segment) -> bool {
    seg.candidates.items().len() == 0 || seg.candidates.items()[seg.candidates.position() as int].source != Some(
        CandidateSource::Date,
    )
}

/// `after` is `before` with `seg` learned: its text under its reading,
/// unless the text is empty or a date.
pub open spec fn seg_learned(before: Option<LearningCache>, after: Option<LearningCache>, seg: Segment) -> bool {
    if segment_learnable(seg) && segment_text(seg).len() > 0 {
        learns(before, after, seg.reading@, segment_text(seg))
    } else {
        after == before
    }
}

/// `hs` runs from `before` to `after`, one cache per segment learned.
pub open spec fn learn_run(hs: Seq<Option<LearningCache>>, before: Option<LearningCache>, after: Option<LearningCache>, segs: Seq<Segment>) -> bool {
    &&& hs.len() == segs.len() + 1
    &&& hs[0] == before
    &&& hs.last() == after
    &&& forall|i: int| #![trigger segs[i]] 0 <= i < segs.len() ==> seg_learned(hs[i], hs[i + 1], segs[i])
}

/// `after` is `before` with each of `segs` learned in turn.
pub open spec fn learns_each(before: Option<LearningCache>, after: Option<LearningCache>, segs: Seq<Segment>) -> bool {
    exists|hs: Seq<Option<LearningCache>>| #[trigger] learn_run(hs, before, after, segs)
}

impl InputMethodEngine {
    /// The head of the conversion aux line: the mode indicator, `[変換]`
    /// and the page counter.
    fn conversion_header(&self, list: &CandidateList, filter: Option<CandidateSource>) -> (r: Vec<char>)
        ensures
            r@ == conversion_head(self.mode.now(), self.live.enabled, filter) + page_info(*list),
    {
        let mut line = self.mode_indicator();
        line.push('[');
        line.push('変');
        line.push('換');
        let label = match filter {
            Some(source) => source.label(),
            None => None,
        };
        match label {
            Some(e) => {
                line.push(':');
                line.push(e);
            },
            None => {},
        }
        line.push(']');
        assert(line@ =~= conversion_head(self.mode.now(), self.live.enabled, filter));
        let ghost head = line@;
        let pages = list.total_pages();
        if pages > 1 {
            line.push(' ');
            line.push('(');
            push_decimal(&mut line, (list.current_page() + 1) as u64);
            line.push('/');
            push_decimal(&mut line, pages as u64);
            line.push(')');
        }
        assert(line@ =~= head + page_info(*list));
        line
    }

    /// The reading the conversion aux line shows for `reading` and `list`.
    fn shown_reading_chars(reading: &str, list: &CandidateList) -> (r: Vec<char>)
        ensures
            r@ == shown_reading(*list, reading@),
    {
        match list.selected() {
            Some(c) => match &c.reading {
                Some(r) => chars_of(r.as_str()),
                None => chars_of(reading),
            },
            None => chars_of(reading),
        }
    }

    /// The conversion aux line for `reading` showing `list`.
    fn format_aux_conversion(&self, reading: &str, list: &CandidateList, filter: Option<CandidateSource>) -> (r: String)
        ensures
            r@ == aux_conversion(self.mode.now(), self.live.enabled, reading@, *list, self.config.chunk_chars, filter),
    {
        let mut line = self.conversion_header(list, filter);
        let ghost head = line@;
        line.push(' ');
        let shown = Self::shown_reading_chars(reading, list);
        chars_extend(&mut line, shown.as_slice());
        line.push(' ');
        let ghost body = line@;
        let read = chars_of(reading);
        push_decimal(&mut line, read.len() as u64);
        line.push('/');
        push_decimal(&mut line, self.config.chunk_chars as u64);
        assert(line@ =~= body + fill(reading@.len(), self.config.chunk_chars));
        let ghost filled = line@;
        if list.len() == 0 {
            line.push(' ');
            line.push('候');
            line.push('補');
            line.push('な');
            line.push('し');
        }
        assert(line@ =~= filled + empty_note(*list));
        let ghost counted = line@;
        if Self::list_selection_deletable(list) {
            line.push(' ');
            line.push('(');
            let hint = chars_of("Ctrl+Backspaceで履歴から削除");
            chars_extend(&mut line, hint.as_slice());
            line.push(')');
            assert(line@ =~= counted + (seq![' ', '('] + delete_hint() + seq![')']));
        } else {
            assert(line@ =~= counted + Seq::<char>::empty());
        }
        assert(line@ =~= aux_conversion(self.mode.now(), self.live.enabled, reading@, *list, self.config.chunk_chars, filter));
        string_from_chars(line.as_slice())
    }

    /// Whether the selection of `list` is a learned candidate.
    fn list_selection_deletable(list: &CandidateList) -> (r: bool)
        ensures
            r == selected_deletable(*list),
    {
        match list.selected() {
            Some(c) => c.is_deletable(),
            None => false,
        }
    }

    /// The candidates a conversion of the settled `reading` offers, before
    /// repeats are dropped: the learned ones (unless `lookup` skips them),
    /// then the kana fallbacks; none in the emoji picker.
    pub fn build_conversion_candidates(&self, reading: &str, lookup: LearningLookup) -> (r: Vec<Candidate>)
        ensures
            cand_texts(r@) == conversion_texts(
                self.history(),
                reading@,
                self.modes().now(),
                lookup == LearningLookup::Use,
                self.settings().predict_extra_chars,
            ),
    {
        self.conversion_candidates(reading, lookup, self.config.predict_extra_chars)
    }

    /// [`Self::build_conversion_candidates`] with predictions reaching at
    /// most `max_extra` characters past `reading`.
    fn conversion_candidates(&self, reading: &str, lookup: LearningLookup, max_extra: usize) -> (r: Vec<Candidate>)
        ensures
            cand_texts(r@) == conversion_texts(
                self.history(),
                reading@,
                self.modes().now(),
                lookup == LearningLookup::Use,
                max_extra,
            ),
    {
        let mode = self.mode.current();
        let use_learning = lookup == LearningLookup::Use;
        let mut candidates: Vec<Candidate> = Vec::new();
        let ghost h = self.learning;
        if mode != InputMode::Emoji {
            if use_learning {
                candidates = self.lookup_learning_candidates(reading, max_extra);
            }
            let ghost learned = cand_texts(candidates@);
            let chars = chars_of(reading);
            let kata = string_from_chars(to_katakana(chars.as_slice()).as_slice());
            if mode == InputMode::Katakana {
                candidates.push(candidate_of(kata.as_str(), reading, CandidateSource::Fallback));
                candidates.push(candidate_of(reading, reading, CandidateSource::Fallback));
                assert(cand_texts(candidates@) =~= learned + seq![katakana(reading@), reading@]);
            } else {
                candidates.push(candidate_of(reading, reading, CandidateSource::Fallback));
                candidates.push(candidate_of(kata.as_str(), reading, CandidateSource::Fallback));
                assert(cand_texts(candidates@) =~= learned + seq![reading@, katakana(reading@)]);
            }
            assert(cand_texts(candidates@) =~= conversion_texts(h, reading@, mode, use_learning, max_extra));
        } else {
            assert(cand_texts(candidates@) =~= conversion_texts(h, reading@, mode, use_learning, max_extra));
        }
        candidates
    }

    /// Start a conversion (Space, Down; Tab skips the learning cache): the
    /// romaji tail settles and the candidates for the reading open, the
    /// first selected. With none to offer the composition stays.
    fn start_conversion(&mut self, use_learning: bool) -> (r: EngineResult)
        ensures
            started_conversion(*old(self), *final(self), use_learning, r),
    {
        self.input_buf.settle_romaji(&self.romaji);
        self.input_buf.caret_end();
        let reading = self.input_buf.reading();
        let lookup = if use_learning {
            LearningLookup::Use
        } else {
            LearningLookup::Skip
        };
        let candidates = self.build_conversion_candidates(reading.as_str(), lookup);
        let list = dedup_candidates(&candidates);
        if list.len() == 0 {
            return self.refresh_input_state();
        }
        let text = match list.selected_text() {
            Some(t) => t.to_string(),
            None => String::new(),
        };
        let preedit = Preedit::with_text_underlined(text.as_str());
        let aux = self.format_aux_conversion(reading.as_str(), &list, None);
        let shown = list.copy();
        let segment = Segment::new(reading.as_str(), list);
        proof {
            lemma_joined_one(segment);
        }
        let segments = vec![segment];
        assert(segments@ =~= seq![segment]);
        self.state = InputState::Conversion { preedit: preedit.copy(), segments, focus: 0 };
        EngineResult::consumed().with_action(EngineAction::UpdatePreedit(preedit)).with_action(
            EngineAction::ShowCandidates(shown),
        ).with_action(EngineAction::UpdateAuxText(aux))
    }

    /// Commit the conversion (Enter): the texts of all segments. The
    /// composition and any temporary mode end; each segment's choice is
    /// learned under its reading unless it is a date.
    fn commit_conversion(&mut self) -> (r: EngineResult)
        ensures
            committed_conversion(*old(self), *final(self), r),
    {
        let ghost segs = conversion_segments(self.state);
        let ghost h0 = self.learning;
        let mut picks: Vec<(String, String, bool)> = Vec::new();
        let text = match &self.state {
            InputState::Conversion { segments, .. } => {
                let mut i: usize = 0;
                while i < segments.len()
                    invariant
                        segs == segments@,
                        0 <= i <= segments@.len(),
                        picks@.len() == i,
                        forall|j: int| 0 <= j < i ==> (#[trigger] picks@[j]).0@ == segs[j].reading@ && picks@[j].1@
                            == segment_text(segs[j]) && picks@[j].2 == segment_learnable(segs[j]),
                    decreases segments@.len() - i,
                {
                    let seg = &segments[i];
                    let learnable = match seg.candidates.selected() {
                        Some(c) => match c.source {
                            Some(source) => source.is_learnable(),
                            None => true,
                        },
                        None => true,
                    };
                    picks.push((seg.reading.clone(), seg.selected_text().to_string(), learnable));
                    i = i + 1;
                }
                joined_text(segments.as_slice())
            },
            _ => String::new(),
        };
        assert(text@ == conversion_commit_text(self.state));
        if chars_of(text.as_str()).len() == 0 {
            self.end_composition();
            return EngineResult::consumed().with_action(EngineAction::HideCandidates).with_action(
                EngineAction::HideAuxText,
            );
        }
        if self.mode.current() != InputMode::Emoji {
            let ghost a = *self;
            let mut k: usize = 0;
            let ghost mut hs: Seq<Option<LearningCache>> = seq![h0];
            while k < picks.len()
                invariant
                    picks@.len() == segs.len(),
                    forall|j: int| 0 <= j < segs.len() ==> (#[trigger] picks@[j]).0@ == segs[j].reading@ && picks@[j].1@
                        == segment_text(segs[j]) && picks@[j].2 == segment_learnable(segs[j]),
                    0 <= k <= segs.len(),
                    hs.len() == k + 1,
                    hs[0] == h0,
                    hs.last() == self.history(),
                    forall|i: int| #![trigger segs[i]] 0 <= i < k ==> seg_learned(hs[i], hs[i + 1], segs[i]),
                    self.phase() == a.phase(),
                    self.modes() == a.modes(),
                    self.buffer() == a.buffer(),
                    self.suggestions() == a.suggestions(),
                    same_setup(a, *self),
                    a.modes().now() != InputMode::Emoji,
                decreases segs.len() - k,
            {
                let ghost before = self.learning;
                let learn = picks[k].2 && chars_of(picks[k].1.as_str()).len() > 0;
                assert(learn == (segment_learnable(segs[k as int]) && segment_text(segs[k as int]).len() > 0));
                if learn {
                    self.record_learning(picks[k].0.as_str(), picks[k].1.as_str());
                }
                proof {
                    assert(seg_learned(before, self.learning, segs[k as int]));
                    let hs2 = hs.push(self.learning);
                    assert forall|i: int| #![trigger segs[i]] 0 <= i < k + 1 implies seg_learned(hs2[i], hs2[i + 1], segs[i]) by {
                        if i < k {
                            assert(hs2[i] == hs[i] && hs2[i + 1] == hs[i + 1]);
                        } else {
                            assert(hs2[i] == before && hs2[i + 1] == self.learning);
                        }
                    }
                    hs = hs2;
                }
                k = k + 1;
            }
            assert(learn_run(hs, h0, self.learning, segs));
        }
        self.end_composition();
        EngineResult::consumed().with_action(EngineAction::Commit(text)).with_action(
            EngineAction::HideCandidates,
        ).with_action(EngineAction::HideAuxText)
    }
}

/// A plain-kana candidate `t` for `reading`, as plain values.
pub open spec fn fallback_view(t: Seq<char>, reading: Seq<char>) -> (Seq<char>, Option<Seq<char>>, Option<CandidateSource>, Option<Seq<char>>) {
    (t, Some(reading), Some(CandidateSource::Fallback), None)
}

/// The plain kana of `reading`: the reading, then its katakana when that
/// differs.
pub open spec fn kana_pair_views(reading: Seq<char>) -> Seq<(Seq<char>, Option<Seq<char>>, Option<CandidateSource>, Option<Seq<char>>)> {
    if katakana(reading) == reading {
        seq![fallback_view(reading, reading)]
    } else {
        seq![fallback_view(reading, reading), fallback_view(katakana(reading), reading)]
    }
}

/// The learning view of `reading`: every learned entry whose reading starts
/// with it, whatever its length, in stored order.
pub open spec fn learning_view(h: Option<LearningCache>, reading: Seq<char>) -> Seq<Learned> {
    match h {
        Some(c) => keep(c.entries(), |e: Learned| under_prefix(e, reading)),
        None => Seq::empty(),
    }
}

/// What the window narrowed to `source` shows for `reading`, as plain
/// values: the learning view for the learning cache; the plain kana pair
/// for the rewriters (nothing in the emoji picker); nothing for the
/// dictionaries and the model, which this library does not hold.
pub open spec fn source_views(h: Option<LearningCache>, mode: InputMode, source: CandidateSource, reading: Seq<char>) -> Seq<
    (Seq<char>, Option<Seq<char>>, Option<CandidateSource>, Option<Seq<char>>),
> {
    match source {
        CandidateSource::Learning => learning_view(h, reading).map_values(|e: Learned| learned_view(e)),
        CandidateSource::Rewriter => if mode == InputMode::Emoji {
            Seq::empty()
        } else {
            kana_pair_views(reading)
        },
        _ => Seq::empty(),
    }
}

/// The source a stop of the Ctrl+T / Ctrl+R cycle shows: learning, the
/// dictionaries, the model, the rewriters.
pub open spec fn cycle_at(i: int) -> CandidateSource {
    if i == 0 {
        CandidateSource::Learning
    } else if i == 1 {
        CandidateSource::Dictionary
    } else if i == 2 {
        CandidateSource::Model
    } else {
        CandidateSource::Rewriter
    }
}

/// The stop of `s` in the cycle (a source with no stop counts as the first).
pub open spec fn cycle_pos(s: CandidateSource) -> int {
    match s {
        CandidateSource::Dictionary => 1,
        CandidateSource::Model => 2,
        CandidateSource::Rewriter => 3,
        _ => 0,
    }
}

/// The view one Ctrl+T (`forward`) or Ctrl+R press opens from `current`:
/// from the full list, the first or the last stop; otherwise the next or
/// the previous one, round the cycle, never back to the full list.
pub open spec fn next_view(current: Option<CandidateSource>, forward: bool) -> CandidateSource {
    match current {
        None => if forward {
            CandidateSource::Learning
        } else {
            CandidateSource::Rewriter
        },
        Some(s) => if forward {
            cycle_at((cycle_pos(s) + 1) % 4)
        } else {
            cycle_at((cycle_pos(s) + 3) % 4)
        },
    }
}

/// `seg` is the window for `reading` narrowed to `source`: what
/// [`source_views`] offers, each text once, the first selected.
pub open spec fn shows_view(seg: Segment, h: Option<LearningCache>, mode: InputMode, source: CandidateSource, reading: Seq<char>) -> bool {
    &&& seg.reading@ == reading
    &&& seg.filter == Some(source)
    &&& cand_views(seg.candidates.items()) == dedup_views(source_views(h, mode, source, reading))
    &&& seg.candidates.position() == 0
}

/// `r` renders the narrowed segment `seg`: consumed; the preedit of its
/// text (the reading when the window is empty); the window; the conversion
/// aux line with the source's label.
pub open spec fn renders_view(r: EngineResult, e: InputMethodEngine, seg: Segment) -> bool {
    &&& r.consumed
    &&& r.actions@.len() == 3
    &&& r.actions@[0] matches EngineAction::UpdatePreedit(p) && p.shown() == conversion_commit_text(e.phase())
    &&& r.actions@[1] matches EngineAction::ShowCandidates(l) && l.texts() == seg.candidates.texts() && l.position()
        == seg.candidates.position()
    &&& r.actions@[2] matches EngineAction::UpdateAuxText(t) && t@ == aux_conversion(
        e.modes().now(),
        e.live_on(),
        seg.reading@,
        seg.candidates,
        e.settings().chunk_chars,
        seg.filter,
    )
}

/// Ctrl+T, Ctrl+R or Ctrl+I while composing: the romaji tail settles and
/// the conversion opens already narrowed to `source`, one segment over the
/// whole reading; with nothing to convert the composition stays.
pub open spec fn opened_view(a: InputMethodEngine, b: InputMethodEngine, source: CandidateSource, r: EngineResult) -> bool {
    &&& b.buffer().settled() == settled_reading(a)
    &&& b.buffer().romaji().len() == 0
    &&& b.buffer().after().len() == 0
    &&& b.modes() == a.modes()
    &&& b.history() == a.history()
    &&& same_setup(a, b)
    &&& if settled_reading(a).len() == 0 {
        composing_shown(b) && renders_composition(r, b)
    } else {
        b.phase() matches InputState::Conversion { preedit, segments, focus } && focus == 0 && segments@.len() == 1
            && shows_view(segments@[0], a.history(), a.modes().now(), source, settled_reading(a)) && preedit.shown()
            == segment_text(segments@[0]) && renders_view(r, b, segments@[0])
    }
}

/// Ctrl+T, Ctrl+R or Ctrl+I while converting: the focused segment's window
/// narrows to `source`; the other segments, the composition and the modes
/// stay.
pub open spec fn narrowed_view(a: InputMethodEngine, b: InputMethodEngine, source: CandidateSource, r: EngineResult) -> bool {
    match a.phase() {
        InputState::Conversion { segments, focus, .. } => if focus < segments@.len() {
            &&& b.phase() matches InputState::Conversion { preedit: p2, segments: s2, focus: f2 } && f2 == focus
                && s2@.len() == segments@.len() && (forall|i: int|
                0 <= i < s2@.len() && i != focus ==> #[trigger] s2@[i] == segments@[i]) && shows_view(
                s2@[focus as int],
                a.history(),
                a.modes().now(),
                source,
                segments@[focus as int].reading@,
            ) && p2.shown() == joined(s2@) && renders_view(r, b, s2@[focus as int])
            &&& b.buffer() == a.buffer()
            &&& b.modes() == a.modes()
            &&& b.history() == a.history()
            &&& b.suggestions() == a.suggestions()
            &&& same_setup(a, b)
        } else {
            untouched(a, b) && absorbed(r)
        },
        _ => false,
    }
}

/// The source narrowing the focused segment's window, if any.
pub open spec fn focused_filter(s: InputState) -> Option<CandidateSource> {
    match focused_of(s) {
        Some(seg) => seg.filter,
        None => None,
    }
}

impl InputMethodEngine {
    /// The candidates of the window narrowed to `source` for `reading`.
    pub fn source_view(&self, source: CandidateSource, reading: &str) -> (r: Vec<Candidate>)
        ensures
            cand_views(r@) == source_views(self.history(), self.modes().now(), source, reading@),
    {
        let mut r: Vec<Candidate> = Vec::new();
        match source {
            CandidateSource::Learning => {
                match &self.learning {
                    Some(cache) => {
                        let found = cache.prefix_entries(reading);
                        let ghost want = learning_view(self.learning, reading@);
                        assert(pair_views(found@).len() == found@.len());
                        assert forall|j: int| 0 <= j < found@.len() implies #[trigger] want[j] == pair_view(found@[j]) by {
                            assert(pair_views(found@)[j] == pair_view(found@[j]));
                        }
                        let mut i: usize = 0;
                        while i < found.len()
                            invariant
                                0 <= i <= found@.len(),
                                want.len() == found@.len(),
                                forall|j: int| 0 <= j < found@.len() ==> #[trigger] want[j] == pair_view(found@[j]),
                                r@.len() == i,
                                forall|j: int| 0 <= j < i ==> cand_view(#[trigger] r@[j]) == learned_view(want[j]),
                            decreases found@.len() - i,
                        {
                            let c = candidate_of(found[i].1.surface.as_str(), found[i].0.as_str(), CandidateSource::Learning);
                            assert(want[i as int] == pair_view(found@[i as int]));
                            r.push(c);
                            i = i + 1;
                        }
                        assert(cand_views(r@) =~= want.map_values(|e: Learned| learned_view(e)));
                    },
                    None => {
                        assert(cand_views(r@) =~= source_views(self.learning, self.mode.now(), source, reading@));
                    },
                }
            },
            CandidateSource::Rewriter => {
                if self.mode.current() != InputMode::Emoji {
                    let chars = chars_of(reading);
                    let kata = string_from_chars(to_katakana(chars.as_slice()).as_slice());
                    r.push(candidate_of(reading, reading, CandidateSource::Fallback));
                    if !str_eq(kata.as_str(), reading) {
                        r.push(candidate_of(kata.as_str(), reading, CandidateSource::Fallback));
                    }
                }
                assert(cand_views(r@) =~= source_views(self.learning, self.mode.now(), source, reading@));
            },
            _ => {
                assert(cand_views(r@) =~= source_views(self.learning, self.mode.now(), source, reading@));
            },
        }
        r
    }

    /// The segment for `reading` narrowed to `source`.
    fn view_segment(&self, reading: &str, source: CandidateSource) -> (seg: Segment)
        ensures
            shows_view(seg, self.history(), self.modes().now(), source, reading@),
    {
        let view = self.source_view(source, reading);
        let list = dedup_candidates(&view);
        Segment { reading: reading.to_string(), candidates: list, filter: Some(source) }
    }

    /// Render the conversion around its focused segment: the joined
    /// preedit, the focused window and its aux line.
    fn render_focused(&self) -> (r: EngineResult)
        requires
            focused_of(self.phase()) is Some,
        ensures
            renders_view(r, *self, focused_of(self.phase())->0),
    {
        match &self.state {
            InputState::Conversion { segments, focus, .. } => {
                let seg = &segments[*focus];
                let text = joined_text(segments.as_slice());
                let preedit = Preedit::with_text_underlined(text.as_str());
                let aux = self.format_aux_conversion(seg.reading.as_str(), &seg.candidates, seg.filter);
                let shown = seg.candidates.copy();
                EngineResult::consumed().with_action(EngineAction::UpdatePreedit(preedit)).with_action(
                    EngineAction::ShowCandidates(shown),
                ).with_action(EngineAction::UpdateAuxText(aux))
            },
            _ => EngineResult::consumed(),
        }
    }

    /// Ctrl+T, Ctrl+R, Ctrl+I while composing: convert, narrowed to
    /// `source` from the start.
    fn open_view(&mut self, source: CandidateSource) -> (r: EngineResult)
        ensures
            opened_view(*old(self), *final(self), source, r),
    {
        self.input_buf.settle_romaji(&self.romaji);
        self.input_buf.caret_end();
        let reading = self.input_buf.reading();
        if chars_of(reading.as_str()).len() == 0 {
            return self.refresh_input_state();
        }
        let seg = self.view_segment(reading.as_str(), source);
        let preedit = Preedit::with_text_underlined(seg.selected_text());
        proof {
            lemma_joined_one(seg);
        }
        let segments = vec![seg];
        assert(segments@ =~= seq![seg]);
        self.state = InputState::Conversion { preedit, segments, focus: 0 };
        self.render_focused()
    }

    /// Ctrl+T, Ctrl+R, Ctrl+I while converting: narrow the focused
    /// segment's window to `source`.
    fn narrow_view(&mut self, source: CandidateSource) -> (r: EngineResult)
        requires
            old(self).phase() is Conversion,
        ensures
            narrowed_view(*old(self), *final(self), source, r),
    {
        let reading = match self.state.focused_segment() {
            Some(seg) => seg.reading.clone(),
            None => {
                return EngineResult::consumed();
            },
        };
        let seg = self.view_segment(reading.as_str(), source);
        match &mut self.state {
            InputState::Conversion { preedit, segments, focus } => {
                segments.set(*focus, seg);
                let text = joined_text(segments.as_slice());
                *preedit = Preedit::with_text_underlined(text.as_str());
            },
            _ => {},
        }
        self.render_focused()
    }

    /// The source of the focused segment's window, if narrowed.
    fn current_filter(&self) -> (r: Option<CandidateSource>)
        ensures
            r == focused_filter(self.phase()),
    {
        match self.state.focused_segment() {
            Some(seg) => seg.filter,
            None => None,
        }
    }
}

/// The view one Ctrl+T (`forward`) or Ctrl+R press opens from `current`.
fn next_view_of(current: Option<CandidateSource>, forward: bool) -> (r: CandidateSource)
    ensures
        r == next_view(current, forward),
{
    let pos: u8 = match current {
        None => {
            return if forward {
                CandidateSource::Learning
            } else {
                CandidateSource::Rewriter
            };
        },
        Some(CandidateSource::Dictionary) => 1,
        Some(CandidateSource::Model) => 2,
        Some(CandidateSource::Rewriter) => 3,
        Some(_) => 0,
    };
    let next = if forward {
        (pos + 1) % 4
    } else {
        (pos + 3) % 4
    };
    if next == 0 {
        CandidateSource::Learning
    } else if next == 1 {
        CandidateSource::Dictionary
    } else if next == 2 {
        CandidateSource::Model
    } else {
        CandidateSource::Rewriter
    }
}

/// `seg` is a segment over `reading` with the full list of its candidates,
/// the first selected: the learned ones and the kana of the reading. A
/// `closed` segment — one a later segment follows — takes no predictions,
/// which would run on into the next segment.
pub open spec fn seg_offers(seg: Segment, e: InputMethodEngine, reading: Seq<char>, closed: bool) -> bool {
    &&& seg.reading@ == reading
    &&& seg.filter is None
    &&& seg.candidates.texts() == dedup(
        conversion_texts(e.history(), reading, e.modes().now(), true, if closed { 0 } else { e.settings().predict_extra_chars }),
    )
    &&& seg.candidates.position() == 0
}

/// The segments of a conversion and its focus.
pub open spec fn conv_parts(s: InputState) -> (Seq<Segment>, usize) {
    match s {
        InputState::Conversion { segments, focus, .. } => (segments@, focus),
        _ => (Seq::empty(), 0),
    }
}

/// Shift+Left while composing (in Hiragana or Katakana): the romaji tail
/// settles and the conversion opens with the last character split off into
/// a segment of its own, the first segment focused; a one-character
/// reading has nothing to split and converts whole.
pub open spec fn split_started(a: InputMethodEngine, b: InputMethodEngine, r: EngineResult) -> bool {
    &&& b.buffer().settled() == settled_reading(a)
    &&& b.buffer().romaji().len() == 0
    &&& b.buffer().after().len() == 0
    &&& b.modes() == a.modes()
    &&& b.history() == a.history()
    &&& same_setup(a, b)
    &&& ({
        let rd = settled_reading(a);
        let n = rd.len();
        if n == 0 {
            composing_shown(b) && renders_composition(r, b)
        } else {
            b.phase() matches InputState::Conversion { preedit, segments, focus } && focus == 0 && preedit.shown()
                == joined(segments@) && (if n == 1 {
                segments@.len() == 1 && seg_offers(segments@[0], a, rd, false)
            } else {
                segments@.len() == 2 && seg_offers(segments@[0], a, rd.take(n - 1), true) && seg_offers(
                    segments@[1],
                    a,
                    rd.skip(n - 1),
                    false,
                )
            }) && renders_view(r, b, segments@[0])
        }
    })
}

/// `b` keeps `a`'s composition, modes, history, suggestions and setup.
pub open spec fn same_around(a: InputMethodEngine, b: InputMethodEngine) -> bool {
    &&& b.buffer() == a.buffer()
    &&& b.modes() == a.modes()
    &&& b.history() == a.history()
    &&& b.suggestions() == a.suggestions()
    &&& same_setup(a, b)
}

/// Shift+Left while converting: the focused segment gives its last
/// character to the start of the next one (a new last segment when it was
/// the last); both are converted afresh and the focus stays. A segment of
/// one character, and the emoji picker, leave the key inert.
pub open spec fn shrunk(a: InputMethodEngine, b: InputMethodEngine, r: EngineResult) -> bool {
    let s = conv_parts(a.phase()).0;
    let f = conv_parts(a.phase()).1;
    let n = s.len();
    if !(a.phase() is Conversion) || f >= n || a.modes().now() == InputMode::Emoji || s[f as int].reading@.len() <= 1 {
        untouched(a, b) && absorbed(r)
    } else {
        let rd = s[f as int].reading@;
        let c = rd.last();
        &&& b.phase() matches InputState::Conversion { preedit, segments, focus } && focus == f && preedit.shown()
            == joined(segments@) && segments@.take(f as int) == s.take(f as int) && seg_offers(
            segments@[f as int],
            a,
            rd.drop_last(),
            true,
        ) && (if f + 1 == n {
            segments@.len() == n + 1 && seg_offers(segments@[f + 1], a, seq![c], false)
        } else {
            segments@.len() == n && seg_offers(segments@[f + 1], a, seq![c] + s[f + 1].reading@, f + 2 < n)
                && segments@.skip(f + 2) == s.skip(f + 2)
        }) && renders_view(r, b, segments@[f as int])
        &&& same_around(a, b)
    }
}

/// Shift+Right while converting: the focused segment takes the first
/// character of the next one, which goes when it has no more; both are
/// converted afresh and the focus stays. On the last segment, and in the
/// emoji picker, the key is inert.
pub open spec fn extended(a: InputMethodEngine, b: InputMethodEngine, r: EngineResult) -> bool {
    let s = conv_parts(a.phase()).0;
    let f = conv_parts(a.phase()).1;
    let n = s.len();
    if !(a.phase() is Conversion) || f + 1 >= n || a.modes().now() == InputMode::Emoji || s[f + 1].reading@.len() == 0 {
        untouched(a, b) && absorbed(r)
    } else {
        let nx = s[f + 1].reading@;
        let grown = s[f as int].reading@.push(nx[0]);
        let rest = nx.skip(1);
        &&& b.phase() matches InputState::Conversion { preedit, segments, focus } && focus == f && preedit.shown()
            == joined(segments@) && segments@.take(f as int) == s.take(f as int) && (if rest.len() == 0 {
            segments@.len() == n - 1 && seg_offers(segments@[f as int], a, grown, f + 2 < n) && segments@.skip(f + 1)
                == s.skip(f + 2)
        } else {
            segments@.len() == n && seg_offers(segments@[f as int], a, grown, true) && seg_offers(
                segments@[f + 1],
                a,
                rest,
                f + 2 < n,
            ) && segments@.skip(f + 2) == s.skip(f + 2)
        }) && renders_view(r, b, segments@[f as int])
        &&& same_around(a, b)
    }
}

/// The focus moves to segment `to` (of a valid focus); the segments stay
/// and the focused window shows.
pub open spec fn focus_moved(a: InputMethodEngine, b: InputMethodEngine, to: int, r: EngineResult) -> bool {
    let s = conv_parts(a.phase()).0;
    let f = conv_parts(a.phase()).1;
    if !(a.phase() is Conversion) || f >= s.len() || !(0 <= to < s.len()) {
        untouched(a, b) && absorbed(r)
    } else {
        &&& b.phase() matches InputState::Conversion { preedit, segments, focus } && focus == to && segments@ == s
            && preedit.shown() == joined(s)
        &&& renders_view(r, b, s[to])
        &&& same_around(a, b)
    }
}

/// The segment left of the focus (the focus itself at the first).
pub open spec fn focus_left(s: InputState) -> int {
    let f = conv_parts(s).1;
    if f > 0 { f - 1 } else { f as int }
}

/// The segment right of the focus (the focus itself at the last).
pub open spec fn focus_right(s: InputState) -> int {
    let f = conv_parts(s).1;
    if f + 1 < conv_parts(s).0.len() { f + 1 } else { f as int }
}

impl InputMethodEngine {
    /// A segment over `reading` with its full candidate list.
    fn segment_for(&self, reading: &str, closed: bool) -> (seg: Segment)
        ensures
            seg_offers(seg, *self, reading@, closed),
    {
        let max = if closed {
            0
        } else {
            self.config.predict_extra_chars
        };
        let candidates = self.conversion_candidates(reading, LearningLookup::Use, max);
        let list = dedup_candidates(&candidates);
        Segment::new(reading, list)
    }

    /// Shift+Left while composing: convert with the last character split
    /// off.
    fn start_split_conversion(&mut self) -> (r: EngineResult)
        ensures
            split_started(*old(self), *final(self), r),
    {
        let ghost a = *self;
        self.input_buf.settle_romaji(&self.romaji);
        self.input_buf.caret_end();
        let reading = self.input_buf.reading();
        let chars = chars_of(reading.as_str());
        let n = chars.len();
        if n == 0 {
            return self.refresh_input_state();
        }
        let segments = if n == 1 {
            let seg = self.segment_for(reading.as_str(), false);
            let v = vec![seg];
            assert(v@ =~= seq![seg]);
            v
        } else {
            let head = string_from_chars(chars_range(chars.as_slice(), 0, n - 1).as_slice());
            let tail = string_from_chars(chars_range(chars.as_slice(), n - 1, n).as_slice());
            let first = self.segment_for(head.as_str(), true);
            let second = self.segment_for(tail.as_str(), false);
            assert(head@ =~= reading@.take(n - 1));
            assert(tail@ =~= reading@.skip(n - 1));
            let v = vec![first, second];
            assert(v@ =~= seq![first, second]);
            v
        };
        let text = joined_text(segments.as_slice());
        let preedit = Preedit::with_text_underlined(text.as_str());
        self.state = InputState::Conversion { preedit, segments, focus: 0 };
        self.render_focused()
    }

    /// Shift+Left while converting: the focused segment's last character
    /// goes to the next segment.
    fn shrink_focused(&mut self) -> (r: EngineResult)
        requires
            old(self).phase() is Conversion,
        ensures
            shrunk(*old(self), *final(self), r),
    {
        let ghost a = *self;
        let (reading, f, n) = match &self.state {
            InputState::Conversion { segments, focus, .. } => {
                if *focus >= segments.len() {
                    return EngineResult::consumed();
                }
                (chars_of(segments[*focus].reading.as_str()), *focus, segments.len())
            },
            _ => {
                return EngineResult::consumed();
            },
        };
        if self.mode.current() == InputMode::Emoji || reading.len() <= 1 {
            return EngineResult::consumed();
        }
        let len = reading.len();
        let c = reading[len - 1];
        let head = string_from_chars(chars_range(reading.as_slice(), 0, len - 1).as_slice());
        assert(head@ =~= reading@.drop_last());
        let first = self.segment_for(head.as_str(), true);
        let next_reading: Vec<char> = if f + 1 == n {
            vec![c]
        } else {
            let mut v: Vec<char> = vec![c];
            match &self.state {
                InputState::Conversion { segments, .. } => {
                    let nx = chars_of(segments[f + 1].reading.as_str());
                    chars_extend(&mut v, nx.as_slice());
                },
                _ => {},
            }
            v
        };
        let nr = string_from_chars(next_reading.as_slice());
        let second = self.segment_for(nr.as_str(), n - f > 2);
        let ghost s = conv_parts(a.phase()).0;
        match &mut self.state {
            InputState::Conversion { preedit, segments, focus } => {
                segments.set(f, first);
                if f + 1 == n {
                    segments.push(second);
                } else {
                    segments.set(f + 1, second);
                }
                proof {
                    if f + 1 == n {
                        assert(segments@.take(f as int) =~= s.take(f as int));
                        assert(nr@ =~= seq![c]);
                    } else {
                        assert(segments@.take(f as int) =~= s.take(f as int));
                        assert(segments@.skip(f + 2) =~= s.skip(f + 2));
                        assert(nr@ =~= seq![c] + s[f + 1].reading@);
                    }
                }
                let text = joined_text(segments.as_slice());
                *preedit = Preedit::with_text_underlined(text.as_str());
            },
            _ => {},
        }
        self.render_focused()
    }

    /// Shift+Right while converting: the focused segment takes the next
    /// segment's first character.
    fn extend_focused(&mut self) -> (r: EngineResult)
        requires
            old(self).phase() is Conversion,
        ensures
            extended(*old(self), *final(self), r),
    {
        let ghost a = *self;
        let (reading, next, f, n) = match &self.state {
            InputState::Conversion { segments, focus, .. } => {
                if segments.len() <= 1 || *focus >= segments.len() - 1 {
                    return EngineResult::consumed();
                }
                (
                    chars_of(segments[*focus].reading.as_str()),
                    chars_of(segments[*focus + 1].reading.as_str()),
                    *focus,
                    segments.len(),
                )
            },
            _ => {
                return EngineResult::consumed();
            },
        };
        if self.mode.current() == InputMode::Emoji || next.len() == 0 {
            return EngineResult::consumed();
        }
        let mut grown = reading;
        grown.push(next[0]);
        let rest = chars_range(next.as_slice(), 1, next.len());
        assert(rest@ =~= next@.skip(1));
        let gs = string_from_chars(grown.as_slice());
        let ghost s = conv_parts(a.phase()).0;
        if rest.len() == 0 {
            let first = self.segment_for(gs.as_str(), n - f > 2);
            match &mut self.state {
                InputState::Conversion { preedit, segments, focus } => {
                    segments.set(f, first);
                    let _gone = segments.remove(f + 1);
                    proof {
                        assert(segments@.take(f as int) =~= s.take(f as int));
                        assert(segments@.skip(f + 1) =~= s.skip(f + 2));
                    }
                    let text = joined_text(segments.as_slice());
                    *preedit = Preedit::with_text_underlined(text.as_str());
                },
                _ => {},
            }
        } else {
            let first = self.segment_for(gs.as_str(), true);
            let rs = string_from_chars(rest.as_slice());
            let second = self.segment_for(rs.as_str(), n - f > 2);
            match &mut self.state {
                InputState::Conversion { preedit, segments, focus } => {
                    segments.set(f, first);
                    segments.set(f + 1, second);
                    proof {
                        assert(segments@.take(f as int) =~= s.take(f as int));
                        assert(segments@.skip(f + 2) =~= s.skip(f + 2));
                    }
                    let text = joined_text(segments.as_slice());
                    *preedit = Preedit::with_text_underlined(text.as_str());
                },
                _ => {},
            }
        }
        self.render_focused()
    }

    /// Move the focus to segment `to`.
    fn move_focus(&mut self, to: usize) -> (r: EngineResult)
        requires
            old(self).phase() is Conversion,
        ensures
            focus_moved(*old(self), *final(self), to as int, r),
    {
        match &mut self.state {
            InputState::Conversion { preedit, segments, focus } => {
                if *focus >= segments.len() || to >= segments.len() {
                    return EngineResult::consumed();
                }
                *focus = to;
                let text = joined_text(segments.as_slice());
                *preedit = Preedit::with_text_underlined(text.as_str());
            },
            _ => {
                return EngineResult::consumed();
            },
        }
        self.render_focused()
    }

    /// The focus and the number of segments of the conversion.
    fn focus_and_count(&self) -> (r: (usize, usize))
        ensures
            r.0 == conv_parts(self.phase()).1,
            r.1 == conv_parts(self.phase()).0.len(),
    {
        match &self.state {
            InputState::Conversion { segments, focus, .. } => (*focus, segments.len()),
            _ => (0, 0),
        }
    }
}

/// The selection after one step through `n` candidates from `pos`:
/// forward wraps from the last to the first, backward from the first to
/// the last.
pub open spec fn stepped(pos: usize, n: nat, forward: bool) -> int {
    if n == 0 {
        0
    } else if forward {
        if pos + 1 >= n { 0 } else { pos + 1 }
    } else {
        if pos == 0 { n - 1 } else { pos - 1 }
    }
}

/// `b` is `a` after moving the conversion's selection one step, `r` its
/// output: the focused segment keeps its reading, filter and candidates,
/// its selection steps (wrapping), and the preedit shows it.
pub open spec fn moved_selection(a: InputMethodEngine, b: InputMethodEngine, forward: bool, r: EngineResult) -> bool {
    &&& focused_of(b.phase()) matches Some(seg) && ({
        let before = focused_of(a.phase())->0;
        &&& seg.reading == before.reading
        &&& seg.filter == before.filter
        &&& seg.candidates.items() == before.candidates.items()
        &&& seg.candidates.position() == stepped(before.candidates.position(), before.candidates.items().len(), forward)
        &&& b.phase() matches InputState::Conversion { preedit, segments, focus } && preedit.shown() == joined(segments@)
            && (a.phase() matches InputState::Conversion { segments: s0, focus: f0, .. } && f0 == focus
            && segments@ == s0@.update(focus as int, seg))
        &&& (seg.candidates.items().len() > 0 ==> renders_conversion(r, b, seg.reading@, seg.candidates, seg.filter))
    })
    &&& b.buffer() == a.buffer()
    &&& b.modes() == a.modes()
    &&& b.history() == a.history()
    &&& same_setup(a, b)
}

/// The Katakana-mode aux line: the mode indicator and the engine's name
/// with its model's.
pub open spec fn aux_katakana(live: bool) -> Seq<char> {
    indicator(InputMode::Katakana, live) + seq![' ', 'K', 'a', 'r', 'u', 'k', 'a', 'n', ' ', '(', 'u', 'n', 'k', 'n', 'o', 'w', 'n', ')']
}

impl InputMethodEngine {
    /// Move the conversion's selection one step (Space/Down forward, Up
    /// backward) and show it.
    fn move_selection(&mut self, forward: bool) -> (r: EngineResult)
        requires
            focused_of(old(self).phase()) is Some,
        ensures
            moved_selection(*old(self), *final(self), forward, r),
    {
        match self.state.candidates_mut() {
            Some(list) => {
                if forward {
                    list.select_next();
                } else {
                    list.select_prev();
                }
            },
            None => {},
        }
        let (text, aux, shown) = match &self.state {
            InputState::Conversion { segments, focus, .. } => {
                if *focus < segments.len() {
                    let seg = &segments[*focus];
                    (
                        joined_text(segments.as_slice()),
                        self.format_aux_conversion(seg.reading.as_str(), &seg.candidates, seg.filter),
                        seg.candidates.copy(),
                    )
                } else {
                    (String::new(), String::new(), CandidateList::empty())
                }
            },
            _ => (String::new(), String::new(), CandidateList::empty()),
        };
        let preedit = Preedit::with_text_underlined(text.as_str());
        let ghost seg1 = focused_of(self.state)->0;
        match self.state.preedit_mut() {
            Some(p) => {
                *p = preedit.copy();
            },
            None => {},
        }
        let r = EngineResult::consumed().with_action(EngineAction::UpdatePreedit(preedit)).with_action(
            EngineAction::ShowCandidates(shown),
        ).with_action(EngineAction::UpdateAuxText(aux));
        assert(seg1.candidates.items().len() > 0 ==> renders_conversion(r, *self, seg1.reading@, seg1.candidates, seg1.filter));
        r
    }

    /// Enter Katakana mode (Ctrl+K) — a one-way switch; the mode toggle key
    /// returns to Hiragana.
    fn enter_katakana_mode(&mut self) -> (r: EngineResult)
        ensures
            entered_katakana(*old(self), *final(self), r),
    {
        if self.mode.current() == InputMode::Katakana {
            return EngineResult::consumed();
        }
        self.mode.set(InputMode::Katakana);
        self.live.shown = false;
        if self.input_buf.is_empty() {
            return EngineResult::consumed();
        }
        let preedit = self.set_composing_state();
        let mut aux = self.mode_indicator();
        let name = self.model_name();
        let tail: Vec<char> = vec![' ', 'K', 'a', 'r', 'u', 'k', 'a', 'n', ' ', '('];
        chars_extend(&mut aux, tail.as_slice());
        chars_extend(&mut aux, chars_of(name.as_str()).as_slice());
        aux.push(')');
        assert(aux@ =~= aux_katakana(self.live.enabled));
        EngineResult::consumed().with_action(EngineAction::UpdatePreedit(preedit)).with_action(
            EngineAction::UpdateAuxText(string_from_chars(aux.as_slice())),
        )
    }
}

/// The text before and after the caret once a caret key has acted: the
/// romaji tail settles at the caret, then Left (0) moves the caret one
/// character back, Right (1) one forward, Home (2) to the start, End (3) to
/// the end, and Delete (4) erases the character after it.
pub open spec fn caret_result(a: InputMethodEngine, kind: int) -> (Seq<char>, Seq<char>) {
    let s0 = a.buffer().settled() + flushed(a.converter(), a.buffer().romaji());
    let t0 = a.buffer().after();
    if kind == 0 {
        if s0.len() > 0 { (s0.drop_last(), seq![s0.last()] + t0) } else { (s0, t0) }
    } else if kind == 1 {
        if t0.len() > 0 { (s0.push(t0[0]), t0.drop_first()) } else { (s0, t0) }
    } else if kind == 2 {
        (Seq::empty(), s0 + t0)
    } else if kind == 3 {
        (s0 + t0, Seq::empty())
    } else {
        (s0, if t0.len() > 0 { t0.drop_first() } else { t0 })
    }
}

/// A caret key while composing (`kind` as in [`caret_result`]): the
/// composition becomes [`caret_result`] and shows again with the caret in
/// its new place; erased to nothing by Delete, the composition ends.
pub open spec fn caret_acted(a: InputMethodEngine, b: InputMethodEngine, kind: int, r: EngineResult) -> bool {
    let (ns, nt) = caret_result(a, kind);
    &&& b.history() == a.history()
    &&& same_setup(a, b)
    &&& if ns.len() == 0 && nt.len() == 0 && kind == 4 {
        &&& b.phase() is Empty
        &&& b.buffer().shown().len() == 0
        &&& b.modes().now() == a.modes().back()
        &&& b.modes().back() == a.modes().back()
        &&& renders_cleared(r)
    } else {
        &&& b.buffer().settled() == ns
        &&& b.buffer().romaji().len() == 0
        &&& b.buffer().after() == nt
        &&& b.modes() == a.modes()
        &&& composing_shown(b)
        &&& suggests(b.suggestions(), a.history(), b.buffer().shown(), a.settings().predict_extra_chars)
        &&& renders_composition(r, b)
    }
}

impl InputMethodEngine {
    /// A caret key while composing (`kind` as in [`caret_result`]).
    fn caret_key_composing(&mut self, kind: u8) -> (r: EngineResult)
        requires
            kind <= 4,
        ensures
            caret_acted(*old(self), *final(self), kind as int, r),
    {
        self.input_buf.settle_romaji(&self.romaji);
        if kind == 0 {
            self.input_buf.caret_left();
        } else if kind == 1 {
            self.input_buf.caret_right();
        } else if kind == 2 {
            self.input_buf.caret_home();
        } else if kind == 3 {
            self.input_buf.caret_end();
        } else {
            self.input_buf.delete_forward();
            if self.input_buf.is_empty() {
                self.end_composition();
                return EngineResult::consumed().with_action(EngineAction::UpdatePreedit(Preedit::new())).with_action(
                    EngineAction::HideCandidates,
                ).with_action(EngineAction::HideAuxText);
            }
        }
        proof {
            if kind == 2 {
                assert(self.input_buf.settled() =~= Seq::<char>::empty());
            }
            if kind == 3 {
                assert(self.input_buf.after() =~= Seq::<char>::empty());
            }
        }
        self.refresh_input_state()
    }
}

/// Nothing changed: the state, the mode, the composition, the history and
/// the setup.
pub open spec fn untouched(a: InputMethodEngine, b: InputMethodEngine) -> bool {
    &&& b.phase() == a.phase()
    &&& b.modes() == a.modes()
    &&& b.buffer() == a.buffer()
    &&& b.history() == a.history()
    &&& b.suggestions() == a.suggestions()
    &&& same_setup(a, b)
}

/// The key goes on to the application.
pub open spec fn passed(r: EngineResult) -> bool {
    !r.consumed && r.actions@.len() == 0
}

/// The key is consumed with nothing to show.
pub open spec fn absorbed(r: EngineResult) -> bool {
    r.consumed && r.actions@.len() == 0
}

/// `r` only commits `text`.
pub open spec fn commits_only(r: EngineResult, text: Seq<char>) -> bool {
    &&& r.consumed
    &&& r.actions@.len() == 1
    &&& r.actions@[0] matches EngineAction::Commit(t) && t@ == text
}

/// A mode toggle key that acts as one: not the 変換 key chorded with a
/// modifier, which may be an application shortcut.
pub open spec fn acts_as_toggle(key: KeyEvent) -> bool {
    is_mode_toggle_code(key.keysym.0) && !(key.keysym.0 == HENKAN && (key.modifiers.shift_key
        || key.modifiers.control_key || key.modifiers.alt_key || key.modifiers.super_key))
}

/// The mode toggle key: back to Hiragana from any other mode (katakana
/// typed so far stays katakana), except while a kana conversion is open,
/// where the key passes on. Consumed only when it switches.
pub open spec fn toggled(a: InputMethodEngine, b: InputMethodEngine, key: KeyEvent, r: EngineResult) -> bool {
    if a.phase() is Conversion && a.modes().now() != InputMode::Alphabet {
        untouched(a, b) && passed(r)
    } else if key.is_press && a.modes().now() != InputMode::Hiragana {
        &&& b.modes().now() == InputMode::Hiragana
        &&& b.modes().back() == InputMode::Hiragana
        &&& b.history() == a.history()
        &&& same_setup(a, b)
        &&& b.suggestions() == a.suggestions()
        &&& if a.modes().now() == InputMode::Katakana {
            baked(a, b.buffer())
        } else {
            b.buffer() == a.buffer()
        }
        &&& r.consumed
        &&& match a.phase() {
            InputState::Composing { .. } => {
                &&& composing_shown(b)
                &&& r.actions@.len() == 2
                &&& r.actions@[0] matches EngineAction::UpdatePreedit(p) && p.shown() == display_of(
                    b.buffer(),
                    InputMode::Hiragana,
                )
                &&& r.actions@[1] matches EngineAction::UpdateAuxText(t) && t@ == aux_composing(
                    InputMode::Hiragana,
                    b.live_on(),
                    b.buffer(),
                    b.settings().chunk_chars,
                )
            },
            InputState::Empty => {
                &&& b.phase() == a.phase()
                &&& r.actions@.len() == 1
                &&& r.actions@[0] matches EngineAction::UpdateAuxText(t) && t@ == aux_composing(
                    InputMode::Hiragana,
                    b.live_on(),
                    b.buffer(),
                    b.settings().chunk_chars,
                )
            },
            InputState::Conversion { .. } => {
                &&& b.phase() == a.phase()
                &&& r.actions@.len() == 1
                &&& r.actions@[0] matches EngineAction::UpdateAuxText(t) && (focused_of(a.phase()) matches Some(seg)
                    ==> t@ == aux_conversion(InputMode::Hiragana, b.live_on(), seg.reading@, seg.candidates, b.settings().chunk_chars, seg.filter))
            },
        }
    } else {
        untouched(a, b) && passed(r)
    }
}

/// A key pressed with nothing composed: Shift+Space commits a full-width
/// space; Space commits the configured space when that is the full-width
/// one and passes on otherwise; `:` opens the emoji picker (outside
/// Alphabet mode); a printable key starts a composition — Shift with a
/// letter, or a capital, in Alphabet mode for this word, the letter as a
/// capital; anything else passes on.
pub open spec fn empty_key(a: InputMethodEngine, b: InputMethodEngine, key: KeyEvent, r: EngineResult) -> bool {
    let code = key.keysym.0;
    let m = key.modifiers;
    if m.shift_key && code == SPACE && !m.control_key {
        untouched(a, b) && commits_only(r, seq!['\u{3000}'])
    } else if code == SPACE && !m.control_key && !m.alt_key {
        untouched(a, b) && if space_of(a.modes().now(), a.settings().space) == '\u{3000}' {
            commits_only(r, seq!['\u{3000}'])
        } else {
            passed(r)
        }
    } else if typed_colon(key) && plain(key) && a.modes().now() != InputMode::Alphabet {
        started_emoji(a, b, r)
    } else if char_of_code(code) is Some && plain(key) {
        let ch = char_of_code(code)->0;
        if shift_alpha(key, ch) {
            exists|mid: InputMethodEngine|
                #![trigger started_input(mid, b, ascii_upper(ch), r)]
                mid.modes().now() == InputMode::Alphabet && mid.modes().back() == (if is_temporary(a.modes().now()) {
                    a.modes().back()
                } else {
                    a.modes().now()
                }) && mid.history() == a.history() && same_setup(a, mid) && started_input(mid, b, ascii_upper(ch), r)
        } else {
            started_input(a, b, ch, r)
        }
    } else {
        untouched(a, b) && passed(r)
    }
}

impl InputMethodEngine {
    /// The mode toggle key (right Alt/Meta/Super/Hyper, 変換); `None` when
    /// `key` is not one.
    fn handle_mode_toggle_key(&mut self, key: &KeyEvent) -> (r: Option<EngineResult>)
        ensures
            !acts_as_toggle(*key) ==> r is None && *final(self) == *old(self),
            acts_as_toggle(*key) ==> (r matches Some(res) && toggled(*old(self), *final(self), *key, res)),
    {
        if !key.keysym.is_mode_toggle_key() {
            return None;
        }
        if key.keysym.0 == HENKAN && key.modifiers.any() {
            return None;
        }
        if matches!(self.state, InputState::Conversion { .. }) && self.mode.current() != InputMode::Alphabet {
            return Some(EngineResult::not_consumed());
        }
        if key.is_press && self.mode.current() != InputMode::Hiragana {
            if self.mode.current() == InputMode::Katakana {
                self.input_buf.settle_romaji(&self.romaji);
                self.input_buf.bake_katakana();
            }
            self.mode.set(InputMode::Hiragana);
            if matches!(self.state, InputState::Composing { .. }) {
                let preedit = self.set_composing_state();
                let aux = self.format_aux_composing();
                return Some(
                    EngineResult::consumed().with_action(EngineAction::UpdatePreedit(preedit)).with_action(
                        EngineAction::UpdateAuxText(aux),
                    ),
                );
            }
            if matches!(self.state, InputState::Conversion { .. }) {
                let aux = match self.state.focused_segment() {
                    Some(seg) => self.format_aux_conversion(seg.reading.as_str(), &seg.candidates, seg.filter),
                    None => String::new(),
                };
                return Some(EngineResult::consumed().with_action(EngineAction::UpdateAuxText(aux)));
            }
            let aux = self.format_aux_composing();
            return Some(EngineResult::consumed().with_action(EngineAction::UpdateAuxText(aux)));
        }
        Some(EngineResult::not_consumed())
    }

    /// A key in the Empty state.
    fn process_key_empty(&mut self, key: &KeyEvent) -> (r: EngineResult)
        requires
            old(self).phase() is Empty,
        ensures
            empty_key(*old(self), *final(self), *key, r),
    {
        let m = key.modifiers;
        if m.shift_key && key.keysym.0 == SPACE && !m.control_key {
            return EngineResult::consumed().with_action(EngineAction::Commit(char_string('\u{3000}')));
        }
        if key.keysym.0 == SPACE && !m.control_key && !m.alt_key {
            return if self.space_char() == '\u{3000}' {
                EngineResult::consumed().with_action(EngineAction::Commit(char_string('\u{3000}')))
            } else {
                EngineResult::not_consumed()
            };
        }
        let typed = key.to_char();
        let typed_colon = match typed {
            Some(c) => c == ':',
            None => false,
        } || (m.shift_key && key.keysym.0 == 0x3b);
        if typed_colon && !m.control_key && !m.alt_key && self.mode.current() != InputMode::Alphabet {
            return self.start_emoji_mode();
        }
        match typed {
            Some(ch) => {
                if !m.control_key && !m.alt_key {
                    let shifted = is_ascii_upper(ch) || (m.shift_key && is_ascii_letter(ch));
                    if shifted {
                        self.mode.enter_temporary(InputMode::Alphabet);
                        let ghost mid = *self;
                        let r = self.start_input(to_ascii_upper(ch));
                        assert(started_input(mid, *self, ascii_upper(ch), r));
                        return r;
                    }
                    return self.start_input(ch);
                }
                EngineResult::not_consumed()
            },
            None => EngineResult::not_consumed(),
        }
    }
}



/// A key while composing: Ctrl+K to Katakana; Ctrl+1..9 commits the
/// suggestion in that slot; Ctrl+T and Ctrl+R open the conversion narrowed
/// to the first or the last view of the cycle, Ctrl+I to the model's;
/// Ctrl+J and the Emacs caret chords are absorbed; Enter commits; Escape
/// cancels; Backspace erases; Shift+Left (in Hiragana or Katakana)
/// converts with the last character split off; the other caret keys are
/// absorbed; Shift+Space types a space (so does Space in Alphabet mode);
/// Tab converts without the learning cache, Space and Down with it; a
/// printable key is typed — Shift with a letter, or a capital, switches to
/// Alphabet mode for the rest of the word (katakana typed so far stays
/// katakana) and types the capital; anything else passes on.
pub open spec fn composing_key(a: InputMethodEngine, b: InputMethodEngine, key: KeyEvent, r: EngineResult) -> bool {
    let code = key.keysym.0;
    let m = key.modifiers;
    if m.control_key && (code == KEY_K || code == KEY_K_UPPER) {
        entered_katakana(a, b, r)
    } else if m.control_key && 0x31 <= code <= 0x39 {
        picked_suggestion(a, b, (code - 0x31) as usize, r)
    } else if m.control_key && (code == KEY_T || code == KEY_T_UPPER) {
        opened_view(a, b, next_view(None, true), r)
    } else if m.control_key && (code == KEY_R || code == KEY_R_UPPER) {
        opened_view(a, b, next_view(None, false), r)
    } else if m.control_key && (code == KEY_I || code == KEY_I_UPPER) {
        opened_view(a, b, CandidateSource::Model, r)
    } else if m.control_key && (code == KEY_J || code == KEY_J_UPPER) {
        untouched(a, b) && absorbed(r)
    } else if m.control_key && (code == 0x62 || code == 0x42) {
        caret_acted(a, b, 0, r)
    } else if m.control_key && (code == 0x66 || code == 0x46) {
        caret_acted(a, b, 1, r)
    } else if m.control_key && (code == 0x61 || code == 0x41) {
        caret_acted(a, b, 2, r)
    } else if m.control_key && (code == 0x65 || code == 0x45) {
        caret_acted(a, b, 3, r)
    } else if code == RETURN {
        committed_composition(a, b, r)
    } else if code == ESCAPE {
        cancelled_composition(a, b, r)
    } else if code == BACKSPACE {
        backspaced(a, b, r)
    } else if code == LEFT && m.shift_key && !m.control_key && !m.alt_key && (a.modes().now() == InputMode::Hiragana
        || a.modes().now() == InputMode::Katakana) {
        split_started(a, b, r)
    } else if code == LEFT {
        caret_acted(a, b, 0, r)
    } else if code == RIGHT {
        caret_acted(a, b, 1, r)
    } else if code == HOME {
        caret_acted(a, b, 2, r)
    } else if code == END {
        caret_acted(a, b, 3, r)
    } else if code == DELETE {
        caret_acted(a, b, 4, r)
    } else if code == SPACE && m.shift_key {
        typed_space(a, b, r)
    } else if code == SPACE && a.modes().now() == InputMode::Alphabet {
        typed_char(a, b, ' ', r)
    } else if code == TAB {
        started_conversion(a, b, false, r)
    } else if code == SPACE || code == DOWN {
        started_conversion(a, b, true, r)
    } else if char_of_code(code) is Some && plain(key) {
        let ch = char_of_code(code)->0;
        if shift_alpha(key, ch) && a.modes().now() != InputMode::Alphabet {
            exists|mid: InputMethodEngine|
                #![trigger typed_char(mid, b, ascii_upper(ch), r)]
                mid.modes().now() == InputMode::Alphabet && mid.modes().back() == (if is_temporary(a.modes().now()) {
                    a.modes().back()
                } else {
                    a.modes().now()
                }) && mid.history() == a.history() && same_setup(a, mid) && (if a.modes().now() == InputMode::Katakana {
                    baked(a, mid.buffer())
                } else {
                    mid.buffer() == a.buffer()
                }) && typed_char(mid, b, ascii_upper(ch), r)
        } else if shift_alpha(key, ch) {
            typed_char(a, b, ascii_upper(ch), r)
        } else {
            typed_char(a, b, ch, r)
        }
    } else {
        untouched(a, b) && passed(r)
    }
}

impl InputMethodEngine {
    /// A key in the Composing state.
    fn process_key_composing(&mut self, key: &KeyEvent) -> (r: EngineResult)
        ensures
            composing_key(*old(self), *final(self), *key, r),
    {
        let code = key.keysym.0;
        let m = key.modifiers;
        if m.control_key && (code == KEY_K || code == KEY_K_UPPER) {
            return self.enter_katakana_mode();
        }
        if m.control_key && 0x31 <= code && code <= 0x39 {
            return self.select_shown_suggestion((code - 0x31) as usize);
        }
        if m.control_key && (code == KEY_T || code == KEY_T_UPPER) {
            return self.open_view(next_view_of(None, true));
        }
        if m.control_key && (code == KEY_R || code == KEY_R_UPPER) {
            return self.open_view(next_view_of(None, false));
        }
        if m.control_key && (code == KEY_I || code == KEY_I_UPPER) {
            return self.open_view(CandidateSource::Model);
        }
        if m.control_key && (code == KEY_J || code == KEY_J_UPPER) {
            return EngineResult::consumed();
        }
        if m.control_key && (code == 0x62 || code == 0x42) {
            return self.caret_key_composing(0);
        }
        if m.control_key && (code == 0x66 || code == 0x46) {
            return self.caret_key_composing(1);
        }
        if m.control_key && (code == 0x61 || code == 0x41) {
            return self.caret_key_composing(2);
        }
        if m.control_key && (code == 0x65 || code == 0x45) {
            return self.caret_key_composing(3);
        }
        if code == RETURN {
            return self.commit_composing();
        }
        if code == ESCAPE {
            return self.cancel_composing();
        }
        if code == BACKSPACE {
            return self.backspace_composing();
        }
        if code == LEFT && m.shift_key && !m.control_key && !m.alt_key && (self.mode.current() == InputMode::Hiragana
            || self.mode.current() == InputMode::Katakana) {
            return self.start_split_conversion();
        }
        if code == LEFT {
            return self.caret_key_composing(0);
        }
        if code == RIGHT {
            return self.caret_key_composing(1);
        }
        if code == HOME {
            return self.caret_key_composing(2);
        }
        if code == END {
            return self.caret_key_composing(3);
        }
        if code == DELETE {
            return self.caret_key_composing(4);
        }
        if code == SPACE && m.shift_key {
            return self.input_space();
        }
        if code == SPACE && self.mode.current() == InputMode::Alphabet {
            let space = self.space_char();
            return self.input_char(space);
        }
        if code == TAB {
            return self.start_conversion(false);
        }
        if code == SPACE || code == DOWN {
            return self.start_conversion(true);
        }
        match key.to_char() {
            Some(ch) => {
                if !m.control_key && !m.alt_key {
                    let shifted = is_ascii_upper(ch) || (m.shift_key && is_ascii_letter(ch));
                    if shifted && self.mode.current() != InputMode::Alphabet {
                        if self.mode.current() == InputMode::Katakana {
                            self.input_buf.settle_romaji(&self.romaji);
                            self.input_buf.bake_katakana();
                        }
                        self.mode.enter_temporary(InputMode::Alphabet);
                        self.live.shown = false;
                        let ghost mid = *self;
                        let r = self.input_char(to_ascii_upper(ch));
                        assert(typed_char(mid, *self, ascii_upper(ch), r));
                        return r;
                    }
                    if shifted {
                        return self.input_char(to_ascii_upper(ch));
                    }
                    return self.input_char(ch);
                }
                EngineResult::not_consumed()
            },
            None => EngineResult::not_consumed(),
        }
    }
}

/// `b` is `a` back in the composition it was converting, `r` rendering it.
pub open spec fn back_to_composition(a: InputMethodEngine, b: InputMethodEngine, r: EngineResult) -> bool {
    &&& composing_shown(b)
    &&& b.buffer() == a.buffer()
    &&& b.modes() == a.modes()
    &&& b.history() == a.history()
    &&& same_setup(a, b)
    &&& suggests(b.suggestions(), a.history(), a.buffer().shown(), a.settings().predict_extra_chars)
    &&& renders_composition(r, b)
}

/// The reading a learned candidate was learned under: its own (a
/// prediction reads longer than the conversion), else the segment's.
pub open spec fn candidate_reading(c: Candidate, seg: Segment) -> Seq<char> {
    match c.reading {
        Some(r) => r@,
        None => seg.reading@,
    }
}

/// Ctrl+Delete / Ctrl+Backspace while converting: with a learned candidate
/// selected, it leaves the history — the exact entry and every prefix twin
/// that would resurface it — and the conversion is rebuilt in place from
/// the same composition; with any other selection nothing changes.
pub open spec fn deleted_selection(a: InputMethodEngine, b: InputMethodEngine, r: EngineResult) -> bool {
    match focused_of(a.phase()) {
        Some(seg) => if selected_deletable(seg.candidates) {
            let c = seg.candidates.items()[seg.candidates.position() as int];
            exists|mid: InputMethodEngine|
                #![trigger started_conversion(mid, b, true, r)]
                mid.buffer() == a.buffer() && mid.modes() == a.modes() && same_setup(a, mid) && (match a.history() {
                    Some(h) => mid.history() matches Some(h2) && h2.entries() == after_removal(
                        h.entries(),
                        candidate_reading(c, seg),
                        c.text@,
                    ) && h2.entry_limit() == h.entry_limit() && h2.surface_limit() == h.surface_limit(),
                    None => mid.history() is None,
                }) && started_conversion(mid, b, true, r)
        } else {
            untouched(a, b) && absorbed(r)
        },
        None => untouched(a, b) && absorbed(r),
    }
}

/// A key while converting: Enter commits every segment; Escape and
/// Backspace return to the composition; Space, Down and Tab select the
/// focused segment's next candidate, Up the previous; Ctrl+T and Ctrl+R
/// step the focused window round the source views, Ctrl+I opens the
/// model's; Shift+Left and Shift+Right shrink and grow the focused
/// segment; Left, Right, Home, End (and Ctrl+B, F, A, E) move the focus; a
/// printable key refines the query in Alphabet and Emoji mode, and
/// otherwise commits the conversion and goes on as typed into an empty
/// engine; Ctrl+Delete and Ctrl+Backspace delete a learned selection from
/// the history; Ctrl+1..9 picks the candidate in that slot and moves on to
/// the next segment, committing on the last; other chords pass on, other
/// keys are absorbed while the window is open.
pub open spec fn conversion_key(a: InputMethodEngine, b: InputMethodEngine, key: KeyEvent, r: EngineResult) -> bool {
    let code = key.keysym.0;
    let m = key.modifiers;
    if code == RETURN {
        committed_conversion(a, b, r)
    } else if m.control_key && !m.alt_key && (code == DELETE || code == BACKSPACE) {
        deleted_selection(a, b, r)
    } else if m.control_key && 0x31 <= code <= 0x39 {
        picked_conversion(a, b, (code - 0x31) as usize, r)
    } else if m.control_key && (code == KEY_T || code == KEY_T_UPPER) {
        narrowed_view(a, b, next_view(focused_filter(a.phase()), true), r)
    } else if m.control_key && (code == KEY_R || code == KEY_R_UPPER) {
        narrowed_view(a, b, next_view(focused_filter(a.phase()), false), r)
    } else if m.control_key && (code == KEY_I || code == KEY_I_UPPER) {
        narrowed_view(a, b, CandidateSource::Model, r)
    } else if code == ESCAPE || code == BACKSPACE {
        back_to_composition(a, b, r)
    } else if (code == SPACE || code == DOWN || code == TAB) && focused_of(a.phase()) is Some {
        moved_selection(a, b, true, r)
    } else if code == UP && focused_of(a.phase()) is Some {
        moved_selection(a, b, false, r)
    } else if code == LEFT && m.shift_key && !m.control_key && !m.alt_key {
        shrunk(a, b, r)
    } else if code == RIGHT && m.shift_key && !m.control_key && !m.alt_key {
        extended(a, b, r)
    } else if (code == LEFT && !m.control_key && !m.alt_key) || (m.control_key && !m.alt_key && (code == 0x62 || code
        == 0x42)) {
        focus_moved(a, b, focus_left(a.phase()), r)
    } else if (code == RIGHT && !m.control_key && !m.alt_key) || (m.control_key && !m.alt_key && (code == 0x66
        || code == 0x46)) {
        focus_moved(a, b, focus_right(a.phase()), r)
    } else if (code == HOME && !m.control_key && !m.alt_key) || (m.control_key && !m.alt_key && (code == 0x61
        || code == 0x41)) {
        focus_moved(a, b, 0, r)
    } else if (code == END && !m.control_key && !m.alt_key) || (m.control_key && !m.alt_key && (code == 0x65
        || code == 0x45)) {
        focus_moved(a, b, conv_parts(a.phase()).0.len() - 1, r)
    } else if char_of_code(code) is Some && plain(key) {
        let ch = char_of_code(code)->0;
        if is_temporary(a.modes().now()) {
            typed_char(a, b, if shift_alpha(key, ch) && a.modes().now() == InputMode::Alphabet {
                ascii_upper(ch)
            } else {
                ch
            }, r)
        } else {
            exists|mid: InputMethodEngine, d1: EngineResult, d2: EngineResult|
                #![trigger committed_conversion(a, mid, d1), empty_key(mid, b, key, d2)]
                committed_conversion(a, mid, d1) && empty_key(mid, b, key, d2) && r.consumed && r.actions@ == d1.actions@
                    + d2.actions@
        }
    } else if m.control_key || m.alt_key {
        untouched(a, b) && passed(r)
    } else {
        untouched(a, b) && absorbed(r)
    }
}

/// The aux line announcing live conversion `ON` or `OFF`.
pub open spec fn live_line(on: bool) -> Seq<char> {
    seq!['ラ', 'イ', 'ブ', '変', '換', ':', ' '] + if on {
        seq!['O', 'N']
    } else {
        seq!['O', 'F', 'F']
    }
}

/// `b` is `a` with live conversion switched over, `r` announcing it.
pub open spec fn live_toggled(a: InputMethodEngine, b: InputMethodEngine, r: EngineResult) -> bool {
    &&& b.live_on() == !a.live_on()
    &&& b.phase() == a.phase()
    &&& b.modes() == a.modes()
    &&& b.buffer() == a.buffer()
    &&& b.history() == a.history()
    &&& b.suggestions() == a.suggestions()
    &&& b.converter() == a.converter()
    &&& b.settings() == a.settings()
    &&& b.context() == a.context()
    &&& r.consumed
    &&& r.actions@.len() == 1
    &&& r.actions@[0] matches EngineAction::UpdateAuxText(t) && t@ == live_line(b.live_on())
}

/// An aux line is on screen: during a conversion, and while composing
/// unless the candidate window is held back.
pub open spec fn aux_on_screen(e: InputMethodEngine) -> bool {
    match e.phase() {
        InputState::Empty => false,
        InputState::Composing { .. } => !window_hidden(e),
        InputState::Conversion { .. } => true,
    }
}

/// `b` is `a` with the detailed aux line switched (`verbose` flipped, the
/// rest of the configuration kept), `r` re-rendering the aux line on
/// screen: the conversion's line during a conversion, the composing line
/// otherwise.
pub open spec fn verbose_toggled(a: InputMethodEngine, b: InputMethodEngine, r: EngineResult) -> bool {
    &&& b.settings() == (EngineConfig { verbose: !a.settings().verbose, ..a.settings() })
    &&& b.phase() == a.phase()
    &&& b.modes() == a.modes()
    &&& b.buffer() == a.buffer()
    &&& b.history() == a.history()
    &&& b.suggestions() == a.suggestions()
    &&& b.converter() == a.converter()
    &&& b.context() == a.context()
    &&& b.live_on() == a.live_on()
    &&& r.consumed
    &&& r.actions@.len() == 1
    &&& r.actions@[0] matches EngineAction::UpdateAuxText(t) && match focused_of(a.phase()) {
        Some(seg) => t@ == aux_conversion(a.modes().now(), a.live_on(), seg.reading@, seg.candidates, a.settings().chunk_chars, seg.filter),
        None => a.phase() is Conversion || t@ == aux_composing(
            a.modes().now(),
            a.live_on(),
            a.buffer(),
            a.settings().chunk_chars,
        ),
    }
}

/// What a key does, before the candidate-window setting applies: the mode
/// toggle key first; modifier-only keys and releases pass on;
/// Ctrl+Shift+L switches live conversion; Ctrl+Shift+V switches the
/// detailed aux line while one is on screen and passes on otherwise (it is
/// the application's paste-as-plain-text); every other key goes to the
/// handler of the current state.
pub open spec fn key_effect(a: InputMethodEngine, b: InputMethodEngine, key: KeyEvent, r: EngineResult) -> bool {
    let code = key.keysym.0;
    let m = key.modifiers;
    if acts_as_toggle(key) {
        toggled(a, b, key, r)
    } else if is_modifier_code(code) || !key.is_press {
        untouched(a, b) && passed(r)
    } else if m.control_key && m.shift_key && (code == KEY_L || code == KEY_L_UPPER) {
        live_toggled(a, b, r)
    } else if m.control_key && m.shift_key && (code == KEY_V || code == KEY_V_UPPER) {
        if aux_on_screen(a) {
            verbose_toggled(a, b, r)
        } else {
            untouched(a, b) && passed(r)
        }
    } else {
        match a.phase() {
            InputState::Empty => empty_key(a, b, key, r),
            InputState::Composing { .. } => composing_key(a, b, key, r),
            InputState::Conversion { .. } => conversion_key(a, b, key, r),
        }
    }
}

/// The candidate window is held back: `[display] candidate_window =
/// "conversion"` while composing, except in the emoji picker, which is the
/// whole mode.
pub open spec fn window_hidden(e: InputMethodEngine) -> bool {
    e.settings().candidate_window == CandidateWindow::Conversion && e.phase() is Composing && e.modes().now()
        != InputMode::Emoji
}

/// An action with the window and the aux line it would show hidden.
pub open spec fn hide_action(a: EngineAction) -> EngineAction {
    match a {
        EngineAction::ShowCandidates(_) => EngineAction::HideCandidates,
        EngineAction::UpdateAuxText(_) => EngineAction::HideAuxText,
        _ => a,
    }
}

/// `fin` and `r` are `mid` and `d` with the candidate-window setting
/// applied: where the window is held back, no window or aux line shows
/// and no suggestion is kept to select from; elsewhere nothing changes.
pub open spec fn window_applied(mid: InputMethodEngine, fin: InputMethodEngine, d: EngineResult, r: EngineResult) -> bool {
    if window_hidden(mid) {
        &&& fin.phase() == mid.phase()
        &&& fin.modes() == mid.modes()
        &&& fin.buffer() == mid.buffer()
        &&& fin.history() == mid.history()
        &&& same_setup(mid, fin)
        &&& fin.suggestions().items().len() == 0
        &&& r.consumed == d.consumed
        &&& r.actions@ == d.actions@.map_values(|x: EngineAction| hide_action(x))
    } else {
        &&& fin.phase() == mid.phase()
        &&& fin.modes() == mid.modes()
        &&& fin.buffer() == mid.buffer()
        &&& fin.history() == mid.history()
        &&& same_setup(mid, fin)
        &&& fin.suggestions() == mid.suggestions()
        &&& r == d
    }
}

impl InputMethodEngine {
    /// A key in the Conversion state.
    fn process_key_conversion(&mut self, key: &KeyEvent) -> (r: EngineResult)
        requires
            old(self).phase() is Conversion,
        ensures
            conversion_key(*old(self), *final(self), *key, r),
    {
        let code = key.keysym.0;
        let m = key.modifiers;
        if code == RETURN {
            return self.commit_conversion();
        }
        if m.control_key && !m.alt_key && (code == DELETE || code == BACKSPACE) {
            return self.delete_selected_learning();
        }
        if m.control_key && 0x31 <= code && code <= 0x39 {
            return self.select_conversion_candidate((code - 0x31) as usize);
        }
        if m.control_key && (code == KEY_T || code == KEY_T_UPPER) {
            let source = next_view_of(self.current_filter(), true);
            return self.narrow_view(source);
        }
        if m.control_key && (code == KEY_R || code == KEY_R_UPPER) {
            let source = next_view_of(self.current_filter(), false);
            return self.narrow_view(source);
        }
        if m.control_key && (code == KEY_I || code == KEY_I_UPPER) {
            return self.narrow_view(CandidateSource::Model);
        }
        if code == ESCAPE || code == BACKSPACE {
            return self.refresh_input_state();
        }
        let focused = self.state.focused_segment().is_some();
        if (code == SPACE || code == DOWN || code == TAB) && focused {
            return self.move_selection(true);
        }
        if code == UP && focused {
            return self.move_selection(false);
        }
        let plain_nav = !m.control_key && !m.alt_key;
        let ctrl_nav = m.control_key && !m.alt_key;
        if code == LEFT && m.shift_key && plain_nav {
            return self.shrink_focused();
        }
        if code == RIGHT && m.shift_key && plain_nav {
            return self.extend_focused();
        }
        let (f, n) = self.focus_and_count();
        if (code == LEFT && plain_nav) || (ctrl_nav && (code == 0x62 || code == 0x42)) {
            let to = if f > 0 {
                f - 1
            } else {
                f
            };
            return self.move_focus(to);
        }
        if (code == RIGHT && plain_nav) || (ctrl_nav && (code == 0x66 || code == 0x46)) {
            let to = if n > 0 && f < n - 1 {
                f + 1
            } else {
                f
            };
            return self.move_focus(to);
        }
        if (code == HOME && plain_nav) || (ctrl_nav && (code == 0x61 || code == 0x41)) {
            return self.move_focus(0);
        }
        if (code == END && plain_nav) || (ctrl_nav && (code == 0x65 || code == 0x45)) {
            if n == 0 {
                return EngineResult::consumed();
            }
            return self.move_focus(n - 1);
        }
        match key.to_char() {
            Some(ch) => {
                if m.control_key || m.alt_key {
                    return EngineResult::not_consumed();
                }
                let mode = self.mode.current();
                if ModeState::is_temporary(mode) {
                    let shifted = is_ascii_upper(ch) || (m.shift_key && is_ascii_letter(ch));
                    let c = if shifted && mode == InputMode::Alphabet {
                        to_ascii_upper(ch)
                    } else {
                        ch
                    };
                    return self.input_char(c);
                }
                let ghost a = *self;
                let first = self.commit_conversion();
                let ghost mid = *self;
                let rest = self.process_key_empty(key);
                assert(committed_conversion(a, mid, first) && empty_key(mid, *self, *key, rest));
                let r = then_result(first, rest);
                r
            },
            None => if m.control_key || m.alt_key {
                EngineResult::not_consumed()
            } else {
                EngineResult::consumed()
            },
        }
    }

    /// Delete the selected learned candidate from the history and rebuild
    /// the conversion (Ctrl+Delete, Ctrl+Backspace).
    fn delete_selected_learning(&mut self) -> (r: EngineResult)
        ensures
            deleted_selection(*old(self), *final(self), r),
    {
        let target = match self.state.focused_segment() {
            Some(seg) => {
                proof {
                    use_type_invariant(&seg.candidates);
                }
                match seg.candidates.selected() {
                    Some(c) => if c.is_deletable() {
                        let reading = match &c.reading {
                            Some(x) => x.clone(),
                            None => seg.reading.clone(),
                        };
                        Some((reading, c.text.clone()))
                    } else {
                        None
                    },
                    None => None,
                }
            },
            None => None,
        };
        match target {
            Some((reading, text)) => {
                let taken = self.learning.take();
                match taken {
                    Some(mut cache) => {
                        cache.remove_suggestion(reading.as_str(), text.as_str());
                        self.learning = Some(cache);
                    },
                    None => {},
                }
                let ghost mid = *self;
                let r = self.start_conversion(true);
                assert(started_conversion(mid, *self, true, r));
                r
            },
            None => EngineResult::consumed(),
        }
    }

    /// Ctrl+Shift+L: switch live conversion on or off.
    fn toggle_live_conversion(&mut self) -> (r: EngineResult)
        ensures
            live_toggled(*old(self), *final(self), r),
    {
        self.live.enabled = !self.live.enabled;
        let mut line: Vec<char> = vec!['ラ', 'イ', 'ブ', '変', '換', ':', ' '];
        if self.live.enabled {
            line.push('O');
            line.push('N');
        } else {
            line.push('O');
            line.push('F');
            line.push('F');
        }
        assert(line@ =~= live_line(self.live.enabled));
        EngineResult::consumed().with_action(EngineAction::UpdateAuxText(string_from_chars(line.as_slice())))
    }

    /// Whether an aux line is on screen.
    fn aux_line_on_screen(&self) -> (r: bool)
        ensures
            r == aux_on_screen(*self),
    {
        match self.state {
            InputState::Empty => false,
            InputState::Composing { .. } => !(self.config.candidate_window == CandidateWindow::Conversion
                && self.mode.current() != InputMode::Emoji),
            InputState::Conversion { .. } => true,
        }
    }

    /// Ctrl+Shift+V: switch the detailed aux line and re-render the line
    /// on screen.
    fn toggle_verbose(&mut self) -> (r: EngineResult)
        ensures
            verbose_toggled(*old(self), *final(self), r),
    {
        let aux = match self.state.focused_segment() {
            Some(seg) => self.format_aux_conversion(seg.reading.as_str(), &seg.candidates, seg.filter),
            None => self.format_aux_composing(),
        };
        self.config.verbose = !self.config.verbose;
        EngineResult::consumed().with_action(EngineAction::UpdateAuxText(aux))
    }

    /// Every key, the state-independent ones included.
    fn dispatch_key(&mut self, key: &KeyEvent) -> (r: EngineResult)
        ensures
            key_effect(*old(self), *final(self), *key, r),
    {
        match self.handle_mode_toggle_key(key) {
            Some(result) => {
                return result;
            },
            None => {},
        }
        if key.keysym.is_modifier() || !key.is_press {
            return EngineResult::not_consumed();
        }
        let m = key.modifiers;
        if m.control_key && m.shift_key && (key.keysym.0 == KEY_L || key.keysym.0 == KEY_L_UPPER) {
            return self.toggle_live_conversion();
        }
        if m.control_key && m.shift_key && (key.keysym.0 == KEY_V || key.keysym.0 == KEY_V_UPPER) {
            if !self.aux_line_on_screen() {
                return EngineResult::not_consumed();
            }
            return self.toggle_verbose();
        }
        match self.state {
            InputState::Empty => self.process_key_empty(key),
            InputState::Composing { .. } => self.process_key_composing(key),
            InputState::Conversion { .. } => self.process_key_conversion(key),
        }
    }

    /// Apply the candidate-window setting to a finished result: where the
    /// window is held back while composing, it and its aux line are hidden
    /// and the suggestions dropped, so no digit can pick what is off
    /// screen.
    fn hide_candidate_window(&mut self, result: EngineResult) -> (r: EngineResult)
        ensures
            window_applied(*old(self), *final(self), result, r),
    {
        let hidden = matches!(self.config.candidate_window, CandidateWindow::Conversion) && matches!(
            self.state,
            InputState::Composing { .. }
        ) && self.mode.current() != InputMode::Emoji;
        if !hidden {
            return result;
        }
        self.shown_suggestions = CandidateList::empty();
        let consumed = result.consumed;
        let ghost orig = result.actions@;
        let mut rest = result.actions;
        let mut out: Vec<EngineAction> = Vec::new();
        while rest.len() > 0
            invariant
                rest@.len() <= orig.len(),
                rest@ == orig.subrange(orig.len() - rest@.len(), orig.len() as int),
                out@ == orig.subrange(0, orig.len() - rest@.len()).map_values(|x: EngineAction| hide_action(x)),
            decreases rest@.len(),
        {
            let ghost k = orig.len() - rest@.len();
            let action = rest.remove(0);
            let mapped = match action {
                EngineAction::ShowCandidates(_) => EngineAction::HideCandidates,
                EngineAction::UpdateAuxText(_) => EngineAction::HideAuxText,
                other => other,
            };
            assert(action == orig[k]);
            out.push(mapped);
            assert(out@ =~= orig.subrange(0, k + 1).map_values(|x: EngineAction| hide_action(x)));
            assert(rest@ =~= orig.subrange(k + 1, orig.len() as int));
        }
        assert(orig.subrange(0, orig.len() as int) =~= orig);
        EngineResult { consumed, actions: out }
    }

    /// Process a key event: the key's effect in the current state, with
    /// the candidate-window setting applied to what it shows.
    pub fn process_key(&mut self, key: &KeyEvent) -> (r: EngineResult)
        ensures
            exists|mid: InputMethodEngine, d: EngineResult|
                #![trigger key_effect(*old(self), mid, *key, d), window_applied(mid, *final(self), d, r)]
                key_effect(*old(self), mid, *key, d) && window_applied(mid, *final(self), d, r),
            final(self).timings().conversion_ms == 0,
    {
        let start = clock_now();
        let word_starts = matches!(self.state, InputState::Empty);
        let d = self.dispatch_key(key);
        let ghost mid = *self;
        let r = self.hide_candidate_window(d);
        let ghost fin = *self;
        if word_starts {
            self.metrics.adaptive_use_light_model = false;
        }
        self.metrics.conversion_ms = 0;
        self.metrics.process_key_ms = millis_since(&start);
        assert(window_applied(mid, fin, d, r));
        assert(window_applied(mid, *self, d, r));
        r
    }
}

/// What committing all pending input of `a` produces.
pub open spec fn pending_text(a: InputMethodEngine) -> Seq<char> {
    match a.phase() {
        InputState::Empty => Seq::empty(),
        InputState::Composing { .. } => composing_commit_text(a),
        InputState::Conversion { .. } => conversion_commit_text(a.phase()),
    }
}

/// `b` is `a` after committing all pending input as `text` (focus-out):
/// the text Enter would have produced, the same teardown and learning,
/// and the surrounding context dropped.
pub open spec fn committed_all(a: InputMethodEngine, b: InputMethodEngine, text: Seq<char>) -> bool {
    &&& text == pending_text(a)
    &&& b.phase() is Empty
    &&& b.context() is None
    &&& b.converter() == a.converter()
    &&& b.settings() == a.settings()
    &&& match a.phase() {
        InputState::Empty => b.modes() == a.modes() && b.buffer() == a.buffer() && b.history() == a.history(),
        InputState::Composing { .. } => {
            &&& b.buffer().shown().len() == 0
            &&& b.modes().now() == a.modes().back()
            &&& b.modes().back() == a.modes().back()
            &&& if text.len() > 0 && a.modes().now() != InputMode::Emoji {
                learns(a.history(), b.history(), settled_reading(a), text)
            } else {
                b.history() == a.history()
            }
        },
        InputState::Conversion { .. } => {
            &&& b.buffer().shown().len() == 0
            &&& b.modes().now() == a.modes().back()
            &&& b.modes().back() == a.modes().back()
            &&& if text.len() > 0 && a.modes().now() != InputMode::Emoji {
                learns_each(a.history(), b.history(), conversion_segments(a.phase()))
            } else {
                b.history() == a.history()
            }
        },
    }
}

impl InputMethodEngine {
    /// The text a result commits first, or an empty string.
    fn first_commit(r: &EngineResult) -> (t: String)
        ensures
            r.actions@.len() > 0 && r.actions@[0] is Commit ==> t@ == r.actions@[0]->Commit_0@,
            !(r.actions@.len() > 0 && r.actions@[0] is Commit) ==> t@.len() == 0,
    {
        if r.actions.len() > 0 {
            match &r.actions[0] {
                EngineAction::Commit(t) => {
                    return t.clone();
                },
                _ => {},
            }
        }
        String::new()
    }

    /// Commit any pending input and return the text: what Enter would have
    /// committed, with the same teardown. The surrounding context is
    /// dropped — the editor moved on.
    pub fn commit(&mut self) -> (text: String)
        ensures
            committed_all(*old(self), *final(self), text@),
    {
        let ghost a = *self;
        let text = match self.state {
            InputState::Empty => {
                let t = String::new();
                assert(t@ =~= pending_text(a));
                t
            },
            InputState::Composing { .. } => {
                let r = self.commit_composing();
                let t = Self::first_commit(&r);
                assert(t@ =~= pending_text(a));
                t
            },
            InputState::Conversion { .. } => {
                let r = self.commit_conversion();
                let t = Self::first_commit(&r);
                assert(t@ =~= pending_text(a));
                t
            },
        };
        self.surrounding_context = None;
        text
    }

    /// Commit any pending input as an [`EngineResult`], with the same
    /// cleanup actions as the key-driven commit: the commit (an emptied
    /// preedit when there was nothing to commit), then the window and the
    /// aux line hidden.
    pub fn commit_result(&mut self) -> (r: EngineResult)
        ensures
            committed_all(*old(self), *final(self), pending_text(*old(self))),
            pending_text(*old(self)).len() > 0 ==> renders_commit(r, pending_text(*old(self))),
            pending_text(*old(self)).len() == 0 ==> renders_cleared(r),
    {
        let text = self.commit();
        let result = if chars_of(text.as_str()).len() > 0 {
            EngineResult::consumed().with_action(EngineAction::Commit(text))
        } else {
            EngineResult::consumed().with_action(EngineAction::UpdatePreedit(Preedit::new()))
        };
        result.with_action(EngineAction::HideCandidates).with_action(EngineAction::HideAuxText)
    }
}

} // verus!

verus! {

/// The mode a temporary mode entered from `m` returns to.
pub open spec fn comeback_from(m: ModeState) -> InputMode {
    if is_temporary(m.now()) {
        m.back()
    } else {
        m.now()
    }
}

/// A composition ends — committed (Enter), cancelled (Escape), or erased
/// to nothing — taking `a` to `b` with output `r`.
pub open spec fn composition_ends(a: InputMethodEngine, b: InputMethodEngine, r: EngineResult) -> bool {
    committed_composition(a, b, r) || cancelled_composition(a, b, r) || (backspaced(a, b, r) && b.phase() is Empty)
}

/// An emoji session returns to the mode it started from: `:` opens it
/// from `a`, typing the query keeps Emoji mode (the mode state of `c` is
/// that of `b`), and however the composition ends, `d` is back in the
/// mode `a` was in (or, from a temporary mode, in the one that mode would
/// have returned to).
pub proof fn lemma_emoji_round_trip(
    a: InputMethodEngine,
    b: InputMethodEngine,
    c: InputMethodEngine,
    d: InputMethodEngine,
    r1: EngineResult,
    r2: EngineResult,
)
    requires
        started_emoji(a, b, r1),
        c.modes() == b.modes(),
        composition_ends(c, d, r2),
    ensures
        d.modes().now() == comeback_from(a.modes()),
        d.phase() is Empty,
{
}

/// Typing into an emoji query keeps Emoji mode while the composition lasts.
pub proof fn lemma_query_typing_keeps_mode(a: InputMethodEngine, b: InputMethodEngine, ch: char, r: EngineResult)
    requires
        typed_char(a, b, ch, r),
        !(b.phase() is Empty),
    ensures
        b.modes() == a.modes(),
{
}

/// Shift with a letter puts one word in Alphabet mode: committing or
/// cancelling it, or erasing it, returns to the mode the word started in.
pub proof fn lemma_alphabet_word_round_trip(
    a: InputMethodEngine,
    mid: InputMethodEngine,
    b: InputMethodEngine,
    c: InputMethodEngine,
    ch: char,
    r1: EngineResult,
    r2: EngineResult,
)
    requires
        a.phase() is Empty,
        mid.modes().now() == InputMode::Alphabet,
        mid.modes().back() == comeback_from(a.modes()),
        started_input(mid, b, ascii_upper(ch), r1),
        composition_ends(b, c, r2),
    ensures
        c.modes().now() == comeback_from(a.modes()),
        c.phase() is Empty,
{
}

/// Committing all pending input (focus-out) produces exactly what Enter
/// commits, for a composition and for a conversion alike.
pub proof fn lemma_commit_matches_enter(
    a: InputMethodEngine,
    enter: InputMethodEngine,
    r: EngineResult,
    flushed_out: InputMethodEngine,
    text: Seq<char>,
)
    requires
        committed_all(a, flushed_out, text),
        text.len() > 0,
        (a.phase() is Composing && committed_composition(a, enter, r)) || (a.phase() is Conversion
            && committed_conversion(a, enter, r)),
    ensures
        r.actions@[0] matches EngineAction::Commit(t) && t@ == text,
        flushed_out.phase() == enter.phase(),
        flushed_out.modes().now() == enter.modes().now(),
        flushed_out.buffer().shown() == enter.buffer().shown(),
{
}

/// Stepping the selection forward and then back returns to where it was,
/// and back then forward likewise, in a list of any length.
pub proof fn lemma_selection_round_trip(pos: usize, n: nat)
    requires
        pos < n,
        n <= usize::MAX,
    ensures
        stepped(stepped(pos, n, true) as usize, n, false) == pos,
        stepped(stepped(pos, n, false) as usize, n, true) == pos,
{
}

} // verus!

verus! {

/// Ctrl+digit while composing: the `index`-th suggestion of the page on
/// screen is committed — learned under its own reading unless it is a date
/// or an emoji pick — and the composition ends; a slot the page does not
/// have is absorbed with nothing changed.
pub open spec fn picked_suggestion(a: InputMethodEngine, b: InputMethodEngine, index: usize, r: EngineResult) -> bool {
    let list = a.suggestions();
    let t = page_target(list.position(), index);
    if t < list.items().len() {
        let c = list.items()[t];
        let reading = match c.reading {
            Some(x) => x@,
            None => a.buffer().shown(),
        };
        if c.text@.len() == 0 {
            &&& b.phase() == a.phase()
            &&& b.modes() == a.modes()
            &&& b.buffer() == a.buffer()
            &&& b.history() == a.history()
            &&& same_setup(a, b)
            &&& absorbed(r)
        } else {
            &&& b.phase() is Empty
            &&& b.buffer().shown().len() == 0
            &&& b.modes().now() == a.modes().back()
            &&& b.modes().back() == a.modes().back()
            &&& same_setup(a, b)
            &&& renders_commit(r, c.text@)
            &&& if a.modes().now() != InputMode::Emoji && c.source != Some(CandidateSource::Date) {
                learns(a.history(), b.history(), reading, c.text@)
            } else {
                b.history() == a.history()
            }
        }
    } else {
        untouched(a, b) && absorbed(r)
    }
}

/// Ctrl+digit while converting: the `index`-th candidate of the page on
/// screen is selected and the conversion committed; a slot the page does
/// not have is absorbed with nothing changed.
pub open spec fn picked_conversion(a: InputMethodEngine, b: InputMethodEngine, index: usize, r: EngineResult) -> bool {
    match focused_of(a.phase()) {
        Some(seg) => if page_target(seg.candidates.position(), index) < seg.candidates.items().len() {
            exists|mid: InputMethodEngine|
                #![trigger after_pick(mid, b, r)]
                focused_of(mid.phase()) matches Some(s2) && s2.reading == seg.reading && s2.candidates.items()
                    == seg.candidates.items() && s2.candidates.position() == page_target(seg.candidates.position(), index)
                    && conv_parts(mid.phase()).1 == conv_parts(a.phase()).1 && conv_parts(mid.phase()).0 == conv_parts(
                    a.phase(),
                ).0.update(conv_parts(a.phase()).1 as int, s2) && mid.phase() is Conversion && mid.modes()
                    == a.modes() && mid.history() == a.history() && mid.buffer() == a.buffer() && same_setup(a, mid)
                    && after_pick(mid, b, r)
        } else {
            untouched(a, b) && absorbed(r)
        },
        None => untouched(a, b) && absorbed(r),
    }
}

/// After a pick in the focused segment: with a segment after it the focus
/// moves on to that one; on the last segment the conversion is committed.
pub open spec fn after_pick(mid: InputMethodEngine, b: InputMethodEngine, r: EngineResult) -> bool {
    let f = conv_parts(mid.phase()).1;
    if f + 1 < conv_parts(mid.phase()).0.len() {
        focus_moved(mid, b, f + 1, r)
    } else {
        committed_conversion(mid, b, r)
    }
}

impl InputMethodEngine {
    /// Commit the `index`-th suggestion of the page on screen (Ctrl+digit
    /// while composing).
    fn select_shown_suggestion(&mut self, index: usize) -> (r: EngineResult)
        ensures
            picked_suggestion(*old(self), *final(self), index, r),
    {
        if self.shown_suggestions.page_slot(index).is_none() {
            return EngineResult::consumed();
        }
        self.shown_suggestions.select_on_page(index);
        let (text, reading, learnable) = match self.shown_suggestions.selected() {
            Some(c) => {
                let reading = match &c.reading {
                    Some(x) => x.clone(),
                    None => self.input_buf.reading(),
                };
                let learnable = match c.source {
                    Some(source) => source.is_learnable(),
                    None => true,
                };
                (c.text.clone(), reading, learnable)
            },
            None => (String::new(), String::new(), false),
        };
        if chars_of(text.as_str()).len() == 0 {
            return EngineResult::consumed();
        }
        if learnable {
            self.record_learning(reading.as_str(), text.as_str());
        }
        self.end_composition();
        EngineResult::consumed().with_action(EngineAction::Commit(text)).with_action(
            EngineAction::HideCandidates,
        ).with_action(EngineAction::HideAuxText)
    }

    /// Select the `index`-th candidate of the page on screen and commit the
    /// conversion (Ctrl+digit while converting).
    fn select_conversion_candidate(&mut self, index: usize) -> (r: EngineResult)
        requires
            old(self).phase() is Conversion,
        ensures
            picked_conversion(*old(self), *final(self), index, r),
    {
        let fits = match self.state.focused_segment() {
            Some(seg) => seg.candidates.page_slot(index).is_some(),
            None => false,
        };
        if !fits {
            return EngineResult::consumed();
        }
        match self.state.candidates_mut() {
            Some(list) => {
                list.select_on_page(index);
            },
            None => {},
        }
        let ghost mid = *self;
        let (f, n) = self.focus_and_count();
        if f + 1 < n {
            let r = self.move_focus(f + 1);
            assert(after_pick(mid, *self, r));
            r
        } else {
            let r = self.commit_conversion();
            assert(after_pick(mid, *self, r));
            r
        }
    }

    /// Pick the `index`-th candidate of the page on screen, as a click on
    /// the window does: while converting it is selected and committed,
    /// while composing the suggestion is committed; with nothing on screen
    /// the pick passes on.
    pub fn select_candidate_on_page(&mut self, index: usize) -> (r: EngineResult)
        ensures
            old(self).phase() is Empty ==> untouched(*old(self), *final(self)) && passed(r),
            old(self).phase() is Composing ==> picked_suggestion(*old(self), *final(self), index, r),
            old(self).phase() is Conversion ==> picked_conversion(*old(self), *final(self), index, r),
    {
        match self.state {
            InputState::Empty => EngineResult::not_consumed(),
            InputState::Composing { .. } => self.select_shown_suggestion(index),
            InputState::Conversion { .. } => self.select_conversion_candidate(index),
        }
    }
}

} // verus!
