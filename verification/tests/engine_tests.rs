use karukan::engine::{InputMethodEngine, LearningLookup};
use karukan::engine_types::{EngineAction, EngineConfig, EngineResult, InputMode};
use karukan::keys::{
    KeyEvent, KeyModifiers, Keysym, BACKSPACE, DELETE, ESCAPE, KEY_I, KEY_R, KEY_T, RETURN, SPACE, TAB,
};
use karukan::learning::{LearningCache, LearningConfig};
use karukan::settings::{Settings, SpaceStyle};
use karukan::state::InputState;
use karukan::{PunctuationStyle, SymbolStyle, Width, WidthRules};

fn press(ch: char) -> KeyEvent {
    KeyEvent::press(Keysym(ch as u32))
}

fn press_key(code: u32) -> KeyEvent {
    KeyEvent::press(Keysym(code))
}

fn press_shift(ch: char) -> KeyEvent {
    KeyEvent::new(
        Keysym(ch as u32),
        KeyModifiers::new().with_shift(true),
        true,
    )
}

fn press_shift_key(code: u32) -> KeyEvent {
    KeyEvent::new(Keysym(code), KeyModifiers::new().with_shift(true), true)
}

/// Press `:` (the colon keysym).
fn press_colon() -> KeyEvent {
    KeyEvent::press(Keysym(b':' as u32))
}

/// Extract the text from the first `Commit` action in `result`, if any.
fn commit_text(result: &EngineResult) -> Option<String> {
    result.actions.iter().find_map(|a| match a {
        EngineAction::Commit(t) => Some(t.clone()),
        _ => None,
    })
}

/// The text of the last preedit the engine emitted.
fn shown_preedit(result: &EngineResult) -> Option<String> {
    result.actions.iter().rev().find_map(|a| match a {
        EngineAction::UpdatePreedit(p) => Some(p.text().to_string()),
        _ => None,
    })
}

fn committed(result: &EngineResult) -> Option<String> {
    result.actions.iter().find_map(|a| match a {
        EngineAction::Commit(text) => Some(text.clone()),
        _ => None,
    })
}

fn type_keys(engine: &mut InputMethodEngine, keys: &str) -> EngineResult {
    let mut result = EngineResult::not_consumed();
    for ch in keys.chars() {
        result = engine.process_key(&press(ch));
    }
    result
}

/// Engine on the shipped config, with live conversion off.
fn engine_on_shipped_defaults() -> InputMethodEngine {
    let settings = Settings::default();
    InputMethodEngine::with_config(EngineConfig {
        live_conversion: false,
        ..EngineConfig::from_settings(&settings)
    })
}

/// Engine configured with `width`.
fn engine_with_width(width: WidthRules) -> InputMethodEngine {
    InputMethodEngine::with_config(EngineConfig {
        width,
        ..EngineConfig::default()
    })
}

#[test]
fn typing_colon_in_empty_enters_emoji_mode() {
    let mut engine = InputMethodEngine::new();
    assert_eq!(engine.mode().current(), InputMode::Hiragana);

    let result = engine.process_key(&press_colon());
    assert!(result.consumed);
    assert_eq!(engine.mode().current(), InputMode::Emoji);
    assert!(matches!(engine.state(), InputState::Composing { .. }));
    assert_eq!(engine.preedit().unwrap().text(), ":");
}

#[test]
fn ascii_after_colon_stays_literal() {
    let mut engine = InputMethodEngine::new();
    engine.process_key(&press_colon());
    for ch in ['p', 'i', 'e', 'n'] {
        engine.process_key(&press(ch));
    }
    assert_eq!(engine.mode().current(), InputMode::Emoji);
    assert_eq!(engine.preedit().unwrap().text(), ":pien");
}

#[test]
fn escape_commits_literal_and_exits_emoji_mode() {
    let mut engine = InputMethodEngine::new();
    engine.process_key(&press_colon());
    for ch in ['s', 'm', 'i', 'l', 'e'] {
        engine.process_key(&press(ch));
    }
    assert_eq!(engine.mode().current(), InputMode::Emoji);

    let result = engine.process_key(&press_key(ESCAPE));
    assert_eq!(commit_text(&result).as_deref(), Some(":smile"));
    assert_eq!(engine.mode().current(), InputMode::Hiragana);
    assert!(matches!(engine.state(), InputState::Empty));
}

#[test]
fn enter_on_unknown_emoji_query_commits_literal() {
    let mut engine = InputMethodEngine::new();
    engine.process_key(&press_colon());
    for ch in ['q', 'q', 'q', 'q'] {
        engine.process_key(&press(ch));
    }
    let result = engine.process_key(&press_key(RETURN));
    assert_eq!(commit_text(&result).as_deref(), Some(":qqqq"));
}

#[test]
fn backspacing_to_empty_exits_emoji_mode() {
    let mut engine = InputMethodEngine::new();
    engine.process_key(&press_colon());
    for ch in ['s', 'm', 'i', 'l', 'e'] {
        engine.process_key(&press(ch));
    }
    assert_eq!(engine.mode().current(), InputMode::Emoji);

    for _ in 0..6 {
        engine.process_key(&press_key(BACKSPACE));
    }
    assert!(matches!(engine.state(), InputState::Empty));
    assert_eq!(engine.mode().current(), InputMode::Hiragana);

    engine.process_key(&press('a'));
    assert_eq!(engine.preedit().unwrap().text(), "あ");
}

#[test]
fn backspacing_to_empty_restores_pre_emoji_katakana_mode() {
    let mut engine = InputMethodEngine::new();
    engine.set_mode(InputMode::Katakana);

    engine.process_key(&press_colon());
    assert_eq!(engine.mode().current(), InputMode::Emoji);
    for ch in ['s', 'm', 'i', 'l', 'e'] {
        engine.process_key(&press(ch));
    }

    for _ in 0..6 {
        engine.process_key(&press_key(BACKSPACE));
    }
    assert!(matches!(engine.state(), InputState::Empty));
    assert_eq!(engine.mode().current(), InputMode::Katakana);
}

#[test]
fn commit_emoji_restores_pre_emoji_katakana_mode() {
    let mut engine = InputMethodEngine::new();
    engine.set_mode(InputMode::Katakana);

    engine.process_key(&press_colon());
    for ch in ['s', 'm', 'i', 'l', 'e'] {
        engine.process_key(&press(ch));
    }
    engine.process_key(&press_key(RETURN));
    assert_eq!(engine.mode().current(), InputMode::Katakana);
}

#[test]
fn escape_emoji_restores_pre_emoji_katakana_mode() {
    let mut engine = InputMethodEngine::new();
    engine.set_mode(InputMode::Katakana);

    engine.process_key(&press_colon());
    for ch in ['s', 'm', 'i', 'l', 'e'] {
        engine.process_key(&press(ch));
    }
    engine.process_key(&press_key(ESCAPE));
    assert_eq!(engine.mode().current(), InputMode::Katakana);
}

#[test]
fn colon_in_hiragana_does_not_enter_emoji_when_already_composing() {
    let mut engine = InputMethodEngine::new();
    engine.process_key(&press('a'));
    assert_eq!(engine.mode().current(), InputMode::Hiragana);
    assert!(matches!(engine.state(), InputState::Composing { .. }));

    engine.process_key(&press_colon());
    assert_eq!(engine.mode().current(), InputMode::Hiragana);
    assert!(engine.preedit().unwrap().text().contains('あ'));
}

#[test]
fn typed_symbols_come_out_at_the_configured_width() {
    let mut engine = engine_with_width(WidthRules {
        ascii_symbol: Width::Half,
        ..WidthRules::default()
    });
    let result = type_keys(&mut engine, "a?b!");
    assert_eq!(shown_preedit(&result).as_deref(), Some("あ?b!"));
    let result = engine.process_key(&press_key(RETURN));
    assert_eq!(committed(&result).as_deref(), Some("あ?b!"));

    let mut engine = engine_with_width(WidthRules {
        ascii_symbol: Width::Full,
        ..WidthRules::default()
    });
    let result = type_keys(&mut engine, "(a)");
    assert_eq!(shown_preedit(&result).as_deref(), Some("（あ）"));
}

#[test]
fn the_kana_symbols_keep_the_style_that_typed_them() {
    let mut engine = engine_with_width(WidthRules {
        ascii_symbol: Width::Half,
        digit: Width::Half,
        ..WidthRules::default()
    });

    let result = type_keys(&mut engine, "a,b.");
    assert_eq!(shown_preedit(&result).as_deref(), Some("あ、b。"));
}

#[test]
fn the_shipped_default_makes_kana_input_full_width() {
    let mut engine = engine_on_shipped_defaults();

    let result = type_keys(&mut engine, "(a)");
    assert_eq!(shown_preedit(&result).as_deref(), Some("（あ）"));

    engine.process_key(&press_key(ESCAPE));
    let result = type_keys(&mut engine, "123");
    assert_eq!(shown_preedit(&result).as_deref(), Some("123"));

    engine.process_key(&press_key(ESCAPE));
    engine.process_key(&press_shift('A'));
    let result = type_keys(&mut engine, "bc, d.");
    assert_eq!(shown_preedit(&result).as_deref(), Some("Abc, d."));
}

#[test]
fn the_symbol_style_picks_the_mark_and_the_width_folds_it() {
    let style = SymbolStyle {
        punctuation: PunctuationStyle::CommaPeriod,
        ..SymbolStyle::default()
    };
    let mut engine = InputMethodEngine::with_config(EngineConfig {
        symbol: style,
        ..EngineConfig::default()
    });
    let result = type_keys(&mut engine, "a,b.");
    assert_eq!(shown_preedit(&result).as_deref(), Some("あ，b．"));

    let mut engine = InputMethodEngine::with_config(EngineConfig {
        symbol: style,
        width: WidthRules {
            ascii_symbol: Width::Half,
            ..WidthRules::default()
        },
        ..EngineConfig::default()
    });
    let result = type_keys(&mut engine, "a,b.");
    assert_eq!(shown_preedit(&result).as_deref(), Some("あ,b."));
}

#[test]
fn alphabet_input_always_takes_an_ascii_space() {
    let mut engine = InputMethodEngine::with_config(EngineConfig {
        space: SpaceStyle::Full,
        ..EngineConfig::default()
    });
    engine.process_key(&press_shift('A'));
    let result = engine.process_key(&press_key(SPACE));

    assert_eq!(shown_preedit(&result).as_deref(), Some("A "));
}

#[test]
fn shift_space_alone_is_always_the_full_width_one() {
    for space in [SpaceStyle::Half, SpaceStyle::Full] {
        let mut engine = InputMethodEngine::with_config(EngineConfig {
            space,
            ..EngineConfig::default()
        });
        let result = engine.process_key(&press_shift_key(SPACE));
        assert_eq!(committed(&result).as_deref(), Some("\u{3000}"));
    }
}

#[test]
fn a_settled_symbol_keeps_its_width_when_alphabet_input_starts() {
    let mut engine = engine_on_shipped_defaults();

    engine.process_key(&press('('));
    let result = engine.process_key(&press_shift('A'));
    assert_eq!(shown_preedit(&result).as_deref(), Some("（A"));

    let result = engine.process_key(&press_key(RETURN));
    assert_eq!(committed(&result).as_deref(), Some("（A"));
}

#[test]
fn committing_emoji_resets_to_hiragana() {
    let mut engine = InputMethodEngine::new();
    engine.process_key(&press_colon());
    for ch in ['s', 'm', 'i', 'l', 'e'] {
        engine.process_key(&press(ch));
    }
    engine.process_key(&press_key(SPACE));
    engine.process_key(&press_key(RETURN));
    assert_eq!(engine.mode().current(), InputMode::Hiragana);
    assert!(matches!(engine.state(), InputState::Empty));
}

#[test]
fn conversion_unknown_emoji_shows_no_literal() {
    let mut engine = InputMethodEngine::new();
    engine.process_key(&press_colon());
    for ch in ['q', 'q', 'q', 'q'] {
        engine.process_key(&press(ch));
    }
    engine.process_key(&press_key(SPACE));
    let texts: Vec<String> = engine
        .candidates()
        .map(|list| list.candidates().iter().map(|c| c.text.clone()).collect())
        .unwrap_or_default();
    assert!(
        !texts.iter().any(|t| t == ":qqqq"),
        "did NOT expect :qqqq literal in emoji-mode candidates, got {:?}",
        texts
    );
}

// ---- The learning cache in the engine ---------------------------------

fn press_ctrl(code: u32) -> KeyEvent {
    KeyEvent::new(Keysym(code), KeyModifiers::new().with_control(true), true)
}

fn press_ctrl_alt(code: u32) -> KeyEvent {
    KeyEvent::new(
        Keysym(code),
        KeyModifiers {
            alt_key: true,
            ..KeyModifiers::new().with_control(true)
        },
        true,
    )
}

/// Engine seeded with a learning entry `reading → surface`.
fn engine_with_learned(reading: &str, surface: &str) -> InputMethodEngine {
    let mut engine = InputMethodEngine::new();
    let mut cache = LearningCache::new(LearningConfig::default());
    cache.record(reading, surface);
    engine.set_learning(Some(cache));
    engine
}

/// Record one more selection in the engine's learning cache.
fn learn(engine: &mut InputMethodEngine, reading: &str, surface: &str) {
    let mut cache = engine.take_learning().expect("learning enabled");
    cache.record(reading, surface);
    engine.set_learning(Some(cache));
}

/// Surfaces the engine's learning cache holds under exactly `reading`.
fn learned(engine: &InputMethodEngine, reading: &str) -> Vec<String> {
    engine
        .learning()
        .expect("learning enabled")
        .lookup_entries(reading)
        .into_iter()
        .map(|(_, e)| e.surface)
        .collect()
}

/// Last UpdateAuxText emitted by an engine result, if any.
fn last_aux_text(result: &EngineResult) -> Option<String> {
    result.actions.iter().rev().find_map(|a| match a {
        EngineAction::UpdateAuxText(text) => Some(text.clone()),
        _ => None,
    })
}

const LEARNING_DELETE_HINT: &str = "Ctrl+Backspaceで履歴から削除";

#[test]
fn build_candidates_includes_learning_when_not_skipped() {
    let engine = engine_with_learned("あい", "藍");

    let texts: Vec<String> = engine
        .build_conversion_candidates("あい", LearningLookup::Use)
        .into_iter()
        .map(|c| c.text)
        .collect();

    assert!(
        texts.contains(&"藍".to_string()),
        "Space path (skip_learning=false) should surface learned `藍`, got {:?}",
        texts,
    );
}

#[test]
fn build_candidates_omits_learning_when_skipped() {
    let engine = engine_with_learned("あい", "藍");

    let texts: Vec<String> = engine
        .build_conversion_candidates("あい", LearningLookup::Skip)
        .into_iter()
        .map(|c| c.text)
        .collect();

    assert!(
        !texts.contains(&"藍".to_string()),
        "Tab path (skip_learning=true) must drop learned `藍`, got {:?}",
        texts,
    );
}

#[test]
fn tab_key_skips_learning_in_composing() {
    let mut engine = engine_with_learned("あい", "藍");

    engine.process_key(&press('a'));
    engine.process_key(&press('i'));
    assert_eq!(engine.reading(), "あい");

    let result = engine.process_key(&press_key(TAB));
    assert!(result.consumed);
    assert!(matches!(engine.state(), InputState::Conversion { .. }));

    let texts: Vec<String> = engine
        .state()
        .candidates()
        .unwrap()
        .candidates()
        .iter()
        .map(|c| c.text.clone())
        .collect();
    assert!(
        !texts.contains(&"藍".to_string()),
        "Tab must skip the learned `藍` candidate, got {:?}",
        texts,
    );
}

#[test]
fn ctrl_delete_removes_selected_learning_entry() {
    let mut engine = engine_with_learned("あい", "藍");

    engine.process_key(&press('a'));
    engine.process_key(&press('i'));
    engine.process_key(&press_key(SPACE));
    assert!(matches!(engine.state(), InputState::Conversion { .. }));

    let selected = engine.state().candidates().unwrap().selected().unwrap().copy();
    assert_eq!(selected.text, "藍");
    assert!(selected.is_deletable(), "learning candidate must be flagged");

    let result = engine.process_key(&press_ctrl(DELETE));
    assert!(result.consumed);
    assert!(learned(&engine, "あい").is_empty());
    assert!(matches!(engine.state(), InputState::Conversion { .. }));
    assert!(
        result
            .actions
            .iter()
            .any(|a| matches!(a, EngineAction::ShowCandidates(_))),
        "deletion must refresh the candidate window, not close it"
    );
    assert!(
        !result
            .actions
            .iter()
            .any(|a| matches!(a, EngineAction::HideCandidates)),
        "deletion must not hide the candidate window"
    );

    let candidates = engine.state().candidates().unwrap();
    assert!(
        !candidates
            .candidates()
            .iter()
            .any(|c| c.text == "藍" && c.is_deletable()),
        "`藍` must no longer be a learning candidate after deletion",
    );
    assert_eq!(candidates.cursor(), 0);
}

#[test]
fn ctrl_delete_removes_prefix_twins_so_surface_does_not_resurface() {
    let mut engine = engine_with_learned("あい", "藍");
    learn(&mut engine, "あいさ", "藍");

    engine.process_key(&press('a'));
    engine.process_key(&press('i'));
    engine.process_key(&press_key(SPACE));

    let selected = engine.state().candidates().unwrap().selected().unwrap().copy();
    assert_eq!(selected.text, "藍");
    assert!(selected.is_deletable());

    engine.process_key(&press_ctrl(DELETE));
    assert!(learned(&engine, "あい").is_empty());
    assert!(
        learned(&engine, "あいさ").is_empty(),
        "the prefix twin (あいさ→藍) must be cleared too, not just the exact entry",
    );
}

#[test]
fn ctrl_delete_keeps_surface_that_another_source_also_produces() {
    let mut engine = engine_with_learned("あい", "あい");

    engine.process_key(&press('a'));
    engine.process_key(&press('i'));
    engine.process_key(&press_key(SPACE));

    let selected = engine.state().candidates().unwrap().selected().unwrap().copy();
    assert_eq!(selected.text, "あい");
    assert!(selected.is_deletable());

    engine.process_key(&press_ctrl(DELETE));
    assert!(learned(&engine, "あい").is_empty());

    let candidates = engine.state().candidates().unwrap();
    let ai = candidates.candidates().iter().find(|c| c.text == "あい");
    assert!(
        ai.is_some(),
        "the fallback `あい` must survive the deletion, not vanish with the learning entry",
    );
    assert!(
        !ai.unwrap().is_deletable(),
        "the surviving `あい` must no longer be flagged as learning",
    );
}

#[test]
fn init_learning_cache_applies_configured_surface_cap() {
    let mut engine = InputMethodEngine::new();
    engine.init_learning_cache(
        true,
        LearningConfig {
            max_entries: 10_000,
            max_surface_chars: 5,
        },
    );
    let mut cache = engine.take_learning().expect("learning enabled");

    let before = cache.entry_count();
    cache.record("__karukan_seam_test__", &"漢".repeat(6));
    assert_eq!(
        cache.entry_count(),
        before,
        "a surface over the configured cap must be skipped; the configured \
         value is not reaching the cache",
    );
}

#[test]
fn ctrl_backspace_deletes_learning_entry_like_ctrl_delete() {
    let mut engine = engine_with_learned("あい", "藍");

    engine.process_key(&press('a'));
    engine.process_key(&press('i'));
    engine.process_key(&press_key(SPACE));

    let result = engine.process_key(&press_ctrl(BACKSPACE));
    assert!(result.consumed);
    assert!(learned(&engine, "あい").is_empty());
    assert!(matches!(engine.state(), InputState::Conversion { .. }));
}

#[test]
fn ctrl_backspace_does_nothing_for_non_learning_candidate() {
    let mut engine = engine_with_learned("あい", "藍");

    engine.process_key(&press('a'));
    engine.process_key(&press('i'));
    engine.process_key(&press_key(SPACE));
    engine.process_key(&press_key(SPACE));
    let before = engine.state().candidates().unwrap().copy();
    assert!(!before.selected().unwrap().is_deletable());

    let result = engine.process_key(&press_ctrl(BACKSPACE));
    assert!(
        result.consumed,
        "the chord must be consumed, not leak to the app"
    );
    assert!(
        matches!(engine.state(), InputState::Conversion { .. }),
        "Ctrl+Backspace must not cancel when the selection isn't deletable"
    );
    let after = engine.state().candidates().unwrap();
    assert_eq!(after.cursor(), before.cursor());
    assert_eq!(after.selected_text(), before.selected_text());
    assert!(!learned(&engine, "あい").is_empty());
}

#[test]
fn ctrl_backspace_in_composing_deletes_char_not_history() {
    let mut engine = engine_with_learned("あい", "藍");

    engine.process_key(&press('a'));
    engine.process_key(&press('i'));
    assert!(matches!(engine.state(), InputState::Composing { .. }));

    let result = engine.process_key(&press_ctrl(BACKSPACE));
    assert!(result.consumed);
    assert_eq!(engine.reading(), "あ");
    assert!(
        !learned(&engine, "あい").is_empty(),
        "the learning entry must survive — deletion only works in Conversion",
    );
}

#[test]
fn ctrl_alt_delete_leaves_history_alone() {
    let mut engine = engine_with_learned("あい", "藍");

    engine.process_key(&press('a'));
    engine.process_key(&press('i'));
    engine.process_key(&press_key(SPACE));
    assert!(engine
        .state()
        .candidates()
        .unwrap()
        .selected()
        .unwrap()
        .is_deletable());

    let result = engine.process_key(&press_ctrl_alt(DELETE));
    assert!(!result.consumed, "Ctrl+Alt+Delete must reach the desktop");
    assert!(
        !learned(&engine, "あい").is_empty(),
        "Ctrl+Alt+Delete must not delete the learning entry"
    );
}

#[test]
fn plain_backspace_still_cancels_conversion() {
    let mut engine = engine_with_learned("あい", "藍");

    engine.process_key(&press('a'));
    engine.process_key(&press('i'));
    engine.process_key(&press_key(SPACE));

    let result = engine.process_key(&press_key(BACKSPACE));
    assert!(result.consumed);
    assert!(matches!(engine.state(), InputState::Composing { .. }));
    assert!(!learned(&engine, "あい").is_empty());
}

#[test]
fn ctrl_delete_ignores_non_learning_candidate() {
    let mut engine = engine_with_learned("あい", "藍");

    engine.process_key(&press('a'));
    engine.process_key(&press('i'));
    engine.process_key(&press_key(SPACE));

    engine.process_key(&press_key(SPACE));
    let selected = engine.state().candidates().unwrap().selected().unwrap().copy();
    assert!(!selected.is_deletable());

    let before_len = engine.state().candidates().unwrap().len();
    let result = engine.process_key(&press_ctrl(DELETE));
    assert!(result.consumed);
    assert!(matches!(engine.state(), InputState::Conversion { .. }));
    assert_eq!(engine.state().candidates().unwrap().len(), before_len);
    assert!(!learned(&engine, "あい").is_empty());
}

#[test]
fn ctrl_delete_removes_prefix_matched_entry_by_full_reading() {
    let mut engine = engine_with_learned("あいさつ", "挨拶");

    engine.process_key(&press('a'));
    engine.process_key(&press('i'));
    engine.process_key(&press_key(SPACE));

    let selected = engine.state().candidates().unwrap().selected().unwrap().copy();
    assert_eq!(selected.text, "挨拶");
    assert_eq!(selected.reading.as_deref(), Some("あいさつ"));
    assert!(selected.is_deletable());

    engine.process_key(&press_ctrl(DELETE));
    assert!(learned(&engine, "あいさつ").is_empty());
}

#[test]
fn aux_shows_delete_hint_only_for_learning_candidate() {
    let mut engine = engine_with_learned("あい", "藍");

    engine.process_key(&press('a'));
    engine.process_key(&press('i'));

    let result = engine.process_key(&press_key(SPACE));
    let aux = last_aux_text(&result).expect("conversion must update aux text");
    assert!(
        aux.contains(LEARNING_DELETE_HINT),
        "aux should show the deletion hint for a learning candidate, got {:?}",
        aux,
    );

    let result = engine.process_key(&press_key(SPACE));
    let aux = last_aux_text(&result).expect("navigation must update aux text");
    assert!(
        !aux.contains(LEARNING_DELETE_HINT),
        "aux must not show the deletion hint for non-learning candidates, got {:?}",
        aux,
    );
}

#[test]
fn space_key_keeps_learning_in_composing() {
    let mut engine = engine_with_learned("あい", "藍");

    engine.process_key(&press('a'));
    engine.process_key(&press('i'));

    let result = engine.process_key(&press_key(SPACE));
    assert!(result.consumed);
    assert!(matches!(engine.state(), InputState::Conversion { .. }));

    let texts: Vec<String> = engine
        .state()
        .candidates()
        .unwrap()
        .candidates()
        .iter()
        .map(|c| c.text.clone())
        .collect();
    assert!(
        texts.contains(&"藍".to_string()),
        "Space must surface learned `藍`, got {:?}",
        texts,
    );
}

const SENTENCE_READING: &str = "きょうはかいぎがあるのではやめにかえります";
const SENTENCE: &str = "今日は会議があるので早めに帰ります";

fn type_romaji(engine: &mut InputMethodEngine, romaji: &str) -> EngineResult {
    let mut result = None;
    for ch in romaji.chars() {
        result = Some(engine.process_key(&press(ch)));
    }
    result.expect("at least one key")
}

fn shown_candidates(result: &EngineResult) -> Vec<String> {
    result
        .actions
        .iter()
        .rev()
        .find_map(|a| match a {
            EngineAction::ShowCandidates(list) => {
                Some(list.candidates().iter().map(|c| c.text.clone()).collect())
            }
            _ => None,
        })
        .unwrap_or_default()
}

fn conversion_texts(engine: &InputMethodEngine) -> Vec<String> {
    engine
        .state()
        .candidates()
        .expect("conversion candidates")
        .candidates()
        .iter()
        .map(|c| c.text.clone())
        .collect()
}

#[test]
fn sentence_committed_once_is_not_predicted_from_its_first_kana() {
    let mut engine = engine_with_learned(SENTENCE_READING, SENTENCE);
    learn(&mut engine, "きょうと", "京都");

    let suggested = shown_candidates(&type_romaji(&mut engine, "kyou"));
    assert!(
        suggested.contains(&"京都".to_string()),
        "a learned word still predicts, got {suggested:?}",
    );
    assert!(
        !suggested.contains(&SENTENCE.to_string()),
        "a sentence committed once must not be suggested from 「きょう」, got {suggested:?}",
    );

    engine.process_key(&press_key(SPACE));
    let texts = conversion_texts(&engine);
    assert!(texts.contains(&"京都".to_string()), "got {texts:?}");
    assert!(!texts.contains(&SENTENCE.to_string()), "got {texts:?}");
}

#[test]
fn a_long_entry_is_predicted_once_the_typing_is_within_reach() {
    let mut engine = engine_with_learned(SENTENCE_READING, SENTENCE);
    for _ in 0..3 {
        learn(&mut engine, SENTENCE_READING, SENTENCE);
    }
    let suggested = shown_candidates(&type_romaji(&mut engine, "kyou"));
    assert!(
        !suggested.contains(&SENTENCE.to_string()),
        "got {suggested:?}"
    );
    engine.process_key(&press_key(ESCAPE));
    assert!(matches!(engine.state(), InputState::Empty));

    let suggested = shown_candidates(&type_romaji(&mut engine, "kyouhakaigigaarunodehayamenika"));
    assert!(
        suggested.contains(&SENTENCE.to_string()),
        "within reach of its end the sentence completes, got {suggested:?}"
    );
}

#[test]
fn long_entry_still_matches_exactly() {
    let mut engine = engine_with_learned("おせわになっております", "お世話になっております");
    type_romaji(&mut engine, "osewaninatteorimasu");
    assert_eq!(engine.reading(), "おせわになっております");

    engine.process_key(&press_key(SPACE));
    let texts = conversion_texts(&engine);
    assert_eq!(
        texts.first().map(String::as_str),
        Some("お世話になっております"),
        "got {texts:?}"
    );
}

#[test]
fn an_emoji_query_is_never_answered_with_a_width_variant() {
    let mut engine = InputMethodEngine::new();

    type_keys(&mut engine, ":smile");
    let candidates = shown_candidates(&engine.process_key(&press('e')));
    assert!(
        !candidates.iter().any(|c| c.contains('：')),
        "no width variant of the query, got {candidates:?}"
    );
}

fn press_ctrl_key(code: u32) -> KeyEvent {
    KeyEvent::new(Keysym(code), KeyModifiers::new().with_control(true), true)
}

fn learned_engine(reading: &str, surface: &str) -> InputMethodEngine {
    let mut engine = InputMethodEngine::new();
    let mut cache = LearningCache::new(LearningConfig::default());
    cache.record(reading, surface);
    engine.set_learning(Some(cache));
    engine
}

fn shown_list(result: &EngineResult) -> Vec<String> {
    result
        .actions
        .iter()
        .rev()
        .find_map(|a| match a {
            EngineAction::ShowCandidates(list) => Some(list.candidates().iter().map(|c| c.text.clone()).collect()),
            _ => None,
        })
        .unwrap_or_default()
}

fn open_texts(engine: &InputMethodEngine) -> Vec<String> {
    engine
        .state()
        .candidates()
        .expect("conversion candidates")
        .candidates()
        .iter()
        .map(|c| c.text.clone())
        .collect()
}

fn aux_of(result: &EngineResult) -> Option<String> {
    result.actions.iter().rev().find_map(|a| match a {
        EngineAction::UpdateAuxText(t) => Some(t.clone()),
        _ => None,
    })
}

#[test]
fn long_entry_stays_in_the_learning_view() {
    let mut engine = learned_engine("おせわになっております", "お世話になっております");
    let suggested = shown_list(&type_keys(&mut engine, "ose"));
    assert!(!suggested.contains(&"お世話になっております".to_string()), "got {suggested:?}");
    engine.process_key(&press_ctrl_key(KEY_T));
    let texts = open_texts(&engine);
    assert!(texts.contains(&"お世話になっております".to_string()), "got {texts:?}");
}

#[test]
fn ctrl_t_and_ctrl_r_step_round_the_views() {
    let mut engine = learned_engine("あいさつ", "挨拶");
    type_keys(&mut engine, "ai");
    let result = engine.process_key(&press_ctrl_key(KEY_T));
    assert_eq!(open_texts(&engine), vec!["挨拶"]);
    assert_eq!(
        aux_of(&result).as_deref(),
        Some("[あ][変換:📝] あいさつ 2/30 (Ctrl+Backspaceで履歴から削除)")
    );
    // The dictionaries and the model offer nothing here: the window says so
    // and the preedit keeps the reading.
    let result = engine.process_key(&press_ctrl_key(KEY_T));
    assert!(open_texts(&engine).is_empty());
    assert_eq!(aux_of(&result).as_deref(), Some("[あ][変換:📚] あい 2/30 候補なし"));
    assert_eq!(engine.preedit().unwrap().text(), "あい");
    engine.process_key(&press_ctrl_key(KEY_T));
    let result = engine.process_key(&press_ctrl_key(KEY_T));
    assert_eq!(open_texts(&engine), vec!["あい", "アイ"]);
    assert_eq!(aux_of(&result).as_deref(), Some("[あ][変換:🔄] あい 2/30"));
    // Round the cycle, never back to the full list.
    engine.process_key(&press_ctrl_key(KEY_T));
    assert_eq!(open_texts(&engine), vec!["挨拶"]);
    engine.process_key(&press_ctrl_key(KEY_R));
    assert_eq!(open_texts(&engine), vec!["あい", "アイ"]);
    // Enter commits the narrowed selection.
    let result = engine.process_key(&press_key(RETURN));
    assert_eq!(committed(&result).as_deref(), Some("あい"));
}

#[test]
fn ctrl_r_while_composing_opens_the_rewriter_view_and_ctrl_i_the_model_view() {
    let mut engine = InputMethodEngine::new();
    type_keys(&mut engine, "kana");
    let result = engine.process_key(&press_ctrl_key(KEY_R));
    assert!(result.consumed);
    assert_eq!(open_texts(&engine), vec!["かな", "カナ"]);
    let result = engine.process_key(&press_ctrl_key(KEY_I));
    assert!(open_texts(&engine).is_empty());
    assert_eq!(aux_of(&result).as_deref(), Some("[あ][変換:🤖] かな 2/30 候補なし"));
    // An empty window commits the reading.
    let result = engine.process_key(&press_key(RETURN));
    assert_eq!(committed(&result).as_deref(), Some("かな"));
}
