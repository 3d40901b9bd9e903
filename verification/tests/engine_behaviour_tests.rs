use karukan::engine::InputMethodEngine;
use karukan::engine_types::{EngineAction, EngineConfig, EngineResult, InputMode};
use karukan::keys::{
    KeyEvent, KeyModifiers, Keysym, BACKSPACE, DELETE, DOWN, END, ESCAPE, HENKAN, HOME, KEY_K, KEY_L, KEY_V,
    LEFT, RETURN, RIGHT, SPACE, UP,
};
use karukan::learning::{LearningCache, LearningConfig};
use karukan::settings::CandidateWindow;
use karukan::state::InputState;

fn press(ch: char) -> KeyEvent {
    KeyEvent::press(Keysym(ch as u32))
}

fn press_key(code: u32) -> KeyEvent {
    KeyEvent::press(Keysym(code))
}

fn press_ctrl(code: u32) -> KeyEvent {
    KeyEvent::new(Keysym(code), KeyModifiers::new().with_control(true), true)
}

fn type_keys(engine: &mut InputMethodEngine, keys: &str) -> EngineResult {
    let mut result = EngineResult::not_consumed();
    for ch in keys.chars() {
        result = engine.process_key(&press(ch));
    }
    result
}

fn committed(result: &EngineResult) -> Option<String> {
    result.actions.iter().find_map(|a| match a {
        EngineAction::Commit(text) => Some(text.clone()),
        _ => None,
    })
}

fn last_aux(result: &EngineResult) -> Option<String> {
    result.actions.iter().rev().find_map(|a| match a {
        EngineAction::UpdateAuxText(text) => Some(text.clone()),
        _ => None,
    })
}

fn preedit_text(engine: &InputMethodEngine) -> String {
    engine.preedit().map(|p| p.text().to_string()).unwrap_or_default()
}

#[test]
fn katakana_mode_commits_katakana() {
    let mut engine = InputMethodEngine::new();
    type_keys(&mut engine, "kana");
    let result = engine.process_key(&press_ctrl(KEY_K));
    assert!(result.consumed);
    assert_eq!(engine.mode().current(), InputMode::Katakana);
    assert_eq!(preedit_text(&engine), "カナ");
    let result = engine.process_key(&press_key(RETURN));
    assert_eq!(committed(&result).as_deref(), Some("カナ"));
    // Katakana is a sticky mode: it stays after the commit.
    assert_eq!(engine.mode().current(), InputMode::Katakana);
}

#[test]
fn the_mode_toggle_key_returns_to_hiragana_keeping_typed_katakana() {
    let mut engine = InputMethodEngine::new();
    engine.set_mode(InputMode::Katakana);
    type_keys(&mut engine, "ka");
    assert_eq!(preedit_text(&engine), "カ");
    let result = engine.process_key(&press_key(HENKAN));
    assert!(result.consumed);
    assert_eq!(engine.mode().current(), InputMode::Hiragana);
    type_keys(&mut engine, "na");
    assert_eq!(preedit_text(&engine), "カな");
    // In Hiragana the toggle key switches nothing and passes on.
    let result = engine.process_key(&press_key(HENKAN));
    assert!(!result.consumed);
}

#[test]
fn key_releases_and_modifiers_pass_on() {
    let mut engine = InputMethodEngine::new();
    let release = KeyEvent::new(Keysym('a' as u32), KeyModifiers::new(), false);
    assert!(!engine.process_key(&release).consumed);
    let shift = KeyEvent::press(Keysym(0xffe1));
    assert!(!engine.process_key(&shift).consumed);
    assert!(matches!(engine.state(), InputState::Empty));
}

#[test]
fn composing_aux_line_counts_the_composition() {
    let mut engine = InputMethodEngine::new();
    let result = type_keys(&mut engine, "ka");
    assert_eq!(last_aux(&result).as_deref(), Some("[あ] か 1/30"));
}

#[test]
fn composing_aux_line_leaves_the_romaji_tail_uncounted() {
    let mut engine = InputMethodEngine::new();
    let result = type_keys(&mut engine, "kak");
    assert_eq!(last_aux(&result).as_deref(), Some("[あ] かk 1/30"));
}

#[test]
fn the_conversion_aux_shows_a_predictions_own_reading() {
    let mut engine = InputMethodEngine::new();
    let mut cache = LearningCache::new(LearningConfig::default());
    cache.record("あいさつ", "挨拶");
    engine.set_learning(Some(cache));
    type_keys(&mut engine, "aisa");
    let result = engine.process_key(&press_key(SPACE));
    assert_eq!(preedit_text(&engine), "挨拶");
    assert_eq!(
        last_aux(&result).as_deref(),
        Some("[あ][変換] あいさつ 3/30 (Ctrl+Backspaceで履歴から削除)")
    );
    let result = engine.process_key(&press_key(SPACE));
    assert_eq!(last_aux(&result).as_deref(), Some("[あ][変換] あいさ 3/30"));
}

#[test]
fn live_conversion_toggle_announces_itself() {
    let mut engine = InputMethodEngine::new();
    let chord = KeyEvent::new(
        Keysym(KEY_L),
        KeyModifiers::new().with_control(true).with_shift(true),
        true,
    );
    let result = engine.process_key(&chord);
    assert_eq!(last_aux(&result).as_deref(), Some("ライブ変換: ON"));
    let result = engine.process_key(&chord);
    assert_eq!(last_aux(&result).as_deref(), Some("ライブ変換: OFF"));
}

#[test]
fn conversion_selection_cycles_and_wraps() {
    let mut engine = InputMethodEngine::new();
    type_keys(&mut engine, "ai");
    engine.process_key(&press_key(SPACE));
    assert_eq!(preedit_text(&engine), "あい");
    engine.process_key(&press_key(DOWN));
    assert_eq!(preedit_text(&engine), "アイ");
    engine.process_key(&press_key(SPACE));
    assert_eq!(preedit_text(&engine), "あい");
    engine.process_key(&press_key(UP));
    assert_eq!(preedit_text(&engine), "アイ");
    let result = engine.process_key(&press_key(RETURN));
    assert_eq!(committed(&result).as_deref(), Some("アイ"));
    assert!(matches!(engine.state(), InputState::Empty));
}

#[test]
fn typing_in_a_kana_conversion_commits_it_and_goes_on() {
    let mut engine = InputMethodEngine::new();
    type_keys(&mut engine, "ai");
    engine.process_key(&press_key(SPACE));
    let result = engine.process_key(&press('k'));
    assert_eq!(committed(&result).as_deref(), Some("あい"));
    assert!(matches!(engine.state(), InputState::Composing { .. }));
    assert_eq!(preedit_text(&engine), "k");
}

#[test]
fn commit_api_commits_what_enter_would() {
    let mut by_enter = InputMethodEngine::new();
    type_keys(&mut by_enter, "kan");
    let result = by_enter.process_key(&press_key(RETURN));
    let enter_text = committed(&result).expect("enter commits");
    assert_eq!(enter_text, "かん");

    let mut by_api = InputMethodEngine::new();
    type_keys(&mut by_api, "kan");
    assert_eq!(by_api.commit(), enter_text);
    assert!(matches!(by_api.state(), InputState::Empty));

    // Nothing pending: an empty commit and an emptied preedit.
    let result = by_api.commit_result();
    assert!(committed(&result).is_none());
    assert!(matches!(result.actions[0], EngineAction::UpdatePreedit(_)));
}

#[test]
fn commit_learns_the_choice() {
    let mut engine = InputMethodEngine::new();
    engine.set_learning(Some(LearningCache::new(LearningConfig::default())));
    type_keys(&mut engine, "ai");
    engine.process_key(&press_key(SPACE));
    engine.process_key(&press_key(DOWN));
    engine.process_key(&press_key(RETURN));
    let cache = engine.learning().expect("learning enabled");
    let learned: Vec<String> = cache
        .lookup_entries("あい")
        .into_iter()
        .map(|(_, e)| e.surface)
        .collect();
    assert_eq!(learned, vec!["アイ".to_string()]);
    // The record is stamped with the current time.
    let now = std::time::SystemTime::now()
        .duration_since(std::time::UNIX_EPOCH)
        .unwrap()
        .as_secs();
    let stamp = cache.lookup_entries("あい")[0].1.last_access;
    assert!(stamp + 60 >= now && stamp <= now + 60);
}

#[test]
fn emoji_commits_are_not_learned() {
    let mut engine = InputMethodEngine::new();
    engine.set_learning(Some(LearningCache::new(LearningConfig::default())));
    engine.process_key(&press(':'));
    type_keys(&mut engine, "ok");
    engine.process_key(&press_key(RETURN));
    assert_eq!(engine.learning().unwrap().entry_count(), 0);
}

#[test]
fn a_held_back_window_shows_no_suggestions_while_composing() {
    let mut engine = InputMethodEngine::with_config(EngineConfig {
        candidate_window: CandidateWindow::Conversion,
        ..EngineConfig::default()
    });
    let mut cache = LearningCache::new(LearningConfig::default());
    cache.record("あい", "藍");
    engine.set_learning(Some(cache));
    let result = type_keys(&mut engine, "ai");
    assert!(!result
        .actions
        .iter()
        .any(|a| matches!(a, EngineAction::ShowCandidates(_) | EngineAction::UpdateAuxText(_))));
    assert!(result
        .actions
        .iter()
        .any(|a| matches!(a, EngineAction::HideCandidates)));
    // Space still opens the conversion window.
    let result = engine.process_key(&press_key(SPACE));
    assert!(result
        .actions
        .iter()
        .any(|a| matches!(a, EngineAction::ShowCandidates(_))));
}

#[test]
fn escape_cancels_a_kana_composition_without_committing() {
    let mut engine = InputMethodEngine::new();
    type_keys(&mut engine, "ka");
    let result = engine.process_key(&press_key(ESCAPE));
    assert!(committed(&result).is_none());
    assert!(matches!(engine.state(), InputState::Empty));
}

#[test]
fn surrounding_text_keeps_the_current_line_within_the_context_length() {
    let mut engine = InputMethodEngine::new();
    engine.set_surrounding_text_at("first line\nあいうえおかきくけこさしすせそ|after\nnext", 26);
    let ctx = engine.surrounding_context().expect("context kept");
    assert_eq!(ctx.left.as_deref(), Some("かきくけこさしすせそ"));
    assert_eq!(ctx.right.as_deref(), Some("|after"));

    engine.set_surrounding_context("line\n", "\nmore");
    assert!(engine.surrounding_context().is_none());

    // A commit drops the context; a reset keeps it.
    engine.set_surrounding_context("左", "右");
    engine.reset();
    assert!(engine.surrounding_context().is_some());
    engine.commit();
    assert!(engine.surrounding_context().is_none());
}

#[test]
fn the_model_name_is_unknown_without_a_model() {
    let engine = InputMethodEngine::new();
    assert_eq!(engine.model_name(), "unknown");
    assert_eq!(engine.last_conversion_ms(), 0);
    assert_eq!(engine.last_process_key_ms(), 0);
}


fn learned_engine(reading: &str, surface: &str) -> InputMethodEngine {
    let mut engine = InputMethodEngine::new();
    let mut cache = LearningCache::new(LearningConfig::default());
    cache.record(reading, surface);
    engine.set_learning(Some(cache));
    engine
}

#[test]
fn ctrl_digit_commits_a_suggestion_while_composing() {
    let mut engine = learned_engine("あい", "藍");
    type_keys(&mut engine, "ai");
    // Slot 2 is empty: nothing happens.
    let result = engine.process_key(&press_ctrl('2' as u32));
    assert!(result.consumed);
    assert!(committed(&result).is_none());
    assert!(matches!(engine.state(), InputState::Composing { .. }));

    let result = engine.process_key(&press_ctrl('1' as u32));
    assert_eq!(committed(&result).as_deref(), Some("藍"));
    assert!(matches!(engine.state(), InputState::Empty));
    let cache = engine.learning().unwrap();
    assert_eq!(cache.lookup_entries("あい")[0].1.frequency, 2);
}

#[test]
fn ctrl_digit_picks_from_the_conversion_window() {
    let mut engine = learned_engine("あい", "藍");
    type_keys(&mut engine, "ai");
    engine.process_key(&press_key(SPACE));
    let result = engine.process_key(&press_ctrl('3' as u32));
    assert_eq!(committed(&result).as_deref(), Some("アイ"));
    assert!(matches!(engine.state(), InputState::Empty));
}

#[test]
fn picking_on_the_page_commits_that_candidate() {
    let mut engine = InputMethodEngine::new();
    type_keys(&mut engine, "ai");
    engine.process_key(&press_key(SPACE));
    let result = engine.select_candidate_on_page(7);
    assert!(result.consumed);
    assert!(committed(&result).is_none());
    let result = engine.select_candidate_on_page(1);
    assert_eq!(committed(&result).as_deref(), Some("アイ"));
    // With nothing on screen the pick passes on.
    assert!(!engine.select_candidate_on_page(0).consumed);
}

#[test]
fn emacs_caret_chords_do_not_leak_while_composing() {
    let mut engine = InputMethodEngine::new();
    type_keys(&mut engine, "ai");
    let result = engine.process_key(&press_ctrl('a' as u32));
    assert!(result.consumed);
    assert_eq!(preedit_text(&engine), "あい");
}

#[test]
fn a_list_offers_at_most_three_learned_candidates() {
    let mut engine = InputMethodEngine::new();
    let mut cache = LearningCache::new(LearningConfig::default());
    for surface in ["愛", "藍", "亜衣", "相", "会い"] {
        cache.record("あい", surface);
    }
    engine.set_learning(Some(cache));
    let result = type_keys(&mut engine, "ai");
    let shown: Vec<String> = result
        .actions
        .iter()
        .find_map(|a| match a {
            EngineAction::ShowCandidates(list) => Some(list.candidates().iter().map(|c| c.text.clone()).collect()),
            _ => None,
        })
        .unwrap();
    assert_eq!(shown, vec!["愛", "藍", "亜衣"]);
    let result = engine.process_key(&press_key(SPACE));
    assert_eq!(
        last_aux(&result).as_deref(),
        Some("[あ][変換] あい 2/30 (Ctrl+Backspaceで履歴から削除)")
    );
    let texts: Vec<String> =
        engine.candidates().unwrap().candidates().iter().map(|c| c.text.clone()).collect();
    assert_eq!(texts, vec!["愛", "藍", "亜衣", "あい", "アイ"]);
}

#[test]
fn verbose_chord_is_taken_only_while_an_aux_line_shows() {
    let mut engine = InputMethodEngine::new();
    let chord = KeyEvent::new(
        Keysym(KEY_V),
        KeyModifiers::new().with_control(true).with_shift(true),
        true,
    );
    // Idle: the chord is the application's (paste as plain text).
    assert!(!engine.process_key(&chord).consumed);
    type_keys(&mut engine, "ka");
    let result = engine.process_key(&chord);
    assert!(result.consumed);
    assert_eq!(last_aux(&result).as_deref(), Some("[あ] か 1/30"));
    assert_eq!(preedit_text(&engine), "か");
    engine.process_key(&press_key(SPACE));
    let result = engine.process_key(&chord);
    assert!(result.consumed);
    assert_eq!(last_aux(&result).as_deref(), Some("[あ][変換] か 1/30"));
}

#[test]
fn typing_and_erasing_happen_at_the_caret() {
    let mut engine = InputMethodEngine::new();
    type_keys(&mut engine, "ai");
    assert_eq!(engine.preedit().unwrap().caret(), 2);
    engine.process_key(&press_key(LEFT));
    assert_eq!(engine.preedit().unwrap().caret(), 1);
    type_keys(&mut engine, "ka");
    assert_eq!(preedit_text(&engine), "あかい");
    assert_eq!(engine.preedit().unwrap().caret(), 2);
    engine.process_key(&press_key(HOME));
    assert_eq!(engine.preedit().unwrap().caret(), 0);
    engine.process_key(&press_key(DELETE));
    assert_eq!(preedit_text(&engine), "かい");
    engine.process_key(&press_key(RIGHT));
    engine.process_key(&press_key(BACKSPACE));
    assert_eq!(preedit_text(&engine), "い");
    engine.process_key(&press_key(END));
    assert_eq!(engine.preedit().unwrap().caret(), 1);
    let result = engine.process_key(&press_key(RETURN));
    assert_eq!(committed(&result).as_deref(), Some("い"));
}

#[test]
fn a_caret_key_settles_the_romaji_tail_first() {
    let mut engine = InputMethodEngine::new();
    type_keys(&mut engine, "ak");
    assert_eq!(preedit_text(&engine), "あk");
    engine.process_key(&press_ctrl('b' as u32));
    assert_eq!(preedit_text(&engine), "あk");
    assert_eq!(engine.preedit().unwrap().caret(), 1);
    // Typing lands before the settled k.
    type_keys(&mut engine, "i");
    assert_eq!(preedit_text(&engine), "あいk");
}

#[test]
fn delete_with_nothing_left_ends_the_composition() {
    let mut engine = InputMethodEngine::new();
    type_keys(&mut engine, "a");
    engine.process_key(&press_key(HOME));
    let result = engine.process_key(&press_key(DELETE));
    assert!(result.consumed);
    assert!(matches!(engine.state(), InputState::Empty));
}
