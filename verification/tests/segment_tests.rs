use karukan::engine::InputMethodEngine;
use karukan::engine_types::{EngineAction, EngineResult};
use karukan::keys::{KeyEvent, KeyModifiers, Keysym, END, ESCAPE, HOME, LEFT, RIGHT, SPACE};
use karukan::learning::{LearningCache, LearningConfig};
use karukan::state::InputState;

fn press(ch: char) -> KeyEvent {
    KeyEvent::press(Keysym(ch as u32))
}

fn press_key(code: u32) -> KeyEvent {
    KeyEvent::press(Keysym(code))
}

fn press_shift_key(code: u32) -> KeyEvent {
    KeyEvent::new(Keysym(code), KeyModifiers::new().with_shift(true), true)
}

fn press_ctrl(ch: char) -> KeyEvent {
    KeyEvent::new(Keysym(ch as u32), KeyModifiers::new().with_control(true), true)
}

fn engine_kessaizumi() -> InputMethodEngine {
    let mut engine = InputMethodEngine::new();
    for ch in "kessaizumi".chars() {
        engine.process_key(&press(ch));
    }
    assert_eq!(engine.reading(), "けっさいずみ");
    engine
}

fn split_engine() -> InputMethodEngine {
    let mut engine = engine_kessaizumi();
    engine.process_key(&press_key(SPACE));
    engine.process_key(&press_shift_key(LEFT));
    engine.process_key(&press_shift_key(LEFT));
    assert_eq!(segment_readings(&engine), ["けっさい", "ずみ"]);
    engine
}

fn segment_readings(engine: &InputMethodEngine) -> Vec<String> {
    engine
        .state()
        .segments()
        .expect("conversion")
        .iter()
        .map(|s| s.reading.clone())
        .collect()
}

fn committed(result: &EngineResult) -> Option<String> {
    result.actions.iter().find_map(|a| match a {
        EngineAction::Commit(text) => Some(text.clone()),
        _ => None,
    })
}

fn last_aux(result: &EngineResult) -> Option<String> {
    result.actions.iter().rev().find_map(|a| match a {
        EngineAction::UpdateAuxText(text) => Some(text.clone()),
        _ => None,
    })
}

#[test]
fn shift_left_while_composing_splits_straight_away() {
    let mut engine = engine_kessaizumi();
    let result = engine.process_key(&press_shift_key(LEFT));
    assert!(result.consumed);
    assert_eq!(segment_readings(&engine), ["けっさいず", "み"]);
    assert_eq!(engine.state().focus(), Some(0));

    // A one-char reading has nothing to split off: plain conversion.
    let mut engine = InputMethodEngine::new();
    engine.process_key(&press('a'));
    let result = engine.process_key(&press_shift_key(LEFT));
    assert!(result.consumed);
    assert_eq!(segment_readings(&engine), ["あ"]);
    assert!(
        result
            .actions
            .iter()
            .any(|a| matches!(a, EngineAction::ShowCandidates(_)))
    );
}

#[test]
fn a_segment_never_shrinks_below_one_char() {
    let mut engine = engine_kessaizumi();
    engine.process_key(&press_key(SPACE));
    for _ in 0..6 {
        engine.process_key(&press_shift_key(LEFT));
    }
    assert_eq!(segment_readings(&engine), ["け", "っさいずみ"]);
}

#[test]
fn escape_returns_to_the_whole_composition() {
    let mut engine = split_engine();
    engine.process_key(&press_key(ESCAPE));
    assert!(matches!(engine.state(), InputState::Composing { .. }));
    assert_eq!(engine.reading(), "けっさいずみ");
    assert_eq!(engine.preedit().unwrap().text(), "けっさいずみ");
}

#[test]
fn shift_right_extends_the_focused_segment_and_merges_back_whole() {
    let mut engine = split_engine();
    engine.process_key(&press_shift_key(RIGHT));
    assert_eq!(segment_readings(&engine), ["けっさいず", "み"]);
    engine.process_key(&press_shift_key(RIGHT));
    assert_eq!(segment_readings(&engine), ["けっさいずみ"]);
    assert!(!engine.state().is_segmented());
    // The last segment has nothing to take: inert, and consumed.
    let result = engine.process_key(&press_shift_key(RIGHT));
    assert!(result.consumed);
    assert_eq!(segment_readings(&engine), ["けっさいずみ"]);
}

#[test]
fn the_focus_moves_between_segments_and_the_window_follows() {
    let mut engine = split_engine();
    assert_eq!(engine.preedit().unwrap().text(), "けっさいずみ");
    let result = engine.process_key(&press_key(RIGHT));
    assert_eq!(engine.state().focus(), Some(1));
    assert_eq!(last_aux(&result).as_deref(), Some("[あ][変換] ずみ 2/30"));
    engine.process_key(&press_key(RIGHT));
    assert_eq!(engine.state().focus(), Some(1));
    engine.process_key(&press_key(LEFT));
    assert_eq!(engine.state().focus(), Some(0));
    engine.process_key(&press_key(LEFT));
    assert_eq!(engine.state().focus(), Some(0));
    engine.process_key(&press_key(END));
    assert_eq!(engine.state().focus(), Some(1));
    engine.process_key(&press_key(HOME));
    assert_eq!(engine.state().focus(), Some(0));
    engine.process_key(&press_ctrl('f'));
    assert_eq!(engine.state().focus(), Some(1));
    engine.process_key(&press_ctrl('b'));
    assert_eq!(engine.state().focus(), Some(0));
}

#[test]
fn selecting_in_one_segment_leaves_the_other_and_enter_commits_both() {
    let mut engine = split_engine();
    let mut cache = LearningCache::new(LearningConfig::default());
    cache.record("ずみ", "済み");
    engine.set_learning(Some(cache));
    // The focused segment's next candidate: its katakana.
    engine.process_key(&press_key(SPACE));
    assert_eq!(engine.preedit().unwrap().text(), "ケッサイずみ");
    engine.process_key(&press_key(RIGHT));
    // Its list was built before the cache was attached; Ctrl+1 picks its
    // first candidate and, on the last segment, commits the whole.
    let result = engine.process_key(&press_ctrl('1'));
    assert_eq!(committed(&result).as_deref(), Some("ケッサイずみ"));
    assert!(matches!(engine.state(), InputState::Empty));
    let cache = engine.learning().unwrap();
    assert_eq!(cache.lookup_entries("けっさい")[0].1.surface, "ケッサイ");
    assert_eq!(cache.lookup_entries("ずみ").len(), 2);
}

#[test]
fn a_closed_segment_takes_no_learned_predictions() {
    let mut engine = InputMethodEngine::new();
    let mut cache = LearningCache::new(LearningConfig::default());
    cache.record("けっさいず", "LEARNED");
    engine.set_learning(Some(cache));
    for ch in "kessaizumi".chars() {
        engine.process_key(&press(ch));
    }
    engine.process_key(&press_key(SPACE));
    engine.process_key(&press_shift_key(LEFT));
    engine.process_key(&press_shift_key(LEFT));
    assert_eq!(segment_readings(&engine), ["けっさい", "ずみ"]);
    let head: Vec<String> =
        engine.candidates().unwrap().candidates().iter().map(|c| c.text.clone()).collect();
    assert_eq!(head, vec!["けっさい", "ケッサイ"]);
}

#[test]
fn ctrl_digit_picks_and_moves_on_to_the_next_segment() {
    let mut engine = split_engine();
    let result = engine.process_key(&press_ctrl('2'));
    assert!(committed(&result).is_none(), "the pick moves on, it does not commit");
    assert_eq!(engine.state().focus(), Some(1));
    assert_eq!(engine.state().segments().unwrap()[0].selected_text(), "ケッサイ");
    let result = engine.process_key(&press_ctrl('1'));
    assert_eq!(committed(&result).as_deref(), Some("ケッサイずみ"));
    assert!(matches!(engine.state(), InputState::Empty));
}

#[test]
fn typing_and_the_commit_api_commit_every_segment() {
    let mut engine = split_engine();
    let result = engine.process_key(&press('n'));
    assert_eq!(committed(&result).as_deref(), Some("けっさいずみ"));
    assert!(matches!(engine.state(), InputState::Composing { .. }));
    let mut engine = split_engine();
    assert_eq!(engine.commit(), "けっさいずみ");
    assert!(matches!(engine.state(), InputState::Empty));
}
