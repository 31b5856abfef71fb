use clip_history::errors::EngineError;
use clip_history::history::HistoryState;
use clip_history::poller::poll_tick;

fn s(text: &str) -> String {
    text.to_string()
}

fn snapshot_strs(h: &HistoryState) -> Vec<String> {
    h.snapshot()
}

#[test]
fn push_keeps_insertion_order() {
    let mut h = HistoryState::new();
    h.push(s("a"));
    h.push(s("b"));
    h.push(s("c"));
    assert_eq!(snapshot_strs(&h), vec![s("a"), s("b"), s("c")]);
}

#[test]
fn push_again_moves_value_to_most_recent() {
    let mut h = HistoryState::new();
    h.push(s("a"));
    h.push(s("b"));
    h.push(s("a"));
    assert_eq!(snapshot_strs(&h), vec![s("b"), s("a")]);
}

#[test]
fn push_twice_consecutively_keeps_one_occurrence() {
    let mut h = HistoryState::new();
    h.push(s("a"));
    h.push(s("x"));
    h.push(s("x"));
    let snap = snapshot_strs(&h);
    assert_eq!(snap, vec![s("a"), s("x")]);
    assert_eq!(snap.iter().filter(|e| e.as_str() == "x").count(), 1);
    assert_eq!(snap.last().unwrap(), "x");
}

#[test]
fn push_empty_value_is_ignored() {
    let mut h = HistoryState::new();
    h.push(s("a"));
    h.push(s(""));
    assert_eq!(snapshot_strs(&h), vec![s("a")]);
}

#[test]
fn push_whitespace_value_is_ignored() {
    let mut h = HistoryState::new();
    h.push(s("a"));
    h.push(s("   "));
    h.push(s(" \t\n"));
    assert_eq!(snapshot_strs(&h), vec![s("a")]);
}

#[test]
fn push_unicode_whitespace_value_is_ignored() {
    let mut h = HistoryState::new();
    h.push(s("a"));
    // No-break space, ideographic space, em space, line separator: all
    // trim-empty, so none may enter the history.
    h.push(s("\u{a0}"));
    h.push(s("\u{3000}\u{2003}"));
    h.push(s(" \u{2028}\u{205f}"));
    assert_eq!(snapshot_strs(&h), vec![s("a")]);
    // A value that merely contains whitespace is still a real value.
    h.push(s("a\u{a0}b"));
    assert_eq!(snapshot_strs(&h), vec![s("a"), s("a\u{a0}b")]);
}

#[test]
fn capacity_keeps_twenty_most_recent() {
    let mut h = HistoryState::new();
    for i in 1..=25 {
        h.push(format!("v{}", i));
        assert!(h.snapshot().len() <= 20);
    }
    let snap = snapshot_strs(&h);
    assert_eq!(snap.len(), 20);
    let expected: Vec<String> = (6..=25).map(|i| format!("v{}", i)).collect();
    assert_eq!(snap, expected);
}

#[test]
fn remove_present_value() {
    let mut h = HistoryState::new();
    h.push(s("a"));
    h.push(s("b"));
    let r = h.remove(&s("a"));
    assert!(r.is_ok());
    assert_eq!(snapshot_strs(&h), vec![s("b")]);
}

#[test]
fn remove_absent_value_reports_not_found() {
    let mut h = HistoryState::new();
    h.push(s("a"));
    let r = h.remove(&s("zzz"));
    assert_eq!(r, Err(EngineError::NotFound));
    assert_eq!(snapshot_strs(&h), vec![s("a")]);
}

#[test]
fn tick_pushes_new_external_value() {
    let mut h = HistoryState::new();
    let fired = poll_tick(&mut h, s("hello"));
    assert!(fired);
    assert_eq!(snapshot_strs(&h), vec![s("hello")]);
}

#[test]
fn tick_ignores_unchanged_value() {
    let mut h = HistoryState::new();
    assert!(poll_tick(&mut h, s("hello")));
    assert!(!poll_tick(&mut h, s("hello")));
    assert_eq!(snapshot_strs(&h), vec![s("hello")]);
}

#[test]
fn tick_ignores_blank_observation() {
    let mut h = HistoryState::new();
    assert!(!poll_tick(&mut h, s("")));
    assert!(!poll_tick(&mut h, s("  \t")));
    assert!(!poll_tick(&mut h, s("\u{a0}")));
    assert!(snapshot_strs(&h).is_empty());
}

#[test]
fn tick_suppresses_self_write_then_accepts_new_value() {
    let mut h = HistoryState::new();
    h.push(s("old"));
    clip_history::commands::copy_text(&mut h, s("X"));
    // The very next tick observes the engine's own write: no push, no event.
    assert!(!poll_tick(&mut h, s("X")));
    assert_eq!(snapshot_strs(&h), vec![s("old")]);
    // A later tick observing a genuinely new value pushes it and fires.
    assert!(poll_tick(&mut h, s("Y")));
    assert_eq!(snapshot_strs(&h), vec![s("old"), s("Y")]);
}

#[test]
fn tick_suppresses_consecutive_distinct_self_writes() {
    let mut h = HistoryState::new();
    clip_history::commands::copy_text(&mut h, s("first"));
    assert!(!poll_tick(&mut h, s("first")));
    clip_history::commands::copy_text(&mut h, s("second"));
    assert!(!poll_tick(&mut h, s("second")));
    assert!(snapshot_strs(&h).is_empty());
}

#[test]
fn tick_suppression_is_by_value_not_by_flag() {
    let mut h = HistoryState::new();
    clip_history::commands::copy_text(&mut h, s("mine"));
    // An unrelated external value is not suppressed by the marker.
    assert!(poll_tick(&mut h, s("other")));
    // The marker is not cleared by the unrelated value.
    assert!(!poll_tick(&mut h, s("mine")));
    assert_eq!(snapshot_strs(&h), vec![s("other")]);
}
