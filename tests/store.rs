use antispam::pre::Filter;
use antispam::state::{AppState, ChatMessage, Sender};

fn msg(id: i32, user: u64, text: &str) -> ChatMessage {
    ChatMessage {
        id,
        sender: Some(Sender { id: user, first_name: format!("U{}", user), last_name: None }),
        text: Some(text.to_string()),
    }
}

fn texts(v: &[ChatMessage]) -> Vec<String> {
    v.iter().map(|m| m.text.clone().unwrap_or_default()).collect()
}

#[test]
fn test_increment_and_persistence() {
    let mut state = AppState::new();
    let cid = 1;
    let uid = 100;

    assert_eq!(state.get_count(cid, uid), 0);
    assert_eq!(state.increment(cid, uid), 1);
    assert_eq!(state.get_count(cid, uid), 1);
    assert_eq!(state.increment(cid, uid), 2);
}

#[test]
fn test_filter_threshold() {
    let mut state = AppState::new();
    let pre = Filter::new(2);
    let cid = 1;
    let uid = 100;

    assert!(pre.should_process(&mut state, cid, uid));
    assert!(pre.should_process(&mut state, cid, uid));
    assert!(!pre.should_process(&mut state, cid, uid));
}

#[test]
fn increments_return_one_to_n() {
    let mut state = AppState::new();
    for k in 1..=25u64 {
        assert_eq!(state.increment(-1001, 7), k);
    }
    assert_eq!(state.get_count(-1001, 7), 25);
    assert_eq!(state.get_count(-1001, 8), 0);
    assert_eq!(state.get_count(-1002, 7), 0);
}

#[test]
fn reset_clears_counter_and_filter_recovers() {
    let mut state = AppState::new();
    let pre = Filter::new(1);
    assert!(pre.should_process(&mut state, 5, 9));
    assert!(!pre.should_process(&mut state, 5, 9));
    assert!(!pre.should_process(&mut state, 5, 9));
    assert_eq!(state.get_count(5, 9), 3);
    state.reset(5, 9);
    assert_eq!(state.get_count(5, 9), 0);
    assert!(pre.should_process(&mut state, 5, 9));
    state.reset(5, 10);
    assert_eq!(state.get_count(5, 10), 0);
}

#[test]
fn threshold_is_per_user_and_chat() {
    let mut state = AppState::new();
    let pre = Filter::new(2);
    let results: Vec<bool> = (0..5).map(|_| pre.should_process(&mut state, 1, 1)).collect();
    assert_eq!(results, vec![true, true, false, false, false]);
    assert!(pre.should_process(&mut state, 1, 2));
    assert!(pre.should_process(&mut state, 2, 1));
}

#[test]
fn zero_threshold_never_processes() {
    let mut state = AppState::new();
    let pre = Filter::new(0);
    assert!(!pre.should_process(&mut state, 1, 1));
    assert_eq!(state.get_count(1, 1), 1);
}

#[test]
fn context_keeps_latest_five_of_seven() {
    let mut state = AppState::new();
    for i in 1..=7 {
        state.add_message(1, msg(i, 3, &format!("m{}", i)), 5);
    }
    let ctx = state.get_context(1);
    assert_eq!(texts(&ctx), vec!["m3", "m4", "m5", "m6", "m7"]);
    assert_eq!(ctx[0].id, 3);
}

#[test]
fn context_under_bound_keeps_everything() {
    let mut state = AppState::new();
    state.add_message(4, msg(1, 3, "a"), 5);
    state.add_message(4, msg(2, 3, "b"), 5);
    assert_eq!(texts(&state.get_context(4)), vec!["a", "b"]);
    assert!(state.get_context(5).is_empty());
}

#[test]
fn context_with_zero_bound_is_empty() {
    let mut state = AppState::new();
    state.add_message(4, msg(1, 3, "a"), 0);
    assert!(state.get_context(4).is_empty());
}

#[test]
fn clear_context_empties_only_that_chat() {
    let mut state = AppState::new();
    state.add_message(1, msg(1, 3, "a"), 5);
    state.add_message(2, msg(2, 3, "b"), 5);
    state.clear_context(1);
    state.clear_context(3);
    assert!(state.get_context(1).is_empty());
    assert_eq!(texts(&state.get_context(2)), vec!["b"]);
    state.add_message(1, msg(3, 3, "c"), 5);
    assert_eq!(texts(&state.get_context(1)), vec!["c"]);
}

#[test]
fn notification_track_get_remove() {
    let mut state = AppState::new();
    assert_eq!(state.get_notification(1, 2), None);
    state.track_notification(1, 2, 77);
    assert_eq!(state.get_notification(1, 2), Some(77));
    state.track_notification(1, 2, 78);
    assert_eq!(state.get_notification(1, 2), Some(78));
    assert_eq!(state.get_notification(1, 3), None);
    state.remove_notification(1, 2);
    assert_eq!(state.get_notification(1, 2), None);
    state.remove_notification(1, 2);
    assert_eq!(state.get_notification(1, 2), None);
}

#[test]
fn trusted_user_needs_count_above_threshold() {
    let mut state = AppState::new();
    state.increment(1, 2);
    state.increment(1, 2);
    assert!(!state.is_trusted_user(1, 2, 2));
    state.increment(1, 2);
    assert!(state.is_trusted_user(1, 2, 2));
}

#[test]
fn snapshot_round_trip_keeps_counters_and_context() {
    let mut state = AppState::new();
    state.increment(-100, 1);
    state.increment(-100, 1);
    state.increment(-200, 2);
    state.add_message(-100, msg(10, 1, "x"), 3);
    state.add_message(-100, msg(11, 1, "y"), 3);
    state.add_message(-300, msg(12, 2, "z"), 3);
    state.track_notification(-100, 1, 55);
    let snap = state.to_snapshot();
    assert_eq!(snap.counters.len(), 2);
    assert_eq!(snap.histories.len(), 2);
    let loaded = AppState::from_snapshot(snap);
    assert_eq!(loaded.get_count(-100, 1), 2);
    assert_eq!(loaded.get_count(-200, 2), 1);
    assert_eq!(loaded.get_count(-200, 1), 0);
    assert_eq!(texts(&loaded.get_context(-100)), vec!["x", "y"]);
    assert_eq!(texts(&loaded.get_context(-300)), vec!["z"]);
    assert_eq!(loaded.get_notification(-100, 1), None);
}

#[test]
fn screen_counts_and_hands_back_context() {
    let mut state = AppState::new();
    let pre = Filter::new(2);
    state.add_message(1, msg(1, 4, "earlier"), 5);
    let ctx = pre.screen(&mut state, 1, &msg(2, 9, "hi")).unwrap();
    assert_eq!(texts(&ctx), vec!["earlier"]);
    let no_text = ChatMessage { id: 3, sender: msg(0, 9, "").sender, text: None };
    assert!(pre.screen(&mut state, 1, &no_text).is_none());
    assert!(pre.screen(&mut state, 1, &msg(4, 9, "again")).is_none());
    assert_eq!(state.get_count(1, 9), 3);
    let anonymous = ChatMessage { id: 5, sender: None, text: Some("x".to_string()) };
    assert!(pre.screen(&mut state, 1, &anonymous).is_none());
}
