use antispam::command::{run_command, save_reply, Command};
use antispam::state::{AppState, ChatMessage};
use antispam::text::{parse_i64, signed_decimal_text};

#[test]
fn counter_key_text() {
    assert_eq!(AppState::key(1, 100), "100:1");
    assert_eq!(AppState::key(-1001234, 7), "7:-1001234");
    assert_eq!(AppState::key(i64::MIN, u64::MAX), "18446744073709551615:-9223372036854775808");
}

#[test]
fn counter_key_round_trip() {
    for (c, u) in [(1i64, 100u64), (-1001234, 7), (0, 0), (i64::MIN, u64::MAX), (i64::MAX, 1)] {
        assert_eq!(AppState::parse_key(&AppState::key(c, u)), Some((c, u)));
    }
    assert_eq!(AppState::parse_key("100"), None);
    assert_eq!(AppState::parse_key("x:1"), None);
    assert_eq!(AppState::parse_key("1:y"), None);
    assert_eq!(AppState::parse_key("1:2:3"), None);
    assert_eq!(AppState::parse_key("+5:-0"), Some((0, 5)));
}

#[test]
fn signed_numbers() {
    assert_eq!(signed_decimal_text(0), "0");
    assert_eq!(signed_decimal_text(-42), "-42");
    assert_eq!(signed_decimal_text(i64::MIN), "-9223372036854775808");
    assert_eq!(parse_i64("-9223372036854775808"), Some(i64::MIN));
    assert_eq!(parse_i64("-9223372036854775809"), None);
    assert_eq!(parse_i64("9223372036854775807"), Some(i64::MAX));
    assert_eq!(parse_i64("9223372036854775808"), None);
    assert_eq!(parse_i64("+12"), Some(12));
    assert_eq!(parse_i64("-+12"), None);
    assert_eq!(parse_i64("-"), None);
    assert_eq!(parse_i64("--1"), None);
}

#[test]
fn commands_answer_and_change_state() {
    let mut state = AppState::new();
    state.increment(1, 2);
    state.increment(1, 2);
    state.add_message(1, ChatMessage { id: 1, sender: None, text: Some("a".into()) }, 5);
    assert_eq!(run_command(&mut state, 1, 2, Command::Start).unwrap(), "Hello! I am an Anti-Spam Bot.");
    assert_eq!(run_command(&mut state, 1, 2, Command::Stats).unwrap(), "Your message count: 2");
    assert_eq!(run_command(&mut state, 1, 2, Command::Save), None);
    assert_eq!(
        run_command(&mut state, 1, 2, Command::Reset).unwrap(),
        "Your message count has been reset to 0."
    );
    assert_eq!(state.get_count(1, 2), 0);
    assert_eq!(
        run_command(&mut state, 1, 2, Command::ClearContext).unwrap(),
        "Message context has been cleared."
    );
    assert!(state.get_context(1).is_empty());
    assert_eq!(save_reply(None), "State saved successfully.");
    assert_eq!(save_reply(Some("disk full")), "Failed to save state: disk full");
}
