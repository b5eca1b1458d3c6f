use antispam::action::{
    authorize_dismiss, authorize_kick, conclude_action, parse_action, ActionStep, ActionVerb,
    Denial,
};
use antispam::config::{
    default_context_messages, default_state_path, default_threshold, Settings,
};
use antispam::detect::{
    build_prompt, category_of, get_sender_id, needs_moderation, ClassifierOutcome, MsgType,
    SpamCheckResult,
};
use antispam::post::{excerpt, notification_text, process_spam, record_prompt, user_display};
use antispam::state::{AppState, ChatMessage, Sender};
use antispam::text::{decimal_text, parse_u64};

fn sender(id: u64, first: &str, last: Option<&str>) -> Option<Sender> {
    Some(Sender { id, first_name: first.to_string(), last_name: last.map(|s| s.to_string()) })
}

fn msg(id: i32, user: u64, text: &str) -> ChatMessage {
    ChatMessage { id, sender: sender(user, "Ann", None), text: Some(text.to_string()) }
}

#[test]
fn settings_defaults() {
    assert_eq!(default_state_path(), "state.json");
    assert_eq!(default_threshold(), 20);
    assert_eq!(default_context_messages(), 5);
    let s = Settings::new("t".to_string(), "k".to_string(), None, None, None);
    assert_eq!(s.check_threshold, 20);
    assert_eq!(s.state_path, "state.json");
    assert_eq!(s.context_messages, 5);
    let s = Settings::new("t".into(), "k".into(), Some(3), Some("x.json".into()), Some(9));
    assert_eq!(s.tg_bot_token, "t");
    assert_eq!(s.gemini_api_key, "k");
    assert_eq!(s.check_threshold, 3);
    assert_eq!(s.state_path, "x.json");
    assert_eq!(s.context_messages, 9);
}

#[test]
fn decimal_rendering_and_reading() {
    assert_eq!(decimal_text(0), "0");
    assert_eq!(decimal_text(1234567890), "1234567890");
    assert_eq!(decimal_text(u64::MAX), "18446744073709551615");
    assert_eq!(parse_u64("42"), Some(42));
    assert_eq!(parse_u64("+42"), Some(42));
    assert_eq!(parse_u64("18446744073709551615"), Some(u64::MAX));
    assert_eq!(parse_u64("18446744073709551616"), None);
    assert_eq!(parse_u64(""), None);
    assert_eq!(parse_u64("+"), None);
    assert_eq!(parse_u64("-1"), None);
    assert_eq!(parse_u64(" 1"), None);
    assert_eq!(parse_u64("1a"), None);
}

#[test]
fn parse_action_tokens() {
    assert_eq!(parse_action("dismiss:42"), Ok((ActionVerb::Dismiss, 42)));
    assert_eq!(parse_action("kick:7"), Ok((ActionVerb::Kick, 7)));
    assert_eq!(parse_action("kick"), Err(Denial::InvalidData));
    assert_eq!(parse_action(""), Err(Denial::InvalidData));
    assert_eq!(parse_action("kick:abc"), Err(Denial::InvalidUserId));
    assert_eq!(parse_action("kick:1:2"), Err(Denial::InvalidUserId));
    assert_eq!(parse_action("ban:1"), Err(Denial::UnknownAction));
    assert_eq!(parse_action("ban:x"), Err(Denial::InvalidUserId));
}

#[test]
fn denial_messages() {
    assert_eq!(Denial::NotTrusted.message(), "You must be a trusted user to dismiss this action");
    assert_eq!(Denial::NotAdmin.message(), "Only administrators can kick users");
    assert_eq!(Denial::InvalidData.message(), "Invalid callback data");
    assert_eq!(Denial::UnknownAction.message(), "Unknown action");
}

#[test]
fn dismiss_denied_for_untrusted_actor() {
    let mut state = AppState::new();
    state.increment(1, 50);
    state.track_notification(1, 9, 300);
    let step = authorize_dismiss(&state, 20, 1, 50, 9);
    assert_eq!(step, ActionStep::Deny(Denial::NotTrusted));
    let r = conclude_action(&mut state, 1, step, true);
    assert_eq!(r, Err(Denial::NotTrusted));
    assert_eq!(state.get_notification(1, 9), Some(300));
    assert_eq!(state.get_count(1, 50), 1);
}

#[test]
fn dismiss_allowed_above_threshold() {
    let mut state = AppState::new();
    for _ in 0..3 {
        state.increment(1, 50);
    }
    state.track_notification(1, 9, 300);
    assert_eq!(authorize_dismiss(&state, 3, 1, 50, 9), ActionStep::Deny(Denial::NotTrusted));
    let step = authorize_dismiss(&state, 2, 1, 50, 9);
    assert_eq!(step, ActionStep::Unmute { target: 9 });
    assert_eq!(conclude_action(&mut state, 1, step, false), Err(Denial::UnbanFailed));
    assert_eq!(state.get_notification(1, 9), Some(300));
    assert_eq!(conclude_action(&mut state, 1, step, true), Ok("User has been unbanned"));
    assert_eq!(state.get_notification(1, 9), None);
}

#[test]
fn kick_needs_admin() {
    let mut state = AppState::new();
    state.track_notification(1, 9, 300);
    let admins = vec![10, 11];
    assert_eq!(authorize_kick(None, 10, 9), ActionStep::Deny(Denial::PermissionCheckFailed));
    let denied = authorize_kick(Some(&admins), 12, 9);
    assert_eq!(denied, ActionStep::Deny(Denial::NotAdmin));
    assert_eq!(conclude_action(&mut state, 1, denied, true), Err(Denial::NotAdmin));
    assert_eq!(state.get_notification(1, 9), Some(300));
    let step = authorize_kick(Some(&admins), 11, 9);
    assert_eq!(step, ActionStep::Ban { target: 9 });
    assert_eq!(conclude_action(&mut state, 1, step, false), Err(Denial::KickFailed));
    assert_eq!(conclude_action(&mut state, 1, step, true), Ok("User has been permanently kicked"));
    assert_eq!(state.get_notification(1, 9), None);
    assert_eq!(conclude_action(&mut state, 1, step, true), Ok("User has been permanently kicked"));
}

#[test]
fn classifier_failure_is_not_spam() {
    let failed = category_of(ClassifierOutcome::Failed);
    assert_eq!(failed, MsgType::NotSpam);
    assert!(!needs_moderation(failed));
    assert_eq!(category_of(ClassifierOutcome::Unreadable), MsgType::NotSpam);
    let scam = category_of(ClassifierOutcome::Answered(SpamCheckResult { msg_type: MsgType::Scam }));
    assert_eq!(scam, MsgType::Scam);
    assert!(needs_moderation(scam));
    assert!(needs_moderation(MsgType::Phishing));
    assert!(!needs_moderation(MsgType::NotSpam));
}

#[test]
fn category_names() {
    assert_eq!(MsgType::NotSuitableForWork.name(), "NotSuitableForWork");
    assert_eq!(MsgType::UnsolicitedPromotion.name(), "UnsolicitedPromotion");
    assert_eq!(MsgType::OtherSpam.name(), "OtherSpam");
}

#[test]
fn prompt_without_context_is_the_text() {
    assert_eq!(build_prompt(&msg(1, 5, "hello"), &vec![]), "hello");
    let silent = ChatMessage { id: 1, sender: None, text: None };
    assert_eq!(build_prompt(&silent, &vec![]), "");
}

#[test]
fn prompt_with_context() {
    let ctx = vec![
        msg(1, 5, "hi"),
        ChatMessage { id: 2, sender: sender(6, "B", None), text: None },
        ChatMessage { id: 3, sender: None, text: Some("yo".to_string()) },
    ];
    let p = build_prompt(&msg(4, 7, "buy now"), &ctx);
    assert_eq!(p, "History:\n- User5: hi\n- Unknown sender: yo\n\nAnalyze:\nUser7: buy now");
    assert_eq!(get_sender_id(&ChatMessage { id: 1, sender: None, text: None }), "Unknown sender");
}

#[test]
fn display_and_excerpt() {
    let u = Sender { id: 42, first_name: "  Ann".to_string(), last_name: None };
    assert_eq!(user_display(&u), "Ann (42)");
    let u = Sender { id: 1, first_name: "Ann".to_string(), last_name: Some("Lee".to_string()) };
    assert_eq!(user_display(&u), "Ann Lee (1)");
    let long: String = "abcdefghij".repeat(6);
    assert_eq!(excerpt(&msg(1, 1, &long)), long[..50].to_string());
    assert_eq!(excerpt(&msg(1, 1, "short")), "short");
    assert_eq!(excerpt(&ChatMessage { id: 1, sender: None, text: None }), "<no text>");
    assert_eq!(excerpt(&msg(1, 1, &"é".repeat(60))), "é".repeat(50));
}

#[test]
fn notification_text_layout() {
    let t = notification_text(MsgType::Scam, "Ann (42)", "win");
    assert_eq!(
        t,
        "Spam detected!\n\nType: Scam\nUser: Ann (42)\nMessage (first 50 chars): <tg-spoiler>win</tg-spoiler>\n\nUser has been banned for 24 hours."
    );
}

#[test]
fn plan_for_repeat_offender() {
    let mut state = AppState::new();
    state.track_notification(-5, 42, 900);
    let m = ChatMessage { id: 31, sender: sender(42, "Ann", Some("Lee")), text: Some("win".into()) };
    let plan = process_spam(&state, -5, &m, MsgType::Phishing, 1_000);
    assert_eq!(plan.delete_message, 31);
    let p = plan.prompt.unwrap();
    assert_eq!(p.user_id, 42);
    assert_eq!(p.previous_prompt, Some(900));
    assert_eq!(p.mute_until, 87_400);
    assert_eq!(p.dismiss_data, "dismiss:42");
    assert_eq!(p.kick_data, "kick:42");
    assert!(p.text.contains("Type: Phishing\nUser: Ann Lee (42)\n"));
    assert_eq!(parse_action(&p.dismiss_data), Ok((ActionVerb::Dismiss, 42)));

    let anon = ChatMessage { id: 32, sender: None, text: Some("x".into()) };
    let plan = process_spam(&state, -5, &anon, MsgType::Scam, 0);
    assert_eq!(plan.delete_message, 32);
    assert!(plan.prompt.is_none());
}

#[test]
fn record_prompt_only_on_success() {
    let mut state = AppState::new();
    record_prompt(&mut state, 1, 2, None);
    assert_eq!(state.get_notification(1, 2), None);
    record_prompt(&mut state, 1, 2, Some(8));
    assert_eq!(state.get_notification(1, 2), Some(8));
    let plan = process_spam(&state, 1, &msg(3, 2, "again"), MsgType::OtherSpam, 5);
    assert_eq!(plan.prompt.unwrap().previous_prompt, Some(8));
}
