//! What to do about a message the classifier flagged: delete it, replace the
//! offender's earlier prompt, mute the offender and post a new prompt.
use crate::detect::{category_name, MsgType};
use crate::state::{AppState, ChatMessage, Sender};
use crate::text::{decimal, decimal_text};
use vstd::prelude::*;

verus! {

/// How long a flagged user stays muted, in seconds.
pub const MUTE_SECONDS: i64 = 86400;

/// How many characters of the flagged text the prompt quotes.
pub const EXCERPT_CHARS: usize = 50;

/// The steps that concern the offending user and the prompt about them.
pub struct PromptPlan {
    pub user_id: u64,
    /// The earlier prompt about the same user in the chat, to delete first.
    pub previous_prompt: Option<i32>,
    /// End of the mute, in seconds since the Unix epoch.
    pub mute_until: i64,
    /// The text of the new prompt.
    pub text: String,
    /// Action token of the prompt's dismiss button.
    pub dismiss_data: String,
    /// Action token of the prompt's kick button.
    pub kick_data: String,
}

/// Everything that moderating one flagged message involves.
pub struct ModerationPlan {
    /// The flagged message, to delete.
    pub delete_message: i32,
    /// Absent where the message has no known sender.
    pub prompt: Option<PromptPlan>,
}

/// What `str::trim` leaves of a text.
pub uninterp spec fn trimmed_of(s: Seq<char>) -> Seq<char>;

/// Relies on `str::trim`: the text without leading and trailing whitespace.
#[verifier::external_body]
fn trim_text(s: &str) -> (r: String)
    ensures
        r@ == trimmed_of(s@),
{
    s.trim().to_string()
}

/// First and last name of a sender, separated by a space.
pub open spec fn full_name(u: Sender) -> Seq<char> {
    u.first_name@ + " "@ + match u.last_name {
        Some(l) => l@,
        None => Seq::empty(),
    }
}

/// How the prompt names a user: trimmed full name, then the id in brackets.
pub open spec fn display_of(u: Sender) -> Seq<char> {
    trimmed_of(full_name(u)) + " ("@ + decimal(u.id as nat) + ")"@
}

/// The quoted part of the flagged text: its first characters, or a
/// placeholder where the message has no text.
pub open spec fn excerpt_of(m: ChatMessage) -> Seq<char> {
    let t = match m.text {
        Some(t) => t@,
        None => "<no text>"@,
    };
    if t.len() <= EXCERPT_CHARS {
        t
    } else {
        t.subrange(0, EXCERPT_CHARS as int)
    }
}

/// The text of a moderation prompt.
pub open spec fn notification_of(category: MsgType, display: Seq<char>, excerpt: Seq<char>) -> Seq<
    char,
> {
    "Spam detected!\n\nType: "@ + category_name(category) + "\nUser: "@ + display
        + "\nMessage (first 50 chars): <tg-spoiler>"@ + excerpt
        + "</tg-spoiler>\n\nUser has been banned for 24 hours."@
}

/// How the prompt names the user.
pub fn user_display(u: &Sender) -> (r: String)
    ensures
        r@ == display_of(*u),
{
    let mut name = u.first_name.clone();
    name.append(" ");
    match &u.last_name {
        Some(l) => name.append(l.as_str()),
        None => {},
    }
    assert(name@ =~= full_name(*u));
    let mut r = trim_text(name.as_str());
    r.append(" (");
    let digits = decimal_text(u.id);
    r.append(digits.as_str());
    r.append(")");
    r
}

/// The quoted part of the flagged text.
pub fn excerpt(message: &ChatMessage) -> (r: String)
    ensures
        r@ == excerpt_of(*message),
{
    let t: &str = match &message.text {
        Some(t) => t.as_str(),
        None => "<no text>",
    };
    let n = t.unicode_len();
    if n <= EXCERPT_CHARS {
        String::from_str(t)
    } else {
        String::from_str(t.substring_char(0, EXCERPT_CHARS))
    }
}

/// The text of a moderation prompt, from the category, the user's display
/// name and the excerpt.
pub fn notification_text(category: MsgType, display: &str, excerpt: &str) -> (r: String)
    ensures
        r@ == notification_of(category, display@, excerpt@),
{
    let mut r = String::from_str("Spam detected!\n\nType: ");
    r.append(category.name());
    r.append("\nUser: ");
    r.append(display);
    r.append("\nMessage (first 50 chars): <tg-spoiler>");
    r.append(excerpt);
    r.append("</tg-spoiler>\n\nUser has been banned for 24 hours.");
    r
}

/// The action token `verb:user_id`.
pub open spec fn token_of(verb: Seq<char>, user_id: u64) -> Seq<char> {
    verb + ":"@ + decimal(user_id as nat)
}

fn action_token(verb: &str, user_id: u64) -> (r: String)
    ensures
        r@ == token_of(verb@, user_id),
{
    let mut r = String::from_str(verb);
    r.append(":");
    let digits = decimal_text(user_id);
    r.append(digits.as_str());
    r
}

/// Plans the moderation of a flagged message sent at `now` (seconds since
/// the Unix epoch): delete it; where its sender is known, delete the
/// sender's earlier prompt if one is tracked, mute the sender for a day and
/// post a prompt with dismiss and kick actions.
pub fn process_spam(
    state: &AppState,
    chat_id: i64,
    message: &ChatMessage,
    category: MsgType,
    now: i64,
) -> (r: ModerationPlan)
    requires
        now <= i64::MAX - MUTE_SECONDS,
    ensures
        r.delete_message == message.id,
        message.sender is None ==> r.prompt is None,
        message.sender matches Some(u) ==> r.prompt matches Some(p) && p.user_id == u.id
            && p.previous_prompt == (if state.notices().contains_key((chat_id, u.id)) {
            Some(state.notices()[(chat_id, u.id)])
        } else {
            None
        }) && p.mute_until == now + MUTE_SECONDS && p.text@ == notification_of(
            category,
            display_of(u),
            excerpt_of(*message),
        ) && p.dismiss_data@ == token_of("dismiss"@, u.id) && p.kick_data@ == token_of(
            "kick"@,
            u.id,
        ),
{
    let prompt = match &message.sender {
        None => None,
        Some(u) => {
            let display = user_display(u);
            let quoted = excerpt(message);
            Some(
                PromptPlan {
                    user_id: u.id,
                    previous_prompt: state.get_notification(chat_id, u.id),
                    mute_until: now + MUTE_SECONDS,
                    text: notification_text(category, display.as_str(), quoted.as_str()),
                    dismiss_data: action_token("dismiss", u.id),
                    kick_data: action_token("kick", u.id),
                },
            )
        },
    };
    ModerationPlan { delete_message: message.id, prompt }
}

/// Records the prompt that was posted about `user_id`, replacing the earlier
/// one; where posting failed (`sent` is `None`) nothing is recorded.
pub fn record_prompt(state: &mut AppState, chat_id: i64, user_id: u64, sent: Option<i32>)
    ensures
        final(state).notices() == (match sent {
            Some(id) => old(state).notices().insert((chat_id, user_id), id),
            None => old(state).notices(),
        }),
        final(state).counts() == old(state).counts(),
        final(state).contexts() == old(state).contexts(),
{
    if let Some(id) = sent {
        state.track_notification(chat_id, user_id, id);
    }
}

} // verus!
