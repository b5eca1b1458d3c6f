//! Operator commands: what each one does to the store and what it answers.
use crate::state::AppState;
use crate::text::{decimal, decimal_text};
use vstd::prelude::*;

verus! {

/// The commands an operator can send in a chat.
#[derive(Clone, Copy, PartialEq, Eq, Structural, Debug)]
pub enum Command {
    Start,
    Stats,
    Save,
    Reset,
    ClearContext,
}

/// The answer to a command, given the sender's counter before it ran;
/// `None` for a save, whose answer depends on how the save went.
pub open spec fn command_reply(cmd: Command, count: nat) -> Option<Seq<char>> {
    match cmd {
        Command::Start => Some("Hello! I am an Anti-Spam Bot."@),
        Command::Stats => Some("Your message count: "@ + decimal(count)),
        Command::Save => None,
        Command::Reset => Some("Your message count has been reset to 0."@),
        Command::ClearContext => Some("Message context has been cleared."@),
    }
}

/// Runs a command sent by `user_id` in `chat_id` against the store and
/// returns its answer. A save is left to the caller, which writes the
/// snapshot and answers with `save_reply`.
pub fn run_command(state: &mut AppState, chat_id: i64, user_id: u64, cmd: Command) -> (r: Option<
    String,
>)
    ensures
        match (r, command_reply(cmd, old(state).count_of(chat_id, user_id))) {
            (Some(t), Some(u)) => t@ == u,
            (None, None) => true,
            _ => false,
        },
        final(state).counts() == (if cmd == Command::Reset {
            old(state).counts().remove((chat_id, user_id))
        } else {
            old(state).counts()
        }),
        final(state).contexts() == (if cmd == Command::ClearContext && old(
            state,
        ).contexts().contains_key(chat_id) {
            old(state).contexts().insert(chat_id, Seq::empty())
        } else {
            old(state).contexts()
        }),
        final(state).notices() == old(state).notices(),
{
    match cmd {
        Command::Start => Some(String::from_str("Hello! I am an Anti-Spam Bot.")),
        Command::Stats => {
            let count = state.get_count(chat_id, user_id);
            let mut r = String::from_str("Your message count: ");
            let digits = decimal_text(count);
            r.append(digits.as_str());
            Some(r)
        },
        Command::Save => None,
        Command::Reset => {
            state.reset(chat_id, user_id);
            Some(String::from_str("Your message count has been reset to 0."))
        },
        Command::ClearContext => {
            state.clear_context(chat_id);
            Some(String::from_str("Message context has been cleared."))
        },
    }
}

/// The answer to a save: success, or the failure with its description.
pub fn save_reply(failure: Option<&str>) -> (r: String)
    ensures
        r@ == match failure {
            Some(e) => "Failed to save state: "@ + e@,
            None => "State saved successfully."@,
        },
{
    match failure {
        Some(e) => {
            let mut r = String::from_str("Failed to save state: ");
            r.append(e);
            r
        },
        None => String::from_str("State saved successfully."),
    }
}

} // verus!
