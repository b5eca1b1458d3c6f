use vstd::prelude::*;

verus! {

/// Default location of the persisted snapshot.
pub const DEFAULT_STATE_PATH: &'static str = "state.json";

/// Default number of messages a user may send before being excluded from
/// classification (and above which a user counts as trusted).
pub const DEFAULT_THRESHOLD: u64 = 20;

/// Default bound of each chat's context buffer.
pub const DEFAULT_CONTEXT_MESSAGES: usize = 5;

/// Runtime settings of the moderation bot.
#[derive(Clone)]
pub struct Settings {
    pub tg_bot_token: String,
    pub gemini_api_key: String,
    pub check_threshold: u64,
    pub state_path: String,
    pub context_messages: usize,
}

pub fn default_state_path() -> (r: String)
    ensures
        r@ == DEFAULT_STATE_PATH@,
{
    String::from_str(DEFAULT_STATE_PATH)
}

pub fn default_threshold() -> (r: u64)
    ensures
        r == DEFAULT_THRESHOLD,
{
    DEFAULT_THRESHOLD
}

pub fn default_context_messages() -> (r: usize)
    ensures
        r == DEFAULT_CONTEXT_MESSAGES,
{
    DEFAULT_CONTEXT_MESSAGES
}

impl Settings {
    /// Builds the settings from the values a configuration source supplied;
    /// each optional value that is absent takes its default.
    pub fn new(
        tg_bot_token: String,
        gemini_api_key: String,
        check_threshold: Option<u64>,
        state_path: Option<String>,
        context_messages: Option<usize>,
    ) -> (r: Settings)
        ensures
            r.tg_bot_token@ == tg_bot_token@,
            r.gemini_api_key@ == gemini_api_key@,
            r.check_threshold == match check_threshold {
                Some(t) => t,
                None => DEFAULT_THRESHOLD,
            },
            r.state_path@ == match state_path {
                Some(p) => p@,
                None => DEFAULT_STATE_PATH@,
            },
            r.context_messages == match context_messages {
                Some(n) => n,
                None => DEFAULT_CONTEXT_MESSAGES,
            },
    {
        let check_threshold = match check_threshold {
            Some(t) => t,
            None => default_threshold(),
        };
        let state_path = match state_path {
            Some(p) => p,
            None => default_state_path(),
        };
        let context_messages = match context_messages {
            Some(n) => n,
            None => default_context_messages(),
        };
        Settings { tg_bot_token, gemini_api_key, check_threshold, state_path, context_messages }
    }
}

} // verus!
