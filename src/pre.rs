//! The rate-limit filter that decides whether a message goes to the
//! classifier.
use crate::state::{count_in, incremented, lemma_increments_count_up, AppState, ChatMessage};
use vstd::prelude::*;

verus! {

/// Forwards a user's first `threshold` messages in a chat to the classifier
/// and none after that, until the user's counter is reset.
#[derive(Clone, Copy)]
pub struct Filter {
    threshold: u64,
}

impl Filter {
    pub fn new(threshold: u64) -> (r: Filter)
        ensures
            r.threshold() == threshold,
    {
        Filter { threshold }
    }

    pub closed spec fn threshold(&self) -> u64 {
        self.threshold
    }

    /// Counts the message, then tells whether the new count is within the
    /// threshold. The count grows even when the answer is no.
    pub fn should_process(&self, state: &mut AppState, chat_id: i64, user_id: u64) -> (r: bool)
        requires
            old(state).count_of(chat_id, user_id) < u64::MAX,
        ensures
            r == (old(state).count_of(chat_id, user_id) + 1 <= self.threshold()),
            final(state).counts() == old(state).counts().insert(
                (chat_id, user_id),
                (old(state).count_of(chat_id, user_id) + 1) as u64,
            ),
            final(state).contexts() == old(state).contexts(),
            final(state).notices() == old(state).notices(),
    {
        let count = state.increment(chat_id, user_id);
        count <= self.threshold
    }

    /// Screens an incoming message. A message without a known sender is
    /// ignored. Otherwise it is counted, and where it is within the
    /// threshold and has text, the chat's context to classify it with is
    /// handed back.
    pub fn screen(&self, state: &mut AppState, chat_id: i64, message: &ChatMessage) -> (r: Option<
        Vec<ChatMessage>,
    >)
        requires
            message.sender matches Some(u) ==> old(state).count_of(chat_id, u.id) < u64::MAX,
        ensures
            final(state).contexts() == old(state).contexts(),
            final(state).notices() == old(state).notices(),
            match message.sender {
                None => r is None && final(state).counts() == old(state).counts(),
                Some(u) => {
                    &&& final(state).counts() == old(state).counts().insert(
                        (chat_id, u.id),
                        (old(state).count_of(chat_id, u.id) + 1) as u64,
                    )
                    &&& (r is Some <==> (old(state).count_of(chat_id, u.id) + 1 <= self.threshold()
                        && message.text is Some))
                    &&& (r matches Some(c) ==> c@ == old(state).context_of(chat_id))
                },
            },
    {
        match &message.sender {
            None => None,
            Some(u) => {
                if !self.should_process(state, chat_id, u.id) {
                    return None;
                }
                if message.text.is_some() {
                    Some(state.get_context(chat_id))
                } else {
                    None
                }
            },
        }
    }
}

/// Over the calls that follow a reset (or the first message), the k-th call
/// of `should_process` for one key answers yes exactly when k is at most the
/// threshold: yes for the first `threshold` calls, no for every later one.
pub proof fn lemma_threshold_cutoff(
    m: Map<(i64, u64), u64>,
    key: (i64, u64),
    threshold: u64,
    n: nat,
)
    requires
        count_in(m, key) == 0,
        n < u64::MAX,
    ensures
        forall|k: nat|
            1 <= k <= n ==> ((count_in(#[trigger] incremented(m, key, (k - 1) as nat), key) + 1
                <= threshold) <==> k <= threshold),
{
    lemma_increments_count_up(m, key, n);
    assert forall|k: nat| 1 <= k <= n implies ((count_in(
        #[trigger] incremented(m, key, (k - 1) as nat),
        key,
    ) + 1 <= threshold) <==> k <= threshold) by {
        assert(count_in(incremented(m, key, (k - 1) as nat), key) == k - 1);
    }
}

} // verus!
