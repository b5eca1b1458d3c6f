//! The shared state store: per-(chat, user) counters, per-chat bounded
//! context buffers and per-(chat, user) notification records.
use dashmap::DashMap;
use std::collections::VecDeque;
use crate::text::{
    decimal, decimal_text, find_colon, first_colon_at, i64_of_text, lemma_decimal_round_trip,
    lemma_signed_decimal_round_trip, lemma_unsigned_decimal_round_trip, parse_i64, parse_u64,
    signed_decimal, signed_decimal_text, u64_of_text,
};
use vstd::prelude::*;

verus! {

#[verifier::external_type_specification]
#[verifier::external_body]
#[verifier::reject_recursive_types(K)]
#[verifier::reject_recursive_types(V)]
#[verifier::reject_recursive_types(S)]
pub struct ExDashMap<K, V, S>(DashMap<K, V, S>);

/// The sender of a chat message, as far as needed to render its identity.
#[derive(Clone)]
pub struct Sender {
    pub id: u64,
    pub first_name: String,
    pub last_name: Option<String>,
}

/// A message as the store keeps it in a chat's context buffer.
#[derive(Clone)]
pub struct ChatMessage {
    pub id: i32,
    pub sender: Option<Sender>,
    pub text: Option<String>,
}

/// Counter map: (chat, user) to the number of messages seen.
pub type CounterMap = DashMap<(i64, u64), u64>;

/// Context map: chat to its recent messages, oldest first.
pub type HistoryMap = DashMap<i64, VecDeque<ChatMessage>>;

/// Notification map: (chat, offending user) to the id of the prompt message.
pub type NotificationMap = DashMap<(i64, u64), i32>;

/// What a counter map holds.
pub uninterp spec fn counter_entries(m: DashMap<(i64, u64), u64>) -> Map<(i64, u64), u64>;

/// What a context map holds, each buffer as a sequence, oldest first.
pub uninterp spec fn history_entries(m: DashMap<i64, VecDeque<ChatMessage>>) -> Map<
    i64,
    Seq<ChatMessage>,
>;

/// What a notification map holds.
pub uninterp spec fn notification_entries(m: DashMap<(i64, u64), i32>) -> Map<(i64, u64), i32>;

/// Relies on `DashMap::new`: a new map is empty.
#[verifier::external_body]
fn counters_new() -> (r: CounterMap)
    ensures
        forall|k: (i64, u64)| !(#[trigger] counter_entries(r).contains_key(k)),
{
    DashMap::new()
}

/// Relies on `DashMap::get`: the value stored under the key, if any.
#[verifier::external_body]
fn counters_get(m: &CounterMap, key: (i64, u64)) -> (r: Option<u64>)
    ensures
        r == (if counter_entries(*m).contains_key(key) {
            Some(counter_entries(*m)[key])
        } else {
            None
        }),
{
    m.get(&key).map(|v| *v.value())
}

/// Relies on `DashMap::insert`: the key maps to the value afterwards, the
/// other keys are untouched.
#[verifier::external_body]
fn counters_insert(m: &mut CounterMap, key: (i64, u64), value: u64)
    ensures
        counter_entries(*final(m)) == counter_entries(*old(m)).insert(key, value),
{
    m.insert(key, value);
}

/// Relies on `DashMap::remove`: the key is absent afterwards, the other keys
/// are untouched.
#[verifier::external_body]
fn counters_remove(m: &mut CounterMap, key: (i64, u64))
    ensures
        counter_entries(*final(m)) == counter_entries(*old(m)).remove(key),
{
    m.remove(&key);
}

/// Relies on `DashMap::iter`: every entry is visited once, in no stated order.
#[verifier::external_body]
fn counters_items(m: &CounterMap) -> (r: Vec<((i64, u64), u64)>)
    ensures
        forall|i: int|
            0 <= i < r@.len() ==> counter_entries(*m).contains_key(#[trigger] r@[i].0)
                && counter_entries(*m)[r@[i].0] == r@[i].1,
        forall|k: (i64, u64)|
            #[trigger] counter_entries(*m).contains_key(k) ==> exists|i: int|
                0 <= i < r@.len() && r@[i].0 == k,
        forall|i: int, j: int| 0 <= i < j < r@.len() ==> r@[i].0 != r@[j].0,
{
    m.iter().map(|e| (*e.key(), *e.value())).collect()
}

/// Relies on `DashMap::new`: a new map is empty.
#[verifier::external_body]
fn history_new() -> (r: HistoryMap)
    ensures
        forall|k: i64| !(#[trigger] history_entries(r).contains_key(k)),
{
    DashMap::new()
}

/// Relies on `DashMap::get`: a copy of the buffer stored under the chat, if any.
#[verifier::external_body]
fn history_get(m: &HistoryMap, chat: i64) -> (r: Option<VecDeque<ChatMessage>>)
    ensures
        r is Some <==> history_entries(*m).contains_key(chat),
        r matches Some(q) ==> q@ == history_entries(*m)[chat],
{
    m.get(&chat).map(|q| q.value().clone())
}

/// Relies on `DashMap::insert`: the chat maps to the buffer afterwards, the
/// other chats are untouched.
#[verifier::external_body]
fn history_insert(m: &mut HistoryMap, chat: i64, q: VecDeque<ChatMessage>)
    ensures
        history_entries(*final(m)) == history_entries(*old(m)).insert(chat, q@),
{
    m.insert(chat, q);
}

/// Relies on `DashMap::remove`: hands out the buffer stored under the chat,
/// which is absent afterwards.
#[verifier::external_body]
fn history_remove(m: &mut HistoryMap, chat: i64) -> (r: Option<VecDeque<ChatMessage>>)
    ensures
        r is Some <==> history_entries(*old(m)).contains_key(chat),
        r matches Some(q) ==> q@ == history_entries(*old(m))[chat],
        history_entries(*final(m)) == history_entries(*old(m)).remove(chat),
{
    m.remove(&chat).map(|(_, q)| q)
}

/// Relies on `DashMap::iter`: every entry is visited once, in no stated order;
/// each buffer is copied into a `Vec`, oldest first.
#[verifier::external_body]
fn history_items(m: &HistoryMap) -> (r: Vec<(i64, Vec<ChatMessage>)>)
    ensures
        forall|i: int|
            0 <= i < r@.len() ==> history_entries(*m).contains_key(#[trigger] r@[i].0)
                && history_entries(*m)[r@[i].0] == r@[i].1@,
        forall|k: i64|
            #[trigger] history_entries(*m).contains_key(k) ==> exists|i: int|
                0 <= i < r@.len() && r@[i].0 == k,
        forall|i: int, j: int| 0 <= i < j < r@.len() ==> r@[i].0 != r@[j].0,
{
    m.iter().map(|e| (*e.key(), e.value().iter().cloned().collect())).collect()
}

/// Relies on `DashMap::new`: a new map is empty.
#[verifier::external_body]
fn notifications_new() -> (r: NotificationMap)
    ensures
        forall|k: (i64, u64)| !(#[trigger] notification_entries(r).contains_key(k)),
{
    DashMap::new()
}

/// Relies on `DashMap::get`: the value stored under the key, if any.
#[verifier::external_body]
fn notifications_get(m: &NotificationMap, key: (i64, u64)) -> (r: Option<i32>)
    ensures
        r == (if notification_entries(*m).contains_key(key) {
            Some(notification_entries(*m)[key])
        } else {
            None
        }),
{
    m.get(&key).map(|v| *v.value())
}

/// Relies on `DashMap::insert`: the key maps to the value afterwards, the
/// other keys are untouched.
#[verifier::external_body]
fn notifications_insert(m: &mut NotificationMap, key: (i64, u64), value: i32)
    ensures
        notification_entries(*final(m)) == notification_entries(*old(m)).insert(key, value),
{
    m.insert(key, value);
}

/// Relies on `DashMap::remove`: the key is absent afterwards, the other keys
/// are untouched.
#[verifier::external_body]
fn notifications_remove(m: &mut NotificationMap, key: (i64, u64))
    ensures
        notification_entries(*final(m)) == notification_entries(*old(m)).remove(key),
{
    m.remove(&key);
}

/// The last `max` entries of `s` (all of it when it is shorter), oldest first.
pub open spec fn keep_latest(s: Seq<ChatMessage>, max: nat) -> Seq<ChatMessage> {
    if s.len() <= max {
        s
    } else {
        s.subrange(s.len() - max, s.len() as int)
    }
}

/// The counter stored under `key`, 0 where there is none.
pub open spec fn count_in(m: Map<(i64, u64), u64>, key: (i64, u64)) -> nat {
    if m.contains_key(key) {
        m[key] as nat
    } else {
        0
    }
}

/// The buffer stored under `chat`, empty where there is none.
pub open spec fn context_in(m: Map<i64, Seq<ChatMessage>>, chat: i64) -> Seq<ChatMessage> {
    if m.contains_key(chat) {
        m[chat]
    } else {
        Seq::empty()
    }
}

/// The store shared by the rate limiter, the moderation steps and the
/// operator actions.
pub struct AppState {
    counters: CounterMap,
    message_history: HistoryMap,
    notifications: NotificationMap,
}

impl AppState {
    /// The counters, keyed by (chat, user).
    pub closed spec fn counts(&self) -> Map<(i64, u64), u64> {
        counter_entries(self.counters)
    }

    /// The context buffers, keyed by chat, each oldest first.
    pub closed spec fn contexts(&self) -> Map<i64, Seq<ChatMessage>> {
        history_entries(self.message_history)
    }

    /// The tracked notification prompts, keyed by (chat, offending user).
    pub closed spec fn notices(&self) -> Map<(i64, u64), i32> {
        notification_entries(self.notifications)
    }

    pub open spec fn count_of(&self, chat_id: i64, user_id: u64) -> nat {
        count_in(self.counts(), (chat_id, user_id))
    }

    pub open spec fn context_of(&self, chat_id: i64) -> Seq<ChatMessage> {
        context_in(self.contexts(), chat_id)
    }

    /// An empty store.
    pub fn new() -> (r: AppState)
        ensures
            r.counts() == Map::<(i64, u64), u64>::empty(),
            r.contexts() == Map::<i64, Seq<ChatMessage>>::empty(),
            r.notices() == Map::<(i64, u64), i32>::empty(),
    {
        let r = AppState {
            counters: counters_new(),
            message_history: history_new(),
            notifications: notifications_new(),
        };
        assert(r.counts() =~= Map::<(i64, u64), u64>::empty());
        assert(r.contexts() =~= Map::<i64, Seq<ChatMessage>>::empty());
        assert(r.notices() =~= Map::<(i64, u64), i32>::empty());
        r
    }

    /// The number of messages counted for the user in the chat, 0 if none.
    pub fn get_count(&self, chat_id: i64, user_id: u64) -> (r: u64)
        ensures
            r == self.count_of(chat_id, user_id),
    {
        match counters_get(&self.counters, (chat_id, user_id)) {
            Some(n) => n,
            None => 0,
        }
    }

    /// Adds one to the user's counter in the chat and returns the new value.
    pub fn increment(&mut self, chat_id: i64, user_id: u64) -> (r: u64)
        requires
            old(self).count_of(chat_id, user_id) < u64::MAX,
        ensures
            r == old(self).count_of(chat_id, user_id) + 1,
            final(self).counts() == old(self).counts().insert((chat_id, user_id), r),
            final(self).contexts() == old(self).contexts(),
            final(self).notices() == old(self).notices(),
    {
        let n = self.get_count(chat_id, user_id) + 1;
        counters_insert(&mut self.counters, (chat_id, user_id), n);
        n
    }

    /// Removes the user's counter in the chat; it reads as 0 afterwards.
    pub fn reset(&mut self, chat_id: i64, user_id: u64)
        ensures
            final(self).counts() == old(self).counts().remove((chat_id, user_id)),
            final(self).contexts() == old(self).contexts(),
            final(self).notices() == old(self).notices(),
    {
        counters_remove(&mut self.counters, (chat_id, user_id));
    }

    /// Appends the message to the chat's buffer, then drops the oldest
    /// entries until at most `max_size` remain.
    pub fn add_message(&mut self, chat_id: i64, message: ChatMessage, max_size: usize)
        ensures
            final(self).contexts() == old(self).contexts().insert(
                chat_id,
                keep_latest(old(self).context_of(chat_id).push(message), max_size as nat),
            ),
            final(self).counts() == old(self).counts(),
            final(self).notices() == old(self).notices(),
    {
        let mut q = match history_remove(&mut self.message_history, chat_id) {
            Some(q) => q,
            None => VecDeque::new(),
        };
        q.push_back(message);
        let ghost all = q@;
        assert(all == context_in(old(self).contexts(), chat_id).push(message));
        while q.len() > max_size
            invariant
                q@.len() <= all.len(),
                q@ == all.subrange(all.len() - q@.len(), all.len() as int),
                all.len() > max_size ==> q@.len() >= max_size,
                all.len() <= max_size ==> q@ == all,
            decreases q@.len(),
        {
            q.pop_front();
        }
        assert(all.len() <= max_size ==> all.subrange(0, all.len() as int) =~= all);
        assert(q@ =~= keep_latest(all, max_size as nat));
        history_insert(&mut self.message_history, chat_id, q);
        assert(self.contexts() =~= old(self).contexts().insert(
            chat_id,
            keep_latest(all, max_size as nat),
        ));
    }

    /// Empties the chat's buffer, where the chat has one.
    pub fn clear_context(&mut self, chat_id: i64)
        ensures
            final(self).contexts() == (if old(self).contexts().contains_key(chat_id) {
                old(self).contexts().insert(chat_id, Seq::empty())
            } else {
                old(self).contexts()
            }),
            final(self).counts() == old(self).counts(),
            final(self).notices() == old(self).notices(),
    {
        if let Some(mut q) = history_remove(&mut self.message_history, chat_id) {
            q.clear();
            history_insert(&mut self.message_history, chat_id, q);
            assert(self.contexts() =~= old(self).contexts().insert(chat_id, Seq::empty()));
        }
    }

    /// A copy of the chat's buffer, oldest first.
    pub fn get_context(&self, chat_id: i64) -> (r: Vec<ChatMessage>)
        ensures
            r@ == self.context_of(chat_id),
    {
        let mut r: Vec<ChatMessage> = Vec::new();
        if let Some(q) = history_get(&self.message_history, chat_id) {
            let mut q = q;
            let ghost all = q@;
            while q.len() > 0
                invariant
                    r@ + q@ == all,
                decreases q@.len(),
            {
                match q.pop_front() {
                    Some(m) => {
                        r.push(m);
                        assert(r@ + q@ =~= all);
                    },
                    None => {},
                }
            }
            assert(r@ =~= all);
        }
        r
    }

    /// Records `message_id` as the prompt tracked for the offending user,
    /// replacing any earlier one.
    pub fn track_notification(&mut self, chat_id: i64, user_id: u64, message_id: i32)
        ensures
            final(self).notices() == old(self).notices().insert((chat_id, user_id), message_id),
            final(self).counts() == old(self).counts(),
            final(self).contexts() == old(self).contexts(),
    {
        notifications_insert(&mut self.notifications, (chat_id, user_id), message_id);
    }

    /// The prompt tracked for the offending user, if any.
    pub fn get_notification(&self, chat_id: i64, user_id: u64) -> (r: Option<i32>)
        ensures
            r == (if self.notices().contains_key((chat_id, user_id)) {
                Some(self.notices()[(chat_id, user_id)])
            } else {
                None
            }),
    {
        notifications_get(&self.notifications, (chat_id, user_id))
    }

    /// Forgets the prompt tracked for the offending user; nothing happens
    /// where there is none.
    pub fn remove_notification(&mut self, chat_id: i64, user_id: u64)
        ensures
            final(self).notices() == old(self).notices().remove((chat_id, user_id)),
            final(self).counts() == old(self).counts(),
            final(self).contexts() == old(self).contexts(),
    {
        notifications_remove(&mut self.notifications, (chat_id, user_id));
    }

    /// Whether the user counts as trusted in the chat: their counter exceeds
    /// the threshold.
    pub fn is_trusted_user(&self, chat_id: i64, user_id: u64, threshold: u64) -> (r: bool)
        ensures
            r == (self.count_of(chat_id, user_id) > threshold),
    {
        self.get_count(chat_id, user_id) > threshold
    }
}

/// One persisted counter.
#[derive(Clone, Copy)]
pub struct CounterRecord {
    pub chat_id: i64,
    pub user_id: u64,
    pub count: u64,
}

/// One persisted context buffer, oldest first.
#[derive(Clone)]
pub struct ChatHistory {
    pub chat_id: i64,
    pub messages: Vec<ChatMessage>,
}

/// The persisted form of a store: its counters and its context buffers.
#[derive(Clone)]
pub struct Snapshot {
    pub counters: Vec<CounterRecord>,
    pub histories: Vec<ChatHistory>,
}

/// The counters that a list of records describes; a later record for the
/// same key wins.
pub open spec fn counter_map_of(s: Seq<CounterRecord>) -> Map<(i64, u64), u64>
    decreases s.len(),
{
    if s.len() == 0 {
        Map::empty()
    } else {
        counter_map_of(s.drop_last()).insert(
            (s.last().chat_id, s.last().user_id),
            s.last().count,
        )
    }
}

/// The buffers that a list of histories describes; a later history for the
/// same chat wins.
pub open spec fn history_map_of(s: Seq<ChatHistory>) -> Map<i64, Seq<ChatMessage>>
    decreases s.len(),
{
    if s.len() == 0 {
        Map::empty()
    } else {
        history_map_of(s.drop_last()).insert(s.last().chat_id, s.last().messages@)
    }
}

impl AppState {
    /// The snapshot that describes this store's counters and buffers.
    pub fn to_snapshot(&self) -> (r: Snapshot)
        ensures
            counter_map_of(r.counters@) == self.counts(),
            history_map_of(r.histories@) == self.contexts(),
    {
        let items = counters_items(&self.counters);
        let mut counters: Vec<CounterRecord> = Vec::new();
        let mut i: usize = 0;
        while i < items.len()
            invariant
                i <= items@.len(),
                forall|k: (i64, u64)|
                    #[trigger] counter_map_of(counters@).contains_key(k) <==> exists|j: int|
                        0 <= j < i && items@[j].0 == k,
                forall|k: (i64, u64)| #[trigger]
                    counter_map_of(counters@).contains_key(k) ==> self.counts().contains_key(k)
                        && counter_map_of(counters@)[k] == self.counts()[k],
                forall|j: int|
                    0 <= j < items@.len() ==> self.counts().contains_key(#[trigger] items@[j].0)
                        && self.counts()[items@[j].0] == items@[j].1,
                forall|k: (i64, u64)| #[trigger]
                    self.counts().contains_key(k) ==> exists|j: int|
                        0 <= j < items@.len() && items@[j].0 == k,
            decreases items@.len() - i,
        {
            let (key, count) = items[i];
            let ghost prev = counters@;
            counters.push(CounterRecord { chat_id: key.0, user_id: key.1, count });
            assert(counters@.drop_last() == prev);
            assert(self.counts().contains_key(items@[i as int].0));
            assert(key == items@[i as int].0 && count == items@[i as int].1);
            assert(counter_map_of(counters@) == counter_map_of(prev).insert(key, count));
            i += 1;
            assert forall|k: (i64, u64)| #[trigger]
                counter_map_of(counters@).contains_key(k) implies exists|j: int|
                    0 <= j < i && items@[j].0 == k by {
                if k != key {
                    assert(counter_map_of(prev).contains_key(k));
                } else {
                    assert(items@[i - 1].0 == k);
                }
            }
            assert forall|j: int| 0 <= j < i implies #[trigger] counter_map_of(
                counters@,
            ).contains_key(items@[j].0) by {
                if j != i - 1 {
                    assert(counter_map_of(prev).contains_key(items@[j].0));
                }
            }
        }
        assert forall|k: (i64, u64)| #[trigger] self.counts().contains_key(k) implies counter_map_of(
            counters@,
        ).contains_key(k) by {
            let j = choose|j: int| 0 <= j < items@.len() && items@[j].0 == k;
            assert(items@[j].0 == k);
        }
        assert(counter_map_of(counters@) =~= self.counts());
        let mut entries = history_items(&self.message_history);
        let ghost all = entries@;
        let mut histories: Vec<ChatHistory> = Vec::new();
        while entries.len() > 0
            invariant
                entries@.len() <= all.len(),
                entries@ == all.subrange(0, entries@.len() as int),
                forall|k: i64|
                    #[trigger] history_map_of(histories@).contains_key(k) <==> exists|j: int|
                        entries@.len() <= j < all.len() && all[j].0 == k,
                forall|k: i64| #[trigger]
                    history_map_of(histories@).contains_key(k) ==> self.contexts().contains_key(k)
                        && history_map_of(histories@)[k] == self.contexts()[k],
                forall|j: int|
                    0 <= j < all.len() ==> self.contexts().contains_key(#[trigger] all[j].0)
                        && self.contexts()[all[j].0] == all[j].1@,
                forall|k: i64| #[trigger]
                    self.contexts().contains_key(k) ==> exists|j: int|
                        0 <= j < all.len() && all[j].0 == k,
            decreases entries@.len(),
        {
            let ghost n = entries@.len() - 1;
            let popped = entries.pop();
            let (chat_id, messages) = popped.unwrap();
            assert(all[n] == (chat_id, messages));
            assert(self.contexts().contains_key(all[n].0));
            let ghost prev = histories@;
            let ghost moved = messages@;
            histories.push(ChatHistory { chat_id, messages });
            assert(histories@.drop_last() == prev);
            assert(history_map_of(histories@) == history_map_of(prev).insert(chat_id, moved));
            assert(entries@ =~= all.subrange(0, entries@.len() as int));
            assert forall|k: i64| #[trigger]
                history_map_of(histories@).contains_key(k) implies exists|j: int|
                    entries@.len() <= j < all.len() && all[j].0 == k by {
                if k != chat_id {
                    assert(history_map_of(prev).contains_key(k));
                } else {
                    assert(all[n].0 == k);
                }
            }
            assert forall|j: int| entries@.len() <= j < all.len() implies
                #[trigger] history_map_of(histories@).contains_key(all[j].0) by {
                if j != n {
                    assert(history_map_of(prev).contains_key(all[j].0));
                }
            }
        }
        assert forall|k: i64| #[trigger] self.contexts().contains_key(k) implies history_map_of(
            histories@,
        ).contains_key(k) by {
            let j = choose|j: int| 0 <= j < all.len() && all[j].0 == k;
            assert(all[j].0 == k);
        }
        assert(history_map_of(histories@) =~= self.contexts());
        Snapshot { counters, histories }
    }
}

/// The same messages, in the same order, held in a deque.
fn deque_of(v: Vec<ChatMessage>) -> (r: VecDeque<ChatMessage>)
    ensures
        r@ == v@,
{
    let mut v = v;
    let ghost all = v@;
    let mut r: VecDeque<ChatMessage> = VecDeque::new();
    while v.len() > 0
        invariant
            r@ + v@ == all,
        decreases v@.len(),
    {
        let m = v.remove(0);
        assert(r@.push(m) + v@ =~= all);
        r.push_back(m);
    }
    assert(r@ =~= all);
    r
}

impl AppState {
    /// A store holding the snapshot's counters and buffers, with no tracked
    /// notification.
    pub fn from_snapshot(snap: Snapshot) -> (r: AppState)
        ensures
            r.counts() == counter_map_of(snap.counters@),
            r.contexts() == history_map_of(snap.histories@),
            r.notices() == Map::<(i64, u64), i32>::empty(),
    {
        let mut r = AppState::new();
        let Snapshot { counters, histories } = snap;
        let mut i: usize = 0;
        while i < counters.len()
            invariant
                i <= counters@.len(),
                r.counts() == counter_map_of(counters@.subrange(0, i as int)),
                r.contexts() == Map::<i64, Seq<ChatMessage>>::empty(),
                r.notices() == Map::<(i64, u64), i32>::empty(),
            decreases counters@.len() - i,
        {
            let c = counters[i];
            counters_insert(&mut r.counters, (c.chat_id, c.user_id), c.count);
            assert(counters@.subrange(0, i + 1).drop_last() =~= counters@.subrange(0, i as int));
            i += 1;
        }
        assert(counters@.subrange(0, counters@.len() as int) =~= counters@);
        let mut rest = histories;
        let ghost all = rest@;
        let ghost mut done: int = 0;
        while rest.len() > 0
            invariant
                0 <= done <= all.len(),
                rest@ == all.subrange(done, all.len() as int),
                r.contexts() == history_map_of(all.subrange(0, done)),
                r.counts() == counter_map_of(counters@),
                r.notices() == Map::<(i64, u64), i32>::empty(),
            decreases rest@.len(),
        {
            let h = rest.remove(0);
            assert(h == all[done]);
            let ChatHistory { chat_id, messages } = h;
            let q = deque_of(messages);
            history_insert(&mut r.message_history, chat_id, q);
            assert(all.subrange(0, done + 1).drop_last() =~= all.subrange(0, done));
            proof {
                done = done + 1;
            }
            assert(rest@ =~= all.subrange(done, all.len() as int));
        }
        assert(all.subrange(0, all.len() as int) =~= all);
        r
    }
}

/// Saving a store to a snapshot and building a store from that snapshot
/// gives back the same counters and the same context buffers.
pub proof fn lemma_snapshot_round_trip(saved: AppState, snap: Snapshot, loaded: AppState)
    requires
        counter_map_of(snap.counters@) == saved.counts(),
        history_map_of(snap.histories@) == saved.contexts(),
        loaded.counts() == counter_map_of(snap.counters@),
        loaded.contexts() == history_map_of(snap.histories@),
    ensures
        loaded.counts() == saved.counts(),
        loaded.contexts() == saved.contexts(),
        forall|chat: i64, user: u64| loaded.count_of(chat, user) == saved.count_of(chat, user),
        forall|chat: i64| loaded.context_of(chat) == saved.context_of(chat),
{
}

/// The counters after `n` increments of one key.
pub open spec fn incremented(m: Map<(i64, u64), u64>, key: (i64, u64), n: nat) -> Map<(i64, u64), u64>
    decreases n,
{
    if n == 0 {
        m
    } else {
        let prev = incremented(m, key, (n - 1) as nat);
        prev.insert(key, (count_in(prev, key) + 1) as u64)
    }
}

/// Starting from an absent (or zero) counter, the k-th increment returns k
/// and leaves the counter at k; other keys are untouched.
pub proof fn lemma_increments_count_up(m: Map<(i64, u64), u64>, key: (i64, u64), n: nat)
    requires
        count_in(m, key) == 0,
        n < u64::MAX,
    ensures
        forall|k: nat| k <= n ==> #[trigger] count_in(incremented(m, key, k), key) == k,
        forall|other: (i64, u64)|
            other != key ==> count_in(#[trigger] incremented(m, key, n), other) == count_in(
                m,
                other,
            ),
    decreases n,
{
    if n > 0 {
        lemma_increments_count_up(m, key, (n - 1) as nat);
        assert forall|k: nat| k <= n implies #[trigger] count_in(incremented(m, key, k), key)
            == k by {
            if k == n {
                let prev = incremented(m, key, (n - 1) as nat);
                assert(count_in(prev, key) == n - 1);
            }
        }
    }
}

/// The buffer after inserting `msgs` one by one into `start` with bound `max`.
pub open spec fn filled(start: Seq<ChatMessage>, msgs: Seq<ChatMessage>, max: nat) -> Seq<ChatMessage>
    decreases msgs.len(),
{
    if msgs.len() == 0 {
        start
    } else {
        keep_latest(filled(start, msgs.drop_last(), max).push(msgs.last()), max)
    }
}

proof fn lemma_keep_latest_push(s: Seq<ChatMessage>, x: ChatMessage, max: nat)
    ensures
        keep_latest(keep_latest(s, max).push(x), max) == keep_latest(s.push(x), max),
        keep_latest(s, max).len() <= max || s.len() <= max,
{
    let k = keep_latest(s, max);
    let t = s.push(x);
    if s.len() <= max {
        assert(k == s);
    } else {
        assert(k.len() == max);
        assert(k.push(x).len() == max + 1);
        assert(keep_latest(k.push(x), max) =~= k.push(x).subrange(1, max as int + 1));
        assert(keep_latest(t, max) =~= t.subrange(t.len() - max, t.len() as int));
        assert(k.push(x).subrange(1, max as int + 1) =~= t.subrange(t.len() - max, t.len() as int));
    }
}

/// After at least one insertion the buffer holds at most `max` messages, and
/// these are the last ones of the start buffer followed by the inserted ones;
/// when `max` or more were inserted, exactly the `max` most recent of them,
/// oldest first.
pub proof fn lemma_context_keeps_latest(start: Seq<ChatMessage>, msgs: Seq<ChatMessage>, max: nat)
    requires
        msgs.len() > 0,
    ensures
        filled(start, msgs, max).len() <= max,
        filled(start, msgs, max) == keep_latest(start + msgs, max),
        msgs.len() >= max ==> filled(start, msgs, max) == msgs.subrange(
            msgs.len() - max,
            msgs.len() as int,
        ),
    decreases msgs.len(),
{
    let prefix = msgs.drop_last();
    let x = msgs.last();
    let all = start + msgs;
    assert(all =~= (start + prefix).push(x));
    if prefix.len() == 0 {
        assert(filled(start, prefix, max) == start);
        assert(start + prefix =~= start);
    } else {
        lemma_context_keeps_latest(start, prefix, max);
        lemma_keep_latest_push(start + prefix, x, max);
    }
    assert(filled(start, msgs, max) == keep_latest(filled(start, prefix, max).push(x), max));
    assert(filled(start, msgs, max) == keep_latest(all, max));
    if msgs.len() >= max {
        assert(keep_latest(all, max) =~= msgs.subrange(msgs.len() - max, msgs.len() as int));
    }
}

/// Tracking then reading a notification gives the tracked id; removing then
/// reading gives none; removing an absent key changes nothing.
pub proof fn lemma_notification_records(m: Map<(i64, u64), i32>, key: (i64, u64), id: i32)
    ensures
        m.insert(key, id).contains_key(key) && m.insert(key, id)[key] == id,
        !m.remove(key).contains_key(key),
        !m.contains_key(key) ==> m.remove(key) == m,
{
    if !m.contains_key(key) {
        assert(m.remove(key) =~= m);
    }
}

/// The text under which a counter is persisted: the user's id, `:`, the
/// chat's id.
pub open spec fn key_text(chat_id: i64, user_id: u64) -> Seq<char> {
    decimal(user_id as nat) + seq![':'] + signed_decimal(chat_id as int)
}

/// The (chat, user) pair that a persisted counter key names.
pub open spec fn key_of_text(s: Seq<char>) -> Option<(i64, u64)> {
    if exists|k: int| first_colon_at(s, k) {
        let k = choose|k: int| first_colon_at(s, k);
        let user = u64_of_text(s.subrange(0, k));
        let chat = i64_of_text(s.subrange(k + 1, s.len() as int));
        if user is Some && chat is Some {
            Some((chat->Some_0, user->Some_0))
        } else {
            None
        }
    } else {
        None
    }
}

impl AppState {
    /// The text under which the counter of `user_id` in `chat_id` is
    /// persisted.
    pub fn key(chat_id: i64, user_id: u64) -> (r: String)
        ensures
            r@ == key_text(chat_id, user_id),
    {
        let mut r = decimal_text(user_id);
        r.append(":");
        proof {
            reveal_strlit(":");
        }
        let chat = signed_decimal_text(chat_id);
        r.append(chat.as_str());
        r
    }

    /// Reads a persisted counter key back into its (chat, user) pair.
    pub fn parse_key(s: &str) -> (r: Option<(i64, u64)>)
        ensures
            r == key_of_text(s@),
    {
        let n = s.unicode_len();
        let k = match find_colon(s) {
            Some(k) => k,
            None => {
                return None;
            },
        };
        let user = parse_u64(s.substring_char(0, k));
        let chat = parse_i64(s.substring_char(k + 1, n));
        match (user, chat) {
            (Some(u), Some(c)) => Some((c, u)),
            _ => None,
        }
    }
}

/// Reading back the persisted key of a counter gives its (chat, user) pair.
pub proof fn lemma_key_round_trip(chat_id: i64, user_id: u64)
    ensures
        key_of_text(key_text(chat_id, user_id)) == Some((chat_id, user_id)),
{
    let s = key_text(chat_id, user_id);
    let u = decimal(user_id as nat);
    let k = u.len() as int;
    lemma_decimal_round_trip(user_id as nat);
    lemma_unsigned_decimal_round_trip(user_id);
    lemma_signed_decimal_round_trip(chat_id);
    assert forall|j: int| 0 <= j < k implies s[j] != ':' by {
        assert(s[j] == u[j]);
    }
    assert(first_colon_at(s, k));
    let k2 = choose|k2: int| first_colon_at(s, k2);
    if k2 < k {
        assert(s[k2] == u[k2]);
    } else if k2 > k {
        assert(s[k] == ':');
    }
    assert(s.subrange(0, k) =~= u);
    assert(s.subrange(k + 1, s.len() as int) =~= signed_decimal(chat_id as int));
}

} // verus!
