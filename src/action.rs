//! Follow-up operator actions on a moderation prompt: parsing the action
//! token, authorizing the actor and applying the outcome to the store.
use crate::state::AppState;
use crate::text::{find_colon, first_colon_at, parse_u64, u64_of_text};
use vstd::prelude::*;

verus! {

/// What an operator asks to do with a moderated user.
#[derive(Clone, Copy, PartialEq, Eq, Structural, Debug)]
pub enum ActionVerb {
    /// Lift the restriction: for trusted users.
    Dismiss,
    /// Ban the user for good: for administrators.
    Kick,
}

/// Why an action was refused or did not complete.
#[derive(Clone, Copy, PartialEq, Eq, Structural, Debug)]
pub enum Denial {
    NoData,
    MessageNotFound,
    InvalidData,
    InvalidUserId,
    UnknownAction,
    NotTrusted,
    PermissionCheckFailed,
    NotAdmin,
    UnbanFailed,
    KickFailed,
}

/// The text shown to an actor whose action was refused.
pub open spec fn denial_text(d: Denial) -> Seq<char> {
    match d {
        Denial::NoData => "No callback data"@,
        Denial::MessageNotFound => "Message not found"@,
        Denial::InvalidData => "Invalid callback data"@,
        Denial::InvalidUserId => "Invalid user ID"@,
        Denial::UnknownAction => "Unknown action"@,
        Denial::NotTrusted => "You must be a trusted user to dismiss this action"@,
        Denial::PermissionCheckFailed => "Failed to verify permissions"@,
        Denial::NotAdmin => "Only administrators can kick users"@,
        Denial::UnbanFailed => "Failed to unban user"@,
        Denial::KickFailed => "Failed to kick user"@,
    }
}

impl Denial {
    /// The text shown to the actor.
    pub fn message(&self) -> (r: &'static str)
        ensures
            r@ == denial_text(*self),
    {
        match self {
            Denial::NoData => "No callback data",
            Denial::MessageNotFound => "Message not found",
            Denial::InvalidData => "Invalid callback data",
            Denial::InvalidUserId => "Invalid user ID",
            Denial::UnknownAction => "Unknown action",
            Denial::NotTrusted => "You must be a trusted user to dismiss this action",
            Denial::PermissionCheckFailed => "Failed to verify permissions",
            Denial::NotAdmin => "Only administrators can kick users",
            Denial::UnbanFailed => "Failed to unban user",
            Denial::KickFailed => "Failed to kick user",
        }
    }
}

/// The action a token denotes: the text before its first `:` names the verb,
/// the text after it is the target user's id.
pub open spec fn action_of_text(s: Seq<char>) -> Result<(ActionVerb, u64), Denial> {
    if exists|k: int| first_colon_at(s, k) {
        let k = choose|k: int| first_colon_at(s, k);
        let verb = s.subrange(0, k);
        let id = u64_of_text(s.subrange(k + 1, s.len() as int));
        if id is None {
            Err(Denial::InvalidUserId)
        } else if verb == "dismiss"@ {
            Ok((ActionVerb::Dismiss, id->Some_0))
        } else if verb == "kick"@ {
            Ok((ActionVerb::Kick, id->Some_0))
        } else {
            Err(Denial::UnknownAction)
        }
    } else {
        Err(Denial::InvalidData)
    }
}

fn same_text(a: &str, b: &str) -> (r: bool)
    ensures
        r == (a@ == b@),
{
    let n = a.unicode_len();
    if n != b.unicode_len() {
        return false;
    }
    let mut i: usize = 0;
    while i < n
        invariant
            i <= n,
            n == a@.len(),
            n == b@.len(),
            forall|j: int| 0 <= j < i ==> a@[j] == b@[j],
        decreases n - i,
    {
        if a.get_char(i) != b.get_char(i) {
            return false;
        }
        i += 1;
    }
    assert(a@ =~= b@);
    true
}

/// Reads an action token of the shape `verb:user_id`.
pub fn parse_action(data: &str) -> (r: Result<(ActionVerb, u64), Denial>)
    ensures
        r == action_of_text(data@),
{
    let n = data.unicode_len();
    let k = match find_colon(data) {
        Some(k) => k,
        None => {
            return Err(Denial::InvalidData);
        },
    };
    let verb = data.substring_char(0, k);
    let id_text = data.substring_char(k + 1, n);
    match parse_u64(id_text) {
        None => Err(Denial::InvalidUserId),
        Some(id) => {
            if same_text(verb, "dismiss") {
                Ok((ActionVerb::Dismiss, id))
            } else if same_text(verb, "kick") {
                Ok((ActionVerb::Kick, id))
            } else {
                Err(Denial::UnknownAction)
            }
        },
    }
}

/// The next step of resolving an action once the actor has been checked.
#[derive(Clone, Copy, PartialEq, Eq, Structural, Debug)]
pub enum ActionStep {
    /// Refused; nothing is to change.
    Deny(Denial),
    /// Restore the target's permissions in the chat.
    Unmute { target: u64 },
    /// Ban the target from the chat.
    Ban { target: u64 },
}

/// A dismissal is allowed exactly when the actor's counter in the chat
/// exceeds the moderation threshold.
pub open spec fn dismiss_step(actor_count: nat, threshold: u64, target: u64) -> ActionStep {
    if actor_count > threshold {
        ActionStep::Unmute { target }
    } else {
        ActionStep::Deny(Denial::NotTrusted)
    }
}

/// A kick is allowed exactly when the actor is among the chat's
/// administrators, as listed at the time of the request.
pub open spec fn kick_step(admins: Option<Seq<u64>>, actor: u64, target: u64) -> ActionStep {
    match admins {
        None => ActionStep::Deny(Denial::PermissionCheckFailed),
        Some(a) => if a.contains(actor) {
            ActionStep::Ban { target }
        } else {
            ActionStep::Deny(Denial::NotAdmin)
        },
    }
}

/// Checks whether `actor` may dismiss the moderation of `target`.
pub fn authorize_dismiss(
    state: &AppState,
    threshold: u64,
    chat_id: i64,
    actor: u64,
    target: u64,
) -> (r: ActionStep)
    ensures
        r == dismiss_step(state.count_of(chat_id, actor), threshold, target),
{
    if state.is_trusted_user(chat_id, actor, threshold) {
        ActionStep::Unmute { target }
    } else {
        ActionStep::Deny(Denial::NotTrusted)
    }
}

fn lists_user(users: &Vec<u64>, user: u64) -> (r: bool)
    ensures
        r == users@.contains(user),
{
    let mut i: usize = 0;
    while i < users.len()
        invariant
            i <= users@.len(),
            forall|j: int| 0 <= j < i ==> users@[j] != user,
        decreases users@.len() - i,
    {
        if users[i] == user {
            assert(users@[i as int] == user);
            return true;
        }
        i += 1;
    }
    false
}

/// Checks whether `actor` may kick `target`, given the chat's administrators
/// (`None` where they could not be listed).
pub fn authorize_kick(admins: Option<&Vec<u64>>, actor: u64, target: u64) -> (r: ActionStep)
    ensures
        r == kick_step(
            match admins {
                Some(a) => Some(a@),
                None => None,
            },
            actor,
            target,
        ),
{
    match admins {
        None => ActionStep::Deny(Denial::PermissionCheckFailed),
        Some(a) => {
            if lists_user(a, actor) {
                ActionStep::Ban { target }
            } else {
                ActionStep::Deny(Denial::NotAdmin)
            }
        },
    }
}

/// The message shown once an action has been applied.
pub open spec fn success_text(step: ActionStep) -> Seq<char> {
    match step {
        ActionStep::Ban { .. } => "User has been permanently kicked"@,
        _ => "User has been unbanned"@,
    }
}

/// The outcome of an action step, given whether the platform carried out the
/// restriction change (`applied`).
pub open spec fn conclusion(step: ActionStep, applied: bool) -> Result<Seq<char>, Denial> {
    match step {
        ActionStep::Deny(d) => Err(d),
        ActionStep::Unmute { .. } => if applied {
            Ok(success_text(step))
        } else {
            Err(Denial::UnbanFailed)
        },
        ActionStep::Ban { .. } => if applied {
            Ok(success_text(step))
        } else {
            Err(Denial::KickFailed)
        },
    }
}

/// Finishes an action: where it was allowed and applied, the target's
/// prompt stops being tracked; otherwise the store is left as it was.
pub fn conclude_action(state: &mut AppState, chat_id: i64, step: ActionStep, applied: bool) -> (r:
    Result<&'static str, Denial>)
    ensures
        match (r, conclusion(step, applied)) {
            (Ok(t), Ok(u)) => t@ == u,
            (Err(d), Err(e)) => d == e,
            _ => false,
        },
        final(state).counts() == old(state).counts(),
        final(state).contexts() == old(state).contexts(),
        final(state).notices() == (match (step, applied) {
            (ActionStep::Unmute { target }, true) => old(state).notices().remove((chat_id, target)),
            (ActionStep::Ban { target }, true) => old(state).notices().remove((chat_id, target)),
            _ => old(state).notices(),
        }),
{
    match step {
        ActionStep::Deny(d) => Err(d),
        ActionStep::Unmute { target } => {
            if applied {
                state.remove_notification(chat_id, target);
                Ok("User has been unbanned")
            } else {
                Err(Denial::UnbanFailed)
            }
        },
        ActionStep::Ban { target } => {
            if applied {
                state.remove_notification(chat_id, target);
                Ok("User has been permanently kicked")
            } else {
                Err(Denial::KickFailed)
            }
        },
    }
}

/// A dismissal goes through exactly when the actor's counter exceeds the
/// threshold and the platform applies it; a kick exactly when the actor is
/// a listed administrator and the platform applies it. A refused action
/// leaves the store unchanged.
pub proof fn lemma_action_authorization(
    actor_count: nat,
    threshold: u64,
    admins: Option<Seq<u64>>,
    actor: u64,
    target: u64,
    applied: bool,
)
    ensures
        conclusion(dismiss_step(actor_count, threshold, target), applied) is Ok <==> (actor_count
            > threshold && applied),
        conclusion(kick_step(admins, actor, target), applied) is Ok <==> (admins is Some
            && admins->Some_0.contains(actor) && applied),
        actor_count <= threshold ==> dismiss_step(actor_count, threshold, target) is Deny,
        !(admins is Some && admins->Some_0.contains(actor)) ==> kick_step(
            admins,
            actor,
            target,
        ) is Deny,
{
}

} // verus!
