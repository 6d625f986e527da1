//! Where routed replies go: the application's side of the router.
use vstd::prelude::*;

use crate::keyed::str_eq;
use crate::reply_router::pending::ReserveResult;
use crate::reply_router::probe::ProbeOutcome;
use crate::reply_router::{ChatMessagePayload, ErroredEvent};

verus! {

/// The statuses with which a reply ends the turn that produced the session notes.
pub open spec fn settles_turn(status: Seq<char>) -> bool {
    ||| status == "completed"@
    ||| status == "errored"@
    ||| status == "cancelled"@
    ||| status == "silent"@
    ||| status == "message"@
}

pub open spec fn opt_str_view(o: Option<&str>) -> Option<Seq<char>> {
    match o {
        Some(s) => Some(s@),
        None => None,
    }
}

fn opt_str_eq(a: Option<&str>, b: Option<&str>) -> (r: bool)
    ensures
        r == (opt_str_view(a) == opt_str_view(b)),
{
    match (a, b) {
        (Some(x), Some(y)) => str_eq(x, y),
        (None, None) => true,
        _ => false,
    }
}

/// Whether a reply with `status`, answering `parent_message_id`, settles the notes turn of a
/// session whose notes root (committed or pending regeneration) is given.
pub fn is_notes_turn_settled(
    status: &str,
    notes_root_message_id: Option<&str>,
    notes_pending_root_message_id: Option<&str>,
    parent_message_id: Option<&str>,
) -> (r: bool)
    ensures
        r == (settles_turn(status@) && parent_message_id is Some && (opt_str_view(
            notes_root_message_id,
        ) == opt_str_view(parent_message_id) || opt_str_view(notes_pending_root_message_id)
            == opt_str_view(parent_message_id))),
{
    let settling = str_eq(status, "completed") || str_eq(status, "errored") || str_eq(
        status,
        "cancelled",
    ) || str_eq(status, "silent") || str_eq(status, "message");
    settling && parent_message_id.is_some() && (opt_str_eq(
        notes_root_message_id,
        parent_message_id,
    ) || opt_str_eq(notes_pending_root_message_id, parent_message_id))
}

/// The application's side of reply routing: session state, the pending registry, the
/// message store, the live chat turns, and event emission.
pub trait ReplySink {
    fn current_session_id(&self) -> Option<String>;

    fn session_known(&self, session_id: &str) -> bool;

    fn append_message(&self, message: ChatMessagePayload) -> bool;

    fn emit_created(&self, payload: &ChatMessagePayload);

    fn emit_errored(&self, payload: &ErroredEvent);

    fn reserve_terminal(&self, task_id: &str, session_id: &str) -> ReserveResult;

    fn release_terminal(&self, task_id: &str);

    fn complete_terminal(&self, task_id: &str);

    fn touch_pending(&self, task_id: &str) {
    }

    /// Without a registry to check against, every task is taken to be bound to the session.
    fn validate_task_session(&self, task_id: &str, session_id: &str) -> (r: ReserveResult)
        default_ensures
            r == ReserveResult::Reserved,
    {
        ReserveResult::Reserved
    }

    /// Without probes, no reply answers one.
    fn resolve_probe(&self, task_id: &str, outcome: ProbeOutcome) -> (r: bool)
        default_ensures
            !r,
    {
        false
    }

    /// Without a registry, no task is known to belong to a session.
    fn task_session(&self, task_id: &str) -> (r: Option<String>)
        default_ensures
            r is None,
    {
        None
    }

    /// Without live turns, no message part is taken by one.
    fn route_turn_part(&self, task_id: &str, text: &str) -> (r: bool)
        default_ensures
            !r,
    {
        false
    }

    /// Without live turns, no streamed text is taken by one.
    fn route_turn_text_delta(&self, task_id: &str, delta: &str) -> (r: bool)
        default_ensures
            !r,
    {
        false
    }

    /// Without live turns, none has been retired.
    fn turn_is_retired(&self, task_id: &str) -> (r: bool)
        default_ensures
            !r,
    {
        false
    }

    /// Without live turns, no outcome is forwarded to one.
    fn forward_to_turn(
        &self,
        task_id: &str,
        status: &str,
        reply_text: Option<&str>,
        error_code: Option<&str>,
        error_message: Option<&str>,
    ) -> (r: bool)
        default_ensures
            !r,
    {
        false
    }
}

} // verus!
