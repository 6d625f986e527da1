//! Which session the log lines of the app are attributed to.
use vstd::prelude::*;

use crate::text::push_str;

verus! {

/// The session that log lines are attributed to: the last one started, until it is cleared.
pub struct ActiveSession {
    id: Option<String>,
}

impl View for ActiveSession {
    type V = Option<Seq<char>>;

    closed spec fn view(&self) -> Option<Seq<char>> {
        match self.id {
            Some(s) => Some(s@),
            None => None,
        }
    }
}

/// The field that tags a log line with the session it belongs to.
pub open spec fn session_field(active: Option<Seq<char>>) -> Seq<char> {
    match active {
        Some(id) => "[session="@ + id + "]"@,
        None => Seq::empty(),
    }
}

impl ActiveSession {
    /// No session yet.
    pub fn new() -> (a: ActiveSession)
        ensures
            a@ is None,
    {
        ActiveSession { id: None }
    }
}

/// Attributes what follows to `session_id`, replacing the session before it.
pub fn set_active_session(active: &mut ActiveSession, session_id: &str)
    ensures
        final(active)@ == Some(session_id@),
{
    active.id = Some(session_id.to_owned());
}

/// Attributes what follows to no session.
pub fn clear_active_session(active: &mut ActiveSession)
    ensures
        final(active)@ is None,
{
    active.id = None;
}

/// The session lines are attributed to.
pub fn active_session_tag(active: &ActiveSession) -> (r: Option<String>)
    ensures
        match r {
            Some(s) => active@ == Some(s@),
            None => active@ is None,
        },
{
    match &active.id {
        Some(s) => Some(s.clone()),
        None => None,
    }
}

/// `[session=<id>]` for the session lines are attributed to; empty when there is none.
pub fn active_session_field(active: &ActiveSession) -> (r: String)
    ensures
        r@ == session_field(active@),
{
    let mut field = String::new();
    if let Some(id) = &active.id {
        push_str(&mut field, "[session=");
        push_str(&mut field, id.as_str());
        push_str(&mut field, "]");
    }
    field
}

} // verus!
