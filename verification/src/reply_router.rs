//! Routing of assistant replies to the session they belong to.
pub mod pending;
pub mod probe;
pub mod routing;

pub mod sink;

use vstd::prelude::*;

verus! {

/// A chat message written by the assistant, as the router persists and announces it.
/// (`tool_calls` is never set by the router; the model name is what its tool payload holds.)
#[derive(Clone, Debug, PartialEq, Eq)]
pub struct ChatMessagePayload {
    pub id: String,
    pub session_id: String,
    pub role: String,
    pub content: String,
    pub status: String,
    pub tool_result_model: Option<String>,
    pub parent_message_id: Option<String>,
    pub suggestion_id: Option<String>,
    pub error_code: Option<String>,
    pub error_message: Option<String>,
    pub created_at: String,
    pub updated_at: String,
    pub finalized_at: Option<String>,
}

/// The event that announces an errored task.
#[derive(Clone, Debug, PartialEq, Eq)]
pub struct ErroredEvent {
    pub task_id: String,
    pub session_id: String,
    pub user_message_id: Option<String>,
    pub error_code: Option<String>,
    pub error_message: Option<String>,
}


pub open spec fn opt_view(o: Option<String>) -> Option<Seq<char>> {
    match o {
        Some(s) => Some(s@),
        None => None,
    }
}

/// `Option<String>::clone`.
pub fn clone_opt(o: &Option<String>) -> (r: Option<String>)
    ensures
        opt_view(r) == opt_view(*o),
{
    match o {
        Some(s) => Some(s.clone()),
        None => None,
    }
}

/// What a chat message says, character by character.
pub struct MessageView {
    pub id: Seq<char>,
    pub session_id: Seq<char>,
    pub role: Seq<char>,
    pub content: Seq<char>,
    pub status: Seq<char>,
    pub tool_result_model: Option<Seq<char>>,
    pub parent_message_id: Option<Seq<char>>,
    pub suggestion_id: Option<Seq<char>>,
    pub error_code: Option<Seq<char>>,
    pub error_message: Option<Seq<char>>,
    pub created_at: Seq<char>,
    pub updated_at: Seq<char>,
    pub finalized_at: Option<Seq<char>>,
}

impl View for ChatMessagePayload {
    type V = MessageView;

    open spec fn view(&self) -> MessageView {
        MessageView {
            id: self.id@,
            session_id: self.session_id@,
            role: self.role@,
            content: self.content@,
            status: self.status@,
            tool_result_model: opt_view(self.tool_result_model),
            parent_message_id: opt_view(self.parent_message_id),
            suggestion_id: opt_view(self.suggestion_id),
            error_code: opt_view(self.error_code),
            error_message: opt_view(self.error_message),
            created_at: self.created_at@,
            updated_at: self.updated_at@,
            finalized_at: opt_view(self.finalized_at),
        }
    }
}

pub struct ErroredView {
    pub task_id: Seq<char>,
    pub session_id: Seq<char>,
    pub user_message_id: Option<Seq<char>>,
    pub error_code: Option<Seq<char>>,
    pub error_message: Option<Seq<char>>,
}

impl View for ErroredEvent {
    type V = ErroredView;

    open spec fn view(&self) -> ErroredView {
        ErroredView {
            task_id: self.task_id@,
            session_id: self.session_id@,
            user_message_id: opt_view(self.user_message_id),
            error_code: opt_view(self.error_code),
            error_message: opt_view(self.error_message),
        }
    }
}

} // verus!
