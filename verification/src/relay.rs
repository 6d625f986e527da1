//! Talking to the assistant relay: where requests go, what a chat message carries, and what
//! the relay's answer means.
use vstd::prelude::*;

use crate::crypto::envelope::{json_quote, json_string};
use crate::pairing::{parse_url, url_scheme_host};
use crate::text::{chars_of, push_char, push_str, trim_end_char, trim_end_matches};

verus! {

#[derive(Debug, Clone, PartialEq, Eq)]
pub enum RelayError {
    NotConfigured,
    InvalidUrl(String),
    /// The request could not be made; the transport's message.
    Http(String),
    /// The relay answered with this status code and body.
    Status(u16, String),
}

pub open spec fn is_invalid_url(e: RelayError, base: Seq<char>) -> bool {
    e matches RelayError::InvalidUrl(u) && u@ == base
}

/// The address of `relative_path` on the relay at `base`: the base without trailing slashes,
/// which must be a non-empty http(s) URL, then the path with one leading slash.
pub open spec fn relay_endpoint(base: Seq<char>, relative_path: Seq<char>) -> Option<Seq<char>> {
    let b = trim_end_char(base, '/');
    if b.len() == 0 {
        None
    } else {
        match url_scheme_host(b) {
            Some((scheme, _)) => if scheme == "http"@ || scheme == "https"@ {
                Some(
                    b + if relative_path.len() > 0 && relative_path[0] == '/' {
                        relative_path
                    } else {
                        seq!['/'] + relative_path
                    },
                )
            } else {
                None
            },
            None => None,
        }
    }
}

pub fn build_url(base: &str, relative_path: &str) -> (r: Result<String, RelayError>)
    ensures
        match relay_endpoint(base@, relative_path@) {
            Some(u) => (r matches Ok(x) && x@ == u),
            None => (r matches Err(e) && is_invalid_url(e, base@)),
        },
{
    let trimmed_base = trim_end_matches(base, '/');
    if chars_of(trimmed_base.as_str()).len() == 0 {
        return Err(RelayError::InvalidUrl(base.to_owned()));
    }
    let scheme = match parse_url(trimmed_base.as_str()) {
        Some((scheme, _)) => scheme,
        None => {
            return Err(RelayError::InvalidUrl(base.to_owned()));
        },
    };
    if !crate::keyed::str_eq(scheme.as_str(), "http") && !crate::keyed::str_eq(scheme.as_str(), "https") {
        return Err(RelayError::InvalidUrl(base.to_owned()));
    }
    let path = chars_of(relative_path);
    let mut url = trimmed_base;
    if !(path.len() > 0 && path[0] == '/') {
        push_char(&mut url, '/');
    }
    push_str(&mut url, relative_path);
    Ok(url)
}

/// The JSON body that hands a chat message to the relay (keys in alphabetical order, as the
/// JSON object of the crate it is written with keeps them).
pub open spec fn chat_body(
    task_id: Seq<char>,
    session_id: Seq<char>,
    text: Seq<char>,
    parent: Option<Seq<char>>,
    occurred_at: Seq<char>,
) -> Seq<char> {
    let payload = match parent {
        Some(p) => "{\"parent_message_id\":"@ + json_string(p) + ",\"text\":"@ + json_string(text)
            + ",\"user_message_id\":"@ + json_string(p) + "}"@,
        None => "{\"text\":"@ + json_string(text) + "}"@,
    };
    "{\"occurred_at\":"@ + json_string(occurred_at) + ",\"payload\":"@ + payload
        + ",\"reason\":\"chat_message\",\"session_id\":"@ + json_string(session_id)
        + ",\"task_id\":"@ + json_string(task_id) + "}"@
}

/// The body of a chat message for the relay: the message `text` of task `task_id` in relay
/// session `session_id`, answering `parent` if given, sent at `occurred_at`.
pub fn session_chat_body(
    task_id: &str,
    session_id: &str,
    text: &str,
    parent: Option<&str>,
    occurred_at: &str,
) -> (body: String)
    ensures
        body@ == chat_body(
            task_id@,
            session_id@,
            text@,
            match parent {
                Some(p) => Some(p@),
                None => None,
            },
            occurred_at@,
        ),
{
    let mut b = String::new();
    push_str(&mut b, "{\"occurred_at\":");
    push_str(&mut b, json_quote(occurred_at).as_str());
    push_str(&mut b, ",\"payload\":");
    match parent {
        Some(p) => {
            push_str(&mut b, "{\"parent_message_id\":");
            push_str(&mut b, json_quote(p).as_str());
            push_str(&mut b, ",\"text\":");
            push_str(&mut b, json_quote(text).as_str());
            push_str(&mut b, ",\"user_message_id\":");
            push_str(&mut b, json_quote(p).as_str());
            push_str(&mut b, "}");
        },
        None => {
            push_str(&mut b, "{\"text\":");
            push_str(&mut b, json_quote(text).as_str());
            push_str(&mut b, "}");
        },
    }
    push_str(&mut b, ",\"reason\":\"chat_message\",\"session_id\":");
    push_str(&mut b, json_quote(session_id).as_str());
    push_str(&mut b, ",\"task_id\":");
    push_str(&mut b, json_quote(task_id).as_str());
    push_str(&mut b, "}");
    b
}

/// The relay is asked to be left alone for a moment (429, 503).
pub open spec fn busy_status(status: u16) -> bool {
    status == 429 || status == 503
}

pub fn relay_is_busy(status: u16) -> (r: bool)
    ensures
        r == busy_status(status),
{
    status == 429 || status == 503
}

/// What the relay's answer to a chat message means: accepted on any 2xx; a busy relay is
/// reported as 429 whichever busy status it gave; any other status is reported as given.
pub fn incoming_result(status: u16, body: String) -> (r: Result<(), RelayError>)
    ensures
        200 <= status <= 299 ==> r is Ok,
        !(200 <= status <= 299) && busy_status(status) ==> (r matches Err(RelayError::Status(
            s,
            b,
        )) && s == 429 && b@ == body@),
        !(200 <= status <= 299) && !busy_status(status) ==> (r matches Err(RelayError::Status(
            s,
            b,
        )) && s == status && b@ == body@),
{
    if 200 <= status && status <= 299 {
        Ok(())
    } else if relay_is_busy(status) {
        Err(RelayError::Status(429, body))
    } else {
        Err(RelayError::Status(status, body))
    }
}

} // verus!
