use base64::Engine;
use std::cell::RefCell;

use stagewhisper::chat_reply_listener::{
    advertised_callback_url, bearer_matches, generate_callback_token, handle_reply,
    listener_response, PendingReplies,
};
use stagewhisper::reply_router::pending::ReserveResult;
use stagewhisper::reply_router::probe::ProbeOutcome;
use stagewhisper::reply_router::routing::{DropReason, ReplyBody, ReplyDisposition};
use stagewhisper::reply_router::sink::ReplySink;
use stagewhisper::reply_router::{ChatMessagePayload, ErroredEvent};

const TEST_TASK_ID: &str = "11111111-2222-3333-4444-555555555555";

#[test]
fn chat_reply_listener_reserve_then_complete_is_one_shot() {
    let mut pending = PendingReplies::default();
    pending.register(TEST_TASK_ID.to_string(), "sess-1".to_string());
    assert_eq!(pending.reserve(TEST_TASK_ID, "sess-1"), ReserveResult::Reserved);
    assert_eq!(pending.reserve(TEST_TASK_ID, "sess-1"), ReserveResult::Duplicate);
    pending.complete(TEST_TASK_ID);
    assert_eq!(pending.reserve(TEST_TASK_ID, "sess-1"), ReserveResult::Duplicate);
}

#[test]
fn chat_reply_listener_reserve_rejects_unregistered_task() {
    let mut pending = PendingReplies::default();
    assert_eq!(
        pending.reserve(TEST_TASK_ID, "sess-1"),
        ReserveResult::Unregistered
    );
    pending.register(TEST_TASK_ID.to_string(), "sess-1".to_string());
    assert_eq!(pending.reserve(TEST_TASK_ID, "sess-1"), ReserveResult::Reserved);
    pending.complete(TEST_TASK_ID);
    assert_eq!(pending.reserve(TEST_TASK_ID, "sess-1"), ReserveResult::Duplicate);
}

#[test]
fn chat_reply_listener_reserve_rejects_session_mismatch() {
    let mut pending = PendingReplies::default();
    pending.register(TEST_TASK_ID.to_string(), "sess-1".to_string());
    assert_eq!(
        pending.reserve(TEST_TASK_ID, "sess-2"),
        ReserveResult::SessionMismatch
    );
    assert_eq!(pending.reserve(TEST_TASK_ID, "sess-1"), ReserveResult::Reserved);
}

#[test]
fn chat_reply_listener_release_returns_task_to_pending_for_retry() {
    let mut pending = PendingReplies::default();
    pending.register(TEST_TASK_ID.to_string(), "sess-1".to_string());
    assert_eq!(pending.reserve(TEST_TASK_ID, "sess-1"), ReserveResult::Reserved);
    pending.release(TEST_TASK_ID);
    assert_eq!(pending.reserve(TEST_TASK_ID, "sess-1"), ReserveResult::Reserved);
    pending.complete(TEST_TASK_ID);
    assert_eq!(pending.reserve(TEST_TASK_ID, "sess-1"), ReserveResult::Duplicate);
}

#[test]
fn token_is_32_bytes_base64url() {
    let token = generate_callback_token();
    assert_eq!(token.len(), 43);
    let decoded = base64::engine::general_purpose::URL_SAFE_NO_PAD
        .decode(&token)
        .unwrap();
    assert_eq!(decoded.len(), 32);
    assert_ne!(generate_callback_token(), token);
}

#[test]
fn the_bearer_must_match_exactly() {
    assert!(bearer_matches(Some("Bearer secret"), "secret"));
    assert!(!bearer_matches(Some("Bearer secret2"), "secret"));
    assert!(!bearer_matches(Some("bearer secret"), "secret"));
    assert!(!bearer_matches(Some("secret"), "secret"));
    assert!(!bearer_matches(None, "secret"));
}

#[test]
fn the_advertised_url_is_trimmed_and_dropped_when_empty() {
    assert_eq!(
        advertised_callback_url(Some("  http://host:9/  ")),
        Some("http://host:9".to_string())
    );
    assert_eq!(advertised_callback_url(Some(" / ")), None);
    assert_eq!(advertised_callback_url(None), None);
}

#[test]
fn every_disposition_has_its_http_answer() {
    assert_eq!(listener_response(ReplyDisposition::Accepted), (200, "{\"ok\":true}".to_string()));
    assert_eq!(listener_response(ReplyDisposition::UnregisteredTask).0, 410);
    assert_eq!(listener_response(ReplyDisposition::SessionMismatch).0, 409);
    assert_eq!(listener_response(ReplyDisposition::PersistFailed).0, 500);
    assert_eq!(listener_response(ReplyDisposition::InvalidStatus).0, 400);
    let (code, body) = listener_response(ReplyDisposition::Dropped(DropReason::SessionEnded));
    assert_eq!(code, 200);
    let v: serde_json::Value = serde_json::from_str(&body).unwrap();
    assert_eq!(v["reason"], "session_ended");
    assert_eq!(v["ignored"], true);
}

struct MockSink {
    session_id: Option<String>,
    known_session: Option<String>,
    appended: RefCell<Vec<ChatMessagePayload>>,
    created: RefCell<Vec<ChatMessagePayload>>,
    errored: RefCell<Vec<ErroredEvent>>,
    finalized: RefCell<Vec<String>>,
    reserved: RefCell<Vec<String>>,
    unregistered: RefCell<Vec<String>>,
    expected_session: RefCell<Vec<(String, String)>>,
    armed_probes: RefCell<Vec<String>>,
    resolved_probes: RefCell<Vec<ProbeOutcome>>,
    append_ok: RefCell<bool>,
}

impl MockSink {
    fn new(session_id: Option<&str>) -> Self {
        MockSink {
            session_id: session_id.map(str::to_string),
            known_session: None,
            appended: RefCell::new(Vec::new()),
            created: RefCell::new(Vec::new()),
            errored: RefCell::new(Vec::new()),
            finalized: RefCell::new(Vec::new()),
            reserved: RefCell::new(Vec::new()),
            unregistered: RefCell::new(Vec::new()),
            expected_session: RefCell::new(Vec::new()),
            armed_probes: RefCell::new(Vec::new()),
            resolved_probes: RefCell::new(Vec::new()),
            append_ok: RefCell::new(true),
        }
    }

    fn new_stored(known_session: &str) -> Self {
        MockSink { known_session: Some(known_session.to_string()), ..MockSink::new(None) }
    }

    fn arm_probe(&self, task_id: &str) {
        self.armed_probes.borrow_mut().push(task_id.to_string());
    }

    fn fail_appends(&self) {
        *self.append_ok.borrow_mut() = false;
    }

    fn allow_appends(&self) {
        *self.append_ok.borrow_mut() = true;
    }

    fn mark_unregistered(&self, task_id: &str) {
        self.unregistered.borrow_mut().push(task_id.to_string());
    }

    fn bind_session(&self, task_id: &str, session_id: &str) {
        self.expected_session.borrow_mut().push((task_id.to_string(), session_id.to_string()));
    }
}

impl ReplySink for MockSink {
    fn current_session_id(&self) -> Option<String> {
        self.session_id.clone()
    }
    fn session_known(&self, session_id: &str) -> bool {
        self.known_session.as_deref() == Some(session_id)
    }
    fn append_message(&self, message: ChatMessagePayload) -> bool {
        if !*self.append_ok.borrow() {
            return false;
        }
        let mut appended = self.appended.borrow_mut();
        if !appended.iter().any(|m| m.id == message.id) {
            appended.push(message);
        }
        true
    }
    fn emit_created(&self, payload: &ChatMessagePayload) {
        self.created.borrow_mut().push(payload.clone());
    }
    fn emit_errored(&self, payload: &ErroredEvent) {
        self.errored.borrow_mut().push(payload.clone());
    }
    fn reserve_terminal(&self, task_id: &str, session_id: &str) -> ReserveResult {
        if self.finalized.borrow().iter().any(|t| t == task_id) {
            return ReserveResult::Duplicate;
        }
        if self.unregistered.borrow().iter().any(|t| t == task_id) {
            return ReserveResult::Unregistered;
        }
        if let Some((_, expected)) =
            self.expected_session.borrow().iter().find(|(t, _)| t == task_id)
        {
            if expected != session_id {
                return ReserveResult::SessionMismatch;
            }
        }
        let mut reserved = self.reserved.borrow_mut();
        if reserved.iter().any(|t| t == task_id) {
            ReserveResult::Duplicate
        } else {
            reserved.push(task_id.to_string());
            ReserveResult::Reserved
        }
    }
    fn release_terminal(&self, task_id: &str) {
        self.reserved.borrow_mut().retain(|t| t != task_id);
    }
    fn complete_terminal(&self, task_id: &str) {
        self.reserved.borrow_mut().retain(|t| t != task_id);
        let mut finalized = self.finalized.borrow_mut();
        if !finalized.iter().any(|t| t == task_id) {
            finalized.push(task_id.to_string());
        }
    }
    fn resolve_probe(&self, task_id: &str, outcome: ProbeOutcome) -> bool {
        let mut armed = self.armed_probes.borrow_mut();
        if let Some(i) = armed.iter().position(|t| t == task_id) {
            armed.remove(i);
            self.resolved_probes.borrow_mut().push(outcome);
            true
        } else {
            false
        }
    }
}

fn body(session_id: &str, status: &str, text: Option<&str>) -> ReplyBody {
    ReplyBody {
        task_id: Some(TEST_TASK_ID.to_string()),
        session_id: session_id.to_string(),
        user_message_id: Some("umsg-1".to_string()),
        status: status.to_string(),
        message_id: None,
        reply_text: text.map(str::to_string),
        error_code: None,
        error_message: None,
        model: None,
        chunk: None,
    }
}

#[test]
fn valid_reply_appends_and_emits() {
    let sink = MockSink::new(Some("sess-1"));
    let (code, _) = handle_reply(
        &sink,
        "tok",
        Some("Bearer tok"),
        TEST_TASK_ID,
        body("sess-1", "completed", Some("hi")),
    );
    assert_eq!(code, 200);
    assert_eq!(sink.appended.borrow().len(), 1);
    assert_eq!(sink.appended.borrow()[0].id, TEST_TASK_ID);
    assert_eq!(sink.created.borrow().len(), 1);
    assert_eq!(sink.finalized.borrow().as_slice(), [TEST_TASK_ID.to_string()]);
}

#[test]
fn bad_bearer_rejected_401() {
    let sink = MockSink::new(Some("sess-1"));
    let (code, body_text) = handle_reply(
        &sink,
        "tok",
        Some("Bearer wrong"),
        TEST_TASK_ID,
        body("sess-1", "completed", Some("hi")),
    );
    assert_eq!(code, 401);
    assert_eq!(body_text, "{\"ok\":false}");
    assert!(sink.appended.borrow().is_empty());
}

#[test]
fn listener_message_status_is_appended_without_a_reservation() {
    let sink = MockSink::new(Some("sess-1"));
    let (code, _) = handle_reply(
        &sink,
        "tok",
        Some("Bearer tok"),
        TEST_TASK_ID,
        body("sess-1", "message", Some("cue")),
    );
    assert_eq!(code, 200);
    let appended = sink.appended.borrow();
    assert_eq!(appended.len(), 1);
    assert!(appended[0].id.starts_with(&format!("{TEST_TASK_ID}:msg:")));
    assert_eq!(appended[0].id.len(), TEST_TASK_ID.len() + 5 + 16);
    assert!(sink.finalized.borrow().is_empty());
    assert_eq!(sink.created.borrow().len(), 1);
}

#[test]
fn listener_refuses_stream_statuses() {
    let sink = MockSink::new(Some("sess-1"));
    let (code, text) = handle_reply(
        &sink,
        "tok",
        Some("Bearer tok"),
        TEST_TASK_ID,
        body("sess-1", "stream", None),
    );
    assert_eq!(code, 400);
    assert_eq!(text, "{\"error\":\"invalid status\",\"ok\":false}");
}

#[test]
fn listener_unregistered_terminal_is_gone_and_failed_persist_releases() {
    let sink = MockSink::new(Some("sess-1"));
    sink.mark_unregistered(TEST_TASK_ID);
    let (code, _) = handle_reply(&sink, "tok", Some("Bearer tok"), TEST_TASK_ID, body("sess-1", "completed", Some("x")));
    assert_eq!(code, 410);

    let sink = MockSink::new(Some("sess-1"));
    sink.fail_appends();
    let (code, _) = handle_reply(&sink, "tok", Some("Bearer tok"), TEST_TASK_ID, body("sess-1", "errored", None));
    assert_eq!(code, 500);
    assert!(sink.reserved.borrow().is_empty());
    assert!(sink.finalized.borrow().is_empty());
}

#[test]
fn listener_typing_is_acknowledged_and_probe_short_circuits() {
    let sink = MockSink::new(None);
    let (code, _) = handle_reply(&sink, "tok", Some("Bearer tok"), TEST_TASK_ID, body("other", "typing", None));
    assert_eq!(code, 200);

    let sink = MockSink::new(None);
    sink.arm_probe(TEST_TASK_ID);
    let (code, text) = handle_reply(&sink, "tok", Some("Bearer tok"), TEST_TASK_ID, body("unknown", "completed", Some("ok")));
    assert_eq!(code, 200);
    assert_eq!(text, "{\"ok\":true,\"probe\":true}");
}

fn reply(
    task_id: Option<&str>,
    session_id: &str,
    user_message_id: Option<&str>,
    status: &str,
    text: Option<&str>,
) -> ReplyBody {
    ReplyBody {
        task_id: task_id.map(str::to_string),
        session_id: session_id.to_string(),
        user_message_id: user_message_id.map(str::to_string),
        status: status.to_string(),
        message_id: None,
        reply_text: text.map(str::to_string),
        error_code: None,
        error_message: None,
        model: None,
        chunk: None,
    }
}

fn post(sink: &MockSink, token: Option<&str>, task_id: &str, b: ReplyBody) -> (u16, serde_json::Value) {
    let header = token.map(|t| format!("Bearer {t}"));
    let (code, text) = handle_reply(sink, "tok", header.as_deref(), task_id, b);
    (code, serde_json::from_str(&text).unwrap())
}

fn field<'a>(v: &'a serde_json::Value, k: &str) -> &'a serde_json::Value {
    v.get(k).unwrap_or(&serde_json::Value::Null)
}

#[test]
fn message_status_resolves_probe() {
    let sink = MockSink::new(None);
    sink.arm_probe(TEST_TASK_ID);
    let (code, v) = post(
        &sink,
        Some("tok"),
        TEST_TASK_ID,
        reply(Some(TEST_TASK_ID), "probe-session", None, "message", Some("ready when you are")),
    );
    assert_eq!(code, 200);
    assert_eq!(field(&v, "probe"), &serde_json::Value::Bool(true));
    let probes = sink.resolved_probes.borrow();
    assert_eq!(probes.len(), 1);
    assert_eq!(probes[0].status, "message");
}

#[test]
fn message_status_appends_during_session() {
    let sink = MockSink::new(Some("sess-1"));
    let (code, _) = post(
        &sink,
        Some("tok"),
        TEST_TASK_ID,
        reply(Some(TEST_TASK_ID), "sess-1", Some("umsg-1"), "message", Some("coaching cue")),
    );
    assert_eq!(code, 200);
    let appended = sink.appended.borrow();
    assert_eq!(appended.len(), 1);
    assert_eq!(appended[0].content, "coaching cue");
    assert_eq!(appended[0].role, "assistant");
    assert_eq!(appended[0].status, "completed");
    assert_eq!(appended[0].parent_message_id.as_deref(), Some("umsg-1"));
    assert_ne!(appended[0].id, TEST_TASK_ID);
    assert_eq!(sink.created.borrow().len(), 1);
}

#[test]
fn rotating_token_revokes_old_and_accepts_new() {
    let sink = MockSink::new(Some("sess-1"));
    let task_b = "66666666-7777-8888-9999-aaaaaaaaaaaa";
    let (accepted_old, _) = handle_reply(
        &sink,
        "old-token",
        Some("Bearer old-token"),
        TEST_TASK_ID,
        reply(Some(TEST_TASK_ID), "sess-1", None, "completed", Some("before")),
    );
    assert_eq!(accepted_old, 200);
    let (revoked, _) = handle_reply(
        &sink,
        "new-token",
        Some("Bearer old-token"),
        task_b,
        reply(Some(task_b), "sess-1", None, "completed", Some("after")),
    );
    assert_eq!(revoked, 401);
    let (accepted_new, _) = handle_reply(
        &sink,
        "new-token",
        Some("Bearer new-token"),
        task_b,
        reply(Some(task_b), "sess-1", None, "completed", Some("after")),
    );
    assert_eq!(accepted_new, 200);
    assert_eq!(sink.appended.borrow().len(), 2);
}

#[test]
fn missing_bearer_rejected_401() {
    let sink = MockSink::new(Some("sess-1"));
    let (code, _) = post(&sink, None, TEST_TASK_ID, reply(None, "sess-1", None, "completed", Some("hi")));
    assert_eq!(code, 401);
}

#[test]
fn mismatched_session_ignored() {
    let sink = MockSink::new(Some("sess-current"));
    let (code, v) = post(
        &sink,
        Some("tok"),
        TEST_TASK_ID,
        reply(None, "sess-other", None, "completed", Some("stale reply")),
    );
    assert_eq!(code, 200);
    assert_eq!(field(&v, "ignored"), &serde_json::Value::Bool(true));
    assert_eq!(field(&v, "reason"), "session_mismatch");
    assert_eq!(sink.appended.borrow().len(), 0);
    assert_eq!(sink.created.borrow().len(), 0);
}

#[test]
fn callback_after_session_ended_dropped_with_explicit_reason() {
    let sink = MockSink::new(None);
    let (code, v) = post(
        &sink,
        Some("tok"),
        TEST_TASK_ID,
        reply(Some(TEST_TASK_ID), "sess-ended", Some("umsg-ended"), "completed", Some("reply for ended session")),
    );
    assert_eq!(code, 200);
    assert_eq!(field(&v, "ignored"), &serde_json::Value::Bool(true));
    assert_eq!(field(&v, "reason"), "session_ended");
    assert_eq!(sink.appended.borrow().len(), 0);
    assert_eq!(sink.created.borrow().len(), 0);
    assert_eq!(sink.errored.borrow().len(), 0);
}

#[test]
fn post_call_reply_for_stored_session_is_accepted_when_no_session_live() {
    let sink = MockSink::new_stored("sess-stored");
    let (code, _) = post(
        &sink,
        Some("tok"),
        TEST_TASK_ID,
        reply(
            Some(TEST_TASK_ID),
            "sess-stored",
            Some("notes-root"),
            "completed",
            Some("# Summary\n## Action Items\n- [ ] follow up"),
        ),
    );
    assert_eq!(code, 200);
    let appended = sink.appended.borrow();
    assert_eq!(appended.len(), 1);
    assert_eq!(appended[0].session_id, "sess-stored");
    assert_eq!(appended[0].status, "completed");
    assert_eq!(sink.created.borrow().len(), 1);
}

#[test]
fn reply_mentioning_pairing_is_stored_as_normal_completed() {
    let sink = MockSink::new(Some("sess-1"));
    let text = "Sure — to approve a teammate, run `hermes pairing approve stagewhisper ABCD1234` on the host.";
    let (code, _) = post(
        &sink,
        Some("tok"),
        TEST_TASK_ID,
        reply(Some(TEST_TASK_ID), "sess-1", Some("notes-root"), "completed", Some(text)),
    );
    assert_eq!(code, 200);
    let appended = sink.appended.borrow();
    assert_eq!(appended.len(), 1);
    assert_eq!(appended[0].status, "completed");
    assert_eq!(appended[0].content, text);
    assert!(appended[0].error_code.is_none());
    assert_eq!(sink.errored.borrow().len(), 0);
}

#[test]
fn errored_status_appends_terminal_message_and_emits_error_event() {
    let sink = MockSink::new(Some("sess-1"));
    let mut b = reply(Some(TEST_TASK_ID), "sess-1", Some("umsg-1"), "errored", None);
    b.error_code = Some("llm_timeout".to_string());
    b.error_message = Some("model took too long".to_string());
    let (code, _) = post(&sink, Some("tok"), TEST_TASK_ID, b);
    assert_eq!(code, 200);
    let appended = sink.appended.borrow();
    assert_eq!(appended.len(), 1);
    assert_eq!(appended[0].role, "assistant");
    assert_eq!(appended[0].status, "errored");
    assert_eq!(appended[0].id, TEST_TASK_ID);
    assert_eq!(appended[0].parent_message_id.as_deref(), Some("umsg-1"));
    assert_eq!(appended[0].error_code.as_deref(), Some("llm_timeout"));
    assert_eq!(appended[0].error_message.as_deref(), Some("model took too long"));
    assert_eq!(appended[0].content, "");
    assert!(appended[0].finalized_at.is_some());
    let created = sink.created.borrow();
    assert_eq!(created.len(), 1);
    assert_eq!(created[0].status, "errored");
    let errs = sink.errored.borrow();
    assert_eq!(errs.len(), 1);
    assert_eq!(errs[0].error_code.as_deref(), Some("llm_timeout"));
    assert_eq!(errs[0].session_id, "sess-1");
}

#[test]
fn silent_status_appends_cancelled_terminal_message() {
    let sink = MockSink::new(Some("sess-1"));
    let (code, _) = post(
        &sink,
        Some("tok"),
        TEST_TASK_ID,
        reply(Some(TEST_TASK_ID), "sess-1", Some("umsg-2"), "silent", None),
    );
    assert_eq!(code, 200);
    let appended = sink.appended.borrow();
    assert_eq!(appended.len(), 1);
    assert_eq!(appended[0].role, "assistant");
    assert_eq!(appended[0].status, "cancelled");
    assert_eq!(appended[0].id, TEST_TASK_ID);
    assert_eq!(appended[0].parent_message_id.as_deref(), Some("umsg-2"));
    assert!(appended[0].finalized_at.is_some());
    let created = sink.created.borrow();
    assert_eq!(created.len(), 1);
    assert_eq!(created[0].status, "cancelled");
    assert_eq!(sink.errored.borrow().len(), 0);
}

#[test]
fn invalid_status_rejected() {
    let sink = MockSink::new(Some("sess-1"));
    let (code, _) = post(&sink, Some("tok"), TEST_TASK_ID, reply(None, "sess-1", None, "pending", None));
    assert_eq!(code, 400);
}

#[test]
fn task_id_mismatch_rejected() {
    let sink = MockSink::new(Some("sess-1"));
    let (code, v) = post(
        &sink,
        Some("tok"),
        TEST_TASK_ID,
        reply(Some("aaaaaaaa-bbbb-cccc-dddd-eeeeeeeeeeee"), "sess-1", None, "completed", Some("hi")),
    );
    assert_eq!(code, 400);
    assert_eq!(field(&v, "error"), "task_id_mismatch");
    assert_eq!(sink.appended.borrow().len(), 0);
}

#[test]
fn path_task_id_not_uuid_rejected() {
    let sink = MockSink::new(Some("sess-1"));
    let (code, v) = post(&sink, Some("tok"), "not-a-uuid", reply(None, "sess-1", None, "completed", Some("hi")));
    assert_eq!(code, 400);
    assert_eq!(field(&v, "error"), "invalid_task_id");
    assert_eq!(sink.appended.borrow().len(), 0);
}

#[test]
fn probe_callback_short_circuits_before_session_gating() {
    let sink = MockSink::new(None);
    sink.arm_probe(TEST_TASK_ID);
    let text = "Hi~ I don't recognize you yet! hermes pairing approve stagewhisper ABCD1234";
    let (code, v) = post(
        &sink,
        Some("tok"),
        TEST_TASK_ID,
        reply(Some(TEST_TASK_ID), "probe-session", None, "completed", Some(text)),
    );
    assert_eq!(code, 200);
    assert_eq!(field(&v, "probe"), &serde_json::Value::Bool(true));
    assert_eq!(sink.appended.borrow().len(), 0);
    assert_eq!(sink.created.borrow().len(), 0);
    let probes = sink.resolved_probes.borrow();
    assert_eq!(probes.len(), 1);
    assert_eq!(probes[0].status, "completed");
    assert_eq!(probes[0].reply_text.as_deref(), Some(text));
}

#[test]
fn non_probe_callback_falls_through_to_normal_flow() {
    let sink = MockSink::new(Some("sess-1"));
    let (code, _) = post(
        &sink,
        Some("tok"),
        TEST_TASK_ID,
        reply(Some(TEST_TASK_ID), "sess-1", Some("umsg-1"), "completed", Some("normal reply")),
    );
    assert_eq!(code, 200);
    assert_eq!(sink.appended.borrow().len(), 1);
    assert_eq!(sink.resolved_probes.borrow().len(), 0);
}

#[test]
fn completed_reply_claims_terminal() {
    let sink = MockSink::new(Some("sess-1"));
    let (code, _) = post(
        &sink,
        Some("tok"),
        TEST_TASK_ID,
        reply(Some(TEST_TASK_ID), "sess-1", Some("umsg-1"), "completed", Some("done")),
    );
    assert_eq!(code, 200);
    assert_eq!(sink.finalized.borrow().as_slice(), [TEST_TASK_ID.to_string()]);
}

#[test]
fn terminal_callback_for_wrong_session_does_not_persist() {
    let sink = MockSink::new_stored("sess-other");
    sink.bind_session(TEST_TASK_ID, "sess-issued");
    let (code, v) = post(
        &sink,
        Some("tok"),
        TEST_TASK_ID,
        reply(Some(TEST_TASK_ID), "sess-other", Some("umsg-1"), "completed", Some("cross-session reply")),
    );
    assert_eq!(code, 409);
    assert_eq!(field(&v, "error"), "session_mismatch");
    assert_eq!(sink.appended.borrow().len(), 0);
    assert_eq!(sink.created.borrow().len(), 0);
    assert_eq!(sink.finalized.borrow().len(), 0);
}

#[test]
fn unregistered_terminal_callback_does_not_persist() {
    let sink = MockSink::new(Some("sess-1"));
    sink.mark_unregistered(TEST_TASK_ID);
    let (code, v) = post(
        &sink,
        Some("tok"),
        TEST_TASK_ID,
        reply(Some(TEST_TASK_ID), "sess-1", Some("umsg-1"), "completed", Some("forged reply")),
    );
    assert_eq!(code, 410);
    assert_eq!(field(&v, "error"), "unregistered_task");
    assert_eq!(sink.appended.borrow().len(), 0);
    assert_eq!(sink.created.borrow().len(), 0);
    assert_eq!(sink.finalized.borrow().len(), 0);
}

#[test]
fn failed_persist_does_not_claim_and_allows_retry() {
    let sink = MockSink::new(Some("sess-1"));
    sink.fail_appends();
    let b = || reply(Some(TEST_TASK_ID), "sess-1", Some("umsg-1"), "completed", Some("hello"));
    let (code, _) = post(&sink, Some("tok"), TEST_TASK_ID, b());
    assert_eq!(code, 500);
    assert_eq!(sink.finalized.borrow().len(), 0);
    assert_eq!(sink.created.borrow().len(), 0);
    sink.allow_appends();
    let (retry, _) = post(&sink, Some("tok"), TEST_TASK_ID, b());
    assert_eq!(retry, 200);
    assert_eq!(sink.appended.borrow().len(), 1);
    assert_eq!(sink.finalized.borrow().as_slice(), [TEST_TASK_ID.to_string()]);
    assert_eq!(sink.created.borrow().len(), 1);
}

#[test]
fn typing_status_does_not_claim_terminal() {
    let sink = MockSink::new(Some("sess-1"));
    let (code, _) = post(
        &sink,
        Some("tok"),
        TEST_TASK_ID,
        reply(Some(TEST_TASK_ID), "sess-1", Some("umsg-1"), "typing", None),
    );
    assert_eq!(code, 200);
    assert_eq!(sink.finalized.borrow().len(), 0);
}

#[test]
fn duplicate_terminal_callback_is_dropped() {
    let sink = MockSink::new(Some("sess-1"));
    let (first, _) = post(
        &sink,
        Some("tok"),
        TEST_TASK_ID,
        reply(Some(TEST_TASK_ID), "sess-1", Some("umsg-1"), "completed", Some("first reply wins")),
    );
    assert_eq!(first, 200);
    assert_eq!(sink.appended.borrow().len(), 1);
    let (second, v) = post(
        &sink,
        Some("tok"),
        TEST_TASK_ID,
        reply(Some(TEST_TASK_ID), "sess-1", Some("umsg-1"), "completed", Some("stale duplicate")),
    );
    assert_eq!(second, 200);
    assert_eq!(field(&v, "ignored"), &serde_json::Value::Bool(true));
    assert_eq!(field(&v, "reason"), "already_finalized");
    let appended = sink.appended.borrow();
    assert_eq!(appended.len(), 1);
    assert_eq!(appended[0].content, "first reply wins");
}

/// A sink whose terminal claims go through a real pending registry.
struct PendingBackedSink {
    session_id: String,
    pending: RefCell<PendingReplies>,
    appended: RefCell<Vec<ChatMessagePayload>>,
}

impl PendingBackedSink {
    fn new(session_id: &str, pending: PendingReplies) -> Self {
        PendingBackedSink {
            session_id: session_id.to_string(),
            pending: RefCell::new(pending),
            appended: RefCell::new(Vec::new()),
        }
    }
}

impl ReplySink for PendingBackedSink {
    fn current_session_id(&self) -> Option<String> {
        Some(self.session_id.clone())
    }
    fn session_known(&self, session_id: &str) -> bool {
        session_id == self.session_id
    }
    fn append_message(&self, message: ChatMessagePayload) -> bool {
        self.appended.borrow_mut().push(message);
        true
    }
    fn emit_created(&self, _payload: &ChatMessagePayload) {}
    fn emit_errored(&self, _payload: &ErroredEvent) {}
    fn reserve_terminal(&self, task_id: &str, session_id: &str) -> ReserveResult {
        self.pending.borrow_mut().reserve(task_id, session_id)
    }
    fn release_terminal(&self, task_id: &str) {
        self.pending.borrow_mut().release(task_id);
    }
    fn complete_terminal(&self, task_id: &str) {
        self.pending.borrow_mut().complete(task_id);
    }
}

#[test]
fn lost_pending_state_callback_is_rejected_not_silently_acked() {
    let sink = PendingBackedSink::new("sess-1", PendingReplies::default());
    let (code, _) = handle_reply(
        &sink,
        "tok",
        Some("Bearer tok"),
        TEST_TASK_ID,
        reply(Some(TEST_TASK_ID), "sess-1", Some("umsg-1"), "completed", Some("legit reply with no pending record")),
    );
    assert_eq!(code, 410);
    assert_eq!(sink.appended.borrow().len(), 0);
}

#[test]
fn registered_reply_persists_and_duplicate_is_acked() {
    let mut pending = PendingReplies::default();
    pending.register(TEST_TASK_ID.to_string(), "sess-1".to_string());
    let sink = PendingBackedSink::new("sess-1", pending);
    let b = || reply(Some(TEST_TASK_ID), "sess-1", Some("umsg-1"), "completed", Some("first wins"));
    let (first, _) = handle_reply(&sink, "tok", Some("Bearer tok"), TEST_TASK_ID, b());
    assert_eq!(first, 200);
    assert_eq!(sink.appended.borrow().len(), 1);
    let (second, text) = handle_reply(&sink, "tok", Some("Bearer tok"), TEST_TASK_ID, b());
    assert_eq!(second, 200);
    let v: serde_json::Value = serde_json::from_str(&text).unwrap();
    assert_eq!(field(&v, "reason"), "already_finalized");
    assert_eq!(sink.appended.borrow().len(), 1);
}
