//! The loopback reply listener: the assistant posts its replies, with a bearer token, to
//! `/tasks/{task_id}` on a local HTTP endpoint. It routes as the reply router does, without
//! streamed chunks, relay turns or validation of live tasks.
use base64::Engine;
use subtle::ConstantTimeEq;
use vstd::prelude::*;
use vstd::utf8::encode_utf8;

use crate::keyed::str_eq;
use crate::reply_router::pending::{PendingModel, ReserveResult};
use crate::reply_router::routing::{
    answered_by, blank_message_stand, call, flag_is, lit, message_payload, moves_left, opt_is_blank, parses_as_uuid,
    past_request, perform, refused, request_refusal, settle, stage_fits, step_fits, terminal_payload,
    text_or_empty, transition, uuid_accepts, AnswerView, CallView, DropReason, ReplyBody,
    ReplyDisposition, ReplyRoute, RouteStage, RouteStep, SinkAnswer, SinkCall, StepView,
};
use crate::reply_router::sink::ReplySink;
use crate::text::{chars_of, has_prefix, is_blank, string_of, trim, trim_end_char, trimmed};

verus! {

// ---------------------------------------------------------------------------------------
// The callback token

/// The bytes of `bytes` in unpadded URL-safe base64.
pub uninterp spec fn base64_url_encoded(bytes: Seq<u8>) -> Seq<char>;

/// `getrandom::fill` into 32 bytes; it panics (as the token's generation always has) only
/// when the operating system's random source fails. Nothing is stated of the bytes' values.
#[verifier::external_body]
fn random_token_bytes() -> (b: [u8; 32]) {
    let mut bytes = [0u8; 32];
    getrandom::fill(&mut bytes).expect("OS RNG failed while generating callback token");
    bytes
}

/// `base64::engine::general_purpose::URL_SAFE_NO_PAD.encode(bytes)`.
#[verifier::external_body]
fn encode_base64_url(bytes: &[u8]) -> (s: String)
    ensures
        s@ == base64_url_encoded(bytes@),
{
    base64::engine::general_purpose::URL_SAFE_NO_PAD.encode(bytes)
}

/// A fresh callback token: 32 random bytes in unpadded URL-safe base64.
pub fn generate_callback_token() -> (t: String)
    ensures
        exists|b: Seq<u8>| b.len() == 32 && t@ == base64_url_encoded(b),
{
    let bytes = random_token_bytes();
    encode_base64_url(&bytes)
}

/// `a.ct_eq(b)` of `subtle`, for slices of one length: whether they are equal, compared in
/// time independent of their contents.
#[verifier::external_body]
fn constant_time_eq(a: &[u8], b: &[u8]) -> (r: bool)
    requires
        a@.len() == b@.len(),
    ensures
        r == (a@ == b@),
{
    a.ct_eq(b).into()
}

/// An `Authorization` header that carries `expected` as its bearer token.
pub open spec fn bearer_ok(header: Option<Seq<char>>, expected: Seq<char>) -> bool {
    match header {
        Some(h) => has_prefix(h, "Bearer "@) && encode_utf8(h.skip("Bearer "@.len() as int))
            == encode_utf8(expected),
        None => false,
    }
}

/// Whether the `Authorization` header value (if any) is `Bearer <expected>`.
pub fn bearer_matches(authorization: Option<&str>, expected: &str) -> (r: bool)
    ensures
        r == bearer_ok(
            match authorization {
                Some(h) => Some(h@),
                None => None,
            },
            expected@,
        ),
{
    let provided = match authorization {
        Some(value) => value,
        None => {
            return false;
        },
    };
    let v = chars_of(provided);
    let prefix = chars_of("Bearer ");
    if !crate::text::starts_with(&v, &prefix) {
        return false;
    }
    let stripped = string_of(&v, prefix.len(), v.len());
    assert(stripped@ =~= provided@.skip("Bearer "@.len() as int));
    let a = stripped.as_str().as_bytes();
    let b = expected.as_bytes();
    if a.len() != b.len() {
        return false;
    }
    constant_time_eq(a, b)
}

/// The URL the listener tells the assistant to post to, when one is configured: trimmed,
/// without trailing slashes, and none when that leaves it empty.
pub fn advertised_callback_url(configured: Option<&str>) -> (r: Option<String>)
    ensures
        match configured {
            Some(c) => if trim_end_char(trimmed(c@), '/').len() == 0 {
                r is None
            } else {
                r matches Some(u) && u@ == trim_end_char(trimmed(c@), '/')
            },
            None => r is None,
        },
{
    match configured {
        None => None,
        Some(c) => {
            let t = trim(c);
            let u = crate::text::trim_end_matches(t.as_str(), '/');
            if chars_of(u.as_str()).len() == 0 {
                None
            } else {
                Some(u)
            }
        },
    }
}

// ---------------------------------------------------------------------------------------
// The pending registry

/// The pending-task registry of the listener: the same registry as the reply router's.
pub struct PendingReplies {
    registry: crate::reply_router::pending::PendingReplies,
}

impl View for PendingReplies {
    type V = PendingModel;

    closed spec fn view(&self) -> PendingModel {
        self.registry@
    }
}

impl PendingReplies {
    pub closed spec fn wf(&self) -> bool {
        self.registry.wf()
    }

    pub fn new() -> (r: Self)
        ensures
            r.wf(),
            r@ == crate::reply_router::pending::empty_model(),
    {
        PendingReplies { registry: crate::reply_router::pending::PendingReplies::new() }
    }

    /// Binds `task_id` to `session_id`; a task already pending is left as it is. Past the
    /// capacity, the oldest pending tasks are forgotten.
    pub fn register(&mut self, task_id: String, session_id: String)
        requires
            old(self).wf(),
        ensures
            final(self).wf(),
            exists|now: std::time::Instant| final(self)@
                == crate::reply_router::pending::register_step(
                old(self)@,
                task_id@,
                session_id@,
                now,
            ),
    {
        self.registry.register(task_id, session_id);
        proof {
            let now = choose|now: std::time::Instant| self.registry@
                == crate::reply_router::pending::register_step(
                old(self).registry@,
                task_id@,
                session_id@,
                now,
            );
            assert(self@ == crate::reply_router::pending::register_step(
                old(self)@,
                task_id@,
                session_id@,
                now,
            ));
        }
    }

    /// Claims the right to write the terminal reply of `task_id`, once.
    pub fn reserve(&mut self, task_id: &str, session_id: &str) -> (r: ReserveResult)
        requires
            old(self).wf(),
        ensures
            final(self).wf(),
            (final(self)@, r) == crate::reply_router::pending::reserve_step(
                old(self)@,
                task_id@,
                session_id@,
            ),
    {
        self.registry.reserve(task_id, session_id)
    }

    /// Gives back a reservation, so that a later attempt may claim it again.
    pub fn release(&mut self, task_id: &str)
        requires
            old(self).wf(),
        ensures
            final(self).wf(),
            final(self)@ == crate::reply_router::pending::release_step(old(self)@, task_id@),
    {
        self.registry.release(task_id)
    }

    /// Marks `task_id` finished.
    pub fn complete(&mut self, task_id: &str)
        requires
            old(self).wf(),
        ensures
            final(self).wf(),
            final(self)@ == crate::reply_router::pending::complete_step(old(self)@, task_id@),
    {
        self.registry.complete(task_id)
    }
}

impl Default for PendingReplies {
    fn default() -> (r: Self)
        ensures
            r.wf(),
            r@ == crate::reply_router::pending::empty_model(),
    {
        PendingReplies::new()
    }
}

// ---------------------------------------------------------------------------------------
// Handling a posted reply

/// The statuses the listener knows (no streamed chunks).
pub open spec fn listener_status(s: Seq<char>) -> bool {
    ||| s == "completed"@
    ||| s == "errored"@
    ||| s == "silent"@
    ||| s == "typing"@
    ||| s == "tool_call"@
    ||| s == "message"@
}

/// The checks made on the request alone.
pub open spec fn listener_precheck(path_task_id: Seq<char>, body: ReplyBody) -> Option<ReplyDisposition> {
    if !uuid_accepts(path_task_id) {
        Some(ReplyDisposition::InvalidTaskId)
    } else if body.task_id is Some && body.task_id->0@ != path_task_id {
        Some(ReplyDisposition::TaskIdMismatch)
    } else if trimmed(body.session_id@).len() == 0 {
        Some(ReplyDisposition::SessionIdRequired)
    } else if !listener_status(body.status@) {
        Some(ReplyDisposition::InvalidStatus)
    } else {
        None
    }
}

/// Past the session gate: typing notices are acknowledged, a message is appended at once, a
/// terminal reply first reserves its task.
pub open spec fn listener_after_gate(r: ReplyRoute) -> (RouteStage, StepView) {
    let s = r.body.status@;
    if s == "typing"@ || s == "tool_call"@ {
        settle(ReplyDisposition::Accepted)
    } else if s == "message"@ {
        if trimmed(text_or_empty(r.body.reply_text)).len() == 0 {
            settle(ReplyDisposition::EmptyMessageIgnored)
        } else {
            call(RouteStage::MessageAppend, CallView::AppendMessage { message: message_payload(r) })
        }
    } else {
        call(
            RouteStage::TerminalReserve,
            CallView::ReserveTerminal { task_id: r.task_id@, session_id: r.body.session_id@ },
        )
    }
}

/// One move of the listener: where it differs from the router, and the router's move
/// elsewhere.
pub open spec fn listener_transition(r: ReplyRoute, a: AnswerView) -> (RouteStage, StepView) {
    let t = r.task_id@;
    let sid = r.body.session_id@;
    match r.stage {
        RouteStage::CurrentSession => match a {
            AnswerView::Session(cur) => if cur == Some(sid) {
                listener_after_gate(r)
            } else {
                call(
                    RouteStage::SessionKnown { no_current: cur is None },
                    CallView::SessionKnown { session_id: sid },
                )
            },
            _ => settle(ReplyDisposition::Accepted),
        },
        RouteStage::SessionKnown { no_current } => if a == AnswerView::Flag(true) {
            listener_after_gate(r)
        } else {
            settle(
                ReplyDisposition::Dropped(
                    if no_current {
                        DropReason::SessionEnded
                    } else {
                        DropReason::SessionMismatch
                    },
                ),
            )
        },
        RouteStage::MessageAppend => if a == AnswerView::Flag(false) {
            settle(ReplyDisposition::PersistFailed)
        } else {
            call(RouteStage::EmitCreatedThen, CallView::EmitCreated { message: message_payload(r) })
        },
        RouteStage::TerminalReserve => match a {
            AnswerView::Reservation(ReserveResult::Reserved) => match terminal_payload(r) {
                Some(p) => call(RouteStage::TerminalAppend, CallView::AppendMessage { message: p }),
                None => call(RouteStage::CompleteThenAccept, CallView::CompleteTerminal { task_id: t }),
            },
            AnswerView::Reservation(res) => settle(refused(res)),
            _ => settle(ReplyDisposition::Accepted),
        },
        _ => transition(r, a),
    }
}

/// The stages a listener route passes, and what they need of the request.
pub open spec fn listener_fits(r: ReplyRoute) -> bool {
    &&& stage_fits(r)
    &&& listener_status(r.body.status@)
    &&& r.body.message_id is None
    &&& match r.stage {
        RouteStage::Validate | RouteStage::TouchThenAccept | RouteStage::StreamTaskSession
        | RouteStage::StreamDelta | RouteStage::StreamRetired | RouteStage::MessageTaskSession
        | RouteStage::MessagePart | RouteStage::MessageRetired | RouteStage::MessageReserve
        | RouteStage::Forward => false,
        _ => true,
    }
}

impl ReplyRoute {
    fn listener_after_gate(&mut self) -> (s: RouteStep)
        requires
            listener_fits(*old(self)),
        ensures
            (final(self).stage, s@) == listener_after_gate(*old(self)),
            final(self).task_id == old(self).task_id,
            final(self).body == old(self).body,
            final(self).now == old(self).now,
    {
        if self.status_is("typing") || self.status_is("tool_call") {
            self.done(ReplyDisposition::Accepted)
        } else if self.status_is("message") {
            if opt_is_blank(&self.body.reply_text) {
                self.done(ReplyDisposition::EmptyMessageIgnored)
            } else {
                let m = self.message_payload();
                self.go(RouteStage::MessageAppend, SinkCall::AppendMessage { message: m })
            }
        } else {
            let t = self.task_id.clone();
            let sid = self.body.session_id.clone();
            self.go(RouteStage::TerminalReserve, SinkCall::ReserveTerminal { task_id: t, session_id: sid })
        }
    }

    /// Moves a listener route on with the sink's answer to its last call.
    pub fn resume_listener(&mut self, answer: SinkAnswer) -> (s: RouteStep)
        requires
            crate::reply_router::routing::answer_fits(old(self).stage, answer@),
            listener_fits(*old(self)),
        ensures
            (final(self).stage, s@) == listener_transition(*old(self), answer@),
            final(self).task_id == old(self).task_id,
            final(self).body == old(self).body,
            final(self).now == old(self).now,
            listener_fits(*final(self)),
            step_fits(final(self).stage, s@),
            past_request(s@),
            moves_left(final(self).stage) < moves_left(old(self).stage),
    {
        match self.stage {
            RouteStage::CurrentSession => {
                match answer {
                    SinkAnswer::Session(cur) => {
                        let matches = match &cur {
                            Some(c) => str_eq(c.as_str(), self.body.session_id.as_str()),
                            None => false,
                        };
                        if matches {
                            self.listener_after_gate()
                        } else {
                            let sid = self.body.session_id.clone();
                            self.go(
                                RouteStage::SessionKnown { no_current: cur.is_none() },
                                SinkCall::SessionKnown { session_id: sid },
                            )
                        }
                    },
                    _ => self.done(ReplyDisposition::Accepted),
                }
            },
            RouteStage::SessionKnown { no_current } => {
                if flag_is(&answer, true) {
                    self.listener_after_gate()
                } else if no_current {
                    self.done(ReplyDisposition::Dropped(DropReason::SessionEnded))
                } else {
                    self.done(ReplyDisposition::Dropped(DropReason::SessionMismatch))
                }
            },
            RouteStage::MessageAppend => {
                if flag_is(&answer, false) {
                    self.done(ReplyDisposition::PersistFailed)
                } else {
                    let m = self.message_payload();
                    self.go(RouteStage::EmitCreatedThen, SinkCall::EmitCreated { message: m })
                }
            },
            RouteStage::TerminalReserve => {
                match answer {
                    SinkAnswer::Reservation(ReserveResult::Reserved) => {
                        match self.terminal_payload() {
                            Some(p) => self.go(
                                RouteStage::TerminalAppend,
                                SinkCall::AppendMessage { message: p },
                            ),
                            None => {
                                let t = self.task_id.clone();
                                self.go(
                                    RouteStage::CompleteThenAccept,
                                    SinkCall::CompleteTerminal { task_id: t },
                                )
                            },
                        }
                    },
                    SinkAnswer::Reservation(ReserveResult::Duplicate) => self.done(ReplyDisposition::AlreadyFinalized),
                    SinkAnswer::Reservation(ReserveResult::Unregistered) => self.done(ReplyDisposition::UnregisteredTask),
                    SinkAnswer::Reservation(ReserveResult::SessionMismatch) => self.done(ReplyDisposition::SessionMismatch),
                    _ => self.done(ReplyDisposition::Accepted),
                }
            },
            _ => self.resume(answer),
        }
    }
}

/// The HTTP status the listener answers a disposition with.
pub open spec fn response_status(d: ReplyDisposition) -> u16 {
    match d {
        ReplyDisposition::InvalidTaskId | ReplyDisposition::TaskIdMismatch
        | ReplyDisposition::SessionIdRequired | ReplyDisposition::InvalidStatus => 400,
        ReplyDisposition::UnregisteredTask => 410,
        ReplyDisposition::SessionMismatch => 409,
        ReplyDisposition::PersistFailed => 500,
        _ => 200,
    }
}

/// The JSON body the listener answers a disposition with (keys in alphabetical order).
pub open spec fn response_body(d: ReplyDisposition) -> Seq<char> {
    match d {
        ReplyDisposition::InvalidTaskId => "{\"error\":\"invalid_task_id\",\"ok\":false}"@,
        ReplyDisposition::TaskIdMismatch => "{\"error\":\"task_id_mismatch\",\"ok\":false}"@,
        ReplyDisposition::SessionIdRequired => "{\"error\":\"session_id required\",\"ok\":false}"@,
        ReplyDisposition::InvalidStatus => "{\"error\":\"invalid status\",\"ok\":false}"@,
        ReplyDisposition::ProbeResolved => "{\"ok\":true,\"probe\":true}"@,
        ReplyDisposition::Dropped(DropReason::SessionEnded) => "{\"ignored\":true,\"ok\":true,\"reason\":\"session_ended\"}"@,
        ReplyDisposition::Dropped(DropReason::SessionMismatch) => "{\"ignored\":true,\"ok\":true,\"reason\":\"session_mismatch\"}"@,
        ReplyDisposition::EmptyMessageIgnored => "{\"ignored\":true,\"ok\":true,\"reason\":\"empty_message\"}"@,
        ReplyDisposition::AlreadyFinalized => "{\"ignored\":true,\"ok\":true,\"reason\":\"already_finalized\"}"@,
        ReplyDisposition::UnregisteredTask => "{\"error\":\"unregistered_task\",\"ok\":false}"@,
        ReplyDisposition::SessionMismatch => "{\"error\":\"session_mismatch\",\"ok\":false}"@,
        ReplyDisposition::PersistFailed => "{\"error\":\"reply_persist_failed\",\"ok\":false}"@,
        ReplyDisposition::Accepted => "{\"ok\":true}"@,
    }
}

pub const UNAUTHORIZED_BODY: &'static str = "{\"ok\":false}";

/// The HTTP answer to a disposition.
pub fn listener_response(d: ReplyDisposition) -> (r: (u16, String))
    ensures
        r.0 == response_status(d),
        r.1@ == response_body(d),
{
    let (status, body): (u16, &str) = match d {
        ReplyDisposition::InvalidTaskId => (400, "{\"error\":\"invalid_task_id\",\"ok\":false}"),
        ReplyDisposition::TaskIdMismatch => (400, "{\"error\":\"task_id_mismatch\",\"ok\":false}"),
        ReplyDisposition::SessionIdRequired => (400, "{\"error\":\"session_id required\",\"ok\":false}"),
        ReplyDisposition::InvalidStatus => (400, "{\"error\":\"invalid status\",\"ok\":false}"),
        ReplyDisposition::ProbeResolved => (200, "{\"ok\":true,\"probe\":true}"),
        ReplyDisposition::Dropped(DropReason::SessionEnded) => (200, "{\"ignored\":true,\"ok\":true,\"reason\":\"session_ended\"}"),
        ReplyDisposition::Dropped(DropReason::SessionMismatch) => (200, "{\"ignored\":true,\"ok\":true,\"reason\":\"session_mismatch\"}"),
        ReplyDisposition::EmptyMessageIgnored => (200, "{\"ignored\":true,\"ok\":true,\"reason\":\"empty_message\"}"),
        ReplyDisposition::AlreadyFinalized => (200, "{\"ignored\":true,\"ok\":true,\"reason\":\"already_finalized\"}"),
        ReplyDisposition::UnregisteredTask => (410, "{\"error\":\"unregistered_task\",\"ok\":false}"),
        ReplyDisposition::SessionMismatch => (409, "{\"error\":\"session_mismatch\",\"ok\":false}"),
        ReplyDisposition::PersistFailed => (500, "{\"error\":\"reply_persist_failed\",\"ok\":false}"),
        ReplyDisposition::Accepted => (200, "{\"ok\":true}"),
    };
    (status, body.to_owned())
}

/// Handles a reply posted for `path_task_id` with the `Authorization` header value
/// `authorization`, answering with an HTTP status and a JSON body.
///
/// Without the bearer token the answer is 401; then the request checks decide alone (see
/// [`listener_precheck`]); past them each move is the [`listener_transition`] on the sink's
/// answer, and the answer is that of the disposition reached.
pub fn handle_reply<S: ReplySink>(
    sink: &S,
    expected_token: &str,
    authorization: Option<&str>,
    path_task_id: &str,
    body: ReplyBody,
) -> (r: (u16, String))
    ensures
        !bearer_ok(
            match authorization {
                Some(h) => Some(h@),
                None => None,
            },
            expected_token@,
        ) ==> r.0 == 401 && r.1@ == UNAUTHORIZED_BODY@,
        bearer_ok(
            match authorization {
                Some(h) => Some(h@),
                None => None,
            },
            expected_token@,
        ) ==> exists|d: ReplyDisposition|
            r.0 == response_status(d) && r.1@ == response_body(d) && #[trigger] listener_routes_to(
                sink,
                path_task_id@,
                body,
                d,
            ),
{
    if !bearer_matches(authorization, expected_token) {
        return (401, UNAUTHORIZED_BODY.to_owned());
    }
    let d = listener_disposition(sink, path_task_id, body);
    listener_response(d)
}

/// Where a listener route started at `r0` stands after the sink gave the answers `trace`.
pub open spec fn listener_replay(r0: ReplyRoute, trace: Seq<AnswerView>) -> (RouteStage, StepView)
    decreases trace.len(),
{
    if trace.len() == 0 {
        crate::reply_router::routing::opening(r0)
    } else {
        let (stage, _) = listener_replay(r0, trace.drop_last());
        listener_transition(ReplyRoute { stage, ..r0 }, trace.last())
    }
}

/// The answer at position `i` of `trace` is what the sink answered to the call the listener
/// route put at that point.
pub open spec fn listener_answered_at<S: ReplySink>(sink: &S, r0: ReplyRoute, trace: Seq<AnswerView>, i: int) -> bool {
    match listener_replay(r0, trace.take(i)).1 {
        StepView::Call(c) => answered_by(sink, c, trace[i]),
        StepView::Settled(_) => false,
    }
}

/// Every answer of `trace` is the sink's own answer to the call it answers.
pub open spec fn listener_trace_answered<S: ReplySink>(sink: &S, r0: ReplyRoute, trace: Seq<AnswerView>) -> bool {
    forall|i: int| 0 <= i < trace.len() ==> #[trigger] listener_answered_at(sink, r0, trace, i)
}

/// `d` is what the listener gives for `body` posted for `task_id`: the request checks decide
/// alone; past them, where the listener route of the reply (without a message id or a chunk,
/// which the listener's replies do not carry) settles on the answers the sink gave to the
/// calls the route put to it.
pub open spec fn listener_routes_to<S: ReplySink>(sink: &S, task_id: Seq<char>, body: ReplyBody, d: ReplyDisposition) -> bool {
    match listener_precheck(task_id, body) {
        Some(p) => d == p,
        None => !request_refusal(d) && exists|r0: ReplyRoute, trace: Seq<AnswerView>|
            r0.task_id@ == task_id && r0.body == (ReplyBody { message_id: None, chunk: None, ..body })
                && listener_replay(r0, trace).1 == StepView::Settled(d)
                && listener_trace_answered(sink, r0, trace),
    }
}

/// Adding the sink's answer to the call a listener route stands at keeps every answer of the
/// trace the sink's own.
pub proof fn lemma_listener_trace_extends<S: ReplySink>(
    sink: &S,
    r0: ReplyRoute,
    trace: Seq<AnswerView>,
    c: CallView,
    a: AnswerView,
)
    requires
        listener_trace_answered(sink, r0, trace),
        listener_replay(r0, trace).1 == StepView::Call(c),
        answered_by(sink, c, a),
    ensures
        listener_trace_answered(sink, r0, trace.push(a)),
{
    let t2 = trace.push(a);
    assert forall|i: int| 0 <= i < t2.len() implies #[trigger] listener_answered_at(sink, r0, t2, i) by {
        if i < trace.len() {
            assert(t2.take(i) =~= trace.take(i));
            assert(listener_answered_at(sink, r0, trace, i));
        } else {
            assert(t2.take(i) =~= trace);
        }
    }
}

/// The answers of a trace whose answers are all the sink's own, but for its last, are the
/// sink's own too.
proof fn lemma_listener_trace_prefix<S: ReplySink>(
    sink: &S,
    r0: ReplyRoute,
    trace: Seq<AnswerView>,
)
    requires
        trace.len() > 0,
        listener_trace_answered(sink, r0, trace),
    ensures
        listener_trace_answered(sink, r0, trace.drop_last()),
        listener_answered_at(sink, r0, trace, trace.len() - 1),
        trace.take(trace.len() - 1) == trace.drop_last(),
{
    let prev = trace.drop_last();
    assert forall|i: int| 0 <= i < prev.len() implies #[trigger] listener_answered_at(
        sink,
        r0,
        prev,
        i,
    ) by {
        assert(prev.take(i) =~= trace.take(i));
        assert(listener_answered_at(sink, r0, trace, i));
        assert(prev[i] == trace[i]);
    }
    assert(listener_answered_at(sink, r0, trace, trace.len() - 1));
    assert(trace.take(trace.len() - 1) =~= prev);
}

proof fn lemma_blank_message_replay<S: ReplySink>(
    sink: &S,
    r0: ReplyRoute,
    trace: Seq<AnswerView>,
)
    requires
        r0.body.status@ == "message"@,
        trimmed(text_or_empty(r0.body.reply_text)).len() == 0,
        listener_trace_answered(sink, r0, trace),
    ensures
        blank_message_stand(listener_replay(r0, trace)),
    decreases trace.len(),
{
    if trace.len() > 0 {
        let prev = trace.drop_last();
        lemma_listener_trace_prefix(sink, r0, trace);
        lemma_blank_message_replay(sink, r0, prev);
        let (stage, step) = listener_replay(r0, prev);
        let a = trace.last();
        assert(trace[trace.len() - 1] == a);
        let r = ReplyRoute { stage, ..r0 };
        assert(listener_replay(r0, trace) == listener_transition(r, a));
        match step {
            StepView::Call(c) => {
                assert(answered_by(sink, c, a));
                reveal_strlit("message");
                reveal_strlit("typing");
                reveal_strlit("tool_call");
                assert(r.body.status@ == "message"@);
                assert(r.body.status@ != "typing"@);
                assert(r.body.status@ != "tool_call"@);
                assert(listener_after_gate(r) == settle(ReplyDisposition::EmptyMessageIgnored));
                if stage == RouteStage::Probe {
                    assert(a is Flag);
                    assert(listener_transition(r, a) == transition(r, a));
                    assert(blank_message_stand(listener_transition(r, a)));
                } else if stage == RouteStage::CurrentSession {
                    assert(a is Session);
                    if a->Session_0 == Some(r.body.session_id@) {
                        assert(listener_transition(r, a) == listener_after_gate(r));
                    }
                    assert(blank_message_stand(listener_transition(r, a)));
                } else {
                    assert(a is Flag);
                    assert(blank_message_stand(listener_transition(r, a)));
                }
            },
            StepView::Settled(_) => {
                assert(!listener_answered_at(sink, r0, trace, trace.len() - 1));
            },
        }
    }
}

/// A `message` reply whose text is blank once trimmed is never written nor announced by the
/// listener: on the answers the sink gives, its route never calls `append_message` or
/// `emit_created`, and where it settles, it is ignored as an empty message, answers a
/// connection probe, or is dropped as late.
pub proof fn law_blank_message_is_never_appended<S: ReplySink>(
    sink: &S,
    r0: ReplyRoute,
    trace: Seq<AnswerView>,
)
    requires
        r0.body.status@ == "message"@,
        match r0.body.reply_text {
            Some(t) => trimmed(t@).len() == 0,
            None => true,
        },
        listener_trace_answered(sink, r0, trace),
    ensures
        !(listener_replay(r0, trace).1 matches StepView::Call(CallView::AppendMessage { .. })),
        !(listener_replay(r0, trace).1 matches StepView::Call(CallView::EmitCreated { .. })),
        listener_replay(r0, trace).1 matches StepView::Settled(d) ==> d
            == ReplyDisposition::EmptyMessageIgnored || d == ReplyDisposition::ProbeResolved
            || d is Dropped,
{
    assert(trimmed(Seq::<char>::empty()) =~= Seq::<char>::empty());
    lemma_blank_message_replay(sink, r0, trace);
}

/// What the listener answers a well-formed `message` reply whose text is blank once trimmed:
/// it is ignored as an empty message, unless it answers a connection probe or is dropped as
/// late; it is never accepted, nor does it fail to be written.
pub proof fn law_blank_message_is_ignored_by_listener<S: ReplySink>(
    sink: &S,
    task_id: Seq<char>,
    body: ReplyBody,
    d: ReplyDisposition,
)
    requires
        listener_routes_to(sink, task_id, body, d),
        listener_precheck(task_id, body) is None,
        body.status@ == "message"@,
        match body.reply_text {
            Some(t) => trimmed(t@).len() == 0,
            None => true,
        },
    ensures
        d == ReplyDisposition::EmptyMessageIgnored || d == ReplyDisposition::ProbeResolved
            || d is Dropped,
{
    let (r0, trace) = choose|r0: ReplyRoute, trace: Seq<AnswerView>|
        r0.task_id@ == task_id && r0.body == (ReplyBody { message_id: None, chunk: None, ..body })
            && listener_replay(r0, trace).1 == StepView::Settled(d)
            && listener_trace_answered(sink, r0, trace);
    law_blank_message_is_never_appended(sink, r0, trace);
}

/// The disposition the listener reaches for a reply posted for `path_task_id`: the request
/// checks decide alone; past them, where the listener route of the reply (without a message
/// id or a chunk, which the listener's replies do not carry) settles on the answers the sink
/// gave.
pub fn listener_disposition<S: ReplySink>(sink: &S, path_task_id: &str, body: ReplyBody) -> (d: ReplyDisposition)
    ensures
        listener_routes_to(sink, path_task_id@, body, d),
        listener_precheck(path_task_id@, body) is None && body.status@ == "message"@ && match body.reply_text {
            Some(t) => trimmed(t@).len() == 0,
            None => true,
        } ==> d == ReplyDisposition::EmptyMessageIgnored || d == ReplyDisposition::ProbeResolved
            || d is Dropped,
{
    if !parses_as_uuid(path_task_id) {
        return ReplyDisposition::InvalidTaskId;
    }
    if let Some(given) = &body.task_id {
        if !str_eq(given.as_str(), path_task_id) {
            return ReplyDisposition::TaskIdMismatch;
        }
    }
    if is_blank(body.session_id.as_str()) {
        return ReplyDisposition::SessionIdRequired;
    }
    let st = body.status.as_str();
    let known = str_eq(st, "completed") || str_eq(st, "errored") || str_eq(st, "silent")
        || str_eq(st, "typing") || str_eq(st, "tool_call") || str_eq(st, "message");
    if !known {
        return ReplyDisposition::InvalidStatus;
    }
    let ghost original = body;
    let posted = ReplyBody { message_id: None, chunk: None, ..body };
    let now = crate::clock::utc_now_rfc3339();
    let (mut route, mut step) = ReplyRoute::start(lit(path_task_id), posted, now);
    let ghost r0 = route;
    let ghost mut trace: Seq<AnswerView> = Seq::empty();
    loop
        invariant
            original == body,
            listener_precheck(path_task_id@, original) is None,
            r0.task_id@ == path_task_id@,
            r0.body == (ReplyBody { message_id: None, chunk: None, ..original }),
            route == (ReplyRoute { stage: listener_replay(r0, trace).0, ..r0 }),
            step@ == listener_replay(r0, trace).1,
            listener_fits(route),
            step_fits(route.stage, step@),
            past_request(step@),
            listener_trace_answered(sink, r0, trace),
        decreases moves_left(route.stage),
    {
        match step {
            RouteStep::Settled(d) => {
                proof {
                    if original.status@ == "message"@ && match original.reply_text {
                        Some(t) => trimmed(t@).len() == 0,
                        None => true,
                    } {
                        law_blank_message_is_never_appended(sink, r0, trace);
                    }
                }
                return d;
            },
            RouteStep::Call(c) => {
                let ghost cv = c@;
                let a = perform(sink, c);
                let ghost before = trace;
                step = route.resume_listener(a);
                proof {
                    trace = before.push(a@);
                    assert(trace.drop_last() =~= before);
                    lemma_listener_trace_extends(sink, r0, before, cv, a@);
                }
            },
        }
    }
}

} // verus!
