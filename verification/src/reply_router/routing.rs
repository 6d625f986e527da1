//! The reply router: validates a reply callback and decides, step by step, what the
//! application's sink must do with it.
//!
//! The decisions form a machine ([`ReplyRoute`]) that asks the sink one question at a time
//! ([`SinkCall`]) and moves on with the answer ([`SinkAnswer`]) until it settles on a
//! [`ReplyDisposition`]; [`route_reply`] runs it against a [`ReplySink`].
use std::collections::hash_map::DefaultHasher;
use std::hash::{Hash, Hasher};
use vstd::prelude::*;

use crate::clock::utc_now_rfc3339;
use crate::keyed::str_eq;
use crate::reply_router::pending::ReserveResult;
use crate::reply_router::probe::{OutcomeView, ProbeOutcome};
use crate::reply_router::sink::{opt_str_view, ReplySink};
use crate::reply_router::{
    clone_opt, opt_view, ChatMessagePayload, ErroredEvent, ErroredView, MessageView,
};
use crate::text::{
    hex_fixed, is_blank, lemma_hex_fixed_injective, lemma_u64_below_pow16, push_hex, push_str,
    trimmed,
};

verus! {

/// What the router reads of a streamed chunk: its `type` and its `delta`, where they are
/// strings.
#[derive(Clone, Debug, PartialEq, Eq)]
pub struct StreamChunk {
    pub kind: Option<String>,
    pub delta: Option<String>,
}

/// A reply callback's body.
#[derive(Clone, Debug, PartialEq, Eq)]
pub struct ReplyBody {
    pub task_id: Option<String>,
    pub session_id: String,
    pub user_message_id: Option<String>,
    pub status: String,
    pub message_id: Option<String>,
    pub reply_text: Option<String>,
    pub error_code: Option<String>,
    pub error_message: Option<String>,
    pub model: Option<String>,
    pub chunk: Option<StreamChunk>,
}

#[derive(Clone, Copy, Debug, PartialEq, Eq, Structural)]
pub enum DropReason {
    SessionEnded,
    SessionMismatch,
}

/// How the router dealt with a reply.
#[derive(Clone, Copy, Debug, PartialEq, Eq, Structural)]
pub enum ReplyDisposition {
    InvalidTaskId,
    TaskIdMismatch,
    SessionIdRequired,
    InvalidStatus,
    ProbeResolved,
    Dropped(DropReason),
    SessionMismatch,
    EmptyMessageIgnored,
    AlreadyFinalized,
    UnregisteredTask,
    PersistFailed,
    Accepted,
}

/// Whether `Uuid::parse_str` accepts `s`.
pub uninterp spec fn uuid_accepts(s: Seq<char>) -> bool;

/// The `DefaultHasher` digest of three strings hashed in turn.
pub uninterp spec fn default_hash3(a: Seq<char>, b: Seq<char>, c: Seq<char>) -> u64;

/// `uuid::Uuid::parse_str(s).is_ok()`.
#[verifier::external_body]
pub(crate) fn parses_as_uuid(s: &str) -> (r: bool)
    ensures
        r == uuid_accepts(s@),
{
    uuid::Uuid::parse_str(s).is_ok()
}

/// Hashes `a`, `b` and `c` in turn into a fresh `DefaultHasher` (whose keys are fixed) and
/// returns its digest.
#[verifier::external_body]
pub(crate) fn hash_three(a: &str, b: &str, c: &str) -> (r: u64)
    ensures
        r == default_hash3(a@, b@, c@),
{
    let mut hasher = DefaultHasher::new();
    a.hash(&mut hasher);
    b.hash(&mut hasher);
    c.hash(&mut hasher);
    hasher.finish()
}

pub open spec fn known_status(s: Seq<char>) -> bool {
    ||| s == "completed"@
    ||| s == "errored"@
    ||| s == "silent"@
    ||| s == "typing"@
    ||| s == "tool_call"@
    ||| s == "message"@
    ||| s == "stream"@
}

/// Statuses that may answer a connection probe.
pub open spec fn probe_status(s: Seq<char>) -> bool {
    s == "completed"@ || s == "errored"@ || s == "message"@
}

/// Statuses that end a task.
pub open spec fn terminal_status(s: Seq<char>) -> bool {
    s == "completed"@ || s == "errored"@ || s == "silent"@
}

/// The checks made on the request alone, before the sink is consulted.
pub open spec fn precheck(path_task_id: Seq<char>, body: ReplyBody) -> Option<ReplyDisposition> {
    if !uuid_accepts(path_task_id) {
        Some(ReplyDisposition::InvalidTaskId)
    } else if body.task_id is Some && body.task_id->0@ != path_task_id {
        Some(ReplyDisposition::TaskIdMismatch)
    } else if trimmed(body.session_id@).len() == 0 {
        Some(ReplyDisposition::SessionIdRequired)
    } else if !known_status(body.status@) {
        Some(ReplyDisposition::InvalidStatus)
    } else {
        None
    }
}

pub open spec fn text_or_empty(o: Option<String>) -> Seq<char> {
    match o {
        Some(s) => s@,
        None => Seq::empty(),
    }
}

/// The text delta that a stream chunk carries (empty unless it is a `text-delta` chunk).
pub open spec fn chunk_delta(c: Option<StreamChunk>) -> Seq<char> {
    match c {
        Some(ch) => if opt_view(ch.kind) == Some("text-delta"@) {
            text_or_empty(ch.delta)
        } else {
            Seq::empty()
        },
        None => Seq::empty(),
    }
}

/// The stage a route has reached: the question it waits on.
#[derive(Clone, Copy, Debug, PartialEq, Eq, Structural)]
pub enum RouteStage {
    Probe,
    CurrentSession,
    SessionKnown { no_current: bool },
    Validate,
    TouchThenAccept,
    StreamTaskSession,
    StreamDelta,
    StreamRetired,
    MessageTaskSession,
    MessagePart,
    MessageRetired,
    MessageReserve,
    MessageAppend,
    TerminalReserve,
    Forward,
    TerminalAppend,
    ReleaseThenFail,
    CompleteThenAccept,
    CompleteThenEmit,
    EmitCreatedThen,
    EmitErroredThenAccept,
    Finished,
}

/// A question or an order for the sink.
#[derive(Clone, Debug, PartialEq, Eq)]
pub enum SinkCall {
    ResolveProbe { task_id: String, outcome: ProbeOutcome },
    CurrentSessionId,
    SessionKnown { session_id: String },
    ValidateTaskSession { task_id: String, session_id: String },
    TouchPending { task_id: String },
    TaskSession { task_id: String },
    RouteTurnTextDelta { task_id: String, delta: String },
    RouteTurnPart { task_id: String, text: String },
    TurnIsRetired { task_id: String },
    ReserveTerminal { task_id: String, session_id: String },
    ForwardToTurn {
        task_id: String,
        status: String,
        reply_text: Option<String>,
        error_code: Option<String>,
        error_message: Option<String>,
    },
    AppendMessage { message: ChatMessagePayload },
    ReleaseTerminal { task_id: String },
    CompleteTerminal { task_id: String },
    EmitCreated { message: ChatMessagePayload },
    EmitErrored { event: ErroredEvent },
}

/// The sink's answer to a [`SinkCall`].
#[derive(Clone, Debug, PartialEq, Eq)]
pub enum SinkAnswer {
    Done,
    Flag(bool),
    Session(Option<String>),
    Reservation(ReserveResult),
}

/// The router's next move.
#[derive(Clone, Debug, PartialEq, Eq)]
pub enum RouteStep {
    Call(SinkCall),
    Settled(ReplyDisposition),
}

pub enum CallView {
    ResolveProbe { task_id: Seq<char>, outcome: OutcomeView },
    CurrentSessionId,
    SessionKnown { session_id: Seq<char> },
    ValidateTaskSession { task_id: Seq<char>, session_id: Seq<char> },
    TouchPending { task_id: Seq<char> },
    TaskSession { task_id: Seq<char> },
    RouteTurnTextDelta { task_id: Seq<char>, delta: Seq<char> },
    RouteTurnPart { task_id: Seq<char>, text: Seq<char> },
    TurnIsRetired { task_id: Seq<char> },
    ReserveTerminal { task_id: Seq<char>, session_id: Seq<char> },
    ForwardToTurn {
        task_id: Seq<char>,
        status: Seq<char>,
        reply_text: Option<Seq<char>>,
        error_code: Option<Seq<char>>,
        error_message: Option<Seq<char>>,
    },
    AppendMessage { message: MessageView },
    ReleaseTerminal { task_id: Seq<char> },
    CompleteTerminal { task_id: Seq<char> },
    EmitCreated { message: MessageView },
    EmitErrored { event: ErroredView },
}

impl View for SinkCall {
    type V = CallView;

    open spec fn view(&self) -> CallView {
        match self {
            SinkCall::ResolveProbe { task_id, outcome } => CallView::ResolveProbe {
                task_id: task_id@,
                outcome: outcome@,
            },
            SinkCall::CurrentSessionId => CallView::CurrentSessionId,
            SinkCall::SessionKnown { session_id } => CallView::SessionKnown { session_id: session_id@ },
            SinkCall::ValidateTaskSession { task_id, session_id } => CallView::ValidateTaskSession {
                task_id: task_id@,
                session_id: session_id@,
            },
            SinkCall::TouchPending { task_id } => CallView::TouchPending { task_id: task_id@ },
            SinkCall::TaskSession { task_id } => CallView::TaskSession { task_id: task_id@ },
            SinkCall::RouteTurnTextDelta { task_id, delta } => CallView::RouteTurnTextDelta {
                task_id: task_id@,
                delta: delta@,
            },
            SinkCall::RouteTurnPart { task_id, text } => CallView::RouteTurnPart {
                task_id: task_id@,
                text: text@,
            },
            SinkCall::TurnIsRetired { task_id } => CallView::TurnIsRetired { task_id: task_id@ },
            SinkCall::ReserveTerminal { task_id, session_id } => CallView::ReserveTerminal {
                task_id: task_id@,
                session_id: session_id@,
            },
            SinkCall::ForwardToTurn { task_id, status, reply_text, error_code, error_message } =>
                CallView::ForwardToTurn {
                task_id: task_id@,
                status: status@,
                reply_text: opt_view(*reply_text),
                error_code: opt_view(*error_code),
                error_message: opt_view(*error_message),
            },
            SinkCall::AppendMessage { message } => CallView::AppendMessage { message: message@ },
            SinkCall::ReleaseTerminal { task_id } => CallView::ReleaseTerminal { task_id: task_id@ },
            SinkCall::CompleteTerminal { task_id } => CallView::CompleteTerminal { task_id: task_id@ },
            SinkCall::EmitCreated { message } => CallView::EmitCreated { message: message@ },
            SinkCall::EmitErrored { event } => CallView::EmitErrored { event: event@ },
        }
    }
}

pub enum AnswerView {
    Done,
    Flag(bool),
    Session(Option<Seq<char>>),
    Reservation(ReserveResult),
}

impl View for SinkAnswer {
    type V = AnswerView;

    open spec fn view(&self) -> AnswerView {
        match self {
            SinkAnswer::Done => AnswerView::Done,
            SinkAnswer::Flag(b) => AnswerView::Flag(*b),
            SinkAnswer::Session(s) => AnswerView::Session(opt_view(*s)),
            SinkAnswer::Reservation(r) => AnswerView::Reservation(*r),
        }
    }
}

pub enum StepView {
    Call(CallView),
    Settled(ReplyDisposition),
}

impl View for RouteStep {
    type V = StepView;

    open spec fn view(&self) -> StepView {
        match self {
            RouteStep::Call(c) => StepView::Call(c@),
            RouteStep::Settled(d) => StepView::Settled(*d),
        }
    }
}

/// A reply being routed.
pub struct ReplyRoute {
    /// The task the reply is for.
    pub task_id: String,
    pub body: ReplyBody,
    /// The time at which the reply is recorded.
    pub now: String,
    pub stage: RouteStage,
}

/// The id of a streamed-message part: the one it carries if not blank, else one derived from
/// the task, the session and the text.
pub open spec fn message_id_for(r: ReplyRoute) -> Seq<char> {
    let given = r.body.message_id;
    if given is Some && trimmed(given->0@).len() != 0 {
        given->0@
    } else {
        r.task_id@ + ":msg:"@ + hex_fixed(
            default_hash3(r.task_id@, r.body.session_id@, text_or_empty(r.body.reply_text)) as nat,
            16,
        )
    }
}

/// A `message` reply that carries no id (or a blank one) is recorded under an id derived
/// from its task, its session and its own text: the task id, `:msg:` and the 16 hexadecimal
/// digits of the digest of the three; its content is that text.
pub proof fn law_derived_message_id_hashes_reply_text(r: ReplyRoute)
    requires
        r.body.message_id is None || trimmed(r.body.message_id->0@).len() == 0,
    ensures
        message_payload(r).id == r.task_id@ + ":msg:"@ + hex_fixed(
            default_hash3(
                r.task_id@,
                r.body.session_id@,
                match r.body.reply_text {
                    Some(t) => t@,
                    None => Seq::<char>::empty(),
                },
            ) as nat,
            16,
        ),
        message_payload(r).content == match r.body.reply_text {
            Some(t) => t@,
            None => Seq::<char>::empty(),
        },
{
}

/// Two `message` replies of one task and one session that carry no id (or blank ones) are
/// recorded under one id exactly when the digests of their texts agree.
pub proof fn law_derived_message_ids_agree_with_text_digests(a: ReplyRoute, b: ReplyRoute)
    requires
        a.task_id@ == b.task_id@,
        a.body.session_id@ == b.body.session_id@,
        a.body.message_id is None || trimmed(a.body.message_id->0@).len() == 0,
        b.body.message_id is None || trimmed(b.body.message_id->0@).len() == 0,
    ensures
        message_payload(a).id == message_payload(b).id <==> default_hash3(
            a.task_id@,
            a.body.session_id@,
            match a.body.reply_text {
                Some(t) => t@,
                None => Seq::<char>::empty(),
            },
        ) == default_hash3(
            b.task_id@,
            b.body.session_id@,
            match b.body.reply_text {
                Some(t) => t@,
                None => Seq::<char>::empty(),
            },
        ),
{
    let ha = default_hash3(a.task_id@, a.body.session_id@, text_or_empty(a.body.reply_text));
    let hb = default_hash3(b.task_id@, b.body.session_id@, text_or_empty(b.body.reply_text));
    let prefix = a.task_id@ + ":msg:"@;
    let ia = message_payload(a).id;
    let ib = message_payload(b).id;
    assert(ia == prefix + hex_fixed(ha as nat, 16));
    assert(ib == prefix + hex_fixed(hb as nat, 16));
    if ia == ib {
        assert(ia.subrange(prefix.len() as int, ia.len() as int) =~= hex_fixed(ha as nat, 16));
        assert(ib.subrange(prefix.len() as int, ib.len() as int) =~= hex_fixed(hb as nat, 16));
        lemma_u64_below_pow16(ha);
        lemma_u64_below_pow16(hb);
        lemma_hex_fixed_injective(ha as nat, hb as nat, 16);
    }
}

pub open spec fn assistant_message(
    r: ReplyRoute,
    id: Seq<char>,
    content: Seq<char>,
    status: Seq<char>,
    model: Option<Seq<char>>,
    error_code: Option<Seq<char>>,
    error_message: Option<Seq<char>>,
) -> MessageView {
    MessageView {
        id: id,
        session_id: r.body.session_id@,
        role: "assistant"@,
        content: content,
        status: status,
        tool_result_model: model,
        parent_message_id: opt_view(r.body.user_message_id),
        suggestion_id: None,
        error_code: error_code,
        error_message: error_message,
        created_at: r.now@,
        updated_at: r.now@,
        finalized_at: Some(r.now@),
    }
}

/// The message recorded for a `message` reply.
pub open spec fn message_payload(r: ReplyRoute) -> MessageView {
    assistant_message(
        r,
        message_id_for(r),
        text_or_empty(r.body.reply_text),
        "completed"@,
        opt_view(r.body.model),
        None,
        None,
    )
}

/// The message recorded for a terminal reply, if any: the reply for `completed`, an errored
/// placeholder for `errored`, a cancelled placeholder for a `silent` reply to a user message.
pub open spec fn terminal_payload(r: ReplyRoute) -> Option<MessageView> {
    let s = r.body.status@;
    if s == "completed"@ {
        Some(
            assistant_message(
                r,
                r.task_id@,
                text_or_empty(r.body.reply_text),
                "completed"@,
                opt_view(r.body.model),
                None,
                None,
            ),
        )
    } else if s == "errored"@ {
        Some(
            assistant_message(
                r,
                r.task_id@,
                Seq::empty(),
                "errored"@,
                None,
                opt_view(r.body.error_code),
                opt_view(r.body.error_message),
            ),
        )
    } else if s == "silent"@ && r.body.user_message_id is Some {
        Some(assistant_message(r, r.task_id@, Seq::empty(), "cancelled"@, None, None, None))
    } else {
        None
    }
}

pub open spec fn errored_event(r: ReplyRoute) -> ErroredView {
    ErroredView {
        task_id: r.task_id@,
        session_id: r.body.session_id@,
        user_message_id: opt_view(r.body.user_message_id),
        error_code: opt_view(r.body.error_code),
        error_message: opt_view(r.body.error_message),
    }
}

/// What comes once the session gate is passed.
pub open spec fn after_gate(r: ReplyRoute) -> (RouteStage, StepView) {
    let s = r.body.status@;
    let t = r.task_id@;
    if s == "typing"@ || s == "tool_call"@ {
        (
            RouteStage::Validate,
            StepView::Call(
                CallView::ValidateTaskSession { task_id: t, session_id: r.body.session_id@ },
            ),
        )
    } else if s == "stream"@ {
        (RouteStage::StreamTaskSession, StepView::Call(CallView::TaskSession { task_id: t }))
    } else if s == "message"@ {
        if trimmed(text_or_empty(r.body.reply_text)).len() == 0 {
            (RouteStage::Finished, StepView::Settled(ReplyDisposition::EmptyMessageIgnored))
        } else {
            (RouteStage::MessageTaskSession, StepView::Call(CallView::TaskSession { task_id: t }))
        }
    } else {
        (
            RouteStage::TerminalReserve,
            StepView::Call(CallView::ReserveTerminal { task_id: t, session_id: r.body.session_id@ }),
        )
    }
}

/// The first move after the request checks: a probe question for the statuses that may
/// answer a probe, else the session gate.
pub open spec fn opening(r: ReplyRoute) -> (RouteStage, StepView) {
    if probe_status(r.body.status@) {
        (
            RouteStage::Probe,
            StepView::Call(
                CallView::ResolveProbe {
                    task_id: r.task_id@,
                    outcome: OutcomeView {
                        status: r.body.status@,
                        reply_text: opt_view(r.body.reply_text),
                        error_message: opt_view(r.body.error_message),
                    },
                },
            ),
        )
    } else {
        (RouteStage::CurrentSession, StepView::Call(CallView::CurrentSessionId))
    }
}

pub open spec fn settle(d: ReplyDisposition) -> (RouteStage, StepView) {
    (RouteStage::Finished, StepView::Settled(d))
}

pub open spec fn call(stage: RouteStage, c: CallView) -> (RouteStage, StepView) {
    (stage, StepView::Call(c))
}

/// The refusals of a terminal reservation.
pub open spec fn refused(res: ReserveResult) -> ReplyDisposition {
    match res {
        ReserveResult::Duplicate => ReplyDisposition::AlreadyFinalized,
        ReserveResult::Unregistered => ReplyDisposition::UnregisteredTask,
        _ => ReplyDisposition::SessionMismatch,
    }
}

/// The kind of answer each stage waits for: none at `Finished`, else `Done` (0), a flag (1),
/// a session (2) or a reservation (3).
pub open spec fn wanted(stage: RouteStage) -> int {
    match stage {
        RouteStage::CurrentSession | RouteStage::StreamTaskSession | RouteStage::MessageTaskSession => 2,
        RouteStage::Validate | RouteStage::MessageReserve | RouteStage::TerminalReserve => 3,
        RouteStage::Probe | RouteStage::SessionKnown { .. } | RouteStage::StreamDelta
        | RouteStage::StreamRetired | RouteStage::MessagePart | RouteStage::MessageRetired
        | RouteStage::MessageAppend | RouteStage::Forward | RouteStage::TerminalAppend => 1,
        RouteStage::Finished => -1,
        _ => 0,
    }
}

pub open spec fn answer_kind(a: AnswerView) -> int {
    match a {
        AnswerView::Done => 0,
        AnswerView::Flag(_) => 1,
        AnswerView::Session(_) => 2,
        AnswerView::Reservation(_) => 3,
    }
}

/// The kind of answer a call is given.
pub open spec fn call_kind(c: CallView) -> int {
    match c {
        CallView::ResolveProbe { .. } | CallView::SessionKnown { .. }
        | CallView::RouteTurnTextDelta { .. } | CallView::RouteTurnPart { .. }
        | CallView::TurnIsRetired { .. } | CallView::ForwardToTurn { .. }
        | CallView::AppendMessage { .. } => 1,
        CallView::CurrentSessionId | CallView::TaskSession { .. } => 2,
        CallView::ValidateTaskSession { .. } | CallView::ReserveTerminal { .. } => 3,
        _ => 0,
    }
}

pub open spec fn answer_fits(stage: RouteStage, a: AnswerView) -> bool {
    answer_kind(a) == wanted(stage)
}

/// A step agrees with the stage it leaves the route in: a call waits for the answer that
/// stage wants, and a disposition finishes the route.
pub open spec fn step_fits(stage: RouteStage, s: StepView) -> bool {
    match s {
        StepView::Call(c) => call_kind(c) == wanted(stage),
        StepView::Settled(_) => stage == RouteStage::Finished,
    }
}

/// The dispositions that only the request checks give.
pub open spec fn request_refusal(d: ReplyDisposition) -> bool {
    ||| d == ReplyDisposition::InvalidTaskId
    ||| d == ReplyDisposition::TaskIdMismatch
    ||| d == ReplyDisposition::SessionIdRequired
    ||| d == ReplyDisposition::InvalidStatus
}

/// A step that does not settle with a request refusal.
pub open spec fn past_request(s: StepView) -> bool {
    s is Settled ==> !request_refusal(s->Settled_0)
}

/// One move of the router: from the stage it is in and the sink's answer, the next stage and
/// the next call or the disposition.
pub open spec fn transition(r: ReplyRoute, a: AnswerView) -> (RouteStage, StepView) {
    let t = r.task_id@;
    let sid = r.body.session_id@;
    match r.stage {
        RouteStage::Probe => if a == AnswerView::Flag(true) {
            settle(ReplyDisposition::ProbeResolved)
        } else {
            call(RouteStage::CurrentSession, CallView::CurrentSessionId)
        },
        RouteStage::CurrentSession => match a {
            AnswerView::Session(cur) => if cur == Some(sid) {
                after_gate(r)
            } else {
                call(
                    RouteStage::SessionKnown { no_current: cur is None },
                    CallView::SessionKnown { session_id: sid },
                )
            },
            _ => settle(ReplyDisposition::Accepted),
        },
        RouteStage::SessionKnown { no_current } => if a == AnswerView::Flag(true) {
            after_gate(r)
        } else {
            settle(
                ReplyDisposition::Dropped(
                    if no_current {
                        DropReason::SessionEnded
                    } else {
                        DropReason::SessionMismatch
                    },
                ),
            )
        },
        RouteStage::Validate => if a == AnswerView::Reservation(ReserveResult::SessionMismatch) {
            settle(ReplyDisposition::SessionMismatch)
        } else {
            call(RouteStage::TouchThenAccept, CallView::TouchPending { task_id: t })
        },
        RouteStage::TouchThenAccept => settle(ReplyDisposition::Accepted),
        RouteStage::StreamTaskSession => match a {
            AnswerView::Session(Some(e)) if e != sid => settle(ReplyDisposition::SessionMismatch),
            _ => if chunk_delta(r.body.chunk).len() == 0 {
                settle(ReplyDisposition::Accepted)
            } else {
                call(
                    RouteStage::StreamDelta,
                    CallView::RouteTurnTextDelta { task_id: t, delta: chunk_delta(r.body.chunk) },
                )
            },
        },
        RouteStage::StreamDelta => if a == AnswerView::Flag(true) {
            call(RouteStage::TouchThenAccept, CallView::TouchPending { task_id: t })
        } else {
            call(RouteStage::StreamRetired, CallView::TurnIsRetired { task_id: t })
        },
        RouteStage::StreamRetired => if a == AnswerView::Flag(true) {
            settle(ReplyDisposition::AlreadyFinalized)
        } else {
            settle(ReplyDisposition::Accepted)
        },
        RouteStage::MessageTaskSession => match a {
            AnswerView::Session(Some(e)) if e != sid => settle(ReplyDisposition::SessionMismatch),
            _ => call(
                RouteStage::MessagePart,
                CallView::RouteTurnPart { task_id: t, text: text_or_empty(r.body.reply_text) },
            ),
        },
        RouteStage::MessagePart => if a == AnswerView::Flag(true) {
            call(RouteStage::TouchThenAccept, CallView::TouchPending { task_id: t })
        } else {
            call(RouteStage::MessageRetired, CallView::TurnIsRetired { task_id: t })
        },
        RouteStage::MessageRetired => if a == AnswerView::Flag(true) {
            settle(ReplyDisposition::AlreadyFinalized)
        } else {
            call(RouteStage::MessageReserve, CallView::ReserveTerminal { task_id: t, session_id: sid })
        },
        RouteStage::MessageReserve => match a {
            AnswerView::Reservation(ReserveResult::Reserved) => call(
                RouteStage::MessageAppend,
                CallView::AppendMessage { message: message_payload(r) },
            ),
            AnswerView::Reservation(res) => settle(refused(res)),
            _ => settle(ReplyDisposition::Accepted),
        },
        RouteStage::MessageAppend | RouteStage::TerminalAppend => if a == AnswerView::Flag(false) {
            call(RouteStage::ReleaseThenFail, CallView::ReleaseTerminal { task_id: t })
        } else {
            call(RouteStage::CompleteThenEmit, CallView::CompleteTerminal { task_id: t })
        },
        RouteStage::TerminalReserve => match a {
            AnswerView::Reservation(ReserveResult::Reserved) => call(
                RouteStage::Forward,
                CallView::ForwardToTurn {
                    task_id: t,
                    status: r.body.status@,
                    reply_text: opt_view(r.body.reply_text),
                    error_code: opt_view(r.body.error_code),
                    error_message: opt_view(r.body.error_message),
                },
            ),
            AnswerView::Reservation(res) => settle(refused(res)),
            _ => settle(ReplyDisposition::Accepted),
        },
        RouteStage::Forward => if a == AnswerView::Flag(true) {
            call(RouteStage::CompleteThenAccept, CallView::CompleteTerminal { task_id: t })
        } else {
            match terminal_payload(r) {
                Some(p) => call(RouteStage::TerminalAppend, CallView::AppendMessage { message: p }),
                None => call(RouteStage::CompleteThenAccept, CallView::CompleteTerminal { task_id: t }),
            }
        },
        RouteStage::ReleaseThenFail => settle(ReplyDisposition::PersistFailed),
        RouteStage::CompleteThenAccept => settle(ReplyDisposition::Accepted),
        RouteStage::CompleteThenEmit => call(
            RouteStage::EmitCreatedThen,
            CallView::EmitCreated {
                message: if r.body.status@ == "message"@ {
                    message_payload(r)
                } else {
                    terminal_payload(r)->0
                },
            },
        ),
        RouteStage::EmitCreatedThen => if r.body.status@ == "errored"@ {
            call(RouteStage::EmitErroredThenAccept, CallView::EmitErrored { event: errored_event(r) })
        } else {
            settle(ReplyDisposition::Accepted)
        },
        RouteStage::EmitErroredThenAccept => settle(ReplyDisposition::Accepted),
        RouteStage::Finished => settle(ReplyDisposition::Accepted),
    }
}

/// An upper bound on the moves left from a stage.
pub open spec fn moves_left(stage: RouteStage) -> nat {
    match stage {
        RouteStage::Probe => 11,
        RouteStage::CurrentSession => 10,
        RouteStage::SessionKnown { .. } => 9,
        RouteStage::Validate => 2,
        RouteStage::TouchThenAccept => 1,
        RouteStage::StreamTaskSession => 4,
        RouteStage::StreamDelta => 3,
        RouteStage::StreamRetired => 1,
        RouteStage::MessageTaskSession => 8,
        RouteStage::MessagePart => 7,
        RouteStage::MessageRetired => 6,
        RouteStage::MessageReserve => 5,
        RouteStage::MessageAppend => 4,
        RouteStage::TerminalReserve => 6,
        RouteStage::Forward => 5,
        RouteStage::TerminalAppend => 4,
        RouteStage::ReleaseThenFail => 1,
        RouteStage::CompleteThenAccept => 1,
        RouteStage::CompleteThenEmit => 3,
        RouteStage::EmitCreatedThen => 2,
        RouteStage::EmitErroredThenAccept => 1,
        RouteStage::Finished => 0,
    }
}

/// The stages at which the route holds the terminal reservation of its task and has neither
/// completed nor released it.
pub open spec fn reservation_open(stage: RouteStage) -> bool {
    stage == RouteStage::MessageAppend || stage == RouteStage::Forward || stage
        == RouteStage::TerminalAppend
}

/// The stages at which the route has been granted the terminal reservation of its task.
pub open spec fn reserved(stage: RouteStage) -> bool {
    ||| reservation_open(stage)
    ||| stage == RouteStage::ReleaseThenFail
    ||| stage == RouteStage::CompleteThenAccept
    ||| stage == RouteStage::CompleteThenEmit
}

/// The stages that wait on a terminal reservation.
pub open spec fn reserving(stage: RouteStage) -> bool {
    stage == RouteStage::MessageReserve || stage == RouteStage::TerminalReserve
}

/// Calls that write the reply's record or settle its reservation.
pub open spec fn persisting_call(c: CallView) -> bool {
    c is AppendMessage || c is ReleaseTerminal || c is CompleteTerminal
}

/// The statuses routed to each stage, and what that stage needs of the request.
pub open spec fn stage_fits(r: ReplyRoute) -> bool {
    let s = r.body.status@;
    &&& known_status(s)
    &&& match r.stage {
        RouteStage::Probe => probe_status(s),
        RouteStage::Validate => s == "typing"@ || s == "tool_call"@,
        RouteStage::StreamTaskSession | RouteStage::StreamDelta | RouteStage::StreamRetired =>
            s == "stream"@,
        RouteStage::MessageTaskSession | RouteStage::MessagePart | RouteStage::MessageRetired
        | RouteStage::MessageReserve | RouteStage::MessageAppend => s == "message"@,
        RouteStage::TerminalReserve | RouteStage::Forward => terminal_status(s),
        RouteStage::TerminalAppend => terminal_status(s) && terminal_payload(r) is Some,
        RouteStage::CompleteThenEmit | RouteStage::EmitCreatedThen => s == "message"@ || (
        terminal_status(s) && terminal_payload(r) is Some),
        RouteStage::EmitErroredThenAccept => s == "errored"@,
        _ => true,
    }
}

/// `trimmed`-emptiness of an optional text.
pub(crate) fn opt_is_blank(o: &Option<String>) -> (r: bool)
    ensures
        r == (trimmed(text_or_empty(*o)).len() == 0),
{
    match o {
        Some(s) => is_blank(s.as_str()),
        None => {
            assert(trimmed(Seq::<char>::empty()) =~= Seq::<char>::empty());
            true
        },
    }
}

pub(crate) fn flag_is(a: &SinkAnswer, b: bool) -> (r: bool)
    ensures
        r == (a@ == AnswerView::Flag(b)),
{
    match a {
        SinkAnswer::Flag(x) => *x == b,
        _ => false,
    }
}

pub(crate) fn text_of(o: &Option<String>) -> (r: String)
    ensures
        r@ == text_or_empty(*o),
{
    match o {
        Some(s) => s.clone(),
        None => String::new(),
    }
}

fn opt_eq_str(o: &Option<String>, lit: &str) -> (r: bool)
    ensures
        r == (opt_view(*o) == Some(lit@)),
{
    match o {
        Some(s) => str_eq(s.as_str(), lit),
        None => false,
    }
}

pub(crate) fn lit(s: &str) -> (r: String)
    ensures
        r@ == s@,
{
    s.to_owned()
}

impl ReplyRoute {
    pub(crate) fn status_is(&self, s: &str) -> (r: bool)
        ensures
            r == (self.body.status@ == s@),
    {
        str_eq(self.body.status.as_str(), s)
    }

    /// The id of a streamed-message part.
    pub fn message_id(&self) -> (r: String)
        ensures
            r@ == message_id_for(*self),
            self.body.message_id is Some && trimmed(self.body.message_id->0@).len() != 0 ==> r@
                == self.body.message_id->0@,
            self.body.message_id is None || trimmed(self.body.message_id->0@).len() == 0 ==> r@
                == self.task_id@ + ":msg:"@ + hex_fixed(
                default_hash3(
                    self.task_id@,
                    self.body.session_id@,
                    match self.body.reply_text {
                        Some(t) => t@,
                        None => Seq::<char>::empty(),
                    },
                ) as nat,
                16,
            ),
    {
        if let Some(given) = &self.body.message_id {
            if !is_blank(given.as_str()) {
                return given.clone();
            }
        }
        let text = text_of(&self.body.reply_text);
        let h = hash_three(self.task_id.as_str(), self.body.session_id.as_str(), text.as_str());
        let mut id = self.task_id.clone();
        push_str(&mut id, ":msg:");
        push_hex(&mut id, h, 16);
        id
    }

    fn assistant_message(
        &self,
        id: String,
        content: String,
        status: &str,
        model: Option<String>,
        error_code: Option<String>,
        error_message: Option<String>,
    ) -> (m: ChatMessagePayload)
        ensures
            m@ == assistant_message(
                *self,
                id@,
                content@,
                status@,
                opt_view(model),
                opt_view(error_code),
                opt_view(error_message),
            ),
    {
        ChatMessagePayload {
            id,
            session_id: self.body.session_id.clone(),
            role: lit("assistant"),
            content,
            status: lit(status),
            tool_result_model: model,
            parent_message_id: clone_opt(&self.body.user_message_id),
            suggestion_id: None,
            error_code,
            error_message,
            created_at: self.now.clone(),
            updated_at: self.now.clone(),
            finalized_at: Some(self.now.clone()),
        }
    }

    /// The message recorded for a `message` reply.
    pub fn message_payload(&self) -> (m: ChatMessagePayload)
        ensures
            m@ == message_payload(*self),
    {
        let id = self.message_id();
        let content = text_of(&self.body.reply_text);
        self.assistant_message(id, content, "completed", clone_opt(&self.body.model), None, None)
    }

    /// The message recorded for a terminal reply, if any.
    pub fn terminal_payload(&self) -> (m: Option<ChatMessagePayload>)
        ensures
            match m {
                Some(p) => terminal_payload(*self) == Some(p@),
                None => terminal_payload(*self) is None,
            },
    {
        if self.status_is("completed") {
            let content = text_of(&self.body.reply_text);
            Some(
                self.assistant_message(
                    self.task_id.clone(),
                    content,
                    "completed",
                    clone_opt(&self.body.model),
                    None,
                    None,
                ),
            )
        } else if self.status_is("errored") {
            Some(
                self.assistant_message(
                    self.task_id.clone(),
                    String::new(),
                    "errored",
                    None,
                    clone_opt(&self.body.error_code),
                    clone_opt(&self.body.error_message),
                ),
            )
        } else if self.status_is("silent") && self.body.user_message_id.is_some() {
            Some(
                self.assistant_message(
                    self.task_id.clone(),
                    String::new(),
                    "cancelled",
                    None,
                    None,
                    None,
                ),
            )
        } else {
            None
        }
    }

    pub(crate) fn errored_event(&self) -> (e: ErroredEvent)
        ensures
            e@ == errored_event(*self),
    {
        ErroredEvent {
            task_id: self.task_id.clone(),
            session_id: self.body.session_id.clone(),
            user_message_id: clone_opt(&self.body.user_message_id),
            error_code: clone_opt(&self.body.error_code),
            error_message: clone_opt(&self.body.error_message),
        }
    }

    pub(crate) fn go(&mut self, stage: RouteStage, c: SinkCall) -> (s: RouteStep)
        ensures
            final(self).stage == stage,
            final(self).task_id == old(self).task_id,
            final(self).body == old(self).body,
            final(self).now == old(self).now,
            s@ == StepView::Call(c@),
    {
        self.stage = stage;
        RouteStep::Call(c)
    }

    pub(crate) fn done(&mut self, d: ReplyDisposition) -> (s: RouteStep)
        ensures
            final(self).stage == RouteStage::Finished,
            final(self).task_id == old(self).task_id,
            final(self).body == old(self).body,
            final(self).now == old(self).now,
            s@ == StepView::Settled(d),
    {
        self.stage = RouteStage::Finished;
        RouteStep::Settled(d)
    }

    fn after_gate(&mut self) -> (s: RouteStep)
        ensures
            (final(self).stage, s@) == after_gate(*old(self)),
            final(self).task_id == old(self).task_id,
            final(self).body == old(self).body,
            final(self).now == old(self).now,
    {
        let t = self.task_id.clone();
        if self.status_is("typing") || self.status_is("tool_call") {
            let sid = self.body.session_id.clone();
            self.go(RouteStage::Validate, SinkCall::ValidateTaskSession { task_id: t, session_id: sid })
        } else if self.status_is("stream") {
            self.go(RouteStage::StreamTaskSession, SinkCall::TaskSession { task_id: t })
        } else if self.status_is("message") {
            if opt_is_blank(&self.body.reply_text) {
                self.done(ReplyDisposition::EmptyMessageIgnored)
            } else {
                self.go(RouteStage::MessageTaskSession, SinkCall::TaskSession { task_id: t })
            }
        } else {
            let sid = self.body.session_id.clone();
            self.go(RouteStage::TerminalReserve, SinkCall::ReserveTerminal { task_id: t, session_id: sid })
        }
    }

    /// Starts routing a reply that passed the request checks.
    pub fn start(task_id: String, body: ReplyBody, now: String) -> (r: (ReplyRoute, RouteStep))
        requires
            known_status(body.status@),
        ensures
            r.0.task_id == task_id,
            r.0.body == body,
            r.0.now == now,
            (r.0.stage, r.1@) == opening(r.0),
            stage_fits(r.0),
            step_fits(r.0.stage, r.1@),
    {
        let mut route = ReplyRoute { task_id, body, now, stage: RouteStage::Finished };
        if route.status_is("completed") || route.status_is("errored") || route.status_is("message") {
            let outcome = ProbeOutcome {
                status: route.body.status.clone(),
                reply_text: clone_opt(&route.body.reply_text),
                error_message: clone_opt(&route.body.error_message),
            };
            let t = route.task_id.clone();
            let step = route.go(RouteStage::Probe, SinkCall::ResolveProbe { task_id: t, outcome });
            (route, step)
        } else {
            let step = route.go(RouteStage::CurrentSession, SinkCall::CurrentSessionId);
            (route, step)
        }
    }

    /// Moves on with the sink's answer to the last call.
    pub fn resume(&mut self, answer: SinkAnswer) -> (s: RouteStep)
        requires
            answer_fits(old(self).stage, answer@),
            stage_fits(*old(self)),
        ensures
            (final(self).stage, s@) == transition(*old(self), answer@),
            final(self).task_id == old(self).task_id,
            final(self).body == old(self).body,
            final(self).now == old(self).now,
            stage_fits(*final(self)),
            step_fits(final(self).stage, s@),
            past_request(s@),
            moves_left(final(self).stage) < moves_left(old(self).stage),
    {
        let t = self.task_id.clone();
        match self.stage {
            RouteStage::Probe => {
                if flag_is(&answer, true) {
                    self.done(ReplyDisposition::ProbeResolved)
                } else {
                    self.go(RouteStage::CurrentSession, SinkCall::CurrentSessionId)
                }
            },
            RouteStage::CurrentSession => {
                match answer {
                    SinkAnswer::Session(cur) => {
                        let matches = match &cur {
                            Some(c) => str_eq(c.as_str(), self.body.session_id.as_str()),
                            None => false,
                        };
                        if matches {
                            self.after_gate()
                        } else {
                            let sid = self.body.session_id.clone();
                            self.go(
                                RouteStage::SessionKnown { no_current: cur.is_none() },
                                SinkCall::SessionKnown { session_id: sid },
                            )
                        }
                    },
                    _ => self.done(ReplyDisposition::Accepted),
                }
            },
            RouteStage::SessionKnown { no_current } => {
                if flag_is(&answer, true) {
                    self.after_gate()
                } else if no_current {
                    self.done(ReplyDisposition::Dropped(DropReason::SessionEnded))
                } else {
                    self.done(ReplyDisposition::Dropped(DropReason::SessionMismatch))
                }
            },
            RouteStage::Validate => {
                if matches!(answer, SinkAnswer::Reservation(ReserveResult::SessionMismatch)) {
                    self.done(ReplyDisposition::SessionMismatch)
                } else {
                    self.go(RouteStage::TouchThenAccept, SinkCall::TouchPending { task_id: t })
                }
            },
            RouteStage::TouchThenAccept => self.done(ReplyDisposition::Accepted),
            RouteStage::StreamTaskSession | RouteStage::MessageTaskSession => {
                let mismatch = match &answer {
                    SinkAnswer::Session(Some(e)) => !str_eq(e.as_str(), self.body.session_id.as_str()),
                    _ => false,
                };
                if mismatch {
                    self.done(ReplyDisposition::SessionMismatch)
                } else if self.stage == RouteStage::StreamTaskSession {
                    let delta = match &self.body.chunk {
                        Some(ch) => if opt_eq_str(&ch.kind, "text-delta") {
                            text_of(&ch.delta)
                        } else {
                            String::new()
                        },
                        None => String::new(),
                    };
                    if delta.as_str().is_empty() {
                        self.done(ReplyDisposition::Accepted)
                    } else {
                        self.go(RouteStage::StreamDelta, SinkCall::RouteTurnTextDelta { task_id: t, delta })
                    }
                } else {
                    let text = text_of(&self.body.reply_text);
                    self.go(RouteStage::MessagePart, SinkCall::RouteTurnPart { task_id: t, text })
                }
            },
            RouteStage::StreamDelta | RouteStage::MessagePart => {
                if flag_is(&answer, true) {
                    self.go(RouteStage::TouchThenAccept, SinkCall::TouchPending { task_id: t })
                } else if self.stage == RouteStage::StreamDelta {
                    self.go(RouteStage::StreamRetired, SinkCall::TurnIsRetired { task_id: t })
                } else {
                    self.go(RouteStage::MessageRetired, SinkCall::TurnIsRetired { task_id: t })
                }
            },
            RouteStage::StreamRetired => {
                if flag_is(&answer, true) {
                    self.done(ReplyDisposition::AlreadyFinalized)
                } else {
                    self.done(ReplyDisposition::Accepted)
                }
            },
            RouteStage::MessageRetired => {
                if flag_is(&answer, true) {
                    self.done(ReplyDisposition::AlreadyFinalized)
                } else {
                    let sid = self.body.session_id.clone();
                    self.go(RouteStage::MessageReserve, SinkCall::ReserveTerminal { task_id: t, session_id: sid })
                }
            },
            RouteStage::MessageReserve | RouteStage::TerminalReserve => {
                match answer {
                    SinkAnswer::Reservation(ReserveResult::Reserved) => {
                        if self.stage == RouteStage::MessageReserve {
                            let m = self.message_payload();
                            self.go(RouteStage::MessageAppend, SinkCall::AppendMessage { message: m })
                        } else {
                            let status = self.body.status.clone();
                            let reply_text = clone_opt(&self.body.reply_text);
                            let error_code = clone_opt(&self.body.error_code);
                            let error_message = clone_opt(&self.body.error_message);
                            self.go(
                                RouteStage::Forward,
                                SinkCall::ForwardToTurn { task_id: t, status, reply_text, error_code, error_message },
                            )
                        }
                    },
                    SinkAnswer::Reservation(ReserveResult::Duplicate) => self.done(ReplyDisposition::AlreadyFinalized),
                    SinkAnswer::Reservation(ReserveResult::Unregistered) => self.done(ReplyDisposition::UnregisteredTask),
                    SinkAnswer::Reservation(ReserveResult::SessionMismatch) => self.done(ReplyDisposition::SessionMismatch),
                    _ => self.done(ReplyDisposition::Accepted),
                }
            },
            RouteStage::MessageAppend | RouteStage::TerminalAppend => {
                if flag_is(&answer, false) {
                    self.go(RouteStage::ReleaseThenFail, SinkCall::ReleaseTerminal { task_id: t })
                } else {
                    self.go(RouteStage::CompleteThenEmit, SinkCall::CompleteTerminal { task_id: t })
                }
            },
            RouteStage::Forward => {
                if flag_is(&answer, true) {
                    self.go(RouteStage::CompleteThenAccept, SinkCall::CompleteTerminal { task_id: t })
                } else {
                    match self.terminal_payload() {
                        Some(p) => self.go(RouteStage::TerminalAppend, SinkCall::AppendMessage { message: p }),
                        None => self.go(RouteStage::CompleteThenAccept, SinkCall::CompleteTerminal { task_id: t }),
                    }
                }
            },
            RouteStage::ReleaseThenFail => self.done(ReplyDisposition::PersistFailed),
            RouteStage::CompleteThenAccept => self.done(ReplyDisposition::Accepted),
            RouteStage::CompleteThenEmit => {
                if self.status_is("message") {
                    let m = self.message_payload();
                    self.go(RouteStage::EmitCreatedThen, SinkCall::EmitCreated { message: m })
                } else {
                    match self.terminal_payload() {
                        Some(p) => self.go(RouteStage::EmitCreatedThen, SinkCall::EmitCreated { message: p }),
                        None => self.done(ReplyDisposition::Accepted),
                    }
                }
            },
            RouteStage::EmitCreatedThen => {
                if self.status_is("errored") {
                    let e = self.errored_event();
                    self.go(RouteStage::EmitErroredThenAccept, SinkCall::EmitErrored { event: e })
                } else {
                    self.done(ReplyDisposition::Accepted)
                }
            },
            RouteStage::EmitErroredThenAccept => self.done(ReplyDisposition::Accepted),
            RouteStage::Finished => self.done(ReplyDisposition::Accepted),
        }
    }
}

fn opt_str(o: &Option<String>) -> (r: Option<&str>)
    ensures
        opt_str_view(r) == opt_view(*o),
{
    match o {
        Some(s) => Some(s.as_str()),
        None => None,
    }
}

/// `a` is what the sink answered when the route put the call `c` to it: the answer the sink's
/// own method gave for the call's arguments, of the kind the call asks for (for a call that
/// answers nothing, that the method was called with those arguments).
pub open spec fn answered_by<S: ReplySink>(sink: &S, c: CallView, a: AnswerView) -> bool {
    match c {
        CallView::ResolveProbe { task_id, outcome } => exists|t: &str, o: ProbeOutcome, b: bool|
            t@ == task_id && o@ == outcome && a == AnswerView::Flag(b)
                && #[trigger] call_ensures(S::resolve_probe, (sink, t, o), b),
        CallView::CurrentSessionId => exists|x: Option<String>|
            a == AnswerView::Session(opt_view(x)) && #[trigger] call_ensures(
                S::current_session_id,
                (sink,),
                x,
            ),
        CallView::SessionKnown { session_id } => exists|t: &str, b: bool|
            t@ == session_id && a == AnswerView::Flag(b) && #[trigger] call_ensures(
                S::session_known,
                (sink, t),
                b,
            ),
        CallView::ValidateTaskSession { task_id, session_id } => exists|t: &str, u: &str, x: ReserveResult|
            t@ == task_id && u@ == session_id && a == AnswerView::Reservation(x)
                && #[trigger] call_ensures(S::validate_task_session, (sink, t, u), x),
        CallView::TouchPending { task_id } => exists|t: &str|
            t@ == task_id && a == AnswerView::Done && #[trigger] call_ensures(
                S::touch_pending,
                (sink, t),
                (),
            ),
        CallView::TaskSession { task_id } => exists|t: &str, x: Option<String>|
            t@ == task_id && a == AnswerView::Session(opt_view(x)) && #[trigger] call_ensures(
                S::task_session,
                (sink, t),
                x,
            ),
        CallView::RouteTurnTextDelta { task_id, delta } => exists|t: &str, u: &str, b: bool|
            t@ == task_id && u@ == delta && a == AnswerView::Flag(b) && #[trigger] call_ensures(
                S::route_turn_text_delta,
                (sink, t, u),
                b,
            ),
        CallView::RouteTurnPart { task_id, text } => exists|t: &str, u: &str, b: bool|
            t@ == task_id && u@ == text && a == AnswerView::Flag(b) && #[trigger] call_ensures(
                S::route_turn_part,
                (sink, t, u),
                b,
            ),
        CallView::TurnIsRetired { task_id } => exists|t: &str, b: bool|
            t@ == task_id && a == AnswerView::Flag(b) && #[trigger] call_ensures(
                S::turn_is_retired,
                (sink, t),
                b,
            ),
        CallView::ReserveTerminal { task_id, session_id } => exists|t: &str, u: &str, x: ReserveResult|
            t@ == task_id && u@ == session_id && a == AnswerView::Reservation(x)
                && #[trigger] call_ensures(S::reserve_terminal, (sink, t, u), x),
        CallView::ForwardToTurn { task_id, status, reply_text, error_code, error_message } => exists|
            t: &str,
            u: &str,
            x: Option<&str>,
            y: Option<&str>,
            z: Option<&str>,
            b: bool,
        |
            t@ == task_id && u@ == status && opt_str_view(x) == reply_text && opt_str_view(y)
                == error_code && opt_str_view(z) == error_message && a == AnswerView::Flag(b)
                && #[trigger] call_ensures(S::forward_to_turn, (sink, t, u, x, y, z), b),
        CallView::AppendMessage { message } => exists|m: ChatMessagePayload, b: bool|
            m@ == message && a == AnswerView::Flag(b) && #[trigger] call_ensures(
                S::append_message,
                (sink, m),
                b,
            ),
        CallView::ReleaseTerminal { task_id } => exists|t: &str|
            t@ == task_id && a == AnswerView::Done && #[trigger] call_ensures(
                S::release_terminal,
                (sink, t),
                (),
            ),
        CallView::CompleteTerminal { task_id } => exists|t: &str|
            t@ == task_id && a == AnswerView::Done && #[trigger] call_ensures(
                S::complete_terminal,
                (sink, t),
                (),
            ),
        CallView::EmitCreated { message } => exists|m: &ChatMessagePayload|
            m@ == message && a == AnswerView::Done && #[trigger] call_ensures(
                S::emit_created,
                (sink, m),
                (),
            ),
        CallView::EmitErrored { event } => exists|e: &ErroredEvent|
            e@ == event && a == AnswerView::Done && #[trigger] call_ensures(
                S::emit_errored,
                (sink, e),
                (),
            ),
    }
}

/// Puts one call to the sink and brings back its answer.
pub(crate) fn perform<S: ReplySink>(sink: &S, c: SinkCall) -> (a: SinkAnswer)
    ensures
        answer_kind(a@) == call_kind(c@),
        answered_by(sink, c@, a@),
{
    match c {
        SinkCall::ResolveProbe { task_id, outcome } => SinkAnswer::Flag(
            sink.resolve_probe(task_id.as_str(), outcome),
        ),
        SinkCall::CurrentSessionId => SinkAnswer::Session(sink.current_session_id()),
        SinkCall::SessionKnown { session_id } => SinkAnswer::Flag(
            sink.session_known(session_id.as_str()),
        ),
        SinkCall::ValidateTaskSession { task_id, session_id } => SinkAnswer::Reservation(
            sink.validate_task_session(task_id.as_str(), session_id.as_str()),
        ),
        SinkCall::TouchPending { task_id } => {
            sink.touch_pending(task_id.as_str());
            SinkAnswer::Done
        },
        SinkCall::TaskSession { task_id } => SinkAnswer::Session(
            sink.task_session(task_id.as_str()),
        ),
        SinkCall::RouteTurnTextDelta { task_id, delta } => SinkAnswer::Flag(
            sink.route_turn_text_delta(task_id.as_str(), delta.as_str()),
        ),
        SinkCall::RouteTurnPart { task_id, text } => SinkAnswer::Flag(
            sink.route_turn_part(task_id.as_str(), text.as_str()),
        ),
        SinkCall::TurnIsRetired { task_id } => SinkAnswer::Flag(
            sink.turn_is_retired(task_id.as_str()),
        ),
        SinkCall::ReserveTerminal { task_id, session_id } => SinkAnswer::Reservation(
            sink.reserve_terminal(task_id.as_str(), session_id.as_str()),
        ),
        SinkCall::ForwardToTurn { task_id, status, reply_text, error_code, error_message } => {
            SinkAnswer::Flag(
                sink.forward_to_turn(
                    task_id.as_str(),
                    status.as_str(),
                    opt_str(&reply_text),
                    opt_str(&error_code),
                    opt_str(&error_message),
                ),
            )
        },
        SinkCall::AppendMessage { message } => SinkAnswer::Flag(sink.append_message(message)),
        SinkCall::ReleaseTerminal { task_id } => {
            sink.release_terminal(task_id.as_str());
            SinkAnswer::Done
        },
        SinkCall::CompleteTerminal { task_id } => {
            sink.complete_terminal(task_id.as_str());
            SinkAnswer::Done
        },
        SinkCall::EmitCreated { message } => {
            sink.emit_created(&message);
            SinkAnswer::Done
        },
        SinkCall::EmitErrored { event } => {
            sink.emit_errored(&event);
            SinkAnswer::Done
        },
    }
}

/// Where a route started at `r0` stands after the sink gave the answers `trace` in turn: its
/// stage and its last step.
pub open spec fn replay(r0: ReplyRoute, trace: Seq<AnswerView>) -> (RouteStage, StepView)
    decreases trace.len(),
{
    if trace.len() == 0 {
        opening(r0)
    } else {
        let (stage, _) = replay(r0, trace.drop_last());
        transition(ReplyRoute { stage, ..r0 }, trace.last())
    }
}

/// The answer at position `i` of `trace` is what the sink answered to the call the route put
/// at that point.
pub open spec fn answered_at<S: ReplySink>(sink: &S, r0: ReplyRoute, trace: Seq<AnswerView>, i: int) -> bool {
    match replay(r0, trace.take(i)).1 {
        StepView::Call(c) => answered_by(sink, c, trace[i]),
        StepView::Settled(_) => false,
    }
}

/// Every answer of `trace` is the sink's own answer to the call it answers.
pub open spec fn trace_answered<S: ReplySink>(sink: &S, r0: ReplyRoute, trace: Seq<AnswerView>) -> bool {
    forall|i: int| 0 <= i < trace.len() ==> #[trigger] answered_at(sink, r0, trace, i)
}

/// Where a route of a blank `message` reply can stand: at its probe question, at the
/// session gate, or settled without a write (ignored, a probe answer, or dropped).
pub open spec fn blank_message_stand(st: (RouteStage, StepView)) -> bool {
    match st.1 {
        StepView::Call(c) => {
            ||| st.0 == RouteStage::Probe && c is ResolveProbe
            ||| st.0 == RouteStage::CurrentSession && c == CallView::CurrentSessionId
            ||| st.0 is SessionKnown && c is SessionKnown
        },
        StepView::Settled(d) => {
            ||| d == ReplyDisposition::EmptyMessageIgnored
            ||| d == ReplyDisposition::ProbeResolved
            ||| d is Dropped
        },
    }
}

/// The answers of a trace whose answers are all the sink's own, but for its last, are the
/// sink's own too.
proof fn lemma_trace_prefix<S: ReplySink>(sink: &S, r0: ReplyRoute, trace: Seq<AnswerView>)
    requires
        trace.len() > 0,
        trace_answered(sink, r0, trace),
    ensures
        trace_answered(sink, r0, trace.drop_last()),
        answered_at(sink, r0, trace, trace.len() - 1),
        trace.take(trace.len() - 1) == trace.drop_last(),
{
    let prev = trace.drop_last();
    assert forall|i: int| 0 <= i < prev.len() implies #[trigger] answered_at(sink, r0, prev, i) by {
        assert(prev.take(i) =~= trace.take(i));
        assert(answered_at(sink, r0, trace, i));
        assert(prev[i] == trace[i]);
    }
    assert(answered_at(sink, r0, trace, trace.len() - 1));
    assert(trace.take(trace.len() - 1) =~= prev);
}

proof fn lemma_blank_message_route<S: ReplySink>(sink: &S, r0: ReplyRoute, trace: Seq<AnswerView>)
    requires
        r0.body.status@ == "message"@,
        trimmed(text_or_empty(r0.body.reply_text)).len() == 0,
        trace_answered(sink, r0, trace),
    ensures
        blank_message_stand(replay(r0, trace)),
    decreases trace.len(),
{
    if trace.len() == 0 {
        assert(blank_message_stand(replay(r0, trace)));
    } else {
        let prev = trace.drop_last();
        lemma_trace_prefix(sink, r0, trace);
        lemma_blank_message_route(sink, r0, prev);
        let (stage, step) = replay(r0, prev);
        let a = trace.last();
        assert(trace[trace.len() - 1] == a);
        let r = ReplyRoute { stage, ..r0 };
        assert(replay(r0, trace) == transition(r, a));
        match step {
            StepView::Call(c) => {
                assert(answered_by(sink, c, a));
                reveal_strlit("message");
                reveal_strlit("typing");
                reveal_strlit("tool_call");
                reveal_strlit("stream");
                assert(r.body.status@ == "message"@);
                assert(r.body.status@ != "typing"@);
                assert(r.body.status@ != "tool_call"@);
                assert(r.body.status@ != "stream"@);
                assert(after_gate(r) == settle(ReplyDisposition::EmptyMessageIgnored));
                if stage == RouteStage::Probe {
                    assert(a is Flag);
                } else if stage == RouteStage::CurrentSession {
                    assert(a is Session);
                } else {
                    assert(a is Flag);
                }
                assert(blank_message_stand(transition(r, a)));
            },
            StepView::Settled(_) => {
                assert(!answered_at(sink, r0, trace, trace.len() - 1));
            },
        }
    }
}

/// A `message` reply whose text is blank once trimmed is never written nor announced by the
/// router: on the answers the sink gives, its route never calls `append_message`,
/// `emit_created` or the relay's turn routing, and where it settles, it is ignored as an
/// empty message, answers a connection probe, or is dropped as late.
pub proof fn law_blank_message_is_never_routed<S: ReplySink>(
    sink: &S,
    r0: ReplyRoute,
    trace: Seq<AnswerView>,
)
    requires
        r0.body.status@ == "message"@,
        match r0.body.reply_text {
            Some(t) => trimmed(t@).len() == 0,
            None => true,
        },
        trace_answered(sink, r0, trace),
    ensures
        !(replay(r0, trace).1 matches StepView::Call(CallView::AppendMessage { .. })),
        !(replay(r0, trace).1 matches StepView::Call(CallView::EmitCreated { .. })),
        !(replay(r0, trace).1 matches StepView::Call(CallView::RouteTurnPart { .. })),
        replay(r0, trace).1 matches StepView::Settled(d) ==> d == ReplyDisposition::EmptyMessageIgnored
            || d == ReplyDisposition::ProbeResolved || d is Dropped,
{
    assert(trimmed(Seq::<char>::empty()) =~= Seq::<char>::empty());
    lemma_blank_message_route(sink, r0, trace);
}

/// `d` is what routing `body`, posted for `task_id`, through `sink` gives: the request
/// checks decide alone; past them, where the route of the reply settles on the answers the
/// sink gave to the calls the route put to it.
pub open spec fn routes_to<S: ReplySink>(sink: &S, task_id: Seq<char>, body: ReplyBody, d: ReplyDisposition) -> bool {
    match precheck(task_id, body) {
        Some(p) => d == p,
        None => !request_refusal(d) && exists|r0: ReplyRoute, trace: Seq<AnswerView>|
            r0.task_id@ == task_id && r0.body == body && replay(r0, trace).1 == StepView::Settled(d)
                && trace_answered(sink, r0, trace),
    }
}

/// Routes the reply callback for `task_id` with `body` through `sink`.
///
/// The request checks come first and decide alone (see [`precheck`]); past them, the
/// disposition is where the route of the reply settles on the answers the sink gave, move by
/// move (see [`replay`]), at the time the reply was recorded; it is never one of the request
/// refusals.
pub fn route_reply<S: ReplySink>(sink: &S, task_id: &str, body: ReplyBody) -> (d: ReplyDisposition)
    ensures
        precheck(task_id@, body) is Some ==> d == precheck(task_id@, body)->0,
        precheck(task_id@, body) is None ==> !request_refusal(d),
        precheck(task_id@, body) is None ==> exists|r0: ReplyRoute, trace: Seq<AnswerView>|
            r0.task_id@ == task_id@ && r0.body == body && replay(r0, trace).1 == StepView::Settled(d)
                && trace_answered(sink, r0, trace),
        precheck(task_id@, body) is None && body.status@ == "message"@ && match body.reply_text {
            Some(t) => trimmed(t@).len() == 0,
            None => true,
        } ==> d == ReplyDisposition::EmptyMessageIgnored || d == ReplyDisposition::ProbeResolved
            || d is Dropped,
{
    if !parses_as_uuid(task_id) {
        return ReplyDisposition::InvalidTaskId;
    }
    if let Some(given) = &body.task_id {
        if !str_eq(given.as_str(), task_id) {
            return ReplyDisposition::TaskIdMismatch;
        }
    }
    if is_blank(body.session_id.as_str()) {
        return ReplyDisposition::SessionIdRequired;
    }
    let st = body.status.as_str();
    let known = str_eq(st, "completed") || str_eq(st, "errored") || str_eq(st, "silent")
        || str_eq(st, "typing") || str_eq(st, "tool_call") || str_eq(st, "message")
        || str_eq(st, "stream");
    if !known {
        return ReplyDisposition::InvalidStatus;
    }
    let ghost original = body;
    let now = utc_now_rfc3339();
    let (mut route, mut step) = ReplyRoute::start(lit(task_id), body, now);
    let ghost r0 = route;
    let ghost mut trace: Seq<AnswerView> = Seq::empty();
    loop
        invariant
            original == body,
            precheck(task_id@, original) is None,
            r0.task_id@ == task_id@,
            r0.body == original,
            route == (ReplyRoute { stage: replay(r0, trace).0, ..r0 }),
            step@ == replay(r0, trace).1,
            stage_fits(route),
            step_fits(route.stage, step@),
            past_request(step@),
            trace_answered(sink, r0, trace),
        decreases moves_left(route.stage),
    {
        match step {
            RouteStep::Settled(d) => {
                proof {
                    if original.status@ == "message"@ && match original.reply_text {
                        Some(t) => trimmed(t@).len() == 0,
                        None => true,
                    } {
                        law_blank_message_is_never_routed(sink, r0, trace);
                    }
                }
                return d;
            },
            RouteStep::Call(c) => {
                let ghost cv = c@;
                let a = perform(sink, c);
                let ghost before = trace;
                step = route.resume(a);
                proof {
                    trace = before.push(a@);
                    assert(trace.drop_last() =~= before);
                    lemma_trace_extends(sink, r0, before, cv, a@);
                }
            },
        }
    }
}

/// Adding the sink's answer to the call a route stands at keeps every answer of the trace
/// the sink's own.
pub proof fn lemma_trace_extends<S: ReplySink>(
    sink: &S,
    r0: ReplyRoute,
    trace: Seq<AnswerView>,
    c: CallView,
    a: AnswerView,
)
    requires
        trace_answered(sink, r0, trace),
        replay(r0, trace).1 == StepView::Call(c),
        answered_by(sink, c, a),
    ensures
        trace_answered(sink, r0, trace.push(a)),
{
    let t2 = trace.push(a);
    assert forall|i: int| 0 <= i < t2.len() implies #[trigger] answered_at(sink, r0, t2, i) by {
        if i < trace.len() {
            assert(t2.take(i) =~= trace.take(i));
            assert(answered_at(sink, r0, trace, i));
        } else {
            assert(t2.take(i) =~= trace);
        }
    }
}

/// A route writes its reply's record, or completes or releases a reservation, only once the
/// sink has granted it the terminal reservation of its task.
pub proof fn law_reservation_precedes_persisting(r: ReplyRoute, a: AnswerView)
    requires
        stage_fits(r),
        answer_fits(r.stage, a),
    ensures
        ({
            let (next, step) = transition(r, a);
            &&& (step is Call && persisting_call(step->Call_0)) ==> reserved(next)
            &&& reserved(next) ==> (reserved(r.stage) || (reserving(r.stage) && a
                == AnswerView::Reservation(ReserveResult::Reserved)))
        }),
{
}

/// A reservation, once granted, is not left behind: until the route completes or releases
/// it, every move is a further call, and the call that leaves the open stages is the
/// completion or the release of the task's reservation.
pub proof fn law_open_reservation_is_settled(r: ReplyRoute, a: AnswerView)
    requires
        stage_fits(r),
        answer_fits(r.stage, a),
        reservation_open(r.stage),
    ensures
        ({
            let (next, step) = transition(r, a);
            &&& step is Call
            &&& reservation_open(next) || (next == RouteStage::ReleaseThenFail && step
                == StepView::Call(CallView::ReleaseTerminal { task_id: r.task_id@ })) || ((next
                == RouteStage::CompleteThenAccept || next == RouteStage::CompleteThenEmit) && step
                == StepView::Call(CallView::CompleteTerminal { task_id: r.task_id@ }))
        }),
{
}

/// A record the sink fails to write has its reservation released, and the reply ends as
/// `PersistFailed`.
pub proof fn law_failed_append_releases(r: ReplyRoute)
    requires
        r.stage == RouteStage::MessageAppend || r.stage == RouteStage::TerminalAppend,
    ensures
        transition(r, AnswerView::Flag(false)) == call(
            RouteStage::ReleaseThenFail,
            CallView::ReleaseTerminal { task_id: r.task_id@ },
        ),
        transition(ReplyRoute { stage: RouteStage::ReleaseThenFail, ..r }, AnswerView::Done)
            == settle(ReplyDisposition::PersistFailed),
{
}

/// A refused reservation ends the reply at once: a duplicate as `AlreadyFinalized`, an
/// unknown task as `UnregisteredTask`, a task of another session as `SessionMismatch`.
pub proof fn law_refused_reservation_settles(r: ReplyRoute, res: ReserveResult)
    requires
        reserving(r.stage),
        res != ReserveResult::Reserved,
    ensures
        transition(r, AnswerView::Reservation(res)) == settle(refused(res)),
        res == ReserveResult::Duplicate ==> refused(res) == ReplyDisposition::AlreadyFinalized,
        res == ReserveResult::Unregistered ==> refused(res) == ReplyDisposition::UnregisteredTask,
        res == ReserveResult::SessionMismatch ==> refused(res) == ReplyDisposition::SessionMismatch,
{
}

/// A reply for a session that is neither the current one nor a known one is dropped: as
/// `SessionEnded` when no session is current, as `SessionMismatch` when another one is.
pub proof fn law_unknown_session_is_dropped(r: ReplyRoute, current: Option<Seq<char>>)
    requires
        r.stage == RouteStage::CurrentSession,
        current != Some(r.body.session_id@),
    ensures
        ({
            let (next, step) = transition(r, AnswerView::Session(current));
            &&& next == RouteStage::SessionKnown { no_current: current is None }
            &&& step == StepView::Call(CallView::SessionKnown { session_id: r.body.session_id@ })
            &&& transition(ReplyRoute { stage: next, ..r }, AnswerView::Flag(false)) == settle(
                ReplyDisposition::Dropped(
                    if current is None {
                        DropReason::SessionEnded
                    } else {
                        DropReason::SessionMismatch
                    },
                ),
            )
        }),
{
}

/// A reply that resolves a connection probe ends there.
pub proof fn law_resolved_probe_ends(r: ReplyRoute)
    requires
        r.stage == RouteStage::Probe,
    ensures
        transition(r, AnswerView::Flag(true)) == settle(ReplyDisposition::ProbeResolved),
{
}

} // verus!
