//! The way of a tool call through the harness: a call that is forwarded runs
//! at most once, a repetition gets the stored answer, and no answer goes out
//! before it is audited.

use vstd::prelude::*;
use crate::admission;
use crate::errors;
use crate::errors::{ErrorKind, ErrorView, PipelineError};
use crate::identity;
use crate::interception;
use crate::interception::{ToolVerdict, VerdictView};
use crate::json::{Json, JsonTree};
use crate::tools;
use crate::tools::{ExecutionView, IntentView, OutcomeView, ToolExecution, ToolExecutionState, ToolOutcome};
use crate::text;
use crate::upstream;
use crate::upstream::HttpFault;

verus! {

/// Why the session of an execution is looked at.
#[derive(Clone, Copy, Debug, PartialEq, Eq, Structural)]
pub enum Purpose {
    /// Its answer is stored and audited.
    Cached,
    /// Its answer is stored and not audited.
    Audit,
    /// It has begun and not ended.
    Pending,
}

/// Where a tool call stands.
#[derive(Clone, Copy, Debug, PartialEq, Eq, Structural)]
pub enum McpStage {
    /// The request is being read.
    Requesting,
    /// The identity is being resolved.
    Identifying,
    /// The execution is being bound to the agent.
    Binding,
    /// The files of the execution are being read.
    Loading,
    /// The agent's right to the session is being checked.
    Authorizing(Purpose),
    /// The call is being intercepted.
    Intercepting,
    /// The session is being leased; `resume` tells that an answer is stored.
    Leasing { resume: bool },
    /// A slot for the record is being reserved.
    Reserving { resume: bool },
    /// The execution is being claimed.
    Claiming,
    /// The call is being sent.
    Sending,
    /// The answer is being read.
    Reading,
    /// The answer is being stored.
    Persisting,
    /// The session is being looked for.
    Finding,
    /// The record of the answer is being captured.
    Auditing,
    /// The answer is being marked as audited.
    Marking,
    Done,
}

/// What happens to a tool call.
#[derive(Debug)]
pub enum McpEvent {
    Requested(Result<ToolExecution, PipelineError>),
    Identified(Result<(), PipelineError>),
    /// The digest of the agent.
    Bound(Result<String, String>),
    Loaded(Result<ToolExecutionState, String>),
    /// Whether the agent may act on the session; absent where the session is
    /// unknown.
    Authorized(Option<Result<(), PipelineError>>),
    /// The verdict on the call.
    Intercepted(Result<ToolVerdict, PipelineError>),
    /// Whether the session could be leased; absent where it is unknown.
    Leased(Option<bool>),
    Reserved(Result<(), String>),
    Claimed(Result<(), String>),
    /// The status of the answer.
    Sent(Result<u16, HttpFault>),
    Read(Result<Vec<u8>, String>),
    Persisted(Result<(), String>),
    SessionFound(bool),
    /// Whether the session's capture failed.
    Captured { failed: bool },
    Marked(Result<(), String>),
}

/// What a client is answered.
#[derive(Debug)]
pub enum McpAnswer {
    /// With an error of the pipeline.
    Refusal(PipelineError),
    /// With an internal failure.
    Internal(String),
    /// That the call is in conflict with another.
    Conflict(String),
    /// With the verdict of the interception, in this document.
    Verdict { allowed: bool, document: Json },
    /// With the answer of the tool server.
    Response { status: u16, body: Vec<u8> },
}

/// What a tool call wants done.
#[derive(Debug)]
pub enum McpAction {
    /// Nothing: this is not what is being waited for.
    Ignore,
    ReadRequest,
    /// Resolve the identity, for this scope.
    Identify(String),
    /// Make the digest of the agent.
    Bind,
    /// Read the files of the execution.
    Load,
    /// Check the agent's right to the session, for this scope.
    Authorize(String),
    Intercept,
    Lease,
    Reserve,
    /// Claim the execution: make its intent durable, for one call only.
    Claim,
    Send,
    Read,
    /// Store this answer.
    Persist(ToolOutcome),
    FindSession,
    /// Submit the record of this answer, and wait until it is captured.
    Audit { status: u16, body: Vec<u8> },
    MarkAudited,
    Answer(McpAnswer),
}

/// The way of one tool call.
#[derive(Debug)]
pub struct McpFlow {
    /// Whether tool calls are forwarded.
    forwards: bool,
    stage: McpStage,
    execution: Option<ToolExecution>,
    /// The status of the tool server's answer.
    status: u16,
    /// The answer, as it is stored.
    outcome: Option<ToolOutcome>,
    /// The answer, as it goes out.
    reply: Option<(u16, Vec<u8>)>,
}

/// An [`McpFlow`] by its contents.
#[verifier::ext_equal]
pub struct McpView {
    pub forwards: bool,
    pub stage: McpStage,
    pub execution: Option<IntentView>,
    pub status: u16,
    pub outcome: Option<OutcomeView>,
    pub reply: Option<(u16, Seq<u8>)>,
}

/// An [`McpEvent`] by its contents.
pub enum McpEventView {
    Requested(Result<IntentView, ErrorView>),
    Identified(Option<ErrorView>),
    Bound(Result<Seq<char>, Seq<char>>),
    Loaded(Result<ExecutionView, Seq<char>>),
    Unknown,
    Authorized(Option<ErrorView>),
    Intercepted(Result<VerdictView, ErrorView>),
    Leased(Option<bool>),
    Reserved(Option<Seq<char>>),
    Claimed(bool),
    Sent(Result<u16, HttpFault>),
    Read(Result<Seq<u8>, Seq<char>>),
    Persisted(Option<Seq<char>>),
    SessionFound(bool),
    Captured { failed: bool },
    Marked(Option<Seq<char>>),
}

/// An [`McpAnswer`] by its contents.
#[verifier::ext_equal]
pub enum AnswerView {
    Refusal(ErrorView),
    Internal(Seq<char>),
    Conflict(Seq<char>),
    Verdict { allowed: bool, document: JsonTree },
    Response { status: u16, body: Seq<u8> },
}

/// An [`McpAction`] by its contents.
#[verifier::ext_equal]
pub enum McpActionView {
    Ignore,
    ReadRequest,
    Identify(Seq<char>),
    Bind,
    Load,
    Authorize(Seq<char>),
    Intercept,
    Lease,
    Reserve,
    Claim,
    Send,
    Read,
    Persist(OutcomeView),
    FindSession,
    Audit { status: u16, body: Seq<u8> },
    MarkAudited,
    Answer(AnswerView),
}

impl View for McpFlow {
    type V = McpView;

    closed spec fn view(&self) -> McpView {
        McpView {
            forwards: self.forwards,
            stage: self.stage,
            execution: match self.execution {
                Some(e) => Some(e@),
                None => None,
            },
            status: self.status,
            outcome: match self.outcome {
                Some(o) => Some(o@),
                None => None,
            },
            reply: match self.reply {
                Some((status, body)) => Some((status, body@)),
                None => None,
            },
        }
    }
}

impl View for McpEvent {
    type V = McpEventView;

    open spec fn view(&self) -> McpEventView {
        match self {
            McpEvent::Requested(Ok(e)) => McpEventView::Requested(Ok(e@)),
            McpEvent::Requested(Err(e)) => McpEventView::Requested(Err(e@)),
            McpEvent::Identified(Ok(())) => McpEventView::Identified(None),
            McpEvent::Identified(Err(e)) => McpEventView::Identified(Some(e@)),
            McpEvent::Bound(Ok(digest)) => McpEventView::Bound(Ok(digest@)),
            McpEvent::Bound(Err(words)) => McpEventView::Bound(Err(words@)),
            McpEvent::Loaded(Ok(state)) => McpEventView::Loaded(Ok(state@)),
            McpEvent::Loaded(Err(words)) => McpEventView::Loaded(Err(words@)),
            McpEvent::Authorized(None) => McpEventView::Unknown,
            McpEvent::Authorized(Some(Ok(()))) => McpEventView::Authorized(None),
            McpEvent::Authorized(Some(Err(e))) => McpEventView::Authorized(Some(e@)),
            McpEvent::Intercepted(Ok(verdict)) => McpEventView::Intercepted(Ok(verdict@)),
            McpEvent::Intercepted(Err(e)) => McpEventView::Intercepted(Err(e@)),
            McpEvent::Leased(leased) => McpEventView::Leased(*leased),
            McpEvent::Reserved(outcome) => McpEventView::Reserved(admission::outcome_fault(*outcome)),
            McpEvent::Claimed(outcome) => McpEventView::Claimed(*outcome is Ok),
            McpEvent::Sent(sent) => McpEventView::Sent(*sent),
            McpEvent::Read(Ok(body)) => McpEventView::Read(Ok(body@)),
            McpEvent::Read(Err(words)) => McpEventView::Read(Err(words@)),
            McpEvent::Persisted(outcome) => McpEventView::Persisted(admission::outcome_fault(*outcome)),
            McpEvent::SessionFound(found) => McpEventView::SessionFound(*found),
            McpEvent::Captured { failed } => McpEventView::Captured { failed: *failed },
            McpEvent::Marked(outcome) => McpEventView::Marked(admission::outcome_fault(*outcome)),
        }
    }
}

impl View for McpAnswer {
    type V = AnswerView;

    open spec fn view(&self) -> AnswerView {
        match self {
            McpAnswer::Refusal(e) => AnswerView::Refusal(e@),
            McpAnswer::Internal(words) => AnswerView::Internal(words@),
            McpAnswer::Conflict(words) => AnswerView::Conflict(words@),
            McpAnswer::Verdict { allowed, document } => AnswerView::Verdict { allowed: *allowed, document: document@ },
            McpAnswer::Response { status, body } => AnswerView::Response { status: *status, body: body@ },
        }
    }
}

impl View for McpAction {
    type V = McpActionView;

    open spec fn view(&self) -> McpActionView {
        match self {
            McpAction::Ignore => McpActionView::Ignore,
            McpAction::ReadRequest => McpActionView::ReadRequest,
            McpAction::Identify(scope) => McpActionView::Identify(scope@),
            McpAction::Bind => McpActionView::Bind,
            McpAction::Load => McpActionView::Load,
            McpAction::Authorize(scope) => McpActionView::Authorize(scope@),
            McpAction::Intercept => McpActionView::Intercept,
            McpAction::Lease => McpActionView::Lease,
            McpAction::Reserve => McpActionView::Reserve,
            McpAction::Claim => McpActionView::Claim,
            McpAction::Send => McpActionView::Send,
            McpAction::Read => McpActionView::Read,
            McpAction::Persist(outcome) => McpActionView::Persist(outcome@),
            McpAction::FindSession => McpActionView::FindSession,
            McpAction::Audit { status, body } => McpActionView::Audit { status: *status, body: body@ },
            McpAction::MarkAudited => McpActionView::MarkAudited,
            McpAction::Answer(answer) => McpActionView::Answer(answer@),
        }
    }
}

/// The HTTP status of an answer.
pub open spec fn answer_status(answer: AnswerView) -> u16 {
    match answer {
        AnswerView::Refusal(e) => errors::error_status(e.kind),
        AnswerView::Internal(_) => 500,
        AnswerView::Conflict(_) => 409,
        AnswerView::Verdict { allowed, .. } => if allowed {
            200
        } else {
            403
        },
        AnswerView::Response { status, .. } => status,
    }
}

impl McpAnswer {
    /// The HTTP status of this answer.
    pub fn status(&self) -> (status: u16)
        ensures
            status == answer_status(self@),
    {
        match self {
            McpAnswer::Refusal(e) => e.status(),
            McpAnswer::Internal(_) => 500,
            McpAnswer::Conflict(_) => 409,
            McpAnswer::Verdict { allowed, .. } => {
                if *allowed {
                    200
                } else {
                    403
                }
            },
            McpAnswer::Response { status, .. } => *status,
        }
    }
}

/// The words for a session that an execution needs and that is not known.
pub open spec fn unknown_session(purpose: Purpose) -> Seq<char> {
    match purpose {
        Purpose::Cached => "unknown session for cached tool result"@,
        Purpose::Audit => "unknown session for pending tool audit"@,
        Purpose::Pending => "unknown session for pending tool execution"@,
    }
}

impl McpView {
    /// A state is well formed when it holds what its stage works on.
    pub open spec fn wf(self) -> bool {
        match self.stage {
            McpStage::Binding => self.execution is Some,
            McpStage::Loading => self.execution is Some,
            McpStage::Authorizing(Purpose::Cached) => self.outcome is Some,
            McpStage::Authorizing(Purpose::Audit) => self.outcome is Some,
            McpStage::Leasing { resume } => resume ==> self.outcome is Some,
            McpStage::Reserving { resume } => resume ==> self.outcome is Some,
            McpStage::Persisting => self.outcome is Some,
            McpStage::Finding => self.outcome is Some,
            McpStage::Marking => self.reply is Some,
            McpStage::Auditing => self.reply is Some,
            McpStage::Identifying => self.execution is Some,
            _ => true,
        }
    }

    /// The state at another stage.
    pub open spec fn at(self, stage: McpStage) -> McpView {
        McpView { stage, ..self }
    }

    /// The end by an answer.
    pub open spec fn answer(self, answer: AnswerView) -> (McpView, McpActionView) {
        (self.at(McpStage::Done), McpActionView::Answer(answer))
    }

    /// The end by an error of the pipeline.
    pub open spec fn refuse(self, error: ErrorView) -> (McpView, McpActionView) {
        self.answer(AnswerView::Refusal(error))
    }

    /// The search for the session's right, for a purpose.
    pub open spec fn authorize(self, purpose: Purpose) -> (McpView, McpActionView) {
        (
            self.at(McpStage::Authorizing(purpose)),
            McpActionView::Authorize("tool:"@ + self.execution->0.tool),
        )
    }

    /// What becomes of a call while its execution is looked at.
    pub open spec fn next_before(self, event: McpEventView) -> (McpView, McpActionView) {
        match (self.stage, event) {
            (McpStage::Requesting, McpEventView::Requested(Err(e))) => self.refuse(e),
            (McpStage::Requesting, McpEventView::Requested(Ok(execution))) => (
                McpView { stage: McpStage::Identifying, execution: Some(execution), ..self },
                McpActionView::Identify("tool:"@ + execution.tool),
            ),
            (McpStage::Identifying, McpEventView::Identified(Some(e))) => self.refuse(e),
            (McpStage::Identifying, McpEventView::Identified(None)) => (
                self.at(McpStage::Binding),
                McpActionView::Bind,
            ),
            (McpStage::Binding, McpEventView::Bound(Err(words))) => self.refuse(errors::bad_request(words)),
            (McpStage::Binding, McpEventView::Bound(Ok(digest))) => (
                McpView {
                    stage: McpStage::Loading,
                    execution: Some(IntentView { principal_digest: digest, ..self.execution->0 }),
                    ..self
                },
                McpActionView::Load,
            ),
            (McpStage::Loading, McpEventView::Loaded(Err(words))) => self.answer(
                if words == tools::TOOL_REQUEST_MISMATCH@ {
                    AnswerView::Conflict(words)
                } else {
                    AnswerView::Internal(words)
                },
            ),
            (McpStage::Loading, McpEventView::Loaded(Ok(state))) => match state {
                ExecutionView::Missing => (self.at(McpStage::Intercepting), McpActionView::Intercept),
                ExecutionView::Pending => self.authorize(Purpose::Pending),
                ExecutionView::Unaudited(outcome) => McpView { outcome: Some(outcome), ..self }.authorize(
                    Purpose::Audit,
                ),
                ExecutionView::Completed(outcome) => McpView { outcome: Some(outcome), ..self }.authorize(
                    Purpose::Cached,
                ),
            },
            (McpStage::Authorizing(purpose), McpEventView::Unknown) => self.refuse(
                errors::bad_request(unknown_session(purpose)),
            ),
            (McpStage::Authorizing(_), McpEventView::Authorized(Some(e))) => self.refuse(e),
            (McpStage::Authorizing(purpose), McpEventView::Authorized(None)) => match purpose {
                Purpose::Pending => self.answer(AnswerView::Conflict(tools::TOOL_OUTCOME_UNCERTAIN@)),
                Purpose::Audit => (self.at(McpStage::Leasing { resume: true }), McpActionView::Lease),
                Purpose::Cached => match tools::answer(self.outcome->0, "decode cached tool response: "@) {
                    Ok((status, body)) => self.answer(AnswerView::Response { status, body }),
                    Err(words) => self.answer(AnswerView::Internal(words)),
                },
            },
            _ => (self, McpActionView::Ignore),
        }
    }

    /// What becomes of a call while it is let through and run.
    pub open spec fn next_run(self, event: McpEventView) -> (McpView, McpActionView) {
        match (self.stage, event) {
            (McpStage::Intercepting, McpEventView::Intercepted(Err(e))) => self.refuse(e),
            (McpStage::Intercepting, McpEventView::Intercepted(Ok(verdict))) => if verdict is Allowed
                && self.forwards {
                (self.at(McpStage::Leasing { resume: false }), McpActionView::Lease)
            } else {
                self.answer(
                    AnswerView::Verdict {
                        allowed: verdict is Allowed,
                        document: interception::verdict_tree(verdict),
                    },
                )
            },
            (McpStage::Leasing { resume }, McpEventView::Leased(leased)) => match leased {
                None => self.refuse(errors::bad_request("unknown session"@)),
                Some(false) => self.refuse(errors::bad_request("session is already closed"@)),
                Some(true) => (self.at(McpStage::Reserving { resume }), McpActionView::Reserve),
            },
            (McpStage::Reserving { .. }, McpEventView::Reserved(Some(words))) => self.refuse(
                errors::unavailable(words),
            ),
            (McpStage::Reserving { resume }, McpEventView::Reserved(None)) => if resume {
                (self.at(McpStage::Finding), McpActionView::FindSession)
            } else {
                (self.at(McpStage::Claiming), McpActionView::Claim)
            },
            (McpStage::Claiming, McpEventView::Claimed(given)) => if given {
                (self.at(McpStage::Sending), McpActionView::Send)
            } else {
                self.answer(AnswerView::Conflict(tools::TOOL_OUTCOME_UNCERTAIN@))
            },
            (McpStage::Sending, McpEventView::Sent(Err(fault))) => self.refuse(
                errors::upstream("forward tool call: "@ + upstream::upstream_words(fault)),
            ),
            (McpStage::Sending, McpEventView::Sent(Ok(status))) => (
                McpView { stage: McpStage::Reading, status, ..self },
                McpActionView::Read,
            ),
            (McpStage::Reading, McpEventView::Read(Err(words))) => self.refuse(
                errors::upstream("read tool response: "@ + words),
            ),
            (McpStage::Reading, McpEventView::Read(Ok(body))) => {
                let outcome = OutcomeView { status: self.status, body_hex: crate::seed::hex_text(body) };
                (
                    McpView { stage: McpStage::Persisting, outcome: Some(outcome), ..self },
                    McpActionView::Persist(outcome),
                )
            },
            (McpStage::Persisting, McpEventView::Persisted(Some(words))) => self.answer(
                AnswerView::Internal(words),
            ),
            (McpStage::Persisting, McpEventView::Persisted(None)) => (
                self.at(McpStage::Finding),
                McpActionView::FindSession,
            ),
            (McpStage::Finding, McpEventView::SessionFound(false)) => self.answer(
                AnswerView::Internal("tool session disappeared"@),
            ),
            (McpStage::Finding, McpEventView::SessionFound(true)) => match tools::answer(
                self.outcome->0,
                "decode tool response: "@,
            ) {
                Err(words) => self.answer(AnswerView::Internal(words)),
                Ok((status, body)) => (
                    McpView { stage: McpStage::Auditing, reply: Some((status, body)), ..self },
                    McpActionView::Audit { status, body },
                ),
            },
            (McpStage::Auditing, McpEventView::Captured { failed }) => if failed {
                self.answer(AnswerView::Internal("tool completed but completion audit failed"@))
            } else {
                (self.at(McpStage::Marking), McpActionView::MarkAudited)
            },
            (McpStage::Marking, McpEventView::Marked(Some(words))) => self.answer(AnswerView::Internal(words)),
            (McpStage::Marking, McpEventView::Marked(None)) => self.answer(
                AnswerView::Response { status: (self.reply->0).0, body: (self.reply->0).1 },
            ),
            _ => (self, McpActionView::Ignore),
        }
    }

    /// Whether the execution of a call is still being looked at.
    pub open spec fn is_early(self) -> bool {
        match self.stage {
            McpStage::Requesting | McpStage::Identifying | McpStage::Binding | McpStage::Loading
            | McpStage::Authorizing(_) => true,
            _ => false,
        }
    }

    /// What becomes of a call when something happens, and what is to be
    /// done.
    pub open spec fn next(self, event: McpEventView) -> (McpView, McpActionView) {
        if self.is_early() {
            self.next_before(event)
        } else {
            self.next_run(event)
        }
    }
}

/// The state in which the way of a call begins.
pub open spec fn fresh_call(forwards: bool) -> McpView {
    McpView {
        forwards,
        stage: if forwards {
            McpStage::Requesting
        } else {
            McpStage::Intercepting
        },
        execution: None,
        status: 0,
        outcome: None,
        reply: None,
    }
}

impl McpFlow {
    /// The call, once it is known.
    pub fn execution(&self) -> (execution: Option<&ToolExecution>)
        ensures
            match execution {
                Some(call) => self@.execution == Some(call@),
                None => self@.execution is None,
            },
    {
        self.execution.as_ref()
    }

    /// Begins the way of a call. A call that is not forwarded is only
    /// intercepted.
    pub fn new(forwards: bool) -> (begun: (McpFlow, McpAction))
        ensures
            begun.0@ == fresh_call(forwards),
            begun.0@.wf(),
            begun.1@ == (if forwards {
                McpActionView::ReadRequest
            } else {
                McpActionView::Intercept
            }),
    {
        if forwards {
            (
                McpFlow {
                    forwards,
                    stage: McpStage::Requesting,
                    execution: None,
                    status: 0,
                    outcome: None,
                    reply: None,
                },
                McpAction::ReadRequest,
            )
        } else {
            (
                McpFlow {
                    forwards,
                    stage: McpStage::Intercepting,
                    execution: None,
                    status: 0,
                    outcome: None,
                    reply: None,
                },
                McpAction::Intercept,
            )
        }
    }

    /// Ends by an answer.
    fn answer(&mut self, answer: McpAnswer) -> (action: McpAction)
        ensures
            (final(self)@, action@) == old(self)@.answer(answer@),
            final(self)@.wf(),
    {
        self.stage = McpStage::Done;
        McpAction::Answer(answer)
    }

    /// Ends by an error of the pipeline.
    fn refuse(&mut self, error: PipelineError) -> (action: McpAction)
        ensures
            (final(self)@, action@) == old(self)@.refuse(error@),
            final(self)@.wf(),
    {
        self.answer(McpAnswer::Refusal(error))
    }

    /// Goes on to a stage.
    fn go(&mut self, stage: McpStage, action: McpAction) -> (taken: McpAction)
        requires
            old(self)@.at(stage).wf(),
        ensures
            (final(self)@, taken@) == (old(self)@.at(stage), action@),
            final(self)@.wf(),
    {
        self.stage = stage;
        action
    }

    /// Goes on to the session's right, for a purpose.
    fn authorize(&mut self, purpose: Purpose) -> (action: McpAction)
        requires
            old(self)@.execution is Some,
            old(self)@.at(McpStage::Authorizing(purpose)).wf(),
        ensures
            (final(self)@, action@) == old(self)@.authorize(purpose),
            final(self)@.wf(),
    {
        let scope: String = match &self.execution {
            Some(e) => identity::tool_scope(e.tool.as_str()),
            None => String::new(),
        };
        self.go(McpStage::Authorizing(purpose), McpAction::Authorize(scope))
    }

    /// Looks at how far the execution has come.
    fn step_loaded(&mut self, loaded: Result<ToolExecutionState, String>) -> (action: McpAction)
        requires
            old(self)@.wf(),
            old(self)@.stage == McpStage::Loading,
        ensures
            (final(self)@, action@) == old(self)@.next_before(McpEvent::Loaded(loaded)@),
            final(self)@.wf(),
    {
        match loaded {
            Err(words) => {
                if text::same_text(words.as_str(), tools::TOOL_REQUEST_MISMATCH) {
                    self.answer(McpAnswer::Conflict(words))
                } else {
                    self.answer(McpAnswer::Internal(words))
                }
            },
            Ok(ToolExecutionState::Missing) => self.go(McpStage::Intercepting, McpAction::Intercept),
            Ok(ToolExecutionState::Pending) => self.authorize(Purpose::Pending),
            Ok(ToolExecutionState::Unaudited(outcome)) => {
                self.outcome = Some(outcome);
                self.authorize(Purpose::Audit)
            },
            Ok(ToolExecutionState::Completed(outcome)) => {
                self.outcome = Some(outcome);
                self.authorize(Purpose::Cached)
            },
        }
    }

    /// Looks at the agent's right to the session.
    fn step_authorized(&mut self, purpose: Purpose, authorized: Option<Result<(), PipelineError>>) -> (action: McpAction)
        requires
            old(self)@.wf(),
            old(self)@.stage == McpStage::Authorizing(purpose),
        ensures
            (final(self)@, action@) == old(self)@.next_before(McpEvent::Authorized(authorized)@),
            final(self)@.wf(),
    {
        match authorized {
            None => {
                let words: String = match purpose {
                    Purpose::Cached => "unknown session for cached tool result".to_owned(),
                    Purpose::Audit => "unknown session for pending tool audit".to_owned(),
                    Purpose::Pending => "unknown session for pending tool execution".to_owned(),
                };
                self.refuse(PipelineError::BadRequest(words))
            },
            Some(Err(e)) => self.refuse(e),
            Some(Ok(())) => match purpose {
                Purpose::Pending => self.answer(
                    McpAnswer::Conflict(tools::TOOL_OUTCOME_UNCERTAIN.to_owned()),
                ),
                Purpose::Audit => self.go(McpStage::Leasing { resume: true }, McpAction::Lease),
                Purpose::Cached => {
                    let read: Result<(u16, Vec<u8>), String> = match &self.outcome {
                        Some(outcome) => outcome.read("decode cached tool response: "),
                        None => Err(String::new()),
                    };
                    match read {
                        Ok((status, body)) => self.answer(McpAnswer::Response { status, body }),
                        Err(words) => self.answer(McpAnswer::Internal(words)),
                    }
                },
            },
        }
    }

    /// Takes a step while the execution is looked at.
    fn step_before(&mut self, event: McpEvent) -> (action: McpAction)
        requires
            old(self)@.wf(),
        ensures
            (final(self)@, action@) == old(self)@.next_before(event@),
            final(self)@.wf(),
    {
        match event {
            McpEvent::Requested(requested) => {
                if self.stage == McpStage::Requesting {
                    return match requested {
                        Err(e) => self.refuse(e),
                        Ok(execution) => {
                            let scope: String = identity::tool_scope(execution.tool.as_str());
                            self.execution = Some(execution);
                            self.go(McpStage::Identifying, McpAction::Identify(scope))
                        },
                    };
                }
            },
            McpEvent::Identified(identified) => {
                if self.stage == McpStage::Identifying {
                    return match identified {
                        Err(e) => self.refuse(e),
                        Ok(()) => self.go(McpStage::Binding, McpAction::Bind),
                    };
                }
            },
            McpEvent::Bound(digest) => {
                if self.stage == McpStage::Binding {
                    let mut execution: ToolExecution = match self.execution.take() {
                        Some(e) => e,
                        None => {
                            return McpAction::Ignore;
                        },
                    };
                    let bound: Result<(), PipelineError> = execution.bind_principal(digest);
                    self.execution = Some(execution);
                    return match bound {
                        Err(e) => self.refuse(e),
                        Ok(()) => self.go(McpStage::Loading, McpAction::Load),
                    };
                }
            },
            McpEvent::Loaded(loaded) => {
                if self.stage == McpStage::Loading {
                    return self.step_loaded(loaded);
                }
            },
            McpEvent::Authorized(authorized) => {
                if let McpStage::Authorizing(purpose) = self.stage {
                    return self.step_authorized(purpose, authorized);
                }
            },
            _ => {},
        }
        McpAction::Ignore
    }

    /// Looks at the lease of the session.
    fn step_leased(&mut self, resume: bool, leased: Option<bool>) -> (action: McpAction)
        requires
            old(self)@.wf(),
            old(self)@.stage == (McpStage::Leasing { resume }),
        ensures
            (final(self)@, action@) == old(self)@.next_run(McpEventView::Leased(leased)),
            final(self)@.wf(),
    {
        match admission::lease_session(leased) {
            Some(e) => self.refuse(e),
            None => self.go(McpStage::Reserving { resume }, McpAction::Reserve),
        }
    }

    /// Looks at the session that the answer belongs to.
    fn step_found(&mut self, found: bool) -> (action: McpAction)
        requires
            old(self)@.wf(),
            old(self)@.stage == McpStage::Finding,
        ensures
            (final(self)@, action@) == old(self)@.next_run(McpEventView::SessionFound(found)),
            final(self)@.wf(),
    {
        if !found {
            return self.answer(McpAnswer::Internal("tool session disappeared".to_owned()));
        }
        let read: Result<(u16, Vec<u8>), String> = match &self.outcome {
            Some(outcome) => outcome.read("decode tool response: "),
            None => Err(String::new()),
        };
        match read {
            Err(words) => self.answer(McpAnswer::Internal(words)),
            Ok((status, body)) => {
                let kept: Vec<u8> = body.clone();
                self.reply = Some((status, kept));
                self.go(McpStage::Auditing, McpAction::Audit { status, body })
            },
        }
    }

    /// Takes a step while the call is let through and run.
    fn step_run(&mut self, event: McpEvent) -> (action: McpAction)
        requires
            old(self)@.wf(),
        ensures
            (final(self)@, action@) == old(self)@.next_run(event@),
            final(self)@.wf(),
    {
        match event {
            McpEvent::Intercepted(intercepted) => {
                if self.stage == McpStage::Intercepting {
                    return match intercepted {
                        Err(e) => self.refuse(e),
                        Ok(verdict) => {
                            let allowed: bool = match &verdict {
                                ToolVerdict::Allowed { .. } => true,
                                ToolVerdict::Blocked { .. } => false,
                            };
                            if allowed && self.forwards {
                                self.go(McpStage::Leasing { resume: false }, McpAction::Lease)
                            } else {
                                let document: Json = interception::verdict_document(&verdict);
                                self.answer(McpAnswer::Verdict { allowed, document })
                            }
                        },
                    };
                }
            },
            McpEvent::Leased(leased) => {
                if let McpStage::Leasing { resume } = self.stage {
                    return self.step_leased(resume, leased);
                }
            },
            McpEvent::Reserved(outcome) => {
                if let McpStage::Reserving { resume } = self.stage {
                    return match outcome {
                        Err(words) => self.refuse(PipelineError::Unavailable(words)),
                        Ok(()) => {
                            if resume {
                                self.go(McpStage::Finding, McpAction::FindSession)
                            } else {
                                self.go(McpStage::Claiming, McpAction::Claim)
                            }
                        },
                    };
                }
            },
            McpEvent::Claimed(outcome) => {
                if self.stage == McpStage::Claiming {
                    return match outcome {
                        Ok(()) => self.go(McpStage::Sending, McpAction::Send),
                        Err(_) => self.answer(McpAnswer::Conflict(tools::TOOL_OUTCOME_UNCERTAIN.to_owned())),
                    };
                }
            },
            McpEvent::Sent(sent) => {
                if self.stage == McpStage::Sending {
                    return match sent {
                        Err(fault) => {
                            let words: String = text::concat2(
                                "forward tool call: ",
                                upstream::classify_upstream_error(fault),
                            );
                            self.refuse(PipelineError::Upstream(words))
                        },
                        Ok(status) => {
                            self.status = status;
                            self.go(McpStage::Reading, McpAction::Read)
                        },
                    };
                }
            },
            McpEvent::Read(read) => {
                if self.stage == McpStage::Reading {
                    return match read {
                        Err(words) => self.refuse(
                            PipelineError::Upstream(text::concat2("read tool response: ", words.as_str())),
                        ),
                        Ok(body) => {
                            let kept: ToolOutcome = ToolOutcome::record(self.status, body.as_slice());
                            let outcome: ToolOutcome = ToolOutcome::record(self.status, body.as_slice());
                            self.outcome = Some(kept);
                            self.go(McpStage::Persisting, McpAction::Persist(outcome))
                        },
                    };
                }
            },
            McpEvent::Persisted(outcome) => {
                if self.stage == McpStage::Persisting {
                    return match outcome {
                        Err(words) => self.answer(McpAnswer::Internal(words)),
                        Ok(()) => self.go(McpStage::Finding, McpAction::FindSession),
                    };
                }
            },
            McpEvent::SessionFound(found) => {
                if self.stage == McpStage::Finding {
                    return self.step_found(found);
                }
            },
            McpEvent::Captured { failed } => {
                if self.stage == McpStage::Auditing {
                    if failed {
                        return self.answer(
                            McpAnswer::Internal("tool completed but completion audit failed".to_owned()),
                        );
                    }
                    return self.go(McpStage::Marking, McpAction::MarkAudited);
                }
            },
            McpEvent::Marked(outcome) => {
                if self.stage == McpStage::Marking {
                    return match outcome {
                        Err(words) => self.answer(McpAnswer::Internal(words)),
                        Ok(()) => {
                            let (status, body) = match self.reply.take() {
                                Some(reply) => reply,
                                None => {
                                    return McpAction::Ignore;
                                },
                            };
                            let kept: Vec<u8> = body.clone();
                            self.reply = Some((status, kept));
                            self.answer(McpAnswer::Response { status, body })
                        },
                    };
                }
            },
            _ => {},
        }
        McpAction::Ignore
    }

    /// Takes one step on the way of the call.
    pub fn step(&mut self, event: McpEvent) -> (action: McpAction)
        requires
            old(self)@.wf(),
        ensures
            (final(self)@, action@) == old(self)@.next(event@),
            final(self)@.wf(),
    {
        match self.stage {
            McpStage::Requesting | McpStage::Identifying | McpStage::Binding | McpStage::Loading
            | McpStage::Authorizing(_) => self.step_before(event),
            _ => self.step_run(event),
        }
    }
}

/// A call after a number of events.
pub open spec fn run(forwards: bool, events: Seq<McpEventView>) -> McpView
    decreases events.len(),
{
    if events.len() == 0 {
        fresh_call(forwards)
    } else {
        run(forwards, events.drop_last()).next(events.last()).0
    }
}

/// Whether something happened on the way of a call.
pub open spec fn happened(events: Seq<McpEventView>, event: McpEventView) -> bool {
    events.contains(event)
}

/// Whether an event is a verdict that allows the call.
pub open spec fn allows(event: McpEventView) -> bool {
    event matches McpEventView::Intercepted(Ok(verdict)) && verdict is Allowed
}

/// A tool is called only for an execution that had not begun, that the
/// interception allowed, and whose claim this call won.
pub proof fn law_tools_are_called_once(forwards: bool, events: Seq<McpEventView>, event: McpEventView)
    requires
        run(forwards, events).next(event).1 == McpActionView::Send,
    ensures
        forwards,
        happened(events, McpEventView::Loaded(Ok(ExecutionView::Missing))),
        exists|i: int| 0 <= i < events.len() && allows(#[trigger] events[i]),
        happened(events, McpEventView::Leased(Some(true))),
        happened(events, McpEventView::Reserved(None)),
        event == McpEventView::Claimed(true),
{
    lemma_way(forwards, events);
}

/// The stages that a call reaches only once its execution was found not to
/// have begun.
spec fn is_new(stage: McpStage) -> bool {
    match stage {
        McpStage::Intercepting | McpStage::Claiming | McpStage::Sending | McpStage::Reading | McpStage::Persisting => true,
        McpStage::Leasing { resume } => !resume,
        McpStage::Reserving { resume } => !resume,
        _ => false,
    }
}

/// What lies behind a call at each stage.
proof fn lemma_way(forwards: bool, events: Seq<McpEventView>)
    ensures
        ({
            let s = run(forwards, events);
            &&& s.forwards == forwards
            &&& is_new(s.stage) && forwards ==> happened(events, McpEventView::Loaded(Ok(ExecutionView::Missing)))
            &&& is_new(s.stage) && s.stage != McpStage::Intercepting ==> forwards && (exists|i: int|
                0 <= i < events.len() && allows(#[trigger] events[i]))
            &&& (s.stage == (McpStage::Reserving { resume: false }) || s.stage == McpStage::Claiming) ==> happened(
                events,
                McpEventView::Leased(Some(true)),
            )
            &&& s.stage == McpStage::Claiming ==> happened(events, McpEventView::Reserved(None))
        }),
    decreases events.len(),
{
    if events.len() > 0 {
        let rest = events.drop_last();
        lemma_way(forwards, rest);
        assert forall|e: McpEventView| rest.contains(e) implies events.contains(e) by {
            let i = rest.index_of(e);
            assert(events[i] == e);
        }
        assert forall|i: int| 0 <= i < rest.len() implies #[trigger] rest[i] == events[i] by {}
        assert(events[events.len() - 1] == events.last());
        assert(events.contains(events.last()));
    }
}

/// The answer of a tool server goes out only when it is stored and its audit
/// is complete: just marked, or marked before.
pub proof fn law_answers_are_audited_first(flow: McpView, event: McpEventView)
    requires
        flow.next(event).1 matches McpActionView::Answer(answer) && answer is Response,
    ensures
        flow.stage == McpStage::Marking && event == McpEventView::Marked(None) || flow.stage
            == McpStage::Authorizing(Purpose::Cached) && event == McpEventView::Authorized(None),
{
}

/// A lost race for an execution is answered with the same words as an
/// execution that has begun and not ended.
pub proof fn law_lost_races_look_alike(lost: McpView, pending: McpView)
    requires
        lost.stage == McpStage::Claiming,
        pending.stage == McpStage::Authorizing(Purpose::Pending),
    ensures
        lost.next(McpEventView::Claimed(false)).1 == pending.next(McpEventView::Authorized(None)).1,
{
}

/// Whether an answer was stored by an earlier call of the execution.
pub open spec fn was_stored(events: Seq<McpEventView>, outcome: OutcomeView) -> bool {
    happened(events, McpEventView::Loaded(Ok(ExecutionView::Unaudited(outcome)))) || happened(
        events,
        McpEventView::Loaded(Ok(ExecutionView::Completed(outcome))),
    )
}

/// Whether the tool server answered so, in this call.
pub open spec fn was_sent(events: Seq<McpEventView>, status: u16, body: Seq<u8>) -> bool {
    happened(events, McpEventView::Sent(Ok(status))) && happened(events, McpEventView::Read(Ok(body)))
}

/// Where the answer that a call holds comes from.
proof fn lemma_outcomes(forwards: bool, events: Seq<McpEventView>)
    ensures
        ({
            let s = run(forwards, events);
            &&& s.stage == McpStage::Reading ==> happened(events, McpEventView::Sent(Ok(s.status)))
            &&& s.outcome matches Some(outcome) ==> was_stored(events, outcome) || exists|status: u16, body: Seq<u8>| #[trigger]
                was_sent(events, status, body) && outcome == (OutcomeView { status, body_hex: crate::seed::hex_text(body) })
            &&& s.reply matches Some((status, body)) ==> s.outcome is Some && tools::answer(
                s.outcome->0,
                "decode tool response: "@,
            ) == Ok::<(u16, Seq<u8>), Seq<char>>((status, body))
            &&& s.wf()
            &&& !(s.stage == McpStage::Auditing || s.stage == McpStage::Marking || s.stage == McpStage::Done) ==> s.reply is None
        }),
    decreases events.len(),
{
    if events.len() > 0 {
        let rest = events.drop_last();
        lemma_outcomes(forwards, rest);
        let before = run(forwards, rest);
        let after = run(forwards, events);
        assert forall|e: McpEventView| rest.contains(e) implies events.contains(e) by {
            let i = rest.index_of(e);
            assert(events[i] == e);
        }
        assert(events[events.len() - 1] == events.last());
        assert(events.contains(events.last()));
        if after.outcome == before.outcome {
            if let Some(outcome) = before.outcome {
                if !was_stored(rest, outcome) {
                    let (status, body) = choose|status: u16, body: Seq<u8>| #[trigger]
                        was_sent(rest, status, body) && outcome == (OutcomeView {
                            status,
                            body_hex: crate::seed::hex_text(body),
                        });
                    assert(was_sent(events, status, body));
                }
            }
        } else if before.stage == McpStage::Reading {
            if let McpEventView::Read(Ok(body)) = events.last() {
                assert(was_sent(events, before.status, body));
            }
        }
    }
}

/// A client gets the answer of the tool server as it came: its bytes whole,
/// and its status, unless that is no HTTP status. It is the answer to this
/// call, or the one that is stored for its execution.
pub proof fn law_clients_get_the_answer_of_the_tool(forwards: bool, events: Seq<McpEventView>, event: McpEventView)
    requires
        run(forwards, events).next(event).1 matches McpActionView::Answer(answer) && answer is Response,
    ensures
        run(forwards, events).next(event).1 matches McpActionView::Answer(AnswerView::Response { status, body }) && ((
        exists|sent: u16| #[trigger]
            was_sent(events, sent, body) && (if 100 <= sent <= 999 {
                status == sent
            } else {
                status == 502
            })) || (exists|outcome: OutcomeView| #[trigger]
            was_stored(events, outcome) && crate::seed::hex_bytes(outcome.body_hex) == Some(body) && (if 100
                <= outcome.status <= 999 {
                status == outcome.status
            } else {
                status == 502
            }))),
{
    lemma_outcomes(forwards, events);
    let s = run(forwards, events);
    let outcome = s.outcome->0;
    if let McpActionView::Answer(AnswerView::Response { status, body }) = s.next(event).1 {
        if !was_stored(events, outcome) {
            let (sent, came) = choose|sent: u16, came: Seq<u8>| #[trigger]
                was_sent(events, sent, came) && outcome == (OutcomeView { status: sent, body_hex: crate::seed::hex_text(came) });
            crate::seed::law_hex_round_trips(came);
            assert(body == came);
            assert(was_sent(events, sent, body));
        }
    }
}

/// What is stored of a tool server's answer is its status and its bytes, what
/// is audited is what is stored, and what goes out is what was audited.
pub proof fn law_the_audited_answer_goes_out(flow: McpView, body: Seq<u8>)
    ensures
        flow.stage == McpStage::Reading ==> flow.next(McpEventView::Read(Ok(body))).1 == McpActionView::Persist(
            OutcomeView { status: flow.status, body_hex: crate::seed::hex_text(body) },
        ),
        flow.stage == McpStage::Finding && flow.next(McpEventView::SessionFound(true)).1 is Audit ==> ({
            let (auditing, action) = flow.next(McpEventView::SessionFound(true));
            let (marking, mark) = auditing.next(McpEventView::Captured { failed: false });
            &&& mark == McpActionView::MarkAudited
            &&& action matches McpActionView::Audit { status, body }
            &&& marking.next(McpEventView::Marked(None)).1 == McpActionView::Answer(AnswerView::Response { status, body })
        }),
{
}

/// A call that comes to grief says so, and never as an answer of the tool: a
/// session that is unknown or closed is a bad request, a server that cannot
/// be reached or read an upstream failure, and an answer that could not be
/// stored, audited or marked an internal failure.
pub proof fn law_failed_calls_are_told_apart(flow: McpView, words: Seq<char>, fault: HttpFault, error: ErrorView)
    ensures
        flow.stage == McpStage::Requesting ==> flow.next(McpEventView::Requested(Err(error))).1 == McpActionView::Answer(
            AnswerView::Refusal(error),
        ),
        flow.stage == McpStage::Identifying ==> flow.next(McpEventView::Identified(Some(error))).1
            == McpActionView::Answer(AnswerView::Refusal(error)),
        flow.stage == McpStage::Intercepting ==> flow.next(McpEventView::Intercepted(Err(error))).1
            == McpActionView::Answer(AnswerView::Refusal(error)),
        flow.stage is Authorizing ==> flow.next(McpEventView::Authorized(Some(error))).1 == McpActionView::Answer(
            AnswerView::Refusal(error),
        ),
        flow.stage is Authorizing ==> (flow.next(McpEventView::Unknown).1 matches McpActionView::Answer(
            AnswerView::Refusal(e),
        ) && e.kind == ErrorKind::BadRequest),
        flow.stage is Leasing ==> (flow.next(McpEventView::Leased(None)).1 matches McpActionView::Answer(
            AnswerView::Refusal(e),
        ) && e.kind == ErrorKind::BadRequest),
        flow.stage is Leasing ==> (flow.next(McpEventView::Leased(Some(false))).1 matches McpActionView::Answer(
            AnswerView::Refusal(e),
        ) && e.kind == ErrorKind::BadRequest),
        flow.stage is Reserving ==> (flow.next(McpEventView::Reserved(Some(words))).1 matches McpActionView::Answer(
            AnswerView::Refusal(e),
        ) && e.kind == ErrorKind::Unavailable && e.detail == words),
        flow.stage == McpStage::Sending ==> (flow.next(McpEventView::Sent(Err(fault))).1 matches McpActionView::Answer(
            AnswerView::Refusal(e),
        ) && e.kind == ErrorKind::Upstream),
        flow.stage == McpStage::Reading ==> (flow.next(McpEventView::Read(Err(words))).1 matches McpActionView::Answer(
            AnswerView::Refusal(e),
        ) && e.kind == ErrorKind::Upstream),
        flow.stage == McpStage::Persisting ==> flow.next(McpEventView::Persisted(Some(words))).1 == McpActionView::Answer(
            AnswerView::Internal(words),
        ),
        flow.stage == McpStage::Finding ==> (flow.next(McpEventView::SessionFound(false)).1 matches McpActionView::Answer(
            AnswerView::Internal(_),
        )),
        flow.stage == McpStage::Auditing ==> (flow.next(McpEventView::Captured { failed: true }).1
            matches McpActionView::Answer(AnswerView::Internal(_))),
        flow.stage == McpStage::Marking ==> flow.next(McpEventView::Marked(Some(words))).1 == McpActionView::Answer(
            AnswerView::Internal(words),
        ),
{
}

/// An execution that is used for another request is a conflict; one whose
/// files cannot be trusted is an internal failure.
pub proof fn law_reused_ids_are_conflicts(flow: McpView, words: Seq<char>)
    requires
        flow.stage == McpStage::Loading,
    ensures
        words == tools::TOOL_REQUEST_MISMATCH@ ==> flow.next(McpEventView::Loaded(Err(words))).1 == McpActionView::Answer(
            AnswerView::Conflict(words),
        ),
        words != tools::TOOL_REQUEST_MISMATCH@ ==> flow.next(McpEventView::Loaded(Err(words))).1 == McpActionView::Answer(
            AnswerView::Internal(words),
        ),
{
}

/// A stored answer goes out, or is audited first, only to an agent that may
/// act on its session, in the scope of the tool.
pub proof fn law_stored_answers_need_the_scope_of_the_tool(flow: McpView, execution: IntentView, outcome: OutcomeView)
    requires
        flow.stage == McpStage::Loading,
        flow.execution == Some(execution),
    ensures
        flow.next(McpEventView::Loaded(Ok(ExecutionView::Completed(outcome)))).1 == McpActionView::Authorize(
            "tool:"@ + execution.tool,
        ),
        flow.next(McpEventView::Loaded(Ok(ExecutionView::Unaudited(outcome)))).1 == McpActionView::Authorize(
            "tool:"@ + execution.tool,
        ),
        flow.next(McpEventView::Loaded(Ok(ExecutionView::Pending))).1 == McpActionView::Authorize(
            "tool:"@ + execution.tool,
        ),
        flow.next(McpEventView::Loaded(Ok(ExecutionView::Missing))).1 == McpActionView::Intercept,
        flow.next(McpEventView::Loaded(Ok(ExecutionView::Unaudited(outcome)))).0.next(McpEventView::Authorized(None)).1
            == McpActionView::Lease,
        flow.next(McpEventView::Loaded(Ok(ExecutionView::Pending))).0.next(McpEventView::Authorized(None)).1
            matches McpActionView::Answer(AnswerView::Conflict(_)),
{
}

/// A verdict that blocks a call is the answer to it, and nothing is sent;
/// without a tool server every verdict is.
pub proof fn law_blocked_calls_are_answered_with_the_verdict(flow: McpView, verdict: VerdictView)
    requires
        flow.stage == McpStage::Intercepting,
    ensures
        ({
            let action = flow.next(McpEventView::Intercepted(Ok(verdict))).1;
            &&& action == McpActionView::Lease <==> flow.forwards && verdict is Allowed
            &&& verdict matches VerdictView::Blocked { response, .. } ==> action == McpActionView::Answer(
                AnswerView::Verdict { allowed: false, document: response },
            )
            &&& verdict is Allowed && !flow.forwards ==> (action matches McpActionView::Answer(
                AnswerView::Verdict { allowed, .. },
            ) && allowed)
        }),
{
}

/// The status of an answer tells what it is: 200 and 403 a verdict, 409 a
/// conflict, 500 an internal failure, and the tool server's own its answer.
pub proof fn law_statuses_of_answers(answer: AnswerView)
    ensures
        match answer {
            AnswerView::Response { status, .. } => answer_status(answer) == status,
            AnswerView::Verdict { allowed, .. } => if allowed {
                answer_status(answer) == 200
            } else {
                answer_status(answer) == 403
            },
            AnswerView::Conflict(_) => answer_status(answer) == 409,
            AnswerView::Internal(_) => answer_status(answer) == 500,
            AnswerView::Refusal(e) => match e.kind {
                ErrorKind::BadRequest => answer_status(answer) == 400,
                ErrorKind::Unauthorized => answer_status(answer) == 401,
                ErrorKind::Blocked => answer_status(answer) == 403,
                ErrorKind::Abort => answer_status(answer) == 409,
                ErrorKind::Upstream => answer_status(answer) == 502,
                ErrorKind::Unavailable => answer_status(answer) == 503,
            },
        },
{
}

/// A new call that meets no obstacle goes all the way: it is bound to its
/// agent, found not to have begun, let through, claimed, sent once, its answer
/// stored, audited and marked, and goes out.
pub proof fn law_smooth_calls_go_all_the_way(execution: IntentView, digest: Seq<char>, verdict: VerdictView, status: u16, body: Seq<u8>)
    requires
        verdict is Allowed,
        100 <= status <= 999,
    ensures
        ({
            let s0 = run(true, Seq::empty());
            let (s1, a1) = s0.next(McpEventView::Requested(Ok(execution)));
            let (s2, a2) = s1.next(McpEventView::Identified(None));
            let (s3, a3) = s2.next(McpEventView::Bound(Ok(digest)));
            let (s4, a4) = s3.next(McpEventView::Loaded(Ok(ExecutionView::Missing)));
            let (s5, a5) = s4.next(McpEventView::Intercepted(Ok(verdict)));
            let (s6, a6) = s5.next(McpEventView::Leased(Some(true)));
            let (s7, a7) = s6.next(McpEventView::Reserved(None));
            let (s8, a8) = s7.next(McpEventView::Claimed(true));
            let (s9, a9) = s8.next(McpEventView::Sent(Ok(status)));
            let (s10, a10) = s9.next(McpEventView::Read(Ok(body)));
            let (s11, a11) = s10.next(McpEventView::Persisted(None));
            let (s12, a12) = s11.next(McpEventView::SessionFound(true));
            let (s13, a13) = s12.next(McpEventView::Captured { failed: false });
            let (s14, a14) = s13.next(McpEventView::Marked(None));
            &&& a1 == McpActionView::Identify("tool:"@ + execution.tool)
            &&& a2 == McpActionView::Bind
            &&& a3 == McpActionView::Load
            &&& s3.execution == Some(IntentView { principal_digest: digest, ..execution })
            &&& a4 == McpActionView::Intercept
            &&& a5 == McpActionView::Lease
            &&& a6 == McpActionView::Reserve
            &&& a7 == McpActionView::Claim
            &&& a8 == McpActionView::Send
            &&& a9 == McpActionView::Read
            &&& a10 == McpActionView::Persist(OutcomeView { status, body_hex: crate::seed::hex_text(body) })
            &&& a11 == McpActionView::FindSession
            &&& a12 == (McpActionView::Audit { status, body })
            &&& a13 == McpActionView::MarkAudited
            &&& a14 == McpActionView::Answer(AnswerView::Response { status, body })
            &&& s14.stage == McpStage::Done
        }),
{
    tools::law_stored_answers_are_read_back(status, body, "decode tool response: "@);
}

/// An answer that was stored and not audited is audited and goes out, and the
/// tool is not called again; one that was audited goes out as it is.
pub proof fn law_stored_answers_go_out(flow: McpView, status: u16, body: Seq<u8>)
    requires
        flow.stage == McpStage::Loading,
        flow.execution is Some,
        100 <= status <= 999,
    ensures
        ({
            let outcome = OutcomeView { status, body_hex: crate::seed::hex_text(body) };
            let s1 = flow.next(McpEventView::Loaded(Ok(ExecutionView::Unaudited(outcome)))).0;
            let (s2, a2) = s1.next(McpEventView::Authorized(None));
            let (s3, a3) = s2.next(McpEventView::Leased(Some(true)));
            let (s4, a4) = s3.next(McpEventView::Reserved(None));
            let (s5, a5) = s4.next(McpEventView::SessionFound(true));
            let (s6, a6) = s5.next(McpEventView::Captured { failed: false });
            let (s7, a7) = s6.next(McpEventView::Marked(None));
            &&& a2 == McpActionView::Lease && a3 == McpActionView::Reserve && a4 == McpActionView::FindSession
            &&& a5 == (McpActionView::Audit { status, body }) && a6 == McpActionView::MarkAudited
            &&& a7 == McpActionView::Answer(AnswerView::Response { status, body })
        }),
        ({
            let outcome = OutcomeView { status, body_hex: crate::seed::hex_text(body) };
            let s1 = flow.next(McpEventView::Loaded(Ok(ExecutionView::Completed(outcome)))).0;
            s1.next(McpEventView::Authorized(None)).1 == McpActionView::Answer(AnswerView::Response { status, body })
        }),
{
    tools::law_stored_answers_are_read_back(status, body, "decode tool response: "@);
    tools::law_stored_answers_are_read_back(status, body, "decode cached tool response: "@);
}

/// A call that is answered is over: nothing more is done for it.
pub proof fn law_answered_calls_rest(flow: McpView, event: McpEventView)
    ensures
        flow.next(event).1 is Answer ==> flow.next(event).0.stage == McpStage::Done,
        flow.stage == McpStage::Done ==> flow.next(event) == (flow, McpActionView::Ignore),
{
}

/// What fails once the tool has answered is a failure of the harness, told
/// for what it is.
pub proof fn law_late_failures_are_told_apart(flow: McpView, words: Seq<char>)
    ensures
        flow.stage == McpStage::Finding ==> flow.next_run(McpEventView::SessionFound(false)).1 == McpActionView::Answer(
            AnswerView::Internal("tool session disappeared"@),
        ),
        flow.stage == McpStage::Auditing ==> flow.next_run(McpEventView::Captured { failed: true }).1
            == McpActionView::Answer(AnswerView::Internal("tool completed but completion audit failed"@)),
        flow.stage == McpStage::Persisting ==> flow.next_run(McpEventView::Persisted(Some(words))).1
            == McpActionView::Answer(AnswerView::Internal(words)),
        unknown_session(Purpose::Cached) == "unknown session for cached tool result"@,
        unknown_session(Purpose::Audit) == "unknown session for pending tool audit"@,
        unknown_session(Purpose::Pending) == "unknown session for pending tool execution"@,
{
}

/// A session that is gone or closed does not lend itself to a call.
pub proof fn law_calls_need_an_open_session(flow: McpView, resume: bool)
    requires
        flow.stage == (McpStage::Leasing { resume }),
    ensures
        flow.next_run(McpEventView::Leased(None)).1 == flow.refuse(errors::bad_request("unknown session"@)).1,
        flow.next_run(McpEventView::Leased(Some(false))).1 == flow.refuse(
            errors::bad_request("session is already closed"@),
        ).1,
        flow.next_run(McpEventView::Leased(Some(true))).1 == McpActionView::Reserve,
{
}

/// A caller that cannot be bound to the call is refused; one that can is
/// remembered with it.
pub proof fn law_callers_are_bound_to_the_call(flow: McpView, words: Seq<char>, digest: Seq<char>)
    requires
        flow.stage == McpStage::Binding,
        flow.execution is Some,
    ensures
        flow.next_before(McpEventView::Bound(Err(words))).1 == McpActionView::Answer(
            AnswerView::Refusal(ErrorView { kind: ErrorKind::BadRequest, detail: words }),
        ),
        flow.next_before(McpEventView::Bound(Ok(digest))).1 == McpActionView::Load,
        (flow.next_before(McpEventView::Bound(Ok(digest))).0.execution matches Some(execution)
            && execution.principal_digest == digest && execution.execution_key == flow.execution->0.execution_key
            && execution.session_id == flow.execution->0.session_id && execution.tool == flow.execution->0.tool
            && execution.request_digest == flow.execution->0.request_digest),
{
}

/// What a tool server does wrong is told with what was being done.
pub proof fn law_tool_server_failures_are_told(flow: McpView, words: Seq<char>, fault: HttpFault)
    ensures
        flow.stage == McpStage::Sending ==> flow.next_run(McpEventView::Sent(Err(fault))).1 == McpActionView::Answer(
            AnswerView::Refusal(
                ErrorView { kind: ErrorKind::Upstream, detail: "forward tool call: "@ + upstream::upstream_words(fault) },
            ),
        ),
        flow.stage == McpStage::Reading ==> flow.next_run(McpEventView::Read(Err(words))).1 == McpActionView::Answer(
            AnswerView::Refusal(ErrorView { kind: ErrorKind::Upstream, detail: "read tool response: "@ + words }),
        ),
{
}

} // verus!
