//! Admission of chat requests: identity, session, breaker, capture slots,
//! quota, policy, compression and dispatch, in this order.
//!
//! Nothing is spent on a request before the stage in front of it has let the
//! request through, and a request that is refused once a session holds it
//! leaves a record there.

use vstd::prelude::*;
use crate::audit;
use crate::audit::{AtifCapture, AtifView, AuditRecord, EventClass, Payload, PayloadView, RecordView, ResponseAttempt, Source, StatusId};
use crate::config::HarnessConfig;
use crate::errors;
use crate::errors::{ErrorKind, ErrorView, PipelineError};
use crate::failure;
use crate::headers;
use crate::headers::Headers;
use crate::json;
use crate::json::{Json, JsonTree};
use crate::provider::{EventMetrics, StopReason};
use crate::request;
use crate::session;
use crate::session::{AgentIdentity, IdentityView, Workflow};
use crate::text;
use crate::upstream;
use crate::upstream::HttpFault;

verus! {

/// What an open breaker asks for.
#[derive(Clone, Copy, Debug, PartialEq, Eq, Structural)]
pub enum BreakerAction {
    Reject,
    Abort,
    Inject,
    /// An action that this harness does not know.
    Unknown,
}

/// The session that a request would join, as it stands under its guard.
#[derive(Debug)]
pub struct SessionFacts {
    pub bound: Workflow,
    pub owner: AgentIdentity,
    pub closed: bool,
    pub capture_failed: bool,
    /// What the breaker asks for, where it is open.
    pub breaker: Option<BreakerAction>,
}

/// A [`SessionFacts`] by its contents.
#[verifier::ext_equal]
pub struct FactsView {
    pub bound: Workflow,
    pub owner: IdentityView,
    pub closed: bool,
    pub capture_failed: bool,
    pub breaker: Option<BreakerAction>,
}

impl View for SessionFacts {
    type V = FactsView;

    open spec fn view(&self) -> FactsView {
        FactsView {
            bound: self.bound,
            owner: self.owner@,
            closed: self.closed,
            capture_failed: self.capture_failed,
            breaker: self.breaker,
        }
    }
}

/// What is done to a session that a request has come to.
#[derive(Clone, Copy, Debug, PartialEq, Eq, Structural)]
pub struct SessionEffects {
    /// The time left to the identity is taken over from the request.
    pub refresh_identity: bool,
    /// The session counts as active.
    pub touch: bool,
    /// The breaker is closed again.
    pub reset_breaker: bool,
}

/// No effect at all.
pub open spec fn untouched() -> SessionEffects {
    SessionEffects { refresh_identity: false, touch: false, reset_breaker: false }
}

/// What stands against a request joining a session, if anything does, and
/// what is done to the session.
pub open spec fn joining(facts: FactsView, workflow: Workflow, identity: IdentityView) -> (
    SessionEffects,
    Option<ErrorView>,
) {
    let refreshed = SessionEffects { refresh_identity: true, touch: false, reset_breaker: false };
    match session::binding_fault(facts.bound, facts.owner, workflow, identity) {
        Some(e) => (untouched(), Some(e)),
        None => if facts.closed {
            (refreshed, Some(errors::bad_request("session is already closed"@)))
        } else if facts.capture_failed {
            (refreshed, Some(errors::unavailable("session audit capture is incomplete"@)))
        } else {
            (SessionEffects { touch: true, ..refreshed }, None)
        },
    }
}

/// Whether a request may join a session, and what is done to the session.
pub fn join_session(facts: &SessionFacts, workflow: Workflow, identity: &AgentIdentity) -> (joined: (
    SessionEffects,
    Option<PipelineError>,
))
    ensures
        joined.0 == joining(facts@, workflow, identity@).0,
        opt_error(joined.1) == joining(facts@, workflow, identity@).1,
{
    match session::validate_session_binding(facts.bound, &facts.owner, workflow, identity) {
        Err(e) => (SessionEffects { refresh_identity: false, touch: false, reset_breaker: false }, Some(e)),
        Ok(()) => {
            if facts.closed {
                (
                    SessionEffects { refresh_identity: true, touch: false, reset_breaker: false },
                    Some(PipelineError::BadRequest("session is already closed".to_owned())),
                )
            } else if facts.capture_failed {
                (
                    SessionEffects { refresh_identity: true, touch: false, reset_breaker: false },
                    Some(PipelineError::Unavailable("session audit capture is incomplete".to_owned())),
                )
            } else {
                (SessionEffects { refresh_identity: true, touch: true, reset_breaker: false }, None)
            }
        },
    }
}

/// An optional error by its contents.
pub open spec fn opt_error(error: Option<PipelineError>) -> Option<ErrorView> {
    match error {
        Some(e) => Some(e@),
        None => None,
    }
}

/// What becomes of a chat request at its session: what is done to the
/// session, and the request as it goes on, or why it does not.
pub open spec fn entering(facts: FactsView, workflow: Workflow, identity: IdentityView, payload: JsonTree) -> (
    SessionEffects,
    Result<JsonTree, ErrorView>,
) {
    let (effects, fault) = joining(facts, workflow, identity);
    match (fault, facts.breaker) {
        (Some(e), _) => (effects, Err(e)),
        (None, None) => (effects, Ok(payload)),
        (None, Some(BreakerAction::Reject)) => (
            effects,
            Err(errors::blocked("semantic loop circuit breaker is open"@)),
        ),
        (None, Some(BreakerAction::Abort)) => (
            effects,
            Err(errors::abort("semantic loop circuit breaker requested connection close"@)),
        ),
        (None, Some(BreakerAction::Inject)) => match request::corrected(payload) {
            Ok(injected) => (SessionEffects { reset_breaker: true, ..effects }, Ok(injected)),
            Err(e) => (effects, Err(e)),
        },
        (None, Some(BreakerAction::Unknown)) => (
            effects,
            Err(errors::blocked("unsupported semantic loop enforcement action"@)),
        ),
    }
}

/// Takes a chat request to its session.
pub fn enter_session(facts: &SessionFacts, workflow: Workflow, identity: &AgentIdentity, payload: &Json) -> (entered: (
    SessionEffects,
    Result<Json, PipelineError>,
))
    ensures
        entered.0 == entering(facts@, workflow, identity@, payload@).0,
        match entered.1 {
            Ok(p) => entering(facts@, workflow, identity@, payload@).1 == Ok::<JsonTree, ErrorView>(p@),
            Err(e) => entering(facts@, workflow, identity@, payload@).1 == Err::<JsonTree, ErrorView>(e@),
        },
{
    let (effects, fault) = join_session(facts, workflow, identity);
    if let Some(e) = fault {
        return (effects, Err(e));
    }
    match facts.breaker {
        None => (effects, Ok(payload.copy())),
        Some(BreakerAction::Reject) => (
            effects,
            Err(PipelineError::Blocked("semantic loop circuit breaker is open".to_owned())),
        ),
        Some(BreakerAction::Abort) => (
            effects,
            Err(PipelineError::Abort("semantic loop circuit breaker requested connection close".to_owned())),
        ),
        Some(BreakerAction::Inject) => match request::inject_corrective_message(payload.copy()) {
            Ok(injected) => (
                SessionEffects {
                    refresh_identity: effects.refresh_identity,
                    touch: effects.touch,
                    reset_breaker: true,
                },
                Ok(injected),
            ),
            Err(e) => (effects, Err(e)),
        },
        Some(BreakerAction::Unknown) => (
            effects,
            Err(PipelineError::Blocked("unsupported semantic loop enforcement action".to_owned())),
        ),
    }
}

/// What the token budget says to a request.
#[derive(Debug)]
pub enum QuotaVerdict {
    Allowed,
    Refused { limit: String, cap: u64 },
    BackendFailed(String),
}

/// The block that a verdict of the budget asks for, if it asks for one.
pub open spec fn quota_block(verdict: QuotaVerdict) -> Option<ErrorView> {
    match verdict {
        QuotaVerdict::Allowed => None,
        QuotaVerdict::Refused { limit, cap } => Some(
            errors::blocked(limit@ + " exceeded (cap "@ + text::decimal_digits(cap as nat) + ")"@),
        ),
        QuotaVerdict::BackendFailed(e) => Some(errors::blocked("quota backend failed closed: "@ + e@)),
    }
}

/// The block that a verdict of the budget asks for.
pub fn judge_quota(verdict: &QuotaVerdict) -> (block: Option<PipelineError>)
    ensures
        opt_error(block) == quota_block(*verdict),
{
    match verdict {
        QuotaVerdict::Allowed => None,
        QuotaVerdict::Refused { limit, cap } => {
            let head: String = text::concat2(limit.as_str(), " exceeded (cap ");
            Some(PipelineError::Blocked(text::concat3(head.as_str(), text::decimal(*cap).as_str(), ")")))
        },
        QuotaVerdict::BackendFailed(e) => Some(
            PipelineError::Blocked(text::concat2("quota backend failed closed: ", e.as_str())),
        ),
    }
}

/// What compression made of a request, and the id of the attempt at a
/// response that is opened for it.
#[derive(Debug)]
pub struct Compressed {
    pub payload: Json,
    pub changed: bool,
    pub tokens_before: u64,
    pub tokens_after: u64,
    pub pruned_tokens: u64,
    pub pruning_ratio_millis: u64,
    pub attempt: String,
}

/// A [`Compressed`] by its contents.
#[verifier::ext_equal]
pub struct CompressedView {
    pub payload: JsonTree,
    pub changed: bool,
    pub tokens_before: u64,
    pub tokens_after: u64,
    pub pruned_tokens: u64,
    pub pruning_ratio_millis: u64,
    pub attempt: Seq<char>,
}

impl View for Compressed {
    type V = CompressedView;

    open spec fn view(&self) -> CompressedView {
        CompressedView {
            payload: self.payload@,
            changed: self.changed,
            tokens_before: self.tokens_before,
            tokens_after: self.tokens_after,
            pruned_tokens: self.pruned_tokens,
            pruning_ratio_millis: self.pruning_ratio_millis,
            attempt: self.attempt@,
        }
    }
}

/// What becomes of a request where compression is switched off: nothing is
/// pruned, and it stays as long as it was.
pub open spec fn left_alone(payload: JsonTree, prompt_tokens: u64, attempt: Seq<char>) -> CompressedView {
    CompressedView {
        payload,
        changed: false,
        tokens_before: prompt_tokens,
        tokens_after: prompt_tokens,
        pruned_tokens: 0,
        pruning_ratio_millis: 0,
        attempt,
    }
}

/// What becomes of a request where compression is switched off.
pub fn uncompressed(payload: Json, prompt_tokens: u64, attempt: String) -> (c: Compressed)
    ensures
        c@ == left_alone(payload@, prompt_tokens, attempt@),
{
    Compressed {
        payload,
        changed: false,
        tokens_before: prompt_tokens,
        tokens_after: prompt_tokens,
        pruned_tokens: 0,
        pruning_ratio_millis: 0,
        attempt,
    }
}

/// The record that lets a request go: it opens the attempt at a response.
pub open spec fn dispatch(c: CompressedView, step: AtifView) -> RecordView {
    RecordView {
        class: EventClass::Compression,
        payload: PayloadView::Compression {
            changed: c.changed,
            tokens_before: c.tokens_before,
            tokens_after: c.tokens_after,
        },
        text: request::last_text(c.payload),
        analyze_loop: step.source == Source::Agent,
        status: StatusId::Success,
        stop_reason: None,
        native_stop_reason: None,
        metrics: EventMetrics {
            prompt_tokens: Some(c.tokens_after),
            completion_tokens: Some(0),
            cached_tokens: Some(0),
            pruned_tokens: Some(c.pruned_tokens),
            pruning_ratio_millis: Some(c.pruning_ratio_millis),
        },
        cost_usd_micros: 0,
        atif: Some(step),
        response_marker: None,
        response_attempt: Some((c.attempt, false)),
    }
}

/// The record that lets a request go, or why it cannot.
pub fn dispatch_record(c: &Compressed) -> (record: Result<AuditRecord, PipelineError>)
    ensures
        match (request::request_step(c@.payload), record) {
            (Ok(step), Ok(r)) => r@ == dispatch(c@, step),
            (Err(fault), Err(e)) => e@ == fault,
            _ => false,
        },
{
    let atif: AtifCapture = match request::atif_capture_from_request(&c.payload) {
        Ok(atif) => atif,
        Err(e) => {
            return Err(e);
        },
    };
    Ok(
        AuditRecord {
            class: EventClass::Compression,
            payload: Payload::Compression {
                changed: c.changed,
                tokens_before: c.tokens_before,
                tokens_after: c.tokens_after,
            },
            text: request::last_message_text(&c.payload),
            analyze_loop: atif.source == Source::Agent,
            status: StatusId::Success,
            stop_reason: None,
            native_stop_reason: None,
            metrics: EventMetrics {
                prompt_tokens: Some(c.tokens_after),
                completion_tokens: Some(0),
                cached_tokens: Some(0),
                pruned_tokens: Some(c.pruned_tokens),
                pruning_ratio_millis: Some(c.pruning_ratio_millis),
            },
            cost_usd_micros: 0,
            atif: Some(atif),
            response_marker: None,
            response_attempt: Some(ResponseAttempt { id: c.attempt.clone(), terminal: false }),
        },
    )
}

/// Where the admission of a request stands.
#[derive(Debug)]
pub enum ChatStage {
    /// The identity is being resolved.
    Identifying,
    /// The identity was rejected with this error, which is being recorded.
    Rejecting(PipelineError),
    /// The session is being opened.
    Opening,
    /// Slots for the audit capture are being reserved.
    Reserving,
    /// The token budget is being asked.
    Charging,
    /// The policy is being asked.
    Screening,
    /// The request is being compressed.
    Compressing,
    /// The request may go out.
    Admitted,
    /// The request is refused.
    Refused,
}

/// What happens to a request on its way in.
#[derive(Debug)]
pub enum ChatEvent {
    Identified(Result<AgentIdentity, PipelineError>),
    RejectionRecorded(Result<(), String>),
    Opened(SessionFacts),
    Reserved(Result<(), String>),
    Charged(QuotaVerdict),
    Screened(Result<(), String>),
    Shrunk(Compressed),
}

/// What the admission wants done.
#[derive(Debug)]
pub enum ChatAction {
    /// Nothing: this is not what is being waited for.
    Ignore,
    /// Record the rejection in a session of its own.
    RecordRejection(AuditRecord),
    /// Open the session, or find it.
    Open,
    /// Do this to the session, and reserve a slot for the request and one
    /// for the response.
    Reserve(SessionEffects),
    /// Ask the budget for the tokens of the request.
    Charge,
    /// Ask the policy.
    Screen,
    /// Compress the request, where that is switched on.
    Compress,
    /// Submit this record and let the request go.
    Dispatch(AuditRecord),
    /// Do this to the session, submit the record, if there is one, and
    /// answer with the error.
    Refuse { effects: SessionEffects, record: Option<AuditRecord>, error: PipelineError },
}

/// The admission of one request.
#[derive(Debug)]
pub struct ChatAdmission {
    stage: ChatStage,
    session_id: String,
    workflow: Workflow,
    /// The agent, once it is known.
    identity: Option<AgentIdentity>,
    /// The request, as it stands.
    payload: Json,
}

/// A [`ChatStage`] by its contents.
#[verifier::ext_equal]
pub enum StageView {
    Identifying,
    Rejecting(ErrorView),
    Opening,
    Reserving,
    Charging,
    Screening,
    Compressing,
    Admitted,
    Refused,
}

/// A [`ChatEvent`] by its contents.
pub enum ChatEventView {
    Identified(Result<IdentityView, ErrorView>),
    RejectionRecorded(Option<Seq<char>>),
    Opened(FactsView),
    Reserved(Option<Seq<char>>),
    Charged(Option<ErrorView>),
    Screened(Option<Seq<char>>),
    Shrunk(CompressedView),
}

/// A [`ChatAction`] by its contents.
#[verifier::ext_equal]
pub enum ChatActionView {
    Ignore,
    RecordRejection(RecordView),
    Open,
    Reserve(SessionEffects),
    Charge,
    Screen,
    Compress,
    Dispatch(RecordView),
    Refuse { effects: SessionEffects, record: Option<RecordView>, error: ErrorView },
}

/// A [`ChatAdmission`] by its contents.
#[verifier::ext_equal]
pub struct AdmissionView {
    pub stage: StageView,
    pub session_id: Seq<char>,
    pub workflow: Workflow,
    pub identity: Option<IdentityView>,
    pub payload: JsonTree,
}

impl View for ChatStage {
    type V = StageView;

    open spec fn view(&self) -> StageView {
        match self {
            ChatStage::Identifying => StageView::Identifying,
            ChatStage::Rejecting(e) => StageView::Rejecting(e@),
            ChatStage::Opening => StageView::Opening,
            ChatStage::Reserving => StageView::Reserving,
            ChatStage::Charging => StageView::Charging,
            ChatStage::Screening => StageView::Screening,
            ChatStage::Compressing => StageView::Compressing,
            ChatStage::Admitted => StageView::Admitted,
            ChatStage::Refused => StageView::Refused,
        }
    }
}

/// The failure of an outcome, if it is one.
pub open spec fn outcome_fault(outcome: Result<(), String>) -> Option<Seq<char>> {
    match outcome {
        Ok(()) => None,
        Err(e) => Some(e@),
    }
}

impl View for ChatEvent {
    type V = ChatEventView;

    open spec fn view(&self) -> ChatEventView {
        match self {
            ChatEvent::Identified(Ok(identity)) => ChatEventView::Identified(Ok(identity@)),
            ChatEvent::Identified(Err(e)) => ChatEventView::Identified(Err(e@)),
            ChatEvent::RejectionRecorded(outcome) => ChatEventView::RejectionRecorded(outcome_fault(*outcome)),
            ChatEvent::Opened(facts) => ChatEventView::Opened(facts@),
            ChatEvent::Reserved(outcome) => ChatEventView::Reserved(outcome_fault(*outcome)),
            ChatEvent::Charged(verdict) => ChatEventView::Charged(quota_block(*verdict)),
            ChatEvent::Screened(outcome) => ChatEventView::Screened(outcome_fault(*outcome)),
            ChatEvent::Shrunk(c) => ChatEventView::Shrunk(c@),
        }
    }
}

/// An optional record by its contents.
pub open spec fn opt_record(record: Option<AuditRecord>) -> Option<RecordView> {
    match record {
        Some(r) => Some(r@),
        None => None,
    }
}

impl View for ChatAction {
    type V = ChatActionView;

    open spec fn view(&self) -> ChatActionView {
        match self {
            ChatAction::Ignore => ChatActionView::Ignore,
            ChatAction::RecordRejection(record) => ChatActionView::RecordRejection(record@),
            ChatAction::Open => ChatActionView::Open,
            ChatAction::Reserve(effects) => ChatActionView::Reserve(*effects),
            ChatAction::Charge => ChatActionView::Charge,
            ChatAction::Screen => ChatActionView::Screen,
            ChatAction::Compress => ChatActionView::Compress,
            ChatAction::Dispatch(record) => ChatActionView::Dispatch(record@),
            ChatAction::Refuse { effects, record, error } => ChatActionView::Refuse {
                effects: *effects,
                record: opt_record(*record),
                error: error@,
            },
        }
    }
}

impl View for ChatAdmission {
    type V = AdmissionView;

    closed spec fn view(&self) -> AdmissionView {
        AdmissionView {
            stage: self.stage@,
            session_id: self.session_id@,
            workflow: self.workflow,
            identity: match self.identity {
                Some(identity) => Some(identity@),
                None => None,
            },
            payload: self.payload@,
        }
    }
}

impl AdmissionView {
    /// A state is well formed when the agent is known once it is needed.
    pub open spec fn wf(self) -> bool {
        self.stage == StageView::Opening ==> self.identity is Some
    }

    /// The refusal of a request that leaves this record, if any.
    pub open spec fn refuse(self, effects: SessionEffects, record: Option<RecordView>, error: ErrorView) -> (
        AdmissionView,
        ChatActionView,
    ) {
        (
            AdmissionView { stage: StageView::Refused, ..self },
            ChatActionView::Refuse { effects, record, error },
        )
    }

    /// The refusal of a request that its session remembers.
    pub open spec fn refuse_on_record(self, stop_reason: StopReason, error: ErrorView) -> (
        AdmissionView,
        ChatActionView,
    ) {
        self.refuse(untouched(), Some(failure::failure(self.workflow, stop_reason, error.words())), error)
    }

    /// What becomes of an admission when something happens, and what is to
    /// be done.
    pub open spec fn next(self, event: ChatEventView) -> (AdmissionView, ChatActionView) {
        match (self.stage, event) {
            (StageView::Identifying, ChatEventView::Identified(Ok(identity))) => (
                AdmissionView { stage: StageView::Opening, identity: Some(identity), ..self },
                ChatActionView::Open,
            ),
            (StageView::Identifying, ChatEventView::Identified(Err(e))) => (
                AdmissionView { stage: StageView::Rejecting(e), ..self },
                ChatActionView::RecordRejection(
                    failure::failure(
                        Workflow::Signed,
                        StopReason::IdentityRejected,
                        failure::rejection_words(self.session_id, e.words()),
                    ),
                ),
            ),
            (StageView::Rejecting(e), ChatEventView::RejectionRecorded(fault)) => match fault {
                None => self.refuse(untouched(), None, e),
                Some(words) => self.refuse(untouched(), None, errors::unavailable(words)),
            },
            (StageView::Opening, ChatEventView::Opened(facts)) => {
                let (effects, entered) = entering(facts, self.workflow, self.identity->0, self.payload);
                match entered {
                    Ok(payload) => (
                        AdmissionView { stage: StageView::Reserving, payload, ..self },
                        ChatActionView::Reserve(effects),
                    ),
                    Err(e) => self.refuse(effects, None, e),
                }
            },
            (StageView::Reserving, ChatEventView::Reserved(fault)) => match fault {
                None => (AdmissionView { stage: StageView::Charging, ..self }, ChatActionView::Charge),
                Some(words) => self.refuse(untouched(), None, errors::unavailable(words)),
            },
            (StageView::Charging, ChatEventView::Charged(block)) => match block {
                None => (AdmissionView { stage: StageView::Screening, ..self }, ChatActionView::Screen),
                Some(e) => self.refuse_on_record(StopReason::BudgetExceeded, e),
            },
            (StageView::Screening, ChatEventView::Screened(fault)) => match fault {
                None => (AdmissionView { stage: StageView::Compressing, ..self }, ChatActionView::Compress),
                Some(words) => self.refuse_on_record(StopReason::PolicyBlocked, errors::blocked(words)),
            },
            (StageView::Compressing, ChatEventView::Shrunk(c)) => {
                let shrunk = AdmissionView { payload: c.payload, ..self };
                match request::request_step(c.payload) {
                    Ok(step) => (
                        AdmissionView { stage: StageView::Admitted, ..shrunk },
                        ChatActionView::Dispatch(dispatch(c, step)),
                    ),
                    Err(e) => shrunk.refuse_on_record(StopReason::Other, e),
                }
            },
            _ => (self, ChatActionView::Ignore),
        }
    }
}

/// The session and the workflow that a request is about, or why it names
/// none. `checked` is the outcome of checking the session id that the request
/// names, or of minting one.
pub open spec fn addressed(fields: Seq<(Seq<char>, Seq<u8>)>, checked: Result<Seq<char>, Seq<char>>, default_workflow: Seq<char>) -> Result<
    (Seq<char>, Workflow),
    ErrorView,
> {
    match headers::named_session(fields) {
        Err(e) => Err(e),
        Ok(_) => match checked {
            Err(words) => Err(errors::bad_request(words)),
            Ok(id) => match headers::asked_workflow(fields, default_workflow) {
                Err(e) => Err(e),
                Ok(workflow) => Ok((id, workflow)),
            },
        },
    }
}

/// A checked session id by its texts.
pub open spec fn checked_view(checked: Result<String, String>) -> Result<Seq<char>, Seq<char>> {
    match checked {
        Ok(id) => Ok(id@),
        Err(words) => Err(words@),
    }
}

/// The session and the workflow that a request is about.
pub fn address(headers: &Headers, checked: Result<String, String>, config: &HarnessConfig) -> (found: Result<
    (String, Workflow),
    PipelineError,
>)
    ensures
        match found {
            Ok((id, workflow)) => addressed(headers@, checked_view(checked), config.default_workflow@) == Ok::<
                (Seq<char>, Workflow),
                ErrorView,
            >((id@, workflow)),
            Err(e) => addressed(headers@, checked_view(checked), config.default_workflow@) == Err::<
                (Seq<char>, Workflow),
                ErrorView,
            >(e@),
        },
{
    if let Err(e) = headers::session_name(headers) {
        return Err(e);
    }
    let id: String = match headers::session_id(checked) {
        Ok(id) => id,
        Err(e) => {
            return Err(e);
        },
    };
    match headers::workflow(headers, config.default_workflow.as_str()) {
        Ok(workflow) => Ok((id, workflow)),
        Err(e) => Err(e),
    }
}

impl ChatAdmission {
    /// The session that it is about.
    pub fn session_id(&self) -> (id: &String)
        ensures
            id@ == self@.session_id,
    {
        &self.session_id
    }

    /// The workflow of the session.
    pub fn workflow(&self) -> (workflow: Workflow)
        ensures
            workflow == self@.workflow,
    {
        self.workflow
    }

    /// The agent, once it is known.
    pub fn identity(&self) -> (identity: Option<&AgentIdentity>)
        ensures
            match identity {
                Some(agent) => self@.identity == Some(agent@),
                None => self@.identity is None,
            },
    {
        self.identity.as_ref()
    }

    /// The payload as it stands.
    pub fn payload(&self) -> (payload: &Json)
        ensures
            payload@ == self@.payload,
    {
        &self.payload
    }

    /// Begins the admission of a request.
    pub fn begin(headers: &Headers, checked: Result<String, String>, config: &HarnessConfig, payload: Json) -> (begun: Result<
        ChatAdmission,
        PipelineError,
    >)
        ensures
            match (addressed(headers@, checked_view(checked), config.default_workflow@), begun) {
                (Ok((id, workflow)), Ok(admission)) => admission@ == (AdmissionView {
                    stage: StageView::Identifying,
                    session_id: id,
                    workflow,
                    identity: None,
                    payload: payload@,
                }),
                (Err(fault), Err(e)) => e@ == fault,
                _ => false,
            },
    {
        match address(headers, checked, config) {
            Ok((session_id, workflow)) => Ok(
                ChatAdmission { stage: ChatStage::Identifying, session_id, workflow, identity: None, payload },
            ),
            Err(e) => Err(e),
        }
    }

    /// Refuses the request, with a record.
    fn refuse_on_record(&mut self, stop_reason: StopReason, error: PipelineError) -> (action: ChatAction)
        ensures
            (final(self)@, action@) == old(self)@.refuse_on_record(stop_reason, error@),
    {
        self.stage = ChatStage::Refused;
        let record = failure::failure_record(self.workflow, stop_reason, error.message());
        ChatAction::Refuse {
            effects: SessionEffects { refresh_identity: false, touch: false, reset_breaker: false },
            record: Some(record),
            error,
        }
    }

    /// Refuses the request, without a record.
    fn refuse(&mut self, effects: SessionEffects, error: PipelineError) -> (action: ChatAction)
        ensures
            (final(self)@, action@) == old(self)@.refuse(effects, None, error@),
    {
        self.stage = ChatStage::Refused;
        ChatAction::Refuse { effects, record: None, error }
    }

    /// Takes the request to the session that was opened for it.
    fn enter(&mut self, facts: &SessionFacts) -> (action: ChatAction)
        requires
            old(self)@.stage == StageView::Opening,
            old(self)@.wf(),
        ensures
            (final(self)@, action@) == old(self)@.next(ChatEventView::Opened(facts@)),
    {
        let (effects, entered) = match &self.identity {
            Some(identity) => enter_session(facts, self.workflow, identity, &self.payload),
            None => {
                return ChatAction::Ignore;
            },
        };
        match entered {
            Ok(payload) => {
                self.payload = payload;
                self.stage = ChatStage::Reserving;
                ChatAction::Reserve(effects)
            },
            Err(e) => self.refuse(effects, e),
        }
    }

    /// Lets the compressed request go, if it is one.
    fn shrink(&mut self, c: Compressed) -> (action: ChatAction)
        requires
            old(self)@.stage == StageView::Compressing,
        ensures
            (final(self)@, action@) == old(self)@.next(ChatEventView::Shrunk(c@)),
    {
        let record: Result<AuditRecord, PipelineError> = dispatch_record(&c);
        self.payload = c.payload;
        match record {
            Ok(record) => {
                self.stage = ChatStage::Admitted;
                ChatAction::Dispatch(record)
            },
            Err(e) => self.refuse_on_record(StopReason::Other, e),
        }
    }

    /// Takes one step of the admission.
    pub fn step(&mut self, event: ChatEvent) -> (action: ChatAction)
        requires
            old(self)@.wf(),
        ensures
            (final(self)@, action@) == old(self)@.next(event@),
            final(self)@.wf(),
    {
        let none = SessionEffects { refresh_identity: false, touch: false, reset_breaker: false };
        match event {
            ChatEvent::Identified(resolved) => match self.stage {
                ChatStage::Identifying => match resolved {
                    Ok(identity) => {
                        self.identity = Some(identity);
                        self.stage = ChatStage::Opening;
                        ChatAction::Open
                    },
                    Err(e) => {
                        let record = failure::rejection_record(
                            self.session_id.as_str(),
                            StopReason::IdentityRejected,
                            e.message().as_str(),
                        );
                        self.stage = ChatStage::Rejecting(e);
                        ChatAction::RecordRejection(record)
                    },
                },
                _ => ChatAction::Ignore,
            },
            ChatEvent::RejectionRecorded(outcome) => {
                let mut stage = ChatStage::Refused;
                std::mem::swap(&mut self.stage, &mut stage);
                match stage {
                    ChatStage::Rejecting(e) => match outcome {
                        Ok(()) => self.refuse(none, e),
                        Err(words) => self.refuse(none, PipelineError::Unavailable(words)),
                    },
                    other => {
                        self.stage = other;
                        ChatAction::Ignore
                    },
                }
            },
            ChatEvent::Opened(facts) => match self.stage {
                ChatStage::Opening => self.enter(&facts),
                _ => ChatAction::Ignore,
            },
            ChatEvent::Reserved(outcome) => match self.stage {
                ChatStage::Reserving => match outcome {
                    Ok(()) => {
                        self.stage = ChatStage::Charging;
                        ChatAction::Charge
                    },
                    Err(words) => self.refuse(none, PipelineError::Unavailable(words)),
                },
                _ => ChatAction::Ignore,
            },
            ChatEvent::Charged(verdict) => match self.stage {
                ChatStage::Charging => match judge_quota(&verdict) {
                    None => {
                        self.stage = ChatStage::Screening;
                        ChatAction::Screen
                    },
                    Some(e) => self.refuse_on_record(StopReason::BudgetExceeded, e),
                },
                _ => ChatAction::Ignore,
            },
            ChatEvent::Screened(outcome) => match self.stage {
                ChatStage::Screening => match outcome {
                    Ok(()) => {
                        self.stage = ChatStage::Compressing;
                        ChatAction::Compress
                    },
                    Err(words) => self.refuse_on_record(StopReason::PolicyBlocked, PipelineError::Blocked(words)),
                },
                _ => ChatAction::Ignore,
            },
            ChatEvent::Shrunk(c) => match self.stage {
                ChatStage::Compressing => self.shrink(c),
                _ => ChatAction::Ignore,
            },
        }
    }
}

/// The place of an action in the order of the gates.
pub open spec fn gate(action: ChatActionView) -> Option<int> {
    match action {
        ChatActionView::Open => Some(0),
        ChatActionView::Reserve(_) => Some(1),
        ChatActionView::Charge => Some(2),
        ChatActionView::Screen => Some(3),
        ChatActionView::Compress => Some(4),
        ChatActionView::Dispatch(_) => Some(5),
        _ => None,
    }
}

/// An admission after a number of events, with what it wanted done on the
/// way.
pub open spec fn run(start: AdmissionView, events: Seq<ChatEventView>) -> (AdmissionView, Seq<ChatActionView>)
    decreases events.len(),
{
    if events.len() == 0 {
        (start, Seq::empty())
    } else {
        let (before, done) = run(start, events.drop_last());
        let (after, action) = before.next(events.last());
        (
            after,
            if action is Ignore {
                done
            } else {
                done.push(action)
            },
        )
    }
}

/// Whether actions follow the order of the gates: each gate once, in its
/// place, up to a refusal; or the record of a rejected identity and the
/// refusal.
pub open spec fn in_order(actions: Seq<ChatActionView>) -> bool {
    forall|k: int|
        0 <= k < actions.len() ==> {
            ||| gate(#[trigger] actions[k]) == Some(k)
            ||| k == actions.len() - 1 && actions[k] is Refuse
            ||| k == 0 && actions[k] is RecordRejection && actions.len() <= 2
        }
}

/// How many gates lie behind a request.
spec fn behind(stage: StageView) -> int {
    match stage {
        StageView::Identifying => 0,
        StageView::Rejecting(_) => 1,
        StageView::Opening => 1,
        StageView::Reserving => 2,
        StageView::Charging => 3,
        StageView::Screening => 4,
        StageView::Compressing => 5,
        StageView::Admitted => 6,
        StageView::Refused => -1,
    }
}

/// Whatever happens to a request, the gates are passed in their order and
/// each at most once, and nothing is done after a refusal: the budget is
/// charged once at most and only for a request that an open session has
/// taken in, and a request that goes out has passed every gate.
pub proof fn law_gates_are_passed_in_order(start: AdmissionView, events: Seq<ChatEventView>)
    requires
        start.stage == StageView::Identifying,
    ensures
        in_order(run(start, events).1),
        run(start, events).0.stage == StageView::Admitted ==> run(start, events).1.len() == 6,
{
    lemma_progress(start, events);
}

/// The actions of a run are in order, and the stage tells how many there
/// were.
proof fn lemma_progress(start: AdmissionView, events: Seq<ChatEventView>)
    requires
        start.stage == StageView::Identifying,
    ensures
        ({
            let (state, actions) = run(start, events);
            &&& in_order(actions)
            &&& state.stage != StageView::Refused ==> actions.len() == behind(state.stage)
            &&& state.stage is Rejecting ==> actions[0] is RecordRejection
            &&& state.stage != StageView::Refused && !(state.stage is Rejecting) ==> forall|k: int|
                0 <= k < actions.len() ==> gate(#[trigger] actions[k]) == Some(k)
        }),
    decreases events.len(),
{
    if events.len() > 0 {
        lemma_progress(start, events.drop_last());
    }
}

/// A request that the budget, the policy or its own shape stops leaves a
/// record in its session that gives the reason the client is told.
pub proof fn law_late_refusals_are_on_record(admission: AdmissionView, event: ChatEventView)
    requires
        admission.stage == StageView::Charging || admission.stage == StageView::Screening || admission.stage
            == StageView::Compressing,
        admission.next(event).1 is Refuse,
    ensures
        admission.next(event).1->record is Some,
        admission.next(event).1->record->0.payload == (PayloadView::Reason {
            reason: admission.next(event).1->error.words(),
        }),
        admission.next(event).1->record->0.status == StatusId::Failure,
{
}

/// A rejected identity is written down before the client is answered, and no
/// session is opened for it.
pub proof fn law_rejected_identity_opens_nothing(
    admission: AdmissionView,
    error: ErrorView,
    recorded: Option<Seq<char>>,
)
    requires
        admission.stage == StageView::Identifying,
    ensures
        ({
            let (rejecting, first) = admission.next(ChatEventView::Identified(Err(error)));
            let (refused, second) = rejecting.next(ChatEventView::RejectionRecorded(recorded));
            &&& first is RecordRejection
            &&& refused.stage == StageView::Refused
            &&& second == (ChatActionView::Refuse {
                effects: untouched(),
                record: None,
                error: match recorded {
                    None => error,
                    Some(words) => errors::unavailable(words),
                },
            })
        }),
{
}

/// Whether the gates of a chat request are cheap enough to be passed on the
/// spot: without a token budget there is no backend to wait for.
pub fn gates_run_inline(config: &HarnessConfig) -> (inline: bool)
    ensures
        inline == (config.budget_max_tokens is None),
{
    config.budget_max_tokens.is_none()
}

/// What stands against a request, before its gates, if its session is known.
/// `capture_failed` tells of a known session whether its capture failed.
pub fn check_known_session(capture_failed: Option<bool>) -> (fault: Option<PipelineError>)
    ensures
        opt_error(fault) == (if capture_failed == Some(true) {
            Some(errors::unavailable("session audit capture is incomplete"@))
        } else {
            None
        }),
{
    match capture_failed {
        Some(true) => Some(PipelineError::Unavailable("session audit capture is incomplete".to_owned())),
        _ => None,
    }
}

/// Why a request whose record is written must not go out after all, if it
/// must not.
pub open spec fn late_fault(capture_failed: bool, breaker: Option<BreakerAction>) -> Option<(ErrorView, StopReason)> {
    if capture_failed {
        Some((errors::unavailable("request audit capture failed before provider dispatch"@), StopReason::Other))
    } else {
        match breaker {
            None => None,
            Some(BreakerAction::Abort) => Some(
                (errors::abort("semantic loop circuit breaker opened during audit"@), StopReason::LoopDetected),
            ),
            Some(_) => Some(
                (
                    errors::blocked("semantic loop circuit breaker opened during audit; retry required"@),
                    StopReason::LoopDetected,
                ),
            ),
        }
    }
}

/// Decides, once the record of a request is written, whether the request
/// goes out. One that does not is answered with an error, and its attempt at
/// a response is closed by the record given.
pub fn check_before_dispatch(
    capture_failed: bool,
    breaker: Option<BreakerAction>,
    workflow: Workflow,
    attempt: String,
) -> (stopped: Option<(PipelineError, AuditRecord)>)
    ensures
        match (late_fault(capture_failed, breaker), stopped) {
            (None, None) => true,
            (Some((fault, reason)), Some((e, record))) => e@ == fault && record@ == failure::closing_failure(
                workflow,
                reason,
                fault.words(),
                None,
                attempt@,
            ),
            _ => false,
        },
{
    let (error, reason) = if capture_failed {
        (
            PipelineError::Unavailable("request audit capture failed before provider dispatch".to_owned()),
            StopReason::Other,
        )
    } else {
        match breaker {
            None => {
                return None;
            },
            Some(BreakerAction::Abort) => (
                PipelineError::Abort("semantic loop circuit breaker opened during audit".to_owned()),
                StopReason::LoopDetected,
            ),
            Some(_) => (
                PipelineError::Blocked(
                    "semantic loop circuit breaker opened during audit; retry required".to_owned(),
                ),
                StopReason::LoopDetected,
            ),
        }
    };
    let record = failure::closing_failure_record(workflow, reason, error.message(), None, attempt);
    Some((error, record))
}

/// The credential that goes to the provider with a request.
pub enum UpstreamCredential {
    /// None.
    Absent,
    /// The harness's own, in the header of this name.
    Own { name: String, value: axum::http::HeaderValue },
    /// The client's, in the `Authorization` header.
    Client(Vec<u8>),
}

/// Chooses the credential that goes to the provider: the harness's own comes
/// before the client's.
pub fn choose_credential(own: Option<(String, axum::http::HeaderValue)>, client: Option<Vec<u8>>) -> (chosen: UpstreamCredential)
    ensures
        match own {
            Some((n, v)) => chosen matches UpstreamCredential::Own { name, value } && name@ == n@ && value == v,
            None => match client {
                Some(c) => chosen matches UpstreamCredential::Client(bytes) && bytes@ == c@,
                None => chosen is Absent,
            },
        },
{
    match own {
        Some((name, value)) => UpstreamCredential::Own { name, value },
        None => match client {
            Some(bytes) => UpstreamCredential::Client(bytes),
            None => UpstreamCredential::Absent,
        },
    }
}

/// The client's credential as it is passed on, where that is switched on.
pub open spec fn passed_credential(fields: Seq<(Seq<char>, Seq<u8>)>, passthrough: bool) -> Result<
    Option<Seq<u8>>,
    ErrorView,
> {
    if passthrough {
        headers::single(fields, "authorization"@)
    } else {
        Ok(None)
    }
}

/// The client's credential as it is passed on.
pub fn client_authorization(headers: &Headers, config: &HarnessConfig) -> (passed: Result<
    Option<Vec<u8>>,
    PipelineError,
>)
    ensures
        match (passed_credential(headers@, config.upstream_authorization_passthrough), passed) {
            (Ok(None), Ok(None)) => true,
            (Ok(Some(bytes)), Ok(Some(b))) => b@ == bytes,
            (Err(fault), Err(e)) => e@ == fault,
            _ => false,
        },
{
    if !config.upstream_authorization_passthrough {
        return Ok(None);
    }
    match headers.single_header("authorization") {
        Ok(Some(bytes)) => Ok(Some(bytes.clone())),
        Ok(None) => Ok(None),
        Err(e) => Err(e),
    }
}

/// What a request that never reached the provider leaves behind: the answer
/// to the client, which tells the kind of the failure only, and the record,
/// which tells it in full. A request that holds a slot for its response
/// closes its attempt.
pub fn forward_failure(
    workflow: Workflow,
    fault: HttpFault,
    detail: String,
    holds_slot: bool,
    marker: Option<String>,
    attempt: String,
) -> (left: (PipelineError, AuditRecord))
    ensures
        left.0@ == errors::upstream(upstream::upstream_words(fault)),
        left.1@ == (if holds_slot {
            failure::closing_failure(workflow, StopReason::Other, detail@, text::opt_text(marker), attempt@)
        } else {
            failure::failure(workflow, StopReason::Other, detail@)
        }),
{
    let error = PipelineError::Upstream(upstream::classify_upstream_error(fault).to_owned());
    let record = if holds_slot {
        failure::closing_failure_record(workflow, StopReason::Other, detail, marker, attempt)
    } else {
        failure::failure_record(workflow, StopReason::Other, detail)
    };
    (error, record)
}

/// Why a session cannot be leased, if it cannot. `leased` is absent where
/// the session is unknown, and tells otherwise whether the lease was given.
pub fn lease_session(leased: Option<bool>) -> (fault: Option<PipelineError>)
    ensures
        opt_error(fault) == (match leased {
            None => Some(errors::bad_request("unknown session"@)),
            Some(true) => None,
            Some(false) => Some(errors::bad_request("session is already closed"@)),
        }),
{
    match leased {
        None => Some(PipelineError::BadRequest("unknown session".to_owned())),
        Some(true) => None,
        Some(false) => Some(PipelineError::BadRequest("session is already closed".to_owned())),
    }
}

/// Whether an agent may act on an open session: its identity holds, and it
/// is the one that the session is bound to.
pub fn authorize_session(
    bound: Workflow,
    owner: &AgentIdentity,
    resolved: Result<AgentIdentity, PipelineError>,
) -> (allowed: Result<AgentIdentity, PipelineError>)
    ensures
        match (resolved, allowed) {
            (Err(fault), Err(e)) => e@ == fault@,
            (Ok(identity), Ok(same)) => same@ == identity@ && session::same_agent(owner@, identity@),
            (Ok(identity), Err(e)) => !session::same_agent(owner@, identity@) && e@ == errors::unauthorized(
                "session is bound to a different agent identity"@,
            ),
            _ => false,
        },
{
    match resolved {
        Err(e) => Err(e),
        Ok(identity) => match session::validate_session_binding(bound, owner, bound, &identity) {
            Ok(()) => Ok(identity),
            Err(e) => Err(e),
        },
    }
}

/// A request that is stopped late is recorded with the reason for it, and the
/// client is told what stood against it: a used-up budget as such, an
/// objection of the policy as a block, and a request without a usable message
/// as a bad one. Its session is not touched for it.
pub proof fn law_stops_are_told_apart(admission: AdmissionView, block: ErrorView, words: Seq<char>, c: CompressedView)
    ensures
        admission.stage == StageView::Charging ==> (admission.next(ChatEventView::Charged(Some(block))).1
            matches ChatActionView::Refuse { effects, record: Some(record), error } && effects == untouched() && error
            == block && record.stop_reason == Some(StopReason::BudgetExceeded)),
        admission.stage == StageView::Screening ==> (admission.next(ChatEventView::Screened(Some(words))).1
            matches ChatActionView::Refuse { effects, record: Some(record), error } && effects == untouched() && error.kind
            == ErrorKind::Blocked && error.detail == words && record.stop_reason == Some(StopReason::PolicyBlocked)),
        admission.stage == StageView::Compressing && request::request_step(c.payload) is Err ==> (admission.next(
            ChatEventView::Shrunk(c),
        ).1 matches ChatActionView::Refuse { effects, record: Some(record), error } && effects == untouched()
            && error.kind == ErrorKind::BadRequest && record.stop_reason == Some(StopReason::Other)),
        admission.stage == StageView::Reserving ==> (admission.next(ChatEventView::Reserved(Some(words))).1
            matches ChatActionView::Refuse { effects, record: None, error } && effects == untouched() && error.kind
            == ErrorKind::Unavailable && error.detail == words),
{
    request::law_only_known_roles_make_steps(c.payload);
}

/// The record of a request that goes out opens the attempt at its response
/// and tells what compression made of it. It is watched for loops exactly
/// where its last message is the assistant's: a user may repeat themself.
pub proof fn law_dispatched_requests_are_on_record(admission: AdmissionView, c: CompressedView, messages: Seq<JsonTree>)
    requires
        admission.stage == StageView::Compressing,
        json::member(c.payload, "messages"@) == Some(JsonTree::List(messages)),
        messages.len() > 0,
        admission.next(ChatEventView::Shrunk(c)).1 is Dispatch,
    ensures
        ({
            let record = admission.next(ChatEventView::Shrunk(c)).1->Dispatch_0;
            let role = json::member(messages.last(), "role"@);
            &&& record.status == StatusId::Success
            &&& record.stop_reason is None
            &&& record.class == EventClass::Compression
            &&& record.response_attempt == Some((c.attempt, false))
            &&& record.payload == (PayloadView::Compression {
                changed: c.changed,
                tokens_before: c.tokens_before,
                tokens_after: c.tokens_after,
            })
            &&& record.metrics.prompt_tokens == Some(c.tokens_after)
            &&& record.metrics.completion_tokens == Some(0u64)
            &&& record.metrics.cached_tokens == Some(0u64)
            &&& record.metrics.pruned_tokens == Some(c.pruned_tokens)
            &&& record.metrics.pruning_ratio_millis == Some(c.pruning_ratio_millis)
            &&& record.cost_usd_micros == 0
            &&& (record.analyze_loop <==> role == Some(JsonTree::Text("assistant"@)))
            &&& match json::member(messages.last(), "content"@) {
                Some(JsonTree::Text(words)) => record.text == words,
                _ => record.text == Seq::<char>::empty(),
            }
            &&& record.atif matches Some(step)
            &&& role == Some(JsonTree::Text("user"@)) ==> step.source == Source::User && step.model_name is None
                && step.tool_calls is None && step.llm_call_count is None
            &&& role == Some(JsonTree::Text("assistant"@)) ==> step.source == Source::Agent && step.llm_call_count
                == Some(1u64) && (json::member(c.payload, "model"@) matches Some(JsonTree::Text(model)) ==> step.model_name
                == Some(model))
            &&& role == Some(JsonTree::Text("system"@)) || role == Some(JsonTree::Text("developer"@)) || role == Some(
                JsonTree::Text("tool"@),
            ) ==> step.source == Source::System && step.model_name is None && step.tool_calls is None
            &&& admission.next(ChatEventView::Shrunk(c)).0.payload == c.payload
        }),
{
    let role = json::member(messages.last(), "role"@);
    request::lemma_roles_differ();
    request::law_only_known_roles_make_steps(c.payload);
    request::law_steps_hold_the_content(c.payload, messages);
    if role == Some(JsonTree::Text("user"@)) {
        request::law_user_messages_are_steps_of_the_user(c.payload, messages);
    } else if role == Some(JsonTree::Text("assistant"@)) {
        request::law_assistant_messages_are_steps_of_the_agent(c.payload, messages);
    } else {
        request::law_other_messages_are_steps_of_the_system(c.payload, messages);
    }
}

/// A request joins a session exactly where the session is of its workflow and
/// of its agent, is open, and has its capture complete. What does not join
/// leaves the session's activity alone, and a stranger leaves it untouched.
pub proof fn law_sessions_are_joined_by_their_owner(facts: FactsView, workflow: Workflow, identity: IdentityView)
    ensures
        ({
            let (effects, fault) = joining(facts, workflow, identity);
            let own = facts.bound == workflow && facts.owner.version == identity.version && facts.owner.charter
                == identity.charter && facts.owner.instance_uid == identity.instance_uid;
            &&& fault is None <==> own && !facts.closed && !facts.capture_failed
            &&& effects.touch <==> fault is None
            &&& effects.refresh_identity <==> own
            &&& !effects.reset_breaker
            &&& facts.bound != workflow ==> fault->0.kind == ErrorKind::BadRequest
            &&& facts.bound == workflow && !own ==> fault->0.kind == ErrorKind::Unauthorized
            &&& own && facts.closed ==> fault->0.kind == ErrorKind::BadRequest
            &&& own && !facts.closed && facts.capture_failed ==> fault->0.kind == ErrorKind::Unavailable
        }),
{
}

/// An open breaker stops a chat request unless it asks for a correction: the
/// request then goes on with one message more, and the breaker is closed
/// again. Nothing else closes it, and without a breaker the request goes on
/// as it is.
pub proof fn law_open_breakers_are_heeded(facts: FactsView, workflow: Workflow, identity: IdentityView, payload: JsonTree)
    requires
        joining(facts, workflow, identity).1 is None,
    ensures
        ({
            let (effects, entered) = entering(facts, workflow, identity, payload);
            &&& effects.touch && effects.refresh_identity
            &&& effects.reset_breaker <==> facts.breaker == Some(BreakerAction::Inject) && entered is Ok
            &&& match facts.breaker {
                None => entered == Ok::<JsonTree, ErrorView>(payload),
                Some(BreakerAction::Reject) => entered is Err && entered->Err_0.kind == ErrorKind::Blocked,
                Some(BreakerAction::Abort) => entered is Err && entered->Err_0.kind == ErrorKind::Abort,
                Some(BreakerAction::Unknown) => entered is Err && entered->Err_0.kind == ErrorKind::Blocked,
                Some(BreakerAction::Inject) => match json::member(payload, "messages"@) {
                    Some(JsonTree::List(messages)) => entered is Ok && (json::member(entered->Ok_0, "messages"@)
                        matches Some(JsonTree::List(more)) && more.drop_last() == messages && more.len()
                        == messages.len() + 1 && json::member(more.last(), "role"@) == Some(JsonTree::Text("system"@))),
                    _ => entered is Err && entered->Err_0.kind == ErrorKind::BadRequest,
                },
            }
        }),
{
    request::law_corrections_speak_for_the_system(payload);
    if request::corrected(payload) is Ok {
        request::law_correction_only_adds(payload, "messages"@);
        let messages = json::items_in(json::member(payload, "messages"@))->0;
        assert(messages.push(request::corrective_message()).drop_last() =~= messages);
    }
}

/// What keeps a request from joining its session keeps it from the breaker
/// too.
pub proof fn law_strangers_do_not_meet_the_breaker(
    facts: FactsView,
    workflow: Workflow,
    identity: IdentityView,
    payload: JsonTree,
)
    requires
        joining(facts, workflow, identity).1 is Some,
    ensures
        entering(facts, workflow, identity, payload).0 == joining(facts, workflow, identity).0,
        entering(facts, workflow, identity, payload).1 == Err::<JsonTree, ErrorView>(
            joining(facts, workflow, identity).1->0,
        ),
{
}

/// A budget that refuses and a budget that cannot be asked both block the
/// request; only its consent does not.
pub proof fn law_budgets_fail_closed(verdict: QuotaVerdict)
    ensures
        quota_block(verdict) is None <==> verdict is Allowed,
        quota_block(verdict) matches Some(e) ==> e.kind == ErrorKind::Blocked,
        verdict matches QuotaVerdict::Refused { limit, cap } ==> quota_block(verdict)->0.detail == limit@
            + " exceeded (cap "@ + text::decimal_digits(cap as nat) + ")"@,
        verdict matches QuotaVerdict::BackendFailed(words) ==> quota_block(verdict)->0.detail
            == "quota backend failed closed: "@ + words@,
{
}

/// A request that is not compressed stays as it is, and nothing of it counts
/// as pruned.
pub proof fn law_uncompressed_requests_lose_nothing(payload: JsonTree, prompt_tokens: u64, attempt: Seq<char>)
    ensures
        ({
            let c = left_alone(payload, prompt_tokens, attempt);
            &&& c.payload == payload && c.attempt == attempt && !c.changed
            &&& c.tokens_before == prompt_tokens && c.tokens_after == prompt_tokens
            &&& c.tokens_before - c.tokens_after == c.pruned_tokens
            &&& c.pruning_ratio_millis == 0
        }),
{
}

/// A request whose record is written goes out exactly where the record was
/// captured and no breaker has opened meanwhile; what stops it is told apart.
pub proof fn law_late_faults_are_told_apart(capture_failed: bool, breaker: Option<BreakerAction>)
    ensures
        late_fault(capture_failed, breaker) is None <==> !capture_failed && breaker is None,
        late_fault(capture_failed, breaker) matches Some((error, reason)) ==> {
            &&& reason == StopReason::Other <==> capture_failed
            &&& reason == StopReason::LoopDetected <==> !capture_failed
            &&& error.kind == ErrorKind::Unavailable <==> capture_failed
            &&& error.kind == ErrorKind::Abort <==> !capture_failed && breaker == Some(BreakerAction::Abort)
            &&& error.kind == ErrorKind::Blocked <==> !capture_failed && breaker != Some(BreakerAction::Abort)
        },
{
}

/// A request names a session and a workflow exactly where its headers name
/// one session at most, the id checks out, and the workflow is known; the id
/// is the one that checked out.
pub proof fn law_requests_are_addressed(
    fields: Seq<(Seq<char>, Seq<u8>)>,
    checked: Result<Seq<char>, Seq<char>>,
    default_workflow: Seq<char>,
)
    ensures
        addressed(fields, checked, default_workflow) is Ok <==> headers::named_session(fields) is Ok && checked is Ok
            && headers::asked_workflow(fields, default_workflow) is Ok,
        addressed(fields, checked, default_workflow) matches Ok((id, workflow)) ==> checked == Ok::<
            Seq<char>,
            Seq<char>,
        >(id) && headers::asked_workflow(fields, default_workflow) == Ok::<Workflow, ErrorView>(workflow),
        headers::named_session(fields) is Ok && checked is Err ==> addressed(fields, checked, default_workflow)->Err_0.kind
            == ErrorKind::BadRequest,
{
}

/// The client's own credential goes to the provider only where that is
/// switched on, and then as it came.
pub proof fn law_client_credentials_are_passed_on_request(fields: Seq<(Seq<char>, Seq<u8>)>)
    ensures
        passed_credential(fields, false) == Ok::<Option<Seq<u8>>, ErrorView>(None),
        passed_credential(fields, true) == headers::single(fields, "authorization"@),
{
}

/// A request that nothing stands against goes all the way: its session is
/// opened, slots are reserved, its tokens are charged, the policy is asked, it
/// is compressed, and it goes out.
pub proof fn law_smooth_admissions_go_all_the_way(
    start: AdmissionView,
    identity: IdentityView,
    facts: FactsView,
    c: CompressedView,
)
    requires
        start.stage == StageView::Identifying,
        entering(facts, start.workflow, identity, start.payload).1 is Ok,
        request::request_step(c.payload) is Ok,
    ensures
        ({
            let (s1, a1) = start.next(ChatEventView::Identified(Ok(identity)));
            let (s2, a2) = s1.next(ChatEventView::Opened(facts));
            let (s3, a3) = s2.next(ChatEventView::Reserved(None));
            let (s4, a4) = s3.next(ChatEventView::Charged(None));
            let (s5, a5) = s4.next(ChatEventView::Screened(None));
            let (s6, a6) = s5.next(ChatEventView::Shrunk(c));
            &&& a1 == ChatActionView::Open
            &&& s1.identity == Some(identity)
            &&& a2 == ChatActionView::Reserve(entering(facts, start.workflow, identity, start.payload).0)
            &&& s2.payload == entering(facts, start.workflow, identity, start.payload).1->Ok_0
            &&& a3 == ChatActionView::Charge
            &&& a4 == ChatActionView::Screen
            &&& a5 == ChatActionView::Compress
            &&& a6 is Dispatch
            &&& s6.stage == StageView::Admitted
            &&& s6.session_id == start.session_id && s6.workflow == start.workflow
        }),
{
}

/// A request that its session does not take in is refused with what the
/// session says, and what is done to the session is what it allows.
pub proof fn law_sessions_have_their_say(admission: AdmissionView, facts: FactsView)
    requires
        admission.stage == StageView::Opening,
        admission.identity is Some,
    ensures
        ({
            let (effects, entered) = entering(facts, admission.workflow, admission.identity->0, admission.payload);
            entered matches Err(e) ==> admission.next(ChatEventView::Opened(facts)).1 == (ChatActionView::Refuse {
                effects,
                record: None,
                error: e,
            })
        }),
{
}

/// The record of a rejected identity is a failure for that reason, in a
/// signed session of its own.
pub proof fn law_rejected_identities_are_recorded(admission: AdmissionView, error: ErrorView)
    requires
        admission.stage == StageView::Identifying,
    ensures
        admission.next(ChatEventView::Identified(Err(error))).1 matches ChatActionView::RecordRejection(record)
            && record.stop_reason == Some(StopReason::IdentityRejected) && record.status == StatusId::Failure && record.atif
            is None,
{
}

/// A request that is refused or goes out is done with.
pub proof fn law_ended_admissions_rest(admission: AdmissionView, event: ChatEventView)
    ensures
        admission.next(event).1 is Refuse ==> admission.next(event).0.stage == StageView::Refused,
        admission.next(event).1 is Dispatch ==> admission.next(event).0.stage == StageView::Admitted,
        admission.stage == StageView::Refused || admission.stage == StageView::Admitted ==> admission.next(event) == (
            admission,
            ChatActionView::Ignore,
        ),
{
}

/// A session that takes no more requests says why, and so does a breaker
/// that stops one.
pub proof fn law_refused_requests_are_told_why(
    facts: FactsView,
    workflow: Workflow,
    identity: IdentityView,
    payload: JsonTree,
)
    requires
        session::binding_fault(facts.bound, facts.owner, workflow, identity) is None,
    ensures
        facts.closed ==> joining(facts, workflow, identity).1 == Some(
            ErrorView { kind: errors::ErrorKind::BadRequest, detail: "session is already closed"@ },
        ),
        !facts.closed && facts.capture_failed ==> joining(facts, workflow, identity).1 == Some(
            errors::unavailable("session audit capture is incomplete"@),
        ),
        !facts.closed && !facts.capture_failed ==> {
            &&& facts.breaker == Some(BreakerAction::Reject) ==> entering(facts, workflow, identity, payload).1 == Err::<
                JsonTree,
                ErrorView,
            >(errors::blocked("semantic loop circuit breaker is open"@))
            &&& facts.breaker == Some(BreakerAction::Abort) ==> entering(facts, workflow, identity, payload).1 == Err::<
                JsonTree,
                ErrorView,
            >(errors::abort("semantic loop circuit breaker requested connection close"@))
            &&& facts.breaker == Some(BreakerAction::Unknown) ==> entering(facts, workflow, identity, payload).1 == Err::<
                JsonTree,
                ErrorView,
            >(errors::blocked("unsupported semantic loop enforcement action"@))
        },
        late_fault(true, facts.breaker) == Some(
            (errors::unavailable("request audit capture failed before provider dispatch"@), StopReason::Other),
        ),
        late_fault(false, Some(BreakerAction::Abort)) == Some(
            (errors::abort("semantic loop circuit breaker opened during audit"@), StopReason::LoopDetected),
        ),
        late_fault(false, Some(BreakerAction::Reject)) == Some(
            (
                errors::blocked("semantic loop circuit breaker opened during audit; retry required"@),
                StopReason::LoopDetected,
            ),
        ),
{
}

} // verus!
