//! Interception of tool calls: who calls, in which session, and whether the
//! policy lets the call through. Every verdict is written down.

use vstd::prelude::*;
use crate::admission;
use crate::admission::{FactsView, SessionEffects, SessionFacts};
use crate::artifact;
use crate::audit;
use crate::audit::{
    AtifCapture,
    AtifToolCall,
    AtifToolCallView,
    AtifView,
    AuditRecord,
    EventClass,
    Observation,
    ObservationView,
    Payload,
    PayloadView,
    RecordView,
    Source,
    StatusId,
};
use crate::config::HarnessConfig;
use crate::errors;
use crate::errors::{ErrorView, PipelineError};
use crate::failure;
use crate::headers;
use crate::headers::Headers;
use crate::identity;
use crate::json;
use crate::json::{Json, JsonTree};
use crate::provider::{EventMetrics, StopReason};
use crate::rpc;
use crate::rpc::RpcId;
use crate::session::{AgentIdentity, IdentityView, Workflow};
use crate::text;

verus! {

/// A tool call, as far as it could be parsed.
#[derive(Debug)]
pub struct ParsedCall {
    pub tool: String,
    pub arguments: Json,
    /// Its id, where it has one.
    pub rpc_id: Option<RpcId>,
}

/// A [`ParsedCall`] by its contents.
#[verifier::ext_equal]
pub struct CallView {
    pub tool: Seq<char>,
    pub arguments: JsonTree,
    pub rpc_id: Option<JsonTree>,
}

impl View for ParsedCall {
    type V = CallView;

    open spec fn view(&self) -> CallView {
        CallView {
            tool: self.tool@,
            arguments: self.arguments@,
            rpc_id: rpc::opt_id(self.rpc_id),
        }
    }
}

/// An optional document by its tree.
pub open spec fn opt_tree(document: Option<Json>) -> Option<JsonTree> {
    match document {
        Some(d) => Some(d@),
        None => None,
    }
}

/// The scope that a tool call asks for.
pub open spec fn call_scope(call: Option<CallView>) -> Seq<char> {
    match call {
        Some(c) => "tool:"@ + c.tool,
        None => identity::TOOL_INVOKE_SCOPE@,
    }
}

/// The scope that a tool call asks for.
pub fn required_scope(call: &Option<ParsedCall>) -> (scope: String)
    ensures
        scope@ == call_scope(opt_call(*call)),
{
    match call {
        Some(c) => identity::tool_scope(c.tool.as_str()),
        None => identity::TOOL_INVOKE_SCOPE.to_owned(),
    }
}

/// An optional tool call by its contents.
pub open spec fn opt_call(call: Option<ParsedCall>) -> Option<CallView> {
    match call {
        Some(c) => Some(c@),
        None => None,
    }
}

/// What is decided of a tool call.
#[derive(Debug)]
pub enum ToolVerdict {
    /// `budget_remaining` is the largest number where there is no limit.
    Allowed { tool: String, budget_remaining: u64, elapsed_us: u64 },
    /// `response` is the JSON-RPC error that the client is answered with.
    Blocked { tool: String, stage: String, reason: String, response: Json, elapsed_us: u64 },
}

/// A [`ToolVerdict`] by its contents.
#[verifier::ext_equal]
pub enum VerdictView {
    Allowed { tool: Seq<char>, budget_remaining: u64, elapsed_us: u64 },
    Blocked { tool: Seq<char>, stage: Seq<char>, reason: Seq<char>, response: JsonTree, elapsed_us: u64 },
}

impl View for ToolVerdict {
    type V = VerdictView;

    open spec fn view(&self) -> VerdictView {
        match self {
            ToolVerdict::Allowed { tool, budget_remaining, elapsed_us } => VerdictView::Allowed {
                tool: tool@,
                budget_remaining: *budget_remaining,
                elapsed_us: *elapsed_us,
            },
            ToolVerdict::Blocked { tool, stage, reason, response, elapsed_us } => VerdictView::Blocked {
                tool: tool@,
                stage: stage@,
                reason: reason@,
                response: response@,
                elapsed_us: *elapsed_us,
            },
        }
    }
}

/// The body of the event that tells a verdict.
pub open spec fn verdict_payload(verdict: VerdictView) -> PayloadView {
    match verdict {
        VerdictView::Allowed { tool, budget_remaining, elapsed_us } => PayloadView::ToolAllowed {
            tool,
            budget_remaining: if budget_remaining != u64::MAX {
                Some(budget_remaining)
            } else {
                None
            },
            budget_unlimited: budget_remaining == u64::MAX,
            decision_us: elapsed_us,
        },
        VerdictView::Blocked { tool, stage, reason, elapsed_us, .. } => PayloadView::ToolBlocked {
            tool,
            stage,
            reason,
            decision_us: elapsed_us,
        },
    }
}

/// Why a verdict stops a session's work, if it does.
pub open spec fn verdict_stop(verdict: VerdictView) -> Option<StopReason> {
    match verdict {
        VerdictView::Allowed { .. } => None,
        VerdictView::Blocked { stage, .. } => if stage == "budget"@ {
            Some(StopReason::BudgetExceeded)
        } else {
            Some(StopReason::PolicyBlocked)
        },
    }
}

/// The id under which a tool call is written down: its own, else a fresh
/// one.
pub open spec fn call_id(call: CallView, fresh: Seq<char>) -> Seq<char> {
    match call.rpc_id {
        Some(id) => rpc::shown_id(id, json::json_text(id)),
        None => fresh,
    }
}

/// The body of the event that tells a verdict, as it is written.
pub open spec fn verdict_text(verdict: VerdictView) -> Seq<char> {
    json::json_text(JsonTree::Object(artifact::payload_fields(verdict_payload(verdict))))
}

/// The record of a verdict. A call that could be parsed is written down as
/// such, with the body of the event as what came of it.
pub open spec fn verdict_view(verdict: VerdictView, call: Option<CallView>, raw: Seq<char>, fresh: Seq<char>) -> RecordView {
    verdict_with(verdict, call, raw, fresh, verdict_text(verdict))
}

/// The record of a verdict, where the body of its event is written so.
pub open spec fn verdict_with(
    verdict: VerdictView,
    call: Option<CallView>,
    raw: Seq<char>,
    fresh: Seq<char>,
    written: Seq<char>,
) -> RecordView {
    RecordView {
        class: EventClass::ToolCall,
        payload: verdict_payload(verdict),
        text: raw,
        analyze_loop: false,
        status: if verdict is Allowed {
            StatusId::Success
        } else {
            StatusId::Failure
        },
        stop_reason: verdict_stop(verdict),
        native_stop_reason: None,
        metrics: audit::no_metrics(),
        cost_usd_micros: 0,
        atif: Some(
            AtifView {
                source: Source::Agent,
                message: JsonTree::Text("MCP tool authorization decision"@),
                reasoning_content: None,
                model_name: None,
                tool_calls: match call {
                    Some(c) => Some(
                        seq![
                            AtifToolCallView {
                                tool_call_id: Some(call_id(c, fresh)),
                                function_name: c.tool,
                                arguments: c.arguments,
                            },
                        ],
                    ),
                    None => None,
                },
                observation: match call {
                    Some(c) => Some(
                        ObservationView {
                            source_call_id: Some(call_id(c, fresh)),
                            content: Some(JsonTree::Text(written)),
                            tool_call_id: None,
                        },
                    ),
                    None => None,
                },
                llm_call_count: Some(0),
            },
        ),
        response_marker: None,
        response_attempt: None,
    }
}

/// The body of the event that tells a verdict.
fn payload_of(verdict: &ToolVerdict) -> (payload: Payload)
    ensures
        payload@ == verdict_payload(verdict@),
{
    match verdict {
        ToolVerdict::Allowed { tool, budget_remaining, elapsed_us } => Payload::ToolAllowed {
            tool: tool.clone(),
            budget_remaining: if *budget_remaining != u64::MAX {
                Some(*budget_remaining)
            } else {
                None
            },
            budget_unlimited: *budget_remaining == u64::MAX,
            decision_us: *elapsed_us,
        },
        ToolVerdict::Blocked { tool, stage, reason, elapsed_us, .. } => Payload::ToolBlocked {
            tool: tool.clone(),
            stage: stage.clone(),
            reason: reason.clone(),
            decision_us: *elapsed_us,
        },
    }
}

/// The record of a verdict. `raw` is the call as it came, and `fresh` a fresh
/// id for a call that has none.
pub fn verdict_record(verdict: &ToolVerdict, call: &Option<ParsedCall>, raw: String, fresh: String) -> (record: AuditRecord)
    ensures
        record@ == verdict_view(verdict@, opt_call(*call), raw@, fresh@),
{
    let document: Json = payload_of(verdict).document();
    proof {
        artifact::lemma_verdicts_are_plain(verdict_payload(verdict@));
    }
    record_of_verdict(verdict, call, raw, fresh, json::written(&document))
}

/// The record of a verdict. `written` is the body of its event as JSON.
pub fn record_of_verdict(
    verdict: &ToolVerdict,
    call: &Option<ParsedCall>,
    raw: String,
    fresh: String,
    written: String,
) -> (record: AuditRecord)
    ensures
        record@ == verdict_with(verdict@, opt_call(*call), raw@, fresh@, written@),
{
    let (status, stop_reason) = match verdict {
        ToolVerdict::Allowed { .. } => (StatusId::Success, None),
        ToolVerdict::Blocked { stage, .. } => {
            if text::same_text(stage.as_str(), "budget") {
                (StatusId::Failure, Some(StopReason::BudgetExceeded))
            } else {
                (StatusId::Failure, Some(StopReason::PolicyBlocked))
            }
        },
    };
    let (tool_calls, observation) = match call {
        None => (None, None),
        Some(c) => {
            let id: String = match &c.rpc_id {
                Some(id) => id.shown(),
                None => fresh,
            };
            let mut calls: Vec<AtifToolCall> = Vec::new();
            calls.push(
                AtifToolCall {
                    tool_call_id: Some(id.clone()),
                    function_name: c.tool.clone(),
                    arguments: c.arguments.copy(),
                },
            );
            proof {
                assert(audit::atif_calls(calls@) =~= seq![calls@[0]@]);
            }
            let content: Option<Json> = Some(Json::Text(written));
            (Some(calls), Some(Observation { source_call_id: Some(id), content, tool_call_id: None }))
        },
    };
    AuditRecord {
        class: EventClass::ToolCall,
        payload: payload_of(verdict),
        text: raw,
        analyze_loop: false,
        status,
        stop_reason,
        native_stop_reason: None,
        metrics: EventMetrics {
            prompt_tokens: None,
            completion_tokens: None,
            cached_tokens: None,
            pruned_tokens: None,
            pruning_ratio_millis: None,
        },
        cost_usd_micros: 0,
        atif: Some(
            AtifCapture {
                source: Source::Agent,
                message: Json::Text("MCP tool authorization decision".to_owned()),
                reasoning_content: None,
                model_name: None,
                tool_calls,
                observation,
                llm_call_count: Some(0),
            },
        ),
        response_marker: None,
        response_attempt: None,
    }
}

/// Where the interception of a tool call stands.
#[derive(Debug)]
pub enum ToolStage {
    /// The identity is being resolved.
    Identifying,
    /// The identity was rejected with this error, which is being recorded.
    Rejecting(PipelineError),
    /// The session is being opened.
    Opening,
    /// A slot for the record is being reserved.
    Reserving,
    /// The error for a call that the workflow does not allow is being made.
    Vetoing,
    /// The policy is being asked.
    Checking,
    Decided,
    Refused,
}

/// What happens to a tool call on its way.
#[derive(Debug)]
pub enum ToolEvent {
    Identified(Result<AgentIdentity, PipelineError>),
    RejectionRecorded(Result<(), String>),
    Opened(SessionFacts),
    Reserved(Result<(), String>),
    /// The JSON-RPC error that was asked for.
    ErrorMade(Json),
    Checked(ToolVerdict),
}

/// What the interception wants done.
#[derive(Debug)]
pub enum ToolAction {
    /// Nothing: this is not what is being waited for.
    Ignore,
    /// Record the rejection in a session of its own.
    RecordRejection(AuditRecord),
    /// Find the session, or open it; never a closed one anew.
    Open,
    /// Do this to the session, and reserve a slot for the record.
    Reserve(SessionEffects),
    /// Make the JSON-RPC authorization error for the call of this id, with
    /// this reason.
    MakeError { id: Option<Json>, reason: String },
    /// Ask the policy, which may charge the call.
    Check,
    /// Submit the record, and answer with the verdict.
    Decide { record: AuditRecord, verdict: ToolVerdict },
    /// Do this to the session, and answer with the error.
    Refuse { effects: SessionEffects, error: PipelineError },
}

/// The interception of one tool call.
#[derive(Debug)]
pub struct ToolInterception {
    stage: ToolStage,
    session_id: String,
    workflow: Workflow,
    identity: Option<AgentIdentity>,
    call: Option<ParsedCall>,
    /// Whether the tool is one that only a signed session may call.
    consequential: bool,
    /// The call as it came.
    raw: String,
    /// A fresh id, for a call that has none.
    fresh: String,
}

/// A [`ToolStage`] by its contents.
#[verifier::ext_equal]
pub enum ToolStageView {
    Identifying,
    Rejecting(ErrorView),
    Opening,
    Reserving,
    Vetoing,
    Checking,
    Decided,
    Refused,
}

/// A [`ToolInterception`] by its contents.
#[verifier::ext_equal]
pub struct InterceptionView {
    pub stage: ToolStageView,
    pub session_id: Seq<char>,
    pub workflow: Workflow,
    pub identity: Option<IdentityView>,
    pub call: Option<CallView>,
    pub consequential: bool,
    pub raw: Seq<char>,
    pub fresh: Seq<char>,
}

/// A [`ToolEvent`] by its contents.
pub enum ToolEventView {
    Identified(Result<IdentityView, ErrorView>),
    RejectionRecorded(Option<Seq<char>>),
    Opened(FactsView),
    Reserved(Option<Seq<char>>),
    ErrorMade(JsonTree),
    Checked(VerdictView),
}

/// A [`ToolAction`] by its contents.
#[verifier::ext_equal]
pub enum ToolActionView {
    Ignore,
    RecordRejection(RecordView),
    Open,
    Reserve(SessionEffects),
    MakeError { id: Option<JsonTree>, reason: Seq<char> },
    Check,
    Decide { record: RecordView, verdict: VerdictView },
    Refuse { effects: SessionEffects, error: ErrorView },
}

impl View for ToolStage {
    type V = ToolStageView;

    open spec fn view(&self) -> ToolStageView {
        match self {
            ToolStage::Identifying => ToolStageView::Identifying,
            ToolStage::Rejecting(e) => ToolStageView::Rejecting(e@),
            ToolStage::Opening => ToolStageView::Opening,
            ToolStage::Reserving => ToolStageView::Reserving,
            ToolStage::Vetoing => ToolStageView::Vetoing,
            ToolStage::Checking => ToolStageView::Checking,
            ToolStage::Decided => ToolStageView::Decided,
            ToolStage::Refused => ToolStageView::Refused,
        }
    }
}

impl View for ToolInterception {
    type V = InterceptionView;

    closed spec fn view(&self) -> InterceptionView {
        InterceptionView {
            stage: self.stage@,
            session_id: self.session_id@,
            workflow: self.workflow,
            identity: match self.identity {
                Some(i) => Some(i@),
                None => None,
            },
            call: opt_call(self.call),
            consequential: self.consequential,
            raw: self.raw@,
            fresh: self.fresh@,
        }
    }
}

impl View for ToolEvent {
    type V = ToolEventView;

    open spec fn view(&self) -> ToolEventView {
        match self {
            ToolEvent::Identified(Ok(i)) => ToolEventView::Identified(Ok(i@)),
            ToolEvent::Identified(Err(e)) => ToolEventView::Identified(Err(e@)),
            ToolEvent::RejectionRecorded(outcome) => ToolEventView::RejectionRecorded(
                admission::outcome_fault(*outcome),
            ),
            ToolEvent::Opened(facts) => ToolEventView::Opened(facts@),
            ToolEvent::Reserved(outcome) => ToolEventView::Reserved(admission::outcome_fault(*outcome)),
            ToolEvent::ErrorMade(response) => ToolEventView::ErrorMade(response@),
            ToolEvent::Checked(verdict) => ToolEventView::Checked(verdict@),
        }
    }
}

impl View for ToolAction {
    type V = ToolActionView;

    open spec fn view(&self) -> ToolActionView {
        match self {
            ToolAction::Ignore => ToolActionView::Ignore,
            ToolAction::RecordRejection(record) => ToolActionView::RecordRejection(record@),
            ToolAction::Open => ToolActionView::Open,
            ToolAction::Reserve(effects) => ToolActionView::Reserve(*effects),
            ToolAction::MakeError { id, reason } => ToolActionView::MakeError {
                id: opt_tree(*id),
                reason: reason@,
            },
            ToolAction::Check => ToolActionView::Check,
            ToolAction::Decide { record, verdict } => ToolActionView::Decide { record: record@, verdict: verdict@ },
            ToolAction::Refuse { effects, error } => ToolActionView::Refuse { effects: *effects, error: error@ },
        }
    }
}

/// Why a tool that only a signed session may call is blocked.
pub open spec fn veto_reason(tool: Seq<char>) -> Seq<char> {
    "tool "@ + headers::debug_text(tool) + " requires a signed workflow"@
}

/// The verdict on a tool that only a signed session may call.
pub open spec fn veto(tool: Seq<char>, response: JsonTree) -> VerdictView {
    VerdictView::Blocked {
        tool,
        stage: "policy"@,
        reason: veto_reason(tool),
        response,
        elapsed_us: 0,
    }
}

/// What a client is told of its call: how many calls remain, where it is
/// allowed; the error, where it is blocked.
pub open spec fn verdict_tree(verdict: VerdictView) -> JsonTree {
    match verdict {
        VerdictView::Allowed { tool, budget_remaining, elapsed_us } => JsonTree::Object(
            seq![
                ("allowed"@, JsonTree::Bool(true)),
                artifact::whole_field("budget_remaining"@, budget_remaining),
                artifact::whole_field("decision_us"@, elapsed_us),
                artifact::text_field("tool"@, tool),
            ],
        ),
        VerdictView::Blocked { response, .. } => response,
    }
}

/// What a client is told of its call.
pub fn verdict_document(verdict: &ToolVerdict) -> (document: Json)
    ensures
        document@ == verdict_tree(verdict@),
{
    match verdict {
        ToolVerdict::Allowed { tool, budget_remaining, elapsed_us } => {
            let mut fields: Vec<(String, Json)> = Vec::new();
            assert(json::field_trees(fields@) =~= Seq::empty());
            artifact::put_bool(&mut fields, "allowed", true);
            artifact::put(&mut fields, "budget_remaining", json::whole(*budget_remaining));
            artifact::put(&mut fields, "decision_us", json::whole(*elapsed_us));
            artifact::put_text(&mut fields, "tool", tool.as_str());
            assert(json::field_trees(fields@) =~= verdict_tree(verdict@)->Object_0);
            artifact::object(fields)
        },
        ToolVerdict::Blocked { response, .. } => response.copy(),
    }
}

/// Whether a tool is one that only a signed session may call.
pub open spec fn is_consequential(call: Option<CallView>, tools: Seq<Seq<char>>) -> bool {
    match call {
        Some(c) => tools.contains(c.tool),
        None => false,
    }
}

impl InterceptionView {
    /// A state is well formed when the agent is known once it is needed, and
    /// only a tool that is known counts as consequential.
    pub open spec fn wf(self) -> bool {
        &&& self.stage == ToolStageView::Opening ==> self.identity is Some
        &&& self.consequential ==> self.call is Some
        &&& self.stage == ToolStageView::Vetoing ==> self.call is Some
    }

    /// The state at another stage.
    pub open spec fn at(self, stage: ToolStageView) -> InterceptionView {
        InterceptionView { stage, ..self }
    }

    /// The refusal of a call.
    pub open spec fn refuse(self, effects: SessionEffects, error: ErrorView) -> (InterceptionView, ToolActionView) {
        (self.at(ToolStageView::Refused), ToolActionView::Refuse { effects, error })
    }

    /// The end by a verdict.
    pub open spec fn decide(self, verdict: VerdictView) -> (InterceptionView, ToolActionView) {
        (
            self.at(ToolStageView::Decided),
            ToolActionView::Decide { record: verdict_view(verdict, self.call, self.raw, self.fresh), verdict },
        )
    }

    /// Whether the call is blocked whatever the policy says.
    pub open spec fn vetoed(self) -> bool {
        self.workflow == Workflow::Unsigned && self.consequential
    }

    /// What becomes of an interception when something happens, and what is
    /// to be done.
    pub open spec fn next(self, event: ToolEventView) -> (InterceptionView, ToolActionView) {
        match (self.stage, event) {
            (ToolStageView::Identifying, ToolEventView::Identified(Ok(identity))) => (
                InterceptionView { stage: ToolStageView::Opening, identity: Some(identity), ..self },
                ToolActionView::Open,
            ),
            (ToolStageView::Identifying, ToolEventView::Identified(Err(e))) => (
                self.at(ToolStageView::Rejecting(e)),
                ToolActionView::RecordRejection(
                    failure::failure(
                        Workflow::Signed,
                        StopReason::IdentityRejected,
                        failure::rejection_words(self.session_id, e.words()),
                    ),
                ),
            ),
            (ToolStageView::Rejecting(e), ToolEventView::RejectionRecorded(fault)) => self.refuse(
                admission::untouched(),
                match fault {
                    None => e,
                    Some(words) => errors::unavailable(words),
                },
            ),
            (ToolStageView::Opening, ToolEventView::Opened(facts)) => {
                let (effects, fault) = admission::joining(facts, self.workflow, self.identity->0);
                match fault {
                    Some(e) => self.refuse(effects, e),
                    None => (self.at(ToolStageView::Reserving), ToolActionView::Reserve(effects)),
                }
            },
            (ToolStageView::Reserving, ToolEventView::Reserved(fault)) => match fault {
                Some(words) => self.refuse(admission::untouched(), errors::unavailable(words)),
                None => if self.vetoed() {
                    (
                        self.at(ToolStageView::Vetoing),
                        ToolActionView::MakeError {
                            id: self.call->0.rpc_id,
                            reason: veto_reason(self.call->0.tool),
                        },
                    )
                } else {
                    (self.at(ToolStageView::Checking), ToolActionView::Check)
                },
            },
            (ToolStageView::Vetoing, ToolEventView::ErrorMade(response)) => self.decide(
                veto(self.call->0.tool, response),
            ),
            (ToolStageView::Checking, ToolEventView::Checked(verdict)) => self.decide(verdict),
            _ => (self, ToolActionView::Ignore),
        }
    }
}

impl ToolInterception {
    /// The session that it is about.
    pub fn session_id(&self) -> (id: &String)
        ensures
            id@ == self@.session_id,
    {
        &self.session_id
    }

    /// The workflow of the session.
    pub fn workflow(&self) -> (workflow: Workflow)
        ensures
            workflow == self@.workflow,
    {
        self.workflow
    }

    /// The agent, once it is known.
    pub fn identity(&self) -> (identity: Option<&AgentIdentity>)
        ensures
            match identity {
                Some(agent) => self@.identity == Some(agent@),
                None => self@.identity is None,
            },
    {
        self.identity.as_ref()
    }

    /// Begins the interception of a tool call. `checked` is the outcome of
    /// checking the session id that the request names, or of minting one.
    pub fn begin(
        headers: &Headers,
        checked: Result<String, String>,
        config: &HarnessConfig,
        call: Option<ParsedCall>,
        raw: String,
        fresh: String,
    ) -> (begun: Result<ToolInterception, PipelineError>)
        ensures
            match (
                admission::addressed(headers@, admission::checked_view(checked), config.default_workflow@),
                begun,
            ) {
                (Ok((id, workflow)), Ok(interception)) => interception@ == (InterceptionView {
                    stage: ToolStageView::Identifying,
                    session_id: id,
                    workflow,
                    identity: None,
                    call: opt_call(call),
                    consequential: is_consequential(opt_call(call), text::texts(config.consequential_tools@)),
                    raw: raw@,
                    fresh: fresh@,
                }) && interception@.wf(),
                (Err(fault), Err(e)) => e@ == fault,
                _ => false,
            },
    {
        let consequential: bool = match &call {
            Some(c) => text::list_holds(&config.consequential_tools, c.tool.as_str()),
            None => false,
        };
        match admission::address(headers, checked, config) {
            Ok((session_id, workflow)) => Ok(
                ToolInterception {
                    stage: ToolStage::Identifying,
                    session_id,
                    workflow,
                    identity: None,
                    call,
                    consequential,
                    raw,
                    fresh,
                },
            ),
            Err(e) => Err(e),
        }
    }

    /// Refuses the call.
    fn refuse(&mut self, effects: SessionEffects, error: PipelineError) -> (action: ToolAction)
        ensures
            (final(self)@, action@) == old(self)@.refuse(effects, error@),
    {
        self.stage = ToolStage::Refused;
        ToolAction::Refuse { effects, error }
    }

    /// Ends by a verdict.
    fn decide(&mut self, verdict: ToolVerdict) -> (action: ToolAction)
        ensures
            (final(self)@, action@) == old(self)@.decide(verdict@),
    {
        let record: AuditRecord = verdict_record(&verdict, &self.call, self.raw.clone(), self.fresh.clone());
        self.stage = ToolStage::Decided;
        ToolAction::Decide { record, verdict }
    }

    /// Why the tool of this call is blocked, where only a signed session may
    /// call it.
    fn reason(&self) -> (reason: String)
        requires
            self@.call is Some,
        ensures
            reason@ == veto_reason(self@.call->0.tool),
    {
        let tool: String = match &self.call {
            Some(c) => headers::quoted(c.tool.as_str()),
            None => String::new(),
        };
        text::concat3("tool ", tool.as_str(), " requires a signed workflow")
    }

    /// Blocks a tool that only a signed session may call, else asks the
    /// policy.
    fn ask(&mut self) -> (action: ToolAction)
        requires
            old(self)@.wf(),
            old(self)@.stage == ToolStageView::Reserving,
        ensures
            (final(self)@, action@) == old(self)@.next(ToolEventView::Reserved(None)),
            final(self)@.wf(),
    {
        if self.workflow == Workflow::Unsigned && self.consequential {
            let reason: String = self.reason();
            let id: Option<Json> = match &self.call {
                Some(c) => match &c.rpc_id {
                    Some(id) => Some(id.document().copy()),
                    None => None,
                },
                None => None,
            };
            self.stage = ToolStage::Vetoing;
            ToolAction::MakeError { id, reason }
        } else {
            self.stage = ToolStage::Checking;
            ToolAction::Check
        }
    }

    /// Takes one step of the interception.
    pub fn step(&mut self, event: ToolEvent) -> (action: ToolAction)
        requires
            old(self)@.wf(),
        ensures
            (final(self)@, action@) == old(self)@.next(event@),
            final(self)@.wf(),
    {
        let none = SessionEffects { refresh_identity: false, touch: false, reset_breaker: false };
        match event {
            ToolEvent::Identified(resolved) => match self.stage {
                ToolStage::Identifying => match resolved {
                    Ok(identity) => {
                        self.identity = Some(identity);
                        self.stage = ToolStage::Opening;
                        ToolAction::Open
                    },
                    Err(e) => {
                        let record = failure::rejection_record(
                            self.session_id.as_str(),
                            StopReason::IdentityRejected,
                            e.message().as_str(),
                        );
                        self.stage = ToolStage::Rejecting(e);
                        ToolAction::RecordRejection(record)
                    },
                },
                _ => ToolAction::Ignore,
            },
            ToolEvent::RejectionRecorded(outcome) => {
                let mut stage = ToolStage::Refused;
                std::mem::swap(&mut self.stage, &mut stage);
                match stage {
                    ToolStage::Rejecting(e) => match outcome {
                        Ok(()) => self.refuse(none, e),
                        Err(words) => self.refuse(none, PipelineError::Unavailable(words)),
                    },
                    other => {
                        self.stage = other;
                        ToolAction::Ignore
                    },
                }
            },
            ToolEvent::Opened(facts) => match self.stage {
                ToolStage::Opening => {
                    let (effects, fault) = match &self.identity {
                        Some(identity) => admission::join_session(&facts, self.workflow, identity),
                        None => {
                            return ToolAction::Ignore;
                        },
                    };
                    match fault {
                        Some(e) => self.refuse(effects, e),
                        None => {
                            self.stage = ToolStage::Reserving;
                            ToolAction::Reserve(effects)
                        },
                    }
                },
                _ => ToolAction::Ignore,
            },
            ToolEvent::Reserved(outcome) => match self.stage {
                ToolStage::Reserving => match outcome {
                    Ok(()) => self.ask(),
                    Err(words) => self.refuse(none, PipelineError::Unavailable(words)),
                },
                _ => ToolAction::Ignore,
            },
            ToolEvent::ErrorMade(response) => match self.stage {
                ToolStage::Vetoing => {
                    let reason: String = self.reason();
                    let tool: String = match &self.call {
                        Some(c) => c.tool.clone(),
                        None => String::new(),
                    };
                    self.decide(
                        ToolVerdict::Blocked { tool, stage: "policy".to_owned(), reason, response, elapsed_us: 0 },
                    )
                },
                _ => ToolAction::Ignore,
            },
            ToolEvent::Checked(verdict) => match self.stage {
                ToolStage::Checking => self.decide(verdict),
                _ => ToolAction::Ignore,
            },
        }
    }
}

/// A tool that only a signed session may call is blocked in an unsigned one
/// before the policy is asked, so that no budget is spent on it.
pub proof fn law_unsigned_sessions_spend_nothing_on_vetoed_tools(state: InterceptionView, event: ToolEventView)
    requires
        state.vetoed(),
    ensures
        state.next(event).1 != ToolActionView::Check,
        state.stage == ToolStageView::Reserving && event == ToolEventView::Reserved(None) ==> state.next(event) == (
            state.at(ToolStageView::Vetoing),
            ToolActionView::MakeError { id: state.call->0.rpc_id, reason: veto_reason(state.call->0.tool) },
        ),
        state.stage == ToolStageView::Vetoing && state.next(event).1 is Decide ==> (state.next(event).1
            matches ToolActionView::Decide { verdict, .. } && verdict is Blocked),
{
}

/// Every verdict goes out together with its record, and the record tells the
/// same: a success exactly where the call is allowed.
pub proof fn law_verdicts_are_on_record(state: InterceptionView, event: ToolEventView)
    ensures
        state.next(event).1 matches ToolActionView::Decide { record, verdict } ==> {
            &&& record.payload == verdict_payload(verdict)
            &&& (record.status == StatusId::Success <==> verdict is Allowed)
            &&& (record.stop_reason is None <==> verdict is Allowed)
        },
{
}

/// A tool call never goes on in a session that is closed.
pub proof fn law_closed_sessions_take_no_tool_calls(state: InterceptionView, facts: FactsView)
    requires
        facts.closed,
    ensures
        !(state.next(ToolEventView::Opened(facts)).1 is Reserve),
{
}

/// Whether a verdict may be acted on once it is to be durable: only if its
/// record was captured.
pub fn check_verdict_capture(capture_failed: bool) -> (fault: Option<PipelineError>)
    ensures
        admission::opt_error(fault) == (if capture_failed {
            Some(errors::unavailable("tool authorization audit capture failed"@))
        } else {
            None
        }),
{
    if capture_failed {
        Some(PipelineError::Unavailable("tool authorization audit capture failed".to_owned()))
    } else {
        None
    }
}

/// The record of a blocked call tells a used-up budget from every other
/// objection: its stop reason is `BudgetExceeded` exactly where the call was
/// blocked at the stage "budget", and `PolicyBlocked` at any other stage. A
/// call that goes through stops nothing.
pub proof fn law_blocks_are_told_apart_on_record(
    verdict: VerdictView,
    call: Option<CallView>,
    raw: Seq<char>,
    fresh: Seq<char>,
    written: Seq<char>,
)
    ensures
        ({
            let record = verdict_with(verdict, call, raw, fresh, written);
            match verdict {
                VerdictView::Blocked { tool, stage, reason, elapsed_us, .. } => {
                    &&& record.status == StatusId::Failure
                    &&& (record.stop_reason == Some(StopReason::BudgetExceeded) <==> stage == "budget"@)
                    &&& (record.stop_reason == Some(StopReason::PolicyBlocked) <==> stage != "budget"@)
                    &&& record.payload == (PayloadView::ToolBlocked { tool, stage, reason, decision_us: elapsed_us })
                },
                VerdictView::Allowed { tool, budget_remaining, elapsed_us } => {
                    &&& record.status == StatusId::Success
                    &&& record.stop_reason is None
                    &&& record.payload matches PayloadView::ToolAllowed {
                        tool: named,
                        budget_remaining: left,
                        budget_unlimited,
                        decision_us,
                    }
                    &&& named == tool && decision_us == elapsed_us
                    &&& budget_unlimited == (budget_remaining == u64::MAX)
                    &&& left is None <==> budget_unlimited
                    &&& left matches Some(n) ==> n == budget_remaining
                },
            }
        }),
        verdict_view(verdict, call, raw, fresh).stop_reason == verdict_with(verdict, call, raw, fresh, written).stop_reason,
{
}

/// The record of a verdict names the call as it came: its tool, its
/// arguments and its id, under which the outcome is noted too. It costs
/// nothing, uses no tokens, and is no turn of the model.
pub proof fn law_verdict_records_name_the_call(verdict: VerdictView, call: Option<CallView>, raw: Seq<char>, fresh: Seq<char>)
    ensures
        ({
            let record = verdict_view(verdict, call, raw, fresh);
            &&& record.class == EventClass::ToolCall
            &&& record.text == raw
            &&& !record.analyze_loop
            &&& record.cost_usd_micros == 0
            &&& record.metrics.prompt_tokens is None && record.metrics.completion_tokens is None
            &&& record.metrics.cached_tokens is None
            &&& record.response_attempt is None && record.response_marker is None
            &&& record.atif matches Some(step)
            &&& step.source == Source::Agent
            &&& step.llm_call_count == Some(0u64)
            &&& step.model_name is None
            &&& (step.tool_calls is Some <==> call is Some) && (step.observation is Some <==> call is Some)
            &&& call matches Some(c) ==> {
                let noted = step.tool_calls->0[0];
                &&& step.tool_calls->0.len() == 1
                &&& noted.function_name == c.tool
                &&& noted.arguments == c.arguments
                &&& noted.tool_call_id is Some
                &&& step.observation->0.source_call_id == noted.tool_call_id
                &&& c.rpc_id is None ==> noted.tool_call_id == Some(fresh)
                &&& c.rpc_id matches Some(JsonTree::Text(id)) ==> noted.tool_call_id == Some(id)
            }
        }),
{
}

/// A consequential tool in an unsigned session is blocked by policy, and
/// goes on record so: never as a matter of the budget, and with the very
/// answer that the client gets.
pub proof fn law_vetoes_are_recorded_as_policy(state: InterceptionView, response: JsonTree)
    requires
        state.wf(),
        state.stage == ToolStageView::Reserving,
        state.workflow == Workflow::Unsigned,
        state.consequential,
    ensures
        ({
            let (vetoing, asked) = state.next(ToolEventView::Reserved(None));
            let (ended, action) = vetoing.next(ToolEventView::ErrorMade(response));
            &&& asked matches ToolActionView::MakeError { id, .. } && id == state.call->0.rpc_id
            &&& ended.stage == ToolStageView::Decided
            &&& action matches ToolActionView::Decide { record, verdict }
            &&& record.stop_reason == Some(StopReason::PolicyBlocked)
            &&& record.status == StatusId::Failure
            &&& record.payload matches PayloadView::ToolBlocked { tool, stage, .. }
            &&& tool == state.call->0.tool && stage == "policy"@
            &&& verdict matches VerdictView::Blocked { response: told, .. } && told == response
        }),
{
    reveal_strlit("policy");
    reveal_strlit("budget");
    assert("policy"@[0] == 'p');
    assert("budget"@[0] == 'b');
}

/// What the policy says is what the client is told, and what goes on record.
pub proof fn law_the_policy_has_the_last_word(state: InterceptionView, verdict: VerdictView)
    requires
        state.stage == ToolStageView::Checking,
    ensures
        state.next(ToolEventView::Checked(verdict)).1 matches ToolActionView::Decide { record, verdict: told }
            && told == verdict && record == verdict_view(verdict, state.call, state.raw, state.fresh),
        state.next(ToolEventView::Checked(verdict)).0.stage == ToolStageView::Decided,
{
}

/// A call whose agent is not known is refused with the error that said so,
/// once that is on record in a signed session; where it cannot be recorded,
/// the service is not available. The call's own session is not touched.
pub proof fn law_unknown_callers_are_recorded_and_refused(state: InterceptionView, error: ErrorView, fault: Option<Seq<char>>)
    requires
        state.stage == ToolStageView::Identifying,
    ensures
        ({
            let (rejecting, action) = state.next(ToolEventView::Identified(Err(error)));
            let (ended, answer) = rejecting.next(ToolEventView::RejectionRecorded(fault));
            &&& action matches ToolActionView::RecordRejection(record)
            &&& record.status == StatusId::Failure
            &&& record.stop_reason == Some(StopReason::IdentityRejected)
            &&& ended.stage == ToolStageView::Refused
            &&& answer matches ToolActionView::Refuse { effects, error: told }
            &&& !effects.refresh_identity && !effects.touch && !effects.reset_breaker
            &&& fault is None ==> told == error
            &&& fault matches Some(words) ==> told == errors::unavailable(words)
        }),
{
}

/// A call for which no slot on record can be had is refused before the
/// policy is asked.
pub proof fn law_unrecordable_calls_are_refused(state: InterceptionView, words: Seq<char>)
    requires
        state.stage == ToolStageView::Reserving,
    ensures
        state.next(ToolEventView::Reserved(Some(words))).1 matches ToolActionView::Refuse { effects, error }
            && error == errors::unavailable(words) && !effects.refresh_identity && !effects.touch
            && !effects.reset_breaker,
        state.next(ToolEventView::Reserved(Some(words))).0.stage == ToolStageView::Refused,
{
}

/// The policy is asked exactly where nothing else decides: a signed session
/// may call every tool that the policy lets through, and an unsigned one every
/// tool that is not consequential.
pub proof fn law_the_policy_is_asked(state: InterceptionView)
    requires
        state.stage == ToolStageView::Reserving,
    ensures
        state.next(ToolEventView::Reserved(None)).1 == ToolActionView::Check <==> state.workflow == Workflow::Signed
            || !state.consequential,
        state.next(ToolEventView::Reserved(None)).1 == ToolActionView::Check ==> state.next(
            ToolEventView::Reserved(None),
        ).0.stage == ToolStageView::Checking,
{
}

/// A call that nothing stands against goes all the way to the verdict of the
/// policy: its agent is known, its session takes it in, and a slot on record
/// is reserved.
pub proof fn law_smooth_interceptions_go_all_the_way(
    start: InterceptionView,
    identity: IdentityView,
    facts: FactsView,
    verdict: VerdictView,
)
    requires
        start.stage == ToolStageView::Identifying,
        start.workflow == Workflow::Signed,
        admission::joining(facts, start.workflow, identity).1 is None,
    ensures
        ({
            let (s1, a1) = start.next(ToolEventView::Identified(Ok(identity)));
            let (s2, a2) = s1.next(ToolEventView::Opened(facts));
            let (s3, a3) = s2.next(ToolEventView::Reserved(None));
            let (s4, a4) = s3.next(ToolEventView::Checked(verdict));
            &&& a1 == ToolActionView::Open && s1.identity == Some(identity)
            &&& a2 matches ToolActionView::Reserve(effects) && effects.touch && effects.refresh_identity
                && !effects.reset_breaker
            &&& a3 == ToolActionView::Check
            &&& a4 matches ToolActionView::Decide { verdict: told, .. } && told == verdict
            &&& s4.stage == ToolStageView::Decided
        }),
{
}

/// A call that its session does not take in is refused with what the session
/// says.
pub proof fn law_sessions_have_their_say_on_tools(state: InterceptionView, facts: FactsView)
    requires
        state.stage == ToolStageView::Opening,
        state.identity is Some,
    ensures
        ({
            let (effects, fault) = admission::joining(facts, state.workflow, state.identity->0);
            fault matches Some(e) ==> state.next(ToolEventView::Opened(facts)).1 == (ToolActionView::Refuse {
                effects,
                error: e,
            }) && state.next(ToolEventView::Opened(facts)).0.stage == ToolStageView::Refused
        }),
{
}

/// A call that is decided or refused is done with.
pub proof fn law_ended_interceptions_rest(state: InterceptionView, event: ToolEventView)
    requires
        state.stage == ToolStageView::Decided || state.stage == ToolStageView::Refused,
    ensures
        state.next(event) == (state, ToolActionView::Ignore),
{
}

/// A tool is consequential exactly where the configuration lists it.
pub proof fn law_consequential_tools_are_listed(call: CallView, tools: Seq<Seq<char>>)
    ensures
        is_consequential(Some(call), tools) <==> exists|i: int| 0 <= i < tools.len() && #[trigger] tools[i] == call.tool,
        !is_consequential(None, tools),
{
    if is_consequential(Some(call), tools) {
        let i = tools.index_of(call.tool);
        assert(tools[i] == call.tool);
    }
}

/// A call asks for the scope of its tool; one whose tool cannot be told, for
/// the scope of all.
pub proof fn law_calls_ask_for_the_scope_of_their_tool(call: CallView)
    ensures
        call_scope(Some(call)) == "tool:"@ + call.tool,
        call_scope(None) == "tool:invoke"@,
{
}

/// What a client is told of an allowed call names the tool and what is left;
/// of a blocked one, the error that was made for it.
pub proof fn law_clients_are_told_the_verdict(verdict: VerdictView)
    ensures
        verdict matches VerdictView::Blocked { response, .. } ==> verdict_tree(verdict) == response,
        verdict matches VerdictView::Allowed { tool, budget_remaining, elapsed_us } ==> {
            let told = verdict_tree(verdict);
            &&& json::member(told, "allowed"@) == Some(JsonTree::Bool(true))
            &&& json::member(told, "tool"@) == Some(JsonTree::Text(tool))
            &&& json::unsigned_in(json::member(told, "budget_remaining"@)) == Some(budget_remaining)
            &&& json::unsigned_in(json::member(told, "decision_us"@)) == Some(elapsed_us)
        },
{
    reveal_strlit("allowed");
    reveal_strlit("budget_remaining");
    reveal_strlit("decision_us");
    reveal_strlit("tool");
    assert("allowed"@.len() == 7 && "budget_remaining"@.len() == 16 && "decision_us"@.len() == 11 && "tool"@.len() == 4);
    if verdict is Allowed {
        let fields = verdict_tree(verdict)->Object_0;
        assert(fields.skip(1)[0] == fields[1]);
        assert(fields.skip(1).skip(1)[0] == fields[2]);
        assert(fields.skip(1).skip(1).skip(1)[0] == fields[3]);
        reveal_with_fuel(json::field, 5);
    }
}

/// A tool that needs a signed workflow is named when it is vetoed, and a
/// verdict is recorded as the decision that it is.
pub proof fn law_vetoes_name_the_tool(
    tool: Seq<char>,
    verdict: VerdictView,
    call: Option<CallView>,
    raw: Seq<char>,
    fresh: Seq<char>,
    written: Seq<char>,
)
    ensures
        veto_reason(tool) == "tool "@ + headers::debug_text(tool) + " requires a signed workflow"@,
        (verdict_with(verdict, call, raw, fresh, written).atif matches Some(step) && step.message == JsonTree::Text(
            "MCP tool authorization decision"@,
        ) && step.source == Source::Agent && step.llm_call_count == Some(0u64) && step.reasoning_content is None
            && step.model_name is None),
{
}

} // verus!
