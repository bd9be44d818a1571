//! Audit records: what is written down of each decision and each response.

use vstd::prelude::*;
use crate::capture;
use crate::capture::{CaptureView, PartialToolCall, ResponseCapture};
use crate::json;
use crate::json::{Json, JsonTree};
use crate::provider;
use crate::provider::{DeltaView, EventMetrics, StopReason};
use crate::text;

verus! {

/// The kind of an audit event.
#[derive(Clone, Copy, Debug, PartialEq, Eq, Structural)]
pub enum EventClass {
    Session,
    StopReason,
    Compression,
    ToolCall,
}

/// Whether what an event speaks of went well.
#[derive(Clone, Copy, Debug, PartialEq, Eq, Structural)]
pub enum StatusId {
    Success,
    Failure,
}

/// Who speaks in a step of a trajectory.
#[derive(Clone, Copy, Debug, PartialEq, Eq, Structural)]
pub enum Source {
    System,
    User,
    Agent,
}

/// The body of an audit event.
#[derive(Debug)]
pub enum Payload {
    /// `{"reason": ..}`
    Reason { reason: String },
    /// `{"reason": .., "direction": "upstream_response"}`
    ResponseRefused { reason: String },
    /// `{"direction": "upstream_response", "http_status": ..}`
    Response { http_status: u16 },
    /// `{"direction": "upstream_response", "finish_reason": .., "http_status": ..}`
    ResponseFinished { finish_reason: String, http_status: u16 },
    /// `{"changed": .., "tokens_before": .., "tokens_after": ..}`
    Compression { changed: bool, tokens_before: u64, tokens_after: u64 },
    /// `{"tool": .., "allowed": true, "budget_remaining": .., "budget_unlimited": .., "decision_us": ..}`
    ToolAllowed { tool: String, budget_remaining: Option<u64>, budget_unlimited: bool, decision_us: u64 },
    /// `{"tool": .., "allowed": false, "stage": .., "reason": .., "decision_us": ..}`
    ToolBlocked { tool: String, stage: String, reason: String, decision_us: u64 },
    /// `{"action": "tool_completed", "execution_key": .., "status": .., "response_sha256": ..}`
    ToolCompleted { execution_key: String, status: u16, response_sha256: String },
}

/// A [`Payload`] by its texts.
#[verifier::ext_equal]
pub enum PayloadView {
    Reason { reason: Seq<char> },
    ResponseRefused { reason: Seq<char> },
    Response { http_status: u16 },
    ResponseFinished { finish_reason: Seq<char>, http_status: u16 },
    Compression { changed: bool, tokens_before: u64, tokens_after: u64 },
    ToolAllowed { tool: Seq<char>, budget_remaining: Option<u64>, budget_unlimited: bool, decision_us: u64 },
    ToolBlocked { tool: Seq<char>, stage: Seq<char>, reason: Seq<char>, decision_us: u64 },
    ToolCompleted { execution_key: Seq<char>, status: u16, response_sha256: Seq<char> },
}

impl View for Payload {
    type V = PayloadView;

    open spec fn view(&self) -> PayloadView {
        match self {
            Payload::Reason { reason } => PayloadView::Reason { reason: reason@ },
            Payload::ResponseRefused { reason } => PayloadView::ResponseRefused { reason: reason@ },
            Payload::Response { http_status } => PayloadView::Response { http_status: *http_status },
            Payload::ResponseFinished { finish_reason, http_status } => PayloadView::ResponseFinished {
                finish_reason: finish_reason@,
                http_status: *http_status,
            },
            Payload::Compression { changed, tokens_before, tokens_after } => PayloadView::Compression {
                changed: *changed,
                tokens_before: *tokens_before,
                tokens_after: *tokens_after,
            },
            Payload::ToolAllowed { tool, budget_remaining, budget_unlimited, decision_us } => PayloadView::ToolAllowed {
                tool: tool@,
                budget_remaining: *budget_remaining,
                budget_unlimited: *budget_unlimited,
                decision_us: *decision_us,
            },
            Payload::ToolBlocked { tool, stage, reason, decision_us } => PayloadView::ToolBlocked {
                tool: tool@,
                stage: stage@,
                reason: reason@,
                decision_us: *decision_us,
            },
            Payload::ToolCompleted { execution_key, status, response_sha256 } => PayloadView::ToolCompleted {
                execution_key: execution_key@,
                status: *status,
                response_sha256: response_sha256@,
            },
        }
    }
}

/// A tool call of a trajectory step. One without an id gets a fresh one when
/// the step is written.
#[derive(Debug)]
pub struct AtifToolCall {
    pub tool_call_id: Option<String>,
    pub function_name: String,
    pub arguments: Json,
}

/// An [`AtifToolCall`] by its contents.
#[verifier::ext_equal]
pub struct AtifToolCallView {
    pub tool_call_id: Option<Seq<char>>,
    pub function_name: Seq<char>,
    pub arguments: JsonTree,
}

impl View for AtifToolCall {
    type V = AtifToolCallView;

    open spec fn view(&self) -> AtifToolCallView {
        AtifToolCallView {
            tool_call_id: text::opt_text(self.tool_call_id),
            function_name: self.function_name@,
            arguments: self.arguments@,
        }
    }
}

/// What came back from a tool.
#[derive(Debug)]
pub struct Observation {
    /// The call that it answers.
    pub source_call_id: Option<String>,
    /// What it says.
    pub content: Option<Json>,
    /// The id of the call as the client wrote it.
    pub tool_call_id: Option<Json>,
}

/// An [`Observation`] by its contents.
#[verifier::ext_equal]
pub struct ObservationView {
    pub source_call_id: Option<Seq<char>>,
    pub content: Option<JsonTree>,
    pub tool_call_id: Option<JsonTree>,
}

/// The tree of an optional document.
pub open spec fn opt_tree(value: Option<Json>) -> Option<JsonTree> {
    match value {
        Some(document) => Some(document@),
        None => None,
    }
}

impl View for Observation {
    type V = ObservationView;

    open spec fn view(&self) -> ObservationView {
        ObservationView {
            source_call_id: text::opt_text(self.source_call_id),
            content: opt_tree(self.content),
            tool_call_id: opt_tree(self.tool_call_id),
        }
    }
}

/// A step of the trajectory that goes with an event.
#[derive(Debug)]
pub struct AtifCapture {
    pub source: Source,
    pub message: Json,
    pub reasoning_content: Option<String>,
    pub model_name: Option<String>,
    pub tool_calls: Option<Vec<AtifToolCall>>,
    pub observation: Option<Observation>,
    pub llm_call_count: Option<u64>,
}

/// An [`AtifCapture`] by its contents.
#[verifier::ext_equal]
pub struct AtifView {
    pub source: Source,
    pub message: JsonTree,
    pub reasoning_content: Option<Seq<char>>,
    pub model_name: Option<Seq<char>>,
    pub tool_calls: Option<Seq<AtifToolCallView>>,
    pub observation: Option<ObservationView>,
    pub llm_call_count: Option<u64>,
}

/// The contents of a list of tool calls.
pub open spec fn atif_calls(calls: Seq<AtifToolCall>) -> Seq<AtifToolCallView> {
    calls.map_values(|c: AtifToolCall| c@)
}

impl View for AtifCapture {
    type V = AtifView;

    open spec fn view(&self) -> AtifView {
        AtifView {
            source: self.source,
            message: self.message@,
            reasoning_content: text::opt_text(self.reasoning_content),
            model_name: text::opt_text(self.model_name),
            tool_calls: match self.tool_calls {
                Some(calls) => Some(atif_calls(calls@)),
                None => None,
            },
            observation: match self.observation {
                Some(observation) => Some(observation@),
                None => None,
            },
            llm_call_count: self.llm_call_count,
        }
    }
}

/// The attempt at a response that an event opens or closes.
#[derive(Debug)]
pub struct ResponseAttempt {
    pub id: String,
    pub terminal: bool,
}

/// An audit record.
#[derive(Debug)]
pub struct AuditRecord {
    pub class: EventClass,
    pub payload: Payload,
    /// The text that is searched for loops.
    pub text: String,
    pub analyze_loop: bool,
    pub status: StatusId,
    pub stop_reason: Option<StopReason>,
    pub native_stop_reason: Option<String>,
    pub metrics: EventMetrics,
    pub cost_usd_micros: u64,
    pub atif: Option<AtifCapture>,
    pub response_marker: Option<String>,
    pub response_attempt: Option<ResponseAttempt>,
}

/// An [`AuditRecord`] by its contents.
#[verifier::ext_equal]
pub struct RecordView {
    pub class: EventClass,
    pub payload: PayloadView,
    pub text: Seq<char>,
    pub analyze_loop: bool,
    pub status: StatusId,
    pub stop_reason: Option<StopReason>,
    pub native_stop_reason: Option<Seq<char>>,
    pub metrics: EventMetrics,
    pub cost_usd_micros: u64,
    pub atif: Option<AtifView>,
    pub response_marker: Option<Seq<char>>,
    pub response_attempt: Option<(Seq<char>, bool)>,
}

impl View for AuditRecord {
    type V = RecordView;

    open spec fn view(&self) -> RecordView {
        RecordView {
            class: self.class,
            payload: self.payload@,
            text: self.text@,
            analyze_loop: self.analyze_loop,
            status: self.status,
            stop_reason: self.stop_reason,
            native_stop_reason: text::opt_text(self.native_stop_reason),
            metrics: self.metrics,
            cost_usd_micros: self.cost_usd_micros,
            atif: match self.atif {
                Some(atif) => Some(atif@),
                None => None,
            },
            response_marker: text::opt_text(self.response_marker),
            response_attempt: match self.response_attempt {
                Some(attempt) => Some((attempt.id@, attempt.terminal)),
                None => None,
            },
        }
    }
}

/// No count at all.
pub open spec fn no_metrics() -> EventMetrics {
    EventMetrics {
        prompt_tokens: None,
        completion_tokens: None,
        cached_tokens: None,
        pruned_tokens: None,
        pruning_ratio_millis: None,
    }
}

/// The arguments of a tool call: the document that they spell, else the
/// text itself under the name `raw`.
pub open spec fn arguments_tree(arguments: Seq<char>) -> JsonTree {
    match json::json_document(arguments) {
        Ok(tree) => tree,
        Err(_) => JsonTree::Object(seq![("raw"@, JsonTree::Text(arguments))]),
    }
}

/// A gathered tool call as one of a trajectory step.
pub open spec fn finished_call(call: DeltaView) -> AtifToolCallView {
    AtifToolCallView {
        tool_call_id: call.id,
        function_name: match call.name {
            Some(name) => name,
            None => "unknown"@,
        },
        arguments: arguments_tree(call.arguments),
    }
}

/// The record of a response that has come to its end: refused by a budget,
/// failed upstream, finished with a reason, or just ended.
pub open spec fn response_record(
    capture: CaptureView,
    refusal: Option<Seq<char>>,
    marker: Option<Seq<char>>,
    attempt: Seq<char>,
) -> RecordView {
    let reasoning = provider::nonempty(capture.reasoning);
    let calls = capture.tool_calls.map_values(|c: DeltaView| finished_call(c));
    let failed = refusal is Some || !capture::is_success(capture.upstream_status);
    RecordView {
        class: if failed || capture.finish_reason is Some {
            EventClass::StopReason
        } else {
            EventClass::Session
        },
        status: if failed {
            StatusId::Failure
        } else {
            StatusId::Success
        },
        stop_reason: if refusal is Some {
            Some(StopReason::BudgetExceeded)
        } else if failed {
            Some(StopReason::Other)
        } else {
            match capture.finish_reason {
                Some(native) => Some(provider::stop_reason_of(native)),
                None => None,
            }
        },
        payload: if refusal is Some {
            PayloadView::ResponseRefused { reason: refusal->0 }
        } else if failed || capture.finish_reason is None {
            PayloadView::Response { http_status: capture.upstream_status }
        } else {
            PayloadView::ResponseFinished {
                finish_reason: capture.finish_reason->0,
                http_status: capture.upstream_status,
            }
        },
        text: match reasoning {
            Some(s) => s,
            None => capture.message,
        },
        analyze_loop: true,
        native_stop_reason: capture.finish_reason,
        metrics: capture.metrics,
        cost_usd_micros: capture.cost_usd_micros,
        atif: Some(
            AtifView {
                source: Source::Agent,
                message: JsonTree::Text(capture.message),
                reasoning_content: reasoning,
                model_name: capture.model,
                tool_calls: if calls.len() == 0 {
                    None
                } else {
                    Some(calls)
                },
                observation: None,
                llm_call_count: Some(1),
            },
        ),
        response_marker: marker,
        response_attempt: Some((attempt, true)),
    }
}

/// The arguments of a tool call as a document.
fn arguments_of(arguments: &String) -> (document: Json)
    ensures
        document@ == arguments_tree(arguments@),
{
    match json::parse_json(arguments.as_str()) {
        Ok(document) => document,
        Err(_) => {
            let mut fields: Vec<(String, Json)> = Vec::new();
            let raw = Json::Text(arguments.clone());
            assert(raw@ == JsonTree::Text(arguments@));
            fields.push(("raw".to_owned(), raw));
            let document = Json::Object(fields);
            assert(document@->Object_0 =~= seq![("raw"@, JsonTree::Text(arguments@))]);
            document
        },
    }
}

/// Gathered tool calls as those of a trajectory step.
fn finish_calls(calls: &Vec<PartialToolCall>) -> (finished: Vec<AtifToolCall>)
    ensures
        atif_calls(finished@) == capture::call_views(calls@).map_values(|c: DeltaView| finished_call(c)),
{
    let mut finished: Vec<AtifToolCall> = Vec::new();
    let mut i: usize = 0;
    while i < calls.len()
        invariant
            i <= calls@.len(),
            finished@.len() == i,
            forall|k: int| 0 <= k < i ==> (#[trigger] finished@[k])@ == finished_call(calls@[k]@),
        decreases calls.len() - i,
    {
        let function_name: String = match &calls[i].name {
            Some(name) => name.clone(),
            None => "unknown".to_owned(),
        };
        finished.push(
            AtifToolCall {
                tool_call_id: text::copy_opt(&calls[i].id),
                function_name,
                arguments: arguments_of(&calls[i].arguments),
            },
        );
        i += 1;
    }
    assert(atif_calls(finished@) =~= capture::call_views(calls@).map_values(|c: DeltaView| finished_call(c)));
    finished
}

/// The record of a response that has come to its end. `refusal` is why a
/// budget refused it, where one did.
pub fn record_response(
    capture: &ResponseCapture,
    refusal: Option<String>,
    marker: Option<String>,
    attempt: String,
) -> (record: AuditRecord)
    ensures
        record@ == response_record(capture@, text::opt_text(refusal), text::opt_text(marker), attempt@),
{
    let reasoning: Option<String> = if capture.reasoning.as_str().is_empty() {
        None
    } else {
        Some(capture.reasoning.clone())
    };
    let text: String = match &reasoning {
        Some(s) => s.clone(),
        None => capture.message.clone(),
    };
    let http_status: u16 = capture.upstream_status;
    let success: bool = 200 <= http_status && http_status < 300;
    let (class, status, stop_reason, payload) = match refusal {
        Some(reason) => (
            EventClass::StopReason,
            StatusId::Failure,
            Some(StopReason::BudgetExceeded),
            Payload::ResponseRefused { reason },
        ),
        None => {
            if !success {
                (
                    EventClass::StopReason,
                    StatusId::Failure,
                    Some(StopReason::Other),
                    Payload::Response { http_status },
                )
            } else {
                match &capture.finish_reason {
                    Some(native) => (
                        EventClass::StopReason,
                        StatusId::Success,
                        Some(provider::map_finish_reason(native.as_str())),
                        Payload::ResponseFinished { finish_reason: native.clone(), http_status },
                    ),
                    None => (EventClass::Session, StatusId::Success, None, Payload::Response { http_status }),
                }
            }
        },
    };
    let calls: Vec<AtifToolCall> = finish_calls(&capture.tool_calls.calls);
    proof {
        assert(atif_calls(calls@).len() == calls@.len());
        assert(capture@.tool_calls == capture::call_views(capture.tool_calls.calls@));
    }
    let tool_calls: Option<Vec<AtifToolCall>> = if calls.len() == 0 {
        None
    } else {
        Some(calls)
    };
    AuditRecord {
        class,
        payload,
        text,
        analyze_loop: true,
        status,
        stop_reason,
        native_stop_reason: text::copy_opt(&capture.finish_reason),
        metrics: capture.metrics,
        cost_usd_micros: capture.cost_usd_micros,
        atif: Some(
            AtifCapture {
                source: Source::Agent,
                message: Json::Text(capture.message.clone()),
                reasoning_content: reasoning,
                model_name: text::copy_opt(&capture.model),
                tool_calls,
                observation: None,
                llm_call_count: Some(1),
            },
        ),
        response_marker: marker,
        response_attempt: Some(ResponseAttempt { id: attempt, terminal: true }),
    }
}

/// The record of a response tells how it ended: one that the budget refused
/// as such, whatever the provider said; one that the provider failed, by its
/// status, as a failure for another reason; and one that went well by the
/// reason that the provider gave, if it gave one.
pub proof fn law_responses_are_recorded_as_they_ended(
    capture: CaptureView,
    refusal: Option<Seq<char>>,
    marker: Option<Seq<char>>,
    attempt: Seq<char>,
)
    ensures
        ({
            let record = response_record(capture, refusal, marker, attempt);
            let success = 200 <= capture.upstream_status < 300;
            &&& record.status == StatusId::Success <==> refusal is None && success
            &&& record.status == StatusId::Failure <==> refusal is Some || !success
            &&& record.stop_reason == Some(StopReason::BudgetExceeded) <==> refusal is Some
            &&& refusal matches Some(reason) ==> record.payload == (PayloadView::ResponseRefused { reason })
            &&& refusal is None && !success ==> record.stop_reason == Some(StopReason::Other) && record.payload == (
            PayloadView::Response { http_status: capture.upstream_status })
            &&& refusal is None && success ==> match capture.finish_reason {
                Some(native) => record.stop_reason == Some(provider::stop_reason_of(native)) && record.payload == (
                PayloadView::ResponseFinished { finish_reason: native, http_status: capture.upstream_status })
                    && record.class == EventClass::StopReason,
                None => record.stop_reason is None && record.payload == (PayloadView::Response {
                    http_status: capture.upstream_status,
                }) && record.class == EventClass::Session,
            }
            &&& record.status == StatusId::Failure ==> record.class == EventClass::StopReason
        }),
{
    if let Some(native) = capture.finish_reason {
        provider::law_finish_reasons_are_told_apart(native);
    }
}

/// The record of a response carries what was captured of it, whole: its
/// tokens and its cost, its text, its model, its tool calls in order, and the
/// provider's own word for its end. It closes the attempt that was opened for
/// it, and it counts as one call of the model.
pub proof fn law_response_records_carry_the_capture(
    capture: CaptureView,
    refusal: Option<Seq<char>>,
    marker: Option<Seq<char>>,
    attempt: Seq<char>,
)
    ensures
        ({
            let record = response_record(capture, refusal, marker, attempt);
            &&& record.metrics == capture.metrics
            &&& record.cost_usd_micros == capture.cost_usd_micros
            &&& record.native_stop_reason == capture.finish_reason
            &&& record.response_attempt == Some((attempt, true))
            &&& record.response_marker == marker
            &&& record.analyze_loop
            &&& record.text == (if capture.reasoning.len() > 0 {
                capture.reasoning
            } else {
                capture.message
            })
            &&& record.atif matches Some(step)
            &&& step.source == Source::Agent
            &&& step.message == JsonTree::Text(capture.message)
            &&& step.model_name == capture.model
            &&& step.llm_call_count == Some(1u64)
            &&& step.observation is None
            &&& (if capture.reasoning.len() > 0 {
                step.reasoning_content == Some(capture.reasoning)
            } else {
                step.reasoning_content is None
            })
            &&& step.tool_calls is None <==> capture.tool_calls.len() == 0
            &&& step.tool_calls matches Some(calls) ==> {
                &&& calls.len() == capture.tool_calls.len()
                &&& forall|i: int|
                    0 <= i < calls.len() ==> {
                        let call = #[trigger] calls[i];
                        let piece = capture.tool_calls[i];
                        &&& call.tool_call_id == piece.id
                        &&& piece.name is Some ==> call.function_name == piece.name->0
                        &&& piece.name is None ==> call.function_name == "unknown"@
                        &&& match json::json_document(piece.arguments) {
                            Ok(document) => call.arguments == document,
                            Err(_) => json::member(call.arguments, "raw"@) == Some(JsonTree::Text(piece.arguments)),
                        }
                    }
            }
        }),
{
}

} // verus!
