//! Tool calls that are forwarded: each is executed once, and its outcome is
//! kept until it is audited.

use vstd::prelude::*;
use vstd::utf8::{decode_utf8, valid_utf8};
use crate::admission;
use crate::audit;
use crate::audit::{AtifCapture, AtifView, AuditRecord, EventClass, Payload, PayloadView, RecordView, Source, StatusId};
use crate::errors;
use crate::errors::{ErrorView, PipelineError};
use crate::headers;
use crate::headers::Headers;
use crate::json;
use crate::json::{Json, JsonTree};
use crate::provider::{EventMetrics, StopReason};
use crate::rpc;
use crate::rpc::RpcId;
use crate::seed;
use crate::text;
use crate::text_set::TextSet;

verus! {

/// The refusal of a request that reuses the id of another.
pub const TOOL_REQUEST_MISMATCH: &'static str =
    "JSON-RPC id is already bound to a different tool request or principal";

/// The refusal of a request whose execution has begun and not ended. A lost
/// race for an execution is answered with the same words.
pub const TOOL_OUTCOME_UNCERTAIN: &'static str =
    "tool execution outcome is uncertain; refusing duplicate execution";

/// What a tool execution stands for.
#[derive(Debug)]
pub struct ToolIntent {
    pub execution_key: String,
    pub session_id: String,
    pub tool: String,
    pub request_digest: String,
    pub principal_digest: String,
}

/// A [`ToolIntent`] by its texts.
#[verifier::ext_equal]
pub struct IntentView {
    pub execution_key: Seq<char>,
    pub session_id: Seq<char>,
    pub tool: Seq<char>,
    pub request_digest: Seq<char>,
    pub principal_digest: Seq<char>,
}

impl View for ToolIntent {
    type V = IntentView;

    open spec fn view(&self) -> IntentView {
        IntentView {
            execution_key: self.execution_key@,
            session_id: self.session_id@,
            tool: self.tool@,
            request_digest: self.request_digest@,
            principal_digest: self.principal_digest@,
        }
    }
}

impl ToolIntent {
    /// Whether two intents are the same.
    pub fn same(&self, other: &ToolIntent) -> (same: bool)
        ensures
            same == (self@ == other@),
    {
        text::same_text(self.execution_key.as_str(), other.execution_key.as_str()) && text::same_text(
            self.session_id.as_str(),
            other.session_id.as_str(),
        ) && text::same_text(self.tool.as_str(), other.tool.as_str()) && text::same_text(
            self.request_digest.as_str(),
            other.request_digest.as_str(),
        ) && text::same_text(self.principal_digest.as_str(), other.principal_digest.as_str())
    }
}

/// The answer of a tool server, as it is stored.
#[derive(Debug)]
pub struct ToolOutcome {
    pub status: u16,
    pub body_hex: String,
}

/// A [`ToolOutcome`] by its contents.
#[verifier::ext_equal]
pub struct OutcomeView {
    pub status: u16,
    pub body_hex: Seq<char>,
}

impl View for ToolOutcome {
    type V = OutcomeView;

    open spec fn view(&self) -> OutcomeView {
        OutcomeView { status: self.status, body_hex: self.body_hex@ }
    }
}

/// The status that a stored number stands for: one that is no HTTP status
/// counts as that of a bad gateway.
pub open spec fn answered_status(status: u16) -> u16 {
    if 100 <= status <= 999 {
        status
    } else {
        502
    }
}

/// A stored answer: its status and its bytes, or why it cannot be read.
pub open spec fn answer(outcome: OutcomeView, context: Seq<char>) -> Result<(u16, Seq<u8>), Seq<char>> {
    match seed::hex_bytes(outcome.body_hex) {
        Some(bytes) => Ok((answered_status(outcome.status), bytes)),
        None => Err(context + seed::hex_fault(outcome.body_hex)),
    }
}

/// An answer by its contents.
pub open spec fn answer_view(read: Result<(u16, Vec<u8>), String>) -> Result<(u16, Seq<u8>), Seq<char>> {
    match read {
        Ok((status, bytes)) => Ok((status, bytes@)),
        Err(words) => Err(words@),
    }
}

impl ToolOutcome {
    /// The answer of a tool server, as it is to be stored.
    pub fn record(status: u16, body: &[u8]) -> (outcome: ToolOutcome)
        ensures
            outcome@ == (OutcomeView { status, body_hex: seed::hex_text(body@) }),
    {
        ToolOutcome { status, body_hex: seed::encode_hex(body) }
    }

    /// Reads a stored answer; `context` introduces the words of a failure.
    pub fn read(&self, context: &str) -> (read: Result<(u16, Vec<u8>), String>)
        ensures
            answer_view(read) == answer(self@, context@),
    {
        let status: u16 = if 100 <= self.status && self.status <= 999 {
            self.status
        } else {
            502
        };
        match seed::decode_hex(self.body_hex.as_str()) {
            Ok(bytes) => Ok((status, bytes)),
            Err(words) => Err(text::concat2(context, words.as_str())),
        }
    }

    /// The response that a stored answer makes, or the words of a failure.
    pub fn into_response(self) -> (response: Result<(u16, Vec<u8>), String>)
        ensures
            answer_view(response) == answer(self@, "decode cached tool response: "@),
    {
        self.read("decode cached tool response: ")
    }
}

/// What was stored of a tool server's answer is read back as it came.
pub proof fn law_stored_answers_are_read_back(status: u16, body: Seq<u8>, context: Seq<char>)
    requires
        100 <= status <= 999,
    ensures
        answer(OutcomeView { status, body_hex: seed::hex_text(body) }, context) == Ok::<(u16, Seq<u8>), Seq<char>>(
            (status, body),
        ),
{
    seed::law_hex_round_trips(body);
}

/// What `String::from_utf8_lossy` makes of bytes.
pub uninterp spec fn lossy_text(bytes: Seq<u8>) -> Seq<char>;

/// `String::from_utf8_lossy`: the text that the bytes encode, where they are
/// valid UTF-8. What stands for invalid bytes is not stated further.
#[verifier::external_body]
pub(crate) fn text_of_any_bytes(bytes: &[u8]) -> (s: String)
    ensures
        s@ == lossy_text(bytes@),
        valid_utf8(bytes@) ==> s@ == decode_utf8(bytes@),
{
    String::from_utf8_lossy(bytes).into_owned()
}

/// The record of a completed tool execution.
pub open spec fn completion(key: Seq<char>, status: u16, body: Seq<u8>, digest: Seq<char>) -> RecordView {
    let success = 200 <= status < 300;
    RecordView {
        class: EventClass::Session,
        payload: PayloadView::ToolCompleted { execution_key: key, status, response_sha256: digest },
        text: Seq::empty(),
        analyze_loop: false,
        status: if success {
            StatusId::Success
        } else {
            StatusId::Failure
        },
        stop_reason: if success {
            None
        } else {
            Some(StopReason::Other)
        },
        native_stop_reason: None,
        metrics: audit::no_metrics(),
        cost_usd_micros: 0,
        atif: Some(
            AtifView {
                source: Source::System,
                message: JsonTree::Text(lossy_text(body)),
                reasoning_content: None,
                model_name: None,
                tool_calls: None,
                observation: None,
                llm_call_count: None,
            },
        ),
        response_marker: None,
        response_attempt: None,
    }
}

/// The record of a completed tool execution. `digest` is the digest of the
/// answer.
pub fn completion_record(key: &str, status: u16, body: &[u8], digest: String) -> (record: AuditRecord)
    ensures
        record@ == completion(key@, status, body@, digest@),
{
    let success: bool = 200 <= status && status < 300;
    AuditRecord {
        class: EventClass::Session,
        payload: Payload::ToolCompleted { execution_key: key.to_owned(), status, response_sha256: digest },
        text: String::new(),
        analyze_loop: false,
        status: if success {
            StatusId::Success
        } else {
            StatusId::Failure
        },
        stop_reason: if success {
            None
        } else {
            Some(StopReason::Other)
        },
        native_stop_reason: None,
        metrics: EventMetrics {
            prompt_tokens: None,
            completion_tokens: None,
            cached_tokens: None,
            pruned_tokens: None,
            pruning_ratio_millis: None,
        },
        cost_usd_micros: 0,
        atif: Some(
            AtifCapture {
                source: Source::System,
                message: Json::Text(text_of_any_bytes(body)),
                reasoning_content: None,
                model_name: None,
                tool_calls: None,
                observation: None,
                llm_call_count: None,
            },
        ),
        response_marker: None,
        response_attempt: None,
    }
}

/// A tool call that was parsed: its tool, and its id, where it has one.
#[derive(Debug)]
pub struct ToolCallHead {
    pub tool: String,
    pub id: Option<RpcId>,
}

/// A [`ToolCallHead`] by its contents.
#[verifier::ext_equal]
pub struct HeadView {
    pub tool: Seq<char>,
    pub id: Option<JsonTree>,
}

impl View for ToolCallHead {
    type V = HeadView;

    open spec fn view(&self) -> HeadView {
        HeadView { tool: self.tool@, id: rpc::opt_id(self.id) }
    }
}

/// A tool call that can be forwarded: its session, its tool, and what its
/// key is the digest of.
#[derive(Debug)]
pub struct ToolRequest {
    pub session_id: String,
    pub tool: String,
    pub key_material: String,
}

/// A [`ToolRequest`] by its texts.
#[verifier::ext_equal]
pub struct RequestView {
    pub session_id: Seq<char>,
    pub tool: Seq<char>,
    pub key_material: Seq<char>,
}

impl View for ToolRequest {
    type V = RequestView;

    open spec fn view(&self) -> RequestView {
        RequestView { session_id: self.session_id@, tool: self.tool@, key_material: self.key_material@ }
    }
}

/// Whether a request names a session at all.
pub open spec fn names_session(fields: Seq<(Seq<char>, Seq<u8>)>) -> bool {
    match headers::first_value(fields, headers::SESSION_HEADER@) {
        Some(bytes) => headers::value_text(bytes) is Some,
        None => false,
    }
}

/// What the key of an execution is the digest of: the session, and the id of
/// the call as JSON.
pub open spec fn execution_material(session_id: Seq<char>, written: Seq<char>) -> Seq<char> {
    session_id + ":"@ + written
}

/// What the key of an execution is the digest of. `written` is the id of the
/// call as JSON.
pub fn key_material(session_id: &str, written: &str) -> (material: String)
    ensures
        material@ == execution_material(session_id@, written@),
{
    text::concat3(session_id, ":", written)
}

/// The tool call that a request forwards, or why it cannot be. Without an id
/// there is nothing that tells a repetition from a new call.
pub open spec fn forwarded_call(
    fields: Seq<(Seq<char>, Seq<u8>)>,
    checked: Result<Seq<char>, Seq<char>>,
    call: Result<HeadView, Seq<char>>,
) -> Result<RequestView, ErrorView> {
    if !names_session(fields) {
        Err(errors::bad_request("missing x-ab-session"@))
    } else {
        match (checked, call) {
            (Err(words), _) => Err(errors::bad_request(words)),
            (Ok(_), Err(words)) => Err(errors::bad_request(words)),
            (Ok(session_id), Ok(head)) => match head.id {
                None => Err(
                    errors::bad_request("forwarded tool calls require a JSON-RPC id for idempotency"@),
                ),
                Some(id) => Ok(
                    RequestView {
                        session_id,
                        tool: head.tool,
                        key_material: execution_material(session_id, json::json_text(id)),
                    },
                ),
            },
        }
    }
}

/// A parsed tool call by its contents.
pub open spec fn call_view(call: Result<ToolCallHead, String>) -> Result<HeadView, Seq<char>> {
    match call {
        Ok(head) => Ok(head@),
        Err(words) => Err(words@),
    }
}

/// The tool call that a request forwards. `checked` is the outcome of
/// checking the session id that it names, and `call` that of parsing it.
pub fn tool_request(headers: &Headers, checked: Result<String, String>, call: Result<ToolCallHead, String>) -> (request: Result<
    ToolRequest,
    PipelineError,
>)
    ensures
        match request {
            Ok(r) => forwarded_call(headers@, admission::checked_view(checked), call_view(call)) == Ok::<RequestView, ErrorView>(
                r@,
            ),
            Err(e) => forwarded_call(headers@, admission::checked_view(checked), call_view(call)) == Err::<
                RequestView,
                ErrorView,
            >(e@),
        },
{
    let named: bool = match headers.first(headers::SESSION_HEADER) {
        Some(bytes) => headers::header_text(bytes).is_some(),
        None => false,
    };
    if !named {
        return Err(PipelineError::BadRequest("missing x-ab-session".to_owned()));
    }
    let session_id: String = match checked {
        Ok(id) => id,
        Err(words) => {
            return Err(PipelineError::BadRequest(words));
        },
    };
    let head: ToolCallHead = match call {
        Ok(head) => head,
        Err(words) => {
            return Err(PipelineError::BadRequest(words));
        },
    };
    match head.id {
        None => Err(
            PipelineError::BadRequest(
                "forwarded tool calls require a JSON-RPC id for idempotency".to_owned(),
            ),
        ),
        Some(id) => {
            let key_material: String = key_material(session_id.as_str(), id.written().as_str());
            Ok(ToolRequest { session_id, tool: head.tool, key_material })
        },
    }
}

/// The request of a tool call as a document, whose canonical form its digest
/// is taken of; or that it is none. `parsed` is the outcome of parsing it.
pub fn checked_document(parsed: Result<Json, String>) -> (document: Result<Json, PipelineError>)
    ensures
        match (json::parsed_view(parsed), document) {
            (Ok(tree), Ok(d)) => d@ == tree,
            (Err(words), Err(e)) => e@ == errors::bad_request(words),
            _ => false,
        },
{
    match parsed {
        Ok(document) => Ok(document),
        Err(words) => Err(PipelineError::BadRequest(words)),
    }
}

/// The request of a tool call as a document, or that it is none.
pub fn request_document(body: &[u8]) -> (document: Result<Json, PipelineError>)
    ensures
        match (json::json_document_of_bytes(body@), document) {
            (Ok(tree), Ok(d)) => d@ == tree,
            (Err(words), Err(e)) => e@ == errors::bad_request(words),
            _ => false,
        },
{
    checked_document(json::parse_json_bytes(body))
}

/// The execution of one tool call.
#[derive(Debug)]
pub struct ToolExecution {
    /// The digest of what tells the call from others.
    pub key: String,
    pub session_id: String,
    pub tool: String,
    /// The digest of the request in canonical form.
    pub request_digest: String,
    /// The digest of the agent, once it is known.
    pub principal_digest: String,
}

impl View for ToolExecution {
    type V = IntentView;

    open spec fn view(&self) -> IntentView {
        IntentView {
            execution_key: self.key@,
            session_id: self.session_id@,
            tool: self.tool@,
            request_digest: self.request_digest@,
            principal_digest: self.principal_digest@,
        }
    }
}

impl ToolExecution {
    /// The execution of a tool call, by its key and the digest of the
    /// request; or that the request has no canonical form.
    pub fn from_request(request: ToolRequest, key: String, request_digest: Result<String, String>) -> (execution: Result<
        ToolExecution,
        PipelineError,
    >)
        ensures
            match (request_digest, execution) {
                (Ok(digest), Ok(e)) => e@ == (IntentView {
                    execution_key: key@,
                    session_id: request@.session_id,
                    tool: request@.tool,
                    request_digest: digest@,
                    principal_digest: Seq::empty(),
                }),
                (Err(words), Err(e)) => e@ == errors::bad_request(words@),
                _ => false,
            },
    {
        match request_digest {
            Err(words) => Err(PipelineError::BadRequest(words)),
            Ok(request_digest) => Ok(
                ToolExecution {
                    key,
                    session_id: request.session_id,
                    tool: request.tool,
                    request_digest,
                    principal_digest: String::new(),
                },
            ),
        }
    }

    /// Binds the execution to an agent, by the digest of its identity; or
    /// tells that the identity has no canonical form.
    pub fn bind_principal(&mut self, digest: Result<String, String>) -> (bound: Result<(), PipelineError>)
        ensures
            match (digest, bound) {
                (Ok(d), Ok(())) => final(self)@ == (IntentView { principal_digest: d@, ..old(self)@ }),
                (Err(words), Err(e)) => e@ == errors::bad_request(words@) && final(self)@ == old(self)@,
                _ => false,
            },
    {
        match digest {
            Ok(digest) => {
                self.principal_digest = digest;
                Ok(())
            },
            Err(words) => Err(PipelineError::BadRequest(words)),
        }
    }

    /// What this execution stands for.
    pub fn intent(&self) -> (intent: ToolIntent)
        ensures
            intent@ == self@,
    {
        ToolIntent {
            execution_key: self.key.clone(),
            session_id: self.session_id.clone(),
            tool: self.tool.clone(),
            request_digest: self.request_digest.clone(),
            principal_digest: self.principal_digest.clone(),
        }
    }
}

/// The file that says what an execution stands for.
#[derive(Debug)]
pub enum IntentOnDisk {
    Absent,
    /// It could not be read, or is not authentic.
    Unreadable(String),
    Opened(ToolIntent),
}

/// The file that holds the answer.
#[derive(Debug)]
pub enum OutcomeOnDisk {
    Absent,
    /// It could not be read, or is not authentic.
    Unreadable(String),
    Opened(ToolOutcome),
}

/// The file that says that the answer is audited.
#[derive(Debug)]
pub enum AuditOnDisk {
    Absent,
    /// It could not be read.
    Unreadable(String),
    /// It is not authentic.
    Invalid(String),
    Valid,
}

/// How far an execution has come.
#[derive(Debug)]
pub enum ToolExecutionState {
    Missing,
    Pending,
    Unaudited(ToolOutcome),
    Completed(ToolOutcome),
}

/// A [`ToolExecutionState`] by its contents.
#[verifier::ext_equal]
pub enum ExecutionView {
    Missing,
    Pending,
    Unaudited(OutcomeView),
    Completed(OutcomeView),
}

impl View for ToolExecutionState {
    type V = ExecutionView;

    open spec fn view(&self) -> ExecutionView {
        match self {
            ToolExecutionState::Missing => ExecutionView::Missing,
            ToolExecutionState::Pending => ExecutionView::Pending,
            ToolExecutionState::Unaudited(outcome) => ExecutionView::Unaudited(outcome@),
            ToolExecutionState::Completed(outcome) => ExecutionView::Completed(outcome@),
        }
    }
}

/// How far an execution has come, by its files.
pub open spec fn execution_state(
    wanted: IntentView,
    intent: IntentOnDisk,
    outcome: OutcomeOnDisk,
    audit: AuditOnDisk,
) -> Result<ExecutionView, Seq<char>> {
    match intent {
        IntentOnDisk::Absent => if outcome is Absent && audit is Absent {
            Ok(ExecutionView::Missing)
        } else {
            Err("tool outcome exists without an authenticated intent"@)
        },
        IntentOnDisk::Unreadable(words) => Err(words@),
        IntentOnDisk::Opened(found) => if found@ != wanted {
            Err(TOOL_REQUEST_MISMATCH@)
        } else {
            match outcome {
                OutcomeOnDisk::Absent => Ok(ExecutionView::Pending),
                OutcomeOnDisk::Unreadable(words) => Err(words@),
                OutcomeOnDisk::Opened(answer) => match audit {
                    AuditOnDisk::Valid => Ok(ExecutionView::Completed(answer@)),
                    AuditOnDisk::Unreadable(words) => Err(words@),
                    _ => Ok(ExecutionView::Unaudited(answer@)),
                },
            }
        },
    }
}

impl ToolExecution {
    /// How far this execution has come, by its files.
    pub fn load(&self, intent: IntentOnDisk, outcome: OutcomeOnDisk, audit: AuditOnDisk) -> (state: Result<
        ToolExecutionState,
        String,
    >)
        ensures
            match state {
                Ok(s) => execution_state(self@, intent, outcome, audit) == Ok::<ExecutionView, Seq<char>>(s@),
                Err(words) => execution_state(self@, intent, outcome, audit) == Err::<ExecutionView, Seq<char>>(
                    words@,
                ),
            },
    {
        match intent {
            IntentOnDisk::Absent => {
                let nothing: bool = match (&outcome, &audit) {
                    (OutcomeOnDisk::Absent, AuditOnDisk::Absent) => true,
                    _ => false,
                };
                if nothing {
                    Ok(ToolExecutionState::Missing)
                } else {
                    Err("tool outcome exists without an authenticated intent".to_owned())
                }
            },
            IntentOnDisk::Unreadable(words) => Err(words),
            IntentOnDisk::Opened(found) => {
                if !found.same(&self.intent()) {
                    return Err(TOOL_REQUEST_MISMATCH.to_owned());
                }
                match outcome {
                    OutcomeOnDisk::Absent => Ok(ToolExecutionState::Pending),
                    OutcomeOnDisk::Unreadable(words) => Err(words),
                    OutcomeOnDisk::Opened(answer) => match audit {
                        AuditOnDisk::Valid => Ok(ToolExecutionState::Completed(answer)),
                        AuditOnDisk::Unreadable(words) => Err(words),
                        _ => Ok(ToolExecutionState::Unaudited(answer)),
                    },
                }
            },
        }
    }
}

/// An id that was used for one call is never used for another: whatever the
/// files hold, an execution that exists counts only for the request, the
/// session, the tool and the agent that it was begun for.
pub proof fn law_executions_are_not_shared(
    wanted: IntentView,
    found: ToolIntent,
    outcome: OutcomeOnDisk,
    audit: AuditOnDisk,
)
    requires
        found@ != wanted,
    ensures
        execution_state(wanted, IntentOnDisk::Opened(found), outcome, audit) == Err::<ExecutionView, Seq<char>>(
            TOOL_REQUEST_MISMATCH@,
        ),
{
}

/// An execution that was begun never counts as one that was not: it is not
/// begun again.
pub proof fn law_begun_executions_are_not_missing(
    wanted: IntentView,
    intent: IntentOnDisk,
    outcome: OutcomeOnDisk,
    audit: AuditOnDisk,
)
    requires
        !(intent is Absent) || !(outcome is Absent) || !(audit is Absent),
    ensures
        execution_state(wanted, intent, outcome, audit) != Ok::<ExecutionView, Seq<char>>(ExecutionView::Missing),
{
}

/// The files of one execution.
#[derive(Debug)]
pub struct ExecutionFiles {
    /// The key that the name of the intent gives.
    pub key: String,
    pub intent: Result<ToolIntent, String>,
    /// Whether an answer is stored, or why it cannot be read.
    pub outcome: Result<bool, String>,
    /// Whether the answer is audited, or why that cannot be read.
    pub audited: Result<bool, String>,
}

/// An [`ExecutionFiles`] by its contents.
#[verifier::ext_equal]
pub struct FilesView {
    pub key: Seq<char>,
    pub intent: Result<IntentView, Seq<char>>,
    pub outcome: Result<bool, Seq<char>>,
    pub audited: Result<bool, Seq<char>>,
}

/// Whether a file is there, by the contents of the answer.
pub open spec fn there_view(there: Result<bool, String>) -> Result<bool, Seq<char>> {
    match there {
        Ok(b) => Ok(b),
        Err(words) => Err(words@),
    }
}

impl View for ExecutionFiles {
    type V = FilesView;

    open spec fn view(&self) -> FilesView {
        FilesView {
            key: self.key@,
            intent: match self.intent {
                Ok(intent) => Ok(intent@),
                Err(words) => Err(words@),
            },
            outcome: there_view(self.outcome),
            audited: there_view(self.audited),
        }
    }
}

/// Whether an execution is unresolved, or why that cannot be told. One that
/// is resolved has an answer that is audited.
pub open spec fn is_unresolved(f: FilesView) -> Result<bool, Seq<char>> {
    match f.intent {
        Err(words) => Err(words),
        Ok(intent) => if intent.execution_key != f.key {
            Err("tool intent path does not match authenticated execution key"@)
        } else {
            match f.outcome {
                Err(words) => Err(words),
                Ok(false) => Ok(true),
                Ok(true) => match f.audited {
                    Err(words) => Err(words),
                    Ok(audited) => Ok(!audited),
                },
            }
        },
    }
}

/// The sessions with unresolved executions among the first ones of a list,
/// or the first reason why that cannot be told.
pub open spec fn unresolved(files: Seq<FilesView>) -> Result<Set<Seq<char>>, Seq<char>>
    decreases files.len(),
{
    if files.len() == 0 {
        Ok(Set::empty())
    } else {
        match unresolved(files.drop_last()) {
            Err(words) => Err(words),
            Ok(sessions) => match is_unresolved(files.last()) {
                Err(words) => Err(words),
                Ok(true) => Ok(sessions.insert(files.last().intent->Ok_0.session_id)),
                Ok(false) => Ok(sessions),
            },
        }
    }
}

/// The files of a list of executions by their contents.
pub open spec fn files_view(files: Seq<ExecutionFiles>) -> Seq<FilesView> {
    files.map_values(|f: ExecutionFiles| f@)
}

/// The keys of a list of executions.
pub open spec fn keys_of(files: Seq<FilesView>) -> Seq<Seq<char>> {
    files.map_values(|f: FilesView| f.key)
}

/// The sessions with unresolved executions. An answer that belongs to no
/// execution makes them unknowable.
pub open spec fn unresolved_in(files: Seq<FilesView>, answers: Seq<Seq<char>>) -> Result<Set<Seq<char>>, Seq<char>> {
    match unresolved(files) {
        Err(words) => Err(words),
        Ok(sessions) => if forall|i: int| 0 <= i < answers.len() ==> keys_of(files).contains(#[trigger] answers[i]) {
            Ok(sessions)
        } else {
            Err("tool outcome exists without an authenticated intent"@)
        },
    }
}

/// Whether an execution is unresolved.
fn check_unresolved(f: &ExecutionFiles) -> (checked: Result<bool, String>)
    ensures
        there_view(checked) == is_unresolved(f@),
{
    match &f.intent {
        Err(words) => Err(words.clone()),
        Ok(intent) => {
            if !text::same_text(intent.execution_key.as_str(), f.key.as_str()) {
                return Err("tool intent path does not match authenticated execution key".to_owned());
            }
            match &f.outcome {
                Err(words) => Err(words.clone()),
                Ok(answered) => {
                    if !*answered {
                        return Ok(true);
                    }
                    match &f.audited {
                        Err(words) => Err(words.clone()),
                        Ok(audited) => Ok(!*audited),
                    }
                },
            }
        },
    }
}

/// Once the front of a list fails, the whole list fails with it.
proof fn lemma_early_unresolved(files: Seq<FilesView>, k: int)
    requires
        0 <= k <= files.len(),
        unresolved(files.take(k)) is Err,
    ensures
        unresolved(files) == unresolved(files.take(k)),
    decreases files.len(),
{
    if k < files.len() {
        assert(files.drop_last().take(k) =~= files.take(k));
        lemma_early_unresolved(files.drop_last(), k);
    } else {
        assert(files.take(k) =~= files);
    }
}

/// Whether a key is that of one of the executions.
fn holds_key(files: &Vec<ExecutionFiles>, key: &str) -> (found: bool)
    ensures
        found == keys_of(files_view(files@)).contains(key@),
{
    let ghost keys = keys_of(files_view(files@));
    let mut i: usize = 0;
    while i < files.len()
        invariant
            i <= files@.len(),
            keys == keys_of(files_view(files@)),
            forall|k: int| 0 <= k < i ==> keys[k] != key@,
        decreases files.len() - i,
    {
        assert(keys[i as int] == files@[i as int].key@);
        if text::same_text(files[i].key.as_str(), key) {
            return true;
        }
        i += 1;
    }
    false
}

/// The sessions with unresolved executions: a tool was called, and what came
/// of it is not on record. `answers` are the keys of the stored answers.
pub fn unresolved_tool_sessions(files: &Vec<ExecutionFiles>, answers: &Vec<String>) -> (sessions: Result<TextSet, String>)
    ensures
        match sessions {
            Ok(set) => unresolved_in(files_view(files@), text::texts(answers@)) == Ok::<Set<Seq<char>>, Seq<char>>(
                set@,
            ),
            Err(words) => unresolved_in(files_view(files@), text::texts(answers@)) == Err::<
                Set<Seq<char>>,
                Seq<char>,
            >(words@),
        },
{
    let ghost all = files_view(files@);
    let mut sessions = TextSet::new();
    let mut i: usize = 0;
    assert(all.take(0) =~= Seq::empty());
    while i < files.len()
        invariant
            i <= files@.len(),
            all == files_view(files@),
            unresolved(all.take(i as int)) == Ok::<Set<Seq<char>>, Seq<char>>(sessions@),
        decreases files.len() - i,
    {
        proof {
            assert(all.take(i + 1).drop_last() =~= all.take(i as int));
            assert(all.take(i + 1).last() == files@[i as int]@);
        }
        match check_unresolved(&files[i]) {
            Err(words) => {
                proof {
                    lemma_early_unresolved(all, i + 1);
                }
                return Err(words);
            },
            Ok(open) => {
                if open {
                    if let Ok(intent) = &files[i].intent {
                        sessions.insert(intent.session_id.clone());
                    }
                }
            },
        }
        i += 1;
    }
    assert(all.take(i as int) =~= all);
    let ghost named = text::texts(answers@);
    let mut k: usize = 0;
    while k < answers.len()
        invariant
            k <= answers@.len(),
            all == files_view(files@),
            named == text::texts(answers@),
            unresolved(all) == Ok::<Set<Seq<char>>, Seq<char>>(sessions@),
            forall|j: int| 0 <= j < k ==> keys_of(all).contains(#[trigger] named[j]),
        decreases answers.len() - k,
    {
        assert(named[k as int] == answers@[k as int]@);
        if !holds_key(files, answers[k].as_str()) {
            return Err("tool outcome exists without an authenticated intent".to_owned());
        }
        k += 1;
    }
    Ok(sessions)
}

/// Whether every execution is resolved, by the sessions with unresolved ones.
/// One that has one is named where it is not.
pub fn ensure_no_unresolved_tool_executions(sessions: &TextSet) -> (checked: Result<(), String>)
    ensures
        match checked {
            Ok(()) => sessions@ == Set::<Seq<char>>::empty(),
            Err(words) => exists|id: Seq<char>|
                #[trigger] sessions@.contains(id) && words@ == "session "@ + id
                    + " has an unresolved tool execution"@,
        },
{
    match sessions.any() {
        Some(id) => Err(text::concat3("session ", id.as_str(), " has an unresolved tool execution")),
        None => Ok(()),
    }
}

/// How far an execution has come is told by which of its files are there: it
/// has not begun where there is none, it is pending where there is no answer,
/// and its answer counts as audited only where the file that says so is
/// valid. The answer is the stored one.
pub proof fn law_executions_are_told_by_their_files(
    wanted: IntentView,
    intent: IntentOnDisk,
    outcome: OutcomeOnDisk,
    audit: AuditOnDisk,
)
    ensures
        ({
            let state = execution_state(wanted, intent, outcome, audit);
            &&& state == Ok::<ExecutionView, Seq<char>>(ExecutionView::Missing) <==> intent is Absent && outcome is Absent
                && audit is Absent
            &&& state == Ok::<ExecutionView, Seq<char>>(ExecutionView::Pending) <==> (intent matches IntentOnDisk::Opened(
                found,
            ) && found@ == wanted) && outcome is Absent
            &&& (state matches Ok(ExecutionView::Completed(answer)) ==> audit is Valid && (outcome
                matches OutcomeOnDisk::Opened(stored) && stored@ == answer) && (intent matches IntentOnDisk::Opened(found)
                && found@ == wanted))
            &&& (state matches Ok(ExecutionView::Unaudited(answer)) ==> !(audit is Valid) && (outcome
                matches OutcomeOnDisk::Opened(stored) && stored@ == answer) && (intent matches IntentOnDisk::Opened(found)
                && found@ == wanted))
            &&& (intent matches IntentOnDisk::Opened(found) && found@ == wanted) && outcome is Opened && audit is Valid
                ==> (state matches Ok(ExecutionView::Completed(_)))
            &&& (intent matches IntentOnDisk::Opened(found) && found@ == wanted) && outcome is Opened && (audit is Absent
                || audit is Invalid) ==> (state matches Ok(ExecutionView::Unaudited(_)))
        }),
{
}

/// A stored status that is no HTTP status is answered as a bad gateway; any
/// other as it is. What cannot be read back is told.
pub proof fn law_stored_statuses_are_answered(outcome: OutcomeView, context: Seq<char>)
    ensures
        answer(outcome, context) matches Ok((status, bytes)) ==> {
            &&& 100 <= status <= 999
            &&& 100 <= outcome.status <= 999 ==> status == outcome.status
            &&& !(100 <= outcome.status <= 999) ==> status == 502
            &&& seed::hex_bytes(outcome.body_hex) == Some(bytes)
        },
        answer(outcome, context) matches Err(words) ==> text::has_prefix(words, context) && seed::hex_bytes(
            outcome.body_hex,
        ) is None,
{
    if let Err(words) = answer(outcome, context) {
        assert(words.take(context.len() as int) =~= context);
    }
}

/// The record of a completed call names the execution, the status and the
/// digest of the answer; it is a success exactly where the status is one.
pub proof fn law_completions_are_recorded_by_status(key: Seq<char>, status: u16, body: Seq<u8>, digest: Seq<char>)
    ensures
        ({
            let record = completion(key, status, body, digest);
            &&& record.status == StatusId::Success <==> 200 <= status < 300
            &&& record.status == StatusId::Failure <==> !(200 <= status < 300)
            &&& record.stop_reason is None <==> 200 <= status < 300
            &&& record.stop_reason is Some ==> record.stop_reason == Some(StopReason::Other)
            &&& record.payload == (PayloadView::ToolCompleted { execution_key: key, status, response_sha256: digest })
            &&& record.cost_usd_micros == 0 && !record.analyze_loop
            &&& record.response_attempt is None
            &&& record.atif matches Some(step)
            &&& step.source == Source::System && step.message == JsonTree::Text(lossy_text(body))
            &&& step.tool_calls is None && step.model_name is None && step.llm_call_count is None
        }),
{
}

/// A call is forwarded only for a session that the request names and that
/// checks out, and only with an id; its key is made of that session and that
/// id, so that two sessions never share an execution by the same id.
pub proof fn law_forwarded_calls_are_keyed_by_session_and_id(
    fields: Seq<(Seq<char>, Seq<u8>)>,
    checked: Result<Seq<char>, Seq<char>>,
    call: Result<HeadView, Seq<char>>,
)
    ensures
        forwarded_call(fields, checked, call) is Ok <==> names_session(fields) && checked is Ok && (call matches Ok(head)
            && head.id is Some),
        forwarded_call(fields, checked, call) matches Ok(request) ==> {
            &&& checked == Ok::<Seq<char>, Seq<char>>(request.session_id)
            &&& call matches Ok(head)
            &&& request.tool == head.tool
            &&& request.key_material == request.session_id + ":"@ + json::json_text(head.id->0)
        },
        forwarded_call(fields, checked, call) matches Err(e) ==> e.kind == errors::ErrorKind::BadRequest,
{
}

/// An execution is resolved exactly where its answer is stored and audited.
/// What cannot be read, or stands under the name of another, is told.
pub proof fn law_resolved_executions_are_audited(f: FilesView)
    ensures
        is_unresolved(f) == Ok::<bool, Seq<char>>(false) ==> f.outcome == Ok::<bool, Seq<char>>(true) && f.audited
            == Ok::<bool, Seq<char>>(true) && (f.intent matches Ok(intent) && intent.execution_key == f.key),
        is_unresolved(f) == Ok::<bool, Seq<char>>(true) ==> (f.outcome == Ok::<bool, Seq<char>>(false) || f.audited
            == Ok::<bool, Seq<char>>(false)) && (f.intent matches Ok(intent) && intent.execution_key == f.key),
        (f.intent matches Ok(intent) && intent.execution_key == f.key) && f.outcome == Ok::<bool, Seq<char>>(true)
            && f.audited == Ok::<bool, Seq<char>>(true) ==> is_unresolved(f) == Ok::<bool, Seq<char>>(false),
        (f.intent matches Ok(intent) && intent.execution_key != f.key) ==> is_unresolved(f) is Err,
{
}

/// The sessions with unresolved executions are those of which one of the
/// executions is unresolved, and no others.
pub proof fn law_unresolved_sessions_are_found(files: Seq<FilesView>)
    requires
        unresolved(files) is Ok,
    ensures
        forall|i: int| 0 <= i < files.len() ==> is_unresolved(#[trigger] files[i]) is Ok,
        forall|i: int|
            0 <= i < files.len() && is_unresolved(#[trigger] files[i]) == Ok::<bool, Seq<char>>(true) ==> unresolved(
                files,
            )->Ok_0.contains(files[i].intent->Ok_0.session_id),
        forall|session: Seq<char>| #[trigger]
            unresolved(files)->Ok_0.contains(session) ==> exists|i: int|
                0 <= i < files.len() && is_unresolved(#[trigger] files[i]) == Ok::<bool, Seq<char>>(true)
                    && files[i].intent->Ok_0.session_id == session,
    decreases files.len(),
{
    if files.len() > 0 {
        let earlier = files.drop_last();
        law_unresolved_sessions_are_found(earlier);
        assert(files[files.len() - 1] == files.last());
        assert(forall|i: int| 0 <= i < earlier.len() ==> #[trigger] earlier[i] == files[i]);
        assert forall|i: int| 0 <= i < files.len() implies is_unresolved(#[trigger] files[i]) is Ok && (is_unresolved(files[i])
            == Ok::<bool, Seq<char>>(true) ==> unresolved(files)->Ok_0.contains(files[i].intent->Ok_0.session_id)) by {
            if i < earlier.len() {
                assert(files[i] == earlier[i]);
            }
        }
        assert forall|session: Seq<char>| #[trigger] unresolved(files)->Ok_0.contains(session) implies exists|i: int|
            0 <= i < files.len() && is_unresolved(#[trigger] files[i]) == Ok::<bool, Seq<char>>(true)
                && files[i].intent->Ok_0.session_id == session by {
            if unresolved(earlier)->Ok_0.contains(session) {
                let i = choose|i: int|
                    0 <= i < earlier.len() && is_unresolved(#[trigger] earlier[i]) == Ok::<bool, Seq<char>>(true)
                        && earlier[i].intent->Ok_0.session_id == session;
                assert(files[i] == earlier[i]);
            } else {
                assert(is_unresolved(files[files.len() - 1]) == Ok::<bool, Seq<char>>(true));
            }
        }
    }
}

/// An answer that belongs to no execution makes the unresolved ones
/// unknowable.
pub proof fn law_stray_answers_are_told(files: Seq<FilesView>, answers: Seq<Seq<char>>, i: int)
    requires
        0 <= i < answers.len(),
        forall|k: int| 0 <= k < files.len() ==> (#[trigger] files[k]).key != answers[i],
    ensures
        unresolved_in(files, answers) is Err,
{
    if keys_of(files).contains(answers[i]) {
        let k = choose|k: int| 0 <= k < keys_of(files).len() && keys_of(files)[k] == answers[i];
        assert(files[k].key == answers[i]);
    }
}

/// A file of an execution that cannot be read is told in its own words, and
/// never taken for one that is absent or sound.
pub proof fn law_unreadable_files_are_told(
    wanted: IntentView,
    intent: IntentOnDisk,
    outcome: OutcomeOnDisk,
    audit: AuditOnDisk,
)
    ensures
        intent matches IntentOnDisk::Unreadable(words) ==> execution_state(wanted, intent, outcome, audit) == Err::<
            ExecutionView,
            Seq<char>,
        >(words@),
        (intent matches IntentOnDisk::Opened(found) && found@ == wanted) && outcome is Unreadable ==> (outcome matches
            OutcomeOnDisk::Unreadable(words) && execution_state(wanted, intent, outcome, audit) == Err::<
            ExecutionView,
            Seq<char>,
        >(words@)),
        (intent matches IntentOnDisk::Opened(found) && found@ == wanted) && outcome is Opened && audit is Unreadable ==> (
        audit matches AuditOnDisk::Unreadable(words) && execution_state(wanted, intent, outcome, audit) == Err::<
            ExecutionView,
            Seq<char>,
        >(words@)),
        intent is Absent && (outcome !is Absent || audit !is Absent) ==> execution_state(wanted, intent, outcome, audit)
            == Err::<ExecutionView, Seq<char>>("tool outcome exists without an authenticated intent"@),
{
}

/// A forwarded call must name its session and have an id; what else is wrong
/// with it is told in its own words, the session first.
pub proof fn law_incomplete_calls_are_refused(
    fields: Seq<(Seq<char>, Seq<u8>)>,
    checked: Result<Seq<char>, Seq<char>>,
    call: Result<HeadView, Seq<char>>,
)
    ensures
        forwarded_call(fields, checked, call) matches Err(e) ==> e.kind == errors::ErrorKind::BadRequest,
        !names_session(fields) ==> forwarded_call(fields, checked, call) is Err && forwarded_call(
            fields,
            checked,
            call,
        )->Err_0.detail == "missing x-ab-session"@,
        names_session(fields) && checked is Err ==> forwarded_call(fields, checked, call) is Err && forwarded_call(
            fields,
            checked,
            call,
        )->Err_0.detail == checked->Err_0,
        names_session(fields) && checked is Ok && call is Err ==> forwarded_call(fields, checked, call) is Err
            && forwarded_call(fields, checked, call)->Err_0.detail == call->Err_0,
        names_session(fields) && checked is Ok && (call matches Ok(head) && head.id is None) ==> forwarded_call(
            fields,
            checked,
            call,
        ) is Err && forwarded_call(fields, checked, call)->Err_0.detail
            == "forwarded tool calls require a JSON-RPC id for idempotency"@,
{
}

/// An intent under another key than its own is not to be trusted.
pub proof fn law_misplaced_intents_are_told(f: FilesView)
    ensures
        (f.intent matches Ok(intent) && intent.execution_key != f.key) ==> is_unresolved(f) == Err::<bool, Seq<char>>(
            "tool intent path does not match authenticated execution key"@,
        ),
        f.intent matches Err(words) ==> is_unresolved(f) == Err::<bool, Seq<char>>(words),
{
}

} // verus!
