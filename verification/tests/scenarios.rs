//! Whole scenarios: what a client, a provider or a restart does, as the events
//! that the library sees of it.

use ab_harness::admission::{
    BreakerAction, ChatAction, ChatAdmission, ChatEvent, QuotaVerdict, SessionFacts,
};
use ab_harness::artifact::{agent_document, closed_document, metrics_document};
use ab_harness::audit::{record_response, EventClass, Payload, StatusId};
use ab_harness::capture::ResponseCapture;
use ab_harness::closing::{CloseAction, CloseEvent, CloseFlow};
use ab_harness::config::HarnessConfig;
use ab_harness::dashboard::{list_sessions, stats, ListQuery, SessionSnapshot, SessionSummary};
use ab_harness::errors::{FinalizeError, PipelineError};
use ab_harness::headers::{Headers, SESSION_HEADER, WORKFLOW_HEADER};
use ab_harness::identity::{route_identity, IdentityRoute};
use ab_harness::interception::{ParsedCall, ToolAction, ToolEvent, ToolInterception, ToolVerdict};
use ab_harness::journal::{aside_name, plan_journal, torn_journal, JournalPlan};
use ab_harness::json::{as_list, as_text, as_unsigned, parse_json, whole, Json};
use ab_harness::operations::{finish_shutdown, FinalizationPhase};
use ab_harness::provider::StopReason;
use ab_harness::publication::{EmitAction, EmitEvent, EmitFlow, OutboxOnDisk};
use ab_harness::relay::{refusal_status, BudgetVerdict, RelayAction, RelayEvent, RelayFlow};
use ab_harness::replay::Totals;
use ab_harness::rpc::RpcId;
use ab_harness::scan::{recovered_identity, TrajectoryFacts};
use ab_harness::session::{AgentIdentity, Workflow};
use ab_harness::tools::{
    ensure_no_unresolved_tool_executions, tool_request, unresolved_tool_sessions, ExecutionFiles, ToolCallHead,
    ToolExecution, ToolIntent,
};

fn headers(fields: &[(&str, &str)]) -> Headers {
    Headers { fields: fields.iter().map(|(n, v)| (n.to_string(), v.as_bytes().to_vec())).collect() }
}

fn json(text: &str) -> Json {
    parse_json(text).unwrap()
}

fn anonymous() -> AgentIdentity {
    AgentIdentity {
        version: "dev".to_owned(),
        charter: "anonymous".to_owned(),
        instance_uid: "anonymous".to_owned(),
        ttl_remaining_s: None,
    }
}

fn config() -> HarnessConfig {
    HarnessConfig::for_tests("http://127.0.0.1:9", "/tmp", "/tmp")
}

fn payload() -> Json {
    json(r#"{"model":"test","messages":[{"role":"user","content":"hello"}]}"#)
}

/// Four bytes to a token.
fn tokens(text: &str) -> u64 {
    (text.len() as u64).div_ceil(4)
}

const NOTHING: Totals = Totals {
    tool_calls: 0,
    tool_allowed: 0,
    tool_blocked: 0,
    prompt_tokens: 0,
    completion_tokens: 0,
    cached_tokens: 0,
    cost_usd_micros: 0,
};

#[test]
fn shutdown_runs_later_phases_after_earlier_failures() {
    let error = finish_shutdown(
        Err("server failed".to_owned()),
        false,
        FinalizationPhase::Failed("finalize failed".to_owned()),
        Err("flush failed".to_owned()),
    )
    .unwrap_err();
    assert!(error.contains("server failed"));
    assert!(error.contains("timed out draining audit worker"));
    assert!(error.contains("finalize failed"));
    assert!(error.contains("flush failed"));
}

#[test]
fn journal_with_no_complete_lines_is_quarantined_not_truncated() {
    let bytes = b"{\"torn_before_first_newline\":";
    assert_eq!(plan_journal(bytes), JournalPlan::SetAside);
    let aside = aside_name("journal.ndjson", "uid");
    assert!(aside.contains(".corrupt-"));
    let err = torn_journal("journal.ndjson", &aside, bytes.len() as u64, &None);
    assert!(format!("{err:?}").contains("no complete lines"), "expected quarantine error, got {err:?}");
    let msg = err.message();
    assert!(!msg.contains('/'), "{msg}");
    assert!(msg.contains("journal.ndjson"), "{msg}");
}

#[test]
fn missing_identity_fails_closed_when_required() {
    let mut config = config();
    config.require_identity = true;
    assert!(matches!(
        route_identity(&headers(&[]), true, &config),
        IdentityRoute::Refuse(PipelineError::Unauthorized(_))
    ));
}

#[test]
fn resolve_identity_refuses_duplicate_authorization_header() {
    let headers = headers(&[("authorization", "Bearer aaaa"), ("authorization", "Bearer bbbb")]);
    match route_identity(&headers, false, &config()) {
        IdentityRoute::Refuse(PipelineError::BadRequest(msg)) => {
            assert!(msg.contains("more than one"), "got {msg}");
            assert!(msg.contains("authorization"), "got {msg}");
        }
        other => panic!("expected BadRequest, got {other:?}"),
    }
}

#[test]
fn resolve_identity_accepts_single_authorization_header() {
    let outcome = route_identity(&headers(&[("authorization", "Bearer aaaa")]), false, &config());
    assert!(
        !matches!(&outcome, IdentityRoute::Refuse(PipelineError::BadRequest(msg)) if msg.contains("more than one")),
        "single Authorization header must not be refused as duplicate; got {outcome:?}"
    );
}

fn begin(fields: &[(&str, &str)], id: &str, payload: Json) -> Result<ChatAdmission, PipelineError> {
    ChatAdmission::begin(&headers(fields), Ok(id.to_owned()), &config(), payload)
}

fn facts(bound: Workflow, breaker: Option<BreakerAction>) -> SessionFacts {
    SessionFacts { bound, owner: anonymous(), closed: false, capture_failed: false, breaker }
}

#[test]
fn token_quota_blocks_before_dispatch() {
    let mut admission = begin(&[(SESSION_HEADER, "quota-failure")], "quota-failure", payload()).unwrap();
    admission.step(ChatEvent::Identified(Ok(anonymous())));
    admission.step(ChatEvent::Opened(facts(admission.workflow(), None)));
    admission.step(ChatEvent::Reserved(Ok(())));
    let refused = QuotaVerdict::Refused { limit: "max_tokens".to_owned(), cap: 1 };
    match admission.step(ChatEvent::Charged(refused)) {
        ChatAction::Refuse { record: Some(_), error, .. } => assert!(matches!(error, PipelineError::Blocked(_))),
        other => panic!("over-budget request was accepted: {other:?}"),
    }
}

#[test]
fn invalid_workflow_is_rejected() {
    assert!(matches!(begin(&[(WORKFLOW_HEADER, "sometimes")], "s", payload()), Err(PipelineError::BadRequest(_))));
}

#[test]
fn open_session_cannot_change_workflow() {
    let fields = [(SESSION_HEADER, "bound-session"), (WORKFLOW_HEADER, "unsigned")];
    let mut admission = begin(&fields, "bound-session", payload()).unwrap();
    admission.step(ChatEvent::Identified(Ok(anonymous())));
    match admission.step(ChatEvent::Opened(facts(Workflow::Signed, None))) {
        ChatAction::Refuse { error, .. } => assert!(matches!(error, PipelineError::BadRequest(_))),
        other => panic!("{other:?}"),
    }
}

fn looping(breaker: BreakerAction) -> (ChatAdmission, ChatAction) {
    let fields = [(SESSION_HEADER, "loop-session"), (WORKFLOW_HEADER, "signed")];
    let repeated = json(r#"{"messages": [{"role": "assistant", "content": "repeat the database query"}]}"#);
    let mut admission = begin(&fields, "loop-session", repeated).unwrap();
    admission.step(ChatEvent::Identified(Ok(anonymous())));
    let action = admission.step(ChatEvent::Opened(facts(Workflow::Signed, Some(breaker))));
    (admission, action)
}

#[test]
fn loop_inject_action_adds_correction_and_resets_breaker() {
    let (admission, action) = looping(BreakerAction::Inject);
    assert!(matches!(action, ChatAction::Reserve(effects) if effects.reset_breaker));
    let messages = as_list(admission.payload().get("messages")).unwrap();
    let correction = as_text(messages.last().unwrap().get("content")).unwrap();
    assert!(correction.contains("semantic loop"));
}

#[test]
fn loop_abort_action_returns_abort_error() {
    let (_, action) = looping(BreakerAction::Abort);
    assert!(matches!(action, ChatAction::Refuse { error: PipelineError::Abort(_), .. }));
}

#[test]
fn asynchronous_loop_verdict_blocks_the_next_request() {
    let (_, action) = looping(BreakerAction::Reject);
    assert!(matches!(action, ChatAction::Refuse { error: PipelineError::Blocked(_), .. }));
}

fn judge_write(fields: &[(&str, &str)], id: &str) -> ToolAction {
    let call = ParsedCall {
        tool: "db_write".to_owned(),
        arguments: json("{}"),
        rpc_id: Some(RpcId::of(serde_json::Value::from(1))),
    };
    let mut flow = ToolInterception::begin(
        &headers(fields),
        Ok(id.to_owned()),
        &config(),
        Some(call),
        "raw".to_owned(),
        "fresh".to_owned(),
    )
    .unwrap();
    flow.step(ToolEvent::Identified(Ok(anonymous())));
    flow.step(ToolEvent::Opened(facts(flow.workflow(), None)));
    match flow.step(ToolEvent::Reserved(Ok(()))) {
        ToolAction::MakeError { id: Some(id), reason } => {
            assert!(id.same(&json("1")));
            assert!(reason.contains("db_write"), "{reason}");
            flow.step(ToolEvent::ErrorMade(json(r#"{"error":{"code":-32001}}"#)))
        }
        other => other,
    }
}

#[test]
fn consequential_tools_require_signed_workflows() {
    match judge_write(&[(SESSION_HEADER, "unsigned-write")], "unsigned-write") {
        ToolAction::Decide { verdict: ToolVerdict::Blocked { stage, .. }, .. } => assert_eq!(stage, "policy"),
        other => panic!("{other:?}"),
    }
    let signed = [(SESSION_HEADER, "signed-write"), (WORKFLOW_HEADER, "signed")];
    assert!(matches!(judge_write(&signed, "signed-write"), ToolAction::Check));
}

#[test]
fn split_non_sse_utf8_is_captured_as_one_json_document() {
    let body = "{\"choices\":[{\"message\":{\"content\":\"h\u{e9}llo\",\"role\":\"assistant\"}}],\"model\":\"split-json\",\"usage\":{\"completion_tokens\":2,\"prompt_tokens\":5}}";
    let body = body.as_bytes();
    let split = body.iter().position(|byte| *byte == 0xc3).unwrap() + 1;
    let mut capture = ResponseCapture::new(200, false);
    capture.absorb_network_chunk(&body[..split], &tokens).unwrap();
    capture.absorb_network_chunk(&body[split..], &tokens).unwrap();
    assert_eq!(capture.flush_protocol_buffer(&tokens).unwrap(), 2);
    assert_eq!(capture.message, "h\u{e9}llo");
}

#[test]
fn malformed_non_sse_json_fails_capture_before_delivery() {
    let mut capture = ResponseCapture::new(200, false);
    let mut flow = RelayFlow::new(false);
    assert!(matches!(flow.step(RelayEvent::Poll), RelayAction::Read));
    let charge = capture.absorb_network_chunk(b"{\"choices\":[", &tokens);
    let action = flow.step(RelayEvent::Chunk { bytes: b"{\"choices\":[".to_vec(), charge });
    assert!(matches!(action, RelayAction::Read));
    let charge = capture.flush_protocol_buffer(&tokens);
    assert!(charge.is_err());
    match flow.step(RelayEvent::UpstreamEnded { charge }) {
        RelayAction::Fail { quota, capture_failed, .. } => {
            assert!(capture_failed);
            assert_eq!(refusal_status(quota), 502);
        }
        other => panic!("{other:?}"),
    }
}

#[test]
fn regressing_provider_usage_fails_capture_before_later_bytes() {
    let mut capture = ResponseCapture::new(200, true);
    let first = b"data: {\"choices\":[{\"delta\":{\"content\":\"first\"}}],\"usage\":{\"prompt_tokens\":10,\"completion_tokens\":100,\"prompt_tokens_details\":{\"cached_tokens\":5}},\"cost_usd\":0.01}\n\n";
    let second = b"data: {\"choices\":[{\"delta\":{\"content\":\"second\"}}],\"usage\":{\"prompt_tokens\":9,\"completion_tokens\":1,\"prompt_tokens_details\":{\"cached_tokens\":4}},\"cost_usd\":0.001}\n\n";
    assert_eq!(capture.absorb_network_chunk(first, &tokens).unwrap(), 100);
    let charge = capture.absorb_network_chunk(second, &tokens);
    assert!(charge.is_err());
    let mut flow = RelayFlow::new(true);
    flow.step(RelayEvent::Poll);
    let action = flow.step(RelayEvent::Chunk { bytes: second.to_vec(), charge });
    assert!(matches!(action, RelayAction::Fail { capture_failed: true, .. }));
}

#[test]
fn successful_provider_response_requires_choices() {
    let mut capture = ResponseCapture::new(200, false);
    capture.absorb_network_chunk(b"{}", &tokens).unwrap();
    let error = capture.flush_protocol_buffer(&tokens).unwrap_err();
    assert_eq!(error, "successful provider response has no choices array");
    let mut failed = ResponseCapture::new(500, false);
    failed.absorb_network_chunk(b"{}", &tokens).unwrap();
    assert!(failed.flush_protocol_buffer(&tokens).is_ok());
}

#[test]
fn cumulative_usage_settles_against_provisional_charge() {
    let mut capture = ResponseCapture::new(200, true);
    let first = b"data: {\"choices\":[{\"delta\":{\"content\":\"hello\"}}]}\n\n";
    let second = b"data: {\"choices\":[],\"usage\":{\"prompt_tokens\":10,\"completion_tokens\":2}}\n\n";
    let charged = capture.absorb_network_chunk(first, &tokens).unwrap()
        + capture.absorb_network_chunk(second, &tokens).unwrap();
    assert_eq!(charged, 2);
    assert_eq!(capture.metrics.completion_tokens, Some(2));
}

#[test]
fn provider_tool_call_index_out_of_range_fails_capture() {
    let mut capture = ResponseCapture::new(200, true);
    let event = b"data: {\"choices\":[{\"delta\":{\"tool_calls\":[{\"index\":18446744073709551615,\"function\":{\"name\":\"read\",\"arguments\":\"{}\"}}]}}]}\n\n";
    let error = capture.absorb_network_chunk(event, &tokens).unwrap_err();
    assert_eq!(error, "provider tool-call index 18446744073709551615 is out of range");
}

#[test]
fn empty_and_failed_upstream_responses_are_audited_as_failures() {
    let mut capture = ResponseCapture::new(500, false);
    capture.flush_protocol_buffer(&tokens).unwrap();
    let record = record_response(&capture, None, None, "try".to_owned());
    assert_eq!(record.class, EventClass::StopReason);
    assert_eq!(record.status, StatusId::Failure);
    assert_eq!(record.stop_reason, Some(StopReason::Other));
    let document = record.payload.document();
    assert_eq!(as_unsigned(document.get("http_status")), Some(500));
    assert_eq!(as_text(document.get("direction")).as_deref(), Some("upstream_response"));
}

#[test]
fn completion_tokens_are_blocked_before_delivery() {
    let mut capture = ResponseCapture::new(200, true);
    let event = b"data: {\"choices\":[{\"delta\":{\"content\":\"hello\"},\"finish_reason\":\"stop\"}],\"usage\":{\"prompt_tokens\":10,\"completion_tokens\":3,\"cost_usd\":0.00125,\"prompt_tokens_details\":{\"cached_tokens\":4}}}\n\n";
    let mut flow = RelayFlow::new(true);
    flow.step(RelayEvent::Poll);
    let charge = capture.absorb_network_chunk(event, &tokens);
    let action = flow.step(RelayEvent::Chunk { bytes: event.to_vec(), charge });
    assert!(matches!(action, RelayAction::CheckBudget(3)));
    let refused = BudgetVerdict::Refused { limit: "max_tokens".to_owned(), cap: 10 };
    assert!(matches!(flow.step(RelayEvent::Verdict(refused)), RelayAction::Submit(Some(_))));
    assert!(matches!(flow.step(RelayEvent::Submitted(Ok(()))), RelayAction::Fail { quota: true, .. }));
    assert!(matches!(flow.step(RelayEvent::Poll), RelayAction::Finish));
    assert!(flow.abandon(false, false, &Ok(0)).close_session);
}

#[test]
fn drop_with_pending_budget_during_concurrent_close_does_not_stick_session() {
    let mut flow = RelayFlow::new(true);
    flow.step(RelayEvent::Poll);
    flow.step(RelayEvent::Chunk { bytes: b"x".to_vec(), charge: Ok(1) });
    let plan = flow.abandon(true, false, &Ok(0));
    assert!(!plan.mark_capture_failed && plan.submit_capture && !plan.close_session);
    let plan = flow.abandon(false, false, &Ok(0));
    assert!(plan.mark_capture_failed && !plan.submit_capture && plan.close_session);
}

#[test]
fn startup_refuses_pending_and_unaudited_tool_effects() {
    let head = ToolCallHead { tool: "read".to_owned(), id: Some(RpcId::of(serde_json::Value::from("recover"))) };
    let request =
        tool_request(&headers(&[("x-ab-session", "tool-recovery")]), Ok("tool-recovery".to_owned()), Ok(head)).unwrap();
    let mut execution = ToolExecution::from_request(request, "key".to_owned(), Ok("digest".to_owned())).unwrap();
    execution.bind_principal(Ok("principal".to_owned())).unwrap();
    let check = |intent: ToolIntent, outcome: bool, audited: bool| {
        let files = vec![ExecutionFiles {
            key: "key".to_owned(),
            intent: Ok(intent),
            outcome: Ok(outcome),
            audited: Ok(audited),
        }];
        let answers = if outcome { vec!["key".to_owned()] } else { vec![] };
        ensure_no_unresolved_tool_executions(&unresolved_tool_sessions(&files, &answers).unwrap())
    };
    assert_eq!(
        check(execution.intent(), false, false).unwrap_err(),
        "session tool-recovery has an unresolved tool execution"
    );
    assert!(check(execution.intent(), true, false).is_err());
    check(execution.intent(), true, true).unwrap();
}

#[test]
fn emit_bridge_event_persist_failure_does_not_burn_a_seq() {
    let mut flow = EmitFlow::begin("s".to_owned(), "receipt".to_owned(), 3, true).unwrap();
    assert!(matches!(flow.step(EmitEvent::OutboxRead(OutboxOnDisk::Absent)), EmitAction::Store { sequence: 3 }));
    match flow.step(EmitEvent::Stored(Err(FinalizeError::Bridge("not a directory".to_owned())))) {
        EmitAction::Fail { advance, .. } => assert_eq!(advance, None),
        other => panic!("{other:?}"),
    }
}

#[test]
fn emit_bridge_event_reading_persisted_outbox_advances_seq_past_it() {
    let mut flow = EmitFlow::begin("s".to_owned(), "receipt".to_owned(), 0, true).unwrap();
    let outbox = OutboxOnDisk::Opened {
        session_id: "s".to_owned(),
        kind: "receipt".to_owned(),
        value: json(r#"{"metadata":{"sequence":42,"uid":"u"},"topic":"t"}"#),
        acked: true,
    };
    assert!(matches!(flow.step(EmitEvent::OutboxRead(outbox)), EmitAction::Complete { advance: Some(42) }));
}

#[test]
fn close_session_seals_capture_failed_session_so_idle_sweep_stops_churning() {
    let mut flow = CloseFlow::new(Workflow::Signed, StopReason::SessionClosed);
    assert!(matches!(flow.step(CloseEvent::Claimed(true)), CloseAction::Drain));
    let action = flow.step(CloseEvent::Drained { capture_failed: true });
    assert!(matches!(action, CloseAction::Fail { error: FinalizeError::CaptureIncomplete, seal: true }));
}

#[test]
fn close_session_seals_empty_unsigned_session_so_idle_sweep_stops_churning() {
    let mut flow = CloseFlow::new(Workflow::Unsigned, StopReason::SessionClosed);
    flow.step(CloseEvent::Claimed(true));
    flow.step(CloseEvent::Drained { capture_failed: false });
    match flow.step(CloseEvent::Found { written: false, has_steps: false }) {
        CloseAction::Fail { error, seal } => {
            assert!(seal);
            assert!(error.message().contains("no captured steps"), "{}", error.message());
        }
        other => panic!("{other:?}"),
    }
}

#[test]
fn failed_persistence_reopens_session_for_retry() {
    let mut flow = CloseFlow::new(Workflow::Unsigned, StopReason::SessionClosed);
    flow.step(CloseEvent::Claimed(true));
    flow.step(CloseEvent::Drained { capture_failed: false });
    flow.step(CloseEvent::Found { written: false, has_steps: true });
    let action = flow.step(CloseEvent::Written(Err(FinalizeError::Atif("disk full".to_owned()))));
    assert!(matches!(action, CloseAction::Fail { seal: false, .. }));
    let mut again = CloseFlow::new(Workflow::Unsigned, StopReason::SessionClosed);
    assert!(matches!(again.step(CloseEvent::Claimed(true)), CloseAction::Drain));
}

fn open(id: &str, totals: Totals) -> SessionSummary {
    SessionSummary::from_session(
        SessionSnapshot {
            id: id.to_owned(),
            workflow: Workflow::Unsigned,
            last_activity_ms: 1,
            is_closed: false,
            closing: false,
            artifact_committed: false,
            close_complete: false,
            capture_failed: false,
            active_streams: 0,
            pending_jobs: 0,
            stop_reason_id: 0,
            totals,
            identity: anonymous(),
            has_receipt: false,
        },
        "none".to_owned(),
    )
}

#[test]
fn list_endpoint_reports_matched_count_and_registry_total() {
    let sessions = || vec![open("sess-open-1", NOTHING), open("sess-open-2", NOTHING)];
    let all = list_sessions(sessions(), &ListQuery { limit: None, status: None, workflow: None });
    assert_eq!(all.total_before_truncate, 2);
    assert_eq!(all.matched, 2);
    let closed = ListQuery { limit: None, status: Some("closed".to_owned()), workflow: None };
    let closed_only = list_sessions(sessions(), &closed);
    assert_eq!(closed_only.total_before_truncate, 2);
    assert_eq!(closed_only.matched, 0);
    assert_eq!(closed_only.sessions.len(), 0);
}

#[test]
fn list_endpoint_limit_clamps_at_max() {
    let sessions = || (0..3).map(|i| open(&format!("sess-{i}"), NOTHING)).collect::<Vec<_>>();
    let over = list_sessions(sessions(), &ListQuery { limit: Some(99999), status: None, workflow: None });
    assert_eq!(over.sessions.len(), 3);
    let zero = list_sessions(sessions(), &ListQuery { limit: Some(0), status: None, workflow: None });
    assert_eq!(zero.sessions.len(), 0);
    assert_eq!(zero.matched, 3, "limit does not hide the matched total");
    let many: Vec<_> = (0..600).map(|i| open(&format!("sess-{i}"), NOTHING)).collect();
    assert_eq!(list_sessions(many, &ListQuery { limit: Some(99999), status: None, workflow: None }).sessions.len(), 500);
}

#[test]
fn stats_endpoint_aggregates_totals_across_sessions() {
    let a = Totals { cost_usd_micros: 1_000_000, tool_calls: 5, tool_blocked: 1, ..NOTHING };
    let b = Totals { cost_usd_micros: 500_000, tool_calls: 2, ..NOTHING };
    let body = stats(&vec![open("sess-a", a), open("sess-b", b)]);
    assert_eq!(body.session_count, 2);
    assert_eq!(body.totals.cost_usd_micros, 1_500_000);
    assert_eq!(body.totals.tool_calls, 7);
    assert_eq!(body.totals.tool_blocked, 1);
}

#[test]
fn stats_endpoint_reports_empty_registry() {
    let body = stats(&vec![]);
    assert_eq!((body.session_count, body.open_count, body.closed_count), (0, 0, 0));
    assert_eq!(body.totals, NOTHING);
}

#[test]
fn the_agent_of_an_artifact_is_restored() {
    let identity = AgentIdentity {
        version: "7".to_owned(),
        charter: "billing".to_owned(),
        instance_uid: "i-1".to_owned(),
        ttl_remaining_s: Some(u64::MAX),
    };
    let extra = agent_document(Json::Text("billing".to_owned()), &identity);
    assert_eq!(as_unsigned(extra.get("ttl_remaining_s")), Some(u64::MAX));
    let facts = TrajectoryFacts {
        conformant: true,
        session_id: Some("s".to_owned()),
        version: "7".to_owned(),
        extra: Some(extra),
        charter: None,
        metrics: None,
    };
    assert_eq!(format!("{:?}", recovered_identity(&facts)), format!("{identity:?}"));
    let bare = TrajectoryFacts { extra: None, ..facts };
    assert_eq!(recovered_identity(&bare).instance_uid, "recovered");
}

#[test]
fn documents_are_written_in_the_order_of_their_names() {
    let names = |document: &Json| match document {
        Json::Object(fields) => fields.iter().map(|(name, _)| name.clone()).collect::<Vec<_>>(),
        other => panic!("{other:?}"),
    };
    let totals = Totals { tool_calls: 3, tool_allowed: 2, tool_blocked: 1, cost_usd_micros: 9, ..NOTHING };
    let metrics = metrics_document(&totals, None);
    assert_eq!(
        names(&metrics),
        ["cost_usd_micros", "stop_reason_id", "tool_allowed", "tool_blocked", "tool_calls"]
    );
    assert!(matches!(metrics.get("stop_reason_id"), Some(Json::Null)));
    assert_eq!(as_unsigned(metrics.get("tool_calls")), Some(3));
    assert_eq!(as_text(closed_document(Workflow::Signed).get("workflow")).as_deref(), Some("signed"));
    let allowed = Payload::ToolAllowed {
        tool: "read".to_owned(),
        budget_remaining: None,
        budget_unlimited: true,
        decision_us: 4,
    };
    assert_eq!(
        names(&allowed.document()),
        ["allowed", "budget_remaining", "budget_unlimited", "decision_us", "tool"]
    );
    let payloads = [
        Payload::Reason { reason: "r".to_owned() },
        Payload::ResponseRefused { reason: "r".to_owned() },
        Payload::Response { http_status: 200 },
        Payload::ResponseFinished { finish_reason: "stop".to_owned(), http_status: 200 },
        Payload::Compression { changed: true, tokens_before: 2, tokens_after: 1 },
        Payload::ToolBlocked { tool: "t".to_owned(), stage: "s".to_owned(), reason: "r".to_owned(), decision_us: 1 },
        Payload::ToolCompleted { execution_key: "k".to_owned(), status: 200, response_sha256: "d".to_owned() },
    ];
    for payload in &payloads {
        let found = names(&payload.document());
        let mut sorted = found.clone();
        sorted.sort();
        assert_eq!(found, sorted);
    }
}

#[test]
fn whole_numbers_read_as_they_would_from_a_text() {
    for n in [0, 7, i64::MAX as u64, i64::MAX as u64 + 1, u64::MAX] {
        assert_eq!(format!("{:?}", whole(n)), format!("{:?}", json(&n.to_string())));
        match whole(n) {
            Json::Number(number) => assert_eq!(number.double_bits, Some((n as f64).to_bits())),
            other => panic!("{other:?}"),
        }
    }
}
