//! Admission of chat requests and interception of tool calls.

use ab_harness::admission::{
    authorize_session, check_before_dispatch, check_known_session, choose_credential, client_authorization,
    enter_session, forward_failure, gates_run_inline, join_session, judge_quota, lease_session, BreakerAction,
    ChatAction, ChatAdmission, ChatEvent, Compressed, QuotaVerdict, SessionFacts, UpstreamCredential,
};
use ab_harness::audit::{EventClass, Payload, StatusId};
use ab_harness::config::HarnessConfig;
use ab_harness::errors::PipelineError;
use ab_harness::headers::{sensitive_value, Headers, SESSION_HEADER};
use ab_harness::interception::{
    check_verdict_capture, record_of_verdict, required_scope, verdict_record, ParsedCall, ToolAction, ToolEvent, ToolInterception,
    ToolVerdict,
};
use ab_harness::json::{as_list, parse_json, Json};
use ab_harness::provider::StopReason;
use ab_harness::rpc::{id_text, RpcId};
use ab_harness::session::{AgentIdentity, Workflow};
use ab_harness::upstream::HttpFault;

fn headers(fields: &[(&str, &str)]) -> Headers {
    Headers { fields: fields.iter().map(|(n, v)| (n.to_string(), v.as_bytes().to_vec())).collect() }
}

fn agent(uid: &str) -> AgentIdentity {
    AgentIdentity {
        version: "1".to_owned(),
        charter: "test".to_owned(),
        instance_uid: uid.to_owned(),
        ttl_remaining_s: Some(600),
    }
}

fn facts(breaker: Option<BreakerAction>) -> SessionFacts {
    SessionFacts { bound: Workflow::Unsigned, owner: agent("a"), closed: false, capture_failed: false, breaker }
}

fn chat() -> Json {
    parse_json(r#"{"model":"m","messages":[{"role":"user","content":"hello"}]}"#).unwrap()
}

fn config() -> HarnessConfig {
    HarnessConfig::for_tests("http://up", "spool", "bridge")
}

fn begin() -> ChatAdmission {
    let mut config = config();
    config.default_workflow = "unsigned".to_owned();
    ChatAdmission::begin(&headers(&[(SESSION_HEADER, "s")]), Ok("s".to_owned()), &config, chat()).unwrap()
}

fn shrunk(payload: Json) -> ChatEvent {
    ChatEvent::Shrunk(Compressed {
        payload,
        changed: true,
        tokens_before: 10,
        tokens_after: 7,
        pruned_tokens: 3,
        pruning_ratio_millis: 300,
        attempt: "try".to_owned(),
    })
}

#[test]
fn a_request_passes_every_gate_in_order() {
    let mut admission = begin();
    assert!(matches!(admission.step(ChatEvent::Charged(QuotaVerdict::Allowed)), ChatAction::Ignore));
    assert!(matches!(admission.step(ChatEvent::Identified(Ok(agent("a")))), ChatAction::Open));
    let action = admission.step(ChatEvent::Opened(facts(None)));
    assert!(matches!(action, ChatAction::Reserve(e) if e.touch && e.refresh_identity && !e.reset_breaker));
    assert!(matches!(admission.step(ChatEvent::Reserved(Ok(()))), ChatAction::Charge));
    assert!(matches!(admission.step(ChatEvent::Charged(QuotaVerdict::Allowed)), ChatAction::Screen));
    assert!(matches!(admission.step(ChatEvent::Screened(Ok(()))), ChatAction::Compress));
    match admission.step(shrunk(chat())) {
        ChatAction::Dispatch(record) => {
            assert_eq!(record.class, EventClass::Compression);
            assert_eq!(record.metrics.prompt_tokens, Some(7));
            assert_eq!(record.metrics.pruned_tokens, Some(3));
            assert_eq!(record.text, "hello");
            let attempt = record.response_attempt.unwrap();
            assert_eq!((attempt.id.as_str(), attempt.terminal), ("try", false));
        }
        other => panic!("{other:?}"),
    }
    assert!(matches!(admission.step(ChatEvent::Screened(Ok(()))), ChatAction::Ignore));
}

#[test]
fn a_rejected_identity_opens_no_session() {
    let mut admission = begin();
    let error = PipelineError::Unauthorized("identity rejected".to_owned());
    match admission.step(ChatEvent::Identified(Err(error))) {
        ChatAction::RecordRejection(record) => assert_eq!(record.stop_reason, Some(StopReason::IdentityRejected)),
        other => panic!("{other:?}"),
    }
    assert!(matches!(admission.step(ChatEvent::Opened(facts(None))), ChatAction::Ignore));
    match admission.step(ChatEvent::RejectionRecorded(Ok(()))) {
        ChatAction::Refuse { record: None, error, .. } => assert_eq!(error.status(), 401),
        other => panic!("{other:?}"),
    }
    let mut unwritten = begin();
    unwritten.step(ChatEvent::Identified(Err(PipelineError::Unauthorized("no".to_owned()))));
    match unwritten.step(ChatEvent::RejectionRecorded(Err("disk full".to_owned()))) {
        ChatAction::Refuse { error: PipelineError::Unavailable(m), .. } => assert_eq!(m, "disk full"),
        other => panic!("{other:?}"),
    }
}

#[test]
fn late_refusals_are_on_record() {
    let mut admission = begin();
    admission.step(ChatEvent::Identified(Ok(agent("a"))));
    admission.step(ChatEvent::Opened(facts(None)));
    admission.step(ChatEvent::Reserved(Ok(())));
    let refused = QuotaVerdict::Refused { limit: "max_tokens".to_owned(), cap: 12 };
    match admission.step(ChatEvent::Charged(refused)) {
        ChatAction::Refuse { record: Some(record), error: PipelineError::Blocked(words), .. } => {
            assert_eq!(words, "max_tokens exceeded (cap 12)");
            assert_eq!(record.stop_reason, Some(StopReason::BudgetExceeded));
            let told = format!("request blocked: {words}");
            assert!(matches!(&record.payload, Payload::Reason { reason } if *reason == told), "{:?}", record.payload);
        }
        other => panic!("{other:?}"),
    }
    let mut shapeless = begin();
    shapeless.step(ChatEvent::Identified(Ok(agent("a"))));
    shapeless.step(ChatEvent::Opened(facts(None)));
    shapeless.step(ChatEvent::Reserved(Ok(())));
    shapeless.step(ChatEvent::Charged(QuotaVerdict::Allowed));
    shapeless.step(ChatEvent::Screened(Ok(())));
    match shapeless.step(shrunk(parse_json("{}").unwrap())) {
        ChatAction::Refuse { record: Some(record), error: PipelineError::BadRequest(_), .. } => {
            assert_eq!(record.status, StatusId::Failure)
        }
        other => panic!("{other:?}"),
    }
}

#[test]
fn an_open_breaker_is_obeyed() {
    let enter = |breaker| enter_session(&facts(Some(breaker)), Workflow::Unsigned, &agent("a"), &chat());
    assert!(matches!(enter(BreakerAction::Reject).1, Err(PipelineError::Blocked(_))));
    assert!(matches!(enter(BreakerAction::Abort).1, Err(PipelineError::Abort(_))));
    assert!(matches!(enter(BreakerAction::Unknown).1, Err(PipelineError::Blocked(_))));
    let (effects, payload) = enter(BreakerAction::Inject);
    assert!(effects.reset_breaker);
    assert_eq!(as_list(payload.unwrap().get("messages")).unwrap().len(), 2);
}

#[test]
fn closed_and_broken_sessions_take_nothing_in() {
    let mut closed = facts(None);
    closed.closed = true;
    let (effects, fault) = join_session(&closed, Workflow::Unsigned, &agent("a"));
    assert!(effects.refresh_identity && !effects.touch);
    assert!(matches!(fault, Some(PipelineError::BadRequest(m)) if m == "session is already closed"));
    let mut broken = facts(None);
    broken.capture_failed = true;
    assert!(matches!(join_session(&broken, Workflow::Unsigned, &agent("a")).1, Some(PipelineError::Unavailable(_))));
    let (effects, fault) = join_session(&facts(None), Workflow::Unsigned, &agent("b"));
    assert!(!effects.refresh_identity);
    assert!(matches!(fault, Some(PipelineError::Unauthorized(_))));
    assert!(check_known_session(Some(true)).is_some());
    assert!(check_known_session(Some(false)).is_none());
    assert!(check_known_session(None).is_none());
}

#[test]
fn the_budget_fails_closed() {
    assert!(judge_quota(&QuotaVerdict::Allowed).is_none());
    match judge_quota(&QuotaVerdict::BackendFailed("gone".to_owned())) {
        Some(PipelineError::Blocked(m)) => assert_eq!(m, "quota backend failed closed: gone"),
        other => panic!("{other:?}"),
    }
    let mut config = config();
    config.budget_max_tokens = None;
    assert!(gates_run_inline(&config));
    config.budget_max_tokens = Some(1);
    assert!(!gates_run_inline(&config));
}

#[test]
fn nothing_goes_out_once_its_record_is_lost() {
    assert!(check_before_dispatch(false, None, Workflow::Signed, "t".to_owned()).is_none());
    let (error, record) = check_before_dispatch(true, None, Workflow::Signed, "t".to_owned()).unwrap();
    assert_eq!(error.status(), 503);
    assert!(record.response_attempt.unwrap().terminal);
    let (error, record) =
        check_before_dispatch(false, Some(BreakerAction::Reject), Workflow::Signed, "t".to_owned()).unwrap();
    assert_eq!(error.status(), 403);
    assert_eq!(record.stop_reason, Some(StopReason::LoopDetected));
    let (error, _) = check_before_dispatch(false, Some(BreakerAction::Abort), Workflow::Signed, "t".to_owned()).unwrap();
    assert!(error.closes_connection());
}

#[test]
fn the_harness_credential_comes_first() {
    let own = sensitive_value("Bearer k").map(|value| ("authorization".to_owned(), value));
    let chosen = choose_credential(own, Some(b"Bearer c".to_vec()));
    assert!(matches!(chosen, UpstreamCredential::Own { value, .. } if value.to_str().unwrap() == "Bearer k"));
    assert!(matches!(choose_credential(None, Some(b"c".to_vec())), UpstreamCredential::Client(b) if b == b"c"));
    assert!(matches!(choose_credential(None, None), UpstreamCredential::Absent));
    let mut config = config();
    let sent = headers(&[("authorization", "Bearer c")]);
    assert!(client_authorization(&sent, &config).unwrap().is_none());
    config.upstream_authorization_passthrough = true;
    assert_eq!(client_authorization(&sent, &config).unwrap().as_deref(), Some(&b"Bearer c"[..]));
}

#[test]
fn an_unreachable_provider_is_told_of_by_kind_only() {
    let fault = HttpFault {
        is_timeout: false,
        is_connect: true,
        is_request: true,
        is_body: false,
        is_decode: false,
        is_status: false,
    };
    let detail = "error sending request for url (http://10.0.0.1/)".to_owned();
    let (error, record) = forward_failure(Workflow::Unsigned, fault, detail.clone(), true, None, "t".to_owned());
    assert_eq!(error.message(), "upstream request failed: upstream unreachable");
    assert!(matches!(&record.payload, Payload::Reason { reason } if *reason == detail));
    assert!(record.response_attempt.unwrap().terminal);
    let (_, record) = forward_failure(Workflow::Unsigned, fault, detail, false, None, "t".to_owned());
    assert!(record.response_attempt.is_none());
}

#[test]
fn leases_and_authority_are_asked_of_the_session() {
    assert!(lease_session(Some(true)).is_none());
    assert!(matches!(lease_session(Some(false)), Some(PipelineError::BadRequest(m)) if m == "session is already closed"));
    assert!(matches!(lease_session(None), Some(PipelineError::BadRequest(m)) if m == "unknown session"));
    assert!(authorize_session(Workflow::Signed, &agent("a"), Ok(agent("a"))).is_ok());
    assert!(authorize_session(Workflow::Signed, &agent("a"), Ok(agent("b"))).is_err());
    let lost = authorize_session(Workflow::Signed, &agent("a"), Err(PipelineError::Unauthorized("x".to_owned())));
    assert!(matches!(lost, Err(PipelineError::Unauthorized(m)) if m == "x"));
}

fn call(tool: &str) -> Option<ParsedCall> {
    Some(ParsedCall {
        tool: tool.to_owned(),
        arguments: parse_json(r#"{"row":1}"#).unwrap(),
        rpc_id: Some(RpcId::of(serde_json::Value::from("call-1"))),
    })
}

fn intercept(tool: &str, consequential: &str, workflow: &str) -> ToolInterception {
    let mut config = config();
    config.default_workflow = workflow.to_owned();
    config.consequential_tools = vec![consequential.to_owned()];
    ToolInterception::begin(
        &headers(&[(SESSION_HEADER, "s")]),
        Ok("s".to_owned()),
        &config,
        call(tool),
        "raw".to_owned(),
        "fresh".to_owned(),
    )
    .unwrap()
}

#[test]
fn consequential_tools_need_a_signed_session() {
    let mut flow = intercept("db_write", "db_write", "unsigned");
    assert!(matches!(flow.step(ToolEvent::Identified(Ok(agent("a")))), ToolAction::Open));
    assert!(matches!(flow.step(ToolEvent::Opened(facts(None))), ToolAction::Reserve(_)));
    match flow.step(ToolEvent::Reserved(Ok(()))) {
        ToolAction::MakeError { id: Some(Json::Text(id)), .. } => assert_eq!(id, "call-1"),
        other => panic!("{other:?}"),
    }
    match flow.step(ToolEvent::ErrorMade(parse_json(r#"{"error":1}"#).unwrap())) {
        ToolAction::Decide { verdict: ToolVerdict::Blocked { tool, response, .. }, record } => {
            assert_eq!(tool, "db_write");
            assert!(response.get("error").is_some());
            assert_eq!(record.status, StatusId::Failure);
            assert_eq!(record.class, EventClass::ToolCall);
        }
        other => panic!("{other:?}"),
    }
}

#[test]
fn other_tools_are_checked_and_recorded() {
    let mut flow = intercept("read", "db_write", "unsigned");
    flow.step(ToolEvent::Identified(Ok(agent("a"))));
    flow.step(ToolEvent::Opened(facts(None)));
    assert!(matches!(flow.step(ToolEvent::Reserved(Ok(()))), ToolAction::Check));
    let verdict = ToolVerdict::Allowed { tool: "read".to_owned(), budget_remaining: 3, elapsed_us: 5 };
    match flow.step(ToolEvent::Checked(verdict)) {
        ToolAction::Decide { record, verdict: ToolVerdict::Allowed { .. } } => {
            assert_eq!(record.status, StatusId::Success);
            assert!(matches!(
                &record.payload,
                Payload::ToolAllowed { tool, budget_remaining: Some(3), budget_unlimited: false, decision_us: 5 } if tool == "read"
            ));
        }
        other => panic!("{other:?}"),
    }
}

#[test]
fn closed_sessions_take_no_tool_calls() {
    let mut flow = intercept("read", "db_write", "unsigned");
    flow.step(ToolEvent::Identified(Ok(agent("a"))));
    let mut closed = facts(None);
    closed.closed = true;
    assert!(matches!(flow.step(ToolEvent::Opened(closed)), ToolAction::Refuse { error: PipelineError::BadRequest(_), .. }));
    let mut broken = intercept("read", "db_write", "unsigned");
    broken.step(ToolEvent::Identified(Err(PipelineError::Unauthorized("no".to_owned()))));
    assert!(matches!(broken.step(ToolEvent::RejectionRecorded(Ok(()))), ToolAction::Refuse { .. }));
    assert!(check_verdict_capture(true).is_some());
    assert!(check_verdict_capture(false).is_none());
}

#[test]
fn an_unlimited_budget_is_told_as_such() {
    let verdict = ToolVerdict::Allowed { tool: "read".to_owned(), budget_remaining: u64::MAX, elapsed_us: 1 };
    let record = verdict_record(&verdict, &call("read"), "raw".to_owned(), "fresh".to_owned());
    assert!(matches!(&record.payload, Payload::ToolAllowed { budget_remaining: None, budget_unlimited: true, .. }));
    assert_eq!(required_scope(&call("read")), "tool:read");
    assert_eq!(required_scope(&None), "tool:invoke");
}

fn observed(verdict: &ToolVerdict, id: Option<serde_json::Value>) -> (String, String) {
    let call = ParsedCall {
        tool: "read".to_owned(),
        arguments: parse_json("{}").unwrap(),
        rpc_id: id.map(RpcId::of),
    };
    let record = verdict_record(verdict, &Some(call), "raw".to_owned(), "fresh".to_owned());
    let atif = record.atif.unwrap();
    let calls = atif.tool_calls.unwrap();
    let observation = atif.observation.unwrap();
    assert_eq!(calls[0].tool_call_id, observation.source_call_id);
    match observation.content {
        Some(Json::Text(text)) => (observation.source_call_id.unwrap(), text),
        other => panic!("{other:?}"),
    }
}

#[test]
fn a_verdict_is_observed_as_the_body_of_its_event() {
    let allowed = ToolVerdict::Allowed { tool: "read".to_owned(), budget_remaining: 3, elapsed_us: 5 };
    let (id, text) = observed(&allowed, Some(serde_json::Value::from("call-1")));
    assert_eq!(id, "call-1");
    assert_eq!(text, r#"{"allowed":true,"budget_remaining":3,"budget_unlimited":false,"decision_us":5,"tool":"read"}"#);
    let unlimited = ToolVerdict::Allowed { tool: "read".to_owned(), budget_remaining: u64::MAX, elapsed_us: 5 };
    let (_, text) = observed(&unlimited, None);
    assert_eq!(text, r#"{"allowed":true,"budget_remaining":null,"budget_unlimited":true,"decision_us":5,"tool":"read"}"#);
    let blocked = ToolVerdict::Blocked {
        tool: "read".to_owned(),
        stage: "schema".to_owned(),
        reason: "not a \"row\"".to_owned(),
        response: Json::Null,
        elapsed_us: u64::MAX,
    };
    let (id, text) = observed(&blocked, None);
    assert_eq!(id, "fresh");
    assert_eq!(
        text,
        r#"{"allowed":false,"decision_us":18446744073709551615,"reason":"not a \"row\"","stage":"schema","tool":"read"}"#
    );
    let record = record_of_verdict(&allowed, &None, "raw".to_owned(), "fresh".to_owned(), "body".to_owned());
    assert!(record.atif.unwrap().observation.is_none());
}

#[test]
fn ids_are_written_down_as_texts() {
    let allowed = ToolVerdict::Allowed { tool: "read".to_owned(), budget_remaining: 3, elapsed_us: 5 };
    for (id, shown, written) in [
        (r#""one""#, "one", r#""one""#),
        ("7", "7", "7"),
        ("-7", "-7", "-7"),
        ("1.50", "1.5", "1.5"),
        ("true", "true", "true"),
        (r#"{"b":1, "a":["x"]}"#, r#"{"a":["x"],"b":1}"#, r#"{"a":["x"],"b":1}"#),
    ] {
        let value: serde_json::Value = serde_json::from_str(id).unwrap();
        assert_eq!(observed(&allowed, Some(value.clone())).0, shown);
        let id = RpcId::of(value);
        assert_eq!((id.written().as_str(), id.shown().as_str()), (written, shown));
        assert!(id.document().same(&parse_json(written).unwrap()));
    }
    assert_eq!(id_text(&parse_json("7").unwrap(), "seven"), "seven");
    assert_eq!(id_text(&Json::Text("one".to_owned()), "other"), "one");
}
