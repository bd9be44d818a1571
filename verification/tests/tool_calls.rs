//! Tool executions: how they are remembered and how they are run.

use ab_harness::audit::Payload;
use ab_harness::errors::PipelineError;
use ab_harness::headers::{Headers, SESSION_HEADER};
use ab_harness::interception::ToolVerdict;
use ab_harness::json::{parse_json, Json};
use ab_harness::rpc::RpcId;
use ab_harness::tool_call::{McpAction, McpAnswer, McpEvent, McpFlow};
use ab_harness::tools::{
    completion_record, key_material, tool_request, unresolved_tool_sessions, AuditOnDisk, ExecutionFiles, IntentOnDisk,
    OutcomeOnDisk, ToolCallHead, ToolExecution, ToolExecutionState, ToolIntent, ToolOutcome, TOOL_OUTCOME_UNCERTAIN,
    TOOL_REQUEST_MISMATCH,
};

fn intent(key: &str) -> ToolIntent {
    ToolIntent {
        execution_key: key.to_owned(),
        session_id: "s".to_owned(),
        tool: "db_write".to_owned(),
        request_digest: "r".to_owned(),
        principal_digest: "p".to_owned(),
    }
}

fn execution() -> ToolExecution {
    ToolExecution {
        key: "k".to_owned(),
        session_id: "s".to_owned(),
        tool: "db_write".to_owned(),
        request_digest: "r".to_owned(),
        principal_digest: String::new(),
    }
}

#[test]
fn stored_answers_are_read_back() {
    let outcome = ToolOutcome::record(201, b"{\"ok\":true}\xff");
    assert_eq!(outcome.body_hex, hex::encode(b"{\"ok\":true}\xff"));
    assert_eq!(outcome.read("decode: ").unwrap(), (201, b"{\"ok\":true}\xff".to_vec()));
    assert_eq!(outcome.into_response().unwrap().0, 201);
    let torn = ToolOutcome { status: 200, body_hex: "0g".to_owned() };
    assert_eq!(torn.read("decode: ").unwrap_err(), format!("decode: {}", hex::decode("0g").unwrap_err()));
}

#[test]
fn a_completed_call_is_written_down() {
    let record = completion_record("k", 200, b"caf\xc3\xa9 \xff", "sha".to_owned());
    assert!(matches!(
        &record.payload,
        Payload::ToolCompleted { execution_key, status: 200, response_sha256 } if execution_key == "k" && response_sha256 == "sha"
    ));
    assert!(matches!(record.atif.unwrap().message, Json::Text(t) if t == "caf\u{e9} \u{fffd}"));
    assert!(record.stop_reason.is_none());
    assert!(completion_record("k", 500, b"", "sha".to_owned()).stop_reason.is_some());
}

#[test]
fn a_call_must_name_its_session_and_itself() {
    let with = Headers { fields: vec![(SESSION_HEADER.to_owned(), b"s".to_vec())] };
    let without = Headers { fields: vec![] };
    let head = |id: Option<&str>| Ok(ToolCallHead { tool: "db_write".to_owned(), id: id.map(|id| RpcId::of(serde_json::Value::from(id))) });
    let request = tool_request(&with, Ok("s".to_owned()), head(Some("1"))).unwrap();
    assert_eq!((request.session_id.as_str(), request.tool.as_str()), ("s", "db_write"));
    assert!(matches!(tool_request(&without, Ok("s".to_owned()), head(Some("1"))), Err(PipelineError::BadRequest(_))));
    assert!(matches!(tool_request(&with, Ok("s".to_owned()), head(None)), Err(PipelineError::BadRequest(_))));
    assert!(matches!(tool_request(&with, Ok("s".to_owned()), Err("not JSON".to_owned())), Err(PipelineError::BadRequest(_))));
    let one = tool_request(&with, Ok("s".to_owned()), head(Some("1"))).unwrap();
    let two = tool_request(&with, Ok("s".to_owned()), head(Some("2"))).unwrap();
    assert_ne!(one.key_material, two.key_material);
    assert_eq!(one.key_material, r#"s:"1""#);
    let numbered = |id: serde_json::Value| {
        let head = ToolCallHead { tool: "db_write".to_owned(), id: Some(RpcId::of(id)) };
        tool_request(&with, Ok("s".to_owned()), Ok(head)).unwrap().key_material
    };
    assert_eq!(numbered(serde_json::Value::from(1)), "s:1", "a number and its text are two ids");
    assert_eq!(numbered(serde_json::from_str(r#"{ "b": 1.50, "a": null }"#).unwrap()), r#"s:{"a":null,"b":1.5}"#);
    assert_eq!(key_material("s", "1"), "s:1");
}

#[test]
fn executions_are_told_by_their_files() {
    let mut wanted = execution();
    wanted.bind_principal(Ok("p".to_owned())).unwrap();
    assert!(wanted.intent().same(&intent("k")));
    let state = wanted.load(IntentOnDisk::Absent, OutcomeOnDisk::Absent, AuditOnDisk::Absent);
    assert!(matches!(state, Ok(ToolExecutionState::Missing)));
    let state = wanted.load(IntentOnDisk::Opened(intent("k")), OutcomeOnDisk::Absent, AuditOnDisk::Absent);
    assert!(matches!(state, Ok(ToolExecutionState::Pending)));
    let answer = || OutcomeOnDisk::Opened(ToolOutcome::record(200, b"x"));
    let state = wanted.load(IntentOnDisk::Opened(intent("k")), answer(), AuditOnDisk::Absent);
    assert!(matches!(state, Ok(ToolExecutionState::Unaudited(_))));
    let state = wanted.load(IntentOnDisk::Opened(intent("k")), answer(), AuditOnDisk::Valid);
    assert!(matches!(state, Ok(ToolExecutionState::Completed(_))));
    let state = wanted.load(IntentOnDisk::Opened(intent("other")), answer(), AuditOnDisk::Valid);
    assert_eq!(state.unwrap_err(), TOOL_REQUEST_MISMATCH);
    assert!(wanted.load(IntentOnDisk::Absent, answer(), AuditOnDisk::Absent).is_err());
}

#[test]
fn unresolved_executions_name_their_sessions() {
    let files = |key: &str, session: &str, outcome: bool, audited: bool| {
        let mut found = intent(key);
        found.session_id = session.to_owned();
        ExecutionFiles { key: key.to_owned(), intent: Ok(found), outcome: Ok(outcome), audited: Ok(audited) }
    };
    let all = vec![files("1", "a", true, true), files("2", "b", true, false), files("3", "c", false, false)];
    let open = unresolved_tool_sessions(&all, &vec!["1".to_owned(), "2".to_owned()]).unwrap();
    assert!(!open.contains("a"));
    assert!(open.contains("b"));
    assert!(open.contains("c"));
    assert!(unresolved_tool_sessions(&all, &vec!["9".to_owned()]).is_err());
}

fn allowed() -> ToolVerdict {
    ToolVerdict::Allowed { tool: "db_write".to_owned(), budget_remaining: 1, elapsed_us: 2 }
}

fn to_interception(forwards: bool) -> McpFlow {
    let (mut flow, action) = McpFlow::new(forwards);
    if !forwards {
        assert!(matches!(action, McpAction::Intercept), "{action:?}");
    } else {
        assert!(matches!(action, McpAction::ReadRequest), "{action:?}");
        assert!(matches!(flow.step(McpEvent::Requested(Ok(execution()))), McpAction::Identify(s) if s == "tool:db_write"));
        assert!(matches!(flow.step(McpEvent::Identified(Ok(()))), McpAction::Bind));
        assert!(matches!(flow.step(McpEvent::Bound(Ok("p".to_owned()))), McpAction::Load));
        assert!(matches!(flow.step(McpEvent::Loaded(Ok(ToolExecutionState::Missing))), McpAction::Intercept));
    }
    flow
}

#[test]
fn a_tool_is_called_once_and_audited_before_the_answer() {
    let mut flow = to_interception(true);
    assert!(matches!(flow.step(McpEvent::Intercepted(Ok(allowed()))), McpAction::Lease));
    assert!(matches!(flow.step(McpEvent::Leased(Some(true))), McpAction::Reserve));
    assert!(matches!(flow.step(McpEvent::Reserved(Ok(()))), McpAction::Claim));
    assert!(matches!(flow.step(McpEvent::Claimed(Ok(()))), McpAction::Send));
    assert!(matches!(flow.step(McpEvent::Sent(Ok(200))), McpAction::Read));
    assert!(matches!(flow.step(McpEvent::Read(Ok(b"done".to_vec()))), McpAction::Persist(o) if o.body_hex == hex::encode("done")));
    assert!(matches!(flow.step(McpEvent::Persisted(Ok(()))), McpAction::FindSession));
    assert!(matches!(flow.step(McpEvent::SessionFound(true)), McpAction::Audit { status: 200, body } if body == b"done"));
    assert!(matches!(flow.step(McpEvent::Captured { failed: false }), McpAction::MarkAudited));
    match flow.step(McpEvent::Marked(Ok(()))) {
        McpAction::Answer(answer) => {
            assert_eq!(answer.status(), 200);
            assert!(matches!(answer, McpAnswer::Response { body, .. } if body == b"done"));
        }
        other => panic!("{other:?}"),
    }
    assert!(matches!(flow.step(McpEvent::Claimed(Ok(()))), McpAction::Ignore));
}

#[test]
fn a_lost_race_and_a_pending_call_look_alike() {
    let mut lost = to_interception(true);
    lost.step(McpEvent::Intercepted(Ok(allowed())));
    lost.step(McpEvent::Leased(Some(true)));
    lost.step(McpEvent::Reserved(Ok(())));
    let first = lost.step(McpEvent::Claimed(Err("exists".to_owned())));
    let (mut pending, _) = McpFlow::new(true);
    pending.step(McpEvent::Requested(Ok(execution())));
    pending.step(McpEvent::Identified(Ok(())));
    pending.step(McpEvent::Bound(Ok("p".to_owned())));
    assert!(matches!(pending.step(McpEvent::Loaded(Ok(ToolExecutionState::Pending))), McpAction::Authorize(_)));
    let second = pending.step(McpEvent::Authorized(Some(Ok(()))));
    for action in [first, second] {
        match action {
            McpAction::Answer(McpAnswer::Conflict(m)) => assert_eq!(m, TOOL_OUTCOME_UNCERTAIN),
            other => panic!("{other:?}"),
        }
    }
}

#[test]
fn a_completed_call_is_answered_from_its_file() {
    let (mut flow, _) = McpFlow::new(true);
    flow.step(McpEvent::Requested(Ok(execution())));
    flow.step(McpEvent::Identified(Ok(())));
    flow.step(McpEvent::Bound(Ok("p".to_owned())));
    let stored = ToolExecutionState::Completed(ToolOutcome::record(201, b"old"));
    assert!(matches!(flow.step(McpEvent::Loaded(Ok(stored))), McpAction::Authorize(_)));
    match flow.step(McpEvent::Authorized(Some(Ok(())))) {
        McpAction::Answer(McpAnswer::Response { status, body }) => assert_eq!((status, body), (201, b"old".to_vec())),
        other => panic!("{other:?}"),
    }
}

#[test]
fn without_a_tool_server_the_verdict_is_the_answer() {
    let mut flow = to_interception(false);
    let blocked = ToolVerdict::Blocked {
        tool: "db_write".to_owned(),
        stage: "policy".to_owned(),
        reason: "no".to_owned(),
        response: parse_json(r#"{"error":{"code":-32001}}"#).unwrap(),
        elapsed_us: 7,
    };
    match flow.step(McpEvent::Intercepted(Ok(blocked))) {
        McpAction::Answer(answer) => {
            assert_eq!(answer.status(), 403);
            match answer {
                McpAnswer::Verdict { allowed: false, document } => {
                    assert!(document.same(&parse_json(r#"{"error":{"code":-32001}}"#).unwrap()))
                }
                other => panic!("{other:?}"),
            }
        }
        other => panic!("{other:?}"),
    }
}
