//! The life of a session after its last request: what becomes of it when it
//! is closed, promoted, or found again after a restart.

use ab_harness::artifact::same_artifact;
use ab_harness::audit::EventClass;
use ab_harness::capture::ResponseCapture;
use ab_harness::closing::{CloseAction, CloseEvent, CloseFlow, CloseOutcome, HeldReceipt};
use ab_harness::config::HarnessConfig;
use ab_harness::dashboard::{list_sessions, ListQuery, SessionSnapshot, SessionSummary};
use ab_harness::errors::{FinalizeError, PipelineError};
use ab_harness::headers::{Headers, SESSION_HEADER};
use ab_harness::interception::{
    verdict_document, ParsedCall, ToolAction, ToolEvent, ToolInterception, ToolVerdict,
};
use ab_harness::admission::{uncompressed, SessionFacts};
use ab_harness::json::{as_text, as_unsigned, parse_json, Json};
use ab_harness::pass::{PassAction, PassEvent, RecoveryPass};
use ab_harness::promotion::{MarkerOnDisk, PromoteAction, PromoteEvent, PromoteFlow, TrajectoryOnDisk};
use ab_harness::provider::StopReason;
use ab_harness::publication::EmitFlow;
use ab_harness::receipt::{announcement_document, Subject};
use ab_harness::recovery::{
    ArtifactOnDisk, CandidateOutcome, JournalRecovery, ReceiptOnDisk, RecoveryAction, RecoveryEvent,
};
use ab_harness::relay::{BudgetVerdict, RelayAction, RelayEvent, RelayFlow};
use ab_harness::replay::{JournalRecord, Totals};
use ab_harness::rpc::RpcId;
use ab_harness::scan::{may_retry_promotion, FileScan, ScanAction, ScanEvent, SkipReason, TrajectoryFacts};
use ab_harness::session::{AgentIdentity, Standing, Workflow};
use ab_harness::tool_call::{McpAction, McpAnswer, McpEvent, McpFlow};
use ab_harness::tools::{
    tool_request, AuditOnDisk, IntentOnDisk, OutcomeOnDisk, ToolCallHead, ToolExecution, ToolOutcome,
};

const NOTHING: Totals = Totals {
    tool_calls: 0,
    tool_allowed: 0,
    tool_blocked: 0,
    prompt_tokens: 0,
    completion_tokens: 0,
    cached_tokens: 0,
    cost_usd_micros: 0,
};

fn json(text: &str) -> Json {
    parse_json(text).unwrap()
}

fn agent(uid: &str) -> AgentIdentity {
    AgentIdentity {
        version: "1".to_owned(),
        charter: "test".to_owned(),
        instance_uid: uid.to_owned(),
        ttl_remaining_s: Some(600),
    }
}

/// Four bytes to a token.
fn tokens(text: &str) -> u64 {
    (text.len() as u64).div_ceil(4)
}

/// Takes an action of a close to the standing of its session.
fn stand(standing: &mut Standing, action: CloseAction) -> CloseAction {
    *standing = action.standing(*standing);
    action
}

#[test]
fn unsigned_close_and_promotion_are_strict_and_idempotent() {
    let mut standing = Standing::new();
    let mut close = CloseFlow::new(Workflow::Unsigned, StopReason::SessionClosed);
    let claimed = standing.try_close();
    stand(&mut standing, close.step(CloseEvent::Claimed(claimed)));
    stand(&mut standing, close.step(CloseEvent::Drained { capture_failed: false }));
    let action = stand(&mut standing, close.step(CloseEvent::Found { written: false, has_steps: true }));
    assert!(matches!(action, CloseAction::Write));
    stand(&mut standing, close.step(CloseEvent::Written(Ok(()))));
    match stand(&mut standing, close.step(CloseEvent::Sealed(Ok(())))) {
        CloseAction::CommitAndReport(body) => {
            assert_eq!(as_text(body.get("workflow")).as_deref(), Some("unsigned"))
        }
        other => panic!("{other:?}"),
    }
    stand(&mut standing, close.step(CloseEvent::Reported(Ok(()))));
    let action = stand(&mut standing, close.step(CloseEvent::Cleared(Ok(()))));
    assert!(matches!(action, CloseAction::DropReceiptOutbox), "{action:?}");
    let action = stand(&mut standing, close.step(CloseEvent::ReceiptDropped(Ok(()))));
    assert!(matches!(action, CloseAction::DropCloseOutbox), "{action:?}");
    let action = stand(&mut standing, close.step(CloseEvent::CloseDropped(Ok(()))));
    assert!(matches!(action, CloseAction::Complete(CloseOutcome::Artifact)), "{action:?}");
    assert!(standing.is_closed());

    let mut first = PromoteFlow::new(Workflow::Unsigned, "lifecycle-session".to_owned());
    let action = first.step(PromoteEvent::Looked { closed: standing.is_closed(), has_receipt: false });
    assert!(matches!(action, PromoteAction::Inspect), "{action:?}");
    let seen = PromoteEvent::Inspected { promoted: false, has_receipt: false, has_artifact: true, has_marker: false };
    first.step(seen);
    first.step(PromoteEvent::SealFound(true));
    first.step(PromoteEvent::SealVerified(Ok(())));
    let read = TrajectoryOnDisk { issues: vec![], digest: "d".to_owned(), steps: 1 };
    first.step(PromoteEvent::TrajectoryRead(Ok(read)));
    first.step(PromoteEvent::MarkerRead(MarkerOnDisk::Absent));
    first.step(PromoteEvent::MarkerWritten(Ok(())));
    first.step(PromoteEvent::Claimed(true));
    match first.step(PromoteEvent::ReceiptHeld(HeldReceipt::Absent)) {
        PromoteAction::Issue { subject: Subject::Trajectory { digest, steps: 1, retroactive: true }, .. } => {
            assert_eq!(digest, "d")
        }
        other => panic!("{other:?}"),
    }
    first.step(PromoteEvent::Issued(Ok(())));
    first.step(PromoteEvent::Persisted(Ok(())));
    first.step(PromoteEvent::Announced(Ok(())));
    first.step(PromoteEvent::MarkerRemoved(Ok(())));
    assert!(matches!(first.step(PromoteEvent::OutboxDropped(Ok(()))), PromoteAction::Complete));

    let mut second = PromoteFlow::new(Workflow::Unsigned, "lifecycle-session".to_owned());
    let action = second.step(PromoteEvent::Looked { closed: true, has_receipt: true });
    assert!(matches!(action, PromoteAction::Inspect), "{action:?}");
    let seen = PromoteEvent::Inspected { promoted: true, has_receipt: true, has_artifact: true, has_marker: false };
    let action = second.step(seen);
    assert!(matches!(action, PromoteAction::Complete), "no second receipt: {action:?}");

    let mut strict = PromoteFlow::new(Workflow::Unsigned, "lifecycle-session".to_owned());
    strict.step(PromoteEvent::Looked { closed: true, has_receipt: false });
    let seen = PromoteEvent::Inspected { promoted: false, has_receipt: false, has_artifact: true, has_marker: false };
    strict.step(seen);
    strict.step(PromoteEvent::SealFound(true));
    strict.step(PromoteEvent::SealVerified(Ok(())));
    let read = TrajectoryOnDisk { issues: vec!["steps: empty".to_owned()], digest: "d".to_owned(), steps: 0 };
    let action = strict.step(PromoteEvent::TrajectoryRead(Ok(read)));
    assert!(matches!(action, PromoteAction::Fail { error: FinalizeError::Atif(_), .. }), "{action:?}");
}

fn opened(workflow: Workflow, id: &str, uid: &str) -> JournalRecovery {
    let word = workflow.as_str();
    let sidecar = format!(r#"{{"journal_version":2,"session_id":"{id}","identity":{{}},"workflow":"{word}"}}"#);
    let mut recovery = JournalRecovery::new(workflow);
    assert!(matches!(recovery.step(RecoveryEvent::SidecarRead(Ok(json(&sidecar)))), RecoveryAction::Look));
    assert_eq!(recovery.session_id(), id);
    recovery.step(RecoveryEvent::Looked { active: false });
    recovery.step(RecoveryEvent::IdentityRead(Ok(agent(uid))));
    recovery
}

#[test]
fn recovery_marks_quarantined_unsigned_session_finalized_to_stop_idle_sweep_churn() {
    let mut recovery = opened(Workflow::Unsigned, "quarantined-unsigned", "instance-1");
    let action = recovery.step(RecoveryEvent::JournalRead { lines: Ok(0), quarantined: true });
    let standing = action.standing(None).expect("quarantined session must be inserted");
    assert!(standing.capture_failed);
    assert!(standing.is_closed());
    match action {
        RecoveryAction::InstallFailed(restored) => {
            assert_eq!(restored.agent.instance_uid, "instance-1");
            assert!(restored.sealed && restored.capture_failed && !restored.receipt);
        }
        other => panic!("{other:?}"),
    }
    let action = recovery.step(RecoveryEvent::Ended);
    assert!(matches!(action, RecoveryAction::Finish(CandidateOutcome::Recovered)), "{action:?}");
}

fn lone_record(id: &str, uid: &str) -> JournalRecord {
    JournalRecord {
        session_uid: id.to_owned(),
        identity: agent(uid),
        event_identity: agent(uid),
        sequence: 0,
        has_step: false,
        attempt: None,
        counts: NOTHING,
        stop_reason_id: None,
        stop_reason: None,
    }
}

/// The recovery of a signed session with one record, up to its receipt.
fn signed_to_receipt(id: &str, uid: &str) -> JournalRecovery {
    let mut recovery = opened(Workflow::Signed, id, uid);
    recovery.step(RecoveryEvent::JournalRead { lines: Ok(1), quarantined: false });
    recovery.step(RecoveryEvent::RecordOpened(Ok(lone_record(id, uid))));
    recovery.step(RecoveryEvent::Appended(Ok(())));
    assert!(matches!(recovery.step(RecoveryEvent::Published(Ok(()))), RecoveryAction::ReadReceipt));
    recovery
}

fn chain(head: &str, count: u64) -> Subject {
    Subject::Chain { head: head.to_owned(), count }
}

#[test]
fn recovered_signed_session_rejects_leases_even_when_finalize_errors() {
    let id = "signed-recovery-lease-guard";
    let mut recovery = signed_to_receipt(id, "instance-lease-guard");
    let found = RecoveryEvent::ReceiptRead { head: "h".to_owned(), count: 1, found: ReceiptOnDisk::Absent };
    let action = recovery.step(found);
    let mut standing = action.standing(None).expect("recovered session must be inserted");
    assert!(!standing.may_lease());
    let action = recovery.step(RecoveryEvent::Installed { fresh: true, quarantined: false });
    standing = action.standing(Some(standing)).unwrap();
    let RecoveryAction::Close { stop_reason } = action else { panic!("{action:?}") };
    let mut close = CloseFlow::new(Workflow::Signed, stop_reason);
    let claimed = standing.try_close();
    assert!(claimed);
    stand(&mut standing, close.step(CloseEvent::Claimed(claimed)));
    stand(&mut standing, close.step(CloseEvent::Drained { capture_failed: false }));
    let held = CloseEvent::ReceiptHeld { head: "h".to_owned(), count: 1, held: HeldReceipt::Absent };
    let action = stand(&mut standing, close.step(held));
    assert!(matches!(action, CloseAction::Issue { subject, .. } if subject.same(&chain("h", 1))));
    stand(&mut standing, close.step(CloseEvent::Issued(Ok(()))));
    let failed = CloseEvent::Persisted(Err(FinalizeError::Receipt("not a directory".to_owned())));
    assert!(matches!(stand(&mut standing, close.step(failed)), CloseAction::Fail { seal: false, .. }));
    assert!(!standing.may_lease(), "a failed close must not open the recovered session to requests");
    let action = recovery.step(RecoveryEvent::Closed(Err(FinalizeError::Receipt("not a directory".to_owned()))));
    assert!(matches!(action, RecoveryAction::Fail(FinalizeError::Receipt(m)) if m == "not a directory"));
    assert!(!standing.may_lease());
}

fn facts(id: &str) -> TrajectoryFacts {
    TrajectoryFacts {
        conformant: true,
        session_id: Some(id.to_owned()),
        version: "1".to_owned(),
        extra: None,
        charter: None,
        metrics: None,
    }
}

fn scan_to_look(id: &str) -> FileScan {
    let mut scan = FileScan::new("spool/a.json".to_owned());
    scan.step(ScanEvent::Sized(Ok(10)));
    scan.step(ScanEvent::Read(Ok(())));
    scan.step(ScanEvent::Parsed(Ok(facts(id))));
    scan.step(ScanEvent::SealFound(true));
    assert!(matches!(scan.step(ScanEvent::SealVerified(Ok(()))), ScanAction::Look(found) if found == id));
    scan
}

#[test]
fn recovery_does_not_clobber_a_live_session_with_the_same_id() {
    let mut scan = scan_to_look("lifecycle-session");
    let action = scan.step(ScanEvent::Looked { active: true });
    assert!(matches!(action, ScanAction::Skip(SkipReason::Active)), "{action:?}");
    assert!(matches!(scan.step(ScanEvent::Restored(Ok(true))), ScanAction::Ignore));
    let sidecar = r#"{"journal_version":2,"session_id":"lifecycle-session","identity":{},"workflow":"unsigned"}"#;
    let mut recovery = JournalRecovery::new(Workflow::Unsigned);
    recovery.step(RecoveryEvent::SidecarRead(Ok(json(sidecar))));
    let action = recovery.step(RecoveryEvent::Looked { active: true });
    assert_eq!(action.standing(Some(Standing::new())), Some(Standing::new()));
    assert!(matches!(action, RecoveryAction::Finish(CandidateOutcome::Skipped)), "{action:?}");
}

#[test]
fn promotion_retry_does_not_force_close_a_live_session() {
    let mut live = Standing::new();
    assert!(!may_retry_promotion(Some(live.is_closed())), "an open session is left alone");
    assert!(live.may_lease());
    assert!(!may_retry_promotion(None), "an unknown session is left alone");
    live.try_close();
    assert!(may_retry_promotion(Some(live.is_closed())));
}

#[test]
fn tool_arguments_without_usage_are_budgeted_before_delivery() {
    let arguments = "x".repeat(4_096);
    let event = format!(
        "data: {{\"choices\":[{{\"delta\":{{\"tool_calls\":[{{\"index\":0,\"function\":{{\"name\":\"read\",\"arguments\":\"{arguments}\"}}}}]}}}}]}}\n\n"
    );
    let payload = r#"{"messages":[{"content":"hello","role":"user"}],"model":"tool-no-usage","stream":true}"#;
    let cap = tokens(payload);
    let mut capture = ResponseCapture::new(200, true);
    let mut flow = RelayFlow::new(true);
    flow.step(RelayEvent::Poll);
    let charge = capture.absorb_network_chunk(event.as_bytes(), &tokens);
    match flow.step(RelayEvent::Chunk { bytes: event.clone().into_bytes(), charge }) {
        RelayAction::CheckBudget(charged) => assert!(charged >= tokens(&arguments), "{charged}"),
        other => panic!("delivered without asking the budget: {other:?}"),
    }
    let refused = BudgetVerdict::Refused { limit: "max_tokens".to_owned(), cap };
    assert!(matches!(flow.step(RelayEvent::Verdict(refused)), RelayAction::Submit(Some(_))));
    assert!(matches!(flow.step(RelayEvent::Submitted(Ok(()))), RelayAction::Fail { quota: true, .. }));
    assert!(matches!(flow.step(RelayEvent::Poll), RelayAction::Finish));
}

#[test]
fn unsigned_consequential_veto_does_not_spend_budget() {
    let config = HarnessConfig::for_tests("http://127.0.0.1:9", "/tmp", "/tmp");
    let headers = Headers { fields: vec![(SESSION_HEADER.to_owned(), b"unsigned-consequential".to_vec())] };
    let call = ParsedCall {
        tool: "db_write".to_owned(),
        arguments: json("{}"),
        rpc_id: Some(RpcId::of(serde_json::Value::from(1))),
    };
    let raw = r#"{"jsonrpc":"2.0","id":1,"method":"tools/call","params":{"name":"db_write","arguments":{}}}"#;
    let id = "unsigned-consequential".to_owned();
    let mut flow =
        ToolInterception::begin(&headers, Ok(id), &config, Some(call), raw.to_owned(), "fresh".to_owned()).unwrap();
    assert_eq!(flow.workflow(), Workflow::Unsigned);
    let mut charged = 0;
    let mut action = flow.step(ToolEvent::Identified(Ok(agent("a"))));
    loop {
        let event = match action {
            ToolAction::Open => ToolEvent::Opened(SessionFacts {
                bound: Workflow::Unsigned,
                owner: agent("a"),
                closed: false,
                capture_failed: false,
                breaker: None,
            }),
            ToolAction::Reserve(_) => ToolEvent::Reserved(Ok(())),
            ToolAction::MakeError { .. } => ToolEvent::ErrorMade(json(r#"{"error":{}}"#)),
            ToolAction::Check => {
                charged += 1;
                ToolEvent::Checked(ToolVerdict::Allowed {
                    tool: "db_write".to_owned(),
                    budget_remaining: 4,
                    elapsed_us: 1,
                })
            }
            ToolAction::Decide { record, verdict: ToolVerdict::Blocked { stage, .. } } => {
                assert_eq!(stage, "policy");
                assert_eq!(record.class, EventClass::ToolCall);
                break;
            }
            other => panic!("{other:?}"),
        };
        action = flow.step(event);
    }
    assert_eq!(charged, 0);
}

/// What a tool server and the disk hold between calls.
struct ToolWorld {
    calls: u32,
    judged: u32,
    intent: Option<ToolExecution>,
    outcome: Option<(u16, String)>,
    audited: bool,
}

fn tool_call(world: &mut ToolWorld, body: &str) -> (u16, Vec<u8>) {
    let headers = Headers { fields: vec![(SESSION_HEADER.to_owned(), b"tool-once".to_vec())] };
    let (mut flow, mut action) = McpFlow::new(true);
    loop {
        let event = match action {
            McpAction::ReadRequest => {
                let head = ToolCallHead { tool: "read".to_owned(), id: Some(RpcId::of(serde_json::Value::from("once"))) };
                let request = tool_request(&headers, Ok("tool-once".to_owned()), Ok(head)).unwrap();
                let key = request.key_material.clone();
                McpEvent::Requested(ToolExecution::from_request(request, key, Ok(body.to_owned())))
            }
            McpAction::Identify(scope) => {
                assert_eq!(scope, "tool:read");
                McpEvent::Identified(Ok(()))
            }
            McpAction::Bind => McpEvent::Bound(Ok("principal".to_owned())),
            McpAction::Load => {
                let intent = match &world.intent {
                    Some(execution) => IntentOnDisk::Opened(execution.intent()),
                    None => IntentOnDisk::Absent,
                };
                let outcome = match &world.outcome {
                    Some((status, body_hex)) => {
                        OutcomeOnDisk::Opened(ToolOutcome { status: *status, body_hex: body_hex.clone() })
                    }
                    None => OutcomeOnDisk::Absent,
                };
                let audit = if world.audited { AuditOnDisk::Valid } else { AuditOnDisk::Absent };
                McpEvent::Loaded(flow.execution().unwrap().load(intent, outcome, audit))
            }
            McpAction::Authorize(_) => McpEvent::Authorized(Some(Ok(()))),
            McpAction::Intercept => {
                world.judged += 1;
                McpEvent::Intercepted(Ok(ToolVerdict::Allowed {
                    tool: "read".to_owned(),
                    budget_remaining: u64::MAX,
                    elapsed_us: 1,
                }))
            }
            McpAction::Lease => McpEvent::Leased(Some(true)),
            McpAction::Reserve => McpEvent::Reserved(Ok(())),
            McpAction::Claim => {
                let held = flow.execution().unwrap().intent();
                world.intent = Some(ToolExecution {
                    key: held.execution_key,
                    session_id: held.session_id,
                    tool: held.tool,
                    request_digest: held.request_digest,
                    principal_digest: held.principal_digest,
                });
                McpEvent::Claimed(Ok(()))
            }
            McpAction::Send => {
                world.calls += 1;
                McpEvent::Sent(Ok(200))
            }
            McpAction::Read => McpEvent::Read(Ok(body.as_bytes().to_vec())),
            McpAction::Persist(outcome) => {
                world.outcome = Some((outcome.status, outcome.body_hex));
                McpEvent::Persisted(Ok(()))
            }
            McpAction::FindSession => McpEvent::SessionFound(true),
            McpAction::Audit { .. } => McpEvent::Captured { failed: false },
            McpAction::MarkAudited => {
                world.audited = true;
                McpEvent::Marked(Ok(()))
            }
            McpAction::Answer(answer) => {
                let status = answer.status();
                return match answer {
                    McpAnswer::Response { body, .. } => (status, body),
                    _ => (status, vec![]),
                };
            }
            McpAction::Ignore => panic!("out of step"),
        };
        action = flow.step(event);
    }
}

#[test]
fn duplicate_tool_id_replays_outcome_without_reexecution() {
    let body = r#"{"jsonrpc":"2.0","id":"once","method":"tools/call","params":{"name":"read","arguments":{"id":7}}}"#;
    let mut world = ToolWorld { calls: 0, judged: 0, intent: None, outcome: None, audited: false };
    for _ in 0..2 {
        assert_eq!(tool_call(&mut world, body), (200, body.as_bytes().to_vec()));
    }
    assert_eq!((world.calls, world.judged), (1, 1));
    world.audited = false;
    assert_eq!(tool_call(&mut world, body).0, 200);
    assert_eq!((world.calls, world.judged), (1, 1), "an unaudited outcome must not spend tool budget again");
    assert!(world.audited);
    let changed = r#"{"jsonrpc":"2.0","id":"once","method":"tools/call","params":{"name":"read","arguments":{"id":8}}}"#;
    assert_eq!(tool_call(&mut world, changed).0, 409);
    assert_eq!(world.calls, 1);
}

#[test]
fn list_endpoint_filters_by_status() {
    let sessions = || {
        let snapshot = SessionSnapshot {
            id: "sess-open".to_owned(),
            workflow: Workflow::Unsigned,
            last_activity_ms: 1,
            is_closed: false,
            closing: false,
            artifact_committed: false,
            close_complete: false,
            capture_failed: false,
            active_streams: 0,
            pending_jobs: 0,
            stop_reason_id: 0,
            totals: NOTHING,
            identity: agent("a"),
            has_receipt: false,
        };
        vec![SessionSummary::from_session(snapshot, "none".to_owned())]
    };
    let listed = |status: &str| {
        let query = ListQuery { limit: None, status: Some(status.to_owned()), workflow: None };
        list_sessions(sessions(), &query).sessions.len()
    };
    assert_eq!(listed("all"), 1);
    assert_eq!(listed("closed"), 0);
    assert_eq!(listed("open"), 1);
}

#[test]
fn a_receipt_for_another_journal_is_not_taken_over() {
    let mut recovery = signed_to_receipt("s", "a");
    let found = ReceiptOnDisk::Valid { subject: chain("other", 1) };
    let action = recovery.step(RecoveryEvent::ReceiptRead { head: "h".to_owned(), count: 1, found });
    match action {
        RecoveryAction::Fail(FinalizeError::Receipt(m)) => {
            assert_eq!(m, "persisted receipt does not attest the recovered signed journal")
        }
        other => panic!("{other:?}"),
    }
    let mut recovery = signed_to_receipt("s", "a");
    let found = ReceiptOnDisk::Valid { subject: chain("h", 1) };
    let action = recovery.step(RecoveryEvent::ReceiptRead { head: "h".to_owned(), count: 1, found });
    assert!(matches!(action, RecoveryAction::Install(restored) if restored.receipt && restored.sealed));
}

#[test]
fn a_receipt_of_any_subject_goes_with_a_trajectory() {
    let mut scan = scan_to_look("s");
    scan.step(ScanEvent::Looked { active: false });
    scan.step(ScanEvent::Restored(Ok(true)));
    let found = ReceiptOnDisk::Valid { subject: chain("of something else", 1) };
    let action = scan.step(ScanEvent::ReceiptRead { found, promoting: false });
    assert!(matches!(action, ScanAction::Recovered { receipt: true, pending: false }), "{action:?}");
    let mut broken = scan_to_look("s");
    broken.step(ScanEvent::Looked { active: false });
    broken.step(ScanEvent::Restored(Ok(true)));
    let found = ReceiptOnDisk::Unreadable("io".to_owned());
    let action = broken.step(ScanEvent::ReceiptRead { found, promoting: false });
    assert!(matches!(action, ScanAction::Abort(FinalizeError::Receipt(m)) if m == "existing receipt unreadable: io"));
}

#[test]
fn subjects_are_compared_by_what_they_attest() {
    let trajectory = |digest: &str, steps: u64, retroactive: bool| Subject::Trajectory {
        digest: digest.to_owned(),
        steps,
        retroactive,
    };
    assert!(chain("h", 1).same(&chain("h", 1)));
    assert!(!chain("h", 1).same(&chain("h", 2)) && !chain("h", 1).same(&chain("g", 1)));
    assert!(trajectory("d", 1, true).same(&trajectory("d", 1, true)));
    assert!(!trajectory("d", 1, true).same(&trajectory("d", 1, false)));
    assert!(!trajectory("d", 1, true).same(&trajectory("d", 2, true)));
    assert!(!trajectory("d", 1, true).same(&chain("d", 1)));
    let body = announcement_document("r-1", "k-1", json(r#"{"kind":"event_chain"}"#), json(r#"{"body":{}}"#));
    let expected = r#"{"key_id":"k-1","receipt":{"body":{}},"receipt_id":"r-1","subject":{"kind":"event_chain"}}"#;
    assert!(body.same(&json(expected)));
    assert!(!body.same(&json("{}")));
}

#[test]
fn a_trajectory_is_compared_without_its_id() {
    let found = json(r#"{"session_id":"s","steps":[1],"trajectory_id":"old"}"#);
    assert!(same_artifact(&found, &json(r#"{"session_id":"s","steps":[1],"trajectory_id":"new"}"#)));
    assert!(same_artifact(&found, &json(r#"{"session_id":"s","steps":[1]}"#)));
    assert!(!same_artifact(&found, &json(r#"{"session_id":"s","steps":[2],"trajectory_id":"old"}"#)));
    let mut recovery = opened(Workflow::Unsigned, "s", "a");
    recovery.step(RecoveryEvent::JournalRead { lines: Ok(1), quarantined: false });
    let mut step = lone_record("s", "a");
    step.has_step = true;
    recovery.step(RecoveryEvent::RecordOpened(Ok(step)));
    recovery.step(RecoveryEvent::Published(Ok(())));
    assert!(matches!(recovery.step(RecoveryEvent::Appended(Ok(()))), RecoveryAction::ReadArtifact));
    let artifact = ArtifactOnDisk::Found { document: json(r#"{"steps":[]}"#), rebuilt: found };
    let action = recovery.step(RecoveryEvent::ArtifactRead(artifact));
    assert!(matches!(action, RecoveryAction::Fail(FinalizeError::Atif(_))), "{action:?}");
}

#[test]
fn a_pass_goes_on_after_a_bad_journal() {
    let (mut pass, action) = RecoveryPass::new();
    assert!(matches!(action, PassAction::NoteIncomplete));
    assert!(matches!(pass.step(PassEvent::Noted(Ok(()))), PassAction::ReplayOutboxes));
    assert!(matches!(pass.step(PassEvent::Replayed(Ok(()))), PassAction::List));
    assert!(matches!(pass.step(PassEvent::Listed(Ok(true))), PassAction::NextCandidate(Workflow::Signed)));
    let bad = PassEvent::Candidate(Err(FinalizeError::Atif("torn".to_owned())));
    assert!(matches!(pass.step(bad), PassAction::SkipCandidate(Workflow::Signed)));
    let good = || PassEvent::Candidate(Ok(CandidateOutcome::Recovered));
    assert!(matches!(pass.step(good()), PassAction::NextCandidate(Workflow::Signed)));
    assert_eq!(pass.recovered(), 1);
    assert!(matches!(pass.step(PassEvent::Exhausted), PassAction::List));
    assert!(matches!(pass.step(PassEvent::Listed(Ok(true))), PassAction::NextCandidate(Workflow::Unsigned)));
    pass.step(good());
    assert_eq!(pass.recovered(), 1, "an unsigned journal counts once its trajectory is scanned");
    pass.step(PassEvent::Exhausted);
    assert!(matches!(pass.step(PassEvent::Listed(Ok(true))), PassAction::NextFile));
    assert!(matches!(pass.step(PassEvent::Scanned(Ok(false))), PassAction::NextFile));
    assert!(matches!(pass.step(PassEvent::Scanned(Ok(true))), PassAction::NextFile));
    assert!(matches!(pass.step(PassEvent::Exhausted), PassAction::RemoveSettledOutboxes));
    assert!(matches!(pass.step(PassEvent::Tidied(Ok(()))), PassAction::Complete(2)));
    let (mut failing, _) = RecoveryPass::new();
    failing.step(PassEvent::Noted(Ok(())));
    let action = failing.step(PassEvent::Replayed(Err(FinalizeError::Bridge("down".to_owned()))));
    assert!(matches!(action, PassAction::Fail(FinalizeError::Bridge(m)) if m == "down"));
}

#[test]
fn a_request_is_left_alone_where_compression_is_off() {
    let sent = uncompressed(json(r#"{"messages":[]}"#), 11, "try".to_owned());
    assert!(!sent.changed && sent.payload.same(&json(r#"{"messages":[]}"#)));
    assert_eq!((sent.tokens_before, sent.tokens_after), (11, 11));
    assert_eq!((sent.pruned_tokens, sent.pruning_ratio_millis), (0, 0));
    assert_eq!(sent.attempt, "try");
}

#[test]
fn refusals_say_what_would_help() {
    let unavailable = PipelineError::Unavailable("full".to_owned());
    let unauthorized = PipelineError::Unauthorized("who".to_owned());
    let blocked = PipelineError::Blocked("no".to_owned());
    assert!(unavailable.retry_after() && !unavailable.asks_for_credentials());
    assert!(!unauthorized.retry_after() && unauthorized.asks_for_credentials());
    assert!(!blocked.retry_after() && !blocked.asks_for_credentials());
}

#[test]
fn without_a_broker_nothing_is_announced() {
    assert!(EmitFlow::begin("s".to_owned(), "close".to_owned(), 0, false).is_none());
    assert!(EmitFlow::begin("s".to_owned(), "close".to_owned(), 0, true).is_some());
}

#[test]
fn a_verdict_is_told_to_the_client() {
    let allowed = ToolVerdict::Allowed { tool: "read".to_owned(), budget_remaining: 3, elapsed_us: 9 };
    let document = verdict_document(&allowed);
    assert!(matches!(document.get("allowed"), Some(Json::Bool(true))));
    assert_eq!(as_unsigned(document.get("budget_remaining")), Some(3));
    assert_eq!(as_unsigned(document.get("decision_us")), Some(9));
    assert_eq!(as_text(document.get("tool")).as_deref(), Some("read"));
    let blocked = ToolVerdict::Blocked {
        tool: "read".to_owned(),
        stage: "schema".to_owned(),
        reason: "no".to_owned(),
        response: json(r#"{"error":{"code":-32602}}"#),
        elapsed_us: 9,
    };
    assert!(verdict_document(&blocked).same(&json(r#"{"error":{"code":-32602}}"#)));
}
