//! Failures and restarts: what a crash, a bad file or an unreachable peer
//! leaves behind, and what the next run makes of it.

use ab_harness::admission::{
    check_before_dispatch, choose_credential, client_authorization, dispatch_record, forward_failure, uncompressed,
    BreakerAction, SessionFacts, UpstreamCredential,
};
use ab_harness::artifact::{agent_document, metrics_document};
use ab_harness::audit::StatusId;
use ab_harness::closing::{CloseAction, CloseEvent, CloseFlow, CloseOutcome, HeldReceipt};
use ab_harness::config::HarnessConfig;
use ab_harness::dashboard::{list_sessions, ListQuery, SessionSnapshot, SessionSummary};
use ab_harness::errors::{FinalizeError, PipelineError};
use ab_harness::headers::{Headers, SESSION_HEADER, WORKFLOW_HEADER};
use ab_harness::interception::{ParsedCall, ToolAction, ToolEvent, ToolInterception, ToolVerdict};
use ab_harness::journal::{lifecycle_outbox_name, may_be_trajectory, sidecar_stem};
use ab_harness::json::{as_unsigned, parse_json, Json};
use ab_harness::pass::{PassAction, PassEvent, RecoveryPass};
use ab_harness::promotion::{MarkerOnDisk, PromoteAction, PromoteEvent, PromoteFlow, TrajectoryOnDisk};
use ab_harness::provider::StopReason;
use ab_harness::publication::{
    check_provenance, judge_outbox, judge_removal, EmitAction, EmitEvent, EmitFlow, OutboxFile, OutboxOnDisk,
    OutboxVerdict, Provenance,
};
use ab_harness::receipt::Subject;
use ab_harness::recovery::{JournalRecovery, ReceiptOnDisk, RecoveryAction, RecoveryEvent};
use ab_harness::relay::{RelayEvent, RelayFlow};
use ab_harness::replay::{track_response_attempt, Totals};
use ab_harness::rpc::RpcId;
use ab_harness::scan::{
    may_retry_promotion, quarantine, FileScan, ScanAction, ScanEvent, SkipReason, TrajectoryFacts,
};
use ab_harness::secrets::{
    read_secret_from, require_owner_only_mode, resolve_tool_auth, resolve_upstream_auth, FileStat, SecretFile,
};
use ab_harness::seed::{encode_seed, read_seed};
use ab_harness::session::{AgentIdentity, Standing, Workflow};
use ab_harness::text_set::TextSet;
use ab_harness::tool_call::{McpAction, McpAnswer, McpEvent, McpFlow};
use ab_harness::tools::{ToolExecution, ToolExecutionState, TOOL_OUTCOME_UNCERTAIN};
use ab_harness::upstream::{chat_url, check_jwks_length, grow_jwks, HttpFault};

const NOTHING: Totals = Totals {
    tool_calls: 0,
    tool_allowed: 0,
    tool_blocked: 0,
    prompt_tokens: 0,
    completion_tokens: 0,
    cached_tokens: 0,
    cost_usd_micros: 0,
};

fn json(text: &str) -> Json {
    parse_json(text).unwrap()
}

fn agent() -> AgentIdentity {
    AgentIdentity {
        version: "1".to_owned(),
        charter: "test".to_owned(),
        instance_uid: "instance-1".to_owned(),
        ttl_remaining_s: Some(600),
    }
}

fn headers(fields: &[(&str, &str)]) -> Headers {
    Headers { fields: fields.iter().map(|(n, v)| (n.to_string(), v.as_bytes().to_vec())).collect() }
}

fn config() -> HarnessConfig {
    HarnessConfig::for_tests("http://127.0.0.1:9", "/tmp", "/tmp")
}

/// Takes a close from one event to the next; the session stands as it says.
fn take(flow: &mut CloseFlow, standing: &mut Standing, event: CloseEvent) -> CloseAction {
    let action = flow.step(event);
    *standing = action.standing(*standing);
    action
}

/// A close that has been claimed and drained.
fn drained(workflow: Workflow, standing: &mut Standing) -> (CloseFlow, CloseAction) {
    let mut flow = CloseFlow::new(workflow, StopReason::SessionClosed);
    let claimed = standing.try_close();
    take(&mut flow, standing, CloseEvent::Claimed(claimed));
    let capture_failed = standing.capture_failed;
    let action = take(&mut flow, standing, CloseEvent::Drained { capture_failed });
    (flow, action)
}

/// A pass that has published what was waiting.
fn begun_pass() -> RecoveryPass {
    let (mut pass, _) = RecoveryPass::new();
    pass.step(PassEvent::Noted(Ok(())));
    pass.step(PassEvent::Replayed(Ok(())));
    pass
}

/// Ends a pass at which journals of the signed workflow are being recovered.
fn end_pass(mut pass: RecoveryPass, scanned: Vec<bool>) -> PassAction {
    pass.step(PassEvent::Exhausted);
    pass.step(PassEvent::Listed(Ok(true)));
    pass.step(PassEvent::Exhausted);
    pass.step(PassEvent::Listed(Ok(true)));
    for restored in scanned {
        pass.step(PassEvent::Scanned(Ok(restored)));
    }
    pass.step(PassEvent::Exhausted);
    pass.step(PassEvent::Tidied(Ok(())))
}

#[test]
fn round_41_f1_corrupt_signed_sidecar_does_not_block_other_signed_recovery() {
    let mut recovery = JournalRecovery::new(Workflow::Signed);
    let action = recovery.step(RecoveryEvent::SidecarRead(Err("journal MAC mismatch".to_owned())));
    assert!(action.standing(None).is_none(), "a poisoned session is never installed");
    let RecoveryAction::Fail(error) = action else { panic!("{action:?}") };
    let mut pass = begun_pass();
    pass.step(PassEvent::Listed(Ok(true)));
    assert!(matches!(pass.step(PassEvent::Candidate(Err(error))), PassAction::SkipCandidate(Workflow::Signed)));
    assert!(matches!(end_pass(pass, vec![]), PassAction::Complete(0)));
    let mut garbage = JournalRecovery::new(Workflow::Signed);
    let document = json(r#"{"garbage": true, "not": "a valid sealed metadata"}"#);
    let action = garbage.step(RecoveryEvent::SidecarRead(Ok(document)));
    assert!(matches!(action, RecoveryAction::SkipUnsupported), "{action:?}");
}

#[test]
fn signed_close_issues_exactly_one_offline_verifiable_receipt() {
    let mut standing = Standing::new();
    let (mut flow, action) = drained(Workflow::Signed, &mut standing);
    assert!(matches!(action, CloseAction::FindReceipt));
    let mut issued = 0;
    let held = CloseEvent::ReceiptHeld { head: "h".to_owned(), count: 3, held: HeldReceipt::Absent };
    if let CloseAction::Issue { subject, stop_reason } = take(&mut flow, &mut standing, held) {
        assert!(subject.same(&Subject::Chain { head: "h".to_owned(), count: 3 }));
        assert_eq!(stop_reason, StopReason::SessionClosed);
        issued += 1;
    }
    take(&mut flow, &mut standing, CloseEvent::Issued(Ok(())));
    take(&mut flow, &mut standing, CloseEvent::Persisted(Ok(())));
    take(&mut flow, &mut standing, CloseEvent::Announced(Ok(())));
    take(&mut flow, &mut standing, CloseEvent::Reported(Ok(())));
    take(&mut flow, &mut standing, CloseEvent::Cleared(Ok(())));
    take(&mut flow, &mut standing, CloseEvent::ReceiptDropped(Ok(())));
    let action = take(&mut flow, &mut standing, CloseEvent::CloseDropped(Ok(())));
    assert!(matches!(action, CloseAction::Complete(CloseOutcome::Receipt)));
    let mut again = CloseFlow::new(Workflow::Signed, StopReason::SessionClosed);
    let claimed = standing.try_close();
    assert!(matches!(take(&mut again, &mut standing, CloseEvent::Claimed(claimed)), CloseAction::AlreadyClosed));
    assert_eq!(issued, 1);
}

fn emit(outbox: OutboxOnDisk) -> (EmitFlow, EmitAction) {
    let mut flow = EmitFlow::begin("lifecycle-session".to_owned(), "receipt".to_owned(), 2, true).unwrap();
    let action = flow.step(EmitEvent::OutboxRead(outbox));
    (flow, action)
}

#[test]
fn lifecycle_outbox_retries_the_same_receipt_event() {
    let mut standing = Standing::new();
    let (mut close, _) = drained(Workflow::Signed, &mut standing);
    let held = CloseEvent::ReceiptHeld { head: "h".to_owned(), count: 1, held: HeldReceipt::Absent };
    take(&mut close, &mut standing, held);
    take(&mut close, &mut standing, CloseEvent::Issued(Ok(())));
    let action = take(&mut close, &mut standing, CloseEvent::Persisted(Ok(())));
    assert!(matches!(action, CloseAction::CommitAndAnnounce));

    let stored = r#"{"metadata":{"uid":"u-1","sequence":2}}"#;
    let (mut first, action) = emit(OutboxOnDisk::Absent);
    assert!(matches!(action, EmitAction::Store { sequence: 2 }));
    let EmitAction::Find { uid: sent, .. } = first.step(EmitEvent::Stored(Ok(json(stored)))) else { panic!() };
    assert!(matches!(first.step(EmitEvent::Found(Ok(false))), EmitAction::Publish));
    let down = || FinalizeError::Bridge("broker down".to_owned());
    assert!(matches!(first.step(EmitEvent::Published(Err(down()))), EmitAction::Fail { .. }));

    let action = take(&mut close, &mut standing, CloseEvent::Announced(Err(down())));
    assert!(matches!(action, CloseAction::Fail { error: FinalizeError::Bridge(_), seal: false }));
    assert!(standing.is_closed());
    assert!(!standing.may_lease(), "artifact commit must keep admission closed");

    let kept = OutboxOnDisk::Opened {
        session_id: "lifecycle-session".to_owned(),
        kind: "receipt".to_owned(),
        value: json(stored),
        acked: false,
    };
    let (mut second, action) = emit(kept);
    let EmitAction::Find { uid: resent, .. } = action else { panic!("{action:?}") };
    assert_eq!(sent, resent);
    assert!(matches!(second.step(EmitEvent::Found(Ok(false))), EmitAction::Publish));
    assert!(matches!(second.step(EmitEvent::Published(Ok(()))), EmitAction::StoreAck));

    let (mut retry, action) = drained(Workflow::Signed, &mut standing);
    assert!(matches!(action, CloseAction::FindReceipt), "{action:?}");
    let subject = Subject::Chain { head: "h".to_owned(), count: 1 };
    let held = CloseEvent::ReceiptHeld { head: "h".to_owned(), count: 1, held: HeldReceipt::Verified { subject } };
    let action = take(&mut retry, &mut standing, held);
    assert!(matches!(action, CloseAction::CommitAndAnnounce), "the receipt that is held is kept: {action:?}");
}

#[test]
fn startup_replays_lifecycle_outbox_without_session_journal() {
    let digest = "0123456789abcdef0123456789abcdef0123456789abcdef0123456789abcdef";
    let name = lifecycle_outbox_name(digest, "receipt");
    let stem = digest[..32].to_owned();
    let file = |acked| OutboxFile::Opened { digest: stem.clone(), kind: "receipt".to_owned(), acked };
    assert_eq!(judge_outbox(&name, &file(false)), OutboxVerdict::Publish);
    assert!(judge_removal(&name, &file(true)).unwrap());
    let mut pass = begun_pass();
    pass.step(PassEvent::Listed(Ok(true)));
    assert!(matches!(end_pass(pass, vec![]), PassAction::Complete(0)));
}

#[test]
fn unsigned_restart_preserves_receipt_accounting_and_identity() {
    let totals = Totals {
        tool_calls: 2,
        tool_allowed: 1,
        tool_blocked: 1,
        prompt_tokens: 17,
        completion_tokens: 9,
        cached_tokens: 3,
        cost_usd_micros: 1_234_567,
    };
    let identity = agent();
    let metrics = Json::Object(vec![
        ("total_prompt_tokens".to_owned(), json("17")),
        ("total_completion_tokens".to_owned(), json("9")),
        ("total_cached_tokens".to_owned(), json("3")),
        ("extra".to_owned(), metrics_document(&totals, Some(6))),
    ]);
    let facts = TrajectoryFacts {
        conformant: true,
        session_id: Some("lifecycle-session".to_owned()),
        version: identity.version.clone(),
        extra: Some(agent_document(Json::Text(identity.charter.clone()), &identity)),
        charter: None,
        metrics: Some(metrics),
    };
    let mut scan = FileScan::new("spool/lifecycle.json".to_owned());
    scan.step(ScanEvent::Sized(Ok(100)));
    scan.step(ScanEvent::Read(Ok(())));
    scan.step(ScanEvent::Parsed(Ok(facts)));
    scan.step(ScanEvent::SealFound(true));
    scan.step(ScanEvent::SealVerified(Ok(())));
    let action = scan.step(ScanEvent::Looked { active: false });
    let ScanAction::Restore { agent, path, metrics: Some(metrics) } = action else { panic!("{action:?}") };
    assert_eq!(agent.ttl_remaining_s, Some(600));
    assert_eq!(path, "spool/lifecycle.json");
    assert_eq!(as_unsigned(metrics.get2("extra", "tool_calls")), Some(2));
    assert_eq!(as_unsigned(metrics.get2("extra", "tool_allowed")), Some(1));
    assert_eq!(as_unsigned(metrics.get2("extra", "tool_blocked")), Some(1));
    assert_eq!(as_unsigned(metrics.get("total_prompt_tokens")), Some(17));
    assert_eq!(as_unsigned(metrics.get("total_completion_tokens")), Some(9));
    assert_eq!(as_unsigned(metrics.get("total_cached_tokens")), Some(3));
    assert_eq!(as_unsigned(metrics.get2("extra", "cost_usd_micros")), Some(1_234_567));
    assert_eq!(as_unsigned(metrics.get2("extra", "stop_reason_id")), Some(6));
}

#[test]
fn incomplete_capture_never_produces_receipt_or_atif() {
    for workflow in [Workflow::Signed, Workflow::Unsigned] {
        let mut standing = Standing::new();
        standing.capture_failed = true;
        let (mut flow, action) = drained(workflow, &mut standing);
        assert!(matches!(action, CloseAction::Fail { error: FinalizeError::CaptureIncomplete, .. }));
        let found = flow.step(CloseEvent::Found { written: false, has_steps: true });
        assert!(matches!(found, CloseAction::Ignore));
        assert!(standing.is_closed());
    }
}

#[test]
fn recovery_tick_does_not_quarantine_live_sessions_with_inflight_markers() {
    let mut known = TextSet::new();
    assert!(!quarantine(&mut known, &vec![("lifecycle-session".to_owned(), true)]));
    assert!(!known.contains("lifecycle-session"));
}

#[test]
fn live_session_with_id_in_quarantine_set_can_still_close() {
    let mut known = TextSet::new();
    known.insert("lifecycle-session".to_owned());
    let mut standing = Standing::new();
    let (mut flow, _) = drained(Workflow::Unsigned, &mut standing);
    take(&mut flow, &mut standing, CloseEvent::Found { written: false, has_steps: true });
    take(&mut flow, &mut standing, CloseEvent::Written(Ok(())));
    take(&mut flow, &mut standing, CloseEvent::Sealed(Ok(())));
    take(&mut flow, &mut standing, CloseEvent::Reported(Ok(())));
    let action = take(&mut flow, &mut standing, CloseEvent::Cleared(Ok(())));
    assert!(matches!(action, CloseAction::DropReceiptOutbox), "{action:?}");
    let action = take(&mut flow, &mut standing, CloseEvent::ReceiptDropped(Ok(())));
    assert!(matches!(action, CloseAction::DropCloseOutbox), "{action:?}");
    let action = take(&mut flow, &mut standing, CloseEvent::CloseDropped(Ok(())));
    assert!(matches!(action, CloseAction::Complete(CloseOutcome::Artifact)), "{action:?}");
    assert!(!standing.capture_failed && known.contains("lifecycle-session"));
}

fn scan_with(verified: Result<(), FinalizeError>, id: &str) -> ScanAction {
    let facts = TrajectoryFacts {
        conformant: true,
        session_id: Some(id.to_owned()),
        version: "1".to_owned(),
        extra: None,
        charter: None,
        metrics: None,
    };
    let mut scan = FileScan::new(format!("spool/{id}.json"));
    scan.step(ScanEvent::Sized(Ok(10)));
    scan.step(ScanEvent::Read(Ok(())));
    scan.step(ScanEvent::Parsed(Ok(facts)));
    scan.step(ScanEvent::SealFound(true));
    scan.step(ScanEvent::SealVerified(verified))
}

#[test]
fn recovery_skips_tampered_artifact_and_still_recovers_the_rest() {
    let seal = |digest: &str| Provenance { session_id: "tampered-session".to_owned(), digest: digest.to_owned() };
    let action = scan_with(check_provenance(&seal("before"), &seal("after")), "tampered-session");
    assert!(matches!(action, ScanAction::Skip(SkipReason::Provenance)), "{action:?}");
    assert_eq!(SkipReason::Provenance.label(), Some("provenance"));
    let action = scan_with(check_provenance(&seal("same"), &seal("same")), "healthy-session");
    assert!(matches!(action, ScanAction::Look(id) if id == "healthy-session"));
    let mut pass = begun_pass();
    pass.step(PassEvent::Listed(Ok(true)));
    assert!(matches!(end_pass(pass, vec![false, true]), PassAction::Complete(1)));
}

#[test]
fn atif_scan_ignores_live_session_journal_metadata() {
    let stem = "0123456789abcdef0123456789abcdef";
    assert!(!may_be_trajectory(&format!("{stem}.session.json")));
    assert!(may_be_trajectory(&format!("{stem}.json")));
    assert_eq!(sidecar_stem(&format!("{stem}.session.json")).as_deref(), Some(stem));
}

#[test]
fn restart_quarantines_inflight_response_without_stopping_recovery() {
    let mut known = TextSet::new();
    assert!(quarantine(&mut known, &vec![("uncertain-session".to_owned(), false)]));
    assert!(known.contains("uncertain-session"));
    let mut pass = begun_pass();
    pass.step(PassEvent::Listed(Ok(true)));
    assert!(matches!(end_pass(pass, vec![]), PassAction::Complete(0)));
}

#[test]
fn restart_recovers_atif_and_retries_marked_promotion() {
    let mut scan = FileScan::new("spool/a.json".to_owned());
    scan.step(ScanEvent::Sized(Ok(10)));
    scan.step(ScanEvent::Read(Ok(())));
    let facts = TrajectoryFacts {
        conformant: true,
        session_id: Some("lifecycle-session".to_owned()),
        version: "1".to_owned(),
        extra: None,
        charter: None,
        metrics: None,
    };
    scan.step(ScanEvent::Parsed(Ok(facts)));
    scan.step(ScanEvent::SealFound(true));
    scan.step(ScanEvent::SealVerified(Ok(())));
    scan.step(ScanEvent::Looked { active: false });
    scan.step(ScanEvent::Restored(Ok(true)));
    let action = scan.step(ScanEvent::ReceiptRead { found: ReceiptOnDisk::Absent, promoting: true });
    assert!(matches!(action, ScanAction::Recovered { receipt: false, pending: false }), "{action:?}");
    assert!(may_retry_promotion(Some(true)));
    let mut promote = PromoteFlow::new(Workflow::Unsigned, "lifecycle-session".to_owned());
    promote.step(PromoteEvent::Looked { closed: true, has_receipt: false });
    let seen = PromoteEvent::Inspected { promoted: false, has_receipt: false, has_artifact: true, has_marker: true };
    promote.step(seen);
    promote.step(PromoteEvent::SealFound(true));
    promote.step(PromoteEvent::SealVerified(Ok(())));
    let read = TrajectoryOnDisk { issues: vec![], digest: "d".to_owned(), steps: 1 };
    promote.step(PromoteEvent::TrajectoryRead(Ok(read)));
    let marker = MarkerOnDisk::Found { session_id: "lifecycle-session".to_owned(), digest: "d".to_owned() };
    assert!(matches!(promote.step(PromoteEvent::MarkerRead(marker)), PromoteAction::Claim));
    promote.step(PromoteEvent::Claimed(true));
    assert!(matches!(promote.step(PromoteEvent::ReceiptHeld(HeldReceipt::Absent)), PromoteAction::Issue { .. }));
    promote.step(PromoteEvent::Issued(Ok(())));
    promote.step(PromoteEvent::Persisted(Ok(())));
    assert!(matches!(promote.step(PromoteEvent::Announced(Ok(()))), PromoteAction::FinishAndUnmark));
    promote.step(PromoteEvent::MarkerRemoved(Ok(())));
    assert!(matches!(promote.step(PromoteEvent::OutboxDropped(Ok(()))), PromoteAction::Complete));
}

#[test]
fn failed_unsigned_persistence_keeps_steps_for_retry() {
    let mut standing = Standing::new();
    let (mut flow, _) = drained(Workflow::Unsigned, &mut standing);
    take(&mut flow, &mut standing, CloseEvent::Found { written: false, has_steps: true });
    let failed = CloseEvent::Written(Err(FinalizeError::Atif("not a directory".to_owned())));
    assert!(matches!(take(&mut flow, &mut standing, failed), CloseAction::Fail { seal: false, .. }));
    assert!(!standing.is_closed());
    let (mut again, action) = drained(Workflow::Unsigned, &mut standing);
    assert!(matches!(action, CloseAction::FindArtifact));
    let action = take(&mut again, &mut standing, CloseEvent::Found { written: false, has_steps: true });
    assert!(matches!(action, CloseAction::Write));
}

fn to_claim() -> McpFlow {
    let (mut flow, _) = McpFlow::new(true);
    let execution = ToolExecution {
        key: "k".to_owned(),
        session_id: "s".to_owned(),
        tool: "read".to_owned(),
        request_digest: "r".to_owned(),
        principal_digest: String::new(),
    };
    flow.step(McpEvent::Requested(Ok(execution)));
    flow.step(McpEvent::Identified(Ok(())));
    flow.step(McpEvent::Bound(Ok("p".to_owned())));
    flow.step(McpEvent::Loaded(Ok(ToolExecutionState::Missing)));
    let allowed = ToolVerdict::Allowed { tool: "read".to_owned(), budget_remaining: 1, elapsed_us: 1 };
    flow.step(McpEvent::Intercepted(Ok(allowed)));
    flow.step(McpEvent::Leased(Some(true)));
    assert!(matches!(flow.step(McpEvent::Reserved(Ok(()))), McpAction::Claim));
    flow
}

#[test]
fn tool_redirect_is_terminal_and_never_replays_post() {
    let mut flow = to_claim();
    assert!(matches!(flow.step(McpEvent::Claimed(Ok(()))), McpAction::Send));
    assert!(matches!(flow.step(McpEvent::Sent(Ok(307))), McpAction::Read));
    assert!(matches!(flow.step(McpEvent::Read(Ok(vec![]))), McpAction::Persist(o) if o.status == 307));
    flow.step(McpEvent::Persisted(Ok(())));
    flow.step(McpEvent::SessionFound(true));
    flow.step(McpEvent::Captured { failed: false });
    match flow.step(McpEvent::Marked(Ok(()))) {
        McpAction::Answer(answer) => assert_eq!(answer.status(), 307),
        other => panic!("{other:?}"),
    }
    assert!(matches!(flow.step(McpEvent::Claimed(Ok(()))), McpAction::Ignore));
}

#[test]
fn concurrent_duplicate_tool_claims_conflict_without_leaking_io_detail() {
    let mut loser = to_claim();
    match loser.step(McpEvent::Claimed(Err("File exists (os error 17)".to_owned()))) {
        McpAction::Answer(answer) => {
            assert_eq!(answer.status(), 409);
            let McpAnswer::Conflict(text) = answer else { panic!() };
            assert!(text.contains(TOOL_OUTCOME_UNCERTAIN), "{text}");
            assert!(!text.contains("os error"), "leaked io detail: {text}");
        }
        other => panic!("{other:?}"),
    }
}

const UNREACHABLE: HttpFault = HttpFault {
    is_timeout: false,
    is_connect: true,
    is_request: true,
    is_body: false,
    is_decode: false,
    is_status: false,
};

#[test]
fn mcp_tool_upstream_failure_does_not_leak_configured_url() {
    let mut flow = to_claim();
    flow.step(McpEvent::Claimed(Ok(())));
    match flow.step(McpEvent::Sent(Err(UNREACHABLE))) {
        McpAction::Answer(answer) => {
            assert_eq!(answer.status(), 502);
            let McpAnswer::Refusal(error) = answer else { panic!() };
            assert_eq!(error.message(), "upstream request failed: forward tool call: upstream unreachable");
        }
        other => panic!("{other:?}"),
    }
}

#[test]
fn upstream_failure_message_does_not_leak_configured_url() {
    let detail = "error sending request for url (http://internal-sentinel-host.corp.example:65001/)";
    let (error, _) =
        forward_failure(Workflow::Signed, UNREACHABLE, detail.to_owned(), true, None, "t".to_owned());
    let message = error.message();
    assert!(!message.contains("internal-sentinel-host"), "{message}");
    assert!(!message.contains("65001"), "{message}");
    assert!(!message.contains("corp.example"), "{message}");
}

#[test]
fn upstream_failure_is_added_to_signed_chain() {
    let (error, record) =
        forward_failure(Workflow::Signed, UNREACHABLE, "refused".to_owned(), true, None, "t".to_owned());
    assert!(matches!(error, PipelineError::Upstream(_)));
    assert_eq!(record.status, StatusId::Failure);
    assert!(record.response_attempt.is_some_and(|attempt| attempt.terminal && attempt.id == "t"));
}

fn tool_flow(fields: &[(&str, &str)], id: &str) -> ToolInterception {
    let call = ParsedCall {
        tool: "safe_tool".to_owned(),
        arguments: json("{}"),
        rpc_id: Some(RpcId::of(serde_json::Value::from(1))),
    };
    ToolInterception::begin(
        &headers(fields),
        Ok(id.to_owned()),
        &config(),
        Some(call),
        "raw".to_owned(),
        "fresh".to_owned(),
    )
    .unwrap()
}

fn opened(workflow: Workflow) -> ToolEvent {
    ToolEvent::Opened(SessionFacts {
        bound: workflow,
        owner: agent(),
        closed: false,
        capture_failed: false,
        breaker: None,
    })
}

#[test]
fn intercept_tool_refreshes_session_activity() {
    let fields = [(SESSION_HEADER, "tool-only-session"), (WORKFLOW_HEADER, "signed")];
    for _ in 0..2 {
        let mut flow = tool_flow(&fields, "tool-only-session");
        flow.step(ToolEvent::Identified(Ok(agent())));
        match flow.step(opened(Workflow::Signed)) {
            ToolAction::Reserve(effects) => assert!(effects.touch),
            other => panic!("{other:?}"),
        }
    }
}

#[test]
fn intercept_tool_durable_works_without_a_session_header() {
    let mut flow = tool_flow(&[], "drawn-for-the-request");
    assert_eq!(flow.session_id(), "drawn-for-the-request");
    flow.step(ToolEvent::Identified(Ok(agent())));
    flow.step(opened(flow.workflow()));
    assert!(matches!(flow.step(ToolEvent::Reserved(Ok(()))), ToolAction::Check));
    let allowed = ToolVerdict::Allowed { tool: "safe_tool".to_owned(), budget_remaining: 1, elapsed_us: 1 };
    let action = flow.step(ToolEvent::Checked(allowed));
    assert!(matches!(action, ToolAction::Decide { verdict: ToolVerdict::Allowed { .. }, .. }));
}

#[test]
fn durable_breaker_refusal_journals_a_terminal_response_attempt() {
    let mut pending = TextSet::new();
    let payload = json(
        r#"{"model":"test","messages":[{"role":"assistant","content":"I should check the database again for pending orders"}]}"#,
    );
    let sent = uncompressed(payload, 12, "refused".to_owned());
    track_response_attempt(&mut pending, &dispatch_record(&sent).unwrap().response_attempt).unwrap();
    assert!(pending.contains("refused"));
    let stopped = check_before_dispatch(false, Some(BreakerAction::Reject), Workflow::Signed, "refused".to_owned());
    let (error, record) = stopped.expect("the breaker must refuse during the audit wait");
    assert!(matches!(error, PipelineError::Blocked(_)));
    track_response_attempt(&mut pending, &record.response_attempt).unwrap();
    assert!(pending.is_empty());
}

#[test]
fn stream_drop_during_concurrent_close_still_captures_response() {
    let mut flow = RelayFlow::new(true);
    flow.step(RelayEvent::Poll);
    let plan = flow.abandon(true, false, &Ok(0));
    assert!(plan.submit_capture && !plan.mark_capture_failed && !plan.close_session);
}

fn owner_only(content: &str) -> Option<SecretFile> {
    Some(SecretFile {
        path: "upstream.key".to_owned(),
        stat: Ok(FileStat { is_symlink: false, is_file: true, mode: 0o100600, kind: "file".to_owned() }),
        content: Ok(content.to_owned()),
    })
}

#[test]
fn upstream_auth_header_reaches_provider_wire() {
    let key = || {
        read_secret_from(|_: &str| None, None, &owner_only("sk-wire-test\n"), "upstream API key").unwrap()
    };
    let sent = |config: &HarnessConfig, fields: &[(&str, &str)], key: Option<String>| {
        let client = client_authorization(&headers(fields), config).unwrap();
        choose_credential(resolve_upstream_auth(config, key).unwrap(), client)
    };
    match sent(&config(), &[], key()) {
        UpstreamCredential::Own { name, value } => {
            assert!(name.eq_ignore_ascii_case("authorization"));
            assert_eq!(value.to_str().unwrap(), "Bearer sk-wire-test");
            assert!(value.is_sensitive());
        }
        _ => panic!("the harness's own credential comes first"),
    }
    let mut azure = config();
    azure.upstream_auth_header = "api-key".to_owned();
    azure.upstream_auth_scheme = String::new();
    azure.upstream_chat_path = "/openai/deployments/d1/chat/completions".to_owned();
    match sent(&azure, &[], key()) {
        UpstreamCredential::Own { name, value } => {
            assert_eq!((name.as_str(), value.to_str().unwrap()), ("api-key", "sk-wire-test"))
        }
        _ => panic!("the harness's own credential comes first"),
    }
    assert_eq!(chat_url(&azure), "http://127.0.0.1:9/openai/deployments/d1/chat/completions");
    let mut passing = config();
    passing.upstream_authorization_passthrough = true;
    match sent(&passing, &[("authorization", "Bearer client-owned-key")], None) {
        UpstreamCredential::Client(value) => assert_eq!(value, b"Bearer client-owned-key"),
        _ => panic!("the client's credential is passed on"),
    }
}

#[test]
fn tool_upstream_bearer_reaches_tool_server() {
    let token =
        read_secret_from(|_: &str| None, None, &owner_only("tool-secret\n"), "tool upstream bearer token").unwrap();
    let bearer = resolve_tool_auth(token).unwrap().unwrap();
    assert_eq!(bearer.to_str().unwrap(), "Bearer tool-secret");
    assert!(bearer.is_sensitive());
}

#[test]
fn refuses_to_load_group_readable_hmac_secret_file() {
    let stat = FileStat { is_symlink: false, is_file: true, mode: 0o100644, kind: "file".to_owned() };
    assert!(require_owner_only_mode("leaky.hmac", &stat).is_err());
}

#[test]
fn refuses_to_follow_hmac_secret_symlink_to_attacker_owned_file() {
    let stat = FileStat { is_symlink: true, is_file: false, mode: 0o120777, kind: "symlink".to_owned() };
    let error = require_owner_only_mode("identity.hmac", &stat).unwrap_err();
    assert!(error.contains("symbolic link"), "{error}");
}

#[test]
fn refresh_jwks_rejects_bodies_over_the_cap() {
    let text = check_jwks_length(8 * 1024 * 1024).unwrap_err();
    assert!(text.contains("Content-Length"), "{text}");
    assert!(text.contains("4194304"), "{text}");
}

#[test]
fn refresh_jwks_rejects_streamed_bodies_over_the_cap() {
    let chunk = vec![b'x'; 64 * 1024];
    let mut body = Vec::new();
    let refused = (0..128).find_map(|_| grow_jwks(&mut body, &chunk).err());
    assert!(refused.is_some_and(|text| text.contains("exceeded")));
    assert_eq!(body.len(), 64 * 64 * 1024);
}

#[test]
fn signing_seed_is_persisted_and_reused() {
    let seed: Vec<u8> = (1..=32).collect();
    let stored = encode_seed(&seed);
    assert_eq!(stored.trim().len(), 64);
    assert_eq!(read_seed(&stored, "key.seed").unwrap(), seed);
    assert_eq!(read_seed(&format!("{stored}\n"), "key.seed").unwrap(), seed);
}

#[test]
fn list_endpoint_returns_open_session() {
    let snapshot = SessionSnapshot {
        id: "sess-abc".to_owned(),
        workflow: Workflow::Unsigned,
        last_activity_ms: 1,
        is_closed: false,
        closing: false,
        artifact_committed: false,
        close_complete: false,
        capture_failed: false,
        active_streams: 0,
        pending_jobs: 0,
        stop_reason_id: 0,
        totals: NOTHING,
        identity: agent(),
        has_receipt: false,
    };
    let sessions = vec![SessionSummary::from_session(snapshot, "none".to_owned())];
    let body = list_sessions(sessions, &ListQuery { limit: None, status: None, workflow: None });
    assert_eq!(body.sessions.len(), 1);
    assert_eq!(body.sessions[0].id, "sess-abc");
    assert!(body.sessions[0].open && !body.sessions[0].closed);
    assert_eq!(body.total_before_truncate, 1);
}
