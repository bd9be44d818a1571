//! Closing, promoting, recovering and announcing sessions.

use ab_harness::admission::{dispatch_record, Compressed};
use ab_harness::audit::{record_response, ResponseAttempt};
use ab_harness::capture::ResponseCapture;
use ab_harness::closing::{CloseAction, CloseEvent, CloseFlow, CloseOutcome, HeldReceipt};
use ab_harness::errors::FinalizeError;
use ab_harness::failure::closing_failure_record;
use ab_harness::json::{as_unsigned, parse_json, Json};
use ab_harness::provider::StopReason;
use ab_harness::promotion::{
    nonconformant, MarkerOnDisk, PromoteAction, PromoteEvent, PromoteFlow, TrajectoryOnDisk, RENDER_ISSUE_HEAD,
};
use ab_harness::publication::{
    check_provenance, judge_outbox, judge_removal, lifecycle_event_uid, verify_configured_receipt, EmitAction,
    EmitEvent, EmitFlow, OutboxFile, OutboxOnDisk, OutboxVerdict, Provenance, PublishAction, PublishEvent,
    PublishFlow,
};
use ab_harness::receipt::Subject;
use ab_harness::recovery::{
    check_attested, check_receipt, ArtifactOnDisk, CandidateOutcome, JournalRecovery, ReceiptOnDisk, RecoveryAction, RecoveryEvent,
};
use ab_harness::replay::{
    add_totals, checked_recovery_add, track_response_attempt, JournalRecord, Replay, Totals,
};
use ab_harness::scan::{
    may_retry_promotion, quarantine, tick_seconds, FileScan, ScanAction, ScanEvent, SkipReason, TrajectoryFacts,
    MAX_ATIF_RECOVERY_BYTES,
};
use ab_harness::session::{AgentIdentity, Workflow};
use ab_harness::text_set::TextSet;

fn agent(uid: &str) -> AgentIdentity {
    AgentIdentity {
        version: "1".to_owned(),
        charter: "test".to_owned(),
        instance_uid: uid.to_owned(),
        ttl_remaining_s: None,
    }
}

fn json(text: &str) -> Json {
    parse_json(text).unwrap()
}

const NOTHING: Totals = Totals {
    tool_calls: 0,
    tool_allowed: 0,
    tool_blocked: 0,
    prompt_tokens: 0,
    completion_tokens: 0,
    cached_tokens: 0,
    cost_usd_micros: 0,
};

fn record(sequence: u64, attempt: Option<(&str, bool)>, has_step: bool) -> JournalRecord {
    JournalRecord {
        session_uid: "s".to_owned(),
        identity: agent("a"),
        event_identity: agent("a"),
        sequence,
        has_step,
        attempt: attempt.map(|(id, terminal)| ResponseAttempt { id: id.to_owned(), terminal }),
        counts: Totals { prompt_tokens: 5, completion_tokens: 2, ..NOTHING },
        stop_reason_id: None,
        stop_reason: None,
    }
}

fn chain(head: &str, count: u64) -> Subject {
    Subject::Chain { head: head.to_owned(), count }
}

fn held(held: HeldReceipt) -> CloseEvent {
    CloseEvent::ReceiptHeld { head: "h".to_owned(), count: 2, held }
}

#[test]
fn a_signed_session_closes_in_order() {
    let mut flow = CloseFlow::new(Workflow::Signed, StopReason::SessionClosed);
    assert!(matches!(flow.step(CloseEvent::Claimed(true)), CloseAction::Drain));
    assert!(matches!(flow.step(CloseEvent::Drained { capture_failed: false }), CloseAction::FindReceipt));
    match flow.step(held(HeldReceipt::Absent)) {
        CloseAction::Issue { subject, stop_reason: StopReason::SessionClosed } => assert!(subject.same(&chain("h", 2))),
        other => panic!("{other:?}"),
    }
    assert!(matches!(flow.step(CloseEvent::Issued(Ok(()))), CloseAction::Persist));
    assert!(matches!(flow.step(CloseEvent::Persisted(Ok(()))), CloseAction::CommitAndAnnounce));
    assert!(matches!(flow.step(CloseEvent::Announced(Ok(()))), CloseAction::Report(_)));
    assert!(matches!(flow.step(CloseEvent::Reported(Ok(()))), CloseAction::ClearJournal));
    assert!(matches!(flow.step(CloseEvent::Cleared(Ok(()))), CloseAction::DropReceiptOutbox));
    assert!(matches!(flow.step(CloseEvent::ReceiptDropped(Ok(()))), CloseAction::DropCloseOutbox));
    assert!(matches!(flow.step(CloseEvent::CloseDropped(Ok(()))), CloseAction::Complete(CloseOutcome::Receipt)));
    assert!(matches!(flow.step(CloseEvent::Claimed(true)), CloseAction::Ignore));
}

#[test]
fn an_unsigned_session_closes_with_an_artifact() {
    let mut flow = CloseFlow::new(Workflow::Unsigned, StopReason::SessionClosed);
    flow.step(CloseEvent::Claimed(true));
    assert!(matches!(flow.step(CloseEvent::Drained { capture_failed: false }), CloseAction::FindArtifact));
    assert!(matches!(flow.step(CloseEvent::Found { written: false, has_steps: true }), CloseAction::Write));
    assert!(matches!(flow.step(CloseEvent::Written(Ok(()))), CloseAction::Seal));
    assert!(matches!(flow.step(CloseEvent::Sealed(Ok(()))), CloseAction::CommitAndReport(_)));
    match flow.step(CloseEvent::Reported(Err(FinalizeError::Bridge("down".to_owned())))) {
        CloseAction::Fail { error: FinalizeError::Bridge(m), seal: false } => assert_eq!(m, "down"),
        other => panic!("{other:?}"),
    }
}

#[test]
fn a_session_with_nothing_to_show_is_sealed() {
    let mut lost = CloseFlow::new(Workflow::Signed, StopReason::SessionClosed);
    lost.step(CloseEvent::Claimed(true));
    let action = lost.step(CloseEvent::Drained { capture_failed: true });
    assert!(matches!(action, CloseAction::Fail { error: FinalizeError::CaptureIncomplete, seal: true }));
    let mut empty = CloseFlow::new(Workflow::Unsigned, StopReason::SessionClosed);
    empty.step(CloseEvent::Claimed(true));
    empty.step(CloseEvent::Drained { capture_failed: false });
    let action = empty.step(CloseEvent::Found { written: false, has_steps: false });
    assert!(matches!(action, CloseAction::Fail { error: FinalizeError::Atif(_), seal: true }));
    let mut twice = CloseFlow::new(Workflow::Signed, StopReason::SessionClosed);
    assert!(matches!(twice.step(CloseEvent::Claimed(false)), CloseAction::AlreadyClosed));
}

#[test]
fn a_receipt_for_another_chain_is_not_announced() {
    let mut flow = CloseFlow::new(Workflow::Signed, StopReason::SessionClosed);
    flow.step(CloseEvent::Claimed(true));
    flow.step(CloseEvent::Drained { capture_failed: false });
    let action = flow.step(held(HeldReceipt::Verified { subject: chain("h", 3) }));
    assert!(matches!(action, CloseAction::Fail { error: FinalizeError::Receipt(_), seal: false }));
    let mut same = CloseFlow::new(Workflow::Signed, StopReason::SessionClosed);
    same.step(CloseEvent::Claimed(true));
    same.step(CloseEvent::Drained { capture_failed: false });
    let action = same.step(held(HeldReceipt::Verified { subject: chain("h", 2) }));
    assert!(matches!(action, CloseAction::CommitAndAnnounce), "{action:?}");
}

fn promote_to_claim() -> PromoteFlow {
    let mut flow = PromoteFlow::new(Workflow::Unsigned, "s".to_owned());
    let action = flow.step(PromoteEvent::Looked { closed: false, has_receipt: false });
    assert!(matches!(action, PromoteAction::Close { stop_reason: StopReason::SessionClosed }), "{action:?}");
    assert!(matches!(flow.step(PromoteEvent::Closed(Ok(()))), PromoteAction::Inspect));
    let seen = PromoteEvent::Inspected { promoted: false, has_receipt: false, has_artifact: true, has_marker: false };
    assert!(matches!(flow.step(seen), PromoteAction::FindSeal));
    assert!(matches!(flow.step(PromoteEvent::SealFound(true)), PromoteAction::VerifySeal));
    assert!(matches!(flow.step(PromoteEvent::SealVerified(Ok(()))), PromoteAction::ReadTrajectory));
    flow
}

#[test]
fn a_promotion_attests_a_sealed_trajectory() {
    let mut flow = promote_to_claim();
    let read = TrajectoryOnDisk { issues: vec![], digest: "d".to_owned(), steps: 4 };
    assert!(matches!(flow.step(PromoteEvent::TrajectoryRead(Ok(read))), PromoteAction::ReadMarker));
    match flow.step(PromoteEvent::MarkerRead(MarkerOnDisk::Absent)) {
        PromoteAction::WriteMarker { session_id, digest } => {
            assert_eq!((session_id.as_str(), digest.as_str()), ("s", "d"))
        }
        other => panic!("{other:?}"),
    }
    assert!(matches!(flow.step(PromoteEvent::MarkerWritten(Ok(()))), PromoteAction::Claim));
    assert!(matches!(flow.step(PromoteEvent::Claimed(true)), PromoteAction::FindReceipt));
    match flow.step(PromoteEvent::ReceiptHeld(HeldReceipt::Absent)) {
        PromoteAction::Issue { subject, .. } => {
            assert!(subject.same(&Subject::Trajectory { digest: "d".to_owned(), steps: 4, retroactive: true }))
        }
        other => panic!("{other:?}"),
    }
    assert!(matches!(flow.step(PromoteEvent::Issued(Ok(()))), PromoteAction::Persist));
    assert!(matches!(flow.step(PromoteEvent::Persisted(Ok(()))), PromoteAction::Announce));
    assert!(matches!(flow.step(PromoteEvent::Announced(Ok(()))), PromoteAction::FinishAndUnmark));
    assert!(matches!(flow.step(PromoteEvent::MarkerRemoved(Ok(()))), PromoteAction::DropOutbox));
    assert!(matches!(flow.step(PromoteEvent::OutboxDropped(Ok(()))), PromoteAction::Complete));
}

#[test]
fn a_promotion_that_fails_gives_way() {
    let mut flow = promote_to_claim();
    let read = TrajectoryOnDisk { issues: vec![], digest: "d".to_owned(), steps: 4 };
    flow.step(PromoteEvent::TrajectoryRead(Ok(read)));
    let marker = MarkerOnDisk::Found { session_id: "s".to_owned(), digest: "d".to_owned() };
    assert!(matches!(flow.step(PromoteEvent::MarkerRead(marker)), PromoteAction::Claim));
    flow.step(PromoteEvent::Claimed(true));
    flow.step(PromoteEvent::ReceiptHeld(HeldReceipt::Absent));
    let action = flow.step(PromoteEvent::Issued(Err("no key".to_owned())));
    assert!(matches!(action, PromoteAction::Fail { error: FinalizeError::Receipt(m), release: true } if m == "no key"));
    let mut other = promote_to_claim();
    other.step(PromoteEvent::TrajectoryRead(Ok(TrajectoryOnDisk { issues: vec![], digest: "d".to_owned(), steps: 4 })));
    let marker = MarkerOnDisk::Found { session_id: "s".to_owned(), digest: "e".to_owned() };
    let action = other.step(PromoteEvent::MarkerRead(marker));
    assert!(matches!(action, PromoteAction::Fail { error: FinalizeError::Atif(_), release: false }));
    let mut signed = PromoteFlow::new(Workflow::Signed, "s".to_owned());
    let action = signed.step(PromoteEvent::Looked { closed: true, has_receipt: false });
    assert!(matches!(action, PromoteAction::Fail { error: FinalizeError::Promotion(_), .. }));
}

#[test]
fn only_the_first_issues_are_shown() {
    let few = nonconformant(&vec!["a".to_owned(), "b".to_owned()]);
    match few {
        FinalizeError::Atif(m) => {
            assert_eq!(m, "strict validation failed (2 issues, showing first 2): [a, b]")
        }
        other => panic!("{other:?}"),
    }
    let many: Vec<String> = (0..40).map(|i| format!("i{i}")).collect();
    let shown = nonconformant(&many).message();
    assert!(shown.contains("(40 issues, showing first 16)"), "{shown}");
    assert!(shown.contains(&format!("i{}", RENDER_ISSUE_HEAD - 1)));
    assert!(!shown.contains(&format!("i{RENDER_ISSUE_HEAD}")));
}

#[test]
fn an_event_is_stored_then_published_then_acknowledged() {
    let event = r#"{"metadata":{"uid":"u-1"}}"#;
    let mut flow = EmitFlow::begin("s".to_owned(), "close".to_owned(), 4, true).unwrap();
    assert!(matches!(flow.step(EmitEvent::OutboxRead(OutboxOnDisk::Absent)), EmitAction::Store { sequence: 4 }));
    match flow.step(EmitEvent::Stored(Ok(json(event)))) {
        EmitAction::Find { advance: Some(4), uid } => assert_eq!(uid, "u-1"),
        other => panic!("{other:?}"),
    }
    assert!(matches!(flow.step(EmitEvent::Found(Ok(false))), EmitAction::Publish));
    assert!(matches!(flow.step(EmitEvent::Published(Ok(()))), EmitAction::StoreAck));
    assert!(matches!(flow.step(EmitEvent::AckStored(Ok(()))), EmitAction::Complete { advance: None }));
}

#[test]
fn an_event_that_was_published_is_not_published_again() {
    let mut flow = EmitFlow::begin("s".to_owned(), "close".to_owned(), 4, true).unwrap();
    flow.step(EmitEvent::OutboxRead(OutboxOnDisk::Absent));
    flow.step(EmitEvent::Stored(Ok(json(r#"{"metadata":{"uid":"u-1"}}"#))));
    assert!(matches!(flow.step(EmitEvent::Found(Ok(true))), EmitAction::StoreAck));
    let mut other = EmitFlow::begin("s".to_owned(), "close".to_owned(), 4, true).unwrap();
    let outbox = OutboxOnDisk::Opened {
        session_id: "t".to_owned(),
        kind: "close".to_owned(),
        value: json("{}"),
        acked: true,
    };
    assert!(matches!(other.step(EmitEvent::OutboxRead(outbox)), EmitAction::Fail { advance: None, counted: false, .. }));
    assert!(lifecycle_event_uid(&json("{}")).is_err());
}

#[test]
fn a_journaled_event_reaches_the_broker_once() {
    let mut flow = PublishFlow::new("t".to_owned(), true);
    assert!(matches!(flow.step(PublishEvent::AckRead(Ok(None))), PublishAction::Find));
    assert!(matches!(flow.step(PublishEvent::Found(Ok(false))), PublishAction::Publish));
    assert!(matches!(flow.step(PublishEvent::Published(Ok(()))), PublishAction::StoreAck));
    assert!(matches!(flow.step(PublishEvent::AckStored(Ok(()))), PublishAction::Complete));
    let mut done = PublishFlow::new("t".to_owned(), false);
    assert!(matches!(done.step(PublishEvent::AckRead(Ok(Some("t".to_owned())))), PublishAction::Complete));
    let mut wrong = PublishFlow::new("t".to_owned(), true);
    assert!(matches!(wrong.step(PublishEvent::AckRead(Ok(Some("x".to_owned())))), PublishAction::Fail(_)));
    let mut none = PublishFlow::new("t".to_owned(), false);
    assert!(matches!(none.step(PublishEvent::AckRead(Ok(None))), PublishAction::Fail(_)));
}

#[test]
fn outboxes_are_judged_by_their_names() {
    let opened = |acked| OutboxFile::Opened { digest: "d".to_owned(), kind: "close".to_owned(), acked };
    assert_eq!(judge_outbox("d.close.json", &opened(false)), OutboxVerdict::Publish);
    assert_eq!(judge_outbox("d.close.json", &opened(true)), OutboxVerdict::Settled);
    assert_eq!(judge_outbox("e.close.json", &opened(false)), OutboxVerdict::SkipMisnamed);
    assert_eq!(judge_outbox("d.close.json", &OutboxFile::Malformed("x".to_owned())), OutboxVerdict::SkipMalformed);
    assert_eq!(judge_outbox("d.close.json", &OutboxFile::Unreadable("x".to_owned())), OutboxVerdict::SkipUnreadable);
    assert!(judge_removal("d.close.json", &opened(true)).unwrap());
    assert!(!judge_removal("d.close.json", &opened(false)).unwrap());
    assert!(judge_removal("e.close.json", &opened(true)).is_err());
    assert!(judge_removal("d.close.json", &OutboxFile::Malformed("x".to_owned())).is_err());
}

fn valid(subject: Subject) -> ReceiptOnDisk {
    ReceiptOnDisk::Valid { subject }
}

#[test]
fn seals_and_receipts_must_match() {
    let seal = |session: &str, digest: &str| Provenance { session_id: session.to_owned(), digest: digest.to_owned() };
    assert!(check_provenance(&seal("s", "d"), &seal("s", "d")).is_ok());
    assert!(check_provenance(&seal("s", "d"), &seal("s", "e")).is_err());
    assert!(check_provenance(&seal("s", "d"), &seal("t", "d")).is_err());
    assert!(verify_configured_receipt("k", "k", Ok(())).is_ok());
    assert!(verify_configured_receipt("k", "other", Ok(())).is_err());
    assert!(verify_configured_receipt("k", "k", Err("bad".to_owned())).is_err());
    assert!(check_receipt(ReceiptOnDisk::Absent).is_ok());
    assert!(matches!(check_receipt(valid(chain("h", 2))), Ok(Some(subject)) if subject.same(&chain("h", 2))));
    assert!(check_attested(ReceiptOnDisk::Absent, &chain("h", 2)).is_ok_and(|present| !present));
    assert!(check_attested(valid(chain("h", 2)), &chain("h", 2)).is_ok_and(|present| present));
    let error = check_attested(valid(chain("h", 1)), &chain("h", 2)).unwrap_err();
    assert!(error.message().contains("does not attest the recovered signed journal"), "{}", error.message());
    assert!(check_receipt(ReceiptOnDisk::Unreadable("x".to_owned())).is_err());
}

#[test]
fn attempts_are_opened_and_closed() {
    let attempt = |id: &str, terminal| Some(ResponseAttempt { id: id.to_owned(), terminal });
    let mut pending = TextSet::new();
    track_response_attempt(&mut pending, &attempt("t", false)).unwrap();
    assert!(pending.contains("t"));
    track_response_attempt(&mut pending, &None).unwrap();
    track_response_attempt(&mut pending, &attempt("t", true)).unwrap();
    assert!(pending.is_empty());
    track_response_attempt(&mut pending, &attempt("t", true)).unwrap();
    assert!(pending.contains("orphan-terminal:t"));
    track_response_attempt(&mut pending, &attempt("u", false)).unwrap();
    assert!(track_response_attempt(&mut pending, &attempt("u", false)).is_err());
}

#[test]
fn totals_add_up_and_do_not_wrap() {
    assert_eq!(checked_recovery_add(2, 3, "prompt tokens").unwrap(), 5);
    assert!(checked_recovery_add(u64::MAX, 1, "prompt tokens").is_err());
    let one = Totals { prompt_tokens: 1, cost_usd_micros: 2, ..NOTHING };
    let sum = add_totals(one, &one, Workflow::Signed).unwrap();
    assert_eq!(sum, Totals { prompt_tokens: 2, cost_usd_micros: 4, ..NOTHING });
}

#[test]
fn a_replay_stops_at_the_first_fault() {
    let mut replay = Replay::new("s".to_owned(), Workflow::Signed, agent("a"));
    let first = record(0, Some(("t", false)), false);
    replay.check(&first).unwrap();
    replay.count(&first).unwrap();
    assert_eq!(replay.totals.prompt_tokens, 5);
    assert!(!replay.pending.is_empty());
    assert!(replay.check(&record(0, None, false)).is_err());
    let mut foreign = record(1, None, false);
    foreign.session_uid = "other".to_owned();
    assert!(replay.check(&foreign).is_err());
}

fn opened_recovery(workflow: Workflow, word: &str) -> JournalRecovery {
    let mut recovery = JournalRecovery::new(workflow);
    let sidecar = format!(r#"{{"journal_version":2,"session_id":"s","workflow":"{word}","identity":{{}}}}"#);
    let action = recovery.step(RecoveryEvent::SidecarRead(Ok(json(&sidecar))));
    assert!(matches!(action, RecoveryAction::Look), "{action:?}");
    assert!(matches!(recovery.step(RecoveryEvent::Looked { active: false }), RecoveryAction::ReadIdentity(_)));
    assert!(matches!(recovery.step(RecoveryEvent::IdentityRead(Ok(agent("a")))), RecoveryAction::ReadJournal));
    recovery
}

fn receipt_read() -> RecoveryEvent {
    RecoveryEvent::ReceiptRead { head: "h".to_owned(), count: 1, found: ReceiptOnDisk::Absent }
}

#[test]
fn a_settled_signed_journal_is_closed() {
    let mut recovery = opened_recovery(Workflow::Signed, "signed");
    let action = recovery.step(RecoveryEvent::JournalRead { lines: Ok(1), quarantined: false });
    assert!(matches!(action, RecoveryAction::OpenRecord(0)));
    assert!(matches!(recovery.step(RecoveryEvent::RecordOpened(Ok(record(0, None, false)))), RecoveryAction::Append));
    assert!(matches!(recovery.step(RecoveryEvent::Appended(Ok(()))), RecoveryAction::Publish { note: None }));
    assert!(matches!(recovery.step(RecoveryEvent::Published(Ok(()))), RecoveryAction::ReadReceipt));
    match recovery.step(receipt_read()) {
        RecoveryAction::Install(restored) => {
            assert!(restored.sealed && !restored.capture_failed && !restored.receipt);
            assert_eq!((restored.sequence, restored.index), (1, None));
            assert_eq!(restored.totals.prompt_tokens, 5);
        }
        other => panic!("{other:?}"),
    }
    let action = recovery.step(RecoveryEvent::Installed { fresh: true, quarantined: false });
    assert!(matches!(action, RecoveryAction::Close { .. }), "{action:?}");
    let action = recovery.step(RecoveryEvent::Closed(Ok(())));
    assert!(matches!(action, RecoveryAction::Finish(CandidateOutcome::Recovered)));
}

#[test]
fn an_open_attempt_keeps_a_recovered_session_open() {
    let mut recovery = opened_recovery(Workflow::Signed, "signed");
    recovery.step(RecoveryEvent::JournalRead { lines: Ok(1), quarantined: false });
    recovery.step(RecoveryEvent::RecordOpened(Ok(record(0, Some(("t", false)), false))));
    recovery.step(RecoveryEvent::Appended(Ok(())));
    recovery.step(RecoveryEvent::Published(Ok(())));
    recovery.step(receipt_read());
    let action = recovery.step(RecoveryEvent::Installed { fresh: true, quarantined: false });
    assert!(matches!(action, RecoveryAction::Quarantine { .. }), "{action:?}");
    let action = recovery.step(RecoveryEvent::Ended);
    assert!(matches!(action, RecoveryAction::Finish(CandidateOutcome::Recovered)));
}

#[test]
fn an_unsigned_journal_becomes_an_artifact() {
    let mut recovery = opened_recovery(Workflow::Unsigned, "unsigned");
    recovery.step(RecoveryEvent::JournalRead { lines: Ok(1), quarantined: false });
    let action = recovery.step(RecoveryEvent::RecordOpened(Ok(record(0, None, true))));
    assert!(matches!(action, RecoveryAction::Publish { note: None }));
    assert!(matches!(recovery.step(RecoveryEvent::Published(Ok(()))), RecoveryAction::Append));
    let action = recovery.step(RecoveryEvent::Appended(Ok(())));
    assert!(matches!(action, RecoveryAction::ReadArtifact), "{action:?}");
    assert!(matches!(recovery.step(RecoveryEvent::ArtifactRead(ArtifactOnDisk::Absent)), RecoveryAction::WriteArtifact));
    assert!(matches!(recovery.step(RecoveryEvent::ArtifactWritten(Ok(()))), RecoveryAction::SealArtifact));
    assert!(matches!(recovery.step(RecoveryEvent::ArtifactSealed(Ok(()))), RecoveryAction::ClearJournal));
    let action = recovery.step(RecoveryEvent::JournalCleared(Ok(())));
    assert!(matches!(action, RecoveryAction::Finish(CandidateOutcome::Recovered)));
}

#[test]
fn an_empty_journal_is_searched_for_before_its_sidecar_goes() {
    let mut set_aside = opened_recovery(Workflow::Signed, "signed");
    let action = set_aside.step(RecoveryEvent::JournalRead { lines: Ok(0), quarantined: false });
    assert!(matches!(action, RecoveryAction::Search));
    assert!(matches!(set_aside.step(RecoveryEvent::Searched(Ok(true))), RecoveryAction::SetSidecarAside));
    let mut orphan = opened_recovery(Workflow::Signed, "signed");
    orphan.step(RecoveryEvent::JournalRead { lines: Ok(0), quarantined: false });
    assert!(matches!(orphan.step(RecoveryEvent::Searched(Ok(false))), RecoveryAction::RemoveSidecar));
    let action = orphan.step(RecoveryEvent::SidecarRemoved(Ok(())));
    assert!(matches!(action, RecoveryAction::Finish(CandidateOutcome::Skipped)));
}

fn trajectory(conformant: bool) -> TrajectoryFacts {
    TrajectoryFacts {
        conformant,
        session_id: Some("s".to_owned()),
        version: "1".to_owned(),
        extra: None,
        charter: None,
        metrics: Some(json(r#"{"total_prompt_tokens":5}"#)),
    }
}

#[test]
fn only_sealed_trajectories_are_restored() {
    let mut scan = FileScan::new("spool/a.json".to_owned());
    assert!(matches!(scan.step(ScanEvent::Sized(Ok(10))), ScanAction::Read));
    assert!(matches!(scan.step(ScanEvent::Read(Ok(()))), ScanAction::Parse));
    assert!(matches!(scan.step(ScanEvent::Parsed(Ok(trajectory(true)))), ScanAction::FindSeal));
    assert!(matches!(scan.step(ScanEvent::SealFound(true)), ScanAction::VerifySeal));
    assert!(matches!(scan.step(ScanEvent::SealVerified(Ok(()))), ScanAction::Look(id) if id == "s"));
    match scan.step(ScanEvent::Looked { active: false }) {
        ScanAction::Restore { agent, path, metrics: Some(metrics) } => {
            assert_eq!((agent.version.as_str(), path.as_str()), ("1", "spool/a.json"));
            assert_eq!(as_unsigned(metrics.get("total_prompt_tokens")), Some(5));
        }
        other => panic!("{other:?}"),
    }
    assert!(matches!(scan.step(ScanEvent::Restored(Ok(true))), ScanAction::ReadReceipt));
    let read = ScanEvent::ReceiptRead { found: valid(chain("another", 9)), promoting: true };
    assert!(matches!(scan.step(read), ScanAction::Recovered { receipt: true, pending: true }));
    let mut loose = FileScan::new("spool/a.json".to_owned());
    loose.step(ScanEvent::Sized(Ok(10)));
    loose.step(ScanEvent::Read(Ok(())));
    loose.step(ScanEvent::Parsed(Ok(trajectory(true))));
    assert!(matches!(loose.step(ScanEvent::SealFound(false)), ScanAction::Skip(SkipReason::Unauthenticated)));
}

#[test]
fn unfit_files_are_skipped() {
    let skip = |events: Vec<ScanEvent>| {
        let mut scan = FileScan::new("spool/a.json".to_owned());
        let mut last = ScanAction::Ignore;
        for event in events {
            last = scan.step(event);
        }
        match last {
            ScanAction::Skip(reason) => reason,
            other => panic!("{other:?}"),
        }
    };
    assert_eq!(skip(vec![ScanEvent::Sized(Err("x".to_owned()))]), SkipReason::NoMetadata);
    assert_eq!(skip(vec![ScanEvent::Sized(Ok(MAX_ATIF_RECOVERY_BYTES + 1))]), SkipReason::TooLarge);
    assert_eq!(skip(vec![ScanEvent::Sized(Ok(1)), ScanEvent::Read(Err("x".to_owned()))]), SkipReason::ReadError);
    assert_eq!(
        skip(vec![ScanEvent::Sized(Ok(1)), ScanEvent::Read(Ok(())), ScanEvent::Parsed(Err("x".to_owned()))]),
        SkipReason::InvalidJson
    );
    assert_eq!(
        skip(vec![ScanEvent::Sized(Ok(1)), ScanEvent::Read(Ok(())), ScanEvent::Parsed(Ok(trajectory(false)))]),
        SkipReason::Nonconformant
    );
}

#[test]
fn quarantined_sessions_are_remembered() {
    let mut known = TextSet::new();
    let found = vec![("a".to_owned(), true), ("b".to_owned(), false)];
    let first = quarantine(&mut known, &found);
    let again = quarantine(&mut known, &found);
    assert!(first && !again);
    assert!(!known.contains("a") && known.contains("b"));
    assert!(may_retry_promotion(Some(true)));
    assert!(!may_retry_promotion(Some(false)));
    assert_eq!(tick_seconds(0), 1);
    assert_eq!(tick_seconds(30), 30);
}

#[test]
fn a_dispatched_request_is_settled_by_its_response() {
    let sent = Compressed {
        payload: json(r#"{"messages":[{"role":"user","content":"hi"}]}"#),
        changed: false,
        tokens_before: 1,
        tokens_after: 1,
        pruned_tokens: 0,
        pruning_ratio_millis: 0,
        attempt: "t".to_owned(),
    };
    for answered in [true, false] {
        let mut pending = TextSet::new();
        track_response_attempt(&mut pending, &dispatch_record(&sent).unwrap().response_attempt).unwrap();
        assert!(pending.contains("t"));
        let last = if answered {
            record_response(&ResponseCapture::new(200, true), None, None, "t".to_owned())
        } else {
            closing_failure_record(Workflow::Signed, StopReason::Other, "lost".to_owned(), None, "t".to_owned())
        };
        track_response_attempt(&mut pending, &last.response_attempt).unwrap();
        assert!(pending.is_empty());
    }
}

fn pending_after(attempts: &[(&str, bool)]) -> Option<bool> {
    let mut pending = TextSet::new();
    for (id, terminal) in attempts {
        let attempt = Some(ResponseAttempt { id: id.to_string(), terminal: *terminal });
        track_response_attempt(&mut pending, &attempt).ok()?;
    }
    Some(!pending.is_empty())
}

#[test]
fn journals_are_settled_in_pairs() {
    assert_eq!(pending_after(&[("a", false), ("b", false), ("b", true), ("a", true), ("a", false), ("a", true)]), Some(false));
    assert_eq!(pending_after(&[("a", false), ("b", false), ("a", true)]), Some(true), "one is never closed");
    assert_eq!(pending_after(&[("a", true), ("a", false), ("a", true)]), Some(true), "one is closed before it is open");
    assert_eq!(pending_after(&[("a", false), ("a", false), ("a", true)]), None, "one is opened twice");
    assert_eq!(pending_after(&[]), Some(false));
}
