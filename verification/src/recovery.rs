//! Recovery of interrupted sessions from their journals, one session at a
//! time.
//!
//! A session whose journal cannot be trusted, or whose effects are not all
//! accounted for, is never finalized: it is set aside, or put back as one
//! whose capture failed.

use vstd::prelude::*;
use crate::artifact;
use crate::closing;
use crate::closing::CloseActionView;
use crate::errors::{FinalizeError, FinalizeErrorView};
use crate::json;
use crate::json::{Json, JsonTree};
use crate::provider::StopReason;
use crate::receipt::{Subject, SubjectView};
use crate::replay;
use crate::replay::{JournalRecord, JournalRecordView, Replay, ReplayView, Totals};
use crate::session;
use crate::session::{AgentIdentity, IdentityView, Standing, Workflow};
use crate::text;

verus! {

/// What the sidecar of a journal says.
#[derive(Debug)]
pub enum Sidecar {
    /// It is of a version that is not known here.
    Unsupported,
    /// It belongs to a session of the other workflow.
    OtherWorkflow,
    /// It belongs to this session.
    Of(String),
}

/// A [`Sidecar`] by its contents.
#[verifier::ext_equal]
pub enum SidecarView {
    Unsupported,
    OtherWorkflow,
    Of(Seq<char>),
}

/// What a sidecar says to the recovery of one workflow. One that names no
/// workflow counts as unsigned.
pub open spec fn sidecar(metadata: JsonTree, workflow: Workflow) -> Result<SidecarView, FinalizeErrorView> {
    let signed = json::text_in(json::member(metadata, "workflow"@)) == Some(session::workflow_word(Workflow::Signed));
    if json::unsigned_in(json::member(metadata, "journal_version"@)) != Some(2u64) {
        Ok(SidecarView::Unsupported)
    } else if signed != (workflow == Workflow::Signed) {
        Ok(SidecarView::OtherWorkflow)
    } else {
        match json::text_in(json::member(metadata, "session_id"@)) {
            Some(id) => Ok(SidecarView::Of(id)),
            None => Err(FinalizeErrorView::Atif("journal metadata has no session_id"@)),
        }
    }
}

impl View for Sidecar {
    type V = SidecarView;

    open spec fn view(&self) -> SidecarView {
        match self {
            Sidecar::Unsupported => SidecarView::Unsupported,
            Sidecar::OtherWorkflow => SidecarView::OtherWorkflow,
            Sidecar::Of(id) => SidecarView::Of(id@),
        }
    }
}

/// Reads a sidecar.
pub fn read_sidecar(metadata: &Json, workflow: Workflow) -> (read: Result<Sidecar, FinalizeError>)
    ensures
        match read {
            Ok(s) => sidecar(metadata@, workflow) == Ok::<SidecarView, FinalizeErrorView>(s@),
            Err(e) => sidecar(metadata@, workflow) == Err::<SidecarView, FinalizeErrorView>(e@),
        },
{
    match json::as_unsigned(metadata.get("journal_version")) {
        Some(2) => {},
        _ => {
            return Ok(Sidecar::Unsupported);
        },
    }
    let signed: bool = match json::as_text(metadata.get("workflow")) {
        Some(word) => text::same_text(word.as_str(), Workflow::Signed.as_str()),
        None => false,
    };
    if signed != (workflow == Workflow::Signed) {
        return Ok(Sidecar::OtherWorkflow);
    }
    match json::as_text(metadata.get("session_id")) {
        Some(id) => Ok(Sidecar::Of(id)),
        None => Err(FinalizeError::Atif("journal metadata has no session_id".to_owned())),
    }
}

/// The receipt of a session, as it is found on disk.
#[derive(Debug)]
pub enum ReceiptOnDisk {
    /// There is none.
    Absent,
    /// Whether there is one could not be found out.
    StatFailed(String),
    /// It could not be read.
    Unreadable(String),
    /// It was read, and is no receipt, or not one under the key in use.
    Refused(FinalizeError),
    /// It is valid, and attests this.
    Valid { subject: Subject },
}

/// A [`ReceiptOnDisk`] by its contents.
#[verifier::ext_equal]
pub enum ReceiptView {
    Absent,
    StatFailed(Seq<char>),
    Unreadable(Seq<char>),
    Refused(FinalizeErrorView),
    Valid { subject: SubjectView },
}

impl View for ReceiptOnDisk {
    type V = ReceiptView;

    open spec fn view(&self) -> ReceiptView {
        match self {
            ReceiptOnDisk::Absent => ReceiptView::Absent,
            ReceiptOnDisk::StatFailed(words) => ReceiptView::StatFailed(words@),
            ReceiptOnDisk::Unreadable(words) => ReceiptView::Unreadable(words@),
            ReceiptOnDisk::Refused(e) => ReceiptView::Refused(e@),
            ReceiptOnDisk::Valid { subject } => ReceiptView::Valid { subject: subject@ },
        }
    }
}

/// What a receipt on disk attests, where there is one, or what stands against
/// it. One that may be there is never taken for absent: a new one would
/// replace it.
pub open spec fn found_receipt(found: ReceiptView) -> Result<Option<SubjectView>, FinalizeErrorView> {
    match found {
        ReceiptView::Absent => Ok(None),
        ReceiptView::StatFailed(words) => Err(
            FinalizeErrorView::Receipt("existing receipt stat failed: "@ + words),
        ),
        ReceiptView::Unreadable(words) => Err(
            FinalizeErrorView::Receipt("existing receipt unreadable: "@ + words),
        ),
        ReceiptView::Refused(e) => Err(e),
        ReceiptView::Valid { subject } => Ok(Some(subject)),
    }
}

/// A subject, where there is one, by its contents.
pub open spec fn opt_subject(subject: Option<Subject>) -> Option<SubjectView> {
    match subject {
        Some(s) => Some(s@),
        None => None,
    }
}

/// What a receipt on disk attests, or what stands against it.
pub fn check_receipt(found: ReceiptOnDisk) -> (checked: Result<Option<Subject>, FinalizeError>)
    ensures
        match checked {
            Ok(subject) => found_receipt(found@) == Ok::<Option<SubjectView>, FinalizeErrorView>(
                opt_subject(subject),
            ),
            Err(e) => found_receipt(found@) == Err::<Option<SubjectView>, FinalizeErrorView>(e@),
        },
{
    match found {
        ReceiptOnDisk::Absent => Ok(None),
        ReceiptOnDisk::StatFailed(words) => Err(
            FinalizeError::Receipt(text::concat2("existing receipt stat failed: ", words.as_str())),
        ),
        ReceiptOnDisk::Unreadable(words) => Err(
            FinalizeError::Receipt(text::concat2("existing receipt unreadable: ", words.as_str())),
        ),
        ReceiptOnDisk::Refused(e) => Err(e),
        ReceiptOnDisk::Valid { subject } => Ok(Some(subject)),
    }
}

/// Whether a receipt goes with a recovered session whose event chain is
/// `expected`, or what stands against the one on disk.
pub open spec fn attested(found: ReceiptView, expected: SubjectView) -> Result<bool, FinalizeErrorView> {
    match found_receipt(found) {
        Err(e) => Err(e),
        Ok(None) => Ok(false),
        Ok(Some(subject)) => if subject == expected {
            Ok(true)
        } else {
            Err(
                FinalizeErrorView::Receipt(
                    "persisted receipt does not attest the recovered signed journal"@,
                ),
            )
        },
    }
}

/// Whether a receipt goes with a recovered session whose event chain is
/// `expected`.
pub fn check_attested(found: ReceiptOnDisk, expected: &Subject) -> (checked: Result<bool, FinalizeError>)
    ensures
        match checked {
            Ok(present) => attested(found@, expected@) == Ok::<bool, FinalizeErrorView>(present),
            Err(e) => attested(found@, expected@) == Err::<bool, FinalizeErrorView>(e@),
        },
{
    match check_receipt(found) {
        Err(e) => Err(e),
        Ok(None) => Ok(false),
        Ok(Some(subject)) => {
            if subject.same(expected) {
                Ok(true)
            } else {
                Err(
                    FinalizeError::Receipt(
                        "persisted receipt does not attest the recovered signed journal".to_owned(),
                    ),
                )
            }
        },
    }
}

/// The trajectory of a session, as it is found on disk.
#[derive(Debug)]
pub enum ArtifactOnDisk {
    Absent,
    Unreadable(String),
    /// It is there; and what the journal gives.
    Found { document: Json, rebuilt: Json },
}

/// An [`ArtifactOnDisk`] by its contents.
#[verifier::ext_equal]
pub enum ArtifactView {
    Absent,
    Unreadable(Seq<char>),
    Found { document: JsonTree, rebuilt: JsonTree },
}

impl View for ArtifactOnDisk {
    type V = ArtifactView;

    open spec fn view(&self) -> ArtifactView {
        match self {
            ArtifactOnDisk::Absent => ArtifactView::Absent,
            ArtifactOnDisk::Unreadable(words) => ArtifactView::Unreadable(words@),
            ArtifactOnDisk::Found { document, rebuilt } => ArtifactView::Found {
                document: document@,
                rebuilt: rebuilt@,
            },
        }
    }
}

/// A session as it is put back.
#[derive(Debug)]
pub struct Restored {
    /// The agent as the journal shows it last.
    pub agent: AgentIdentity,
    pub totals: Totals,
    /// The sequence number that the session's next event gets.
    pub sequence: u64,
    /// The number of records behind the session, where its journal is gone on
    /// with.
    pub index: Option<u64>,
    /// The session counts as committed from the first moment it can be
    /// reached: it takes no request, and is not closed for being idle.
    pub sealed: bool,
    /// The session's capture counts as incomplete.
    pub capture_failed: bool,
    /// The receipt on disk goes with the session.
    pub receipt: bool,
}

/// A [`Restored`] by its contents.
#[verifier::ext_equal]
pub struct RestoredView {
    pub agent: IdentityView,
    pub totals: Totals,
    pub sequence: u64,
    pub index: Option<u64>,
    pub sealed: bool,
    pub capture_failed: bool,
    pub receipt: bool,
}

impl View for Restored {
    type V = RestoredView;

    open spec fn view(&self) -> RestoredView {
        RestoredView {
            agent: self.agent@,
            totals: self.totals,
            sequence: self.sequence,
            index: self.index,
            sealed: self.sealed,
            capture_failed: self.capture_failed,
            receipt: self.receipt,
        }
    }
}

/// What came of one journal.
#[derive(Clone, Copy, Debug, PartialEq, Eq, Structural)]
pub enum CandidateOutcome {
    /// The journal was not for this pass, or was set aside.
    Skipped,
    /// The session was put back or finalized.
    Recovered,
}

/// Where the recovery of one journal stands.
#[derive(Clone, Copy, Debug, PartialEq, Eq, Structural)]
pub enum RecoveryStage {
    /// The sidecar is being read.
    Reading,
    /// The session is being looked for among the active ones.
    Looking,
    /// The identity in the sidecar is being read.
    Identifying,
    /// The journal is being read.
    Listing,
    /// A journal that was set aside is being looked for.
    Searching,
    /// The sidecar is being removed.
    Removing,
    /// A record is being opened.
    Opening,
    /// A record is being appended to what is recovered.
    Appending,
    /// The event of a record is being published.
    Publishing,
    /// The receipt is being looked for.
    Attesting,
    /// The session is being put back.
    Installing,
    /// The session is being closed.
    Closing,
    /// The trajectory on disk is being compared.
    Comparing,
    /// The trajectory is being written.
    Writing,
    /// The provenance of the trajectory is being sealed.
    Sealing,
    /// The journal is being removed.
    Clearing,
    /// A last step is being taken.
    Ending(CandidateOutcome),
    /// All is done.
    Done,
}

/// What happens in the recovery of one journal.
#[derive(Debug)]
pub enum RecoveryEvent {
    SidecarRead(Result<Json, String>),
    /// Whether the session is active.
    Looked { active: bool },
    IdentityRead(Result<AgentIdentity, String>),
    /// The number of lines of the journal; and whether the session is one of
    /// those with incomplete effects.
    JournalRead { lines: Result<u64, FinalizeError>, quarantined: bool },
    /// Whether a journal of this session was set aside.
    Searched(Result<bool, FinalizeError>),
    SidecarRemoved(Result<(), String>),
    RecordOpened(Result<JournalRecord, String>),
    Appended(Result<(), String>),
    Published(Result<(), FinalizeError>),
    /// The rebuilt event chain, by its head and its length, and the receipt.
    ReceiptRead { head: String, count: u64, found: ReceiptOnDisk },
    /// Whether the session was put back, rather than found active; and
    /// whether it is one of those with incomplete effects.
    Installed { fresh: bool, quarantined: bool },
    Closed(Result<(), FinalizeError>),
    ArtifactRead(ArtifactOnDisk),
    ArtifactWritten(Result<(), FinalizeError>),
    ArtifactSealed(Result<(), FinalizeError>),
    JournalCleared(Result<(), FinalizeError>),
    /// A last step was taken.
    Ended,
}

/// What the recovery of one journal wants done.
#[derive(Debug)]
pub enum RecoveryAction {
    /// Nothing: this is not what is being waited for.
    Ignore,
    /// Look for the session among the active ones.
    Look,
    /// Read the identity that the sidecar holds.
    ReadIdentity(Json),
    ReadJournal,
    /// Put the session back as one whose effects are incomplete.
    InstallFailed(Restored),
    /// Look for a journal of the session that was set aside.
    Search,
    /// Set the sidecar aside too.
    SetSidecarAside,
    RemoveSidecar,
    /// Open the record of this number.
    OpenRecord(u64),
    /// Append the record: to the event chain, or its step to the trajectory.
    Append,
    /// See to it that the event of the record is published; note the stop
    /// reason, if there is one.
    Publish { note: Option<StopReason> },
    ReadReceipt,
    /// Put the session back.
    Install(Restored),
    /// Add the session to those with incomplete effects; and mark it as one
    /// whose capture failed, where it is not yet.
    Quarantine { mark_failed: bool },
    /// Mark the session as one whose capture failed.
    MarkFailed,
    /// Close the session, for this reason.
    Close { stop_reason: StopReason },
    /// Compare the trajectory with the one on disk.
    ReadArtifact,
    WriteArtifact,
    SealArtifact,
    ClearJournal,
    /// The sidecar is of an unknown version: warn once, and skip it.
    SkipUnsupported,
    /// That is all.
    Finish(CandidateOutcome),
    /// This session cannot be recovered: count it, warn once, and go on with
    /// the next.
    Fail(FinalizeError),
}

/// The recovery of one journal.
#[derive(Debug)]
pub struct JournalRecovery {
    workflow: Workflow,
    stage: RecoveryStage,
    session_id: String,
    /// The identity that the sidecar holds.
    identity: Option<Json>,
    replay: Option<Replay>,
    /// The record that is being replayed.
    record: Option<JournalRecord>,
    /// The number of lines of the journal.
    lines: u64,
}

/// A [`JournalRecovery`] by its contents.
#[verifier::ext_equal]
pub struct RecoveryView {
    pub workflow: Workflow,
    pub stage: RecoveryStage,
    pub session_id: Seq<char>,
    pub identity: Option<JsonTree>,
    pub replay: Option<ReplayView>,
    pub record: Option<JournalRecordView>,
    pub lines: u64,
}

/// A [`RecoveryEvent`] by its contents.
pub enum RecoveryEventView {
    SidecarRead(Result<JsonTree, Seq<char>>),
    Looked { active: bool },
    IdentityRead(Result<IdentityView, Seq<char>>),
    JournalRead { lines: Result<u64, FinalizeErrorView>, quarantined: bool },
    Searched(Result<bool, FinalizeErrorView>),
    SidecarRemoved(Option<Seq<char>>),
    RecordOpened(Result<JournalRecordView, Seq<char>>),
    Appended(Option<Seq<char>>),
    Published(Option<FinalizeErrorView>),
    ReceiptRead { head: Seq<char>, count: u64, found: ReceiptView },
    Installed { fresh: bool, quarantined: bool },
    Closed(Option<FinalizeErrorView>),
    ArtifactRead(ArtifactView),
    ArtifactWritten(Option<FinalizeErrorView>),
    ArtifactSealed(Option<FinalizeErrorView>),
    JournalCleared(Option<FinalizeErrorView>),
    Ended,
}

/// A [`RecoveryAction`] by its contents.
#[verifier::ext_equal]
pub enum RecoveryActionView {
    Ignore,
    Look,
    ReadIdentity(JsonTree),
    ReadJournal,
    InstallFailed(RestoredView),
    Search,
    SetSidecarAside,
    RemoveSidecar,
    OpenRecord(u64),
    Append,
    Publish { note: Option<StopReason> },
    ReadReceipt,
    Install(RestoredView),
    Quarantine { mark_failed: bool },
    MarkFailed,
    Close { stop_reason: StopReason },
    ReadArtifact,
    WriteArtifact,
    SealArtifact,
    ClearJournal,
    SkipUnsupported,
    Finish(CandidateOutcome),
    Fail(FinalizeErrorView),
}

impl View for JournalRecovery {
    type V = RecoveryView;

    closed spec fn view(&self) -> RecoveryView {
        RecoveryView {
            workflow: self.workflow,
            stage: self.stage,
            session_id: self.session_id@,
            identity: match self.identity {
                Some(document) => Some(document@),
                None => None,
            },
            replay: match self.replay {
                Some(r) => Some(r@),
                None => None,
            },
            record: match self.record {
                Some(r) => Some(r@),
                None => None,
            },
            lines: self.lines,
        }
    }
}

/// The failure of an outcome, if it is one.
pub open spec fn final_fault(outcome: Result<(), FinalizeError>) -> Option<FinalizeErrorView> {
    match outcome {
        Ok(()) => None,
        Err(e) => Some(e@),
    }
}

/// The words of an outcome, if it is a failure.
pub open spec fn word_fault(outcome: Result<(), String>) -> Option<Seq<char>> {
    match outcome {
        Ok(()) => None,
        Err(e) => Some(e@),
    }
}

impl View for RecoveryEvent {
    type V = RecoveryEventView;

    open spec fn view(&self) -> RecoveryEventView {
        match self {
            RecoveryEvent::SidecarRead(Ok(document)) => RecoveryEventView::SidecarRead(Ok(document@)),
            RecoveryEvent::SidecarRead(Err(words)) => RecoveryEventView::SidecarRead(Err(words@)),
            RecoveryEvent::Looked { active } => RecoveryEventView::Looked { active: *active },
            RecoveryEvent::IdentityRead(Ok(identity)) => RecoveryEventView::IdentityRead(Ok(identity@)),
            RecoveryEvent::IdentityRead(Err(words)) => RecoveryEventView::IdentityRead(Err(words@)),
            RecoveryEvent::JournalRead { lines, quarantined } => RecoveryEventView::JournalRead {
                lines: match lines {
                    Ok(n) => Ok(*n),
                    Err(e) => Err(e@),
                },
                quarantined: *quarantined,
            },
            RecoveryEvent::Searched(Ok(found)) => RecoveryEventView::Searched(Ok(*found)),
            RecoveryEvent::Searched(Err(e)) => RecoveryEventView::Searched(Err(e@)),
            RecoveryEvent::SidecarRemoved(outcome) => RecoveryEventView::SidecarRemoved(word_fault(*outcome)),
            RecoveryEvent::RecordOpened(Ok(r)) => RecoveryEventView::RecordOpened(Ok(r@)),
            RecoveryEvent::RecordOpened(Err(words)) => RecoveryEventView::RecordOpened(Err(words@)),
            RecoveryEvent::Appended(outcome) => RecoveryEventView::Appended(word_fault(*outcome)),
            RecoveryEvent::Published(outcome) => RecoveryEventView::Published(final_fault(*outcome)),
            RecoveryEvent::ReceiptRead { head, count, found } => RecoveryEventView::ReceiptRead {
                head: head@,
                count: *count,
                found: found@,
            },
            RecoveryEvent::Installed { fresh, quarantined } => RecoveryEventView::Installed {
                fresh: *fresh,
                quarantined: *quarantined,
            },
            RecoveryEvent::Closed(outcome) => RecoveryEventView::Closed(final_fault(*outcome)),
            RecoveryEvent::ArtifactRead(found) => RecoveryEventView::ArtifactRead(found@),
            RecoveryEvent::ArtifactWritten(outcome) => RecoveryEventView::ArtifactWritten(final_fault(*outcome)),
            RecoveryEvent::ArtifactSealed(outcome) => RecoveryEventView::ArtifactSealed(final_fault(*outcome)),
            RecoveryEvent::JournalCleared(outcome) => RecoveryEventView::JournalCleared(final_fault(*outcome)),
            RecoveryEvent::Ended => RecoveryEventView::Ended,
        }
    }
}

impl View for RecoveryAction {
    type V = RecoveryActionView;

    open spec fn view(&self) -> RecoveryActionView {
        match self {
            RecoveryAction::Ignore => RecoveryActionView::Ignore,
            RecoveryAction::Look => RecoveryActionView::Look,
            RecoveryAction::ReadIdentity(document) => RecoveryActionView::ReadIdentity(document@),
            RecoveryAction::ReadJournal => RecoveryActionView::ReadJournal,
            RecoveryAction::InstallFailed(restored) => RecoveryActionView::InstallFailed(restored@),
            RecoveryAction::Search => RecoveryActionView::Search,
            RecoveryAction::SetSidecarAside => RecoveryActionView::SetSidecarAside,
            RecoveryAction::RemoveSidecar => RecoveryActionView::RemoveSidecar,
            RecoveryAction::OpenRecord(index) => RecoveryActionView::OpenRecord(*index),
            RecoveryAction::Append => RecoveryActionView::Append,
            RecoveryAction::Publish { note } => RecoveryActionView::Publish { note: *note },
            RecoveryAction::ReadReceipt => RecoveryActionView::ReadReceipt,
            RecoveryAction::Install(restored) => RecoveryActionView::Install(restored@),
            RecoveryAction::Quarantine { mark_failed } => RecoveryActionView::Quarantine {
                mark_failed: *mark_failed,
            },
            RecoveryAction::MarkFailed => RecoveryActionView::MarkFailed,
            RecoveryAction::Close { stop_reason } => RecoveryActionView::Close { stop_reason: *stop_reason },
            RecoveryAction::ReadArtifact => RecoveryActionView::ReadArtifact,
            RecoveryAction::WriteArtifact => RecoveryActionView::WriteArtifact,
            RecoveryAction::SealArtifact => RecoveryActionView::SealArtifact,
            RecoveryAction::ClearJournal => RecoveryActionView::ClearJournal,
            RecoveryAction::SkipUnsupported => RecoveryActionView::SkipUnsupported,
            RecoveryAction::Finish(outcome) => RecoveryActionView::Finish(*outcome),
            RecoveryAction::Fail(e) => RecoveryActionView::Fail(e@),
        }
    }
}

/// The state in which the recovery of one journal begins.
pub open spec fn fresh_recovery(workflow: Workflow) -> RecoveryView {
    RecoveryView {
        workflow,
        stage: RecoveryStage::Reading,
        session_id: Seq::empty(),
        identity: None,
        replay: None,
        record: None,
        lines: 0,
    }
}

impl RecoveryView {
    /// Whether a stage works on the records of the journal.
    pub open spec fn replays(self) -> bool {
        match self.stage {
            RecoveryStage::Listing => true,
            RecoveryStage::Opening => true,
            RecoveryStage::Appending => true,
            RecoveryStage::Publishing => true,
            RecoveryStage::Attesting => true,
            RecoveryStage::Installing => true,
            RecoveryStage::Comparing => true,
            RecoveryStage::Writing => true,
            _ => false,
        }
    }

    /// A state is well formed when it holds what its stage works on.
    pub open spec fn wf(self) -> bool {
        &&& self.replays() ==> self.replay is Some && self.replay->0.workflow == self.workflow
        &&& self.stage == RecoveryStage::Appending || self.stage == RecoveryStage::Publishing ==> self.record is Some
        &&& self.stage == RecoveryStage::Identifying ==> self.identity is Some
    }

    /// The state at another stage.
    pub open spec fn at(self, stage: RecoveryStage) -> RecoveryView {
        RecoveryView { stage, ..self }
    }

    /// The session as its records give it. It is sealed; one of the unsigned
    /// workflow is put back only where its capture is incomplete.
    pub open spec fn restored(self, receipt: bool) -> RestoredView {
        RestoredView {
            agent: self.replay->0.latest,
            totals: self.replay->0.totals,
            sequence: self.replay->0.next,
            index: if self.workflow == Workflow::Unsigned {
                Some(self.lines)
            } else {
                None
            },
            sealed: true,
            capture_failed: self.workflow == Workflow::Unsigned,
            receipt,
        }
    }

    /// The session with incomplete effects, whose records are not looked at.
    pub open spec fn restored_failed(self) -> RestoredView {
        RestoredView {
            agent: self.replay->0.bound,
            totals: replay::no_totals(),
            sequence: 0,
            index: Some(self.lines),
            sealed: true,
            capture_failed: true,
            receipt: false,
        }
    }

    /// The end, without anything more to be done.
    pub open spec fn finish(self, outcome: CandidateOutcome) -> (RecoveryView, RecoveryActionView) {
        (self.at(RecoveryStage::Done), RecoveryActionView::Finish(outcome))
    }

    /// The end by a failure.
    pub open spec fn fail(self, e: FinalizeErrorView) -> (RecoveryView, RecoveryActionView) {
        (
            RecoveryView { stage: RecoveryStage::Done, replay: None, record: None, ..self },
            RecoveryActionView::Fail(e),
        )
    }

    /// What comes once a record is behind: the next one, or, once all are,
    /// the accounts and what they allow.
    pub open spec fn advance(self) -> (RecoveryView, RecoveryActionView) {
        let r = self.replay->0;
        if r.next < self.lines {
            (self.at(RecoveryStage::Opening), RecoveryActionView::OpenRecord(r.next))
        } else if r.miscounted() {
            self.fail(
                FinalizeErrorView::Atif(
                    match self.workflow {
                        Workflow::Signed => "signed journal has inconsistent tool accounting"@,
                        Workflow::Unsigned => "unsigned journal has inconsistent tool accounting"@,
                    },
                ),
            )
        } else if self.workflow == Workflow::Signed {
            (self.at(RecoveryStage::Attesting), RecoveryActionView::ReadReceipt)
        } else if r.pending != Set::<Seq<char>>::empty() {
            (self.at(RecoveryStage::Installing), RecoveryActionView::Install(self.restored(false)))
        } else {
            (self.at(RecoveryStage::Comparing), RecoveryActionView::ReadArtifact)
        }
    }

    /// What comes once the record at hand is to be counted.
    pub open spec fn count(self) -> Result<RecoveryView, FinalizeErrorView> {
        let r = self.replay->0;
        match replay::sum_fault(r.totals, self.record->0.counts, r.workflow) {
            Some(field) => Err(replay::atif_fault("recovered "@ + field + " overflow"@)),
            None => Ok(RecoveryView { replay: Some(r.counted(self.record->0)), ..self }),
        }
    }

    /// What becomes of a recovery while the candidate is looked at, before
    /// its records are.
    pub open spec fn next_before(self, event: RecoveryEventView) -> (RecoveryView, RecoveryActionView) {
        match (self.stage, event) {
            (RecoveryStage::Reading, RecoveryEventView::SidecarRead(Err(words))) => self.fail(
                FinalizeErrorView::Atif(words),
            ),
            (RecoveryStage::Reading, RecoveryEventView::SidecarRead(Ok(metadata))) => match sidecar(
                metadata,
                self.workflow,
            ) {
                Err(e) => self.fail(e),
                Ok(SidecarView::Unsupported) => (
                    self.at(RecoveryStage::Done),
                    RecoveryActionView::SkipUnsupported,
                ),
                Ok(SidecarView::OtherWorkflow) => self.finish(CandidateOutcome::Skipped),
                Ok(SidecarView::Of(id)) => (
                    RecoveryView {
                        stage: RecoveryStage::Looking,
                        session_id: id,
                        identity: json::member(metadata, "identity"@),
                        ..self
                    },
                    RecoveryActionView::Look,
                ),
            },
            (RecoveryStage::Looking, RecoveryEventView::Looked { active }) => if active {
                self.finish(CandidateOutcome::Skipped)
            } else {
                match self.identity {
                    None => self.fail(FinalizeErrorView::Atif("journal metadata has no identity"@)),
                    Some(document) => (
                        self.at(RecoveryStage::Identifying),
                        RecoveryActionView::ReadIdentity(document),
                    ),
                }
            },
            (RecoveryStage::Identifying, RecoveryEventView::IdentityRead(Err(words))) => self.fail(
                FinalizeErrorView::Atif(words),
            ),
            (RecoveryStage::Identifying, RecoveryEventView::IdentityRead(Ok(identity))) => (
                RecoveryView {
                    stage: RecoveryStage::Listing,
                    replay: Some(replay::fresh_replay(self.session_id, self.workflow, identity)),
                    ..self
                },
                RecoveryActionView::ReadJournal,
            ),
            (RecoveryStage::Listing, RecoveryEventView::JournalRead { lines: Err(e), .. }) => self.fail(e),
            (RecoveryStage::Listing, RecoveryEventView::JournalRead { lines: Ok(lines), quarantined }) => {
                let read = RecoveryView { lines, ..self };
                if quarantined && self.workflow == Workflow::Unsigned {
                    (
                        read.at(RecoveryStage::Ending(CandidateOutcome::Recovered)),
                        RecoveryActionView::InstallFailed(read.restored_failed()),
                    )
                } else if lines == 0 {
                    (read.at(RecoveryStage::Searching), RecoveryActionView::Search)
                } else {
                    (read.at(RecoveryStage::Opening), RecoveryActionView::OpenRecord(0))
                }
            },
            (RecoveryStage::Searching, RecoveryEventView::Searched(Err(e))) => self.fail(e),
            (RecoveryStage::Searching, RecoveryEventView::Searched(Ok(found))) => if found {
                (
                    self.at(RecoveryStage::Ending(CandidateOutcome::Skipped)),
                    RecoveryActionView::SetSidecarAside,
                )
            } else {
                (self.at(RecoveryStage::Removing), RecoveryActionView::RemoveSidecar)
            },
            (RecoveryStage::Removing, RecoveryEventView::SidecarRemoved(fault)) => match fault {
                Some(words) => self.fail(FinalizeErrorView::Atif(words)),
                None => self.finish(CandidateOutcome::Skipped),
            },
            _ => (self, RecoveryActionView::Ignore),
        }
    }

    /// What becomes of a recovery while records are replayed.
    pub open spec fn next_record(self, event: RecoveryEventView) -> (RecoveryView, RecoveryActionView) {
        let signed = self.workflow == Workflow::Signed;
        match (self.stage, event) {
            (RecoveryStage::Opening, RecoveryEventView::RecordOpened(Err(words))) => self.fail(
                FinalizeErrorView::Atif(words),
            ),
            (RecoveryStage::Opening, RecoveryEventView::RecordOpened(Ok(r))) => match self.replay->0.record_fault(r) {
                Some(e) => self.fail(e),
                None => {
                    let taken = RecoveryView {
                        replay: Some(self.replay->0.checked(r)),
                        record: Some(r),
                        ..self
                    };
                    if signed {
                        (taken.at(RecoveryStage::Appending), RecoveryActionView::Append)
                    } else {
                        (taken.at(RecoveryStage::Publishing), RecoveryActionView::Publish { note: None })
                    }
                },
            },
            (RecoveryStage::Appending, RecoveryEventView::Appended(Some(words))) => self.fail(
                if signed {
                    FinalizeErrorView::Receipt(words)
                } else {
                    FinalizeErrorView::Atif(words)
                },
            ),
            (RecoveryStage::Appending, RecoveryEventView::Appended(None)) => match self.count() {
                Err(e) => self.fail(e),
                Ok(counted) => if signed {
                    (
                        counted.at(RecoveryStage::Publishing),
                        RecoveryActionView::Publish { note: self.record->0.stop_reason },
                    )
                } else {
                    counted.advance()
                },
            },
            (RecoveryStage::Publishing, RecoveryEventView::Published(Some(e))) => self.fail(e),
            (RecoveryStage::Publishing, RecoveryEventView::Published(None)) => if signed {
                self.advance()
            } else if !self.record->0.has_step {
                self.fail(FinalizeErrorView::Atif("unsigned active record has no ATIF step"@))
            } else {
                (self.at(RecoveryStage::Appending), RecoveryActionView::Append)
            },
            _ => (self, RecoveryActionView::Ignore),
        }
    }

    /// What becomes of a recovery once its records are replayed.
    pub open spec fn next_after(self, event: RecoveryEventView) -> (RecoveryView, RecoveryActionView) {
        match (self.stage, event) {
            (RecoveryStage::Attesting, RecoveryEventView::ReceiptRead { head, count, found }) => match attested(
                found,
                SubjectView::Chain { head, count },
            ) {
                Err(e) => self.fail(e),
                Ok(present) => (
                    self.at(RecoveryStage::Installing),
                    RecoveryActionView::Install(self.restored(present)),
                ),
            },
            (RecoveryStage::Installing, RecoveryEventView::Installed { fresh, quarantined }) => if !fresh {
                self.finish(CandidateOutcome::Skipped)
            } else if self.replay->0.pending != Set::<Seq<char>>::empty() {
                (
                    self.at(RecoveryStage::Ending(CandidateOutcome::Recovered)),
                    RecoveryActionView::Quarantine { mark_failed: self.workflow == Workflow::Signed },
                )
            } else if quarantined {
                (
                    self.at(RecoveryStage::Ending(CandidateOutcome::Recovered)),
                    RecoveryActionView::MarkFailed,
                )
            } else {
                (
                    self.at(RecoveryStage::Closing),
                    RecoveryActionView::Close { stop_reason: StopReason::SessionClosed },
                )
            },
            (RecoveryStage::Closing, RecoveryEventView::Closed(fault)) => match fault {
                Some(e) => self.fail(e),
                None => self.finish(CandidateOutcome::Recovered),
            },
            (RecoveryStage::Comparing, RecoveryEventView::ArtifactRead(found)) => match found {
                ArtifactView::Absent => (self.at(RecoveryStage::Writing), RecoveryActionView::WriteArtifact),
                ArtifactView::Unreadable(words) => self.fail(FinalizeErrorView::Atif(words)),
                ArtifactView::Found { document, rebuilt } => if artifact::same_trajectory(document, rebuilt) {
                    (self.at(RecoveryStage::Sealing), RecoveryActionView::SealArtifact)
                } else {
                    self.fail(
                        FinalizeErrorView::Atif("persisted ATIF does not match authenticated active journal"@),
                    )
                },
            },
            (RecoveryStage::Writing, RecoveryEventView::ArtifactWritten(fault)) => match fault {
                Some(e) => self.fail(e),
                None => (self.at(RecoveryStage::Sealing), RecoveryActionView::SealArtifact),
            },
            (RecoveryStage::Sealing, RecoveryEventView::ArtifactSealed(fault)) => match fault {
                Some(e) => self.fail(e),
                None => (self.at(RecoveryStage::Clearing), RecoveryActionView::ClearJournal),
            },
            (RecoveryStage::Clearing, RecoveryEventView::JournalCleared(fault)) => match fault {
                Some(e) => self.fail(e),
                None => self.finish(CandidateOutcome::Recovered),
            },
            (RecoveryStage::Ending(outcome), RecoveryEventView::Ended) => self.finish(outcome),
            _ => (self, RecoveryActionView::Ignore),
        }
    }

    /// What becomes of a recovery when something happens, and what is to be
    /// done.
    pub open spec fn next(self, event: RecoveryEventView) -> (RecoveryView, RecoveryActionView) {
        match self.stage {
            RecoveryStage::Reading => self.next_before(event),
            RecoveryStage::Looking => self.next_before(event),
            RecoveryStage::Identifying => self.next_before(event),
            RecoveryStage::Listing => self.next_before(event),
            RecoveryStage::Searching => self.next_before(event),
            RecoveryStage::Removing => self.next_before(event),
            RecoveryStage::Opening => self.next_record(event),
            RecoveryStage::Appending => self.next_record(event),
            RecoveryStage::Publishing => self.next_record(event),
            _ => self.next_after(event),
        }
    }
}

impl JournalRecovery {
    /// The session that it is about.
    pub fn session_id(&self) -> (id: &String)
        ensures
            id@ == self@.session_id,
    {
        &self.session_id
    }

    /// The workflow of the session.
    pub fn workflow(&self) -> (workflow: Workflow)
        ensures
            workflow == self@.workflow,
    {
        self.workflow
    }

    /// What the records have given so far, once there is a journal.
    pub fn replay(&self) -> (replay: Option<&Replay>)
        ensures
            match replay {
                Some(r) => self@.replay == Some(r@),
                None => self@.replay is None,
            },
    {
        self.replay.as_ref()
    }

    /// Begins the recovery of one journal.
    pub fn new(workflow: Workflow) -> (recovery: JournalRecovery)
        ensures
            recovery@ == fresh_recovery(workflow),
            recovery@.wf(),
    {
        JournalRecovery {
            workflow,
            stage: RecoveryStage::Reading,
            session_id: String::new(),
            identity: None,
            replay: None,
            record: None,
            lines: 0,
        }
    }

    /// Ends by a failure.
    fn fail(&mut self, e: FinalizeError) -> (action: RecoveryAction)
        ensures
            (final(self)@, action@) == old(self)@.fail(e@),
            final(self)@.wf(),
    {
        self.stage = RecoveryStage::Done;
        self.replay = None;
        self.record = None;
        RecoveryAction::Fail(e)
    }

    /// Ends.
    fn finish(&mut self, outcome: CandidateOutcome) -> (action: RecoveryAction)
        ensures
            (final(self)@, action@) == old(self)@.finish(outcome),
            final(self)@.wf(),
    {
        self.stage = RecoveryStage::Done;
        RecoveryAction::Finish(outcome)
    }

    /// The session as its records give it.
    fn restored(&self, receipt: bool) -> (restored: Option<Restored>)
        ensures
            match restored {
                Some(r) => self@.replay is Some && r@ == self@.restored(receipt),
                None => self@.replay is None,
            },
    {
        let index: Option<u64> = if self.workflow == Workflow::Unsigned {
            Some(self.lines)
        } else {
            None
        };
        match &self.replay {
            Some(r) => Some(
                Restored {
                    agent: replay::copy_identity(&r.latest),
                    totals: r.totals,
                    sequence: r.next,
                    index,
                    sealed: true,
                    capture_failed: self.workflow == Workflow::Unsigned,
                    receipt,
                },
            ),
            None => None,
        }
    }

    /// Puts the session back as its records give it.
    fn install(&mut self, receipt: bool) -> (action: RecoveryAction)
        requires
            old(self)@.wf(),
            old(self)@.replays(),
        ensures
            (final(self)@, action@) == (
                old(self)@.at(RecoveryStage::Installing),
                RecoveryActionView::Install(old(self)@.restored(receipt)),
            ),
            final(self)@.wf(),
    {
        match self.restored(receipt) {
            Some(restored) => {
                self.stage = RecoveryStage::Installing;
                RecoveryAction::Install(restored)
            },
            None => RecoveryAction::Ignore,
        }
    }

    /// Puts the session back as one with incomplete effects.
    fn install_failed(&mut self) -> (action: RecoveryAction)
        requires
            old(self)@.wf(),
            old(self)@.replays(),
        ensures
            (final(self)@, action@) == (
                old(self)@.at(RecoveryStage::Ending(CandidateOutcome::Recovered)),
                RecoveryActionView::InstallFailed(old(self)@.restored_failed()),
            ),
            final(self)@.wf(),
    {
        let agent: AgentIdentity = match &self.replay {
            Some(r) => replay::copy_identity(&r.bound),
            None => {
                return RecoveryAction::Ignore;
            },
        };
        let totals = Totals {
            tool_calls: 0,
            tool_allowed: 0,
            tool_blocked: 0,
            prompt_tokens: 0,
            completion_tokens: 0,
            cached_tokens: 0,
            cost_usd_micros: 0,
        };
        self.stage = RecoveryStage::Ending(CandidateOutcome::Recovered);
        RecoveryAction::InstallFailed(
            Restored {
                agent,
                totals,
                sequence: 0,
                index: Some(self.lines),
                sealed: true,
                capture_failed: true,
                receipt: false,
            },
        )
    }

    /// Goes on to the next record, or to what the accounts allow.
    fn advance(&mut self) -> (action: RecoveryAction)
        requires
            old(self)@.wf(),
            old(self)@.replays(),
        ensures
            (final(self)@, action@) == old(self)@.advance(),
            final(self)@.wf(),
    {
        let (next, miscounted, settled) = match &self.replay {
            Some(r) => (r.next, r.is_miscounted(), r.pending.is_empty()),
            None => {
                return RecoveryAction::Ignore;
            },
        };
        if next < self.lines {
            self.stage = RecoveryStage::Opening;
            RecoveryAction::OpenRecord(next)
        } else if miscounted {
            let words: String = match self.workflow {
                Workflow::Signed => "signed journal has inconsistent tool accounting".to_owned(),
                Workflow::Unsigned => "unsigned journal has inconsistent tool accounting".to_owned(),
            };
            self.fail(FinalizeError::Atif(words))
        } else if self.workflow == Workflow::Signed {
            self.stage = RecoveryStage::Attesting;
            RecoveryAction::ReadReceipt
        } else if !settled {
            self.install(false)
        } else {
            self.stage = RecoveryStage::Comparing;
            RecoveryAction::ReadArtifact
        }
    }

    /// Looks at the sidecar.
    fn step_sidecar(&mut self, read: Result<Json, String>) -> (action: RecoveryAction)
        requires
            old(self)@.wf(),
            old(self)@.stage == RecoveryStage::Reading,
        ensures
            (final(self)@, action@) == old(self)@.next_before(RecoveryEvent::SidecarRead(read)@),
            final(self)@.wf(),
    {
        let metadata: Json = match read {
            Ok(metadata) => metadata,
            Err(words) => {
                return self.fail(FinalizeError::Atif(words));
            },
        };
        match read_sidecar(&metadata, self.workflow) {
            Err(e) => self.fail(e),
            Ok(Sidecar::Unsupported) => {
                self.stage = RecoveryStage::Done;
                RecoveryAction::SkipUnsupported
            },
            Ok(Sidecar::OtherWorkflow) => self.finish(CandidateOutcome::Skipped),
            Ok(Sidecar::Of(id)) => {
                self.session_id = id;
                self.identity = match metadata.get("identity") {
                    Some(document) => Some(document.copy()),
                    None => None,
                };
                self.stage = RecoveryStage::Looking;
                RecoveryAction::Look
            },
        }
    }

    /// Takes a step while the candidate is looked at.
    fn step_before(&mut self, event: RecoveryEvent) -> (action: RecoveryAction)
        requires
            old(self)@.wf(),
        ensures
            (final(self)@, action@) == old(self)@.next_before(event@),
            final(self)@.wf(),
    {
        match event {
            RecoveryEvent::SidecarRead(read) => {
                if self.stage == RecoveryStage::Reading {
                    return self.step_sidecar(read);
                }
            },
            RecoveryEvent::Looked { active } => {
                if self.stage == RecoveryStage::Looking {
                    if active {
                        return self.finish(CandidateOutcome::Skipped);
                    }
                    let document: Option<Json> = match &self.identity {
                        Some(document) => Some(document.copy()),
                        None => None,
                    };
                    return match document {
                        Some(document) => {
                            self.stage = RecoveryStage::Identifying;
                            RecoveryAction::ReadIdentity(document)
                        },
                        None => self.fail(FinalizeError::Atif("journal metadata has no identity".to_owned())),
                    };
                }
            },
            RecoveryEvent::IdentityRead(read) => {
                if self.stage == RecoveryStage::Identifying {
                    return match read {
                        Ok(identity) => {
                            self.replay = Some(Replay::new(self.session_id.clone(), self.workflow, identity));
                            self.stage = RecoveryStage::Listing;
                            RecoveryAction::ReadJournal
                        },
                        Err(words) => self.fail(FinalizeError::Atif(words)),
                    };
                }
            },
            RecoveryEvent::JournalRead { lines, quarantined } => {
                if self.stage == RecoveryStage::Listing {
                    return match lines {
                        Err(e) => self.fail(e),
                        Ok(lines) => {
                            self.lines = lines;
                            if quarantined && self.workflow == Workflow::Unsigned {
                                self.install_failed()
                            } else if lines == 0 {
                                self.stage = RecoveryStage::Searching;
                                RecoveryAction::Search
                            } else {
                                self.stage = RecoveryStage::Opening;
                                RecoveryAction::OpenRecord(0)
                            }
                        },
                    };
                }
            },
            RecoveryEvent::Searched(searched) => {
                if self.stage == RecoveryStage::Searching {
                    return match searched {
                        Err(e) => self.fail(e),
                        Ok(true) => {
                            self.stage = RecoveryStage::Ending(CandidateOutcome::Skipped);
                            RecoveryAction::SetSidecarAside
                        },
                        Ok(false) => {
                            self.stage = RecoveryStage::Removing;
                            RecoveryAction::RemoveSidecar
                        },
                    };
                }
            },
            RecoveryEvent::SidecarRemoved(outcome) => {
                if self.stage == RecoveryStage::Removing {
                    return match outcome {
                        Err(words) => self.fail(FinalizeError::Atif(words)),
                        Ok(()) => self.finish(CandidateOutcome::Skipped),
                    };
                }
            },
            _ => {},
        }
        RecoveryAction::Ignore
    }

    /// Takes a record as the next one.
    fn step_open(&mut self, record: JournalRecord) -> (action: RecoveryAction)
        requires
            old(self)@.wf(),
            old(self)@.stage == RecoveryStage::Opening,
        ensures
            (final(self)@, action@) == old(self)@.next_record(RecoveryEventView::RecordOpened(Ok(record@))),
            final(self)@.wf(),
    {
        let mut replay: Replay = match self.replay.take() {
            Some(r) => r,
            None => {
                return RecoveryAction::Ignore;
            },
        };
        match replay.check(&record) {
            Err(e) => self.fail(e),
            Ok(()) => {
                self.replay = Some(replay);
                self.record = Some(record);
                if self.workflow == Workflow::Signed {
                    self.stage = RecoveryStage::Appending;
                    RecoveryAction::Append
                } else {
                    self.stage = RecoveryStage::Publishing;
                    RecoveryAction::Publish { note: None }
                }
            },
        }
    }

    /// Counts the record at hand.
    fn step_append(&mut self) -> (action: RecoveryAction)
        requires
            old(self)@.wf(),
            old(self)@.stage == RecoveryStage::Appending,
        ensures
            (final(self)@, action@) == old(self)@.next_record(RecoveryEventView::Appended(None)),
            final(self)@.wf(),
    {
        let mut replay: Replay = match self.replay.take() {
            Some(r) => r,
            None => {
                return RecoveryAction::Ignore;
            },
        };
        let (counted, note) = match &self.record {
            Some(record) => (replay.count(record), record.stop_reason),
            None => {
                return RecoveryAction::Ignore;
            },
        };
        match counted {
            Err(e) => self.fail(e),
            Ok(()) => {
                self.replay = Some(replay);
                if self.workflow == Workflow::Signed {
                    self.stage = RecoveryStage::Publishing;
                    RecoveryAction::Publish { note }
                } else {
                    self.advance()
                }
            },
        }
    }

    /// Takes a step while records are replayed.
    fn step_record(&mut self, event: RecoveryEvent) -> (action: RecoveryAction)
        requires
            old(self)@.wf(),
        ensures
            (final(self)@, action@) == old(self)@.next_record(event@),
            final(self)@.wf(),
    {
        let signed: bool = self.workflow == Workflow::Signed;
        match event {
            RecoveryEvent::RecordOpened(opened) => {
                if self.stage == RecoveryStage::Opening {
                    return match opened {
                        Ok(record) => self.step_open(record),
                        Err(words) => self.fail(FinalizeError::Atif(words)),
                    };
                }
            },
            RecoveryEvent::Appended(outcome) => {
                if self.stage == RecoveryStage::Appending {
                    return match outcome {
                        Ok(()) => self.step_append(),
                        Err(words) => {
                            if signed {
                                self.fail(FinalizeError::Receipt(words))
                            } else {
                                self.fail(FinalizeError::Atif(words))
                            }
                        },
                    };
                }
            },
            RecoveryEvent::Published(outcome) => {
                if self.stage == RecoveryStage::Publishing {
                    let has_step: bool = match &self.record {
                        Some(record) => record.has_step,
                        None => false,
                    };
                    return match outcome {
                        Err(e) => self.fail(e),
                        Ok(()) => {
                            if signed {
                                self.advance()
                            } else if !has_step {
                                self.fail(
                                    FinalizeError::Atif("unsigned active record has no ATIF step".to_owned()),
                                )
                            } else {
                                self.stage = RecoveryStage::Appending;
                                RecoveryAction::Append
                            }
                        },
                    };
                }
            },
            _ => {},
        }
        RecoveryAction::Ignore
    }

    /// Looks at what became of putting the session back.
    fn step_installed(&mut self, fresh: bool, quarantined: bool) -> (action: RecoveryAction)
        requires
            old(self)@.wf(),
            old(self)@.stage == RecoveryStage::Installing,
        ensures
            (final(self)@, action@) == old(self)@.next_after(RecoveryEventView::Installed { fresh, quarantined }),
            final(self)@.wf(),
    {
        let settled: bool = match &self.replay {
            Some(r) => r.pending.is_empty(),
            None => {
                return RecoveryAction::Ignore;
            },
        };
        if !fresh {
            self.finish(CandidateOutcome::Skipped)
        } else if !settled {
            self.stage = RecoveryStage::Ending(CandidateOutcome::Recovered);
            RecoveryAction::Quarantine { mark_failed: self.workflow == Workflow::Signed }
        } else if quarantined {
            self.stage = RecoveryStage::Ending(CandidateOutcome::Recovered);
            RecoveryAction::MarkFailed
        } else {
            self.stage = RecoveryStage::Closing;
            RecoveryAction::Close { stop_reason: StopReason::SessionClosed }
        }
    }

    /// Goes on to a stage, or ends by a failure.
    fn go_on(&mut self, outcome: Result<(), FinalizeError>, stage: RecoveryStage, action: RecoveryAction) -> (taken: RecoveryAction)
        requires
            old(self)@.wf(),
            old(self)@.at(stage).wf(),
        ensures
            (final(self)@, taken@) == (match final_fault(outcome) {
                Some(e) => old(self)@.fail(e),
                None => (old(self)@.at(stage), action@),
            }),
            final(self)@.wf(),
    {
        match outcome {
            Err(e) => self.fail(e),
            Ok(()) => {
                self.stage = stage;
                action
            },
        }
    }

    /// Takes a step once the records are replayed.
    fn step_after(&mut self, event: RecoveryEvent) -> (action: RecoveryAction)
        requires
            old(self)@.wf(),
        ensures
            (final(self)@, action@) == old(self)@.next_after(event@),
            final(self)@.wf(),
    {
        match event {
            RecoveryEvent::ReceiptRead { head, count, found } => {
                if self.stage == RecoveryStage::Attesting {
                    let expected = Subject::Chain { head, count };
                    return match check_attested(found, &expected) {
                        Err(e) => self.fail(e),
                        Ok(present) => self.install(present),
                    };
                }
            },
            RecoveryEvent::Installed { fresh, quarantined } => {
                if self.stage == RecoveryStage::Installing {
                    return self.step_installed(fresh, quarantined);
                }
            },
            RecoveryEvent::Closed(outcome) => {
                if self.stage == RecoveryStage::Closing {
                    return self.go_on(
                        outcome,
                        RecoveryStage::Done,
                        RecoveryAction::Finish(CandidateOutcome::Recovered),
                    );
                }
            },
            RecoveryEvent::ArtifactRead(found) => {
                if self.stage == RecoveryStage::Comparing {
                    return match found {
                        ArtifactOnDisk::Absent => {
                            self.stage = RecoveryStage::Writing;
                            RecoveryAction::WriteArtifact
                        },
                        ArtifactOnDisk::Unreadable(words) => self.fail(FinalizeError::Atif(words)),
                        ArtifactOnDisk::Found { document, rebuilt } => {
                            if artifact::same_artifact(&document, &rebuilt) {
                                self.stage = RecoveryStage::Sealing;
                                RecoveryAction::SealArtifact
                            } else {
                                self.fail(
                                    FinalizeError::Atif(
                                        "persisted ATIF does not match authenticated active journal".to_owned(),
                                    ),
                                )
                            }
                        },
                    };
                }
            },
            RecoveryEvent::ArtifactWritten(outcome) => {
                if self.stage == RecoveryStage::Writing {
                    return self.go_on(outcome, RecoveryStage::Sealing, RecoveryAction::SealArtifact);
                }
            },
            RecoveryEvent::ArtifactSealed(outcome) => {
                if self.stage == RecoveryStage::Sealing {
                    return self.go_on(outcome, RecoveryStage::Clearing, RecoveryAction::ClearJournal);
                }
            },
            RecoveryEvent::JournalCleared(outcome) => {
                if self.stage == RecoveryStage::Clearing {
                    return self.go_on(
                        outcome,
                        RecoveryStage::Done,
                        RecoveryAction::Finish(CandidateOutcome::Recovered),
                    );
                }
            },
            RecoveryEvent::Ended => {
                if let RecoveryStage::Ending(outcome) = self.stage {
                    return self.finish(outcome);
                }
            },
            _ => {},
        }
        RecoveryAction::Ignore
    }

    /// Takes one step of the recovery.
    pub fn step(&mut self, event: RecoveryEvent) -> (action: RecoveryAction)
        requires
            old(self)@.wf(),
        ensures
            (final(self)@, action@) == old(self)@.next(event@),
            final(self)@.wf(),
    {
        match self.stage {
            RecoveryStage::Reading => self.step_before(event),
            RecoveryStage::Looking => self.step_before(event),
            RecoveryStage::Identifying => self.step_before(event),
            RecoveryStage::Listing => self.step_before(event),
            RecoveryStage::Searching => self.step_before(event),
            RecoveryStage::Removing => self.step_before(event),
            RecoveryStage::Opening => self.step_record(event),
            RecoveryStage::Appending => self.step_record(event),
            RecoveryStage::Publishing => self.step_record(event),
            _ => self.step_after(event),
        }
    }
}

/// The records of a recovery after one more event.
pub open spec fn records_after(
    before: RecoveryView,
    records: Seq<JournalRecordView>,
    event: RecoveryEventView,
) -> Seq<JournalRecordView> {
    match (before.stage, event) {
        (RecoveryStage::Opening, RecoveryEventView::RecordOpened(Ok(r))) => records.push(r),
        _ => records,
    }
}

/// A recovery after a number of events, with the records that it took in.
pub open spec fn run(workflow: Workflow, events: Seq<RecoveryEventView>) -> (RecoveryView, Seq<JournalRecordView>)
    decreases events.len(),
{
    if events.len() == 0 {
        (fresh_recovery(workflow), Seq::empty())
    } else {
        let (before, records) = run(workflow, events.drop_last());
        (before.next(events.last()).0, records_after(before, records, events.last()))
    }
}

impl RecoveryView {
    /// The replay of records that this recovery has begun with.
    pub open spec fn replay_of(self, records: Seq<JournalRecordView>) -> Result<ReplayView, FinalizeErrorView> {
        replay::replayed(
            replay::fresh_replay(self.session_id, self.workflow, self.replay->0.bound),
            records,
        )
    }

    /// What holds of a recovery and the records that it took in.
    spec fn follows(self, records: Seq<JournalRecordView>) -> bool {
        let before = self.replay_of(records.drop_last());
        let last = records.last();
        let signed = self.workflow == Workflow::Signed;
        match self.stage {
            RecoveryStage::Listing => records.len() == 0 && self.replay_of(records) == Ok::<
                ReplayView,
                FinalizeErrorView,
            >(self.replay->0),
            RecoveryStage::Opening => {
                &&& self.replay_of(records) == Ok::<ReplayView, FinalizeErrorView>(self.replay->0)
                &&& self.replay->0.next == records.len() < self.lines
            },
            RecoveryStage::Appending | RecoveryStage::Publishing => {
                &&& 0 < records.len() <= self.lines
                &&& self.record == Some(last)
                &&& before is Ok
                &&& before->Ok_0.record_fault(last) is None
                &&& before->Ok_0.next == records.len() - 1
                &&& if signed && self.stage == RecoveryStage::Publishing {
                    &&& replay::sum_fault(before->Ok_0.totals, last.counts, self.workflow) is None
                    &&& self.replay == Some(before->Ok_0.checked(last).counted(last))
                } else {
                    &&& self.replay == Some(before->Ok_0.checked(last))
                    &&& !signed && self.stage == RecoveryStage::Appending ==> last.has_step
                }
            },
            RecoveryStage::Attesting | RecoveryStage::Installing | RecoveryStage::Comparing | RecoveryStage::Writing => {
                &&& self.replay_of(records) == Ok::<ReplayView, FinalizeErrorView>(self.replay->0)
                &&& records.len() == self.lines
                &&& !self.replay->0.miscounted()
                &&& self.stage == RecoveryStage::Comparing || self.stage == RecoveryStage::Writing ==> !signed
                    && self.replay->0.pending == Set::<Seq<char>>::empty()
            },
            RecoveryStage::Reading | RecoveryStage::Looking | RecoveryStage::Identifying => records.len() == 0,
            _ => true,
        }
    }
}

/// A recovery that has worked off a record goes on in step with the replay.
proof fn lemma_advance_follows(state: RecoveryView, records: Seq<JournalRecordView>)
    requires
        state.replays(),
        state.wf(),
        state.replay_of(records) == Ok::<ReplayView, FinalizeErrorView>(state.replay->0),
        state.replay->0.next == records.len() <= state.lines,
    ensures
        state.advance().0.follows(records),
{
}

/// The steps before the records keep a recovery in step with the replay.
proof fn lemma_before_follows(before: RecoveryView, records: Seq<JournalRecordView>, event: RecoveryEventView)
    requires
        before.wf(),
        before.follows(records),
        before.stage != RecoveryStage::Opening,
    ensures
        before.next_before(event).0.wf(),
        before.next_before(event).0.workflow == before.workflow,
        before.next_before(event).0.follows(records),
{
}

/// Opening a record keeps a recovery in step with the replay.
proof fn lemma_open_follows(before: RecoveryView, records: Seq<JournalRecordView>, event: RecoveryEventView)
    requires
        before.wf(),
        before.follows(records),
        before.stage == RecoveryStage::Opening,
    ensures
        before.next_record(event).0.wf(),
        before.next_record(event).0.workflow == before.workflow,
        before.next_record(event).0.follows(records_after(before, records, event)),
{
    if let RecoveryEventView::RecordOpened(Ok(r)) = event {
        assert(records.push(r).drop_last() =~= records);
    }
}

/// Appending a record keeps a recovery in step with the replay.
proof fn lemma_append_follows(before: RecoveryView, records: Seq<JournalRecordView>, event: RecoveryEventView)
    requires
        before.wf(),
        before.follows(records),
        before.stage == RecoveryStage::Appending,
    ensures
        before.next_record(event).0.wf(),
        before.next_record(event).0.workflow == before.workflow,
        before.next_record(event).0.follows(records),
{
    if event == RecoveryEventView::Appended(None) && before.count() is Ok {
        let counted = before.count()->Ok_0;
        if before.workflow == Workflow::Unsigned {
            assert(counted.replay_of(records) == Ok::<ReplayView, FinalizeErrorView>(counted.replay->0));
            lemma_advance_follows(counted, records);
        }
    }
}

/// Publishing a record keeps a recovery in step with the replay.
proof fn lemma_publish_follows(before: RecoveryView, records: Seq<JournalRecordView>, event: RecoveryEventView)
    requires
        before.wf(),
        before.follows(records),
        before.stage == RecoveryStage::Publishing,
    ensures
        before.next_record(event).0.wf(),
        before.next_record(event).0.workflow == before.workflow,
        before.next_record(event).0.follows(records),
{
    if event == RecoveryEventView::Published(None) && before.workflow == Workflow::Signed {
        assert(before.replay_of(records) == Ok::<ReplayView, FinalizeErrorView>(before.replay->0));
        lemma_advance_follows(before, records);
    }
}

/// The steps after the records keep a recovery in step with the replay.
proof fn lemma_after_follows(before: RecoveryView, records: Seq<JournalRecordView>, event: RecoveryEventView)
    requires
        before.wf(),
        before.follows(records),
        before.stage != RecoveryStage::Opening,
    ensures
        before.next_after(event).0.wf(),
        before.next_after(event).0.workflow == before.workflow,
        before.next_after(event).0.follows(records),
{
}

/// A recovery stays in step with the replay of the records that it took in.
proof fn lemma_recovery_follows(workflow: Workflow, events: Seq<RecoveryEventView>)
    ensures
        ({
            let (state, records) = run(workflow, events);
            state.wf() && state.workflow == workflow && state.follows(records)
        }),
    decreases events.len(),
{
    if events.len() > 0 {
        lemma_recovery_follows(workflow, events.drop_last());
        let (before, records) = run(workflow, events.drop_last());
        let event = events.last();
        match before.stage {
            RecoveryStage::Opening => lemma_open_follows(before, records, event),
            RecoveryStage::Appending => lemma_append_follows(before, records, event),
            RecoveryStage::Publishing => lemma_publish_follows(before, records, event),
            RecoveryStage::Reading | RecoveryStage::Looking | RecoveryStage::Identifying | RecoveryStage::Listing
            | RecoveryStage::Searching | RecoveryStage::Removing => lemma_before_follows(before, records, event),
            _ => lemma_after_follows(before, records, event),
        }
    }
}

/// A session that is about to be put back, attested or written down is what
/// its journal says: all the records were replayed, in order, to the sums at
/// hand, and the tool counts agree. An unsigned one is written down only
/// when every attempt at a response is closed.
pub proof fn law_recovered_sessions_match_their_journal(workflow: Workflow, events: Seq<RecoveryEventView>)
    ensures
        ({
            let (state, records) = run(workflow, events);
            match state.stage {
                RecoveryStage::Attesting | RecoveryStage::Installing | RecoveryStage::Comparing
                | RecoveryStage::Writing => {
                    &&& state.replay is Some
                    &&& state.replay_of(records) == Ok::<ReplayView, FinalizeErrorView>(state.replay->0)
                    &&& records.len() == state.lines
                    &&& !state.replay->0.miscounted()
                    &&& state.stage == RecoveryStage::Comparing || state.stage == RecoveryStage::Writing
                        ==> state.replay->0.pending == Set::<Seq<char>>::empty()
                },
                _ => true,
            }
        }),
{
    lemma_recovery_follows(workflow, events);
}

/// A session is closed by the recovery only when it was put back, every
/// attempt at a response is closed, and no effect of it is incomplete.
pub proof fn law_unsettled_sessions_are_not_closed(state: RecoveryView, event: RecoveryEventView)
    requires
        state.wf(),
        state.next(event).1 is Close,
    ensures
        event == (RecoveryEventView::Installed { fresh: true, quarantined: false }),
        state.replay->0.pending == Set::<Seq<char>>::empty(),
{
}

/// A sidecar is removed only when its session left no journal, not even one
/// that was set aside.
pub proof fn law_evidence_is_not_removed(state: RecoveryView, event: RecoveryEventView)
    requires
        state.next(event).1 == RecoveryActionView::RemoveSidecar,
    ensures
        state.stage == RecoveryStage::Searching,
        event == RecoveryEventView::Searched(Ok(false)),
{
}

/// A failure or an end is final: nothing more is done for that journal.
pub proof fn law_recovery_ends_once(state: RecoveryView, event: RecoveryEventView)
    requires
        state.stage == RecoveryStage::Done,
    ensures
        state.next(event) == (state, RecoveryActionView::Ignore),
{
}

/// Where a session stands once an action of its recovery is done, as far as
/// it was put back.
pub open spec fn standing_after(before: Option<Standing>, action: RecoveryActionView) -> Option<Standing> {
    match (action, before) {
        (RecoveryActionView::Install(r), _) => Some(
            Standing { claimed: false, sealed: r.sealed, capture_failed: r.capture_failed },
        ),
        (RecoveryActionView::InstallFailed(r), _) => Some(
            Standing { claimed: false, sealed: r.sealed, capture_failed: r.capture_failed },
        ),
        (RecoveryActionView::Quarantine { mark_failed }, Some(standing)) => Some(
            Standing { capture_failed: standing.capture_failed || mark_failed, ..standing },
        ),
        (RecoveryActionView::MarkFailed, Some(standing)) => Some(Standing { capture_failed: true, ..standing }),
        _ => before,
    }
}

impl RecoveryAction {
    /// Where the session stands once this action is done, as far as it was
    /// put back.
    pub fn standing(&self, before: Option<Standing>) -> (after: Option<Standing>)
        ensures
            after == standing_after(before, self@),
    {
        match self {
            RecoveryAction::Install(r) => Some(
                Standing { claimed: false, sealed: r.sealed, capture_failed: r.capture_failed },
            ),
            RecoveryAction::InstallFailed(r) => Some(
                Standing { claimed: false, sealed: r.sealed, capture_failed: r.capture_failed },
            ),
            RecoveryAction::Quarantine { mark_failed } => match before {
                Some(standing) => Some(
                    Standing {
                        claimed: standing.claimed,
                        sealed: standing.sealed,
                        capture_failed: standing.capture_failed || *mark_failed,
                    },
                ),
                None => None,
            },
            RecoveryAction::MarkFailed => match before {
                Some(standing) => Some(
                    Standing { claimed: standing.claimed, sealed: standing.sealed, capture_failed: true },
                ),
                None => None,
            },
            _ => before,
        }
    }
}

/// Where a session stands after a number of events of its recovery.
pub open spec fn standing_in(workflow: Workflow, events: Seq<RecoveryEventView>) -> Option<Standing>
    decreases events.len(),
{
    if events.len() == 0 {
        None
    } else {
        standing_after(
            standing_in(workflow, events.drop_last()),
            run(workflow, events.drop_last()).0.next(events.last()).1,
        )
    }
}

/// Whether an action takes away from, or adds to, what the session left on
/// disk.
pub open spec fn disturbs(action: RecoveryActionView) -> bool {
    match action {
        RecoveryActionView::WriteArtifact => true,
        RecoveryActionView::SealArtifact => true,
        RecoveryActionView::ClearJournal => true,
        RecoveryActionView::RemoveSidecar => true,
        RecoveryActionView::SetSidecarAside => true,
        RecoveryActionView::Close { .. } => true,
        _ => false,
    }
}

/// Whether anything was done so far to what the session left on disk.
pub open spec fn disturbed(workflow: Workflow, events: Seq<RecoveryEventView>) -> bool
    decreases events.len(),
{
    events.len() > 0 && (disturbed(workflow, events.drop_last()) || disturbs(
        run(workflow, events.drop_last()).0.next(events.last()).1,
    ))
}

impl RecoveryView {
    /// What holds of a recovery as to the session's standing and its files.
    spec fn stands(self, standing: Option<Standing>, disturbed: bool) -> bool {
        &&& standing is Some ==> standing->0.sealed && !standing->0.claimed
        &&& match self.stage {
            RecoveryStage::Installing => standing is Some && !disturbed && (self.workflow == Workflow::Unsigned
                ==> standing->0.capture_failed),
            RecoveryStage::Ending(CandidateOutcome::Recovered) => standing is Some && standing->0.capture_failed
                && !disturbed,
            RecoveryStage::Ending(CandidateOutcome::Skipped) => true,
            RecoveryStage::Removing | RecoveryStage::Closing | RecoveryStage::Writing | RecoveryStage::Sealing
            | RecoveryStage::Clearing | RecoveryStage::Done => true,
            _ => !disturbed,
        }
    }
}

/// The steps before the records keep what holds of the session's standing.
proof fn lemma_before_stands(
    before: RecoveryView,
    event: RecoveryEventView,
    standing: Option<Standing>,
    disturbed: bool,
)
    requires
        before.stands(standing, disturbed),
    ensures
        ({
            let (after, action) = before.next_before(event);
            after.stands(standing_after(standing, action), disturbed || disturbs(action))
        }),
{
}

/// The steps of the records keep what holds of the session's standing.
proof fn lemma_record_stands(
    before: RecoveryView,
    event: RecoveryEventView,
    standing: Option<Standing>,
    disturbed: bool,
)
    requires
        before.stands(standing, disturbed),
    ensures
        ({
            let (after, action) = before.next_record(event);
            after.stands(standing_after(standing, action), disturbed || disturbs(action))
        }),
{
}

/// The steps after the records keep what holds of the session's standing.
proof fn lemma_after_stands(
    before: RecoveryView,
    event: RecoveryEventView,
    standing: Option<Standing>,
    disturbed: bool,
)
    requires
        before.stands(standing, disturbed),
    ensures
        ({
            let (after, action) = before.next_after(event);
            after.stands(standing_after(standing, action), disturbed || disturbs(action))
        }),
{
}

/// What lies behind a recovery as to the session's standing and its files.
proof fn lemma_standing(workflow: Workflow, events: Seq<RecoveryEventView>)
    ensures
        run(workflow, events).0.stands(standing_in(workflow, events), disturbed(workflow, events)),
    decreases events.len(),
{
    if events.len() > 0 {
        lemma_standing(workflow, events.drop_last());
        let before = run(workflow, events.drop_last()).0;
        let standing = standing_in(workflow, events.drop_last());
        let touched = disturbed(workflow, events.drop_last());
        lemma_before_stands(before, events.last(), standing, touched);
        lemma_record_stands(before, events.last(), standing, touched);
        lemma_after_stands(before, events.last(), standing, touched);
    }
}

/// No recovery makes a session reachable that still takes work: it is sealed
/// when it is put back, and stays so.
pub proof fn law_recovered_sessions_are_sealed(workflow: Workflow, events: Seq<RecoveryEventView>)
    ensures
        standing_in(workflow, events) matches Some(standing) ==> standing.sealed && session::takes_no_work(standing),
{
    lemma_standing(workflow, events);
}

/// A recovered session refuses leases even when its close fails, however far
/// the close came.
pub proof fn law_failed_closes_leave_recovered_sessions_sealed(
    workflow: Workflow,
    events: Seq<RecoveryEventView>,
    actions: Seq<CloseActionView>,
)
    ensures
        standing_in(workflow, events) matches Some(standing) ==> session::takes_no_work(
            closing::standing_through(standing, actions),
        ),
{
    lemma_standing(workflow, events);
    if let Some(standing) = standing_in(workflow, events) {
        closing::law_seals_are_not_broken(standing, actions);
    }
}

/// A session whose effects are incomplete, or whose attempts at a response
/// are not all closed, is put back sealed and as one whose capture failed;
/// no artifact is made of it, and its journal and its sidecar stay.
pub proof fn law_unsettled_sessions_are_put_back_failed(workflow: Workflow, events: Seq<RecoveryEventView>)
    requires
        run(workflow, events).0.stage == RecoveryStage::Ending(CandidateOutcome::Recovered),
    ensures
        standing_in(workflow, events) matches Some(standing) && standing.sealed && standing.capture_failed,
        !disturbed(workflow, events),
{
    lemma_standing(workflow, events);
}

/// Which sessions are put back so: an unsigned one that is known to have
/// incomplete effects, and any that leaves an attempt at a response open.
pub proof fn law_unsettled_sessions_end_failed(state: RecoveryView, lines: u64, quarantined: bool)
    requires
        state.wf(),
    ensures
        state.stage == RecoveryStage::Listing && state.workflow == Workflow::Unsigned ==> state.next(
            RecoveryEventView::JournalRead { lines: Ok(lines), quarantined: true },
        ).0.stage == RecoveryStage::Ending(CandidateOutcome::Recovered),
        state.stage == RecoveryStage::Installing && state.replay->0.pending != Set::<Seq<char>>::empty()
            ==> state.next(RecoveryEventView::Installed { fresh: true, quarantined }).0.stage
            == RecoveryStage::Ending(CandidateOutcome::Recovered),
        state.stage == RecoveryStage::Installing && quarantined ==> state.next(
            RecoveryEventView::Installed { fresh: true, quarantined },
        ).0.stage == RecoveryStage::Ending(CandidateOutcome::Recovered),
{
}

/// A receipt on disk goes with a recovered session only if it attests the
/// event chain that the journal gives.
pub proof fn law_recovered_receipts_attest_the_journal(state: RecoveryView, event: RecoveryEventView)
    requires
        state.stage == RecoveryStage::Attesting,
    ensures
        state.next(event).1 matches RecoveryActionView::Install(restored) ==> {
            &&& event matches RecoveryEventView::ReceiptRead { head, count, found }
            &&& found == (if restored.receipt {
                ReceiptView::Valid { subject: SubjectView::Chain { head, count } }
            } else {
                ReceiptView::Absent
            })
        },
{
}

/// A session that is put back from its journal is what the journal says: each
/// of its seven counts is the sum of that count over the records, it goes on
/// behind the last record, and its agent is the one of the last record. Only
/// a whole journal puts a session back.
pub proof fn law_restored_sessions_add_up(workflow: Workflow, events: Seq<RecoveryEventView>)
    requires
        events.len() > 0,
    ensures
        ({
            let before = run(workflow, events.drop_last()).0;
            let (after, records) = run(workflow, events);
            before.next(events.last()).1 matches RecoveryActionView::Install(restored) ==> {
                &&& restored.totals.tool_calls == replay::sum_of(records, |c: Totals| c.tool_calls)
                &&& restored.totals.tool_allowed == replay::sum_of(records, |c: Totals| c.tool_allowed)
                &&& restored.totals.tool_blocked == replay::sum_of(records, |c: Totals| c.tool_blocked)
                &&& restored.totals.prompt_tokens == replay::sum_of(records, |c: Totals| c.prompt_tokens)
                &&& restored.totals.completion_tokens == replay::sum_of(records, |c: Totals| c.completion_tokens)
                &&& restored.totals.cached_tokens == replay::sum_of(records, |c: Totals| c.cached_tokens)
                &&& restored.totals.cost_usd_micros == replay::sum_of(records, |c: Totals| c.cost_usd_micros)
                &&& records.len() > 0
                &&& restored.sequence == records.len()
                &&& after.lines == records.len()
                &&& restored.agent == records.last().identity
                &&& restored.sealed
                &&& (restored.capture_failed <==> workflow == Workflow::Unsigned)
                &&& match workflow {
                    Workflow::Signed => restored.index is None,
                    Workflow::Unsigned => restored.index == Some(after.lines) && !restored.receipt,
                }
                &&& forall|i: int|
                    0 <= i < records.len() ==> (#[trigger] records[i]).sequence == i && records[i].session_uid
                        == after.session_id
            }
        }),
{
    let before = run(workflow, events.drop_last()).0;
    let (after, records) = run(workflow, events);
    lemma_recovery_follows(workflow, events);
    lemma_recovery_follows(workflow, events.drop_last());
    if let RecoveryActionView::Install(restored) = before.next(events.last()).1 {
        lemma_only_installing_installs(before, events.last());
        lemma_records_lie_behind(workflow, events);
        lemma_records_lie_behind(workflow, events.drop_last());
        replay::law_replay_adds_up(after.session_id, workflow, after.replay->0.bound, records);
        assert(after.replay->0.latest == records.last().identity);
    }
}

/// A session is asked to be put back only by a step that ends there.
proof fn lemma_only_installing_installs(before: RecoveryView, event: RecoveryEventView)
    requires
        before.wf(),
        before.next(event).1 is Install,
    ensures
        before.next(event).0.stage == RecoveryStage::Installing,
        before.next(event).1 == RecoveryActionView::Install(
            before.next(event).0.restored(before.next(event).1->Install_0.receipt),
        ),
{
}

/// A recovery that is done with the records took in one at least, and asks
/// for a receipt only of a signed session.
proof fn lemma_records_lie_behind(workflow: Workflow, events: Seq<RecoveryEventView>)
    ensures
        ({
            let (state, records) = run(workflow, events);
            &&& state.stage == RecoveryStage::Attesting ==> records.len() > 0 && workflow == Workflow::Signed
            &&& state.stage == RecoveryStage::Installing ==> records.len() > 0
        }),
    decreases events.len(),
{
    lemma_recovery_follows(workflow, events);
    if events.len() > 0 {
        lemma_recovery_follows(workflow, events.drop_last());
        lemma_records_lie_behind(workflow, events.drop_last());
    }
}

/// A sidecar is taken up by the recovery of its own workflow only, in the one
/// known version, and for the session that it names; a word other than
/// "signed" counts as unsigned.
pub proof fn law_sidecars_are_taken_up_by_their_workflow(metadata: JsonTree, workflow: Workflow, id: Seq<char>)
    ensures
        sidecar(metadata, workflow) == Ok::<SidecarView, FinalizeErrorView>(SidecarView::Of(id)) ==> {
            &&& json::member(metadata, "session_id"@) == Some(JsonTree::Text(id))
            &&& json::unsigned_in(json::member(metadata, "journal_version"@)) == Some(2u64)
            &&& workflow == Workflow::Signed <==> json::member(metadata, "workflow"@) == Some(JsonTree::Text("signed"@))
        },
        json::unsigned_in(json::member(metadata, "journal_version"@)) != Some(2u64) ==> sidecar(metadata, workflow) == Ok::<
            SidecarView,
            FinalizeErrorView,
        >(SidecarView::Unsupported),
        json::unsigned_in(json::member(metadata, "journal_version"@)) == Some(2u64) && (workflow == Workflow::Signed) != (
        json::member(metadata, "workflow"@) == Some(JsonTree::Text("signed"@))) ==> sidecar(metadata, workflow) == Ok::<
            SidecarView,
            FinalizeErrorView,
        >(SidecarView::OtherWorkflow),
        json::unsigned_in(json::member(metadata, "journal_version"@)) == Some(2u64) && (workflow == Workflow::Signed) == (
        json::member(metadata, "workflow"@) == Some(JsonTree::Text("signed"@))) && json::member(metadata, "session_id"@)
            == Some(JsonTree::Text(id)) ==> sidecar(metadata, workflow) == Ok::<SidecarView, FinalizeErrorView>(
            SidecarView::Of(id),
        ),
{
}

/// A receipt on disk counts for a recovered session only where it attests the
/// event chain that the journal gives; one that attests another, or cannot be
/// read or verified, stops the recovery.
pub proof fn law_other_receipts_stop_the_recovery(found: ReceiptView, expected: SubjectView)
    ensures
        attested(found, expected) == Ok::<bool, FinalizeErrorView>(true) <==> found == (ReceiptView::Valid {
            subject: expected,
        }),
        attested(found, expected) == Ok::<bool, FinalizeErrorView>(false) <==> found is Absent,
        attested(found, expected) matches Err(e) ==> (found matches ReceiptView::Refused(fault) ==> e == fault) && (
        !(found is Refused) ==> e is Receipt),
{
}

/// A step of a recovery that fails ends it by that failure, and nothing of
/// the session is put back.
pub proof fn law_failed_steps_end_the_recovery(state: RecoveryView, error: FinalizeErrorView, words: Seq<char>)
    ensures
        state.stage == RecoveryStage::Reading ==> state.next(RecoveryEventView::SidecarRead(Err(words))).1
            == RecoveryActionView::Fail(FinalizeErrorView::Atif(words)),
        state.stage == RecoveryStage::Identifying ==> state.next(RecoveryEventView::IdentityRead(Err(words))).1
            == RecoveryActionView::Fail(FinalizeErrorView::Atif(words)),
        state.stage == RecoveryStage::Listing ==> state.next(
            RecoveryEventView::JournalRead { lines: Err(error), quarantined: false },
        ).1 == RecoveryActionView::Fail(error),
        state.stage == RecoveryStage::Searching ==> state.next(RecoveryEventView::Searched(Err(error))).1
            == RecoveryActionView::Fail(error),
        state.stage == RecoveryStage::Opening ==> state.next(RecoveryEventView::RecordOpened(Err(words))).1
            == RecoveryActionView::Fail(FinalizeErrorView::Atif(words)),
        state.stage == RecoveryStage::Appending ==> state.next(RecoveryEventView::Appended(Some(words))).1
            == RecoveryActionView::Fail(
            if state.workflow == Workflow::Signed {
                FinalizeErrorView::Receipt(words)
            } else {
                FinalizeErrorView::Atif(words)
            },
        ),
        state.stage == RecoveryStage::Publishing ==> state.next(RecoveryEventView::Published(Some(error))).1
            == RecoveryActionView::Fail(error),
        state.stage == RecoveryStage::Closing ==> state.next(RecoveryEventView::Closed(Some(error))).1
            == RecoveryActionView::Fail(error),
        state.stage == RecoveryStage::Writing ==> state.next(RecoveryEventView::ArtifactWritten(Some(error))).1
            == RecoveryActionView::Fail(error),
        state.stage == RecoveryStage::Sealing ==> state.next(RecoveryEventView::ArtifactSealed(Some(error))).1
            == RecoveryActionView::Fail(error),
        state.stage == RecoveryStage::Clearing ==> state.next(RecoveryEventView::JournalCleared(Some(error))).1
            == RecoveryActionView::Fail(error),
        state.stage == RecoveryStage::Removing ==> state.next(RecoveryEventView::SidecarRemoved(Some(words))).1
            == RecoveryActionView::Fail(FinalizeErrorView::Atif(words)),
{
}

/// A session that is active, or was put back by someone else meanwhile, is
/// left alone; one without a journal is set aside where evidence of it is
/// left, and forgotten where none is.
pub proof fn law_other_sessions_are_left_alone(state: RecoveryView, quarantined: bool)
    ensures
        state.stage == RecoveryStage::Looking ==> state.next(RecoveryEventView::Looked { active: true }).1
            == RecoveryActionView::Finish(CandidateOutcome::Skipped),
        state.stage == RecoveryStage::Installing ==> state.next(RecoveryEventView::Installed { fresh: false, quarantined }).1
            == RecoveryActionView::Finish(CandidateOutcome::Skipped),
        state.stage == RecoveryStage::Listing && state.workflow == Workflow::Signed ==> state.next(
            RecoveryEventView::JournalRead { lines: Ok(0), quarantined },
        ).1 == RecoveryActionView::Search,
        state.stage == RecoveryStage::Searching ==> state.next(RecoveryEventView::Searched(Ok(true))).1
            == RecoveryActionView::SetSidecarAside && state.next(RecoveryEventView::Searched(Ok(false))).1
            == RecoveryActionView::RemoveSidecar,
        state.stage == RecoveryStage::Closing ==> state.next(RecoveryEventView::Closed(None)).1
            == RecoveryActionView::Finish(CandidateOutcome::Recovered),
        state.stage == RecoveryStage::Clearing ==> state.next(RecoveryEventView::JournalCleared(None)).1
            == RecoveryActionView::Finish(CandidateOutcome::Recovered),
{
}

/// An unsigned session with incomplete effects is put back without its
/// records being looked at: with the agent that opened it, with nothing
/// counted, at the beginning, sealed, and as one whose capture failed.
pub proof fn law_sessions_with_incomplete_effects_are_put_back_empty(state: RecoveryView, lines: u64)
    requires
        state.wf(),
        state.stage == RecoveryStage::Listing,
        state.workflow == Workflow::Unsigned,
    ensures
        state.next(RecoveryEventView::JournalRead { lines: Ok(lines), quarantined: true }).1
            matches RecoveryActionView::InstallFailed(restored) && {
            &&& restored.agent == state.replay->0.bound
            &&& restored.totals.tool_calls == 0 && restored.totals.tool_allowed == 0 && restored.totals.tool_blocked == 0
            &&& restored.totals.prompt_tokens == 0 && restored.totals.completion_tokens == 0
            &&& restored.totals.cached_tokens == 0 && restored.totals.cost_usd_micros == 0
            &&& restored.sequence == 0 && restored.index == Some(lines)
            &&& restored.sealed && restored.capture_failed && !restored.receipt
        },
{
}

/// A trajectory on disk is sealed only where it is the one that the journal
/// gives; another stops the recovery, and a missing one is written first.
pub proof fn law_trajectories_match_their_journal(state: RecoveryView, document: JsonTree, rebuilt: JsonTree, words: Seq<char>)
    requires
        state.stage == RecoveryStage::Comparing,
    ensures
        artifact::same_trajectory(document, rebuilt) ==> state.next(
            RecoveryEventView::ArtifactRead(ArtifactView::Found { document, rebuilt }),
        ).1 == RecoveryActionView::SealArtifact,
        !artifact::same_trajectory(document, rebuilt) ==> (state.next(
            RecoveryEventView::ArtifactRead(ArtifactView::Found { document, rebuilt }),
        ).1 matches RecoveryActionView::Fail(FinalizeErrorView::Atif(_))),
        state.next(RecoveryEventView::ArtifactRead(ArtifactView::Absent)).1 == RecoveryActionView::WriteArtifact,
        state.next(RecoveryEventView::ArtifactRead(ArtifactView::Absent)).0.next(
            RecoveryEventView::ArtifactWritten(None),
        ).1 == RecoveryActionView::SealArtifact,
        state.next(RecoveryEventView::ArtifactRead(ArtifactView::Unreadable(words))).1 == RecoveryActionView::Fail(
            FinalizeErrorView::Atif(words),
        ),
{
}

/// A record that is sound goes through the recovery of a signed session step
/// by step: it is appended to the chain, published with its stop reason, and
/// the next one is opened; behind the last, the receipt is looked for.
pub proof fn law_signed_records_go_through(state: RecoveryView, r: JournalRecordView)
    requires
        state.wf(),
        state.stage == RecoveryStage::Opening,
        state.workflow == Workflow::Signed,
        state.replay->0.absorbed(r) is Ok,
        state.replay->0.next < state.lines,
    ensures
        ({
            let (s1, a1) = state.next(RecoveryEventView::RecordOpened(Ok(r)));
            let (s2, a2) = s1.next(RecoveryEventView::Appended(None));
            let (s3, a3) = s2.next(RecoveryEventView::Published(None));
            let replayed = state.replay->0.absorbed(r)->Ok_0;
            &&& a1 == RecoveryActionView::Append
            &&& a2 == (RecoveryActionView::Publish { note: r.stop_reason })
            &&& replayed.next < state.lines ==> a3 == RecoveryActionView::OpenRecord(replayed.next) && s3.stage
                == RecoveryStage::Opening && s3.replay == Some(replayed)
            &&& replayed.next >= state.lines && !replayed.miscounted() ==> a3 == RecoveryActionView::ReadReceipt
                && s3.stage == RecoveryStage::Attesting && s3.replay == Some(replayed)
            &&& replayed.next >= state.lines && replayed.miscounted() ==> (a3 matches RecoveryActionView::Fail(
                FinalizeErrorView::Atif(_),
            ))
        }),
{
}

/// A record that is sound goes through the recovery of an unsigned session
/// step by step: it is published, appended to the trajectory, and the next
/// one is opened. Behind the last, a session whose attempts are all closed is
/// compared with its trajectory; one with an open attempt is put back.
pub proof fn law_unsigned_records_go_through(state: RecoveryView, r: JournalRecordView)
    requires
        state.wf(),
        state.stage == RecoveryStage::Opening,
        state.workflow == Workflow::Unsigned,
        state.replay->0.absorbed(r) is Ok,
        state.replay->0.next < state.lines,
    ensures
        ({
            let (s1, a1) = state.next(RecoveryEventView::RecordOpened(Ok(r)));
            let (s2, a2) = s1.next(RecoveryEventView::Published(None));
            let (s3, a3) = s2.next(RecoveryEventView::Appended(None));
            let replayed = state.replay->0.absorbed(r)->Ok_0;
            &&& a1 == (RecoveryActionView::Publish { note: None })
            &&& a2 == RecoveryActionView::Append
            &&& replayed.next < state.lines ==> a3 == RecoveryActionView::OpenRecord(replayed.next) && s3.stage
                == RecoveryStage::Opening && s3.replay == Some(replayed)
            &&& replayed.next >= state.lines && !replayed.miscounted() && replayed.pending == Set::<Seq<char>>::empty()
                ==> a3 == RecoveryActionView::ReadArtifact && s3.stage == RecoveryStage::Comparing
            &&& replayed.next >= state.lines && !replayed.miscounted() && replayed.pending != Set::<Seq<char>>::empty()
                ==> a3 is Install && s3.stage == RecoveryStage::Installing
            &&& replayed.next >= state.lines && replayed.miscounted() ==> (a3 matches RecoveryActionView::Fail(
                FinalizeErrorView::Atif(_),
            ))
        }),
{
}

/// A record that is not sound ends the recovery.
pub proof fn law_unsound_records_end_the_recovery(state: RecoveryView, r: JournalRecordView)
    requires
        state.wf(),
        state.stage == RecoveryStage::Opening,
        state.replay->0.record_fault(r) is Some,
    ensures
        state.next(RecoveryEventView::RecordOpened(Ok(r))).1 == RecoveryActionView::Fail(
            state.replay->0.record_fault(r)->0,
        ),
        state.next(RecoveryEventView::RecordOpened(Ok(r))).0.stage == RecoveryStage::Done,
{
}

/// A candidate that nothing is wrong with is looked up, identified and opened
/// for the session that its sidecar names and the agent that it holds.
pub proof fn law_sound_candidates_are_opened(
    workflow: Workflow,
    metadata: JsonTree,
    id: Seq<char>,
    document: JsonTree,
    identity: IdentityView,
    lines: u64,
)
    requires
        sidecar(metadata, workflow) == Ok::<SidecarView, FinalizeErrorView>(SidecarView::Of(id)),
        json::member(metadata, "identity"@) == Some(document),
        lines > 0,
    ensures
        ({
            let s0 = run(workflow, Seq::empty()).0;
            let (s1, a1) = s0.next(RecoveryEventView::SidecarRead(Ok(metadata)));
            let (s2, a2) = s1.next(RecoveryEventView::Looked { active: false });
            let (s3, a3) = s2.next(RecoveryEventView::IdentityRead(Ok(identity)));
            let (s4, a4) = s3.next(RecoveryEventView::JournalRead { lines: Ok(lines), quarantined: false });
            &&& a1 == RecoveryActionView::Look && a2 == RecoveryActionView::ReadIdentity(document)
            &&& a3 == RecoveryActionView::ReadJournal && a4 == RecoveryActionView::OpenRecord(0)
            &&& s4.stage == RecoveryStage::Opening && s4.session_id == id && s4.lines == lines
            &&& s4.replay matches Some(begun)
            &&& begun.session_id == id && begun.bound == identity && begun.latest == identity && begun.next == 0
            &&& begun.pending == Set::<Seq<char>>::empty() && begun.stop_reason_id is None && begun.workflow == workflow
            &&& begun.totals.tool_calls == 0 && begun.totals.tool_allowed == 0 && begun.totals.tool_blocked == 0
            &&& begun.totals.prompt_tokens == 0 && begun.totals.completion_tokens == 0
            &&& begun.totals.cached_tokens == 0 && begun.totals.cost_usd_micros == 0
        }),
{
}

/// A sidecar of another version or workflow is passed over, and one without
/// an identity ends the recovery.
pub proof fn law_other_sidecars_are_passed_over(state: RecoveryView, metadata: JsonTree)
    ensures
        state.stage == RecoveryStage::Reading && sidecar(metadata, state.workflow) == Ok::<SidecarView, FinalizeErrorView>(
            SidecarView::Unsupported,
        ) ==> state.next(RecoveryEventView::SidecarRead(Ok(metadata))) == (
            state.at(RecoveryStage::Done),
            RecoveryActionView::SkipUnsupported,
        ),
        state.stage == RecoveryStage::Reading && sidecar(metadata, state.workflow) == Ok::<SidecarView, FinalizeErrorView>(
            SidecarView::OtherWorkflow,
        ) ==> state.next(RecoveryEventView::SidecarRead(Ok(metadata))).1 == RecoveryActionView::Finish(
            CandidateOutcome::Skipped,
        ),
        state.stage == RecoveryStage::Looking && state.identity is None ==> (state.next(
            RecoveryEventView::Looked { active: false },
        ).1 matches RecoveryActionView::Fail(FinalizeErrorView::Atif(_))),
{
}

/// A session that was put back whole is closed as one that its client closed;
/// one with an open attempt is quarantined, and one with incomplete effects
/// is marked as failed.
pub proof fn law_sessions_are_settled_after_they_are_put_back(state: RecoveryView)
    requires
        state.stage == RecoveryStage::Installing,
    ensures
        state.replay->0.pending == Set::<Seq<char>>::empty() ==> state.next(
            RecoveryEventView::Installed { fresh: true, quarantined: false },
        ) == (
            state.at(RecoveryStage::Closing),
            RecoveryActionView::Close { stop_reason: StopReason::SessionClosed },
        ),
        state.replay->0.pending == Set::<Seq<char>>::empty() ==> state.next(
            RecoveryEventView::Installed { fresh: true, quarantined: true },
        ).1 == RecoveryActionView::MarkFailed,
        state.replay->0.pending != Set::<Seq<char>>::empty() ==> state.next(
            RecoveryEventView::Installed { fresh: true, quarantined: false },
        ).1 == (RecoveryActionView::Quarantine { mark_failed: state.workflow == Workflow::Signed }),
{
}

/// A trajectory that was written or found is sealed, then its journal is
/// cleared, and the session is recovered.
pub proof fn law_sealed_trajectories_outlive_their_journal(state: RecoveryView)
    requires
        state.stage == RecoveryStage::Sealing,
    ensures
        ({
            let (s1, a1) = state.next(RecoveryEventView::ArtifactSealed(None));
            let (s2, a2) = s1.next(RecoveryEventView::JournalCleared(None));
            a1 == RecoveryActionView::ClearJournal && a2 == RecoveryActionView::Finish(CandidateOutcome::Recovered) && s2.stage
                == RecoveryStage::Done
        }),
{
}

/// What ends a recovery ends it for good.
pub proof fn law_ends_of_a_recovery_are_final(state: RecoveryView, event: RecoveryEventView)
    ensures
        state.next(event).1 is Fail || state.next(event).1 is Finish || state.next(event).1
            == RecoveryActionView::SkipUnsupported ==> state.next(event).0.stage == RecoveryStage::Done,
        state.stage matches RecoveryStage::Ending(outcome) ==> state.next(RecoveryEventView::Ended).1
            == RecoveryActionView::Finish(outcome),
{
}

/// A session that is put back stands as it was left: unclaimed, sealed and
/// failed as its journal shows. What fails later marks it, and nothing else
/// changes where it stands.
pub proof fn law_sessions_stand_as_they_were_left(before: Option<Standing>, action: RecoveryActionView)
    ensures
        action matches RecoveryActionView::Install(r) ==> (standing_after(before, action) matches Some(standing)
            && !standing.claimed && standing.sealed == r.sealed && standing.capture_failed == r.capture_failed),
        action matches RecoveryActionView::InstallFailed(r) ==> (standing_after(before, action) matches Some(standing)
            && !standing.claimed && standing.sealed == r.sealed && standing.capture_failed == r.capture_failed),
        action is MarkFailed && before is Some ==> (standing_after(before, action) matches Some(standing)
            && standing.capture_failed && standing.sealed == before->0.sealed && standing.claimed == before->0.claimed),
        (action matches RecoveryActionView::Quarantine { mark_failed } && mark_failed) && before is Some ==> (
        standing_after(before, action) matches Some(standing) && standing.capture_failed && standing.sealed
            == before->0.sealed && standing.claimed == before->0.claimed),
        (action matches RecoveryActionView::Quarantine { mark_failed } && !mark_failed) ==> standing_after(before, action)
            == before,
        action !is Install && action !is InstallFailed && action !is Quarantine && action !is MarkFailed
            ==> standing_after(before, action) == before,
        action !is Install && action !is InstallFailed && before is None ==> standing_after(before, action) is None,
{
}

/// A recovery that cannot go on says what it met.
pub proof fn law_refused_recoveries_are_told_why(
    state: RecoveryView,
    metadata: JsonTree,
    found: ReceiptView,
    expected: SubjectView,
    document: JsonTree,
    rebuilt: JsonTree,
    words: Seq<char>,
)
    ensures
        sidecar(metadata, state.workflow) is Err ==> sidecar(metadata, state.workflow) == Err::<
            SidecarView,
            FinalizeErrorView,
        >(FinalizeErrorView::Atif("journal metadata has no session_id"@)),
        state.stage == RecoveryStage::Looking && state.identity is None ==> state.next_before(
            RecoveryEventView::Looked { active: false },
        ).1 == RecoveryActionView::Fail(FinalizeErrorView::Atif("journal metadata has no identity"@)),
        found_receipt(ReceiptView::StatFailed(words)) == Err::<Option<SubjectView>, FinalizeErrorView>(
            FinalizeErrorView::Receipt("existing receipt stat failed: "@ + words),
        ),
        found_receipt(ReceiptView::Unreadable(words)) == Err::<Option<SubjectView>, FinalizeErrorView>(
            FinalizeErrorView::Receipt("existing receipt unreadable: "@ + words),
        ),
        (found matches ReceiptView::Valid { subject } && subject != expected) ==> attested(found, expected) == Err::<
            bool,
            FinalizeErrorView,
        >(FinalizeErrorView::Receipt("persisted receipt does not attest the recovered signed journal"@)),
        state.stage == RecoveryStage::Comparing && !artifact::same_trajectory(document, rebuilt) ==> state.next_after(
            RecoveryEventView::ArtifactRead(ArtifactView::Found { document, rebuilt }),
        ).1 == RecoveryActionView::Fail(
            FinalizeErrorView::Atif("persisted ATIF does not match authenticated active journal"@),
        ),
        state.replay->0.next >= state.lines && state.replay->0.miscounted() ==> state.advance().1
            == RecoveryActionView::Fail(
            FinalizeErrorView::Atif(
                match state.workflow {
                    Workflow::Signed => "signed journal has inconsistent tool accounting"@,
                    Workflow::Unsigned => "unsigned journal has inconsistent tool accounting"@,
                },
            ),
        ),
{
}

} // verus!
