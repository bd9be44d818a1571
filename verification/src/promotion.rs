//! Promotion of an unsigned session: its trajectory is attested after the
//! fact.
//!
//! A marker is made durable before a receipt is issued, so that a promotion
//! that was interrupted is completed later.

use vstd::prelude::*;
use crate::closing::{HeldReceipt, HeldView};
use crate::errors::{FinalizeError, FinalizeErrorView};
use crate::provider::StopReason;
use crate::receipt::{Subject, SubjectView};
use crate::recovery;
use crate::session::Workflow;
use crate::text;

verus! {

/// How many issues of a trajectory are shown.
pub const RENDER_ISSUE_HEAD: usize = 16;

/// The first of a list of issues, as many as are shown.
pub open spec fn shown_issues(issues: Seq<Seq<char>>) -> Seq<Seq<char>> {
    if issues.len() <= RENDER_ISSUE_HEAD {
        issues
    } else {
        issues.take(RENDER_ISSUE_HEAD as int)
    }
}

/// The words for a trajectory that is not valid.
pub open spec fn issue_words(issues: Seq<Seq<char>>) -> Seq<char> {
    let shown = shown_issues(issues);
    "strict validation failed ("@ + text::decimal_digits(issues.len()) + " issues, showing first "@
        + text::decimal_digits(shown.len()) + "): ["@ + text::joined(shown, ", "@) + "]"@
}

/// The failure of a trajectory that is not valid, by its issues as they are
/// rendered. However many there are, only the first are shown.
pub fn nonconformant(issues: &Vec<String>) -> (error: FinalizeError)
    ensures
        error@ == FinalizeErrorView::Atif(issue_words(text::texts(issues@))),
{
    let ghost all = text::texts(issues@);
    let mut shown: Vec<String> = Vec::new();
    let mut i: usize = 0;
    while i < issues.len() && i < RENDER_ISSUE_HEAD
        invariant
            i <= issues@.len(),
            i <= RENDER_ISSUE_HEAD,
            all == text::texts(issues@),
            text::texts(shown@) == all.take(i as int),
        decreases issues.len() - i,
    {
        let ghost before = text::texts(shown@);
        shown.push(issues[i].clone());
        proof {
            assert(text::texts(shown@) =~= before.push(issues@[i as int]@));
            assert(all.take(i + 1) =~= all.take(i as int).push(all[i as int]));
        }
        i += 1;
    }
    proof {
        assert(text::texts(shown@) =~= shown_issues(all));
        assert(shown_issues(all).len() == shown@.len());
    }
    let total: String = text::decimal(issues.len() as u64);
    let count: String = text::decimal(shown.len() as u64);
    let head: String = text::concat3(
        "strict validation failed (",
        total.as_str(),
        " issues, showing first ",
    );
    let counted: String = text::concat3(head.as_str(), count.as_str(), "): [");
    let list: String = text::join(&shown, ", ");
    FinalizeError::Atif(text::concat3(counted.as_str(), list.as_str(), "]"))
}

/// A trajectory on disk, as far as a promotion needs it.
#[derive(Debug)]
pub struct TrajectoryOnDisk {
    /// What is wrong with it, as it is rendered.
    pub issues: Vec<String>,
    /// The digest of its bytes.
    pub digest: String,
    /// How many steps it has.
    pub steps: u64,
}

/// The marker of a promotion, as it is found.
#[derive(Debug)]
pub enum MarkerOnDisk {
    Absent,
    /// It could not be read, or is not authentic.
    Unreadable(String),
    Found { session_id: String, digest: String },
}

/// A [`MarkerOnDisk`] by its contents.
#[verifier::ext_equal]
pub enum MarkerView {
    Absent,
    Unreadable(Seq<char>),
    Found { session_id: Seq<char>, digest: Seq<char> },
}

impl View for MarkerOnDisk {
    type V = MarkerView;

    open spec fn view(&self) -> MarkerView {
        match self {
            MarkerOnDisk::Absent => MarkerView::Absent,
            MarkerOnDisk::Unreadable(words) => MarkerView::Unreadable(words@),
            MarkerOnDisk::Found { session_id, digest } => MarkerView::Found {
                session_id: session_id@,
                digest: digest@,
            },
        }
    }
}

/// Where a promotion stands.
#[derive(Clone, Copy, Debug, PartialEq, Eq, Structural)]
pub enum PromoteStage {
    /// The session is being looked at.
    Looking,
    /// The session is being closed.
    Closing,
    /// What the session holds is being looked at.
    Inspecting,
    /// A marker that was left behind is being removed.
    Tidying,
    /// The seal of the trajectory is being looked for.
    Sealing,
    /// The seal is being verified.
    Verifying,
    /// The trajectory is being read.
    Reading,
    /// The marker is being looked for.
    Marking,
    /// The marker is being written.
    Writing,
    /// The promotion is being claimed.
    Claiming,
    /// A receipt that the session holds is being looked for.
    Attesting,
    /// A receipt is being issued.
    Issuing,
    /// The receipt is being stored.
    Persisting,
    /// The receipt is being announced.
    Announcing,
    /// The marker is being removed.
    Unmarking,
    /// The outbox of the receipt is being removed.
    Dropping,
    Done,
}

/// What happens in a promotion.
#[derive(Debug)]
pub enum PromoteEvent {
    /// Whether the session is closed, and whether it holds a receipt.
    Looked { closed: bool, has_receipt: bool },
    Closed(Result<(), FinalizeError>),
    /// Whether the session is promoted, whether it holds a receipt and a
    /// trajectory, and whether there is a marker.
    Inspected { promoted: bool, has_receipt: bool, has_artifact: bool, has_marker: bool },
    /// The marker that was left behind is gone, or could not be removed.
    Tidied,
    SealFound(bool),
    SealVerified(Result<(), FinalizeError>),
    TrajectoryRead(Result<TrajectoryOnDisk, String>),
    MarkerRead(MarkerOnDisk),
    MarkerWritten(Result<(), FinalizeError>),
    Claimed(bool),
    ReceiptHeld(HeldReceipt),
    Issued(Result<(), String>),
    Persisted(Result<(), FinalizeError>),
    Announced(Result<(), FinalizeError>),
    MarkerRemoved(Result<(), FinalizeError>),
    OutboxDropped(Result<(), FinalizeError>),
}

/// What a promotion wants done.
#[derive(Debug)]
pub enum PromoteAction {
    /// Nothing: this is not what is being waited for.
    Ignore,
    /// Close the session, for this reason.
    Close { stop_reason: StopReason },
    Inspect,
    /// Remove a marker that was left behind; a failure is only warned about.
    Tidy,
    FindSeal,
    VerifySeal,
    ReadTrajectory,
    ReadMarker,
    /// Make a marker durable: the session of this id is promoted by the
    /// trajectory of this digest.
    WriteMarker { session_id: String, digest: String },
    Claim,
    FindReceipt,
    /// Issue a receipt that attests this, for a session that ended so.
    Issue { subject: Subject, stop_reason: StopReason },
    Persist,
    Announce,
    /// Mark the session as promoted, and remove the marker.
    FinishAndUnmark,
    DropOutbox,
    /// The session is promoted: hand out its receipt.
    Complete,
    /// The promotion failed; `release` tells whether its claim is given up.
    Fail { error: FinalizeError, release: bool },
}

/// The promotion of one session.
#[derive(Debug)]
pub struct PromoteFlow {
    pub workflow: Workflow,
    pub session_id: String,
    pub stage: PromoteStage,
    /// The digest of the trajectory, once it is read.
    pub digest: String,
    /// The number of its steps.
    pub steps: u64,
}

/// A [`PromoteFlow`] by its contents.
#[verifier::ext_equal]
pub struct PromoteView {
    pub workflow: Workflow,
    pub session_id: Seq<char>,
    pub stage: PromoteStage,
    pub digest: Seq<char>,
    pub steps: u64,
}

/// A [`PromoteEvent`] by its contents.
pub enum PromoteEventView {
    Looked { closed: bool, has_receipt: bool },
    Closed(Option<FinalizeErrorView>),
    Inspected { promoted: bool, has_receipt: bool, has_artifact: bool, has_marker: bool },
    Tidied,
    SealFound(bool),
    SealVerified(Option<FinalizeErrorView>),
    TrajectoryRead(Result<(Seq<Seq<char>>, Seq<char>, u64), Seq<char>>),
    MarkerRead(MarkerView),
    MarkerWritten(Option<FinalizeErrorView>),
    Claimed(bool),
    ReceiptHeld(HeldView),
    Issued(Option<Seq<char>>),
    Persisted(Option<FinalizeErrorView>),
    Announced(Option<FinalizeErrorView>),
    MarkerRemoved(Option<FinalizeErrorView>),
    OutboxDropped(Option<FinalizeErrorView>),
}

/// A [`PromoteAction`] by its contents.
#[verifier::ext_equal]
pub enum PromoteActionView {
    Ignore,
    Close { stop_reason: StopReason },
    Inspect,
    Tidy,
    FindSeal,
    VerifySeal,
    ReadTrajectory,
    ReadMarker,
    WriteMarker { session_id: Seq<char>, digest: Seq<char> },
    Claim,
    FindReceipt,
    Issue { subject: SubjectView, stop_reason: StopReason },
    Persist,
    Announce,
    FinishAndUnmark,
    DropOutbox,
    Complete,
    Fail { error: FinalizeErrorView, release: bool },
}

impl View for PromoteFlow {
    type V = PromoteView;

    open spec fn view(&self) -> PromoteView {
        PromoteView {
            workflow: self.workflow,
            session_id: self.session_id@,
            stage: self.stage,
            digest: self.digest@,
            steps: self.steps,
        }
    }
}

impl View for PromoteEvent {
    type V = PromoteEventView;

    open spec fn view(&self) -> PromoteEventView {
        match self {
            PromoteEvent::Looked { closed, has_receipt } => PromoteEventView::Looked {
                closed: *closed,
                has_receipt: *has_receipt,
            },
            PromoteEvent::Closed(outcome) => PromoteEventView::Closed(recovery::final_fault(*outcome)),
            PromoteEvent::Inspected { promoted, has_receipt, has_artifact, has_marker } => PromoteEventView::Inspected {
                promoted: *promoted,
                has_receipt: *has_receipt,
                has_artifact: *has_artifact,
                has_marker: *has_marker,
            },
            PromoteEvent::Tidied => PromoteEventView::Tidied,
            PromoteEvent::SealFound(found) => PromoteEventView::SealFound(*found),
            PromoteEvent::SealVerified(outcome) => PromoteEventView::SealVerified(recovery::final_fault(*outcome)),
            PromoteEvent::TrajectoryRead(Ok(t)) => PromoteEventView::TrajectoryRead(
                Ok((text::texts(t.issues@), t.digest@, t.steps)),
            ),
            PromoteEvent::TrajectoryRead(Err(words)) => PromoteEventView::TrajectoryRead(Err(words@)),
            PromoteEvent::MarkerRead(found) => PromoteEventView::MarkerRead(found@),
            PromoteEvent::MarkerWritten(outcome) => PromoteEventView::MarkerWritten(recovery::final_fault(*outcome)),
            PromoteEvent::Claimed(given) => PromoteEventView::Claimed(*given),
            PromoteEvent::ReceiptHeld(held) => PromoteEventView::ReceiptHeld(held@),
            PromoteEvent::Issued(outcome) => PromoteEventView::Issued(recovery::word_fault(*outcome)),
            PromoteEvent::Persisted(outcome) => PromoteEventView::Persisted(recovery::final_fault(*outcome)),
            PromoteEvent::Announced(outcome) => PromoteEventView::Announced(recovery::final_fault(*outcome)),
            PromoteEvent::MarkerRemoved(outcome) => PromoteEventView::MarkerRemoved(recovery::final_fault(*outcome)),
            PromoteEvent::OutboxDropped(outcome) => PromoteEventView::OutboxDropped(recovery::final_fault(*outcome)),
        }
    }
}

impl View for PromoteAction {
    type V = PromoteActionView;

    open spec fn view(&self) -> PromoteActionView {
        match self {
            PromoteAction::Ignore => PromoteActionView::Ignore,
            PromoteAction::Close { stop_reason } => PromoteActionView::Close { stop_reason: *stop_reason },
            PromoteAction::Inspect => PromoteActionView::Inspect,
            PromoteAction::Tidy => PromoteActionView::Tidy,
            PromoteAction::FindSeal => PromoteActionView::FindSeal,
            PromoteAction::VerifySeal => PromoteActionView::VerifySeal,
            PromoteAction::ReadTrajectory => PromoteActionView::ReadTrajectory,
            PromoteAction::ReadMarker => PromoteActionView::ReadMarker,
            PromoteAction::WriteMarker { session_id, digest } => PromoteActionView::WriteMarker {
                session_id: session_id@,
                digest: digest@,
            },
            PromoteAction::Claim => PromoteActionView::Claim,
            PromoteAction::FindReceipt => PromoteActionView::FindReceipt,
            PromoteAction::Issue { subject, stop_reason } => PromoteActionView::Issue {
                subject: subject@,
                stop_reason: *stop_reason,
            },
            PromoteAction::Persist => PromoteActionView::Persist,
            PromoteAction::Announce => PromoteActionView::Announce,
            PromoteAction::FinishAndUnmark => PromoteActionView::FinishAndUnmark,
            PromoteAction::DropOutbox => PromoteActionView::DropOutbox,
            PromoteAction::Complete => PromoteActionView::Complete,
            PromoteAction::Fail { error, release } => PromoteActionView::Fail { error: error@, release: *release },
        }
    }
}

/// A refusal to promote.
pub open spec fn promotion_fault(words: Seq<char>) -> FinalizeErrorView {
    FinalizeErrorView::Promotion(words)
}

impl PromoteView {
    /// The state at another stage.
    pub open spec fn at(self, stage: PromoteStage) -> PromoteView {
        PromoteView { stage, ..self }
    }

    /// What the receipt of a promotion attests: the trajectory at hand, after
    /// the fact.
    pub open spec fn subject(self) -> SubjectView {
        SubjectView::Trajectory { digest: self.digest, steps: self.steps, retroactive: true }
    }

    /// The end by a failure.
    pub open spec fn fail(self, error: FinalizeErrorView, release: bool) -> (PromoteView, PromoteActionView) {
        (self.at(PromoteStage::Done), PromoteActionView::Fail { error, release })
    }

    /// What comes after a step: the next one, or the end by its failure.
    pub open spec fn go_on(
        self,
        fault: Option<FinalizeErrorView>,
        release: bool,
        stage: PromoteStage,
        action: PromoteActionView,
    ) -> (PromoteView, PromoteActionView) {
        match fault {
            Some(e) => self.fail(e, release),
            None => (self.at(stage), action),
        }
    }

    /// What becomes of a promotion before it is claimed.
    pub open spec fn next_before(self, event: PromoteEventView) -> (PromoteView, PromoteActionView) {
        match (self.stage, event) {
            (PromoteStage::Looking, PromoteEventView::Looked { closed, has_receipt }) => if self.workflow
                != Workflow::Unsigned {
                if has_receipt {
                    (self.at(PromoteStage::Done), PromoteActionView::Complete)
                } else {
                    self.fail(promotion_fault("signed session has no issued receipt"@), false)
                }
            } else if closed {
                (self.at(PromoteStage::Inspecting), PromoteActionView::Inspect)
            } else {
                (
                    self.at(PromoteStage::Closing),
                    PromoteActionView::Close { stop_reason: StopReason::SessionClosed },
                )
            },
            (PromoteStage::Closing, PromoteEventView::Closed(fault)) => self.go_on(
                fault,
                false,
                PromoteStage::Inspecting,
                PromoteActionView::Inspect,
            ),
            (
                PromoteStage::Inspecting,
                PromoteEventView::Inspected { promoted, has_receipt, has_artifact, has_marker },
            ) => if promoted {
                if !has_receipt {
                    self.fail(promotion_fault("promoted session has no persisted receipt"@), false)
                } else if has_artifact && has_marker {
                    (self.at(PromoteStage::Tidying), PromoteActionView::Tidy)
                } else {
                    (self.at(PromoteStage::Done), PromoteActionView::Complete)
                }
            } else if !has_artifact {
                self.fail(promotion_fault("session has no persisted ATIF artifact"@), false)
            } else {
                (self.at(PromoteStage::Sealing), PromoteActionView::FindSeal)
            },
            (PromoteStage::Tidying, PromoteEventView::Tidied) => (
                self.at(PromoteStage::Done),
                PromoteActionView::Complete,
            ),
            (PromoteStage::Sealing, PromoteEventView::SealFound(found)) => if found {
                (self.at(PromoteStage::Verifying), PromoteActionView::VerifySeal)
            } else {
                self.fail(FinalizeErrorView::Atif("ATIF artifact has no authenticated provenance"@), false)
            },
            (PromoteStage::Verifying, PromoteEventView::SealVerified(fault)) => self.go_on(
                fault,
                false,
                PromoteStage::Reading,
                PromoteActionView::ReadTrajectory,
            ),
            (PromoteStage::Reading, PromoteEventView::TrajectoryRead(Err(words))) => self.fail(
                FinalizeErrorView::Atif(words),
                false,
            ),
            (PromoteStage::Reading, PromoteEventView::TrajectoryRead(Ok((issues, digest, steps)))) => if issues.len()
                > 0 {
                self.fail(FinalizeErrorView::Atif(issue_words(issues)), false)
            } else {
                (
                    PromoteView { stage: PromoteStage::Marking, digest, steps, ..self },
                    PromoteActionView::ReadMarker,
                )
            },
            (PromoteStage::Marking, PromoteEventView::MarkerRead(found)) => match found {
                MarkerView::Absent => (
                    self.at(PromoteStage::Writing),
                    PromoteActionView::WriteMarker { session_id: self.session_id, digest: self.digest },
                ),
                MarkerView::Unreadable(words) => self.fail(FinalizeErrorView::Atif(words), false),
                MarkerView::Found { session_id, digest } => if session_id == self.session_id && digest
                    == self.digest {
                    (self.at(PromoteStage::Claiming), PromoteActionView::Claim)
                } else {
                    self.fail(
                        FinalizeErrorView::Atif("promotion marker does not match session and trajectory"@),
                        false,
                    )
                },
            },
            (PromoteStage::Writing, PromoteEventView::MarkerWritten(fault)) => self.go_on(
                fault,
                false,
                PromoteStage::Claiming,
                PromoteActionView::Claim,
            ),
            _ => (self, PromoteActionView::Ignore),
        }
    }

    /// What becomes of a promotion that is being claimed, or is.
    pub open spec fn next_after(self, event: PromoteEventView) -> (PromoteView, PromoteActionView) {
        match (self.stage, event) {
            (PromoteStage::Claiming, PromoteEventView::Claimed(given)) => if given {
                (self.at(PromoteStage::Attesting), PromoteActionView::FindReceipt)
            } else {
                self.fail(promotion_fault("promotion is already in progress"@), false)
            },
            (PromoteStage::Attesting, PromoteEventView::ReceiptHeld(held)) => match held {
                HeldView::Absent => (
                    self.at(PromoteStage::Issuing),
                    PromoteActionView::Issue {
                        subject: self.subject(),
                        stop_reason: StopReason::SessionClosed,
                    },
                ),
                HeldView::Refused(e) => self.fail(e, true),
                HeldView::Verified { subject } => if subject == self.subject() {
                    (self.at(PromoteStage::Announcing), PromoteActionView::Announce)
                } else {
                    self.fail(
                        FinalizeErrorView::Receipt(
                            "persisted promotion receipt does not match ATIF artifact"@,
                        ),
                        true,
                    )
                },
            },
            (PromoteStage::Issuing, PromoteEventView::Issued(fault)) => match fault {
                Some(words) => self.fail(FinalizeErrorView::Receipt(words), true),
                None => (self.at(PromoteStage::Persisting), PromoteActionView::Persist),
            },
            (PromoteStage::Persisting, PromoteEventView::Persisted(fault)) => self.go_on(
                fault,
                true,
                PromoteStage::Announcing,
                PromoteActionView::Announce,
            ),
            (PromoteStage::Announcing, PromoteEventView::Announced(fault)) => self.go_on(
                fault,
                true,
                PromoteStage::Unmarking,
                PromoteActionView::FinishAndUnmark,
            ),
            (PromoteStage::Unmarking, PromoteEventView::MarkerRemoved(fault)) => self.go_on(
                fault,
                false,
                PromoteStage::Dropping,
                PromoteActionView::DropOutbox,
            ),
            (PromoteStage::Dropping, PromoteEventView::OutboxDropped(fault)) => self.go_on(
                fault,
                false,
                PromoteStage::Done,
                PromoteActionView::Complete,
            ),
            _ => (self, PromoteActionView::Ignore),
        }
    }

    /// Whether a promotion is being claimed, or is.
    pub open spec fn is_late(self) -> bool {
        match self.stage {
            PromoteStage::Claiming | PromoteStage::Attesting | PromoteStage::Issuing | PromoteStage::Persisting
            | PromoteStage::Announcing | PromoteStage::Unmarking | PromoteStage::Dropping => true,
            _ => false,
        }
    }

    /// What becomes of a promotion when something happens, and what is to be
    /// done.
    pub open spec fn next(self, event: PromoteEventView) -> (PromoteView, PromoteActionView) {
        if self.is_late() {
            self.next_after(event)
        } else {
            self.next_before(event)
        }
    }
}

impl PromoteFlow {
    /// Begins the promotion of a session.
    pub fn new(workflow: Workflow, session_id: String) -> (flow: PromoteFlow)
        ensures
            flow@ == (PromoteView {
                workflow,
                session_id: session_id@,
                stage: PromoteStage::Looking,
                digest: Seq::empty(),
                steps: 0,
            }),
    {
        PromoteFlow { workflow, session_id, stage: PromoteStage::Looking, digest: String::new(), steps: 0 }
    }

    /// Ends by a failure.
    fn fail(&mut self, error: FinalizeError, release: bool) -> (action: PromoteAction)
        ensures
            (final(self)@, action@) == old(self)@.fail(error@, release),
    {
        self.stage = PromoteStage::Done;
        PromoteAction::Fail { error, release }
    }

    /// Refuses the promotion.
    fn refuse(&mut self, words: &str) -> (action: PromoteAction)
        ensures
            (final(self)@, action@) == old(self)@.fail(promotion_fault(words@), false),
    {
        self.fail(FinalizeError::Promotion(words.to_owned()), false)
    }

    /// Goes on to a stage.
    fn go(&mut self, stage: PromoteStage, action: PromoteAction) -> (taken: PromoteAction)
        ensures
            (final(self)@, taken@) == (old(self)@.at(stage), action@),
    {
        self.stage = stage;
        action
    }

    /// Goes on to a stage, or ends by a failure.
    fn go_on(
        &mut self,
        outcome: Result<(), FinalizeError>,
        release: bool,
        stage: PromoteStage,
        action: PromoteAction,
    ) -> (taken: PromoteAction)
        ensures
            (final(self)@, taken@) == old(self)@.go_on(recovery::final_fault(outcome), release, stage, action@),
    {
        match outcome {
            Err(e) => self.fail(e, release),
            Ok(()) => self.go(stage, action),
        }
    }

    /// Looks at what the session holds.
    fn step_inspected(&mut self, promoted: bool, has_receipt: bool, has_artifact: bool, has_marker: bool) -> (action: PromoteAction)
        requires
            old(self)@.stage == PromoteStage::Inspecting,
        ensures
            (final(self)@, action@) == old(self)@.next_before(
                PromoteEventView::Inspected { promoted, has_receipt, has_artifact, has_marker },
            ),
    {
        if promoted {
            if !has_receipt {
                self.refuse("promoted session has no persisted receipt")
            } else if has_artifact && has_marker {
                self.go(PromoteStage::Tidying, PromoteAction::Tidy)
            } else {
                self.go(PromoteStage::Done, PromoteAction::Complete)
            }
        } else if !has_artifact {
            self.refuse("session has no persisted ATIF artifact")
        } else {
            self.go(PromoteStage::Sealing, PromoteAction::FindSeal)
        }
    }

    /// What the receipt of this promotion attests.
    fn subject(&self) -> (subject: Subject)
        ensures
            subject@ == self@.subject(),
    {
        Subject::Trajectory { digest: self.digest.clone(), steps: self.steps, retroactive: true }
    }

    /// Looks at the receipt that the session holds.
    fn step_held(&mut self, held: HeldReceipt) -> (action: PromoteAction)
        requires
            old(self)@.stage == PromoteStage::Attesting,
        ensures
            (final(self)@, action@) == old(self)@.next_after(PromoteEventView::ReceiptHeld(held@)),
    {
        let expected: Subject = self.subject();
        match held {
            HeldReceipt::Absent => self.go(
                PromoteStage::Issuing,
                PromoteAction::Issue { subject: expected, stop_reason: StopReason::SessionClosed },
            ),
            HeldReceipt::Refused(e) => self.fail(e, true),
            HeldReceipt::Verified { subject } => {
                if subject.same(&expected) {
                    self.go(PromoteStage::Announcing, PromoteAction::Announce)
                } else {
                    self.fail(
                        FinalizeError::Receipt(
                            "persisted promotion receipt does not match ATIF artifact".to_owned(),
                        ),
                        true,
                    )
                }
            },
        }
    }

    /// Looks at the marker.
    fn step_marker(&mut self, found: MarkerOnDisk) -> (action: PromoteAction)
        requires
            old(self)@.stage == PromoteStage::Marking,
        ensures
            (final(self)@, action@) == old(self)@.next_before(PromoteEventView::MarkerRead(found@)),
    {
        match found {
            MarkerOnDisk::Absent => {
                let action = PromoteAction::WriteMarker {
                    session_id: self.session_id.clone(),
                    digest: self.digest.clone(),
                };
                self.go(PromoteStage::Writing, action)
            },
            MarkerOnDisk::Unreadable(words) => self.fail(FinalizeError::Atif(words), false),
            MarkerOnDisk::Found { session_id, digest } => {
                if text::same_text(session_id.as_str(), self.session_id.as_str()) && text::same_text(
                    digest.as_str(),
                    self.digest.as_str(),
                ) {
                    self.go(PromoteStage::Claiming, PromoteAction::Claim)
                } else {
                    self.fail(
                        FinalizeError::Atif(
                            "promotion marker does not match session and trajectory".to_owned(),
                        ),
                        false,
                    )
                }
            },
        }
    }

    /// Takes a step before the promotion is claimed.
    fn step_before(&mut self, event: PromoteEvent) -> (action: PromoteAction)
        ensures
            (final(self)@, action@) == old(self)@.next_before(event@),
    {
        match event {
            PromoteEvent::Looked { closed, has_receipt } => {
                if self.stage == PromoteStage::Looking {
                    if self.workflow != Workflow::Unsigned {
                        if has_receipt {
                            return self.go(PromoteStage::Done, PromoteAction::Complete);
                        }
                        return self.refuse("signed session has no issued receipt");
                    }
                    if closed {
                        return self.go(PromoteStage::Inspecting, PromoteAction::Inspect);
                    }
                    return self.go(
                        PromoteStage::Closing,
                        PromoteAction::Close { stop_reason: StopReason::SessionClosed },
                    );
                }
            },
            PromoteEvent::Closed(outcome) => {
                if self.stage == PromoteStage::Closing {
                    return self.go_on(outcome, false, PromoteStage::Inspecting, PromoteAction::Inspect);
                }
            },
            PromoteEvent::Inspected { promoted, has_receipt, has_artifact, has_marker } => {
                if self.stage == PromoteStage::Inspecting {
                    return self.step_inspected(promoted, has_receipt, has_artifact, has_marker);
                }
            },
            PromoteEvent::Tidied => {
                if self.stage == PromoteStage::Tidying {
                    return self.go(PromoteStage::Done, PromoteAction::Complete);
                }
            },
            PromoteEvent::SealFound(found) => {
                if self.stage == PromoteStage::Sealing {
                    if found {
                        return self.go(PromoteStage::Verifying, PromoteAction::VerifySeal);
                    }
                    return self.fail(
                        FinalizeError::Atif("ATIF artifact has no authenticated provenance".to_owned()),
                        false,
                    );
                }
            },
            PromoteEvent::SealVerified(outcome) => {
                if self.stage == PromoteStage::Verifying {
                    return self.go_on(outcome, false, PromoteStage::Reading, PromoteAction::ReadTrajectory);
                }
            },
            PromoteEvent::TrajectoryRead(read) => {
                if self.stage == PromoteStage::Reading {
                    return match read {
                        Err(words) => self.fail(FinalizeError::Atif(words), false),
                        Ok(t) => {
                            if t.issues.len() > 0 {
                                self.fail(nonconformant(&t.issues), false)
                            } else {
                                self.digest = t.digest;
                                self.steps = t.steps;
                                self.go(PromoteStage::Marking, PromoteAction::ReadMarker)
                            }
                        },
                    };
                }
            },
            PromoteEvent::MarkerRead(found) => {
                if self.stage == PromoteStage::Marking {
                    return self.step_marker(found);
                }
            },
            PromoteEvent::MarkerWritten(outcome) => {
                if self.stage == PromoteStage::Writing {
                    return self.go_on(outcome, false, PromoteStage::Claiming, PromoteAction::Claim);
                }
            },
            _ => {},
        }
        PromoteAction::Ignore
    }

    /// Takes a step while the promotion is being claimed, or is.
    fn step_after(&mut self, event: PromoteEvent) -> (action: PromoteAction)
        ensures
            (final(self)@, action@) == old(self)@.next_after(event@),
    {
        match event {
            PromoteEvent::Claimed(given) => {
                if self.stage == PromoteStage::Claiming {
                    if given {
                        return self.go(PromoteStage::Attesting, PromoteAction::FindReceipt);
                    }
                    return self.refuse("promotion is already in progress");
                }
            },
            PromoteEvent::ReceiptHeld(held) => {
                if self.stage == PromoteStage::Attesting {
                    return self.step_held(held);
                }
            },
            PromoteEvent::Issued(outcome) => {
                if self.stage == PromoteStage::Issuing {
                    return match outcome {
                        Err(words) => self.fail(FinalizeError::Receipt(words), true),
                        Ok(()) => self.go(PromoteStage::Persisting, PromoteAction::Persist),
                    };
                }
            },
            PromoteEvent::Persisted(outcome) => {
                if self.stage == PromoteStage::Persisting {
                    return self.go_on(outcome, true, PromoteStage::Announcing, PromoteAction::Announce);
                }
            },
            PromoteEvent::Announced(outcome) => {
                if self.stage == PromoteStage::Announcing {
                    return self.go_on(outcome, true, PromoteStage::Unmarking, PromoteAction::FinishAndUnmark);
                }
            },
            PromoteEvent::MarkerRemoved(outcome) => {
                if self.stage == PromoteStage::Unmarking {
                    return self.go_on(outcome, false, PromoteStage::Dropping, PromoteAction::DropOutbox);
                }
            },
            PromoteEvent::OutboxDropped(outcome) => {
                if self.stage == PromoteStage::Dropping {
                    return self.go_on(outcome, false, PromoteStage::Done, PromoteAction::Complete);
                }
            },
            _ => {},
        }
        PromoteAction::Ignore
    }

    /// Takes one step of the promotion.
    pub fn step(&mut self, event: PromoteEvent) -> (action: PromoteAction)
        ensures
            (final(self)@, action@) == old(self)@.next(event@),
    {
        match self.stage {
            PromoteStage::Claiming | PromoteStage::Attesting | PromoteStage::Issuing | PromoteStage::Persisting
            | PromoteStage::Announcing | PromoteStage::Unmarking | PromoteStage::Dropping => self.step_after(event),
            _ => self.step_before(event),
        }
    }
}

/// A promotion after a number of events.
pub open spec fn run(workflow: Workflow, session_id: Seq<char>, events: Seq<PromoteEventView>) -> PromoteView
    decreases events.len(),
{
    if events.len() == 0 {
        PromoteView { workflow, session_id, stage: PromoteStage::Looking, digest: Seq::empty(), steps: 0 }
    } else {
        run(workflow, session_id, events.drop_last()).next(events.last()).0
    }
}

/// Whether an event makes sure that the marker of a promotion is on disk: it
/// was written, or found for this session and this trajectory.
pub open spec fn marks(event: PromoteEventView, session_id: Seq<char>, digest: Seq<char>) -> bool {
    event == PromoteEventView::MarkerWritten(None) || event == PromoteEventView::MarkerRead(
        MarkerView::Found { session_id, digest },
    )
}

/// Whether an event read the trajectory that a promotion goes by: it has no
/// issue, and its digest and the number of its steps are the ones at hand.
pub open spec fn reads(event: PromoteEventView, state: PromoteView) -> bool {
    event matches PromoteEventView::TrajectoryRead(Ok((issues, digest, steps))) && issues.len() == 0 && digest
        == state.digest && steps == state.steps
}

/// A receipt is issued only for a trajectory of an unsigned session whose
/// seal held, which has no issue, and for which a marker is on disk.
pub proof fn law_only_sealed_trajectories_are_attested(
    workflow: Workflow,
    session_id: Seq<char>,
    events: Seq<PromoteEventView>,
    event: PromoteEventView,
)
    requires
        run(workflow, session_id, events).next(event).1 is Issue,
    ensures
        workflow == Workflow::Unsigned,
        exists|i: int| 0 <= i < events.len() && #[trigger] events[i] == PromoteEventView::SealVerified(None),
        exists|i: int|
            0 <= i < events.len() && reads(#[trigger] events[i], run(workflow, session_id, events)),
        exists|i: int|
            0 <= i < events.len() && marks(
                #[trigger] events[i],
                session_id,
                run(workflow, session_id, events).digest,
            ),
        exists|i: int| 0 <= i < events.len() && #[trigger] events[i] == PromoteEventView::Claimed(true),
{
    lemma_promotion(workflow, session_id, events);
}

/// What lies behind a promotion at each stage.
proof fn lemma_promotion(workflow: Workflow, session_id: Seq<char>, events: Seq<PromoteEventView>)
    ensures
        ({
            let s = run(workflow, session_id, events);
            let verified = exists|i: int|
                0 <= i < events.len() && #[trigger] events[i] == PromoteEventView::SealVerified(None);
            let read = exists|i: int| 0 <= i < events.len() && reads(#[trigger] events[i], s);
            let marked = exists|i: int|
                0 <= i < events.len() && marks(#[trigger] events[i], session_id, s.digest);
            let claimed = exists|i: int|
                0 <= i < events.len() && #[trigger] events[i] == PromoteEventView::Claimed(true);
            &&& s.workflow == workflow
            &&& s.session_id == session_id
            &&& match s.stage {
                PromoteStage::Looking | PromoteStage::Done => true,
                PromoteStage::Closing | PromoteStage::Inspecting | PromoteStage::Tidying | PromoteStage::Sealing
                | PromoteStage::Verifying => workflow == Workflow::Unsigned,
                PromoteStage::Reading => workflow == Workflow::Unsigned && verified,
                PromoteStage::Marking | PromoteStage::Writing => workflow == Workflow::Unsigned && verified && read,
                PromoteStage::Claiming => workflow == Workflow::Unsigned && verified && read && marked,
                _ => workflow == Workflow::Unsigned && verified && read && marked && claimed,
            }
        }),
    decreases events.len(),
{
    if events.len() > 0 {
        let rest = events.drop_last();
        lemma_promotion(workflow, session_id, rest);
        assert forall|i: int| 0 <= i < rest.len() implies #[trigger] rest[i] == events[i] by {}
        assert(events[events.len() - 1] == events.last());
    }
}

/// A promotion that fails between its claim and the announcement of the
/// receipt gives its claim up, so that it can be tried again; no other
/// failure touches a claim.
pub proof fn law_failed_promotions_give_way(state: PromoteView, event: PromoteEventView)
    requires
        state.next(event).1 is Fail,
    ensures
        state.next(event).1->release <==> (state.stage == PromoteStage::Attesting || state.stage
            == PromoteStage::Issuing || state.stage == PromoteStage::Persisting || state.stage
            == PromoteStage::Announcing),
{
}

/// The marker of a promotion is removed only once its receipt is announced.
pub proof fn law_marker_outlives_the_announcement(state: PromoteView, event: PromoteEventView)
    requires
        state.next(event).1 == PromoteActionView::FinishAndUnmark,
    ensures
        state.stage == PromoteStage::Announcing,
        event == PromoteEventView::Announced(None),
{
}

/// The receipt of a promotion attests the trajectory that was read, with its
/// digest and all its steps, as one that was written before: a new one is
/// issued for exactly that, and one that the session holds is announced only
/// if it attests exactly that.
pub proof fn law_promotion_attests_the_trajectory(
    workflow: Workflow,
    session_id: Seq<char>,
    events: Seq<PromoteEventView>,
    event: PromoteEventView,
)
    requires
        run(workflow, session_id, events).stage == PromoteStage::Attesting,
    ensures
        ({
            let state = run(workflow, session_id, events);
            let subject = SubjectView::Trajectory { digest: state.digest, steps: state.steps, retroactive: true };
            &&& exists|i: int| 0 <= i < events.len() && reads(#[trigger] events[i], state)
            &&& state.next(event).1 is Issue ==> state.next(event).1 == (PromoteActionView::Issue {
                subject,
                stop_reason: StopReason::SessionClosed,
            })
            &&& state.next(event).1 == PromoteActionView::Announce ==> event == PromoteEventView::ReceiptHeld(
                HeldView::Verified { subject },
            )
        }),
{
    lemma_promotion(workflow, session_id, events);
}

/// A promotion of a session that is promoted already hands out the receipt
/// that is there: none is issued, stored or announced again.
pub proof fn law_promotion_happens_once(state: PromoteView, has_artifact: bool, has_marker: bool)
    requires
        state.stage == PromoteStage::Inspecting,
    ensures
        ({
            let event = PromoteEventView::Inspected { promoted: true, has_receipt: true, has_artifact, has_marker };
            let (after, action) = state.next(event);
            if has_artifact && has_marker {
                &&& action == PromoteActionView::Tidy
                &&& after.next(PromoteEventView::Tidied) == (
                    after.at(PromoteStage::Done),
                    PromoteActionView::Complete,
                )
            } else {
                &&& action == PromoteActionView::Complete
                &&& after.stage == PromoteStage::Done
            }
        }),
{
}

/// A promotion hands a receipt out only where there is one: the session is a
/// signed one that holds a receipt, or was promoted and holds one, or its
/// receipt was announced, its marker is gone and its outbox too.
pub proof fn law_receipts_are_handed_out_where_they_exist(
    workflow: Workflow,
    session_id: Seq<char>,
    events: Seq<PromoteEventView>,
    event: PromoteEventView,
)
    requires
        run(workflow, session_id, events).next(event).1 == PromoteActionView::Complete,
    ensures
        ({
            ||| workflow == Workflow::Signed && (event matches PromoteEventView::Looked { has_receipt, .. }
                && has_receipt)
            ||| workflow == Workflow::Unsigned && (event matches PromoteEventView::Inspected { promoted, has_receipt, .. }
                && promoted && has_receipt)
            ||| workflow == Workflow::Unsigned && event is Tidied && exists|i: int|
                0 <= i < events.len() && (#[trigger] events[i] matches PromoteEventView::Inspected {
                    promoted,
                    has_receipt,
                    ..
                } && promoted && has_receipt)
            ||| workflow == Workflow::Unsigned && event == PromoteEventView::OutboxDropped(None) && (exists|i: int|
                0 <= i < events.len() && #[trigger] events[i] == PromoteEventView::Announced(None)) && exists|i: int|
                0 <= i < events.len() && #[trigger] events[i] == PromoteEventView::MarkerRemoved(None)
        }),
{
    lemma_promotion(workflow, session_id, events);
    lemma_promotion_ends(workflow, session_id, events);
}

/// What lies behind the last stages of a promotion.
proof fn lemma_promotion_ends(workflow: Workflow, session_id: Seq<char>, events: Seq<PromoteEventView>)
    ensures
        ({
            let s = run(workflow, session_id, events);
            &&& s.stage == PromoteStage::Tidying ==> exists|i: int|
                0 <= i < events.len() && (#[trigger] events[i] matches PromoteEventView::Inspected {
                    promoted,
                    has_receipt,
                    ..
                } && promoted && has_receipt)
            &&& s.stage == PromoteStage::Unmarking || s.stage == PromoteStage::Dropping ==> exists|i: int|
                0 <= i < events.len() && #[trigger] events[i] == PromoteEventView::Announced(None)
            &&& s.stage == PromoteStage::Dropping ==> exists|i: int|
                0 <= i < events.len() && #[trigger] events[i] == PromoteEventView::MarkerRemoved(None)
        }),
    decreases events.len(),
{
    if events.len() > 0 {
        let rest = events.drop_last();
        lemma_promotion_ends(workflow, session_id, rest);
        assert forall|i: int| 0 <= i < rest.len() implies #[trigger] rest[i] == events[i] by {}
        assert(events[events.len() - 1] == events.last());
    }
}

/// A session without what a promotion needs is refused: a signed one without
/// a receipt, a promoted one whose receipt is gone, one without a trajectory,
/// and one that is being promoted already.
pub proof fn law_unready_sessions_are_refused(state: PromoteView, closed: bool, has_receipt: bool, has_artifact: bool, has_marker: bool)
    ensures
        state.stage == PromoteStage::Looking && state.workflow == Workflow::Signed ==> (state.next(
            PromoteEventView::Looked { closed, has_receipt: false },
        ).1 matches PromoteActionView::Fail { error: FinalizeErrorView::Promotion(_), release: false }),
        state.stage == PromoteStage::Inspecting ==> (state.next(
            PromoteEventView::Inspected { promoted: true, has_receipt: false, has_artifact, has_marker },
        ).1 matches PromoteActionView::Fail { error: FinalizeErrorView::Promotion(_), release: false }),
        state.stage == PromoteStage::Inspecting ==> (state.next(
            PromoteEventView::Inspected { promoted: false, has_receipt, has_artifact: false, has_marker },
        ).1 matches PromoteActionView::Fail { error: FinalizeErrorView::Promotion(_), release: false }),
        state.stage == PromoteStage::Claiming ==> (state.next(PromoteEventView::Claimed(false)).1
            matches PromoteActionView::Fail { error: FinalizeErrorView::Promotion(_), release: false }),
{
}

/// A trajectory that has no seal, that cannot be read, that has issues, or
/// whose marker is of another session or trajectory, is not promoted.
pub proof fn law_doubtful_trajectories_are_refused(
    state: PromoteView,
    issues: Seq<Seq<char>>,
    digest: Seq<char>,
    steps: u64,
    words: Seq<char>,
    session_id: Seq<char>,
)
    ensures
        state.stage == PromoteStage::Sealing ==> (state.next(PromoteEventView::SealFound(false)).1
            matches PromoteActionView::Fail { error: FinalizeErrorView::Atif(_), .. }),
        state.stage == PromoteStage::Reading ==> state.next(PromoteEventView::TrajectoryRead(Err(words))).1 == (
        PromoteActionView::Fail { error: FinalizeErrorView::Atif(words), release: false }),
        state.stage == PromoteStage::Reading && issues.len() > 0 ==> (state.next(
            PromoteEventView::TrajectoryRead(Ok((issues, digest, steps))),
        ).1 matches PromoteActionView::Fail { error: FinalizeErrorView::Atif(_), .. }),
        state.stage == PromoteStage::Marking && (session_id != state.session_id || digest != state.digest) ==> (state.next(
            PromoteEventView::MarkerRead(MarkerView::Found { session_id, digest }),
        ).1 matches PromoteActionView::Fail { error: FinalizeErrorView::Atif(_), .. }),
        state.stage == PromoteStage::Marking ==> state.next(PromoteEventView::MarkerRead(MarkerView::Unreadable(words))).1
            == (PromoteActionView::Fail { error: FinalizeErrorView::Atif(words), release: false }),
{
}

/// A step of a promotion that fails ends it by that very failure.
pub proof fn law_failed_steps_end_the_promotion(state: PromoteView, error: FinalizeErrorView, words: Seq<char>)
    ensures
        ({
            let early = PromoteActionView::Fail { error, release: false };
            let claimed = PromoteActionView::Fail { error, release: true };
            &&& state.stage == PromoteStage::Closing ==> state.next(PromoteEventView::Closed(Some(error))).1 == early
            &&& state.stage == PromoteStage::Verifying ==> state.next(PromoteEventView::SealVerified(Some(error))).1 == early
            &&& state.stage == PromoteStage::Writing ==> state.next(PromoteEventView::MarkerWritten(Some(error))).1 == early
            &&& state.stage == PromoteStage::Attesting ==> state.next(
                PromoteEventView::ReceiptHeld(HeldView::Refused(error)),
            ).1 == claimed
            &&& state.stage == PromoteStage::Issuing ==> state.next(PromoteEventView::Issued(Some(words))).1 == (
            PromoteActionView::Fail { error: FinalizeErrorView::Receipt(words), release: true })
            &&& state.stage == PromoteStage::Persisting ==> state.next(PromoteEventView::Persisted(Some(error))).1 == claimed
            &&& state.stage == PromoteStage::Announcing ==> state.next(PromoteEventView::Announced(Some(error))).1 == claimed
            &&& state.stage == PromoteStage::Unmarking ==> state.next(PromoteEventView::MarkerRemoved(Some(error))).1 == early
            &&& state.stage == PromoteStage::Dropping ==> state.next(PromoteEventView::OutboxDropped(Some(error))).1 == early
        }),
{
}

/// An open session is closed before it is promoted, as one that was closed
/// by its client; a closed one is looked at straight away.
pub proof fn law_open_sessions_are_closed_first(state: PromoteView, has_receipt: bool)
    requires
        state.stage == PromoteStage::Looking,
        state.workflow == Workflow::Unsigned,
    ensures
        state.next(PromoteEventView::Looked { closed: false, has_receipt }).1 == (PromoteActionView::Close {
            stop_reason: StopReason::SessionClosed,
        }),
        state.next(PromoteEventView::Looked { closed: false, has_receipt }).0.next(PromoteEventView::Closed(None)).1
            == PromoteActionView::Inspect,
        state.next(PromoteEventView::Looked { closed: true, has_receipt }).1 == PromoteActionView::Inspect,
{
}

/// The words for a trajectory that is not valid tell how many issues there
/// are, and show the first sixteen at most.
pub proof fn law_few_issues_are_shown(issues: Seq<Seq<char>>)
    ensures
        shown_issues(issues).len() <= 16,
        issues.len() <= 16 ==> shown_issues(issues) == issues,
        shown_issues(issues).len() == issues.len() || shown_issues(issues).len() == 16,
        forall|i: int| 0 <= i < shown_issues(issues).len() ==> #[trigger] shown_issues(issues)[i] == issues[i],
        text::has_prefix(issue_words(issues), "strict validation failed ("@ + text::decimal_digits(issues.len())),
{
    let head = "strict validation failed ("@ + text::decimal_digits(issues.len());
    assert(issue_words(issues).take(head.len() as int) =~= head);
}

/// A promotion that meets no obstacle goes all the way: it looks at the
/// session, verifies the seal, reads the trajectory, marks the promotion,
/// claims it, issues a receipt for exactly that trajectory, stores and
/// announces it, removes the marker and the outbox, and hands the receipt out.
pub proof fn law_smooth_promotions_go_all_the_way(
    session_id: Seq<char>,
    has_receipt: bool,
    has_marker: bool,
    digest: Seq<char>,
    steps: u64,
)
    ensures
        ({
            let s0 = run(Workflow::Unsigned, session_id, Seq::empty());
            let (s1, a1) = s0.next(PromoteEventView::Looked { closed: true, has_receipt });
            let (s2, a2) = s1.next(
                PromoteEventView::Inspected { promoted: false, has_receipt, has_artifact: true, has_marker },
            );
            let (s3, a3) = s2.next(PromoteEventView::SealFound(true));
            let (s4, a4) = s3.next(PromoteEventView::SealVerified(None));
            let (s5, a5) = s4.next(PromoteEventView::TrajectoryRead(Ok((Seq::empty(), digest, steps))));
            let (s6, a6) = s5.next(PromoteEventView::MarkerRead(MarkerView::Absent));
            let (s7, a7) = s6.next(PromoteEventView::MarkerWritten(None));
            let (s8, a8) = s7.next(PromoteEventView::Claimed(true));
            let (s9, a9) = s8.next(PromoteEventView::ReceiptHeld(HeldView::Absent));
            let (s10, a10) = s9.next(PromoteEventView::Issued(None));
            let (s11, a11) = s10.next(PromoteEventView::Persisted(None));
            let (s12, a12) = s11.next(PromoteEventView::Announced(None));
            let (s13, a13) = s12.next(PromoteEventView::MarkerRemoved(None));
            let (s14, a14) = s13.next(PromoteEventView::OutboxDropped(None));
            let subject = SubjectView::Trajectory { digest, steps, retroactive: true };
            &&& a1 == PromoteActionView::Inspect
            &&& a2 == PromoteActionView::FindSeal
            &&& a3 == PromoteActionView::VerifySeal
            &&& a4 == PromoteActionView::ReadTrajectory
            &&& a5 == PromoteActionView::ReadMarker
            &&& a6 == (PromoteActionView::WriteMarker { session_id, digest })
            &&& a7 == PromoteActionView::Claim
            &&& a8 == PromoteActionView::FindReceipt
            &&& a9 == (PromoteActionView::Issue { subject, stop_reason: StopReason::SessionClosed })
            &&& a10 == PromoteActionView::Persist
            &&& a11 == PromoteActionView::Announce
            &&& a12 == PromoteActionView::FinishAndUnmark
            &&& a13 == PromoteActionView::DropOutbox
            &&& a14 == PromoteActionView::Complete
            &&& s14.stage == PromoteStage::Done
            &&& s5.next(PromoteEventView::MarkerRead(MarkerView::Found { session_id, digest })) == (s7, a7)
            &&& s8.next(PromoteEventView::ReceiptHeld(HeldView::Verified { subject })) == (s11, a11)
        }),
{
}

/// A promotion that has ended does nothing more, however it ended.
pub proof fn law_ended_promotions_rest(state: PromoteView, event: PromoteEventView)
    ensures
        state.next(event).1 is Fail || state.next(event).1 == PromoteActionView::Complete ==> state.next(event).0.stage
            == PromoteStage::Done,
        state.stage == PromoteStage::Done ==> state.next(event) == (state, PromoteActionView::Ignore),
{
}

/// A promotion that ends for want of something says what is missing or does
/// not match, and lets go of the session where it had claimed it.
pub proof fn law_refused_promotions_are_told_why(
    flow: PromoteView,
    closed: bool,
    has_artifact: bool,
    has_marker: bool,
    has_receipt: bool,
    other: SubjectView,
    session_id: Seq<char>,
    digest: Seq<char>,
)
    ensures
        flow.stage == PromoteStage::Looking && flow.workflow == Workflow::Signed ==> flow.next_before(
            PromoteEventView::Looked { closed, has_receipt: false },
        ).1 == (PromoteActionView::Fail {
            error: FinalizeErrorView::Promotion("signed session has no issued receipt"@),
            release: false,
        }),
        flow.stage == PromoteStage::Inspecting ==> flow.next_before(
            PromoteEventView::Inspected { promoted: true, has_receipt: false, has_artifact, has_marker },
        ).1 == (PromoteActionView::Fail {
            error: FinalizeErrorView::Promotion("promoted session has no persisted receipt"@),
            release: false,
        }),
        flow.stage == PromoteStage::Inspecting ==> flow.next_before(
            PromoteEventView::Inspected { promoted: false, has_receipt, has_artifact: false, has_marker },
        ).1 == (PromoteActionView::Fail {
            error: FinalizeErrorView::Promotion("session has no persisted ATIF artifact"@),
            release: false,
        }),
        flow.stage == PromoteStage::Sealing ==> flow.next_before(PromoteEventView::SealFound(false)).1 == (
        PromoteActionView::Fail {
            error: FinalizeErrorView::Atif("ATIF artifact has no authenticated provenance"@),
            release: false,
        }),
        flow.stage == PromoteStage::Marking && (session_id != flow.session_id || digest != flow.digest)
            ==> flow.next_before(PromoteEventView::MarkerRead(MarkerView::Found { session_id, digest })).1 == (
        PromoteActionView::Fail {
            error: FinalizeErrorView::Atif("promotion marker does not match session and trajectory"@),
            release: false,
        }),
        flow.stage == PromoteStage::Claiming ==> flow.next_after(PromoteEventView::Claimed(false)).1 == (
        PromoteActionView::Fail {
            error: FinalizeErrorView::Promotion("promotion is already in progress"@),
            release: false,
        }),
        flow.stage == PromoteStage::Attesting && other != flow.subject() ==> flow.next_after(
            PromoteEventView::ReceiptHeld(HeldView::Verified { subject: other }),
        ).1 == (PromoteActionView::Fail {
            error: FinalizeErrorView::Receipt("persisted promotion receipt does not match ATIF artifact"@),
            release: true,
        }),
{
}

/// The words on a trajectory that is not valid give the number of its issues
/// and show the first of them.
pub proof fn law_issues_are_counted_and_shown(issues: Seq<Seq<char>>)
    ensures
        text::has_prefix(
            issue_words(issues),
            "strict validation failed ("@ + text::decimal_digits(issues.len()) + " issues, showing first "@,
        ),
        issues.len() <= RENDER_ISSUE_HEAD ==> issue_words(issues) == "strict validation failed ("@ + text::decimal_digits(
            issues.len(),
        ) + " issues, showing first "@ + text::decimal_digits(issues.len()) + "): ["@ + text::joined(issues, ", "@)
            + "]"@,
        shown_issues(issues).len() <= RENDER_ISSUE_HEAD,
        forall|i: int| 0 <= i < shown_issues(issues).len() ==> #[trigger] shown_issues(issues)[i] == issues[i],
{
    let head = "strict validation failed ("@ + text::decimal_digits(issues.len()) + " issues, showing first "@;
    assert(issue_words(issues).take(head.len() as int) =~= head);
}

} // verus!
