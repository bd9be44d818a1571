//! Closing a session: its artifact is made durable, the close is announced,
//! and only then does its journal go.
//!
//! A close that fails before the artifact stands gives the session back, so
//! that it can be tried again; one that can never succeed seals it.

use vstd::prelude::*;
use crate::artifact;
use crate::errors::{FinalizeError, FinalizeErrorView};
use crate::json;
use crate::json::{Json, JsonTree};
use crate::provider::StopReason;
use crate::receipt::{Subject, SubjectView};
use crate::recovery;
use crate::session::{Standing, Workflow};

verus! {

/// A receipt that a session already holds.
#[derive(Debug)]
pub enum HeldReceipt {
    /// There is none.
    Absent,
    /// It is not one of the key in use, or does not verify.
    Refused(FinalizeError),
    /// It verifies, and attests this.
    Verified { subject: Subject },
}

/// A [`HeldReceipt`] by its contents.
#[verifier::ext_equal]
pub enum HeldView {
    Absent,
    Refused(FinalizeErrorView),
    Verified { subject: SubjectView },
}

impl View for HeldReceipt {
    type V = HeldView;

    open spec fn view(&self) -> HeldView {
        match self {
            HeldReceipt::Absent => HeldView::Absent,
            HeldReceipt::Refused(e) => HeldView::Refused(e@),
            HeldReceipt::Verified { subject } => HeldView::Verified { subject: subject@ },
        }
    }
}

/// Where a close stands.
#[derive(Clone, Copy, Debug, PartialEq, Eq, Structural)]
pub enum CloseStage {
    /// The session is being claimed.
    Claiming,
    /// Streams and records of the session are being waited for.
    Draining,
    /// A receipt that the session holds is being looked for.
    Attesting,
    /// A receipt is being issued.
    Issuing,
    /// The receipt is being stored.
    Persisting,
    /// A trajectory that the session holds is being looked for.
    Finding,
    /// The trajectory is being written.
    Writing,
    /// The provenance of the trajectory is being sealed.
    Sealing,
    /// The receipt is being announced.
    Announcing,
    /// The close is being announced.
    Reporting,
    /// The journal is being removed.
    Clearing,
    /// The outbox of the receipt is being removed.
    DroppingReceipt,
    /// The outbox of the close is being removed.
    DroppingClose,
    Done,
}

/// What happens in a close.
#[derive(Debug)]
pub enum CloseEvent {
    /// Whether the claim was given: to one close only.
    Claimed(bool),
    Drained { capture_failed: bool },
    /// The event chain of the session, by its head and its length, and the
    /// receipt that the session holds.
    ReceiptHeld { head: String, count: u64, held: HeldReceipt },
    Issued(Result<(), String>),
    Persisted(Result<(), FinalizeError>),
    /// Whether the session holds a trajectory, and whether it has steps that
    /// one could be made of.
    Found { written: bool, has_steps: bool },
    Written(Result<(), FinalizeError>),
    Sealed(Result<(), FinalizeError>),
    Announced(Result<(), FinalizeError>),
    Reported(Result<(), FinalizeError>),
    Cleared(Result<(), FinalizeError>),
    ReceiptDropped(Result<(), FinalizeError>),
    CloseDropped(Result<(), FinalizeError>),
}

/// How a close ended.
#[derive(Clone, Copy, Debug, PartialEq, Eq, Structural)]
pub enum CloseOutcome {
    AlreadyClosed,
    Receipt,
    Artifact,
}

/// What a close wants done.
#[derive(Debug)]
pub enum CloseAction {
    /// Nothing: this is not what is being waited for.
    Ignore,
    Drain,
    FindReceipt,
    /// Issue a receipt that attests this, for a session that ended so.
    Issue { subject: Subject, stop_reason: StopReason },
    Persist,
    FindArtifact,
    Write,
    Seal,
    /// Mark the artifact as committed, and announce the receipt.
    CommitAndAnnounce,
    /// Mark the artifact as committed, and announce the close by an event
    /// with this body.
    CommitAndReport(Json),
    /// Announce the close by an event with this body.
    Report(Json),
    ClearJournal,
    DropReceiptOutbox,
    DropCloseOutbox,
    /// The session was closed before.
    AlreadyClosed,
    /// Mark the close as complete and clear the session's budget.
    Complete(CloseOutcome),
    /// The close failed. Either the session is given back, or it is sealed:
    /// its artifact counts as committed, and its budget is cleared.
    Fail { error: FinalizeError, seal: bool },
}

/// The close of one session.
#[derive(Debug)]
pub struct CloseFlow {
    pub workflow: Workflow,
    /// Why the session ends.
    pub stop_reason: StopReason,
    pub stage: CloseStage,
}

/// A [`CloseEvent`] by its contents.
pub enum CloseEventView {
    Claimed(bool),
    Drained { capture_failed: bool },
    ReceiptHeld { head: Seq<char>, count: u64, held: HeldView },
    Issued(Option<Seq<char>>),
    Persisted(Option<FinalizeErrorView>),
    Found { written: bool, has_steps: bool },
    Written(Option<FinalizeErrorView>),
    Sealed(Option<FinalizeErrorView>),
    Announced(Option<FinalizeErrorView>),
    Reported(Option<FinalizeErrorView>),
    Cleared(Option<FinalizeErrorView>),
    ReceiptDropped(Option<FinalizeErrorView>),
    CloseDropped(Option<FinalizeErrorView>),
}

/// A [`CloseAction`] by its contents.
#[verifier::ext_equal]
pub enum CloseActionView {
    Ignore,
    Drain,
    FindReceipt,
    Issue { subject: SubjectView, stop_reason: StopReason },
    Persist,
    FindArtifact,
    Write,
    Seal,
    CommitAndAnnounce,
    CommitAndReport(JsonTree),
    Report(JsonTree),
    ClearJournal,
    DropReceiptOutbox,
    DropCloseOutbox,
    AlreadyClosed,
    Complete(CloseOutcome),
    Fail { error: FinalizeErrorView, seal: bool },
}

/// A [`CloseFlow`] by its contents.
#[verifier::ext_equal]
pub struct CloseView {
    pub workflow: Workflow,
    pub stop_reason: StopReason,
    pub stage: CloseStage,
}

impl View for CloseFlow {
    type V = CloseView;

    open spec fn view(&self) -> CloseView {
        CloseView { workflow: self.workflow, stop_reason: self.stop_reason, stage: self.stage }
    }
}

impl View for CloseEvent {
    type V = CloseEventView;

    open spec fn view(&self) -> CloseEventView {
        match self {
            CloseEvent::Claimed(given) => CloseEventView::Claimed(*given),
            CloseEvent::Drained { capture_failed } => CloseEventView::Drained { capture_failed: *capture_failed },
            CloseEvent::ReceiptHeld { head, count, held } => CloseEventView::ReceiptHeld {
                head: head@,
                count: *count,
                held: held@,
            },
            CloseEvent::Issued(outcome) => CloseEventView::Issued(recovery::word_fault(*outcome)),
            CloseEvent::Persisted(outcome) => CloseEventView::Persisted(recovery::final_fault(*outcome)),
            CloseEvent::Found { written, has_steps } => CloseEventView::Found {
                written: *written,
                has_steps: *has_steps,
            },
            CloseEvent::Written(outcome) => CloseEventView::Written(recovery::final_fault(*outcome)),
            CloseEvent::Sealed(outcome) => CloseEventView::Sealed(recovery::final_fault(*outcome)),
            CloseEvent::Announced(outcome) => CloseEventView::Announced(recovery::final_fault(*outcome)),
            CloseEvent::Reported(outcome) => CloseEventView::Reported(recovery::final_fault(*outcome)),
            CloseEvent::Cleared(outcome) => CloseEventView::Cleared(recovery::final_fault(*outcome)),
            CloseEvent::ReceiptDropped(outcome) => CloseEventView::ReceiptDropped(recovery::final_fault(*outcome)),
            CloseEvent::CloseDropped(outcome) => CloseEventView::CloseDropped(recovery::final_fault(*outcome)),
        }
    }
}

impl View for CloseAction {
    type V = CloseActionView;

    open spec fn view(&self) -> CloseActionView {
        match self {
            CloseAction::Ignore => CloseActionView::Ignore,
            CloseAction::Drain => CloseActionView::Drain,
            CloseAction::FindReceipt => CloseActionView::FindReceipt,
            CloseAction::Issue { subject, stop_reason } => CloseActionView::Issue {
                subject: subject@,
                stop_reason: *stop_reason,
            },
            CloseAction::Persist => CloseActionView::Persist,
            CloseAction::FindArtifact => CloseActionView::FindArtifact,
            CloseAction::Write => CloseActionView::Write,
            CloseAction::Seal => CloseActionView::Seal,
            CloseAction::CommitAndAnnounce => CloseActionView::CommitAndAnnounce,
            CloseAction::CommitAndReport(body) => CloseActionView::CommitAndReport(body@),
            CloseAction::Report(body) => CloseActionView::Report(body@),
            CloseAction::ClearJournal => CloseActionView::ClearJournal,
            CloseAction::DropReceiptOutbox => CloseActionView::DropReceiptOutbox,
            CloseAction::DropCloseOutbox => CloseActionView::DropCloseOutbox,
            CloseAction::AlreadyClosed => CloseActionView::AlreadyClosed,
            CloseAction::Complete(outcome) => CloseActionView::Complete(*outcome),
            CloseAction::Fail { error, seal } => CloseActionView::Fail { error: error@, seal: *seal },
        }
    }
}

/// How a close of a workflow ends well.
pub open spec fn close_outcome(workflow: Workflow) -> CloseOutcome {
    match workflow {
        Workflow::Signed => CloseOutcome::Receipt,
        Workflow::Unsigned => CloseOutcome::Artifact,
    }
}

impl CloseView {
    /// The state at another stage.
    pub open spec fn at(self, stage: CloseStage) -> CloseView {
        CloseView { stage, ..self }
    }

    /// The end by a failure that gives the session back, or seals it.
    pub open spec fn fail(self, error: FinalizeErrorView, seal: bool) -> (CloseView, CloseActionView) {
        (self.at(CloseStage::Done), CloseActionView::Fail { error, seal })
    }

    /// What comes after a step: the next one, or the end by its failure.
    pub open spec fn go_on(self, fault: Option<FinalizeErrorView>, stage: CloseStage, action: CloseActionView) -> (
        CloseView,
        CloseActionView,
    ) {
        match fault {
            Some(e) => self.fail(e, false),
            None => (self.at(stage), action),
        }
    }

    /// What becomes of a close when something happens, and what is to be
    /// done.
    pub open spec fn next(self, event: CloseEventView) -> (CloseView, CloseActionView) {
        match (self.stage, event) {
            (CloseStage::Claiming, CloseEventView::Claimed(given)) => if given {
                (self.at(CloseStage::Draining), CloseActionView::Drain)
            } else {
                (self.at(CloseStage::Done), CloseActionView::AlreadyClosed)
            },
            (CloseStage::Draining, CloseEventView::Drained { capture_failed }) => if capture_failed {
                self.fail(FinalizeErrorView::CaptureIncomplete, true)
            } else {
                match self.workflow {
                    Workflow::Signed => (self.at(CloseStage::Attesting), CloseActionView::FindReceipt),
                    Workflow::Unsigned => (self.at(CloseStage::Finding), CloseActionView::FindArtifact),
                }
            },
            (CloseStage::Attesting, CloseEventView::ReceiptHeld { head, count, held }) => match held {
                HeldView::Absent => (
                    self.at(CloseStage::Issuing),
                    CloseActionView::Issue {
                        subject: SubjectView::Chain { head, count },
                        stop_reason: self.stop_reason,
                    },
                ),
                HeldView::Refused(e) => self.fail(e, false),
                HeldView::Verified { subject } => if subject == (SubjectView::Chain { head, count }) {
                    (self.at(CloseStage::Announcing), CloseActionView::CommitAndAnnounce)
                } else {
                    self.fail(
                        FinalizeErrorView::Receipt(
                            "persisted receipt subject does not match reconstructed chain"@,
                        ),
                        false,
                    )
                },
            },
            (CloseStage::Issuing, CloseEventView::Issued(fault)) => match fault {
                Some(words) => self.fail(FinalizeErrorView::Receipt(words), false),
                None => (self.at(CloseStage::Persisting), CloseActionView::Persist),
            },
            (CloseStage::Persisting, CloseEventView::Persisted(fault)) => self.go_on(
                fault,
                CloseStage::Announcing,
                CloseActionView::CommitAndAnnounce,
            ),
            (CloseStage::Finding, CloseEventView::Found { written, has_steps }) => if written {
                (self.at(CloseStage::Sealing), CloseActionView::Seal)
            } else if !has_steps {
                self.fail(
                    FinalizeErrorView::Atif("cannot finalize an unsigned session with no captured steps"@),
                    true,
                )
            } else {
                (self.at(CloseStage::Writing), CloseActionView::Write)
            },
            (CloseStage::Writing, CloseEventView::Written(fault)) => self.go_on(
                fault,
                CloseStage::Sealing,
                CloseActionView::Seal,
            ),
            (CloseStage::Sealing, CloseEventView::Sealed(fault)) => self.go_on(
                fault,
                CloseStage::Reporting,
                CloseActionView::CommitAndReport(artifact::closed_tree(self.workflow)),
            ),
            (CloseStage::Announcing, CloseEventView::Announced(fault)) => self.go_on(
                fault,
                CloseStage::Reporting,
                CloseActionView::Report(artifact::closed_tree(self.workflow)),
            ),
            (CloseStage::Reporting, CloseEventView::Reported(fault)) => self.go_on(
                fault,
                CloseStage::Clearing,
                CloseActionView::ClearJournal,
            ),
            (CloseStage::Clearing, CloseEventView::Cleared(fault)) => self.go_on(
                fault,
                CloseStage::DroppingReceipt,
                CloseActionView::DropReceiptOutbox,
            ),
            (CloseStage::DroppingReceipt, CloseEventView::ReceiptDropped(fault)) => self.go_on(
                fault,
                CloseStage::DroppingClose,
                CloseActionView::DropCloseOutbox,
            ),
            (CloseStage::DroppingClose, CloseEventView::CloseDropped(fault)) => self.go_on(
                fault,
                CloseStage::Done,
                CloseActionView::Complete(close_outcome(self.workflow)),
            ),
            _ => (self, CloseActionView::Ignore),
        }
    }
}

impl CloseFlow {
    /// Begins the close of a session that ends for this reason.
    pub fn new(workflow: Workflow, stop_reason: StopReason) -> (flow: CloseFlow)
        ensures
            flow@ == (CloseView { workflow, stop_reason, stage: CloseStage::Claiming }),
    {
        CloseFlow { workflow, stop_reason, stage: CloseStage::Claiming }
    }

    /// Ends by a failure.
    fn fail(&mut self, error: FinalizeError, seal: bool) -> (action: CloseAction)
        ensures
            (final(self)@, action@) == old(self)@.fail(error@, seal),
    {
        self.stage = CloseStage::Done;
        CloseAction::Fail { error, seal }
    }

    /// Goes on to a stage, or ends by a failure.
    fn go_on(&mut self, outcome: Result<(), FinalizeError>, stage: CloseStage, action: CloseAction) -> (taken: CloseAction)
        ensures
            (final(self)@, taken@) == old(self)@.go_on(recovery::final_fault(outcome), stage, action@),
    {
        match outcome {
            Err(e) => self.fail(e, false),
            Ok(()) => {
                self.stage = stage;
                action
            },
        }
    }

    /// Looks at the event chain and at the receipt that the session holds.
    fn step_held(&mut self, head: String, count: u64, held: HeldReceipt) -> (action: CloseAction)
        requires
            old(self)@.stage == CloseStage::Attesting,
        ensures
            (final(self)@, action@) == old(self)@.next(
                CloseEventView::ReceiptHeld { head: head@, count, held: held@ },
            ),
    {
        let expected = Subject::Chain { head, count };
        match held {
            HeldReceipt::Absent => {
                self.stage = CloseStage::Issuing;
                CloseAction::Issue { subject: expected, stop_reason: self.stop_reason }
            },
            HeldReceipt::Refused(e) => self.fail(e, false),
            HeldReceipt::Verified { subject } => {
                if subject.same(&expected) {
                    self.stage = CloseStage::Announcing;
                    CloseAction::CommitAndAnnounce
                } else {
                    self.fail(
                        FinalizeError::Receipt(
                            "persisted receipt subject does not match reconstructed chain".to_owned(),
                        ),
                        false,
                    )
                }
            },
        }
    }

    /// Takes one step of the close.
    pub fn step(&mut self, event: CloseEvent) -> (action: CloseAction)
        ensures
            (final(self)@, action@) == old(self)@.next(event@),
    {
        match event {
            CloseEvent::Claimed(given) => {
                if self.stage == CloseStage::Claiming {
                    if given {
                        self.stage = CloseStage::Draining;
                        return CloseAction::Drain;
                    }
                    self.stage = CloseStage::Done;
                    return CloseAction::AlreadyClosed;
                }
            },
            CloseEvent::Drained { capture_failed } => {
                if self.stage == CloseStage::Draining {
                    if capture_failed {
                        return self.fail(FinalizeError::CaptureIncomplete, true);
                    }
                    return match self.workflow {
                        Workflow::Signed => {
                            self.stage = CloseStage::Attesting;
                            CloseAction::FindReceipt
                        },
                        Workflow::Unsigned => {
                            self.stage = CloseStage::Finding;
                            CloseAction::FindArtifact
                        },
                    };
                }
            },
            CloseEvent::ReceiptHeld { head, count, held } => {
                if self.stage == CloseStage::Attesting {
                    return self.step_held(head, count, held);
                }
            },
            CloseEvent::Issued(outcome) => {
                if self.stage == CloseStage::Issuing {
                    return match outcome {
                        Err(words) => self.fail(FinalizeError::Receipt(words), false),
                        Ok(()) => {
                            self.stage = CloseStage::Persisting;
                            CloseAction::Persist
                        },
                    };
                }
            },
            CloseEvent::Persisted(outcome) => {
                if self.stage == CloseStage::Persisting {
                    return self.go_on(outcome, CloseStage::Announcing, CloseAction::CommitAndAnnounce);
                }
            },
            CloseEvent::Found { written, has_steps } => {
                if self.stage == CloseStage::Finding {
                    if written {
                        self.stage = CloseStage::Sealing;
                        return CloseAction::Seal;
                    }
                    if !has_steps {
                        return self.fail(
                            FinalizeError::Atif(
                                "cannot finalize an unsigned session with no captured steps".to_owned(),
                            ),
                            true,
                        );
                    }
                    self.stage = CloseStage::Writing;
                    return CloseAction::Write;
                }
            },
            CloseEvent::Written(outcome) => {
                if self.stage == CloseStage::Writing {
                    return self.go_on(outcome, CloseStage::Sealing, CloseAction::Seal);
                }
            },
            CloseEvent::Sealed(outcome) => {
                if self.stage == CloseStage::Sealing {
                    let body: Json = artifact::closed_document(self.workflow);
                    return self.go_on(outcome, CloseStage::Reporting, CloseAction::CommitAndReport(body));
                }
            },
            CloseEvent::Announced(outcome) => {
                if self.stage == CloseStage::Announcing {
                    let body: Json = artifact::closed_document(self.workflow);
                    return self.go_on(outcome, CloseStage::Reporting, CloseAction::Report(body));
                }
            },
            CloseEvent::Reported(outcome) => {
                if self.stage == CloseStage::Reporting {
                    return self.go_on(outcome, CloseStage::Clearing, CloseAction::ClearJournal);
                }
            },
            CloseEvent::Cleared(outcome) => {
                if self.stage == CloseStage::Clearing {
                    return self.go_on(outcome, CloseStage::DroppingReceipt, CloseAction::DropReceiptOutbox);
                }
            },
            CloseEvent::ReceiptDropped(outcome) => {
                if self.stage == CloseStage::DroppingReceipt {
                    return self.go_on(outcome, CloseStage::DroppingClose, CloseAction::DropCloseOutbox);
                }
            },
            CloseEvent::CloseDropped(outcome) => {
                if self.stage == CloseStage::DroppingClose {
                    let ended: CloseOutcome = match self.workflow {
                        Workflow::Signed => CloseOutcome::Receipt,
                        Workflow::Unsigned => CloseOutcome::Artifact,
                    };
                    return self.go_on(outcome, CloseStage::Done, CloseAction::Complete(ended));
                }
            },
        }
        CloseAction::Ignore
    }
}

/// A close after a number of events, with what it wanted done on the way.
pub open spec fn run(workflow: Workflow, stop_reason: StopReason, events: Seq<CloseEventView>) -> (
    CloseView,
    Seq<CloseActionView>,
)
    decreases events.len(),
{
    if events.len() == 0 {
        (CloseView { workflow, stop_reason, stage: CloseStage::Claiming }, Seq::empty())
    } else {
        let (before, done) = run(workflow, stop_reason, events.drop_last());
        let (after, action) = before.next(events.last());
        (
            after,
            if action is Ignore {
                done
            } else {
                done.push(action)
            },
        )
    }
}

/// The place of an action in the order of a close.
pub open spec fn place(action: CloseActionView) -> int {
    match action {
        CloseActionView::Ignore => 0,
        CloseActionView::Drain => 1,
        CloseActionView::FindReceipt => 2,
        CloseActionView::FindArtifact => 2,
        CloseActionView::Issue { .. } => 3,
        CloseActionView::Write => 3,
        CloseActionView::Persist => 4,
        CloseActionView::Seal => 4,
        CloseActionView::CommitAndAnnounce => 5,
        CloseActionView::CommitAndReport(_) => 6,
        CloseActionView::Report(_) => 6,
        CloseActionView::ClearJournal => 7,
        CloseActionView::DropReceiptOutbox => 8,
        CloseActionView::DropCloseOutbox => 9,
        CloseActionView::AlreadyClosed => 10,
        CloseActionView::Complete(_) => 10,
        CloseActionView::Fail { .. } => 10,
    }
}

/// The place that a stage has reached.
spec fn reached(stage: CloseStage) -> int {
    match stage {
        CloseStage::Claiming => 0,
        CloseStage::Draining => 1,
        CloseStage::Attesting => 2,
        CloseStage::Finding => 2,
        CloseStage::Issuing => 3,
        CloseStage::Writing => 3,
        CloseStage::Persisting => 4,
        CloseStage::Sealing => 4,
        CloseStage::Announcing => 5,
        CloseStage::Reporting => 6,
        CloseStage::Clearing => 7,
        CloseStage::DroppingReceipt => 8,
        CloseStage::DroppingClose => 9,
        CloseStage::Done => 10,
    }
}

/// Whatever happens, a close does each thing at most once and in its order:
/// the artifact is durable before it counts as committed, it is committed
/// before the close is announced, and the close is announced before the
/// journal goes; and nothing is done once the close has ended.
pub proof fn law_close_keeps_its_order(workflow: Workflow, stop_reason: StopReason, events: Seq<CloseEventView>)
    ensures
        ({
            let actions = run(workflow, stop_reason, events).1;
            forall|i: int, j: int|
                0 <= i < j < actions.len() ==> place(#[trigger] actions[i]) < place(#[trigger] actions[j])
        }),
{
    lemma_close_order(workflow, stop_reason, events);
}

/// The actions of a run are in order, and the stage tells how far they have
/// come.
proof fn lemma_close_order(workflow: Workflow, stop_reason: StopReason, events: Seq<CloseEventView>)
    ensures
        ({
            let (state, actions) = run(workflow, stop_reason, events);
            &&& forall|i: int, j: int|
                0 <= i < j < actions.len() ==> place(#[trigger] actions[i]) < place(#[trigger] actions[j])
            &&& forall|i: int| 0 <= i < actions.len() ==> place(#[trigger] actions[i]) <= reached(state.stage)
        }),
    decreases events.len(),
{
    if events.len() > 0 {
        lemma_close_order(workflow, stop_reason, events.drop_last());
    }
}

/// The journal of a session is removed only once its close is announced.
pub proof fn law_journal_outlives_the_announcement(state: CloseView, event: CloseEventView)
    requires
        state.next(event).1 == CloseActionView::ClearJournal,
    ensures
        state.stage == CloseStage::Reporting,
        event == CloseEventView::Reported(None),
{
}

/// A session is claimed by one close: the others do nothing at all.
pub proof fn law_close_happens_once(state: CloseView)
    requires
        state.stage == CloseStage::Claiming,
    ensures
        state.next(CloseEventView::Claimed(false)).1 == CloseActionView::AlreadyClosed,
        forall|event: CloseEventView|
            (#[trigger] state.next(CloseEventView::Claimed(false)).0.next(event)).1 == CloseActionView::Ignore,
{
}

/// A close is given up for good only where it could never succeed: the
/// capture is incomplete, or there is nothing to write. Every other failure
/// gives the session back.
pub proof fn law_only_hopeless_sessions_are_sealed(state: CloseView, event: CloseEventView)
    requires
        state.next(event).1 is Fail,
    ensures
        state.next(event).1->seal <==> (event == (CloseEventView::Drained { capture_failed: true }) || event == (
        CloseEventView::Found { written: false, has_steps: false })),
{
}

/// The receipt of a close attests the event chain that the session has once
/// all its work is captured, with the reason for which it was closed: a new
/// one is issued for exactly that, and one that the session holds counts only
/// if it attests exactly that.
pub proof fn law_close_attests_the_chain_at_hand(state: CloseView, event: CloseEventView)
    requires
        state.stage == CloseStage::Attesting,
    ensures
        state.next(event).1 matches CloseActionView::Issue { subject, stop_reason } ==> {
            &&& event matches CloseEventView::ReceiptHeld { head, count, held }
            &&& held is Absent
            &&& subject == SubjectView::Chain { head, count }
            &&& stop_reason == state.stop_reason
        },
        state.next(event).1 == CloseActionView::CommitAndAnnounce ==> {
            &&& event matches CloseEventView::ReceiptHeld { head, count, held }
            &&& held == HeldView::Verified { subject: SubjectView::Chain { head, count } }
        },
{
}

/// Where a session stands once an action of its close is done.
pub open spec fn standing_after(before: Standing, action: CloseActionView) -> Standing {
    match action {
        CloseActionView::Drain => Standing { claimed: true, ..before },
        CloseActionView::CommitAndAnnounce => Standing { sealed: true, ..before },
        CloseActionView::CommitAndReport(_) => Standing { sealed: true, ..before },
        CloseActionView::Fail { seal, .. } => if seal {
            Standing { sealed: true, ..before }
        } else {
            Standing { claimed: false, ..before }
        },
        _ => before,
    }
}

impl CloseAction {
    /// Where the session stands once this action is done. A failure gives
    /// the claim up, but never breaks a seal.
    pub fn standing(&self, before: Standing) -> (after: Standing)
        ensures
            after == standing_after(before, self@),
    {
        let mut after: Standing = before;
        match self {
            CloseAction::Drain => {
                after.claimed = true;
            },
            CloseAction::CommitAndAnnounce => {
                after.sealed = true;
            },
            CloseAction::CommitAndReport(_) => {
                after.sealed = true;
            },
            CloseAction::Fail { seal, .. } => {
                if *seal {
                    after.sealed = true;
                } else {
                    after.claimed = false;
                }
            },
            _ => {},
        }
        after
    }
}

/// Where a session stands after a number of actions.
pub open spec fn standing_through(before: Standing, actions: Seq<CloseActionView>) -> Standing
    decreases actions.len(),
{
    if actions.len() == 0 {
        before
    } else {
        standing_after(standing_through(before, actions.drop_last()), actions.last())
    }
}

/// Whatever becomes of a close, a session that was sealed stays sealed, and
/// one whose capture failed stays so.
pub proof fn law_seals_are_not_broken(before: Standing, actions: Seq<CloseActionView>)
    ensures
        before.sealed ==> standing_through(before, actions).sealed,
        standing_through(before, actions).capture_failed == before.capture_failed,
    decreases actions.len(),
{
    if actions.len() > 0 {
        law_seals_are_not_broken(before, actions.drop_last());
    }
}

/// Whether something is among what was done.
pub open spec fn did(actions: Seq<CloseActionView>, action: CloseActionView) -> bool {
    exists|i: int| 0 <= i < actions.len() && #[trigger] actions[i] == action
}

/// What was done stays done.
proof fn lemma_did(actions: Seq<CloseActionView>, more: CloseActionView)
    ensures
        did(actions.push(more), more),
        forall|action: CloseActionView| did(actions, action) ==> #[trigger] did(actions.push(more), action),
{
    assert(actions.push(more)[actions.len() as int] == more);
    assert forall|action: CloseActionView| did(actions, action) implies #[trigger] did(actions.push(more), action) by {
        let i = choose|i: int| 0 <= i < actions.len() && #[trigger] actions[i] == action;
        assert(actions.push(more)[i] == action);
    }
}

/// Whether a body tells the close of a session of a workflow.
pub open spec fn tells_the_close(body: JsonTree, workflow: Workflow) -> bool {
    &&& json::member(body, "action"@) == Some(JsonTree::Text("closed"@))
    &&& json::member(body, "workflow"@) == Some(
        JsonTree::Text(
            match workflow {
                Workflow::Signed => "signed"@,
                Workflow::Unsigned => "unsigned"@,
            },
        ),
    )
}

/// Whether the close was announced by an event that tells it.
pub open spec fn reported(actions: Seq<CloseActionView>, workflow: Workflow) -> bool {
    exists|i: int|
        0 <= i < actions.len() && match #[trigger] actions[i] {
            CloseActionView::Report(body) => workflow == Workflow::Signed && tells_the_close(body, workflow),
            CloseActionView::CommitAndReport(body) => workflow == Workflow::Unsigned && tells_the_close(body, workflow),
            _ => false,
        }
}

/// An announcement stays made.
proof fn lemma_reported(actions: Seq<CloseActionView>, more: CloseActionView, workflow: Workflow)
    requires
        reported(actions, workflow),
    ensures
        reported(actions.push(more), workflow),
{
    let i = choose|i: int|
        0 <= i < actions.len() && match #[trigger] actions[i] {
            CloseActionView::Report(body) => workflow == Workflow::Signed && tells_the_close(body, workflow),
            CloseActionView::CommitAndReport(body) => workflow == Workflow::Unsigned && tells_the_close(body, workflow),
            _ => false,
        };
    assert(actions.push(more)[i] == actions[i]);
}

/// The body of the event that a session was closed tells it.
proof fn lemma_closed_body(workflow: Workflow)
    ensures
        tells_the_close(artifact::closed_tree(workflow), workflow),
{
    reveal_strlit("action");
    reveal_strlit("workflow");
    assert("action"@.len() == 6 && "workflow"@.len() == 8);
    let fields = artifact::closed_tree(workflow)->Object_0;
    assert(fields.skip(1)[0] == fields[1]);
    reveal_with_fuel(json::field, 3);
}

/// What lies behind a close at a stage.
spec fn lies_behind(stage: CloseStage, workflow: Workflow, actions: Seq<CloseActionView>) -> bool {
    let signed = workflow == Workflow::Signed;
    let n = reached(stage);
    &&& 1 <= n < 10 ==> did(actions, CloseActionView::Drain)
    &&& stage == CloseStage::Attesting || stage == CloseStage::Issuing || stage == CloseStage::Persisting || stage
        == CloseStage::Announcing ==> signed
    &&& stage == CloseStage::Finding || stage == CloseStage::Writing || stage == CloseStage::Sealing ==> !signed
    &&& 2 <= n < 10 ==> did(actions, if signed {
        CloseActionView::FindReceipt
    } else {
        CloseActionView::FindArtifact
    })
    &&& 5 <= n < 10 ==> did(actions, if signed {
        CloseActionView::CommitAndAnnounce
    } else {
        CloseActionView::Seal
    })
    &&& stage == CloseStage::Sealing ==> did(actions, CloseActionView::Seal)
    &&& stage == CloseStage::Persisting ==> did(actions, CloseActionView::Persist)
    &&& 6 <= n < 10 ==> reported(actions, workflow)
    &&& 7 <= n < 10 ==> did(actions, CloseActionView::ClearJournal)
    &&& 8 <= n < 10 ==> did(actions, CloseActionView::DropReceiptOutbox)
    &&& 9 <= n < 10 ==> did(actions, CloseActionView::DropCloseOutbox)
}

/// Whether all of a close was done that ended well.
pub open spec fn is_whole(workflow: Workflow, actions: Seq<CloseActionView>) -> bool {
    &&& did(actions, CloseActionView::Drain)
    &&& match workflow {
        Workflow::Signed => did(actions, CloseActionView::FindReceipt) && did(actions, CloseActionView::CommitAndAnnounce),
        Workflow::Unsigned => did(actions, CloseActionView::FindArtifact) && did(actions, CloseActionView::Seal),
    }
    &&& reported(actions, workflow)
    &&& did(actions, CloseActionView::ClearJournal)
    &&& did(actions, CloseActionView::DropReceiptOutbox)
    &&& did(actions, CloseActionView::DropCloseOutbox)
}

/// A close that ends well left nothing out: the session was drained, its
/// receipt or its trajectory was looked for and committed, the close was
/// announced by an event that names the workflow, and the journal and the
/// outboxes were removed. A signed session ends by a receipt, an unsigned one
/// by an artifact.
pub proof fn law_completed_closes_left_nothing_out(workflow: Workflow, stop_reason: StopReason, events: Seq<CloseEventView>)
    ensures
        ({
            let actions = run(workflow, stop_reason, events).1;
            actions.len() > 0 && (actions.last() matches CloseActionView::Complete(_)) ==> {
                &&& actions.last() == CloseActionView::Complete(
                    match workflow {
                        Workflow::Signed => CloseOutcome::Receipt,
                        Workflow::Unsigned => CloseOutcome::Artifact,
                    },
                )
                &&& is_whole(workflow, actions)
            }
        }),
{
    lemma_close_behind(workflow, stop_reason, events);
}

/// What lies behind a close after a number of events.
proof fn lemma_close_behind(workflow: Workflow, stop_reason: StopReason, events: Seq<CloseEventView>)
    ensures
        ({
            let (state, actions) = run(workflow, stop_reason, events);
            &&& state.workflow == workflow && state.stop_reason == stop_reason
            &&& lies_behind(state.stage, workflow, actions)
            &&& state.stage != CloseStage::Done && actions.len() > 0 ==> !(actions.last() is Complete)
            &&& actions.len() > 0 && actions.last() is Complete ==> is_whole(workflow, actions) && actions.last()
                == CloseActionView::Complete(
                match workflow {
                    Workflow::Signed => CloseOutcome::Receipt,
                    Workflow::Unsigned => CloseOutcome::Artifact,
                },
            )
        }),
    decreases events.len(),
{
    if events.len() > 0 {
        lemma_close_behind(workflow, stop_reason, events.drop_last());
        let (before, done) = run(workflow, stop_reason, events.drop_last());
        let (after, action) = before.next(events.last());
        if !(action is Ignore) {
            lemma_did(done, action);
            lemma_closed_body(workflow);
            if reported(done, workflow) {
                lemma_reported(done, action, workflow);
            }
            assert(done.push(action)[done.len() as int] == action);
        }
    }
}

/// A step of a close that fails ends it by that very failure, and gives the
/// session back.
pub proof fn law_failed_steps_end_the_close(state: CloseView, error: FinalizeErrorView)
    ensures
        ({
            let ended = (state.at(CloseStage::Done), CloseActionView::Fail { error, seal: false });
            &&& state.stage == CloseStage::Persisting ==> state.next(CloseEventView::Persisted(Some(error))) == ended
            &&& state.stage == CloseStage::Writing ==> state.next(CloseEventView::Written(Some(error))) == ended
            &&& state.stage == CloseStage::Sealing ==> state.next(CloseEventView::Sealed(Some(error))) == ended
            &&& state.stage == CloseStage::Announcing ==> state.next(CloseEventView::Announced(Some(error))) == ended
            &&& state.stage == CloseStage::Reporting ==> state.next(CloseEventView::Reported(Some(error))) == ended
            &&& state.stage == CloseStage::Clearing ==> state.next(CloseEventView::Cleared(Some(error))) == ended
            &&& state.stage == CloseStage::DroppingReceipt ==> state.next(CloseEventView::ReceiptDropped(Some(error)))
                == ended
            &&& state.stage == CloseStage::DroppingClose ==> state.next(CloseEventView::CloseDropped(Some(error))) == ended
        }),
{
}

/// A session whose capture is not complete gets no artifact: its close fails
/// with just that. One with no captured steps, and no trajectory, fails too.
/// A receipt that cannot be issued or does not verify fails the close.
pub proof fn law_closes_fail_closed(state: CloseView, words: Seq<char>, error: FinalizeErrorView, head: Seq<char>, count: u64)
    ensures
        state.stage == CloseStage::Draining ==> state.next(CloseEventView::Drained { capture_failed: true }).1 == (
        CloseActionView::Fail { error: FinalizeErrorView::CaptureIncomplete, seal: true }),
        state.stage == CloseStage::Finding ==> (state.next(CloseEventView::Found { written: false, has_steps: false }).1
            matches CloseActionView::Fail { error: FinalizeErrorView::Atif(_), seal: true }),
        state.stage == CloseStage::Issuing ==> state.next(CloseEventView::Issued(Some(words))).1 == (CloseActionView::Fail {
            error: FinalizeErrorView::Receipt(words),
            seal: false,
        }),
        state.stage == CloseStage::Attesting ==> state.next(
            CloseEventView::ReceiptHeld { head, count, held: HeldView::Refused(error) },
        ).1 == (CloseActionView::Fail { error, seal: false }),
{
}

/// A trajectory that a session holds is not written again, and one that can
/// be made of its steps is written before it is sealed.
pub proof fn law_trajectories_are_written_once(state: CloseView, has_steps: bool)
    requires
        state.stage == CloseStage::Finding,
    ensures
        state.next(CloseEventView::Found { written: true, has_steps }).1 == CloseActionView::Seal,
        state.next(CloseEventView::Found { written: false, has_steps: true }).1 == CloseActionView::Write,
        state.next(CloseEventView::Found { written: false, has_steps: true }).0.next(CloseEventView::Written(None)).1
            == CloseActionView::Seal,
{
}

/// A claim is taken by the drain of a close and given back only by a failure
/// that does not seal the session; a commit and a failure that seals it seal
/// it.
pub proof fn law_standings_follow_the_close(before: Standing, action: CloseActionView)
    ensures
        action == CloseActionView::Drain ==> standing_after(before, action).claimed,
        action == CloseActionView::CommitAndAnnounce || action is CommitAndReport ==> standing_after(before, action).sealed,
        action matches CloseActionView::Fail { seal, .. } ==> if seal {
            standing_after(before, action).sealed && standing_after(before, action).claimed == before.claimed
        } else {
            !standing_after(before, action).claimed && standing_after(before, action).sealed == before.sealed
        },
        before.claimed && !standing_after(before, action).claimed ==> (action matches CloseActionView::Fail {
            seal: false,
            ..
        }),
        !before.sealed && standing_after(before, action).sealed ==> action == CloseActionView::CommitAndAnnounce || action
            is CommitAndReport || (action matches CloseActionView::Fail { seal: true, .. }),
        !before.claimed && standing_after(before, action).claimed ==> action == CloseActionView::Drain,
        standing_after(before, action).capture_failed == before.capture_failed,
{
}

/// A close that meets no obstacle goes all the way, for a signed session:
/// drain, find no receipt, issue one for the chain at hand, store, commit and
/// announce it, report the close, and clear up.
pub proof fn law_smooth_signed_closes_go_all_the_way(stop_reason: StopReason, head: Seq<char>, count: u64)
    ensures
        ({
            let s0 = run(Workflow::Signed, stop_reason, Seq::empty()).0;
            let (s1, a1) = s0.next(CloseEventView::Claimed(true));
            let (s2, a2) = s1.next(CloseEventView::Drained { capture_failed: false });
            let (s3, a3) = s2.next(CloseEventView::ReceiptHeld { head, count, held: HeldView::Absent });
            let (s4, a4) = s3.next(CloseEventView::Issued(None));
            let (s5, a5) = s4.next(CloseEventView::Persisted(None));
            let (s6, a6) = s5.next(CloseEventView::Announced(None));
            let (s7, a7) = s6.next(CloseEventView::Reported(None));
            let (s8, a8) = s7.next(CloseEventView::Cleared(None));
            let (s9, a9) = s8.next(CloseEventView::ReceiptDropped(None));
            let (s10, a10) = s9.next(CloseEventView::CloseDropped(None));
            let subject = SubjectView::Chain { head, count };
            &&& a1 == CloseActionView::Drain
            &&& a2 == CloseActionView::FindReceipt
            &&& a3 == (CloseActionView::Issue { subject, stop_reason })
            &&& a4 == CloseActionView::Persist
            &&& a5 == CloseActionView::CommitAndAnnounce
            &&& a6 matches CloseActionView::Report(body) && tells_the_close(body, Workflow::Signed)
            &&& a7 == CloseActionView::ClearJournal
            &&& a8 == CloseActionView::DropReceiptOutbox
            &&& a9 == CloseActionView::DropCloseOutbox
            &&& a10 == CloseActionView::Complete(CloseOutcome::Receipt)
            &&& s10.stage == CloseStage::Done
            &&& s2.next(CloseEventView::ReceiptHeld { head, count, held: HeldView::Verified { subject } }) == (s5, a5)
        }),
{
    lemma_closed_body(Workflow::Signed);
}

/// A close that meets no obstacle goes all the way, for an unsigned session:
/// drain, write and seal the trajectory, commit and report it, and clear up.
pub proof fn law_smooth_unsigned_closes_go_all_the_way(stop_reason: StopReason)
    ensures
        ({
            let s0 = run(Workflow::Unsigned, stop_reason, Seq::empty()).0;
            let (s1, a1) = s0.next(CloseEventView::Claimed(true));
            let (s2, a2) = s1.next(CloseEventView::Drained { capture_failed: false });
            let (s3, a3) = s2.next(CloseEventView::Found { written: false, has_steps: true });
            let (s4, a4) = s3.next(CloseEventView::Written(None));
            let (s5, a5) = s4.next(CloseEventView::Sealed(None));
            let (s6, a6) = s5.next(CloseEventView::Reported(None));
            let (s7, a7) = s6.next(CloseEventView::Cleared(None));
            let (s8, a8) = s7.next(CloseEventView::ReceiptDropped(None));
            let (s9, a9) = s8.next(CloseEventView::CloseDropped(None));
            &&& a1 == CloseActionView::Drain
            &&& a2 == CloseActionView::FindArtifact
            &&& a3 == CloseActionView::Write
            &&& a4 == CloseActionView::Seal
            &&& a5 matches CloseActionView::CommitAndReport(body) && tells_the_close(body, Workflow::Unsigned)
            &&& a6 == CloseActionView::ClearJournal
            &&& a7 == CloseActionView::DropReceiptOutbox
            &&& a8 == CloseActionView::DropCloseOutbox
            &&& a9 == CloseActionView::Complete(CloseOutcome::Artifact)
            &&& s9.stage == CloseStage::Done
        }),
{
    lemma_closed_body(Workflow::Unsigned);
}

/// A close that has ended does nothing more, however it ended.
pub proof fn law_ended_closes_rest(state: CloseView, event: CloseEventView)
    ensures
        state.next(event).1 is Fail || state.next(event).1 is Complete || state.next(event).1
            == CloseActionView::AlreadyClosed ==> state.next(event).0.stage == CloseStage::Done,
        state.stage == CloseStage::Done ==> state.next(event) == (state, CloseActionView::Ignore),
        state.next(event).0.workflow == state.workflow && state.next(event).0.stop_reason == state.stop_reason,
{
}

/// A close that cannot be ends for what stands against it; only what no later
/// attempt can mend seals the session.
pub proof fn law_refused_closes_are_told_why(flow: CloseView, head: Seq<char>, count: u64, other: SubjectView)
    ensures
        flow.stage == CloseStage::Draining ==> flow.next(CloseEventView::Drained { capture_failed: true }).1 == (
        CloseActionView::Fail { error: FinalizeErrorView::CaptureIncomplete, seal: true }),
        flow.stage == CloseStage::Finding ==> flow.next(CloseEventView::Found { written: false, has_steps: false }).1 == (
        CloseActionView::Fail {
            error: FinalizeErrorView::Atif("cannot finalize an unsigned session with no captured steps"@),
            seal: true,
        }),
        flow.stage == CloseStage::Attesting && other != (SubjectView::Chain { head, count }) ==> flow.next(
            CloseEventView::ReceiptHeld { head, count, held: HeldView::Verified { subject: other } },
        ).1 == (CloseActionView::Fail {
            error: FinalizeErrorView::Receipt("persisted receipt subject does not match reconstructed chain"@),
            seal: false,
        }),
{
}

} // verus!
