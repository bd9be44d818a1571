//! One pass of recovery over the whole spool.
//!
//! Sessions with incomplete effects are noted first, and events that wait in
//! the outbox are published; signed journals come next, unsigned ones follow,
//! then the trajectories of closed sessions. Files of the outbox whose event
//! is published go last. A journal that cannot be recovered never keeps the
//! pass from the others.

use vstd::prelude::*;
use crate::errors::{FinalizeError, FinalizeErrorView};
use crate::recovery;
use crate::recovery::CandidateOutcome;
use crate::session::Workflow;

verus! {

/// Where a pass stands.
#[derive(Clone, Copy, Debug, PartialEq, Eq, Structural)]
pub enum PassStage {
    /// The sessions with incomplete effects are being noted.
    Noting,
    /// The events that wait in the outbox are being published.
    Replaying,
    /// The journals of a workflow are being listed.
    Listing(Workflow),
    /// The journals of a workflow are being recovered.
    Recovering(Workflow),
    /// The trajectories are being listed.
    ListingFiles,
    /// The trajectories are being scanned.
    Scanning,
    /// Files of the outbox are being removed.
    Tidying,
    Done,
}

/// What happens in a pass.
#[derive(Debug)]
pub enum PassEvent {
    Noted(Result<(), FinalizeError>),
    Replayed(Result<(), FinalizeError>),
    /// Whether there is a spool to be listed.
    Listed(Result<bool, FinalizeError>),
    /// What came of one journal.
    Candidate(Result<CandidateOutcome, FinalizeError>),
    /// Whether the session of one trajectory was restored.
    Scanned(Result<bool, FinalizeError>),
    /// Nothing is left of what was listed.
    Exhausted,
    Tidied(Result<(), FinalizeError>),
}

/// What a pass wants done.
#[derive(Debug)]
pub enum PassAction {
    /// Nothing: this is not what is being waited for.
    Ignore,
    NoteIncomplete,
    ReplayOutboxes,
    /// List the spool.
    List,
    /// Recover the next journal of this workflow.
    NextCandidate(Workflow),
    /// Count and warn once about the journal that failed, and recover the
    /// next one of this workflow.
    SkipCandidate(Workflow),
    /// Scan the next trajectory.
    NextFile,
    RemoveSettledOutboxes,
    /// The pass is over: so many sessions were recovered.
    Complete(u64),
    /// The pass fails as a whole.
    Fail(FinalizeError),
}

/// One pass of recovery.
#[derive(Debug)]
pub struct RecoveryPass {
    stage: PassStage,
    recovered: u64,
}

/// A [`RecoveryPass`] by its contents.
#[verifier::ext_equal]
pub struct PassView {
    pub stage: PassStage,
    pub recovered: u64,
}

/// A [`PassEvent`] by its contents.
#[verifier::ext_equal]
pub enum PassEventView {
    Noted(Option<FinalizeErrorView>),
    Replayed(Option<FinalizeErrorView>),
    Listed(Result<bool, FinalizeErrorView>),
    Candidate(Result<CandidateOutcome, FinalizeErrorView>),
    Scanned(Result<bool, FinalizeErrorView>),
    Exhausted,
    Tidied(Option<FinalizeErrorView>),
}

/// A [`PassAction`] by its contents.
#[verifier::ext_equal]
pub enum PassActionView {
    Ignore,
    NoteIncomplete,
    ReplayOutboxes,
    List,
    NextCandidate(Workflow),
    SkipCandidate(Workflow),
    NextFile,
    RemoveSettledOutboxes,
    Complete(u64),
    Fail(FinalizeErrorView),
}

impl View for RecoveryPass {
    type V = PassView;

    closed spec fn view(&self) -> PassView {
        PassView { stage: self.stage, recovered: self.recovered }
    }
}

impl View for PassEvent {
    type V = PassEventView;

    open spec fn view(&self) -> PassEventView {
        match self {
            PassEvent::Noted(outcome) => PassEventView::Noted(recovery::final_fault(*outcome)),
            PassEvent::Replayed(outcome) => PassEventView::Replayed(recovery::final_fault(*outcome)),
            PassEvent::Listed(Ok(there)) => PassEventView::Listed(Ok(*there)),
            PassEvent::Listed(Err(e)) => PassEventView::Listed(Err(e@)),
            PassEvent::Candidate(Ok(outcome)) => PassEventView::Candidate(Ok(*outcome)),
            PassEvent::Candidate(Err(e)) => PassEventView::Candidate(Err(e@)),
            PassEvent::Scanned(Ok(restored)) => PassEventView::Scanned(Ok(*restored)),
            PassEvent::Scanned(Err(e)) => PassEventView::Scanned(Err(e@)),
            PassEvent::Exhausted => PassEventView::Exhausted,
            PassEvent::Tidied(outcome) => PassEventView::Tidied(recovery::final_fault(*outcome)),
        }
    }
}

impl View for PassAction {
    type V = PassActionView;

    open spec fn view(&self) -> PassActionView {
        match self {
            PassAction::Ignore => PassActionView::Ignore,
            PassAction::NoteIncomplete => PassActionView::NoteIncomplete,
            PassAction::ReplayOutboxes => PassActionView::ReplayOutboxes,
            PassAction::List => PassActionView::List,
            PassAction::NextCandidate(workflow) => PassActionView::NextCandidate(*workflow),
            PassAction::SkipCandidate(workflow) => PassActionView::SkipCandidate(*workflow),
            PassAction::NextFile => PassActionView::NextFile,
            PassAction::RemoveSettledOutboxes => PassActionView::RemoveSettledOutboxes,
            PassAction::Complete(n) => PassActionView::Complete(*n),
            PassAction::Fail(e) => PassActionView::Fail(e@),
        }
    }
}

/// The stage after the journals of a workflow.
pub open spec fn after_journals(workflow: Workflow) -> PassStage {
    match workflow {
        Workflow::Signed => PassStage::Listing(Workflow::Unsigned),
        Workflow::Unsigned => PassStage::ListingFiles,
    }
}

/// How many sessions an event adds to those that count as recovered. An
/// unsigned journal is counted when its trajectory is scanned.
pub open spec fn counts(stage: PassStage, event: PassEventView) -> u64 {
    match (stage, event) {
        (PassStage::Recovering(Workflow::Signed), PassEventView::Candidate(Ok(CandidateOutcome::Recovered))) => 1,
        (PassStage::Scanning, PassEventView::Scanned(Ok(true))) => 1,
        _ => 0,
    }
}

impl PassView {
    /// The state at another stage.
    pub open spec fn at(self, stage: PassStage) -> PassView {
        PassView { stage, ..self }
    }

    /// The end by a failure.
    pub open spec fn fail(self, error: FinalizeErrorView) -> (PassView, PassActionView) {
        (self.at(PassStage::Done), PassActionView::Fail(error))
    }

    /// What comes after a step: the next one, or the end by its failure.
    pub open spec fn go_on(self, fault: Option<FinalizeErrorView>, stage: PassStage, action: PassActionView) -> (
        PassView,
        PassActionView,
    ) {
        match fault {
            Some(e) => self.fail(e),
            None => (self.at(stage), action),
        }
    }

    /// What becomes of a pass when something happens, and what is to be done.
    pub open spec fn next(self, event: PassEventView) -> (PassView, PassActionView) {
        let counted = PassView { recovered: (self.recovered + counts(self.stage, event)) as u64, ..self };
        match (self.stage, event) {
            (PassStage::Noting, PassEventView::Noted(fault)) => self.go_on(
                fault,
                PassStage::Replaying,
                PassActionView::ReplayOutboxes,
            ),
            (PassStage::Replaying, PassEventView::Replayed(fault)) => self.go_on(
                fault,
                PassStage::Listing(Workflow::Signed),
                PassActionView::List,
            ),
            (PassStage::Listing(_), PassEventView::Listed(Err(e))) => self.fail(e),
            (PassStage::Listing(workflow), PassEventView::Listed(Ok(there))) => if there {
                (self.at(PassStage::Recovering(workflow)), PassActionView::NextCandidate(workflow))
            } else {
                (self.at(after_journals(workflow)), PassActionView::List)
            },
            (PassStage::Recovering(workflow), PassEventView::Candidate(Ok(_))) => (
                counted,
                PassActionView::NextCandidate(workflow),
            ),
            (PassStage::Recovering(workflow), PassEventView::Candidate(Err(_))) => (
                self,
                PassActionView::SkipCandidate(workflow),
            ),
            (PassStage::Recovering(workflow), PassEventView::Exhausted) => (
                self.at(after_journals(workflow)),
                PassActionView::List,
            ),
            (PassStage::ListingFiles, PassEventView::Listed(Err(e))) => self.fail(e),
            (PassStage::ListingFiles, PassEventView::Listed(Ok(there))) => if there {
                (self.at(PassStage::Scanning), PassActionView::NextFile)
            } else {
                (self.at(PassStage::Done), PassActionView::Complete(0))
            },
            (PassStage::Scanning, PassEventView::Scanned(Err(e))) => self.fail(e),
            (PassStage::Scanning, PassEventView::Scanned(Ok(_))) => (counted, PassActionView::NextFile),
            (PassStage::Scanning, PassEventView::Exhausted) => (
                self.at(PassStage::Tidying),
                PassActionView::RemoveSettledOutboxes,
            ),
            (PassStage::Tidying, PassEventView::Tidied(fault)) => self.go_on(
                fault,
                PassStage::Done,
                PassActionView::Complete(self.recovered),
            ),
            _ => (self, PassActionView::Ignore),
        }
    }
}

impl RecoveryPass {
    /// Begins a pass.
    pub fn new() -> (begun: (RecoveryPass, PassAction))
        ensures
            begun.0@ == (PassView { stage: PassStage::Noting, recovered: 0 }),
            begun.1@ == PassActionView::NoteIncomplete,
    {
        (RecoveryPass { stage: PassStage::Noting, recovered: 0 }, PassAction::NoteIncomplete)
    }

    /// How many sessions were recovered so far.
    pub fn recovered(&self) -> (n: u64)
        ensures
            n == self@.recovered,
    {
        self.recovered
    }

    /// Ends by a failure.
    fn fail(&mut self, error: FinalizeError) -> (action: PassAction)
        ensures
            (final(self)@, action@) == old(self)@.fail(error@),
    {
        self.stage = PassStage::Done;
        PassAction::Fail(error)
    }

    /// Goes on to a stage, or ends by a failure.
    fn go_on(&mut self, outcome: Result<(), FinalizeError>, stage: PassStage, action: PassAction) -> (taken: PassAction)
        ensures
            (final(self)@, taken@) == old(self)@.go_on(recovery::final_fault(outcome), stage, action@),
    {
        match outcome {
            Err(e) => self.fail(e),
            Ok(()) => {
                self.stage = stage;
                action
            },
        }
    }

    /// Goes on from the journals of a workflow.
    fn leave(&mut self, workflow: Workflow) -> (action: PassAction)
        ensures
            (final(self)@, action@) == (old(self)@.at(after_journals(workflow)), PassActionView::List),
    {
        self.stage = match workflow {
            Workflow::Signed => PassStage::Listing(Workflow::Unsigned),
            Workflow::Unsigned => PassStage::ListingFiles,
        };
        PassAction::List
    }

    /// Looks at what the spool holds.
    fn step_listed(&mut self, listed: Result<bool, FinalizeError>) -> (action: PassAction)
        ensures
            (final(self)@, action@) == old(self)@.next(PassEvent::Listed(listed)@),
    {
        match self.stage {
            PassStage::Listing(workflow) => match listed {
                Err(e) => self.fail(e),
                Ok(true) => {
                    self.stage = PassStage::Recovering(workflow);
                    PassAction::NextCandidate(workflow)
                },
                Ok(false) => self.leave(workflow),
            },
            PassStage::ListingFiles => match listed {
                Err(e) => self.fail(e),
                Ok(true) => {
                    self.stage = PassStage::Scanning;
                    PassAction::NextFile
                },
                Ok(false) => {
                    self.stage = PassStage::Done;
                    PassAction::Complete(0)
                },
            },
            _ => PassAction::Ignore,
        }
    }

    /// Takes one step of the pass.
    pub fn step(&mut self, event: PassEvent) -> (action: PassAction)
        requires
            old(self)@.recovered < u64::MAX,
        ensures
            (final(self)@, action@) == old(self)@.next(event@),
    {
        match event {
            PassEvent::Noted(outcome) => {
                if self.stage == PassStage::Noting {
                    return self.go_on(outcome, PassStage::Replaying, PassAction::ReplayOutboxes);
                }
            },
            PassEvent::Replayed(outcome) => {
                if self.stage == PassStage::Replaying {
                    return self.go_on(outcome, PassStage::Listing(Workflow::Signed), PassAction::List);
                }
            },
            PassEvent::Listed(listed) => {
                return self.step_listed(listed);
            },
            PassEvent::Candidate(outcome) => {
                if let PassStage::Recovering(workflow) = self.stage {
                    return match outcome {
                        Err(_) => PassAction::SkipCandidate(workflow),
                        Ok(outcome) => {
                            if outcome == CandidateOutcome::Recovered && workflow == Workflow::Signed {
                                self.recovered = self.recovered + 1;
                            }
                            PassAction::NextCandidate(workflow)
                        },
                    };
                }
            },
            PassEvent::Scanned(outcome) => {
                if self.stage == PassStage::Scanning {
                    return match outcome {
                        Err(e) => self.fail(e),
                        Ok(restored) => {
                            if restored {
                                self.recovered = self.recovered + 1;
                            }
                            PassAction::NextFile
                        },
                    };
                }
            },
            PassEvent::Exhausted => {
                if let PassStage::Recovering(workflow) = self.stage {
                    return self.leave(workflow);
                }
                if self.stage == PassStage::Scanning {
                    self.stage = PassStage::Tidying;
                    return PassAction::RemoveSettledOutboxes;
                }
            },
            PassEvent::Tidied(outcome) => {
                if self.stage == PassStage::Tidying {
                    let recovered: u64 = self.recovered;
                    return self.go_on(outcome, PassStage::Done, PassAction::Complete(recovered));
                }
            },
        }
        PassAction::Ignore
    }
}

/// A pass after a number of events.
pub open spec fn run(events: Seq<PassEventView>) -> PassView
    decreases events.len(),
{
    if events.len() == 0 {
        PassView { stage: PassStage::Noting, recovered: 0 }
    } else {
        run(events.drop_last()).next(events.last()).0
    }
}

/// How many sessions a number of events recovered: those of signed journals,
/// and those of trajectories.
pub open spec fn total(events: Seq<PassEventView>) -> nat
    decreases events.len(),
{
    if events.len() == 0 {
        0
    } else {
        total(events.drop_last()) + counts(run(events.drop_last()).stage, events.last()) as nat
    }
}

/// The place of a stage in the order of a pass.
pub open spec fn place(stage: PassStage) -> int {
    match stage {
        PassStage::Noting => 0,
        PassStage::Replaying => 1,
        PassStage::Listing(Workflow::Signed) => 2,
        PassStage::Recovering(Workflow::Signed) => 3,
        PassStage::Listing(Workflow::Unsigned) => 4,
        PassStage::Recovering(Workflow::Unsigned) => 5,
        PassStage::ListingFiles => 6,
        PassStage::Scanning => 7,
        PassStage::Tidying => 8,
        PassStage::Done => 9,
    }
}

/// A journal that cannot be recovered is skipped: it ends neither the pass
/// nor the work on its workflow, and changes no count.
pub proof fn law_bad_candidates_do_not_block_others(state: PassView, workflow: Workflow, error: FinalizeErrorView)
    requires
        state.stage == PassStage::Recovering(workflow),
    ensures
        state.next(PassEventView::Candidate(Err(error))) == (state, PassActionView::SkipCandidate(workflow)),
{
}

/// The parts of a pass come in their order, whatever happens: sessions with
/// incomplete effects are known before anything is recovered, signed journals
/// come before unsigned ones, and those before the trajectories.
pub proof fn law_passes_keep_their_order(state: PassView, event: PassEventView)
    ensures
        place(state.stage) <= place(state.next(event).0.stage),
        state.next(event).1 matches PassActionView::NextCandidate(workflow) ==> state.next(event).0.stage
            == PassStage::Recovering(workflow),
        state.next(event).1 == PassActionView::NextFile ==> state.next(event).0.stage == PassStage::Scanning,
        state.stage == PassStage::Done ==> state.next(event) == (state, PassActionView::Ignore),
{
}

/// A pass that ends well tells how many sessions it recovered: each signed
/// journal and each trajectory once, and no journal that failed.
pub proof fn law_passes_count_what_they_recover(events: Seq<PassEventView>)
    requires
        total(events) <= u64::MAX,
    ensures
        run(events).recovered == total(events),
        forall|fault: Option<FinalizeErrorView>|
            run(events).stage == PassStage::Tidying && fault is None ==> (#[trigger] run(events).next(
                PassEventView::Tidied(fault),
            )).1 == PassActionView::Complete(total(events) as u64),
    decreases events.len(),
{
    if events.len() > 0 {
        law_passes_count_what_they_recover(events.drop_last());
    }
}

/// A pass goes through all its steps: incomplete effects are noted, waiting
/// events published, the journals of signed and then of unsigned sessions
/// recovered, the trajectories scanned, and settled outboxes removed.
pub proof fn law_passes_go_through_all_their_steps(state: PassView, workflow: Workflow)
    ensures
        state.stage == PassStage::Noting ==> state.next(PassEventView::Noted(None)) == (
            state.at(PassStage::Replaying),
            PassActionView::ReplayOutboxes,
        ),
        state.stage == PassStage::Replaying ==> state.next(PassEventView::Replayed(None)) == (
            state.at(PassStage::Listing(Workflow::Signed)),
            PassActionView::List,
        ),
        state.stage == PassStage::Listing(workflow) ==> state.next(PassEventView::Listed(Ok(true))) == (
            state.at(PassStage::Recovering(workflow)),
            PassActionView::NextCandidate(workflow),
        ),
        state.stage == PassStage::Recovering(Workflow::Signed) || state.stage == PassStage::Listing(Workflow::Signed)
            ==> state.next(
            if state.stage == PassStage::Recovering(Workflow::Signed) {
                PassEventView::Exhausted
            } else {
                PassEventView::Listed(Ok(false))
            },
        ) == (state.at(PassStage::Listing(Workflow::Unsigned)), PassActionView::List),
        state.stage == PassStage::Recovering(Workflow::Unsigned) || state.stage == PassStage::Listing(Workflow::Unsigned)
            ==> state.next(
            if state.stage == PassStage::Recovering(Workflow::Unsigned) {
                PassEventView::Exhausted
            } else {
                PassEventView::Listed(Ok(false))
            },
        ) == (state.at(PassStage::ListingFiles), PassActionView::List),
        state.stage == PassStage::ListingFiles ==> state.next(PassEventView::Listed(Ok(true))) == (
            state.at(PassStage::Scanning),
            PassActionView::NextFile,
        ),
        state.stage == PassStage::Scanning ==> state.next(PassEventView::Exhausted) == (
            state.at(PassStage::Tidying),
            PassActionView::RemoveSettledOutboxes,
        ),
{
}

/// A pass fails as a whole, with the error that it met, where one of its own
/// steps fails; a journal that cannot be recovered fails only itself.
pub proof fn law_failed_steps_end_the_pass(state: PassView, error: FinalizeErrorView)
    ensures
        state.stage == PassStage::Noting ==> state.next(PassEventView::Noted(Some(error))).1 == PassActionView::Fail(error),
        state.stage == PassStage::Replaying ==> state.next(PassEventView::Replayed(Some(error))).1
            == PassActionView::Fail(error),
        state.stage is Listing || state.stage == PassStage::ListingFiles ==> state.next(
            PassEventView::Listed(Err(error)),
        ).1 == PassActionView::Fail(error),
        state.stage == PassStage::Scanning ==> state.next(PassEventView::Scanned(Err(error))).1 == PassActionView::Fail(
            error,
        ),
        state.stage == PassStage::Tidying ==> state.next(PassEventView::Tidied(Some(error))).1 == PassActionView::Fail(
            error,
        ),
        state.next(PassEventView::Candidate(Err(error))).1 !is Fail,
{
}

/// A pass counts a session where its signed journal was recovered and where
/// its trajectory was restored, one for each, and nothing else.
pub proof fn law_each_recovered_session_counts_once(state: PassView, event: PassEventView)
    requires
        state.recovered < u64::MAX,
    ensures
        state.next(event).0.recovered == state.recovered + 1 <==> (state.stage == PassStage::Recovering(Workflow::Signed)
            && event == PassEventView::Candidate(Ok(CandidateOutcome::Recovered))) || (state.stage == PassStage::Scanning
            && event == PassEventView::Scanned(Ok(true))),
        state.next(event).0.recovered == state.recovered || state.next(event).0.recovered == state.recovered + 1,
{
}

/// A pass that has ended does nothing more, however it ended; one without a
/// spool of trajectories ends there, and has recovered nothing.
pub proof fn law_ended_passes_rest(state: PassView, event: PassEventView)
    ensures
        state.next(event).1 is Fail || state.next(event).1 is Complete ==> state.next(event).0.stage == PassStage::Done,
        state.stage == PassStage::Done ==> state.next(event) == (state, PassActionView::Ignore),
        state.stage == PassStage::ListingFiles ==> state.next(PassEventView::Listed(Ok(false))).1
            == PassActionView::Complete(0),
        state.stage == PassStage::Tidying ==> state.next(PassEventView::Tidied(None)).1 == PassActionView::Complete(
            state.recovered,
        ),
        state.stage == PassStage::Scanning && (event matches PassEventView::Scanned(Ok(_))) ==> state.next(event).1
            == PassActionView::NextFile && state.next(event).0.stage == PassStage::Scanning,
        (state.stage matches PassStage::Recovering(workflow) && (event matches PassEventView::Candidate(Ok(_))
            ==> state.next(event).1 == PassActionView::NextCandidate(workflow) && state.next(event).0.stage == state.stage))
            || !(state.stage is Recovering),
{
}

} // verus!
