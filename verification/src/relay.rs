//! Relay of a provider's response to the client: which bytes go out when,
//! and how the relay ends.
//!
//! An event stream is passed on chunk by chunk, each once the budget has
//! agreed to the tokens in it. Any other body is held back whole until it
//! has been captured.

use vstd::prelude::*;
use crate::text;

verus! {

/// What happens once the budget has agreed.
#[derive(Debug)]
pub enum BudgetContinuation {
    /// A chunk of an event stream goes out.
    Emit(Vec<u8>),
    /// Reading goes on; the chunk is held back.
    ContinueNonSse,
    /// The event stream has ended.
    FinishSse,
    /// The body has ended.
    FinishNonSse,
}

/// What happens once the capture has been handed over.
#[derive(Debug)]
pub enum AfterSubmit {
    /// The response is complete.
    Finish,
    /// The budget refused it, for this reason.
    Refuse(String),
}

/// Where a relay stands.
#[derive(Debug)]
pub enum RelayPhase {
    /// The next chunk is to be read.
    Reading,
    /// The budget is being asked.
    Judging(BudgetContinuation),
    /// The capture is being handed over.
    Submitting(AfterSubmit),
    /// The response is complete; what was held back goes out.
    Ended,
    /// The relay was given up.
    Broken,
}

/// What the budget says.
#[derive(Debug)]
pub enum BudgetVerdict {
    Allowed,
    /// A limit of the session is used up.
    Refused { limit: String, cap: u64 },
    /// The budget could not be asked.
    BackendFailed(String),
    /// The task that asked it died.
    TaskFailed(String),
}

/// What happens to a relay.
#[derive(Debug)]
pub enum RelayEvent {
    /// The client is ready for more.
    Poll,
    /// A chunk has come and been captured, with the tokens it adds to the
    /// charge; or it could not be captured.
    Chunk { bytes: Vec<u8>, charge: Result<u64, String> },
    /// The provider's connection broke.
    UpstreamFailed(String),
    /// The provider has sent all, with the tokens that the rest adds to the
    /// charge; or the rest could not be captured.
    UpstreamEnded { charge: Result<u64, String> },
    /// The budget has answered.
    Verdict(BudgetVerdict),
    /// The capture has been handed over, or could not be.
    Submitted(Result<(), String>),
}

/// What a relay wants done.
#[derive(Debug)]
pub enum RelayAction {
    /// Nothing now: an answer is outstanding.
    Wait,
    /// Read the next chunk from the provider.
    Read,
    /// Ask the budget for so many completion tokens.
    CheckBudget(u64),
    /// Hand the capture over; with a reason, if the budget refused it.
    Submit(Option<String>),
    /// Send bytes to the client.
    Emit(Vec<u8>),
    /// End the response.
    Finish,
    /// Break the response off. `quota` tells a refusal by the budget from
    /// every other failure; `capture_failed` that the session's audit
    /// capture is no longer complete.
    Fail { message: String, quota: bool, capture_failed: bool },
}

/// The flow of one relay.
#[derive(Debug)]
pub struct RelayFlow {
    is_sse: bool,
    phase: RelayPhase,
    /// Chunks that are held back, oldest first.
    held: Vec<Vec<u8>>,
    /// Whether the capture has been handed over, or tried to.
    submitted: bool,
}

/// A [`BudgetContinuation`] by its contents.
pub enum ContinuationView {
    Emit(Seq<u8>),
    ContinueNonSse,
    FinishSse,
    FinishNonSse,
}

/// A [`RelayPhase`] by its contents.
pub enum PhaseView {
    Reading,
    Judging(ContinuationView),
    Finishing,
    Refusing(Seq<char>),
    Ended,
    Broken,
}

/// A [`RelayEvent`] by its contents.
pub enum EventView {
    Poll,
    Chunk { bytes: Seq<u8>, charge: Result<u64, Seq<char>> },
    UpstreamFailed(Seq<char>),
    UpstreamEnded { charge: Result<u64, Seq<char>> },
    Allowed,
    Refused(Seq<char>),
    TaskFailed(Seq<char>),
    Submitted(Option<Seq<char>>),
}

/// A [`RelayAction`] by its contents.
pub enum ActionView {
    Wait,
    Read,
    CheckBudget(u64),
    Submit(Option<Seq<char>>),
    Emit(Seq<u8>),
    Finish,
    Fail { message: Seq<char>, quota: bool, capture_failed: bool },
}

/// A [`RelayFlow`] by its contents.
#[verifier::ext_equal]
pub struct FlowView {
    pub is_sse: bool,
    pub phase: PhaseView,
    pub held: Seq<Seq<u8>>,
    pub submitted: bool,
}

impl View for BudgetContinuation {
    type V = ContinuationView;

    open spec fn view(&self) -> ContinuationView {
        match self {
            BudgetContinuation::Emit(bytes) => ContinuationView::Emit(bytes@),
            BudgetContinuation::ContinueNonSse => ContinuationView::ContinueNonSse,
            BudgetContinuation::FinishSse => ContinuationView::FinishSse,
            BudgetContinuation::FinishNonSse => ContinuationView::FinishNonSse,
        }
    }
}

impl View for RelayPhase {
    type V = PhaseView;

    open spec fn view(&self) -> PhaseView {
        match self {
            RelayPhase::Reading => PhaseView::Reading,
            RelayPhase::Judging(c) => PhaseView::Judging(c@),
            RelayPhase::Submitting(AfterSubmit::Finish) => PhaseView::Finishing,
            RelayPhase::Submitting(AfterSubmit::Refuse(reason)) => PhaseView::Refusing(reason@),
            RelayPhase::Ended => PhaseView::Ended,
            RelayPhase::Broken => PhaseView::Broken,
        }
    }
}

/// The result of a capture by its contents.
pub open spec fn charge_view(charge: Result<u64, String>) -> Result<u64, Seq<char>> {
    match charge {
        Ok(n) => Ok(n),
        Err(e) => Err(e@),
    }
}

impl View for RelayEvent {
    type V = EventView;

    open spec fn view(&self) -> EventView {
        match self {
            RelayEvent::Poll => EventView::Poll,
            RelayEvent::Chunk { bytes, charge } => EventView::Chunk {
                bytes: bytes@,
                charge: charge_view(*charge),
            },
            RelayEvent::UpstreamFailed(e) => EventView::UpstreamFailed(e@),
            RelayEvent::UpstreamEnded { charge } => EventView::UpstreamEnded { charge: charge_view(*charge) },
            RelayEvent::Verdict(BudgetVerdict::Allowed) => EventView::Allowed,
            RelayEvent::Verdict(BudgetVerdict::Refused { limit, cap }) => EventView::Refused(
                limit@ + " exceeded (cap "@ + text::decimal_digits(*cap as nat) + ")"@,
            ),
            RelayEvent::Verdict(BudgetVerdict::BackendFailed(e)) => EventView::Refused(
                "token budget backend failed closed: "@ + e@,
            ),
            RelayEvent::Verdict(BudgetVerdict::TaskFailed(e)) => EventView::TaskFailed(e@),
            RelayEvent::Submitted(Ok(())) => EventView::Submitted(None),
            RelayEvent::Submitted(Err(e)) => EventView::Submitted(Some(e@)),
        }
    }
}

impl View for RelayAction {
    type V = ActionView;

    open spec fn view(&self) -> ActionView {
        match self {
            RelayAction::Wait => ActionView::Wait,
            RelayAction::Read => ActionView::Read,
            RelayAction::CheckBudget(n) => ActionView::CheckBudget(*n),
            RelayAction::Submit(reason) => ActionView::Submit(text::opt_text(*reason)),
            RelayAction::Emit(bytes) => ActionView::Emit(bytes@),
            RelayAction::Finish => ActionView::Finish,
            RelayAction::Fail { message, quota, capture_failed } => ActionView::Fail {
                message: message@,
                quota: *quota,
                capture_failed: *capture_failed,
            },
        }
    }
}

/// The contents of a list of chunks.
pub open spec fn chunk_bytes(chunks: Seq<Vec<u8>>) -> Seq<Seq<u8>> {
    chunks.map_values(|c: Vec<u8>| c@)
}

impl View for RelayFlow {
    type V = FlowView;

    closed spec fn view(&self) -> FlowView {
        FlowView {
            is_sse: self.is_sse,
            phase: self.phase@,
            held: chunk_bytes(self.held@),
            submitted: self.submitted,
        }
    }
}

impl FlowView {
    /// What every relay keeps: only a body that is no event stream holds
    /// chunks back, what waits for the budget fits the kind of body, and a
    /// capture that is being or has been handed over counts as such.
    pub open spec fn wf(self) -> bool {
        &&& self.is_sse ==> self.held.len() == 0
        &&& self.phase matches PhaseView::Judging(c) ==> self.is_sse == (c is Emit || c is FinishSse)
        &&& (self.phase is Finishing || self.phase is Refusing || self.phase is Ended) ==> self.submitted
        &&& (self.phase is Reading || self.phase is Judging) ==> !self.submitted
    }

    /// The relay given up, with what it was holding back thrown away.
    pub open spec fn broken(self, message: Seq<char>, quota: bool, capture_failed: bool) -> (
        FlowView,
        ActionView,
    ) {
        (
            FlowView { phase: PhaseView::Broken, held: Seq::empty(), ..self },
            ActionView::Fail { message, quota, capture_failed },
        )
    }

    /// The capture handed over.
    pub open spec fn submitting(self, refusal: Option<Seq<char>>) -> (FlowView, ActionView) {
        (
            FlowView {
                phase: match refusal {
                    Some(reason) => PhaseView::Refusing(reason),
                    None => PhaseView::Finishing,
                },
                submitted: true,
                ..self
            },
            ActionView::Submit(refusal),
        )
    }

    /// The budget asked for `tokens`, before anything else is done.
    pub open spec fn judging(self, tokens: u64, then_do: ContinuationView) -> (FlowView, ActionView) {
        (FlowView { phase: PhaseView::Judging(then_do), ..self }, ActionView::CheckBudget(tokens))
    }

    /// A complete response: the oldest chunk that is held back goes out.
    pub open spec fn drained(self) -> (FlowView, ActionView) {
        let ended = FlowView { phase: PhaseView::Ended, ..self };
        if self.held.len() > 0 {
            (FlowView { held: self.held.skip(1), ..ended }, ActionView::Emit(self.held[0]))
        } else {
            (ended, ActionView::Finish)
        }
    }

    /// What a relay does about an event. An event that does not fit where
    /// the relay stands changes nothing.
    pub open spec fn next(self, event: EventView) -> (FlowView, ActionView) {
        match (self.phase, event) {
            (PhaseView::Reading, EventView::Poll) => (self, ActionView::Read),
            (PhaseView::Ended, EventView::Poll) => self.drained(),
            (PhaseView::Broken, EventView::Poll) => (self, ActionView::Finish),
            (PhaseView::Reading, EventView::Chunk { bytes, charge }) => match charge {
                Err(e) => self.broken(e, false, true),
                Ok(n) => if self.is_sse {
                    if n == 0 {
                        (self, ActionView::Emit(bytes))
                    } else {
                        self.judging(n, ContinuationView::Emit(bytes))
                    }
                } else {
                    let kept = FlowView { held: self.held.push(bytes), ..self };
                    if n == 0 {
                        (kept, ActionView::Read)
                    } else {
                        kept.judging(n, ContinuationView::ContinueNonSse)
                    }
                },
            },
            (PhaseView::Reading, EventView::UpstreamFailed(e)) => self.broken(e, false, true),
            (PhaseView::Reading, EventView::UpstreamEnded { charge }) => match charge {
                Err(e) => self.broken(e, false, true),
                Ok(n) => if n == 0 {
                    self.submitting(None)
                } else if self.is_sse {
                    self.judging(n, ContinuationView::FinishSse)
                } else {
                    self.judging(n, ContinuationView::FinishNonSse)
                },
            },
            (PhaseView::Judging(c), EventView::Allowed) => {
                let reading = FlowView { phase: PhaseView::Reading, ..self };
                match c {
                    ContinuationView::Emit(bytes) => (reading, ActionView::Emit(bytes)),
                    ContinuationView::ContinueNonSse => (reading, ActionView::Read),
                    _ => self.submitting(None),
                }
            },
            (PhaseView::Judging(_), EventView::Refused(reason)) => self.submitting(Some(reason)),
            (PhaseView::Judging(_), EventView::TaskFailed(e)) => self.broken(
                "completion budget task failed: "@ + e,
                false,
                true,
            ),
            (PhaseView::Finishing, EventView::Submitted(None)) => self.drained(),
            (PhaseView::Refusing(reason), EventView::Submitted(None)) => self.broken(
                "response blocked by token budget: "@ + reason,
                true,
                false,
            ),
            (PhaseView::Finishing, EventView::Submitted(Some(e))) => self.broken(
                "response capture failed closed: "@ + e,
                false,
                true,
            ),
            (PhaseView::Refusing(_), EventView::Submitted(Some(e))) => self.broken(
                "response capture failed closed: "@ + e,
                false,
                true,
            ),
            _ => (self, ActionView::Wait),
        }
    }
}

/// A relay before the first chunk.
pub open spec fn fresh_flow(is_sse: bool) -> FlowView {
    FlowView { is_sse, phase: PhaseView::Reading, held: Seq::empty(), submitted: false }
}

impl RelayFlow {
    /// A relay before the first chunk.
    pub fn new(is_sse: bool) -> (flow: RelayFlow)
        ensures
            flow@ == fresh_flow(is_sse),
            flow@.wf(),
    {
        let flow = RelayFlow { is_sse, phase: RelayPhase::Reading, held: Vec::new(), submitted: false };
        assert(flow@ =~= fresh_flow(is_sse));
        flow
    }

    /// Gives the relay up.
    fn break_off(&mut self, message: String, quota: bool, capture_failed: bool) -> (action: RelayAction)
        ensures
            (final(self)@, action@) == old(self)@.broken(message@, quota, capture_failed),
    {
        self.phase = RelayPhase::Broken;
        self.held = Vec::new();
        assert(self@.held =~= Seq::<Seq<u8>>::empty());
        RelayAction::Fail { message, quota, capture_failed }
    }

    /// Sends the oldest chunk that is held back, or ends the response.
    fn drain(&mut self) -> (action: RelayAction)
        ensures
            (final(self)@, action@) == old(self)@.drained(),
    {
        let ghost before = self@;
        self.phase = RelayPhase::Ended;
        if self.held.len() > 0 {
            let bytes: Vec<u8> = self.held.remove(0);
            proof {
                assert(self@.held =~= before.held.skip(1));
                assert(bytes@ == before.held[0]);
            }
            RelayAction::Emit(bytes)
        } else {
            RelayAction::Finish
        }
    }

    /// Hands the capture over, for a refusal where there is a reason.
    fn submit(&mut self, refusal: Option<String>) -> (action: RelayAction)
        ensures
            (final(self)@, action@) == old(self)@.submitting(text::opt_text(refusal)),
    {
        self.submitted = true;
        match refusal {
            Some(reason) => {
                self.phase = RelayPhase::Submitting(AfterSubmit::Refuse(reason.clone()));
                RelayAction::Submit(Some(reason))
            },
            None => {
                self.phase = RelayPhase::Submitting(AfterSubmit::Finish);
                RelayAction::Submit(None)
            },
        }
    }

    /// Asks the budget.
    fn judge(&mut self, tokens: u64, continuation: BudgetContinuation) -> (action: RelayAction)
        ensures
            (final(self)@, action@) == old(self)@.judging(tokens, continuation@),
    {
        self.phase = RelayPhase::Judging(continuation);
        RelayAction::CheckBudget(tokens)
    }

    /// Takes the phase out, leaving `Broken` behind.
    fn take_phase(&mut self) -> (phase: RelayPhase)
        ensures
            phase@ == old(self)@.phase,
            final(self)@ == (FlowView { phase: PhaseView::Broken, ..old(self)@ }),
    {
        let mut phase = RelayPhase::Broken;
        std::mem::swap(&mut phase, &mut self.phase);
        phase
    }

    /// What a verdict amounts to: nothing to object, a reason to refuse, or
    /// the death of the task.
    fn read_verdict(verdict: BudgetVerdict) -> (read: Result<Option<String>, String>)
        ensures
            match read {
                Ok(None) => RelayEvent::Verdict(verdict)@ == EventView::Allowed,
                Ok(Some(reason)) => RelayEvent::Verdict(verdict)@ == EventView::Refused(reason@),
                Err(e) => RelayEvent::Verdict(verdict)@ == EventView::TaskFailed(e@),
            },
    {
        match verdict {
            BudgetVerdict::Allowed => Ok(None),
            BudgetVerdict::Refused { limit, cap } => {
                let mut reason: String = text::concat3(
                    limit.as_str(),
                    " exceeded (cap ",
                    text::decimal(cap).as_str(),
                );
                reason.append(")");
                Ok(Some(reason))
            },
            BudgetVerdict::BackendFailed(e) => Ok(
                Some(text::concat2("token budget backend failed closed: ", e.as_str())),
            ),
            BudgetVerdict::TaskFailed(e) => Err(e),
        }
    }

    /// Takes an event, and says what is to be done.
    pub fn step(&mut self, event: RelayEvent) -> (action: RelayAction)
        requires
            old(self)@.wf(),
        ensures
            (final(self)@, action@) == old(self)@.next(event@),
            final(self)@.wf(),
    {
        let ghost before = self@;
        let phase = self.take_phase();
        match phase {
            RelayPhase::Reading => {
                self.phase = RelayPhase::Reading;
                assert(self@ =~= before);
                match event {
                    RelayEvent::Poll => RelayAction::Read,
                    RelayEvent::Chunk { bytes, charge } => match charge {
                        Err(e) => self.break_off(e, false, true),
                        Ok(n) => {
                            if self.is_sse {
                                if n == 0 {
                                    RelayAction::Emit(bytes)
                                } else {
                                    self.judge(n, BudgetContinuation::Emit(bytes))
                                }
                            } else {
                                let ghost more = bytes@;
                                self.held.push(bytes);
                                assert(self@.held =~= before.held.push(more));
                                if n == 0 {
                                    RelayAction::Read
                                } else {
                                    self.judge(n, BudgetContinuation::ContinueNonSse)
                                }
                            }
                        },
                    },
                    RelayEvent::UpstreamFailed(e) => self.break_off(e, false, true),
                    RelayEvent::UpstreamEnded { charge } => match charge {
                        Err(e) => self.break_off(e, false, true),
                        Ok(n) => {
                            if n == 0 {
                                self.submit(None)
                            } else if self.is_sse {
                                self.judge(n, BudgetContinuation::FinishSse)
                            } else {
                                self.judge(n, BudgetContinuation::FinishNonSse)
                            }
                        },
                    },
                    _ => RelayAction::Wait,
                }
            },
            RelayPhase::Judging(continuation) => match event {
                RelayEvent::Verdict(verdict) => match RelayFlow::read_verdict(verdict) {
                    Ok(None) => match continuation {
                        BudgetContinuation::Emit(bytes) => {
                            self.phase = RelayPhase::Reading;
                            RelayAction::Emit(bytes)
                        },
                        BudgetContinuation::ContinueNonSse => {
                            self.phase = RelayPhase::Reading;
                            RelayAction::Read
                        },
                        _ => self.submit(None),
                    },
                    Ok(Some(reason)) => self.submit(Some(reason)),
                    Err(e) => {
                        let message = text::concat2("completion budget task failed: ", e.as_str());
                        self.break_off(message, false, true)
                    },
                },
                _ => {
                    self.phase = RelayPhase::Judging(continuation);
                    RelayAction::Wait
                },
            },
            RelayPhase::Submitting(after) => match event {
                RelayEvent::Submitted(Ok(())) => match after {
                    AfterSubmit::Finish => self.drain(),
                    AfterSubmit::Refuse(reason) => {
                        let message = text::concat2("response blocked by token budget: ", reason.as_str());
                        self.break_off(message, true, false)
                    },
                },
                RelayEvent::Submitted(Err(e)) => {
                    let message = text::concat2("response capture failed closed: ", e.as_str());
                    self.break_off(message, false, true)
                },
                _ => {
                    self.phase = RelayPhase::Submitting(after);
                    RelayAction::Wait
                },
            },
            RelayPhase::Ended => {
                self.phase = RelayPhase::Ended;
                match event {
                    RelayEvent::Poll => self.drain(),
                    _ => RelayAction::Wait,
                }
            },
            RelayPhase::Broken => {
                match event {
                    RelayEvent::Poll => RelayAction::Finish,
                    _ => RelayAction::Wait,
                }
            },
        }
    }
}

/// Where a relay stands after a run of events.
pub open spec fn run(flow: FlowView, events: Seq<EventView>) -> FlowView
    decreases events.len(),
{
    if events.len() == 0 {
        flow
    } else {
        run(flow, events.drop_last()).next(events.last()).0
    }
}

/// The chunks that a relay has sent to the client in a run of events.
pub open spec fn sent(flow: FlowView, events: Seq<EventView>) -> Seq<Seq<u8>>
    decreases events.len(),
{
    if events.len() == 0 {
        Seq::empty()
    } else {
        let before = sent(flow, events.drop_last());
        match run(flow, events.drop_last()).next(events.last()).1 {
            ActionView::Emit(bytes) => before.push(bytes),
            _ => before,
        }
    }
}

/// The chunks that a relay has taken from the provider in a run of events.
pub open spec fn taken(flow: FlowView, events: Seq<EventView>) -> Seq<Seq<u8>>
    decreases events.len(),
{
    if events.len() == 0 {
        Seq::empty()
    } else {
        let before = taken(flow, events.drop_last());
        match (run(flow, events.drop_last()).phase, events.last()) {
            (PhaseView::Reading, EventView::Chunk { bytes, charge: Ok(_) }) => before.push(bytes),
            _ => before,
        }
    }
}

/// The chunks that a relay has taken and not sent: one that waits for the
/// budget, or those that are held back.
pub open spec fn waiting(flow: FlowView) -> Seq<Seq<u8>> {
    match flow.phase {
        PhaseView::Judging(ContinuationView::Emit(bytes)) => seq![bytes],
        _ => flow.held,
    }
}

/// A relay stays well formed, whatever happens to it.
pub proof fn law_relay_stays_well_formed(flow: FlowView, events: Seq<EventView>)
    requires
        flow.wf(),
    ensures
        run(flow, events).wf(),
    decreases events.len(),
{
    if events.len() > 0 {
        law_relay_stays_well_formed(flow, events.drop_last());
    }
}

/// A relay sends what it has taken, in order and nothing else: what it has
/// sent is always a beginning of what it has taken, and unless it was refused
/// or given up nothing is missing but what still waits.
pub proof fn law_relay_keeps_order_and_content(is_sse: bool, events: Seq<EventView>)
    ensures
        sent(fresh_flow(is_sse), events).is_prefix_of(taken(fresh_flow(is_sse), events)),
        ({
            let now = run(fresh_flow(is_sse), events);
            now.phase is Broken || now.phase is Refusing || sent(fresh_flow(is_sse), events) + waiting(now)
                == taken(fresh_flow(is_sse), events)
        }),
    decreases events.len(),
{
    let flow = fresh_flow(is_sse);
    if events.len() > 0 {
        law_relay_keeps_order_and_content(is_sse, events.drop_last());
        law_relay_stays_well_formed(flow, events.drop_last());
        let before = run(flow, events.drop_last());
        let (now, action) = before.next(events.last());
        let s0 = sent(flow, events.drop_last());
        let t0 = taken(flow, events.drop_last());
        let s1 = sent(flow, events);
        let t1 = taken(flow, events);
        if !(now.phase is Broken || now.phase is Refusing) {
            assert(!(before.phase is Broken || before.phase is Refusing));
            assert(s0 + waiting(before) == t0);
            assert(s1 + waiting(now) =~= t1);
            assert(s1 =~= t1.take(s1.len() as int));
        } else {
            assert(s1 == s0);
            assert(t1 == t0);
        }
    } else {
        assert(sent(flow, events) + waiting(flow) =~= taken(flow, events));
    }
}

/// No chunk of an event stream goes out unless it carries no charge or the
/// budget has agreed to it; no byte of any other body goes out before the
/// capture has been handed over.
pub proof fn law_nothing_goes_out_unasked(flow: FlowView, event: EventView)
    requires
        flow.wf(),
    ensures
        flow.next(event).1 matches ActionView::Emit(bytes) ==> if flow.is_sse {
            ||| event == (EventView::Chunk { bytes, charge: Ok(0) })
            ||| event is Allowed && flow.phase == PhaseView::Judging(ContinuationView::Emit(bytes))
        } else {
            flow.next(event).0.submitted && flow.next(event).0.phase is Ended
        },
{
}

/// Once the budget has refused a response, or it was given up, nothing of it
/// goes out any more.
pub proof fn law_refusal_is_final(flow: FlowView, event: EventView)
    requires
        flow.phase is Refusing || flow.phase is Broken,
    ensures
        !(flow.next(event).1 is Emit),
        flow.next(event).0.phase is Refusing || flow.next(event).0.phase is Broken,
{
}

/// What to do about a relay whose client is gone.
#[derive(Clone, Copy, Debug, PartialEq, Eq, Structural)]
pub struct AbandonPlan {
    /// The audit capture of the session is no longer complete.
    pub mark_capture_failed: bool,
    /// The capture is to be handed over as far as it came.
    pub submit_capture: bool,
    /// The session is to be closed.
    pub close_session: bool,
}

/// What to do when the client is gone. `clean` tells that capturing the rest
/// went well and left nothing to charge. A close that is under way is waiting
/// for this relay and is not spoilt by it.
pub open spec fn abandoned(flow: FlowView, session_closed: bool, capture_failed: bool, clean: bool) -> AbandonPlan {
    let spoilt = !session_closed && (flow.phase is Judging || !clean);
    if flow.phase is Ended {
        AbandonPlan { mark_capture_failed: false, submit_capture: false, close_session: false }
    } else {
        AbandonPlan {
            mark_capture_failed: spoilt,
            submit_capture: !capture_failed && !spoilt && !flow.submitted,
            close_session: !session_closed,
        }
    }
}

impl RelayFlow {
    /// What to do when the client is gone. `session_closed` tells that the
    /// session is being closed already, `capture_failed` that its capture has
    /// failed before, and `flushed` what capturing the rest gave.
    pub fn abandon(&self, session_closed: bool, capture_failed: bool, flushed: &Result<u64, String>) -> (plan:
        AbandonPlan)
        ensures
            plan == abandoned(self@, session_closed, capture_failed, *flushed == Ok::<u64, String>(0)),
    {
        let ended: bool = match &self.phase {
            RelayPhase::Ended => true,
            _ => false,
        };
        if ended {
            return AbandonPlan { mark_capture_failed: false, submit_capture: false, close_session: false };
        }
        let judging: bool = match &self.phase {
            RelayPhase::Judging(_) => true,
            _ => false,
        };
        let clean: bool = match flushed {
            Ok(n) => *n == 0,
            Err(_) => false,
        };
        let mark_capture_failed: bool = !session_closed && (judging || !clean);
        AbandonPlan {
            mark_capture_failed,
            submit_capture: !capture_failed && !mark_capture_failed && !self.submitted,
            close_session: !session_closed,
        }
    }
}

/// A client that goes away leaves nothing unaccounted for: unless the
/// response had ended, its session is closed, and the response is on record,
/// goes on record now, or the session is known not to be complete.
pub proof fn law_abandoned_responses_are_accounted_for(
    flow: FlowView,
    session_closed: bool,
    capture_failed: bool,
    clean: bool,
)
    requires
        !(flow.phase is Ended),
    ensures
        ({
            let plan = abandoned(flow, session_closed, capture_failed, clean);
            &&& session_closed || plan.close_session
            &&& flow.submitted || plan.submit_capture || plan.mark_capture_failed || capture_failed
            &&& !(flow.submitted && plan.submit_capture)
            &&& !(plan.submit_capture && (plan.mark_capture_failed || capture_failed))
        }),
{
}

/// The HTTP status of a response that was broken off before any byte went
/// out: 429 for a refusal by the budget, else 502.
pub fn refusal_status(quota: bool) -> (status: u16)
    ensures
        status == (if quota {
            429u16
        } else {
            502u16
        }),
{
    if quota {
        429
    } else {
        502
    }
}

/// A connection of the provider that breaks while a relay reads always
/// breaks the response off: with the words of the break, as no matter of the
/// budget, and with the session's capture marked as failed. Nothing is handed
/// over, and what was held back is gone.
pub proof fn law_broken_connections_fail_the_capture(is_sse: bool, events: Seq<EventView>, words: Seq<char>)
    requires
        run(fresh_flow(is_sse), events).phase is Reading,
    ensures
        ({
            let (after, action) = run(fresh_flow(is_sse), events).next(EventView::UpstreamFailed(words));
            &&& action == (ActionView::Fail { message: words, quota: false, capture_failed: true })
            &&& after.phase is Broken && after.held.len() == 0 && !after.submitted
        }),
{
    law_relay_stays_well_formed(fresh_flow(is_sse), events);
}

/// What cannot be captured is not passed on: the response is broken off with
/// the words of the fault, and the session's capture is marked as failed.
pub proof fn law_uncaptured_bytes_fail_the_capture(flow: FlowView, bytes: Seq<u8>, words: Seq<char>)
    requires
        flow.phase is Reading,
    ensures
        flow.next(EventView::Chunk { bytes, charge: Err(words) }).1 == (ActionView::Fail {
            message: words,
            quota: false,
            capture_failed: true,
        }),
        flow.next(EventView::UpstreamEnded { charge: Err(words) }).1 == (ActionView::Fail {
            message: words,
            quota: false,
            capture_failed: true,
        }),
{
}

/// Whether a relay was told, by some event but the last, that the provider
/// has sent all and that what was left could be captured.
pub open spec fn ended_before(events: Seq<EventView>) -> bool {
    exists|i: int|
        0 <= i < events.len() - 1 && (#[trigger] events[i] matches EventView::UpstreamEnded { charge: Ok(_) })
}

/// A relay that waits for the budget at the end of a response was told that
/// the provider has sent all.
proof fn lemma_finishing_follows_the_end(is_sse: bool, events: Seq<EventView>)
    ensures
        run(fresh_flow(is_sse), events).phase matches PhaseView::Judging(c) && (c is FinishSse || c is FinishNonSse)
            ==> exists|i: int|
            0 <= i < events.len() && (#[trigger] events[i] matches EventView::UpstreamEnded { charge: Ok(_) }),
    decreases events.len(),
{
    if events.len() > 0 {
        let earlier = events.drop_last();
        lemma_finishing_follows_the_end(is_sse, earlier);
        let before = run(fresh_flow(is_sse), earlier);
        let after = run(fresh_flow(is_sse), events);
        if let PhaseView::Judging(c) = after.phase {
            if c is FinishSse || c is FinishNonSse {
                if after.phase == before.phase {
                    let i = choose|i: int|
                        0 <= i < earlier.len() && (#[trigger] earlier[i] matches EventView::UpstreamEnded { charge: Ok(_) });
                    assert(events[i] == earlier[i]);
                } else {
                    assert(events[events.len() - 1] == events.last());
                }
            }
        }
    }
}

/// A capture is handed over as complete only after the provider has ended
/// the response regularly and what was left could be captured: by the end
/// itself, where it costs nothing, else by the budget's consent to it. It is
/// handed over as refused only by a refusal, with its very reason.
pub proof fn law_only_ended_responses_are_handed_over(is_sse: bool, events: Seq<EventView>)
    requires
        events.len() > 0,
    ensures
        run(fresh_flow(is_sse), events.drop_last()).next(events.last()).1 matches ActionView::Submit(refusal) ==> match refusal {
            None => events.last() == (EventView::UpstreamEnded { charge: Ok(0) }) || events.last() is Allowed
                && ended_before(events),
            Some(reason) => events.last() == EventView::Refused(reason),
        },
{
    let earlier = events.drop_last();
    lemma_finishing_follows_the_end(is_sse, earlier);
    let before = run(fresh_flow(is_sse), earlier);
    if before.next(events.last()).1 matches ActionView::Submit(None) {
        if events.last() is Allowed {
            let i = choose|i: int|
                0 <= i < earlier.len() && (#[trigger] earlier[i] matches EventView::UpstreamEnded { charge: Ok(_) });
            assert(events[i] == earlier[i]);
        }
    }
}

/// How often a relay asked for its capture to be handed over.
pub open spec fn submissions(flow: FlowView, events: Seq<EventView>) -> nat
    decreases events.len(),
{
    if events.len() == 0 {
        0
    } else {
        submissions(flow, events.drop_last()) + (if run(flow, events.drop_last()).next(events.last()).1 is Submit {
            1nat
        } else {
            0nat
        })
    }
}

/// The capture of a response is handed over once at most, and a response
/// that was finished as complete was handed over.
pub proof fn law_captures_are_handed_over_once(is_sse: bool, events: Seq<EventView>)
    ensures
        submissions(fresh_flow(is_sse), events) <= 1,
        submissions(fresh_flow(is_sse), events) == 1 <==> run(fresh_flow(is_sse), events).submitted,
        run(fresh_flow(is_sse), events).phase is Ended ==> submissions(fresh_flow(is_sse), events) == 1,
    decreases events.len(),
{
    law_relay_stays_well_formed(fresh_flow(is_sse), events);
    if events.len() > 0 {
        law_captures_are_handed_over_once(is_sse, events.drop_last());
        law_relay_stays_well_formed(fresh_flow(is_sse), events.drop_last());
    }
}

/// A response that could be handed over is finished; one that could not be
/// is broken off, and the session's capture is marked as failed. A refused
/// one is broken off as a matter of the budget, with the capture intact.
pub proof fn law_handing_over_decides(flow: FlowView, words: Seq<char>)
    requires
        flow.phase is Finishing || flow.phase is Refusing,
    ensures
        flow.next(EventView::Submitted(Some(words))).1 == (ActionView::Fail {
            message: "response capture failed closed: "@ + words,
            quota: false,
            capture_failed: true,
        }),
        flow.phase is Finishing ==> flow.next(EventView::Submitted(None)).0.phase is Ended && (flow.next(
            EventView::Submitted(None),
        ).1 is Emit || flow.next(EventView::Submitted(None)).1 is Finish),
        flow.phase matches PhaseView::Refusing(reason) ==> flow.next(EventView::Submitted(None)).1 == (
        ActionView::Fail { message: "response blocked by token budget: "@ + reason, quota: true, capture_failed: false }),
{
}

/// A response is broken off as a matter of the budget only where the budget
/// refused it; every other break marks the session's capture as failed.
pub proof fn law_breaks_are_told_apart(is_sse: bool, events: Seq<EventView>)
    requires
        events.len() > 0,
    ensures
        run(fresh_flow(is_sse), events.drop_last()).next(events.last()).1 matches ActionView::Fail {
            message,
            quota,
            capture_failed,
        } ==> {
            &&& capture_failed == !quota
            &&& quota ==> events.last() == EventView::Submitted(None) && exists|i: int|
                0 <= i < events.len() && (#[trigger] events[i] matches EventView::Refused(reason) && message
                    == "response blocked by token budget: "@ + reason)
        },
{
    let earlier = events.drop_last();
    lemma_refusing_follows_a_refusal(is_sse, earlier);
    let before = run(fresh_flow(is_sse), earlier);
    if let PhaseView::Refusing(reason) = before.phase {
        let i = choose|i: int| 0 <= i < earlier.len() && #[trigger] earlier[i] == EventView::Refused(reason);
        assert(events[i] == earlier[i]);
    }
}

/// A relay that hands over a refused response was told of the refusal.
proof fn lemma_refusing_follows_a_refusal(is_sse: bool, events: Seq<EventView>)
    ensures
        run(fresh_flow(is_sse), events).phase matches PhaseView::Refusing(reason) ==> exists|i: int|
            0 <= i < events.len() && #[trigger] events[i] == EventView::Refused(reason),
    decreases events.len(),
{
    if events.len() > 0 {
        let earlier = events.drop_last();
        lemma_refusing_follows_a_refusal(is_sse, earlier);
        let before = run(fresh_flow(is_sse), earlier);
        let after = run(fresh_flow(is_sse), events);
        if let PhaseView::Refusing(reason) = after.phase {
            if before.phase is Refusing {
                let i = choose|i: int| 0 <= i < earlier.len() && #[trigger] earlier[i] == EventView::Refused(reason);
                assert(events[i] == earlier[i]);
            } else {
                assert(events[events.len() - 1] == EventView::Refused(reason));
            }
        }
    }
}

/// The tokens that a relay has asked the budget for.
pub open spec fn asked(flow: FlowView, events: Seq<EventView>) -> int
    decreases events.len(),
{
    if events.len() == 0 {
        0
    } else {
        asked(flow, events.drop_last()) + match run(flow, events.drop_last()).next(events.last()).1 {
            ActionView::CheckBudget(n) => n as int,
            _ => 0,
        }
    }
}

/// The tokens that the captures of a relay's reading add up to.
pub open spec fn charged(flow: FlowView, events: Seq<EventView>) -> int
    decreases events.len(),
{
    if events.len() == 0 {
        0
    } else {
        charged(flow, events.drop_last()) + match (run(flow, events.drop_last()).phase, events.last()) {
            (PhaseView::Reading, EventView::Chunk { charge: Ok(n), .. }) => n as int,
            (PhaseView::Reading, EventView::UpstreamEnded { charge: Ok(n) }) => n as int,
            _ => 0,
        }
    }
}

/// The budget is asked for every token that a response is charged, once:
/// what was asked for adds up to what was charged.
pub proof fn law_every_charged_token_is_asked_for(is_sse: bool, events: Seq<EventView>)
    ensures
        asked(fresh_flow(is_sse), events) == charged(fresh_flow(is_sse), events),
    decreases events.len(),
{
    if events.len() > 0 {
        law_every_charged_token_is_asked_for(is_sse, events.drop_last());
    }
}

/// A refusal by the budget hands the response over as refused, and a budget
/// that could not be asked breaks it off; its consent lets it go on: a chunk
/// that waited for it goes out, and reading goes on.
pub proof fn law_the_budget_decides(flow: FlowView, words: Seq<char>)
    requires
        flow.wf(),
        flow.phase is Judging,
    ensures
        flow.next(EventView::Refused(words)).1 == ActionView::Submit(Some(words)),
        flow.next(EventView::TaskFailed(words)).1 == (ActionView::Fail {
            message: "completion budget task failed: "@ + words,
            quota: false,
            capture_failed: true,
        }),
        flow.phase matches PhaseView::Judging(ContinuationView::Emit(bytes)) ==> flow.next(EventView::Allowed) == (
            FlowView { phase: PhaseView::Reading, ..flow },
            ActionView::Emit(bytes),
        ),
        flow.phase matches PhaseView::Judging(ContinuationView::ContinueNonSse) ==> flow.next(EventView::Allowed) == (
            FlowView { phase: PhaseView::Reading, ..flow },
            ActionView::Read,
        ),
{
}

/// A client that asks for more is served: the provider is read on, what was
/// held back goes out oldest first, and a response that is over is ended. A
/// relay waits only for the answer of the budget or of the hand-over.
pub proof fn law_polls_are_served(flow: FlowView)
    ensures
        match flow.phase {
            PhaseView::Reading => flow.next(EventView::Poll) == (flow, ActionView::Read),
            PhaseView::Ended => if flow.held.len() == 0 {
                flow.next(EventView::Poll).1 == ActionView::Finish
            } else {
                flow.next(EventView::Poll).1 == ActionView::Emit(flow.held.first())
            },
            PhaseView::Broken => flow.next(EventView::Poll).1 == ActionView::Finish,
            _ => flow.next(EventView::Poll) == (flow, ActionView::Wait),
        },
{
}

/// The words of a refusal name the limit and its cap, or tell that the
/// budget could not be asked: both refuse, and neither is taken for consent.
pub proof fn law_verdicts_of_the_budget_are_told_apart(limit: String, cap: u64, words: String)
    ensures
        RelayEvent::Verdict(BudgetVerdict::Refused { limit, cap })@ matches EventView::Refused(reason) && reason
            == limit@ + " exceeded (cap "@ + text::decimal_digits(cap as nat) + ")"@,
        RelayEvent::Verdict(BudgetVerdict::BackendFailed(words))@ matches EventView::Refused(reason) && reason
            == "token budget backend failed closed: "@ + words@,
        RelayEvent::Verdict(BudgetVerdict::TaskFailed(words))@ == EventView::TaskFailed(words@),
        RelayEvent::Verdict(BudgetVerdict::Allowed)@ is Allowed,
{
}

} // verus!
