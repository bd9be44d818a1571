//! Publication of events to the broker, each once, and the outboxes that
//! keep a lifecycle event until the broker has it.

use vstd::prelude::*;
use crate::errors::{FinalizeError, FinalizeErrorView};
use crate::headers;
use crate::journal;
use crate::json;
use crate::json::{Json, JsonTree};
use crate::recovery;
use crate::text;

verus! {

/// The id of an event, or that it has none.
pub open spec fn event_uid(value: JsonTree) -> Result<Seq<char>, FinalizeErrorView> {
    match json::text_in(json::member2(value, "metadata"@, "uid"@)) {
        Some(uid) => Ok(uid),
        None => Err(FinalizeErrorView::Bridge("lifecycle event has no metadata UID"@)),
    }
}

/// The id of a lifecycle event.
pub fn lifecycle_event_uid(value: &Json) -> (uid: Result<String, FinalizeError>)
    ensures
        match uid {
            Ok(s) => event_uid(value@) == Ok::<Seq<char>, FinalizeErrorView>(s@),
            Err(e) => event_uid(value@) == Err::<Seq<char>, FinalizeErrorView>(e@),
        },
{
    match json::as_text(value.get2("metadata", "uid")) {
        Some(uid) => Ok(uid),
        None => Err(FinalizeError::Bridge("lifecycle event has no metadata UID".to_owned())),
    }
}

/// The sequence number of an event, where it has one.
pub open spec fn event_sequence(value: JsonTree) -> Option<u64> {
    json::unsigned_in(json::member2(value, "metadata"@, "sequence"@))
}

/// The outbox of a lifecycle event, as it is found.
#[derive(Debug)]
pub enum OutboxOnDisk {
    Absent,
    /// It could not be read, or is not authentic.
    Unreadable(String),
    Opened { session_id: String, kind: String, value: Json, acked: bool },
}

/// An [`OutboxOnDisk`] by its contents.
#[verifier::ext_equal]
pub enum OutboxView {
    Absent,
    Unreadable(Seq<char>),
    Opened { session_id: Seq<char>, kind: Seq<char>, value: JsonTree, acked: bool },
}

impl View for OutboxOnDisk {
    type V = OutboxView;

    open spec fn view(&self) -> OutboxView {
        match self {
            OutboxOnDisk::Absent => OutboxView::Absent,
            OutboxOnDisk::Unreadable(words) => OutboxView::Unreadable(words@),
            OutboxOnDisk::Opened { session_id, kind, value, acked } => OutboxView::Opened {
                session_id: session_id@,
                kind: kind@,
                value: value@,
                acked: *acked,
            },
        }
    }
}

/// Where the emission of a lifecycle event stands.
#[derive(Clone, Copy, Debug, PartialEq, Eq, Structural)]
pub enum EmitStage {
    /// The outbox is being read.
    Opening,
    /// A new outbox is being stored.
    Storing,
    /// The event is being looked for at the broker.
    Finding,
    /// The event is being published.
    Publishing,
    /// The acknowledgment is being stored.
    Acking,
    Done,
}

/// What happens in the emission of a lifecycle event.
#[derive(Debug)]
pub enum EmitEvent {
    OutboxRead(OutboxOnDisk),
    /// The event as it was stored.
    Stored(Result<Json, FinalizeError>),
    /// Whether the broker has the event already.
    Found(Result<bool, FinalizeError>),
    Published(Result<(), FinalizeError>),
    AckStored(Result<(), FinalizeError>),
}

/// What the emission of a lifecycle event wants done. `advance` tells the
/// sequence number that the session's next one is to be past, where that is
/// to be seen to first.
#[derive(Debug)]
pub enum EmitAction {
    /// Nothing: this is not what is being waited for.
    Ignore,
    /// Make the event, under this sequence number, and store its outbox. The
    /// number is not used up yet.
    Store { sequence: u64 },
    /// Look for the event of this id at the broker.
    Find { advance: Option<u64>, uid: String },
    Publish,
    StoreAck,
    Complete { advance: Option<u64> },
    /// The event is not published. `counted` tells a failure at the broker.
    Fail { advance: Option<u64>, error: FinalizeError, counted: bool },
}

/// The emission of one lifecycle event.
#[derive(Debug)]
pub struct EmitFlow {
    pub session_id: String,
    /// The kind of the event.
    pub kind: String,
    /// The session's next sequence number.
    pub sequence: u64,
    pub stage: EmitStage,
}

/// An [`EmitFlow`] by its contents.
#[verifier::ext_equal]
pub struct EmitView {
    pub session_id: Seq<char>,
    pub kind: Seq<char>,
    pub sequence: u64,
    pub stage: EmitStage,
}

/// An [`EmitEvent`] by its contents.
pub enum EmitEventView {
    OutboxRead(OutboxView),
    Stored(Result<JsonTree, FinalizeErrorView>),
    Found(Result<bool, FinalizeErrorView>),
    Published(Option<FinalizeErrorView>),
    AckStored(Option<FinalizeErrorView>),
}

/// An [`EmitAction`] by its contents.
#[verifier::ext_equal]
pub enum EmitActionView {
    Ignore,
    Store { sequence: u64 },
    Find { advance: Option<u64>, uid: Seq<char> },
    Publish,
    StoreAck,
    Complete { advance: Option<u64> },
    Fail { advance: Option<u64>, error: FinalizeErrorView, counted: bool },
}

impl View for EmitFlow {
    type V = EmitView;

    open spec fn view(&self) -> EmitView {
        EmitView {
            session_id: self.session_id@,
            kind: self.kind@,
            sequence: self.sequence,
            stage: self.stage,
        }
    }
}

/// Whether the broker has an event, by the contents of the answer.
pub open spec fn found_view(found: Result<bool, FinalizeError>) -> Result<bool, FinalizeErrorView> {
    match found {
        Ok(has) => Ok(has),
        Err(e) => Err(e@),
    }
}

impl View for EmitEvent {
    type V = EmitEventView;

    open spec fn view(&self) -> EmitEventView {
        match self {
            EmitEvent::OutboxRead(found) => EmitEventView::OutboxRead(found@),
            EmitEvent::Stored(Ok(value)) => EmitEventView::Stored(Ok(value@)),
            EmitEvent::Stored(Err(e)) => EmitEventView::Stored(Err(e@)),
            EmitEvent::Found(found) => EmitEventView::Found(found_view(*found)),
            EmitEvent::Published(outcome) => EmitEventView::Published(recovery::final_fault(*outcome)),
            EmitEvent::AckStored(outcome) => EmitEventView::AckStored(recovery::final_fault(*outcome)),
        }
    }
}

impl View for EmitAction {
    type V = EmitActionView;

    open spec fn view(&self) -> EmitActionView {
        match self {
            EmitAction::Ignore => EmitActionView::Ignore,
            EmitAction::Store { sequence } => EmitActionView::Store { sequence: *sequence },
            EmitAction::Find { advance, uid } => EmitActionView::Find { advance: *advance, uid: uid@ },
            EmitAction::Publish => EmitActionView::Publish,
            EmitAction::StoreAck => EmitActionView::StoreAck,
            EmitAction::Complete { advance } => EmitActionView::Complete { advance: *advance },
            EmitAction::Fail { advance, error, counted } => EmitActionView::Fail {
                advance: *advance,
                error: error@,
                counted: *counted,
            },
        }
    }
}

impl EmitView {
    /// The state at another stage.
    pub open spec fn at(self, stage: EmitStage) -> EmitView {
        EmitView { stage, ..self }
    }

    /// The end by a failure.
    pub open spec fn fail(self, advance: Option<u64>, error: FinalizeErrorView, counted: bool) -> (
        EmitView,
        EmitActionView,
    ) {
        (self.at(EmitStage::Done), EmitActionView::Fail { advance, error, counted })
    }

    /// The sequence number of a stored event that the session has yet to get
    /// past, where there is one.
    pub open spec fn behind(self, value: JsonTree) -> Option<u64> {
        match event_sequence(value) {
            Some(stored) => if self.sequence <= stored {
                Some(stored)
            } else {
                None
            },
            None => None,
        }
    }

    /// The search for a stored event at the broker.
    pub open spec fn find(self, advance: Option<u64>, value: JsonTree) -> (EmitView, EmitActionView) {
        match event_uid(value) {
            Ok(uid) => (self.at(EmitStage::Finding), EmitActionView::Find { advance, uid }),
            Err(e) => self.fail(advance, e, false),
        }
    }

    /// What becomes of an emission when something happens, and what is to be
    /// done.
    pub open spec fn next(self, event: EmitEventView) -> (EmitView, EmitActionView) {
        match (self.stage, event) {
            (EmitStage::Opening, EmitEventView::OutboxRead(found)) => match found {
                OutboxView::Absent => (
                    self.at(EmitStage::Storing),
                    EmitActionView::Store { sequence: self.sequence },
                ),
                OutboxView::Unreadable(words) => self.fail(None, FinalizeErrorView::Bridge(words), false),
                OutboxView::Opened { session_id, kind, value, acked } => if session_id != self.session_id || kind
                    != self.kind {
                    self.fail(
                        None,
                        FinalizeErrorView::Bridge("lifecycle outbox does not match its session and kind"@),
                        false,
                    )
                } else if acked {
                    (self.at(EmitStage::Done), EmitActionView::Complete { advance: self.behind(value) })
                } else {
                    self.find(self.behind(value), value)
                },
            },
            (EmitStage::Storing, EmitEventView::Stored(Err(e))) => self.fail(None, e, false),
            (EmitStage::Storing, EmitEventView::Stored(Ok(value))) => self.find(Some(self.sequence), value),
            (EmitStage::Finding, EmitEventView::Found(Err(e))) => self.fail(None, e, true),
            (EmitStage::Finding, EmitEventView::Found(Ok(has))) => if has {
                (self.at(EmitStage::Acking), EmitActionView::StoreAck)
            } else {
                (self.at(EmitStage::Publishing), EmitActionView::Publish)
            },
            (EmitStage::Publishing, EmitEventView::Published(fault)) => match fault {
                Some(e) => self.fail(None, e, true),
                None => (self.at(EmitStage::Acking), EmitActionView::StoreAck),
            },
            (EmitStage::Acking, EmitEventView::AckStored(fault)) => match fault {
                Some(e) => self.fail(None, e, false),
                None => (self.at(EmitStage::Done), EmitActionView::Complete { advance: None }),
            },
            _ => (self, EmitActionView::Ignore),
        }
    }
}

impl EmitFlow {
    /// Begins the emission of a lifecycle event of a session whose next
    /// sequence number is given. Without a broker there is nothing to emit to,
    /// and nothing is to be done: the emission has succeeded.
    pub fn begin(session_id: String, kind: String, sequence: u64, has_broker: bool) -> (flow: Option<EmitFlow>)
        ensures
            match flow {
                Some(f) => has_broker && f@ == (EmitView {
                    session_id: session_id@,
                    kind: kind@,
                    sequence,
                    stage: EmitStage::Opening,
                }),
                None => !has_broker,
            },
    {
        if has_broker {
            Some(EmitFlow { session_id, kind, sequence, stage: EmitStage::Opening })
        } else {
            None
        }
    }

    /// Ends by a failure.
    fn fail(&mut self, advance: Option<u64>, error: FinalizeError, counted: bool) -> (action: EmitAction)
        ensures
            (final(self)@, action@) == old(self)@.fail(advance, error@, counted),
    {
        self.stage = EmitStage::Done;
        EmitAction::Fail { advance, error, counted }
    }

    /// Goes on to the search for a stored event.
    fn find(&mut self, advance: Option<u64>, value: &Json) -> (action: EmitAction)
        ensures
            (final(self)@, action@) == old(self)@.find(advance, value@),
    {
        match lifecycle_event_uid(value) {
            Ok(uid) => {
                self.stage = EmitStage::Finding;
                EmitAction::Find { advance, uid }
            },
            Err(e) => self.fail(advance, e, false),
        }
    }

    /// Looks at the outbox.
    fn step_outbox(&mut self, found: OutboxOnDisk) -> (action: EmitAction)
        requires
            old(self)@.stage == EmitStage::Opening,
        ensures
            (final(self)@, action@) == old(self)@.next(EmitEventView::OutboxRead(found@)),
    {
        match found {
            OutboxOnDisk::Absent => {
                self.stage = EmitStage::Storing;
                EmitAction::Store { sequence: self.sequence }
            },
            OutboxOnDisk::Unreadable(words) => self.fail(None, FinalizeError::Bridge(words), false),
            OutboxOnDisk::Opened { session_id, kind, value, acked } => {
                if !text::same_text(session_id.as_str(), self.session_id.as_str()) || !text::same_text(
                    kind.as_str(),
                    self.kind.as_str(),
                ) {
                    return self.fail(
                        None,
                        FinalizeError::Bridge(
                            "lifecycle outbox does not match its session and kind".to_owned(),
                        ),
                        false,
                    );
                }
                let advance: Option<u64> = match json::as_unsigned(value.get2("metadata", "sequence")) {
                    Some(stored) => {
                        if self.sequence <= stored {
                            Some(stored)
                        } else {
                            None
                        }
                    },
                    None => None,
                };
                if acked {
                    self.stage = EmitStage::Done;
                    EmitAction::Complete { advance }
                } else {
                    self.find(advance, &value)
                }
            },
        }
    }

    /// Takes one step of the emission.
    pub fn step(&mut self, event: EmitEvent) -> (action: EmitAction)
        ensures
            (final(self)@, action@) == old(self)@.next(event@),
    {
        match event {
            EmitEvent::OutboxRead(found) => {
                if self.stage == EmitStage::Opening {
                    return self.step_outbox(found);
                }
            },
            EmitEvent::Stored(outcome) => {
                if self.stage == EmitStage::Storing {
                    return match outcome {
                        Err(e) => self.fail(None, e, false),
                        Ok(value) => {
                            let sequence: u64 = self.sequence;
                            self.find(Some(sequence), &value)
                        },
                    };
                }
            },
            EmitEvent::Found(found) => {
                if self.stage == EmitStage::Finding {
                    return match found {
                        Err(e) => self.fail(None, e, true),
                        Ok(true) => {
                            self.stage = EmitStage::Acking;
                            EmitAction::StoreAck
                        },
                        Ok(false) => {
                            self.stage = EmitStage::Publishing;
                            EmitAction::Publish
                        },
                    };
                }
            },
            EmitEvent::Published(outcome) => {
                if self.stage == EmitStage::Publishing {
                    return match outcome {
                        Err(e) => self.fail(None, e, true),
                        Ok(()) => {
                            self.stage = EmitStage::Acking;
                            EmitAction::StoreAck
                        },
                    };
                }
            },
            EmitEvent::AckStored(outcome) => {
                if self.stage == EmitStage::Acking {
                    return match outcome {
                        Err(e) => self.fail(None, e, false),
                        Ok(()) => {
                            self.stage = EmitStage::Done;
                            EmitAction::Complete { advance: None }
                        },
                    };
                }
            },
        }
        EmitAction::Ignore
    }
}

/// What an action asks of the session's next sequence number.
pub open spec fn advance_of(action: EmitActionView) -> Option<u64> {
    match action {
        EmitActionView::Find { advance, .. } => advance,
        EmitActionView::Complete { advance } => advance,
        EmitActionView::Fail { advance, .. } => advance,
        _ => None,
    }
}

/// An event that could not be stored uses up no sequence number; one that
/// was stored uses up its own, whatever comes after.
pub proof fn law_only_stored_events_use_a_number(flow: EmitView, stored: Result<JsonTree, FinalizeErrorView>)
    requires
        flow.stage == EmitStage::Storing,
    ensures
        advance_of(flow.next(EmitEventView::Stored(stored)).1) == (if stored is Ok {
            Some(flow.sequence)
        } else {
            None
        }),
{
}

/// Once an outbox of the session has been taken up, the session's next
/// sequence number is past the one in it: no two events share one.
pub proof fn law_numbers_are_not_used_twice(flow: EmitView, value: JsonTree, acked: bool, stored: u64)
    requires
        flow.stage == EmitStage::Opening,
        event_sequence(value) == Some(stored),
    ensures
        ({
            let found = OutboxView::Opened { session_id: flow.session_id, kind: flow.kind, value, acked };
            flow.sequence > stored || advance_of(flow.next(EmitEventView::OutboxRead(found)).1) == Some(stored)
        }),
{
}

/// An event is published only after the broker was asked for it and had it
/// not, and its outbox counts as acknowledged only once the broker has it.
pub proof fn law_events_are_published_once(flow: EmitView, event: EmitEventView)
    ensures
        flow.next(event).1 == EmitActionView::Publish ==> event == EmitEventView::Found(Ok(false)),
        flow.next(event).1 == EmitActionView::StoreAck ==> event == EmitEventView::Found(Ok(true)) || event
            == EmitEventView::Published(None),
{
}

/// Where the publication of the event of a journal record stands.
#[derive(Clone, Copy, Debug, PartialEq, Eq, Structural)]
pub enum PublishStage {
    /// The acknowledgment is being read.
    Reading,
    /// The event is being looked for at the broker.
    Finding,
    /// The event is being published.
    Publishing,
    /// The acknowledgment is being stored.
    Acking,
    Done,
}

/// What happens in the publication of the event of a journal record.
#[derive(Debug)]
pub enum PublishEvent {
    /// The topic of the acknowledgment, where there is one.
    AckRead(Result<Option<String>, String>),
    Found(Result<bool, FinalizeError>),
    Published(Result<(), FinalizeError>),
    AckStored(Result<(), String>),
}

/// What the publication of the event of a journal record wants done.
#[derive(Debug)]
pub enum PublishAction {
    /// Nothing: this is not what is being waited for.
    Ignore,
    Find,
    Publish,
    StoreAck,
    Complete,
    Fail(FinalizeError),
}

/// The publication of the event of one journal record.
#[derive(Debug)]
pub struct PublishFlow {
    /// The topic of the event.
    pub topic: String,
    /// Whether there is a broker.
    pub has_broker: bool,
    pub stage: PublishStage,
}

/// A [`PublishFlow`] by its contents.
#[verifier::ext_equal]
pub struct PublishView {
    pub topic: Seq<char>,
    pub has_broker: bool,
    pub stage: PublishStage,
}

/// A [`PublishEvent`] by its contents.
pub enum PublishEventView {
    AckRead(Result<Option<Seq<char>>, Seq<char>>),
    Found(Result<bool, FinalizeErrorView>),
    Published(Option<FinalizeErrorView>),
    AckStored(Option<Seq<char>>),
}

/// A [`PublishAction`] by its contents.
#[verifier::ext_equal]
pub enum PublishActionView {
    Ignore,
    Find,
    Publish,
    StoreAck,
    Complete,
    Fail(FinalizeErrorView),
}

impl View for PublishFlow {
    type V = PublishView;

    open spec fn view(&self) -> PublishView {
        PublishView { topic: self.topic@, has_broker: self.has_broker, stage: self.stage }
    }
}

impl View for PublishEvent {
    type V = PublishEventView;

    open spec fn view(&self) -> PublishEventView {
        match self {
            PublishEvent::AckRead(Ok(topic)) => PublishEventView::AckRead(Ok(text::opt_text(*topic))),
            PublishEvent::AckRead(Err(words)) => PublishEventView::AckRead(Err(words@)),
            PublishEvent::Found(found) => PublishEventView::Found(found_view(*found)),
            PublishEvent::Published(outcome) => PublishEventView::Published(recovery::final_fault(*outcome)),
            PublishEvent::AckStored(outcome) => PublishEventView::AckStored(recovery::word_fault(*outcome)),
        }
    }
}

impl View for PublishAction {
    type V = PublishActionView;

    open spec fn view(&self) -> PublishActionView {
        match self {
            PublishAction::Ignore => PublishActionView::Ignore,
            PublishAction::Find => PublishActionView::Find,
            PublishAction::Publish => PublishActionView::Publish,
            PublishAction::StoreAck => PublishActionView::StoreAck,
            PublishAction::Complete => PublishActionView::Complete,
            PublishAction::Fail(e) => PublishActionView::Fail(e@),
        }
    }
}

impl PublishView {
    /// The state at another stage.
    pub open spec fn at(self, stage: PublishStage) -> PublishView {
        PublishView { stage, ..self }
    }

    /// The end by a failure.
    pub open spec fn fail(self, error: FinalizeErrorView) -> (PublishView, PublishActionView) {
        (self.at(PublishStage::Done), PublishActionView::Fail(error))
    }

    /// What becomes of a publication when something happens, and what is to
    /// be done.
    pub open spec fn next(self, event: PublishEventView) -> (PublishView, PublishActionView) {
        match (self.stage, event) {
            (PublishStage::Reading, PublishEventView::AckRead(Err(words))) => self.fail(
                FinalizeErrorView::Bridge(words),
            ),
            (PublishStage::Reading, PublishEventView::AckRead(Ok(Some(topic)))) => if topic == self.topic {
                (self.at(PublishStage::Done), PublishActionView::Complete)
            } else {
                self.fail(
                    FinalizeErrorView::Bridge("broker acknowledgment topic does not match active event"@),
                )
            },
            (PublishStage::Reading, PublishEventView::AckRead(Ok(None))) => if self.has_broker {
                (self.at(PublishStage::Finding), PublishActionView::Find)
            } else {
                self.fail(
                    FinalizeErrorView::Bridge("unacknowledged active event has no configured broker"@),
                )
            },
            (PublishStage::Finding, PublishEventView::Found(Err(e))) => self.fail(e),
            (PublishStage::Finding, PublishEventView::Found(Ok(has))) => if has {
                (self.at(PublishStage::Acking), PublishActionView::StoreAck)
            } else {
                (self.at(PublishStage::Publishing), PublishActionView::Publish)
            },
            (PublishStage::Publishing, PublishEventView::Published(fault)) => match fault {
                Some(e) => self.fail(e),
                None => (self.at(PublishStage::Acking), PublishActionView::StoreAck),
            },
            (PublishStage::Acking, PublishEventView::AckStored(fault)) => match fault {
                Some(words) => self.fail(FinalizeErrorView::Bridge(words)),
                None => (self.at(PublishStage::Done), PublishActionView::Complete),
            },
            _ => (self, PublishActionView::Ignore),
        }
    }
}

impl PublishFlow {
    /// Begins the publication of the event of a journal record.
    pub fn new(topic: String, has_broker: bool) -> (flow: PublishFlow)
        ensures
            flow@ == (PublishView { topic: topic@, has_broker, stage: PublishStage::Reading }),
    {
        PublishFlow { topic, has_broker, stage: PublishStage::Reading }
    }

    /// Ends by a failure.
    fn fail(&mut self, error: FinalizeError) -> (action: PublishAction)
        ensures
            (final(self)@, action@) == old(self)@.fail(error@),
    {
        self.stage = PublishStage::Done;
        PublishAction::Fail(error)
    }

    /// Goes on to a stage.
    fn go(&mut self, stage: PublishStage, action: PublishAction) -> (taken: PublishAction)
        ensures
            (final(self)@, taken@) == (old(self)@.at(stage), action@),
    {
        self.stage = stage;
        action
    }

    /// Takes one step of the publication.
    pub fn step(&mut self, event: PublishEvent) -> (action: PublishAction)
        ensures
            (final(self)@, action@) == old(self)@.next(event@),
    {
        match event {
            PublishEvent::AckRead(read) => {
                if self.stage == PublishStage::Reading {
                    return match read {
                        Err(words) => self.fail(FinalizeError::Bridge(words)),
                        Ok(Some(topic)) => {
                            if text::same_text(topic.as_str(), self.topic.as_str()) {
                                self.go(PublishStage::Done, PublishAction::Complete)
                            } else {
                                self.fail(
                                    FinalizeError::Bridge(
                                        "broker acknowledgment topic does not match active event".to_owned(),
                                    ),
                                )
                            }
                        },
                        Ok(None) => {
                            if self.has_broker {
                                self.go(PublishStage::Finding, PublishAction::Find)
                            } else {
                                self.fail(
                                    FinalizeError::Bridge(
                                        "unacknowledged active event has no configured broker".to_owned(),
                                    ),
                                )
                            }
                        },
                    };
                }
            },
            PublishEvent::Found(found) => {
                if self.stage == PublishStage::Finding {
                    return match found {
                        Err(e) => self.fail(e),
                        Ok(true) => self.go(PublishStage::Acking, PublishAction::StoreAck),
                        Ok(false) => self.go(PublishStage::Publishing, PublishAction::Publish),
                    };
                }
            },
            PublishEvent::Published(outcome) => {
                if self.stage == PublishStage::Publishing {
                    return match outcome {
                        Err(e) => self.fail(e),
                        Ok(()) => self.go(PublishStage::Acking, PublishAction::StoreAck),
                    };
                }
            },
            PublishEvent::AckStored(outcome) => {
                if self.stage == PublishStage::Acking {
                    return match outcome {
                        Err(words) => self.fail(FinalizeError::Bridge(words)),
                        Ok(()) => self.go(PublishStage::Done, PublishAction::Complete),
                    };
                }
            },
        }
        PublishAction::Ignore
    }
}

/// An event that is acknowledged is never published again.
pub proof fn law_acknowledged_events_rest(flow: PublishView, event: PublishEventView)
    requires
        flow.stage == PublishStage::Reading,
    ensures
        event == PublishEventView::AckRead(Ok(Some(flow.topic))) ==> flow.next(event) == (
            flow.at(PublishStage::Done),
            PublishActionView::Complete,
        ),
        forall|e: PublishEventView|
            (#[trigger] flow.at(PublishStage::Done).next(e)).1 == PublishActionView::Ignore,
{
}

/// A file of the outbox, once it has been looked at.
#[derive(Debug)]
pub enum OutboxFile {
    Unreadable(String),
    /// It is not authentic.
    Malformed(String),
    /// It is of the session whose id has this digest.
    Opened { digest: String, kind: String, acked: bool },
}

/// What is done with a file of the outbox when events are replayed.
#[derive(Clone, Copy, Debug, PartialEq, Eq, Structural)]
pub enum OutboxVerdict {
    SkipUnreadable,
    SkipMalformed,
    /// It does not stand under the name that its contents ask for.
    SkipMisnamed,
    /// The broker has its event.
    Settled,
    /// Its event is to be published, and the acknowledgment stored.
    Publish,
}

/// What is done with a file of the outbox when events are replayed. One that
/// cannot be used never keeps the others from being replayed.
pub open spec fn outbox_verdict(name: Seq<char>, file: OutboxFile) -> OutboxVerdict {
    match file {
        OutboxFile::Unreadable(_) => OutboxVerdict::SkipUnreadable,
        OutboxFile::Malformed(_) => OutboxVerdict::SkipMalformed,
        OutboxFile::Opened { digest, kind, acked } => if name != journal::outbox_name(
            journal::stem_of(digest@),
            kind@,
        ) {
            OutboxVerdict::SkipMisnamed
        } else if acked {
            OutboxVerdict::Settled
        } else {
            OutboxVerdict::Publish
        },
    }
}

/// Decides what is done with a file of the outbox when events are replayed.
pub fn judge_outbox(name: &str, file: &OutboxFile) -> (verdict: OutboxVerdict)
    ensures
        verdict == outbox_verdict(name@, *file),
{
    match file {
        OutboxFile::Unreadable(_) => OutboxVerdict::SkipUnreadable,
        OutboxFile::Malformed(_) => OutboxVerdict::SkipMalformed,
        OutboxFile::Opened { digest, kind, acked } => {
            let wanted: String = journal::lifecycle_outbox_name(digest.as_str(), kind.as_str());
            if !text::same_text(name, wanted.as_str()) {
                OutboxVerdict::SkipMisnamed
            } else if *acked {
                OutboxVerdict::Settled
            } else {
                OutboxVerdict::Publish
            }
        },
    }
}

/// Whether a file of the outbox is removed: only one whose event the broker
/// has. One that cannot be used is a failure here.
pub fn judge_removal(name: &str, file: &OutboxFile) -> (removed: Result<bool, FinalizeError>)
    ensures
        match removed {
            Ok(remove) => file is Opened && outbox_verdict(name@, *file) != OutboxVerdict::SkipMisnamed && remove == (
            outbox_verdict(name@, *file) == OutboxVerdict::Settled),
            Err(e) => e@ == FinalizeErrorView::Bridge(
                match *file {
                    OutboxFile::Unreadable(words) => words@,
                    OutboxFile::Malformed(words) => words@,
                    OutboxFile::Opened { .. } => "lifecycle outbox path does not match authenticated payload"@,
                },
            ) && (file is Opened ==> outbox_verdict(name@, *file) == OutboxVerdict::SkipMisnamed),
        },
{
    match file {
        OutboxFile::Unreadable(words) => Err(FinalizeError::Bridge(words.clone())),
        OutboxFile::Malformed(words) => Err(FinalizeError::Bridge(words.clone())),
        OutboxFile::Opened { .. } => match judge_outbox(name, file) {
            OutboxVerdict::Settled => Ok(true),
            OutboxVerdict::Publish => Ok(false),
            _ => Err(
                FinalizeError::Bridge(
                    "lifecycle outbox path does not match authenticated payload".to_owned(),
                ),
            ),
        },
    }
}

/// What a seal says of a trajectory, and what it should say.
#[derive(Debug)]
pub struct Provenance {
    pub session_id: String,
    /// The digest of the bytes.
    pub digest: String,
}

/// Whether a seal is that of a session and of these bytes.
pub fn check_provenance(actual: &Provenance, expected: &Provenance) -> (checked: Result<(), FinalizeError>)
    ensures
        match checked {
            Ok(()) => actual.session_id@ == expected.session_id@ && actual.digest@ == expected.digest@,
            Err(e) => (actual.session_id@ != expected.session_id@ || actual.digest@ != expected.digest@) && e@
                == FinalizeErrorView::Atif("ATIF provenance does not match artifact bytes and session"@),
        },
{
    if text::same_text(actual.session_id.as_str(), expected.session_id.as_str()) && text::same_text(
        actual.digest.as_str(),
        expected.digest.as_str(),
    ) {
        Ok(())
    } else {
        Err(FinalizeError::Atif("ATIF provenance does not match artifact bytes and session".to_owned()))
    }
}

/// What stands against a receipt, if anything does: it is one of another
/// key, or its signature does not hold. `verified` is the outcome of checking
/// the signature under the key in use.
pub fn verify_configured_receipt(key: &str, configured: &str, verified: Result<(), String>) -> (checked: Result<
    (),
    FinalizeError,
>)
    ensures
        match checked {
            Ok(()) => key@ == configured@ && verified is Ok,
            Err(e) => e@ == FinalizeErrorView::Receipt(
                if key@ != configured@ {
                    "receipt key "@ + headers::debug_text(key@) + " does not match configured key "@
                        + headers::debug_text(configured@)
                } else {
                    verified->Err_0@
                },
            ) && (key@ != configured@ || verified is Err),
        },
{
    if !text::same_text(key, configured) {
        let found: String = text::concat3(
            "receipt key ",
            headers::quoted(key).as_str(),
            " does not match configured key ",
        );
        return Err(FinalizeError::Receipt(text::concat2(found.as_str(), headers::quoted(configured).as_str())));
    }
    match verified {
        Ok(()) => Ok(()),
        Err(words) => Err(FinalizeError::Receipt(words)),
    }
}

/// The emission of an event after a number of events.
pub open spec fn emitted(start: EmitView, events: Seq<EmitEventView>) -> EmitView
    decreases events.len(),
{
    if events.len() == 0 {
        start
    } else {
        emitted(start, events.drop_last()).next(events.last()).0
    }
}

/// What lies behind an emission that stores an acknowledgment.
proof fn lemma_acks_follow_the_broker(start: EmitView, events: Seq<EmitEventView>)
    requires
        start.stage == EmitStage::Opening,
    ensures
        emitted(start, events).stage == EmitStage::Acking ==> events.contains(EmitEventView::Found(Ok(true)))
            || events.contains(EmitEventView::Published(None)),
        emitted(start, events).session_id == start.session_id,
        emitted(start, events).kind == start.kind,
        emitted(start, events).sequence == start.sequence,
    decreases events.len(),
{
    if events.len() > 0 {
        let rest = events.drop_last();
        lemma_acks_follow_the_broker(start, rest);
        assert forall|e: EmitEventView| rest.contains(e) implies events.contains(e) by {
            let i = rest.index_of(e);
            assert(events[i] == e);
        }
        assert(events[events.len() - 1] == events.last());
        assert(events.contains(events.last()));
    }
}

/// The emission of an event is complete only where the broker has it: its
/// outbox, of this session and this kind, is acknowledged, or the broker was
/// found to have it or took it, and the acknowledgment was stored.
pub proof fn law_emissions_end_with_the_broker(start: EmitView, events: Seq<EmitEventView>, event: EmitEventView)
    requires
        start.stage == EmitStage::Opening,
        emitted(start, events).next(event).1 is Complete,
    ensures
        (event matches EmitEventView::OutboxRead(OutboxView::Opened { session_id, kind, acked, .. }) && acked && session_id
            == start.session_id && kind == start.kind) || event == EmitEventView::AckStored(None) && (events.contains(
            EmitEventView::Found(Ok(true)),
        ) || events.contains(EmitEventView::Published(None))),
{
    lemma_acks_follow_the_broker(start, events);
}

/// An event that has no outbox yet is stored under the session's next number;
/// one that has is not made again. An outbox of another session or kind, or
/// one that cannot be read, fails the emission and uses up no number.
pub proof fn law_outboxes_are_taken_up(flow: EmitView, session_id: Seq<char>, kind: Seq<char>, value: JsonTree, acked: bool, words: Seq<char>)
    requires
        flow.stage == EmitStage::Opening,
    ensures
        flow.next(EmitEventView::OutboxRead(OutboxView::Absent)).1 == (EmitActionView::Store { sequence: flow.sequence }),
        flow.next(EmitEventView::OutboxRead(OutboxView::Unreadable(words))).1 == (EmitActionView::Fail {
            advance: None,
            error: FinalizeErrorView::Bridge(words),
            counted: false,
        }),
        session_id != flow.session_id || kind != flow.kind ==> (flow.next(
            EmitEventView::OutboxRead(OutboxView::Opened { session_id, kind, value, acked }),
        ).1 matches EmitActionView::Fail { advance: None, error: FinalizeErrorView::Bridge(_), counted: false }),
        session_id == flow.session_id && kind == flow.kind && acked ==> flow.next(
            EmitEventView::OutboxRead(OutboxView::Opened { session_id, kind, value, acked }),
        ).1 is Complete,
        session_id == flow.session_id && kind == flow.kind && !acked ==> (flow.next(
            EmitEventView::OutboxRead(OutboxView::Opened { session_id, kind, value, acked }),
        ).1 matches EmitActionView::Find { uid, .. } ==> json::member2(value, "metadata"@, "uid"@) == Some(
            JsonTree::Text(uid),
        )),
{
}

/// The broker is asked for an event under the id in its metadata; an event
/// without one is not published.
pub proof fn law_events_are_known_by_their_uid(flow: EmitView, value: JsonTree)
    requires
        flow.stage == EmitStage::Storing,
    ensures
        match json::member2(value, "metadata"@, "uid"@) {
            Some(JsonTree::Text(uid)) => flow.next(EmitEventView::Stored(Ok(value))).1 == (EmitActionView::Find {
                advance: Some(flow.sequence),
                uid,
            }),
            _ => flow.next(EmitEventView::Stored(Ok(value))).1 matches EmitActionView::Fail {
                error: FinalizeErrorView::Bridge(_),
                counted: false,
                ..
            },
        },
{
}

/// A step of an emission that fails ends it by that very failure; only what
/// failed at the broker counts as a failure of the broker.
pub proof fn law_failed_emissions_are_told(flow: EmitView, error: FinalizeErrorView)
    ensures
        flow.stage == EmitStage::Storing ==> flow.next(EmitEventView::Stored(Err(error))).1 == (EmitActionView::Fail {
            advance: None,
            error,
            counted: false,
        }),
        flow.stage == EmitStage::Finding ==> flow.next(EmitEventView::Found(Err(error))).1 == (EmitActionView::Fail {
            advance: None,
            error,
            counted: true,
        }),
        flow.stage == EmitStage::Publishing ==> flow.next(EmitEventView::Published(Some(error))).1 == (
        EmitActionView::Fail { advance: None, error, counted: true }),
        flow.stage == EmitStage::Acking ==> flow.next(EmitEventView::AckStored(Some(error))).1 == (EmitActionView::Fail {
            advance: None,
            error,
            counted: false,
        }),
{
}

/// An event that the broker lacks is published, one that it has is
/// acknowledged, and either way the acknowledgment comes last.
pub proof fn law_emissions_go_on(flow: EmitView)
    ensures
        flow.stage == EmitStage::Finding ==> flow.next(EmitEventView::Found(Ok(false))).1 == EmitActionView::Publish,
        flow.stage == EmitStage::Finding ==> flow.next(EmitEventView::Found(Ok(true))).1 == EmitActionView::StoreAck,
        flow.stage == EmitStage::Publishing ==> flow.next(EmitEventView::Published(None)).1 == EmitActionView::StoreAck,
        flow.stage == EmitStage::Acking ==> flow.next(EmitEventView::AckStored(None)).1 == (EmitActionView::Complete {
            advance: None,
        }),
{
}

/// The event of a journal record counts as published only where it is
/// acknowledged for its own topic, or the broker has it and the
/// acknowledgment was stored.
pub proof fn law_records_are_published_for_their_topic(flow: PublishView, event: PublishEventView)
    ensures
        flow.next(event).1 == PublishActionView::Complete ==> event == PublishEventView::AckRead(Ok(Some(flow.topic)))
            || flow.stage == PublishStage::Acking && event == PublishEventView::AckStored(None),
        flow.next(event).1 == PublishActionView::StoreAck ==> event == PublishEventView::Found(Ok(true)) || event
            == PublishEventView::Published(None),
        flow.next(event).1 == PublishActionView::Publish ==> flow.stage == PublishStage::Finding && event
            == PublishEventView::Found(Ok(false)),
        flow.next(event).1 == PublishActionView::Find ==> flow.has_broker && event == PublishEventView::AckRead(Ok(None)),
{
}

/// A record that is not acknowledged is looked for at the broker and
/// published where it is missing; without a broker that fails.
pub proof fn law_unacknowledged_records_are_published(flow: PublishView, topic: Seq<char>, words: Seq<char>, error: FinalizeErrorView)
    ensures
        flow.stage == PublishStage::Reading && flow.has_broker ==> flow.next(PublishEventView::AckRead(Ok(None))).1
            == PublishActionView::Find,
        flow.stage == PublishStage::Reading && !flow.has_broker ==> (flow.next(PublishEventView::AckRead(Ok(None))).1
            matches PublishActionView::Fail(FinalizeErrorView::Bridge(_))),
        flow.stage == PublishStage::Reading && topic != flow.topic ==> (flow.next(
            PublishEventView::AckRead(Ok(Some(topic))),
        ).1 matches PublishActionView::Fail(FinalizeErrorView::Bridge(_))),
        flow.stage == PublishStage::Reading ==> flow.next(PublishEventView::AckRead(Err(words))).1
            == PublishActionView::Fail(FinalizeErrorView::Bridge(words)),
        flow.stage == PublishStage::Finding ==> flow.next(PublishEventView::Found(Ok(false))).1
            == PublishActionView::Publish && flow.next(PublishEventView::Found(Ok(true))).1 == PublishActionView::StoreAck
            && flow.next(PublishEventView::Found(Err(error))).1 == PublishActionView::Fail(error),
        flow.stage == PublishStage::Publishing ==> flow.next(PublishEventView::Published(None)).1
            == PublishActionView::StoreAck && flow.next(PublishEventView::Published(Some(error))).1
            == PublishActionView::Fail(error),
        flow.stage == PublishStage::Acking ==> flow.next(PublishEventView::AckStored(None)).1 == PublishActionView::Complete
            && flow.next(PublishEventView::AckStored(Some(words))).1 == PublishActionView::Fail(
            FinalizeErrorView::Bridge(words),
        ),
{
}

/// Only a file of the outbox that is authentic, stands under its own name
/// and is not acknowledged is published again.
pub proof fn law_only_open_outboxes_are_replayed(name: Seq<char>, file: OutboxFile)
    ensures
        outbox_verdict(name, file) == OutboxVerdict::Publish || outbox_verdict(name, file) == OutboxVerdict::Settled
            <==> (file matches OutboxFile::Opened { digest, kind, .. } && name == journal::outbox_name(
            journal::stem_of(digest@),
            kind@,
        )),
        outbox_verdict(name, file) == OutboxVerdict::Publish ==> (file matches OutboxFile::Opened { acked, .. } && !acked),
        outbox_verdict(name, file) == OutboxVerdict::Settled ==> (file matches OutboxFile::Opened { acked, .. } && acked),
        outbox_verdict(name, file) == OutboxVerdict::SkipUnreadable <==> file is Unreadable,
        outbox_verdict(name, file) == OutboxVerdict::SkipMalformed <==> file is Malformed,
{
}

/// An emission that meets no obstacle goes all the way: the event is stored,
/// looked for at the broker, published and acknowledged.
pub proof fn law_smooth_emissions_go_all_the_way(session_id: Seq<char>, kind: Seq<char>, sequence: u64, value: JsonTree, uid: Seq<char>)
    requires
        json::member2(value, "metadata"@, "uid"@) == Some(JsonTree::Text(uid)),
    ensures
        ({
            let s0 = EmitView { session_id, kind, sequence, stage: EmitStage::Opening };
            let (s1, a1) = s0.next(EmitEventView::OutboxRead(OutboxView::Absent));
            let (s2, a2) = s1.next(EmitEventView::Stored(Ok(value)));
            let (s3, a3) = s2.next(EmitEventView::Found(Ok(false)));
            let (s4, a4) = s3.next(EmitEventView::Published(None));
            let (s5, a5) = s4.next(EmitEventView::AckStored(None));
            &&& a1 == (EmitActionView::Store { sequence })
            &&& a2 == (EmitActionView::Find { advance: Some(sequence), uid })
            &&& a3 == EmitActionView::Publish
            &&& a4 == EmitActionView::StoreAck
            &&& a5 == (EmitActionView::Complete { advance: None })
            &&& s5.stage == EmitStage::Done
            &&& s2.next(EmitEventView::Found(Ok(true))) == (s4, a4)
            &&& s0.next(EmitEventView::OutboxRead(OutboxView::Opened { session_id, kind, value, acked: false })).0 == s2
        }),
{
}

/// A publication that meets no obstacle goes all the way.
pub proof fn law_smooth_publications_go_all_the_way(topic: Seq<char>)
    ensures
        ({
            let s0 = PublishView { topic, has_broker: true, stage: PublishStage::Reading };
            let (s1, a1) = s0.next(PublishEventView::AckRead(Ok(None)));
            let (s2, a2) = s1.next(PublishEventView::Found(Ok(false)));
            let (s3, a3) = s2.next(PublishEventView::Published(None));
            let (s4, a4) = s3.next(PublishEventView::AckStored(None));
            &&& a1 == PublishActionView::Find && a2 == PublishActionView::Publish && a3 == PublishActionView::StoreAck
            &&& a4 == PublishActionView::Complete && s4.stage == PublishStage::Done
            &&& s1.next(PublishEventView::Found(Ok(true))) == (s3, a3)
        }),
{
}

/// What has ended does nothing more, however it ended.
pub proof fn law_ended_publications_rest(emit: EmitView, event: EmitEventView, publish: PublishView, other: PublishEventView)
    ensures
        emit.next(event).1 is Fail || emit.next(event).1 is Complete ==> emit.next(event).0.stage == EmitStage::Done,
        emit.stage == EmitStage::Done ==> emit.next(event) == (emit, EmitActionView::Ignore),
        publish.next(other).1 is Fail || publish.next(other).1 == PublishActionView::Complete ==> publish.next(other).0.stage
            == PublishStage::Done,
        publish.stage == PublishStage::Done ==> publish.next(other) == (publish, PublishActionView::Ignore),
{
}

/// An event is known by the id in its metadata, and counted by the sequence
/// number there; one without an id cannot be published.
pub proof fn law_events_are_known_by_their_metadata(metadata: JsonTree, uid: Seq<char>, value: JsonTree)
    ensures
        json::member(value, "metadata"@) == Some(metadata) && json::member(metadata, "uid"@) == Some(JsonTree::Text(uid))
            ==> event_uid(value) == Ok::<Seq<char>, FinalizeErrorView>(uid),
        json::member(value, "metadata"@) is None ==> event_uid(value) == Err::<Seq<char>, FinalizeErrorView>(
            FinalizeErrorView::Bridge("lifecycle event has no metadata UID"@),
        ) && event_sequence(value) is None,
        json::member(value, "metadata"@) == Some(metadata) && json::member(metadata, "uid"@) is None ==> event_uid(value)
            == Err::<Seq<char>, FinalizeErrorView>(
            FinalizeErrorView::Bridge("lifecycle event has no metadata UID"@),
        ),
        json::member(value, "metadata"@) == Some(metadata) ==> event_sequence(value) == json::unsigned_in(
            json::member(metadata, "sequence"@),
        ),
{
}

/// An emission that meets the outbox of another session or kind, and a
/// publication whose acknowledgment is for another topic or that has no broker
/// to go to, fail for that.
pub proof fn law_refused_publications_are_told_why(
    emission: EmitView,
    publication: PublishView,
    session_id: Seq<char>,
    kind: Seq<char>,
    value: JsonTree,
    acked: bool,
    topic: Seq<char>,
)
    ensures
        emission.stage == EmitStage::Opening && (session_id != emission.session_id || kind != emission.kind)
            ==> emission.next(EmitEventView::OutboxRead(OutboxView::Opened { session_id, kind, value, acked })).1 == (
        EmitActionView::Fail {
            advance: None,
            error: FinalizeErrorView::Bridge("lifecycle outbox does not match its session and kind"@),
            counted: false,
        }),
        publication.stage == PublishStage::Reading && topic != publication.topic ==> publication.next(
            PublishEventView::AckRead(Ok(Some(topic))),
        ).1 == PublishActionView::Fail(
            FinalizeErrorView::Bridge("broker acknowledgment topic does not match active event"@),
        ),
        publication.stage == PublishStage::Reading && !publication.has_broker ==> publication.next(
            PublishEventView::AckRead(Ok(None)),
        ).1 == PublishActionView::Fail(
            FinalizeErrorView::Bridge("unacknowledged active event has no configured broker"@),
        ),
{
}

} // verus!
