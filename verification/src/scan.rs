//! The scan of the spool for trajectories of closed unsigned sessions, and
//! the sessions with incomplete effects.
//!
//! A file that cannot be used is skipped: it never keeps the scan from the
//! others.

use vstd::prelude::*;
use crate::errors::{FinalizeError, FinalizeErrorView};
use crate::json;
use crate::json::{Json, JsonTree};
use crate::recovery;
use crate::recovery::{ReceiptOnDisk, ReceiptView};
use crate::session::{AgentIdentity, IdentityView};
use crate::text;
use crate::text_set::TextSet;

verus! {

/// Most bytes of a trajectory that the scan reads.
pub const MAX_ATIF_RECOVERY_BYTES: u64 = 268435456;

/// Why a file is skipped.
#[derive(Clone, Copy, Debug, PartialEq, Eq, Structural)]
pub enum SkipReason {
    /// Its size cannot be found out.
    NoMetadata,
    TooLarge,
    ReadError,
    InvalidJson,
    Nonconformant,
    /// It names no session.
    NoSession,
    /// It carries no seal.
    Unauthenticated,
    /// Its seal does not hold.
    Provenance,
    /// Its session is active.
    Active,
}

impl SkipReason {
    /// The label under which a skipped file is counted, where it is.
    pub open spec fn spec_label(self) -> Option<Seq<char>> {
        match self {
            SkipReason::TooLarge => Some("too_large"@),
            SkipReason::ReadError => Some("read_error"@),
            SkipReason::InvalidJson => Some("invalid_json"@),
            SkipReason::Nonconformant => Some("nonconformant"@),
            SkipReason::Unauthenticated => Some("unauthenticated"@),
            SkipReason::Provenance => Some("provenance"@),
            _ => None,
        }
    }

    /// The label under which a skipped file is counted.
    pub fn label(self) -> (label: Option<&'static str>)
        ensures
            match label {
                Some(word) => self.spec_label() == Some(word@),
                None => self.spec_label() is None,
            },
    {
        match self {
            SkipReason::TooLarge => Some("too_large"),
            SkipReason::ReadError => Some("read_error"),
            SkipReason::InvalidJson => Some("invalid_json"),
            SkipReason::Nonconformant => Some("nonconformant"),
            SkipReason::Unauthenticated => Some("unauthenticated"),
            SkipReason::Provenance => Some("provenance"),
            _ => None,
        }
    }

    /// Whether a file is warned about once only, however often the scan
    /// meets it.
    pub fn warns_once(self) -> (once: bool)
        ensures
            once == (self == SkipReason::Unauthenticated || self == SkipReason::Provenance),
    {
        self == SkipReason::Unauthenticated || self == SkipReason::Provenance
    }
}

/// What a trajectory says of its session.
#[derive(Debug)]
pub struct TrajectoryFacts {
    /// Whether it is valid by the strict rules.
    pub conformant: bool,
    pub session_id: Option<String>,
    /// The version of the agent.
    pub version: String,
    /// What else the trajectory says of the agent.
    pub extra: Option<Json>,
    /// The charter in it, where it is a charter file.
    pub charter: Option<String>,
    /// The metrics at its end.
    pub metrics: Option<Json>,
}

/// A [`TrajectoryFacts`] by its contents.
#[verifier::ext_equal]
pub struct TrajectoryView {
    pub conformant: bool,
    pub session_id: Option<Seq<char>>,
    pub version: Seq<char>,
    pub extra: Option<JsonTree>,
    pub charter: Option<Seq<char>>,
    pub metrics: Option<JsonTree>,
}

impl View for TrajectoryFacts {
    type V = TrajectoryView;

    open spec fn view(&self) -> TrajectoryView {
        TrajectoryView {
            conformant: self.conformant,
            session_id: text::opt_text(self.session_id),
            version: self.version@,
            extra: match self.extra {
                Some(document) => Some(document@),
                None => None,
            },
            charter: text::opt_text(self.charter),
            metrics: match self.metrics {
                Some(document) => Some(document@),
                None => None,
            },
        }
    }
}

/// A part of what a trajectory says of its agent.
pub open spec fn extra_part(t: TrajectoryView, key: Seq<char>) -> Option<JsonTree> {
    match t.extra {
        Some(extra) => json::member(extra, key),
        None => None,
    }
}

/// A text, or `recovered` where there is none.
pub open spec fn or_recovered(s: Option<Seq<char>>) -> Seq<char> {
    match s {
        Some(found) => found,
        None => "recovered"@,
    }
}

/// The agent of a recovered session.
pub open spec fn recovered_agent(t: TrajectoryView) -> IdentityView {
    IdentityView {
        version: t.version,
        charter: or_recovered(
            if t.charter is Some {
                t.charter
            } else {
                json::text_in(extra_part(t, "charter"@))
            },
        ),
        instance_uid: or_recovered(json::text_in(extra_part(t, "instance_uid"@))),
        ttl_remaining_s: json::unsigned_in(extra_part(t, "ttl_remaining_s"@)),
    }
}

/// A part of what a trajectory says of its agent.
fn find_part<'a>(t: &'a TrajectoryFacts, key: &str) -> (part: Option<&'a Json>)
    ensures
        json::tree_at(part) == extra_part(t@, key@),
{
    match &t.extra {
        Some(extra) => extra.get(key),
        None => None,
    }
}

/// A text, or `recovered` where there is none.
fn recovered_text(s: Option<String>) -> (found: String)
    ensures
        found@ == or_recovered(text::opt_text(s)),
{
    match s {
        Some(found) => found,
        None => "recovered".to_owned(),
    }
}

/// The agent of a recovered session.
pub fn recovered_identity(t: &TrajectoryFacts) -> (identity: AgentIdentity)
    ensures
        identity@ == recovered_agent(t@),
{
    let charter: Option<String> = match &t.charter {
        Some(charter) => Some(charter.clone()),
        None => json::as_text(find_part(t, "charter")),
    };
    AgentIdentity {
        version: t.version.clone(),
        charter: recovered_text(charter),
        instance_uid: recovered_text(json::as_text(find_part(t, "instance_uid"))),
        ttl_remaining_s: json::as_unsigned(find_part(t, "ttl_remaining_s")),
    }
}

/// Where the scan of one file stands.
#[derive(Clone, Copy, Debug, PartialEq, Eq, Structural)]
pub enum ScanStage {
    Sizing,
    Reading,
    Parsing,
    /// The seal is being looked for.
    Sealing,
    /// The seal is being verified.
    Verifying,
    Looking,
    Restoring,
    /// The receipt is being looked for.
    Attesting,
    Done,
}

/// What happens in the scan of one file.
#[derive(Debug)]
pub enum ScanEvent {
    /// The size of the file.
    Sized(Result<u64, String>),
    Read(Result<(), String>),
    Parsed(Result<TrajectoryFacts, String>),
    SealFound(bool),
    SealVerified(Result<(), FinalizeError>),
    Looked { active: bool },
    /// Whether the session was put back, rather than found active.
    Restored(Result<bool, String>),
    /// The receipt, and whether a promotion is still marked.
    ReceiptRead { found: ReceiptOnDisk, promoting: bool },
}

/// What the scan of one file wants done.
#[derive(Debug)]
pub enum ScanAction {
    /// Nothing: this is not what is being waited for.
    Ignore,
    Read,
    Parse,
    FindSeal,
    VerifySeal,
    /// Look for the session of this id among the active ones.
    Look(String),
    /// Put the session back, closed, with this agent; its trajectory stands
    /// under this path and ends with these metrics.
    Restore { agent: AgentIdentity, path: String, metrics: Option<Json> },
    ReadReceipt,
    Skip(SkipReason),
    /// The session is recovered: it has no receipt, or one whose promotion
    /// is still to be completed, or one that is final.
    Recovered { receipt: bool, pending: bool },
    /// The whole scan fails.
    Abort(FinalizeError),
}

/// The scan of one file.
#[derive(Debug)]
pub struct FileScan {
    /// The path of the file.
    path: String,
    stage: ScanStage,
    /// What the file says, once it is read.
    facts: Option<TrajectoryFacts>,
}

/// A [`FileScan`] by its contents.
#[verifier::ext_equal]
pub struct ScanView {
    pub path: Seq<char>,
    pub stage: ScanStage,
    pub facts: Option<TrajectoryView>,
}

/// A [`ScanEvent`] by its contents.
pub enum ScanEventView {
    Sized(Result<u64, Seq<char>>),
    Read(bool),
    Parsed(Option<TrajectoryView>),
    SealFound(bool),
    SealVerified(bool),
    Looked { active: bool },
    Restored(Result<bool, Seq<char>>),
    ReceiptRead { found: ReceiptView, promoting: bool },
}

/// A [`ScanAction`] by its contents.
#[verifier::ext_equal]
pub enum ScanActionView {
    Ignore,
    Read,
    Parse,
    FindSeal,
    VerifySeal,
    Look(Seq<char>),
    Restore { agent: IdentityView, path: Seq<char>, metrics: Option<JsonTree> },
    ReadReceipt,
    Skip(SkipReason),
    Recovered { receipt: bool, pending: bool },
    Abort(FinalizeErrorView),
}

impl View for FileScan {
    type V = ScanView;

    closed spec fn view(&self) -> ScanView {
        ScanView {
            path: self.path@,
            stage: self.stage,
            facts: match self.facts {
                Some(t) => Some(t@),
                None => None,
            },
        }
    }
}

impl View for ScanEvent {
    type V = ScanEventView;

    open spec fn view(&self) -> ScanEventView {
        match self {
            ScanEvent::Sized(Ok(n)) => ScanEventView::Sized(Ok(*n)),
            ScanEvent::Sized(Err(words)) => ScanEventView::Sized(Err(words@)),
            ScanEvent::Read(outcome) => ScanEventView::Read(*outcome is Ok),
            ScanEvent::Parsed(Ok(t)) => ScanEventView::Parsed(Some(t@)),
            ScanEvent::Parsed(Err(_)) => ScanEventView::Parsed(None),
            ScanEvent::SealFound(found) => ScanEventView::SealFound(*found),
            ScanEvent::SealVerified(outcome) => ScanEventView::SealVerified(*outcome is Ok),
            ScanEvent::Looked { active } => ScanEventView::Looked { active: *active },
            ScanEvent::Restored(Ok(fresh)) => ScanEventView::Restored(Ok(*fresh)),
            ScanEvent::Restored(Err(words)) => ScanEventView::Restored(Err(words@)),
            ScanEvent::ReceiptRead { found, promoting } => ScanEventView::ReceiptRead {
                found: found@,
                promoting: *promoting,
            },
        }
    }
}

impl View for ScanAction {
    type V = ScanActionView;

    open spec fn view(&self) -> ScanActionView {
        match self {
            ScanAction::Ignore => ScanActionView::Ignore,
            ScanAction::Read => ScanActionView::Read,
            ScanAction::Parse => ScanActionView::Parse,
            ScanAction::FindSeal => ScanActionView::FindSeal,
            ScanAction::VerifySeal => ScanActionView::VerifySeal,
            ScanAction::Look(id) => ScanActionView::Look(id@),
            ScanAction::Restore { agent, path, metrics } => ScanActionView::Restore {
                agent: agent@,
                path: path@,
                metrics: match metrics {
                    Some(document) => Some(document@),
                    None => None,
                },
            },
            ScanAction::ReadReceipt => ScanActionView::ReadReceipt,
            ScanAction::Skip(reason) => ScanActionView::Skip(*reason),
            ScanAction::Recovered { receipt, pending } => ScanActionView::Recovered {
                receipt: *receipt,
                pending: *pending,
            },
            ScanAction::Abort(e) => ScanActionView::Abort(e@),
        }
    }
}

impl ScanView {
    /// A state is well formed when what the file says is known once it is
    /// needed, and the file names a session.
    pub open spec fn wf(self) -> bool {
        match self.stage {
            ScanStage::Sealing | ScanStage::Verifying | ScanStage::Looking => self.facts is Some
                && self.facts->0.session_id is Some,
            _ => true,
        }
    }

    /// The state at another stage.
    pub open spec fn at(self, stage: ScanStage) -> ScanView {
        ScanView { stage, ..self }
    }

    /// The end of a file that is skipped.
    pub open spec fn skip(self, reason: SkipReason) -> (ScanView, ScanActionView) {
        (self.at(ScanStage::Done), ScanActionView::Skip(reason))
    }

    /// What becomes of the scan of a file when something happens, and what
    /// is to be done.
    pub open spec fn next(self, event: ScanEventView) -> (ScanView, ScanActionView) {
        match (self.stage, event) {
            (ScanStage::Sizing, ScanEventView::Sized(Err(_))) => self.skip(SkipReason::NoMetadata),
            (ScanStage::Sizing, ScanEventView::Sized(Ok(size))) => if size > MAX_ATIF_RECOVERY_BYTES {
                self.skip(SkipReason::TooLarge)
            } else {
                (self.at(ScanStage::Reading), ScanActionView::Read)
            },
            (ScanStage::Reading, ScanEventView::Read(read)) => if read {
                (self.at(ScanStage::Parsing), ScanActionView::Parse)
            } else {
                self.skip(SkipReason::ReadError)
            },
            (ScanStage::Parsing, ScanEventView::Parsed(None)) => self.skip(SkipReason::InvalidJson),
            (ScanStage::Parsing, ScanEventView::Parsed(Some(t))) => if !t.conformant {
                self.skip(SkipReason::Nonconformant)
            } else if t.session_id is None {
                self.skip(SkipReason::NoSession)
            } else {
                (ScanView { stage: ScanStage::Sealing, facts: Some(t), ..self }, ScanActionView::FindSeal)
            },
            (ScanStage::Sealing, ScanEventView::SealFound(found)) => if found {
                (self.at(ScanStage::Verifying), ScanActionView::VerifySeal)
            } else {
                self.skip(SkipReason::Unauthenticated)
            },
            (ScanStage::Verifying, ScanEventView::SealVerified(holds)) => if holds {
                (self.at(ScanStage::Looking), ScanActionView::Look(self.facts->0.session_id->0))
            } else {
                self.skip(SkipReason::Provenance)
            },
            (ScanStage::Looking, ScanEventView::Looked { active }) => if active {
                self.skip(SkipReason::Active)
            } else {
                (
                    self.at(ScanStage::Restoring),
                    ScanActionView::Restore {
                        agent: recovered_agent(self.facts->0),
                        path: self.path,
                        metrics: self.facts->0.metrics,
                    },
                )
            },
            (ScanStage::Restoring, ScanEventView::Restored(Err(words))) => (
                self.at(ScanStage::Done),
                ScanActionView::Abort(FinalizeErrorView::Atif(words)),
            ),
            (ScanStage::Restoring, ScanEventView::Restored(Ok(fresh))) => if fresh {
                (self.at(ScanStage::Attesting), ScanActionView::ReadReceipt)
            } else {
                self.skip(SkipReason::Active)
            },
            (ScanStage::Attesting, ScanEventView::ReceiptRead { found, promoting }) => (
                self.at(ScanStage::Done),
                match recovery::found_receipt(found) {
                    Err(e) => ScanActionView::Abort(e),
                    Ok(subject) => ScanActionView::Recovered {
                        receipt: subject is Some,
                        pending: subject is Some && promoting,
                    },
                },
            ),
            _ => (self, ScanActionView::Ignore),
        }
    }
}

impl FileScan {
    /// Begins the scan of a file.
    pub fn new(path: String) -> (scan: FileScan)
        ensures
            scan@ == (ScanView { path: path@, stage: ScanStage::Sizing, facts: None }),
            scan@.wf(),
    {
        FileScan { path, stage: ScanStage::Sizing, facts: None }
    }

    /// Skips the file.
    fn skip(&mut self, reason: SkipReason) -> (action: ScanAction)
        ensures
            (final(self)@, action@) == old(self)@.skip(reason),
            final(self)@.wf(),
    {
        self.stage = ScanStage::Done;
        ScanAction::Skip(reason)
    }

    /// Looks at what the file says.
    fn step_parsed(&mut self, parsed: Result<TrajectoryFacts, String>) -> (action: ScanAction)
        requires
            old(self)@.stage == ScanStage::Parsing,
        ensures
            (final(self)@, action@) == old(self)@.next(ScanEvent::Parsed(parsed)@),
            final(self)@.wf(),
    {
        match parsed {
            Err(_) => self.skip(SkipReason::InvalidJson),
            Ok(t) => {
                if !t.conformant {
                    self.skip(SkipReason::Nonconformant)
                } else if t.session_id.is_none() {
                    self.skip(SkipReason::NoSession)
                } else {
                    self.facts = Some(t);
                    self.stage = ScanStage::Sealing;
                    ScanAction::FindSeal
                }
            },
        }
    }

    /// Takes one step of the scan of a file.
    pub fn step(&mut self, event: ScanEvent) -> (action: ScanAction)
        requires
            old(self)@.wf(),
        ensures
            (final(self)@, action@) == old(self)@.next(event@),
            final(self)@.wf(),
    {
        match event {
            ScanEvent::Sized(size) => {
                if self.stage == ScanStage::Sizing {
                    return match size {
                        Err(_) => self.skip(SkipReason::NoMetadata),
                        Ok(n) => {
                            if n > MAX_ATIF_RECOVERY_BYTES {
                                self.skip(SkipReason::TooLarge)
                            } else {
                                self.stage = ScanStage::Reading;
                                ScanAction::Read
                            }
                        },
                    };
                }
            },
            ScanEvent::Read(outcome) => {
                if self.stage == ScanStage::Reading {
                    return match outcome {
                        Ok(()) => {
                            self.stage = ScanStage::Parsing;
                            ScanAction::Parse
                        },
                        Err(_) => self.skip(SkipReason::ReadError),
                    };
                }
            },
            ScanEvent::Parsed(parsed) => {
                if self.stage == ScanStage::Parsing {
                    return self.step_parsed(parsed);
                }
            },
            ScanEvent::SealFound(found) => {
                if self.stage == ScanStage::Sealing {
                    if found {
                        self.stage = ScanStage::Verifying;
                        return ScanAction::VerifySeal;
                    }
                    return self.skip(SkipReason::Unauthenticated);
                }
            },
            ScanEvent::SealVerified(outcome) => {
                if self.stage == ScanStage::Verifying {
                    if outcome.is_err() {
                        return self.skip(SkipReason::Provenance);
                    }
                    let id: Option<String> = match &self.facts {
                        Some(t) => text::copy_opt(&t.session_id),
                        None => None,
                    };
                    if let Some(id) = id {
                        self.stage = ScanStage::Looking;
                        return ScanAction::Look(id);
                    }
                }
            },
            ScanEvent::Looked { active } => {
                if self.stage == ScanStage::Looking {
                    if active {
                        return self.skip(SkipReason::Active);
                    }
                    if let Some(t) = &self.facts {
                        let agent: AgentIdentity = recovered_identity(t);
                        let metrics: Option<Json> = match &t.metrics {
                            Some(document) => Some(document.copy()),
                            None => None,
                        };
                        let path: String = self.path.clone();
                        self.stage = ScanStage::Restoring;
                        return ScanAction::Restore { agent, path, metrics };
                    }
                }
            },
            ScanEvent::Restored(outcome) => {
                if self.stage == ScanStage::Restoring {
                    return match outcome {
                        Err(words) => {
                            self.stage = ScanStage::Done;
                            ScanAction::Abort(FinalizeError::Atif(words))
                        },
                        Ok(true) => {
                            self.stage = ScanStage::Attesting;
                            ScanAction::ReadReceipt
                        },
                        Ok(false) => self.skip(SkipReason::Active),
                    };
                }
            },
            ScanEvent::ReceiptRead { found, promoting } => {
                if self.stage == ScanStage::Attesting {
                    self.stage = ScanStage::Done;
                    return match recovery::check_receipt(found) {
                        Err(e) => ScanAction::Abort(e),
                        Ok(subject) => {
                            let receipt: bool = subject.is_some();
                            ScanAction::Recovered { receipt, pending: receipt && promoting }
                        },
                    };
                }
            },
        }
        ScanAction::Ignore
    }
}

/// A scan of a file after a number of events.
pub open spec fn run(path: Seq<char>, events: Seq<ScanEventView>) -> ScanView
    decreases events.len(),
{
    if events.len() == 0 {
        ScanView { path, stage: ScanStage::Sizing, facts: None }
    } else {
        run(path, events.drop_last()).next(events.last()).0
    }
}

/// No session is restored from a trajectory that is too large, invalid or
/// without a seal that holds.
pub proof fn law_only_sealed_trajectories_are_restored(
    path: Seq<char>,
    events: Seq<ScanEventView>,
    event: ScanEventView,
)
    requires
        run(path, events).next(event).1 is Restore,
    ensures
        run(path, events).facts is Some,
        run(path, events).facts->0.conformant,
        exists|i: int| 0 <= i < events.len() && #[trigger] events[i] == ScanEventView::SealVerified(true),
        exists|i: int|
            0 <= i < events.len() && (#[trigger] events[i] matches ScanEventView::Sized(Ok(n)) && n
                <= MAX_ATIF_RECOVERY_BYTES),
{
    lemma_scan(path, events);
}

/// What lies behind a scan at each stage.
proof fn lemma_scan(path: Seq<char>, events: Seq<ScanEventView>)
    ensures
        ({
            let s = run(path, events);
            let sized = exists|i: int|
                0 <= i < events.len() && (#[trigger] events[i] matches ScanEventView::Sized(Ok(n)) && n
                    <= MAX_ATIF_RECOVERY_BYTES);
            let verified = exists|i: int|
                0 <= i < events.len() && #[trigger] events[i] == ScanEventView::SealVerified(true);
            match s.stage {
                ScanStage::Sizing | ScanStage::Done => true,
                ScanStage::Reading | ScanStage::Parsing => sized,
                ScanStage::Sealing | ScanStage::Verifying => sized && s.facts is Some && s.facts->0.conformant,
                ScanStage::Looking | ScanStage::Restoring | ScanStage::Attesting => sized && verified && s.facts is Some
                    && s.facts->0.conformant,
            }
        }),
    decreases events.len(),
{
    if events.len() > 0 {
        let rest = events.drop_last();
        lemma_scan(path, rest);
        assert forall|i: int| 0 <= i < rest.len() implies #[trigger] rest[i] == events[i] by {}
        assert(events[events.len() - 1] == events.last());
    }
}

/// The sessions with incomplete effects: those of the found ones that are not
/// active join the known ones.
pub open spec fn quarantined_with(known: Set<Seq<char>>, found: Seq<(Seq<char>, bool)>) -> Set<Seq<char>>
    decreases found.len(),
{
    if found.len() == 0 {
        known
    } else {
        let before = quarantined_with(known, found.drop_last());
        if found.last().1 {
            before
        } else {
            before.insert(found.last().0)
        }
    }
}

/// The found sessions by their ids, each with whether it is active.
pub open spec fn found_view(found: Seq<(String, bool)>) -> Seq<(Seq<char>, bool)> {
    found.map_values(|f: (String, bool)| (f.0@, f.1))
}

/// Adds the sessions with incomplete effects to the known ones, except for
/// active ones, which may still complete theirs. `found` tells of each
/// session whether it is active. Returns whether any of them is new.
pub fn quarantine(known: &mut TextSet, found: &Vec<(String, bool)>) -> (new: bool)
    ensures
        final(known)@ == quarantined_with(old(known)@, found_view(found@)),
        new == (final(known)@ != old(known)@),
{
    let ghost start = known@;
    let ghost all = found_view(found@);
    let mut new: bool = false;
    let mut i: usize = 0;
    assert(all.take(0) =~= Seq::empty());
    while i < found.len()
        invariant
            i <= found@.len(),
            all == found_view(found@),
            known@ == quarantined_with(start, all.take(i as int)),
            start.subset_of(known@),
            new == (known@ != start),
        decreases found.len() - i,
    {
        proof {
            assert(all.take(i + 1).drop_last() =~= all.take(i as int));
            assert(all.take(i + 1).last() == (found@[i as int].0@, found@[i as int].1));
        }
        if !found[i].1 {
            let ghost before = known@;
            let id: String = found[i].0.clone();
            let ghost name = id@;
            if known.insert(id) {
                proof {
                    assert(known@.contains(name));
                    assert(!before.contains(name));
                    assert(!start.contains(name));
                }
                new = true;
            } else {
                assert(known@ =~= before);
            }
        }
        i += 1;
    }
    assert(all.take(i as int) =~= all);
    new
}

/// Whether a marked promotion is tried again: only for a session that is
/// known and closed. `closed` is absent where the session is unknown.
pub fn may_retry_promotion(closed: Option<bool>) -> (may: bool)
    ensures
        may == (closed == Some(true)),
{
    match closed {
        Some(true) => true,
        _ => false,
    }
}

/// The seconds between two passes of the reconciler; at least one.
pub fn tick_seconds(configured: u64) -> (seconds: u64)
    ensures
        seconds == (if configured == 0 {
            1
        } else {
            configured
        }),
{
    if configured == 0 {
        1
    } else {
        configured
    }
}

/// A trajectory is skipped for what is wrong with it, and for nothing else:
/// a size that is not known or too large, a file that cannot be read or is no
/// trajectory, one that is not valid or names no session, one whose seal is
/// missing or does not hold, and one whose session is active.
pub proof fn law_trajectories_are_skipped_for_cause(scan: ScanView, event: ScanEventView, reason: SkipReason)
    requires
        scan.next(event).1 == ScanActionView::Skip(reason),
    ensures
        reason == SkipReason::NoMetadata <==> (event matches ScanEventView::Sized(Err(_))),
        reason == SkipReason::TooLarge <==> (event matches ScanEventView::Sized(Ok(n)) && n > 268435456),
        reason == SkipReason::ReadError <==> event == ScanEventView::Read(false),
        reason == SkipReason::InvalidJson <==> event == ScanEventView::Parsed(None),
        reason == SkipReason::Nonconformant <==> (event matches ScanEventView::Parsed(Some(t)) && !t.conformant),
        reason == SkipReason::NoSession <==> (event matches ScanEventView::Parsed(Some(t)) && t.conformant && t.session_id
            is None),
        reason == SkipReason::Unauthenticated <==> event == ScanEventView::SealFound(false),
        reason == SkipReason::Provenance <==> event == ScanEventView::SealVerified(false),
        reason == SkipReason::Active <==> event == (ScanEventView::Looked { active: true }) || event
            == ScanEventView::Restored(Ok(false)),
        scan.next(event).0.stage == ScanStage::Done,
{
}

/// A trajectory that nothing is wrong with goes on, step by step, to its
/// session being put back.
pub proof fn law_sound_trajectories_go_on(scan: ScanView, size: u64, t: TrajectoryView)
    ensures
        scan.stage == ScanStage::Sizing && size <= 268435456 ==> scan.next(ScanEventView::Sized(Ok(size))).1
            == ScanActionView::Read,
        scan.stage == ScanStage::Reading ==> scan.next(ScanEventView::Read(true)).1 == ScanActionView::Parse,
        scan.stage == ScanStage::Parsing && t.conformant && t.session_id is Some ==> scan.next(
            ScanEventView::Parsed(Some(t)),
        ).1 == ScanActionView::FindSeal && scan.next(ScanEventView::Parsed(Some(t))).0.facts == Some(t),
        scan.stage == ScanStage::Sealing ==> scan.next(ScanEventView::SealFound(true)).1 == ScanActionView::VerifySeal,
        scan.stage == ScanStage::Verifying && scan.facts == Some(t) && t.session_id is Some ==> scan.next(
            ScanEventView::SealVerified(true),
        ).1 == ScanActionView::Look(t.session_id->0),
        scan.stage == ScanStage::Looking && scan.facts == Some(t) ==> (scan.next(
            ScanEventView::Looked { active: false },
        ).1 matches ScanActionView::Restore { path, metrics, .. } && path == scan.path && metrics == t.metrics),
        scan.stage == ScanStage::Restoring ==> scan.next(ScanEventView::Restored(Ok(true))).1 == ScanActionView::ReadReceipt,
{
}

/// A session that is put back has the agent that its trajectory names: its
/// version, its charter, its instance and the time it had left. What the
/// trajectory does not say counts as recovered.
pub proof fn law_restored_agents_are_those_of_the_trajectory(t: TrajectoryView, extra: JsonTree)
    requires
        t.extra == Some(extra),
    ensures
        ({
            let agent = recovered_agent(t);
            &&& agent.version == t.version
            &&& t.charter matches Some(charter) ==> agent.charter == charter
            &&& t.charter is None ==> match json::member(extra, "charter"@) {
                Some(JsonTree::Text(charter)) => agent.charter == charter,
                _ => agent.charter == "recovered"@,
            }
            &&& match json::member(extra, "instance_uid"@) {
                Some(JsonTree::Text(uid)) => agent.instance_uid == uid,
                _ => agent.instance_uid == "recovered"@,
            }
            &&& match json::member(extra, "ttl_remaining_s"@) {
                Some(JsonTree::Number(n)) => agent.ttl_remaining_s == n.unsigned,
                _ => agent.ttl_remaining_s is None,
            }
        }),
{
}

/// A session that was put back holds the receipt that is found for it; one
/// whose promotion is still marked is to be completed. A receipt that does
/// not verify, or a session that cannot be put back, fails the scan.
pub proof fn law_receipts_are_found_again(scan: ScanView, subject: crate::receipt::SubjectView, promoting: bool, words: Seq<char>)
    ensures
        scan.stage == ScanStage::Attesting ==> scan.next(
            ScanEventView::ReceiptRead { found: ReceiptView::Absent, promoting },
        ).1 == (ScanActionView::Recovered { receipt: false, pending: false }),
        scan.stage == ScanStage::Attesting ==> scan.next(
            ScanEventView::ReceiptRead { found: ReceiptView::Valid { subject }, promoting },
        ).1 == (ScanActionView::Recovered { receipt: true, pending: promoting }),
        scan.stage == ScanStage::Restoring ==> scan.next(ScanEventView::Restored(Err(words))).1 == ScanActionView::Abort(
            FinalizeErrorView::Atif(words),
        ),
{
}

/// What is skipped is counted under the word for the reason, except where it
/// is no one's fault: a file that vanished, one of no session, and one whose
/// session is active.
pub proof fn law_skips_are_counted_by_their_word(reason: SkipReason)
    ensures
        reason.spec_label() is None <==> reason == SkipReason::NoMetadata || reason == SkipReason::NoSession || reason
            == SkipReason::Active,
        reason == SkipReason::TooLarge ==> reason.spec_label() == Some("too_large"@),
        reason == SkipReason::ReadError ==> reason.spec_label() == Some("read_error"@),
        reason == SkipReason::InvalidJson ==> reason.spec_label() == Some("invalid_json"@),
        reason == SkipReason::Nonconformant ==> reason.spec_label() == Some("nonconformant"@),
        reason == SkipReason::Unauthenticated ==> reason.spec_label() == Some("unauthenticated"@),
        reason == SkipReason::Provenance ==> reason.spec_label() == Some("provenance"@),
{
}

/// The sessions that are known to have incomplete effects only grow: by those
/// that were found and are not active.
pub proof fn law_incomplete_sessions_are_remembered(known: Set<Seq<char>>, found: Seq<(Seq<char>, bool)>, id: Seq<char>)
    ensures
        quarantined_with(known, found).contains(id) <==> known.contains(id) || exists|i: int|
            0 <= i < found.len() && (#[trigger] found[i]).0 == id && !found[i].1,
    decreases found.len(),
{
    if found.len() > 0 {
        let front = found.drop_last();
        law_incomplete_sessions_are_remembered(known, front, id);
        assert(forall|i: int| 0 <= i < front.len() ==> #[trigger] front[i] == found[i]);
        assert(found[found.len() - 1] == found.last());
        if exists|i: int| 0 <= i < front.len() && (#[trigger] front[i]).0 == id && !front[i].1 {
            let i = choose|i: int| 0 <= i < front.len() && (#[trigger] front[i]).0 == id && !front[i].1;
            assert(found[i].0 == id && !found[i].1);
        }
        if exists|i: int| 0 <= i < found.len() && (#[trigger] found[i]).0 == id && !found[i].1 {
            let i = choose|i: int| 0 <= i < found.len() && (#[trigger] found[i]).0 == id && !found[i].1;
            if i < front.len() {
                assert(front[i].0 == id);
            }
        }
    }
}

/// A scan that meets no obstacle goes all the way from the size of a file to
/// its session being recovered.
pub proof fn law_smooth_scans_go_all_the_way(path: Seq<char>, size: u64, t: TrajectoryView, promoting: bool)
    requires
        size <= 268435456,
        t.conformant,
        t.session_id is Some,
    ensures
        ({
            let s0 = run(path, Seq::empty());
            let (s1, a1) = s0.next(ScanEventView::Sized(Ok(size)));
            let (s2, a2) = s1.next(ScanEventView::Read(true));
            let (s3, a3) = s2.next(ScanEventView::Parsed(Some(t)));
            let (s4, a4) = s3.next(ScanEventView::SealFound(true));
            let (s5, a5) = s4.next(ScanEventView::SealVerified(true));
            let (s6, a6) = s5.next(ScanEventView::Looked { active: false });
            let (s7, a7) = s6.next(ScanEventView::Restored(Ok(true)));
            let (s8, a8) = s7.next(ScanEventView::ReceiptRead { found: ReceiptView::Absent, promoting });
            &&& a1 == ScanActionView::Read && a2 == ScanActionView::Parse && a3 == ScanActionView::FindSeal
            &&& a4 == ScanActionView::VerifySeal && a5 == ScanActionView::Look(t.session_id->0)
            &&& a6 matches ScanActionView::Restore { agent, path: stands, metrics }
            &&& agent.version == t.version && stands == path && metrics == t.metrics
            &&& a7 == ScanActionView::ReadReceipt
            &&& a8 == (ScanActionView::Recovered { receipt: false, pending: false })
            &&& s8.stage == ScanStage::Done
        }),
{
}

/// A scan that has ended does nothing more, however it ended.
pub proof fn law_ended_scans_rest(scan: ScanView, event: ScanEventView)
    ensures
        scan.next(event).1 is Skip || scan.next(event).1 is Recovered || scan.next(event).1 is Abort ==> scan.next(
            event,
        ).0.stage == ScanStage::Done,
        scan.stage == ScanStage::Done ==> scan.next(event) == (scan, ScanActionView::Ignore),
{
}

} // verus!
