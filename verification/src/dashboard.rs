//! The operator's view of the sessions: a list of summaries, newest first,
//! and the sums over all of them.

use vstd::prelude::*;
use crate::replay::Totals;
use crate::session::{AgentIdentity, Workflow};
use crate::text;

verus! {

/// How many sessions are listed when the client does not say.
pub const DEFAULT_LIST_LIMIT: usize = 50;

/// How many sessions are listed at most.
pub const MAX_LIST_LIMIT: usize = 500;

/// What a client asks the list of sessions for.
#[derive(Debug)]
pub struct ListQuery {
    pub limit: Option<usize>,
    pub status: Option<String>,
    pub workflow: Option<String>,
}

/// A session, as it stands.
#[derive(Debug)]
pub struct SessionSnapshot {
    pub id: String,
    pub workflow: Workflow,
    pub last_activity_ms: u64,
    /// Whether it takes no more requests.
    pub is_closed: bool,
    /// Whether a close of it has begun.
    pub closing: bool,
    pub artifact_committed: bool,
    pub close_complete: bool,
    pub capture_failed: bool,
    pub active_streams: u64,
    pub pending_jobs: u64,
    /// The id of the stop reason on record.
    pub stop_reason_id: u64,
    pub totals: Totals,
    pub identity: AgentIdentity,
    pub has_receipt: bool,
}

/// What the list shows of a session.
#[derive(Debug)]
pub struct SessionSummary {
    pub id: String,
    pub workflow: Workflow,
    pub last_activity_ms: u64,
    pub open: bool,
    pub closed: bool,
    pub artifact_committed: bool,
    pub close_complete: bool,
    pub capture_failed: bool,
    pub active_streams: u64,
    pub pending_jobs: u64,
    pub stop_reason_id: u8,
    /// What that id stands for.
    pub stop_reason: String,
    pub totals: Totals,
    pub identity: AgentIdentity,
    pub has_receipt: bool,
}

/// The id of a stop reason as it is shown: one that is too large for that
/// counts as unknown.
pub open spec fn shown_stop_id(recorded: u64) -> u8 {
    if recorded <= 255 {
        recorded as u8
    } else {
        0
    }
}

/// The id of a stop reason as it is shown.
pub fn stop_id(recorded: u64) -> (id: u8)
    ensures
        id == shown_stop_id(recorded),
{
    if recorded <= 255 {
        recorded as u8
    } else {
        0
    }
}

impl SessionSummary {
    /// What the list shows of a session. `caption` is what its stop reason,
    /// by [`stop_id`], stands for.
    pub fn from_session(session: SessionSnapshot, caption: String) -> (summary: SessionSummary)
        ensures
            summary.id == session.id,
            summary.workflow == session.workflow,
            summary.last_activity_ms == session.last_activity_ms,
            summary.open == !session.is_closed,
            summary.closed == session.closing,
            summary.artifact_committed == session.artifact_committed,
            summary.close_complete == session.close_complete,
            summary.capture_failed == session.capture_failed,
            summary.active_streams == session.active_streams,
            summary.pending_jobs == session.pending_jobs,
            summary.stop_reason_id == shown_stop_id(session.stop_reason_id),
            summary.stop_reason == caption,
            summary.totals == session.totals,
            summary.identity == session.identity,
            summary.has_receipt == session.has_receipt,
    {
        SessionSummary {
            id: session.id,
            workflow: session.workflow,
            last_activity_ms: session.last_activity_ms,
            open: !session.is_closed,
            closed: session.closing,
            artifact_committed: session.artifact_committed,
            close_complete: session.close_complete,
            capture_failed: session.capture_failed,
            active_streams: session.active_streams,
            pending_jobs: session.pending_jobs,
            stop_reason_id: stop_id(session.stop_reason_id),
            stop_reason: caption,
            totals: session.totals,
            identity: session.identity,
            has_receipt: session.has_receipt,
        }
    }
}

/// Whether a session is one that a client asks for. A word that is not known
/// asks for all.
pub open spec fn is_asked_for(s: SessionSummary, status: Option<Seq<char>>, workflow: Option<Seq<char>>) -> bool {
    &&& status == Some("open"@) ==> s.open
    &&& status == Some("closed"@) ==> !s.open
    &&& status == Some("failed"@) ==> s.capture_failed
    &&& workflow == Some("signed"@) ==> s.workflow == Workflow::Signed
    &&& workflow == Some("unsigned"@) ==> s.workflow == Workflow::Unsigned
}

/// The sessions that a client asks for, in the order in which they come.
pub open spec fn asked_for(
    sessions: Seq<SessionSummary>,
    status: Option<Seq<char>>,
    workflow: Option<Seq<char>>,
) -> Seq<SessionSummary>
    decreases sessions.len(),
{
    if sessions.len() == 0 {
        Seq::empty()
    } else {
        let rest = asked_for(sessions.drop_first(), status, workflow);
        if is_asked_for(sessions[0], status, workflow) {
            seq![sessions[0]] + rest
        } else {
            rest
        }
    }
}

/// How many sessions at the front of a list were active after a time.
pub open spec fn newer_than(sessions: Seq<SessionSummary>, time: u64) -> int
    decreases sessions.len(),
{
    if sessions.len() == 0 || sessions[0].last_activity_ms <= time {
        0
    } else {
        1 + newer_than(sessions.drop_first(), time)
    }
}

/// The list with one more session: behind those that were active later, and
/// before those that were not.
pub open spec fn placed(sessions: Seq<SessionSummary>, s: SessionSummary) -> Seq<SessionSummary> {
    sessions.insert(newer_than(sessions, s.last_activity_ms), s)
}

/// Sessions by their last activity, the newest first; those of the same time
/// stay in the order in which they come.
pub open spec fn newest_first(sessions: Seq<SessionSummary>) -> Seq<SessionSummary>
    decreases sessions.len(),
{
    if sessions.len() == 0 {
        Seq::empty()
    } else {
        placed(newest_first(sessions.drop_first()), sessions[0])
    }
}

/// How many sessions are listed at most.
pub open spec fn list_limit(limit: Option<usize>) -> int {
    match limit {
        Some(n) => if n <= MAX_LIST_LIMIT {
            n as int
        } else {
            MAX_LIST_LIMIT as int
        },
        None => DEFAULT_LIST_LIMIT as int,
    }
}

/// The front of a list, up to a length.
pub open spec fn cut(sessions: Seq<SessionSummary>, limit: int) -> Seq<SessionSummary> {
    if sessions.len() <= limit {
        sessions
    } else {
        sessions.take(limit)
    }
}

/// A list of sessions.
#[derive(Debug)]
pub struct SessionList {
    pub sessions: Vec<SessionSummary>,
    /// How many sessions there are.
    pub total_before_truncate: usize,
    /// How many of them are asked for.
    pub matched: usize,
}

/// Whether a session is one that a client asks for.
fn wants(query: &ListQuery, s: &SessionSummary) -> (wanted: bool)
    ensures
        wanted == is_asked_for(*s, text::opt_text(query.status), text::opt_text(query.workflow)),
{
    proof {
        reveal_strlit("open");
        reveal_strlit("closed");
        reveal_strlit("failed");
        reveal_strlit("signed");
        reveal_strlit("unsigned");
        assert("closed"@[0] != "failed"@[0]);
        assert("open"@.len() != "closed"@.len() && "open"@.len() != "failed"@.len());
        assert("signed"@.len() != "unsigned"@.len());
    }
    let by_status: bool = match &query.status {
        Some(word) => {
            if text::same_text(word.as_str(), "open") {
                s.open
            } else if text::same_text(word.as_str(), "closed") {
                !s.open
            } else if text::same_text(word.as_str(), "failed") {
                s.capture_failed
            } else {
                true
            }
        },
        None => true,
    };
    let by_workflow: bool = match &query.workflow {
        Some(word) => {
            if text::same_text(word.as_str(), "signed") {
                s.workflow == Workflow::Signed
            } else if text::same_text(word.as_str(), "unsigned") {
                s.workflow == Workflow::Unsigned
            } else {
                true
            }
        },
        None => true,
    };
    by_status && by_workflow
}

/// Puts a session into a list that is sorted newest first.
fn place(sessions: &mut Vec<SessionSummary>, s: SessionSummary)
    ensures
        final(sessions)@ == placed(old(sessions)@, s),
{
    let ghost all = sessions@;
    let mut i: usize = 0;
    assert(all.skip(0) =~= all);
    while i < sessions.len() && sessions[i].last_activity_ms > s.last_activity_ms
        invariant
            all == sessions@,
            i <= sessions@.len(),
            newer_than(all, s.last_activity_ms) == i + newer_than(all.skip(i as int), s.last_activity_ms),
        decreases sessions.len() - i,
    {
        proof {
            assert(all.skip(i as int)[0] == all[i as int]);
            assert(all.skip(i as int).drop_first() =~= all.skip(i + 1));
        }
        i += 1;
    }
    proof {
        if i < all.len() {
            assert(all.skip(i as int)[0] == all[i as int]);
        }
    }
    sessions.insert(i, s);
}

/// The sessions that a client asks for, newest first, as many as are listed.
pub fn list_sessions(sessions: Vec<SessionSummary>, query: &ListQuery) -> (list: SessionList)
    ensures
        ({
            let wanted = asked_for(sessions@, text::opt_text(query.status), text::opt_text(query.workflow));
            &&& list.sessions@ == cut(newest_first(wanted), list_limit(query.limit))
            &&& list.matched == wanted.len()
            &&& list.total_before_truncate == sessions@.len()
        }),
{
    let ghost all = sessions@;
    let ghost status = text::opt_text(query.status);
    let ghost workflow = text::opt_text(query.workflow);
    let total: usize = sessions.len();
    let mut rest: Vec<SessionSummary> = sessions;
    let mut listed: Vec<SessionSummary> = Vec::new();
    proof {
        assert(all.skip(all.len() as int) =~= Seq::empty());
        assert(rest@ =~= all.take(all.len() as int));
        lemma_same_length(Seq::empty());
    }
    while rest.len() > 0
        invariant
            rest@ == all.take(rest@.len() as int),
            rest@.len() <= all.len(),
            status == text::opt_text(query.status),
            workflow == text::opt_text(query.workflow),
            listed@ == newest_first(asked_for(all.skip(rest@.len() as int), status, workflow)),
        decreases rest.len(),
    {
        let ghost n = rest@.len() as int;
        let ghost behind = asked_for(all.skip(n), status, workflow);
        match rest.pop() {
            Some(s) => {
                proof {
                    assert(rest@ =~= all.take(n - 1));
                    assert(all.skip(n - 1)[0] == s);
                    assert(all.skip(n - 1).drop_first() =~= all.skip(n));
                    assert((seq![s] + behind).drop_first() =~= behind);
                }
                if wants(query, &s) {
                    place(&mut listed, s);
                }
            },
            None => {},
        }
    }
    proof {
        assert(all.skip(0) =~= all);
        lemma_same_length(asked_for(all, status, workflow));
    }
    let matched: usize = listed.len();
    let limit: usize = match query.limit {
        Some(n) => {
            if n <= MAX_LIST_LIMIT {
                n
            } else {
                MAX_LIST_LIMIT
            }
        },
        None => DEFAULT_LIST_LIMIT,
    };
    let ghost sorted = listed@;
    listed.truncate(limit);
    proof {
        assert(listed@ =~= cut(sorted, limit as int));
    }
    SessionList { sessions: listed, total_before_truncate: total, matched }
}

/// The place of a session lies within the list, between those that were
/// active later and those that were not.
proof fn lemma_newer_than(sessions: Seq<SessionSummary>, time: u64)
    ensures
        0 <= newer_than(sessions, time) <= sessions.len(),
        forall|i: int| 0 <= i < newer_than(sessions, time) ==> (#[trigger] sessions[i]).last_activity_ms > time,
        newer_than(sessions, time) < sessions.len() ==> sessions[newer_than(sessions, time)].last_activity_ms
            <= time,
    decreases sessions.len(),
{
    if sessions.len() > 0 && sessions[0].last_activity_ms > time {
        let rest = sessions.drop_first();
        lemma_newer_than(rest, time);
        assert forall|i: int| 0 <= i < newer_than(sessions, time) implies (#[trigger] sessions[i]).last_activity_ms
            > time by {
            if i > 0 {
                assert(rest[i - 1] == sessions[i]);
            }
        }
    }
}

/// Sorting keeps the number of sessions.
proof fn lemma_same_length(sessions: Seq<SessionSummary>)
    ensures
        newest_first(sessions).len() == sessions.len(),
    decreases sessions.len(),
{
    if sessions.len() > 0 {
        let rest = newest_first(sessions.drop_first());
        lemma_same_length(sessions.drop_first());
        lemma_newer_than(rest, sessions[0].last_activity_ms);
    }
}

/// Whether a list is sorted, the newest first.
pub open spec fn is_newest_first(sessions: Seq<SessionSummary>) -> bool {
    forall|i: int, j: int|
        0 <= i < j < sessions.len() ==> (#[trigger] sessions[i]).last_activity_ms >= (#[trigger] sessions[j]).last_activity_ms
}

/// The list is sorted, the newest session first, and holds the same sessions
/// as often as they came.
pub proof fn law_list_is_sorted(sessions: Seq<SessionSummary>)
    ensures
        is_newest_first(newest_first(sessions)),
        newest_first(sessions).to_multiset() == sessions.to_multiset(),
    decreases sessions.len(),
{
    if sessions.len() > 0 {
        let s = sessions[0];
        let rest = newest_first(sessions.drop_first());
        law_list_is_sorted(sessions.drop_first());
        let p = newer_than(rest, s.last_activity_ms);
        lemma_newer_than(rest, s.last_activity_ms);
        let whole = rest.insert(p, s);
        assert forall|i: int, j: int| 0 <= i < j < whole.len() implies (#[trigger] whole[i]).last_activity_ms >= (
        #[trigger] whole[j]).last_activity_ms by {
            let before_i = if i < p {
                rest[i]
            } else if i == p {
                s
            } else {
                rest[i - 1]
            };
            assert(whole[i] == before_i);
            if p < rest.len() {
                assert(rest[p].last_activity_ms <= s.last_activity_ms);
            }
            if i == p && j > p {
                assert(whole[j] == rest[j - 1]);
                if j - 1 > p {
                    assert(rest[p].last_activity_ms >= rest[j - 1].last_activity_ms);
                }
            }
        }
        broadcast use vstd::seq_lib::group_to_multiset_ensures;
        vstd::seq_lib::to_multiset_insert(rest, p, s);
        assert(sessions =~= seq![s] + sessions.drop_first());
        vstd::seq_lib::lemma_multiset_commutative(seq![s], sessions.drop_first());
        assert(seq![s] =~= Seq::<SessionSummary>::empty().push(s));
        Seq::<SessionSummary>::empty().to_multiset_ensures();
        assert(sessions.to_multiset() =~= sessions.drop_first().to_multiset().insert(s));
    } else {
        assert(newest_first(sessions) =~= sessions);
    }
}

/// Sums over sessions.
#[derive(Clone, Copy, Debug, PartialEq, Eq, Structural)]
pub struct Stats {
    pub session_count: usize,
    pub open_count: usize,
    pub closed_count: usize,
    pub capture_failed_count: usize,
    pub workflow_signed: usize,
    pub workflow_unsigned: usize,
    pub totals: Totals,
}

/// The sum of two numbers, or the largest number where that is larger.
pub open spec fn capped_sum(a: u64, b: u64) -> u64 {
    if a + b <= u64::MAX {
        (a + b) as u64
    } else {
        u64::MAX
    }
}

/// Sums of a list of sessions, as far as numbers go.
pub open spec fn totals_of(sessions: Seq<SessionSummary>) -> Totals
    decreases sessions.len(),
{
    if sessions.len() == 0 {
        crate::replay::no_totals()
    } else {
        let t = totals_of(sessions.drop_last());
        let s = sessions.last().totals;
        Totals {
            tool_calls: capped_sum(t.tool_calls, s.tool_calls),
            tool_allowed: capped_sum(t.tool_allowed, s.tool_allowed),
            tool_blocked: capped_sum(t.tool_blocked, s.tool_blocked),
            prompt_tokens: capped_sum(t.prompt_tokens, s.prompt_tokens),
            completion_tokens: capped_sum(t.completion_tokens, s.completion_tokens),
            cached_tokens: capped_sum(t.cached_tokens, s.cached_tokens),
            cost_usd_micros: capped_sum(t.cost_usd_micros, s.cost_usd_micros),
        }
    }
}

/// How many sessions of a list satisfy a condition.
pub open spec fn count_of(sessions: Seq<SessionSummary>, condition: spec_fn(SessionSummary) -> bool) -> int
    decreases sessions.len(),
{
    if sessions.len() == 0 {
        0
    } else {
        count_of(sessions.drop_last(), condition) + if condition(sessions.last()) {
            1int
        } else {
            0int
        }
    }
}

/// The sum of two numbers, or the largest number where that is larger.
fn add_capped(a: u64, b: u64) -> (sum: u64)
    ensures
        sum == capped_sum(a, b),
{
    match a.checked_add(b) {
        Some(sum) => sum,
        None => u64::MAX,
    }
}

/// The sums over all sessions.
pub fn stats(sessions: &Vec<SessionSummary>) -> (s: Stats)
    ensures
        s.session_count == sessions@.len(),
        s.open_count == count_of(sessions@, |x: SessionSummary| x.open),
        s.closed_count == count_of(sessions@, |x: SessionSummary| !x.open),
        s.capture_failed_count == count_of(sessions@, |x: SessionSummary| x.capture_failed),
        s.workflow_signed == count_of(sessions@, |x: SessionSummary| x.workflow == Workflow::Signed),
        s.workflow_unsigned == count_of(sessions@, |x: SessionSummary| x.workflow == Workflow::Unsigned),
        s.totals == totals_of(sessions@),
{
    let ghost all = sessions@;
    let mut s = Stats {
        session_count: sessions.len(),
        open_count: 0,
        closed_count: 0,
        capture_failed_count: 0,
        workflow_signed: 0,
        workflow_unsigned: 0,
        totals: Totals {
            tool_calls: 0,
            tool_allowed: 0,
            tool_blocked: 0,
            prompt_tokens: 0,
            completion_tokens: 0,
            cached_tokens: 0,
            cost_usd_micros: 0,
        },
    };
    let mut i: usize = 0;
    assert(all.take(0) =~= Seq::empty());
    while i < sessions.len()
        invariant
            i <= sessions@.len(),
            all == sessions@,
            s.session_count == sessions@.len(),
            s.open_count <= i,
            s.closed_count <= i,
            s.capture_failed_count <= i,
            s.workflow_signed <= i,
            s.workflow_unsigned <= i,
            s.open_count == count_of(all.take(i as int), |x: SessionSummary| x.open),
            s.closed_count == count_of(all.take(i as int), |x: SessionSummary| !x.open),
            s.capture_failed_count == count_of(all.take(i as int), |x: SessionSummary| x.capture_failed),
            s.workflow_signed == count_of(all.take(i as int), |x: SessionSummary| x.workflow == Workflow::Signed),
            s.workflow_unsigned == count_of(
                all.take(i as int),
                |x: SessionSummary| x.workflow == Workflow::Unsigned,
            ),
            s.totals == totals_of(all.take(i as int)),
        decreases sessions.len() - i,
    {
        proof {
            assert(all.take(i + 1).drop_last() =~= all.take(i as int));
            assert(all.take(i + 1).last() == all[i as int]);
        }
        let x: &SessionSummary = &sessions[i];
        if x.open {
            s.open_count = s.open_count + 1;
        } else {
            s.closed_count = s.closed_count + 1;
        }
        if x.capture_failed {
            s.capture_failed_count = s.capture_failed_count + 1;
        }
        match x.workflow {
            Workflow::Signed => {
                s.workflow_signed = s.workflow_signed + 1;
            },
            Workflow::Unsigned => {
                s.workflow_unsigned = s.workflow_unsigned + 1;
            },
        }
        s.totals = Totals {
            tool_calls: add_capped(s.totals.tool_calls, x.totals.tool_calls),
            tool_allowed: add_capped(s.totals.tool_allowed, x.totals.tool_allowed),
            tool_blocked: add_capped(s.totals.tool_blocked, x.totals.tool_blocked),
            prompt_tokens: add_capped(s.totals.prompt_tokens, x.totals.prompt_tokens),
            completion_tokens: add_capped(s.totals.completion_tokens, x.totals.completion_tokens),
            cached_tokens: add_capped(s.totals.cached_tokens, x.totals.cached_tokens),
            cost_usd_micros: add_capped(s.totals.cost_usd_micros, x.totals.cost_usd_micros),
        };
        i += 1;
    }
    assert(all.take(i as int) =~= all);
    s
}

/// Every session is open or closed and of one workflow, and counted as such.
pub proof fn law_every_session_is_counted(sessions: Seq<SessionSummary>)
    ensures
        count_of(sessions, |x: SessionSummary| x.open) + count_of(sessions, |x: SessionSummary| !x.open)
            == sessions.len(),
        count_of(sessions, |x: SessionSummary| x.workflow == Workflow::Signed) + count_of(
            sessions,
            |x: SessionSummary| x.workflow == Workflow::Unsigned,
        ) == sessions.len(),
    decreases sessions.len(),
{
    if sessions.len() > 0 {
        law_every_session_is_counted(sessions.drop_last());
    }
}

/// Whether a session is one that a query for this status is about.
pub open spec fn has_status(s: SessionSummary, status: Option<Seq<char>>) -> bool {
    match status {
        None => true,
        Some(word) => (word == "open"@ ==> s.open) && (word == "closed"@ ==> !s.open) && (word == "failed"@
            ==> s.capture_failed),
    }
}

/// A list holds the sessions that were asked for, all of them and no others:
/// by their status, open, closed or failed, and by their workflow. A word
/// that is not known asks for everything.
pub proof fn law_lists_hold_what_is_asked_for(
    sessions: Seq<SessionSummary>,
    status: Option<Seq<char>>,
    workflow: Option<Seq<char>>,
)
    ensures
        ({
            let wanted = asked_for(sessions, status, workflow);
            &&& forall|i: int|
                0 <= i < wanted.len() ==> {
                    let s = #[trigger] wanted[i];
                    &&& sessions.contains(s)
                    &&& has_status(s, status)
                    &&& workflow == Some("signed"@) ==> s.workflow == Workflow::Signed
                    &&& workflow == Some("unsigned"@) ==> s.workflow == Workflow::Unsigned
                }
            &&& forall|i: int|
                0 <= i < sessions.len() && has_status(#[trigger] sessions[i], status) && (workflow == Some("signed"@)
                    ==> sessions[i].workflow == Workflow::Signed) && (workflow == Some("unsigned"@)
                    ==> sessions[i].workflow == Workflow::Unsigned) ==> wanted.contains(sessions[i])
            &&& wanted.len() <= sessions.len()
            &&& status is None && workflow is None ==> wanted == sessions
        }),
    decreases sessions.len(),
{
    if sessions.len() > 0 {
        let rest = sessions.drop_first();
        law_lists_hold_what_is_asked_for(rest, status, workflow);
        let wanted = asked_for(sessions, status, workflow);
        let later = asked_for(rest, status, workflow);
        let shift: int = if is_asked_for(sessions[0], status, workflow) {
            1
        } else {
            0
        };
        assert forall|i: int| 0 <= i < wanted.len() implies {
            let s = #[trigger] wanted[i];
            &&& sessions.contains(s)
            &&& has_status(s, status)
            &&& workflow == Some("signed"@) ==> s.workflow == Workflow::Signed
            &&& workflow == Some("unsigned"@) ==> s.workflow == Workflow::Unsigned
        } by {
            if shift == 1 && i == 0 {
                assert(wanted[i] == sessions[0]);
            } else {
                assert(wanted[i] == later[i - shift]);
                let k = choose|k: int| 0 <= k < rest.len() && rest[k] == wanted[i];
                assert(sessions[k + 1] == wanted[i]);
            }
        }
        assert forall|i: int|
            0 <= i < sessions.len() && has_status(#[trigger] sessions[i], status) && (workflow == Some("signed"@)
                ==> sessions[i].workflow == Workflow::Signed) && (workflow == Some("unsigned"@)
                ==> sessions[i].workflow == Workflow::Unsigned) implies wanted.contains(sessions[i]) by {
            if i == 0 {
                assert(wanted[0] == sessions[0]);
            } else {
                assert(rest[i - 1] == sessions[i]);
                let k = choose|k: int| 0 <= k < later.len() && later[k] == sessions[i];
                assert(wanted[k + shift] == sessions[i]);
            }
        }
        if status is None && workflow is None {
            assert(seq![sessions[0]] + rest =~= sessions);
        }
    }
}

/// A list is as long as was asked for: fifty sessions where nothing was said,
/// five hundred at most. What is cut off is what is least recent.
pub proof fn law_lists_are_cut_to_length(sessions: Seq<SessionSummary>, limit: Option<usize>)
    ensures
        limit is None ==> list_limit(limit) == 50,
        limit matches Some(n) ==> (n <= 500 ==> list_limit(limit) == n) && (n > 500 ==> list_limit(limit) == 500),
        ({
            let shown = cut(sessions, list_limit(limit));
            &&& shown.len() <= 500
            &&& shown.len() == (if sessions.len() <= list_limit(limit) {
                sessions.len() as int
            } else {
                list_limit(limit)
            })
            &&& forall|i: int| 0 <= i < shown.len() ==> #[trigger] shown[i] == sessions[i]
        }),
{
}

/// One of the sums of a list of sessions.
pub open spec fn total_of(sessions: Seq<SessionSummary>, field: spec_fn(Totals) -> u64) -> int
    decreases sessions.len(),
{
    if sessions.len() == 0 {
        0
    } else {
        total_of(sessions.drop_last(), field) + field(sessions.last().totals)
    }
}

/// A number, or the largest `u64` where it is larger.
pub open spec fn at_most_u64(n: int) -> int {
    if n <= u64::MAX {
        n
    } else {
        u64::MAX as int
    }
}

/// The sums over all sessions are the sums of what the sessions count, each
/// of its own; one that is too large stops at the largest number.
pub proof fn law_totals_add_up(sessions: Seq<SessionSummary>)
    ensures
        ({
            let t = totals_of(sessions);
            &&& t.tool_calls == at_most_u64(total_of(sessions, |c: Totals| c.tool_calls))
            &&& t.tool_allowed == at_most_u64(total_of(sessions, |c: Totals| c.tool_allowed))
            &&& t.tool_blocked == at_most_u64(total_of(sessions, |c: Totals| c.tool_blocked))
            &&& t.prompt_tokens == at_most_u64(total_of(sessions, |c: Totals| c.prompt_tokens))
            &&& t.completion_tokens == at_most_u64(total_of(sessions, |c: Totals| c.completion_tokens))
            &&& t.cached_tokens == at_most_u64(total_of(sessions, |c: Totals| c.cached_tokens))
            &&& t.cost_usd_micros == at_most_u64(total_of(sessions, |c: Totals| c.cost_usd_micros))
        }),
    decreases sessions.len(),
{
    if sessions.len() > 0 {
        law_totals_add_up(sessions.drop_last());
    }
}

/// A stop reason that fits one byte is shown as it is; any other as unknown.
pub proof fn law_stop_ids_are_shown(recorded: u64)
    ensures
        recorded <= 255 ==> shown_stop_id(recorded) == recorded,
        recorded > 255 ==> shown_stop_id(recorded) == 0,
{
}

/// A count of sessions is the number of those that meet the condition: it
/// grows by one for such a session, wherever it stands.
pub proof fn law_counts_count(first: Seq<SessionSummary>, second: Seq<SessionSummary>, condition: spec_fn(SessionSummary) -> bool)
    ensures
        count_of(first + second, condition) == count_of(first, condition) + count_of(second, condition),
        0 <= count_of(first, condition) <= first.len(),
        (forall|i: int| 0 <= i < first.len() ==> condition(#[trigger] first[i])) ==> count_of(first, condition)
            == first.len(),
        (forall|i: int| 0 <= i < first.len() ==> !condition(#[trigger] first[i])) ==> count_of(first, condition) == 0,
    decreases first.len() + second.len(),
{
    if second.len() > 0 {
        law_counts_count(first, second.drop_last(), condition);
        assert((first + second).drop_last() =~= first + second.drop_last());
    } else {
        assert(first + second =~= first);
        if first.len() > 0 {
            let front = first.drop_last();
            law_counts_count(front, Seq::empty(), condition);
            assert(forall|i: int| 0 <= i < front.len() ==> #[trigger] front[i] == first[i]);
            assert(first[first.len() - 1] == first.last());
        }
    }
}

/// A list of the open sessions holds open ones only, one of the closed
/// sessions closed ones, and one of the failed sessions those whose capture
/// failed; any other word keeps every session.
pub proof fn law_words_choose_sessions(s: SessionSummary)
    ensures
        is_asked_for(s, Some("open"@), None) <==> s.open,
        is_asked_for(s, Some("closed"@), None) <==> !s.open,
        is_asked_for(s, Some("failed"@), None) <==> s.capture_failed,
        is_asked_for(s, None, Some("signed"@)) <==> s.workflow == Workflow::Signed,
        is_asked_for(s, None, Some("unsigned"@)) <==> s.workflow == Workflow::Unsigned,
        is_asked_for(s, None, None),
{
    reveal_strlit("open");
    reveal_strlit("closed");
    reveal_strlit("failed");
    reveal_strlit("signed");
    reveal_strlit("unsigned");
    assert("open"@.len() == 4 && "closed"@.len() == 6 && "failed"@.len() == 6);
    assert("closed"@[0] == 'c' && "failed"@[0] == 'f');
    assert("signed"@.len() == 6 && "unsigned"@.len() == 8);
}

} // verus!
