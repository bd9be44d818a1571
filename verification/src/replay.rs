//! Replay of the journal of an interrupted session: what its records add up
//! to, and which of them cannot be right.

use vstd::prelude::*;
use crate::admission;
use crate::admission::CompressedView;
use crate::audit;
use crate::audit::{AtifView, ResponseAttempt};
use crate::capture::CaptureView;
use crate::errors::{FinalizeError, FinalizeErrorView};
use crate::failure;
use crate::headers;
use crate::pricing::JCS_SAFE_MAX;
use crate::provider::StopReason;
use crate::session;
use crate::session::{AgentIdentity, IdentityView, Workflow};
use crate::text;
use crate::text_set::TextSet;

verus! {

/// A failure that is one of the stored session.
pub open spec fn atif_fault(words: Seq<char>) -> FinalizeErrorView {
    FinalizeErrorView::Atif(words)
}

/// The sum of a total and a value, while it is one that every reader of the
/// record can hold.
pub open spec fn recovered_sum(total: u64, value: u64) -> Option<u64> {
    if total + value <= JCS_SAFE_MAX {
        Some((total + value) as u64)
    } else {
        None
    }
}

/// Adds a value of a record to a total.
pub fn checked_recovery_add(current: u64, value: u64, field: &str) -> (sum: Result<u64, FinalizeError>)
    ensures
        match (recovered_sum(current, value), sum) {
            (Some(wanted), Ok(total)) => total == wanted,
            (None, Err(e)) => e@ == atif_fault("recovered "@ + field@ + " overflow"@),
            _ => false,
        },
{
    match current.checked_add(value) {
        Some(total) => {
            if total <= JCS_SAFE_MAX {
                return Ok(total);
            }
        },
        None => {},
    }
    Err(FinalizeError::Atif(text::concat3("recovered ", field, " overflow")))
}

/// What is remembered of a record that closes an attempt nobody opened.
pub open spec fn orphan(id: Seq<char>) -> Seq<char> {
    "orphan-terminal:"@ + id
}

/// The open attempts after a record, or that the record opens one twice.
pub open spec fn attempts_after(pending: Set<Seq<char>>, attempt: Option<(Seq<char>, bool)>) -> Option<Set<Seq<char>>> {
    match attempt {
        None => Some(pending),
        Some((id, true)) => if pending.contains(id) {
            Some(pending.remove(id))
        } else {
            Some(pending.insert(orphan(id)))
        },
        Some((id, false)) => if pending.contains(id) {
            None
        } else {
            Some(pending.insert(id))
        },
    }
}

/// An attempt by its contents.
pub open spec fn attempt_view(attempt: Option<ResponseAttempt>) -> Option<(Seq<char>, bool)> {
    match attempt {
        Some(a) => Some((a.id@, a.terminal)),
        None => None,
    }
}

/// Follows the attempts at a response through the records of a journal.
pub fn track_response_attempt(pending: &mut TextSet, attempt: &Option<ResponseAttempt>) -> (followed: Result<
    (),
    FinalizeError,
>)
    ensures
        match (attempts_after(old(pending)@, attempt_view(*attempt)), followed) {
            (Some(after), Ok(())) => final(pending)@ == after,
            (None, Err(e)) => e@ == atif_fault("active journal repeats a response attempt id"@) && final(pending)@
                == old(pending)@,
            _ => false,
        },
{
    match attempt {
        None => Ok(()),
        Some(a) => {
            if a.terminal {
                if !pending.remove(a.id.as_str()) {
                    proof {
                        assert(old(pending)@.remove(a.id@) =~= old(pending)@);
                    }
                    pending.insert(text::concat2("orphan-terminal:", a.id.as_str()));
                }
                Ok(())
            } else if !pending.insert(a.id.clone()) {
                assert(old(pending)@.insert(a.id@) =~= old(pending)@);
                Err(FinalizeError::Atif("active journal repeats a response attempt id".to_owned()))
            } else {
                Ok(())
            }
        },
    }
}

/// An attempt that is opened and then closed leaves nothing open behind it.
pub proof fn law_closed_attempts_leave_nothing(pending: Set<Seq<char>>, id: Seq<char>)
    requires
        !pending.contains(id),
    ensures
        attempts_after(pending, Some((id, false))) is Some,
        attempts_after(attempts_after(pending, Some((id, false)))->0, Some((id, true))) == Some(pending),
{
    assert(pending.insert(id).remove(id) =~= pending);
}

/// A request that was let go is settled by the record of its response, and by
/// the record of the failure that took the place of one: either leaves the
/// journal with the attempts open that were open before.
pub proof fn law_dispatched_requests_are_settled(
    pending: Set<Seq<char>>,
    sent: CompressedView,
    step: AtifView,
    capture: CaptureView,
    refusal: Option<Seq<char>>,
    failed: (Workflow, StopReason, Seq<char>),
    marker: Option<Seq<char>>,
)
    requires
        !pending.contains(sent.attempt),
    ensures
        ({
            let opened = attempts_after(pending, admission::dispatch(sent, step).response_attempt);
            let answered = audit::response_record(capture, refusal, marker, sent.attempt);
            let lost = failure::closing_failure(failed.0, failed.1, failed.2, marker, sent.attempt);
            &&& opened is Some
            &&& attempts_after(opened->0, answered.response_attempt) == Some(pending)
            &&& attempts_after(opened->0, lost.response_attempt) == Some(pending)
        }),
{
    law_closed_attempts_leave_nothing(pending, sent.attempt);
}

/// A journal that closes an attempt it never opened has something open, and
/// so has one that never closes an attempt it opened.
pub proof fn law_unpaired_attempts_stay_open(pending: Set<Seq<char>>, id: Seq<char>, terminal: bool)
    requires
        !pending.contains(id),
    ensures
        attempts_after(pending, Some((id, terminal))) is Some,
        attempts_after(pending, Some((id, terminal)))->0 != Set::<Seq<char>>::empty(),
{
    let after = attempts_after(pending, Some((id, terminal)))->0;
    if terminal {
        assert(after.contains(orphan(id)));
    } else {
        assert(after.contains(id));
    }
}

/// The open attempts after all records of a journal, or that one is opened
/// twice.
pub open spec fn attempts_through(attempts: Seq<Option<(Seq<char>, bool)>>) -> Option<Set<Seq<char>>>
    decreases attempts.len(),
{
    if attempts.len() == 0 {
        Some(Set::empty())
    } else {
        match attempts_through(attempts.drop_last()) {
            Some(pending) => attempts_after(pending, attempts.last()),
            None => None,
        }
    }
}

/// Whether some record opens an attempt that no later one closes.
pub open spec fn is_open(attempts: Seq<Option<(Seq<char>, bool)>>, id: Seq<char>) -> bool {
    exists|i: int|
        0 <= i < attempts.len() && #[trigger] attempts[i] == Some((id, false)) && forall|j: int|
            i < j < attempts.len() ==> #[trigger] attempts[j] != Some((id, true))
}

/// Whether no attempt is opened while it is open.
pub open spec fn opened_once(attempts: Seq<Option<(Seq<char>, bool)>>) -> bool {
    forall|i: int, id: Seq<char>|
        0 <= i < attempts.len() && #[trigger] attempts[i] == Some((id, false)) ==> !#[trigger] is_open(
            attempts.take(i),
            id,
        )
}

/// Whether a record closes an attempt that is not open.
pub open spec fn is_stray(attempts: Seq<Option<(Seq<char>, bool)>>, id: Seq<char>) -> bool {
    exists|i: int|
        0 <= i < attempts.len() && #[trigger] attempts[i] == Some((id, true)) && !is_open(attempts.take(i), id)
}

/// Whether every attempt that is opened is closed later.
pub open spec fn all_closed(attempts: Seq<Option<(Seq<char>, bool)>>) -> bool {
    forall|i: int, id: Seq<char>|
        0 <= i < attempts.len() && #[trigger] attempts[i] == Some((id, false)) ==> #[trigger] closed_after(
            attempts,
            i,
            id,
        )
}

/// Whether an attempt is closed behind a record.
pub open spec fn closed_after(attempts: Seq<Option<(Seq<char>, bool)>>, i: int, id: Seq<char>) -> bool {
    exists|j: int| i < j < attempts.len() && #[trigger] attempts[j] == Some((id, true))
}

/// Whether no attempt bears a name that stands for a record without one.
pub open spec fn no_orphan_ids(attempts: Seq<Option<(Seq<char>, bool)>>) -> bool {
    forall|i: int, id: Seq<char>|
        0 <= i < attempts.len() && (#[trigger] attempts[i]) is Some ==> (attempts[i]->0).0 != #[trigger] orphan(id)
}

/// One more record opens its attempt, closes it, or leaves it as it was.
proof fn lemma_open_step(attempts: Seq<Option<(Seq<char>, bool)>>, id: Seq<char>)
    requires
        attempts.len() > 0,
    ensures
        is_open(attempts, id) == (if attempts.last() == Some((id, false)) {
            true
        } else if attempts.last() == Some((id, true)) {
            false
        } else {
            is_open(attempts.drop_last(), id)
        }),
{
    let front = attempts.drop_last();
    let n = attempts.len() - 1;
    assert(attempts[n] == attempts.last());
    if attempts.last() != Some((id, false)) && attempts.last() != Some((id, true)) {
        if is_open(attempts, id) {
            let i = choose|i: int|
                0 <= i < attempts.len() && #[trigger] attempts[i] == Some((id, false)) && forall|j: int|
                    i < j < attempts.len() ==> #[trigger] attempts[j] != Some((id, true));
            assert(front[i] == Some((id, false)));
            assert forall|j: int| i < j < front.len() implies #[trigger] front[j] != Some((id, true)) by {
                assert(attempts[j] != Some((id, true)));
            }
        }
        if is_open(front, id) {
            let i = choose|i: int|
                0 <= i < front.len() && #[trigger] front[i] == Some((id, false)) && forall|j: int|
                    i < j < front.len() ==> #[trigger] front[j] != Some((id, true));
            assert(attempts[i] == Some((id, false)));
            assert forall|j: int| i < j < attempts.len() implies #[trigger] attempts[j] != Some((id, true)) by {
                if j < n {
                    assert(front[j] != Some((id, true)));
                }
            }
        }
    }
}

/// One more record is stray, or none is that was not before.
proof fn lemma_stray_step(attempts: Seq<Option<(Seq<char>, bool)>>, id: Seq<char>)
    requires
        attempts.len() > 0,
    ensures
        is_stray(attempts, id) == (is_stray(attempts.drop_last(), id) || (attempts.last() == Some((id, true))
            && !is_open(attempts.drop_last(), id))),
{
    let front = attempts.drop_last();
    let n = attempts.len() - 1;
    assert(attempts[n] == attempts.last());
    assert(attempts.take(n) =~= front);
    if is_stray(attempts, id) {
        let i = choose|i: int|
            0 <= i < attempts.len() && #[trigger] attempts[i] == Some((id, true)) && !is_open(attempts.take(i), id);
        if i < n {
            assert(front[i] == Some((id, true)));
            assert(front.take(i) =~= attempts.take(i));
        }
    }
    if is_stray(front, id) {
        let i = choose|i: int|
            0 <= i < front.len() && #[trigger] front[i] == Some((id, true)) && !is_open(front.take(i), id);
        assert(attempts[i] == Some((id, true)));
        assert(front.take(i) =~= attempts.take(i));
    }
}

/// One more record opens an attempt twice, or none does that did not before.
proof fn lemma_once_step(attempts: Seq<Option<(Seq<char>, bool)>>)
    requires
        attempts.len() > 0,
    ensures
        opened_once(attempts) == (opened_once(attempts.drop_last()) && (attempts.last() matches Some((id, false))
            ==> !is_open(attempts.drop_last(), id))),
{
    let front = attempts.drop_last();
    let n = attempts.len() - 1;
    assert(attempts[n] == attempts.last());
    assert(attempts.take(n) =~= front);
    if opened_once(attempts) {
        assert forall|i: int, id: Seq<char>|
            0 <= i < front.len() && #[trigger] front[i] == Some((id, false)) implies !#[trigger] is_open(
            front.take(i),
            id,
        ) by {
            assert(attempts[i] == Some((id, false)));
            assert(front.take(i) =~= attempts.take(i));
        }
        if let Some((id, false)) = attempts.last() {
            assert(attempts[n] == Some((id, false)));
            assert(!is_open(attempts.take(n), id));
        }
    }
    if opened_once(front) && (attempts.last() matches Some((id, false)) ==> !is_open(front, id)) {
        assert forall|i: int, id: Seq<char>|
            0 <= i < attempts.len() && #[trigger] attempts[i] == Some((id, false)) implies !#[trigger] is_open(
            attempts.take(i),
            id,
        ) by {
            if i < n {
                assert(front[i] == Some((id, false)));
                assert(front.take(i) =~= attempts.take(i));
            }
        }
    }
}

/// What is pending at the end of a journal: the attempts that are open, and
/// the names of those that were closed without being so.
proof fn lemma_pending(attempts: Seq<Option<(Seq<char>, bool)>>)
    requires
        no_orphan_ids(attempts),
    ensures
        attempts_through(attempts) is Some <==> opened_once(attempts),
        attempts_through(attempts) matches Some(pending) ==> forall|x: Seq<char>| #[trigger]
            pending.contains(x) <==> is_open(attempts, x) || exists|id: Seq<char>|
                x == #[trigger] orphan(id) && is_stray(attempts, id),
    decreases attempts.len(),
{
    if attempts.len() > 0 {
        let front = attempts.drop_last();
        let n = attempts.len() - 1;
        assert(attempts[n] == attempts.last());
        assert(no_orphan_ids(front)) by {
            assert forall|i: int, id: Seq<char>|
                0 <= i < front.len() && (#[trigger] front[i]) is Some implies (front[i]->0).0 != #[trigger] orphan(id) by {
                assert(attempts[i] == front[i]);
            }
        }
        lemma_pending(front);
        lemma_once_step(attempts);
        if attempts_through(front) is Some {
            let before = attempts_through(front)->0;
            if attempts.last() is Some {
                let id = (attempts.last()->0).0;
                assert(before.contains(id) == is_open(front, id)) by {
                    assert forall|y: Seq<char>| id != #[trigger] orphan(y) by {
                        assert(attempts[n] is Some);
                    }
                }
            }
            if attempts_through(attempts) is Some {
                let pending = attempts_through(attempts)->0;
                assert forall|x: Seq<char>| #[trigger]
                    pending.contains(x) <==> is_open(attempts, x) || exists|id: Seq<char>|
                        x == #[trigger] orphan(id) && is_stray(attempts, id) by {
                    lemma_pending_step(attempts, before, pending, x);
                }
            }
        }
    } else {
        assert forall|x: Seq<char>| !is_open(attempts, x) by {}
        assert forall|x: Seq<char>| !is_stray(attempts, x) by {}
    }
}

/// What one more record does to one text among those that are pending.
proof fn lemma_pending_step(
    attempts: Seq<Option<(Seq<char>, bool)>>,
    before: Set<Seq<char>>,
    pending: Set<Seq<char>>,
    x: Seq<char>,
)
    requires
        attempts.len() > 0,
        no_orphan_ids(attempts),
        attempts_after(before, attempts.last()) == Some(pending),
        forall|y: Seq<char>| #[trigger]
            before.contains(y) <==> is_open(attempts.drop_last(), y) || exists|id: Seq<char>|
                y == #[trigger] orphan(id) && is_stray(attempts.drop_last(), id),
    ensures
        pending.contains(x) <==> is_open(attempts, x) || exists|id: Seq<char>|
            x == #[trigger] orphan(id) && is_stray(attempts, id),
{
    let front = attempts.drop_last();
    let n = attempts.len() - 1;
    assert(attempts[n] == attempts.last());
    lemma_open_step(attempts, x);
    if let Some((id, terminal)) = attempts.last() {
        assert forall|y: Seq<char>| id != #[trigger] orphan(y) by {
            assert(attempts[n] is Some);
        }
        assert(before.contains(id) == is_open(front, id));
        lemma_stray_step(attempts, id);
    }
    assert(before.contains(x) <==> is_open(front, x) || exists|id: Seq<char>|
        x == #[trigger] orphan(id) && is_stray(front, id));
    if exists|id: Seq<char>| x == #[trigger] orphan(id) && is_stray(front, id) {
        let id = choose|id: Seq<char>| x == #[trigger] orphan(id) && is_stray(front, id);
        lemma_stray_step(attempts, id);
        assert(x == orphan(id) && is_stray(attempts, id));
    }
    if exists|id: Seq<char>| x == #[trigger] orphan(id) && is_stray(attempts, id) {
        let id = choose|id: Seq<char>| x == #[trigger] orphan(id) && is_stray(attempts, id);
        lemma_stray_step(attempts, id);
        assert(is_stray(front, id) || attempts.last() == Some((id, true)));
    }
}

/// A journal whose attempts bear ordinary names is settled exactly when no
/// attempt is opened while it is open, every one that is opened is closed
/// later, and every close meets an open one.
pub proof fn law_journals_are_settled_in_pairs(attempts: Seq<Option<(Seq<char>, bool)>>)
    requires
        no_orphan_ids(attempts),
    ensures
        attempts_through(attempts) is Some <==> opened_once(attempts),
        attempts_through(attempts) == Some(Set::<Seq<char>>::empty()) <==> opened_once(attempts) && all_closed(
            attempts,
        ) && forall|id: Seq<char>| !is_stray(attempts, id),
{
    lemma_pending(attempts);
    if attempts_through(attempts) is Some {
        let pending = attempts_through(attempts)->0;
        if pending == Set::<Seq<char>>::empty() {
            assert forall|i: int, id: Seq<char>|
                0 <= i < attempts.len() && #[trigger] attempts[i] == Some((id, false)) implies #[trigger] closed_after(
                attempts,
                i,
                id,
            ) by {
                assert(!pending.contains(id));
                assert(!is_open(attempts, id));
            }
            assert forall|id: Seq<char>| !is_stray(attempts, id) by {
                assert(!pending.contains(orphan(id)));
            }
        }
        if all_closed(attempts) && forall|id: Seq<char>| !is_stray(attempts, id) {
            assert forall|x: Seq<char>| !#[trigger] pending.contains(x) by {
                if is_open(attempts, x) {
                    let i = choose|i: int|
                        0 <= i < attempts.len() && #[trigger] attempts[i] == Some((x, false)) && forall|j: int|
                            i < j < attempts.len() ==> #[trigger] attempts[j] != Some((x, true));
                    assert(closed_after(attempts, i, x));
                }
            }
            assert(pending =~= Set::empty());
        }
    }
}

/// The sums of a session.
#[derive(Clone, Copy, Debug, PartialEq, Eq, Structural)]
pub struct Totals {
    pub tool_calls: u64,
    pub tool_allowed: u64,
    pub tool_blocked: u64,
    pub prompt_tokens: u64,
    pub completion_tokens: u64,
    pub cached_tokens: u64,
    pub cost_usd_micros: u64,
}

/// The sums of a session of which nothing is known.
pub open spec fn no_totals() -> Totals {
    Totals {
        tool_calls: 0,
        tool_allowed: 0,
        tool_blocked: 0,
        prompt_tokens: 0,
        completion_tokens: 0,
        cached_tokens: 0,
        cost_usd_micros: 0,
    }
}

/// The first sum that a record pushes too far, by its name. Signed and
/// unsigned sessions take the sums in different orders.
pub open spec fn sum_fault(t: Totals, r: Totals, workflow: Workflow) -> Option<Seq<char>> {
    let tools = if recovered_sum(t.tool_calls, r.tool_calls) is None {
        Some("tool calls"@)
    } else if recovered_sum(t.tool_allowed, r.tool_allowed) is None {
        Some("allowed tools"@)
    } else if recovered_sum(t.tool_blocked, r.tool_blocked) is None {
        Some("blocked tools"@)
    } else {
        None
    };
    let usage = if recovered_sum(t.prompt_tokens, r.prompt_tokens) is None {
        Some("prompt tokens"@)
    } else if recovered_sum(t.completion_tokens, r.completion_tokens) is None {
        Some("completion tokens"@)
    } else if recovered_sum(t.cached_tokens, r.cached_tokens) is None {
        Some("cached tokens"@)
    } else if recovered_sum(t.cost_usd_micros, r.cost_usd_micros) is None {
        Some("cost"@)
    } else {
        None
    };
    match workflow {
        Workflow::Signed => if tools is Some {
            tools
        } else {
            usage
        },
        Workflow::Unsigned => if usage is Some {
            usage
        } else {
            tools
        },
    }
}

/// The sums with those of a record added.
pub open spec fn summed(t: Totals, r: Totals) -> Totals {
    Totals {
        tool_calls: (t.tool_calls + r.tool_calls) as u64,
        tool_allowed: (t.tool_allowed + r.tool_allowed) as u64,
        tool_blocked: (t.tool_blocked + r.tool_blocked) as u64,
        prompt_tokens: (t.prompt_tokens + r.prompt_tokens) as u64,
        completion_tokens: (t.completion_tokens + r.completion_tokens) as u64,
        cached_tokens: (t.cached_tokens + r.cached_tokens) as u64,
        cost_usd_micros: (t.cost_usd_micros + r.cost_usd_micros) as u64,
    }
}

/// Adds the tool counts of a record.
fn add_tools(t: &mut Totals, r: &Totals) -> (added: Result<(), FinalizeError>)
    ensures
        match added {
            Ok(()) => {
                &&& recovered_sum(old(t).tool_calls, r.tool_calls) == Some(final(t).tool_calls)
                &&& recovered_sum(old(t).tool_allowed, r.tool_allowed) == Some(final(t).tool_allowed)
                &&& recovered_sum(old(t).tool_blocked, r.tool_blocked) == Some(final(t).tool_blocked)
                &&& final(t).prompt_tokens == old(t).prompt_tokens
                &&& final(t).completion_tokens == old(t).completion_tokens
                &&& final(t).cached_tokens == old(t).cached_tokens
                &&& final(t).cost_usd_micros == old(t).cost_usd_micros
            },
            Err(e) => e@ == atif_fault(
                "recovered "@ + (if recovered_sum(old(t).tool_calls, r.tool_calls) is None {
                    "tool calls"@
                } else if recovered_sum(old(t).tool_allowed, r.tool_allowed) is None {
                    "allowed tools"@
                } else {
                    "blocked tools"@
                }) + " overflow"@,
            ) && (recovered_sum(old(t).tool_calls, r.tool_calls) is None || recovered_sum(
                old(t).tool_allowed,
                r.tool_allowed,
            ) is None || recovered_sum(old(t).tool_blocked, r.tool_blocked) is None),
        },
{
    match checked_recovery_add(t.tool_calls, r.tool_calls, "tool calls") {
        Ok(sum) => {
            t.tool_calls = sum;
        },
        Err(e) => {
            return Err(e);
        },
    }
    match checked_recovery_add(t.tool_allowed, r.tool_allowed, "allowed tools") {
        Ok(sum) => {
            t.tool_allowed = sum;
        },
        Err(e) => {
            return Err(e);
        },
    }
    match checked_recovery_add(t.tool_blocked, r.tool_blocked, "blocked tools") {
        Ok(sum) => {
            t.tool_blocked = sum;
            Ok(())
        },
        Err(e) => Err(e),
    }
}

/// Adds the tokens and the cost of a record.
fn add_usage(t: &mut Totals, r: &Totals) -> (added: Result<(), FinalizeError>)
    ensures
        match added {
            Ok(()) => {
                &&& recovered_sum(old(t).prompt_tokens, r.prompt_tokens) == Some(final(t).prompt_tokens)
                &&& recovered_sum(old(t).completion_tokens, r.completion_tokens) == Some(final(t).completion_tokens)
                &&& recovered_sum(old(t).cached_tokens, r.cached_tokens) == Some(final(t).cached_tokens)
                &&& recovered_sum(old(t).cost_usd_micros, r.cost_usd_micros) == Some(final(t).cost_usd_micros)
                &&& final(t).tool_calls == old(t).tool_calls
                &&& final(t).tool_allowed == old(t).tool_allowed
                &&& final(t).tool_blocked == old(t).tool_blocked
            },
            Err(e) => e@ == atif_fault(
                "recovered "@ + (if recovered_sum(old(t).prompt_tokens, r.prompt_tokens) is None {
                    "prompt tokens"@
                } else if recovered_sum(old(t).completion_tokens, r.completion_tokens) is None {
                    "completion tokens"@
                } else if recovered_sum(old(t).cached_tokens, r.cached_tokens) is None {
                    "cached tokens"@
                } else {
                    "cost"@
                }) + " overflow"@,
            ) && (recovered_sum(old(t).prompt_tokens, r.prompt_tokens) is None || recovered_sum(
                old(t).completion_tokens,
                r.completion_tokens,
            ) is None || recovered_sum(old(t).cached_tokens, r.cached_tokens) is None || recovered_sum(
                old(t).cost_usd_micros,
                r.cost_usd_micros,
            ) is None),
        },
{
    match checked_recovery_add(t.prompt_tokens, r.prompt_tokens, "prompt tokens") {
        Ok(sum) => {
            t.prompt_tokens = sum;
        },
        Err(e) => {
            return Err(e);
        },
    }
    match checked_recovery_add(t.completion_tokens, r.completion_tokens, "completion tokens") {
        Ok(sum) => {
            t.completion_tokens = sum;
        },
        Err(e) => {
            return Err(e);
        },
    }
    match checked_recovery_add(t.cached_tokens, r.cached_tokens, "cached tokens") {
        Ok(sum) => {
            t.cached_tokens = sum;
        },
        Err(e) => {
            return Err(e);
        },
    }
    match checked_recovery_add(t.cost_usd_micros, r.cost_usd_micros, "cost") {
        Ok(sum) => {
            t.cost_usd_micros = sum;
            Ok(())
        },
        Err(e) => Err(e),
    }
}

/// Adds what a record counts.
pub fn add_totals(t: Totals, r: &Totals, workflow: Workflow) -> (sum: Result<Totals, FinalizeError>)
    ensures
        match (sum_fault(t, *r, workflow), sum) {
            (None, Ok(total)) => total == summed(t, *r),
            (Some(field), Err(e)) => e@ == atif_fault("recovered "@ + field + " overflow"@),
            _ => false,
        },
{
    let mut total = t;
    match workflow {
        Workflow::Signed => {
            if let Err(e) = add_tools(&mut total, r) {
                return Err(e);
            }
            if let Err(e) = add_usage(&mut total, r) {
                return Err(e);
            }
        },
        Workflow::Unsigned => {
            if let Err(e) = add_usage(&mut total, r) {
                return Err(e);
            }
            if let Err(e) = add_tools(&mut total, r) {
                return Err(e);
            }
        },
    }
    Ok(total)
}

/// A record of a journal, once it has been authenticated.
#[derive(Debug)]
pub struct JournalRecord {
    /// The session that the event belongs to.
    pub session_uid: String,
    /// The agent of the record.
    pub identity: AgentIdentity,
    /// The agent of the event in it.
    pub event_identity: AgentIdentity,
    /// The sequence number of the event.
    pub sequence: u64,
    /// Whether a trajectory step goes with it.
    pub has_step: bool,
    pub attempt: Option<ResponseAttempt>,
    pub counts: Totals,
    pub stop_reason_id: Option<u64>,
    /// What that id stands for, where it is known.
    pub stop_reason: Option<StopReason>,
}

/// A [`JournalRecord`] by its contents.
#[verifier::ext_equal]
pub struct JournalRecordView {
    pub session_uid: Seq<char>,
    pub identity: IdentityView,
    pub event_identity: IdentityView,
    pub sequence: u64,
    pub has_step: bool,
    pub attempt: Option<(Seq<char>, bool)>,
    pub counts: Totals,
    pub stop_reason_id: Option<u64>,
    pub stop_reason: Option<StopReason>,
}

impl View for JournalRecord {
    type V = JournalRecordView;

    open spec fn view(&self) -> JournalRecordView {
        JournalRecordView {
            session_uid: self.session_uid@,
            identity: self.identity@,
            event_identity: self.event_identity@,
            sequence: self.sequence,
            has_step: self.has_step,
            attempt: attempt_view(self.attempt),
            counts: self.counts,
            stop_reason_id: self.stop_reason_id,
            stop_reason: self.stop_reason,
        }
    }
}

/// A session as far as its journal has been replayed.
#[derive(Debug)]
pub struct Replay {
    pub session_id: String,
    pub workflow: Workflow,
    /// The agent that the session was opened by.
    pub bound: AgentIdentity,
    /// The agent as the last record shows it.
    pub latest: AgentIdentity,
    /// Attempts at a response that are still open.
    pub pending: TextSet,
    /// The sequence number that comes next.
    pub next: u64,
    pub totals: Totals,
    /// The last stop reason that a record gives.
    pub stop_reason_id: Option<u64>,
}

/// A [`Replay`] by its contents.
#[verifier::ext_equal]
pub struct ReplayView {
    pub session_id: Seq<char>,
    pub workflow: Workflow,
    pub bound: IdentityView,
    pub latest: IdentityView,
    pub pending: Set<Seq<char>>,
    pub next: u64,
    pub totals: Totals,
    pub stop_reason_id: Option<u64>,
}

impl View for Replay {
    type V = ReplayView;

    open spec fn view(&self) -> ReplayView {
        ReplayView {
            session_id: self.session_id@,
            workflow: self.workflow,
            bound: self.bound@,
            latest: self.latest@,
            pending: self.pending@,
            next: self.next,
            totals: self.totals,
            stop_reason_id: self.stop_reason_id,
        }
    }
}

/// The state in which the replay of a journal begins.
pub open spec fn fresh_replay(session_id: Seq<char>, workflow: Workflow, identity: IdentityView) -> ReplayView {
    ReplayView {
        session_id,
        workflow,
        bound: identity,
        latest: identity,
        pending: Set::empty(),
        next: 0,
        totals: no_totals(),
        stop_reason_id: None,
    }
}

impl ReplayView {
    /// What is wrong with the session or the agent of a record, if anything.
    pub open spec fn ownership_fault(self, r: JournalRecordView) -> Option<FinalizeErrorView> {
        match self.workflow {
            Workflow::Signed => if r.session_uid != self.session_id {
                Some(
                    atif_fault(
                        "signed journal event belongs to session "@ + headers::debug_text(r.session_uid)
                            + ", expected "@ + headers::debug_text(self.session_id),
                    ),
                )
            } else if r.has_step || r.identity != r.event_identity {
                Some(atif_fault("signed active record has inconsistent workflow or identity"@))
            } else {
                None
            },
            Workflow::Unsigned => if r.session_uid != self.session_id || r.identity != r.event_identity {
                Some(atif_fault("unsigned active record has inconsistent session or identity"@))
            } else {
                None
            },
        }
    }

    /// Why a record cannot be the next one, if it cannot.
    pub open spec fn record_fault(self, r: JournalRecordView) -> Option<FinalizeErrorView> {
        if self.ownership_fault(r) is Some {
            self.ownership_fault(r)
        } else if attempts_after(self.pending, r.attempt) is None {
            Some(atif_fault("active journal repeats a response attempt id"@))
        } else if r.sequence != self.next {
            Some(
                atif_fault(
                    match self.workflow {
                        Workflow::Signed => "signed event sequence does not match active journal index"@,
                        Workflow::Unsigned => "unsigned event sequence does not match active journal index"@,
                    },
                ),
            )
        } else if !session::same_agent(self.bound, r.identity) {
            Some(
                atif_fault(
                    match self.workflow {
                        Workflow::Signed => "active journal changed the session identity"@,
                        Workflow::Unsigned => "active journal changed the unsigned session identity"@,
                    },
                ),
            )
        } else if self.next == u64::MAX {
            Some(atif_fault("event sequence overflow"@))
        } else {
            None
        }
    }

    /// The state once a record has been taken as the next one.
    pub open spec fn checked(self, r: JournalRecordView) -> ReplayView {
        ReplayView {
            latest: r.identity,
            pending: attempts_after(self.pending, r.attempt)->0,
            next: (self.next + 1) as u64,
            ..self
        }
    }

    /// The state once what a record counts has been added.
    pub open spec fn counted(self, r: JournalRecordView) -> ReplayView {
        ReplayView {
            totals: summed(self.totals, r.counts),
            stop_reason_id: if r.stop_reason_id is Some {
                r.stop_reason_id
            } else {
                self.stop_reason_id
            },
            ..self
        }
    }

    /// The state once a record has been replayed, or why it cannot be.
    pub open spec fn absorbed(self, r: JournalRecordView) -> Result<ReplayView, FinalizeErrorView> {
        if self.record_fault(r) is Some {
            Err(self.record_fault(r)->0)
        } else if self.workflow == Workflow::Unsigned && !r.has_step {
            Err(atif_fault("unsigned active record has no ATIF step"@))
        } else {
            match sum_fault(self.totals, r.counts, self.workflow) {
                Some(field) => Err(atif_fault("recovered "@ + field + " overflow"@)),
                None => Ok(self.checked(r).counted(r)),
            }
        }
    }

    /// Whether the tool counts contradict each other.
    pub open spec fn miscounted(self) -> bool {
        self.totals.tool_allowed + self.totals.tool_blocked > self.totals.tool_calls
    }
}

/// A journal replayed from the front, or the first reason why it cannot be.
pub open spec fn replayed(start: ReplayView, records: Seq<JournalRecordView>) -> Result<ReplayView, FinalizeErrorView>
    decreases records.len(),
{
    if records.len() == 0 {
        Ok(start)
    } else {
        match replayed(start, records.drop_last()) {
            Err(e) => Err(e),
            Ok(state) => state.absorbed(records.last()),
        }
    }
}

/// Copies an identity.
pub fn copy_identity(identity: &AgentIdentity) -> (copy: AgentIdentity)
    ensures
        copy@ == identity@,
{
    AgentIdentity {
        version: identity.version.clone(),
        charter: identity.charter.clone(),
        instance_uid: identity.instance_uid.clone(),
        ttl_remaining_s: identity.ttl_remaining_s,
    }
}

/// Whether two identities are the same in every part.
fn same_identity(a: &AgentIdentity, b: &AgentIdentity) -> (same: bool)
    ensures
        same == (a@ == b@),
{
    text::same_text(a.version.as_str(), b.version.as_str()) && text::same_text(
        a.charter.as_str(),
        b.charter.as_str(),
    ) && text::same_text(a.instance_uid.as_str(), b.instance_uid.as_str()) && a.ttl_remaining_s
        == b.ttl_remaining_s
}

/// Whether two identities are of the same agent.
fn is_same_agent(a: &AgentIdentity, b: &AgentIdentity) -> (same: bool)
    ensures
        same == session::same_agent(a@, b@),
{
    text::same_text(a.instance_uid.as_str(), b.instance_uid.as_str()) && text::same_text(
        a.charter.as_str(),
        b.charter.as_str(),
    ) && text::same_text(a.version.as_str(), b.version.as_str())
}

impl Replay {
    /// Begins the replay of a journal.
    pub fn new(session_id: String, workflow: Workflow, identity: AgentIdentity) -> (replay: Replay)
        ensures
            replay@ == fresh_replay(session_id@, workflow, identity@),
    {
        Replay {
            session_id,
            workflow,
            latest: copy_identity(&identity),
            bound: identity,
            pending: TextSet::new(),
            next: 0,
            totals: Totals {
                tool_calls: 0,
                tool_allowed: 0,
                tool_blocked: 0,
                prompt_tokens: 0,
                completion_tokens: 0,
                cached_tokens: 0,
                cost_usd_micros: 0,
            },
            stop_reason_id: None,
        }
    }

    /// Whether a record is of this session and of one agent.
    fn check_ownership(&self, r: &JournalRecord) -> (checked: Result<(), FinalizeError>)
        ensures
            match checked {
                Ok(()) => self@.ownership_fault(r@) is None,
                Err(e) => self@.ownership_fault(r@) == Some(e@),
            },
    {
        let same_session: bool = text::same_text(r.session_uid.as_str(), self.session_id.as_str());
        let one_agent: bool = same_identity(&r.identity, &r.event_identity);
        match self.workflow {
            Workflow::Signed => {
                if !same_session {
                    let found: String = text::concat2(
                        "signed journal event belongs to session ",
                        headers::quoted(r.session_uid.as_str()).as_str(),
                    );
                    Err(
                        FinalizeError::Atif(
                            text::concat3(
                                found.as_str(),
                                ", expected ",
                                headers::quoted(self.session_id.as_str()).as_str(),
                            ),
                        ),
                    )
                } else if r.has_step || !one_agent {
                    Err(
                        FinalizeError::Atif(
                            "signed active record has inconsistent workflow or identity".to_owned(),
                        ),
                    )
                } else {
                    Ok(())
                }
            },
            Workflow::Unsigned => {
                if !same_session || !one_agent {
                    Err(
                        FinalizeError::Atif(
                            "unsigned active record has inconsistent session or identity".to_owned(),
                        ),
                    )
                } else {
                    Ok(())
                }
            },
        }
    }

    /// Takes a record as the next one, if it can be.
    pub fn check(&mut self, r: &JournalRecord) -> (checked: Result<(), FinalizeError>)
        ensures
            match checked {
                Ok(()) => old(self)@.record_fault(r@) is None && final(self)@ == old(self)@.checked(r@),
                Err(e) => old(self)@.record_fault(r@) == Some(e@),
            },
    {
        if let Err(e) = self.check_ownership(r) {
            return Err(e);
        }
        if let Err(e) = track_response_attempt(&mut self.pending, &r.attempt) {
            return Err(e);
        }
        if r.sequence != self.next {
            return Err(
                FinalizeError::Atif(
                    match self.workflow {
                        Workflow::Signed => {
                            "signed event sequence does not match active journal index".to_owned()
                        },
                        Workflow::Unsigned => {
                            "unsigned event sequence does not match active journal index".to_owned()
                        },
                    },
                ),
            );
        }
        if !is_same_agent(&self.bound, &r.identity) {
            return Err(
                FinalizeError::Atif(
                    match self.workflow {
                        Workflow::Signed => "active journal changed the session identity".to_owned(),
                        Workflow::Unsigned => {
                            "active journal changed the unsigned session identity".to_owned()
                        },
                    },
                ),
            );
        }
        if self.next == u64::MAX {
            return Err(FinalizeError::Atif("event sequence overflow".to_owned()));
        }
        self.latest = copy_identity(&r.identity);
        self.next = self.next + 1;
        Ok(())
    }

    /// Adds what a record counts, if the sums can hold it.
    pub fn count(&mut self, r: &JournalRecord) -> (counted: Result<(), FinalizeError>)
        ensures
            match (sum_fault(old(self)@.totals, r@.counts, old(self)@.workflow), counted) {
                (None, Ok(())) => final(self)@ == old(self)@.counted(r@),
                (Some(field), Err(e)) => e@ == atif_fault("recovered "@ + field + " overflow"@) && final(self)@ == old(
                    self,
                )@,
                _ => false,
            },
    {
        match add_totals(self.totals, &r.counts, self.workflow) {
            Ok(totals) => {
                self.totals = totals;
                if r.stop_reason_id.is_some() {
                    self.stop_reason_id = r.stop_reason_id;
                }
                Ok(())
            },
            Err(e) => Err(e),
        }
    }

    /// Whether the tool counts contradict each other.
    pub fn is_miscounted(&self) -> (miscounted: bool)
        ensures
            miscounted == self@.miscounted(),
    {
        match self.totals.tool_allowed.checked_add(self.totals.tool_blocked) {
            Some(classified) => classified > self.totals.tool_calls,
            None => true,
        }
    }
}

/// One of the sums of a list of records.
pub open spec fn sum_of(records: Seq<JournalRecordView>, field: spec_fn(Totals) -> u64) -> int
    decreases records.len(),
{
    if records.len() == 0 {
        0
    } else {
        sum_of(records.drop_last(), field) + field(records.last().counts)
    }
}

/// Whether sums are the ones of a list of records.
pub open spec fn totals_are(t: Totals, records: Seq<JournalRecordView>) -> bool {
    &&& t.tool_calls == sum_of(records, |c: Totals| c.tool_calls)
    &&& t.tool_allowed == sum_of(records, |c: Totals| c.tool_allowed)
    &&& t.tool_blocked == sum_of(records, |c: Totals| c.tool_blocked)
    &&& t.prompt_tokens == sum_of(records, |c: Totals| c.prompt_tokens)
    &&& t.completion_tokens == sum_of(records, |c: Totals| c.completion_tokens)
    &&& t.cached_tokens == sum_of(records, |c: Totals| c.cached_tokens)
    &&& t.cost_usd_micros == sum_of(records, |c: Totals| c.cost_usd_micros)
}

/// Whether every sum is one that every reader of the record can hold.
pub open spec fn totals_are_safe(t: Totals) -> bool {
    &&& t.tool_calls <= JCS_SAFE_MAX
    &&& t.tool_allowed <= JCS_SAFE_MAX
    &&& t.tool_blocked <= JCS_SAFE_MAX
    &&& t.prompt_tokens <= JCS_SAFE_MAX
    &&& t.completion_tokens <= JCS_SAFE_MAX
    &&& t.cached_tokens <= JCS_SAFE_MAX
    &&& t.cost_usd_micros <= JCS_SAFE_MAX
}

/// A journal that can be replayed numbers its records from zero without a
/// gap, all of one session and one agent, and the sums of the recovered
/// session are those of its records, each within the safe range.
pub proof fn law_replay_adds_up(
    session_id: Seq<char>,
    workflow: Workflow,
    identity: IdentityView,
    records: Seq<JournalRecordView>,
)
    requires
        replayed(fresh_replay(session_id, workflow, identity), records) is Ok,
    ensures
        ({
            let end = replayed(fresh_replay(session_id, workflow, identity), records)->Ok_0;
            &&& end.session_id == session_id && end.workflow == workflow && end.bound == identity
            &&& end.next == records.len()
            &&& totals_are(end.totals, records)
            &&& totals_are_safe(end.totals)
            &&& forall|i: int|
                0 <= i < records.len() ==> {
                    &&& (#[trigger] records[i]).sequence == i
                    &&& records[i].session_uid == session_id
                    &&& session::same_agent(identity, records[i].identity)
                    &&& records[i].has_step == (workflow == Workflow::Unsigned)
                }
        }),
    decreases records.len(),
{
    if records.len() > 0 {
        let before = records.drop_last();
        law_replay_adds_up(session_id, workflow, identity, before);
        assert forall|i: int| 0 <= i < before.len() implies #[trigger] records[i] == before[i] by {}
    }
}

/// The attempts that the records of a journal open and close.
pub open spec fn attempts_of(records: Seq<JournalRecordView>) -> Seq<Option<(Seq<char>, bool)>> {
    records.map_values(|r: JournalRecordView| r.attempt)
}

/// A replay follows the attempts of its records one by one.
proof fn lemma_replay_follows_attempts(
    session_id: Seq<char>,
    workflow: Workflow,
    identity: IdentityView,
    records: Seq<JournalRecordView>,
)
    requires
        replayed(fresh_replay(session_id, workflow, identity), records) is Ok,
    ensures
        attempts_through(attempts_of(records)) == Some(
            replayed(fresh_replay(session_id, workflow, identity), records)->Ok_0.pending,
        ),
    decreases records.len(),
{
    if records.len() > 0 {
        lemma_replay_follows_attempts(session_id, workflow, identity, records.drop_last());
        assert(attempts_of(records).drop_last() =~= attempts_of(records.drop_last()));
        assert(attempts_of(records).last() == records.last().attempt);
    }
}

/// A journal that can be replayed leaves nothing pending exactly when every
/// attempt that its records open is closed later, and every close meets an
/// open attempt.
pub proof fn law_replay_settles_paired_attempts(
    session_id: Seq<char>,
    workflow: Workflow,
    identity: IdentityView,
    records: Seq<JournalRecordView>,
)
    requires
        replayed(fresh_replay(session_id, workflow, identity), records) is Ok,
        no_orphan_ids(attempts_of(records)),
    ensures
        replayed(fresh_replay(session_id, workflow, identity), records)->Ok_0.pending == Set::<Seq<char>>::empty()
            <==> all_closed(attempts_of(records)) && forall|id: Seq<char>| !is_stray(attempts_of(records), id),
{
    lemma_replay_follows_attempts(session_id, workflow, identity, records);
    law_journals_are_settled_in_pairs(attempts_of(records));
}

/// Replaying a journal stops at the first record that cannot be right: what
/// comes behind it changes nothing.
pub proof fn law_replay_stops_at_the_first_fault(
    start: ReplayView,
    records: Seq<JournalRecordView>,
    more: Seq<JournalRecordView>,
)
    requires
        replayed(start, records) is Err,
    ensures
        replayed(start, records + more) == replayed(start, records),
    decreases more.len(),
{
    if more.len() == 0 {
        assert(records + more =~= records);
    } else {
        law_replay_stops_at_the_first_fault(start, records, more.drop_last());
        assert((records + more).drop_last() =~= records + more.drop_last());
    }
}

/// A record that belongs to the session and its agent, has the next number,
/// opens no attempt twice and adds up within the safe range, is replayed; its
/// counts, and only they, are added.
pub proof fn law_sound_records_are_replayed(state: ReplayView, r: JournalRecordView)
    requires
        r.session_uid == state.session_id,
        r.identity == r.event_identity,
        r.sequence == state.next,
        state.next < u64::MAX,
        session::same_agent(state.bound, r.identity),
        r.has_step == (state.workflow == Workflow::Unsigned),
        r.attempt matches Some((id, false)) ==> !state.pending.contains(id),
        state.totals.tool_calls + r.counts.tool_calls <= 9007199254740991,
        state.totals.tool_allowed + r.counts.tool_allowed <= 9007199254740991,
        state.totals.tool_blocked + r.counts.tool_blocked <= 9007199254740991,
        state.totals.prompt_tokens + r.counts.prompt_tokens <= 9007199254740991,
        state.totals.completion_tokens + r.counts.completion_tokens <= 9007199254740991,
        state.totals.cached_tokens + r.counts.cached_tokens <= 9007199254740991,
        state.totals.cost_usd_micros + r.counts.cost_usd_micros <= 9007199254740991,
    ensures
        state.absorbed(r) matches Ok(after) && {
            &&& after.next == state.next + 1
            &&& after.latest == r.identity
            &&& after.bound == state.bound && after.session_id == state.session_id && after.workflow == state.workflow
            &&& after.totals.tool_calls == state.totals.tool_calls + r.counts.tool_calls
            &&& after.totals.tool_allowed == state.totals.tool_allowed + r.counts.tool_allowed
            &&& after.totals.tool_blocked == state.totals.tool_blocked + r.counts.tool_blocked
            &&& after.totals.prompt_tokens == state.totals.prompt_tokens + r.counts.prompt_tokens
            &&& after.totals.completion_tokens == state.totals.completion_tokens + r.counts.completion_tokens
            &&& after.totals.cached_tokens == state.totals.cached_tokens + r.counts.cached_tokens
            &&& after.totals.cost_usd_micros == state.totals.cost_usd_micros + r.counts.cost_usd_micros
            &&& r.stop_reason_id is Some ==> after.stop_reason_id == r.stop_reason_id
            &&& r.stop_reason_id is None ==> after.stop_reason_id == state.stop_reason_id
        },
{
}

/// A record that is not sound is not replayed: one of another session, of
/// another agent or with two agents, out of order, or without the step that
/// its workflow wants.
pub proof fn law_unsound_records_are_not_replayed(state: ReplayView, r: JournalRecordView)
    requires
        r.session_uid != state.session_id || r.identity != r.event_identity || r.sequence != state.next
            || !session::same_agent(state.bound, r.identity) || r.has_step != (state.workflow == Workflow::Unsigned)
            || (r.attempt matches Some((id, false)) && state.pending.contains(id)),
    ensures
        state.absorbed(r) is Err,
        state.absorbed(r)->Err_0 is Atif,
{
}

/// The reason on record for the end of a session is the last that a record
/// gives.
pub proof fn law_the_last_stop_reason_counts(start: ReplayView, records: Seq<JournalRecordView>)
    requires
        start.stop_reason_id is None,
        replayed(start, records) is Ok,
    ensures
        ({
            let end = replayed(start, records)->Ok_0.stop_reason_id;
            &&& end is None <==> forall|i: int| 0 <= i < records.len() ==> (#[trigger] records[i]).stop_reason_id is None
            &&& end is Some ==> exists|i: int|
                0 <= i < records.len() && (#[trigger] records[i]).stop_reason_id == end && forall|j: int|
                    i < j < records.len() ==> (#[trigger] records[j]).stop_reason_id is None
        }),
    decreases records.len(),
{
    if records.len() > 0 {
        let front = records.drop_last();
        law_the_last_stop_reason_counts(start, front);
        assert(forall|i: int| 0 <= i < front.len() ==> #[trigger] front[i] == records[i]);
        assert(forall|i: int| 0 <= i < front.len() ==> front[i] == #[trigger] records[i]);
        assert(records[records.len() - 1] == records.last());
        let before = replayed(start, front)->Ok_0.stop_reason_id;
        if records.last().stop_reason_id is None && before is Some {
            let i = choose|i: int|
                0 <= i < front.len() && (#[trigger] front[i]).stop_reason_id == before && forall|j: int|
                    i < j < front.len() ==> (#[trigger] front[j]).stop_reason_id is None;
            assert(records[i].stop_reason_id == before);
            assert(forall|j: int| i < j < records.len() ==> (#[trigger] records[j]).stop_reason_id is None);
        }
    }
}

/// Tool counts contradict each other exactly where more calls were decided
/// than made.
pub proof fn law_more_decisions_than_calls_are_noticed(state: ReplayView)
    ensures
        state.miscounted() <==> state.totals.tool_calls < state.totals.tool_allowed + state.totals.tool_blocked,
{
}

/// A record that does not fit the session is refused for the first thing
/// that does not.
pub proof fn law_refused_records_are_told_why(replay: ReplayView, r: JournalRecordView)
    ensures
        replay.workflow == Workflow::Signed && r.session_uid != replay.session_id ==> replay.record_fault(r) == Some(
            FinalizeErrorView::Atif(
                "signed journal event belongs to session "@ + headers::debug_text(r.session_uid) + ", expected "@
                    + headers::debug_text(replay.session_id),
            ),
        ),
        replay.workflow == Workflow::Unsigned && r.session_uid != replay.session_id ==> replay.record_fault(r) == Some(
            FinalizeErrorView::Atif("unsigned active record has inconsistent session or identity"@),
        ),
        replay.workflow == Workflow::Signed && r.session_uid == replay.session_id && (r.has_step || r.identity
            != r.event_identity) ==> replay.record_fault(r) == Some(
            FinalizeErrorView::Atif("signed active record has inconsistent workflow or identity"@),
        ),
        replay.ownership_fault(r) is None && (r.attempt matches Some((id, ended)) && !ended && replay.pending.contains(id))
            ==> replay.record_fault(r) == Some(
            FinalizeErrorView::Atif("active journal repeats a response attempt id"@),
        ),
        replay.ownership_fault(r) is None && r.attempt is None && r.sequence != replay.next ==> replay.record_fault(r)
            == Some(
            FinalizeErrorView::Atif(
                match replay.workflow {
                    Workflow::Signed => "signed event sequence does not match active journal index"@,
                    Workflow::Unsigned => "unsigned event sequence does not match active journal index"@,
                },
            ),
        ),
        replay.ownership_fault(r) is None && r.attempt is None && r.sequence == replay.next && !session::same_agent(
            replay.bound,
            r.identity,
        ) ==> replay.record_fault(r) == Some(
            FinalizeErrorView::Atif(
                match replay.workflow {
                    Workflow::Signed => "active journal changed the session identity"@,
                    Workflow::Unsigned => "active journal changed the unsigned session identity"@,
                },
            ),
        ),
        replay.record_fault(r) is None && replay.workflow == Workflow::Unsigned && !r.has_step ==> replay.absorbed(r)
            == Err::<ReplayView, FinalizeErrorView>(
            FinalizeErrorView::Atif("unsigned active record has no ATIF step"@),
        ),
{
}

/// A total that would grow beyond what a receipt can hold is named; what was
/// spent and what the tools did are each looked at in their order.
pub proof fn law_overgrown_totals_are_named(t: Totals, r: Totals, workflow: Workflow)
    ensures
        sum_fault(t, r, workflow) is None <==> {
            &&& t.tool_calls + r.tool_calls <= 9007199254740991
            &&& t.tool_allowed + r.tool_allowed <= 9007199254740991
            &&& t.tool_blocked + r.tool_blocked <= 9007199254740991
            &&& t.prompt_tokens + r.prompt_tokens <= 9007199254740991
            &&& t.completion_tokens + r.completion_tokens <= 9007199254740991
            &&& t.cached_tokens + r.cached_tokens <= 9007199254740991
            &&& t.cost_usd_micros + r.cost_usd_micros <= 9007199254740991
        },
        sum_fault(t, r, workflow) == Some("tool calls"@) ==> t.tool_calls + r.tool_calls > 9007199254740991,
        sum_fault(t, r, workflow) == Some("allowed tools"@) ==> t.tool_allowed + r.tool_allowed > 9007199254740991,
        sum_fault(t, r, workflow) == Some("blocked tools"@) ==> t.tool_blocked + r.tool_blocked > 9007199254740991,
        sum_fault(t, r, workflow) == Some("prompt tokens"@) ==> t.prompt_tokens + r.prompt_tokens > 9007199254740991,
        sum_fault(t, r, workflow) == Some("completion tokens"@) ==> t.completion_tokens + r.completion_tokens
            > 9007199254740991,
        sum_fault(t, r, workflow) == Some("cached tokens"@) ==> t.cached_tokens + r.cached_tokens > 9007199254740991,
        sum_fault(t, r, workflow) == Some("cost"@) ==> t.cost_usd_micros + r.cost_usd_micros > 9007199254740991,
        sum_fault(t, r, workflow) matches Some(name) ==> {
            ||| name == "tool calls"@
            ||| name == "allowed tools"@
            ||| name == "blocked tools"@
            ||| name == "prompt tokens"@
            ||| name == "completion tokens"@
            ||| name == "cached tokens"@
            ||| name == "cost"@
        },
        workflow == Workflow::Signed && t.tool_calls + r.tool_calls > 9007199254740991 ==> sum_fault(t, r, workflow)
            == Some("tool calls"@),
        workflow == Workflow::Unsigned && t.prompt_tokens + r.prompt_tokens > 9007199254740991 ==> sum_fault(
            t,
            r,
            workflow,
        ) == Some("prompt tokens"@),
{
    reveal_strlit("tool calls");
    reveal_strlit("allowed tools");
    reveal_strlit("blocked tools");
    reveal_strlit("prompt tokens");
    reveal_strlit("completion tokens");
    reveal_strlit("cached tokens");
    reveal_strlit("cost");
    assert("tool calls"@.len() == 10 && "cost"@.len() == 4 && "completion tokens"@.len() == 17);
    assert("allowed tools"@.len() == 13 && "blocked tools"@.len() == 13 && "prompt tokens"@.len() == 13 && "cached tokens"@.len()
        == 13);
    assert("allowed tools"@[0] == 'a' && "blocked tools"@[0] == 'b' && "prompt tokens"@[0] == 'p' && "cached tokens"@[0]
        == 'c');
}

/// A total that cannot grow any further stops the replay, and so does a
/// sequence that has come to its end.
pub proof fn law_overflows_are_told(replay: ReplayView, r: JournalRecordView)
    ensures
        replay.record_fault(r) is None && (replay.workflow == Workflow::Unsigned ==> r.has_step) && sum_fault(
            replay.totals,
            r.counts,
            replay.workflow,
        ) is Some ==> replay.absorbed(r) == Err::<ReplayView, FinalizeErrorView>(
            FinalizeErrorView::Atif(
                "recovered "@ + sum_fault(replay.totals, r.counts, replay.workflow)->0 + " overflow"@,
            ),
        ),
        replay.next == u64::MAX ==> replay.record_fault(r) is Some,
        replay.ownership_fault(r) is None && r.attempt is None && r.sequence == replay.next && session::same_agent(
            replay.bound,
            r.identity,
        ) && replay.next == u64::MAX ==> replay.record_fault(r) == Some(
            FinalizeErrorView::Atif("event sequence overflow"@),
        ),
{
}

} // verus!
