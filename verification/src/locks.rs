//! The table of the locks that keep the closing, the promotion and the
//! recovery of one session apart.
//!
//! A session has a lock for as long as anyone uses it: the one who holds it,
//! and those who wait for it. All of them are given the same lock, and the
//! last one to go takes the entry along. Locks are told apart by numbers.

use vstd::prelude::*;

verus! {

/// A `dashmap::DashMap`, a map that is kept in shards.
#[verifier::external_type_specification]
#[verifier::external_body]
#[verifier::reject_recursive_types(K)]
#[verifier::reject_recursive_types(V)]
#[verifier::reject_recursive_types(S)]
pub struct ExDashMap<K, V, S>(dashmap::DashMap<K, V, S>);

/// What a map holds by session: the number of a lock and how many use it.
pub uninterp spec fn held_locks(map: dashmap::DashMap<String, (u64, u64)>) -> Map<Seq<char>, (u64, u64)>;

/// `dashmap::DashMap::new` makes a map that holds nothing.
#[verifier::external_body]
fn empty_map() -> (empty: dashmap::DashMap<String, (u64, u64)>)
    ensures
        (held_locks(empty) == Map::<Seq<char>, (u64, u64)>::empty()),
{
    dashmap::DashMap::new()
}

/// `dashmap::DashMap::get` finds what the map holds under a key.
#[verifier::external_body]
fn look_up(map: &dashmap::DashMap<String, (u64, u64)>, session: &str) -> (found: Option<(u64, u64)>)
    ensures
        found == (if held_locks(*map).contains_key(session@) {
            Some(held_locks(*map)[session@])
        } else {
            None
        }),
{
    map.get(session).map(|entry| *entry.value())
}

/// `dashmap::DashMap::insert` puts a value under a key, in place of the one
/// that was there.
#[verifier::external_body]
fn put_in(map: &mut dashmap::DashMap<String, (u64, u64)>, session: String, entry: (u64, u64))
    ensures
        held_locks(*final(map)) == held_locks(*old(map)).insert(session@, entry),
{
    map.insert(session, entry);
}

/// `dashmap::DashMap::remove` takes out what is under a key, if anything is.
#[verifier::external_body]
fn take_out(map: &mut dashmap::DashMap<String, (u64, u64)>, session: &str)
    ensures
        held_locks(*final(map)) == held_locks(*old(map)).remove(session@),
{
    map.remove(session);
}

/// `dashmap::DashMap::len` counts what the map holds.
#[verifier::external_body]
fn count_of(map: &dashmap::DashMap<String, (u64, u64)>) -> (n: usize)
    ensures
        n == held_locks(*map).len(),
{
    map.len()
}

/// The lock of a session and how many use it.
#[verifier::ext_equal]
pub struct LockView {
    pub lock: u64,
    pub users: nat,
}

/// The locks that are in use, by session.
pub struct SessionLockTable {
    map: dashmap::DashMap<String, (u64, u64)>,
}

/// What an entry says.
spec fn entry_view(entry: (u64, u64)) -> LockView {
    LockView { lock: entry.0, users: entry.1 as nat }
}

/// The table after someone has asked for the lock of a session. `fresh` is
/// the lock that the session gets if it has none.
pub open spec fn acquired(table: Map<Seq<char>, LockView>, session: Seq<char>, fresh: u64) -> Map<
    Seq<char>,
    LockView,
> {
    if table.contains_key(session) {
        table.insert(session, LockView { lock: table[session].lock, users: table[session].users + 1 })
    } else {
        table.insert(session, LockView { lock: fresh, users: 1 })
    }
}

/// The table after someone is done with the lock of a session.
pub open spec fn released(table: Map<Seq<char>, LockView>, session: Seq<char>) -> Map<Seq<char>, LockView> {
    if !table.contains_key(session) {
        table
    } else if table[session].users <= 1 {
        table.remove(session)
    } else {
        table.insert(
            session,
            LockView { lock: table[session].lock, users: (table[session].users - 1) as nat },
        )
    }
}

/// How many use the lock of a session.
pub open spec fn users_in(table: Map<Seq<char>, LockView>, session: Seq<char>) -> nat {
    if table.contains_key(session) {
        table[session].users
    } else {
        0
    }
}

impl View for SessionLockTable {
    type V = Map<Seq<char>, LockView>;

    closed spec fn view(&self) -> Map<Seq<char>, LockView> {
        held_locks(self.map).map_values(|entry: (u64, u64)| entry_view(entry))
    }
}

impl SessionLockTable {
    /// Every lock in the table is in use.
    pub closed spec fn wf(self) -> bool {
        &&& held_locks(self.map).dom().finite()
        &&& forall|session: Seq<char>| #[trigger]
            held_locks(self.map).contains_key(session) ==> held_locks(self.map)[session].1 > 0
    }

    /// A table without locks.
    pub fn new() -> (table: SessionLockTable)
        ensures
            table.wf(),
            table@ == Map::<Seq<char>, LockView>::empty(),
    {
        let table = SessionLockTable { map: empty_map() };
        assert(table@ =~= Map::empty());
        table
    }

    /// How many sessions have a lock.
    pub fn len(&self) -> (n: usize)
        requires
            self.wf(),
        ensures
            n == self@.len(),
            self@.dom().finite(),
    {
        assert(self@.dom() =~= held_locks(self.map).dom());
        count_of(&self.map)
    }

    /// How many use the lock of a session.
    pub fn users(&self, session: &str) -> (n: u64)
        requires
            self.wf(),
        ensures
            n == users_in(self@, session@),
    {
        match look_up(&self.map, session) {
            Some(entry) => entry.1,
            None => 0,
        }
    }

    /// The lock of a session, for one more who is going to wait for it.
    /// `fresh` becomes the lock of a session that has none.
    pub fn lock_for(&mut self, session: &str, fresh: u64) -> (lock: u64)
        requires
            old(self).wf(),
            users_in(old(self)@, session@) < u64::MAX,
        ensures
            final(self).wf(),
            final(self)@ == acquired(old(self)@, session@, fresh),
            lock == final(self)@[session@].lock,
    {
        let entry: (u64, u64) = match look_up(&self.map, session) {
            Some(entry) => (entry.0, entry.1 + 1),
            None => (fresh, 1),
        };
        put_in(&mut self.map, session.to_owned(), entry);
        assert(self@ =~= acquired(old(self)@, session@, fresh));
        entry.0
    }

    /// Someone is done with the lock of a session. The last one takes the
    /// entry along; the result is the lock that is no longer needed.
    pub fn release(&mut self, session: &str) -> (dropped: Option<u64>)
        requires
            old(self).wf(),
        ensures
            final(self).wf(),
            final(self)@ == released(old(self)@, session@),
            dropped == (if users_in(old(self)@, session@) == 1 {
                Some(old(self)@[session@].lock)
            } else {
                None
            }),
    {
        let dropped: Option<u64> = match look_up(&self.map, session) {
            Some(entry) => {
                if entry.1 > 1 {
                    put_in(&mut self.map, session.to_owned(), (entry.0, entry.1 - 1));
                    None
                } else {
                    take_out(&mut self.map, session);
                    Some(entry.0)
                }
            },
            None => None,
        };
        assert(self@ =~= released(old(self)@, session@));
        dropped
    }
}

/// One step in the life of a table.
pub enum LockStep {
    /// Someone asks for the lock of a session.
    Acquire { session: Seq<char>, fresh: u64 },
    /// Someone is done with the lock of a session.
    Release { session: Seq<char> },
}

impl LockStep {
    /// The session that the step is about.
    pub open spec fn session(self) -> Seq<char> {
        match self {
            LockStep::Acquire { session, .. } => session,
            LockStep::Release { session } => session,
        }
    }
}

/// The table after some steps.
pub open spec fn table_after(table: Map<Seq<char>, LockView>, steps: Seq<LockStep>) -> Map<
    Seq<char>,
    LockView,
>
    decreases steps.len(),
{
    if steps.len() == 0 {
        table
    } else {
        let before = table_after(table, steps.drop_last());
        match steps.last() {
            LockStep::Acquire { session, fresh } => acquired(before, session, fresh),
            LockStep::Release { session } => released(before, session),
        }
    }
}

/// How many more have asked for the lock of a session than are done with it.
pub open spec fn open_uses(steps: Seq<LockStep>, session: Seq<char>) -> int
    decreases steps.len(),
{
    if steps.len() == 0 {
        0
    } else {
        open_uses(steps.drop_last(), session) + (match steps.last() {
            LockStep::Acquire { session: s, .. } => if s == session {
                1int
            } else {
                0
            },
            LockStep::Release { session: s } => if s == session {
                -1
            } else {
                0
            },
        })
    }
}

/// Whether nobody is done with a lock who has not asked for it.
pub open spec fn orderly(steps: Seq<LockStep>) -> bool {
    forall|n: int, session: Seq<char>| 0 <= n <= steps.len() ==> #[trigger] open_uses(steps.take(n), session) >= 0
}

/// The front part of orderly steps is orderly.
proof fn lemma_orderly_front(steps: Seq<LockStep>)
    requires
        orderly(steps),
        steps.len() > 0,
    ensures
        orderly(steps.drop_last()),
{
    let front = steps.drop_last();
    assert forall|n: int, session: Seq<char>| 0 <= n <= front.len() implies #[trigger] open_uses(
        front.take(n),
        session,
    ) >= 0 by {
        assert(front.take(n) =~= steps.take(n));
    }
}

/// Whoever asks for the lock of a session while anyone uses it is given the
/// lock that is in use, whatever happens to other sessions meanwhile: there
/// is never a second lock beside it.
pub proof fn law_a_used_lock_is_shared(
    table: Map<Seq<char>, LockView>,
    steps: Seq<LockStep>,
    session: Seq<char>,
)
    requires
        forall|n: int|
            0 <= n <= steps.len() ==> #[trigger] table_after(table, steps.take(n)).contains_key(session),
    ensures
        table_after(table, steps).contains_key(session),
        table_after(table, steps)[session].lock == table[session].lock,
    decreases steps.len(),
{
    assert(steps.take(steps.len() as int) =~= steps);
    if steps.len() > 0 {
        let front = steps.drop_last();
        assert forall|n: int| 0 <= n <= front.len() implies #[trigger] table_after(table, front.take(n)).contains_key(
            session,
        ) by {
            assert(front.take(n) =~= steps.take(n));
        }
        law_a_used_lock_is_shared(table, front, session);
        let before = table_after(table, front);
        assert(before.contains_key(session) && before[session].lock == table[session].lock);
        assert(table_after(table, steps).contains_key(session));
    }
}

/// A step that is about another session leaves a session's lock and its
/// users as they are.
pub proof fn law_other_sessions_are_undisturbed(
    table: Map<Seq<char>, LockView>,
    step: LockStep,
    session: Seq<char>,
)
    requires
        step.session() != session,
    ensures
        table_after(table, seq![step]).contains_key(session) == table.contains_key(session),
        table.contains_key(session) ==> table_after(table, seq![step])[session] == table[session],
{
    assert(seq![step].drop_last() =~= Seq::empty());
    assert(table_after(table, seq![step].drop_last()) == table);
}

/// The table holds the locks that are in use and no others: a session has an
/// entry as long as more have asked for its lock than are done with it, and
/// once all are done the table is empty.
pub proof fn law_unused_locks_are_dropped(steps: Seq<LockStep>)
    requires
        orderly(steps),
    ensures
        forall|session: Seq<char>|
            #![trigger open_uses(steps, session)]
            table_after(Map::empty(), steps).contains_key(session) == (open_uses(steps, session) > 0) && users_in(
                table_after(Map::empty(), steps),
                session,
            ) == open_uses(steps, session),
        (forall|session: Seq<char>| #[trigger] open_uses(steps, session) == 0) ==> table_after(Map::empty(), steps)
            == Map::<Seq<char>, LockView>::empty(),
    decreases steps.len(),
{
    let table = table_after(Map::<Seq<char>, LockView>::empty(), steps);
    if steps.len() > 0 {
        let front = steps.drop_last();
        let before = table_after(Map::<Seq<char>, LockView>::empty(), front);
        lemma_orderly_front(steps);
        law_unused_locks_are_dropped(front);
        assert forall|session: Seq<char>| #![trigger open_uses(steps, session)] table.contains_key(session) == (open_uses(
            steps,
            session,
        ) > 0) && users_in(table, session) == open_uses(steps, session) by {
            assert(steps.take(steps.len() as int) =~= steps);
            assert(open_uses(steps.take(steps.len() as int), session) >= 0);
            assert(users_in(before, session) == open_uses(front, session));
            assert(users_in(before, steps.last().session()) == open_uses(front, steps.last().session()));
        }
    }
    if forall|session: Seq<char>| #[trigger] open_uses(steps, session) == 0 {
        assert forall|session: Seq<char>| !#[trigger] table.contains_key(session) by {
            assert(open_uses(steps, session) == 0);
        }
        assert(table =~= Map::empty());
    }
}

/// Every lock in the table was brought along by someone who asked for the
/// lock of that session.
proof fn lemma_locks_were_brought(steps: Seq<LockStep>, session: Seq<char>)
    requires
        table_after(Map::empty(), steps).contains_key(session),
    ensures
        exists|k: int|
            0 <= k < steps.len() && #[trigger] steps[k] == (LockStep::Acquire {
                session,
                fresh: table_after(Map::empty(), steps)[session].lock,
            }),
    decreases steps.len(),
{
    let front = steps.drop_last();
    let before = table_after(Map::<Seq<char>, LockView>::empty(), front);
    let lock = table_after(Map::<Seq<char>, LockView>::empty(), steps)[session].lock;
    if before.contains_key(session) {
        lemma_locks_were_brought(front, session);
        let k = choose|k: int|
            0 <= k < front.len() && #[trigger] front[k] == (LockStep::Acquire {
                session,
                fresh: before[session].lock,
            });
        assert(steps[k] == LockStep::Acquire { session, fresh: lock });
    } else {
        assert(steps[steps.len() - 1] == LockStep::Acquire { session, fresh: lock });
    }
}

/// Sessions do not wait for each other: where no two who ask bring the same
/// lock along, two sessions never have the same lock.
pub proof fn law_sessions_have_locks_of_their_own(steps: Seq<LockStep>, a: Seq<char>, b: Seq<char>)
    requires
        forall|i: int, j: int|
            #![trigger steps[i], steps[j]]
            0 <= i < j < steps.len() && steps[i] is Acquire && steps[j] is Acquire ==> steps[i]->fresh
                != steps[j]->fresh,
        table_after(Map::empty(), steps).contains_key(a),
        table_after(Map::empty(), steps).contains_key(b),
        a != b,
    ensures
        table_after(Map::empty(), steps)[a].lock != table_after(Map::empty(), steps)[b].lock,
{
    let table = table_after(Map::<Seq<char>, LockView>::empty(), steps);
    lemma_locks_were_brought(steps, a);
    lemma_locks_were_brought(steps, b);
    let i = choose|k: int|
        0 <= k < steps.len() && #[trigger] steps[k] == (LockStep::Acquire { session: a, fresh: table[a].lock });
    let j = choose|k: int|
        0 <= k < steps.len() && #[trigger] steps[k] == (LockStep::Acquire { session: b, fresh: table[b].lock });
    assert(i != j);
}

} // verus!
