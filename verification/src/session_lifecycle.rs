//! Session lifecycle state for queued writers.
//!
//! While a writer waits for its turn, an operator can delete the session, and the
//! turn before it can still be finalizing. Writers capture a session's
//! generations before they wait and compare after: any change means that what
//! they were prepared against is gone.

use vstd::prelude::*;

use crate::strmap::StrMap;

verus! {

/// A session's deletion generation, captured before a writer starts waiting.
#[derive(Debug, Clone, Copy, PartialEq, Eq, Structural)]
pub struct DeletionGeneration(u64);

/// A session transcript's persistence-failure generation.
#[derive(Debug, Clone, Copy, PartialEq, Eq, Structural)]
pub struct PersistenceGeneration(u64);

impl DeletionGeneration {
    /// How many deletions it counts.
    pub closed spec fn count(self) -> u64 {
        self.0
    }
}

impl PersistenceGeneration {
    /// How many failures it counts.
    pub closed spec fn count(self) -> u64 {
        self.0
    }
}

/// The counters of one session.
#[derive(Debug, Clone, Copy, PartialEq, Eq, Structural)]
pub struct SessionAuthority {
    pub deletion: u64,
    pub persistence_failure: u64,
}

impl View for SessionAuthority {
    type V = SessionAuthority;

    open spec fn view(&self) -> SessionAuthority {
        *self
    }
}

/// How many turns hold a session in the finalizing state.
struct Holds {
    count: u64,
}

impl View for Holds {
    type V = u64;

    closed spec fn view(&self) -> u64 {
        self.count
    }
}

/// Why a queued writer cannot mutate the session it was prepared against.
#[derive(Debug, Clone, Copy, PartialEq, Eq, Structural)]
pub enum MutationRejection {
    Deleted,
    PersistenceChanged,
}

/// Completion-scoped authority to publish a session's persistence disposition.
pub struct SessionDisposition {
    persistence_failure: u64,
}

impl SessionDisposition {
    /// The failures counted so far.
    pub closed spec fn failures(&self) -> u64 {
        self.persistence_failure
    }

    /// Record a failed or partial persistence attempt without releasing mutation
    /// authority. Every writer prepared against an earlier generation will
    /// independently observe the increment.
    pub fn record_persistence_failure(&mut self)
        ensures
            final(self).failures() == next(old(self).failures()),
    {
        self.persistence_failure = self.persistence_failure.saturating_add(1);
    }
}

/// One more, stopping at the largest number.
pub open spec fn next(n: u64) -> u64 {
    if n < u64::MAX {
        (n + 1) as u64
    } else {
        n
    }
}

/// The lifecycle state of all sessions.
#[verifier::ext_equal]
pub struct LifecycleView {
    pub authorities: Map<Seq<char>, SessionAuthority>,
    pub finalizing: Map<Seq<char>, u64>,
}

impl LifecycleView {
    /// A session's counters; a session never seen counts nothing.
    pub open spec fn authority(self, key: Seq<char>) -> SessionAuthority {
        if self.authorities.contains_key(key) {
            self.authorities[key]
        } else {
            SessionAuthority { deletion: 0, persistence_failure: 0 }
        }
    }

    /// A completion of the session that was handed the failure count `entered` and
    /// left it at `left` leads to `after`.
    pub open spec fn completes(
        self,
        key: Seq<char>,
        entered: u64,
        left: u64,
        after: LifecycleView,
    ) -> bool {
        &&& entered == self.authority(key).persistence_failure
        &&& after == (LifecycleView {
            authorities: self.authorities.insert(
                key,
                SessionAuthority { persistence_failure: left, ..self.authority(key) },
            ),
            ..self
        })
    }

    /// After a session has been deleted.
    pub open spec fn deleted(self, key: Seq<char>) -> LifecycleView {
        LifecycleView {
            authorities: self.authorities.insert(
                key,
                SessionAuthority {
                    deletion: next(self.authority(key).deletion),
                    ..self.authority(key)
                },
            ),
            ..self
        }
    }

    /// After one more finalization of a session has begun.
    pub open spec fn began(self, key: Seq<char>) -> LifecycleView {
        LifecycleView {
            finalizing: self.finalizing.insert(key, (self.holds(key) + 1) as u64),
            ..self
        }
    }

    /// After one finalization of a session has ended; the last one takes the entry
    /// with it.
    pub open spec fn ended(self, key: Seq<char>) -> LifecycleView {
        LifecycleView {
            finalizing: if self.holds(key) > 1 {
                self.finalizing.insert(key, (self.holds(key) - 1) as u64)
            } else {
                self.finalizing.remove(key)
            },
            ..self
        }
    }

    /// After a session's finalizations have been forgotten.
    pub open spec fn forgotten(self, key: Seq<char>) -> LifecycleView {
        LifecycleView { finalizing: self.finalizing.remove(key), ..self }
    }

    /// Every session that has an entry is held at least once.
    pub open spec fn positive(self) -> bool {
        forall|key: Seq<char>| #[trigger]
            self.finalizing.contains_key(key) ==> self.finalizing[key] > 0
    }

    /// How many finalizations of a session are under way.
    pub open spec fn holds(self, key: Seq<char>) -> nat {
        if self.finalizing.contains_key(key) {
            self.finalizing[key] as nat
        } else {
            0
        }
    }
}

/// Tracks per-session lifecycle authority and in-progress finalization.
pub struct SessionLifecycle {
    authorities: StrMap<SessionAuthority>,
    finalizing: StrMap<Holds>,
}

impl View for SessionLifecycle {
    type V = LifecycleView;

    closed spec fn view(&self) -> LifecycleView {
        LifecycleView { authorities: self.authorities@, finalizing: self.finalizing@ }
    }
}

impl SessionLifecycle {
    /// Nothing deleted, nothing failed, nothing finalizing.
    pub fn new() -> (r: Self)
        ensures
            r@ == (LifecycleView { authorities: Map::empty(), finalizing: Map::empty() }),
    {
        SessionLifecycle { authorities: StrMap::new(), finalizing: StrMap::new() }
    }

    fn authority_for(&self, session_key: &str) -> (r: SessionAuthority)
        ensures
            r == self@.authority(session_key@),
    {
        match self.authorities.get(session_key) {
            Some(a) => *a,
            None => SessionAuthority { deletion: 0, persistence_failure: 0 },
        }
    }

    /// Acquire completion authority for the turn's original incarnation.
    ///
    /// Persistence failure is an outcome this completion may publish, not a
    /// reason to reject its own disposition, so only deletion is checked.
    /// `complete` may be called only where the deletion generation is current,
    /// so a completion of a dead incarnation never runs.
    pub fn with_completion<R, F: FnOnce(&mut SessionDisposition) -> R>(
        &mut self,
        session_key: &str,
        deletion: DeletionGeneration,
        complete: F,
    ) -> (r: Option<R>)
        requires
            deletion.count() == old(self)@.authority(session_key@).deletion ==> forall|
                d: &mut SessionDisposition,
            | #[trigger] complete.requires((d,)),
        ensures
            r is Some <==> deletion.count() == old(self)@.authority(session_key@).deletion,
            r is None ==> final(self)@ == old(self)@,
            r matches Some(v) ==> exists|d: &mut SessionDisposition| #[trigger]
                complete.ensures((d,), v) && old(self)@.completes(
                    session_key@,
                    d.failures(),
                    final(d).failures(),
                    final(self)@,
                ),
    {
        let authority = self.authority_for(session_key);
        if authority.deletion != deletion.0 {
            return None;
        }
        let mut disposition = SessionDisposition {
            persistence_failure: authority.persistence_failure,
        };
        let value = complete(&mut disposition);
        assert(exists|d: &mut SessionDisposition|
            {
                &&& d.failures() == authority.persistence_failure
                &&& #[trigger] complete.ensures((d,), value)
                &&& final(d).failures() == disposition.failures()
            });
        self.authorities.insert(
            session_key.to_owned(),
            SessionAuthority {
                deletion: authority.deletion,
                persistence_failure: disposition.persistence_failure,
            },
        );
        let ghost v = value;
        let out = Some(value);
        assert(exists|d: &mut SessionDisposition| #[trigger]
            complete.ensures((d,), v) && old(self)@.completes(
                session_key@,
                d.failures(),
                final(d).failures(),
                self@,
            ) && out->0 == v);
        out
    }

    /// Read `session_key`'s current deletion generation.
    ///
    /// Callers capture this before they wait and compare after.
    pub fn deletion_generation(&self, session_key: &str) -> (r: DeletionGeneration)
        ensures
            r.count() == self@.authority(session_key@).deletion,
    {
        DeletionGeneration(self.authority_for(session_key).deletion)
    }

    /// Record that `session_key` was deleted, invalidating every writer that
    /// captured a generation before this call.
    pub fn record_deletion(&mut self, session_key: &str)
        ensures
            final(self)@ == old(self)@.deleted(session_key@),
    {
        self.with_deletion(session_key, || -> (u: ()) {  })
    }

    /// True when `session_key` was deleted since `captured` was read.
    pub fn deleted_since(&self, session_key: &str, captured: DeletionGeneration) -> (r: bool)
        ensures
            r == (self@.authority(session_key@).deletion != captured.count()),
    {
        self.deletion_generation(session_key).0 != captured.0
    }

    /// Read the persistence-failure generation current for a writer's snapshot.
    pub fn persistence_generation(&self, session_key: &str) -> (r: PersistenceGeneration)
        ensures
            r.count() == self@.authority(session_key@).persistence_failure,
    {
        PersistenceGeneration(self.authority_for(session_key).persistence_failure)
    }

    /// Acquire mutation authority for a queued writer. `mutate` may be called only
    /// where neither generation has moved, so a stale write never runs.
    pub fn with_write<R, F: FnOnce() -> R>(
        &self,
        session_key: &str,
        deletion: DeletionGeneration,
        persistence: PersistenceGeneration,
        mutate: F,
    ) -> (r: Result<R, MutationRejection>)
        requires
            deletion.count() == self@.authority(session_key@).deletion && persistence.count()
                == self@.authority(session_key@).persistence_failure ==> mutate.requires(()),
        ensures
            match r {
                Ok(v) => {
                    &&& deletion.count() == self@.authority(session_key@).deletion
                    &&& persistence.count() == self@.authority(session_key@).persistence_failure
                    &&& mutate.ensures((), v)
                },
                Err(MutationRejection::Deleted) => deletion.count() != self@.authority(
                    session_key@,
                ).deletion,
                Err(MutationRejection::PersistenceChanged) => {
                    &&& deletion.count() == self@.authority(session_key@).deletion
                    &&& persistence.count() != self@.authority(session_key@).persistence_failure
                },
            },
    {
        let authority = self.authority_for(session_key);
        if authority.deletion != deletion.0 {
            return Err(MutationRejection::Deleted);
        }
        if authority.persistence_failure != persistence.0 {
            return Err(MutationRejection::PersistenceChanged);
        }
        Ok(mutate())
    }

    /// Advance the deletion generation and run `delete`.
    pub fn with_deletion<R, F: FnOnce() -> R>(&mut self, session_key: &str, delete: F) -> (r: R)
        requires
            delete.requires(()),
        ensures
            delete.ensures((), r),
            final(self)@ == old(self)@.deleted(session_key@),
    {
        let authority = self.authority_for(session_key);
        self.authorities.insert(
            session_key.to_owned(),
            SessionAuthority {
                deletion: authority.deletion.saturating_add(1),
                persistence_failure: authority.persistence_failure,
            },
        );
        delete()
    }

    /// Mark a turn as finalizing: it has stopped streaming but its messages
    /// are not yet persisted and its turn version is not yet resolved.
    ///
    /// Held as a count rather than a flag so overlapping finalizations cannot
    /// clear each other's state early.
    pub fn begin_finalizing(&mut self, session_key: &str)
        requires
            old(self)@.holds(session_key@) < u64::MAX,
        ensures
            final(self)@ == old(self)@.began(session_key@),
    {
        let count: u64 = match self.finalizing.get(session_key) {
            Some(h) => h.count,
            None => 0,
        };
        self.finalizing.insert(session_key.to_owned(), Holds { count: count + 1 });
    }

    /// Release one finalization hold, removing the entry at zero so the map
    /// does not retain completed sessions forever.
    pub fn end_finalizing(&mut self, session_key: &str)
        ensures
            final(self)@ == old(self)@.ended(session_key@),
    {
        let count: u64 = match self.finalizing.get(session_key) {
            Some(h) => h.count,
            None => 0,
        };
        if count > 1 {
            self.finalizing.insert(session_key.to_owned(), Holds { count: count - 1 });
        } else {
            let _ = self.finalizing.remove(session_key);
            assert(self@.finalizing =~= old(self)@.finalizing.remove(session_key@));
        }
    }

    /// True while any turn for `session_key` is between "stopped streaming"
    /// and "persistence and turn-version disposition complete".
    pub fn is_finalizing(&self, session_key: &str) -> (r: bool)
        ensures
            r == self@.finalizing.contains_key(session_key@),
    {
        self.finalizing.contains_key(session_key)
    }

    /// Drop per-session bookkeeping that is meaningless once the session is
    /// gone. The deletion generation is retained: writers still queued need it to
    /// detect the deletion they slept through.
    pub fn forget_finalizing(&mut self, session_key: &str)
        ensures
            final(self)@ == old(self)@.forgotten(session_key@),
    {
        let _ = self.finalizing.remove(session_key);
        assert(self@.finalizing =~= old(self)@.finalizing.remove(session_key@));
    }
}

impl Default for SessionLifecycle {
    fn default() -> (r: Self)
        ensures
            r@ == (LifecycleView { authorities: Map::empty(), finalizing: Map::empty() }),
    {
        SessionLifecycle::new()
    }
}

/// One hold on a session in the finalizing state.
pub struct FinalizingGuard {
    session_key: String,
}

impl FinalizingGuard {
    /// The session that is held.
    pub closed spec fn key(&self) -> Seq<char> {
        self.session_key@
    }

    /// Begin finalizing `session_key`.
    pub fn new(lifecycle: &mut SessionLifecycle, session_key: &str) -> (r: Self)
        requires
            old(lifecycle)@.holds(session_key@) < u64::MAX,
        ensures
            r.key() == session_key@,
            final(lifecycle)@ == old(lifecycle)@.began(session_key@),
    {
        lifecycle.begin_finalizing(session_key);
        FinalizingGuard { session_key: session_key.to_owned() }
    }

    /// Release the hold.
    pub fn release(self, lifecycle: &mut SessionLifecycle)
        ensures
            final(lifecycle)@ == old(lifecycle)@.ended(self.key()),
    {
        lifecycle.end_finalizing(self.session_key.as_str());
    }
}

// ── Laws ────────────────────────────────────────────────────────────

/// A generation captured before a deletion differs from the one after it, and
/// from every later one: deletion counters never move back.
pub proof fn deletion_invalidates_captures(state: LifecycleView, key: Seq<char>, captured: u64)
    requires
        captured <= state.authority(key).deletion < u64::MAX,
    ensures
        state.deleted(key).authority(key).deletion > captured,
        state.deleted(key).authority(key).persistence_failure == state.authority(
            key,
        ).persistence_failure,
{
}

/// A completion that records a failure invalidates every capture made before it, each
/// on its own: the counter only grows and nobody consumes it. The deletion counter and
/// the other sessions are left alone.
pub proof fn failures_invalidate_captures(
    state: LifecycleView,
    after: LifecycleView,
    key: Seq<char>,
    captured: u64,
    entered: u64,
    other: Seq<char>,
)
    requires
        state.completes(key, entered, next(entered), after),
        captured <= entered < u64::MAX,
        other != key,
    ensures
        after.authority(key).persistence_failure > captured,
        after.authority(key).deletion == state.authority(key).deletion,
        after.authority(other) == state.authority(other),
{
}

/// Deleting one session leaves the counters of every other one alone.
pub proof fn deletion_is_per_session(state: LifecycleView, key: Seq<char>, other: Seq<char>)
    requires
        key != other,
    ensures
        state.deleted(key).authority(other) == state.authority(other),
        state.deleted(key).holds(other) == state.holds(other),
{
}

/// A finalization that begins and ends leaves the number of holds as it was, so an
/// inner one never clears an outer one.
pub proof fn overlapping_finalizations_stack(state: LifecycleView, key: Seq<char>)
    requires
        state.holds(key) < u64::MAX,
    ensures
        state.began(key).ended(key).holds(key) == state.holds(key),
        state.began(key).finalizing.contains_key(key),
        state.holds(key) > 0 ==> state.began(key).ended(key).finalizing.contains_key(key),
        state.holds(key) == 0 ==> !state.began(key).ended(key).finalizing.contains_key(key),
{
}

/// A session reads as finalizing exactly while it has holds: no operation leaves an
/// entry that counts none.
pub proof fn entries_count_holds(state: LifecycleView, key: Seq<char>)
    requires
        state.positive(),
        state.holds(key) < u64::MAX,
    ensures
        state.finalizing.contains_key(key) <==> state.holds(key) > 0,
        state.began(key).positive(),
        state.ended(key).positive(),
        state.forgotten(key).positive(),
        state.deleted(key).positive(),
{
}

/// Ending what never began changes nothing.
pub proof fn stray_end_is_inert(state: LifecycleView, key: Seq<char>)
    requires
        !state.finalizing.contains_key(key),
    ensures
        state.ended(key) == state,
{
    assert(state.finalizing.remove(key) =~= state.finalizing);
}

/// Forgetting a session's finalizations keeps its deletion generation.
pub proof fn forgetting_keeps_generations(state: LifecycleView, key: Seq<char>)
    ensures
        state.forgotten(key).authority(key) == state.authority(key),
        state.forgotten(key).holds(key) == 0,
        !state.forgotten(key).finalizing.contains_key(key),
{
}

/// A deletion, and a failure to persist, moves its own counter of its own session on by one
/// and nothing else; a session that was never heard of starts at nought.
pub proof fn generations_move_by_one(
    state: LifecycleView,
    after: LifecycleView,
    key: Seq<char>,
    left: u64,
    other: Seq<char>,
    n: u64,
)
    requires
        other != key,
        state.completes(key, state.authority(key).persistence_failure, left, after),
    ensures
        n < u64::MAX ==> next(n) == n + 1,
        !state.authorities.contains_key(key) ==> state.authority(key).deletion == 0
            && state.authority(key).persistence_failure == 0,
        state.authority(key).deletion < u64::MAX ==> state.deleted(key).authority(key).deletion
            == state.authority(key).deletion + 1,
        state.deleted(key).finalizing == state.finalizing,
        after.authority(key).persistence_failure == left,
        after.authority(key).deletion == state.authority(key).deletion,
        after.authority(other) == state.authority(other),
        after.finalizing == state.finalizing,
{
}

/// Beginning a finalization adds one hold on its session and ending one takes one away; the
/// holds on other sessions, and all generations, stay.
pub proof fn finalizations_are_counted(state: LifecycleView, key: Seq<char>, other: Seq<char>)
    requires
        state.holds(key) < u64::MAX,
        other != key,
    ensures
        state.began(key).holds(key) == state.holds(key) + 1,
        state.holds(key) > 0 ==> state.ended(key).holds(key) == state.holds(key) - 1,
        state.holds(key) == 0 ==> state.ended(key).holds(key) == 0,
        state.began(key).holds(other) == state.holds(other),
        state.ended(key).holds(other) == state.holds(other),
        state.forgotten(key).holds(other) == state.holds(other),
        state.began(key).authorities == state.authorities,
        state.ended(key).authorities == state.authorities,
        state.forgotten(key).authorities == state.authorities,
{
}

/// A completion is handed the number of failures that the session stands at, and what it
/// leaves is what the session stands at from then on; the last number there is stays.
pub proof fn a_completion_sees_where_it_stands(
    state: LifecycleView,
    after: LifecycleView,
    key: Seq<char>,
    entered: u64,
    left: u64,
)
    requires
        state.completes(key, entered, left, after),
    ensures
        entered == state.authority(key).persistence_failure,
        after.authority(key).persistence_failure == left,
        next(u64::MAX) == u64::MAX,
{
}

} // verus!
