//! Durable swarm state: what is stored, and the rules every store keeps.

use vstd::prelude::*;

pub mod memory;
pub mod model;

pub use memory::InMemorySwarmStore;
pub use model::{
    default_roster, BoxSpec, PayloadField, PayloadValue, PersistedSwarm, SwarmBudget,
    SwarmBudgetLimits, SwarmBudgetPreset, SwarmClaimToken, SwarmEventRecord, SwarmPauseReason,
    SwarmRun, SwarmSpec, SwarmSpend, SwarmStatus, DEFAULT_ROSTER_SIZE, SWARM_STORE_VERSION,
};

use crate::clock;
use crate::clock::Timestamp;
use crate::duplicate::SameView;
use crate::strmap;
use crate::text;
use crate::text::decimal;
use model::{ClaimView, EventView, PersistedSwarmView};

verus! {

/// Claim lease length in seconds. The driver renews by heartbeat; a claim past
/// this is reclaimable, which is how a crashed process releases its swarms.
pub const DEFAULT_CLAIM_LEASE_SECS: u32 = 3600;

// ── Errors ──────────────────────────────────────────────────────────

/// Errors a swarm store may surface. Never swallowed by callers.
#[derive(Debug, PartialEq, Eq)]
pub enum StoreError {
    Io(String),
    Serde(String),
    Backend(String),
    /// A save lost the revision race (a newer revision is already persisted).
    StaleRevision { swarm_id: String, have: u64, found: u64 },
    /// A same-revision write whose content diverges from the stored document.
    /// The caller must bump `revision` to record new state; only an identical
    /// retry at the same revision is accepted.
    RevisionConflict { swarm_id: String, revision: u64 },
    /// A claim was lost to a concurrent winner.
    ClaimLost { swarm_id: String },
}

/// A store error as plain values.
#[verifier::ext_equal]
pub enum StoreErrorView {
    Io(Seq<char>),
    Serde(Seq<char>),
    Backend(Seq<char>),
    StaleRevision { swarm_id: Seq<char>, have: u64, found: u64 },
    RevisionConflict { swarm_id: Seq<char>, revision: u64 },
    ClaimLost { swarm_id: Seq<char> },
}

impl View for StoreError {
    type V = StoreErrorView;

    open spec fn view(&self) -> StoreErrorView {
        match self {
            StoreError::Io(m) => StoreErrorView::Io(m@),
            StoreError::Serde(m) => StoreErrorView::Serde(m@),
            StoreError::Backend(m) => StoreErrorView::Backend(m@),
            StoreError::StaleRevision { swarm_id, have, found } => StoreErrorView::StaleRevision {
                swarm_id: swarm_id@,
                have: *have,
                found: *found,
            },
            StoreError::RevisionConflict { swarm_id, revision } => StoreErrorView::RevisionConflict {
                swarm_id: swarm_id@,
                revision: *revision,
            },
            StoreError::ClaimLost { swarm_id } => StoreErrorView::ClaimLost { swarm_id: swarm_id@ },
        }
    }
}

impl StoreErrorView {
    /// The backend gave out; the request itself was in order.
    pub open spec fn is_failure(self) -> bool {
        self is Io || self is Serde || self is Backend
    }

    /// What the error says.
    pub open spec fn text(self) -> Seq<char> {
        match self {
            StoreErrorView::Io(m) => "swarm store io error: "@ + m,
            StoreErrorView::Serde(m) => "swarm store serde error: "@ + m,
            StoreErrorView::Backend(m) => "swarm store backend error: "@ + m,
            StoreErrorView::StaleRevision { swarm_id, have, found } => {
                "swarm store stale revision for swarm "@ + swarm_id + ": have "@ + text::numeral(
                    have as nat,
                ) + ", found "@ + text::numeral(found as nat)
            },
            StoreErrorView::RevisionConflict { swarm_id, revision } => {
                "swarm store revision conflict for swarm "@ + swarm_id
                    + ": divergent write at revision "@ + text::numeral(revision as nat)
            },
            StoreErrorView::ClaimLost { swarm_id } => {
                "swarm store claim for swarm "@ + swarm_id + " lost to a concurrent winner"@
            },
        }
    }
}

impl StoreError {
    /// What the error says.
    pub fn message(&self) -> (r: String)
        ensures
            r@ == self@.text(),
    {
        match self {
            StoreError::Io(m) => "swarm store io error: ".to_owned().concat(m.as_str()),
            StoreError::Serde(m) => "swarm store serde error: ".to_owned().concat(m.as_str()),
            StoreError::Backend(m) => "swarm store backend error: ".to_owned().concat(m.as_str()),
            StoreError::StaleRevision { swarm_id, have, found } => {
                let mut out = "swarm store stale revision for swarm ".to_owned();
                out.append(swarm_id.as_str());
                out.append(": have ");
                out.append(decimal(*have).as_str());
                out.append(", found ");
                out.append(decimal(*found).as_str());
                out
            },
            StoreError::RevisionConflict { swarm_id, revision } => {
                let mut out = "swarm store revision conflict for swarm ".to_owned();
                out.append(swarm_id.as_str());
                out.append(": divergent write at revision ");
                out.append(decimal(*revision).as_str());
                out
            },
            StoreError::ClaimLost { swarm_id } => {
                let mut out = "swarm store claim for swarm ".to_owned();
                out.append(swarm_id.as_str());
                out.append(" lost to a concurrent winner");
                out
            },
        }
    }
}

// ── The revision guard ──────────────────────────────────────────────

/// Why `incoming` may not replace `existing`, if it may not: an older revision is
/// stale, and the same revision must carry the same document.
pub open spec fn revision_refusal(
    existing: Option<PersistedSwarmView>,
    incoming: PersistedSwarmView,
) -> Option<StoreErrorView> {
    match existing {
        None => None,
        Some(stored) => if incoming.revision < stored.revision {
            Some(
                StoreErrorView::StaleRevision {
                    swarm_id: incoming.spec.id,
                    have: incoming.revision,
                    found: stored.revision,
                },
            )
        } else if incoming.revision == stored.revision && incoming != stored {
            Some(
                StoreErrorView::RevisionConflict {
                    swarm_id: incoming.spec.id,
                    revision: incoming.revision,
                },
            )
        } else {
            None
        },
    }
}

/// The view of an optional reference.
pub open spec fn ref_view<T: View>(o: Option<&T>) -> Option<T::V> {
    match o {
        Some(x) => Some(x@),
        None => None,
    }
}

/// Whether `incoming` may replace `existing`.
pub fn revision_guard(existing: Option<&PersistedSwarm>, incoming: &PersistedSwarm) -> (r: Result<
    (),
    StoreError,
>)
    ensures
        match revision_refusal(ref_view(existing), incoming@) {
            None => r is Ok,
            Some(e) => r matches Err(x) && x@ == e,
        },
{
    let stored = match existing {
        Some(stored) => stored,
        None => {
            return Ok(());
        },
    };
    if incoming.revision < stored.revision {
        return Err(
            StoreError::StaleRevision {
                swarm_id: incoming.swarm_id().to_owned(),
                have: incoming.revision,
                found: stored.revision,
            },
        );
    }
    if incoming.revision == stored.revision && !stored.same(incoming) {
        return Err(
            StoreError::RevisionConflict {
                swarm_id: incoming.swarm_id().to_owned(),
                revision: incoming.revision,
            },
        );
    }
    Ok(())
}

// ── Claims ──────────────────────────────────────────────────────────

/// Identity of a claim across heartbeats. `lease_expires` moves on every
/// renewal, so it is not part of it.
pub open spec fn same_grant(stored: ClaimView, token: ClaimView) -> bool {
    stored.holder == token.holder && stored.claimed_at == token.claimed_at
}

/// Whether `stored` is the grant that `token` was given for.
pub fn same_claim(stored: &SwarmClaimToken, token: &SwarmClaimToken) -> (r: bool)
    ensures
        r == same_grant(stored@, token@),
{
    stored.holder.same(&token.holder) && stored.claimed_at.same(&token.claimed_at)
}

/// The holder named by the `nonce`-th grant of process `pid`.
pub open spec fn holder_name(pid: u32, nonce: u64) -> Seq<char> {
    "pid-"@ + text::numeral(pid as nat) + "-"@ + text::numeral(nonce as nat)
}

/// When a lease that is granted or renewed at `at` runs out.
pub open spec fn lease_from(at: Timestamp) -> Seq<char> {
    clock::rfc3339_text((at.secs + DEFAULT_CLAIM_LEASE_SECS) as i64, at.nanos)
}

/// When a lease that is granted or renewed at `at` runs out.
pub fn renewed_lease(at: Timestamp) -> (r: String)
    requires
        at.wf(),
        at.secs <= clock::LAST_SECOND,
    ensures
        r@ == clock::rfc3339_text((at.secs + DEFAULT_CLAIM_LEASE_SECS) as i64, at.nanos),
{
    at.after(DEFAULT_CLAIM_LEASE_SECS).to_rfc3339()
}

/// The claim granted to `pid` at `at`, as its `nonce`-th.
pub open spec fn minted(
    swarm_id: Seq<char>,
    boot_id: Seq<char>,
    pid: u32,
    nonce: u64,
    at: Timestamp,
) -> ClaimView {
    ClaimView {
        swarm_id,
        claimed_at: clock::rfc3339_text(at.secs, at.nanos),
        lease_expires: lease_from(at),
        holder: holder_name(pid, nonce),
        boot_id,
    }
}

/// A fresh claim at the default lease, as of `at`.
pub fn mint_claim(swarm_id: &str, boot_id: &str, pid: u32, nonce: u64, at: Timestamp) -> (r:
    SwarmClaimToken)
    requires
        at.wf(),
        at.secs <= clock::LAST_SECOND,
    ensures
        r@ == minted(swarm_id@, boot_id@, pid, nonce, at),
{
    let mut holder = "pid-".to_owned();
    holder.append(decimal(pid as u64).as_str());
    holder.append("-");
    holder.append(decimal(nonce).as_str());
    SwarmClaimToken {
        swarm_id: swarm_id.to_owned(),
        claimed_at: at.to_rfc3339(),
        lease_expires: renewed_lease(at),
        holder,
        boot_id: boot_id.to_owned(),
    }
}

/// Two grants of one process are never the same grant: a released token can
/// neither renew nor release its successor.
pub proof fn grants_differ(
    swarm_a: Seq<char>,
    swarm_b: Seq<char>,
    boot_a: Seq<char>,
    boot_b: Seq<char>,
    pid: u32,
    nonce_a: u64,
    nonce_b: u64,
    at_a: Timestamp,
    at_b: Timestamp,
)
    requires
        nonce_a != nonce_b,
    ensures
        !same_grant(
            minted(swarm_a, boot_a, pid, nonce_a, at_a),
            minted(swarm_b, boot_b, pid, nonce_b, at_b),
        ),
{
    let head = "pid-"@ + text::numeral(pid as nat) + "-"@;
    let x = holder_name(pid, nonce_a);
    let y = holder_name(pid, nonce_b);
    if x == y {
        assert(x.skip(head.len() as int) =~= text::numeral(nonce_a as nat));
        assert(y.skip(head.len() as int) =~= text::numeral(nonce_b as nat));
        text::numeral_injective(nonce_a as nat, nonce_b as nat);
    }
}

// ── What a store holds ──────────────────────────────────────────────

/// The contents of a store.
#[verifier::ext_equal]
pub struct StoreView {
    pub swarms: Map<Seq<char>, PersistedSwarmView>,
    pub events: Map<Seq<char>, Seq<EventView>>,
    pub claims: Map<Seq<char>, ClaimView>,
    /// The ordinal of the last event.
    pub seq: u64,
}

impl StoreView {
    /// The stored document of a swarm.
    pub open spec fn swarm(self, id: Seq<char>) -> Option<PersistedSwarmView> {
        if self.swarms.contains_key(id) {
            Some(self.swarms[id])
        } else {
            None
        }
    }

    /// The event history of a swarm.
    pub open spec fn history(self, id: Seq<char>) -> Seq<EventView> {
        if self.events.contains_key(id) {
            self.events[id]
        } else {
            Seq::empty()
        }
    }

    /// After `swarm` has been saved.
    pub open spec fn saved(self, swarm: PersistedSwarmView) -> StoreView {
        StoreView { swarms: self.swarms.insert(swarm.spec.id, swarm), ..self }
    }

    /// After a swarm has been deleted, with its history and its claim.
    pub open spec fn deleted(self, id: Seq<char>) -> StoreView {
        StoreView {
            swarms: self.swarms.remove(id),
            events: self.events.remove(id),
            claims: self.claims.remove(id),
            seq: self.seq,
        }
    }

    /// Nobody holds the swarm and it has not finished.
    pub open spec fn claimable(self, id: Seq<char>) -> bool {
        !self.claims.contains_key(id) && !(self.swarms.contains_key(id)
            && self.swarms[id].run.status.terminal())
    }

    /// After `claim` has been granted, or renewed.
    pub open spec fn claimed(self, claim: ClaimView) -> StoreView {
        StoreView { claims: self.claims.insert(claim.swarm_id, claim), ..self }
    }

    /// `token` still owns its swarm.
    pub open spec fn holds(self, token: ClaimView) -> bool {
        self.claims.contains_key(token.swarm_id) && same_grant(
            self.claims[token.swarm_id],
            token,
        )
    }

    /// This store with the lease on the claim that `token` owns renewed as of `at`.
    pub open spec fn renewed(self, token: ClaimView, at: Timestamp) -> StoreView {
        self.claimed(
            ClaimView {
                swarm_id: token.swarm_id,
                lease_expires: lease_from(at),
                ..self.claims[token.swarm_id]
            },
        )
    }

    /// `after` is this store with the lease on the claim that `token` owns renewed at
    /// some time.
    pub open spec fn renews(self, token: ClaimView, after: StoreView) -> bool {
        exists|at: Timestamp|
            at.wf() && at.secs <= clock::LAST_SECOND && after == #[trigger] self.renewed(token, at)
    }

    /// Every document and every claim is filed under its own swarm.
    pub open spec fn keyed(self) -> bool {
        &&& forall|id: Seq<char>| #[trigger]
            self.swarms.contains_key(id) ==> self.swarms[id].spec.id == id
        &&& forall|id: Seq<char>| #[trigger]
            self.claims.contains_key(id) ==> self.claims[id].swarm_id == id
    }

    /// After `token` has been released: the claim goes only where it is this one.
    pub open spec fn released(self, token: ClaimView) -> StoreView {
        if self.holds(token) {
            StoreView { claims: self.claims.remove(token.swarm_id), ..self }
        } else {
            self
        }
    }

    /// After an attempt to save `swarm`, which the revision guard may refuse.
    pub open spec fn kept(self, swarm: PersistedSwarmView) -> StoreView {
        if revision_refusal(self.swarm(swarm.spec.id), swarm) is None {
            self.saved(swarm)
        } else {
            self
        }
    }

    /// After an attempt to append `event`, which fails once the ordinals run out.
    pub open spec fn logged(self, event: EventView) -> StoreView {
        if self.seq < u64::MAX {
            self.appended(event)
        } else {
            self
        }
    }

    /// After `event` has been appended.
    pub open spec fn appended(self, event: EventView) -> StoreView {
        let seq = (self.seq + 1) as u64;
        StoreView {
            events: self.events.insert(
                event.swarm_id,
                self.history(event.swarm_id).push(EventView { seq, ..event }),
            ),
            seq,
            ..self
        }
    }
}

/// `a` stands before `b` in a listing: newest-created first, ties broken by id.
pub open spec fn listed_before(a: PersistedSwarmView, b: PersistedSwarmView) -> bool {
    text::text_lt(b.created_at, a.created_at) || (a.created_at == b.created_at && text::text_lt(
        a.spec.id,
        b.spec.id,
    ))
}

/// `out` lists exactly the swarms of `swarms`, in listing order.
pub open spec fn is_listing(
    swarms: Map<Seq<char>, PersistedSwarmView>,
    out: Seq<PersistedSwarmView>,
) -> bool {
    &&& forall|i: int, j: int| 0 <= i < j < out.len() ==> listed_before(out[i], out[j])
    &&& forall|s: PersistedSwarmView| #[trigger]
        out.contains(s) <==> exists|id: Seq<char>| #[trigger] swarms.contains_key(id) && swarms[id] == s
}

/// A claim whose lease is past due at `now`.
pub open spec fn past_due(claim: ClaimView, now: Seq<char>) -> bool {
    !text::text_lt(now, claim.lease_expires)
}

/// `out` holds exactly the claims of `claims` that are picked, ordered by swarm.
pub open spec fn is_selection(
    claims: Map<Seq<char>, ClaimView>,
    picked: spec_fn(ClaimView) -> bool,
    out: Seq<ClaimView>,
) -> bool {
    &&& strmap::ascending(Seq::new(out.len(), |i: int| out[i].swarm_id))
    &&& forall|c: ClaimView| #[trigger]
        out.contains(c) <==> claims.contains_key(c.swarm_id) && claims[c.swarm_id] == c && picked(c)
}

/// Persistence of swarms: documents under a revision guard, claims that exactly
/// one driver holds, and an append-only event log.
pub trait SwarmStore {
    /// What the store holds.
    spec fn view(&self) -> StoreView;

    /// The backend answers every request.
    spec fn dependable(&self) -> bool;

    /// Persist-before-mutate. A strictly-older revision is rejected as
    /// `StaleRevision`; an equal revision is accepted only as an identical retry,
    /// else `RevisionConflict`; a newer revision wins.
    fn save_swarm(&mut self, swarm: &PersistedSwarm) -> (r: Result<(), StoreError>)
        ensures
            final(self).dependable() == old(self).dependable(),
            match r {
                Ok(()) => revision_refusal(old(self)@.swarm(swarm@.spec.id), swarm@) is None
                    && final(self)@ == old(self)@.saved(swarm@),
                Err(e) => final(self)@ == old(self)@ && (revision_refusal(
                    old(self)@.swarm(swarm@.spec.id),
                    swarm@,
                ) == Some(e@) || (e@.is_failure() && !old(self).dependable())),
            },
    ;

    /// Single swarm by id (latest revision), terminal or not.
    fn load_swarm(&self, swarm_id: &str) -> (r: Result<Option<PersistedSwarm>, StoreError>)
        ensures
            match r {
                Ok(Some(s)) => self@.swarm(swarm_id@) == Some(s@),
                Ok(None) => self@.swarm(swarm_id@) is None,
                Err(e) => e@.is_failure() && !self.dependable(),
            },
    ;

    /// Every swarm, newest-created first, ties broken by id so the listing is
    /// stable across calls.
    fn list_swarms(&self) -> (r: Result<Vec<PersistedSwarm>, StoreError>)
        ensures
            match r {
                Ok(out) => is_listing(self@.swarms, text::views(out@)),
                Err(e) => e@.is_failure() && !self.dependable(),
            },
    ;

    /// Drop a swarm with its event history and any live claim. Returns whether
    /// a record was actually removed.
    fn delete_swarm(&mut self, swarm_id: &str) -> (r: Result<bool, StoreError>)
        ensures
            final(self).dependable() == old(self).dependable(),
            match r {
                Ok(removed) => removed == old(self)@.swarms.contains_key(swarm_id@) && final(self)@
                    == old(self)@.deleted(swarm_id@),
                Err(e) => final(self)@ == old(self)@ && e@.is_failure() && !old(self).dependable(),
            },
    ;

    /// Take ownership of a non-terminal, unclaimed swarm for the process boot
    /// `boot_id`. `Ok(None)` means that someone holds it, or that the swarm has
    /// already finished.
    fn try_claim_swarm_with_boot(&mut self, swarm_id: &str, boot_id: &str) -> (r: Result<
        Option<SwarmClaimToken>,
        StoreError,
    >)
        ensures
            final(self).dependable() == old(self).dependable(),
            match r {
                Ok(Some(token)) => {
                    &&& old(self)@.claimable(swarm_id@)
                    &&& final(self)@ == old(self)@.claimed(token@)
                    &&& exists|pid: u32, nonce: u64, at: Timestamp| #[trigger]
                        minted(swarm_id@, boot_id@, pid, nonce, at) == token@
                },
                Ok(None) => !old(self)@.claimable(swarm_id@) && final(self)@ == old(self)@,
                Err(e) => final(self)@ == old(self)@ && e@.is_failure() && !old(self).dependable(),
            },
    ;

    /// [`Self::try_claim_swarm_with_boot`] for no boot in particular.
    fn try_claim_swarm(&mut self, swarm_id: &str) -> (r: Result<Option<SwarmClaimToken>, StoreError>)
        ensures
            final(self).dependable() == old(self).dependable(),
            match r {
                Ok(Some(token)) => {
                    &&& old(self)@.claimable(swarm_id@)
                    &&& final(self)@ == old(self)@.claimed(token@)
                    &&& exists|pid: u32, nonce: u64, at: Timestamp| #[trigger]
                        minted(swarm_id@, ""@, pid, nonce, at) == token@
                },
                Ok(None) => !old(self)@.claimable(swarm_id@) && final(self)@ == old(self)@,
                Err(e) => final(self)@ == old(self)@ && e@.is_failure() && !old(self).dependable(),
            },
    {
        self.try_claim_swarm_with_boot(swarm_id, "")
    }

    /// Extend this token's lease. `ClaimLost` when the claim is gone or now
    /// belongs to a different holder: the caller must stop driving the swarm.
    fn heartbeat_claim(&mut self, token: &SwarmClaimToken) -> (r: Result<(), StoreError>)
        ensures
            final(self).dependable() == old(self).dependable(),
            match r {
                Ok(()) => old(self)@.holds(token@) && old(self)@.renews(token@, final(self)@),
                Err(e) => final(self)@ == old(self)@ && ((e@ == (StoreErrorView::ClaimLost {
                    swarm_id: token@.swarm_id,
                }) && !old(self)@.holds(token@)) || (e@.is_failure() && !old(self).dependable())),
            },
    ;

    /// Release a claim, freeing the swarm for a new driver. Releasing a claim
    /// this token no longer owns is a no-op, never a steal.
    fn release_claim(&mut self, token: &SwarmClaimToken) -> (r: Result<(), StoreError>)
        ensures
            final(self).dependable() == old(self).dependable(),
            match r {
                Ok(()) => final(self)@ == old(self)@.released(token@),
                Err(e) => final(self)@ == old(self)@ && e@.is_failure() && !old(self).dependable(),
            },
    ;

    /// Claims whose lease expired at or before `now_iso`, ordered by swarm.
    fn expired_claims(&self, now_iso: &str) -> (r: Result<Vec<SwarmClaimToken>, StoreError>)
        ensures
            match r {
                Ok(out) => is_selection(
                    self@.claims,
                    |c: ClaimView| past_due(c, now_iso@),
                    text::views(out@),
                ),
                Err(e) => e@.is_failure() && !self.dependable(),
            },
    ;

    /// Claims that another process boot took, ordered by swarm.
    fn claims_not_held_by_boot(&self, boot_id: &str) -> (r: Result<Vec<SwarmClaimToken>, StoreError>)
        ensures
            match r {
                Ok(out) => is_selection(
                    self@.claims,
                    |c: ClaimView| c.boot_id != boot_id@,
                    text::views(out@),
                ),
                Err(e) => e@.is_failure() && !self.dependable(),
            },
    ;

    /// Append-only, monotonic, never-overwrite. Returns the assigned ordinal.
    fn append_event(&mut self, ev: &SwarmEventRecord) -> (r: Result<u64, StoreError>)
        ensures
            final(self).dependable() == old(self).dependable(),
            match r {
                Ok(seq) => seq == old(self)@.seq + 1 && final(self)@ == old(self)@.appended(ev@),
                Err(e) => final(self)@ == old(self)@ && e@.is_failure() && (!old(self).dependable()
                    || old(self)@.seq == u64::MAX),
            },
    ;

    /// Ordered event history for a swarm.
    fn list_events(&self, swarm_id: &str) -> (r: Result<Vec<SwarmEventRecord>, StoreError>)
        ensures
            match r {
                Ok(out) => text::views(out@) == self@.history(swarm_id@),
                Err(e) => e@.is_failure() && !self.dependable(),
            },
    ;

    /// Whether the backend can be used.
    fn health_check(&self) -> (r: bool)
        ensures
            self.dependable() ==> r,
    ;

    /// Backend name.
    fn backend(&self) -> &'static str;
}

// ── Laws ────────────────────────────────────────────────────────────

/// A swarm that was saved is what a read gives back, and no other swarm is touched.
pub proof fn a_read_gives_back_what_was_saved(
    store: StoreView,
    swarm: PersistedSwarmView,
    other: Seq<char>,
)
    requires
        other != swarm.spec.id,
    ensures
        store.saved(swarm).swarm(swarm.spec.id) == Some(swarm),
        store.saved(swarm).swarm(other) == store.swarm(other),
        store.saved(swarm).claims == store.claims,
        store.saved(swarm).events == store.events,
{
}

/// Saving what is stored already is accepted and changes nothing: a retry is safe.
pub proof fn a_retry_is_idempotent(store: StoreView, swarm: PersistedSwarmView)
    requires
        store.swarm(swarm.spec.id) == Some(swarm),
    ensures
        revision_refusal(store.swarm(swarm.spec.id), swarm) is None,
        store.saved(swarm) == store,
{
    assert(store.swarms.insert(swarm.spec.id, swarm) =~= store.swarms);
}

/// A stored revision never goes back, and two different documents never share one.
pub proof fn revisions_only_grow(store: StoreView, swarm: PersistedSwarmView)
    requires
        store.swarms.contains_key(swarm.spec.id),
        revision_refusal(store.swarm(swarm.spec.id), swarm) is None,
    ensures
        store.swarms[swarm.spec.id].revision <= swarm.revision,
        store.swarms[swarm.spec.id].revision == swarm.revision ==> store.swarms[swarm.spec.id]
            == swarm,
{
}

/// A granted swarm is claimable by nobody until its token releases it, and then it
/// is as it was before the grant.
pub proof fn exactly_one_driver_holds_a_swarm(store: StoreView, token: ClaimView)
    requires
        store.claimable(token.swarm_id),
    ensures
        !store.claimed(token).claimable(token.swarm_id),
        store.claimed(token).holds(token),
        store.claimed(token).released(token) == store,
{
    assert(store.claimed(token).claims.remove(token.swarm_id) =~= store.claims);
}

/// A token whose grant is gone releases nothing: it cannot take the claim of whoever
/// holds the swarm now.
pub proof fn a_stale_release_is_no_steal(store: StoreView, stale: ClaimView, held: ClaimView)
    requires
        stale.swarm_id == held.swarm_id,
        !same_grant(held, stale),
    ensures
        store.claimed(held).released(stale) == store.claimed(held),
        !store.claimed(held).holds(stale),
{
}

/// A heartbeat moves the lease alone: the token goes on holding its swarm, and no
/// other claim and no document is touched.
pub proof fn a_heartbeat_keeps_the_claim(
    store: StoreView,
    token: ClaimView,
    after: StoreView,
    other: Seq<char>,
)
    requires
        store.holds(token),
        store.renews(token, after),
        other != token.swarm_id,
    ensures
        after.holds(token),
        after.swarms == store.swarms,
        after.claims.contains_key(other) == store.claims.contains_key(other),
        after.claims[other] == store.claims[other],
{
}

/// A finished swarm is history: nobody can claim it.
pub proof fn finished_swarms_are_not_claimable(store: StoreView, id: Seq<char>)
    requires
        store.swarms.contains_key(id),
        store.swarms[id].run.status.terminal(),
    ensures
        !store.claimable(id),
{
}

/// Deleting a swarm takes its history and its claim with it, and nothing else.
pub proof fn deletion_takes_history_and_claim(
    store: StoreView,
    token: ClaimView,
    other: Seq<char>,
)
    requires
        other != token.swarm_id,
    ensures
        store.deleted(token.swarm_id).swarm(token.swarm_id) is None,
        store.deleted(token.swarm_id).history(token.swarm_id).len() == 0,
        !store.deleted(token.swarm_id).holds(token),
        store.deleted(token.swarm_id).swarm(other) == store.swarm(other),
        store.deleted(token.swarm_id).history(other) == store.history(other),
        !store.deleted(token.swarm_id).swarms.contains_key(token.swarm_id),
        !store.deleted(token.swarm_id).events.contains_key(token.swarm_id),
        !store.deleted(token.swarm_id).claims.contains_key(token.swarm_id),
        store.claims.contains_key(other) == store.deleted(
            token.swarm_id,
        ).claims.contains_key(other),
        store.claims.contains_key(other) ==> store.deleted(token.swarm_id).claims[other]
            == store.claims[other],
        store.deleted(token.swarm_id).seq == store.seq,
{
}

/// A store hands back the document and the rows that it holds of a swarm, and neither
/// where it holds none.
pub proof fn a_store_hands_back_what_it_holds(store: StoreView, id: Seq<char>)
    ensures
        store.swarms.contains_key(id) ==> store.swarm(id) == Some(store.swarms[id]),
        !store.swarms.contains_key(id) ==> store.swarm(id) is None,
        store.events.contains_key(id) ==> store.history(id) == store.events[id],
        !store.events.contains_key(id) ==> store.history(id).len() == 0,
{
}

/// The event log only grows: an append keeps every row and gives the new one the
/// next ordinal, whichever swarm it belongs to.
pub proof fn events_are_append_only(store: StoreView, event: EventView, other: Seq<char>)
    requires
        store.seq < u64::MAX,
        other != event.swarm_id,
    ensures
        store.appended(event).history(event.swarm_id).drop_last() == store.history(
            event.swarm_id,
        ),
        store.appended(event).history(event.swarm_id).last() == (EventView {
            seq: (store.seq + 1) as u64,
            ..event
        }),
        store.appended(event).history(other) == store.history(other),
        store.appended(event).seq == store.seq + 1,
        store.appended(event).swarms == store.swarms,
        store.appended(event).claims == store.claims,
{
    assert(store.appended(event).history(event.swarm_id).drop_last() =~= store.history(
        event.swarm_id,
    ));
}

proof fn listed_before_irreflexive(a: PersistedSwarmView, b: PersistedSwarmView)
    ensures
        !listed_before(a, a),
        listed_before(a, b) ==> !listed_before(b, a),
{
    text::text_lt_irreflexive(a.created_at);
    text::text_lt_irreflexive(a.spec.id);
    if listed_before(a, b) && listed_before(b, a) {
        if text::text_lt(b.created_at, a.created_at) {
            if text::text_lt(a.created_at, b.created_at) {
                text::text_lt_transitive(a.created_at, b.created_at, a.created_at);
            }
        } else {
            if text::text_lt(a.created_at, b.created_at) {
                text::text_lt_irreflexive(a.created_at);
            } else {
                text::text_lt_transitive(a.spec.id, b.spec.id, a.spec.id);
            }
        }
    }
}

/// Two listings of the same swarms are the same: the listing is stable across calls.
pub proof fn listings_are_stable(
    swarms: Map<Seq<char>, PersistedSwarmView>,
    a: Seq<PersistedSwarmView>,
    b: Seq<PersistedSwarmView>,
)
    requires
        is_listing(swarms, a),
        is_listing(swarms, b),
    ensures
        a == b,
{
    same_members_same_order(a, b);
}

proof fn same_members_same_order(a: Seq<PersistedSwarmView>, b: Seq<PersistedSwarmView>)
    requires
        forall|i: int, j: int| 0 <= i < j < a.len() ==> listed_before(a[i], a[j]),
        forall|i: int, j: int| 0 <= i < j < b.len() ==> listed_before(b[i], b[j]),
        forall|s: PersistedSwarmView| #[trigger] a.contains(s) <==> b.contains(s),
    ensures
        a == b,
    decreases a.len(),
{
    if a.len() == 0 {
        if b.len() > 0 {
            assert(b.contains(b[0]));
            assert(a.contains(b[0]));
        }
        assert(a =~= b);
    } else {
        assert(a.contains(a[0]));
        assert(b.contains(a[0]));
        let x = a.last();
        let y = b.last();
        assert(a.contains(x) && b.contains(x));
        assert(b.contains(y) && a.contains(y));
        let j = choose|j: int| 0 <= j < b.len() && b[j] == x;
        let i = choose|i: int| 0 <= i < a.len() && a[i] == y;
        listed_before_irreflexive(x, y);
        if j < b.len() - 1 {
            assert(listed_before(x, y));
            if i < a.len() - 1 {
                assert(listed_before(y, x));
            }
        }
        assert(x == y);
        assert forall|s: PersistedSwarmView| #[trigger]
            a.drop_last().contains(s) <==> b.drop_last().contains(s) by {
            listed_before_irreflexive(s, x);
            if a.drop_last().contains(s) {
                let m = choose|m: int| 0 <= m < a.drop_last().len() && a.drop_last()[m] == s;
                assert(a[m] == s && a.contains(s));
                assert(b.contains(s));
                let n = choose|n: int| 0 <= n < b.len() && b[n] == s;
                assert(listed_before(s, x));
                assert(b.drop_last()[n] == s);
            }
            if b.drop_last().contains(s) {
                let m = choose|m: int| 0 <= m < b.drop_last().len() && b.drop_last()[m] == s;
                assert(b[m] == s && b.contains(s));
                assert(a.contains(s));
                let n = choose|n: int| 0 <= n < a.len() && a[n] == s;
                assert(listed_before(s, x));
                assert(a.drop_last()[n] == s);
            }
        }
        same_members_same_order(a.drop_last(), b.drop_last());
        assert(a =~= a.drop_last().push(x));
        assert(b =~= b.drop_last().push(y));
    }
}

/// A save is refused exactly where it would go back: where the stored revision is newer,
/// or is the same with another document. The refusal tells both revisions.
pub proof fn refusals_of_a_save(stored: PersistedSwarmView, incoming: PersistedSwarmView)
    ensures
        revision_refusal(None, incoming) is None,
        revision_refusal(Some(stored), incoming) is None <==> incoming.revision > stored.revision
            || incoming == stored,
        incoming.revision < stored.revision ==> revision_refusal(Some(stored), incoming) == Some(
            StoreErrorView::StaleRevision {
                swarm_id: incoming.spec.id,
                have: incoming.revision,
                found: stored.revision,
            },
        ),
        incoming.revision == stored.revision && incoming != stored ==> revision_refusal(
            Some(stored),
            incoming,
        ) == Some(
            StoreErrorView::RevisionConflict {
                swarm_id: incoming.spec.id,
                revision: incoming.revision,
            },
        ),
{
}

/// An attempt to save keeps the document where the revision lets it, and otherwise leaves
/// the store as it is; an attempt to log adds exactly one row while ordinals last.
pub proof fn attempts_keep_or_leave(
    store: StoreView,
    swarm: PersistedSwarmView,
    event: EventView,
)
    ensures
        !store.swarms.contains_key(swarm.spec.id) || swarm.revision
            > store.swarms[swarm.spec.id].revision ==> store.kept(swarm).swarm(swarm.spec.id)
            == Some(swarm),
        store.swarms.contains_key(swarm.spec.id) && swarm.revision
            < store.swarms[swarm.spec.id].revision ==> store.kept(swarm) == store,
        store.kept(swarm).claims == store.claims,
        store.kept(swarm).events == store.events,
        store.seq < u64::MAX ==> store.logged(event).history(event.swarm_id).len()
            == store.history(event.swarm_id).len() + 1,
        store.seq == u64::MAX ==> store.logged(event) == store,
        store.logged(event).swarms == store.swarms,
        store.logged(event).claims == store.claims,
{
}

/// A swarm is free to be driven exactly where nobody holds it and it has not finished; one
/// that is not stored yet can be claimed too.
pub proof fn what_can_be_claimed(store: StoreView, id: Seq<char>)
    ensures
        store.claims.contains_key(id) ==> !store.claimable(id),
        !store.claims.contains_key(id) && !store.swarms.contains_key(id) ==> store.claimable(id),
        !store.claims.contains_key(id) && store.swarms.contains_key(id) ==> (store.claimable(id)
            <==> store.swarms[id].run.status != SwarmStatus::Stopped
            && store.swarms[id].run.status != SwarmStatus::Completed),
{
}

/// A token holds its swarm while the claim on it is the one it was given: same holder, same
/// time. Renewing moves the lease to an hour after the renewal and nothing else.
pub proof fn what_a_token_holds(store: StoreView, token: ClaimView, at: Timestamp)
    requires
        store.claims.contains_key(token.swarm_id),
        at.wf(),
        at.secs <= clock::LAST_SECOND,
    ensures
        store.holds(token) <==> store.claims[token.swarm_id].holder == token.holder
            && store.claims[token.swarm_id].claimed_at == token.claimed_at,
        ({
            let held = store.claims[token.swarm_id];
            let after = store.renewed(token, at).claims[token.swarm_id];
            &&& after.lease_expires == clock::rfc3339_text((at.secs + 3600) as i64, at.nanos)
            &&& after.holder == held.holder
            &&& after.claimed_at == held.claimed_at
            &&& after.boot_id == held.boot_id
            &&& after.swarm_id == token.swarm_id
        }),
        store.holds(token) ==> !store.released(token).claims.contains_key(token.swarm_id),
        !store.holds(token) ==> store.released(token) == store,
        store.released(token).swarms == store.swarms,
        store.released(token).events == store.events,
{
}

/// A grant names the swarm, the boot and the process, and when it was given and runs out.
pub proof fn what_a_grant_says(
    swarm_id: Seq<char>,
    boot_id: Seq<char>,
    pid: u32,
    nonce: u64,
    at: Timestamp,
)
    ensures
        ({
            let claim = minted(swarm_id, boot_id, pid, nonce, at);
            &&& claim.swarm_id == swarm_id
            &&& claim.boot_id == boot_id
            &&& claim.claimed_at == clock::rfc3339_text(at.secs, at.nanos)
            &&& claim.lease_expires == clock::rfc3339_text((at.secs + 3600) as i64, at.nanos)
            &&& claim.holder == "pid-"@ + text::numeral(pid as nat) + "-"@ + text::numeral(
                nonce as nat,
            )
        }),
{
}

/// A listing leaves nothing out and adds nothing, and puts the newest first; swarms of one
/// moment stand by id.
pub proof fn a_listing_is_newest_first(
    swarms: Map<Seq<char>, PersistedSwarmView>,
    out: Seq<PersistedSwarmView>,
    i: int,
    j: int,
    id: Seq<char>,
)
    requires
        is_listing(swarms, out),
        0 <= i < j < out.len(),
    ensures
        text::text_lt(out[j].created_at, out[i].created_at) || (out[i].created_at
            == out[j].created_at && text::text_lt(out[i].spec.id, out[j].spec.id)),
        swarms.contains_key(id) ==> out.contains(swarms[id]),
        exists|k: Seq<char>| #[trigger] swarms.contains_key(k) && swarms[k] == out[i],
{
    assert(listed_before(out[i], out[j]));
    if swarms.contains_key(id) {
        assert(swarms.contains_key(id) && swarms[id] == swarms[id]);
    }
    assert(out.contains(out[i]));
}

/// A lease has run out once the time it names has come.
pub proof fn a_lease_runs_out_when_it_says(claim: ClaimView, now: Seq<char>)
    ensures
        now == claim.lease_expires ==> past_due(claim, now),
        text::text_lt(claim.lease_expires, now) ==> past_due(claim, now),
        text::text_lt(now, claim.lease_expires) ==> !past_due(claim, now),
{
    text::text_lt_irreflexive(now);
    if text::text_lt(claim.lease_expires, now) && text::text_lt(now, claim.lease_expires) {
        text::text_lt_transitive(now, claim.lease_expires, now);
    }
}

/// What an error says names the swarm and the revisions that it is about, or what the backend said.
pub proof fn store_errors_say_what_they_are_about(
    swarm_id: Seq<char>,
    have: u64,
    found: u64,
    m: Seq<char>,
)
    ensures
        text::stands_in(
            m,
            StoreErrorView::Io(m).text(),
        ),
        text::stands_in(
            m,
            StoreErrorView::Serde(m).text(),
        ),
        text::stands_in(
            m,
            StoreErrorView::Backend(m).text(),
        ),
        text::stands_in(
            swarm_id + ": have "@ + text::numeral(have as nat) + ", found "@ + text::numeral(found as nat),
            (StoreErrorView::StaleRevision { swarm_id, have, found }).text(),
        ),
        text::stands_in(
            swarm_id,
            (StoreErrorView::ClaimLost { swarm_id }).text(),
        ),
{
    assert(text::stands_in(
        m,
        StoreErrorView::Io(m).text(),
    )) by {
        assert("swarm store io error: "@ + (m) + (Seq::<char>::empty())
            =~= StoreErrorView::Io(m).text());
        text::stands_between(
            "swarm store io error: "@,
            m,
            Seq::<char>::empty(),
        );
    }
    assert(text::stands_in(
        m,
        StoreErrorView::Serde(m).text(),
    )) by {
        assert("swarm store serde error: "@ + (m) + (Seq::<char>::empty())
            =~= StoreErrorView::Serde(m).text());
        text::stands_between(
            "swarm store serde error: "@,
            m,
            Seq::<char>::empty(),
        );
    }
    assert(text::stands_in(
        m,
        StoreErrorView::Backend(m).text(),
    )) by {
        assert("swarm store backend error: "@ + (m) + (Seq::<char>::empty())
            =~= StoreErrorView::Backend(m).text());
        text::stands_between(
            "swarm store backend error: "@,
            m,
            Seq::<char>::empty(),
        );
    }
    assert(text::stands_in(
        swarm_id + ": have "@ + text::numeral(have as nat) + ", found "@ + text::numeral(found as nat),
        (StoreErrorView::StaleRevision { swarm_id, have, found }).text(),
    )) by {
        assert("swarm store stale revision for swarm "@ + (swarm_id + ": have "@ + text::numeral(have as nat) + ", found "@ + text::numeral(found as nat)) + (Seq::<char>::empty())
            =~= (StoreErrorView::StaleRevision { swarm_id, have, found }).text());
        text::stands_between(
            "swarm store stale revision for swarm "@,
            swarm_id + ": have "@ + text::numeral(have as nat) + ", found "@ + text::numeral(found as nat),
            Seq::<char>::empty(),
        );
    }
    assert(text::stands_in(
        swarm_id,
        (StoreErrorView::ClaimLost { swarm_id }).text(),
    )) by {
        assert("swarm store claim for swarm "@ + (swarm_id) + (" lost to a concurrent winner"@)
            =~= (StoreErrorView::ClaimLost { swarm_id }).text());
        text::stands_between(
            "swarm store claim for swarm "@,
            swarm_id,
            " lost to a concurrent winner"@,
        );
    }
}

} // verus!
