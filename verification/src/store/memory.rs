//! A store that lives as long as the process.

use vstd::prelude::*;

use super::model::{
    ClaimView, EventView, PersistedSwarm, PersistedSwarmView, SwarmClaimToken, SwarmEventRecord,
};
use super::{
    mint_claim, renewed_lease, revision_guard, same_claim, StoreError, StoreView, SwarmStore,
};
use crate::clock;
use crate::clock::Timestamp;
use crate::duplicate::{duplicate_all, Duplicate};
use crate::strmap;
use crate::strmap::StrMap;
use crate::text;
use crate::text::{text_before, text_eq};

verus! {

/// The event history of one swarm.
struct EventLog {
    rows: Vec<SwarmEventRecord>,
}

impl View for EventLog {
    type V = Seq<EventView>;

    closed spec fn view(&self) -> Seq<EventView> {
        text::views(self.rows@)
    }
}

/// Process-local, non-durable store. Everything is lost on restart; selected
/// only when the durable backend cannot be opened.
pub struct InMemorySwarmStore {
    swarms: StrMap<PersistedSwarm>,
    events: StrMap<EventLog>,
    claims: StrMap<SwarmClaimToken>,
    seq: u64,
    pid: u32,
    grants: u64,
}

/// The counter of grants after one more.
pub open spec fn next_grant(n: u64) -> u64 {
    if n < u64::MAX {
        (n + 1) as u64
    } else {
        0
    }
}

/// Every swarm and every claim stands under its own id.
spec fn keyed(
    swarms: Map<Seq<char>, PersistedSwarmView>,
    claims: Map<Seq<char>, ClaimView>,
) -> bool {
    &&& forall|id: Seq<char>| #[trigger] swarms.contains_key(id) ==> swarms[id].spec.id == id
    &&& forall|id: Seq<char>| #[trigger] claims.contains_key(id) ==> claims[id].swarm_id == id
}

fn comes_first(a: &PersistedSwarm, b: &PersistedSwarm) -> (r: bool)
    ensures
        r == super::listed_before(a@, b@),
{
    text_before(b.created_at.as_str(), a.created_at.as_str()) || (text_eq(
        a.created_at.as_str(),
        b.created_at.as_str(),
    ) && text_before(a.spec.id.as_str(), b.spec.id.as_str()))
}

proof fn listed_before_transitive(
    a: PersistedSwarmView,
    b: PersistedSwarmView,
    c: PersistedSwarmView,
)
    requires
        super::listed_before(a, b),
        super::listed_before(b, c),
    ensures
        super::listed_before(a, c),
{
    if text::text_lt(b.created_at, a.created_at) && text::text_lt(c.created_at, b.created_at) {
        text::text_lt_transitive(c.created_at, b.created_at, a.created_at);
    } else if a.created_at == b.created_at && b.created_at == c.created_at {
        text::text_lt_transitive(a.spec.id, b.spec.id, c.spec.id);
    }
}

proof fn listed_before_total(a: PersistedSwarmView, b: PersistedSwarmView)
    requires
        a.spec.id != b.spec.id,
    ensures
        super::listed_before(a, b) || super::listed_before(b, a),
{
    text::text_lt_total(a.created_at, b.created_at);
    text::text_lt_total(a.spec.id, b.spec.id);
}

spec fn in_order(out: Seq<PersistedSwarmView>) -> bool {
    forall|i: int, j: int| 0 <= i < j < out.len() ==> super::listed_before(out[i], out[j])
}

/// Puts `item` at its place in an ordered listing.
fn insert_listed(out: &mut Vec<PersistedSwarm>, item: PersistedSwarm)
    requires
        in_order(text::views(old(out)@)),
        forall|i: int| 0 <= i < old(out).len() ==> (#[trigger] old(out)@[i])@.spec.id != item@.spec.id,
    ensures
        in_order(text::views(final(out)@)),
        forall|s: PersistedSwarmView| #[trigger]
            text::views(final(out)@).contains(s) <==> text::views(old(out)@).contains(s) || s == item@,
        final(out).len() == old(out).len() + 1,
{
    let ghost before = text::views(out@);
    let ghost new = item@;
    let mut at: usize = 0;
    while at < out.len() && !comes_first(&item, &out[at])
        invariant
            at <= out.len(),
            before == text::views(out@),
            new == item@,
            in_order(before),
            forall|i: int| 0 <= i < out.len() ==> (#[trigger] out@[i])@.spec.id != new.spec.id,
            forall|i: int| 0 <= i < at ==> super::listed_before(before[i], new),
        decreases out.len() - at,
    {
        proof {
            assert(out@[at as int]@.spec.id != new.spec.id);
            listed_before_total(before[at as int], new);
        }
        at += 1;
    }
    out.insert(at, item);
    proof {
        let after = text::views(out@);
        assert(after =~= before.insert(at as int, new));
        assert forall|j: int| at <= j < before.len() implies super::listed_before(new, before[j]) by {
            if at < j {
                listed_before_transitive(new, before[at as int], before[j]);
            }
        }
        assert forall|i: int, j: int| 0 <= i < j < after.len() implies super::listed_before(
            after[i],
            after[j],
        ) by {
            let x = if i < at { i } else { i - 1 };
            let y = if j < at { j } else { j - 1 };
            if i != at && j != at {
                assert(super::listed_before(before[x], before[y]));
            }
        }
        assert forall|s: PersistedSwarmView| #[trigger]
            after.contains(s) <==> before.contains(s) || s == new by {
            if after.contains(s) {
                let i = choose|i: int| 0 <= i < after.len() && after[i] == s;
                if i < at {
                    assert(before[i] == s);
                } else if i > at {
                    assert(before[i - 1] == s);
                }
            }
            if before.contains(s) {
                let i = choose|i: int| 0 <= i < before.len() && before[i] == s;
                if i < at {
                    assert(after[i] == s);
                } else {
                    assert(after[i + 1] == s);
                }
            }
            if s == new {
                assert(after[at as int] == s);
            }
        }
    }
}

impl InMemorySwarmStore {
    #[verifier::type_invariant]
    spec fn consistent(&self) -> bool {
        keyed(self.swarms@, self.claims@)
    }

    /// The process that claims name as their holder.
    pub closed spec fn process(&self) -> u32 {
        self.pid
    }

    /// How many claims were granted; the counter wraps.
    pub closed spec fn grants(&self) -> u64 {
        self.grants
    }

    /// An empty store, whose claims name the process 0.
    pub fn new() -> (r: Self)
        ensures
            r@ == (StoreView {
                swarms: Map::empty(),
                events: Map::empty(),
                claims: Map::empty(),
                seq: 0,
            }),
            r.process() == 0,
            r.grants() == 0,
    {
        InMemorySwarmStore::for_process(0)
    }

    /// An empty store whose claims name the process `pid`.
    pub fn for_process(pid: u32) -> (r: Self)
        ensures
            r@ == (StoreView {
                swarms: Map::empty(),
                events: Map::empty(),
                claims: Map::empty(),
                seq: 0,
            }),
            r.process() == pid,
            r.grants() == 0,
    {
        InMemorySwarmStore {
            swarms: StrMap::new(),
            events: StrMap::new(),
            claims: StrMap::new(),
            seq: 0,
            pid,
            grants: 0,
        }
    }

    /// The claims that another boot than `boot` took, or where `boot` is `None`
    /// those whose lease is past due at `now`.
    fn select(&self, boot: Option<&str>, now: &str) -> (r: Vec<SwarmClaimToken>)
        ensures
            super::is_selection(
                self@.claims,
                |c: ClaimView|
                    match boot {
                        Some(b) => c.boot_id != b@,
                        None => super::past_due(c, now@),
                    },
                text::views(r@),
            ),
    {
        proof {
            use_type_invariant(self);
        }
        let ghost picked = |c: ClaimView|
            match boot {
                Some(b) => c.boot_id != b@,
                None => super::past_due(c, now@),
            };
        let ghost keys = self.claims.keys();
        let mut out: Vec<SwarmClaimToken> = Vec::new();
        let n: usize = self.claims.len();
        let mut i: usize = 0;
        while i < n
            invariant
                i <= n,
                n == self.claims.keys().len(),
                n == self.claims.values().len(),
                keys == self.claims.keys(),
                strmap::ascending(keys),
                keyed(self.swarms@, self.claims@),
                forall|k: int| 0 <= k < n ==> #[trigger] self.claims@.contains_key(keys[k]) && self.claims@[keys[k]] == self.claims.values()[k],
                picked == (|c: ClaimView|
                    match boot {
                        Some(b) => c.boot_id != b@,
                        None => super::past_due(c, now@),
                    }),
                forall|k: int| 0 <= k < out.len() ==> exists|m: int| 0 <= m < i && (#[trigger] out@[k])@ == self.claims.values()[m] && picked(out@[k]@) && out@[k]@.swarm_id == keys[m],
                forall|a: int, b: int| 0 <= a < b < out.len() ==> text::text_lt((#[trigger] out@[a])@.swarm_id, (#[trigger] out@[b])@.swarm_id),
                forall|m: int| 0 <= m < i && picked(#[trigger] self.claims.values()[m]) ==> text::views(out@).contains(self.claims.values()[m]),
            decreases n - i,
        {
            let claim = self.claims.value_at(i);
            assert(self.claims@.contains_key(keys[i as int]));
            assert(claim@.swarm_id == keys[i as int]);
            let take = match boot {
                Some(b) => !text_eq(claim.boot_id.as_str(), b),
                None => !text_before(now, claim.lease_expires.as_str()),
            };
            let ghost before = out@;
            if take {
                out.push(claim.duplicate());
                proof {
                    assert forall|m: int| 0 <= m < i + 1 && picked(#[trigger] self.claims.values()[m]) implies text::views(out@).contains(self.claims.values()[m]) by {
                        if m < i {
                            let k = choose|k: int| 0 <= k < text::views(before).len() && text::views(before)[k] == self.claims.values()[m];
                            assert(text::views(out@)[k] == self.claims.values()[m]);
                        } else {
                            assert(text::views(out@)[before.len() as int] == claim@);
                        }
                    }
                    assert forall|a: int, b: int| 0 <= a < b < out.len() implies text::text_lt((#[trigger] out@[a])@.swarm_id, (#[trigger] out@[b])@.swarm_id) by {
                        if b == before.len() {
                            assert(out@[a] == before[a]);
                            let m = choose|m: int| 0 <= m < i && before[a]@ == self.claims.values()[m] && picked(before[a]@) && before[a]@.swarm_id == keys[m];
                            assert(text::text_lt(keys[m], keys[i as int]));
                        } else {
                            assert(out@[a] == before[a] && out@[b] == before[b]);
                        }
                    }
                    assert forall|k: int| 0 <= k < out.len() implies exists|m: int| 0 <= m < i + 1 && (#[trigger] out@[k])@ == self.claims.values()[m] && picked(out@[k]@) && out@[k]@.swarm_id == keys[m] by {
                        if k == before.len() {
                            assert(out@[k]@ == self.claims.values()[i as int]);
                        } else {
                            assert(out@[k] == before[k]);
                            let m = choose|m: int| 0 <= m < i && before[k]@ == self.claims.values()[m] && picked(before[k]@) && before[k]@.swarm_id == keys[m];
                            assert(0 <= m < i + 1 && out@[k]@ == self.claims.values()[m]);
                        }
                    }
                }
            }
            i += 1;
        }
        proof {
            let vs = text::views(out@);
            assert forall|c: ClaimView| #[trigger] vs.contains(c) <==> self@.claims.contains_key(c.swarm_id) && self@.claims[c.swarm_id] == c && picked(c) by {
                if vs.contains(c) {
                    let k = choose|k: int| 0 <= k < vs.len() && vs[k] == c;
                    assert(out@[k]@ == c);
                    let m = choose|m: int| 0 <= m < n && out@[k]@ == self.claims.values()[m] && picked(out@[k]@) && out@[k]@.swarm_id == keys[m];
                    assert(self.claims@.contains_key(keys[m]));
                }
                if self@.claims.contains_key(c.swarm_id) && self@.claims[c.swarm_id] == c && picked(c) {
                    assert(keys.to_set().contains(c.swarm_id));
                    let m = choose|m: int| 0 <= m < keys.len() && keys[m] == c.swarm_id;
                    assert(self.claims@.contains_key(keys[m]));
                    assert(self.claims.values()[m] == c);
                }
            }
        }
        out
    }
}

impl Default for InMemorySwarmStore {
    fn default() -> (r: Self)
        ensures
            r@ == (StoreView {
                swarms: Map::empty(),
                events: Map::empty(),
                claims: Map::empty(),
                seq: 0,
            }),
            r.process() == 0,
            r.grants() == 0,
    {
        InMemorySwarmStore::new()
    }
}

impl SwarmStore for InMemorySwarmStore {
    closed spec fn view(&self) -> StoreView {
        StoreView {
            swarms: self.swarms@,
            events: self.events@,
            claims: self.claims@,
            seq: self.seq,
        }
    }

    open spec fn dependable(&self) -> bool {
        true
    }

    fn save_swarm(&mut self, swarm: &PersistedSwarm) -> (r: Result<(), StoreError>)
        ensures
            final(self).process() == old(self).process(),
            final(self).grants() == old(self).grants(),
    {
        let id = swarm.swarm_id();
        match revision_guard(self.swarms.get(id), swarm) {
            Ok(()) => {},
            Err(e) => {
                return Err(e);
            },
        }
        proof {
            use_type_invariant(&*self);
        }
        let mut swarms: StrMap<PersistedSwarm> = StrMap::new();
        std::mem::swap(&mut self.swarms, &mut swarms);
        swarms.insert(id.to_owned(), swarm.duplicate());
        self.swarms = swarms;
        Ok(())
    }

    fn load_swarm(&self, swarm_id: &str) -> (r: Result<Option<PersistedSwarm>, StoreError>) {
        match self.swarms.get(swarm_id) {
            Some(s) => Ok(Some(s.duplicate())),
            None => Ok(None),
        }
    }

    fn list_swarms(&self) -> (r: Result<Vec<PersistedSwarm>, StoreError>) {
        proof {
            use_type_invariant(self);
        }
        let ghost keys = self.swarms.keys();
        let mut out: Vec<PersistedSwarm> = Vec::new();
        let n: usize = self.swarms.len();
        assert forall|k: int| 0 <= k < n implies #[trigger] self.swarms@.contains_key(keys[k])
            && self.swarms@[keys[k]] == self.swarms.values()[k] by {
            assert(self.swarms@.contains_key(self.swarms.keys()[k]));
        }
        let mut i: usize = 0;
        while i < n
            invariant
                i <= n,
                n == self.swarms.keys().len(),
                n == self.swarms.values().len(),
                keys == self.swarms.keys(),
                strmap::ascending(keys),
                keyed(self.swarms@, self.claims@),
                forall|k: int| 0 <= k < n ==> #[trigger] self.swarms@.contains_key(keys[k]) && self.swarms@[keys[k]] == self.swarms.values()[k],
                in_order(text::views(out@)),
                forall|s: PersistedSwarmView| #[trigger] text::views(out@).contains(s) <==> exists|m: int| 0 <= m < i && #[trigger] self.swarms.values()[m] == s,
            decreases n - i,
        {
            let swarm = self.swarms.value_at(i);
            assert(self.swarms@.contains_key(keys[i as int]));
            assert(swarm@.spec.id == keys[i as int]);
            assert forall|k: int| 0 <= k < out.len() implies (#[trigger] out@[k])@.spec.id != swarm@.spec.id by {
                assert(text::views(out@)[k] == out@[k]@);
                assert(text::views(out@).contains(out@[k]@));
                let m = choose|m: int| 0 <= m < i && #[trigger] self.swarms.values()[m] == out@[k]@;
                assert(self.swarms@.contains_key(keys[m]));
                text::text_lt_irreflexive(keys[i as int]);
                assert(text::text_lt(keys[m], keys[i as int]));
            }
            let ghost before = text::views(out@);
            insert_listed(&mut out, swarm.duplicate());
            assert forall|s: PersistedSwarmView| #[trigger] text::views(out@).contains(s) <==> exists|m: int| 0 <= m < i + 1 && #[trigger] self.swarms.values()[m] == s by {
                if before.contains(s) {
                    let m = choose|m: int| 0 <= m < i && #[trigger] self.swarms.values()[m] == s;
                    assert(0 <= m < i + 1 && self.swarms.values()[m] == s);
                }
                if s == swarm@ {
                    assert(self.swarms.values()[i as int] == s);
                }
            }
            i += 1;
        }
        proof {
            let vs = text::views(out@);
            assert forall|s: PersistedSwarmView| #[trigger] vs.contains(s) <==> exists|id: Seq<char>| #[trigger] self@.swarms.contains_key(id) && self@.swarms[id] == s by {
                if vs.contains(s) {
                    let m = choose|m: int| 0 <= m < n && #[trigger] self.swarms.values()[m] == s;
                    assert(self.swarms@.contains_key(keys[m]));
                }
                if exists|id: Seq<char>| #[trigger] self@.swarms.contains_key(id) && self@.swarms[id] == s {
                    let id = choose|id: Seq<char>| #[trigger] self@.swarms.contains_key(id) && self@.swarms[id] == s;
                    assert(keys.to_set().contains(id));
                    let m = choose|m: int| 0 <= m < keys.len() && keys[m] == id;
                    assert(self.swarms@.contains_key(keys[m]));
                    assert(self.swarms.values()[m] == s);
                }
            }
        }
        Ok(out)
    }

    fn delete_swarm(&mut self, swarm_id: &str) -> (r: Result<bool, StoreError>)
        ensures
            final(self).process() == old(self).process(),
            final(self).grants() == old(self).grants(),
    {
        proof {
            use_type_invariant(&*self);
        }
        let mut swarms: StrMap<PersistedSwarm> = StrMap::new();
        std::mem::swap(&mut self.swarms, &mut swarms);
        let removed = swarms.remove(swarm_id).is_some();
        self.swarms = swarms;
        let mut events: StrMap<EventLog> = StrMap::new();
        std::mem::swap(&mut self.events, &mut events);
        let _ = events.remove(swarm_id);
        self.events = events;
        let mut claims: StrMap<SwarmClaimToken> = StrMap::new();
        std::mem::swap(&mut self.claims, &mut claims);
        let _ = claims.remove(swarm_id);
        self.claims = claims;
        assert(self@.swarms =~= old(self)@.swarms.remove(swarm_id@));
        assert(self@.events =~= old(self)@.events.remove(swarm_id@));
        assert(self@.claims =~= old(self)@.claims.remove(swarm_id@));
        Ok(removed)
    }

    fn try_claim_swarm_with_boot(&mut self, swarm_id: &str, boot_id: &str) -> (r: Result<
        Option<SwarmClaimToken>,
        StoreError,
    >)
        ensures
            final(self).process() == old(self).process(),
            match r {
                Ok(Some(token)) => {
                    &&& final(self).grants() == next_grant(old(self).grants())
                    &&& exists|at: Timestamp|
                        {
                            &&& at.wf()
                            &&& at.secs <= clock::LAST_SECOND
                            &&& #[trigger] super::minted(
                                swarm_id@,
                                boot_id@,
                                old(self).process(),
                                old(self).grants(),
                                at,
                            ) == token@
                        }
                },
                _ => final(self).grants() == old(self).grants(),
            },
    {
        if self.claims.contains_key(swarm_id) {
            return Ok(None);
        }
        // A finished swarm is history, not work: never re-claimable.
        if let Some(s) = self.swarms.get(swarm_id) {
            if s.run.status.is_terminal() {
                return Ok(None);
            }
        }
        let at = Timestamp::now();
        let token = mint_claim(swarm_id, boot_id, self.pid, self.grants, at);
        proof {
            use_type_invariant(&*self);
        }
        self.grants = self.grants.wrapping_add(1);
        let mut claims: StrMap<SwarmClaimToken> = StrMap::new();
        std::mem::swap(&mut self.claims, &mut claims);
        claims.insert(swarm_id.to_owned(), token.duplicate());
        self.claims = claims;
        assert(super::minted(swarm_id@, boot_id@, old(self).process(), old(self).grants(), at)
            == token@);
        Ok(Some(token))
    }

    fn try_claim_swarm(&mut self, swarm_id: &str) -> (r: Result<Option<SwarmClaimToken>, StoreError>)
        ensures
            final(self).process() == old(self).process(),
            match r {
                Ok(Some(token)) => {
                    &&& final(self).grants() == next_grant(old(self).grants())
                    &&& exists|at: Timestamp|
                        {
                            &&& at.wf()
                            &&& at.secs <= clock::LAST_SECOND
                            &&& #[trigger] super::minted(
                                swarm_id@,
                                ""@,
                                old(self).process(),
                                old(self).grants(),
                                at,
                            ) == token@
                        }
                },
                _ => final(self).grants() == old(self).grants(),
            },
    {
        self.try_claim_swarm_with_boot(swarm_id, "")
    }

    fn heartbeat_claim(&mut self, token: &SwarmClaimToken) -> (r: Result<(), StoreError>)
        ensures
            final(self).process() == old(self).process(),
            final(self).grants() == old(self).grants(),
    {
        proof {
            use_type_invariant(&*self);
        }
        let renewed = match self.claims.get(token.swarm_id.as_str()) {
            Some(stored) => if same_claim(stored, token) {
                Some(stored.duplicate())
            } else {
                None
            },
            None => None,
        };
        match renewed {
            None => Err(StoreError::ClaimLost { swarm_id: token.swarm_id.clone() }),
            Some(mut claim) => {
                let at = Timestamp::now();
                claim.lease_expires = renewed_lease(at);
                let mut claims: StrMap<SwarmClaimToken> = StrMap::new();
                std::mem::swap(&mut self.claims, &mut claims);
                claims.insert(token.swarm_id.clone(), claim);
                self.claims = claims;
                assert(self@ == old(self)@.renewed(token@, at));
                Ok(())
            },
        }
    }

    fn release_claim(&mut self, token: &SwarmClaimToken) -> (r: Result<(), StoreError>)
        ensures
            final(self).process() == old(self).process(),
            final(self).grants() == old(self).grants(),
    {
        let owned = match self.claims.get(token.swarm_id.as_str()) {
            Some(stored) => same_claim(stored, token),
            None => false,
        };
        if owned {
            proof {
                use_type_invariant(&*self);
            }
            let mut claims: StrMap<SwarmClaimToken> = StrMap::new();
            std::mem::swap(&mut self.claims, &mut claims);
            let _ = claims.remove(token.swarm_id.as_str());
            self.claims = claims;
        }
        Ok(())
    }

    fn expired_claims(&self, now_iso: &str) -> (r: Result<Vec<SwarmClaimToken>, StoreError>) {
        let out = self.select(None, now_iso);
        proof {
            let a = |c: ClaimView|
                match None::<&str> {
                    Some(b) => c.boot_id != b@,
                    None => super::past_due(c, now_iso@),
                };
            let b = |c: ClaimView| super::past_due(c, now_iso@);
            assert forall|c: ClaimView| #[trigger] a(c) == b(c) by {}
            assert(super::is_selection(self@.claims, a, text::views(out@)));
            assert(super::is_selection(self@.claims, b, text::views(out@)));
        }
        Ok(out)
    }

    fn claims_not_held_by_boot(&self, boot_id: &str) -> (r: Result<
        Vec<SwarmClaimToken>,
        StoreError,
    >) {
        let out = self.select(Some(boot_id), "");
        proof {
            let b = |c: ClaimView| c.boot_id != boot_id@;
            assert(super::is_selection(self@.claims, b, text::views(out@)));
        }
        Ok(out)
    }

    fn append_event(&mut self, ev: &SwarmEventRecord) -> (r: Result<u64, StoreError>)
        ensures
            final(self).process() == old(self).process(),
            final(self).grants() == old(self).grants(),
    {
        if self.seq == u64::MAX {
            return Err(StoreError::Backend("the event log is full".to_owned()));
        }
        proof {
            use_type_invariant(&*self);
        }
        let seq: u64 = self.seq + 1;
        let mut row = ev.duplicate();
        row.seq = seq;
        let mut events: StrMap<EventLog> = StrMap::new();
        std::mem::swap(&mut self.events, &mut events);
        let mut rows: Vec<SwarmEventRecord> = match events.remove(ev.swarm_id.as_str()) {
            Some(log) => log.rows,
            None => Vec::new(),
        };
        let ghost before = text::views(rows@);
        assert(before =~= old(self)@.history(ev@.swarm_id));
        rows.push(row);
        assert(text::views(rows@) =~= before.push(row@));
        events.insert(ev.swarm_id.clone(), EventLog { rows });
        self.events = events;
        self.seq = seq;
        assert(self@.events =~= old(self)@.appended(ev@).events);
        Ok(seq)
    }

    fn list_events(&self, swarm_id: &str) -> (r: Result<Vec<SwarmEventRecord>, StoreError>) {
        match self.events.get(swarm_id) {
            Some(log) => Ok(duplicate_all(&log.rows)),
            None => {
                let out: Vec<SwarmEventRecord> = Vec::new();
                assert(text::views(out@) =~= Seq::<EventView>::empty());
                Ok(out)
            },
        }
    }

    fn health_check(&self) -> (r: bool) {
        true
    }

    fn backend(&self) -> (r: &'static str)
        ensures
            r@ == "in-memory"@,
    {
        "in-memory"
    }
}

} // verus!
