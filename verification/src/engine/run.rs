//! One live swarm run: its budget, its rounds and the boxes a user holds.

use vstd::prelude::*;

use super::{BoxTurnError, BoxTurnErrorView, BudgetAdmission, BudgetAxis};
use crate::board::{BoardView, BoxStateView, BoxStatus, SwarmStateBoard};
use crate::duplicate;
use crate::ids;
use crate::ids::random_hyphenated;
use crate::roster::{BoxMemoryScope, MemoryScopeView, RosterBoxView, RosterView, SwarmRoster};
use crate::store;
use crate::store::model::{
    ClaimView, EventView, PayloadField, PayloadFieldView, PayloadValue, PayloadValueView,
    PersistedSwarm, PersistedSwarmView, SwarmBudgetLimits, SwarmClaimToken, SwarmEventRecord,
    SwarmPauseReason, SwarmRunView, SwarmSpecView, SwarmSpend, SwarmStatus,
};
use crate::store::{StoreError, StoreView, SwarmStore};
use crate::strmap;
use crate::strmap::StrMap;
use crate::text;
use crate::text::{decimal, quote, truncate};
use crate::usd::Usd;

verus! {

/// Hard ceiling on orchestrator planning rounds. The budget stops a run long
/// before this in practice; the bound only guarantees that the loop ends.
pub const MAX_ROUNDS: usize = 10_000;

/// How long a user's hold on a box lasts without a new message, in seconds.
pub const ENGAGED_IDLE_SECS: i64 = 90;

/// How many characters of a subtask a box shows on the board.
pub const SUBTASK_NOTE_LEN: usize = 200;

// ── Budget ──────────────────────────────────────────────────────────

/// The axis on which no further turn can be admitted, once `spent` is spent and
/// `reserved` turns are under way.
pub open spec fn exhausted_axis(
    spent: SwarmSpend,
    reserved: u32,
    limits: SwarmBudgetLimits,
) -> Option<BudgetAxis> {
    if spent.turns + reserved >= limits.max_turns {
        Some(BudgetAxis::Turns)
    } else if spent.tokens >= limits.max_tokens {
        Some(BudgetAxis::Tokens)
    } else if spent.cost_usd.micros >= limits.max_cost_usd.micros {
        Some(BudgetAxis::Cost)
    } else {
        None
    }
}

/// Checks spend against every axis.
pub fn check_budget(spent: SwarmSpend, reserved: u32, limits: SwarmBudgetLimits) -> (r: Option<
    BudgetAxis,
>)
    ensures
        r == exhausted_axis(spent, reserved, limits),
        r is None <==> spent.turns + reserved < limits.max_turns && spent.tokens
            < limits.max_tokens && spent.cost_usd.micros < limits.max_cost_usd.micros,
{
    if spent.turns as u64 + reserved as u64 >= limits.max_turns as u64 {
        Some(BudgetAxis::Turns)
    } else if spent.tokens >= limits.max_tokens {
        Some(BudgetAxis::Tokens)
    } else if spent.cost_usd.micros >= limits.max_cost_usd.micros {
        Some(BudgetAxis::Cost)
    } else {
        None
    }
}

// ── Runs ────────────────────────────────────────────────────────────

/// When a user last spoke to a box, in seconds.
struct Hold {
    since: i64,
}

impl View for Hold {
    type V = int;

    closed spec fn view(&self) -> int {
        self.since as int
    }
}

/// Everything one live swarm run needs. The live document is the authoritative
/// copy; every persisted transition bumps its revision.
pub struct SwarmRunState<C> {
    current: PersistedSwarm,
    claim: SwarmClaimToken,
    limits: SwarmBudgetLimits,
    roster: SwarmRoster<C>,
    /// Box turns of the swarm that were admitted, by this run or an earlier one, and have
    /// not reported their spend yet.
    reserved: u32,
    /// Count of admitted delegations, for round completion detection.
    delegations: u64,
    /// Graceful operator pause: honored at the next round boundary.
    pause: bool,
    /// Hard stop.
    cancelled: bool,
    /// An orchestrator driver is running.
    driven: bool,
    /// Boxes that a user holds.
    engaged: StrMap<Hold>,
}

/// A live run as plain values.
#[verifier::ext_equal]
pub struct RunView<C> {
    pub doc: PersistedSwarmView,
    pub claim: ClaimView,
    pub limits: SwarmBudgetLimits,
    pub roster: RosterView<C>,
    pub reserved: u32,
    pub delegations: u64,
    pub pause: bool,
    pub cancelled: bool,
    pub driven: bool,
    pub engaged: Map<Seq<char>, int>,
}

impl<C> View for SwarmRunState<C> {
    type V = RunView<C>;

    closed spec fn view(&self) -> RunView<C> {
        RunView {
            doc: self.current@,
            claim: self.claim@,
            limits: self.limits,
            roster: self.roster@,
            reserved: self.reserved,
            delegations: self.delegations,
            pause: self.pause,
            cancelled: self.cancelled,
            driven: self.driven,
            engaged: self.engaged@,
        }
    }
}

/// `doc` at its next revision, stamped `now`.
pub open spec fn bumped(doc: PersistedSwarmView, now: Seq<char>) -> PersistedSwarmView {
    PersistedSwarmView {
        revision: if doc.revision < u64::MAX {
            (doc.revision + 1) as u64
        } else {
            doc.revision
        },
        updated_at: now,
        ..doc
    }
}

/// An event as it is handed to the store.
pub open spec fn event(
    swarm_id: Seq<char>,
    kind: Seq<char>,
    box_id: Option<Seq<char>>,
    payload: Seq<PayloadFieldView>,
    now: Seq<char>,
) -> EventView {
    EventView { swarm_id, seq: 0, ts: now, kind, box_id, payload }
}

/// A payload field that is text.
pub open spec fn text_field(name: Seq<char>, value: Seq<char>) -> PayloadFieldView {
    PayloadFieldView { name, value: PayloadValueView::Text(value) }
}

/// A payload field that is a flag.
pub open spec fn flag_field(name: Seq<char>, value: bool) -> PayloadFieldView {
    PayloadFieldView { name, value: PayloadValueView::Flag(value) }
}

fn make_text_field(name: &str, value: &str) -> (r: PayloadField)
    ensures
        r@ == text_field(name@, value@),
{
    PayloadField { name: name.to_owned(), value: PayloadValue::Text(value.to_owned()) }
}

impl<C> RunView<C> {
    /// The swarm that the run drives.
    pub open spec fn id(self) -> Seq<char> {
        self.doc.spec.id
    }

    /// The run after `run` has been recorded in its document.
    pub open spec fn recorded(self, run: SwarmRunView, now: Seq<char>) -> RunView<C> {
        RunView { doc: bumped(PersistedSwarmView { run, ..self.doc }, now), ..self }
    }

    /// The run after its status has become `status`.
    pub open spec fn turned(self, status: SwarmStatus, now: Seq<char>) -> RunView<C> {
        self.recorded(SwarmRunView { status, ..self.doc.run }, now)
    }

    /// Finished or parked already.
    pub open spec fn settled(self) -> bool {
        self.doc.run.status.terminal() || self.doc.run.status is Paused
    }

    /// The run and the store after the budget ran out on `axis`.
    pub open spec fn parked(self, store: StoreView, axis: BudgetAxis, now: Seq<char>) -> (
        RunView<C>,
        StoreView,
    ) {
        if self.settled() {
            (self, store)
        } else {
            let next = self.turned(
                SwarmStatus::Paused { reason: SwarmPauseReason::BudgetExhausted },
                now,
            );
            (
                next,
                store.kept(next.doc).logged(
                    event(
                        self.id(),
                        "budget_exhausted"@,
                        None,
                        seq![text_field("axis"@, axis.label())],
                        now,
                    ),
                ),
            )
        }
    }

    /// The run after one more box turn has been admitted.
    pub open spec fn reserving(self) -> RunView<C> {
        RunView { reserved: (self.reserved + 1) as u32, ..self }
    }

    /// The axis on which no further turn can be admitted.
    pub open spec fn exhausted(self) -> Option<BudgetAxis> {
        exhausted_axis(self.doc.run.spent, self.reserved, self.limits)
    }

    /// The run and the store after the budget has been asked whether a turn fits. A
    /// budget that is exhausted parks the run.
    pub open spec fn admitted(self, store: StoreView, now: Seq<char>) -> (RunView<C>, StoreView) {
        match self.exhausted() {
            None => (self, store),
            Some(axis) => self.parked(store, axis, now),
        }
    }

    /// The run and the store after a box turn has asked for a place in the budget.
    pub open spec fn asked(self, store: StoreView, now: Seq<char>) -> (RunView<C>, StoreView) {
        match self.exhausted() {
            None => (self.reserving(), store),
            Some(axis) => self.parked(store, axis, now),
        }
    }

    /// The run after a reservation has been given back.
    pub open spec fn unreserved(self) -> RunView<C> {
        RunView {
            reserved: if self.reserved > 0 {
                (self.reserved - 1) as u32
            } else {
                0
            },
            ..self
        }
    }

    /// The run after `delta` has been counted.
    pub open spec fn charged(self, delta: SwarmSpend, now: Seq<char>) -> RunView<C> {
        self.recorded(
            SwarmRunView { spent: self.doc.run.spent.plus(delta), ..self.doc.run },
            now,
        )
    }

    /// The run after a box turn has reported what it spent.
    pub open spec fn spending(self, delta: SwarmSpend, now: Seq<char>) -> RunView<C> {
        self.unreserved().charged(delta, now)
    }

    /// A user holds the box at `at`: they spoke to it less than the idle time ago.
    pub open spec fn held(self, box_id: Seq<char>, at: int) -> bool {
        self.engaged.contains_key(box_id) && at - self.engaged[box_id] < ENGAGED_IDLE_SECS
    }
}

impl<C> SwarmRunState<C> {
    /// A run of `current` under `claim`. `under_way` box turns of the swarm have outlived
    /// an earlier run: they keep their places in the budget.
    pub fn new(
        current: PersistedSwarm,
        claim: SwarmClaimToken,
        roster: SwarmRoster<C>,
        under_way: u32,
    ) -> (r: Self)
        ensures
            r@ == (RunView {
                doc: current@,
                claim: claim@,
                limits: current@.spec.budget.ceilings(),
                roster: roster@,
                reserved: under_way,
                delegations: 0,
                pause: false,
                cancelled: false,
                driven: false,
                engaged: Map::empty(),
            }),
    {
        let limits = current.spec.budget.limits();
        SwarmRunState {
            current,
            claim,
            limits,
            roster,
            reserved: under_way,
            delegations: 0,
            pause: false,
            cancelled: false,
            driven: false,
            engaged: StrMap::new(),
        }
    }

    /// The validated roster the orchestrator may delegate to.
    pub fn roster(&self) -> (r: &SwarmRoster<C>)
        ensures
            r@ == self@.roster,
    {
        &self.roster
    }

    /// The swarm this run drives.
    pub fn swarm_id(&self) -> (r: &str)
        ensures
            r@ == self@.id(),
    {
        self.current.spec.id.as_str()
    }

    /// The box turns of the swarm that were admitted and have not reported yet.
    pub fn reserved(&self) -> (r: u32)
        ensures
            r == self@.reserved,
    {
        self.reserved
    }

    /// The concrete budget ceilings this run stops at.
    pub fn limits(&self) -> (r: SwarmBudgetLimits)
        ensures
            r == self@.limits,
    {
        self.limits
    }

    /// Where the run is.
    pub fn status(&self) -> (r: SwarmStatus)
        ensures
            r == self@.doc.run.status,
    {
        self.current.run.status
    }

    /// What the run has spent.
    pub fn spent(&self) -> (r: SwarmSpend)
        ensures
            r == self@.doc.run.spent,
    {
        self.current.run.spent
    }

    /// The claim that the run drives its swarm under.
    pub fn claim(&self) -> (r: &SwarmClaimToken)
        ensures
            r@ == self@.claim,
    {
        &self.claim
    }

    /// Appends an event; a store that gives out loses it.
    pub fn append_event<S: SwarmStore>(
        &self,
        store: &mut S,
        kind: &str,
        box_id: Option<String>,
        payload: Vec<PayloadField>,
        now: &str,
    )
        ensures
            final(store).dependable() == old(store).dependable(),
            ({
                let logged = old(store)@.logged(
                    event(
                        self@.id(),
                        kind@,
                        duplicate::opt_view(box_id),
                        text::views(payload@),
                        now@,
                    ),
                );
                final(store)@ == logged || (!old(store).dependable() && final(store)@
                    == old(store)@)
            }),
    {
        let record = SwarmEventRecord {
            swarm_id: self.current.spec.id.clone(),
            seq: 0,
            ts: now.to_owned(),
            kind: kind.to_owned(),
            box_id,
            payload,
        };
        let _ = store.append_event(&record);
    }

    /// Records a new run state under the store's write protocol: the revision moves,
    /// the document is stamped, and the store is asked to keep it.
    fn persist<S: SwarmStore>(
        &mut self,
        store: &mut S,
        status: SwarmStatus,
        spent: SwarmSpend,
        now: &str,
    ) -> (r: Result<(), StoreError>)
        ensures
            final(self)@ == old(self)@.recorded(
                SwarmRunView { status, spent, ..old(self)@.doc.run },
                now@,
            ),
            final(store).dependable() == old(store).dependable(),
            old(store).dependable() ==> final(store)@ == old(store)@.kept(final(self)@.doc),
            match r {
                Ok(()) => store::revision_refusal(
                    old(store)@.swarm(final(self)@.id()),
                    final(self)@.doc,
                ) is None && final(store)@ == old(store)@.saved(final(self)@.doc),
                Err(e) => final(store)@ == old(store)@ && (store::revision_refusal(
                    old(store)@.swarm(final(self)@.id()),
                    final(self)@.doc,
                ) == Some(e@) || (e@.is_failure() && !old(store).dependable())),
            },
    {
        self.current.run.status = status;
        self.current.run.spent = spent;
        self.current.revision = self.current.revision.saturating_add(1);
        self.current.updated_at = now.to_owned();
        store.save_swarm(&self.current)
    }

    /// Moves the run to `status`.
    pub fn turn_to<S: SwarmStore>(&mut self, store: &mut S, status: SwarmStatus, now: &str)
        ensures
            final(self)@ == old(self)@.turned(status, now@),
            final(store).dependable() == old(store).dependable(),
            final(store)@ == old(store)@.kept(final(self)@.doc) || (!old(store).dependable()
                && final(store)@ == old(store)@),
    {
        let spent = self.current.run.spent;
        let _ = self.persist(store, status, spent, now);
    }

    /// Parks the run at `Paused` for its budget, unless it is parked or finished
    /// already.
    pub fn park_for_budget<S: SwarmStore>(&mut self, store: &mut S, axis: BudgetAxis, now: &str)
        ensures
            final(self)@ == old(self)@.parked(old(store)@, axis, now@).0,
            final(store).dependable() == old(store).dependable(),
            old(store).dependable() ==> final(store)@ == old(self)@.parked(
                old(store)@,
                axis,
                now@,
            ).1,
    {
        if self.current.run.status.is_terminal() || self.current.run.status.is_paused() {
            return;
        }
        self.turn_to(
            store,
            SwarmStatus::Paused { reason: SwarmPauseReason::BudgetExhausted },
            now,
        );
        let mut payload: Vec<PayloadField> = Vec::new();
        payload.push(make_text_field("axis", axis.as_str()));
        assert(text::views(payload@) =~= seq![text_field("axis"@, axis.label())]);
        self.append_event(store, "budget_exhausted", None, payload, now);
    }

    /// Checks spend, and the turns under way, against every axis. An exhausted budget
    /// parks the run, and the answer says which axis tripped.
    pub fn admission<S: SwarmStore>(&mut self, store: &mut S, now: &str) -> (r: BudgetAdmission)
        ensures
            r == (match old(self)@.exhausted() {
                None => BudgetAdmission::Admitted,
                Some(axis) => BudgetAdmission::Exhausted(axis),
            }),
            final(self)@ == old(self)@.admitted(old(store)@, now@).0,
            final(store).dependable() == old(store).dependable(),
            old(store).dependable() ==> final(store)@ == old(self)@.admitted(
                old(store)@,
                now@,
            ).1,
    {
        match check_budget(self.current.run.spent, self.reserved, self.limits) {
            None => BudgetAdmission::Admitted,
            Some(axis) => {
                self.park_for_budget(store, axis, now);
                BudgetAdmission::Exhausted(axis)
            },
        }
    }

    /// Admits one box turn, reserving its place in the budget, or parks the run and says
    /// which axis tripped.
    pub fn reserve_turn<S: SwarmStore>(&mut self, store: &mut S, now: &str) -> (r: BudgetAdmission)
        ensures
            r == (match old(self)@.exhausted() {
                None => BudgetAdmission::Admitted,
                Some(axis) => BudgetAdmission::Exhausted(axis),
            }),
            final(self)@ == old(self)@.asked(old(store)@, now@).0,
            final(store).dependable() == old(store).dependable(),
            old(store).dependable() ==> final(store)@ == old(self)@.asked(old(store)@, now@).1,
    {
        match self.admission(store, now) {
            BudgetAdmission::Admitted => {
                self.reserved = self.reserved + 1;
                BudgetAdmission::Admitted
            },
            BudgetAdmission::Exhausted(axis) => BudgetAdmission::Exhausted(axis),
        }
    }

    /// Gives back the reservation of a turn that never ran.
    pub fn cancel_reservation(&mut self)
        ensures
            final(self)@ == old(self)@.unreserved(),
    {
        if self.reserved > 0 {
            self.reserved = self.reserved - 1;
        }
    }

    /// Counts what a turn spent.
    pub fn charge<S: SwarmStore>(&mut self, store: &mut S, delta: SwarmSpend, now: &str)
        ensures
            final(self)@ == old(self)@.charged(delta, now@),
            final(store).dependable() == old(store).dependable(),
            old(store).dependable() ==> final(store)@ == old(store)@.kept(final(self)@.doc),
    {
        let status = self.current.run.status;
        let spent = self.current.run.spent.saturating_add(delta);
        let _ = self.persist(store, status, spent, now);
    }

    /// Counts what a box turn spent and gives its reservation back.
    pub fn record_spend<S: SwarmStore>(&mut self, store: &mut S, delta: SwarmSpend, now: &str)
        ensures
            final(self)@ == old(self)@.spending(delta, now@),
            final(store).dependable() == old(store).dependable(),
            old(store).dependable() ==> final(store)@ == old(store)@.kept(final(self)@.doc),
    {
        self.cancel_reservation();
        self.charge(store, delta, now);
    }
}

// ── Bringing a run up ───────────────────────────────────────────────

/// An agent session id as the library mints it.
pub open spec fn session_form(id: Seq<char>) -> bool {
    &&& id.len() == 36
    &&& forall|i: int|
        0 <= i < 36 ==> if i == 8 || i == 13 || i == 18 || i == 23 {
            #[trigger] id[i] == '-'
        } else {
            ids::hex_digit(id[i])
        }
}

/// `after` keeps every session of `before` and mints one for each box that had none.
pub open spec fn sessions_filled(
    before: Map<Seq<char>, Seq<char>>,
    boxes: Seq<Seq<char>>,
    after: Map<Seq<char>, Seq<char>>,
) -> bool {
    &&& forall|b: Seq<char>| #[trigger]
        after.contains_key(b) <==> before.contains_key(b) || boxes.contains(b)
    &&& forall|b: Seq<char>| #[trigger] before.contains_key(b) ==> after[b] == before[b]
    &&& forall|b: Seq<char>| #[trigger]
        after.contains_key(b) && !before.contains_key(b) ==> session_form(after[b])
}

impl<C> SwarmRunState<C> {
    /// Brings the run to `Running` and gives every box a session, keeping those that
    /// an earlier run recorded.
    pub fn bring_up<S: SwarmStore>(&mut self, store: &mut S, now: &str) -> (r: Result<
        (),
        StoreError,
    >)
        ensures
            sessions_filled(
                old(self)@.doc.run.sessions,
                old(self)@.roster.ids(),
                final(self)@.doc.run.sessions,
            ),
            final(self)@ == old(self)@.recorded(
                SwarmRunView {
                    status: SwarmStatus::Running,
                    sessions: final(self)@.doc.run.sessions,
                    ..old(self)@.doc.run
                },
                now@,
            ),
            final(store).dependable() == old(store).dependable(),
            r is Ok ==> store::revision_refusal(old(store)@.swarm(final(self)@.id()), final(self)@.doc) is None
                && final(store)@ == old(store)@.saved(final(self)@.doc),
            r matches Err(e) ==> final(store)@ == old(store)@ && (store::revision_refusal(
                old(store)@.swarm(final(self)@.id()),
                final(self)@.doc,
            ) == Some(e@) || (e@.is_failure() && !old(store).dependable())),
    {
        let ids = self.roster.box_ids();
        let ghost names = self@.roster.ids();
        let ghost start = self@;
        let mut i: usize = 0;
        assert(names.take(0) =~= Seq::<Seq<char>>::empty());
        while i < ids.len()
            invariant
                i <= ids.len(),
                names == text::views(ids@),
                sessions_filled(
                    start.doc.run.sessions,
                    names.take(i as int),
                    self@.doc.run.sessions,
                ),
                self@ == (RunView {
                    doc: PersistedSwarmView {
                        run: SwarmRunView {
                            sessions: self@.doc.run.sessions,
                            ..start.doc.run
                        },
                        ..start.doc
                    },
                    ..start
                }),
            decreases ids.len() - i,
        {
            let ghost before = self@.doc.run.sessions;
            let ghost seen = names.take(i as int);
            let ghost more = names.take(i + 1);
            let box_id = ids[i].as_str();
            assert(box_id@ == names[i as int]);
            proof {
                assert(more =~= seen.push(names[i as int]));
                assert forall|b: Seq<char>| #[trigger]
                    more.contains(b) <==> seen.contains(b) || b == names[i as int] by {
                    if seen.contains(b) {
                        let k = choose|k: int| 0 <= k < seen.len() && seen[k] == b;
                        assert(more[k] == b);
                    }
                    if more.contains(b) {
                        let k = choose|k: int| 0 <= k < more.len() && more[k] == b;
                        if k < i {
                            assert(seen[k] == b);
                        }
                    }
                    if b == names[i as int] {
                        assert(more[i as int] == b);
                    }
                }
            }
            if !self.current.run.sessions.contains_key(box_id) {
                let session = random_hyphenated();
                assert(session_form(session@));
                self.current.run.sessions.insert(box_id.to_owned(), session);
            }
            assert(sessions_filled(start.doc.run.sessions, more, self@.doc.run.sessions));
            i += 1;
        }
        assert(names.take(i as int) =~= names);
        let spent = self.current.run.spent;
        let r = self.persist(store, SwarmStatus::Running, spent, now);
        r
    }
}

// ── Box turns ───────────────────────────────────────────────────────

/// A box turn that was admitted and is to be run.
#[derive(Debug)]
pub struct BoxTurn {
    pub box_id: String,
    pub alias: String,
    pub subtask: String,
    /// The agent session that the box speaks through.
    pub session_id: Option<String>,
    /// What the box may read and write of the shared memory.
    pub memory: BoxMemoryScope,
}

/// A box turn as plain values.
#[verifier::ext_equal]
pub struct BoxTurnView {
    pub box_id: Seq<char>,
    pub alias: Seq<char>,
    pub subtask: Seq<char>,
    pub session_id: Option<Seq<char>>,
    pub memory: MemoryScopeView,
}

impl View for BoxTurn {
    type V = BoxTurnView;

    open spec fn view(&self) -> BoxTurnView {
        BoxTurnView {
            box_id: self.box_id@,
            alias: self.alias@,
            subtask: self.subtask@,
            session_id: duplicate::opt_view(self.session_id),
            memory: self.memory@,
        }
    }
}

impl<C> RunView<C> {
    /// The box of the roster that goes by `box_id`.
    pub open spec fn roster_box(self, box_id: Seq<char>) -> RosterBoxView<C> {
        self.roster.boxes[text::first_index(self.roster.ids(), box_id)]
    }

    /// Why a delegation to `box_id` is refused, if it is: it is not on the roster, a
    /// user holds it, or the budget is exhausted.
    pub open spec fn delegation_refusal(self, box_id: Seq<char>, at: int) -> Option<
        BoxTurnErrorView,
    > {
        if !self.roster.ids().contains(box_id) {
            Some(BoxTurnErrorView::UnknownBox(box_id))
        } else if self.held(box_id, at) {
            Some(BoxTurnErrorView::UserEngaged(box_id))
        } else {
            match self.exhausted() {
                Some(axis) => Some(BoxTurnErrorView::BudgetExhausted(axis)),
                None => None,
            }
        }
    }

    /// The run after a delegation has been admitted.
    pub open spec fn delegating(self) -> RunView<C> {
        RunView {
            delegations: if self.delegations < u64::MAX {
                (self.delegations + 1) as u64
            } else {
                0
            },
            ..self.reserving()
        }
    }

    /// The run and the store after a delegation to `box_id` has been asked for.
    pub open spec fn delegated(
        self,
        store: StoreView,
        box_id: Seq<char>,
        at: int,
        now: Seq<char>,
    ) -> (RunView<C>, StoreView) {
        match self.delegation_refusal(box_id, at) {
            None => (self.delegating(), store),
            Some(BoxTurnErrorView::BudgetExhausted(axis)) => self.parked(store, axis, now),
            Some(_) => (self, store),
        }
    }

    /// The turn that an admitted delegation runs.
    pub open spec fn box_turn(self, box_id: Seq<char>, subtask: Seq<char>) -> BoxTurnView {
        BoxTurnView {
            box_id,
            alias: self.roster_box(box_id).alias,
            subtask,
            session_id: if self.doc.run.sessions.contains_key(box_id) {
                Some(self.doc.run.sessions[box_id])
            } else {
                None
            },
            memory: self.roster.scope(text::first_index(self.roster.ids(), box_id)),
        }
    }
}

/// The event that a finished delegation leaves behind.
pub open spec fn delegated_event(
    swarm_id: Seq<char>,
    box_id: Seq<char>,
    spend: SwarmSpend,
    now: Seq<char>,
) -> EventView {
    event(
        swarm_id,
        "box_delegated"@,
        Some(box_id),
        seq![
            PayloadFieldView { name: "tokens"@, value: PayloadValueView::Number(spend.tokens) },
            PayloadFieldView {
                name: "cost_usd"@,
                value: PayloadValueView::Amount(spend.cost_usd),
            },
            text_field("origin"@, "swarm"@),
        ],
        now,
    )
}

/// The record of a finished delegation.
pub fn delegated_record(swarm_id: &str, box_id: &str, spend: SwarmSpend, now: &str) -> (r:
    SwarmEventRecord)
    ensures
        r@ == delegated_event(swarm_id@, box_id@, spend, now@),
{
    let mut payload: Vec<PayloadField> = Vec::new();
    payload.push(
        PayloadField { name: "tokens".to_owned(), value: PayloadValue::Number(spend.tokens) },
    );
    payload.push(
        PayloadField { name: "cost_usd".to_owned(), value: PayloadValue::Amount(spend.cost_usd) },
    );
    payload.push(make_text_field("origin", "swarm"));
    assert(text::views(payload@) =~= delegated_event(swarm_id@, box_id@, spend, now@).payload);
    SwarmEventRecord {
        swarm_id: swarm_id.to_owned(),
        seq: 0,
        ts: now.to_owned(),
        kind: "box_delegated".to_owned(),
        box_id: Some(box_id.to_owned()),
        payload,
    }
}

/// What one turn is charged: always a turn, even where it failed, and the tokens and
/// the cost that were observed.
pub fn measured_spend(input_tokens: u64, output_tokens: u64, cost_usd: Usd) -> (r: SwarmSpend)
    ensures
        r == (SwarmSpend {
            turns: 1,
            tokens: if input_tokens + output_tokens <= u64::MAX {
                (input_tokens + output_tokens) as u64
            } else {
                u64::MAX
            },
            cost_usd,
        }),
{
    SwarmSpend { turns: 1, tokens: input_tokens.saturating_add(output_tokens), cost_usd }
}

impl<C> SwarmRunState<C> {
    /// Asks to delegate `subtask` to one box at `at` seconds: the box must be on the
    /// roster and nobody's, and the turn must fit the budget. The box then shows the
    /// subtask on the board.
    pub fn start_box_turn<S: SwarmStore>(
        &mut self,
        store: &mut S,
        board: &mut SwarmStateBoard,
        box_id: &str,
        subtask: &str,
        at: i64,
        now: &str,
    ) -> (r: Result<BoxTurn, BoxTurnError>)
        ensures
            match old(self)@.delegation_refusal(box_id@, at as int) {
                Some(e) => r matches Err(x) && x@ == e && final(board)@ == old(board)@,
                None => r matches Ok(turn) && turn@ == old(self)@.box_turn(box_id@, subtask@)
                    && turn.box_id@ == box_id@ && turn.subtask@ == subtask@ && final(board)@ == old(board)@.after_publish(
                    old(self)@.id(),
                    box_id@,
                    BoxStatus::Working,
                    text::truncated(subtask@, SUBTASK_NOTE_LEN as nat),
                ),
            },
            final(self)@ == old(self)@.delegated(old(store)@, box_id@, at as int, now@).0,
            final(store).dependable() == old(store).dependable(),
            old(store).dependable() ==> final(store)@ == old(self)@.delegated(
                old(store)@,
                box_id@,
                at as int,
                now@,
            ).1,
    {
        let alias = match self.roster.get(box_id) {
            Some(entry) => {
                proof {
                    let at = text::first_index(self@.roster.ids(), box_id@);
                    assert(self@.roster.ids()[at] == box_id@);
                }
                entry.alias.clone()
            },
            None => {
                return Err(BoxTurnError::UnknownBox(box_id.to_owned()));
            },
        };
        let memory = match self.roster.memory_scope(box_id) {
            Some(scope) => scope,
            None => {
                return Err(BoxTurnError::UnknownBox(box_id.to_owned()));
            },
        };
        if self.is_engaged(box_id, at) {
            return Err(BoxTurnError::UserEngaged(box_id.to_owned()));
        }
        match self.reserve_turn(store, now) {
            BudgetAdmission::Exhausted(axis) => {
                return Err(BoxTurnError::BudgetExhausted(axis));
            },
            BudgetAdmission::Admitted => {},
        }
        self.delegations = self.delegations.wrapping_add(1);
        let note = truncate(subtask, SUBTASK_NOTE_LEN);
        let _ = board.publish(
            self.current.spec.id.as_str(),
            box_id,
            BoxStatus::Working,
            note.as_str(),
        );
        let session_id = match self.current.run.sessions.get(box_id) {
            Some(s) => Some(s.clone()),
            None => None,
        };
        Ok(
            BoxTurn {
                box_id: box_id.to_owned(),
                alias,
                subtask: subtask.to_owned(),
                session_id,
                memory,
            },
        )
    }

    /// Accounts for a box turn that ran: its spend is counted, the delegation is
    /// logged, and the box's answer is handed on.
    pub fn finish_box_turn<S: SwarmStore>(
        &mut self,
        store: &mut S,
        box_id: &str,
        spend: SwarmSpend,
        result: Result<String, String>,
        now: &str,
    ) -> (r: Result<String, BoxTurnError>)
        ensures
            match result {
                Ok(text) => r == Ok::<String, BoxTurnError>(text),
                Err(m) => r matches Err(e) && e@ == BoxTurnErrorView::Turn(m@),
            },
            final(self)@ == old(self)@.spending(spend, now@),
            final(store).dependable() == old(store).dependable(),
            old(store).dependable() ==> final(store)@ == old(store)@.kept(
                final(self)@.doc,
            ).logged(delegated_event(old(self)@.id(), box_id@, spend, now@)),
    {
        self.record_spend(store, spend, now);
        let record = delegated_record(self.current.spec.id.as_str(), box_id, spend, now);
        let _ = store.append_event(&record);
        match result {
            Ok(text) => Ok(text),
            Err(m) => Err(BoxTurnError::Turn(m)),
        }
    }

    /// Gives up a box turn whose agent could not be built: nothing was spent.
    pub fn abort_box_turn(&mut self, reason: String) -> (r: BoxTurnError)
        ensures
            r@ == BoxTurnErrorView::Turn(reason@),
            final(self)@ == old(self)@.unreserved(),
    {
        self.cancel_reservation();
        BoxTurnError::Turn(reason)
    }

    /// Holds a box for a user who spoke to it at `at`. A box that is not on the roster
    /// is not held.
    pub fn engage(&mut self, box_id: &str, at: i64) -> (r: bool)
        ensures
            r == old(self)@.roster.ids().contains(box_id@),
            final(self)@ == (if r {
                RunView { engaged: old(self)@.engaged.insert(box_id@, at as int), ..old(self)@ }
            } else {
                old(self)@
            }),
    {
        match self.roster.get(box_id) {
            Some(_) => {
                proof {
                    let i = text::first_index(self@.roster.ids(), box_id@);
                    assert(self@.roster.ids()[i] == box_id@);
                }
                self.engaged.insert(box_id.to_owned(), Hold { since: at });
                true
            },
            None => false,
        }
    }

    /// Hands a box back to the orchestrator; says whether a user held it.
    pub fn disengage(&mut self, box_id: &str, at: i64) -> (r: bool)
        ensures
            r == old(self)@.held(box_id@, at as int),
            final(self)@ == (RunView {
                engaged: old(self)@.engaged.remove(box_id@),
                ..old(self)@
            }),
    {
        let held = self.is_engaged(box_id, at);
        let _ = self.engaged.remove(box_id);
        assert(self@.engaged =~= old(self)@.engaged.remove(box_id@));
        held
    }

    /// Whether a user holds a box at `at`.
    pub fn is_engaged(&self, box_id: &str, at: i64) -> (r: bool)
        ensures
            r == self@.held(box_id@, at as int),
    {
        match self.engaged.get(box_id) {
            Some(hold) => (at as i128) - (hold.since as i128) < ENGAGED_IDLE_SECS as i128,
            None => false,
        }
    }
}

// ── Planning rounds ─────────────────────────────────────────────────

/// How a driver loop finished, deciding the terminal handling.
#[derive(Debug, Clone, Copy, PartialEq, Eq, Structural)]
pub enum DriverExit {
    /// The orchestrator finished the goal.
    Completed,
    /// A turn could not be admitted: the run is parked.
    BudgetExhausted,
    /// An operator pause was honored at a round boundary.
    Paused,
    /// A hard stop cancelled the run.
    Cancelled,
}

/// What a round begins with.
#[derive(Debug)]
pub enum RoundStart {
    /// The loop ends here.
    Exit(DriverExit),
    /// Run one orchestrator turn on `prompt`. `before` is the delegation count.
    Plan { prompt: String, before: u64 },
}

/// What the orchestrator turn of a round came to.
#[derive(Debug)]
pub enum RoundOutcome {
    /// The orchestrator's agent could not be built.
    NoAgent(String),
    /// The turn ran.
    Turn { spend: SwarmSpend, result: Result<String, String> },
}

/// What follows a round.
#[derive(Debug, Clone, Copy, PartialEq, Eq, Structural)]
pub enum RoundEnd {
    /// The loop ends here.
    Exit(DriverExit),
    /// Go on with this round.
    Next(usize),
}

/// A value, or a stand-in where it is empty.
pub open spec fn or_unset(s: Seq<char>) -> Seq<char> {
    if s.len() == 0 {
        "(unset)"@
    } else {
        s
    }
}

/// The roster in lines, as the orchestrator sees its first `n` boxes.
pub open spec fn roster_lines<C>(boxes: Seq<RosterBoxView<C>>, n: int) -> Seq<char>
    decreases n,
{
    if n <= 0 {
        Seq::empty()
    } else {
        let b = boxes[n - 1];
        roster_lines(boxes, n - 1) + ("- "@ + b.box_id + " — role: "@ + or_unset(b.role)
            + ", job: "@ + or_unset(b.job) + "\n"@)
    }
}

/// One line of the board, as the orchestrator sees it.
pub open spec fn prompt_line(box_id: Seq<char>, state: BoxStateView) -> Seq<char> {
    "- "@ + box_id + ": "@ + state.status.label() + (match state.claim {
        Some(key) => " holding "@ + text::quoted(key),
        None => Seq::empty(),
    }) + (if state.note.len() == 0 {
        Seq::empty()
    } else {
        " — "@ + state.note
    }) + "\n"@
}

/// The first `n` lines of the board, in the order of its box ids.
pub open spec fn board_lines(board: BoardView, n: int) -> Seq<char>
    decreases n,
{
    if n <= 0 {
        Seq::empty()
    } else {
        let id = strmap::key_order(board.boxes.dom())[n - 1];
        board_lines(board, n - 1) + prompt_line(id, board.boxes[id])
    }
}

/// What the orchestrator is told at the start of a round.
pub open spec fn orchestrator_prompt<C>(
    spec: SwarmSpecView,
    roster: RosterView<C>,
    board: Option<BoardView>,
    round: nat,
) -> Seq<char> {
    "You are the orchestrator of swarm "@ + text::quoted(spec.name) + " (role: "@ + spec.role
        + ").\n"@ + "Goal: "@ + spec.goal + "\n\n"@ + "Roster (delegate to these boxes only):\n"@
        + roster_lines(roster.boxes, roster.boxes.len() as int) + "\n"@ + (match board {
        Some(b) => "State board:\n"@ + board_lines(
            b,
            strmap::key_order(b.boxes.dom()).len() as int,
        ) + "\n"@,
        None => Seq::empty(),
    }) + "Planning round "@ + text::numeral(round)
        + ". Delegate focused subtasks to boxes with the `swarm_delegate` tool. When the goal is met, reply with a final summary and delegate nothing further.\n"@
}

impl<C> RunView<C> {
    /// How a round begins; `None` where an orchestrator turn runs.
    pub open spec fn round_exit(self) -> Option<DriverExit> {
        if self.cancelled {
            Some(DriverExit::Cancelled)
        } else if self.pause {
            Some(DriverExit::Paused)
        } else if self.exhausted() is Some {
            Some(DriverExit::BudgetExhausted)
        } else {
            None
        }
    }

    /// The run and the store after a round has begun.
    pub open spec fn round_begun(self, store: StoreView, now: Seq<char>) -> (
        RunView<C>,
        StoreView,
    ) {
        if self.cancelled {
            (self, store)
        } else if self.pause {
            let next = self.turned(
                SwarmStatus::Paused { reason: SwarmPauseReason::UserRequested },
                now,
            );
            (next, store.kept(next.doc).logged(self.paused_event(now)))
        } else {
            self.admitted(store, now)
        }
    }

    /// The event that an operator pause leaves behind.
    pub open spec fn paused_event(self, now: Seq<char>) -> EventView {
        event(
            self.id(),
            "swarm_paused"@,
            None,
            seq![text_field("reason"@, "user_requested"@)],
            now,
        )
    }

    /// The event that a failed orchestrator turn leaves behind.
    pub open spec fn failure_event(self, error: Seq<char>, now: Seq<char>) -> EventView {
        event(self.id(), "orchestrator_error"@, None, seq![text_field("error"@, error)], now)
    }

    /// What follows a round whose orchestrator turn went well: a parked or stopped run
    /// ends, and so does one in which nothing was delegated.
    pub open spec fn round_verdict(self, round: usize, before: u64) -> RoundEnd {
        if self.doc.run.status is Paused {
            RoundEnd::Exit(DriverExit::BudgetExhausted)
        } else if self.cancelled {
            RoundEnd::Exit(DriverExit::Cancelled)
        } else if self.delegations == before || round + 1 >= MAX_ROUNDS {
            RoundEnd::Exit(DriverExit::Completed)
        } else {
            RoundEnd::Next((round + 1) as usize)
        }
    }
}

impl<C> SwarmRunState<C> {
    /// What the orchestrator is told at the start of a round.
    pub fn render_orchestrator_prompt(&self, board: &SwarmStateBoard, round: usize) -> (r: String)
        ensures
            r@ == orchestrator_prompt(
                self@.doc.spec,
                self@.roster,
                if board@.boards.contains_key(self@.id()) {
                    Some(board@.boards[self@.id()])
                } else {
                    None
                },
                round as nat,
            ),
    {
        let spec = &self.current.spec;
        let mut out = "You are the orchestrator of swarm ".to_owned();
        out.append(quote(spec.name.as_str()).as_str());
        out.append(" (role: ");
        out.append(spec.role.as_str());
        out.append(").\n");
        out.append("Goal: ");
        out.append(spec.goal.as_str());
        out.append("\n\n");
        out.append("Roster (delegate to these boxes only):\n");
        let ghost head = out@;
        let ghost boxes = self@.roster.boxes;
        let entries = self.roster.boxes();
        let mut i: usize = 0;
        assert(head + roster_lines(boxes, 0) =~= head);
        while i < entries.len()
            invariant
                i <= entries.len(),
                boxes == text::views(entries@),
                out@ == head + roster_lines(boxes, i as int),
            decreases entries.len() - i,
        {
            let entry = &entries[i];
            assert(entry@ == boxes[i as int]);
            let ghost before = out@;
            let mut line = "- ".to_owned();
            line.append(entry.box_id.as_str());
            line.append(" — role: ");
            line.append(
                if entry.role.as_str().is_empty() {
                    "(unset)"
                } else {
                    entry.role.as_str()
                },
            );
            line.append(", job: ");
            line.append(
                if entry.job.as_str().is_empty() {
                    "(unset)"
                } else {
                    entry.job.as_str()
                },
            );
            line.append("\n");
            out.append(line.as_str());
            assert(out@ =~= head + roster_lines(boxes, i + 1));
            i += 1;
        }
        out.append("\n");
        let ghost middle = out@;
        match board.snapshot(spec.id.as_str()) {
            Some(snapshot) => {
                let ghost b = snapshot@;
                let ghost keys = strmap::key_order(b.boxes.dom());
                out.append("State board:\n");
                let ghost top = out@;
                let n: usize = snapshot.boxes.len();
                let mut k: usize = 0;
                assert(top + board_lines(b, 0) =~= top);
                while k < n
                    invariant
                        k <= n,
                        n == keys.len(),
                        b == snapshot@,
                        keys == strmap::key_order(b.boxes.dom()),
                        keys == snapshot.boxes.keys(),
                        n == snapshot.boxes.values().len(),
                        forall|j: int|
                            0 <= j < n ==> #[trigger] snapshot.boxes@.contains_key(
                                snapshot.boxes.keys()[j],
                            ) && snapshot.boxes@[snapshot.boxes.keys()[j]]
                                == snapshot.boxes.values()[j],
                        out@ == top + board_lines(b, k as int),
                    decreases n - k,
                {
                    let state = snapshot.boxes.value_at(k);
                    assert(snapshot.boxes@.contains_key(snapshot.boxes.keys()[k as int]));
                    let mut line = "- ".to_owned();
                    line.append(snapshot.boxes.key_at(k));
                    line.append(": ");
                    line.append(state.status.as_str());
                    if let Some(key) = &state.claim {
                        line.append(
                            " holding ".to_owned().concat(quote(key.as_str()).as_str()).as_str(),
                        );
                    }
                    if !state.note.as_str().is_empty() {
                        line.append(" — ".to_owned().concat(state.note.as_str()).as_str());
                    }
                    line.append("\n");
                    assert(line@ =~= prompt_line(keys[k as int], state@));
                    out.append(line.as_str());
                    assert(out@ =~= top + board_lines(b, k + 1));
                    k += 1;
                }
                out.append("\n");
                assert(out@ =~= middle + ("State board:\n"@ + board_lines(
                    b,
                    strmap::key_order(b.boxes.dom()).len() as int,
                ) + "\n"@));
            },
            None => {
                assert(middle + Seq::<char>::empty() =~= middle);
            },
        }
        out.append("Planning round ");
        out.append(decimal(round as u64).as_str());
        out.append(
            ". Delegate focused subtasks to boxes with the `swarm_delegate` tool. When the goal is met, reply with a final summary and delegate nothing further.\n",
        );
        out
    }

    /// Begins a round: a stop or an operator pause ends the loop, and the
    /// orchestrator's own turn must fit the budget.
    pub fn begin_round<S: SwarmStore>(
        &mut self,
        store: &mut S,
        board: &SwarmStateBoard,
        round: usize,
        now: &str,
    ) -> (r: RoundStart)
        ensures
            match old(self)@.round_exit() {
                Some(exit) => r == RoundStart::Exit(exit),
                None => r matches RoundStart::Plan { prompt, before } && before
                    == old(self)@.delegations && prompt@ == orchestrator_prompt(
                    old(self)@.doc.spec,
                    old(self)@.roster,
                    if board@.boards.contains_key(old(self)@.id()) {
                        Some(board@.boards[old(self)@.id()])
                    } else {
                        None
                    },
                    round as nat,
                ),
            },
            final(self)@ == old(self)@.round_begun(old(store)@, now@).0,
            final(store).dependable() == old(store).dependable(),
            old(store).dependable() ==> final(store)@ == old(self)@.round_begun(
                old(store)@,
                now@,
            ).1,
    {
        if self.cancelled {
            return RoundStart::Exit(DriverExit::Cancelled);
        }
        if self.pause {
            self.park_for_user(store, now);
            return RoundStart::Exit(DriverExit::Paused);
        }
        match self.admission(store, now) {
            BudgetAdmission::Exhausted(_) => RoundStart::Exit(DriverExit::BudgetExhausted),
            BudgetAdmission::Admitted => RoundStart::Plan {
                prompt: self.render_orchestrator_prompt(board, round),
                before: self.delegations,
            },
        }
    }

    /// Parks the run because an operator asked for it.
    pub fn park_for_user<S: SwarmStore>(&mut self, store: &mut S, now: &str)
        ensures
            final(self)@ == old(self)@.turned(
                SwarmStatus::Paused { reason: SwarmPauseReason::UserRequested },
                now@,
            ),
            final(store).dependable() == old(store).dependable(),
            old(store).dependable() ==> final(store)@ == old(store)@.kept(
                final(self)@.doc,
            ).logged(old(self)@.paused_event(now@)),
    {
        self.turn_to(
            store,
            SwarmStatus::Paused { reason: SwarmPauseReason::UserRequested },
            now,
        );
        let mut payload: Vec<PayloadField> = Vec::new();
        payload.push(make_text_field("reason", "user_requested"));
        assert(text::views(payload@) =~= seq![text_field("reason"@, "user_requested"@)]);
        self.append_event(store, "swarm_paused", None, payload, now);
    }

    fn log_failure<S: SwarmStore>(&self, store: &mut S, error: &str, now: &str)
        ensures
            final(store).dependable() == old(store).dependable(),
            old(store).dependable() ==> final(store)@ == old(store)@.logged(
                self@.failure_event(error@, now@),
            ),
    {
        let mut payload: Vec<PayloadField> = Vec::new();
        payload.push(make_text_field("error", error));
        assert(text::views(payload@) =~= seq![text_field("error"@, error@)]);
        self.append_event(store, "orchestrator_error", None, payload, now);
    }

    /// Ends a round: the turn's spend is counted, and the loop goes on only where the
    /// orchestrator delegated something and nothing stopped the run.
    pub fn end_round<S: SwarmStore>(
        &mut self,
        store: &mut S,
        round: usize,
        before: u64,
        outcome: RoundOutcome,
        now: &str,
    ) -> (r: RoundEnd)
        ensures
            final(store).dependable() == old(store).dependable(),
            match outcome {
                RoundOutcome::NoAgent(e) => {
                    &&& r == RoundEnd::Exit(DriverExit::Completed)
                    &&& final(self)@ == old(self)@
                    &&& old(store).dependable() ==> final(store)@ == old(store)@.logged(
                        old(self)@.failure_event(e@, now@),
                    )
                },
                RoundOutcome::Turn { spend, result: Err(e) } => {
                    &&& r == RoundEnd::Exit(DriverExit::Completed)
                    &&& final(self)@ == old(self)@.charged(spend, now@)
                    &&& old(store).dependable() ==> final(store)@ == old(store)@.kept(
                        final(self)@.doc,
                    ).logged(old(self)@.failure_event(e@, now@))
                },
                RoundOutcome::Turn { spend, result: Ok(_) } => {
                    &&& r == final(self)@.round_verdict(round, before)
                    &&& final(self)@ == old(self)@.charged(spend, now@)
                    &&& old(store).dependable() ==> final(store)@ == old(store)@.kept(
                        final(self)@.doc,
                    )
                },
            },
    {
        match outcome {
            RoundOutcome::NoAgent(e) => {
                self.log_failure(store, e.as_str(), now);
                RoundEnd::Exit(DriverExit::Completed)
            },
            RoundOutcome::Turn { spend, result } => {
                self.charge(store, spend, now);
                if let Err(e) = result {
                    self.log_failure(store, e.as_str(), now);
                    return RoundEnd::Exit(DriverExit::Completed);
                }
                // A box delegation may have exhausted the budget mid-turn.
                if self.current.run.status.is_paused() {
                    return RoundEnd::Exit(DriverExit::BudgetExhausted);
                }
                if self.cancelled {
                    return RoundEnd::Exit(DriverExit::Cancelled);
                }
                if self.delegations == before || round >= MAX_ROUNDS - 1 {
                    // The orchestrator delegated nothing: the goal is met, or there is
                    // nothing left to do.
                    return RoundEnd::Exit(DriverExit::Completed);
                }
                RoundEnd::Next(round + 1)
            },
        }
    }

    /// Asks the run to hold at its next round boundary.
    pub fn request_pause(&mut self)
        ensures
            final(self)@ == (RunView { pause: true, ..old(self)@ }),
    {
        self.pause = true;
    }

    /// Stops the run.
    pub fn cancel(&mut self)
        ensures
            final(self)@ == (RunView { cancelled: true, ..old(self)@ }),
    {
        self.cancelled = true;
    }

    /// Records that an orchestrator driver runs.
    pub fn mark_driven(&mut self)
        ensures
            final(self)@ == (RunView { driven: true, ..old(self)@ }),
    {
        self.driven = true;
    }

    /// Whether an orchestrator driver runs.
    pub fn is_driven(&self) -> (r: bool)
        ensures
            r == self@.driven,
    {
        self.driven
    }

    /// Whether the run was stopped.
    pub fn is_cancelled(&self) -> (r: bool)
        ensures
            r == self@.cancelled,
    {
        self.cancelled
    }

    /// Renews the claim. Where it is gone another driver owns the swarm, and the run
    /// stops.
    pub fn heartbeat<S: SwarmStore>(&mut self, store: &mut S) -> (r: bool)
        ensures
            final(store).dependable() == old(store).dependable(),
            final(self)@ == (if r {
                old(self)@
            } else {
                RunView { cancelled: true, ..old(self)@ }
            }),
            old(store).dependable() ==> r == old(store)@.holds(old(self)@.claim),
            r ==> old(store)@.holds(old(self)@.claim) && old(store)@.renews(
                old(self)@.claim,
                final(store)@,
            ),
            !r ==> final(store)@ == old(store)@,
    {
        match store.heartbeat_claim(&self.claim) {
            Ok(()) => true,
            Err(_) => {
                self.cancelled = true;
                false
            },
        }
    }
}

// ── Laws of the budget ──────────────────────────────────────────────

/// A box turn is admitted only while the turns spent and under way stay below the
/// ceiling, and admitting it keeps them within it; one that is refused changes neither.
/// However many delegations of one run ask at once, they never over-admit; what holds of
/// a swarm across its runs, [`super::supervisor::turns_stay_within_the_budget`] states.
pub proof fn admission_stays_within_the_turn_budget<C>(
    run: RunView<C>,
    store: StoreView,
    now: Seq<char>,
)
    ensures
        ({
            let after = run.asked(store, now).0;
            &&& after.limits == run.limits
            &&& after.doc.run.spent == run.doc.run.spent
            &&& run.exhausted() is None ==> after.reserved == run.reserved + 1
                && after.doc.run.spent.turns + after.reserved <= run.limits.max_turns
            &&& run.exhausted() is Some ==> after.reserved == run.reserved
        }),
{
}

/// A planning turn is begun only below every ceiling and takes no place in the budget
/// before it reports: its own turn is counted then, and where its delegations have used
/// the budget up by that time it is the only one past the ceiling.
pub proof fn planning_is_counted_when_it_reports<C>(
    run: RunView<C>,
    later: RunView<C>,
    store: StoreView,
    delta: SwarmSpend,
    now: Seq<char>,
)
    requires
        delta.turns == 1,
        later.doc.run.spent.turns + later.reserved <= later.limits.max_turns,
    ensures
        run.round_exit() is None ==> run.exhausted() is None && run.round_begun(store, now) == (
            run,
            store,
        ),
        later.charged(delta, now).doc.run.spent.turns + later.charged(delta, now).reserved
            <= later.limits.max_turns + 1,
{
}

/// A box turn that reports its spend moves one turn from under way to spent, so the sum
/// that admission bounds stays as it is.
pub proof fn spending_keeps_the_turn_budget<C>(run: RunView<C>, delta: SwarmSpend, now: Seq<char>)
    requires
        run.doc.run.spent.turns + run.reserved <= run.limits.max_turns,
        run.reserved > 0,
        delta.turns == 1,
    ensures
        run.spending(delta, now).doc.run.spent.turns + run.spending(delta, now).reserved
            == run.doc.run.spent.turns + run.reserved,
        run.spending(delta, now).limits == run.limits,
{
}

/// Reaching a ceiling parks a live run for its budget, keeps the spend recorded, and
/// never fails it.
pub proof fn exhaustion_parks<C>(run: RunView<C>, store: StoreView, now: Seq<char>)
    requires
        run.exhausted() is Some,
        run.doc.run.status == SwarmStatus::Running || run.doc.run.status == SwarmStatus::Created,
    ensures
        run.asked(store, now).0.doc.run.status == (SwarmStatus::Paused {
            reason: SwarmPauseReason::BudgetExhausted,
        }),
        run.asked(store, now).0.doc.run.spent == run.doc.run.spent,
        !run.asked(store, now).0.doc.run.status.terminal(),
{
}

/// Spend never goes down.
pub proof fn spend_only_grows<C>(run: RunView<C>, delta: SwarmSpend, now: Seq<char>)
    ensures
        run.charged(delta, now).doc.run.spent.turns >= run.doc.run.spent.turns,
        run.charged(delta, now).doc.run.spent.tokens >= run.doc.run.spent.tokens,
        run.charged(delta, now).doc.run.spent.cost_usd.micros
            >= run.doc.run.spent.cost_usd.micros,
        run.spending(delta, now).doc.run.spent == run.charged(delta, now).doc.run.spent,
{
}

/// A run never plans more rounds than the ceiling.
pub proof fn rounds_are_bounded<C>(run: RunView<C>, round: usize, before: u64)
    ensures
        run.round_verdict(round, before) matches RoundEnd::Next(next) ==> next == round + 1
            && next < MAX_ROUNDS,
{
}

/// A pause is honoured at the round boundary: the run is held for the user and
/// nothing further is spent.
pub proof fn a_pause_holds_at_the_boundary<C>(run: RunView<C>, store: StoreView, now: Seq<char>)
    requires
        run.pause,
        !run.cancelled,
    ensures
        ({
            let after = run.round_begun(store, now).0;
            &&& after.doc.run.status == (SwarmStatus::Paused {
                reason: SwarmPauseReason::UserRequested,
            })
            &&& after.doc.run.spent == run.doc.run.spent
            &&& after.reserved == run.reserved
            &&& run.round_exit() == Some(DriverExit::Paused)
        }),
{
}

/// A budget has room exactly while every one of its three sums is below its ceiling,
/// whatever is under way; and the axis that is named is one whose ceiling is reached, the
/// turns before the tokens and the tokens before the cost.
pub proof fn a_budget_is_held_on_every_axis(
    spent: SwarmSpend,
    reserved: u32,
    limits: SwarmBudgetLimits,
)
    ensures
        spent.turns + reserved >= limits.max_turns ==> exhausted_axis(spent, reserved, limits)
            == Some(BudgetAxis::Turns),
        spent.tokens >= limits.max_tokens ==> exhausted_axis(spent, reserved, limits) is Some,
        spent.cost_usd.micros >= limits.max_cost_usd.micros ==> exhausted_axis(
            spent,
            reserved,
            limits,
        ) is Some,
        exhausted_axis(spent, reserved, limits) matches Some(axis) ==> match axis {
            BudgetAxis::Turns => spent.turns + reserved >= limits.max_turns,
            BudgetAxis::Tokens => spent.tokens >= limits.max_tokens && spent.turns + reserved
                < limits.max_turns,
            BudgetAxis::Cost => spent.cost_usd.micros >= limits.max_cost_usd.micros
                && spent.tokens < limits.max_tokens && spent.turns + reserved < limits.max_turns,
        },
{
}

/// Spending more, or having more under way, never makes room: what refuses a turn goes on
/// refusing it.
pub proof fn spending_makes_no_room(
    spent: SwarmSpend,
    more: SwarmSpend,
    reserved: u32,
    also: u32,
    limits: SwarmBudgetLimits,
)
    requires
        more.turns >= spent.turns,
        more.tokens >= spent.tokens,
        more.cost_usd.micros >= spent.cost_usd.micros,
        also >= reserved,
        exhausted_axis(spent, reserved, limits) is Some,
    ensures
        exhausted_axis(more, also, limits) is Some,
{
}

// ── Laws of delegation ──────────────────────────────────────────────

/// An admitted delegation runs what was asked of whom it was asked: the turn's box is the
/// one named and its subtask is the text that was delegated. Alias, memory and session
/// are that box's own.
pub proof fn a_turn_is_what_was_delegated<C>(
    run: RunView<C>,
    box_id: Seq<char>,
    subtask: Seq<char>,
    i: int,
)
    requires
        0 <= i < run.roster.boxes.len(),
        run.roster.boxes[i].box_id == box_id,
        forall|j: int| 0 <= j < i ==> (#[trigger] run.roster.boxes[j]).box_id != box_id,
    ensures
        run.box_turn(box_id, subtask).box_id == box_id,
        run.box_turn(box_id, subtask).subtask == subtask,
        run.box_turn(box_id, subtask).alias == run.roster.boxes[i].alias,
        run.box_turn(box_id, subtask).memory.agent_id == run.roster.boxes[i].agent_id,
        run.box_turn(box_id, subtask).memory.namespace == "swarm/"@ + run.roster.swarm_id,
        forall|j: int|
            0 <= j < run.roster.boxes.len() ==> run.box_turn(
                box_id,
                subtask,
            ).memory.allowlist.contains((#[trigger] run.roster.boxes[j]).agent_id),
        match run.box_turn(box_id, subtask).session_id {
            Some(session) => run.doc.run.sessions.contains_key(box_id) && session
                == run.doc.run.sessions[box_id],
            None => !run.doc.run.sessions.contains_key(box_id),
        },
{
    let ids = run.roster.ids();
    assert(ids[i] == box_id);
    assert forall|j: int| 0 <= j < i implies ids[j] != box_id by {
        assert(ids[j] == run.roster.boxes[j].box_id);
    }
    text::first_index_at(ids, box_id, i);
    let allowed = run.box_turn(box_id, subtask).memory.allowlist;
    assert forall|j: int| 0 <= j < run.roster.boxes.len() implies allowed.contains(
        (#[trigger] run.roster.boxes[j]).agent_id,
    ) by {
        assert(allowed[j] == run.roster.boxes[j].agent_id);
    }
}

/// A delegation is refused exactly where its box is not on the roster, where a user spoke
/// to the box less than a minute and a half ago, or where some ceiling is reached; and the
/// refusal says which, about the very box that was asked for.
pub proof fn refusals_of_a_delegation<C>(run: RunView<C>, box_id: Seq<char>, at: int)
    ensures
        ({
            let known = exists|i: int|
                0 <= i < run.roster.boxes.len() && (#[trigger] run.roster.boxes[i]).box_id
                    == box_id;
            let held = run.engaged.contains_key(box_id) && at < run.engaged[box_id] + 90;
            let room = run.doc.run.spent.turns + run.reserved < run.limits.max_turns
                && run.doc.run.spent.tokens < run.limits.max_tokens
                && run.doc.run.spent.cost_usd.micros < run.limits.max_cost_usd.micros;
            &&& run.delegation_refusal(box_id, at) is None <==> known && !held && room
            &&& run.delegation_refusal(box_id, at) == Some(BoxTurnErrorView::UnknownBox(box_id))
                <==> !known
            &&& run.delegation_refusal(box_id, at) == Some(BoxTurnErrorView::UserEngaged(box_id))
                <==> known && held
            &&& run.delegation_refusal(box_id, at) matches Some(
                BoxTurnErrorView::BudgetExhausted(axis),
            ) ==> known && !held && !room && run.exhausted() == Some(axis)
        }),
{
    let ids = run.roster.ids();
    if ids.contains(box_id) {
        let i = choose|i: int| 0 <= i < ids.len() && ids[i] == box_id;
        assert(run.roster.boxes[i].box_id == box_id);
    }
    assert forall|i: int|
        0 <= i < run.roster.boxes.len() && (#[trigger] run.roster.boxes[i]).box_id
            == box_id implies ids.contains(box_id) by {
        assert(ids[i] == box_id);
    }
}

/// An admitted delegation takes one place in the budget and counts as one delegation, and
/// nothing else of the run or the store moves. One that is refused for its box changes
/// nothing at all; one that finds no room parks the run and says so in the log.
pub proof fn what_a_delegation_changes<C>(
    run: RunView<C>,
    store: StoreView,
    box_id: Seq<char>,
    at: int,
    now: Seq<char>,
)
    requires
        store.seq < u64::MAX,
    ensures
        ({
            let (after, kept) = run.delegated(store, box_id, at, now);
            &&& after.roster == run.roster && after.limits == run.limits && after.claim == run.claim
                && after.engaged == run.engaged && after.driven == run.driven && after.pause
                == run.pause && after.cancelled == run.cancelled
            &&& match run.delegation_refusal(box_id, at) {
                None => {
                    &&& after.reserved == run.reserved + 1
                    &&& after.delegations != run.delegations
                    &&& after.delegations == run.delegations + 1 || run.delegations == u64::MAX
                    &&& after.doc == run.doc
                    &&& kept == store
                },
                Some(BoxTurnErrorView::BudgetExhausted(axis)) => {
                    &&& after.reserved == run.reserved
                    &&& after.delegations == run.delegations
                    &&& after.doc.run.spent == run.doc.run.spent
                    &&& run.doc.run.status == SwarmStatus::Running || run.doc.run.status
                        == SwarmStatus::Created ==> {
                        let row = kept.history(run.doc.spec.id).last();
                        &&& after.doc.run.status == (SwarmStatus::Paused {
                            reason: SwarmPauseReason::BudgetExhausted,
                        })
                        &&& row.kind == "budget_exhausted"@
                        &&& row.ts == now
                        &&& row.payload.len() == 1
                        &&& row.payload[0].name == "axis"@
                        &&& row.payload[0].value == PayloadValueView::Text(axis.label())
                    }
                },
                Some(_) => after == run && kept == store,
            }
        }),
{
}

/// A turn is charged what it spent, axis by axis, each sum stopping at its largest value:
/// the document moves on by one revision, is stamped, and keeps everything else.
pub proof fn a_turn_is_charged_what_it_spent<C>(
    run: RunView<C>,
    delta: SwarmSpend,
    now: Seq<char>,
)
    ensures
        ({
            let before = run.doc;
            let planned = run.charged(delta, now);
            let boxed = run.spending(delta, now);
            &&& planned.doc.run.spent.turns == if before.run.spent.turns + delta.turns
                > 0xffff_ffff {
                0xffff_ffff
            } else {
                before.run.spent.turns + delta.turns
            }
            &&& planned.doc.run.spent.tokens == if before.run.spent.tokens + delta.tokens
                > 0xffff_ffff_ffff_ffff {
                0xffff_ffff_ffff_ffff
            } else {
                before.run.spent.tokens + delta.tokens
            }
            &&& planned.doc.run.spent.cost_usd.micros == if before.run.spent.cost_usd.micros
                + delta.cost_usd.micros > 0xffff_ffff_ffff_ffff {
                0xffff_ffff_ffff_ffff
            } else {
                before.run.spent.cost_usd.micros + delta.cost_usd.micros
            }
            &&& before.revision < u64::MAX ==> planned.doc.revision == before.revision + 1
            &&& planned.doc.updated_at == now
            &&& planned.doc.created_at == before.created_at
            &&& planned.doc.version == before.version
            &&& planned.doc.spec == before.spec
            &&& planned.doc.run.status == before.run.status
            &&& planned.doc.run.sessions == before.run.sessions
            &&& planned.reserved == run.reserved
            &&& planned.delegations == run.delegations
            &&& planned.claim == run.claim && planned.limits == run.limits && planned.roster
                == run.roster && planned.engaged == run.engaged && planned.pause == run.pause
                && planned.cancelled == run.cancelled && planned.driven == run.driven
            &&& boxed.doc == planned.doc
            &&& run.reserved > 0 ==> boxed.reserved == run.reserved - 1
            &&& run.reserved == 0 ==> boxed.reserved == 0
            &&& boxed.delegations == run.delegations
            &&& boxed.claim == run.claim && boxed.limits == run.limits && boxed.roster == run.roster
                && boxed.engaged == run.engaged && boxed.pause == run.pause && boxed.cancelled
                == run.cancelled && boxed.driven == run.driven
        }),
{
}

/// A run's status changes on its own: revision and stamp move with it, and spend,
/// sessions, spec and the rest of the run stay.
pub proof fn a_status_changes_alone<C>(run: RunView<C>, status: SwarmStatus, now: Seq<char>)
    ensures
        ({
            let after = run.turned(status, now);
            &&& after.doc.run.status == status
            &&& after.doc.run.spent == run.doc.run.spent
            &&& after.doc.run.sessions == run.doc.run.sessions
            &&& after.doc.spec == run.doc.spec
            &&& after.doc.created_at == run.doc.created_at
            &&& after.doc.version == run.doc.version
            &&& after.doc.updated_at == now
            &&& run.doc.revision < u64::MAX ==> after.doc.revision == run.doc.revision + 1
            &&& after.reserved == run.reserved && after.delegations == run.delegations
                && after.claim == run.claim && after.limits == run.limits && after.roster
                == run.roster && after.engaged == run.engaged && after.pause == run.pause
                && after.cancelled == run.cancelled && after.driven == run.driven
        }),
{
}

/// The row that a finished delegation leaves names the swarm and the box, and carries
/// what the turn cost.
pub proof fn a_delegation_is_logged(
    swarm_id: Seq<char>,
    box_id: Seq<char>,
    spend: SwarmSpend,
    now: Seq<char>,
)
    ensures
        ({
            let row = delegated_event(swarm_id, box_id, spend, now);
            &&& row.swarm_id == swarm_id
            &&& row.box_id == Some(box_id)
            &&& row.kind == "box_delegated"@
            &&& row.ts == now
            &&& row.payload.len() == 3
            &&& row.payload[0].name == "tokens"@ && row.payload[0].value
                == PayloadValueView::Number(spend.tokens)
            &&& row.payload[1].name == "cost_usd"@ && row.payload[1].value
                == PayloadValueView::Amount(spend.cost_usd)
            &&& row.payload[2].name == "origin"@ && row.payload[2].value
                == PayloadValueView::Text("swarm"@)
        }),
{
}

/// What a pause and a failed planning turn leave in the log.
pub proof fn pauses_and_failures_are_logged<C>(run: RunView<C>, error: Seq<char>, now: Seq<char>)
    ensures
        ({
            let row = run.paused_event(now);
            &&& row.swarm_id == run.doc.spec.id && row.kind == "swarm_paused"@ && row.ts == now
            &&& row.box_id is None
            &&& row.payload.len() == 1
            &&& row.payload[0].name == "reason"@
            &&& row.payload[0].value == PayloadValueView::Text("user_requested"@)
        }),
        ({
            let row = run.failure_event(error, now);
            &&& row.swarm_id == run.doc.spec.id && row.kind == "orchestrator_error"@ && row.ts
                == now
            &&& row.box_id is None
            &&& row.payload.len() == 1
            &&& row.payload[0].name == "error"@
            &&& row.payload[0].value == PayloadValueView::Text(error)
        }),
{
}

/// A hold on a box lasts for a minute and a half after the user last spoke, and not
/// longer; a box that nobody spoke to is held by nobody.
pub proof fn a_hold_lasts_ninety_seconds<C>(run: RunView<C>, box_id: Seq<char>, at: int)
    ensures
        !run.engaged.contains_key(box_id) ==> !run.held(box_id, at),
        run.engaged.contains_key(box_id) ==> (run.held(box_id, at) <==> at
            < run.engaged[box_id] + 90),
{
}

// ── Laws of planning ────────────────────────────────────────────────

/// Planning goes on while it delegates: after a round that went well in a run that is
/// neither parked nor stopped, the next round follows where some delegation was admitted
/// and the bound on rounds is not reached, and the goal counts as met only otherwise.
pub proof fn planning_goes_on_while_it_delegates<C>(run: RunView<C>, round: usize, before: u64)
    ensures
        !(run.doc.run.status is Paused) && !run.cancelled && run.delegations != before && round + 1
            < MAX_ROUNDS ==> run.round_verdict(round, before) == RoundEnd::Next(
            (round + 1) as usize,
        ),
        run.round_verdict(round, before) == RoundEnd::Exit(DriverExit::Completed) ==> !(
        run.doc.run.status is Paused) && !run.cancelled && (run.delegations == before || round + 1
            >= MAX_ROUNDS),
        run.delegations == before ==> run.round_verdict(round, before) is Exit,
        run.doc.run.status is Paused ==> run.round_verdict(round, before) == RoundEnd::Exit(
            DriverExit::BudgetExhausted,
        ),
        !(run.doc.run.status is Paused) && run.cancelled ==> run.round_verdict(round, before)
            == RoundEnd::Exit(DriverExit::Cancelled),
        MAX_ROUNDS == 10_000,
{
}

/// However many delegations a round admits, one is enough for planning to go on: a run
/// that admitted one since `before` was read gives the next round.
pub proof fn one_delegation_is_enough<C>(
    run: RunView<C>,
    store: StoreView,
    box_id: Seq<char>,
    at: int,
    now: Seq<char>,
    round: usize,
)
    requires
        run.delegation_refusal(box_id, at) is None,
        !(run.doc.run.status is Paused),
        !run.cancelled,
        round + 1 < MAX_ROUNDS,
    ensures
        run.delegated(store, box_id, at, now).0.round_verdict(round, run.delegations)
            == RoundEnd::Next((round + 1) as usize),
        run.round_verdict(round, run.delegations) == RoundEnd::Exit(DriverExit::Completed),
{
}

/// A round begins exactly where nothing stops it: a stop comes before a pause and a pause
/// before the budget. A round that begins, and a stop, leave the run and the store as
/// they are; a pause and an exhausted budget park the run for what they are.
pub proof fn how_a_round_begins<C>(run: RunView<C>, store: StoreView, now: Seq<char>)
    requires
        store.seq < u64::MAX,
    ensures
        ({
            let (after, kept) = run.round_begun(store, now);
            let room = run.doc.run.spent.turns + run.reserved < run.limits.max_turns
                && run.doc.run.spent.tokens < run.limits.max_tokens
                && run.doc.run.spent.cost_usd.micros < run.limits.max_cost_usd.micros;
            &&& run.round_exit() is None <==> !run.cancelled && !run.pause && room
            &&& run.cancelled ==> run.round_exit() == Some(DriverExit::Cancelled)
            &&& !run.cancelled && run.pause ==> run.round_exit() == Some(DriverExit::Paused)
            &&& !run.cancelled && !run.pause && !room ==> run.round_exit() == Some(
                DriverExit::BudgetExhausted,
            )
            &&& run.cancelled || run.round_exit() is None ==> after == run && kept == store
            &&& !run.cancelled && run.pause ==> {
                &&& after.doc.run.status == (SwarmStatus::Paused {
                    reason: SwarmPauseReason::UserRequested,
                })
                &&& kept.history(run.doc.spec.id).last().kind == "swarm_paused"@
            }
            &&& !run.cancelled && !run.pause && !room && (run.doc.run.status
                == SwarmStatus::Running || run.doc.run.status == SwarmStatus::Created) ==> {
                &&& after.doc.run.status == (SwarmStatus::Paused {
                    reason: SwarmPauseReason::BudgetExhausted,
                })
                &&& kept.history(run.doc.spec.id).last().kind == "budget_exhausted"@
            }
            &&& after.doc.run.spent == run.doc.run.spent
            &&& after.reserved == run.reserved
            &&& after.delegations == run.delegations
            &&& after.roster == run.roster
            &&& after == RunView { doc: after.doc, ..run }
            &&& after.doc.spec == run.doc.spec
            &&& after.doc.run.sessions == run.doc.run.sessions
            &&& kept.claims == store.claims
        }),
{
}

proof fn roster_lines_hold<C>(boxes: Seq<RosterBoxView<C>>, n: int, i: int)
    requires
        0 <= i < n <= boxes.len(),
    ensures
        text::stands_in(
            "- "@ + boxes[i].box_id + " — role: "@ + (if boxes[i].role.len() == 0 {
                "(unset)"@
            } else {
                boxes[i].role
            }) + ", job: "@ + (if boxes[i].job.len() == 0 {
                "(unset)"@
            } else {
                boxes[i].job
            }) + "\n"@,
            roster_lines(boxes, n),
        ),
    decreases n,
{
    let line = "- "@ + boxes[i].box_id + " — role: "@ + (if boxes[i].role.len() == 0 {
        "(unset)"@
    } else {
        boxes[i].role
    }) + ", job: "@ + (if boxes[i].job.len() == 0 {
        "(unset)"@
    } else {
        boxes[i].job
    }) + "\n"@;
    let earlier = roster_lines(boxes, n - 1);
    if i == n - 1 {
        text::stands_between(earlier, line, Seq::empty());
        assert(earlier + line + Seq::<char>::empty() =~= roster_lines(boxes, n));
    } else {
        roster_lines_hold(boxes, n - 1, i);
        let last = roster_lines(boxes, n).skip(earlier.len() as int);
        text::stands_deeper(line, earlier, Seq::empty(), last);
        assert(Seq::<char>::empty() + earlier + last =~= roster_lines(boxes, n));
    }
}

proof fn board_lines_hold(board: BoardView, n: int, i: int)
    requires
        0 <= i < n <= strmap::key_order(board.boxes.dom()).len(),
    ensures
        ({
            let id = strmap::key_order(board.boxes.dom())[i];
            text::stands_in("- "@ + id + ": "@ + board.boxes[id].status.label(), board_lines(board, n))
        }),
        ({
            let id = strmap::key_order(board.boxes.dom())[i];
            text::stands_in(board.boxes[id].note, board_lines(board, n))
        }),
        ({
            let id = strmap::key_order(board.boxes.dom())[i];
            board.boxes[id].claim matches Some(key) ==> text::stands_in(
                " holding "@ + text::quoted(key),
                board_lines(board, n),
            )
        }),
    decreases n,
{
    let id = strmap::key_order(board.boxes.dom())[i];
    let state = board.boxes[id];
    let top = "- "@ + id + ": "@ + state.status.label();
    let earlier = board_lines(board, n - 1);
    if i == n - 1 {
        let line = prompt_line(id, state);
        let whole = board_lines(board, n);
        let rest = line.skip(top.len() as int);
        assert(line =~= top + rest);
        text::stands_between(earlier, top, rest);
        assert(earlier + top + rest =~= whole);
        let holding = match state.claim {
            Some(key) => " holding "@ + text::quoted(key),
            None => Seq::empty(),
        };
        let said = line.skip((top + holding).len() as int);
        assert(line =~= top + holding + said);
        text::stands_between(earlier + top, holding, said);
        assert(earlier + top + holding + said =~= whole);
        if state.note.len() == 0 {
            assert(state.note =~= Seq::<char>::empty());
            let none: int = 0;
            assert(whole.subrange(none, none + state.note.len()) =~= state.note);
        } else {
            let head = earlier + (top + holding + " — "@);
            text::stands_between(head, state.note, "\n"@);
            assert(head + state.note + "\n"@ =~= whole);
        }
    } else {
        board_lines_hold(board, n - 1, i);
        let whole = board_lines(board, n);
        let last = whole.skip(earlier.len() as int);
        assert(Seq::<char>::empty() + earlier + last =~= whole);
        text::stands_deeper(top, earlier, Seq::empty(), last);
        text::stands_deeper(state.note, earlier, Seq::empty(), last);
        if let Some(key) = state.claim {
            text::stands_deeper(" holding "@ + text::quoted(key), earlier, Seq::empty(), last);
        }
    }
}

/// What the prompt says before it lists the roster.
spec fn prompt_head(spec: SwarmSpecView) -> Seq<char> {
    "You are the orchestrator of swarm "@ + text::quoted(spec.name) + " (role: "@ + spec.role
        + ").\n"@ + "Goal: "@ + spec.goal + "\n\n"@ + "Roster (delegate to these boxes only):\n"@
}

proof fn the_head_names_the_swarm(spec: SwarmSpecView)
    ensures
        text::stands_in(
            " of swarm "@ + text::quoted(spec.name) + " (role: "@ + spec.role + ")"@,
            prompt_head(spec),
        ),
        text::stands_in("Goal: "@ + spec.goal + "\n"@, prompt_head(spec)),
{
    let whole = prompt_head(spec);
    reveal_strlit("You are the orchestrator of swarm ");
    reveal_strlit(" of swarm ");
    reveal_strlit("\n");
    reveal_strlit("\n\n");
    reveal_strlit(").\n");
    reveal_strlit(")");
    let opening = "You are the orchestrator of swarm "@;
    let start = opening.take(opening.len() - 10);
    assert(start + " of swarm "@ =~= opening);
    let named = " of swarm "@ + text::quoted(spec.name) + " (role: "@ + spec.role + ")"@;
    let after_name = whole.skip((start + named).len() as int);
    assert(start + named + after_name =~= whole);
    text::stands_between(start, named, after_name);
    let intro = opening + text::quoted(spec.name) + " (role: "@ + spec.role + ").\n"@;
    let goal = "Goal: "@ + spec.goal + "\n"@;
    let after_goal = whole.skip((intro + goal).len() as int);
    assert(intro + goal + after_goal =~= whole);
    text::stands_between(intro, goal, after_goal);
}

/// The orchestrator is told what it plans for: the swarm's name, its role and its goal,
/// and which round this is.
pub proof fn the_prompt_tells_the_goal<C>(
    spec: SwarmSpecView,
    roster: RosterView<C>,
    board: Option<BoardView>,
    round: nat,
)
    ensures
        text::stands_in(
            " of swarm "@ + text::quoted(spec.name) + " (role: "@ + spec.role + ")"@,
            orchestrator_prompt(spec, roster, board, round),
        ),
        text::stands_in("Goal: "@ + spec.goal + "\n"@, orchestrator_prompt(spec, roster, board, round)),
        text::stands_in(
            "Planning round "@ + text::numeral(round),
            orchestrator_prompt(spec, roster, board, round),
        ),
{
    let whole = orchestrator_prompt(spec, roster, board, round);
    let head = prompt_head(spec);
    let rest = whole.skip(head.len() as int);
    assert(Seq::<char>::empty() + head + rest =~= whole);
    the_head_names_the_swarm(spec);
    text::stands_deeper(
        " of swarm "@ + text::quoted(spec.name) + " (role: "@ + spec.role + ")"@,
        head,
        Seq::empty(),
        rest,
    );
    text::stands_deeper("Goal: "@ + spec.goal + "\n"@, head, Seq::empty(), rest);
    let shown = match board {
        Some(b) => "State board:\n"@ + board_lines(
            b,
            strmap::key_order(b.boxes.dom()).len() as int,
        ) + "\n"@,
        None => Seq::empty(),
    };
    let before = head + roster_lines(roster.boxes, roster.boxes.len() as int) + "\n"@ + shown;
    let counted = "Planning round "@ + text::numeral(round);
    let after = whole.skip((before + counted).len() as int);
    assert(before + counted + after =~= whole);
    text::stands_between(before, counted, after);
}

/// The orchestrator is told whom it plans with: every box of the roster, with its role
/// and its job.
pub proof fn the_prompt_lists_the_roster<C>(
    spec: SwarmSpecView,
    roster: RosterView<C>,
    board: Option<BoardView>,
    round: nat,
    i: int,
)
    requires
        0 <= i < roster.boxes.len(),
    ensures
        text::stands_in(
            "- "@ + roster.boxes[i].box_id + " — role: "@ + (if roster.boxes[i].role.len() == 0 {
                "(unset)"@
            } else {
                roster.boxes[i].role
            }) + ", job: "@ + (if roster.boxes[i].job.len() == 0 {
                "(unset)"@
            } else {
                roster.boxes[i].job
            }) + "\n"@,
            orchestrator_prompt(spec, roster, board, round),
        ),
{
    let whole = orchestrator_prompt(spec, roster, board, round);
    let head = prompt_head(spec);
    let lines = roster_lines(roster.boxes, roster.boxes.len() as int);
    let rest = whole.skip((head + lines).len() as int);
    assert(head + lines + rest =~= whole);
    roster_lines_hold(roster.boxes, roster.boxes.len() as int, i);
    let line = "- "@ + roster.boxes[i].box_id + " — role: "@ + (if roster.boxes[i].role.len()
        == 0 {
        "(unset)"@
    } else {
        roster.boxes[i].role
    }) + ", job: "@ + (if roster.boxes[i].job.len() == 0 {
        "(unset)"@
    } else {
        roster.boxes[i].job
    }) + "\n"@;
    text::stands_deeper(line, lines, head, rest);
}

/// The orchestrator sees the board: what each box does, what it says and which key it
/// holds.
pub proof fn the_prompt_shows_the_board<C>(
    spec: SwarmSpecView,
    roster: RosterView<C>,
    board: BoardView,
    round: nat,
    i: int,
)
    requires
        0 <= i < strmap::key_order(board.boxes.dom()).len(),
    ensures
        ({
            let id = strmap::key_order(board.boxes.dom())[i];
            let prompt = orchestrator_prompt(spec, roster, Some(board), round);
            &&& text::stands_in("- "@ + id + ": "@ + board.boxes[id].status.label(), prompt)
            &&& text::stands_in(board.boxes[id].note, prompt)
            &&& board.boxes[id].claim matches Some(key) ==> text::stands_in(
                " holding "@ + text::quoted(key),
                prompt,
            )
        }),
{
    let n = strmap::key_order(board.boxes.dom()).len() as int;
    let lines = board_lines(board, n);
    board_lines_hold(board, n, i);
    let whole = orchestrator_prompt(spec, roster, Some(board), round);
    let head = "You are the orchestrator of swarm "@ + text::quoted(spec.name) + " (role: "@
        + spec.role + ").\n"@ + "Goal: "@ + spec.goal + "\n\n"@
        + "Roster (delegate to these boxes only):\n"@ + roster_lines(
        roster.boxes,
        roster.boxes.len() as int,
    ) + "\n"@ + "State board:\n"@;
    let rest = whole.skip((head + lines).len() as int);
    assert(head + lines + rest =~= whole);
    let id = strmap::key_order(board.boxes.dom())[i];
    text::stands_deeper("- "@ + id + ": "@ + board.boxes[id].status.label(), lines, head, rest);
    text::stands_deeper(board.boxes[id].note, lines, head, rest);
    if let Some(key) = board.boxes[id].claim {
        text::stands_deeper(" holding "@ + text::quoted(key), lines, head, rest);
    }
}

/// A run that was parked or has finished is not parked again: running out of budget then
/// leaves it, and the log, as they are.
pub proof fn a_settled_run_is_not_parked_again<C>(
    run: RunView<C>,
    store: StoreView,
    axis: BudgetAxis,
    now: Seq<char>,
)
    requires
        run.doc.run.status != SwarmStatus::Running,
        run.doc.run.status != SwarmStatus::Created,
    ensures
        run.parked(store, axis, now) == (run, store),
{
}

} // verus!
