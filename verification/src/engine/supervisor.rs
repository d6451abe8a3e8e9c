//! The supervisor of swarm runs: one per process, many swarms.
//!
//! What only the outside can do (resolving a parent agent, running a turn, deleting
//! memory rows) is done between two calls, and its outcome is handed to the second.

use vstd::prelude::*;

use super::run;
use super::run::{
    BoxTurn, DriverExit, RoundEnd, RoundOutcome, RoundStart, RunView, SwarmRunState,
    SUBTASK_NOTE_LEN,
};
use super::{BoxTurnError, BoxTurnErrorView, EngineErrorView, SwarmEngineError};
use crate::board::{BoardView, BoardsView, BoxStatus, SwarmStateBoard};
use crate::clock::Timestamp;
use crate::reap;
use crate::reap::{reap_swarm, ReapAnswers, ReapReport};
use crate::roster;
use crate::roster::{build_swarm_roster, BoxAnswer, BoxAnswerView, EnvelopeView, RosterView, SwarmRoster};
use crate::store;
use crate::store::model::{
    ClaimView, EventView, PayloadField, PayloadValue, PersistedSwarm, PersistedSwarmView,
    SwarmClaimToken, SwarmEventRecord, SwarmPauseReason, SwarmRunView, SwarmSpecView, SwarmSpend,
    SwarmStatus,
};
use crate::store::{StoreView, SwarmStore};
use crate::strmap::StrMap;
use crate::text;
use crate::text::text_eq;

verus! {

/// Supervises swarm runs. `C` is the execution context of a box.
pub struct SwarmEngine<S, C> {
    store: S,
    board: SwarmStateBoard,
    parent_alias: String,
    boot_id: String,
    runs: StrMap<SwarmRunState<C>>,
    lingering: StrMap<Turns>,
}

/// A number of box turns.
struct Turns {
    count: u32,
}

impl View for Turns {
    type V = u32;

    closed spec fn view(&self) -> u32 {
        self.count
    }
}

/// An engine as plain values.
#[verifier::ext_equal]
pub struct EngineView<C> {
    pub store: StoreView,
    pub board: BoardsView,
    /// The agent whose envelope every box inherits.
    pub parent_alias: Seq<char>,
    /// This boot of the process.
    pub boot_id: Seq<char>,
    /// The live runs, by swarm.
    pub runs: Map<Seq<char>, RunView<C>>,
    /// How many box turns have outlived the last run of their swarm. Of a swarm with a
    /// live run the run knows.
    pub lingering: Map<Seq<char>, u32>,
}

impl<S: SwarmStore, C> View for SwarmEngine<S, C> {
    type V = EngineView<C>;

    closed spec fn view(&self) -> EngineView<C> {
        EngineView {
            store: self.store@,
            board: self.board@,
            parent_alias: self.parent_alias@,
            boot_id: self.boot_id@,
            runs: self.runs@,
            lingering: self.lingering@,
        }
    }
}

/// `claim` is a grant of the swarm to this boot of the process.
pub open spec fn granted(claim: ClaimView, id: Seq<char>, boot_id: Seq<char>) -> bool {
    exists|pid: u32, nonce: u64, at: Timestamp| #[trigger]
        store::minted(id, boot_id, pid, nonce, at) == claim
}

impl<C> EngineView<C> {
    /// Why a swarm cannot be claimed, if it cannot.
    pub open spec fn claim_refusal(self, id: Seq<char>) -> Option<EngineErrorView> {
        match self.store.swarm(id) {
            None => Some(EngineErrorView::NotFound(id)),
            Some(doc) => if doc.run.status.terminal() {
                Some(EngineErrorView::Terminal(id))
            } else if !self.store.claimable(id) {
                Some(EngineErrorView::AlreadyClaimed(id))
            } else {
                None
            },
        }
    }

    /// With another store.
    pub open spec fn storing(self, store: StoreView) -> EngineView<C> {
        EngineView { store, ..self }
    }

    /// `after` is this engine once it has given `claim` back. Only a store that fails can
    /// keep it.
    pub open spec fn given_back(
        self,
        claim: ClaimView,
        dependable: bool,
        after: EngineView<C>,
    ) -> bool {
        ||| after == self.storing(self.store.released(claim))
        ||| !dependable && after == self
    }

    /// With `run` live under `id`.
    pub open spec fn running(self, id: Seq<char>, run: RunView<C>) -> EngineView<C> {
        EngineView { runs: self.runs.insert(id, run), ..self }
    }

    /// The box turns of the swarm that were admitted and have not reported yet, whether
    /// or not the run that admitted them is live.
    pub open spec fn turns_under_way(self, id: Seq<char>) -> u32 {
        if self.runs.contains_key(id) {
            self.runs[id].reserved
        } else if self.lingering.contains_key(id) {
            self.lingering[id]
        } else {
            0
        }
    }

    /// With `count` box turns of the swarm under way beside any run.
    pub open spec fn lingered(self, id: Seq<char>, count: u32) -> EngineView<C> {
        EngineView {
            lingering: if count > 0 {
                self.lingering.insert(id, count)
            } else {
                self.lingering.remove(id)
            },
            ..self
        }
    }

    /// Without a live run under `id`. Its turns under way stay on the swarm's account.
    pub open spec fn retired(self, id: Seq<char>) -> EngineView<C> {
        EngineView {
            runs: self.runs.remove(id),
            ..self.lingered(id, self.runs[id].reserved)
        }
    }

    /// After one box turn of the swarm has ended or was given up: it is under way no
    /// more, whether or not a run is live.
    pub open spec fn turn_over(self, id: Seq<char>) -> EngineView<C> {
        if self.runs.contains_key(id) {
            self.running(id, self.runs[id].unreserved())
        } else {
            let count = self.turns_under_way(id);
            self.lingered(
                id,
                if count > 0 {
                    (count - 1) as u32
                } else {
                    0
                },
            )
        }
    }

    /// The boards once the swarm has one: a live board is reused.
    pub open spec fn boarded(self, id: Seq<char>, boxes: Seq<Seq<char>>) -> BoardsView {
        if self.board.boards.contains_key(id) {
            self.board
        } else {
            BoardsView { boards: self.board.boards.insert(id, BoardView::fresh(boxes)), ..self.board }
        }
    }

    /// The live run under `id` is what the store holds of its swarm: the document is the
    /// run's, and so is the claim, which this boot took.
    pub open spec fn in_step(self, id: Seq<char>) -> bool {
        let run = self.runs[id];
        &&& run.id() == id
        &&& run.roster.swarm_id == id
        &&& run.claim.swarm_id == id
        &&& self.store.swarm(id) == Some(run.doc)
        &&& self.store.holds(run.claim)
        &&& self.store.claims[id].boot_id == self.boot_id
        &&& run.limits == run.doc.spec.budget.ceilings()
    }

    /// Every live run is in step with the store.
    pub open spec fn sound(self) -> bool {
        &&& self.store.keyed()
        &&& forall|id: Seq<char>| #[trigger] self.runs.contains_key(id) ==> self.in_step(id)
    }

    /// The run under `id`, if there is one, can still be revised.
    pub open spec fn revisable(self, id: Seq<char>) -> bool {
        self.runs.contains_key(id) ==> self.runs[id].doc.revision < u64::MAX
    }
}

/// A swarm that was claimed and is to be brought up.
#[derive(Debug)]
pub struct ClaimedRun {
    pub persisted: PersistedSwarm,
    pub claim: SwarmClaimToken,
}

/// A run of `doc` as it is before it has been brought up, with `under_way` box turns of
/// the swarm under way.
pub open spec fn fresh_run<C>(
    doc: PersistedSwarmView,
    claim: ClaimView,
    roster: RosterView<C>,
    under_way: u32,
) -> RunView<C> {
    RunView {
        doc,
        claim,
        limits: doc.spec.budget.ceilings(),
        roster,
        reserved: under_way,
        delegations: 0,
        pause: false,
        cancelled: false,
        driven: false,
        engaged: Map::empty(),
    }
}

/// `run` is `doc` brought to `Running`, with a session for every box, and with
/// `under_way` box turns of the swarm under way.
pub open spec fn brought_up<C>(
    doc: PersistedSwarmView,
    run: RunView<C>,
    under_way: u32,
    now: Seq<char>,
) -> bool {
    &&& run::sessions_filled(doc.run.sessions, run.roster.ids(), run.doc.run.sessions)
    &&& run == fresh_run(doc, run.claim, run.roster, under_way).recorded(
        SwarmRunView {
            status: SwarmStatus::Running,
            sessions: run.doc.run.sessions,
            ..doc.run
        },
        now,
    )
}

/// What the outside answered while a swarm was brought up.
#[derive(Debug)]
pub struct Preparation<C> {
    /// The aliases of the configured agents.
    pub agents: Vec<String>,
    /// Whether the parent agent could be resolved.
    pub parent: Result<(), String>,
    /// What came back for each box, in order.
    pub answers: Vec<BoxAnswer<C>>,
    /// Whether the memory backend honors a per-agent allowlist.
    pub honors_allowlist: bool,
}

/// A preparation as plain values.
#[verifier::ext_equal]
pub struct PreparationView<C> {
    pub agents: Seq<Seq<char>>,
    pub parent: Result<(), Seq<char>>,
    pub answers: Seq<BoxAnswerView<C>>,
    pub honors_allowlist: bool,
}

impl<C> View for Preparation<C> {
    type V = PreparationView<C>;

    open spec fn view(&self) -> PreparationView<C> {
        PreparationView {
            agents: text::views(self.agents@),
            parent: roster::parent_view(self.parent),
            answers: text::views(self.answers@),
            honors_allowlist: self.honors_allowlist,
        }
    }
}

impl<C> EngineView<C> {
    /// Why a claimed swarm cannot be brought up, if it cannot: its roster or its memory
    /// cannot be built, or its board cannot be had.
    pub open spec fn raise_refusal(
        self,
        id: Seq<char>,
        spec: SwarmSpecView,
        prep: PreparationView<C>,
    ) -> Option<EngineErrorView> {
        match (
            roster::build_refusal(
                spec,
                self.parent_alias,
                prep.agents,
                prep.parent,
                prep.answers,
            ),
            roster::memory_refusal(spec.id, prep.honors_allowlist),
        ) {
            (Some(e), _) => Some(EngineErrorView::Roster(e.text())),
            (None, Some(e)) => Some(EngineErrorView::Roster(e.text())),
            (None, None) => match self.board.register_refusal(id) {
                Some(e) => Some(EngineErrorView::Board(e.text())),
                None => None,
            },
        }
    }

    /// Why a swarm cannot be brought up, if it cannot. Nothing is left behind then:
    /// a claim that was taken is given back.
    pub open spec fn build_refusal(self, id: Seq<char>, prep: PreparationView<C>) -> Option<
        EngineErrorView,
    > {
        if self.claim_refusal(id) is Some {
            self.claim_refusal(id)
        } else {
            self.raise_refusal(id, self.store.swarms[id].spec, prep)
        }
    }

    /// `after` is this engine with the claimed swarm `doc` brought up. The store took the
    /// new document, so nothing was recorded since `doc` was read that it would undo.
    pub open spec fn raised(
        self,
        doc: PersistedSwarmView,
        claim: ClaimView,
        prep: PreparationView<C>,
        now: Seq<char>,
        after: EngineView<C>,
    ) -> bool {
        let id = claim.swarm_id;
        let run = after.runs[id];
        &&& after == (EngineView {
            store: self.store.saved(run.doc),
            board: self.boarded(id, run.roster.ids()),
            runs: self.runs.insert(id, run),
            ..self
        })
        &&& run.claim == claim
        &&& brought_up(doc, run, self.turns_under_way(id), now)
        &&& store::revision_refusal(self.store.swarm(doc.spec.id), run.doc) is None
        &&& run.roster.matches(doc.spec)
        &&& run.roster.parent_alias == self.parent_alias
        &&& forall|i: int|
            0 <= i < prep.answers.len() ==> {
                &&& (#[trigger] prep.answers[i]).envelope == EnvelopeView::Built(
                    run.roster.boxes[i].context,
                )
                &&& prep.answers[i].identity == Ok::<Seq<char>, Seq<char>>(
                    run.roster.boxes[i].agent_id,
                )
            }
    }

    /// `after` is this engine once bringing up the claimed swarm `doc` has failed with
    /// `e`. No run comes of it, and the claim is given back; only a store that fails can
    /// keep it. Where nothing refuses the swarm the store refused or failed to keep the
    /// new document, and the board stays.
    pub open spec fn unraised(
        self,
        doc: PersistedSwarmView,
        claim: ClaimView,
        prep: PreparationView<C>,
        now: Seq<char>,
        e: EngineErrorView,
        dependable: bool,
        after: EngineView<C>,
    ) -> bool {
        let id = claim.swarm_id;
        &&& after == (EngineView { store: after.store, board: after.board, ..self })
        &&& after.store == self.store.released(claim) || (!dependable && after.store == self.store)
        &&& match self.raise_refusal(id, doc.spec, prep) {
            Some(x) => e == x && after.board == self.board,
            None => {
                &&& after.board == self.boarded(id, roster::spec_ids(doc.spec.boxes))
                &&& e matches EngineErrorView::Store(x) && ((exists|run: RunView<C>| #[trigger]
                    brought_up(doc, run, self.turns_under_way(id), now) && store::revision_refusal(
                        self.store.swarm(doc.spec.id),
                        run.doc,
                    ) == Some(x)) || (x.is_failure() && !dependable))
            },
        }
    }

    /// `after` is this engine once bringing up the swarm has failed with `e`. No run
    /// comes of it, and nothing is stored; only a store that fails can keep the claim.
    /// Where nothing refuses the swarm, either the store failed, or its document is
    /// stored under another id or can take no further revision.
    pub open spec fn unbuilt(
        self,
        id: Seq<char>,
        prep: PreparationView<C>,
        now: Seq<char>,
        e: EngineErrorView,
        dependable: bool,
        after: EngineView<C>,
    ) -> bool {
        let doc = self.store.swarms[id];
        let boarded = self.boarded(id, roster::spec_ids(doc.spec.boxes));
        &&& after == (EngineView { store: after.store, board: after.board, ..self })
        &&& after.store == self.store || (!dependable && exists|claim: ClaimView| #[trigger]
            granted(claim, id, self.boot_id) && after.store == self.store.claimed(claim))
        &&& match self.build_refusal(id, prep) {
            Some(x) => {
                &&& after.board == self.board
                &&& e == x || (e matches EngineErrorView::Store(s) && s.is_failure()
                    && !dependable)
            },
            None => {
                &&& after.board == boarded || (!dependable && after.board == self.board)
                &&& e matches EngineErrorView::Store(x) && ((exists|run: RunView<C>| #[trigger]
                    brought_up(doc, run, self.turns_under_way(id), now) && store::revision_refusal(
                        self.store.swarm(doc.spec.id),
                        run.doc,
                    ) == Some(x)) || (x.is_failure() && !dependable))
                &&& dependable ==> doc.spec.id != id || doc.revision == u64::MAX
            },
        }
    }

    /// `after` is this engine with the swarm brought up under a claim of its own.
    pub open spec fn built(
        self,
        id: Seq<char>,
        prep: PreparationView<C>,
        now: Seq<char>,
        after: EngineView<C>,
    ) -> bool {
        let claim = after.runs[id].claim;
        &&& granted(claim, id, self.boot_id)
        &&& self.storing(self.store.claimed(claim)).raised(
            self.store.swarms[id],
            claim,
            prep,
            now,
            after,
        )
    }
}

impl<S: SwarmStore, C> SwarmEngine<S, C> {
    /// The engine's store answers every request.
    pub closed spec fn dependable(&self) -> bool {
        self.store.dependable()
    }

    /// Build an engine. `parent_alias` is the agent whose envelope every box inherits.
    pub fn new(store: S, board: SwarmStateBoard, parent_alias: &str, boot_id: &str) -> (r: Self)
        ensures
            r@ == (EngineView::<C> {
                store: store@,
                board: board@,
                parent_alias: parent_alias@,
                boot_id: boot_id@,
                runs: Map::empty(),
                lingering: Map::empty(),
            }),
            r.dependable() == store.dependable(),
    {
        SwarmEngine {
            store,
            board,
            parent_alias: parent_alias.to_owned(),
            boot_id: boot_id.to_owned(),
            runs: StrMap::new(),
            lingering: StrMap::new(),
        }
    }

    /// The store.
    pub fn store(&self) -> (r: &S)
        ensures
            r@ == self@.store,
            r.dependable() == self.dependable(),
    {
        &self.store
    }

    /// The boards.
    pub fn board(&self) -> (r: &SwarmStateBoard)
        ensures
            r@ == self@.board,
    {
        &self.board
    }

    /// The boards, to act on.
    pub fn board_mut(&mut self) -> (r: &mut SwarmStateBoard)
        ensures
            r@ == old(self)@.board,
            final(self)@ == (EngineView { board: final(r)@, ..old(self)@ }),
            final(self).dependable() == old(self).dependable(),
    {
        &mut self.board
    }

    /// A live run.
    pub fn live(&self, swarm_id: &str) -> (r: Option<&SwarmRunState<C>>)
        ensures
            match r {
                Some(run) => self@.runs.contains_key(swarm_id@) && run@ == self@.runs[swarm_id@],
                None => !self@.runs.contains_key(swarm_id@),
            },
    {
        self.runs.get(swarm_id)
    }

    /// How many box turns of a swarm were admitted and have not reported yet. A run that
    /// parks does not end them, and the next run of the swarm counts them.
    pub fn turns_under_way(&self, swarm_id: &str) -> (r: u32)
        ensures
            r == self@.turns_under_way(swarm_id@),
    {
        match self.runs.get(swarm_id) {
            Some(live) => live.reserved(),
            None => match self.lingering.get(swarm_id) {
                Some(turns) => turns.count,
                None => 0,
            },
        }
    }

    fn linger(&mut self, swarm_id: &str, count: u32)
        ensures
            final(self)@ == old(self)@.lingered(swarm_id@, count),
            final(self).dependable() == old(self).dependable(),
    {
        if count > 0 {
            self.lingering.insert(swarm_id.to_owned(), Turns { count });
        } else {
            let _ = self.lingering.remove(swarm_id);
            assert(self@.lingering =~= old(self)@.lingering.remove(swarm_id@));
        }
    }

    // ── Bringing a run up ───────────────────────────────────────────

    /// Claims a swarm for this boot.
    pub fn claim_run(&mut self, swarm_id: &str) -> (r: Result<ClaimedRun, SwarmEngineError>)
        ensures
            final(self).dependable() == old(self).dependable(),
            match r {
                Ok(c) => {
                    &&& old(self)@.claim_refusal(swarm_id@) is None
                    &&& c.persisted@ == old(self)@.store.swarms[swarm_id@]
                    &&& granted(c.claim@, swarm_id@, old(self)@.boot_id)
                    &&& final(self)@ == old(self)@.storing(old(self)@.store.claimed(c.claim@))
                },
                Err(e) => final(self)@ == old(self)@ && (old(self)@.claim_refusal(swarm_id@)
                    == Some(e@) || (e@ matches EngineErrorView::Store(s) && s.is_failure()
                    && !old(self).dependable())),
            },
    {
        let persisted = match self.store.load_swarm(swarm_id) {
            Ok(Some(doc)) => doc,
            Ok(None) => {
                return Err(SwarmEngineError::NotFound(swarm_id.to_owned()));
            },
            Err(e) => {
                return Err(SwarmEngineError::Store(e));
            },
        };
        if persisted.run.status.is_terminal() {
            return Err(SwarmEngineError::Terminal(swarm_id.to_owned()));
        }
        match self.store.try_claim_swarm_with_boot(swarm_id, self.boot_id.as_str()) {
            Ok(Some(claim)) => Ok(ClaimedRun { persisted, claim }),
            Ok(None) => Err(SwarmEngineError::AlreadyClaimed(swarm_id.to_owned())),
            Err(e) => Err(SwarmEngineError::Store(e)),
        }
    }

    /// Gives up a claimed swarm whose roster or memory could not be built: the claim
    /// is released.
    pub fn abandon_run(&mut self, claimed: ClaimedRun, reason: String) -> (r: SwarmEngineError)
        ensures
            r@ == EngineErrorView::Roster(reason@),
            final(self).dependable() == old(self).dependable(),
            old(self)@.given_back(claimed.claim@, old(self).dependable(), final(self)@),
    {
        let _ = self.store.release_claim(&claimed.claim);
        SwarmEngineError::Roster(reason)
    }

    /// Brings a claimed swarm to `Running` with its roster. Where that fails the
    /// claim is released.
    pub fn activate_run(&mut self, claimed: ClaimedRun, roster: SwarmRoster<C>, now: &str) -> (r:
        Result<(), SwarmEngineError>)
        ensures
            final(self).dependable() == old(self).dependable(),
            ({
                let id = claimed.claim@.swarm_id;
                let doc = claimed.persisted@;
                let boarded = EngineView {
                    board: old(self)@.boarded(id, roster@.ids()),
                    ..old(self)@
                };
                match old(self)@.board.register_refusal(id) {
                    Some(e) => {
                        &&& r matches Err(x) && x@ == EngineErrorView::Board(e.text())
                        &&& old(self)@.given_back(
                            claimed.claim@,
                            old(self).dependable(),
                            final(self)@,
                        )
                    },
                    None => match r {
                        Ok(()) => {
                            let run = final(self)@.runs[id];
                            &&& run.claim == claimed.claim@
                            &&& run.roster == roster@
                            &&& brought_up(doc, run, old(self)@.turns_under_way(id), now@)
                            &&& store::revision_refusal(old(self)@.store.swarm(doc.spec.id), run.doc) is None
                            &&& final(self)@ == boarded.storing(
                                old(self)@.store.saved(run.doc),
                            ).running(id, run)
                        },
                        Err(x) => {
                            &&& x@ matches EngineErrorView::Store(e) && ((exists|run: RunView<C>|
                                #[trigger] brought_up(
                                    doc,
                                    run,
                                    old(self)@.turns_under_way(id),
                                    now@,
                                ) && store::revision_refusal(
                                    old(self)@.store.swarm(doc.spec.id),
                                    run.doc,
                                ) == Some(e)) || (e.is_failure() && !old(self).dependable()))
                            &&& boarded.given_back(
                                claimed.claim@,
                                old(self).dependable(),
                                final(self)@,
                            )
                        },
                    },
                }
            }),
    {
        let swarm_id = claimed.claim.swarm_id.clone();
        if self.board.subscribe(swarm_id.as_str()).is_err() {
            if let Err(e) = self.board.register(swarm_id.as_str(), roster.box_ids()) {
                let _ = self.store.release_claim(&claimed.claim);
                return Err(SwarmEngineError::Board(e.message()));
            }
        }
        let under_way: u32 = self.turns_under_way(swarm_id.as_str());
        assert(under_way == old(self)@.turns_under_way(claimed.claim@.swarm_id));
        let mut state = SwarmRunState::new(claimed.persisted, claimed.claim, roster, under_way);
        if let Err(e) = state.bring_up(&mut self.store, now) {
            assert(brought_up(
                claimed.persisted@,
                state@,
                old(self)@.turns_under_way(claimed.claim@.swarm_id),
                now@,
            ));
            let _ = self.store.release_claim(state.claim());
            return Err(SwarmEngineError::Store(e));
        }
        self.runs.insert(swarm_id, state);
        Ok(())
    }

    /// Claim a swarm and bring it to `Running`, out of what the outside answered.
    pub fn build_run(&mut self, swarm_id: &str, prep: Preparation<C>, now: &str) -> (r: Result<
        (),
        SwarmEngineError,
    >)
        requires
            old(self)@.claim_refusal(swarm_id@) is None ==> prep@.answers.len()
                == old(self)@.store.swarms[swarm_id@].spec.boxes.len(),
        ensures
            final(self).dependable() == old(self).dependable(),
            match r {
                Ok(()) => {
                    &&& old(self)@.build_refusal(swarm_id@, prep@) is None
                    &&& old(self)@.built(swarm_id@, prep@, now@, final(self)@)
                },
                Err(e) => old(self)@.unbuilt(
                    swarm_id@,
                    prep@,
                    now@,
                    e@,
                    old(self).dependable(),
                    final(self)@,
                ),
            },
    {
        let claimed = match self.claim_run(swarm_id) {
            Ok(claimed) => claimed,
            Err(e) => {
                return Err(e);
            },
        };
        let ghost held = self@;
        let ghost claim = claimed.claim@;
        proof {
            assert(held.store.released(claim) =~= old(self)@.store) by {
                assert(held.store.claims.remove(swarm_id@) =~= old(self)@.store.claims);
            }
        }
        let r = self.raise_run(claimed, prep, now);
        proof {
            assert(granted(claim, swarm_id@, old(self)@.boot_id));
            assert(held.turns_under_way(swarm_id@) == old(self)@.turns_under_way(swarm_id@));
        }
        r
    }

    /// Bring a claimed swarm to `Running`, out of what the outside answered. Where that
    /// fails the claim is released.
    pub fn raise_run(&mut self, claimed: ClaimedRun, prep: Preparation<C>, now: &str) -> (r: Result<
        (),
        SwarmEngineError,
    >)
        requires
            prep@.answers.len() == claimed.persisted@.spec.boxes.len(),
        ensures
            final(self).dependable() == old(self).dependable(),
            match r {
                Ok(()) => {
                    &&& old(self)@.raise_refusal(
                        claimed.claim@.swarm_id,
                        claimed.persisted@.spec,
                        prep@,
                    ) is None
                    &&& old(self)@.raised(
                        claimed.persisted@,
                        claimed.claim@,
                        prep@,
                        now@,
                        final(self)@,
                    )
                },
                Err(e) => old(self)@.unraised(
                    claimed.persisted@,
                    claimed.claim@,
                    prep@,
                    now@,
                    e@,
                    old(self).dependable(),
                    final(self)@,
                ),
            },
    {
        let ghost given = prep.answers@;
        proof {
            assert forall|i: int| 0 <= i < prep@.answers.len() implies #[trigger] prep@.answers[i]
                == given[i]@ by {}
        }
        let roster = match build_swarm_roster(
            &claimed.persisted.spec,
            self.parent_alias.as_str(),
            prep.agents,
            prep.parent,
            prep.answers,
        ) {
            Ok(roster) => roster,
            Err(e) => {
                return Err(self.abandon_run(claimed, e.message()));
            },
        };
        if let Err(e) = roster.compose_memories(prep.honors_allowlist) {
            return Err(self.abandon_run(claimed, e.message()));
        }
        assert(roster@.ids() =~= roster::spec_ids(claimed.persisted@.spec.boxes));
        self.activate_run(claimed, roster, now)
    }
}

impl<C> EngineView<C> {
    /// With an orchestrator driver on the run, which logs its start.
    pub open spec fn started(self, id: Seq<char>, now: Seq<char>) -> EngineView<C> {
        let run = self.runs[id];
        self.running(id, RunView { driven: true, ..run }).storing(
            self.store.logged(run::event(run.id(), "swarm_started"@, None, Seq::empty(), now)),
        )
    }

    /// With an orchestrator driver on the run under `id`, if there is one.
    pub open spec fn after_start(self, id: Seq<char>, now: Seq<char>) -> EngineView<C> {
        if self.runs.contains_key(id) {
            self.started(id, now)
        } else {
            self
        }
    }

    /// After a resumption has been logged.
    pub open spec fn resumed(self, id: Seq<char>, now: Seq<char>) -> EngineView<C> {
        self.storing(
            self.store.logged(
                run::event(self.runs[id].id(), "swarm_resumed"@, None, Seq::empty(), now),
            ),
        )
    }
}

impl<S: SwarmStore, C> SwarmEngine<S, C> {
    /// Claim a swarm and bring it to `Running` without starting the orchestrator
    /// driver, for callers that drive box turns themselves.
    pub fn begin_run(&mut self, swarm_id: &str, prep: Preparation<C>, now: &str) -> (r: Result<
        (),
        SwarmEngineError,
    >)
        requires
            old(self)@.claim_refusal(swarm_id@) is None ==> prep@.answers.len()
                == old(self)@.store.swarms[swarm_id@].spec.boxes.len(),
        ensures
            final(self).dependable() == old(self).dependable(),
            match r {
                Ok(()) => {
                    &&& old(self)@.build_refusal(swarm_id@, prep@) is None
                    &&& old(self)@.built(swarm_id@, prep@, now@, final(self)@)
                },
                Err(e) => old(self)@.unbuilt(
                    swarm_id@,
                    prep@,
                    now@,
                    e@,
                    old(self).dependable(),
                    final(self)@,
                ),
            },
    {
        self.build_run(swarm_id, prep, now)
    }

    /// Puts an orchestrator driver on a live run and logs its start.
    pub fn mark_started(&mut self, swarm_id: &str, now: &str)
        ensures
            final(self).dependable() == old(self).dependable(),
            final(self)@ == old(self)@.after_start(swarm_id@, now@) || final(self)@
                == old(self)@.after_start(swarm_id@, now@).storing(old(self)@.store),
            old(self).dependable() ==> final(self)@ == old(self)@.after_start(swarm_id@, now@),
    {
        if let Some(mut live) = self.runs.remove(swarm_id) {
            live.mark_driven();
            let none: Vec<PayloadField> = Vec::new();
            assert(text::views(none@) =~= Seq::empty());
            live.append_event(&mut self.store, "swarm_started", None, none, now);
            self.runs.insert(swarm_id.to_owned(), live);
            assert(self@.runs =~= old(self)@.started(swarm_id@, now@).runs);
        }
    }

    /// Claim a swarm, bring it to `Running`, and put its orchestrator driver on it.
    pub fn start(&mut self, swarm_id: &str, prep: Preparation<C>, now: &str) -> (r: Result<
        (),
        SwarmEngineError,
    >)
        requires
            old(self)@.claim_refusal(swarm_id@) is None ==> prep@.answers.len()
                == old(self)@.store.swarms[swarm_id@].spec.boxes.len(),
        ensures
            final(self).dependable() == old(self).dependable(),
            match r {
                Ok(()) => {
                    &&& old(self)@.build_refusal(swarm_id@, prep@) is None
                    &&& exists|up: EngineView<C>| #[trigger]
                        old(self)@.built(swarm_id@, prep@, now@, up) && final(self)@
                            == up.started(swarm_id@, now@).storing(final(self)@.store) && (
                        old(self).dependable() ==> final(self)@ == up.started(swarm_id@, now@))
                },
                Err(e) => old(self)@.unbuilt(
                    swarm_id@,
                    prep@,
                    now@,
                    e@,
                    old(self).dependable(),
                    final(self)@,
                ),
            },
    {
        if let Err(e) = self.build_run(swarm_id, prep, now) {
            return Err(e);
        }
        let ghost up = self@;
        self.mark_started(swarm_id, now);
        proof {
            assert(old(self)@.built(swarm_id@, prep@, now@, up));
        }
        Ok(())
    }

    /// Re-claim a paused swarm, rehydrate its box sessions, and resume driving. A swarm
    /// whose budget was not raised, and has no room beside the turns still under way,
    /// parks again: [`a_swarm_without_room_parks_again`].
    pub fn resume(&mut self, swarm_id: &str, prep: Preparation<C>, now: &str) -> (r: Result<
        (),
        SwarmEngineError,
    >)
        requires
            old(self)@.claim_refusal(swarm_id@) is None ==> prep@.answers.len()
                == old(self)@.store.swarms[swarm_id@].spec.boxes.len(),
        ensures
            final(self).dependable() == old(self).dependable(),
            match r {
                Ok(()) => {
                    &&& old(self)@.build_refusal(swarm_id@, prep@) is None
                    &&& exists|up: EngineView<C>| #[trigger]
                        old(self)@.built(swarm_id@, prep@, now@, up) && final(self)@ == up.resumed(
                            swarm_id@,
                            now@,
                        ).started(swarm_id@, now@).storing(final(self)@.store) && (
                        old(self).dependable() ==> final(self)@ == up.resumed(
                            swarm_id@,
                            now@,
                        ).started(swarm_id@, now@))
                },
                Err(e) => old(self)@.unbuilt(
                    swarm_id@,
                    prep@,
                    now@,
                    e@,
                    old(self).dependable(),
                    final(self)@,
                ),
            },
    {
        if let Err(e) = self.build_run(swarm_id, prep, now) {
            return Err(e);
        }
        let ghost up = self@;
        self.mark_resumed(swarm_id, now);
        self.mark_started(swarm_id, now);
        proof {
            assert(old(self)@.built(swarm_id@, prep@, now@, up));
        }
        Ok(())
    }

    /// Logs that a run was resumed.
    pub fn mark_resumed(&mut self, swarm_id: &str, now: &str)
        ensures
            final(self).dependable() == old(self).dependable(),
            final(self)@ == old(self)@ || (old(self)@.runs.contains_key(swarm_id@) && final(self)@
                == old(self)@.resumed(swarm_id@, now@)),
            old(self).dependable() ==> final(self)@ == if old(self)@.runs.contains_key(swarm_id@) {
                old(self)@.resumed(swarm_id@, now@)
            } else {
                old(self)@
            },
    {
        if let Some(live) = self.runs.get(swarm_id) {
            let none: Vec<PayloadField> = Vec::new();
            assert(text::views(none@) =~= Seq::empty());
            live.append_event(&mut self.store, "swarm_resumed", None, none, now);
        }
    }

    // ── Box turns ───────────────────────────────────────────────────

    /// Asks to delegate `subtask` to one box of a live run at `at` seconds. Where the
    /// budget is exhausted the run is parked; one without a driver is let go at once, and
    /// one with a driver when that exits.
    pub fn start_box_turn(
        &mut self,
        swarm_id: &str,
        box_id: &str,
        subtask: &str,
        at: i64,
        now: &str,
    ) -> (r: Result<BoxTurn, BoxTurnError>)
        ensures
            final(self).dependable() == old(self).dependable(),
            match old(self)@.turn_refusal(swarm_id@, box_id@, at as int) {
                Some(e) => r matches Err(x) && x@ == e,
                None => r matches Ok(turn) && turn@ == old(self)@.runs[swarm_id@].box_turn(
                    box_id@,
                    subtask@,
                ) && turn.box_id@ == box_id@ && turn.subtask@ == subtask@,
            },
            final(self)@ == old(self)@.delegated(
                swarm_id@,
                box_id@,
                subtask@,
                at as int,
                now@,
            ).storing(final(self)@.store),
            old(self).dependable() ==> final(self)@ == old(self)@.delegated(
                swarm_id@,
                box_id@,
                subtask@,
                at as int,
                now@,
            ),
    {
        let mut live = match self.runs.remove(swarm_id) {
            Some(live) => live,
            None => {
                return Err(BoxTurnError::NotRunning(swarm_id.to_owned()));
            },
        };
        let r = live.start_box_turn(
            &mut self.store,
            &mut self.board,
            box_id,
            subtask,
            at,
            now,
        );
        let spent_up = match &r {
            Err(BoxTurnError::BudgetExhausted(_)) => true,
            _ => false,
        };
        if spent_up && !live.is_driven() {
            let _ = self.store.release_claim(live.claim());
            self.linger(swarm_id, live.reserved());
            assert(self@.runs =~= old(self)@.runs.remove(swarm_id@));
        } else {
            self.runs.insert(swarm_id.to_owned(), live);
            assert(self@.runs =~= old(self)@.runs.insert(swarm_id@, live@));
        }
        proof {
            let run = old(self)@.runs[swarm_id@].delegated(
                old(self)@.store,
                box_id@,
                at as int,
                now@,
            ).0;
            assert(old(self)@.runs.insert(swarm_id@, run).remove(swarm_id@)
                =~= old(self)@.runs.remove(swarm_id@));
        }
        r
    }
}

impl<C> EngineView<C> {
    /// Why a delegation is refused, if it is.
    pub open spec fn turn_refusal(self, id: Seq<char>, box_id: Seq<char>, at: int) -> Option<
        BoxTurnErrorView,
    > {
        if self.runs.contains_key(id) {
            self.runs[id].delegation_refusal(box_id, at)
        } else {
            Some(BoxTurnErrorView::NotRunning(id))
        }
    }

    /// After a delegation has been asked for.
    pub open spec fn delegated(
        self,
        id: Seq<char>,
        box_id: Seq<char>,
        subtask: Seq<char>,
        at: int,
        now: Seq<char>,
    ) -> EngineView<C> {
        if self.runs.contains_key(id) {
            let run = self.runs[id];
            let (next, store) = run.delegated(self.store, box_id, at, now);
            let asked = EngineView {
                store,
                board: if run.delegation_refusal(box_id, at) is None {
                    self.board.after_publish(
                        run.id(),
                        box_id,
                        BoxStatus::Working,
                        text::truncated(subtask, SUBTASK_NOTE_LEN as nat),
                    )
                } else {
                    self.board
                },
                ..self
            }.running(id, next);
            if run.delegation_refusal(box_id, at) matches Some(
                BoxTurnErrorView::BudgetExhausted(_),
            ) && !run.driven {
                asked.let_go(id)
            } else {
                asked
            }
        } else {
            self
        }
    }
}

/// `doc` with the spend of a turn that ended after its run did.
pub open spec fn charged_late(doc: PersistedSwarmView, spend: SwarmSpend, now: Seq<char>) -> PersistedSwarmView {
    run::bumped(
        PersistedSwarmView {
            run: SwarmRunView { spent: doc.run.spent.plus(spend), ..doc.run },
            ..doc
        },
        now,
    )
}

impl<C> EngineView<C> {
    /// After a box turn has ended. A turn that outlives its run is charged to the
    /// stored document.
    pub open spec fn turn_ended(
        self,
        id: Seq<char>,
        box_id: Seq<char>,
        spend: SwarmSpend,
        now: Seq<char>,
    ) -> EngineView<C> {
        let noted = run::delegated_event(id, box_id, spend, now);
        if self.runs.contains_key(id) {
            let next = self.runs[id].spending(spend, now);
            self.running(id, next).storing(
                self.store.kept(next.doc).logged(
                    run::delegated_event(self.runs[id].id(), box_id, spend, now),
                ),
            )
        } else {
            match self.store.swarm(id) {
                Some(doc) => self.turn_over(id).storing(
                    self.store.kept(charged_late(doc, spend, now)).logged(noted),
                ),
                None => self.turn_over(id),
            }
        }
    }
}

impl<S: SwarmStore, C> SwarmEngine<S, C> {
    /// Accounts for a box turn that ran, and hands its answer on.
    pub fn finish_box_turn(
        &mut self,
        swarm_id: &str,
        box_id: &str,
        spend: SwarmSpend,
        result: Result<String, String>,
        now: &str,
    ) -> (r: Result<String, BoxTurnError>)
        ensures
            match result {
                Ok(text) => r == Ok::<String, BoxTurnError>(text),
                Err(m) => r matches Err(e) && e@ == BoxTurnErrorView::Turn(m@),
            },
            final(self).dependable() == old(self).dependable(),
            final(self)@ == old(self)@.turn_ended(swarm_id@, box_id@, spend, now@).storing(
                final(self)@.store,
            ),
            old(self).dependable() ==> final(self)@ == old(self)@.turn_ended(
                swarm_id@,
                box_id@,
                spend,
                now@,
            ),
    {
        match self.runs.remove(swarm_id) {
            Some(mut live) => {
                let r = live.finish_box_turn(&mut self.store, box_id, spend, result, now);
                self.runs.insert(swarm_id.to_owned(), live);
                assert(self@.runs =~= old(self)@.turn_ended(swarm_id@, box_id@, spend, now@).runs);
                r
            },
            None => {
                let count: u32 = self.turns_under_way(swarm_id);
                self.linger(
                    swarm_id,
                    if count > 0 {
                        count - 1
                    } else {
                        0
                    },
                );
                if let Ok(Some(doc)) = self.store.load_swarm(swarm_id) {
                    let mut doc = doc;
                    doc.run.spent = doc.run.spent.saturating_add(spend);
                    doc.revision = doc.revision.saturating_add(1);
                    doc.updated_at = now.to_owned();
                    let _ = self.store.save_swarm(&doc);
                    let record = run::delegated_record(swarm_id, box_id, spend, now);
                    let _ = self.store.append_event(&record);
                }
                match result {
                    Ok(text) => Ok(text),
                    Err(m) => Err(BoxTurnError::Turn(m)),
                }
            },
        }
    }

    /// Gives up a box turn whose agent could not be built: nothing was spent.
    pub fn abort_box_turn(&mut self, swarm_id: &str, reason: String) -> (r: BoxTurnError)
        ensures
            r@ == BoxTurnErrorView::Turn(reason@),
            final(self).dependable() == old(self).dependable(),
            final(self)@ == old(self)@.turn_over(swarm_id@),
    {
        match self.runs.remove(swarm_id) {
            Some(mut live) => {
                let e = live.abort_box_turn(reason);
                self.runs.insert(swarm_id.to_owned(), live);
                assert(self@.runs =~= old(self)@.runs.insert(
                    swarm_id@,
                    old(self)@.runs[swarm_id@].unreserved(),
                ));
                e
            },
            None => {
                let count: u32 = self.turns_under_way(swarm_id);
                self.linger(
                    swarm_id,
                    if count > 0 {
                        count - 1
                    } else {
                        0
                    },
                );
                BoxTurnError::Turn(reason)
            },
        }
    }

    /// Hold a box for a user: the orchestrator may not delegate to it until it is
    /// handed back or the user has been idle. Says whether it is held; only a box on
    /// the roster of a live run can be.
    pub fn engage_box_for_user(&mut self, swarm_id: &str, box_id: &str, at: i64) -> (r: bool)
        ensures
            r == old(self)@.on_live_roster(swarm_id@, box_id@),
            final(self).dependable() == old(self).dependable(),
            final(self)@ == old(self)@.engaging(swarm_id@, box_id@, at as int),
    {
        match self.runs.remove(swarm_id) {
            Some(mut live) => {
                let r = live.engage(box_id, at);
                self.runs.insert(swarm_id.to_owned(), live);
                assert(self@.runs =~= old(self)@.engaging(swarm_id@, box_id@, at as int).runs);
                r
            },
            None => false,
        }
    }

    /// Hand a box back to the orchestrator; says whether a user held it.
    pub fn release_box_for_user(&mut self, swarm_id: &str, box_id: &str, at: i64) -> (r: bool)
        ensures
            r == old(self)@.engaged(swarm_id@, box_id@, at as int),
            final(self).dependable() == old(self).dependable(),
            final(self)@ == old(self)@.disengaging(swarm_id@, box_id@),
    {
        match self.runs.remove(swarm_id) {
            Some(mut live) => {
                let r = live.disengage(box_id, at);
                self.runs.insert(swarm_id.to_owned(), live);
                assert(self@.runs =~= old(self)@.disengaging(swarm_id@, box_id@).runs);
                r
            },
            None => false,
        }
    }

    /// Whether a user holds a box at `at`.
    pub fn is_box_user_engaged(&self, swarm_id: &str, box_id: &str, at: i64) -> (r: bool)
        ensures
            r == self@.engaged(swarm_id@, box_id@, at as int),
    {
        match self.runs.get(swarm_id) {
            Some(live) => live.is_engaged(box_id, at),
            None => false,
        }
    }

    /// What a user's message to a box does to the hold on it: the literal `resume`
    /// hands the box back, anything else holds it. Says whether the user holds the box
    /// afterwards.
    pub fn interject(&mut self, swarm_id: &str, box_id: &str, message: &str, at: i64) -> (r: bool)
        ensures
            r == (message@ != HANDBACK@ && old(self)@.on_live_roster(swarm_id@, box_id@)),
            r ==> message@ != "resume"@,
            final(self).dependable() == old(self).dependable(),
            final(self)@ == if message@ == HANDBACK@ {
                old(self)@.disengaging(swarm_id@, box_id@)
            } else {
                old(self)@.engaging(swarm_id@, box_id@, at as int)
            },
    {
        if text_eq(message, HANDBACK) {
            let _ = self.release_box_for_user(swarm_id, box_id, at);
            false
        } else {
            self.engage_box_for_user(swarm_id, box_id, at)
        }
    }
}

/// The message by which a user hands a box back.
pub const HANDBACK: &'static str = "resume";

impl<C> EngineView<C> {
    /// The box is on the roster of the swarm's live run.
    pub open spec fn on_live_roster(self, id: Seq<char>, box_id: Seq<char>) -> bool {
        self.runs.contains_key(id) && self.runs[id].roster.ids().contains(box_id)
    }

    /// A user holds the box at `at`.
    pub open spec fn engaged(self, id: Seq<char>, box_id: Seq<char>, at: int) -> bool {
        self.runs.contains_key(id) && self.runs[id].held(box_id, at)
    }

    /// After a user spoke to a box at `at`.
    pub open spec fn engaging(self, id: Seq<char>, box_id: Seq<char>, at: int) -> EngineView<C> {
        if self.on_live_roster(id, box_id) {
            let run = self.runs[id];
            self.running(id, RunView { engaged: run.engaged.insert(box_id, at), ..run })
        } else {
            self
        }
    }

    /// After a box was handed back.
    pub open spec fn disengaging(self, id: Seq<char>, box_id: Seq<char>) -> EngineView<C> {
        if self.runs.contains_key(id) {
            let run = self.runs[id];
            self.running(id, RunView { engaged: run.engaged.remove(box_id), ..run })
        } else {
            self
        }
    }
}

// ── Driving, pausing and stopping ───────────────────────────────────

impl<C> EngineView<C> {
    /// The board that the orchestrator of a run sees.
    pub open spec fn board_of(self, run: RunView<C>) -> Option<BoardView> {
        if self.board.boards.contains_key(run.id()) {
            Some(self.board.boards[run.id()])
        } else {
            None
        }
    }

    /// After a round has begun.
    pub open spec fn round_begun(self, id: Seq<char>, now: Seq<char>) -> EngineView<C> {
        if self.runs.contains_key(id) {
            let (next, store) = self.runs[id].round_begun(self.store, now);
            self.running(id, next).storing(store)
        } else {
            self
        }
    }

    /// After a round has ended.
    pub open spec fn round_ended(
        self,
        id: Seq<char>,
        outcome: RoundOutcome,
        now: Seq<char>,
    ) -> EngineView<C> {
        if self.runs.contains_key(id) {
            let run = self.runs[id];
            match outcome {
                RoundOutcome::NoAgent(e) => self.storing(
                    self.store.logged(run.failure_event(e@, now)),
                ),
                RoundOutcome::Turn { spend, result } => {
                    let next = run.charged(spend, now);
                    let kept = self.store.kept(next.doc);
                    self.running(id, next).storing(
                        match result {
                            Ok(_) => kept,
                            Err(e) => kept.logged(run.failure_event(e@, now)),
                        },
                    )
                },
            }
        } else {
            self
        }
    }

    /// After a finished run has been marked completed, reaped and retired.
    pub open spec fn completed(self, id: Seq<char>, answers: ReapAnswers, now: Seq<char>) -> EngineView<
        C,
    > {
        let run = self.runs[id];
        let done = run.turned(SwarmStatus::Completed, now);
        let clean = reap::reaped(self.board, run.roster, answers).warnings.len() == 0;
        EngineView {
            store: self.store.kept(done.doc).logged(
                run::event(run.id(), "swarm_completed"@, None, Seq::empty(), now),
            ).logged(
                run::event(
                    run.id(),
                    "swarm_reaped"@,
                    None,
                    seq![run::flag_field("clean"@, clean)],
                    now,
                ),
            ).released(run.claim),
            board: reap::cleared(self.board, run.roster.swarm_id),
            ..self
        }.retired(id)
    }

    /// After a run that is parked has given its claim back.
    pub open spec fn let_go(self, id: Seq<char>) -> EngineView<C> {
        self.storing(self.store.released(self.runs[id].claim)).retired(id)
    }

    /// After a driver has exited.
    pub open spec fn driver_exited(
        self,
        id: Seq<char>,
        exit: DriverExit,
        answers: ReapAnswers,
        now: Seq<char>,
    ) -> EngineView<C> {
        if !self.runs.contains_key(id) {
            self
        } else {
            match exit {
                DriverExit::Completed => self.completed(id, answers, now),
                DriverExit::BudgetExhausted => self.let_go(id),
                DriverExit::Paused => self.let_go(id),
                DriverExit::Cancelled => self,
            }
        }
    }

    /// After a pause has been asked for. A run without a driver is parked at once; a
    /// driver parks its run at the next round boundary.
    pub open spec fn pausing(self, id: Seq<char>, now: Seq<char>) -> EngineView<C> {
        let run = self.runs[id];
        if run.driven {
            self.running(id, RunView { pause: true, ..run })
        } else {
            let held = run.turned(
                SwarmStatus::Paused { reason: SwarmPauseReason::UserRequested },
                now,
            );
            self.storing(
                self.store.kept(held.doc).logged(run.paused_event(now)).released(run.claim),
            ).retired(id)
        }
    }

    /// After a cancelled run has been reaped, marked stopped and retired.
    pub open spec fn stopped(self, id: Seq<char>, answers: ReapAnswers, now: Seq<char>) -> EngineView<
        C,
    > {
        let run = self.runs[id];
        let done = run.turned(SwarmStatus::Stopped, now);
        let clean = reap::reaped(self.board, run.roster, answers).warnings.len() == 0;
        EngineView {
            store: self.store.kept(done.doc).logged(
                run::event(
                    run.id(),
                    "swarm_stopped"@,
                    None,
                    seq![run::flag_field("clean"@, clean)],
                    now,
                ),
            ).released(run.claim),
            board: reap::cleared(self.board, run.roster.swarm_id),
            ..self
        }.retired(id)
    }
}

/// How a pause takes hold.
#[derive(Debug, Clone, Copy, PartialEq, Eq, Structural)]
pub enum Pausing {
    /// The run had no driver and is parked.
    Parked,
    /// The driver finishes its round and parks the run.
    Draining,
}

fn clean_flag(clean: bool) -> (r: Vec<PayloadField>)
    ensures
        text::views(r@) == seq![run::flag_field("clean"@, clean)],
{
    let mut payload: Vec<PayloadField> = Vec::new();
    payload.push(PayloadField { name: "clean".to_owned(), value: PayloadValue::Flag(clean) });
    assert(text::views(payload@) =~= seq![run::flag_field("clean"@, clean)]);
    payload
}

impl<S: SwarmStore, C> SwarmEngine<S, C> {
    /// Begins a round of a live run.
    pub fn begin_round(&mut self, swarm_id: &str, round: usize, now: &str) -> (r: Option<RoundStart>)
        ensures
            r is Some == old(self)@.runs.contains_key(swarm_id@),
            r matches Some(step) ==> match old(self)@.runs[swarm_id@].round_exit() {
                Some(exit) => step == RoundStart::Exit(exit),
                None => step matches RoundStart::Plan { prompt, before } && before
                    == old(self)@.runs[swarm_id@].delegations && prompt@
                    == run::orchestrator_prompt(
                    old(self)@.runs[swarm_id@].doc.spec,
                    old(self)@.runs[swarm_id@].roster,
                    old(self)@.board_of(old(self)@.runs[swarm_id@]),
                    round as nat,
                ),
            },
            final(self).dependable() == old(self).dependable(),
            final(self)@ == old(self)@.round_begun(swarm_id@, now@).storing(final(self)@.store),
            old(self).dependable() ==> final(self)@ == old(self)@.round_begun(swarm_id@, now@),
    {
        match self.runs.remove(swarm_id) {
            Some(mut live) => {
                let step = live.begin_round(&mut self.store, &self.board, round, now);
                self.runs.insert(swarm_id.to_owned(), live);
                assert(self@.runs =~= old(self)@.round_begun(swarm_id@, now@).runs);
                Some(step)
            },
            None => None,
        }
    }

    /// Ends a round of a live run, and says what follows.
    pub fn end_round(
        &mut self,
        swarm_id: &str,
        round: usize,
        before: u64,
        outcome: RoundOutcome,
        now: &str,
    ) -> (r: Option<RoundEnd>)
        ensures
            r is Some == old(self)@.runs.contains_key(swarm_id@),
            r matches Some(end) ==> end == (match outcome {
                RoundOutcome::Turn { spend, result: Ok(_) } => {
                    final(self)@.runs[swarm_id@].round_verdict(round, before)
                },
                _ => RoundEnd::Exit(DriverExit::Completed),
            }),
            r matches Some(end) ==> (outcome matches RoundOutcome::Turn { result: Ok(_), .. } ==> {
                let run = final(self)@.runs[swarm_id@];
                let free = !(run.doc.run.status is Paused) && !run.cancelled;
                &&& free && run.delegations != before && round + 1 < 10_000 ==> end
                    == RoundEnd::Next((round + 1) as usize)
                &&& free && run.delegations == before ==> end == RoundEnd::Exit(
                    DriverExit::Completed,
                )
            }),
            final(self).dependable() == old(self).dependable(),
            final(self)@ == old(self)@.round_ended(swarm_id@, outcome, now@).storing(
                final(self)@.store,
            ),
            old(self).dependable() ==> final(self)@ == old(self)@.round_ended(
                swarm_id@,
                outcome,
                now@,
            ),
    {
        match self.runs.remove(swarm_id) {
            Some(mut live) => {
                let end = live.end_round(&mut self.store, round, before, outcome, now);
                self.runs.insert(swarm_id.to_owned(), live);
                assert(self@.runs =~= old(self)@.round_ended(swarm_id@, outcome, now@).runs);
                Some(end)
            },
            None => None,
        }
    }

    /// What follows the exit of a driver: a completed run is reaped, a parked one
    /// gives its claim back, and a cancelled one is left to [`Self::stop`].
    pub fn finish_drive(
        &mut self,
        swarm_id: &str,
        exit: DriverExit,
        answers: &ReapAnswers,
        now: &str,
    ) -> (r: Option<ReapReport>)
        requires
            exit is Completed && old(self)@.runs.contains_key(swarm_id@) ==> answers.fit(
                old(self)@.runs[swarm_id@].roster.boxes.len(),
            ),
        ensures
            r is Some == (exit is Completed && old(self)@.runs.contains_key(swarm_id@)),
            r matches Some(report) ==> report@ == reap::reaped(
                old(self)@.board,
                old(self)@.runs[swarm_id@].roster,
                *answers,
            ),
            final(self).dependable() == old(self).dependable(),
            final(self)@ == old(self)@.driver_exited(swarm_id@, exit, *answers, now@).storing(
                final(self)@.store,
            ),
            old(self).dependable() ==> final(self)@ == old(self)@.driver_exited(
                swarm_id@,
                exit,
                *answers,
                now@,
            ),
    {
        match exit {
            DriverExit::Cancelled => {
                return None;
            },
            _ => {},
        }
        let mut live = match self.runs.remove(swarm_id) {
            Some(live) => live,
            None => {
                return None;
            },
        };
        match exit {
            DriverExit::Completed => {
                live.turn_to(&mut self.store, SwarmStatus::Completed, now);
                let none: Vec<PayloadField> = Vec::new();
                assert(text::views(none@) =~= Seq::empty());
                live.append_event(&mut self.store, "swarm_completed", None, none, now);
                let report = reap_swarm(&mut self.board, live.roster(), answers);
                live.append_event(
                    &mut self.store,
                    "swarm_reaped",
                    None,
                    clean_flag(report.is_clean()),
                    now,
                );
                let _ = self.store.release_claim(live.claim());
                self.linger(swarm_id, live.reserved());
                Some(report)
            },
            _ => {
                let _ = self.store.release_claim(live.claim());
                self.linger(swarm_id, live.reserved());
                None
            },
        }
    }

    /// Finish any round in flight, then hold the run at `Paused` for the user.
    pub fn pause(&mut self, swarm_id: &str, now: &str) -> (r: Result<Pausing, SwarmEngineError>)
        ensures
            final(self).dependable() == old(self).dependable(),
            match r {
                Ok(how) => {
                    &&& old(self)@.runs.contains_key(swarm_id@)
                    &&& how == if old(self)@.runs[swarm_id@].driven {
                        Pausing::Draining
                    } else {
                        Pausing::Parked
                    }
                    &&& final(self)@ == old(self)@.pausing(swarm_id@, now@).storing(
                        final(self)@.store,
                    )
                    &&& old(self).dependable() ==> final(self)@ == old(self)@.pausing(
                        swarm_id@,
                        now@,
                    )
                },
                Err(e) => {
                    &&& !old(self)@.runs.contains_key(swarm_id@)
                    &&& e@ == (EngineErrorView::NotRunning { swarm_id: swarm_id@ })
                    &&& final(self)@ == old(self)@
                },
            },
    {
        let mut live = match self.runs.remove(swarm_id) {
            Some(live) => live,
            None => {
                return Err(SwarmEngineError::NotRunning { swarm_id: swarm_id.to_owned() });
            },
        };
        if live.is_driven() {
            live.request_pause();
            self.runs.insert(swarm_id.to_owned(), live);
            assert(self@.runs =~= old(self)@.pausing(swarm_id@, now@).runs);
            Ok(Pausing::Draining)
        } else {
            live.park_for_user(&mut self.store, now);
            let _ = self.store.release_claim(live.claim());
            self.linger(swarm_id, live.reserved());
            Ok(Pausing::Parked)
        }
    }

    /// Cancels the work of a live run in flight. Says whether a driver is still to
    /// exit before the run can be stopped.
    pub fn cancel_run(&mut self, swarm_id: &str) -> (r: Result<bool, SwarmEngineError>)
        ensures
            final(self).dependable() == old(self).dependable(),
            match r {
                Ok(driven) => {
                    let run = old(self)@.runs[swarm_id@];
                    &&& old(self)@.runs.contains_key(swarm_id@)
                    &&& driven == run.driven
                    &&& final(self)@ == old(self)@.running(
                        swarm_id@,
                        RunView { cancelled: true, ..run },
                    )
                },
                Err(e) => {
                    &&& !old(self)@.runs.contains_key(swarm_id@)
                    &&& e@ == (EngineErrorView::NotRunning { swarm_id: swarm_id@ })
                    &&& final(self)@ == old(self)@
                },
            },
    {
        match self.runs.remove(swarm_id) {
            Some(mut live) => {
                live.cancel();
                let driven = live.is_driven();
                let ghost run = live@;
                self.runs.insert(swarm_id.to_owned(), live);
                assert(self@.runs =~= old(self)@.runs.insert(swarm_id@, run));
                Ok(driven)
            },
            None => Err(SwarmEngineError::NotRunning { swarm_id: swarm_id.to_owned() }),
        }
    }

    /// Hard-stop a run: reap every trace of the roster and mark the swarm `Stopped`.
    pub fn stop(&mut self, swarm_id: &str, answers: &ReapAnswers, now: &str) -> (r: Result<
        ReapReport,
        SwarmEngineError,
    >)
        requires
            old(self)@.runs.contains_key(swarm_id@) ==> answers.fit(
                old(self)@.runs[swarm_id@].roster.boxes.len(),
            ),
        ensures
            final(self).dependable() == old(self).dependable(),
            match r {
                Ok(report) => {
                    &&& old(self)@.runs.contains_key(swarm_id@)
                    &&& report@ == reap::reaped(
                        old(self)@.board,
                        old(self)@.runs[swarm_id@].roster,
                        *answers,
                    )
                    &&& final(self)@ == old(self)@.stopped(swarm_id@, *answers, now@).storing(
                        final(self)@.store,
                    )
                    &&& old(self).dependable() ==> final(self)@ == old(self)@.stopped(
                        swarm_id@,
                        *answers,
                        now@,
                    )
                },
                Err(e) => {
                    &&& !old(self)@.runs.contains_key(swarm_id@)
                    &&& e@ == (EngineErrorView::NotRunning { swarm_id: swarm_id@ })
                    &&& final(self)@ == old(self)@
                },
            },
    {
        let mut live = match self.runs.remove(swarm_id) {
            Some(live) => live,
            None => {
                return Err(SwarmEngineError::NotRunning { swarm_id: swarm_id.to_owned() });
            },
        };
        let report = reap_swarm(&mut self.board, live.roster(), answers);
        live.turn_to(&mut self.store, SwarmStatus::Stopped, now);
        live.append_event(
            &mut self.store,
            "swarm_stopped",
            None,
            clean_flag(report.is_clean()),
            now,
        );
        let _ = self.store.release_claim(live.claim());
        self.linger(swarm_id, live.reserved());
        Ok(report)
    }

    /// Renews the claim of a live run. Where it is gone another driver owns the
    /// swarm, and the run is cancelled.
    pub fn heartbeat(&mut self, swarm_id: &str) -> (r: bool)
        ensures
            final(self).dependable() == old(self).dependable(),
            r ==> old(self)@.runs.contains_key(swarm_id@),
            final(self)@ == (if old(self)@.runs.contains_key(swarm_id@) && !r {
                old(self)@.running(
                    swarm_id@,
                    RunView { cancelled: true, ..old(self)@.runs[swarm_id@] },
                )
            } else {
                old(self)@
            }).storing(final(self)@.store),
            !r ==> final(self)@.store == old(self)@.store,
            r ==> old(self)@.store.holds(old(self)@.runs[swarm_id@].claim)
                && old(self)@.store.renews(
                old(self)@.runs[swarm_id@].claim,
                final(self)@.store,
            ),
            old(self).dependable() && old(self)@.runs.contains_key(swarm_id@) ==> r
                == old(self)@.store.holds(old(self)@.runs[swarm_id@].claim),
    {
        match self.runs.remove(swarm_id) {
            Some(mut live) => {
                let alive = live.heartbeat(&mut self.store);
                let ghost run = live@;
                self.runs.insert(swarm_id.to_owned(), live);
                assert(self@.runs =~= old(self)@.runs.insert(swarm_id@, run));
                if alive {
                    assert(self@.runs =~= old(self)@.runs);
                }
                alive
            },
            None => false,
        }
    }

    /// Read a swarm's current lifecycle state from the store.
    pub fn status(&self, swarm_id: &str) -> (r: Result<Option<SwarmStatus>, SwarmEngineError>)
        ensures
            match r {
                Ok(status) => status == match self@.store.swarm(swarm_id@) {
                    Some(doc) => Some(doc.run.status),
                    None => None,
                },
                Err(e) => (e@ matches EngineErrorView::Store(s) && s.is_failure()
                    && !self.dependable()),
            },
    {
        match self.store.load_swarm(swarm_id) {
            Ok(Some(doc)) => Ok(Some(doc.run.status)),
            Ok(None) => Ok(None),
            Err(e) => Err(SwarmEngineError::Store(e)),
        }
    }
}

// ── Restart recovery ────────────────────────────────────────────────

/// `claims` are the claims that other boots took, ordered by swarm.
pub open spec fn foreign_claims(
    store: StoreView,
    boot_id: Seq<char>,
    claims: Seq<ClaimView>,
) -> bool {
    store::is_selection(store.claims, |c: ClaimView| c.boot_id != boot_id, claims)
}

/// `doc` parked because its driver died with the process.
pub open spec fn parked_doc(doc: PersistedSwarmView, now: Seq<char>) -> PersistedSwarmView {
    run::bumped(
        PersistedSwarmView {
            run: SwarmRunView {
                status: SwarmStatus::Paused { reason: SwarmPauseReason::DaemonRestart },
                ..doc.run
            },
            ..doc
        },
        now,
    )
}

/// The event that a recovered swarm leaves behind.
pub open spec fn recovered_event(id: Seq<char>, now: Seq<char>) -> EventView {
    run::event(
        id,
        "swarm_recovered"@,
        None,
        seq![run::text_field("reason"@, "daemon_restart"@)],
        now,
    )
}

/// The swarm was being driven.
pub open spec fn was_running(store: StoreView, id: Seq<char>) -> bool {
    store.swarm(id) matches Some(doc) && doc.run.status is Running
}

/// The store after the first `n` of the dead claims have been recovered.
pub open spec fn recovered(
    store: StoreView,
    claims: Seq<ClaimView>,
    n: int,
    now: Seq<char>,
) -> StoreView
    decreases n,
{
    if n <= 0 {
        store
    } else {
        let before = recovered(store, claims, n - 1, now);
        let claim = claims[n - 1];
        (if was_running(before, claim.swarm_id) {
            before.saved(parked_doc(before.swarms[claim.swarm_id], now)).appended(
                recovered_event(claim.swarm_id, now),
            )
        } else {
            before
        }).released(claim)
    }
}

/// The swarms among the first `n` dead claims that were parked.
pub open spec fn recovered_ids(
    store: StoreView,
    claims: Seq<ClaimView>,
    n: int,
    now: Seq<char>,
) -> Seq<Seq<char>>
    decreases n,
{
    if n <= 0 {
        Seq::empty()
    } else {
        let earlier = recovered_ids(store, claims, n - 1, now);
        let id = claims[n - 1].swarm_id;
        if was_running(recovered(store, claims, n - 1, now), id) {
            earlier.push(id)
        } else {
            earlier
        }
    }
}

/// `after` is the store while the recovery of a dead claim is under way.
pub open spec fn under_way(
    store: StoreView,
    claim: ClaimView,
    now: Seq<char>,
    after: StoreView,
) -> bool {
    let parked = store.saved(parked_doc(store.swarms[claim.swarm_id], now));
    ||| after == store
    ||| was_running(store, claim.swarm_id) && (after == parked || after == parked.appended(
        recovered_event(claim.swarm_id, now),
    ))
}

impl<C> EngineView<C> {
    /// `after` is this engine once its recovery at `now` was broken off by its store:
    /// some dead claims are recovered, and the next one may be under way.
    pub open spec fn recovery_broke_off(self, now: Seq<char>, after: EngineView<C>) -> bool {
        ||| after == self
        ||| exists|claims: Seq<ClaimView>, n: int|
            foreign_claims(self.store, self.boot_id, claims) && 0 <= n < claims.len() && after
                == self.storing(after.store) && #[trigger] under_way(
                recovered(self.store, claims, n, now),
                claims[n],
                now,
                after.store,
            )
    }
}

/// Every document is filed under its own id and can still be revised.
pub open spec fn roomy(store: StoreView) -> bool {
    forall|id: Seq<char>| #[trigger]
        store.swarms.contains_key(id) ==> store.swarms[id].spec.id == id
            && store.swarms[id].revision < u64::MAX
}

impl<S: SwarmStore, C> SwarmEngine<S, C> {
    /// Restart recovery: frees every claim that another boot took, and parks each
    /// swarm that was `Running` under one. Resumable, but never resumed by itself:
    /// spend only advances again on a deliberate `resume`. Run once at boot.
    pub fn recover(&mut self) -> (r: Result<Vec<String>, SwarmEngineError>)
        ensures
            final(self).dependable() == old(self).dependable(),
            r matches Ok(ids) ==> exists|claims: Seq<ClaimView>, now: Seq<char>|
                foreign_claims(old(self)@.store, old(self)@.boot_id, claims) && final(self)@
                    == old(self)@.storing(
                    #[trigger] recovered(old(self)@.store, claims, claims.len() as int, now),
                ) && text::views(ids@) == recovered_ids(
                    old(self)@.store,
                    claims,
                    claims.len() as int,
                    now,
                ),
            r matches Err(e) ==> e@ is Store && (old(self).dependable() && roomy(old(self)@.store)
                ==> exists|claims: Seq<ClaimView>|
                #[trigger] foreign_claims(old(self)@.store, old(self)@.boot_id, claims)
                    && old(self)@.store.seq + claims.len() > u64::MAX),
            r is Err ==> exists|now: Seq<char>| #[trigger]
                old(self)@.recovery_broke_off(now, final(self)@),
    {
        let now = Timestamp::now().to_rfc3339();
        let r = self.recover_at(now.as_str());
        proof {
            if r is Ok {
                let claims = choose|claims: Seq<ClaimView>|
                    #[trigger] foreign_claims(old(self)@.store, old(self)@.boot_id, claims)
                        && self@ == old(self)@.storing(
                        recovered(old(self)@.store, claims, claims.len() as int, now@),
                    ) && text::views(r->Ok_0@) == recovered_ids(
                        old(self)@.store,
                        claims,
                        claims.len() as int,
                        now@,
                    );
                assert(self@ == old(self)@.storing(
                    recovered(old(self)@.store, claims, claims.len() as int, now@),
                ));
            }
        }
        r
    }

    /// Restart recovery as of an explicit clock.
    pub fn recover_at(&mut self, now_iso: &str) -> (r: Result<Vec<String>, SwarmEngineError>)
        ensures
            final(self).dependable() == old(self).dependable(),
            r matches Ok(ids) ==> exists|claims: Seq<ClaimView>|
                #[trigger] foreign_claims(old(self)@.store, old(self)@.boot_id, claims)
                    && final(self)@ == old(self)@.storing(
                    recovered(old(self)@.store, claims, claims.len() as int, now_iso@),
                ) && text::views(ids@) == recovered_ids(
                    old(self)@.store,
                    claims,
                    claims.len() as int,
                    now_iso@,
                ),
            r matches Err(e) ==> e@ is Store && (old(self).dependable() && roomy(old(self)@.store)
                ==> exists|claims: Seq<ClaimView>|
                #[trigger] foreign_claims(old(self)@.store, old(self)@.boot_id, claims)
                    && old(self)@.store.seq + claims.len() > u64::MAX),
            r is Err ==> old(self)@.recovery_broke_off(now_iso@, final(self)@),
    {
        let dead = match self.store.claims_not_held_by_boot(self.boot_id.as_str()) {
            Ok(dead) => dead,
            Err(e) => {
                return Err(SwarmEngineError::Store(e));
            },
        };
        let ghost before = self@.store;
        let ghost claims = text::views(dead@);
        let ghost boot = self@.boot_id;
        let ghost now = now_iso@;
        let mut ids: Vec<String> = Vec::new();
        assert(text::views(ids@) =~= Seq::<Seq<char>>::empty());
        proof {
            assert(foreign_claims(before, boot, claims));
        }
        let mut i: usize = 0;
        while i < dead.len()
            invariant
                i <= dead.len(),
                claims == text::views(dead@),
                now == now_iso@,
                before == old(self)@.store,
                boot == old(self)@.boot_id,
                foreign_claims(before, boot, claims),
                self.dependable() == old(self).dependable(),
                self@ == old(self)@.storing(recovered(before, claims, i as int, now)),
                text::views(ids@) == recovered_ids(before, claims, i as int, now),
            decreases dead.len() - i,
        {
            let claim = &dead[i];
            let ghost current = recovered(before, claims, i as int, now);
            assert(claim@ == claims[i as int]);
            proof {
                if roomy(before) {
                    recovery_leaves_room(before, boot, claims, i as int, now);
                }
            }
            let stored = match self.store.load_swarm(claim.swarm_id.as_str()) {
                Ok(stored) => stored,
                Err(e) => {
                    assert(under_way(current, claims[i as int], now, self@.store));
                    return Err(SwarmEngineError::Store(e));
                },
            };
            if let Some(doc) = stored {
                let mut doc = doc;
                if matches!(doc.run.status, SwarmStatus::Running) {
                    doc.revision = doc.revision.saturating_add(1);
                    doc.updated_at = now_iso.to_owned();
                    doc.run.status = SwarmStatus::Paused { reason: SwarmPauseReason::DaemonRestart };
                    assert(doc@ == parked_doc(current.swarms[claim@.swarm_id], now));
                    if let Err(e) = self.store.save_swarm(&doc) {
                        assert(under_way(current, claims[i as int], now, self@.store));
                        return Err(SwarmEngineError::Store(e));
                    }
                    let record = recovered_record(claim.swarm_id.as_str(), now_iso);
                    if let Err(e) = self.store.append_event(&record) {
                        assert(under_way(current, claims[i as int], now, self@.store));
                        return Err(SwarmEngineError::Store(e));
                    }
                    ids.push(claim.swarm_id.clone());
                    assert(text::views(ids@) =~= recovered_ids(
                        before,
                        claims,
                        i as int,
                        now,
                    ).push(claims[i as int].swarm_id));
                }
            }
            // Free the dead driver's claim so a deliberate resume can take it.
            if let Err(e) = self.store.release_claim(claim) {
                assert(under_way(current, claims[i as int], now, self@.store));
                return Err(SwarmEngineError::Store(e));
            }
            i += 1;
        }
        Ok(ids)
    }
}

fn recovered_record(swarm_id: &str, now: &str) -> (r: SwarmEventRecord)
    ensures
        r@ == recovered_event(swarm_id@, now@),
{
    let mut payload: Vec<PayloadField> = Vec::new();
    payload.push(
        PayloadField {
            name: "reason".to_owned(),
            value: PayloadValue::Text("daemon_restart".to_owned()),
        },
    );
    assert(text::views(payload@) =~= seq![run::text_field("reason"@, "daemon_restart"@)]);
    SwarmEventRecord {
        swarm_id: swarm_id.to_owned(),
        seq: 0,
        ts: now.to_owned(),
        kind: "swarm_recovered".to_owned(),
        box_id: None,
        payload,
    }
}

proof fn foreign_claims_differ(store: StoreView, boot_id: Seq<char>, claims: Seq<ClaimView>)
    requires
        foreign_claims(store, boot_id, claims),
    ensures
        forall|i: int, j: int|
            0 <= i < j < claims.len() ==> (#[trigger] claims[i]).swarm_id != (
            #[trigger] claims[j]).swarm_id,
        forall|i: int|
            0 <= i < claims.len() ==> store.claims.contains_key((#[trigger] claims[i]).swarm_id)
                && store.claims[claims[i].swarm_id] == claims[i] && claims[i].boot_id != boot_id,
{
    let ids = Seq::new(claims.len(), |i: int| claims[i].swarm_id);
    assert forall|i: int, j: int| 0 <= i < j < claims.len() implies (#[trigger] claims[i]).swarm_id
        != (#[trigger] claims[j]).swarm_id by {
        assert(text::text_lt(ids[i], ids[j]));
        text::text_lt_irreflexive(ids[i]);
    }
    assert forall|i: int| 0 <= i < claims.len() implies store.claims.contains_key(
        (#[trigger] claims[i]).swarm_id,
    ) && store.claims[claims[i].swarm_id] == claims[i] && claims[i].boot_id != boot_id by {
        assert(claims.contains(claims[i]));
    }
}

/// One of the first `n` claims is on the swarm.
spec fn dead_among(claims: Seq<ClaimView>, n: int, id: Seq<char>) -> bool {
    exists|j: int| 0 <= j < n && (#[trigger] claims[j]).swarm_id == id
}

/// What recovery has done to documents and claims after `n` of the dead claims.
proof fn recovery_so_far(
    store: StoreView,
    boot_id: Seq<char>,
    claims: Seq<ClaimView>,
    n: int,
    now: Seq<char>,
)
    requires
        foreign_claims(store, boot_id, claims),
        forall|id: Seq<char>| #[trigger]
            store.swarms.contains_key(id) ==> store.swarms[id].spec.id == id,
        0 <= n <= claims.len(),
    ensures
        ({
            let after = recovered(store, claims, n, now);
            &&& forall|id: Seq<char>| #[trigger]
                after.claims.contains_key(id) <==> store.claims.contains_key(id) && !dead_among(
                    claims,
                    n,
                    id,
                )
            &&& forall|id: Seq<char>| #[trigger]
                after.claims.contains_key(id) ==> after.claims[id] == store.claims[id]
            &&& forall|id: Seq<char>| #[trigger]
                after.swarms.contains_key(id) <==> store.swarms.contains_key(id)
            &&& forall|id: Seq<char>| #[trigger]
                after.swarms.contains_key(id) ==> after.swarms[id] == if was_running(store, id)
                    && dead_among(claims, n, id) {
                    parked_doc(store.swarms[id], now)
                } else {
                    store.swarms[id]
                }
            &&& store.seq <= after.seq <= store.seq + n || store.seq + n > u64::MAX
        }),
    decreases n,
{
    foreign_claims_differ(store, boot_id, claims);
    if n > 0 {
        recovery_so_far(store, boot_id, claims, n - 1, now);
        let before = recovered(store, claims, n - 1, now);
        let after = recovered(store, claims, n, now);
        let claim = claims[n - 1];
        let id = claim.swarm_id;
        assert(before.claims.contains_key(id));
        assert(before.claims[id] == claim);
        assert(after.claims == before.claims.remove(id));
        if before.swarms.contains_key(id) {
            assert(before.swarms[id] == store.swarms[id]);
        }
        assert forall|x: Seq<char>| #[trigger]
            dead_among(claims, n, x) == (x == id || dead_among(claims, n - 1, x)) by {
            if x == id {
                assert(claims[n - 1].swarm_id == x);
            }
            if dead_among(claims, n - 1, x) {
                let j = choose|j: int| 0 <= j < n - 1 && (#[trigger] claims[j]).swarm_id == x;
                assert(claims[j].swarm_id == x);
            }
        }
        assert(!dead_among(claims, n - 1, id));
    }
}

proof fn recovery_leaves_room(
    store: StoreView,
    boot_id: Seq<char>,
    claims: Seq<ClaimView>,
    n: int,
    now: Seq<char>,
)
    requires
        foreign_claims(store, boot_id, claims),
        roomy(store),
        0 <= n < claims.len(),
    ensures
        ({
            let current = recovered(store, claims, n, now);
            let id = claims[n].swarm_id;
            &&& current.swarms.contains_key(id) ==> store::revision_refusal(
                current.swarm(id),
                parked_doc(current.swarms[id], now),
            ) is None && current.swarms[id].spec.id == id
            &&& store.seq + claims.len() <= u64::MAX ==> current.seq < u64::MAX
        }),
{
    recovery_so_far(store, boot_id, claims, n, now);
    foreign_claims_differ(store, boot_id, claims);
}

// ── Laws ────────────────────────────────────────────────────────────

/// Recovery frees every claim of a dead boot, whatever its lease or its swarm's
/// status, and no claim of this one.
pub proof fn recovery_frees_foreign_claims(
    store: StoreView,
    boot_id: Seq<char>,
    claims: Seq<ClaimView>,
    now: Seq<char>,
    id: Seq<char>,
)
    requires
        foreign_claims(store, boot_id, claims),
        store.keyed(),
    ensures
        ({
            let after = recovered(store, claims, claims.len() as int, now);
            after.claims.contains_key(id) <==> store.claims.contains_key(id)
                && store.claims[id].boot_id == boot_id
        }),
{
    recovery_so_far(store, boot_id, claims, claims.len() as int, now);
    foreign_claims_differ(store, boot_id, claims);
    if store.claims.contains_key(id) && store.claims[id].boot_id != boot_id {
        let c = store.claims[id];
        assert(claims.contains(c));
        let j = choose|j: int| 0 <= j < claims.len() && claims[j] == c;
        assert(claims[j].swarm_id == id);
    }
}

/// Recovery resumes nothing and spends nothing: a swarm that ran under a dead boot
/// is parked for the restart, and every other swarm keeps its status.
pub proof fn recovery_never_resumes(
    store: StoreView,
    boot_id: Seq<char>,
    claims: Seq<ClaimView>,
    now: Seq<char>,
    id: Seq<char>,
)
    requires
        foreign_claims(store, boot_id, claims),
        store.keyed(),
        store.swarms.contains_key(id),
    ensures
        ({
            let after = recovered(store, claims, claims.len() as int, now);
            &&& after.swarms.contains_key(id)
            &&& after.swarms[id].run.spent == store.swarms[id].run.spent
            &&& after.swarms[id].run.sessions == store.swarms[id].run.sessions
            &&& after.swarms[id].spec == store.swarms[id].spec
            &&& after.swarms[id].created_at == store.swarms[id].created_at
            &&& after.swarms[id].run.status == if store.swarms[id].run.status
                == SwarmStatus::Running && store.claims.contains_key(id)
                && store.claims[id].boot_id != boot_id {
                SwarmStatus::Paused { reason: SwarmPauseReason::DaemonRestart }
            } else {
                store.swarms[id].run.status
            }
        }),
{
    recovery_so_far(store, boot_id, claims, claims.len() as int, now);
    assert(recovered(store, claims, claims.len() as int, now).swarms.contains_key(id));
    foreign_claims_differ(store, boot_id, claims);
    if store.claims.contains_key(id) && store.claims[id].boot_id != boot_id {
        let c = store.claims[id];
        assert(claims.contains(c));
        let j = choose|j: int| 0 <= j < claims.len() && claims[j] == c;
        assert(claims[j].swarm_id == id);
    } else if dead_among(claims, claims.len() as int, id) {
        let j = choose|j: int| 0 <= j < claims.len() && (#[trigger] claims[j]).swarm_id == id;
        assert(store.claims[id] == claims[j]);
    }
}

/// A swarm that was brought up is held by its run's claim, so no other driver can
/// claim it.
pub proof fn a_live_run_holds_its_swarm<C>(
    engine: EngineView<C>,
    id: Seq<char>,
    prep: PreparationView<C>,
    now: Seq<char>,
    after: EngineView<C>,
)
    requires
        engine.built(id, prep, now, after),
    ensures
        after.store.holds(after.runs[id].claim),
        after.runs[id].claim.swarm_id == id,
        !after.store.claimable(id),
{
}

/// A resumed run keeps the sessions that its boxes had, so that they take up where
/// they left off.
pub proof fn a_resume_rehydrates_sessions<C>(
    engine: EngineView<C>,
    id: Seq<char>,
    prep: PreparationView<C>,
    now: Seq<char>,
    after: EngineView<C>,
    box_id: Seq<char>,
)
    requires
        engine.built(id, prep, now, after),
        engine.store.swarms[id].run.sessions.contains_key(box_id),
    ensures
        after.runs[id].doc.run.sessions.contains_key(box_id),
        after.runs[id].doc.run.sessions[box_id]
            == engine.store.swarms[id].run.sessions[box_id],
        after.runs[id].doc.run.spent == engine.store.swarms[id].run.spent,
{
}

/// While a user holds a box nothing is delegated to it and nothing is spent on it;
/// every other box is as available as it was.
pub proof fn a_held_box_is_left_alone<C>(
    engine: EngineView<C>,
    id: Seq<char>,
    box_id: Seq<char>,
    other: Seq<char>,
    spoke: int,
    at: int,
    subtask: Seq<char>,
    now: Seq<char>,
)
    requires
        engine.on_live_roster(id, box_id),
        at - spoke < run::ENGAGED_IDLE_SECS,
        other != box_id,
    ensures
        ({
            let held = engine.engaging(id, box_id, spoke);
            &&& held.turn_refusal(id, box_id, at) == Some(BoxTurnErrorView::UserEngaged(box_id))
            &&& held.delegated(id, box_id, subtask, at, now) == held
            &&& held.turn_refusal(id, other, at) == engine.turn_refusal(id, other, at)
        }),
{
    let held = engine.engaging(id, box_id, spoke);
    assert(held.delegated(id, box_id, subtask, at, now).runs =~= held.runs);
}

/// A box that is handed back, or whose user has been idle, is available again.
pub proof fn a_hold_ends<C>(
    engine: EngineView<C>,
    id: Seq<char>,
    box_id: Seq<char>,
    spoke: int,
    at: int,
)
    ensures
        !engine.disengaging(id, box_id).engaged(id, box_id, at),
        engine.on_live_roster(id, box_id) && at - spoke >= run::ENGAGED_IDLE_SECS
            ==> !engine.engaging(id, box_id, spoke).engaged(id, box_id, at),
{
}

/// A parked run has given its claim back, so the swarm can be resumed, whether its
/// driver parked it or it had none; and whether it was paused or its budget ran out.
pub proof fn a_parked_run_can_be_resumed<C>(
    engine: EngineView<C>,
    id: Seq<char>,
    exit: DriverExit,
    answers: ReapAnswers,
    box_id: Seq<char>,
    subtask: Seq<char>,
    at: int,
    now: Seq<char>,
)
    requires
        engine.sound(),
        engine.revisable(id),
        engine.runs.contains_key(id),
    ensures
        !engine.runs[id].driven ==> {
            let parked = engine.pausing(id, now);
            &&& parked.claim_refusal(id) is None
            &&& parked.store.swarms[id].run.status == (SwarmStatus::Paused {
                reason: SwarmPauseReason::UserRequested,
            })
            &&& !parked.runs.contains_key(id)
        },
        (exit is Paused || exit is BudgetExhausted) && engine.runs[id].doc.run.status is Paused ==> {
            let parked = engine.driver_exited(id, exit, answers, now);
            &&& parked.claim_refusal(id) is None
            &&& parked.store.swarms[id] == engine.runs[id].doc
            &&& !parked.runs.contains_key(id)
        },
        !engine.runs[id].driven && !engine.runs[id].settled() && (engine.turn_refusal(
            id,
            box_id,
            at,
        ) matches Some(BoxTurnErrorView::BudgetExhausted(_))) ==> {
            let parked = engine.delegated(id, box_id, subtask, at, now);
            &&& parked.claim_refusal(id) is None
            &&& parked.store.swarms[id].run.status == (SwarmStatus::Paused {
                reason: SwarmPauseReason::BudgetExhausted,
            })
            &&& !parked.runs.contains_key(id)
        },
{
}

// ── The turn budget of a swarm, across its runs ─────────────────────

impl<C> EngineView<C> {
    /// The turns of the swarm that are on record or under way: what its ceiling bounds.
    pub open spec fn turns_committed(self, id: Seq<char>) -> nat {
        (match self.store.swarm(id) {
            Some(doc) => doc.run.spent.turns as nat,
            None => 0,
        }) + self.turns_under_way(id) as nat
    }

    /// How many turns the swarm may take.
    pub open spec fn turn_ceiling(self, id: Seq<char>) -> nat {
        self.store.swarms[id].spec.budget.ceilings().max_turns as nat
    }

    /// The swarm is stored, and its turns are at most `past` turns past its ceiling.
    pub open spec fn within_turns(self, id: Seq<char>, past: nat) -> bool {
        &&& self.store.swarm(id) is Some
        &&& self.turns_committed(id) <= self.turn_ceiling(id) + past
    }
}

proof fn delegating_keeps_turns<C>(
    engine: EngineView<C>,
    id: Seq<char>,
    box_id: Seq<char>,
    subtask: Seq<char>,
    at: int,
    now: Seq<char>,
    past: nat,
)
    requires
        engine.sound(),
        engine.revisable(id),
        engine.within_turns(id, past),
    ensures
        engine.delegated(id, box_id, subtask, at, now).within_turns(id, past),
{
}

proof fn ending_turns_keeps_turns<C>(
    engine: EngineView<C>,
    id: Seq<char>,
    box_id: Seq<char>,
    spend: SwarmSpend,
    now: Seq<char>,
    past: nat,
)
    requires
        engine.sound(),
        engine.within_turns(id, past),
        engine.store.swarms[id].revision < u64::MAX,
        engine.turns_under_way(id) > 0,
        spend.turns == 1,
    ensures
        engine.turn_ended(id, box_id, spend, now).within_turns(id, past),
{
}

proof fn leaving_keeps_turns<C>(
    engine: EngineView<C>,
    id: Seq<char>,
    exit: DriverExit,
    answers: ReapAnswers,
    now: Seq<char>,
    past: nat,
)
    requires
        engine.sound(),
        engine.revisable(id),
        engine.within_turns(id, past),
    ensures
        engine.driver_exited(id, exit, answers, now).within_turns(id, past),
        engine.runs.contains_key(id) ==> engine.pausing(id, now).within_turns(id, past),
        engine.runs.contains_key(id) ==> engine.stopped(id, answers, now).within_turns(id, past),
{
}

proof fn coming_up_keeps_turns<C>(
    engine: EngineView<C>,
    id: Seq<char>,
    prep: PreparationView<C>,
    now: Seq<char>,
    up: EngineView<C>,
    past: nat,
)
    requires
        engine.sound(),
        engine.within_turns(id, past),
        engine.built(id, prep, now, up),
    ensures
        up.within_turns(id, past),
{
}

proof fn rounds_keep_turns<C>(
    engine: EngineView<C>,
    id: Seq<char>,
    outcome: RoundOutcome,
    now: Seq<char>,
    past: nat,
)
    requires
        engine.sound(),
        engine.revisable(id),
        engine.within_turns(id, past),
        outcome matches RoundOutcome::Turn { spend, .. } ==> spend.turns == 1,
    ensures
        engine.round_begun(id, now).within_turns(id, past),
        engine.runs.contains_key(id) && engine.runs[id].round_exit() is None
            ==> engine.turns_committed(id) < engine.turn_ceiling(id),
        engine.round_ended(id, outcome, now).within_turns(id, past + 1),
{
}

/// The turns of a swarm stay within its ceiling across its runs: admitting a box turn,
/// ending or giving one up, pausing, parking, stopping and coming up again all keep what
/// is on record and under way together within it, and turns that outlive their run are
/// counted by the next one. A planning round begins only below the ceiling and is counted
/// when it ends, so it is the one turn that can be past it.
pub proof fn turns_stay_within_the_budget<C>(
    engine: EngineView<C>,
    id: Seq<char>,
    box_id: Seq<char>,
    subtask: Seq<char>,
    spend: SwarmSpend,
    outcome: RoundOutcome,
    exit: DriverExit,
    answers: ReapAnswers,
    prep: PreparationView<C>,
    up: EngineView<C>,
    at: int,
    now: Seq<char>,
    past: nat,
)
    requires
        engine.sound(),
        engine.within_turns(id, past),
        engine.store.swarms[id].revision < u64::MAX,
        spend.turns == 1,
        outcome matches RoundOutcome::Turn { spend: planned, .. } ==> planned.turns == 1,
    ensures
        engine.delegated(id, box_id, subtask, at, now).within_turns(id, past),
        engine.turns_under_way(id) > 0 ==> engine.turn_ended(
            id,
            box_id,
            spend,
            now,
        ).within_turns(id, past),
        engine.turn_over(id).within_turns(id, past),
        engine.runs.contains_key(id) ==> engine.pausing(id, now).within_turns(id, past),
        engine.runs.contains_key(id) ==> engine.stopped(id, answers, now).within_turns(id, past),
        engine.driver_exited(id, exit, answers, now).within_turns(id, past),
        engine.built(id, prep, now, up) ==> up.within_turns(id, past),
        engine.round_begun(id, now).within_turns(id, past),
        engine.runs.contains_key(id) && engine.runs[id].round_exit() is None
            ==> engine.turns_committed(id) < engine.turn_ceiling(id),
        engine.round_ended(id, outcome, now).within_turns(id, past + 1),
{
    if engine.runs.contains_key(id) {
        assert(engine.in_step(id));
    }
    delegating_keeps_turns(engine, id, box_id, subtask, at, now, past);
    if engine.turns_under_way(id) > 0 {
        ending_turns_keeps_turns(engine, id, box_id, spend, now, past);
    }
    leaving_keeps_turns(engine, id, exit, answers, now, past);
    if engine.built(id, prep, now, up) {
        coming_up_keeps_turns(engine, id, prep, now, up, past);
    }
    rounds_keep_turns(engine, id, outcome, now, past);
}

/// A turn under way stays so until it ends or is given up: no pause, stop, exit of a
/// driver or new run changes how many there are.
pub proof fn turns_outlive_their_run<C>(
    engine: EngineView<C>,
    id: Seq<char>,
    box_id: Seq<char>,
    spend: SwarmSpend,
    exit: DriverExit,
    answers: ReapAnswers,
    prep: PreparationView<C>,
    up: EngineView<C>,
    now: Seq<char>,
)
    ensures
        engine.driver_exited(id, exit, answers, now).turns_under_way(id)
            == engine.turns_under_way(id),
        engine.runs.contains_key(id) ==> engine.pausing(id, now).turns_under_way(id)
            == engine.turns_under_way(id),
        engine.runs.contains_key(id) ==> engine.stopped(id, answers, now).turns_under_way(id)
            == engine.turns_under_way(id),
        engine.built(id, prep, now, up) ==> up.turns_under_way(id) == engine.turns_under_way(id)
            && up.runs[id].reserved == engine.turns_under_way(id),
        engine.turns_under_way(id) > 0 ==> engine.turn_over(id).turns_under_way(id)
            == engine.turns_under_way(id) - 1,
        engine.turns_under_way(id) > 0 ==> engine.turn_ended(
            id,
            box_id,
            spend,
            now,
        ).turns_under_way(id) == engine.turns_under_way(id) - 1,
{
}

/// A swarm that is resumed without a raised budget parks again: where what is on record
/// and under way leaves no room, the run that comes up plans nothing, delegates nothing
/// and spends nothing.
pub proof fn a_swarm_without_room_parks_again<C>(
    engine: EngineView<C>,
    id: Seq<char>,
    prep: PreparationView<C>,
    now: Seq<char>,
    up: EngineView<C>,
    box_id: Seq<char>,
    at: int,
)
    requires
        engine.built(id, prep, now, up),
        run::exhausted_axis(
            engine.store.swarms[id].run.spent,
            engine.turns_under_way(id),
            engine.store.swarms[id].spec.budget.ceilings(),
        ) is Some,
    ensures
        up.runs[id].round_exit() == Some(DriverExit::BudgetExhausted),
        up.turn_refusal(id, box_id, at) is Some,
        ({
            let parked = up.round_begun(id, now);
            &&& parked.runs[id].doc.run.status == (SwarmStatus::Paused {
                reason: SwarmPauseReason::BudgetExhausted,
            })
            &&& parked.runs[id].doc.run.spent == engine.store.swarms[id].run.spent
        }),
{
}

/// A stopped or completed swarm can never be driven again, its spend stays on record,
/// and nothing of it stays on the boards.
pub proof fn a_stopped_swarm_is_finished<C>(
    engine: EngineView<C>,
    id: Seq<char>,
    answers: ReapAnswers,
    now: Seq<char>,
)
    requires
        engine.sound(),
        engine.revisable(id),
        engine.runs.contains_key(id),
    ensures
        ({
            let stopped = engine.stopped(id, answers, now);
            &&& stopped.claim_refusal(id) == Some(EngineErrorView::Terminal(id))
            &&& stopped.store.swarms[id].run.spent == engine.runs[id].doc.run.spent
            &&& !stopped.runs.contains_key(id)
            &&& !stopped.board.boards.contains_key(id)
        }),
        ({
            let completed = engine.driver_exited(id, DriverExit::Completed, answers, now);
            &&& completed.claim_refusal(id) == Some(EngineErrorView::Terminal(id))
            &&& completed.store.swarms[id].run.spent == engine.runs[id].doc.run.spent
            &&& !completed.runs.contains_key(id)
            &&& !completed.board.boards.contains_key(id)
        }),
{
}

/// Whatever happens to a run, every live run stays in step with the store.
pub proof fn live_runs_stay_in_step<C>(
    engine: EngineView<C>,
    id: Seq<char>,
    box_id: Seq<char>,
    subtask: Seq<char>,
    spend: SwarmSpend,
    outcome: RoundOutcome,
    exit: DriverExit,
    answers: ReapAnswers,
    at: int,
    now: Seq<char>,
)
    requires
        engine.sound(),
        engine.revisable(id),
    ensures
        engine.delegated(id, box_id, subtask, at, now).sound(),
        engine.turn_ended(id, box_id, spend, now).sound(),
        engine.turn_over(id).sound(),
        engine.engaging(id, box_id, at).sound(),
        engine.disengaging(id, box_id).sound(),
        engine.round_begun(id, now).sound(),
        engine.round_ended(id, outcome, now).sound(),
        engine.driver_exited(id, exit, answers, now).sound(),
        engine.runs.contains_key(id) ==> engine.started(id, now).sound(),
        engine.runs.contains_key(id) ==> engine.resumed(id, now).sound(),
        engine.runs.contains_key(id) ==> engine.pausing(id, now).sound(),
        engine.runs.contains_key(id) ==> engine.stopped(id, answers, now).sound(),
{
}

/// A run comes up in step with the store.
pub proof fn a_run_comes_up_in_step<C>(
    engine: EngineView<C>,
    id: Seq<char>,
    prep: PreparationView<C>,
    now: Seq<char>,
    after: EngineView<C>,
)
    requires
        engine.sound(),
        engine.build_refusal(id, prep) is None,
        engine.built(id, prep, now, after),
    ensures
        after.sound(),
{
}

/// A heartbeat keeps live runs in step.
pub proof fn heartbeats_keep_runs_in_step<C>(
    engine: EngineView<C>,
    id: Seq<char>,
    store: StoreView,
)
    requires
        engine.sound(),
        engine.runs.contains_key(id),
        engine.store.renews(engine.runs[id].claim, store),
    ensures
        engine.storing(store).sound(),
{
}

/// Recovery touches no live run of this boot.
pub proof fn recovery_leaves_live_runs_alone<C>(
    engine: EngineView<C>,
    claims: Seq<ClaimView>,
    now: Seq<char>,
)
    requires
        engine.sound(),
        foreign_claims(engine.store, engine.boot_id, claims),
    ensures
        engine.storing(recovered(engine.store, claims, claims.len() as int, now)).sound(),
{
    let n = claims.len() as int;
    let after = recovered(engine.store, claims, n, now);
    recovery_so_far(engine.store, engine.boot_id, claims, n, now);
    foreign_claims_differ(engine.store, engine.boot_id, claims);
    assert forall|id: Seq<char>| #[trigger] engine.runs.contains_key(id) implies engine.storing(
        after,
    ).in_step(id) by {
        assert(engine.in_step(id));
        if dead_among(claims, n, id) {
            let j = choose|j: int| 0 <= j < n && (#[trigger] claims[j]).swarm_id == id;
            assert(engine.store.claims[id] == claims[j]);
        }
        assert(after.claims.contains_key(id));
        assert(after.swarms.contains_key(id));
    }
}

// ── Laws of what each operation comes to ────────────────────────────

/// A swarm can be claimed exactly where it is stored, has not finished and nobody holds
/// it; and a refusal says which of the three fails, about the swarm that was asked for.
pub proof fn refusals_of_a_claim<C>(engine: EngineView<C>, id: Seq<char>)
    ensures
        ({
            let stored = engine.store.swarms.contains_key(id);
            let status = engine.store.swarms[id].run.status;
            let finished = status == SwarmStatus::Stopped || status == SwarmStatus::Completed;
            let taken = engine.store.claims.contains_key(id);
            &&& engine.claim_refusal(id) is None <==> stored && !finished && !taken
            &&& !stored ==> engine.claim_refusal(id) == Some(EngineErrorView::NotFound(id))
            &&& stored && finished ==> engine.claim_refusal(id) == Some(
                EngineErrorView::Terminal(id),
            )
            &&& stored && !finished && taken ==> engine.claim_refusal(id) == Some(
                EngineErrorView::AlreadyClaimed(id),
            )
        }),
{
}

/// A swarm that is not refused comes up as it was authored and where it left off: it is
/// `Running` on the same spend and spec, one revision on, its boxes are those of its spec,
/// each with a session and a place on the board, and it is neither driven, paused nor
/// stopped yet. No other run, document or board is touched.
pub proof fn what_comes_up<C>(
    engine: EngineView<C>,
    id: Seq<char>,
    prep: PreparationView<C>,
    now: Seq<char>,
    up: EngineView<C>,
    other: Seq<char>,
    i: int,
)
    requires
        engine.built(id, prep, now, up),
        engine.sound(),
        engine.store.swarms.contains_key(id),
        other != id,
        0 <= i < engine.store.swarms[id].spec.boxes.len(),
    ensures
        ({
            let doc = engine.store.swarms[id];
            let run = up.runs[id];
            let shape = doc.spec.boxes[i];
            &&& up.runs.contains_key(id)
            &&& run.doc.run.status == SwarmStatus::Running
            &&& run.doc.run.spent == doc.run.spent
            &&& run.doc.spec == doc.spec
            &&& doc.revision < u64::MAX ==> run.doc.revision == doc.revision + 1
            &&& run.doc.updated_at == now
            &&& up.store.swarms[id] == run.doc
            &&& up.store.claims[id] == run.claim
            &&& run.claim.swarm_id == id
            &&& run.claim.boot_id == engine.boot_id
            &&& run.limits == doc.spec.budget.ceilings()
            &&& !run.driven && !run.pause && !run.cancelled
            &&& run.delegations == 0
            &&& run.roster.boxes.len() == doc.spec.boxes.len()
            &&& run.roster.boxes[i].box_id == shape.box_id
            &&& run.roster.boxes[i].role == shape.role
            &&& run.roster.boxes[i].job == shape.job
            &&& run.roster.boxes[i].slot == shape.slot
            &&& run.roster.boxes[i].alias == roster::SWARM_ALIAS_PREFIX@ + "/"@ + doc.spec.id
                + "/"@ + shape.box_id
            &&& run.roster.parent_alias == engine.parent_alias
            &&& run.doc.run.sessions.contains_key(shape.box_id)
            &&& i < prep.answers.len() ==> prep.answers[i].envelope == EnvelopeView::Built(
                run.roster.boxes[i].context,
            ) && prep.answers[i].identity == Ok::<Seq<char>, Seq<char>>(
                run.roster.boxes[i].agent_id,
            )
            &&& !engine.board.boards.contains_key(id) ==> {
                let board = up.board.boards[id];
                &&& board.boxes.contains_key(shape.box_id)
                &&& board.boxes[shape.box_id].status == BoxStatus::Idle
                &&& board.boxes[shape.box_id].note.len() == 0
                &&& board.boxes[shape.box_id].claim is None
                &&& board.claims.dom() == Set::<Seq<char>>::empty()
            }
            &&& engine.board.boards.contains_key(id) ==> up.board == engine.board
            &&& up.runs.contains_key(other) == engine.runs.contains_key(other)
            &&& up.runs[other] == engine.runs[other]
            &&& up.store.swarm(other) == engine.store.swarm(other)
            &&& up.board.boards[other] == engine.board.boards[other]
            &&& up.store.events == engine.store.events
        }),
{
    let run = up.runs[id];
    assert(run.roster.boxes[i] == run.roster.boxes[i]);
    let ids = run.roster.ids();
    assert(ids[i] == run.roster.boxes[i].box_id);
    assert(ids.contains(ids[i]));
    assert(run.doc.run.sessions.contains_key(ids[i]));
}

/// Nothing goes live under a refusal: where the roster, the memory or the board cannot be
/// had the swarm is refused, and with an unclaimed swarm, an honest backend, a roster that
/// can be built and room on the boards it is not.
pub proof fn what_refuses_a_swarm<C>(
    engine: EngineView<C>,
    id: Seq<char>,
    prep: PreparationView<C>,
)
    requires
        engine.claim_refusal(id) is None,
    ensures
        ({
            let spec = engine.store.swarms[id].spec;
            let roster = roster::build_refusal(
                spec,
                engine.parent_alias,
                prep.agents,
                prep.parent,
                prep.answers,
            );
            let room = engine.board.boards.contains_key(id) || engine.board.boards.len()
                < crate::board::MAX_BOARDS;
            &&& engine.build_refusal(id, prep) is None <==> roster is None && prep.honors_allowlist
                && room
            &&& roster is Some ==> engine.build_refusal(id, prep) == Some(
                EngineErrorView::Roster(roster->0.text()),
            )
            &&& roster is None && !prep.honors_allowlist ==> engine.build_refusal(id, prep)
                is Some && engine.build_refusal(id, prep)->0 is Roster
            &&& roster is None && prep.honors_allowlist && !room ==> engine.build_refusal(
                id,
                prep,
            ) is Some && engine.build_refusal(id, prep)->0 is Board
        }),
{
}

/// Starting puts a driver on the run and leaves a row in the log; resuming leaves one
/// more. Neither touches the document, the boards or another run.
pub proof fn starts_and_resumptions_are_logged<C>(
    engine: EngineView<C>,
    id: Seq<char>,
    now: Seq<char>,
    other: Seq<char>,
)
    requires
        engine.runs.contains_key(id),
        engine.runs[id].id() == id,
        engine.store.seq < u64::MAX,
        other != id,
    ensures
        ({
            let after = engine.started(id, now);
            let row = after.store.history(id).last();
            &&& after.runs[id] == RunView { driven: true, ..engine.runs[id] }
            &&& after.parent_alias == engine.parent_alias && after.boot_id == engine.boot_id
            &&& after.lingering == engine.lingering
            &&& after.runs[other] == engine.runs[other]
            &&& after.runs.contains_key(other) == engine.runs.contains_key(other)
            &&& after.board == engine.board
            &&& after.store.swarms == engine.store.swarms
            &&& after.store.claims == engine.store.claims
            &&& row.kind == "swarm_started"@ && row.swarm_id == id && row.ts == now
        }),
        ({
            let after = engine.resumed(id, now);
            let row = after.store.history(id).last();
            &&& after.runs == engine.runs && after.lingering == engine.lingering
            &&& after.parent_alias == engine.parent_alias && after.boot_id == engine.boot_id
            &&& after.board == engine.board
            &&& after.store.swarms == engine.store.swarms
            &&& after.store.claims == engine.store.claims
            &&& row.kind == "swarm_resumed"@ && row.swarm_id == id && row.ts == now
        }),
{
}

/// A box that is delegated to shows it: on its swarm's board it is working, and its note
/// is the subtask, cut to two hundred characters. Only that box shows anything new, and
/// no other run is touched.
pub proof fn a_delegation_shows_on_the_board<C>(
    engine: EngineView<C>,
    id: Seq<char>,
    box_id: Seq<char>,
    subtask: Seq<char>,
    at: int,
    now: Seq<char>,
    sibling: Seq<char>,
    other: Seq<char>,
)
    requires
        engine.runs.contains_key(id),
        engine.runs[id].id() == id,
        engine.turn_refusal(id, box_id, at) is None,
        engine.board.boards.contains_key(id),
        engine.board.boards[id].boxes.contains_key(box_id),
        sibling != box_id,
        other != id,
    ensures
        ({
            let after = engine.delegated(id, box_id, subtask, at, now);
            let shown = after.board.boards[id].boxes[box_id];
            let note = if subtask.len() <= 200 {
                subtask
            } else {
                subtask.take(200).push('…')
            };
            &&& text::byte_len(note) <= crate::board::MAX_NOTE_LEN ==> shown.status
                == BoxStatus::Working && shown.note == note
            &&& shown.claim == engine.board.boards[id].boxes[box_id].claim
            &&& after.board.boards[id].boxes[sibling] == engine.board.boards[id].boxes[sibling]
            &&& after.board.boards[id].claims == engine.board.boards[id].claims
            &&& after.board.boards[other] == engine.board.boards[other]
            &&& after.runs.contains_key(id)
            &&& after.runs[id].reserved == engine.runs[id].reserved + 1
            &&& after.runs[other] == engine.runs[other]
            &&& after.store == engine.store
        }),
{
}

/// A turn is refused where no run is live, and otherwise exactly where the run refuses it.
pub proof fn only_a_live_run_takes_turns<C>(
    engine: EngineView<C>,
    id: Seq<char>,
    box_id: Seq<char>,
    at: int,
)
    ensures
        !engine.runs.contains_key(id) ==> engine.turn_refusal(id, box_id, at) == Some(
            BoxTurnErrorView::NotRunning(id),
        ),
        engine.runs.contains_key(id) ==> engine.turn_refusal(id, box_id, at)
            == engine.runs[id].delegation_refusal(box_id, at),
{
}

/// A turn that ends is charged to its swarm, live run or not, and logged: the stored
/// document has the sum of what it had and what the turn spent, and keeps its status, its
/// spec and its sessions. No other swarm, no board and no claim is touched.
pub proof fn a_finished_turn_is_charged_to_its_swarm<C>(
    engine: EngineView<C>,
    id: Seq<char>,
    box_id: Seq<char>,
    spend: SwarmSpend,
    now: Seq<char>,
    other: Seq<char>,
)
    requires
        engine.sound(),
        engine.store.swarms.contains_key(id),
        engine.store.swarms[id].revision < u64::MAX,
        engine.store.seq < u64::MAX,
        engine.store.swarms[id].run.spent.turns + spend.turns <= u32::MAX,
        engine.store.swarms[id].run.spent.tokens + spend.tokens <= u64::MAX,
        engine.store.swarms[id].run.spent.cost_usd.micros + spend.cost_usd.micros <= u64::MAX,
        other != id,
    ensures
        ({
            let before = engine.store.swarms[id];
            let after = engine.turn_ended(id, box_id, spend, now);
            let doc = after.store.swarms[id];
            let row = after.store.history(id).last();
            &&& doc.run.spent.turns == before.run.spent.turns + spend.turns
            &&& doc.run.spent.tokens == before.run.spent.tokens + spend.tokens
            &&& doc.run.spent.cost_usd.micros == before.run.spent.cost_usd.micros
                + spend.cost_usd.micros
            &&& doc.run.status == before.run.status
            &&& doc.run.sessions == before.run.sessions
            &&& doc.spec == before.spec
            &&& doc.revision == before.revision + 1
            &&& doc.updated_at == now
            &&& engine.runs.contains_key(id) ==> after.runs[id].doc == doc
            &&& row.kind == "box_delegated"@ && row.box_id == Some(box_id) && row.swarm_id == id
            &&& after.store.history(id).len() == engine.store.history(id).len() + 1
            &&& engine.turns_under_way(id) > 0 ==> after.turns_under_way(id)
                == engine.turns_under_way(id) - 1
            &&& after.turns_under_way(other) == engine.turns_under_way(other)
            &&& after.store.swarm(other) == engine.store.swarm(other)
            &&& after.store.claims == engine.store.claims
            &&& after.board == engine.board
            &&& after.runs.contains_key(other) == engine.runs.contains_key(other)
            &&& after.runs[other] == engine.runs[other]
        }),
{
    if engine.runs.contains_key(id) {
        assert(engine.in_step(id));
    }
}

/// A planning turn is charged like any other; one that could not run costs nothing. A
/// failure is logged with what it said.
pub proof fn a_planning_turn_is_charged<C>(
    engine: EngineView<C>,
    id: Seq<char>,
    spend: SwarmSpend,
    result: Result<String, String>,
    error: String,
    now: Seq<char>,
)
    requires
        engine.sound(),
        engine.runs.contains_key(id),
        engine.runs[id].doc.revision < u64::MAX,
        engine.store.seq < u64::MAX,
        engine.runs[id].doc.run.spent.turns + spend.turns <= u32::MAX,
        engine.runs[id].doc.run.spent.tokens + spend.tokens <= u64::MAX,
        engine.runs[id].doc.run.spent.cost_usd.micros + spend.cost_usd.micros <= u64::MAX,
    ensures
        ({
            let before = engine.runs[id].doc.run.spent;
            let after = engine.round_ended(id, RoundOutcome::Turn { spend, result }, now);
            let spent = after.store.swarms[id].run.spent;
            &&& spent.turns == before.turns + spend.turns
            &&& spent.tokens == before.tokens + spend.tokens
            &&& spent.cost_usd.micros == before.cost_usd.micros + spend.cost_usd.micros
            &&& after.runs[id].doc == after.store.swarms[id]
            &&& after.runs[id].delegations == engine.runs[id].delegations
            &&& after.runs[id] == RunView { doc: after.runs[id].doc, ..engine.runs[id] }
            &&& after.runs[id].doc.spec == engine.runs[id].doc.spec
            &&& after.runs[id].doc.run.status == engine.runs[id].doc.run.status
            &&& after.runs[id].doc.run.sessions == engine.runs[id].doc.run.sessions
            &&& after.runs.remove(id) == engine.runs.remove(id)
            &&& after.store.claims == engine.store.claims
            &&& after == EngineView { store: after.store, runs: after.runs, ..engine }
            &&& after.board == engine.board
            &&& result is Ok ==> after.store.events == engine.store.events
            &&& result matches Err(e) ==> {
                let row = after.store.history(id).last();
                &&& row.kind == "orchestrator_error"@
                &&& row.payload[0].value == crate::store::model::PayloadValueView::Text(e@)
            }
        }),
        ({
            let after = engine.round_ended(id, RoundOutcome::NoAgent(error), now);
            let row = after.store.history(id).last();
            &&& after == EngineView { store: after.store, ..engine }
            &&& after.runs == engine.runs
            &&& after.store.swarms == engine.store.swarms
            &&& after.store.claims == engine.store.claims
            &&& row.kind == "orchestrator_error"@
            &&& row.payload[0].value == crate::store::model::PayloadValueView::Text(error@)
        }),
{
    assert(engine.in_step(id));
}

/// A hold is on one box of one live run, from when the user spoke: nothing else moves, and
/// handing the box back undoes it.
pub proof fn a_hold_is_on_one_box<C>(
    engine: EngineView<C>,
    id: Seq<char>,
    box_id: Seq<char>,
    at: int,
    sibling: Seq<char>,
    other: Seq<char>,
)
    requires
        sibling != box_id,
        other != id,
    ensures
        ({
            let after = engine.engaging(id, box_id, at);
            let known = engine.runs.contains_key(id)
                && engine.runs[id].roster.ids().contains(box_id);
            &&& !known ==> after == engine
            &&& known ==> {
                &&& after.runs[id].engaged.contains_key(box_id)
                &&& after.runs[id].engaged[box_id] == at
                &&& after.runs[id].engaged.contains_key(sibling)
                    == engine.runs[id].engaged.contains_key(sibling)
                &&& after.runs[id].engaged[sibling] == engine.runs[id].engaged[sibling]
                &&& after.runs[id].doc == engine.runs[id].doc
                &&& after.runs[id].reserved == engine.runs[id].reserved
                &&& after.runs[id].delegations == engine.runs[id].delegations
            }
            &&& after.runs[other] == engine.runs[other]
            &&& after.store == engine.store && after.board == engine.board
        }),
        ({
            let after = engine.disengaging(id, box_id);
            &&& engine.runs.contains_key(id) ==> {
                &&& !after.runs[id].engaged.contains_key(box_id)
                &&& after.runs[id].engaged.contains_key(sibling)
                    == engine.runs[id].engaged.contains_key(sibling)
                &&& after.runs[id].doc == engine.runs[id].doc
                &&& after.runs[id].reserved == engine.runs[id].reserved
            }
            &&& after.runs[other] == engine.runs[other]
            &&& after.store == engine.store && after.board == engine.board
        }),
{
}

/// A pause is carried out at once where nobody drives the run, and otherwise only asked
/// for: the run goes on until its round is done. Nothing is spent either way, and the
/// boards stay.
pub proof fn what_a_pause_does<C>(engine: EngineView<C>, id: Seq<char>, now: Seq<char>)
    requires
        engine.sound(),
        engine.runs.contains_key(id),
        engine.runs[id].doc.revision < u64::MAX,
        engine.store.seq < u64::MAX,
    ensures
        ({
            let run = engine.runs[id];
            let after = engine.pausing(id, now);
            &&& after.board == engine.board
            &&& after.store.swarms[id].run.spent == run.doc.run.spent
            &&& run.driven ==> {
                &&& after.runs[id].pause
                &&& after.runs[id].doc == run.doc
                &&& after.runs[id].driven
                &&& after.runs[id] == RunView { pause: true, ..run }
                &&& after.lingering == engine.lingering
                &&& after.store == engine.store
            }
            &&& after.runs.remove(id) == engine.runs.remove(id)
            &&& after.parent_alias == engine.parent_alias && after.boot_id == engine.boot_id
            &&& !run.driven ==> {
                &&& !after.runs.contains_key(id)
                &&& after.store.swarms[id].run.sessions == run.doc.run.sessions
                &&& after.store.swarms[id].spec == run.doc.spec
                &&& after.store.swarms[id].run.status == (SwarmStatus::Paused {
                    reason: SwarmPauseReason::UserRequested,
                })
                &&& !after.store.claims.contains_key(id)
                &&& after.store.history(id).last().kind == "swarm_paused"@
            }
        }),
{
    assert(engine.in_step(id));
}

/// What a stop, and the exit of a driver, come to: a stopped swarm is `Stopped` and a
/// finished one `Completed`, their boards are gone and the log says whether the reap was
/// clean; a parked one keeps its status and its board. Each has given its claim back. A
/// driver that was cancelled leaves everything to the stop.
pub proof fn how_a_run_ends<C>(
    engine: EngineView<C>,
    id: Seq<char>,
    answers: ReapAnswers,
    now: Seq<char>,
    other: Seq<char>,
)
    requires
        engine.sound(),
        engine.runs.contains_key(id),
        engine.runs[id].doc.revision < u64::MAX,
        engine.store.seq < u64::MAX - 2,
        other != id,
    ensures
        ({
            let after = engine.stopped(id, answers, now);
            let row = after.store.history(id).last();
            &&& after.store.swarms[id].run.status == SwarmStatus::Stopped
            &&& after.store.swarms[id].run.spent == engine.runs[id].doc.run.spent
            &&& after.store.swarms[id].run.sessions == engine.runs[id].doc.run.sessions
            &&& after.store.swarms[id].spec == engine.runs[id].doc.spec
            &&& after.runs == engine.runs.remove(id)
            &&& !after.store.claims.contains_key(id)
            &&& !after.board.boards.contains_key(id)
            &&& after.board.boards[other] == engine.board.boards[other]
            &&& after.store.swarm(other) == engine.store.swarm(other)
            &&& after.runs[other] == engine.runs[other]
            &&& row.kind == "swarm_stopped"@
            &&& row.payload[0].name == "clean"@
            &&& row.payload[0].value == crate::store::model::PayloadValueView::Flag(
                reap::reap_warnings(engine.runs[id].roster, answers).len() == 0,
            )
        }),
        ({
            let after = engine.driver_exited(id, DriverExit::Completed, answers, now);
            let rows = after.store.history(id);
            &&& after.store.swarms[id].run.status == SwarmStatus::Completed
            &&& after.store.swarms[id].run.spent == engine.runs[id].doc.run.spent
            &&& after.store.swarms[id].run.sessions == engine.runs[id].doc.run.sessions
            &&& after.store.swarms[id].spec == engine.runs[id].doc.spec
            &&& after.runs == engine.runs.remove(id)
            &&& !after.store.claims.contains_key(id)
            &&& !after.board.boards.contains_key(id)
            &&& after.board.boards[other] == engine.board.boards[other]
            &&& after.store.swarm(other) == engine.store.swarm(other)
            &&& after.runs[other] == engine.runs[other]
            &&& rows.len() == engine.store.history(id).len() + 2
            &&& rows[rows.len() - 2].kind == "swarm_completed"@
            &&& rows.last().kind == "swarm_reaped"@
            &&& rows.last().payload[0].value == crate::store::model::PayloadValueView::Flag(
                reap::reap_warnings(engine.runs[id].roster, answers).len() == 0,
            )
        }),
        ({
            let parked = engine.driver_exited(id, DriverExit::Paused, answers, now);
            &&& parked == engine.driver_exited(id, DriverExit::BudgetExhausted, answers, now)
            &&& !parked.runs.contains_key(id)
            &&& !parked.store.claims.contains_key(id)
            &&& parked.store.swarms == engine.store.swarms
            &&& parked.store.events == engine.store.events
            &&& parked.board == engine.board
            &&& parked.runs[other] == engine.runs[other]
        }),
        engine.driver_exited(id, DriverExit::Cancelled, answers, now) == engine,
{
    assert(engine.in_step(id));
}

proof fn recovered_ids_hold(
    store: StoreView,
    boot_id: Seq<char>,
    claims: Seq<ClaimView>,
    n: int,
    now: Seq<char>,
    id: Seq<char>,
)
    requires
        foreign_claims(store, boot_id, claims),
        store.keyed(),
        0 <= n <= claims.len(),
    ensures
        recovered_ids(store, claims, n, now).contains(id) <==> dead_among(claims, n, id)
            && store.swarms.contains_key(id) && store.swarms[id].run.status
            == SwarmStatus::Running,
    decreases n,
{
    if n > 0 {
        recovered_ids_hold(store, boot_id, claims, n - 1, now, id);
        recovery_so_far(store, boot_id, claims, n - 1, now);
        foreign_claims_differ(store, boot_id, claims);
        let earlier = recovered_ids(store, claims, n - 1, now);
        let ids = recovered_ids(store, claims, n, now);
        let last = claims[n - 1].swarm_id;
        let before = recovered(store, claims, n - 1, now);
        assert(!dead_among(claims, n - 1, last));
        if before.swarms.contains_key(last) {
            assert(before.swarms[last] == store.swarms[last]);
        }
        assert(dead_among(claims, n, id) <==> id == last || dead_among(claims, n - 1, id)) by {
            if id == last {
                assert(claims[n - 1].swarm_id == id);
            }
            if dead_among(claims, n - 1, id) {
                let j = choose|j: int| 0 <= j < n - 1 && (#[trigger] claims[j]).swarm_id == id;
                assert(claims[j].swarm_id == id);
            }
        }
        if ids.contains(id) {
            let k = choose|k: int| 0 <= k < ids.len() && ids[k] == id;
            if k < earlier.len() {
                assert(earlier[k] == id);
            }
        }
        if earlier.contains(id) {
            let k = choose|k: int| 0 <= k < earlier.len() && earlier[k] == id;
            assert(ids[k] == id);
        }
        if ids.len() > earlier.len() {
            assert(ids[ids.len() - 1] == last);
        }
    }
}

/// Recovery goes by the boot that took a claim and by nothing else: the claims it looks at
/// are exactly those of other boots, and the swarms it names are exactly those that were
/// `Running` under one.
pub proof fn recovery_names_what_it_parked(
    store: StoreView,
    boot_id: Seq<char>,
    claims: Seq<ClaimView>,
    now: Seq<char>,
    id: Seq<char>,
    claim: ClaimView,
)
    requires
        foreign_claims(store, boot_id, claims),
        store.keyed(),
    ensures
        claims.contains(claim) <==> store.claims.contains_key(claim.swarm_id)
            && store.claims[claim.swarm_id] == claim && claim.boot_id != boot_id,
        recovered_ids(store, claims, claims.len() as int, now).contains(id) <==> {
            &&& store.claims.contains_key(id)
            &&& store.claims[id].boot_id != boot_id
            &&& store.swarms.contains_key(id)
            &&& store.swarms[id].run.status == SwarmStatus::Running
        },
{
    recovered_ids_hold(store, boot_id, claims, claims.len() as int, now, id);
    foreign_claims_differ(store, boot_id, claims);
    if store.claims.contains_key(id) && store.claims[id].boot_id != boot_id {
        let c = store.claims[id];
        assert(claims.contains(c));
        let j = choose|j: int| 0 <= j < claims.len() && claims[j] == c;
        assert(claims[j].swarm_id == id);
    }
    if dead_among(claims, claims.len() as int, id) {
        let j = choose|j: int| 0 <= j < claims.len() && (#[trigger] claims[j]).swarm_id == id;
        assert(store.claims[id] == claims[j]);
    }
}

/// A swarm that recovery parks moves on by one revision, is stamped, and the log says that
/// a restart did it.
pub proof fn a_recovered_swarm_says_so(doc: PersistedSwarmView, id: Seq<char>, now: Seq<char>)
    ensures
        parked_doc(doc, now).run.status == (SwarmStatus::Paused {
            reason: SwarmPauseReason::DaemonRestart,
        }),
        doc.revision < u64::MAX ==> parked_doc(doc, now).revision == doc.revision + 1,
        parked_doc(doc, now).updated_at == now,
        parked_doc(doc, now).spec == doc.spec,
        parked_doc(doc, now).run.spent == doc.run.spent,
        recovered_event(id, now).swarm_id == id,
        recovered_event(id, now).kind == "swarm_recovered"@,
        recovered_event(id, now).ts == now,
        recovered_event(id, now).payload.len() == 1,
        recovered_event(id, now).payload[0].name == "reason"@,
        recovered_event(id, now).payload[0].value == crate::store::model::PayloadValueView::Text(
            "daemon_restart"@,
        ),
{
}

/// A delegation that is refused takes no turn: over an unknown box, a box that a user holds
/// or a swarm that does not run, nothing changes at all; over the budget the run is parked,
/// and let go at once where nobody drives it. The boards stay either way.
pub proof fn what_a_refused_turn_changes<C>(
    engine: EngineView<C>,
    id: Seq<char>,
    box_id: Seq<char>,
    subtask: Seq<char>,
    at: int,
    now: Seq<char>,
    other: Seq<char>,
)
    requires
        engine.sound(),
        engine.turn_refusal(id, box_id, at) is Some,
        engine.store.swarms.contains_key(id) ==> engine.store.swarms[id].revision < u64::MAX,
        other != id,
    ensures
        ({
            let after = engine.delegated(id, box_id, subtask, at, now);
            let over = engine.turn_refusal(id, box_id, at)->0 is BudgetExhausted;
            let run = engine.runs[id];
            &&& !over ==> after == engine
            &&& after.board == engine.board
            &&& after.runs[other] == engine.runs[other]
            &&& after.runs.contains_key(other) == engine.runs.contains_key(other)
            &&& after.store.swarm(other) == engine.store.swarm(other)
            &&& after.turns_under_way(id) == engine.turns_under_way(id)
            &&& over ==> engine.runs.contains_key(id)
            &&& over && run.driven ==> after.runs.contains_key(id) && after.store.claims
                == engine.store.claims
            &&& over && !run.driven ==> !after.runs.contains_key(id)
                && !after.store.claims.contains_key(id)
            &&& over && run.doc.run.status == SwarmStatus::Running
                ==> after.store.swarms[id].run.status == (SwarmStatus::Paused {
                reason: SwarmPauseReason::BudgetExhausted,
            }) && after.store.swarms[id].run.spent == run.doc.run.spent
        }),
{
    if engine.runs.contains_key(id) {
        assert(engine.in_step(id));
    }
}

/// A turn that ends or is given up is under way no more, whether its run still lives or not;
/// letting a run go keeps its turns under way; and the turns of other swarms stay.
pub proof fn turns_under_way_are_counted<C>(
    engine: EngineView<C>,
    id: Seq<char>,
    count: u32,
    other: Seq<char>,
)
    requires
        other != id,
    ensures
        engine.turns_under_way(id) > 0 ==> engine.turn_over(id).turns_under_way(id)
            == engine.turns_under_way(id) - 1,
        engine.turns_under_way(id) == 0 ==> engine.turn_over(id).turns_under_way(id) == 0,
        engine.turn_over(id).turns_under_way(other) == engine.turns_under_way(other),
        engine.turn_over(id).store == engine.store && engine.turn_over(id).board == engine.board,
        engine.runs.contains_key(id) ==> engine.turn_over(id).runs[id].doc == engine.runs[id].doc,
        engine.runs.contains_key(id) ==> !engine.retired(id).runs.contains_key(id)
            && engine.retired(id).turns_under_way(id) == engine.turns_under_way(id),
        engine.retired(id).turns_under_way(other) == engine.turns_under_way(other),
        engine.retired(id).store == engine.store && engine.retired(id).board == engine.board,
        !engine.runs.contains_key(id) ==> engine.lingered(id, count).turns_under_way(id) == count,
        engine.runs.contains_key(id) ==> engine.turns_under_way(id) == engine.runs[id].reserved,
        engine.lingered(id, 0).lingering == engine.lingering.remove(id),
{
}

/// A box is held from when the user spoke to it until ninety seconds later, on a live run
/// whose roster has it, and not once it was handed back.
pub proof fn when_a_box_is_held<C>(
    engine: EngineView<C>,
    id: Seq<char>,
    box_id: Seq<char>,
    at: int,
    later: int,
)
    ensures
        ({
            let known = engine.runs.contains_key(id) && exists|i: int|
                0 <= i < engine.runs[id].roster.boxes.len() && (
                #[trigger] engine.runs[id].roster.boxes[i]).box_id == box_id;
            &&& engine.on_live_roster(id, box_id) <==> known
            &&& known ==> (engine.engaging(id, box_id, at).engaged(id, box_id, later) <==> later
                < at + 90)
            &&& !known ==> engine.engaging(id, box_id, at) == engine
            &&& !engine.disengaging(id, box_id).engaged(id, box_id, later)
            &&& !engine.runs.contains_key(id) ==> !engine.engaged(id, box_id, later)
        }),
{
    let ids = engine.runs[id].roster.ids();
    if ids.contains(box_id) {
        let i = choose|i: int| 0 <= i < ids.len() && ids[i] == box_id;
        assert(engine.runs[id].roster.boxes[i].box_id == box_id);
    }
    if exists|i: int|
        0 <= i < engine.runs[id].roster.boxes.len() && (
        #[trigger] engine.runs[id].roster.boxes[i]).box_id == box_id {
        let i = choose|i: int|
            0 <= i < engine.runs[id].roster.boxes.len() && (
            #[trigger] engine.runs[id].roster.boxes[i]).box_id == box_id;
        assert(ids[i] == box_id);
    }
}

/// A swarm that could not be brought up leaves no trace where the store can be relied on: no
/// run comes of it, nobody holds it for it, and the refusal is the one that stood in the way.
pub proof fn a_failed_start_leaves_no_trace<C>(
    engine: EngineView<C>,
    id: Seq<char>,
    prep: PreparationView<C>,
    now: Seq<char>,
    e: EngineErrorView,
    after: EngineView<C>,
)
    requires
        engine.unbuilt(id, prep, now, e, true, after),
    ensures
        after.store == engine.store,
        after.runs == engine.runs,
        after.lingering == engine.lingering,
        engine.build_refusal(id, prep) matches Some(x) ==> e == x && after.board == engine.board,
        engine.build_refusal(id, prep) is None ==> e is Store,
{
}

/// A claim that a swarm was to be brought up under is given back where that fails.
pub proof fn a_failed_start_gives_its_claim_back<C>(
    engine: EngineView<C>,
    doc: PersistedSwarmView,
    claim: ClaimView,
    prep: PreparationView<C>,
    now: Seq<char>,
    e: EngineErrorView,
    after: EngineView<C>,
)
    requires
        engine.unraised(doc, claim, prep, now, e, true, after),
        engine.store.holds(claim),
    ensures
        !after.store.claims.contains_key(claim.swarm_id),
        after.store.swarms == engine.store.swarms,
        after.store.events == engine.store.events,
        after.runs == engine.runs,
        engine.raise_refusal(claim.swarm_id, doc.spec, prep) matches Some(x) ==> e == x
            && after.board == engine.board,
        forall|given: EngineView<C>| #[trigger]
            engine.given_back(claim, true, given) ==> !given.store.claims.contains_key(
                claim.swarm_id,
            ) && given.runs == engine.runs,
{
}

/// A round begins on the run of its swarm and on no other: what the run makes of it is what
/// the engine and the store then hold; the boards, and everything where no run is live, stay.
pub proof fn a_round_begins_on_its_run<C>(
    engine: EngineView<C>,
    id: Seq<char>,
    now: Seq<char>,
    other: Seq<char>,
)
    requires
        other != id,
    ensures
        ({
            let after = engine.round_begun(id, now);
            let (run, store) = engine.runs[id].round_begun(engine.store, now);
            &&& !engine.runs.contains_key(id) ==> after == engine
            &&& engine.runs.contains_key(id) ==> after.runs[id] == run && after.store == store
            &&& after.runs[other] == engine.runs[other]
            &&& after.board == engine.board && after.lingering == engine.lingering
        }),
        ({
            let run = engine.runs[id];
            &&& engine.board.boards.contains_key(run.doc.spec.id) ==> engine.board_of(run) == Some(
                engine.board.boards[run.doc.spec.id],
            )
            &&& !engine.board.boards.contains_key(run.doc.spec.id) ==> engine.board_of(run) is None
        }),
{
}

/// The end of a turn of a swarm that is neither live nor stored any more charges and logs
/// nothing: the turn is over, and that is all.
pub proof fn a_turn_of_a_deleted_swarm_is_over<C>(
    engine: EngineView<C>,
    id: Seq<char>,
    box_id: Seq<char>,
    spend: SwarmSpend,
    now: Seq<char>,
)
    requires
        !engine.runs.contains_key(id),
        !engine.store.swarms.contains_key(id),
    ensures
        engine.turn_ended(id, box_id, spend, now).store == engine.store,
        engine.turn_ended(id, box_id, spend, now).runs == engine.runs,
        engine.turn_ended(id, box_id, spend, now).board == engine.board,
        engine.turns_under_way(id) > 0 ==> engine.turn_ended(
            id,
            box_id,
            spend,
            now,
        ).turns_under_way(id) == engine.turns_under_way(id) - 1,
{
}

/// Marking a swarm started or driven takes a live run: without one nothing happens.
pub proof fn only_a_live_run_is_started<C>(engine: EngineView<C>, id: Seq<char>, now: Seq<char>)
    ensures
        !engine.runs.contains_key(id) ==> engine.after_start(id, now) == engine,
        engine.runs.contains_key(id) ==> engine.after_start(id, now) == engine.started(id, now),
{
}

proof fn recovery_log_so_far(
    store: StoreView,
    boot_id: Seq<char>,
    claims: Seq<ClaimView>,
    n: int,
    now: Seq<char>,
    id: Seq<char>,
)
    requires
        foreign_claims(store, boot_id, claims),
        store.keyed(),
        0 <= n <= claims.len(),
    ensures
        ({
            let rows = recovered(store, claims, n, now).history(id);
            let parked = dead_among(claims, n, id) && store.swarms.contains_key(id)
                && store.swarms[id].run.status == SwarmStatus::Running;
            &&& !parked ==> rows == store.history(id)
            &&& parked ==> {
                &&& rows.len() == store.history(id).len() + 1
                &&& rows.drop_last() == store.history(id)
                &&& rows.last().kind == "swarm_recovered"@
                &&& rows.last().swarm_id == id
                &&& rows.last().ts == now
            }
        }),
    decreases n,
{
    if n > 0 {
        recovery_log_so_far(store, boot_id, claims, n - 1, now, id);
        recovery_so_far(store, boot_id, claims, n - 1, now);
        foreign_claims_differ(store, boot_id, claims);
        let last = claims[n - 1].swarm_id;
        let before = recovered(store, claims, n - 1, now);
        let after = recovered(store, claims, n, now);
        assert(!dead_among(claims, n - 1, last));
        if before.swarms.contains_key(last) {
            assert(before.swarms[last] == store.swarms[last]);
        }
        assert(dead_among(claims, n, id) <==> id == last || dead_among(claims, n - 1, id)) by {
            if id == last {
                assert(claims[n - 1].swarm_id == id);
            }
            if dead_among(claims, n - 1, id) {
                let j = choose|j: int| 0 <= j < n - 1 && (#[trigger] claims[j]).swarm_id == id;
                assert(claims[j].swarm_id == id);
            }
        }
        if id == last && was_running(before, last) {
            assert(after.history(id).drop_last() =~= before.history(id));
        } else {
            assert(after.history(id) == before.history(id));
        }
    }
}

/// Recovery leaves one row in the log of each swarm that it parks, after those that were
/// there, and touches no other log.
pub proof fn recovery_is_logged(
    store: StoreView,
    boot_id: Seq<char>,
    claims: Seq<ClaimView>,
    now: Seq<char>,
    id: Seq<char>,
)
    requires
        foreign_claims(store, boot_id, claims),
        store.keyed(),
    ensures
        ({
            let rows = recovered(store, claims, claims.len() as int, now).history(id);
            let parked = store.claims.contains_key(id) && store.claims[id].boot_id != boot_id
                && store.swarms.contains_key(id) && store.swarms[id].run.status
                == SwarmStatus::Running;
            &&& !parked ==> rows == store.history(id)
            &&& parked ==> {
                &&& rows.len() == store.history(id).len() + 1
                &&& rows.drop_last() == store.history(id)
                &&& rows.last().kind == "swarm_recovered"@
                &&& rows.last().swarm_id == id
                &&& rows.last().ts == now
            }
        }),
{
    recovery_log_so_far(store, boot_id, claims, claims.len() as int, now, id);
    foreign_claims_differ(store, boot_id, claims);
    if store.claims.contains_key(id) && store.claims[id].boot_id != boot_id {
        let c = store.claims[id];
        recovery_names_what_it_parked(store, boot_id, claims, now, id, c);
        if store.swarms.contains_key(id) {
            assert(c.swarm_id == id);
        }
        assert(claims.contains(c));
        let j = choose|j: int| 0 <= j < claims.len() && claims[j] == c;
        assert(claims[j].swarm_id == id);
    }
    if dead_among(claims, claims.len() as int, id) {
        let j = choose|j: int| 0 <= j < claims.len() && (#[trigger] claims[j]).swarm_id == id;
        assert(store.claims[id] == claims[j]);
    }
}

/// What a swarm does is its own affair: whatever is asked of it or becomes of it, the
/// engine stays who it is, and the runs and the turns of other swarms stay as they are.
pub proof fn swarms_leave_each_other_alone<C>(
    engine: EngineView<C>,
    id: Seq<char>,
    other: Seq<char>,
    box_id: Seq<char>,
    subtask: Seq<char>,
    spend: SwarmSpend,
    outcome: RoundOutcome,
    exit: DriverExit,
    answers: ReapAnswers,
    at: int,
    now: Seq<char>,
)
    requires
        other != id,
    ensures
        ({
            let after = engine.delegated(id, box_id, subtask, at, now);
            &&& after.parent_alias == engine.parent_alias && after.boot_id == engine.boot_id
            &&& after.runs.contains_key(other) == engine.runs.contains_key(other)
            &&& after.runs[other] == engine.runs[other]
            &&& after.lingering.contains_key(other) == engine.lingering.contains_key(other)
            &&& after.lingering[other] == engine.lingering[other]
        }),
        ({
            let after = engine.turn_ended(id, box_id, spend, now);
            &&& after.parent_alias == engine.parent_alias && after.boot_id == engine.boot_id
            &&& after.runs.contains_key(other) == engine.runs.contains_key(other)
            &&& after.runs[other] == engine.runs[other]
            &&& after.lingering.contains_key(other) == engine.lingering.contains_key(other)
            &&& after.lingering[other] == engine.lingering[other]
        }),
        ({
            let after = engine.turn_over(id);
            &&& after.parent_alias == engine.parent_alias && after.boot_id == engine.boot_id
            &&& after.runs.contains_key(other) == engine.runs.contains_key(other)
            &&& after.runs[other] == engine.runs[other]
            &&& after.lingering.contains_key(other) == engine.lingering.contains_key(other)
            &&& after.lingering[other] == engine.lingering[other]
        }),
        ({
            let after = engine.round_begun(id, now);
            &&& after.parent_alias == engine.parent_alias && after.boot_id == engine.boot_id
            &&& after.runs.contains_key(other) == engine.runs.contains_key(other)
            &&& after.runs[other] == engine.runs[other]
            &&& after.lingering.contains_key(other) == engine.lingering.contains_key(other)
            &&& after.lingering[other] == engine.lingering[other]
        }),
        ({
            let after = engine.round_ended(id, outcome, now);
            &&& after.parent_alias == engine.parent_alias && after.boot_id == engine.boot_id
            &&& after.runs.contains_key(other) == engine.runs.contains_key(other)
            &&& after.runs[other] == engine.runs[other]
            &&& after.lingering.contains_key(other) == engine.lingering.contains_key(other)
            &&& after.lingering[other] == engine.lingering[other]
        }),
        ({
            let after = engine.engaging(id, box_id, at);
            &&& after.parent_alias == engine.parent_alias && after.boot_id == engine.boot_id
            &&& after.runs.contains_key(other) == engine.runs.contains_key(other)
            &&& after.runs[other] == engine.runs[other]
            &&& after.lingering.contains_key(other) == engine.lingering.contains_key(other)
            &&& after.lingering[other] == engine.lingering[other]
        }),
        ({
            let after = engine.disengaging(id, box_id);
            &&& after.parent_alias == engine.parent_alias && after.boot_id == engine.boot_id
            &&& after.runs.contains_key(other) == engine.runs.contains_key(other)
            &&& after.runs[other] == engine.runs[other]
            &&& after.lingering.contains_key(other) == engine.lingering.contains_key(other)
            &&& after.lingering[other] == engine.lingering[other]
        }),
        ({
            let after = engine.driver_exited(id, exit, answers, now);
            &&& after.parent_alias == engine.parent_alias && after.boot_id == engine.boot_id
            &&& after.runs.contains_key(other) == engine.runs.contains_key(other)
            &&& after.runs[other] == engine.runs[other]
            &&& after.lingering.contains_key(other) == engine.lingering.contains_key(other)
            &&& after.lingering[other] == engine.lingering[other]
        }),
        ({
            let after = engine.turn_over(id);
            after == EngineView { runs: after.runs, lingering: after.lingering, ..engine }
        }),
        ({
            let after = engine.engaging(id, box_id, at);
            after == EngineView { runs: after.runs, ..engine }
        }),
        ({
            let after = engine.disengaging(id, box_id);
            after == EngineView { runs: after.runs, ..engine }
        }),
        ({
            let after = engine.round_begun(id, now);
            after == EngineView { runs: after.runs, store: after.store, ..engine }
        }),
        ({
            let after = engine.turn_ended(id, box_id, spend, now);
            after.board == engine.board
        }),
{
}

} // verus!
