//! What a store holds of a swarm.

use vstd::prelude::*;

use crate::clock;
use crate::clock::Timestamp;
use crate::duplicate;
use crate::duplicate::{
    duplicate_all, duplicate_opt, same_all, Duplicate, SameView,
};
use crate::strmap::StrMap;
use crate::text;
use crate::text::{copy_texts, decimal, text_eq};
use crate::usd::Usd;

verus! {

/// The envelope layout that is written.
pub const SWARM_STORE_VERSION: u32 = 1;

/// Roster size a swarm is created with when the author does not name one.
pub const DEFAULT_ROSTER_SIZE: usize = 4;

/// The three named budget envelopes a swarm can be created under.
#[derive(Debug, Clone, Copy, PartialEq, Eq, Structural)]
pub enum SwarmBudgetPreset {
    Quick,
    Standard,
    Marathon,
}

/// The ceilings a swarm run stops at. Every budget resolves to one of these.
#[derive(Debug, Clone, Copy, PartialEq, Eq, Structural)]
pub struct SwarmBudgetLimits {
    pub max_turns: u32,
    pub max_tokens: u64,
    pub max_cost_usd: Usd,
}

impl SwarmBudgetPreset {
    /// Every preset, smallest first.
    pub const ALL: [SwarmBudgetPreset; 3] = [
        SwarmBudgetPreset::Quick,
        SwarmBudgetPreset::Standard,
        SwarmBudgetPreset::Marathon,
    ];

    /// The turn, token and cost triple of a preset.
    pub open spec fn ceilings(self) -> SwarmBudgetLimits {
        match self {
            SwarmBudgetPreset::Quick => SwarmBudgetLimits {
                max_turns: 25,
                max_tokens: 250_000,
                max_cost_usd: Usd { micros: 5_000_000 },
            },
            SwarmBudgetPreset::Standard => SwarmBudgetLimits {
                max_turns: 100,
                max_tokens: 1_000_000,
                max_cost_usd: Usd { micros: 20_000_000 },
            },
            SwarmBudgetPreset::Marathon => SwarmBudgetLimits {
                max_turns: 400,
                max_tokens: 5_000_000,
                max_cost_usd: Usd { micros: 100_000_000 },
            },
        }
    }

    /// The name a preset goes by on the wire.
    pub open spec fn name(self) -> Seq<char> {
        match self {
            SwarmBudgetPreset::Quick => "quick"@,
            SwarmBudgetPreset::Standard => "standard"@,
            SwarmBudgetPreset::Marathon => "marathon"@,
        }
    }

    /// The turn / token / cost triple this preset expands to.
    pub fn limits(self) -> (r: SwarmBudgetLimits)
        ensures
            r == self.ceilings(),
    {
        match self {
            SwarmBudgetPreset::Quick => SwarmBudgetLimits {
                max_turns: 25,
                max_tokens: 250_000,
                max_cost_usd: Usd::dollars(5),
            },
            SwarmBudgetPreset::Standard => SwarmBudgetLimits {
                max_turns: 100,
                max_tokens: 1_000_000,
                max_cost_usd: Usd::dollars(20),
            },
            SwarmBudgetPreset::Marathon => SwarmBudgetLimits {
                max_turns: 400,
                max_tokens: 5_000_000,
                max_cost_usd: Usd::dollars(100),
            },
        }
    }

    /// The preset's name on the wire and in pickers.
    pub fn wire_name(self) -> (r: &'static str)
        ensures
            r@ == self.name(),
    {
        match self {
            SwarmBudgetPreset::Quick => "quick",
            SwarmBudgetPreset::Standard => "standard",
            SwarmBudgetPreset::Marathon => "marathon",
        }
    }

    /// The preset that goes by `name`, if there is one.
    pub fn from_wire(name: &str) -> (r: Option<SwarmBudgetPreset>)
        ensures
            match r {
                Some(p) => p.name() == name@,
                None => forall|p: SwarmBudgetPreset| #[trigger] p.name() != name@,
            },
    {
        if text_eq(name, "quick") {
            Some(SwarmBudgetPreset::Quick)
        } else if text_eq(name, "standard") {
            Some(SwarmBudgetPreset::Standard)
        } else if text_eq(name, "marathon") {
            Some(SwarmBudgetPreset::Marathon)
        } else {
            None
        }
    }
}

/// The wire names of the presets are all different.
pub proof fn preset_names_differ(a: SwarmBudgetPreset, b: SwarmBudgetPreset)
    ensures
        a.name() == b.name() ==> a == b,
{
    reveal_strlit("quick");
    reveal_strlit("standard");
    reveal_strlit("marathon");
    assert("standard"@[0] == 's');
    assert("marathon"@[0] == 'm');
}

/// A preset envelope or an operator-supplied triple.
#[derive(Debug, Clone, Copy, PartialEq, Eq, Structural)]
pub enum SwarmBudget {
    Preset(SwarmBudgetPreset),
    Custom(SwarmBudgetLimits),
}

impl SwarmBudget {
    /// The ceilings of a budget.
    pub open spec fn ceilings(self) -> SwarmBudgetLimits {
        match self {
            SwarmBudget::Preset(preset) => preset.ceilings(),
            SwarmBudget::Custom(limits) => limits,
        }
    }

    /// Resolve to concrete ceilings.
    pub fn limits(self) -> (r: SwarmBudgetLimits)
        ensures
            r == self.ceilings(),
    {
        match self {
            SwarmBudget::Preset(preset) => preset.limits(),
            SwarmBudget::Custom(limits) => limits,
        }
    }
}

impl Default for SwarmBudget {
    fn default() -> (r: Self)
        ensures
            r == SwarmBudget::Preset(SwarmBudgetPreset::Standard),
    {
        SwarmBudget::Preset(SwarmBudgetPreset::Standard)
    }
}

/// Budget consumed so far. Counters only; the ceilings live in the spec.
#[derive(Debug, Clone, Copy, PartialEq, Eq, Structural)]
pub struct SwarmSpend {
    pub turns: u32,
    pub tokens: u64,
    pub cost_usd: Usd,
}

impl SwarmSpend {
    /// Nothing spent.
    pub open spec fn none() -> SwarmSpend {
        SwarmSpend { turns: 0, tokens: 0, cost_usd: Usd { micros: 0 } }
    }

    /// Both spends together, each counter held at its largest value.
    pub open spec fn plus(self, delta: SwarmSpend) -> SwarmSpend {
        SwarmSpend {
            turns: if self.turns + delta.turns <= u32::MAX {
                (self.turns + delta.turns) as u32
            } else {
                u32::MAX
            },
            tokens: if self.tokens + delta.tokens <= u64::MAX {
                (self.tokens + delta.tokens) as u64
            } else {
                u64::MAX
            },
            cost_usd: self.cost_usd.plus(delta.cost_usd),
        }
    }

    /// Adds `delta`, stopping each counter at its largest value.
    pub fn saturating_add(self, delta: SwarmSpend) -> (r: SwarmSpend)
        ensures
            r == self.plus(delta),
    {
        SwarmSpend {
            turns: self.turns.saturating_add(delta.turns),
            tokens: self.tokens.saturating_add(delta.tokens),
            cost_usd: self.cost_usd.saturating_add(delta.cost_usd),
        }
    }
}

impl Default for SwarmSpend {
    fn default() -> (r: Self)
        ensures
            r == SwarmSpend::none(),
    {
        SwarmSpend { turns: 0, tokens: 0, cost_usd: Usd::zero() }
    }
}

/// Why a running swarm parked. Every pause records one.
#[derive(Debug, Clone, Copy, PartialEq, Eq, Structural)]
pub enum SwarmPauseReason {
    BudgetExhausted,
    DaemonRestart,
    UserRequested,
}

/// Lifecycle of a swarm.
#[derive(Debug, Clone, Copy, PartialEq, Eq, Structural)]
pub enum SwarmStatus {
    Created,
    Running,
    Paused { reason: SwarmPauseReason },
    Stopped,
    Completed,
}

impl SwarmStatus {
    /// Finished for good.
    pub open spec fn terminal(self) -> bool {
        self is Stopped || self is Completed
    }

    /// The label of a status.
    pub open spec fn label(self) -> Seq<char> {
        match self {
            SwarmStatus::Created => "created"@,
            SwarmStatus::Running => "running"@,
            SwarmStatus::Paused { .. } => "paused"@,
            SwarmStatus::Stopped => "stopped"@,
            SwarmStatus::Completed => "completed"@,
        }
    }

    /// Terminal states are read-only history: not claimable, not resumable.
    pub fn is_terminal(self) -> (r: bool)
        ensures
            r == self.terminal(),
    {
        matches!(self, SwarmStatus::Stopped | SwarmStatus::Completed)
    }

    /// Whether the swarm is parked, for whatever reason.
    pub fn is_paused(self) -> (r: bool)
        ensures
            r == (self is Paused),
    {
        matches!(self, SwarmStatus::Paused { .. })
    }

    /// Stable label for the store's status column and log attributes. The pause
    /// reason is not part of it.
    pub fn as_str(self) -> (r: &'static str)
        ensures
            r@ == self.label(),
    {
        match self {
            SwarmStatus::Created => "created",
            SwarmStatus::Running => "running",
            SwarmStatus::Paused { .. } => "paused",
            SwarmStatus::Stopped => "stopped",
            SwarmStatus::Completed => "completed",
        }
    }
}

/// One box in the roster: a worker with a job, pinned to a layout slot.
#[derive(Debug, PartialEq, Eq)]
pub struct BoxSpec {
    pub box_id: String,
    /// What the box is (`researcher`, `critic`, and so on).
    pub role: String,
    /// What the box has been told to do.
    pub job: String,
    /// 0-based position in the swarm pane grid.
    pub slot: u8,
}

/// A box spec as plain values.
#[verifier::ext_equal]
pub struct BoxSpecView {
    pub box_id: Seq<char>,
    pub role: Seq<char>,
    pub job: Seq<char>,
    pub slot: u8,
}

impl View for BoxSpec {
    type V = BoxSpecView;

    open spec fn view(&self) -> BoxSpecView {
        BoxSpecView { box_id: self.box_id@, role: self.role@, job: self.job@, slot: self.slot }
    }
}

impl Duplicate for BoxSpec {
    fn duplicate(&self) -> (r: Self) {
        BoxSpec {
            box_id: self.box_id.clone(),
            role: self.role.clone(),
            job: self.job.clone(),
            slot: self.slot,
        }
    }
}

impl Clone for BoxSpec {
    fn clone(&self) -> (r: Self)
        ensures
            r@ == self@,
    {
        self.duplicate()
    }
}

impl SameView for BoxSpec {
    fn same(&self, other: &Self) -> (r: bool) {
        self.box_id.same(&other.box_id) && self.role.same(&other.role) && self.job.same(&other.job)
            && self.slot == other.slot
    }
}

/// The unfilled box of layout slot `slot`.
pub open spec fn blank_box(slot: int) -> BoxSpecView {
    BoxSpecView {
        box_id: "box-"@ + text::numeral((slot + 1) as nat),
        role: Seq::empty(),
        job: Seq::empty(),
        slot: (slot % 256) as u8,
    }
}

/// A roster of `size` unfilled boxes.
pub open spec fn blank_roster(size: nat) -> Seq<BoxSpecView> {
    Seq::new(size, |i: int| blank_box(i))
}

/// The roster a swarm starts with: `size` unfilled boxes, one per layout slot.
pub fn default_roster(size: usize) -> (r: Vec<BoxSpec>)
    ensures
        text::views(r@) == blank_roster(size as nat),
{
    let mut out: Vec<BoxSpec> = Vec::new();
    let mut slot: usize = 0;
    while slot < size
        invariant
            slot <= size,
            out.len() == slot,
            forall|j: int| 0 <= j < slot ==> (#[trigger] out@[j])@ == blank_box(j),
        decreases size - slot,
    {
        let mut box_id = "box-".to_owned();
        box_id.append(decimal(slot as u64 + 1).as_str());
        out.push(
            BoxSpec {
                box_id,
                role: String::new(),
                job: String::new(),
                slot: (slot % 256) as u8,
            },
        );
        slot += 1;
    }
    assert(text::views(out@) =~= blank_roster(size as nat));
    out
}

/// The authored shape of a swarm. Persisted as one revision-guarded document.
#[derive(Debug, PartialEq, Eq)]
pub struct SwarmSpec {
    pub id: String,
    pub name: String,
    /// Model-provider alias the boxes run on.
    pub provider: String,
    pub model: String,
    /// Risk-profile name applied to every box.
    pub risk_profile: String,
    pub budget: SwarmBudget,
    /// Channel aliases that receive outbound status notifications.
    pub channels: Vec<String>,
    /// The supervising role the swarm as a whole plays.
    pub role: String,
    /// What the swarm was created to accomplish.
    pub goal: String,
    pub boxes: Vec<BoxSpec>,
}

/// A swarm spec as plain values.
#[verifier::ext_equal]
pub struct SwarmSpecView {
    pub id: Seq<char>,
    pub name: Seq<char>,
    pub provider: Seq<char>,
    pub model: Seq<char>,
    pub risk_profile: Seq<char>,
    pub budget: SwarmBudget,
    pub channels: Seq<Seq<char>>,
    pub role: Seq<char>,
    pub goal: Seq<char>,
    pub boxes: Seq<BoxSpecView>,
}

impl View for SwarmSpec {
    type V = SwarmSpecView;

    open spec fn view(&self) -> SwarmSpecView {
        SwarmSpecView {
            id: self.id@,
            name: self.name@,
            provider: self.provider@,
            model: self.model@,
            risk_profile: self.risk_profile@,
            budget: self.budget,
            channels: text::views(self.channels@),
            role: self.role@,
            goal: self.goal@,
            boxes: text::views(self.boxes@),
        }
    }
}

impl Duplicate for SwarmSpec {
    fn duplicate(&self) -> (r: Self) {
        SwarmSpec {
            id: self.id.clone(),
            name: self.name.clone(),
            provider: self.provider.clone(),
            model: self.model.clone(),
            risk_profile: self.risk_profile.clone(),
            budget: self.budget,
            channels: copy_texts(&self.channels),
            role: self.role.clone(),
            goal: self.goal.clone(),
            boxes: duplicate_all(&self.boxes),
        }
    }
}

impl Clone for SwarmSpec {
    fn clone(&self) -> (r: Self)
        ensures
            r@ == self@,
    {
        self.duplicate()
    }
}

impl SameView for SwarmSpec {
    fn same(&self, other: &Self) -> (r: bool) {
        self.id.same(&other.id) && self.name.same(&other.name) && self.provider.same(
            &other.provider,
        ) && self.model.same(&other.model) && self.risk_profile.same(&other.risk_profile)
            && self.budget == other.budget && same_all(&self.channels, &other.channels)
            && self.role.same(&other.role) && self.goal.same(&other.goal) && same_all(
            &self.boxes,
            &other.boxes,
        )
    }
}

impl SwarmSpec {
    /// A spec carrying the default roster and the default budget. The single
    /// place [`DEFAULT_ROSTER_SIZE`] is applied.
    pub fn new(
        id: &str,
        name: &str,
        provider: &str,
        model: &str,
        risk_profile: &str,
        role: &str,
        goal: &str,
    ) -> (r: Self)
        ensures
            r@ == (SwarmSpecView {
                id: id@,
                name: name@,
                provider: provider@,
                model: model@,
                risk_profile: risk_profile@,
                budget: SwarmBudget::Preset(SwarmBudgetPreset::Standard),
                channels: Seq::empty(),
                role: role@,
                goal: goal@,
                boxes: blank_roster(DEFAULT_ROSTER_SIZE as nat),
            }),
    {
        let r = SwarmSpec {
            id: id.to_owned(),
            name: name.to_owned(),
            provider: provider.to_owned(),
            model: model.to_owned(),
            risk_profile: risk_profile.to_owned(),
            budget: SwarmBudget::default(),
            channels: Vec::new(),
            role: role.to_owned(),
            goal: goal.to_owned(),
            boxes: default_roster(DEFAULT_ROSTER_SIZE),
        };
        assert(r@.channels =~= Seq::<Seq<char>>::empty());
        r
    }
}

/// Live state of a swarm: where it is, what it has spent, and which agent
/// session each box speaks through.
#[derive(Debug, PartialEq, Eq)]
pub struct SwarmRun {
    pub status: SwarmStatus,
    pub spent: SwarmSpend,
    /// `box_id` to agent session id.
    pub sessions: StrMap<String>,
}

/// A swarm's live state as plain values.
#[verifier::ext_equal]
pub struct SwarmRunView {
    pub status: SwarmStatus,
    pub spent: SwarmSpend,
    pub sessions: Map<Seq<char>, Seq<char>>,
}

impl View for SwarmRun {
    type V = SwarmRunView;

    open spec fn view(&self) -> SwarmRunView {
        SwarmRunView { status: self.status, spent: self.spent, sessions: self.sessions@ }
    }
}

impl Duplicate for SwarmRun {
    fn duplicate(&self) -> (r: Self) {
        SwarmRun {
            status: self.status,
            spent: self.spent,
            sessions: self.sessions.duplicate(),
        }
    }
}

impl Clone for SwarmRun {
    fn clone(&self) -> (r: Self)
        ensures
            r@ == self@,
    {
        self.duplicate()
    }
}

impl SameView for SwarmRun {
    fn same(&self, other: &Self) -> (r: bool) {
        self.status == other.status && self.spent == other.spent && self.sessions.same(
            &other.sessions,
        )
    }
}

impl Default for SwarmRun {
    fn default() -> (r: Self)
        ensures
            r@ == (SwarmRunView {
                status: SwarmStatus::Created,
                spent: SwarmSpend::none(),
                sessions: Map::empty(),
            }),
    {
        SwarmRun {
            status: SwarmStatus::Created,
            spent: SwarmSpend::default(),
            sessions: StrMap::new(),
        }
    }
}

/// The stored envelope: spec plus run state under one revision.
#[derive(Debug, PartialEq, Eq)]
pub struct PersistedSwarm {
    /// = [`SWARM_STORE_VERSION`] at write time.
    pub version: u32,
    /// Monotonic per-swarm write counter; the guard on every save.
    pub revision: u64,
    pub spec: SwarmSpec,
    pub run: SwarmRun,
    pub created_at: String,
    /// Bumped on every persisted transition.
    pub updated_at: String,
}

/// A stored envelope as plain values.
#[verifier::ext_equal]
pub struct PersistedSwarmView {
    pub version: u32,
    pub revision: u64,
    pub spec: SwarmSpecView,
    pub run: SwarmRunView,
    pub created_at: Seq<char>,
    pub updated_at: Seq<char>,
}

impl View for PersistedSwarm {
    type V = PersistedSwarmView;

    open spec fn view(&self) -> PersistedSwarmView {
        PersistedSwarmView {
            version: self.version,
            revision: self.revision,
            spec: self.spec@,
            run: self.run@,
            created_at: self.created_at@,
            updated_at: self.updated_at@,
        }
    }
}

impl Duplicate for PersistedSwarm {
    fn duplicate(&self) -> (r: Self) {
        PersistedSwarm {
            version: self.version,
            revision: self.revision,
            spec: self.spec.duplicate(),
            run: self.run.duplicate(),
            created_at: self.created_at.clone(),
            updated_at: self.updated_at.clone(),
        }
    }
}

impl Clone for PersistedSwarm {
    fn clone(&self) -> (r: Self)
        ensures
            r@ == self@,
    {
        self.duplicate()
    }
}

impl SameView for PersistedSwarm {
    fn same(&self, other: &Self) -> (r: bool) {
        self.version == other.version && self.revision == other.revision && self.spec.same(
            &other.spec,
        ) && self.run.same(&other.run) && self.created_at.same(&other.created_at)
            && self.updated_at.same(&other.updated_at)
    }
}

/// A freshly authored swarm: revision 0, created, unspent.
pub open spec fn fresh_swarm(spec: SwarmSpecView, now: Seq<char>) -> PersistedSwarmView {
    PersistedSwarmView {
        version: SWARM_STORE_VERSION,
        revision: 0,
        spec,
        run: SwarmRunView {
            status: SwarmStatus::Created,
            spent: SwarmSpend::none(),
            sessions: Map::empty(),
        },
        created_at: now,
        updated_at: now,
    }
}

impl PersistedSwarm {
    /// Wrap a freshly authored spec at revision 0, `Created`, unspent, as of now.
    pub fn new(spec: SwarmSpec) -> (r: Self)
        ensures
            exists|at: Timestamp|
                #[trigger] at.wf() && r@ == fresh_swarm(
                    spec@,
                    clock::rfc3339_text(at.secs, at.nanos),
                ),
    {
        let at = Timestamp::now();
        PersistedSwarm::at(spec, at.to_rfc3339().as_str())
    }

    /// Wrap a freshly authored spec at revision 0, `Created`, unspent, as of `now`.
    pub fn at(spec: SwarmSpec, now: &str) -> (r: Self)
        ensures
            r@ == fresh_swarm(spec@, now@),
    {
        PersistedSwarm {
            version: SWARM_STORE_VERSION,
            revision: 0,
            spec,
            run: SwarmRun::default(),
            created_at: now.to_owned(),
            updated_at: now.to_owned(),
        }
    }

    /// The swarm id this envelope is keyed by.
    pub fn swarm_id(&self) -> (r: &str)
        ensures
            r@ == self@.spec.id,
    {
        self.spec.id.as_str()
    }
}

/// Ownership handle for one swarm. The store re-validates it on heartbeat so a
/// reclaimed swarm cannot be driven twice.
#[derive(Debug, PartialEq, Eq)]
pub struct SwarmClaimToken {
    pub swarm_id: String,
    pub claimed_at: String,
    /// `claimed_at` plus the lease; the reaper reclaims claims past this.
    pub lease_expires: String,
    /// Process nonce plus a per-grant counter: a released token cannot renew its
    /// successor.
    pub holder: String,
    /// The process boot that took the claim.
    pub boot_id: String,
}

/// A claim as plain values.
#[verifier::ext_equal]
pub struct ClaimView {
    pub swarm_id: Seq<char>,
    pub claimed_at: Seq<char>,
    pub lease_expires: Seq<char>,
    pub holder: Seq<char>,
    pub boot_id: Seq<char>,
}

impl View for SwarmClaimToken {
    type V = ClaimView;

    open spec fn view(&self) -> ClaimView {
        ClaimView {
            swarm_id: self.swarm_id@,
            claimed_at: self.claimed_at@,
            lease_expires: self.lease_expires@,
            holder: self.holder@,
            boot_id: self.boot_id@,
        }
    }
}

impl Duplicate for SwarmClaimToken {
    fn duplicate(&self) -> (r: Self) {
        SwarmClaimToken {
            swarm_id: self.swarm_id.clone(),
            claimed_at: self.claimed_at.clone(),
            lease_expires: self.lease_expires.clone(),
            holder: self.holder.clone(),
            boot_id: self.boot_id.clone(),
        }
    }
}

impl Clone for SwarmClaimToken {
    fn clone(&self) -> (r: Self)
        ensures
            r@ == self@,
    {
        self.duplicate()
    }
}

/// One value of an event's payload.
#[derive(Debug, PartialEq, Eq)]
pub enum PayloadValue {
    Text(String),
    Number(u64),
    Flag(bool),
    Amount(Usd),
}

/// A payload value as plain values.
#[verifier::ext_equal]
pub enum PayloadValueView {
    Text(Seq<char>),
    Number(u64),
    Flag(bool),
    Amount(Usd),
}

impl View for PayloadValue {
    type V = PayloadValueView;

    open spec fn view(&self) -> PayloadValueView {
        match self {
            PayloadValue::Text(s) => PayloadValueView::Text(s@),
            PayloadValue::Number(n) => PayloadValueView::Number(*n),
            PayloadValue::Flag(b) => PayloadValueView::Flag(*b),
            PayloadValue::Amount(u) => PayloadValueView::Amount(*u),
        }
    }
}

/// One named value of an event's payload.
#[derive(Debug, PartialEq, Eq)]
pub struct PayloadField {
    pub name: String,
    pub value: PayloadValue,
}

/// A payload field as plain values.
#[verifier::ext_equal]
pub struct PayloadFieldView {
    pub name: Seq<char>,
    pub value: PayloadValueView,
}

impl View for PayloadField {
    type V = PayloadFieldView;

    open spec fn view(&self) -> PayloadFieldView {
        PayloadFieldView { name: self.name@, value: self.value@ }
    }
}

impl Duplicate for PayloadField {
    fn duplicate(&self) -> (r: Self) {
        let value = match &self.value {
            PayloadValue::Text(s) => PayloadValue::Text(s.clone()),
            PayloadValue::Number(n) => PayloadValue::Number(*n),
            PayloadValue::Flag(b) => PayloadValue::Flag(*b),
            PayloadValue::Amount(u) => PayloadValue::Amount(*u),
        };
        PayloadField { name: self.name.clone(), value }
    }
}

/// One append-only audit row. Never overwritten; `seq` is assigned by the store.
#[derive(Debug, PartialEq, Eq)]
pub struct SwarmEventRecord {
    pub swarm_id: String,
    /// Monotonic ordinal assigned by the store.
    pub seq: u64,
    pub ts: String,
    /// e.g. `swarm_created`, `swarm_started`, `box_assigned`, `budget_exhausted`
    pub kind: String,
    /// Set when the event belongs to one box rather than the whole swarm.
    pub box_id: Option<String>,
    /// Redacted before append.
    pub payload: Vec<PayloadField>,
}

/// An audit row as plain values.
#[verifier::ext_equal]
pub struct EventView {
    pub swarm_id: Seq<char>,
    pub seq: u64,
    pub ts: Seq<char>,
    pub kind: Seq<char>,
    pub box_id: Option<Seq<char>>,
    pub payload: Seq<PayloadFieldView>,
}

impl View for SwarmEventRecord {
    type V = EventView;

    open spec fn view(&self) -> EventView {
        EventView {
            swarm_id: self.swarm_id@,
            seq: self.seq,
            ts: self.ts@,
            kind: self.kind@,
            box_id: duplicate::opt_view(self.box_id),
            payload: text::views(self.payload@),
        }
    }
}

impl Duplicate for SwarmEventRecord {
    fn duplicate(&self) -> (r: Self) {
        SwarmEventRecord {
            swarm_id: self.swarm_id.clone(),
            seq: self.seq,
            ts: self.ts.clone(),
            kind: self.kind.clone(),
            box_id: duplicate_opt(&self.box_id),
            payload: duplicate_all(&self.payload),
        }
    }
}

impl Clone for SwarmEventRecord {
    fn clone(&self) -> (r: Self)
        ensures
            r@ == self@,
    {
        self.duplicate()
    }
}

// ── Laws ────────────────────────────────────────────────────────────

/// What the presets allow, and that a custom budget is taken as it is given.
pub proof fn budgets_resolve_to_their_ceilings(limits: SwarmBudgetLimits)
    ensures
        ({
            let quick = SwarmBudget::Preset(SwarmBudgetPreset::Quick).ceilings();
            quick.max_turns == 25 && quick.max_tokens == 250_000 && quick.max_cost_usd.micros
                == 5 * 1_000_000
        }),
        ({
            let standard = SwarmBudget::Preset(SwarmBudgetPreset::Standard).ceilings();
            standard.max_turns == 100 && standard.max_tokens == 1_000_000
                && standard.max_cost_usd.micros == 20 * 1_000_000
        }),
        ({
            let marathon = SwarmBudget::Preset(SwarmBudgetPreset::Marathon).ceilings();
            marathon.max_turns == 400 && marathon.max_tokens == 5_000_000
                && marathon.max_cost_usd.micros == 100 * 1_000_000
        }),
        SwarmBudget::Custom(limits).ceilings() == limits,
{
}

/// Spends add up axis by axis, in either order, and nothing spent changes nothing.
pub proof fn spends_add_up(a: SwarmSpend, b: SwarmSpend)
    ensures
        a.turns + b.turns <= u32::MAX ==> a.plus(b).turns == a.turns + b.turns,
        a.tokens + b.tokens <= u64::MAX ==> a.plus(b).tokens == a.tokens + b.tokens,
        a.cost_usd.micros + b.cost_usd.micros <= u64::MAX ==> a.plus(b).cost_usd.micros
            == a.cost_usd.micros + b.cost_usd.micros,
        a.plus(b) == b.plus(a),
        a.plus(SwarmSpend::none()) == a,
        a.plus(b).turns >= a.turns && a.plus(b).tokens >= a.tokens && a.plus(b).cost_usd.micros
            >= a.cost_usd.micros,
{
}

/// Only a stopped or a completed swarm has finished: one that is created, running or
/// parked for any reason goes on.
pub proof fn only_stopped_and_completed_are_final(status: SwarmStatus, reason: SwarmPauseReason)
    ensures
        SwarmStatus::Stopped.terminal(),
        SwarmStatus::Completed.terminal(),
        !SwarmStatus::Created.terminal(),
        !SwarmStatus::Running.terminal(),
        !(SwarmStatus::Paused { reason }).terminal(),
        status.label() == if status == SwarmStatus::Created {
            "created"@
        } else if status == SwarmStatus::Running {
            "running"@
        } else if status == SwarmStatus::Stopped {
            "stopped"@
        } else if status == SwarmStatus::Completed {
            "completed"@
        } else {
            "paused"@
        },
{
}

/// A swarm begins with what was authored: created, unspent, without sessions, at its first
/// revision.
pub proof fn a_new_swarm_is_what_was_authored(spec: SwarmSpecView, now: Seq<char>)
    ensures
        ({
            let doc = fresh_swarm(spec, now);
            &&& doc.spec == spec
            &&& doc.revision == 0
            &&& doc.version == SWARM_STORE_VERSION
            &&& doc.run.status == SwarmStatus::Created
            &&& doc.run.spent.turns == 0 && doc.run.spent.tokens == 0
                && doc.run.spent.cost_usd.micros == 0
            &&& forall|id: Seq<char>| !(#[trigger] doc.run.sessions.contains_key(id))
            &&& doc.created_at == now && doc.updated_at == now
        }),
{
}

/// The boxes of a blank roster are numbered from one, sit in the slots from nought, and
/// have neither role nor job.
pub proof fn a_blank_roster_is_numbered(size: nat, i: int)
    requires
        0 <= i < size <= 256,
    ensures
        blank_roster(size).len() == size,
        blank_roster(size)[i].box_id == "box-"@ + text::numeral((i + 1) as nat),
        blank_roster(size)[i].slot == i,
        blank_roster(size)[i].role.len() == 0,
        blank_roster(size)[i].job.len() == 0,
{
}

} // verus!
