//! The ephemeral roster: the box agents a swarm run is made of.
//!
//! A roster is built in memory from a swarm's box specs, lives for the run, and is
//! deleted when the run ends. Two identities are minted per box and both are
//! derived, never authored: a synthetic alias, `swarm/<swarm_id>/<box_id>`, and a
//! memory identity. There is no partial roster: the first box that is refused fails
//! the whole build.

use vstd::prelude::*;

use crate::duplicate::{duplicate_all, Duplicate};
use crate::store::model::{BoxSpec, BoxSpecView, SwarmSpec, SwarmSpecView};
use crate::text;
use crate::text::{contains_text, copy_texts, decimal, find_unsluggable, quote, quote_char, text_eq};

verus! {

/// First segment of every synthetic box alias.
pub const SWARM_ALIAS_PREFIX: &'static str = "swarm";

/// Largest roster a swarm may be built with. Boxes are concurrent agent
/// sessions under one budget; the ceiling bounds fan-out.
pub const MAX_ROSTER_SIZE: usize = 16;

/// Longest accepted `swarm_id` / `box_id`, in bytes.
pub const MAX_ID_LEN: usize = 64;

// ── Names ───────────────────────────────────────────────────────────

/// The synthetic alias of a box.
pub open spec fn box_alias(swarm_id: Seq<char>, box_id: Seq<char>) -> Seq<char> {
    SWARM_ALIAS_PREFIX@ + "/"@ + swarm_id + "/"@ + box_id
}

/// The synthetic alias a box speaks under.
pub fn swarm_box_alias(swarm_id: &str, box_id: &str) -> (r: String)
    ensures
        r@ == box_alias(swarm_id@, box_id@),
{
    let mut out = SWARM_ALIAS_PREFIX.to_owned();
    out.append("/");
    out.append(swarm_id);
    out.append("/");
    out.append(box_id);
    out
}

/// The memory namespace that the boxes of a swarm share.
pub fn swarm_namespace(swarm_id: &str) -> (r: String)
    ensures
        r@ == "swarm/"@ + swarm_id@,
{
    "swarm/".to_owned().concat(swarm_id)
}

/// Two pairs of ids never share an alias where no swarm's id holds a slash, as no usable
/// one does: no swarm's box can forge the alias of another's.
pub proof fn aliases_are_unforgeable(
    swarm_a: Seq<char>,
    box_a: Seq<char>,
    swarm_b: Seq<char>,
    box_b: Seq<char>,
)
    requires
        !swarm_a.contains('/'),
        !swarm_b.contains('/'),
        box_alias(swarm_a, box_a) == box_alias(swarm_b, box_b),
    ensures
        swarm_a == swarm_b,
        box_a == box_b,
{
    reveal_strlit("/");
    let a = box_alias(swarm_a, box_a);
    let b = box_alias(swarm_b, box_b);
    let n = (SWARM_ALIAS_PREFIX@.len() + 1) as int;
    let la = swarm_a.len() as int;
    let lb = swarm_b.len() as int;
    assert(a[n + la] == '/');
    assert(b[n + lb] == '/');
    if la < lb {
        assert(b[n + la] == swarm_b[la]);
        assert(swarm_b.contains(swarm_b[la]));
    }
    if lb < la {
        assert(a[n + lb] == swarm_a[lb]);
        assert(swarm_a.contains(swarm_a[lb]));
    }
    assert(swarm_a =~= a.subrange(n, n + la));
    assert(swarm_b =~= b.subrange(n, n + lb));
    assert(box_a =~= a.skip(n + la + 1));
    assert(box_b =~= b.skip(n + lb + 1));
}

/// A usable id holds no slash.
pub proof fn usable_ids_hold_no_slash(id: Seq<char>)
    requires
        id_problem(id) is None,
    ensures
        !id.contains('/'),
{
    text::sluggable_everywhere(id);
    if id.contains('/') {
        let i = choose|i: int| 0 <= i < id.len() && id[i] == '/';
        assert(text::slug_char(id[i]));
    }
}

/// A synthetic alias holds a slash, which no configured alias does.
pub proof fn aliases_hold_a_slash(swarm_id: Seq<char>, box_id: Seq<char>)
    ensures
        box_alias(swarm_id, box_id).contains('/'),
{
    reveal_strlit("/");
    let a = box_alias(swarm_id, box_id);
    let n = SWARM_ALIAS_PREFIX@.len() as int;
    assert(a[n] == '/');
}

// ── Errors ──────────────────────────────────────────────────────────

/// Why a roster could not be built. Every variant is a refusal.
#[derive(Debug, PartialEq, Eq)]
pub enum RosterError {
    InvalidId { field: &'static str, value: String, reason: String },
    EmptyRoster { swarm_id: String },
    RosterTooLarge { swarm_id: String, size: usize },
    DuplicateBox { swarm_id: String, box_id: String },
    AliasCollision { alias: String },
    Parent { alias: String, reason: String },
    PolicyEscalation { box_id: String, parent_alias: String, reason: String },
    Identity { alias: String, reason: String },
    /// The memory backend does not honor an allowlist, so boxes could not be isolated.
    UnscopedMemory { swarm_id: String },
}

/// A roster refusal as plain values.
#[verifier::ext_equal]
pub enum RosterErrorView {
    InvalidId { field: Seq<char>, value: Seq<char>, reason: Seq<char> },
    EmptyRoster { swarm_id: Seq<char> },
    RosterTooLarge { swarm_id: Seq<char>, size: nat },
    DuplicateBox { swarm_id: Seq<char>, box_id: Seq<char> },
    AliasCollision { alias: Seq<char> },
    Parent { alias: Seq<char>, reason: Seq<char> },
    PolicyEscalation { box_id: Seq<char>, parent_alias: Seq<char>, reason: Seq<char> },
    Identity { alias: Seq<char>, reason: Seq<char> },
    UnscopedMemory { swarm_id: Seq<char> },
}

impl View for RosterError {
    type V = RosterErrorView;

    open spec fn view(&self) -> RosterErrorView {
        match self {
            RosterError::InvalidId { field, value, reason } => RosterErrorView::InvalidId {
                field: field@,
                value: value@,
                reason: reason@,
            },
            RosterError::EmptyRoster { swarm_id } => RosterErrorView::EmptyRoster {
                swarm_id: swarm_id@,
            },
            RosterError::RosterTooLarge { swarm_id, size } => RosterErrorView::RosterTooLarge {
                swarm_id: swarm_id@,
                size: *size as nat,
            },
            RosterError::DuplicateBox { swarm_id, box_id } => RosterErrorView::DuplicateBox {
                swarm_id: swarm_id@,
                box_id: box_id@,
            },
            RosterError::AliasCollision { alias } => RosterErrorView::AliasCollision {
                alias: alias@,
            },
            RosterError::Parent { alias, reason } => RosterErrorView::Parent {
                alias: alias@,
                reason: reason@,
            },
            RosterError::PolicyEscalation { box_id, parent_alias, reason } => {
                RosterErrorView::PolicyEscalation {
                    box_id: box_id@,
                    parent_alias: parent_alias@,
                    reason: reason@,
                }
            },
            RosterError::Identity { alias, reason } => RosterErrorView::Identity {
                alias: alias@,
                reason: reason@,
            },
            RosterError::UnscopedMemory { swarm_id } => RosterErrorView::UnscopedMemory {
                swarm_id: swarm_id@,
            },
        }
    }
}

impl RosterErrorView {
    /// What the refusal says.
    pub open spec fn text(self) -> Seq<char> {
        match self {
            RosterErrorView::InvalidId { field, value, reason } => {
                "swarm "@ + field + " "@ + text::quoted(value) + " is unusable: "@ + reason
            },
            RosterErrorView::EmptyRoster { swarm_id } => {
                "swarm "@ + text::quoted(swarm_id) + " has no boxes"@
            },
            RosterErrorView::RosterTooLarge { swarm_id, size } => {
                "swarm "@ + text::quoted(swarm_id) + " has "@ + text::numeral(size)
                    + " boxes; the maximum roster is "@ + text::numeral(MAX_ROSTER_SIZE as nat)
            },
            RosterErrorView::DuplicateBox { swarm_id, box_id } => {
                "swarm "@ + text::quoted(swarm_id) + " lists box "@ + text::quoted(box_id)
                    + " more than once"@
            },
            RosterErrorView::AliasCollision { alias } => {
                "the synthetic alias "@ + text::quoted(alias)
                    + " collides with a configured agent"@
            },
            RosterErrorView::Parent { alias, reason } => {
                "cannot resolve the parent envelope from agent "@ + text::quoted(alias) + ": "@
                    + reason
            },
            RosterErrorView::PolicyEscalation { box_id, parent_alias, reason } => {
                "box "@ + text::quoted(box_id) + " requested a policy outside the "@
                    + text::quoted(parent_alias) + " envelope: "@ + reason
                    + "; a box may only narrow it"@
            },
            RosterErrorView::Identity { alias, reason } => {
                "could not mint a memory identity for "@ + text::quoted(alias) + ": "@ + reason
            },
            RosterErrorView::UnscopedMemory { swarm_id } => {
                "swarm "@ + text::quoted(swarm_id)
                    + " needs a memory backend that honors the per-agent allowlist"@
            },
        }
    }
}

impl RosterError {
    /// What the refusal says.
    pub fn message(&self) -> (r: String)
        ensures
            r@ == self@.text(),
    {
        let mut out = String::new();
        match self {
            RosterError::InvalidId { field, value, reason } => {
                out.append("swarm ");
                out.append(field);
                out.append(" ");
                out.append(quote(value.as_str()).as_str());
                out.append(" is unusable: ");
                out.append(reason.as_str());
            },
            RosterError::EmptyRoster { swarm_id } => {
                out.append("swarm ");
                out.append(quote(swarm_id.as_str()).as_str());
                out.append(" has no boxes");
            },
            RosterError::RosterTooLarge { swarm_id, size } => {
                out.append("swarm ");
                out.append(quote(swarm_id.as_str()).as_str());
                out.append(" has ");
                out.append(decimal(*size as u64).as_str());
                out.append(" boxes; the maximum roster is ");
                out.append(decimal(MAX_ROSTER_SIZE as u64).as_str());
            },
            RosterError::DuplicateBox { swarm_id, box_id } => {
                out.append("swarm ");
                out.append(quote(swarm_id.as_str()).as_str());
                out.append(" lists box ");
                out.append(quote(box_id.as_str()).as_str());
                out.append(" more than once");
            },
            RosterError::AliasCollision { alias } => {
                out.append("the synthetic alias ");
                out.append(quote(alias.as_str()).as_str());
                out.append(" collides with a configured agent");
            },
            RosterError::Parent { alias, reason } => {
                out.append("cannot resolve the parent envelope from agent ");
                out.append(quote(alias.as_str()).as_str());
                out.append(": ");
                out.append(reason.as_str());
            },
            RosterError::PolicyEscalation { box_id, parent_alias, reason } => {
                out.append("box ");
                out.append(quote(box_id.as_str()).as_str());
                out.append(" requested a policy outside the ");
                out.append(quote(parent_alias.as_str()).as_str());
                out.append(" envelope: ");
                out.append(reason.as_str());
                out.append("; a box may only narrow it");
            },
            RosterError::Identity { alias, reason } => {
                out.append("could not mint a memory identity for ");
                out.append(quote(alias.as_str()).as_str());
                out.append(": ");
                out.append(reason.as_str());
            },
            RosterError::UnscopedMemory { swarm_id } => {
                out.append("swarm ");
                out.append(quote(swarm_id.as_str()).as_str());
                out.append(" needs a memory backend that honors the per-agent allowlist");
            },
        }
        assert(out@ =~= self@.text());
        out
    }
}

// ── Ids ─────────────────────────────────────────────────────────────

/// What is wrong with an id, if anything is. Ids are alias material: they are
/// joined into `swarm/<id>/<box>`, so neither may hold a slash or a dot.
pub open spec fn id_problem(value: Seq<char>) -> Option<Seq<char>> {
    if value.len() == 0 {
        Some("must not be empty"@)
    } else if text::byte_len(value) > MAX_ID_LEN {
        Some(
            text::numeral(text::byte_len(value) as nat) + " bytes exceeds the maximum of "@
                + text::numeral(MAX_ID_LEN as nat),
        )
    } else {
        match text::first_unsluggable(value) {
            Some(c) => Some(
                "contains "@ + text::quoted_char(c)
                    + "; only ASCII letters, digits, `-`, and `_` are allowed"@,
            ),
            None => None,
        }
    }
}

/// Refuses an id that could not be part of an alias.
pub fn validate_id(field: &'static str, value: &str) -> (r: Result<(), RosterError>)
    ensures
        match id_problem(value@) {
            Some(reason) => r matches Err(e) && e@ == (RosterErrorView::InvalidId {
                field: field@,
                value: value@,
                reason,
            }),
            None => r is Ok,
        },
{
    let len: usize = value.len();
    let mut reason = String::new();
    if value.is_empty() {
        reason.append("must not be empty");
    } else if len > MAX_ID_LEN {
        reason.append(decimal(len as u64).as_str());
        reason.append(" bytes exceeds the maximum of ");
        reason.append(decimal(MAX_ID_LEN as u64).as_str());
    } else {
        match find_unsluggable(value) {
            Some(ch) => {
                reason.append("contains ");
                reason.append(quote_char(ch).as_str());
                reason.append("; only ASCII letters, digits, `-`, and `_` are allowed");
            },
            None => {
                return Ok(());
            },
        }
    }
    assert(Some(reason@) == id_problem(value@)) by {
        assert(reason@ =~= id_problem(value@)->0);
    }
    Err(RosterError::InvalidId { field, value: value.to_owned(), reason })
}

// ── Rosters ─────────────────────────────────────────────────────────

/// One built box: its authored shape, its two minted identities, and the
/// envelope it runs inside.
#[derive(Debug)]
pub struct RosterBox<C> {
    pub box_id: String,
    /// `swarm/<swarm_id>/<box_id>`.
    pub alias: String,
    pub role: String,
    pub job: String,
    pub slot: u8,
    /// The box's memory identity.
    pub agent_id: String,
    /// Policy and memory allowlist, inherited from the parent agent and possibly
    /// narrowed.
    pub context: C,
}

/// A built box as plain values.
#[verifier::ext_equal]
pub struct RosterBoxView<C> {
    pub box_id: Seq<char>,
    pub alias: Seq<char>,
    pub role: Seq<char>,
    pub job: Seq<char>,
    pub slot: u8,
    pub agent_id: Seq<char>,
    pub context: C,
}

impl<C> View for RosterBox<C> {
    type V = RosterBoxView<C>;

    open spec fn view(&self) -> RosterBoxView<C> {
        RosterBoxView {
            box_id: self.box_id@,
            alias: self.alias@,
            role: self.role@,
            job: self.job@,
            slot: self.slot,
            agent_id: self.agent_id@,
            context: self.context,
        }
    }
}

/// The box that `spec` becomes under the identities it was given.
pub open spec fn built_box<C>(
    swarm_id: Seq<char>,
    spec: BoxSpecView,
    context: C,
    agent_id: Seq<char>,
) -> RosterBoxView<C> {
    RosterBoxView {
        box_id: spec.box_id,
        alias: box_alias(swarm_id, spec.box_id),
        role: spec.role,
        job: spec.job,
        slot: spec.slot,
        agent_id,
        context,
    }
}

/// The ids of boxes, in order.
pub open spec fn spec_ids(boxes: Seq<BoxSpecView>) -> Seq<Seq<char>> {
    Seq::new(boxes.len(), |i: int| boxes[i].box_id)
}

/// A validated roster: every box in it has passed alias, envelope, and identity
/// checks.
#[derive(Debug)]
pub struct SwarmRoster<C> {
    swarm_id: String,
    parent_alias: String,
    boxes: Vec<RosterBox<C>>,
}

/// A roster as plain values.
#[verifier::ext_equal]
pub struct RosterView<C> {
    pub swarm_id: Seq<char>,
    pub parent_alias: Seq<char>,
    pub boxes: Seq<RosterBoxView<C>>,
}

impl<C> View for SwarmRoster<C> {
    type V = RosterView<C>;

    closed spec fn view(&self) -> RosterView<C> {
        RosterView {
            swarm_id: self.swarm_id@,
            parent_alias: self.parent_alias@,
            boxes: text::views(self.boxes@),
        }
    }
}

impl<C> RosterView<C> {
    /// The ids of the boxes, in order.
    pub open spec fn ids(self) -> Seq<Seq<char>> {
        Seq::new(self.boxes.len(), |i: int| self.boxes[i].box_id)
    }

    /// The memory identities of the boxes, in order.
    pub open spec fn identities(self) -> Seq<Seq<char>> {
        Seq::new(self.boxes.len(), |i: int| self.boxes[i].agent_id)
    }

    /// Every box is the one that the spec names at its place, under its own alias.
    pub open spec fn matches(self, spec: SwarmSpecView) -> bool {
        &&& self.swarm_id == spec.id
        &&& self.boxes.len() == spec.boxes.len()
        &&& forall|i: int|
            0 <= i < self.boxes.len() ==> #[trigger] self.boxes[i] == built_box(
                spec.id,
                spec.boxes[i],
                self.boxes[i].context,
                self.boxes[i].agent_id,
            )
    }
}

/// What one box may read and write of the shared memory.
#[derive(Debug, PartialEq, Eq)]
pub struct BoxMemoryScope {
    /// The namespace that the whole swarm shares.
    pub namespace: String,
    /// The identity that the box's writes are attributed to.
    pub agent_id: String,
    /// The identities whose rows the box may read: the whole roster.
    pub allowlist: Vec<String>,
}

/// A memory scope as plain values.
#[verifier::ext_equal]
pub struct MemoryScopeView {
    pub namespace: Seq<char>,
    pub agent_id: Seq<char>,
    pub allowlist: Seq<Seq<char>>,
}

impl View for BoxMemoryScope {
    type V = MemoryScopeView;

    open spec fn view(&self) -> MemoryScopeView {
        MemoryScopeView {
            namespace: self.namespace@,
            agent_id: self.agent_id@,
            allowlist: text::views(self.allowlist@),
        }
    }
}

impl<C> RosterView<C> {
    /// What the box at `i` may read and write: the whole roster's rows, as itself.
    pub open spec fn scope(self, i: int) -> MemoryScopeView {
        MemoryScopeView {
            namespace: "swarm/"@ + self.swarm_id,
            agent_id: self.boxes[i].agent_id,
            allowlist: self.identities(),
        }
    }
}

/// Why no memory can be composed for a roster of `swarm_id`, if none can.
pub open spec fn memory_refusal(swarm_id: Seq<char>, honors_allowlist: bool) -> Option<
    RosterErrorView,
> {
    if honors_allowlist {
        None
    } else {
        Some(RosterErrorView::UnscopedMemory { swarm_id })
    }
}

impl<C> SwarmRoster<C> {
    /// The swarm that the roster belongs to.
    pub fn swarm_id(&self) -> (r: &str)
        ensures
            r@ == self@.swarm_id,
    {
        self.swarm_id.as_str()
    }

    /// The agent whose envelope every box runs inside.
    pub fn parent_alias(&self) -> (r: &str)
        ensures
            r@ == self@.parent_alias,
    {
        self.parent_alias.as_str()
    }

    /// The boxes, in authored order.
    pub fn boxes(&self) -> (r: &Vec<RosterBox<C>>)
        ensures
            text::views(r@) == self@.boxes,
    {
        &self.boxes
    }

    /// The first box that goes by `box_id`.
    pub fn get(&self, box_id: &str) -> (r: Option<&RosterBox<C>>)
        ensures
            match r {
                Some(b) => {
                    let at = text::first_index(self@.ids(), box_id@);
                    0 <= at < self@.boxes.len() && self@.boxes[at] == b@ && b@.box_id == box_id@
                },
                None => !self@.ids().contains(box_id@),
            },
    {
        let ghost ids = self@.ids();
        let mut i: usize = 0;
        while i < self.boxes.len()
            invariant
                i <= self.boxes.len(),
                ids == self@.ids(),
                ids.len() == self.boxes.len(),
                forall|j: int| 0 <= j < i ==> ids[j] != box_id@,
            decreases self.boxes.len() - i,
        {
            assert(ids[i as int] == self.boxes@[i as int].box_id@);
            if text_eq(self.boxes[i].box_id.as_str(), box_id) {
                proof {
                    text::first_index_at(ids, box_id@, i as int);
                }
                return Some(&self.boxes[i]);
            }
            i += 1;
        }
        None
    }

    /// The ids of the boxes, in order.
    pub fn box_ids(&self) -> (r: Vec<String>)
        ensures
            text::views(r@) == self@.ids(),
    {
        let mut out: Vec<String> = Vec::new();
        let mut i: usize = 0;
        while i < self.boxes.len()
            invariant
                i <= self.boxes.len(),
                out.len() == i,
                forall|j: int| 0 <= j < i ==> (#[trigger] out@[j])@ == self.boxes@[j].box_id@,
            decreases self.boxes.len() - i,
        {
            out.push(self.boxes[i].box_id.clone());
            i += 1;
        }
        assert(text::views(out@) =~= self@.ids());
        out
    }

    /// Every box's synthetic alias, for the reap cascade.
    pub fn aliases(&self) -> (r: Vec<String>)
        ensures
            r.len() == self@.boxes.len(),
            forall|i: int| 0 <= i < r.len() ==> (#[trigger] r@[i])@ == self@.boxes[i].alias,
    {
        let mut out: Vec<String> = Vec::new();
        let mut i: usize = 0;
        while i < self.boxes.len()
            invariant
                i <= self.boxes.len(),
                out.len() == i,
                forall|j: int| 0 <= j < i ==> (#[trigger] out@[j])@ == self.boxes@[j].alias@,
            decreases self.boxes.len() - i,
        {
            out.push(self.boxes[i].alias.clone());
            i += 1;
        }
        out
    }

    /// Every box's memory identity: the trust set boxes recall across.
    pub fn agent_ids(&self) -> (r: Vec<String>)
        ensures
            text::views(r@) == self@.identities(),
    {
        let mut out: Vec<String> = Vec::new();
        let mut i: usize = 0;
        while i < self.boxes.len()
            invariant
                i <= self.boxes.len(),
                out.len() == i,
                forall|j: int| 0 <= j < i ==> (#[trigger] out@[j])@ == self.boxes@[j].agent_id@,
            decreases self.boxes.len() - i,
        {
            out.push(self.boxes[i].agent_id.clone());
            i += 1;
        }
        assert(text::views(out@) =~= self@.identities());
        out
    }

    /// The number of boxes.
    pub fn len(&self) -> (r: usize)
        ensures
            r == self@.boxes.len(),
    {
        self.boxes.len()
    }

    /// Whether there are no boxes.
    pub fn is_empty(&self) -> (r: bool)
        ensures
            r == (self@.boxes.len() == 0),
    {
        self.boxes.len() == 0
    }

    /// The memory scope of one box, if the roster holds it.
    pub fn memory_scope(&self, box_id: &str) -> (r: Option<BoxMemoryScope>)
        ensures
            match r {
                Some(scope) => {
                    let at = text::first_index(self@.ids(), box_id@);
                    0 <= at < self@.boxes.len() && scope@ == self@.scope(at)
                },
                None => !self@.ids().contains(box_id@),
            },
    {
        match self.get(box_id) {
            Some(entry) => {
                let scope = BoxMemoryScope {
                    namespace: swarm_namespace(self.swarm_id.as_str()),
                    agent_id: entry.agent_id.clone(),
                    allowlist: self.agent_ids(),
                };
                assert(scope@ == self@.scope(text::first_index(self@.ids(), box_id@)));
                Some(scope)
            },
            None => None,
        }
    }

    /// One memory scope per box, in order. The read allowlist is the whole roster,
    /// so "boxes read each other" cannot drift into "a box reads whatever it was
    /// handed"; writes stay attributed to the box itself. A backend that does not
    /// honor the allowlist is refused before any scope exists, rather than losing the
    /// isolation in silence.
    pub fn compose_memories(&self, honors_allowlist: bool) -> (r: Result<
        Vec<(String, BoxMemoryScope)>,
        RosterError,
    >)
        ensures
            match r {
                Ok(scopes) => {
                    &&& memory_refusal(self@.swarm_id, honors_allowlist) is None
                    &&& scopes.len() == self@.boxes.len()
                    &&& forall|i: int|
                        0 <= i < scopes.len() ==> {
                            &&& (#[trigger] scopes@[i]).0@ == self@.boxes[i].box_id
                            &&& scopes@[i].1@ == self@.scope(i)
                        }
                },
                Err(e) => memory_refusal(self@.swarm_id, honors_allowlist) == Some(e@),
            },
    {
        if !honors_allowlist {
            return Err(RosterError::UnscopedMemory { swarm_id: self.swarm_id.clone() });
        }
        let roster_ids = self.agent_ids();
        let mut out: Vec<(String, BoxMemoryScope)> = Vec::new();
        let mut i: usize = 0;
        while i < self.boxes.len()
            invariant
                i <= self.boxes.len(),
                out.len() == i,
                text::views(roster_ids@) == self@.identities(),
                forall|j: int|
                    0 <= j < i ==> {
                        &&& (#[trigger] out@[j]).0@ == self@.boxes[j].box_id
                        &&& out@[j].1@ == self@.scope(j)
                    },
            decreases self.boxes.len() - i,
        {
            let scope = BoxMemoryScope {
                namespace: swarm_namespace(self.swarm_id.as_str()),
                agent_id: self.boxes[i].agent_id.clone(),
                allowlist: copy_texts(&roster_ids),
            };
            assert(scope@ == self@.scope(i as int));
            out.push((self.boxes[i].box_id.clone(), scope));
            i += 1;
        }
        Ok(out)
    }
}

/// Boxes read each other and nobody else: the scopes of any two boxes share one namespace
/// and one allowlist, which holds the identities of the roster and no other.
pub proof fn memory_stays_in_the_roster<C>(roster: RosterView<C>, i: int, j: int, id: Seq<char>)
    requires
        0 <= i < roster.boxes.len(),
        0 <= j < roster.boxes.len(),
    ensures
        roster.scope(i).namespace == roster.scope(j).namespace,
        roster.scope(i).allowlist == roster.scope(j).allowlist,
        roster.scope(i).allowlist.contains(roster.scope(j).agent_id),
        roster.scope(i).allowlist.contains(id) ==> exists|k: int|
            0 <= k < roster.boxes.len() && (#[trigger] roster.boxes[k]).agent_id == id,
{
    let ids = roster.identities();
    assert(ids[j] == roster.boxes[j].agent_id);
    if ids.contains(id) {
        let k = choose|k: int| 0 <= k < ids.len() && ids[k] == id;
        assert(roster.boxes[k].agent_id == id);
    }
}

// ── Building ────────────────────────────────────────────────────────

/// A roster under construction. The caller resolves the parent's envelope once,
/// then for each box builds its context and mints its identity.
pub struct RosterBuild<C> {
    swarm_id: String,
    parent_alias: String,
    /// Aliases of the configured agents.
    agents: Vec<String>,
    specs: Vec<BoxSpec>,
    boxes: Vec<RosterBox<C>>,
}

/// A roster under construction as plain values.
#[verifier::ext_equal]
pub struct BuildView<C> {
    pub swarm_id: Seq<char>,
    pub parent_alias: Seq<char>,
    pub agents: Seq<Seq<char>>,
    pub specs: Seq<BoxSpecView>,
    pub boxes: Seq<RosterBoxView<C>>,
}

impl<C> View for RosterBuild<C> {
    type V = BuildView<C>;

    closed spec fn view(&self) -> BuildView<C> {
        BuildView {
            swarm_id: self.swarm_id@,
            parent_alias: self.parent_alias@,
            agents: text::views(self.agents@),
            specs: text::views(self.specs@),
            boxes: text::views(self.boxes@),
        }
    }
}

/// Why a spec has no roster, if that can be told from the spec alone.
pub open spec fn shape_refusal(spec: SwarmSpecView) -> Option<RosterErrorView> {
    match id_problem(spec.id) {
        Some(reason) => Some(
            RosterErrorView::InvalidId { field: "id"@, value: spec.id, reason },
        ),
        None => if spec.boxes.len() == 0 {
            Some(RosterErrorView::EmptyRoster { swarm_id: spec.id })
        } else if spec.boxes.len() > MAX_ROSTER_SIZE {
            Some(RosterErrorView::RosterTooLarge { swarm_id: spec.id, size: spec.boxes.len() })
        } else {
            None
        },
    }
}

/// Why the `i`-th box is refused before its context is built, if it is.
pub open spec fn box_refusal(
    swarm_id: Seq<char>,
    specs: Seq<BoxSpecView>,
    agents: Seq<Seq<char>>,
    i: int,
) -> Option<RosterErrorView> {
    let box_id = specs[i].box_id;
    match id_problem(box_id) {
        Some(reason) => Some(
            RosterErrorView::InvalidId { field: "box id"@, value: box_id, reason },
        ),
        None => if spec_ids(specs).take(i).contains(box_id) {
            Some(RosterErrorView::DuplicateBox { swarm_id, box_id })
        } else if agents.contains(box_alias(swarm_id, box_id)) {
            Some(RosterErrorView::AliasCollision { alias: box_alias(swarm_id, box_id) })
        } else {
            None
        },
    }
}

impl<C> BuildView<C> {
    /// The boxes built so far are the first ones of the spec.
    pub open spec fn wf(self) -> bool {
        &&& self.boxes.len() <= self.specs.len()
        &&& forall|i: int|
            0 <= i < self.boxes.len() ==> #[trigger] self.boxes[i] == built_box(
                self.swarm_id,
                self.specs[i],
                self.boxes[i].context,
                self.boxes[i].agent_id,
            )
        &&& forall|i: int|
            0 <= i < self.boxes.len() ==> #[trigger] box_refusal(
                self.swarm_id,
                self.specs,
                self.agents,
                i,
            ) is None
    }

    /// The box to build next is in order.
    pub open spec fn awaits_box(self) -> bool {
        &&& self.wf()
        &&& self.boxes.len() < self.specs.len()
        &&& box_refusal(self.swarm_id, self.specs, self.agents, self.boxes.len() as int) is None
    }
}

impl<C> RosterBuild<C> {
    /// Begin the roster for `spec` inside `parent_alias`'s envelope, beside the
    /// configured agents `agents`.
    pub fn begin(spec: &SwarmSpec, parent_alias: &str, agents: Vec<String>) -> (r: Result<
        RosterBuild<C>,
        RosterError,
    >)
        ensures
            match shape_refusal(spec@) {
                Some(e) => r matches Err(x) && x@ == e,
                None => r matches Ok(b) && b@ == (BuildView::<C> {
                    swarm_id: spec@.id,
                    parent_alias: parent_alias@,
                    agents: text::views(agents@),
                    specs: spec@.boxes,
                    boxes: Seq::<RosterBoxView<C>>::empty(),
                }) && b@.wf(),
            },
    {
        match validate_id("id", spec.id.as_str()) {
            Ok(()) => {},
            Err(e) => {
                return Err(e);
            },
        }
        if spec.boxes.len() == 0 {
            return Err(RosterError::EmptyRoster { swarm_id: spec.id.clone() });
        }
        if spec.boxes.len() > MAX_ROSTER_SIZE {
            return Err(
                RosterError::RosterTooLarge { swarm_id: spec.id.clone(), size: spec.boxes.len() },
            );
        }
        let boxes: Vec<RosterBox<C>> = Vec::new();
        assert(text::views(boxes@) =~= Seq::<RosterBoxView<C>>::empty());
        Ok(
            RosterBuild {
                swarm_id: spec.id.clone(),
                parent_alias: parent_alias.to_owned(),
                agents,
                specs: duplicate_all(&spec.boxes),
                boxes,
            },
        )
    }

    /// The refusal where the parent's envelope cannot be resolved.
    pub fn parent_refused(&self, reason: String) -> (r: RosterError)
        ensures
            r@ == (RosterErrorView::Parent { alias: self@.parent_alias, reason: reason@ }),
    {
        RosterError::Parent { alias: self.parent_alias.clone(), reason }
    }

    /// The alias of the box to build next, or `None` once all are built.
    pub fn plan_next(&self) -> (r: Result<Option<String>, RosterError>)
        requires
            self@.wf(),
        ensures
            match r {
                Ok(None) => self@.boxes.len() == self@.specs.len(),
                Ok(Some(alias)) => {
                    &&& self@.awaits_box()
                    &&& alias@ == box_alias(
                        self@.swarm_id,
                        self@.specs[self@.boxes.len() as int].box_id,
                    )
                },
                Err(e) => {
                    &&& self@.boxes.len() < self@.specs.len()
                    &&& box_refusal(
                        self@.swarm_id,
                        self@.specs,
                        self@.agents,
                        self@.boxes.len() as int,
                    ) == Some(e@)
                },
            },
    {
        let i: usize = self.boxes.len();
        if i == self.specs.len() {
            return Ok(None);
        }
        let box_id = self.specs[i].box_id.as_str();
        assert(box_id@ == self@.specs[i as int].box_id);
        match validate_id("box id", box_id) {
            Ok(()) => {},
            Err(e) => {
                return Err(e);
            },
        }
        let ghost earlier = spec_ids(self@.specs).take(i as int);
        let mut j: usize = 0;
        while j < i
            invariant
                j <= i < self.specs.len(),
                i == self.boxes.len(),
                self@.wf(),
                box_id@ == self@.specs[i as int].box_id,
                id_problem(box_id@) is None,
                earlier == spec_ids(self@.specs).take(i as int),
                forall|k: int| 0 <= k < j ==> earlier[k] != box_id@,
            decreases i - j,
        {
            assert(earlier[j as int] == self.specs@[j as int].box_id@);
            if text_eq(self.specs[j].box_id.as_str(), box_id) {
                assert(earlier.contains(box_id@));
                return Err(
                    RosterError::DuplicateBox {
                        swarm_id: self.swarm_id.clone(),
                        box_id: box_id.to_owned(),
                    },
                );
            }
            j += 1;
        }
        assert(!earlier.contains(box_id@));
        let alias = swarm_box_alias(self.swarm_id.as_str(), box_id);
        // Structurally unreachable (configured aliases hold no slash), and checked
        // anyway: a synthetic alias must never be mistaken for a configured agent.
        if contains_text(&self.agents, alias.as_str()) {
            return Err(RosterError::AliasCollision { alias });
        }
        Ok(Some(alias))
    }

    /// The refusal where the box to build next asked for more than its parent has.
    pub fn envelope_refused(&self, reason: String) -> (r: RosterError)
        requires
            self@.awaits_box(),
        ensures
            r@ == (RosterErrorView::PolicyEscalation {
                box_id: self@.specs[self@.boxes.len() as int].box_id,
                parent_alias: self@.parent_alias,
                reason: reason@,
            }),
    {
        RosterError::PolicyEscalation {
            box_id: self.specs[self.boxes.len()].box_id.clone(),
            parent_alias: self.parent_alias.clone(),
            reason,
        }
    }

    /// The refusal where the box to build next gets no memory identity.
    pub fn identity_refused(&self, reason: String) -> (r: RosterError)
        requires
            self@.awaits_box(),
        ensures
            r@ == (RosterErrorView::Identity {
                alias: box_alias(
                    self@.swarm_id,
                    self@.specs[self@.boxes.len() as int].box_id,
                ),
                reason: reason@,
            }),
    {
        let box_id = self.specs[self.boxes.len()].box_id.as_str();
        RosterError::Identity { alias: swarm_box_alias(self.swarm_id.as_str(), box_id), reason }
    }

    /// Add the box to build next, with its context and its memory identity.
    pub fn add_box(&mut self, context: C, agent_id: String)
        requires
            old(self)@.awaits_box(),
        ensures
            final(self)@ == (BuildView {
                boxes: old(self)@.boxes.push(
                    built_box(
                        old(self)@.swarm_id,
                        old(self)@.specs[old(self)@.boxes.len() as int],
                        context,
                        agent_id@,
                    ),
                ),
                ..old(self)@
            }),
            final(self)@.wf(),
    {
        let i: usize = self.boxes.len();
        let spec = &self.specs[i];
        assert(spec@ == self@.specs[i as int]);
        let alias = swarm_box_alias(self.swarm_id.as_str(), spec.box_id.as_str());
        let built = RosterBox {
            box_id: spec.box_id.clone(),
            alias,
            role: spec.role.clone(),
            job: spec.job.clone(),
            slot: spec.slot,
            agent_id,
            context,
        };
        let ghost view = built@;
        self.boxes.push(built);
        assert(self@.boxes =~= old(self)@.boxes.push(view));
    }

    /// The finished roster; `None` while boxes are missing.
    pub fn finish(self) -> (r: Option<SwarmRoster<C>>)
        requires
            self@.wf(),
        ensures
            match r {
                Some(roster) => {
                    &&& self@.boxes.len() == self@.specs.len()
                    &&& roster@ == (RosterView {
                        swarm_id: self@.swarm_id,
                        parent_alias: self@.parent_alias,
                        boxes: self@.boxes,
                    })
                },
                None => self@.boxes.len() < self@.specs.len(),
            },
    {
        if self.boxes.len() == self.specs.len() {
            Some(
                SwarmRoster {
                    swarm_id: self.swarm_id,
                    parent_alias: self.parent_alias,
                    boxes: self.boxes,
                },
            )
        } else {
            None
        }
    }
}

/// A finished roster has one box per spec, in order and under its own alias; its ids
/// are usable and all different, and no alias is a configured agent's.
pub proof fn finished_rosters_are_sound<C>(build: BuildView<C>, spec: SwarmSpecView)
    requires
        build.wf(),
        build.swarm_id == spec.id,
        build.specs == spec.boxes,
        build.boxes.len() == build.specs.len(),
    ensures
        (RosterView {
            swarm_id: build.swarm_id,
            parent_alias: build.parent_alias,
            boxes: build.boxes,
        }).matches(spec),
        spec_ids(spec.boxes).no_duplicates(),
        forall|i: int|
            0 <= i < build.boxes.len() ==> id_problem(#[trigger] build.boxes[i].box_id) is None
                && !build.agents.contains(build.boxes[i].alias),
{
    let ids = spec_ids(spec.boxes);
    assert forall|i: int, j: int| 0 <= i < j < ids.len() implies ids[i] != ids[j] by {
        assert(box_refusal(build.swarm_id, build.specs, build.agents, j) is None);
        assert(ids.take(j)[i] == ids[i]);
        assert(!ids.take(j).contains(ids[j]));
    }
    assert forall|i: int| 0 <= i < build.boxes.len() implies id_problem(
        #[trigger] build.boxes[i].box_id,
    ) is None && !build.agents.contains(build.boxes[i].alias) by {
        assert(box_refusal(build.swarm_id, build.specs, build.agents, i) is None);
        assert(build.boxes[i] == built_box(
            build.swarm_id,
            build.specs[i],
            build.boxes[i].context,
            build.boxes[i].agent_id,
        ));
    }
}

/// What installing the parent's envelope on one box came to.
#[derive(Debug)]
pub enum Envelope<C> {
    /// The box runs inside this context.
    Built(C),
    /// The parent could not be resolved.
    ParentGone(String),
    /// The box asked for more than its parent has.
    Refused(String),
}

/// An envelope's outcome as plain values.
#[verifier::ext_equal]
pub enum EnvelopeView<C> {
    Built(C),
    ParentGone(Seq<char>),
    Refused(Seq<char>),
}

impl<C> View for Envelope<C> {
    type V = EnvelopeView<C>;

    open spec fn view(&self) -> EnvelopeView<C> {
        match self {
            Envelope::Built(c) => EnvelopeView::Built(*c),
            Envelope::ParentGone(reason) => EnvelopeView::ParentGone(reason@),
            Envelope::Refused(reason) => EnvelopeView::Refused(reason@),
        }
    }
}

/// What the envelope and the memory backend answered for one box.
#[derive(Debug)]
pub struct BoxAnswer<C> {
    pub envelope: Envelope<C>,
    pub identity: Result<String, String>,
}

/// The answers for one box as plain values.
#[verifier::ext_equal]
pub struct BoxAnswerView<C> {
    pub envelope: EnvelopeView<C>,
    pub identity: Result<Seq<char>, Seq<char>>,
}

impl<C> View for BoxAnswer<C> {
    type V = BoxAnswerView<C>;

    open spec fn view(&self) -> BoxAnswerView<C> {
        BoxAnswerView {
            envelope: self.envelope@,
            identity: match self.identity {
                Ok(id) => Ok(id@),
                Err(reason) => Err(reason@),
            },
        }
    }
}

/// Why the build fails on the `i`-th box, if it does.
pub open spec fn step_refusal<C>(
    spec: SwarmSpecView,
    parent_alias: Seq<char>,
    agents: Seq<Seq<char>>,
    answers: Seq<BoxAnswerView<C>>,
    i: int,
) -> Option<RosterErrorView> {
    match box_refusal(spec.id, spec.boxes, agents, i) {
        Some(e) => Some(e),
        None => match answers[i].envelope {
            EnvelopeView::ParentGone(reason) => Some(
                RosterErrorView::Parent { alias: parent_alias, reason },
            ),
            EnvelopeView::Refused(reason) => Some(
                RosterErrorView::PolicyEscalation {
                    box_id: spec.boxes[i].box_id,
                    parent_alias,
                    reason,
                },
            ),
            EnvelopeView::Built(_) => match answers[i].identity {
                Err(reason) => Some(
                    RosterErrorView::Identity {
                        alias: box_alias(spec.id, spec.boxes[i].box_id),
                        reason,
                    },
                ),
                Ok(_) => None,
            },
        },
    }
}

/// The refusal of the first box from the `i`-th on that is refused.
pub open spec fn first_refusal<C>(
    spec: SwarmSpecView,
    parent_alias: Seq<char>,
    agents: Seq<Seq<char>>,
    answers: Seq<BoxAnswerView<C>>,
    i: int,
) -> Option<RosterErrorView>
    decreases spec.boxes.len() - i,
{
    if i >= spec.boxes.len() {
        None
    } else {
        match step_refusal(spec, parent_alias, agents, answers, i) {
            Some(e) => Some(e),
            None => first_refusal(spec, parent_alias, agents, answers, i + 1),
        }
    }
}

/// Why the whole build fails, if it does.
pub open spec fn build_refusal<C>(
    spec: SwarmSpecView,
    parent_alias: Seq<char>,
    agents: Seq<Seq<char>>,
    parent: Result<(), Seq<char>>,
    answers: Seq<BoxAnswerView<C>>,
) -> Option<RosterErrorView> {
    match (shape_refusal(spec), parent) {
        (Some(e), _) => Some(e),
        (None, Err(reason)) => Some(RosterErrorView::Parent { alias: parent_alias, reason }),
        (None, Ok(_)) => first_refusal(spec, parent_alias, agents, answers, 0),
    }
}

/// The view of what resolving the parent came to.
pub open spec fn parent_view(parent: Result<(), String>) -> Result<(), Seq<char>> {
    match parent {
        Ok(_) => Ok(()),
        Err(reason) => Err(reason@),
    }
}

/// Build the roster for `spec` inside `parent_alias`'s envelope, out of what
/// resolving the parent came to and the answers for each box, in order.
#[verifier::loop_isolation(false)]
pub fn build_swarm_roster<C>(
    spec: &SwarmSpec,
    parent_alias: &str,
    agents: Vec<String>,
    parent: Result<(), String>,
    answers: Vec<BoxAnswer<C>>,
) -> (r: Result<SwarmRoster<C>, RosterError>)
    requires
        answers.len() == spec.boxes.len(),
    ensures
        match build_refusal(
            spec@,
            parent_alias@,
            text::views(agents@),
            parent_view(parent),
            text::views(answers@),
        ) {
            Some(e) => r matches Err(x) && x@ == e,
            None => r matches Ok(roster) && {
                &&& roster@.matches(spec@)
                &&& roster@.parent_alias == parent_alias@
                &&& roster@.boxes.len() == spec@.boxes.len()
                &&& forall|i: int|
                    0 <= i < spec@.boxes.len() ==> {
                        let entry = #[trigger] roster@.boxes[i];
                        &&& entry.box_id == spec@.boxes[i].box_id
                        &&& entry.role == spec@.boxes[i].role
                        &&& entry.job == spec@.boxes[i].job
                        &&& entry.slot == spec@.boxes[i].slot
                    }
                &&& forall|i: int|
                    0 <= i < answers.len() ==> {
                        &&& (#[trigger] answers@[i])@.envelope == EnvelopeView::Built(
                            roster@.boxes[i].context,
                        )
                        &&& answers@[i]@.identity == Ok::<Seq<char>, Seq<char>>(
                            roster@.boxes[i].agent_id,
                        )
                    }
            },
        },
{
    let ghost given = text::views(answers@);
    let ghost ags = text::views(agents@);
    let mut build: RosterBuild<C> = match RosterBuild::begin(spec, parent_alias, agents) {
        Ok(build) => build,
        Err(e) => {
            return Err(e);
        },
    };
    if let Err(reason) = parent {
        return Err(build.parent_refused(reason));
    }
    let mut rest = answers;
    assert(given.skip(0) =~= given);
    while rest.len() > 0
        invariant
            build@.wf(),
            build@.swarm_id == spec@.id,
            build@.parent_alias == parent_alias@,
            build@.agents == ags,
            build@.specs == spec@.boxes,
            given.len() == spec@.boxes.len(),
            given.len() == build@.boxes.len() + rest.len(),
            text::views(rest@) == given.skip(build@.boxes.len() as int),
            shape_refusal(spec@) is None,
            first_refusal(spec@, parent_alias@, ags, given, 0) == first_refusal(
                spec@,
                parent_alias@,
                ags,
                given,
                build@.boxes.len() as int,
            ),
            forall|i: int|
                0 <= i < build@.boxes.len() ==> {
                    &&& (#[trigger] given[i]).envelope == EnvelopeView::Built(
                        build@.boxes[i].context,
                    )
                    &&& given[i].identity == Ok::<Seq<char>, Seq<char>>(build@.boxes[i].agent_id)
                },
        decreases rest.len(),
    {
        let ghost k = build@.boxes.len() as int;
        assert(given[k] == rest@[0]@) by {
            assert(text::views(rest@)[0] == given.skip(k)[0]);
        }
        match build.plan_next() {
            Ok(_) => {},
            Err(e) => {
                return Err(e);
            },
        }
        let ghost before = rest@;
        let answer = rest.remove(0);
        let context = match answer.envelope {
            Envelope::Built(context) => context,
            Envelope::ParentGone(reason) => {
                return Err(build.parent_refused(reason));
            },
            Envelope::Refused(reason) => {
                return Err(build.envelope_refused(reason));
            },
        };
        let agent_id = match answer.identity {
            Ok(id) => id,
            Err(reason) => {
                return Err(build.identity_refused(reason));
            },
        };
        build.add_box(context, agent_id);
        proof {
            assert(text::views(rest@) =~= given.skip(k + 1)) by {
                assert forall|j: int| 0 <= j < rest@.len() implies rest@[j]@ == given[k + 1 + j] by {
                    assert(rest@[j] == before[j + 1]);
                    assert(text::views(before)[j + 1] == given.skip(k)[j + 1]);
                }
            }
        }
    }
    proof {
        finished_rosters_are_sound(build@, spec@);
        assert forall|i: int| 0 <= i < given.len() implies (#[trigger] answers@[i])@ == given[i] by {}
    }
    match build.finish() {
        Some(roster) => Ok(roster),
        None => Err(RosterError::EmptyRoster { swarm_id: spec.id.clone() }),
    }
}

// ── Laws ────────────────────────────────────────────────────────────

/// An id is usable exactly where it has one to sixty-four bytes and consists of ASCII
/// letters, digits, `-` and `_`.
pub proof fn what_makes_an_id_usable(id: Seq<char>)
    ensures
        id_problem(id) is None <==> {
            &&& id.len() > 0
            &&& text::byte_len(id) <= 64
            &&& forall|i: int| 0 <= i < id.len() ==> text::slug_char(#[trigger] id[i])
        },
{
    text::sluggable_everywhere(id);
}

/// The entry of a box in its swarm's roster: what its spec says, under an alias made of the
/// swarm and the box, with the context and the identity that it was given.
pub proof fn an_entry_is_its_box<C>(
    swarm_id: Seq<char>,
    spec: BoxSpecView,
    context: C,
    agent_id: Seq<char>,
)
    ensures
        ({
            let entry = built_box(swarm_id, spec, context, agent_id);
            &&& entry.box_id == spec.box_id
            &&& entry.role == spec.role
            &&& entry.job == spec.job
            &&& entry.slot == spec.slot
            &&& entry.alias == "swarm"@ + "/"@ + swarm_id + "/"@ + spec.box_id
            &&& entry.context == context
            &&& entry.agent_id == agent_id
        }),
{
}

/// A box writes under its own identity, in its swarm's namespace, and reads what the boxes
/// of its roster wrote; a backend that cannot hold it to that is refused.
pub proof fn a_box_writes_as_itself<C>(roster: RosterView<C>, i: int, j: int, honors: bool)
    requires
        0 <= i < roster.boxes.len(),
        0 <= j < roster.boxes.len(),
    ensures
        roster.scope(i).agent_id == roster.boxes[i].agent_id,
        roster.scope(i).namespace == "swarm/"@ + roster.swarm_id,
        roster.scope(i).allowlist.len() == roster.boxes.len(),
        roster.scope(i).allowlist[j] == roster.boxes[j].agent_id,
        memory_refusal(roster.swarm_id, honors) is None <==> honors,
        memory_refusal(roster.swarm_id, honors) matches Some(e) ==> e == (
        RosterErrorView::UnscopedMemory { swarm_id: roster.swarm_id }),
{
}

/// The ids, the identities and the aliases of a roster stand in the order of its boxes.
pub proof fn a_roster_lists_its_boxes<C>(roster: RosterView<C>, i: int)
    requires
        0 <= i < roster.boxes.len(),
    ensures
        roster.ids().len() == roster.boxes.len(),
        roster.ids()[i] == roster.boxes[i].box_id,
        roster.identities().len() == roster.boxes.len(),
        roster.identities()[i] == roster.boxes[i].agent_id,
{
}

/// Nothing is wrong with the `i`-th box: its id is usable and no earlier box has it, its
/// alias is no configured agent's, and it got an envelope and an identity.
pub open spec fn sound_box<C>(
    spec: SwarmSpecView,
    agents: Seq<Seq<char>>,
    answers: Seq<BoxAnswerView<C>>,
    i: int,
) -> bool {
    &&& id_problem(spec.boxes[i].box_id) is None
    &&& forall|j: int| 0 <= j < i ==> (#[trigger] spec.boxes[j]).box_id != spec.boxes[i].box_id
    &&& !agents.contains("swarm"@ + "/"@ + spec.id + "/"@ + spec.boxes[i].box_id)
    &&& answers[i].envelope is Built
    &&& answers[i].identity is Ok
}

proof fn sound_boxes_pass<C>(
    spec: SwarmSpecView,
    parent_alias: Seq<char>,
    agents: Seq<Seq<char>>,
    answers: Seq<BoxAnswerView<C>>,
    i: int,
)
    requires
        0 <= i < spec.boxes.len(),
    ensures
        step_refusal(spec, parent_alias, agents, answers, i) is None <==> sound_box(
            spec,
            agents,
            answers,
            i,
        ),
{
    let ids = spec_ids(spec.boxes).take(i);
    let id = spec.boxes[i].box_id;
    if ids.contains(id) {
        let j = choose|j: int| 0 <= j < ids.len() && ids[j] == id;
        assert(spec.boxes[j].box_id == id);
    }
    if exists|j: int| 0 <= j < i && (#[trigger] spec.boxes[j]).box_id == id {
        let j = choose|j: int| 0 <= j < i && (#[trigger] spec.boxes[j]).box_id == id;
        assert(ids[j] == id);
    }
}

proof fn the_first_unsound_box_decides<C>(
    spec: SwarmSpecView,
    parent_alias: Seq<char>,
    agents: Seq<Seq<char>>,
    answers: Seq<BoxAnswerView<C>>,
    from: int,
)
    requires
        0 <= from <= spec.boxes.len(),
    ensures
        first_refusal(spec, parent_alias, agents, answers, from) is None <==> forall|i: int|
            from <= i < spec.boxes.len() ==> #[trigger] sound_box(spec, agents, answers, i),
        forall|k: int|
            from <= k < spec.boxes.len() && !(#[trigger] sound_box(spec, agents, answers, k)) && (
            forall|i: int| from <= i < k ==> #[trigger] sound_box(spec, agents, answers, i))
                ==> first_refusal(spec, parent_alias, agents, answers, from) == step_refusal(
                spec,
                parent_alias,
                agents,
                answers,
                k,
            ),
    decreases spec.boxes.len() - from,
{
    if from < spec.boxes.len() {
        sound_boxes_pass(spec, parent_alias, agents, answers, from);
        the_first_unsound_box_decides(spec, parent_alias, agents, answers, from + 1);
        assert(sound_box(spec, agents, answers, from) || !sound_box(spec, agents, answers, from));
    }
}

/// A roster is built exactly where the swarm's id is usable, there are one to sixteen boxes,
/// the parent could be resolved, and nothing is wrong with any box; and where something is,
/// the first box that it is wrong with is what the refusal is about.
pub proof fn when_a_roster_is_built<C>(
    spec: SwarmSpecView,
    parent_alias: Seq<char>,
    agents: Seq<Seq<char>>,
    parent: Result<(), Seq<char>>,
    answers: Seq<BoxAnswerView<C>>,
    k: int,
)
    ensures
        ({
            let refusal = build_refusal(spec, parent_alias, agents, parent, answers);
            let shaped = id_problem(spec.id) is None && 1 <= spec.boxes.len() <= 16;
            &&& refusal is None <==> shaped && parent is Ok && forall|i: int|
                0 <= i < spec.boxes.len() ==> #[trigger] sound_box(spec, agents, answers, i)
            &&& id_problem(spec.id) matches Some(reason) ==> refusal == Some(
                RosterErrorView::InvalidId { field: "id"@, value: spec.id, reason },
            )
            &&& id_problem(spec.id) is None && spec.boxes.len() == 0 ==> refusal == Some(
                RosterErrorView::EmptyRoster { swarm_id: spec.id },
            )
            &&& id_problem(spec.id) is None && spec.boxes.len() > 16 ==> refusal == Some(
                RosterErrorView::RosterTooLarge { swarm_id: spec.id, size: spec.boxes.len() },
            )
            &&& shaped ==> (parent matches Err(reason) ==> refusal == Some(
                RosterErrorView::Parent { alias: parent_alias, reason },
            ))
            &&& shaped && parent is Ok && 0 <= k < spec.boxes.len() && !sound_box(
                spec,
                agents,
                answers,
                k,
            ) && (forall|i: int| 0 <= i < k ==> #[trigger] sound_box(spec, agents, answers, i))
                ==> refusal is Some && refusal == step_refusal(
                spec,
                parent_alias,
                agents,
                answers,
                k,
            )
        }),
{
    the_first_unsound_box_decides(spec, parent_alias, agents, answers, 0);
    if 0 <= k < spec.boxes.len() {
        sound_boxes_pass(spec, parent_alias, agents, answers, k);
    }
}

/// What a refusal over one box says: first that its id is unusable, then that it is listed
/// twice, then that its alias is taken, then that it got no envelope, and last that it got
/// no identity.
pub proof fn what_a_box_is_refused_for<C>(
    spec: SwarmSpecView,
    parent_alias: Seq<char>,
    agents: Seq<Seq<char>>,
    answers: Seq<BoxAnswerView<C>>,
    i: int,
)
    requires
        0 <= i < spec.boxes.len(),
    ensures
        ({
            let refusal = step_refusal(spec, parent_alias, agents, answers, i);
            let id = spec.boxes[i].box_id;
            let alias = "swarm"@ + "/"@ + spec.id + "/"@ + id;
            let usable = id_problem(id) is None;
            let twice = exists|j: int| 0 <= j < i && (#[trigger] spec.boxes[j]).box_id == id;
            let taken = agents.contains(alias);
            let free = usable && !twice && !taken;
            &&& id_problem(id) matches Some(reason) ==> refusal == Some(
                RosterErrorView::InvalidId { field: "box id"@, value: id, reason },
            )
            &&& usable && twice ==> refusal == Some(
                RosterErrorView::DuplicateBox { swarm_id: spec.id, box_id: id },
            )
            &&& usable && !twice && taken ==> refusal == Some(
                RosterErrorView::AliasCollision { alias },
            )
            &&& free ==> (answers[i].envelope matches EnvelopeView::ParentGone(reason) ==> refusal
                == Some(RosterErrorView::Parent { alias: parent_alias, reason }))
            &&& free ==> (answers[i].envelope matches EnvelopeView::Refused(reason) ==> refusal
                == Some(
                RosterErrorView::PolicyEscalation { box_id: id, parent_alias, reason },
            ))
            &&& free && answers[i].envelope is Built ==> (answers[i].identity matches Err(reason)
                ==> refusal == Some(RosterErrorView::Identity { alias, reason }))
        }),
{
    let ids = spec_ids(spec.boxes).take(i);
    let id = spec.boxes[i].box_id;
    if ids.contains(id) {
        let j = choose|j: int| 0 <= j < ids.len() && ids[j] == id;
        assert(spec.boxes[j].box_id == id);
    }
    if exists|j: int| 0 <= j < i && (#[trigger] spec.boxes[j]).box_id == id {
        let j = choose|j: int| 0 <= j < i && (#[trigger] spec.boxes[j]).box_id == id;
        assert(ids[j] == id);
    }
}

/// What an error says names the id, the box, the alias or the swarm that it is about, and why.
pub proof fn roster_errors_say_what_they_are_about(
    swarm_id: Seq<char>,
    box_id: Seq<char>,
    reason: Seq<char>,
    field: Seq<char>,
    size: nat,
)
    ensures
        text::stands_in(
            field + " "@ + text::quoted(box_id) + " is unusable: "@ + reason,
            (RosterErrorView::InvalidId { field, value: box_id, reason }).text(),
        ),
        text::stands_in(
            text::quoted(swarm_id),
            (RosterErrorView::EmptyRoster { swarm_id }).text(),
        ),
        text::stands_in(
            text::quoted(swarm_id) + " has "@ + text::numeral(size),
            (RosterErrorView::RosterTooLarge { swarm_id, size }).text(),
        ),
        text::stands_in(
            text::quoted(swarm_id) + " lists box "@ + text::quoted(box_id),
            (RosterErrorView::DuplicateBox { swarm_id, box_id }).text(),
        ),
{
    assert(text::stands_in(
        field + " "@ + text::quoted(box_id) + " is unusable: "@ + reason,
        (RosterErrorView::InvalidId { field, value: box_id, reason }).text(),
    )) by {
        assert("swarm "@ + (field + " "@ + text::quoted(box_id) + " is unusable: "@ + reason) + (Seq::<char>::empty())
            =~= (RosterErrorView::InvalidId { field, value: box_id, reason }).text());
        text::stands_between(
            "swarm "@,
            field + " "@ + text::quoted(box_id) + " is unusable: "@ + reason,
            Seq::<char>::empty(),
        );
    }
    assert(text::stands_in(
        text::quoted(swarm_id),
        (RosterErrorView::EmptyRoster { swarm_id }).text(),
    )) by {
        assert("swarm "@ + (text::quoted(swarm_id)) + (" has no boxes"@)
            =~= (RosterErrorView::EmptyRoster { swarm_id }).text());
        text::stands_between(
            "swarm "@,
            text::quoted(swarm_id),
            " has no boxes"@,
        );
    }
    assert(text::stands_in(
        text::quoted(swarm_id) + " has "@ + text::numeral(size),
        (RosterErrorView::RosterTooLarge { swarm_id, size }).text(),
    )) by {
        assert("swarm "@ + (text::quoted(swarm_id) + " has "@ + text::numeral(size)) + (" boxes; the maximum roster is "@ + text::numeral(16))
            =~= (RosterErrorView::RosterTooLarge { swarm_id, size }).text());
        text::stands_between(
            "swarm "@,
            text::quoted(swarm_id) + " has "@ + text::numeral(size),
            " boxes; the maximum roster is "@ + text::numeral(16),
        );
    }
    assert(text::stands_in(
        text::quoted(swarm_id) + " lists box "@ + text::quoted(box_id),
        (RosterErrorView::DuplicateBox { swarm_id, box_id }).text(),
    )) by {
        assert("swarm "@ + (text::quoted(swarm_id) + " lists box "@ + text::quoted(box_id)) + (" more than once"@)
            =~= (RosterErrorView::DuplicateBox { swarm_id, box_id }).text());
        text::stands_between(
            "swarm "@,
            text::quoted(swarm_id) + " lists box "@ + text::quoted(box_id),
            " more than once"@,
        );
    }
}

/// What an error says of a policy that goes too far names the box, the parent and the reason.
pub proof fn an_escalation_names_its_box(
    box_id: Seq<char>,
    alias: Seq<char>,
    reason: Seq<char>,
)
    ensures
        text::stands_in(
            text::quoted(box_id) + " requested a policy outside the "@ + text::quoted(alias) + " envelope: "@ + reason,
            (RosterErrorView::PolicyEscalation { box_id, parent_alias: alias, reason }).text(),
        ),
{
    assert(text::stands_in(
        text::quoted(box_id) + " requested a policy outside the "@ + text::quoted(alias) + " envelope: "@ + reason,
        (RosterErrorView::PolicyEscalation { box_id, parent_alias: alias, reason }).text(),
    )) by {
        assert("box "@ + (text::quoted(box_id) + " requested a policy outside the "@ + text::quoted(alias) + " envelope: "@ + reason) + ("; a box may only narrow it"@)
            =~= (RosterErrorView::PolicyEscalation { box_id, parent_alias: alias, reason }).text());
        text::stands_between(
            "box "@,
            text::quoted(box_id) + " requested a policy outside the "@ + text::quoted(alias) + " envelope: "@ + reason,
            "; a box may only narrow it"@,
        );
    }
}

/// What an error says of an alias, a parent or a memory names what it is about, and why.
pub proof fn aliases_and_parents_are_named(
    swarm_id: Seq<char>,
    alias: Seq<char>,
    reason: Seq<char>,
)
    ensures
        text::stands_in(
            text::quoted(alias),
            (RosterErrorView::AliasCollision { alias }).text(),
        ),
        text::stands_in(
            text::quoted(alias) + ": "@ + reason,
            (RosterErrorView::Parent { alias, reason }).text(),
        ),
        text::stands_in(
            text::quoted(alias) + ": "@ + reason,
            (RosterErrorView::Identity { alias, reason }).text(),
        ),
        text::stands_in(
            text::quoted(swarm_id),
            (RosterErrorView::UnscopedMemory { swarm_id }).text(),
        ),
{
    assert(text::stands_in(
        text::quoted(alias),
        (RosterErrorView::AliasCollision { alias }).text(),
    )) by {
        assert("the synthetic alias "@ + (text::quoted(alias)) + (" collides with a configured agent"@)
            =~= (RosterErrorView::AliasCollision { alias }).text());
        text::stands_between(
            "the synthetic alias "@,
            text::quoted(alias),
            " collides with a configured agent"@,
        );
    }
    assert(text::stands_in(
        text::quoted(alias) + ": "@ + reason,
        (RosterErrorView::Parent { alias, reason }).text(),
    )) by {
        assert("cannot resolve the parent envelope from agent "@ + (text::quoted(alias) + ": "@ + reason) + (Seq::<char>::empty())
            =~= (RosterErrorView::Parent { alias, reason }).text());
        text::stands_between(
            "cannot resolve the parent envelope from agent "@,
            text::quoted(alias) + ": "@ + reason,
            Seq::<char>::empty(),
        );
    }
    assert(text::stands_in(
        text::quoted(alias) + ": "@ + reason,
        (RosterErrorView::Identity { alias, reason }).text(),
    )) by {
        assert("could not mint a memory identity for "@ + (text::quoted(alias) + ": "@ + reason) + (Seq::<char>::empty())
            =~= (RosterErrorView::Identity { alias, reason }).text());
        text::stands_between(
            "could not mint a memory identity for "@,
            text::quoted(alias) + ": "@ + reason,
            Seq::<char>::empty(),
        );
    }
    assert(text::stands_in(
        text::quoted(swarm_id),
        (RosterErrorView::UnscopedMemory { swarm_id }).text(),
    )) by {
        assert("swarm "@ + (text::quoted(swarm_id)) + (" needs a memory backend that honors the per-agent allowlist"@)
            =~= (RosterErrorView::UnscopedMemory { swarm_id }).text());
        text::stands_between(
            "swarm "@,
            text::quoted(swarm_id),
            " needs a memory backend that honors the per-agent allowlist"@,
        );
    }
}

} // verus!
