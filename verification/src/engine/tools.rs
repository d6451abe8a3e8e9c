//! What a box may call: its parent's tools without those that start agents or schedule
//! work, and a board tool of its own.

use vstd::prelude::*;

use super::run::SwarmRunState;
use crate::state_tool::{BoundView, SwarmStateTool};
use crate::text;
use crate::text::contains_text;

verus! {

/// What a tool does to the roster of running agents. The roster of a swarm is fixed, so
/// a box holds no tool of the first three kinds, whatever its parent is granted.
#[derive(Debug, Clone, Copy, PartialEq, Eq, Structural)]
pub enum ToolKind {
    /// Runs an agent turn of its own: a sub-agent, a delegation, a message to a session.
    Reentrant,
    /// Launches an external coding agent.
    Launcher,
    /// Schedules work that runs later, outside the turn.
    Scheduler,
    /// Anything else.
    Other,
}

/// A tool that the parent's envelope grants.
#[derive(Debug)]
pub struct GrantedTool {
    pub name: String,
    pub kind: ToolKind,
}

/// A granted tool as plain values.
#[verifier::ext_equal]
pub struct GrantedToolView {
    pub name: Seq<char>,
    pub kind: ToolKind,
}

impl View for GrantedTool {
    type V = GrantedToolView;

    open spec fn view(&self) -> GrantedToolView {
        GrantedToolView { name: self.name@, kind: self.kind }
    }
}

/// The names of the tools that no box may hold, by kind.
#[derive(Debug)]
pub struct BarredTools {
    pub reentrant: Vec<String>,
    pub launchers: Vec<String>,
    pub schedulers: Vec<String>,
}

/// The names of barred tools as plain values.
#[verifier::ext_equal]
pub struct BarredToolsView {
    pub reentrant: Seq<Seq<char>>,
    pub launchers: Seq<Seq<char>>,
    pub schedulers: Seq<Seq<char>>,
}

impl View for BarredTools {
    type V = BarredToolsView;

    open spec fn view(&self) -> BarredToolsView {
        BarredToolsView {
            reentrant: text::views(self.reentrant@),
            launchers: text::views(self.launchers@),
            schedulers: text::views(self.schedulers@),
        }
    }
}

impl BarredToolsView {
    /// The kind of the tool of that name. One that is on two lists is of the first.
    pub open spec fn kind(self, name: Seq<char>) -> ToolKind {
        if self.reentrant.contains(name) {
            ToolKind::Reentrant
        } else if self.launchers.contains(name) {
            ToolKind::Launcher
        } else if self.schedulers.contains(name) {
            ToolKind::Scheduler
        } else {
            ToolKind::Other
        }
    }

    /// The tools of those names, each with its kind.
    pub open spec fn sorted(self, names: Seq<Seq<char>>) -> Seq<GrantedToolView> {
        Seq::new(
            names.len(),
            |i: int| GrantedToolView { name: names[i], kind: self.kind(names[i]) },
        )
    }
}

impl BarredTools {
    /// The kind of the tool of that name.
    pub fn kind(&self, name: &str) -> (r: ToolKind)
        ensures
            r == self@.kind(name@),
    {
        if contains_text(&self.reentrant, name) {
            ToolKind::Reentrant
        } else if contains_text(&self.launchers, name) {
            ToolKind::Launcher
        } else if contains_text(&self.schedulers, name) {
            ToolKind::Scheduler
        } else {
            ToolKind::Other
        }
    }

    /// The tools of those names, each with its kind.
    pub fn sort(&self, names: Vec<String>) -> (r: Vec<GrantedTool>)
        ensures
            text::views(r@) == self@.sorted(text::views(names@)),
    {
        let mut out: Vec<GrantedTool> = Vec::new();
        let mut i: usize = 0;
        while i < names.len()
            invariant
                i <= names.len(),
                out.len() == i,
                forall|j: int|
                    0 <= j < i ==> (#[trigger] out@[j])@ == (GrantedToolView {
                        name: names@[j]@,
                        kind: self@.kind(names@[j]@),
                    }),
            decreases names.len() - i,
        {
            let name = names[i].clone();
            let kind = self.kind(name.as_str());
            out.push(GrantedTool { name, kind });
            i += 1;
        }
        assert(text::views(out@) =~= self@.sorted(text::views(names@)));
        out
    }
}

/// The tools of one box.
#[derive(Debug)]
pub struct BoxTools {
    /// The names of the granted tools that it keeps.
    pub granted: Vec<String>,
    /// The board tool, bound to the swarm and to the box.
    pub board: SwarmStateTool,
}

/// The tools of one box as plain values.
#[verifier::ext_equal]
pub struct BoxToolsView {
    pub granted: Seq<Seq<char>>,
    pub board: BoundView,
}

impl View for BoxTools {
    type V = BoxToolsView;

    open spec fn view(&self) -> BoxToolsView {
        BoxToolsView { granted: text::views(self.granted@), board: self.board@ }
    }
}

/// The names of those of the first `n` granted tools that a box keeps, in order.
pub open spec fn kept_names(granted: Seq<GrantedToolView>, n: int) -> Seq<Seq<char>>
    decreases n,
{
    if n <= 0 {
        Seq::empty()
    } else {
        let earlier = kept_names(granted, n - 1);
        if granted[n - 1].kind == ToolKind::Other {
            earlier.push(granted[n - 1].name)
        } else {
            earlier
        }
    }
}

/// The tools of the box `box_id` of `swarm_id` whose parent is granted `granted`.
pub open spec fn assembled(
    swarm_id: Seq<char>,
    box_id: Seq<char>,
    granted: Seq<GrantedToolView>,
) -> BoxToolsView {
    BoxToolsView {
        granted: kept_names(granted, granted.len() as int),
        board: BoundView { swarm_id, box_id },
    }
}

fn kept(granted: &Vec<GrantedTool>) -> (r: Vec<String>)
    ensures
        text::views(r@) == kept_names(text::views(granted@), granted.len() as int),
{
    let ghost tools = text::views(granted@);
    let mut out: Vec<String> = Vec::new();
    let mut i: usize = 0;
    assert(text::views(out@) =~= kept_names(tools, 0));
    while i < granted.len()
        invariant
            i <= granted.len(),
            tools == text::views(granted@),
            text::views(out@) == kept_names(tools, i as int),
        decreases granted.len() - i,
    {
        let ghost before = out@;
        let tool = &granted[i];
        assert(tools[i as int] == tool@);
        if tool.kind == ToolKind::Other {
            out.push(tool.name.clone());
            assert(text::views(out@) =~= text::views(before).push(tool.name@));
        }
        i += 1;
    }
    out
}

impl<C> SwarmRunState<C> {
    /// The tools that a box of this run gets, where its parent is granted `granted`:
    /// the granted ones that start no agent and schedule nothing, in order, and the
    /// board tool that speaks as this box on the board of this swarm. `None` where the
    /// roster holds no such box.
    pub fn box_tools(&self, box_id: &str, granted: &Vec<GrantedTool>) -> (r: Option<BoxTools>)
        ensures
            r is Some == self@.roster.ids().contains(box_id@),
            r matches Some(tools) ==> tools@ == assembled(
                self@.id(),
                box_id@,
                text::views(granted@),
            ),
    {
        match self.roster().get(box_id) {
            Some(_) => {
                assert(self@.roster.ids()[text::first_index(self@.roster.ids(), box_id@)]
                    == box_id@);
                Some(
                    BoxTools {
                        granted: kept(granted),
                        board: SwarmStateTool::new(self.swarm_id(), box_id),
                    },
                )
            },
            None => None,
        }
    }
}

// ── Laws ────────────────────────────────────────────────────────────

proof fn kept_means_granted(granted: Seq<GrantedToolView>, n: int, name: Seq<char>)
    requires
        0 <= n <= granted.len(),
    ensures
        kept_names(granted, n).contains(name) <==> exists|i: int|
            0 <= i < n && (#[trigger] granted[i]).name == name && granted[i].kind
                == ToolKind::Other,
    decreases n,
{
    if n > 0 {
        kept_means_granted(granted, n - 1, name);
        let names = kept_names(granted, n);
        let earlier = kept_names(granted, n - 1);
        if names.contains(name) {
            let at = choose|at: int| 0 <= at < names.len() && names[at] == name;
            if at < earlier.len() {
                assert(earlier[at] == name);
            } else {
                assert(granted[n - 1].name == name);
            }
        }
        if earlier.contains(name) {
            let at = choose|at: int| 0 <= at < earlier.len() && earlier[at] == name;
            assert(names[at] == name);
        }
        if granted[n - 1].kind == ToolKind::Other && granted[n - 1].name == name {
            assert(names[names.len() - 1] == name);
        }
    }
}

/// A box cannot spawn: of what its parent is granted it holds a tool exactly where that
/// tool starts no agent, launches no coding agent and schedules nothing, and besides
/// these it holds only the board tool, which speaks as this box and no other.
pub proof fn boxes_cannot_spawn(
    swarm_id: Seq<char>,
    box_id: Seq<char>,
    granted: Seq<GrantedToolView>,
    name: Seq<char>,
)
    ensures
        assembled(swarm_id, box_id, granted).granted.contains(name) <==> exists|i: int|
            0 <= i < granted.len() && (#[trigger] granted[i]).name == name && granted[i].kind
                != ToolKind::Reentrant && granted[i].kind != ToolKind::Launcher && granted[i].kind
                != ToolKind::Scheduler,
        assembled(swarm_id, box_id, granted).board.swarm_id == swarm_id,
        assembled(swarm_id, box_id, granted).board.box_id == box_id,
{
    kept_means_granted(granted, granted.len() as int, name);
}

/// No box holds a tool whose name is barred, and each holds every other tool that its
/// parent is granted.
pub proof fn barred_tools_stay_out(
    swarm_id: Seq<char>,
    box_id: Seq<char>,
    barred: BarredToolsView,
    names: Seq<Seq<char>>,
    name: Seq<char>,
)
    ensures
        assembled(swarm_id, box_id, barred.sorted(names)).granted.contains(name) <==> {
            &&& names.contains(name)
            &&& !barred.reentrant.contains(name)
            &&& !barred.launchers.contains(name)
            &&& !barred.schedulers.contains(name)
        },
{
    let granted = barred.sorted(names);
    kept_means_granted(granted, granted.len() as int, name);
    if names.contains(name) {
        let i = choose|i: int| 0 <= i < names.len() && names[i] == name;
        assert(granted[i].name == name);
    }
}

/// The tools that a box keeps stand in the order in which they are granted.
pub proof fn kept_tools_stay_in_order(
    first: Seq<GrantedToolView>,
    rest: Seq<GrantedToolView>,
    n: int,
)
    requires
        0 <= n <= rest.len(),
    ensures
        kept_names(first + rest, first.len() + n) == kept_names(first, first.len() as int)
            + kept_names(rest, n),
        n > 0 && rest[n - 1].kind == ToolKind::Other ==> kept_names(rest, n).len() > 0
            && kept_names(rest, n).last() == rest[n - 1].name,
    decreases n,
{
    if n > 0 {
        kept_tools_stay_in_order(first, rest, n - 1);
        assert((first + rest)[first.len() + n - 1] == rest[n - 1]);
        assert(kept_names(first + rest, first.len() + n) =~= kept_names(first, first.len() as int)
            + kept_names(rest, n));
    } else {
        beginnings_are_kept_alike(first, rest, first.len() as int);
        assert(kept_names(first, first.len() as int) + kept_names(rest, 0) =~= kept_names(
            first,
            first.len() as int,
        ));
    }
}

proof fn beginnings_are_kept_alike(
    first: Seq<GrantedToolView>,
    rest: Seq<GrantedToolView>,
    n: int,
)
    requires
        0 <= n <= first.len(),
    ensures
        kept_names(first + rest, n) == kept_names(first, n),
    decreases n,
{
    if n > 0 {
        beginnings_are_kept_alike(first, rest, n - 1);
        assert((first + rest)[n - 1] == first[n - 1]);
    }
}

/// A tool is of the kind of the list that names it, and of none of them where no list does.
pub proof fn a_tool_is_of_the_kind_that_names_it(barred: BarredToolsView, name: Seq<char>)
    ensures
        barred.reentrant.contains(name) ==> barred.kind(name) == ToolKind::Reentrant,
        barred.kind(name) == ToolKind::Reentrant ==> barred.reentrant.contains(name),
        barred.launchers.contains(name) && !barred.reentrant.contains(name) <==> barred.kind(name)
            == ToolKind::Launcher,
        barred.kind(name) == ToolKind::Scheduler ==> barred.schedulers.contains(name),
        barred.kind(name) == ToolKind::Other <==> !barred.reentrant.contains(name)
            && !barred.launchers.contains(name) && !barred.schedulers.contains(name),
{
}

} // verus!
