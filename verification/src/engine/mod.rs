//! The swarm orchestrator engine: the per-run driver.
//!
//! Each live swarm has one run that holds the store claim, plans rounds with an
//! orchestrator, and lets it delegate subtasks to the roster's boxes. Every turn is
//! admitted against the swarm's budget first: reaching any of the three ceilings
//! parks the run rather than failing it.

use vstd::prelude::*;

pub mod run;
pub mod supervisor;
pub mod tools;

pub use run::{DriverExit, SwarmRunState};
pub use supervisor::SwarmEngine;
pub use tools::{BarredTools, BoxTools, GrantedTool, ToolKind};

use crate::roster;
use crate::roster::swarm_box_alias;
use crate::text;
use crate::text::quote;
use crate::store::{StoreError, StoreErrorView};

verus! {

/// The turn budget's three axes. A run parks when spend reaches any one.
#[derive(Debug, Clone, Copy, PartialEq, Eq, Structural)]
pub enum BudgetAxis {
    Turns,
    Tokens,
    Cost,
}

impl BudgetAxis {
    /// The label of an axis.
    pub open spec fn label(self) -> Seq<char> {
        match self {
            BudgetAxis::Turns => "turns"@,
            BudgetAxis::Tokens => "tokens"@,
            BudgetAxis::Cost => "cost"@,
        }
    }

    /// Stable label.
    pub fn as_str(self) -> (r: &'static str)
        ensures
            r@ == self.label(),
    {
        match self {
            BudgetAxis::Turns => "turns",
            BudgetAxis::Tokens => "tokens",
            BudgetAxis::Cost => "cost",
        }
    }
}

/// Result of admitting one turn against the budget.
#[derive(Debug, Clone, Copy, PartialEq, Eq, Structural)]
pub enum BudgetAdmission {
    Admitted,
    Exhausted(BudgetAxis),
}

/// Why a box delegation could not produce a result.
#[derive(Debug, PartialEq, Eq)]
pub enum BoxTurnError {
    /// The budget was exhausted before the turn could be admitted; no turn ran.
    BudgetExhausted(BudgetAxis),
    /// The named box is not on this swarm's roster.
    UnknownBox(String),
    /// A user is talking to the box; no turn ran.
    UserEngaged(String),
    /// The swarm has no live run.
    NotRunning(String),
    /// The box turn itself failed (build or agent error).
    Turn(String),
}

/// A delegation failure as plain values.
#[verifier::ext_equal]
pub enum BoxTurnErrorView {
    BudgetExhausted(BudgetAxis),
    UnknownBox(Seq<char>),
    UserEngaged(Seq<char>),
    NotRunning(Seq<char>),
    Turn(Seq<char>),
}

impl View for BoxTurnError {
    type V = BoxTurnErrorView;

    open spec fn view(&self) -> BoxTurnErrorView {
        match self {
            BoxTurnError::BudgetExhausted(axis) => BoxTurnErrorView::BudgetExhausted(*axis),
            BoxTurnError::UnknownBox(b) => BoxTurnErrorView::UnknownBox(b@),
            BoxTurnError::UserEngaged(b) => BoxTurnErrorView::UserEngaged(b@),
            BoxTurnError::NotRunning(s) => BoxTurnErrorView::NotRunning(s@),
            BoxTurnError::Turn(m) => BoxTurnErrorView::Turn(m@),
        }
    }
}

impl BoxTurnErrorView {
    /// What the failure says.
    pub open spec fn text(self) -> Seq<char> {
        match self {
            BoxTurnErrorView::BudgetExhausted(axis) => {
                "swarm budget exhausted on the "@ + axis.label() + " axis"@
            },
            BoxTurnErrorView::UnknownBox(b) => {
                "box "@ + text::quoted(b) + " is not on this swarm's roster"@
            },
            BoxTurnErrorView::UserEngaged(b) => {
                "box "@ + text::quoted(b) + " is engaged with a user"@
            },
            BoxTurnErrorView::NotRunning(s) => "swarm "@ + text::quoted(s) + " is not running"@,
            BoxTurnErrorView::Turn(m) => "box turn failed: "@ + m,
        }
    }
}

impl BoxTurnError {
    /// What the failure says.
    pub fn message(&self) -> (r: String)
        ensures
            r@ == self@.text(),
    {
        match self {
            BoxTurnError::BudgetExhausted(axis) => {
                "swarm budget exhausted on the ".to_owned().concat(axis.as_str()).concat(" axis")
            },
            BoxTurnError::UnknownBox(b) => {
                "box ".to_owned().concat(quote(b.as_str()).as_str()).concat(
                    " is not on this swarm's roster",
                )
            },
            BoxTurnError::UserEngaged(b) => {
                "box ".to_owned().concat(quote(b.as_str()).as_str()).concat(
                    " is engaged with a user",
                )
            },
            BoxTurnError::NotRunning(s) => {
                "swarm ".to_owned().concat(quote(s.as_str()).as_str()).concat(" is not running")
            },
            BoxTurnError::Turn(m) => "box turn failed: ".to_owned().concat(m.as_str()),
        }
    }
}

/// Why an engine lifecycle call was refused.
#[derive(Debug, PartialEq, Eq)]
pub enum SwarmEngineError {
    NotFound(String),
    Terminal(String),
    AlreadyClaimed(String),
    NotRunning { swarm_id: String },
    Store(StoreError),
    Roster(String),
    Board(String),
}

/// An engine refusal as plain values.
#[verifier::ext_equal]
pub enum EngineErrorView {
    NotFound(Seq<char>),
    Terminal(Seq<char>),
    AlreadyClaimed(Seq<char>),
    NotRunning { swarm_id: Seq<char> },
    Store(StoreErrorView),
    Roster(Seq<char>),
    Board(Seq<char>),
}

impl View for SwarmEngineError {
    type V = EngineErrorView;

    open spec fn view(&self) -> EngineErrorView {
        match self {
            SwarmEngineError::NotFound(s) => EngineErrorView::NotFound(s@),
            SwarmEngineError::Terminal(s) => EngineErrorView::Terminal(s@),
            SwarmEngineError::AlreadyClaimed(s) => EngineErrorView::AlreadyClaimed(s@),
            SwarmEngineError::NotRunning { swarm_id } => EngineErrorView::NotRunning {
                swarm_id: swarm_id@,
            },
            SwarmEngineError::Store(e) => EngineErrorView::Store(e@),
            SwarmEngineError::Roster(m) => EngineErrorView::Roster(m@),
            SwarmEngineError::Board(m) => EngineErrorView::Board(m@),
        }
    }
}

impl EngineErrorView {
    /// What the refusal says.
    pub open spec fn text(self) -> Seq<char> {
        match self {
            EngineErrorView::NotFound(s) => "no swarm found for id "@ + text::quoted(s),
            EngineErrorView::Terminal(s) => {
                "swarm "@ + text::quoted(s) + " is terminal and cannot be driven"@
            },
            EngineErrorView::AlreadyClaimed(s) => {
                "swarm "@ + text::quoted(s) + " is already claimed by another driver"@
            },
            EngineErrorView::NotRunning { swarm_id } => {
                "swarm "@ + text::quoted(swarm_id) + " is not running"@
            },
            EngineErrorView::Store(e) => "swarm store error: "@ + e.text(),
            EngineErrorView::Roster(m) => "roster build failed: "@ + m,
            EngineErrorView::Board(m) => "board registration failed: "@ + m,
        }
    }
}

impl SwarmEngineError {
    /// What the refusal says.
    pub fn message(&self) -> (r: String)
        ensures
            r@ == self@.text(),
    {
        match self {
            SwarmEngineError::NotFound(s) => {
                "no swarm found for id ".to_owned().concat(quote(s.as_str()).as_str())
            },
            SwarmEngineError::Terminal(s) => {
                "swarm ".to_owned().concat(quote(s.as_str()).as_str()).concat(
                    " is terminal and cannot be driven",
                )
            },
            SwarmEngineError::AlreadyClaimed(s) => {
                "swarm ".to_owned().concat(quote(s.as_str()).as_str()).concat(
                    " is already claimed by another driver",
                )
            },
            SwarmEngineError::NotRunning { swarm_id } => {
                "swarm ".to_owned().concat(quote(swarm_id.as_str()).as_str()).concat(
                    " is not running",
                )
            },
            SwarmEngineError::Store(e) => {
                "swarm store error: ".to_owned().concat(e.message().as_str())
            },
            SwarmEngineError::Roster(m) => "roster build failed: ".to_owned().concat(m.as_str()),
            SwarmEngineError::Board(m) => {
                "board registration failed: ".to_owned().concat(m.as_str())
            },
        }
    }
}

// ── What a run reports and runs with ────────────────────────────────

/// How a run stands in the task control plane.
#[derive(Debug, Clone, Copy, PartialEq, Eq, Structural)]
pub enum TaskStatus {
    Running,
    Paused,
    Completed,
    Cancelled,
}

/// What the control plane is told when a driver exits; nothing where the run was
/// cancelled, since the stop reports that.
pub fn task_status(exit: DriverExit) -> (r: Option<TaskStatus>)
    ensures
        r == (match exit {
            DriverExit::Completed => Some(TaskStatus::Completed),
            DriverExit::BudgetExhausted => Some(TaskStatus::Paused),
            DriverExit::Paused => Some(TaskStatus::Paused),
            DriverExit::Cancelled => None,
        }),
{
    match exit {
        DriverExit::Completed => Some(TaskStatus::Completed),
        DriverExit::BudgetExhausted | DriverExit::Paused => Some(TaskStatus::Paused),
        DriverExit::Cancelled => None,
    }
}

/// The record of a run in the task control plane.
#[derive(Debug, PartialEq, Eq)]
pub struct SwarmTask {
    /// The swarm's id.
    pub id: String,
    /// The agent whose envelope the run works in.
    pub agent: String,
    pub status: TaskStatus,
    pub owner_pid: u32,
    pub owner_boot_id: String,
    pub heartbeat_at: Option<String>,
    pub started_at: String,
}

/// The record of a run that starts at `now`.
pub fn swarm_task(swarm_id: &str, agent: &str, pid: u32, boot_id: &str, now: &str) -> (r: SwarmTask)
    ensures
        r.id@ == swarm_id@,
        r.agent@ == agent@,
        r.status == TaskStatus::Running,
        r.owner_pid == pid,
        r.owner_boot_id@ == boot_id@,
        r.heartbeat_at matches Some(t) && t@ == now@,
        r.started_at@ == now@,
{
    SwarmTask {
        id: swarm_id.to_owned(),
        agent: agent.to_owned(),
        status: TaskStatus::Running,
        owner_pid: pid,
        owner_boot_id: boot_id.to_owned(),
        heartbeat_at: Some(now.to_owned()),
        started_at: now.to_owned(),
    }
}

/// The alias that the orchestrator of a swarm runs under.
pub fn orchestrator_alias(swarm_id: &str) -> (r: String)
    ensures
        r@ == roster::box_alias(swarm_id@, "orchestrator"@),
{
    swarm_box_alias(swarm_id, "orchestrator")
}

/// What a failed turn and a failed operation say names the axis, the box or the swarm that they are
/// about, or what went wrong.
pub proof fn failures_say_what_they_are_about(
    axis: BudgetAxis,
    b: Seq<char>,
    id: Seq<char>,
    m: Seq<char>,
)
    ensures
        text::stands_in(
            axis.label(),
            BoxTurnErrorView::BudgetExhausted(axis).text(),
        ),
        text::stands_in(
            text::quoted(b),
            BoxTurnErrorView::UnknownBox(b).text(),
        ),
        text::stands_in(
            text::quoted(b),
            BoxTurnErrorView::UserEngaged(b).text(),
        ),
        text::stands_in(
            text::quoted(id),
            BoxTurnErrorView::NotRunning(id).text(),
        ),
        text::stands_in(
            m,
            BoxTurnErrorView::Turn(m).text(),
        ),
        text::stands_in(
            text::quoted(id),
            EngineErrorView::NotFound(id).text(),
        ),
        text::stands_in(
            text::quoted(id),
            EngineErrorView::Terminal(id).text(),
        ),
        text::stands_in(
            text::quoted(id),
            EngineErrorView::AlreadyClaimed(id).text(),
        ),
        text::stands_in(
            text::quoted(id),
            (EngineErrorView::NotRunning { swarm_id: id }).text(),
        ),
        text::stands_in(
            m,
            EngineErrorView::Roster(m).text(),
        ),
        text::stands_in(
            m,
            EngineErrorView::Board(m).text(),
        ),
{
    assert(text::stands_in(
        axis.label(),
        BoxTurnErrorView::BudgetExhausted(axis).text(),
    )) by {
        assert("swarm budget exhausted on the "@ + (axis.label()) + (" axis"@)
            =~= BoxTurnErrorView::BudgetExhausted(axis).text());
        text::stands_between(
            "swarm budget exhausted on the "@,
            axis.label(),
            " axis"@,
        );
    }
    assert(text::stands_in(
        text::quoted(b),
        BoxTurnErrorView::UnknownBox(b).text(),
    )) by {
        assert("box "@ + (text::quoted(b)) + (" is not on this swarm's roster"@)
            =~= BoxTurnErrorView::UnknownBox(b).text());
        text::stands_between(
            "box "@,
            text::quoted(b),
            " is not on this swarm's roster"@,
        );
    }
    assert(text::stands_in(
        text::quoted(b),
        BoxTurnErrorView::UserEngaged(b).text(),
    )) by {
        assert("box "@ + (text::quoted(b)) + (" is engaged with a user"@)
            =~= BoxTurnErrorView::UserEngaged(b).text());
        text::stands_between(
            "box "@,
            text::quoted(b),
            " is engaged with a user"@,
        );
    }
    assert(text::stands_in(
        text::quoted(id),
        BoxTurnErrorView::NotRunning(id).text(),
    )) by {
        assert("swarm "@ + (text::quoted(id)) + (" is not running"@)
            =~= BoxTurnErrorView::NotRunning(id).text());
        text::stands_between(
            "swarm "@,
            text::quoted(id),
            " is not running"@,
        );
    }
    assert(text::stands_in(
        m,
        BoxTurnErrorView::Turn(m).text(),
    )) by {
        assert("box turn failed: "@ + (m) + (Seq::<char>::empty())
            =~= BoxTurnErrorView::Turn(m).text());
        text::stands_between(
            "box turn failed: "@,
            m,
            Seq::<char>::empty(),
        );
    }
    assert(text::stands_in(
        text::quoted(id),
        EngineErrorView::NotFound(id).text(),
    )) by {
        assert("no swarm found for id "@ + (text::quoted(id)) + (Seq::<char>::empty())
            =~= EngineErrorView::NotFound(id).text());
        text::stands_between(
            "no swarm found for id "@,
            text::quoted(id),
            Seq::<char>::empty(),
        );
    }
    assert(text::stands_in(
        text::quoted(id),
        EngineErrorView::Terminal(id).text(),
    )) by {
        assert("swarm "@ + (text::quoted(id)) + (" is terminal and cannot be driven"@)
            =~= EngineErrorView::Terminal(id).text());
        text::stands_between(
            "swarm "@,
            text::quoted(id),
            " is terminal and cannot be driven"@,
        );
    }
    assert(text::stands_in(
        text::quoted(id),
        EngineErrorView::AlreadyClaimed(id).text(),
    )) by {
        assert("swarm "@ + (text::quoted(id)) + (" is already claimed by another driver"@)
            =~= EngineErrorView::AlreadyClaimed(id).text());
        text::stands_between(
            "swarm "@,
            text::quoted(id),
            " is already claimed by another driver"@,
        );
    }
    assert(text::stands_in(
        text::quoted(id),
        (EngineErrorView::NotRunning { swarm_id: id }).text(),
    )) by {
        assert("swarm "@ + (text::quoted(id)) + (" is not running"@)
            =~= (EngineErrorView::NotRunning { swarm_id: id }).text());
        text::stands_between(
            "swarm "@,
            text::quoted(id),
            " is not running"@,
        );
    }
    assert(text::stands_in(
        m,
        EngineErrorView::Roster(m).text(),
    )) by {
        assert("roster build failed: "@ + (m) + (Seq::<char>::empty())
            =~= EngineErrorView::Roster(m).text());
        text::stands_between(
            "roster build failed: "@,
            m,
            Seq::<char>::empty(),
        );
    }
    assert(text::stands_in(
        m,
        EngineErrorView::Board(m).text(),
    )) by {
        assert("board registration failed: "@ + (m) + (Seq::<char>::empty())
            =~= EngineErrorView::Board(m).text());
        text::stands_between(
            "board registration failed: "@,
            m,
            Seq::<char>::empty(),
        );
    }
}

/// The axes of a budget are called by names of their own.
pub proof fn what_the_axes_are_called(a: BudgetAxis, b: BudgetAxis)
    ensures
        a.label() == b.label() ==> a == b,
        BudgetAxis::Turns.label() == "turns"@,
        BudgetAxis::Tokens.label() == "tokens"@,
        BudgetAxis::Cost.label() == "cost"@,
{
    reveal_strlit("turns");
    reveal_strlit("tokens");
    reveal_strlit("cost");
    assert("turns"@.len() == 5 && "tokens"@.len() == 6 && "cost"@.len() == 4);
}

} // verus!
