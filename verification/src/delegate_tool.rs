//! The `swarm_delegate` tool: the orchestrator's only handle on its roster.
//!
//! Its parameters enumerate the box ids of the live roster, so an out-of-roster target
//! cannot even be represented; a call is checked again against the roster, for a model
//! that ignores them. Delegating runs the named box's turn and hands its answer back.

use vstd::prelude::*;

use crate::engine::{BoxTurnError, BoxTurnErrorView};
use crate::json;
use crate::text;
use crate::text::{contains_text, copy_texts, join, quote, trim};
use crate::tool;
use crate::tool::{required_str, ToolParameter, ToolParameterView, ToolResult, ToolResultView};

verus! {

/// A delegate tool over the boxes of one roster.
pub struct SwarmDelegateTool {
    box_ids: Vec<String>,
}

impl View for SwarmDelegateTool {
    type V = Seq<Seq<char>>;

    closed spec fn view(&self) -> Seq<Seq<char>> {
        text::views(self.box_ids@)
    }
}

/// A subtask for one box of the roster.
#[derive(Debug, PartialEq, Eq)]
pub struct Delegation {
    pub box_id: String,
    pub subtask: String,
}

/// A delegation as plain values.
#[verifier::ext_equal]
pub struct DelegationView {
    pub box_id: Seq<char>,
    pub subtask: Seq<char>,
}

impl View for Delegation {
    type V = DelegationView;

    open spec fn view(&self) -> DelegationView {
        DelegationView { box_id: self.box_id@, subtask: self.subtask@ }
    }
}

/// What a call asks for, or why it is refused.
pub open spec fn planned(boxes: Seq<Seq<char>>, args: Map<Seq<char>, Seq<char>>) -> Result<
    DelegationView,
    ToolResultView,
> {
    match (tool::member_text(args, "box_id"@), tool::member_text(args, "subtask"@)) {
        (None, _) => Err(ToolResultView::Refused { error: tool::missing("box_id"@) }),
        (Some(_), None) => Err(ToolResultView::Refused { error: tool::missing("subtask"@) }),
        (Some(box_id), Some(subtask)) => if boxes.contains(box_id) {
            Ok(DelegationView { box_id, subtask })
        } else {
            Err(
                ToolResultView::Refused {
                    error: "box "@ + text::quoted(box_id)
                        + " is not on this swarm's roster; valid boxes are: "@ + text::joined(
                        boxes,
                        ", "@,
                    ),
                },
            )
        },
    }
}

/// What the orchestrator is told of a delegation's outcome.
pub open spec fn answered(
    box_id: Seq<char>,
    outcome: Result<Seq<char>, BoxTurnErrorView>,
) -> ToolResultView {
    match outcome {
        Ok(said) => ToolResultView::Done {
            text: if text::trimmed(said).len() == 0 {
                box_id + " completed without output"@
            } else {
                said
            },
            data: None,
        },
        Err(BoxTurnErrorView::BudgetExhausted(axis)) => ToolResultView::Refused {
            error: "swarm budget exhausted on the "@ + axis.label()
                + " axis; no further delegation admitted"@,
        },
        Err(BoxTurnErrorView::UserEngaged(_)) => ToolResultView::Refused {
            error: "box "@ + box_id
                + " is engaged with a user right now; it will be available again once the user hands it back — do not delegate to it until then"@,
        },
        Err(BoxTurnErrorView::Turn(m)) => ToolResultView::Refused {
            error: "box "@ + box_id + " turn failed: "@ + m,
        },
        Err(e) => ToolResultView::Refused { error: e.text() },
    }
}

/// The view of a box turn's outcome.
pub open spec fn outcome_view(outcome: Result<String, BoxTurnError>) -> Result<
    Seq<char>,
    BoxTurnErrorView,
> {
    match outcome {
        Ok(said) => Ok(said@),
        Err(e) => Err(e@),
    }
}

/// What the tool takes: a box of the roster and a subtask.
pub open spec fn delegate_parameters(boxes: Seq<Seq<char>>) -> Seq<ToolParameterView> {
    seq![
        ToolParameterView {
            name: "box_id"@,
            choices: Some(boxes),
            description: "Which roster box handles the subtask."@,
            required: true,
        },
        ToolParameterView {
            name: "subtask"@,
            choices: None,
            description: "The focused, self-contained subtask for the box. The box does not see the orchestrator's conversation."@,
            required: true,
        },
    ]
}

impl SwarmDelegateTool {
    /// Canonical tool name.
    pub const NAME: &'static str = "swarm_delegate";

    /// What the model is told of the tool.
    pub const DESCRIPTION: &'static str = "Delegate a focused subtask to one box of this swarm's roster. The box runs the subtask to completion in its own agent turn under the swarm's shared budget and returns its response. You may only target a box that is on the roster (see the `box_id` enum); there is no way to name an agent outside this swarm.";

    /// A tool over the boxes of a roster.
    pub fn new(box_ids: Vec<String>) -> (r: Self)
        ensures
            r@ == text::views(box_ids@),
    {
        SwarmDelegateTool { box_ids }
    }

    /// The boxes that may be targeted.
    pub fn box_ids(&self) -> (r: Vec<String>)
        ensures
            text::views(r@) == self@,
    {
        copy_texts(&self.box_ids)
    }

    /// Reads a call: which box is to do what, or why the call is refused.
    pub fn plan(&self, args: &serde_json::Value) -> (r: Result<Delegation, ToolResult>)
        ensures
            match planned(self@, json::string_members(*args)) {
                Ok(d) => r matches Ok(x) && x@ == d,
                Err(e) => r matches Err(x) && x@ == e,
            },
    {
        let box_id = match required_str(args, "box_id") {
            Ok(value) => value,
            Err(error) => {
                return Err(ToolResult::Refused { error });
            },
        };
        let subtask = match required_str(args, "subtask") {
            Ok(value) => value,
            Err(error) => {
                return Err(ToolResult::Refused { error });
            },
        };
        if !contains_text(&self.box_ids, box_id) {
            let mut error = "box ".to_owned();
            error.append(quote(box_id).as_str());
            error.append(" is not on this swarm's roster; valid boxes are: ");
            error.append(join(&self.box_ids, ", ").as_str());
            return Err(ToolResult::Refused { error });
        }
        Ok(Delegation { box_id: box_id.to_owned(), subtask: subtask.to_owned() })
    }

    /// Tells the orchestrator what a delegation came to.
    pub fn answer(box_id: &str, outcome: Result<String, BoxTurnError>) -> (r: ToolResult)
        ensures
            r@ == answered(box_id@, outcome_view(outcome)),
    {
        match outcome {
            Ok(said) => {
                let text = if trim(said.as_str()).is_empty() {
                    box_id.to_owned().concat(" completed without output")
                } else {
                    said
                };
                ToolResult::Done { text, data: None }
            },
            Err(BoxTurnError::BudgetExhausted(axis)) => {
                let mut error = "swarm budget exhausted on the ".to_owned();
                error.append(axis.as_str());
                error.append(" axis; no further delegation admitted");
                ToolResult::Refused { error }
            },
            Err(BoxTurnError::UserEngaged(_)) => {
                let mut error = "box ".to_owned();
                error.append(box_id);
                error.append(
                    " is engaged with a user right now; it will be available again once the user hands it back — do not delegate to it until then",
                );
                ToolResult::Refused { error }
            },
            Err(BoxTurnError::Turn(m)) => {
                let mut error = "box ".to_owned();
                error.append(box_id);
                error.append(" turn failed: ");
                error.append(m.as_str());
                ToolResult::Refused { error }
            },
            Err(err) => ToolResult::Refused { error: err.message() },
        }
    }

    /// What the tool takes.
    pub fn parameters(&self) -> (r: Vec<ToolParameter>)
        ensures
            text::views(r@) == delegate_parameters(self@),
    {
        let mut out: Vec<ToolParameter> = Vec::new();
        out.push(
            ToolParameter {
                name: "box_id",
                choices: Some(self.box_ids()),
                description: "Which roster box handles the subtask.",
                required: true,
            },
        );
        out.push(
            ToolParameter {
                name: "subtask",
                choices: None,
                description: "The focused, self-contained subtask for the box. The box does not see the orchestrator's conversation.",
                required: true,
            },
        );
        assert(text::views(out@) =~= delegate_parameters(self@));
        out
    }
}

/// Whatever a call says, only a box of the roster is ever delegated to.
pub proof fn delegation_stays_on_the_roster(
    boxes: Seq<Seq<char>>,
    args: Map<Seq<char>, Seq<char>>,
)
    ensures
        planned(boxes, args) matches Ok(d) ==> boxes.contains(d.box_id) && d.subtask.len() > 0,
{
}

/// A call is carried out exactly where it names a box of the roster and a subtask, and then
/// it asks that box for that subtask, each without the white space around it. Any other call
/// is refused: for the box first, where both are missing.
pub proof fn a_call_asks_for_what_it_names(boxes: Seq<Seq<char>>, args: Map<Seq<char>, Seq<char>>)
    ensures
        ({
            let box_id = text::trimmed(args["box_id"@]);
            let subtask = text::trimmed(args["subtask"@]);
            let names_box = args.contains_key("box_id"@) && box_id.len() > 0;
            let names_task = args.contains_key("subtask"@) && subtask.len() > 0;
            &&& planned(boxes, args) is Ok <==> names_box && names_task && boxes.contains(box_id)
            &&& planned(boxes, args) matches Ok(d) ==> d.box_id == box_id && d.subtask == subtask
            &&& !names_box ==> planned(boxes, args) == Err::<DelegationView, ToolResultView>(
                ToolResultView::Refused { error: "`"@ + "box_id"@ + "` is required"@ },
            )
            &&& names_box && !names_task ==> planned(boxes, args) == Err::<
                DelegationView,
                ToolResultView,
            >(ToolResultView::Refused { error: "`"@ + "subtask"@ + "` is required"@ })
            &&& planned(boxes, args) matches Err(e) ==> e is Refused
        }),
{
}

/// What the orchestrator hears of a turn: what the box said, where it said something; that
/// it finished, where it did not; and of a turn that failed, a refusal that names the
/// budget's axis, the box that a user holds, or what went wrong.
pub proof fn the_orchestrator_hears_what_came_of_it(
    box_id: Seq<char>,
    outcome: Result<Seq<char>, BoxTurnErrorView>,
)
    ensures
        outcome is Ok <==> answered(box_id, outcome) is Done,
        outcome matches Ok(said) ==> (answered(box_id, outcome) matches ToolResultView::Done {
            text: heard,
            data,
        } && data is None && (text::trimmed(said).len() > 0 ==> heard == said) && (text::trimmed(
            said,
        ).len() == 0 ==> heard == box_id + " completed without output"@)),
        outcome matches Err(BoxTurnErrorView::BudgetExhausted(axis)) ==> answered(box_id, outcome)
            == (ToolResultView::Refused {
            error: "swarm budget exhausted on the "@ + axis.label()
                + " axis; no further delegation admitted"@,
        }),
        outcome matches Err(BoxTurnErrorView::Turn(m)) ==> answered(box_id, outcome) == (
        ToolResultView::Refused { error: "box "@ + box_id + " turn failed: "@ + m }),
        outcome matches Err(BoxTurnErrorView::NotRunning(_)) ==> answered(box_id, outcome) == (
        ToolResultView::Refused { error: (outcome->Err_0).text() }),
{
}

/// The tool offers exactly the boxes of the roster, and asks for both a box and a subtask.
pub proof fn the_tool_offers_the_roster(boxes: Seq<Seq<char>>)
    ensures
        delegate_parameters(boxes).len() == 2,
        delegate_parameters(boxes)[0].name == "box_id"@,
        delegate_parameters(boxes)[0].choices == Some(boxes),
        delegate_parameters(boxes)[1].name == "subtask"@,
        delegate_parameters(boxes)[1].choices is None,
        delegate_parameters(boxes)[0].required && delegate_parameters(boxes)[1].required,
{
}

} // verus!
