//! What the swarm's tools take and give back.

use vstd::prelude::*;

use crate::board::{BoardSnapshot, BoardView, BoxStatus};
use crate::duplicate;
use crate::json;
use crate::json::string_member;
use crate::text;
use crate::text::trim;

verus! {

/// The structured part of a tool's answer.
#[derive(Debug, PartialEq, Eq)]
pub enum ToolData {
    /// A box's state after it has published.
    Published { box_id: String, status: BoxStatus, claim: Option<String>, note: String },
    /// A whole board.
    Board(BoardSnapshot),
    /// A claim: granted, or held by another box.
    Claim { task_key: String, granted: bool, holder: String },
    /// A release, with the holder where it was refused.
    Release { task_key: String, released: bool, held_by: Option<String> },
}

/// The structured part of an answer as plain values.
#[verifier::ext_equal]
pub enum ToolDataView {
    Published { box_id: Seq<char>, status: BoxStatus, claim: Option<Seq<char>>, note: Seq<char> },
    Board(BoardView),
    Claim { task_key: Seq<char>, granted: bool, holder: Seq<char> },
    Release { task_key: Seq<char>, released: bool, held_by: Option<Seq<char>> },
}

impl View for ToolData {
    type V = ToolDataView;

    open spec fn view(&self) -> ToolDataView {
        match self {
            ToolData::Published { box_id, status, claim, note } => ToolDataView::Published {
                box_id: box_id@,
                status: *status,
                claim: duplicate::opt_view(*claim),
                note: note@,
            },
            ToolData::Board(b) => ToolDataView::Board(b@),
            ToolData::Claim { task_key, granted, holder } => ToolDataView::Claim {
                task_key: task_key@,
                granted: *granted,
                holder: holder@,
            },
            ToolData::Release { task_key, released, held_by } => ToolDataView::Release {
                task_key: task_key@,
                released: *released,
                held_by: duplicate::opt_view(*held_by),
            },
        }
    }
}

/// A tool's answer: text, structured data, or why the call was refused.
#[derive(Debug, PartialEq, Eq)]
pub enum ToolResult {
    /// The call was carried out.
    Done { text: String, data: Option<ToolData> },
    /// The call was refused.
    Refused { error: String },
}

/// A tool's answer as plain values.
#[verifier::ext_equal]
pub enum ToolResultView {
    Done { text: Seq<char>, data: Option<ToolDataView> },
    Refused { error: Seq<char> },
}

impl View for ToolResult {
    type V = ToolResultView;

    open spec fn view(&self) -> ToolResultView {
        match self {
            ToolResult::Done { text, data } => ToolResultView::Done {
                text: text@,
                data: duplicate::opt_view(*data),
            },
            ToolResult::Refused { error } => ToolResultView::Refused { error: error@ },
        }
    }
}

impl ToolResult {
    /// Whether the call was carried out.
    pub fn success(&self) -> (r: bool)
        ensures
            r == (self@ is Done),
    {
        matches!(self, ToolResult::Done { .. })
    }

    /// The structured part of the answer.
    pub fn data(&self) -> (r: Option<&ToolData>)
        ensures
            match r {
                Some(d) => self@ matches ToolResultView::Done { data: Some(x), .. } && x == d@,
                None => !(self@ matches ToolResultView::Done { data: Some(_), .. }),
            },
    {
        match self {
            ToolResult::Done { data: Some(d), .. } => Some(d),
            _ => None,
        }
    }
}

/// The trimmed text of a member that is a string and not blank.
pub open spec fn member_text(members: Map<Seq<char>, Seq<char>>, name: Seq<char>) -> Option<
    Seq<char>,
> {
    if members.contains_key(name) && text::trimmed(members[name]).len() > 0 {
        Some(text::trimmed(members[name]))
    } else {
        None
    }
}

/// What is said of a member that is missing, blank or no string.
pub open spec fn missing(name: Seq<char>) -> Seq<char> {
    "`"@ + name + "` is required"@
}

/// The trimmed text of the member `field`, which must be there.
pub fn required_str<'a>(args: &'a serde_json::Value, field: &str) -> (r: Result<&'a str, String>)
    ensures
        match member_text(json::string_members(*args), field@) {
            Some(s) => r matches Ok(x) && x@ == s,
            None => r matches Err(e) && e@ == missing(field@),
        },
{
    if let Some(raw) = string_member(args, field) {
        let value = trim(raw);
        if !value.is_empty() {
            return Ok(value);
        }
    }
    let mut message = "`".to_owned();
    message.append(field);
    message.append("` is required");
    Err(message)
}

/// One parameter of a tool: its name, the values it is limited to, and what it is
/// for.
#[derive(Debug, PartialEq, Eq)]
pub struct ToolParameter {
    pub name: &'static str,
    pub choices: Option<Vec<String>>,
    pub description: &'static str,
    pub required: bool,
}

/// A parameter as plain values.
#[verifier::ext_equal]
pub struct ToolParameterView {
    pub name: Seq<char>,
    pub choices: Option<Seq<Seq<char>>>,
    pub description: Seq<char>,
    pub required: bool,
}

impl View for ToolParameter {
    type V = ToolParameterView;

    open spec fn view(&self) -> ToolParameterView {
        ToolParameterView {
            name: self.name@,
            choices: match self.choices {
                Some(c) => Some(text::views(c@)),
                None => None,
            },
            description: self.description@,
            required: self.required,
        }
    }
}

/// A member is read where it is a string with something other than white space in it, and
/// then without the white space around it.
pub proof fn only_members_that_say_something_are_read(
    members: Map<Seq<char>, Seq<char>>,
    name: Seq<char>,
)
    ensures
        member_text(members, name) is Some <==> members.contains_key(name) && exists|i: int|
            0 <= i < members[name].len() && !text::white_space(#[trigger] members[name][i]),
        member_text(members, name) matches Some(said) ==> said == text::trimmed(members[name])
            && said.len() > 0,
        missing(name) == "`"@ + name + "` is required"@,
{
    if members.contains_key(name) {
        let _ = text::what_trimming_takes_off(members[name]);
    }
}

} // verus!
