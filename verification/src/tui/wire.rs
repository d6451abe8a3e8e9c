//! What goes to the daemon and what comes back from it.

use vstd::prelude::*;

use super::client::{RpcFailure, RpcFailureView};
use crate::board::{BoardEvent, BoardEventView};
use crate::duplicate;
use crate::store::model::{BoxSpec, BoxSpecView, PersistedSwarm, PersistedSwarmView, SwarmSpend, SwarmStatus};
use crate::text;
use crate::wizard::{
    ProblemView, StepShapeView, SubmissionView, SwarmStepShape, SwarmSubmission,
    SwarmValidationError,
};

verus! {

/// Work the driver performs on a reducer's behalf.
#[derive(Debug, PartialEq, Eq)]
pub enum Effect {
    /// Redraw and wait.
    Idle,
    /// Leave the dashboard.
    Quit,
    /// `swarm/list`.
    List,
    /// `swarm/fields`, for the provider answered so far.
    Fields { provider: Option<String> },
    /// `swarm/validate`.
    Validate(Box<SwarmSubmission>),
    /// `swarm/create`.
    Create(Box<SwarmSubmission>),
    /// `swarm/delete`.
    Delete { swarm_id: String, force: bool },
    /// `swarm/subscribe`.
    Subscribe { swarm_id: String },
    /// `swarm/start`.
    Start { swarm_id: String },
    /// `swarm/pause`.
    Pause { swarm_id: String },
    /// `swarm/resume`.
    Resume { swarm_id: String },
    /// `swarm/stop`.
    Stop { swarm_id: String },
    /// `swarm/chat`.
    Chat { swarm_id: String, box_id: String, message: String },
    /// `swarm/update-layout`.
    SaveLayout { swarm_id: String, revision: u64, boxes: Vec<BoxSpec> },
}

/// An effect as plain values.
#[verifier::ext_equal]
pub enum EffectView {
    Idle,
    Quit,
    List,
    Fields { provider: Option<Seq<char>> },
    Validate(SubmissionView),
    Create(SubmissionView),
    Delete { swarm_id: Seq<char>, force: bool },
    Subscribe { swarm_id: Seq<char> },
    Start { swarm_id: Seq<char> },
    Pause { swarm_id: Seq<char> },
    Resume { swarm_id: Seq<char> },
    Stop { swarm_id: Seq<char> },
    Chat { swarm_id: Seq<char>, box_id: Seq<char>, message: Seq<char> },
    SaveLayout { swarm_id: Seq<char>, revision: u64, boxes: Seq<BoxSpecView> },
}

impl View for Effect {
    type V = EffectView;

    open spec fn view(&self) -> EffectView {
        match self {
            Effect::Idle => EffectView::Idle,
            Effect::Quit => EffectView::Quit,
            Effect::List => EffectView::List,
            Effect::Fields { provider } => EffectView::Fields {
                provider: duplicate::opt_view(*provider),
            },
            Effect::Validate(s) => EffectView::Validate(s@),
            Effect::Create(s) => EffectView::Create(s@),
            Effect::Delete { swarm_id, force } => EffectView::Delete {
                swarm_id: swarm_id@,
                force: *force,
            },
            Effect::Subscribe { swarm_id } => EffectView::Subscribe { swarm_id: swarm_id@ },
            Effect::Start { swarm_id } => EffectView::Start { swarm_id: swarm_id@ },
            Effect::Pause { swarm_id } => EffectView::Pause { swarm_id: swarm_id@ },
            Effect::Resume { swarm_id } => EffectView::Resume { swarm_id: swarm_id@ },
            Effect::Stop { swarm_id } => EffectView::Stop { swarm_id: swarm_id@ },
            Effect::Chat { swarm_id, box_id, message } => EffectView::Chat {
                swarm_id: swarm_id@,
                box_id: box_id@,
                message: message@,
            },
            Effect::SaveLayout { swarm_id, revision, boxes } => EffectView::SaveLayout {
                swarm_id: swarm_id@,
                revision: *revision,
                boxes: text::views(boxes@),
            },
        }
    }
}

/// The daemon's verdict on a draft.
#[derive(Debug, PartialEq, Eq)]
pub enum SwarmValidateResult {
    Accepted,
    Errors { errors: Vec<SwarmValidationError> },
}

/// A verdict as plain values.
#[verifier::ext_equal]
pub enum VerdictView {
    Accepted,
    Errors { errors: Seq<ProblemView> },
}

impl View for SwarmValidateResult {
    type V = VerdictView;

    open spec fn view(&self) -> VerdictView {
        match self {
            SwarmValidateResult::Accepted => VerdictView::Accepted,
            SwarmValidateResult::Errors { errors } => VerdictView::Errors {
                errors: text::views(errors@),
            },
        }
    }
}

/// How a turn ended.
#[derive(Debug, Clone, Copy, PartialEq, Eq, Structural)]
pub enum TurnCompletionOutcome {
    Completed,
    Cancelled,
    Failed,
}

/// One step of a box's turn.
#[derive(Debug, PartialEq, Eq)]
pub enum SessionUpdateEvent {
    AgentMessageChunk { session_id: String, text: String },
    AgentThoughtChunk { session_id: String, text: String },
    ToolCall { session_id: String, tool_call_id: String, name: String },
    ToolResult { session_id: String, tool_call_id: String, name: String },
    ApprovalRequest { session_id: String, tool_name: String },
    Plan { session_id: String, entries: Vec<String> },
    TurnComplete { session_id: String, outcome: TurnCompletionOutcome },
    HistoryTrimmed { session_id: String },
    ContextUsage {
        session_id: String,
        input_tokens: Option<u64>,
        max_context_tokens: Option<u64>,
    },
}

/// A step of a turn as plain values, as far as the dashboard reads it.
#[verifier::ext_equal]
pub enum TurnEventView {
    MessageChunk(Seq<char>),
    ThoughtChunk(Seq<char>),
    ToolCall(Seq<char>),
    ToolResult(Seq<char>),
    ApprovalRequest(Seq<char>),
    Plan(nat),
    TurnComplete(TurnCompletionOutcome),
    HistoryTrimmed,
    ContextUsage { input_tokens: Option<u64>, max_context_tokens: Option<u64> },
}

impl View for SessionUpdateEvent {
    type V = TurnEventView;

    open spec fn view(&self) -> TurnEventView {
        match self {
            SessionUpdateEvent::AgentMessageChunk { session_id, text } => {
                TurnEventView::MessageChunk(text@)
            },
            SessionUpdateEvent::AgentThoughtChunk { session_id, text } => {
                TurnEventView::ThoughtChunk(text@)
            },
            SessionUpdateEvent::ToolCall { session_id, tool_call_id, name } => {
                TurnEventView::ToolCall(name@)
            },
            SessionUpdateEvent::ToolResult { session_id, tool_call_id, name } => {
                TurnEventView::ToolResult(name@)
            },
            SessionUpdateEvent::ApprovalRequest { session_id, tool_name } => {
                TurnEventView::ApprovalRequest(tool_name@)
            },
            SessionUpdateEvent::Plan { session_id, entries } => {
                TurnEventView::Plan(entries@.len())
            },
            SessionUpdateEvent::TurnComplete { session_id, outcome } => {
                TurnEventView::TurnComplete(*outcome)
            },
            SessionUpdateEvent::HistoryTrimmed { session_id } => TurnEventView::HistoryTrimmed,
            SessionUpdateEvent::ContextUsage { session_id, input_tokens, max_context_tokens } => {
                TurnEventView::ContextUsage {
                    input_tokens: *input_tokens,
                    max_context_tokens: *max_context_tokens,
                }
            },
        }
    }
}

/// One step of a turn of one box of one swarm.
#[derive(Debug, PartialEq, Eq)]
pub struct SwarmUpdate {
    pub swarm_id: String,
    pub box_id: String,
    pub event: SessionUpdateEvent,
}

/// A step with its origin, as plain values.
#[verifier::ext_equal]
pub struct SwarmUpdateView {
    pub swarm_id: Seq<char>,
    pub box_id: Seq<char>,
    pub event: TurnEventView,
}

impl View for SwarmUpdate {
    type V = SwarmUpdateView;

    open spec fn view(&self) -> SwarmUpdateView {
        SwarmUpdateView { swarm_id: self.swarm_id@, box_id: self.box_id@, event: self.event@ }
    }
}

/// A change on one swarm's board.
#[derive(Debug, PartialEq, Eq)]
pub struct SwarmBoardNotify {
    pub swarm_id: String,
    pub event: BoardEvent,
}

/// A board change as plain values.
#[verifier::ext_equal]
pub struct BoardNotifyView {
    pub swarm_id: Seq<char>,
    pub event: BoardEventView,
}

impl View for SwarmBoardNotify {
    type V = BoardNotifyView;

    open spec fn view(&self) -> BoardNotifyView {
        BoardNotifyView { swarm_id: self.swarm_id@, event: self.event@ }
    }
}

/// What became of a message to a box.
#[derive(Debug, PartialEq, Eq)]
pub struct SwarmChatResult {
    pub swarm_id: String,
    pub box_id: String,
    pub queued: bool,
    /// The box is held for the user.
    pub user_engaged: bool,
    /// The box was handed back.
    pub released: bool,
}

/// What became of a message, as plain values.
#[verifier::ext_equal]
pub struct ChatResultView {
    pub swarm_id: Seq<char>,
    pub box_id: Seq<char>,
    pub queued: bool,
    pub user_engaged: bool,
    pub released: bool,
}

impl View for SwarmChatResult {
    type V = ChatResultView;

    open spec fn view(&self) -> ChatResultView {
        ChatResultView {
            swarm_id: self.swarm_id@,
            box_id: self.box_id@,
            queued: self.queued,
            user_engaged: self.user_engaged,
            released: self.released,
        }
    }
}

/// A daemon answer, or a step of a live stream.
#[derive(Debug, PartialEq, Eq)]
pub enum Update {
    Swarms(Vec<PersistedSwarm>),
    Fields { provider: Option<String>, steps: Vec<SwarmStepShape> },
    Validated(SwarmValidateResult),
    Created(Box<PersistedSwarm>),
    Deleted { swarm_id: String },
    /// The live streams of a swarm are on.
    Subscribed { swarm_id: String },
    /// A run-control call went through.
    RunControl { swarm_id: String, status: SwarmStatus, spent: SwarmSpend },
    Chatted(SwarmChatResult),
    LayoutSaved(Box<PersistedSwarm>),
    Stream(Box<SwarmUpdate>),
    Board(Box<SwarmBoardNotify>),
    /// Steps of the live streams were lost.
    Gap,
    /// A call came back as an error frame.
    Failed(RpcFailure),
}

/// An update as plain values.
#[verifier::ext_equal]
pub enum UpdateView {
    Swarms(Seq<PersistedSwarmView>),
    Fields { provider: Option<Seq<char>>, steps: Seq<StepShapeView> },
    Validated(VerdictView),
    Created(PersistedSwarmView),
    Deleted { swarm_id: Seq<char> },
    Subscribed { swarm_id: Seq<char> },
    RunControl { swarm_id: Seq<char>, status: SwarmStatus, spent: SwarmSpend },
    Chatted(ChatResultView),
    LayoutSaved(PersistedSwarmView),
    Stream(SwarmUpdateView),
    Board(BoardNotifyView),
    Gap,
    Failed(RpcFailureView),
}

impl View for Update {
    type V = UpdateView;

    open spec fn view(&self) -> UpdateView {
        match self {
            Update::Swarms(s) => UpdateView::Swarms(text::views(s@)),
            Update::Fields { provider, steps } => UpdateView::Fields {
                provider: duplicate::opt_view(*provider),
                steps: text::views(steps@),
            },
            Update::Validated(v) => UpdateView::Validated(v@),
            Update::Created(s) => UpdateView::Created(s@),
            Update::Deleted { swarm_id } => UpdateView::Deleted { swarm_id: swarm_id@ },
            Update::Subscribed { swarm_id } => UpdateView::Subscribed { swarm_id: swarm_id@ },
            Update::RunControl { swarm_id, status, spent } => UpdateView::RunControl {
                swarm_id: swarm_id@,
                status: *status,
                spent: *spent,
            },
            Update::Chatted(c) => UpdateView::Chatted(c@),
            Update::LayoutSaved(s) => UpdateView::LayoutSaved(s@),
            Update::Stream(u) => UpdateView::Stream(u@),
            Update::Board(b) => UpdateView::Board(b@),
            Update::Gap => UpdateView::Gap,
            Update::Failed(f) => UpdateView::Failed(f@),
        }
    }
}

} // verus!
