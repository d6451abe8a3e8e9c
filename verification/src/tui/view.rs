//! The live multi-box canvas.
//!
//! It folds the two live streams, the turns of the boxes and the changes on the board,
//! into a grid of cells, and turns key presses into run-control, chat and layout calls.

use std::collections::VecDeque;

use vstd::prelude::*;

use super::grid;
use super::grid::{grid_shape, neighbour, sort_by_slot, GridStep};
use super::input::{Direction, Input};
use super::phrase;
use super::phrase::{t, ta_one, ta_two, Phrase, PhraseView};
use super::stream::{BoxStream, StreamView};
use super::wire::{
    ChatResultView, Effect, EffectView, SessionUpdateEvent, SwarmChatResult, SwarmUpdate,
    SwarmUpdateView, TurnEventView,
};
use super::wizard::Edit;
use crate::board::{BoardEvent, BoardEventView, BoxStatus};
use crate::duplicate;
use crate::duplicate::{duplicate_all, duplicate_opt, Duplicate};
use crate::store;
use crate::store::model::{
    BoxSpec, BoxSpecView, PersistedSwarm, PersistedSwarmView, SwarmBudgetLimits, SwarmSpend,
    SwarmStatus,
};
use crate::strmap::StrMap;
use crate::text;
use crate::text::{text_eq, trim};

verus! {

/// Cap on the swarm-level broadcast feed.
pub const FEED_CAP: usize = 100;

/// A box's badges: what the board says of it, whether the user holds it, and its
/// context usage.
#[derive(Debug, PartialEq, Eq)]
pub struct BoxBadge {
    pub status: BoxStatus,
    pub claim: Option<String>,
    pub note: String,
    /// The box is held for the user.
    pub engaged: bool,
    /// Latest context usage: input tokens and the context ceiling.
    pub context: Option<(u64, Option<u64>)>,
}

/// A box's badges as plain values.
#[verifier::ext_equal]
pub struct BadgeView {
    pub status: BoxStatus,
    pub claim: Option<Seq<char>>,
    pub note: Seq<char>,
    pub engaged: bool,
    pub context: Option<(u64, Option<u64>)>,
}

impl View for BoxBadge {
    type V = BadgeView;

    open spec fn view(&self) -> BadgeView {
        BadgeView {
            status: self.status,
            claim: duplicate::opt_view(self.claim),
            note: self.note@,
            engaged: self.engaged,
            context: self.context,
        }
    }
}

impl BadgeView {
    /// The badge of a box that nothing is known of.
    pub open spec fn plain() -> BadgeView {
        BadgeView {
            status: BoxStatus::Idle,
            claim: None,
            note: Seq::empty(),
            engaged: false,
            context: None,
        }
    }

    /// The badge once the board is gone.
    pub open spec fn reaped(self) -> BadgeView {
        BadgeView { status: BoxStatus::Idle, claim: None, ..self }
    }
}

impl Default for BoxBadge {
    fn default() -> (r: Self)
        ensures
            r@ == BadgeView::plain(),
    {
        BoxBadge {
            status: BoxStatus::Idle,
            claim: None,
            note: String::new(),
            engaged: false,
            context: None,
        }
    }
}

impl Duplicate for BoxBadge {
    fn duplicate(&self) -> (r: Self) {
        BoxBadge {
            status: self.status,
            claim: duplicate_opt(&self.claim),
            note: self.note.clone(),
            engaged: self.engaged,
            context: self.context,
        }
    }
}

/// What the canvas wants done after an input.
#[derive(Debug, PartialEq, Eq)]
pub enum ViewAction {
    /// Redraw; nothing else.
    Idle,
    /// Return to the dashboard.
    Leave,
    /// Leave altogether.
    Quit,
    /// Perform a daemon call.
    Call(Effect),
}

/// What is wanted, as plain values.
#[verifier::ext_equal]
pub enum ViewActionView {
    Idle,
    Leave,
    Quit,
    Call(EffectView),
}

impl View for ViewAction {
    type V = ViewActionView;

    open spec fn view(&self) -> ViewActionView {
        match self {
            ViewAction::Idle => ViewActionView::Idle,
            ViewAction::Leave => ViewActionView::Leave,
            ViewAction::Quit => ViewActionView::Quit,
            ViewAction::Call(e) => ViewActionView::Call(e@),
        }
    }
}

/// Which header line a box edit is on.
#[derive(Debug, Clone, Copy, PartialEq, Eq, Structural)]
pub enum EditLine {
    Role,
    Job,
}

/// The interaction mode a focused cell is in.
#[derive(Debug, PartialEq, Eq)]
pub enum Mode {
    /// Move focus, run the swarm, open an edit or a chat.
    Nav,
    /// Typing a message to the focused box.
    Chat { buffer: String },
    /// Editing the focused box's role and job header.
    Edit { line: EditLine, role: String, job: String },
    /// The focused box is grabbed; arrows swap it with a neighbour.
    Move,
}

/// A mode as plain values.
#[verifier::ext_equal]
pub enum ModeView {
    Nav,
    Chat { buffer: Seq<char> },
    Edit { line: EditLine, role: Seq<char>, job: Seq<char> },
    Move,
}

impl View for Mode {
    type V = ModeView;

    open spec fn view(&self) -> ModeView {
        match self {
            Mode::Nav => ModeView::Nav,
            Mode::Chat { buffer } => ModeView::Chat { buffer: buffer@ },
            Mode::Edit { line, role, job } => ModeView::Edit {
                line: *line,
                role: role@,
                job: job@,
            },
            Mode::Move => ModeView::Move,
        }
    }
}

/// The live canvas for one swarm.
#[derive(Debug)]
pub struct ViewState {
    swarm_id: String,
    /// Working roster, sorted by slot. The grid cell index is the index into it.
    boxes: Vec<BoxSpec>,
    streams: StrMap<BoxStream>,
    badges: StrMap<BoxBadge>,
    feed: VecDeque<Phrase>,
    status: SwarmStatus,
    spent: SwarmSpend,
    limits: SwarmBudgetLimits,
    revision: u64,
    focus: usize,
    mode: Mode,
    subscribed: bool,
    /// Local layout edits await a save.
    layout_dirty: bool,
    /// A layout write is in flight; a second is held until its reply lands, so that
    /// the revision guard never trips.
    layout_saving: bool,
    /// Moves on every layout edit, and again if edits arrived while a save was in
    /// flight, so that the driver can re-arm its timer.
    layout_generation: u64,
}

/// A canvas as plain values.
#[verifier::ext_equal]
pub struct CanvasView {
    pub swarm_id: Seq<char>,
    pub boxes: Seq<BoxSpecView>,
    pub streams: Map<Seq<char>, StreamView>,
    pub badges: Map<Seq<char>, BadgeView>,
    pub feed: Seq<PhraseView>,
    pub status: SwarmStatus,
    pub spent: SwarmSpend,
    pub limits: SwarmBudgetLimits,
    pub revision: u64,
    pub focus: nat,
    pub mode: ModeView,
    pub subscribed: bool,
    pub layout_dirty: bool,
    pub layout_saving: bool,
    pub layout_generation: u64,
}

impl View for ViewState {
    type V = CanvasView;

    closed spec fn view(&self) -> CanvasView {
        CanvasView {
            swarm_id: self.swarm_id@,
            boxes: text::views(self.boxes@),
            streams: self.streams@,
            badges: self.badges@,
            feed: text::views(self.feed@),
            status: self.status,
            spent: self.spent,
            limits: self.limits,
            revision: self.revision,
            focus: self.focus as nat,
            mode: self.mode@,
            subscribed: self.subscribed,
            layout_dirty: self.layout_dirty,
            layout_saving: self.layout_saving,
            layout_generation: self.layout_generation,
        }
    }
}

/// The next generation; the counter wraps.
pub open spec fn next_generation(g: u64) -> u64 {
    if g < u64::MAX {
        (g + 1) as u64
    } else {
        0
    }
}

/// A feed with one more note; past the cap the oldest one goes.
pub open spec fn fed(feed: Seq<PhraseView>, note: PhraseView) -> Seq<PhraseView> {
    if feed.len() >= FEED_CAP {
        feed.drop_first().push(note)
    } else {
        feed.push(note)
    }
}

impl CanvasView {
    /// The canvas of a swarm as it was last read.
    pub open spec fn opened(swarm: PersistedSwarmView) -> CanvasView {
        CanvasView {
            swarm_id: swarm.spec.id,
            boxes: grid::slot_order(swarm.spec.boxes),
            streams: Map::empty(),
            badges: Map::empty(),
            feed: Seq::empty(),
            status: swarm.run.status,
            spent: swarm.run.spent,
            limits: swarm.spec.budget.ceilings(),
            revision: swarm.revision,
            focus: 0,
            mode: ModeView::Nav,
            subscribed: false,
            layout_dirty: false,
            layout_saving: false,
            layout_generation: 0,
        }
    }

    /// The badge of a box.
    pub open spec fn badge(self, box_id: Seq<char>) -> BadgeView {
        if self.badges.contains_key(box_id) {
            self.badges[box_id]
        } else {
            BadgeView::plain()
        }
    }

    /// The stream of a box.
    pub open spec fn stream(self, box_id: Seq<char>) -> StreamView {
        if self.streams.contains_key(box_id) {
            self.streams[box_id]
        } else {
            StreamView::silent()
        }
    }

    /// With another badge on a box.
    pub open spec fn badged(self, box_id: Seq<char>, badge: BadgeView) -> CanvasView {
        CanvasView { badges: self.badges.insert(box_id, badge), ..self }
    }

    /// With one more note on the feed.
    pub open spec fn noted(self, note: PhraseView) -> CanvasView {
        CanvasView { feed: fed(self.feed, note), ..self }
    }

    // ── Streams ─────────────────────────────────────────────────────

    /// After a chat reply.
    pub open spec fn chatted(self, result: ChatResultView) -> CanvasView {
        self.badged(
            result.box_id,
            BadgeView { engaged: result.user_engaged, ..self.badge(result.box_id) },
        ).noted(
            phrase::said_with(
                if result.released {
                    "cli-swarm-tui-feed-handback"@
                } else {
                    "cli-swarm-tui-feed-chat"@
                },
                seq![phrase::slot("box"@, result.box_id)],
                "chat"@,
            ),
        )
    }

    /// After a step of a box's turn. A step of another swarm is ignored.
    pub open spec fn updated(self, update: SwarmUpdateView) -> CanvasView {
        if update.swarm_id != self.swarm_id {
            self
        } else {
            let counted = match update.event {
                TurnEventView::ContextUsage {
                    input_tokens: Some(tokens),
                    max_context_tokens,
                } => self.badged(
                    update.box_id,
                    BadgeView {
                        context: Some((tokens, max_context_tokens)),
                        ..self.badge(update.box_id)
                    },
                ),
                _ => self,
            };
            CanvasView {
                streams: self.streams.insert(
                    update.box_id,
                    self.stream(update.box_id).applied(update.event),
                ),
                ..counted
            }
        }
    }

    /// After a change on the board.
    pub open spec fn boarded(self, event: BoardEventView) -> CanvasView {
        match event {
            BoardEventView::Published { box_id, state } => self.badged(
                box_id,
                BadgeView {
                    status: state.status,
                    claim: state.claim,
                    note: state.note,
                    ..self.badge(box_id)
                },
            ).noted(
                phrase::said_with(
                    "cli-swarm-tui-feed-published"@,
                    seq![phrase::slot("box"@, box_id), phrase::slot("status"@, state.status.label())],
                    "published"@,
                ),
            ),
            BoardEventView::Claimed { box_id, task_key } => self.badged(
                box_id,
                BadgeView { claim: Some(task_key), ..self.badge(box_id) },
            ).noted(
                phrase::said_with(
                    "cli-swarm-tui-feed-claimed"@,
                    seq![phrase::slot("box"@, box_id), phrase::slot("key"@, task_key)],
                    "claimed"@,
                ),
            ),
            BoardEventView::Released { box_id, task_key } => (if self.badges.contains_key(box_id)
                && self.badges[box_id].claim == Some(task_key) {
                self.badged(box_id, BadgeView { claim: None, ..self.badges[box_id] })
            } else {
                self
            }).noted(
                phrase::said_with(
                    "cli-swarm-tui-feed-released"@,
                    seq![phrase::slot("box"@, box_id), phrase::slot("key"@, task_key)],
                    "released"@,
                ),
            ),
            BoardEventView::Reaped => CanvasView {
                badges: Map::new(
                    |id: Seq<char>| self.badges.contains_key(id),
                    |id: Seq<char>| self.badges[id].reaped(),
                ),
                ..self
            }.noted(phrase::said("cli-swarm-tui-feed-reaped"@, "board reaped"@)),
        }
    }

    // ── Layout ──────────────────────────────────────────────────────

    /// With a layout edit that awaits a save.
    pub open spec fn dirtied(self) -> CanvasView {
        CanvasView {
            layout_dirty: true,
            layout_generation: next_generation(self.layout_generation),
            ..self
        }
    }

    /// Edits await a save and none is in flight.
    pub open spec fn layout_ready(self) -> bool {
        self.layout_dirty && !self.layout_saving
    }

    /// After a chance to save: the canvas, and the write if there is one to make.
    pub open spec fn flushed(self) -> (CanvasView, EffectView) {
        if self.layout_ready() {
            (
                CanvasView { layout_dirty: false, layout_saving: true, ..self },
                EffectView::SaveLayout {
                    swarm_id: self.swarm_id,
                    revision: self.revision,
                    boxes: self.boxes,
                },
            )
        } else {
            (self, EffectView::Idle)
        }
    }

    /// After a save went through: its revision is adopted, and its roster too unless
    /// newer local edits are pending.
    pub open spec fn saved(self, swarm: PersistedSwarmView) -> CanvasView {
        let done = CanvasView { revision: swarm.revision, layout_saving: false, ..self };
        if self.layout_dirty {
            CanvasView { layout_generation: next_generation(self.layout_generation), ..done }
        } else {
            let boxes = grid::slot_order(swarm.spec.boxes);
            CanvasView {
                boxes,
                focus: if self.focus < boxes.len() {
                    self.focus
                } else if boxes.len() == 0 {
                    0
                } else {
                    (boxes.len() - 1) as nat
                },
                ..done
            }
        }
    }

    /// After a save was rejected: the edit stays pending.
    pub open spec fn unsaved(self) -> CanvasView {
        if self.layout_saving {
            CanvasView { layout_saving: false, ..self }.dirtied()
        } else {
            self
        }
    }

    // ── Input ───────────────────────────────────────────────────────

    /// The box under the focus cell.
    pub open spec fn focused(self) -> Option<BoxSpecView> {
        if self.focus < self.boxes.len() {
            Some(self.boxes[self.focus as int])
        } else {
            None
        }
    }

    /// In another mode.
    pub open spec fn moded(self, mode: ModeView) -> CanvasView {
        CanvasView { mode, ..self }
    }

    /// The cell in a direction from the focus.
    pub open spec fn beside(self, step: GridStep) -> Option<nat> {
        grid::next_cell(self.focus, self.boxes.len(), grid::columns(self.boxes.len()), step)
    }

    /// With the focus moved. Edges do not wrap; the linear steps do.
    pub open spec fn focusing(self, step: GridStep) -> CanvasView {
        let n = self.boxes.len();
        if n == 0 {
            self
        } else {
            match step {
                GridStep::Next => CanvasView {
                    focus: Direction::Forward.wrapped(self.focus, n),
                    ..self
                },
                GridStep::Prev => CanvasView {
                    focus: Direction::Backward.wrapped(self.focus, n),
                    ..self
                },
                _ => match self.beside(step) {
                    Some(target) => CanvasView { focus: target, ..self },
                    None => self,
                },
            }
        }
    }

    /// The boxes after those in cells `a` and `b` exchanged their slots.
    pub open spec fn exchanged(self, a: int, b: int) -> Seq<BoxSpecView> {
        grid::slot_order(
            self.boxes.update(
                a,
                BoxSpecView { slot: self.boxes[b].slot, ..self.boxes[a] },
            ).update(b, BoxSpecView { slot: self.boxes[a].slot, ..self.boxes[b] }),
        )
    }

    /// With the grabbed box swapped with its neighbour; the focus goes with it.
    pub open spec fn swapping(self, step: GridStep) -> CanvasView {
        match self.beside(step) {
            Some(target) => if self.focus < self.boxes.len() {
                CanvasView {
                    boxes: self.exchanged(self.focus as int, target as int),
                    focus: target,
                    ..self
                }.dirtied()
            } else {
                self
            },
            None => self,
        }
    }

    /// What a run-control key does: it fires only where the status allows.
    pub open spec fn controlled(self, key: char) -> ViewActionView {
        let id = self.swarm_id;
        if key == 's' && self.status == SwarmStatus::Created {
            ViewActionView::Call(EffectView::Start { swarm_id: id })
        } else if key == 'p' && self.status == SwarmStatus::Running {
            ViewActionView::Call(EffectView::Pause { swarm_id: id })
        } else if key == 'r' && self.status is Paused {
            ViewActionView::Call(EffectView::Resume { swarm_id: id })
        } else if key == 'x' && (self.status == SwarmStatus::Running || self.status is Paused) {
            ViewActionView::Call(EffectView::Stop { swarm_id: id })
        } else {
            ViewActionView::Idle
        }
    }

    /// What an input does while moving about.
    pub open spec fn nav_input(self, input: Input) -> (CanvasView, ViewActionView) {
        match input {
            Input::Escape => (self, ViewActionView::Leave),
            Input::Backspace => (self, ViewActionView::Leave),
            Input::Up => (self.focusing(GridStep::Up), ViewActionView::Idle),
            Input::Down => (self.focusing(GridStep::Down), ViewActionView::Idle),
            Input::Left => (self.focusing(GridStep::Left), ViewActionView::Idle),
            Input::Right => (self.focusing(GridStep::Right), ViewActionView::Idle),
            Input::Tab => (self.focusing(GridStep::Next), ViewActionView::Idle),
            Input::BackTab => (self.focusing(GridStep::Prev), ViewActionView::Idle),
            Input::Enter => (
                if self.focused() is Some {
                    self.moded(ModeView::Chat { buffer: Seq::empty() })
                } else {
                    self
                },
                ViewActionView::Idle,
            ),
            Input::Char(c) => if c == 'q' {
                (self, ViewActionView::Quit)
            } else if c == 'e' {
                (
                    match self.focused() {
                        Some(b) => self.moded(
                            ModeView::Edit { line: EditLine::Role, role: b.role, job: b.job },
                        ),
                        None => self,
                    },
                    ViewActionView::Idle,
                )
            } else if c == 'm' {
                (
                    if self.boxes.len() > 1 {
                        self.moded(ModeView::Move)
                    } else {
                        self
                    },
                    ViewActionView::Idle,
                )
            } else {
                (self, self.controlled(c))
            },
            Input::Interrupt => (self, ViewActionView::Idle),
        }
    }

    /// What an input does while typing `buffer` to the focused box.
    pub open spec fn chat_input(self, buffer: Seq<char>, input: Input) -> (
        CanvasView,
        ViewActionView,
    ) {
        match input {
            Input::Escape => (self.moded(ModeView::Nav), ViewActionView::Idle),
            Input::Backspace => (
                self.moded(ModeView::Chat { buffer: Edit::Erase.applied(buffer) }),
                ViewActionView::Idle,
            ),
            Input::Char(c) => (
                self.moded(ModeView::Chat { buffer: Edit::Type(c).applied(buffer) }),
                ViewActionView::Idle,
            ),
            Input::Enter => (
                self.moded(ModeView::Nav),
                match self.focused() {
                    Some(b) => if text::trimmed(buffer).len() > 0 {
                        ViewActionView::Call(
                            EffectView::Chat {
                                swarm_id: self.swarm_id,
                                box_id: b.box_id,
                                message: text::trimmed(buffer),
                            },
                        )
                    } else {
                        ViewActionView::Idle
                    },
                    None => ViewActionView::Idle,
                },
            ),
            _ => (self, ViewActionView::Idle),
        }
    }

    /// With an edited header written onto the focused box. Unchanged text saves
    /// nothing.
    pub open spec fn headed(self, role: Seq<char>, job: Seq<char>) -> CanvasView {
        match self.focused() {
            Some(b) => if b.role == role && b.job == job {
                self
            } else {
                CanvasView {
                    boxes: self.boxes.update(self.focus as int, BoxSpecView { role, job, ..b }),
                    ..self
                }.dirtied()
            },
            None => self,
        }
    }

    /// What an input does while editing the focused box's header.
    pub open spec fn edit_input(
        self,
        line: EditLine,
        role: Seq<char>,
        job: Seq<char>,
        input: Input,
    ) -> CanvasView {
        let other = match line {
            EditLine::Role => EditLine::Job,
            EditLine::Job => EditLine::Role,
        };
        let edited = |edit: Edit|
            match line {
                EditLine::Role => ModeView::Edit { line, role: edit.applied(role), job },
                EditLine::Job => ModeView::Edit { line, role, job: edit.applied(job) },
            };
        match input {
            Input::Escape => self.moded(ModeView::Nav),
            Input::Tab => self.moded(ModeView::Edit { line: other, role, job }),
            Input::BackTab => self.moded(ModeView::Edit { line: other, role, job }),
            Input::Up => self.moded(ModeView::Edit { line: other, role, job }),
            Input::Down => self.moded(ModeView::Edit { line: other, role, job }),
            Input::Backspace => self.moded(edited(Edit::Erase)),
            Input::Char(c) => self.moded(edited(Edit::Type(c))),
            Input::Enter => self.headed(role, job).moded(ModeView::Nav),
            _ => self,
        }
    }

    /// What an input does while the focused box is grabbed.
    pub open spec fn move_input(self, input: Input) -> CanvasView {
        match input {
            Input::Escape => self.moded(ModeView::Nav),
            Input::Enter => self.moded(ModeView::Nav),
            Input::Char(c) => if c == 'm' {
                self.moded(ModeView::Nav)
            } else {
                self
            },
            Input::Up => self.swapping(GridStep::Up),
            Input::Down => self.swapping(GridStep::Down),
            Input::Left => self.swapping(GridStep::Left),
            Input::Right => self.swapping(GridStep::Right),
            _ => self,
        }
    }

    /// What an input does.
    pub open spec fn on_input(self, input: Input) -> (CanvasView, ViewActionView) {
        match self.mode {
            ModeView::Nav => self.nav_input(input),
            ModeView::Chat { buffer } => self.chat_input(buffer, input),
            ModeView::Edit { line, role, job } => (
                self.edit_input(line, role, job, input),
                ViewActionView::Idle,
            ),
            ModeView::Move => (self.move_input(input), ViewActionView::Idle),
        }
    }
}

impl ViewState {
    /// Build the canvas from the swarm as last read. The roster is sorted into its
    /// slot order once, so that the grid is stable.
    pub fn new(swarm: &PersistedSwarm) -> (r: Self)
        ensures
            r@ == CanvasView::opened(swarm@),
    {
        let r = ViewState {
            swarm_id: swarm.spec.id.clone(),
            boxes: sort_by_slot(duplicate_all(&swarm.spec.boxes)),
            streams: StrMap::new(),
            badges: StrMap::new(),
            feed: VecDeque::new(),
            status: swarm.run.status,
            spent: swarm.run.spent,
            limits: swarm.spec.budget.limits(),
            revision: swarm.revision,
            focus: 0,
            mode: Mode::Nav,
            subscribed: false,
            layout_dirty: false,
            layout_saving: false,
            layout_generation: 0,
        };
        assert(r@.feed =~= Seq::empty());
        r
    }

    // ── Read side ───────────────────────────────────────────────────

    /// The swarm on the canvas.
    pub fn swarm_id(&self) -> (r: &str)
        ensures
            r@ == self@.swarm_id,
    {
        self.swarm_id.as_str()
    }

    /// The boxes, by cell.
    pub fn boxes(&self) -> (r: &Vec<BoxSpec>)
        ensures
            text::views(r@) == self@.boxes,
    {
        &self.boxes
    }

    /// Where the run is.
    pub fn status(&self) -> (r: SwarmStatus)
        ensures
            r == self@.status,
    {
        self.status
    }

    /// What the run has spent.
    pub fn spent(&self) -> (r: SwarmSpend)
        ensures
            r == self@.spent,
    {
        self.spent
    }

    /// What the run may spend.
    pub fn limits(&self) -> (r: SwarmBudgetLimits)
        ensures
            r == self@.limits,
    {
        self.limits
    }

    /// The cell in focus.
    pub fn focus(&self) -> (r: usize)
        ensures
            r == self@.focus,
    {
        self.focus
    }

    /// The interaction mode.
    pub fn mode(&self) -> (r: &Mode)
        ensures
            r@ == self@.mode,
    {
        &self.mode
    }

    /// Whether the live streams are on.
    pub fn subscribed(&self) -> (r: bool)
        ensures
            r == self@.subscribed,
    {
        self.subscribed
    }

    /// The broadcast feed, oldest first.
    pub fn feed(&self) -> (r: &VecDeque<Phrase>)
        ensures
            text::views(r@) == self@.feed,
    {
        &self.feed
    }

    /// The activity of a box, if it has shown any.
    pub fn stream(&self, box_id: &str) -> (r: Option<&BoxStream>)
        ensures
            match r {
                Some(s) => self@.streams.contains_key(box_id@) && self@.streams[box_id@] == s@,
                None => !self@.streams.contains_key(box_id@),
            },
    {
        self.streams.get(box_id)
    }

    /// The badges of a box, if it has any.
    pub fn badge(&self, box_id: &str) -> (r: Option<&BoxBadge>)
        ensures
            match r {
                Some(b) => self@.badges.contains_key(box_id@) && self@.badges[box_id@] == b@,
                None => !self@.badges.contains_key(box_id@),
            },
    {
        self.badges.get(box_id)
    }

    /// The box under the focus cell, if the roster is not empty.
    pub fn focused_box(&self) -> (r: Option<&BoxSpec>)
        ensures
            store::ref_view(r) == self@.focused(),
    {
        if self.focus < self.boxes.len() {
            assert(self@.boxes[self.focus as int] == self.boxes@[self.focus as int]@);
            Some(&self.boxes[self.focus])
        } else {
            None
        }
    }

    /// Rows and columns that pack the roster into a near-square grid.
    pub fn grid_shape(&self) -> (r: (usize, usize))
        ensures
            r.0 == grid::rows(self@.boxes.len()),
            r.1 == grid::columns(self@.boxes.len()),
    {
        grid_shape(self.boxes.len())
    }

    /// Moves whenever there is something new to save.
    pub fn layout_generation(&self) -> (r: u64)
        ensures
            r == self@.layout_generation,
    {
        self.layout_generation
    }

    // ── Replies ─────────────────────────────────────────────────────

    /// The live streams are on.
    pub fn mark_subscribed(&mut self)
        ensures
            final(self)@ == (CanvasView { subscribed: true, ..old(self)@ }),
    {
        self.subscribed = true;
    }

    /// A run-control call went through.
    pub fn set_run_state(&mut self, status: SwarmStatus, spent: SwarmSpend)
        ensures
            final(self)@ == (CanvasView { status, spent, ..old(self)@ }),
    {
        self.status = status;
        self.spent = spent;
    }

    /// The run is elsewhere now.
    pub fn set_status(&mut self, status: SwarmStatus)
        ensures
            final(self)@ == (CanvasView { status, ..old(self)@ }),
    {
        self.status = status;
    }

    fn badge_of(&self, box_id: &str) -> (r: BoxBadge)
        ensures
            r@ == self@.badge(box_id@),
    {
        match self.badges.get(box_id) {
            Some(badge) => badge.duplicate(),
            None => BoxBadge::default(),
        }
    }

    /// Fold a chat reply into the box's engagement badge.
    pub fn apply_chat(&mut self, result: &SwarmChatResult)
        ensures
            final(self)@ == old(self)@.chatted(result@),
    {
        let mut badge = self.badge_of(result.box_id.as_str());
        badge.engaged = result.user_engaged;
        self.badges.insert(result.box_id.clone(), badge);
        let key = if result.released {
            "cli-swarm-tui-feed-handback"
        } else {
            "cli-swarm-tui-feed-chat"
        };
        self.push_feed(ta_one(key, "box", result.box_id.as_str(), "chat"));
    }

    // ── Live streams ────────────────────────────────────────────────

    /// Route one step of a turn into its box's stream. Steps of another swarm, left
    /// over on the shared connection, are ignored.
    pub fn apply_update(&mut self, update: &SwarmUpdate)
        ensures
            final(self)@ == old(self)@.updated(update@),
    {
        if !text_eq(update.swarm_id.as_str(), self.swarm_id.as_str()) {
            return;
        }
        if let SessionUpdateEvent::ContextUsage {
            session_id: _,
            input_tokens: Some(tokens),
            max_context_tokens,
        } = &update.event {
            let mut badge = self.badge_of(update.box_id.as_str());
            badge.context = Some((*tokens, *max_context_tokens));
            self.badges.insert(update.box_id.clone(), badge);
        }
        let mut stream = match self.streams.remove(update.box_id.as_str()) {
            Some(stream) => stream,
            None => BoxStream::new(),
        };
        stream.apply(&update.event);
        self.streams.insert(update.box_id.clone(), stream);
        assert(self@.streams =~= old(self)@.updated(update@).streams);
    }

    /// Route one board change into badges and the broadcast feed.
    pub fn apply_board(&mut self, event: &BoardEvent)
        ensures
            final(self)@ == old(self)@.boarded(event@),
    {
        match event {
            BoardEvent::Published { box_id, state } => {
                let mut badge = self.badge_of(box_id.as_str());
                badge.status = state.status;
                badge.claim = duplicate_opt(&state.claim);
                badge.note = state.note.clone();
                self.badges.insert(box_id.clone(), badge);
                self.push_feed(
                    ta_two(
                        "cli-swarm-tui-feed-published",
                        "box",
                        box_id.as_str(),
                        "status",
                        state.status.as_str(),
                        "published",
                    ),
                );
            },
            BoardEvent::Claimed { box_id, task_key } => {
                let mut badge = self.badge_of(box_id.as_str());
                badge.claim = Some(task_key.clone());
                self.badges.insert(box_id.clone(), badge);
                self.push_feed(
                    ta_two(
                        "cli-swarm-tui-feed-claimed",
                        "box",
                        box_id.as_str(),
                        "key",
                        task_key.as_str(),
                        "claimed",
                    ),
                );
            },
            BoardEvent::Released { box_id, task_key } => {
                let mut held = false;
                if let Some(badge) = self.badges.get(box_id.as_str()) {
                    if let Some(claim) = &badge.claim {
                        held = text_eq(claim.as_str(), task_key.as_str());
                    }
                }
                if held {
                    let mut badge = self.badge_of(box_id.as_str());
                    badge.claim = None;
                    self.badges.insert(box_id.clone(), badge);
                }
                self.push_feed(
                    ta_two(
                        "cli-swarm-tui-feed-released",
                        "box",
                        box_id.as_str(),
                        "key",
                        task_key.as_str(),
                        "released",
                    ),
                );
            },
            BoardEvent::Reaped => {
                self.reap_badges();
                self.push_feed(t("cli-swarm-tui-feed-reaped", "board reaped"));
            },
        }
    }

    fn reap_badges(&mut self)
        ensures
            final(self)@ == (CanvasView {
                badges: Map::new(
                    |id: Seq<char>| old(self)@.badges.contains_key(id),
                    |id: Seq<char>| old(self)@.badges[id].reaped(),
                ),
                ..old(self)@
            }),
    {
        let n: usize = self.badges.len();
        let ghost keys = self.badges.keys();
        let ghost badges = self.badges@;
        let mut out: StrMap<BoxBadge> = StrMap::new();
        let mut i: usize = 0;
        while i < n
            invariant
                i <= n,
                n == keys.len(),
                keys == self.badges.keys(),
                badges == self.badges@,
                badges == old(self)@.badges,
                self@ == old(self)@,
                n == self.badges.values().len(),
                badges.dom() == keys.to_set(),
                forall|k: int|
                    0 <= k < n ==> #[trigger] self.badges@.contains_key(self.badges.keys()[k])
                        && self.badges@[self.badges.keys()[k]] == self.badges.values()[k],
                forall|id: Seq<char>| #[trigger]
                    out@.contains_key(id) <==> keys.take(i as int).contains(id),
                forall|id: Seq<char>| #[trigger]
                    out@.contains_key(id) ==> out@[id] == badges[id].reaped(),
            decreases n - i,
        {
            let ghost before = out@;
            assert(self.badges@.contains_key(self.badges.keys()[i as int]));
            let mut badge = self.badges.value_at(i).duplicate();
            badge.status = BoxStatus::Idle;
            badge.claim = None;
            out.insert(self.badges.key_at(i).to_owned(), badge);
            assert forall|id: Seq<char>| #[trigger]
                out@.contains_key(id) <==> keys.take(i + 1).contains(id) by {
                let a = keys.take(i as int);
                let b = keys.take(i + 1);
                assert(before.contains_key(id) <==> a.contains(id));
                if a.contains(id) {
                    let k = choose|k: int| 0 <= k < a.len() && a[k] == id;
                    assert(b[k] == id);
                }
                if b.contains(id) {
                    let k = choose|k: int| 0 <= k < b.len() && b[k] == id;
                    if k < i {
                        assert(a[k] == id);
                    }
                }
                assert(b[i as int] == keys[i as int]);
            }
            i += 1;
        }
        assert(keys.take(i as int) =~= keys);
        proof {
            assert forall|id: Seq<char>| #[trigger]
                out@.contains_key(id) <==> badges.contains_key(id) by {
                assert(keys.contains(id) <==> badges.dom().contains(id));
            }
        }
        self.badges = out;
        assert(self@.badges =~= Map::new(
            |id: Seq<char>| old(self)@.badges.contains_key(id),
            |id: Seq<char>| old(self)@.badges[id].reaped(),
        ));
    }

    /// Notifications were dropped: leave a visible marker on the feed rather than
    /// hiding the loss.
    pub fn note_gap(&mut self)
        ensures
            final(self)@ == old(self)@.noted(
                phrase::said("cli-swarm-tui-feed-gap"@, "… (stream gap)"@),
            ),
    {
        self.push_feed(t("cli-swarm-tui-feed-gap", "… (stream gap)"));
    }

    fn push_feed(&mut self, note: Phrase)
        ensures
            final(self)@ == old(self)@.noted(note@),
    {
        let ghost before = self@.feed;
        if self.feed.len() >= FEED_CAP {
            let _ = self.feed.pop_front();
            assert(self@.feed =~= before.drop_first());
        }
        let ghost kept = self@.feed;
        self.feed.push_back(note);
        assert(self@.feed =~= kept.push(note@));
    }

    // ── Layout persistence ──────────────────────────────────────────

    /// Local edits are pending and no write is in flight.
    pub fn layout_ready(&self) -> (r: bool)
        ensures
            r == self@.layout_ready(),
    {
        self.layout_dirty && !self.layout_saving
    }

    /// Emit the pending layout write and mark it in flight; nothing where nothing is
    /// pending or a write is already running.
    pub fn flush_layout(&mut self) -> (r: Effect)
        ensures
            (final(self)@, r@) == old(self)@.flushed(),
    {
        if !self.layout_ready() {
            return Effect::Idle;
        }
        self.layout_dirty = false;
        self.layout_saving = true;
        Effect::SaveLayout {
            swarm_id: self.swarm_id.clone(),
            revision: self.revision,
            boxes: duplicate_all(&self.boxes),
        }
    }

    /// Fold the reply of a layout write back in.
    pub fn apply_layout_saved(&mut self, saved: &PersistedSwarm)
        ensures
            final(self)@ == old(self)@.saved(saved@),
    {
        self.revision = saved.revision;
        self.layout_saving = false;
        if self.layout_dirty {
            // Edits arrived while the save was in flight.
            self.layout_generation = self.layout_generation.wrapping_add(1);
        } else {
            self.boxes = sort_by_slot(duplicate_all(&saved.spec.boxes));
            assert(self@.boxes.len() == self.boxes.len());
            if self.focus >= self.boxes.len() {
                self.focus = if self.boxes.len() == 0 {
                    0
                } else {
                    self.boxes.len() - 1
                };
            }
        }
    }

    fn mark_layout_dirty(&mut self)
        ensures
            final(self)@ == old(self)@.dirtied(),
    {
        self.layout_dirty = true;
        self.layout_generation = self.layout_generation.wrapping_add(1);
    }

    /// Release the guard after a rejected layout write, so that the edit can be tried
    /// again rather than wedging every later save.
    pub fn clear_layout_saving(&mut self)
        ensures
            final(self)@ == old(self)@.unsaved(),
    {
        if self.layout_saving {
            self.layout_saving = false;
            self.mark_layout_dirty();
        }
    }

    // ── Input ───────────────────────────────────────────────────────

    /// Takes an input.
    pub fn on_input(&mut self, input: Input) -> (r: ViewAction)
        ensures
            (final(self)@, r@) == old(self)@.on_input(input),
    {
        let mut mode = Mode::Nav;
        std::mem::swap(&mut self.mode, &mut mode);
        match mode {
            Mode::Nav => self.nav_input(input),
            Mode::Chat { buffer } => self.chat_input(buffer, input),
            Mode::Edit { line, role, job } => {
                self.edit_input(line, role, job, input);
                ViewAction::Idle
            },
            Mode::Move => {
                self.mode = Mode::Move;
                self.move_input(input);
                ViewAction::Idle
            },
        }
    }

    fn nav_input(&mut self, input: Input) -> (r: ViewAction)
        ensures
            (final(self)@, r@) == old(self)@.nav_input(input),
    {
        match input {
            Input::Escape | Input::Backspace => ViewAction::Leave,
            Input::Up => self.move_focus(GridStep::Up),
            Input::Down => self.move_focus(GridStep::Down),
            Input::Left => self.move_focus(GridStep::Left),
            Input::Right => self.move_focus(GridStep::Right),
            Input::Tab => self.move_focus(GridStep::Next),
            Input::BackTab => self.move_focus(GridStep::Prev),
            Input::Enter => {
                if self.focus < self.boxes.len() {
                    self.mode = Mode::Chat { buffer: String::new() };
                }
                ViewAction::Idle
            },
            Input::Char(c) => {
                if c == 'q' {
                    return ViewAction::Quit;
                }
                if c == 'e' {
                    let mut header: Option<(String, String)> = None;
                    if let Some(b) = self.focused_box() {
                        header = Some((b.role.clone(), b.job.clone()));
                    }
                    if let Some((role, job)) = header {
                        self.mode = Mode::Edit { line: EditLine::Role, role, job };
                    }
                    return ViewAction::Idle;
                }
                if c == 'm' {
                    if self.boxes.len() > 1 {
                        self.mode = Mode::Move;
                    }
                    return ViewAction::Idle;
                }
                self.run_control(c)
            },
            Input::Interrupt => ViewAction::Idle,
        }
    }

    /// Fire a call only when the status allows, so that a key that cannot apply is a
    /// no-op rather than a round trip that only fails.
    fn run_control(&self, key: char) -> (r: ViewAction)
        ensures
            r@ == self@.controlled(key),
    {
        let swarm_id = self.swarm_id.clone();
        let running = matches!(self.status, SwarmStatus::Running);
        let paused = self.status.is_paused();
        if key == 's' && matches!(self.status, SwarmStatus::Created) {
            ViewAction::Call(Effect::Start { swarm_id })
        } else if key == 'p' && running {
            ViewAction::Call(Effect::Pause { swarm_id })
        } else if key == 'r' && paused {
            ViewAction::Call(Effect::Resume { swarm_id })
        } else if key == 'x' && (running || paused) {
            ViewAction::Call(Effect::Stop { swarm_id })
        } else {
            ViewAction::Idle
        }
    }

    fn chat_input(&mut self, buffer: String, input: Input) -> (r: ViewAction)
        requires
            old(self)@.mode == ModeView::Nav,
        ensures
            (final(self)@, r@) == old(self)@.moded(ModeView::Chat { buffer: buffer@ }).chat_input(
                buffer@,
                input,
            ),
    {
        let mut buffer = buffer;
        match input {
            Input::Escape => ViewAction::Idle,
            Input::Backspace => {
                Edit::Erase.apply(&mut buffer);
                self.mode = Mode::Chat { buffer };
                ViewAction::Idle
            },
            Input::Char(c) => {
                Edit::Type(c).apply(&mut buffer);
                self.mode = Mode::Chat { buffer };
                ViewAction::Idle
            },
            Input::Enter => {
                let message = trim(buffer.as_str());
                if let Some(b) = self.focused_box() {
                    if !message.is_empty() {
                        return ViewAction::Call(
                            Effect::Chat {
                                swarm_id: self.swarm_id.clone(),
                                box_id: b.box_id.clone(),
                                message: message.to_owned(),
                            },
                        );
                    }
                }
                ViewAction::Idle
            },
            _ => {
                self.mode = Mode::Chat { buffer };
                ViewAction::Idle
            },
        }
    }

    fn edit_input(&mut self, line: EditLine, role: String, job: String, input: Input)
        requires
            old(self)@.mode == ModeView::Nav,
        ensures
            final(self)@ == old(self)@.moded(
                ModeView::Edit { line, role: role@, job: job@ },
            ).edit_input(line, role@, job@, input),
    {
        let mut role = role;
        let mut job = job;
        match input {
            Input::Escape => {},
            Input::Tab | Input::BackTab | Input::Up | Input::Down => {
                let other = match line {
                    EditLine::Role => EditLine::Job,
                    EditLine::Job => EditLine::Role,
                };
                self.mode = Mode::Edit { line: other, role, job };
            },
            Input::Backspace => {
                match line {
                    EditLine::Role => Edit::Erase.apply(&mut role),
                    EditLine::Job => Edit::Erase.apply(&mut job),
                }
                self.mode = Mode::Edit { line, role, job };
            },
            Input::Char(c) => {
                match line {
                    EditLine::Role => Edit::Type(c).apply(&mut role),
                    EditLine::Job => Edit::Type(c).apply(&mut job),
                }
                self.mode = Mode::Edit { line, role, job };
            },
            Input::Enter => {
                self.commit_header(role, job);
            },
            _ => {
                self.mode = Mode::Edit { line, role, job };
            },
        }
    }

    /// Write an edited header back onto the focused box and mark the roster for a
    /// save.
    fn commit_header(&mut self, role: String, job: String)
        ensures
            final(self)@ == old(self)@.headed(role@, job@),
    {
        if self.focus >= self.boxes.len() {
            return;
        }
        let at: usize = self.focus;
        let ghost boxes = self@.boxes;
        assert(boxes[at as int] == self.boxes@[at as int]@);
        if text_eq(self.boxes[at].role.as_str(), role.as_str()) && text_eq(
            self.boxes[at].job.as_str(),
            job.as_str(),
        ) {
            return;
        }
        let mut b = self.boxes[at].duplicate();
        b.role = role;
        b.job = job;
        let ghost edited = b@;
        self.boxes.set(at, b);
        assert(self@.boxes =~= boxes.update(at as int, edited));
        self.mark_layout_dirty();
    }

    fn move_input(&mut self, input: Input)
        ensures
            final(self)@ == old(self)@.move_input(input),
    {
        match input {
            Input::Escape | Input::Enter => {
                self.mode = Mode::Nav;
            },
            Input::Char(c) => {
                if c == 'm' {
                    self.mode = Mode::Nav;
                }
            },
            Input::Up => self.swap_toward(GridStep::Up),
            Input::Down => self.swap_toward(GridStep::Down),
            Input::Left => self.swap_toward(GridStep::Left),
            Input::Right => self.swap_toward(GridStep::Right),
            _ => {},
        }
    }

    /// Swap the grabbed box with the neighbour in a direction, exchanging their slots
    /// so that the move persists, and carry focus with the box.
    fn swap_toward(&mut self, step: GridStep)
        ensures
            final(self)@ == old(self)@.swapping(step),
    {
        let n: usize = self.boxes.len();
        let (_, cols) = self.grid_shape();
        if let Some(target) = neighbour(self.focus, n, cols, step) {
            if self.focus < n {
                let at: usize = self.focus;
                let ghost boxes = self@.boxes;
                assert(boxes[at as int] == self.boxes@[at as int]@);
                assert(boxes[target as int] == self.boxes@[target as int]@);
                let mut grabbed = self.boxes[at].duplicate();
                let mut other = self.boxes[target].duplicate();
                let slot: u8 = grabbed.slot;
                grabbed.slot = other.slot;
                other.slot = slot;
                let ghost a = grabbed@;
                let ghost b = other@;
                self.boxes.set(at, grabbed);
                self.boxes.set(target, other);
                assert(text::views(self.boxes@) =~= boxes.update(at as int, a).update(
                    target as int,
                    b,
                ));
                let mut boxes_now: Vec<BoxSpec> = Vec::new();
                std::mem::swap(&mut self.boxes, &mut boxes_now);
                self.boxes = sort_by_slot(boxes_now);
                self.focus = target;
                self.mark_layout_dirty();
            }
        }
    }

    fn move_focus(&mut self, step: GridStep) -> (r: ViewAction)
        ensures
            final(self)@ == old(self)@.focusing(step),
            r@ == ViewActionView::Idle,
    {
        let n: usize = self.boxes.len();
        if n == 0 {
            return ViewAction::Idle;
        }
        match step {
            GridStep::Next => {
                self.focus = Direction::Forward.wrap(self.focus, n);
            },
            GridStep::Prev => {
                self.focus = Direction::Backward.wrap(self.focus, n);
            },
            _ => {
                let (_, cols) = self.grid_shape();
                if let Some(target) = neighbour(self.focus, n, cols, step) {
                    self.focus = target;
                }
            },
        }
        ViewAction::Idle
    }
}

// ── Laws ────────────────────────────────────────────────────────────

impl CanvasView {
    /// The focus is on a cell of the grid, where there is one.
    pub open spec fn on_the_grid(self) -> bool {
        self.focus < self.boxes.len() || (self.focus == 0 && self.boxes.len() == 0)
    }

    /// The feed and every stream are within their caps.
    pub open spec fn bounded(self) -> bool {
        &&& self.feed.len() <= FEED_CAP
        &&& forall|id: Seq<char>| #[trigger]
            self.streams.contains_key(id) ==> self.streams[id].bounded()
    }
}

proof fn swaps_stay_on_the_grid(canvas: CanvasView, step: GridStep)
    requires
        canvas.on_the_grid(),
    ensures
        canvas.swapping(step).on_the_grid(),
{
    if let Some(target) = canvas.beside(step) {
        let at = canvas.focus as int;
        let to = target as int;
        grid::slot_order_sorts(
            canvas.boxes.update(
                at,
                BoxSpecView { slot: canvas.boxes[to].slot, ..canvas.boxes[at] },
            ).update(to, BoxSpecView { slot: canvas.boxes[at].slot, ..canvas.boxes[to] }),
        );
    }
}

proof fn focus_moves_stay_on_the_grid(canvas: CanvasView, step: GridStep)
    requires
        canvas.on_the_grid(),
    ensures
        canvas.focusing(step).on_the_grid(),
{
    if canvas.boxes.len() > 0 {
        super::input::a_wrapping_cursor_stays(canvas.focus, canvas.boxes.len());
    }
}

proof fn moves_stay_on_the_grid(canvas: CanvasView, input: Input)
    requires
        canvas.on_the_grid(),
    ensures
        canvas.move_input(input).on_the_grid(),
{
    swaps_stay_on_the_grid(canvas, GridStep::Up);
    swaps_stay_on_the_grid(canvas, GridStep::Down);
    swaps_stay_on_the_grid(canvas, GridStep::Left);
    swaps_stay_on_the_grid(canvas, GridStep::Right);
}

proof fn navigation_stays_on_the_grid(canvas: CanvasView, input: Input)
    requires
        canvas.on_the_grid(),
    ensures
        canvas.nav_input(input).0.on_the_grid(),
{
    focus_moves_stay_on_the_grid(canvas, GridStep::Up);
    focus_moves_stay_on_the_grid(canvas, GridStep::Down);
    focus_moves_stay_on_the_grid(canvas, GridStep::Left);
    focus_moves_stay_on_the_grid(canvas, GridStep::Right);
    focus_moves_stay_on_the_grid(canvas, GridStep::Next);
    focus_moves_stay_on_the_grid(canvas, GridStep::Prev);
}

/// Whatever happens on the canvas, the focus stays on its grid.
pub proof fn the_focus_stays_on_the_grid(
    canvas: CanvasView,
    swarm: PersistedSwarmView,
    input: Input,
)
    requires
        canvas.on_the_grid(),
    ensures
        CanvasView::opened(swarm).on_the_grid(),
        canvas.on_input(input).0.on_the_grid(),
        canvas.saved(swarm).on_the_grid(),
{
    grid::slot_order_sorts(swarm.spec.boxes);
    match canvas.mode {
        ModeView::Nav => navigation_stays_on_the_grid(canvas, input),
        ModeView::Chat { .. } => {},
        ModeView::Edit { .. } => {},
        ModeView::Move => moves_stay_on_the_grid(canvas, input),
    }
}

proof fn swaps_stay_in_slot_order(canvas: CanvasView, step: GridStep)
    requires
        grid::by_slot(canvas.boxes),
    ensures
        grid::by_slot(canvas.swapping(step).boxes),
{
    if let Some(target) = canvas.beside(step) {
        let at = canvas.focus as int;
        let to = target as int;
        grid::slot_order_sorts(
            canvas.boxes.update(
                at,
                BoxSpecView { slot: canvas.boxes[to].slot, ..canvas.boxes[at] },
            ).update(to, BoxSpecView { slot: canvas.boxes[at].slot, ..canvas.boxes[to] }),
        );
    }
}

/// Whatever happens on the canvas, its roster stays in slot order, so the cell of a box
/// is its place in the roster.
pub proof fn the_roster_stays_in_slot_order(
    canvas: CanvasView,
    swarm: PersistedSwarmView,
    input: Input,
)
    requires
        grid::by_slot(canvas.boxes),
    ensures
        grid::by_slot(CanvasView::opened(swarm).boxes),
        grid::by_slot(canvas.on_input(input).0.boxes),
        grid::by_slot(canvas.saved(swarm).boxes),
{
    grid::slot_order_sorts(swarm.spec.boxes);
    swaps_stay_in_slot_order(canvas, GridStep::Up);
    swaps_stay_in_slot_order(canvas, GridStep::Down);
    swaps_stay_in_slot_order(canvas, GridStep::Left);
    swaps_stay_in_slot_order(canvas, GridStep::Right);
}

/// A move carries the grabbed box, and the focus with it, into its neighbour's cell
/// and slot; the neighbour takes its place and no other box moves.
pub proof fn a_move_carries_the_box(canvas: CanvasView, step: GridStep, target: nat)
    requires
        grid::slots_ascend(canvas.boxes),
        canvas.focus < canvas.boxes.len(),
        canvas.beside(step) == Some(target),
    ensures
        ({
            let after = canvas.swapping(step);
            let at = canvas.focus as int;
            let to = target as int;
            &&& after.focus == target
            &&& after.boxes[to].box_id == canvas.boxes[at].box_id
            &&& after.boxes[to].slot == canvas.boxes[to].slot
            &&& after.boxes[at].box_id == canvas.boxes[to].box_id
            &&& after.boxes[at].slot == canvas.boxes[at].slot
            &&& after.layout_dirty
            &&& forall|i: int|
                0 <= i < canvas.boxes.len() && i != at && i != to ==> after.boxes[i]
                    == canvas.boxes[i]
        }),
{
    let n = canvas.boxes.len();
    grid::the_grid_is_near_square(n);
    assert(target != canvas.focus);
    grid::exchanged_slots_exchange_places(canvas.boxes, canvas.focus as int, target as int);
}

/// At most one layout write is in flight, and no edit is ever lost: a rejected write
/// is pending again, and one that was overtaken leaves the newer edits pending.
pub proof fn layout_edits_are_saved_once(canvas: CanvasView, swarm: PersistedSwarmView)
    ensures
        canvas.layout_saving ==> canvas.flushed() == (canvas, EffectView::Idle),
        canvas.layout_ready() ==> {
            let (sent, effect) = canvas.flushed();
            &&& effect == (EffectView::SaveLayout {
                swarm_id: canvas.swarm_id,
                revision: canvas.revision,
                boxes: canvas.boxes,
            })
            &&& sent.flushed().1 == EffectView::Idle
            &&& sent.unsaved().layout_ready()
            &&& sent.unsaved().boxes == canvas.boxes
            &&& !sent.saved(swarm).layout_ready()
            &&& sent.dirtied().saved(swarm).layout_ready()
            &&& sent.dirtied().saved(swarm).boxes == canvas.boxes
        },
{
}

/// What belongs to another swarm does not show.
pub proof fn other_swarms_do_not_show(canvas: CanvasView, update: SwarmUpdateView)
    requires
        update.swarm_id != canvas.swarm_id,
    ensures
        canvas.updated(update) == canvas,
{
}

/// A step of a box's turn shows in its own cell only.
pub proof fn a_turn_shows_in_its_own_cell(
    canvas: CanvasView,
    update: SwarmUpdateView,
    other: Seq<char>,
)
    requires
        other != update.box_id,
    ensures
        canvas.updated(update).stream(other) == canvas.stream(other),
        canvas.updated(update).badge(other) == canvas.badge(other),
        canvas.updated(update).boxes == canvas.boxes,
{
}

/// Whatever comes in, the canvas stays within its bounds.
pub proof fn the_canvas_stays_bounded(
    canvas: CanvasView,
    update: SwarmUpdateView,
    event: BoardEventView,
    result: ChatResultView,
)
    requires
        canvas.bounded(),
    ensures
        canvas.updated(update).bounded(),
        canvas.boarded(event).bounded(),
        canvas.chatted(result).bounded(),
{
    super::stream::streams_stay_bounded(canvas.stream(update.box_id), update.event);
    let after = canvas.updated(update);
    assert forall|id: Seq<char>| #[trigger]
        after.streams.contains_key(id) implies after.streams[id].bounded() by {
        if id != update.box_id {
            assert(canvas.streams.contains_key(id) ==> canvas.streams[id].bounded());
        }
    }
}

/// A key that cannot apply asks the daemon nothing: a finished swarm takes no run
/// control at all.
pub proof fn a_finished_swarm_takes_no_control(canvas: CanvasView, key: char)
    requires
        canvas.status.terminal(),
    ensures
        canvas.controlled(key) == ViewActionView::Idle,
{
}

/// A canvas opens on its swarm: its id, its boxes, how it stands, what it has spent, what it
/// may spend and at which revision it was read; nothing is edited, focused away or streaming
/// yet.
pub proof fn a_canvas_opens_on_its_swarm(swarm: PersistedSwarmView)
    ensures
        ({
            let canvas = CanvasView::opened(swarm);
            &&& canvas.swarm_id == swarm.spec.id
            &&& canvas.boxes.to_multiset() == swarm.spec.boxes.to_multiset()
            &&& canvas.boxes.len() == swarm.spec.boxes.len()
            &&& grid::by_slot(canvas.boxes)
            &&& canvas.status == swarm.run.status
            &&& canvas.spent == swarm.run.spent
            &&& canvas.limits == swarm.spec.budget.ceilings()
            &&& canvas.revision == swarm.revision
            &&& canvas.focus == 0 && canvas.mode == ModeView::Nav && canvas.feed.len() == 0
            &&& !canvas.subscribed && !canvas.layout_dirty && !canvas.layout_saving
        }),
{
    grid::slot_order_sorts(swarm.spec.boxes);
}

/// A change on the board shows on the badge of the box it is about and on no other: what was
/// published, the key that was claimed, and no key once that key is released. What the badge
/// says of the user and of the context stays.
pub proof fn board_changes_show_on_badges(
    canvas: CanvasView,
    box_id: Seq<char>,
    state: crate::board::BoxStateView,
    key: Seq<char>,
    other: Seq<char>,
)
    requires
        other != box_id,
    ensures
        ({
            let before = canvas.badge(box_id);
            let published = canvas.boarded(BoardEventView::Published { box_id, state });
            let claimed = canvas.boarded(BoardEventView::Claimed { box_id, task_key: key });
            let released = canvas.boarded(BoardEventView::Released { box_id, task_key: key });
            let p = published.badge(box_id);
            let c = claimed.badge(box_id);
            let r = released.badge(box_id);
            &&& p.status == state.status && p.note == state.note && p.claim == state.claim
            &&& p.engaged == before.engaged && p.context == before.context
            &&& c.claim == Some(key) && c.status == before.status && c.note == before.note
            &&& c.engaged == before.engaged && c.context == before.context
            &&& before.claim == Some(key) ==> r.claim is None
            &&& before.claim != Some(key) ==> r.claim == before.claim
            &&& r.status == before.status && r.note == before.note && r.engaged == before.engaged
            &&& published.badge(other) == canvas.badge(other)
            &&& claimed.badge(other) == canvas.badge(other)
            &&& released.badge(other) == canvas.badge(other)
            &&& published.boxes == canvas.boxes && published.streams == canvas.streams
            &&& claimed.boxes == canvas.boxes && released.boxes == canvas.boxes
        }),
{
}

/// A board that is taken down leaves every box idle and without a key; what the badges say of
/// notes, of the user and of the context stays.
pub proof fn a_reaped_board_leaves_boxes_idle(canvas: CanvasView, box_id: Seq<char>)
    ensures
        ({
            let after = canvas.boarded(BoardEventView::Reaped).badge(box_id);
            let before = canvas.badge(box_id);
            &&& after.status == BoxStatus::Idle && after.claim is None
            &&& after.note == before.note && after.engaged == before.engaged && after.context
                == before.context
        }),
{
}

/// Each change tells the feed, last: which box it was, and what it did.
pub proof fn the_feed_tells_what_happened(
    canvas: CanvasView,
    box_id: Seq<char>,
    state: crate::board::BoxStateView,
    key: Seq<char>,
    note: PhraseView,
)
    ensures
        canvas.noted(note).feed.last() == note,
        canvas.feed.len() < 100 ==> canvas.noted(note).feed == canvas.feed.push(note),
        canvas.feed.len() >= 100 ==> canvas.noted(note).feed == canvas.feed.drop_first().push(note),
        ({
            let last = canvas.boarded(BoardEventView::Published { box_id, state }).feed.last();
            &&& last.key == "cli-swarm-tui-feed-published"@
            &&& last.slots == seq![
                phrase::slot("box"@, box_id),
                phrase::slot("status"@, state.status.label()),
            ]
        }),
        ({
            let last = canvas.boarded(
                BoardEventView::Claimed { box_id, task_key: key },
            ).feed.last();
            &&& last.key == "cli-swarm-tui-feed-claimed"@
            &&& last.slots == seq![phrase::slot("box"@, box_id), phrase::slot("key"@, key)]
        }),
        ({
            let last = canvas.boarded(
                BoardEventView::Released { box_id, task_key: key },
            ).feed.last();
            &&& last.key == "cli-swarm-tui-feed-released"@
            &&& last.slots == seq![phrase::slot("box"@, box_id), phrase::slot("key"@, key)]
        }),
{
}

/// The answer to a message shows whether the box is held for the user, on that box's badge
/// alone.
pub proof fn a_chat_shows_who_holds_the_box(
    canvas: CanvasView,
    result: ChatResultView,
    other: Seq<char>,
)
    requires
        other != result.box_id,
    ensures
        ({
            let after = canvas.chatted(result);
            let badge = after.badge(result.box_id);
            let before = canvas.badge(result.box_id);
            &&& badge.engaged == result.user_engaged
            &&& badge.status == before.status && badge.claim == before.claim && badge.note
                == before.note
            &&& after.badge(other) == canvas.badge(other)
            &&& result.released ==> after.feed.last().key == "cli-swarm-tui-feed-handback"@
            &&& !result.released ==> after.feed.last().key == "cli-swarm-tui-feed-chat"@
        }),
{
}

/// A step of a box's turn goes to that box's stream, and what it says of the context to that
/// box's badge; the status of the badge stays.
pub proof fn a_step_goes_to_its_box(canvas: CanvasView, update: SwarmUpdateView)
    requires
        update.swarm_id == canvas.swarm_id,
    ensures
        ({
            let after = canvas.updated(update);
            &&& after.stream(update.box_id) == canvas.stream(update.box_id).applied(update.event)
            &&& update.event matches TurnEventView::ContextUsage {
                input_tokens: Some(tokens),
                max_context_tokens,
            } ==> after.badge(update.box_id).context == Some((tokens, max_context_tokens))
            &&& !(update.event is ContextUsage) ==> after.badge(update.box_id) == canvas.badge(
                update.box_id,
            )
            &&& after.badge(update.box_id).status == canvas.badge(update.box_id).status
            &&& after.feed == canvas.feed && after.status == canvas.status && after.spent
                == canvas.spent
        }),
{
}

/// Which key runs the swarm how: a swarm that was never started can be started, a running
/// one paused, a paused one resumed, and a running or paused one stopped; no other key, and
/// none of these at another time, does anything.
pub proof fn which_key_runs_the_swarm(canvas: CanvasView, key: char)
    ensures
        ({
            let id = canvas.swarm_id;
            let paused = canvas.status is Paused;
            let running = canvas.status == SwarmStatus::Running;
            let action = canvas.controlled(key);
            &&& action == ViewActionView::Call(EffectView::Start { swarm_id: id }) <==> key == 's'
                && canvas.status == SwarmStatus::Created
            &&& action == ViewActionView::Call(EffectView::Pause { swarm_id: id }) <==> key == 'p'
                && running
            &&& action == ViewActionView::Call(EffectView::Resume { swarm_id: id }) <==> key == 'r'
                && paused
            &&& action == ViewActionView::Call(EffectView::Stop { swarm_id: id }) <==> key == 'x'
                && (running || paused)
            &&& key != 's' && key != 'p' && key != 'r' && key != 'x' ==> action
                == ViewActionView::Idle
            &&& canvas.mode == ModeView::Nav && key != 'q' && key != 'e' && key != 'm'
                ==> canvas.on_input(Input::Char(key)) == (canvas, action)
        }),
{
}

/// A message is typed a character at a time and goes, trimmed, to the box that the focus is
/// on, of this swarm; a blank one goes nowhere, and Escape drops it.
pub proof fn a_message_goes_to_the_focused_box(canvas: CanvasView, buffer: Seq<char>, c: char)
    requires
        canvas.mode == (ModeView::Chat { buffer }),
        canvas.focus < canvas.boxes.len(),
    ensures
        ({
            let (sent, action) = canvas.on_input(Input::Enter);
            let (typed, _) = canvas.on_input(Input::Char(c));
            let (erased, _) = canvas.on_input(Input::Backspace);
            let (dropped, nothing) = canvas.on_input(Input::Escape);
            &&& sent.mode == ModeView::Nav && dropped.mode == ModeView::Nav
            &&& text::trimmed(buffer).len() > 0 ==> action == ViewActionView::Call(
                EffectView::Chat {
                    swarm_id: canvas.swarm_id,
                    box_id: canvas.boxes[canvas.focus as int].box_id,
                    message: text::trimmed(buffer),
                },
            )
            &&& text::trimmed(buffer).len() == 0 ==> action == ViewActionView::Idle
            &&& nothing == ViewActionView::Idle
            &&& typed.mode == (ModeView::Chat { buffer: buffer.push(c) })
            &&& buffer.len() > 0 ==> erased.mode == (ModeView::Chat { buffer: buffer.drop_last() })
            &&& sent.boxes == canvas.boxes && typed.boxes == canvas.boxes
        }),
{
}

/// A header is edited from what the focused box says, one line at a time; Enter gives that
/// box the role and the job as typed and keeps its id and its slot, and every other box; and
/// Escape gives up the edit.
pub proof fn a_header_is_edited_in_place(
    canvas: CanvasView,
    line: EditLine,
    role: Seq<char>,
    job: Seq<char>,
    c: char,
    other: int,
)
    requires
        canvas.mode == (ModeView::Edit { line, role, job }),
        canvas.focus < canvas.boxes.len(),
        0 <= other < canvas.boxes.len(),
        other != canvas.focus,
    ensures
        ({
            let at = canvas.focus as int;
            let done = canvas.on_input(Input::Enter).0;
            let typed = canvas.on_input(Input::Char(c)).0;
            let turned = canvas.on_input(Input::Tab).0;
            let dropped = canvas.on_input(Input::Escape).0;
            let changed = canvas.boxes[at].role != role || canvas.boxes[at].job != job;
            &&& done.mode == ModeView::Nav
            &&& done.boxes.len() == canvas.boxes.len()
            &&& done.boxes[at].role == role && done.boxes[at].job == job
            &&& done.boxes[at].box_id == canvas.boxes[at].box_id && done.boxes[at].slot
                == canvas.boxes[at].slot
            &&& done.boxes[other] == canvas.boxes[other]
            &&& changed ==> done.layout_dirty && done.layout_generation != canvas.layout_generation
            &&& !changed ==> done.layout_dirty == canvas.layout_dirty
            &&& line == EditLine::Role ==> typed.mode == (ModeView::Edit {
                line,
                role: role.push(c),
                job,
            })
            &&& line == EditLine::Job ==> typed.mode == (ModeView::Edit {
                line,
                role,
                job: job.push(c),
            })
            &&& turned.mode matches ModeView::Edit { line: now, role: r, job: j } && now != line
                && r == role && j == job
            &&& dropped.mode == ModeView::Nav && dropped.boxes == canvas.boxes
                && dropped.layout_dirty == canvas.layout_dirty
        }),
{
}

/// What the other keys do while nothing is edited: Enter opens a message to the focused box,
/// `e` its header as it stands, `m` a move where there is more than one box; `q` quits, and
/// Escape and Backspace leave. None of them touches a box.
pub proof fn what_the_keys_open(canvas: CanvasView)
    requires
        canvas.mode == ModeView::Nav,
        canvas.focus < canvas.boxes.len(),
    ensures
        ({
            let focused = canvas.boxes[canvas.focus as int];
            let chat = canvas.on_input(Input::Enter);
            let edit = canvas.on_input(Input::Char('e'));
            let grab = canvas.on_input(Input::Char('m'));
            &&& chat.0.mode == (ModeView::Chat { buffer: Seq::empty() })
            &&& edit.0.mode == (ModeView::Edit {
                line: EditLine::Role,
                role: focused.role,
                job: focused.job,
            })
            &&& canvas.boxes.len() > 1 ==> grab.0.mode == ModeView::Move
            &&& canvas.boxes.len() == 1 ==> grab.0 == canvas
            &&& canvas.on_input(Input::Char('q')).1 == ViewActionView::Quit
            &&& canvas.on_input(Input::Escape).1 == ViewActionView::Leave
            &&& canvas.on_input(Input::Backspace).1 == ViewActionView::Leave
            &&& chat.0.boxes == canvas.boxes && edit.0.boxes == canvas.boxes && grab.0.boxes
                == canvas.boxes
            &&& chat.1 == ViewActionView::Idle && edit.1 == ViewActionView::Idle && grab.1
                == ViewActionView::Idle
        }),
{
}

/// Where the focus goes: an arrow leads to the neighbouring cell where there is a box in it,
/// and Tab to the next box, going round.
pub proof fn where_the_focus_goes(canvas: CanvasView, target: nat)
    requires
        canvas.mode == ModeView::Nav,
        canvas.focus < canvas.boxes.len(),
    ensures
        ({
            let n = canvas.boxes.len();
            let cols = grid::columns(n);
            &&& target + cols == canvas.focus ==> canvas.on_input(Input::Up).0.focus == target
            &&& target == canvas.focus + cols && target < n ==> canvas.on_input(
                Input::Down,
            ).0.focus == target
            &&& canvas.focus + cols >= n ==> canvas.on_input(Input::Down).0.focus == canvas.focus
            &&& canvas.on_input(Input::Tab).0.focus == if canvas.focus + 1 == n {
                0
            } else {
                canvas.focus + 1
            }
            &&& canvas.on_input(Input::BackTab).0.focus == if canvas.focus == 0 {
                n - 1
            } else {
                canvas.focus - 1
            }
            &&& canvas.on_input(Input::Right).0.focus == if canvas.focus + 1 < n && canvas.focus
                % cols != cols - 1 {
                canvas.focus + 1
            } else {
                canvas.focus
            }
            &&& canvas.on_input(Input::Left).0.focus == if canvas.focus % cols != 0 {
                canvas.focus - 1
            } else {
                canvas.focus as int
            }
        }),
{
    let n = canvas.boxes.len();
    let cols = grid::columns(n);
    grid::no_row_is_spare(n);
    grid::where_each_move_leads(canvas.focus, n, cols, target);
    grid::where_each_move_leads(canvas.focus, n, cols, (canvas.focus + cols) as nat);
    grid::where_each_move_leads(canvas.focus, n, cols, canvas.focus + 1);
    if canvas.focus > 0 {
        grid::where_each_move_leads(canvas.focus, n, cols, (canvas.focus - 1) as nat);
    }
    super::input::where_a_wrapping_cursor_goes(canvas.focus, n);
    assert(0nat % cols == 0) by (nonlinear_arith)
        requires
            cols >= 1,
    ;
}

/// A saved layout moves the canvas on to the revision that was written, and takes over the
/// boxes as they were written unless there are newer edits.
pub proof fn a_saved_layout_moves_on(canvas: CanvasView, swarm: PersistedSwarmView)
    ensures
        ({
            let after = canvas.saved(swarm);
            &&& after.revision == swarm.revision
            &&& !after.layout_saving
            &&& after.layout_dirty == canvas.layout_dirty
            &&& canvas.layout_dirty ==> after.boxes == canvas.boxes
            &&& !canvas.layout_dirty ==> after.boxes.to_multiset()
                == swarm.spec.boxes.to_multiset() && grid::by_slot(after.boxes)
            &&& canvas.layout_saving ==> canvas.unsaved().layout_dirty
                && !canvas.unsaved().layout_saving
            &&& canvas.unsaved().boxes == canvas.boxes && canvas.unsaved().revision
                == canvas.revision
        }),
{
    grid::slot_order_sorts(swarm.spec.boxes);
}

/// Of a box that nothing was heard of yet the badge says that it is idle, holds nothing, says
/// nothing and is nobody's; and its stream is silent.
pub proof fn an_unheard_box_is_idle(canvas: CanvasView, box_id: Seq<char>)
    ensures
        !canvas.badges.contains_key(box_id) ==> ({
            let badge = canvas.badge(box_id);
            badge.status == BoxStatus::Idle && badge.claim is None && badge.note.len() == 0
                && !badge.engaged && badge.context is None
        }),
        !canvas.streams.contains_key(box_id) ==> canvas.stream(box_id).lines.len() == 0
            && canvas.stream(box_id).partial is None && !canvas.stream(box_id).gap,
        canvas.layout_generation < u64::MAX ==> canvas.dirtied().layout_generation
            == canvas.layout_generation + 1,
        canvas.dirtied().layout_dirty,
{
}

/// What stays of a canvas. Messages and board changes show in the badges and the feed, a
/// step in the badges and the streams; the keys that move the focus move nothing else, and
/// those that change the layout leave everything that was heard of the swarm.
pub proof fn what_stays_of_a_canvas(
    canvas: CanvasView,
    result: ChatResultView,
    update: SwarmUpdateView,
    event: BoardEventView,
    step: GridStep,
    swarm: PersistedSwarmView,
    role: Seq<char>,
    job: Seq<char>,
)
    ensures
        ({
            let after = canvas.chatted(result);
            after == CanvasView { badges: after.badges, feed: after.feed, ..canvas }
        }),
        ({
            let after = canvas.updated(update);
            after == CanvasView { badges: after.badges, streams: after.streams, ..canvas }
        }),
        ({
            let after = canvas.boarded(event);
            after == CanvasView { badges: after.badges, feed: after.feed, ..canvas }
        }),
        ({
            let after = canvas.focusing(step);
            after == CanvasView { focus: after.focus, ..canvas }
        }),
        ({
            let after = canvas.swapping(step);
            after == CanvasView {
                boxes: after.boxes,
                focus: after.focus,
                layout_dirty: after.layout_dirty,
                layout_generation: after.layout_generation,
                ..canvas
            }
        }),
        ({
            let after = canvas.headed(role, job);
            after == CanvasView {
                boxes: after.boxes,
                layout_dirty: after.layout_dirty,
                layout_generation: after.layout_generation,
                ..canvas
            }
        }),
        ({
            let after = canvas.flushed().0;
            after == CanvasView {
                layout_dirty: after.layout_dirty,
                layout_saving: after.layout_saving,
                ..canvas
            }
        }),
        ({
            let after = canvas.saved(swarm);
            after == CanvasView {
                boxes: after.boxes,
                focus: after.focus,
                revision: after.revision,
                layout_saving: after.layout_saving,
                layout_generation: after.layout_generation,
                ..canvas
            }
        }),
        ({
            let after = canvas.unsaved();
            after == CanvasView {
                layout_dirty: after.layout_dirty,
                layout_saving: after.layout_saving,
                layout_generation: after.layout_generation,
                ..canvas
            }
        }),
{
}

} // verus!
