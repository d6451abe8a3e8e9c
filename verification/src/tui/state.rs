//! The dashboard's state machine.
//!
//! Input arrives as an [`Input`], the daemon's answers arrive as an [`Update`], and the
//! only thing that leaves is an [`Effect`] the driver is asked to perform.

use vstd::prelude::*;

use super::client::{RpcFailure, RpcFailureView, METHOD_NOT_FOUND, SWARM_RUN_ACTIVE};
use super::input::{Direction, Input};
use super::phrase;
use super::phrase::{ta_one, Phrase, PhraseView};
use super::view::{CanvasView, ViewAction, ViewActionView, ViewState};
use super::wire::{Effect, EffectView, Update, UpdateView};
use super::wizard::{WizardAction, WizardActionView, WizardState, WizardView};
use crate::duplicate;
use crate::duplicate::Duplicate;
use crate::store;
use crate::store::model::{PersistedSwarm, PersistedSwarmView, SwarmSpend, SwarmStatus};
use crate::text;
use crate::text::text_eq;

verus! {

/// Where the dashboard is. One variant per screen.
#[derive(Debug, PartialEq, Eq)]
pub enum Screen {
    Dashboard,
    /// A single swarm, on its live canvas.
    Detail { swarm_id: String },
    Wizard,
    /// The daemon has no swarm methods: an older build behind the same socket. Shown
    /// instead of crashing.
    Unsupported,
}

/// A screen as plain values.
#[verifier::ext_equal]
pub enum ScreenView {
    Dashboard,
    Detail { swarm_id: Seq<char> },
    Wizard,
    Unsupported,
}

impl View for Screen {
    type V = ScreenView;

    open spec fn view(&self) -> ScreenView {
        match self {
            Screen::Dashboard => ScreenView::Dashboard,
            Screen::Detail { swarm_id } => ScreenView::Detail { swarm_id: swarm_id@ },
            Screen::Wizard => ScreenView::Wizard,
            Screen::Unsupported => ScreenView::Unsupported,
        }
    }
}

/// A blocking overlay. At most one is up at a time.
#[derive(Debug, PartialEq, Eq)]
pub enum Modal {
    /// No overlay.
    Closed,
    /// Delete confirmation. `force` is set on the retry after the daemon refused
    /// because a live run holds the swarm.
    ConfirmDelete { swarm_id: String, force: bool },
    Error { message: String },
}

/// An overlay as plain values.
#[verifier::ext_equal]
pub enum ModalView {
    Closed,
    ConfirmDelete { swarm_id: Seq<char>, force: bool },
    Error { message: Seq<char> },
}

impl View for Modal {
    type V = ModalView;

    open spec fn view(&self) -> ModalView {
        match self {
            Modal::Closed => ModalView::Closed,
            Modal::ConfirmDelete { swarm_id, force } => ModalView::ConfirmDelete {
                swarm_id: swarm_id@,
                force: *force,
            },
            Modal::Error { message } => ModalView::Error { message: message@ },
        }
    }
}

/// The whole dashboard.
#[derive(Debug)]
pub struct App {
    screen: Screen,
    swarms: Vec<PersistedSwarm>,
    /// Row cursor. The row past the last swarm is the "new swarm" row, so the list is
    /// never empty.
    selected: usize,
    modal: Modal,
    /// `None` while the wizard's steps are still in flight.
    wizard: Option<WizardState>,
    /// The canvas of the swarm that is open.
    canvas: Option<ViewState>,
    status: Option<Phrase>,
    busy: bool,
    quit: bool,
    /// A freshly created swarm to put the cursor on once the list reloads.
    pending_select: Option<String>,
}

/// The dashboard as plain values.
#[verifier::ext_equal]
pub struct AppView {
    pub screen: ScreenView,
    pub swarms: Seq<PersistedSwarmView>,
    pub selected: nat,
    pub modal: ModalView,
    pub wizard: Option<WizardView>,
    pub canvas: Option<CanvasView>,
    pub status: Option<PhraseView>,
    pub busy: bool,
    pub quit: bool,
    pub pending_select: Option<Seq<char>>,
}

impl View for App {
    type V = AppView;

    closed spec fn view(&self) -> AppView {
        AppView {
            screen: self.screen@,
            swarms: text::views(self.swarms@),
            selected: self.selected as nat,
            modal: self.modal@,
            wizard: duplicate::opt_view(self.wizard),
            canvas: duplicate::opt_view(self.canvas),
            status: duplicate::opt_view(self.status),
            busy: self.busy,
            quit: self.quit,
            pending_select: duplicate::opt_view(self.pending_select),
        }
    }
}

/// The ids of swarms, in order.
pub open spec fn ids_of(swarms: Seq<PersistedSwarmView>) -> Seq<Seq<char>> {
    Seq::new(swarms.len(), |i: int| swarms[i].spec.id)
}

fn position_of(swarms: &Vec<PersistedSwarm>, swarm_id: &str) -> (r: Option<usize>)
    ensures
        match r {
            Some(at) => at < swarms.len() && at == text::first_index(
                ids_of(text::views(swarms@)),
                swarm_id@,
            ) && ids_of(text::views(swarms@)).contains(swarm_id@)
                && ids_of(text::views(swarms@))[at as int] == swarm_id@,
            None => !ids_of(text::views(swarms@)).contains(swarm_id@),
        },
{
    let ghost ids = ids_of(text::views(swarms@));
    let mut i: usize = 0;
    while i < swarms.len()
        invariant
            i <= swarms.len(),
            ids == ids_of(text::views(swarms@)),
            forall|j: int| 0 <= j < i ==> ids[j] != swarm_id@,
        decreases swarms.len() - i,
    {
        assert(ids[i as int] == swarms@[i as int]@.spec.id);
        if text_eq(swarms[i].spec.id.as_str(), swarm_id) {
            proof {
                text::first_index_at(ids, swarm_id@, i as int);
                assert(ids.contains(ids[i as int]));
            }
            return Some(i);
        }
        i += 1;
    }
    None
}

impl AppView {
    /// A session that waits for its list.
    pub open spec fn fresh() -> AppView {
        AppView {
            screen: ScreenView::Dashboard,
            swarms: Seq::empty(),
            selected: 0,
            modal: ModalView::Closed,
            wizard: None,
            canvas: None,
            status: None,
            busy: true,
            quit: false,
            pending_select: None,
        }
    }

    /// Every swarm, and the "new swarm" row.
    pub open spec fn rows(self) -> nat {
        if self.swarms.len() < usize::MAX {
            self.swarms.len() + 1
        } else {
            self.swarms.len()
        }
    }

    /// The swarm under the cursor.
    pub open spec fn chosen(self) -> Option<PersistedSwarmView> {
        if self.selected < self.swarms.len() {
            Some(self.swarms[self.selected as int])
        } else {
            None
        }
    }

    /// Done, with the call to leave.
    pub open spec fn leaving(self) -> (AppView, EffectView) {
        (AppView { quit: true, ..self }, EffectView::Quit)
    }

    /// With a call in flight.
    pub open spec fn calling(self, effect: EffectView) -> (AppView, EffectView) {
        (AppView { busy: true, ..self }, effect)
    }

    /// With the canvas of a swarm open. A run in flight is subscribed to.
    pub open spec fn opening(self, swarm: PersistedSwarmView) -> (AppView, EffectView) {
        let open = AppView {
            screen: ScreenView::Detail { swarm_id: swarm.spec.id },
            canvas: Some(CanvasView::opened(swarm)),
            ..self
        };
        if swarm.run.status == SwarmStatus::Running {
            open.calling(EffectView::Subscribe { swarm_id: swarm.spec.id })
        } else {
            (open, EffectView::Idle)
        }
    }

    /// What an input does on the list.
    pub open spec fn dashboard_input(self, input: Input) -> (AppView, EffectView) {
        let up = AppView {
            selected: Direction::Backward.wrapped(self.selected, self.rows()),
            ..self
        };
        let down = AppView {
            selected: Direction::Forward.wrapped(self.selected, self.rows()),
            ..self
        };
        match input {
            Input::Up => (up, EffectView::Idle),
            Input::BackTab => (up, EffectView::Idle),
            Input::Down => (down, EffectView::Idle),
            Input::Tab => (down, EffectView::Idle),
            Input::Enter => match self.chosen() {
                None => AppView {
                    screen: ScreenView::Wizard,
                    wizard: None,
                    status: None,
                    ..self
                }.calling(EffectView::Fields { provider: None }),
                Some(swarm) => self.opening(swarm),
            },
            Input::Escape => self.leaving(),
            Input::Char(c) => if c == 'q' {
                self.leaving()
            } else if c == 'r' {
                self.calling(EffectView::List)
            } else if c == 'd' {
                match self.chosen() {
                    Some(swarm) => (
                        AppView {
                            modal: ModalView::ConfirmDelete {
                                swarm_id: swarm.spec.id,
                                force: false,
                            },
                            ..self
                        },
                        EffectView::Idle,
                    ),
                    None => (self, EffectView::Idle),
                }
            } else {
                (self, EffectView::Idle)
            },
            _ => (self, EffectView::Idle),
        }
    }

    /// Back on the list.
    pub open spec fn at_dashboard(self) -> AppView {
        AppView { screen: ScreenView::Dashboard, canvas: None, ..self }
    }

    /// What an input does on a swarm's canvas.
    pub open spec fn detail_input(self, input: Input) -> (AppView, EffectView) {
        match self.canvas {
            Some(canvas) => {
                let (after, action) = canvas.on_input(input);
                let next = AppView { canvas: Some(after), ..self };
                match action {
                    ViewActionView::Idle => (next, EffectView::Idle),
                    ViewActionView::Leave => (next.at_dashboard(), EffectView::Idle),
                    ViewActionView::Quit => next.leaving(),
                    ViewActionView::Call(effect) => next.calling(effect),
                }
            },
            None => match input {
                Input::Escape => (self.at_dashboard(), EffectView::Idle),
                Input::Backspace => (self.at_dashboard(), EffectView::Idle),
                Input::Char(c) => if c == 'q' {
                    self.leaving()
                } else {
                    (self, EffectView::Idle)
                },
                _ => (self, EffectView::Idle),
            },
        }
    }

    /// With the draft abandoned.
    pub open spec fn without_draft(self) -> AppView {
        AppView { screen: ScreenView::Dashboard, wizard: None, busy: false, ..self }
    }

    /// What an input does in the wizard.
    pub open spec fn wizard_input(self, input: Input) -> (AppView, EffectView) {
        match self.wizard {
            Some(draft) => {
                let (after, action) = draft.on_input(input);
                let next = AppView { wizard: Some(after), ..self };
                match action {
                    WizardActionView::Idle => (next, EffectView::Idle),
                    WizardActionView::Leave => (next.without_draft(), EffectView::Idle),
                    WizardActionView::Call(effect) => next.calling(effect),
                }
            },
            // Steps still in flight: the only useful key is "give up".
            None => if input == Input::Escape {
                (self.without_draft(), EffectView::Idle)
            } else {
                (self, EffectView::Idle)
            },
        }
    }

    /// What an input does to an overlay.
    pub open spec fn modal_input(self, input: Input) -> (AppView, EffectView) {
        let closed = AppView { modal: ModalView::Closed, ..self };
        match self.modal {
            ModalView::ConfirmDelete { swarm_id, force } => if input == Input::Enter || input
                == Input::Char('y') || input == Input::Char('Y') {
                self.calling(EffectView::Delete { swarm_id, force })
            } else if input == Input::Escape || input == Input::Char('n') || input == Input::Char(
                'N',
            ) {
                (closed, EffectView::Idle)
            } else {
                (self, EffectView::Idle)
            },
            ModalView::Error { .. } => (closed, EffectView::Idle),
            ModalView::Closed => (self, EffectView::Idle),
        }
    }

    /// What an input does.
    pub open spec fn on_input(self, input: Input) -> (AppView, EffectView) {
        if input == Input::Interrupt {
            self.leaving()
        } else if self.modal != ModalView::Closed {
            self.modal_input(input)
        } else {
            match self.screen {
                ScreenView::Dashboard => self.dashboard_input(input),
                ScreenView::Detail { .. } => self.detail_input(input),
                ScreenView::Wizard => self.wizard_input(input),
                ScreenView::Unsupported => self.leaving(),
            }
        }
    }

    // ── Updates ─────────────────────────────────────────────────────

    /// With a new list. A swarm that was just created is selected, and the cursor
    /// stays on a row.
    pub open spec fn listed(self, swarms: Seq<PersistedSwarmView>) -> AppView {
        let at = match self.pending_select {
            Some(id) => if ids_of(swarms).contains(id) {
                text::first_index(ids_of(swarms), id) as nat
            } else {
                self.selected
            },
            None => self.selected,
        };
        let next = AppView { swarms, pending_select: None, ..self };
        AppView {
            selected: if at >= next.rows() {
                swarms.len()
            } else {
                at
            },
            ..next
        }
    }

    /// The open canvas is that of the swarm.
    pub open spec fn shows(self, swarm_id: Seq<char>) -> bool {
        self.canvas matches Some(c) && c.swarm_id == swarm_id
    }

    /// With another state of the open canvas.
    pub open spec fn drawing(self, canvas: CanvasView) -> AppView {
        AppView { canvas: Some(canvas), ..self }
    }

    /// After a run-control call went through. A run that was set going is subscribed
    /// to.
    pub open spec fn run_controlled(
        self,
        swarm_id: Seq<char>,
        status: SwarmStatus,
        spent: SwarmSpend,
    ) -> (AppView, EffectView) {
        if self.shows(swarm_id) {
            let canvas = self.canvas->0;
            let next = self.drawing(CanvasView { status, spent, ..canvas });
            if status == SwarmStatus::Running && !canvas.subscribed {
                next.calling(EffectView::Subscribe { swarm_id })
            } else {
                (next, EffectView::Idle)
            }
        } else {
            (self, EffectView::Idle)
        }
    }

    /// After a call failed: a missing method degrades, a live run is asked about
    /// again with force, and anything else is shown.
    pub open spec fn failed(self, failure: RpcFailureView) -> AppView {
        let calm = AppView {
            wizard: match self.wizard {
                Some(draft) => Some(WizardView { awaiting_submit: false, ..draft }),
                None => None,
            },
            canvas: match self.canvas {
                Some(canvas) => Some(canvas.unsaved()),
                None => None,
            },
            ..self
        };
        if failure.code == METHOD_NOT_FOUND {
            AppView { screen: ScreenView::Unsupported, modal: ModalView::Closed, ..calm }
        } else {
            AppView {
                modal: match self.modal {
                    ModalView::ConfirmDelete { swarm_id, .. } => if failure.code
                        == SWARM_RUN_ACTIVE {
                        ModalView::ConfirmDelete { swarm_id, force: true }
                    } else {
                        ModalView::Error { message: failure.message }
                    },
                    _ => ModalView::Error { message: failure.message },
                },
                ..calm
            }
        }
    }

    /// After a swarm was deleted.
    pub open spec fn dropped(self, swarm_id: Seq<char>) -> (AppView, EffectView) {
        let told = AppView {
            status: Some(
                phrase::said_with(
                    "cli-swarm-tui-deleted"@,
                    seq![phrase::slot("swarm_id"@, swarm_id)],
                    "Swarm deleted."@,
                ),
            ),
            modal: ModalView::Closed,
            ..self
        };
        (if self.screen == (ScreenView::Detail { swarm_id }) {
            told.at_dashboard()
        } else {
            told
        }).calling(EffectView::List)
    }

    /// What the daemon's verdict on a draft does.
    pub open spec fn validated(self, verdict: super::wire::VerdictView) -> (AppView, EffectView) {
        match self.wizard {
            None => (self, EffectView::Idle),
            Some(draft) => {
                let (after, action) = draft.on_validation(verdict);
                let next = AppView { wizard: Some(after), ..self };
                match action {
                    WizardActionView::Call(effect) => next.calling(effect),
                    WizardActionView::Leave => (
                        AppView { screen: ScreenView::Dashboard, wizard: None, ..next },
                        EffectView::Idle,
                    ),
                    WizardActionView::Idle => (next, EffectView::Idle),
                }
            },
        }
    }

    /// What an update does. An answer ends the wait for it; a step of a live stream
    /// does not.
    pub open spec fn on_update(self, update: UpdateView) -> (AppView, EffectView) {
        let heard = AppView { busy: false, ..self };
        match update {
            UpdateView::Swarms(swarms) => (heard.listed(swarms), EffectView::Idle),
            UpdateView::Fields { provider, steps } => (
                AppView {
                    wizard: Some(
                        match self.wizard {
                            Some(draft) => draft.merged(steps, provider),
                            None => WizardView::blank(steps),
                        },
                    ),
                    ..heard
                },
                EffectView::Idle,
            ),
            UpdateView::Validated(verdict) => heard.validated(verdict),
            UpdateView::Created(swarm) => AppView {
                status: Some(
                    phrase::said_with(
                        "cli-swarm-tui-created"@,
                        seq![phrase::slot("name"@, swarm.spec.name)],
                        "Swarm created."@,
                    ),
                ),
                pending_select: Some(swarm.spec.id),
                screen: ScreenView::Dashboard,
                wizard: None,
                ..heard
            }.calling(EffectView::List),
            UpdateView::Deleted { swarm_id } => heard.dropped(swarm_id),
            UpdateView::Subscribed { swarm_id } => (
                if self.shows(swarm_id) {
                    heard.drawing(CanvasView { subscribed: true, ..self.canvas->0 })
                } else {
                    heard
                },
                EffectView::Idle,
            ),
            UpdateView::RunControl { swarm_id, status, spent } => heard.run_controlled(
                swarm_id,
                status,
                spent,
            ),
            UpdateView::Chatted(result) => (
                if self.shows(result.swarm_id) {
                    heard.drawing((self.canvas->0).chatted(result))
                } else {
                    heard
                },
                EffectView::Idle,
            ),
            UpdateView::LayoutSaved(swarm) => (
                if self.shows(swarm.spec.id) {
                    heard.drawing((self.canvas->0).saved(swarm))
                } else {
                    heard
                },
                EffectView::Idle,
            ),
            UpdateView::Stream(step) => (
                if self.shows(step.swarm_id) {
                    self.drawing((self.canvas->0).updated(step))
                } else {
                    self
                },
                EffectView::Idle,
            ),
            UpdateView::Board(change) => (
                if self.shows(change.swarm_id) {
                    self.drawing((self.canvas->0).boarded(change.event))
                } else {
                    self
                },
                EffectView::Idle,
            ),
            UpdateView::Gap => (
                match self.canvas {
                    Some(canvas) => self.drawing(
                        canvas.noted(
                            phrase::said("cli-swarm-tui-feed-gap"@, "… (stream gap)"@),
                        ),
                    ),
                    None => self,
                },
                EffectView::Idle,
            ),
            UpdateView::Failed(failure) => (heard.failed(failure), EffectView::Idle),
        }
    }
}

impl App {
    /// A session that waits for its list.
    pub fn new() -> (r: Self)
        ensures
            r@ == AppView::fresh(),
    {
        let r = App {
            screen: Screen::Dashboard,
            swarms: Vec::new(),
            selected: 0,
            modal: Modal::Closed,
            wizard: None,
            canvas: None,
            status: None,
            busy: true,
            quit: false,
            pending_select: None,
        };
        assert(r@.swarms =~= Seq::empty());
        r
    }

    /// A session that opens straight onto the degrade screen: the daemon said at the
    /// start that it has no swarm methods.
    pub fn unsupported() -> (r: Self)
        ensures
            r@ == (AppView {
                screen: ScreenView::Unsupported,
                busy: false,
                ..AppView::fresh()
            }),
    {
        let mut app = App::new();
        app.screen = Screen::Unsupported;
        app.busy = false;
        app
    }

    // ── Read side ───────────────────────────────────────────────────

    /// The screen that is up.
    pub fn screen(&self) -> (r: &Screen)
        ensures
            r@ == self@.screen,
    {
        &self.screen
    }

    /// The swarms, as listed.
    pub fn swarms(&self) -> (r: &Vec<PersistedSwarm>)
        ensures
            text::views(r@) == self@.swarms,
    {
        &self.swarms
    }

    /// The row cursor.
    pub fn selected(&self) -> (r: usize)
        ensures
            r == self@.selected,
    {
        self.selected
    }

    /// The overlay that is up.
    pub fn modal(&self) -> (r: &Modal)
        ensures
            r@ == self@.modal,
    {
        &self.modal
    }

    /// The draft, once its steps are there.
    pub fn wizard(&self) -> (r: Option<&WizardState>)
        ensures
            store::ref_view(r) == self@.wizard,
    {
        match &self.wizard {
            Some(draft) => Some(draft),
            None => None,
        }
    }

    /// The canvas that is open.
    pub fn view_state(&self) -> (r: Option<&ViewState>)
        ensures
            store::ref_view(r) == self@.canvas,
    {
        match &self.canvas {
            Some(canvas) => Some(canvas),
            None => None,
        }
    }

    /// What happened last, if anything is to be said of it.
    pub fn status(&self) -> (r: Option<&Phrase>)
        ensures
            store::ref_view(r) == self@.status,
    {
        match &self.status {
            Some(p) => Some(p),
            None => None,
        }
    }

    /// A call is in flight.
    pub fn busy(&self) -> (r: bool)
        ensures
            r == self@.busy,
    {
        self.busy
    }

    /// The session is over.
    pub fn quit(&self) -> (r: bool)
        ensures
            r == self@.quit,
    {
        self.quit
    }

    /// Whether the open canvas has its live streams on.
    pub fn is_streaming(&self) -> (r: bool)
        ensures
            r == (self@.canvas matches Some(c) && c.subscribed),
    {
        match &self.canvas {
            Some(canvas) => canvas.subscribed(),
            None => false,
        }
    }

    /// Rows on the dashboard: every swarm plus the "new swarm" row.
    pub fn row_count(&self) -> (r: usize)
        ensures
            r == self@.rows(),
    {
        assert(self@.swarms.len() == self.swarms.len());
        self.swarms.len().saturating_add(1)
    }

    /// Whether the cursor is on the "new swarm" row.
    pub fn on_new_row(&self) -> (r: bool)
        ensures
            r == (self@.selected >= self@.swarms.len()),
    {
        self.selected >= self.swarms.len()
    }

    /// The swarm under the cursor.
    pub fn selected_swarm(&self) -> (r: Option<&PersistedSwarm>)
        ensures
            store::ref_view(r) == self@.chosen(),
    {
        if self.selected < self.swarms.len() {
            assert(self@.swarms[self.selected as int] == self.swarms@[self.selected as int]@);
            Some(&self.swarms[self.selected])
        } else {
            None
        }
    }

    /// The listed swarm of that id.
    pub fn swarm(&self, swarm_id: &str) -> (r: Option<&PersistedSwarm>)
        ensures
            match r {
                Some(s) => ids_of(self@.swarms).contains(swarm_id@) && s@
                    == self@.swarms[text::first_index(ids_of(self@.swarms), swarm_id@)],
                None => !ids_of(self@.swarms).contains(swarm_id@),
            },
    {
        match position_of(&self.swarms, swarm_id) {
            Some(at) => {
                assert(self@.swarms[at as int] == self.swarms@[at as int]@);
                Some(&self.swarms[at])
            },
            None => None,
        }
    }

    // ── Reducer ─────────────────────────────────────────────────────

    /// Takes an input.
    pub fn on_input(&mut self, input: Input) -> (r: Effect)
        ensures
            (final(self)@, r@) == old(self)@.on_input(input),
    {
        if matches!(input, Input::Interrupt) {
            self.quit = true;
            return Effect::Quit;
        }
        if !matches!(self.modal, Modal::Closed) {
            return self.modal_input(input);
        }
        match &self.screen {
            Screen::Dashboard => self.dashboard_input(input),
            Screen::Detail { .. } => self.detail_input(input),
            Screen::Wizard => self.wizard_input(input),
            Screen::Unsupported => {
                self.quit = true;
                Effect::Quit
            },
        }
    }

    fn dashboard_input(&mut self, input: Input) -> (r: Effect)
        ensures
            (final(self)@, r@) == old(self)@.dashboard_input(input),
    {
        match input {
            Input::Up | Input::BackTab => {
                self.selected = Direction::Backward.wrap(self.selected, self.row_count());
                Effect::Idle
            },
            Input::Down | Input::Tab => {
                self.selected = Direction::Forward.wrap(self.selected, self.row_count());
                Effect::Idle
            },
            Input::Enter => self.open_row(),
            Input::Escape => {
                self.quit = true;
                Effect::Quit
            },
            Input::Char(c) => {
                if c == 'q' {
                    self.quit = true;
                    return Effect::Quit;
                }
                if c == 'r' {
                    self.busy = true;
                    return Effect::List;
                }
                if c == 'd' {
                    let mut doomed: Option<String> = None;
                    if let Some(swarm) = self.selected_swarm() {
                        doomed = Some(swarm.spec.id.clone());
                    }
                    if let Some(swarm_id) = doomed {
                        self.modal = Modal::ConfirmDelete { swarm_id, force: false };
                    }
                }
                Effect::Idle
            },
            _ => Effect::Idle,
        }
    }

    fn open_row(&mut self) -> (r: Effect)
        ensures
            (final(self)@, r@) == old(self)@.dashboard_input(Input::Enter),
    {
        if self.on_new_row() {
            self.screen = Screen::Wizard;
            self.wizard = None;
            self.busy = true;
            self.status = None;
            return Effect::Fields { provider: None };
        }
        let swarm = &self.swarms[self.selected];
        assert(self@.swarms[self.selected as int] == self.swarms@[self.selected as int]@);
        let swarm_id = swarm.spec.id.clone();
        let running = matches!(swarm.run.status, SwarmStatus::Running);
        self.canvas = Some(ViewState::new(swarm));
        self.screen = Screen::Detail { swarm_id: swarm_id.clone() };
        if running {
            self.busy = true;
            return Effect::Subscribe { swarm_id };
        }
        Effect::Idle
    }

    fn detail_input(&mut self, input: Input) -> (r: Effect)
        ensures
            (final(self)@, r@) == old(self)@.detail_input(input),
    {
        match self.canvas.take() {
            Some(mut canvas) => {
                let action = canvas.on_input(input);
                match action {
                    ViewAction::Idle => {
                        self.canvas = Some(canvas);
                        Effect::Idle
                    },
                    ViewAction::Leave => {
                        self.screen = Screen::Dashboard;
                        Effect::Idle
                    },
                    ViewAction::Quit => {
                        self.canvas = Some(canvas);
                        self.quit = true;
                        Effect::Quit
                    },
                    ViewAction::Call(effect) => {
                        self.canvas = Some(canvas);
                        self.busy = true;
                        effect
                    },
                }
            },
            None => match input {
                Input::Escape | Input::Backspace => {
                    self.screen = Screen::Dashboard;
                    Effect::Idle
                },
                Input::Char(c) => {
                    if c == 'q' {
                        self.quit = true;
                        return Effect::Quit;
                    }
                    Effect::Idle
                },
                _ => Effect::Idle,
            },
        }
    }

    fn wizard_input(&mut self, input: Input) -> (r: Effect)
        ensures
            (final(self)@, r@) == old(self)@.wizard_input(input),
    {
        match self.wizard.take() {
            Some(mut draft) => match draft.on_input(input) {
                WizardAction::Idle => {
                    self.wizard = Some(draft);
                    Effect::Idle
                },
                WizardAction::Leave => {
                    self.screen = Screen::Dashboard;
                    self.busy = false;
                    Effect::Idle
                },
                WizardAction::Call(effect) => {
                    self.wizard = Some(draft);
                    self.busy = true;
                    effect
                },
            },
            None => {
                if matches!(input, Input::Escape) {
                    self.screen = Screen::Dashboard;
                    self.busy = false;
                }
                Effect::Idle
            },
        }
    }

    fn modal_input(&mut self, input: Input) -> (r: Effect)
        ensures
            (final(self)@, r@) == old(self)@.modal_input(input),
    {
        match &self.modal {
            Modal::ConfirmDelete { swarm_id, force } => {
                let yes = match input {
                    Input::Enter => true,
                    Input::Char(c) => c == 'y' || c == 'Y',
                    _ => false,
                };
                let no = match input {
                    Input::Escape => true,
                    Input::Char(c) => c == 'n' || c == 'N',
                    _ => false,
                };
                if yes {
                    let effect = Effect::Delete { swarm_id: swarm_id.clone(), force: *force };
                    self.busy = true;
                    return effect;
                }
                if no {
                    self.modal = Modal::Closed;
                }
                Effect::Idle
            },
            Modal::Error { .. } => {
                self.modal = Modal::Closed;
                Effect::Idle
            },
            Modal::Closed => Effect::Idle,
        }
    }

    fn shows(&self, swarm_id: &str) -> (r: bool)
        ensures
            r == self@.shows(swarm_id@),
    {
        match &self.canvas {
            Some(canvas) => text_eq(canvas.swarm_id(), swarm_id),
            None => false,
        }
    }

    /// Takes a daemon answer, or a step of a live stream.
    pub fn on_update(&mut self, update: Update) -> (r: Effect)
        ensures
            (final(self)@, r@) == old(self)@.on_update(update@),
    {
        match update {
            Update::Swarms(swarms) => {
                self.busy = false;
                self.list(swarms);
                Effect::Idle
            },
            Update::Fields { provider, steps } => {
                self.busy = false;
                match self.wizard.take() {
                    Some(mut draft) => {
                        draft.merge_steps(steps, provider);
                        self.wizard = Some(draft);
                    },
                    None => {
                        self.wizard = Some(WizardState::new(steps));
                    },
                }
                Effect::Idle
            },
            Update::Validated(result) => {
                self.busy = false;
                match self.wizard.take() {
                    Some(mut draft) => match draft.on_validation(&result) {
                        WizardAction::Call(effect) => {
                            self.wizard = Some(draft);
                            self.busy = true;
                            effect
                        },
                        WizardAction::Leave => {
                            self.screen = Screen::Dashboard;
                            Effect::Idle
                        },
                        WizardAction::Idle => {
                            self.wizard = Some(draft);
                            Effect::Idle
                        },
                    },
                    None => Effect::Idle,
                }
            },
            Update::Created(swarm) => {
                self.status = Some(
                    ta_one(
                        "cli-swarm-tui-created",
                        "name",
                        swarm.spec.name.as_str(),
                        "Swarm created.",
                    ),
                );
                self.pending_select = Some(swarm.spec.id.clone());
                self.screen = Screen::Dashboard;
                self.wizard = None;
                self.busy = true;
                Effect::List
            },
            Update::Deleted { swarm_id } => {
                self.status = Some(
                    ta_one(
                        "cli-swarm-tui-deleted",
                        "swarm_id",
                        swarm_id.as_str(),
                        "Swarm deleted.",
                    ),
                );
                self.modal = Modal::Closed;
                let on_screen = match &self.screen {
                    Screen::Detail { swarm_id: shown } => text_eq(
                        shown.as_str(),
                        swarm_id.as_str(),
                    ),
                    _ => false,
                };
                if on_screen {
                    self.screen = Screen::Dashboard;
                    self.canvas = None;
                }
                self.busy = true;
                Effect::List
            },
            Update::Failed(failure) => {
                self.busy = false;
                self.on_failure(failure);
                Effect::Idle
            },
            other => self.on_canvas_update(other),
        }
    }

    fn list(&mut self, swarms: Vec<PersistedSwarm>)
        ensures
            final(self)@ == old(self)@.listed(text::views(swarms@)),
    {
        self.swarms = swarms;
        if let Some(id) = self.pending_select.take() {
            if let Some(at) = position_of(&self.swarms, id.as_str()) {
                self.selected = at;
            }
        }
        assert(self@.swarms.len() == self.swarms.len());
        if self.selected >= self.row_count() {
            self.selected = self.swarms.len();
        }
    }

    fn on_canvas_update(&mut self, update: Update) -> (r: Effect)
        requires
            update is Subscribed || update is RunControl || update is Chatted || update
                is LayoutSaved || update is Stream || update is Board || update is Gap,
        ensures
            (final(self)@, r@) == old(self)@.on_update(update@),
    {
        let live = matches!(update, Update::Stream(_) | Update::Board(_) | Update::Gap);
        if !live {
            self.busy = false;
        }
        let mine = match &update {
            Update::Subscribed { swarm_id } => self.shows(swarm_id.as_str()),
            Update::RunControl { swarm_id, .. } => self.shows(swarm_id.as_str()),
            Update::Chatted(result) => self.shows(result.swarm_id.as_str()),
            Update::LayoutSaved(swarm) => self.shows(swarm.spec.id.as_str()),
            Update::Stream(step) => self.shows(step.swarm_id.as_str()),
            Update::Board(change) => self.shows(change.swarm_id.as_str()),
            _ => true,
        };
        if !mine {
            return Effect::Idle;
        }
        let mut canvas = match self.canvas.take() {
            Some(canvas) => canvas,
            None => {
                return Effect::Idle;
            },
        };
        let mut effect = Effect::Idle;
        match update {
            Update::Subscribed { swarm_id: _ } => {
                canvas.mark_subscribed();
            },
            Update::RunControl { swarm_id, status, spent } => {
                canvas.set_run_state(status, spent);
                if matches!(status, SwarmStatus::Running) && !canvas.subscribed() {
                    self.busy = true;
                    effect = Effect::Subscribe { swarm_id };
                }
            },
            Update::Chatted(result) => {
                canvas.apply_chat(&result);
            },
            Update::LayoutSaved(swarm) => {
                canvas.apply_layout_saved(&swarm);
            },
            Update::Stream(step) => {
                canvas.apply_update(&step);
            },
            Update::Board(change) => {
                canvas.apply_board(&change.event);
            },
            Update::Gap => {
                canvas.note_gap();
            },
            _ => {},
        }
        self.canvas = Some(canvas);
        effect
    }

    fn on_failure(&mut self, failure: RpcFailure)
        ensures
            final(self)@ == old(self)@.failed(failure@),
    {
        if let Some(mut draft) = self.wizard.take() {
            draft.on_call_failed();
            self.wizard = Some(draft);
        }
        if let Some(mut canvas) = self.canvas.take() {
            canvas.clear_layout_saving();
            self.canvas = Some(canvas);
        }
        if failure.is_method_not_found() {
            self.screen = Screen::Unsupported;
            self.modal = Modal::Closed;
            return;
        }
        // A live run holds the swarm. Ask again with the escalation spelled out rather
        // than silently forcing.
        let mut held: Option<String> = None;
        if failure.code == SWARM_RUN_ACTIVE {
            if let Modal::ConfirmDelete { swarm_id, force: _ } = &self.modal {
                held = Some(swarm_id.clone());
            }
        }
        match held {
            Some(swarm_id) => {
                self.modal = Modal::ConfirmDelete { swarm_id, force: true };
            },
            None => {
                self.modal = Modal::Error { message: failure.message };
            },
        }
    }

    /// Emit the layout write that is pending on the open canvas, if any.
    pub fn flush_layout(&mut self) -> (r: Effect)
        ensures
            match old(self)@.canvas {
                Some(canvas) => (final(self)@, r@) == (
                    old(self)@.drawing(canvas.flushed().0),
                    canvas.flushed().1,
                ),
                None => final(self)@ == old(self)@ && r@ == EffectView::Idle,
            },
    {
        match self.canvas.take() {
            Some(mut canvas) => {
                let effect = canvas.flush_layout();
                self.canvas = Some(canvas);
                effect
            },
            None => Effect::Idle,
        }
    }
}

impl Default for App {
    fn default() -> (r: Self)
        ensures
            r@ == AppView::fresh(),
    {
        App::new()
    }
}

// ── Laws ────────────────────────────────────────────────────────────

impl AppView {
    /// The cursor is on a row.
    pub open spec fn on_a_row(self) -> bool {
        self.selected <= self.swarms.len()
    }
}

/// Ctrl+C leaves from anywhere.
pub proof fn ctrl_c_always_leaves(app: AppView)
    ensures
        app.on_input(Input::Interrupt).1 == EffectView::Quit,
        app.on_input(Input::Interrupt).0.quit,
{
}

impl AppView {
    /// The list and the cursor on it are as in `other`.
    pub open spec fn same_list(self, other: AppView) -> bool {
        self.selected == other.selected && self.swarms == other.swarms
    }
}

proof fn the_list_keeps_its_cursor(app: AppView, input: Input)
    requires
        app.on_a_row(),
    ensures
        app.dashboard_input(input).0.on_a_row(),
{
    let n = app.rows();
    if app.selected < n {
        super::input::a_wrapping_cursor_stays(app.selected, n);
    } else {
        assert(app.selected % n < n);
        assert(Direction::Forward.wrapped(app.selected, n) < n);
        assert(Direction::Backward.wrapped(app.selected, n) < n);
    }
}

proof fn the_canvas_leaves_the_list(app: AppView, input: Input)
    ensures
        app.detail_input(input).0.same_list(app),
{
}

proof fn the_wizard_leaves_the_list(app: AppView, input: Input)
    ensures
        app.wizard_input(input).0.same_list(app),
{
}

proof fn overlays_leave_the_list(app: AppView, input: Input)
    ensures
        app.modal_input(input).0.same_list(app),
{
}

proof fn inputs_keep_the_cursor(app: AppView, input: Input)
    requires
        app.on_a_row(),
    ensures
        app.on_input(input).0.on_a_row(),
{
    if input != Input::Interrupt {
        if app.modal != ModalView::Closed {
            overlays_leave_the_list(app, input);
        } else {
            match app.screen {
                ScreenView::Dashboard => the_list_keeps_its_cursor(app, input),
                ScreenView::Detail { .. } => the_canvas_leaves_the_list(app, input),
                ScreenView::Wizard => the_wizard_leaves_the_list(app, input),
                ScreenView::Unsupported => {},
            }
        }
    }
}

proof fn a_new_list_takes_the_cursor(app: AppView, swarms: Seq<PersistedSwarmView>)
    ensures
        app.listed(swarms).on_a_row(),
{
}

proof fn other_answers_leave_the_list(app: AppView, update: UpdateView)
    requires
        !(update is Swarms),
    ensures
        app.on_update(update).0.same_list(app),
{
}

/// Whatever happens, the row cursor stays on a row.
pub proof fn the_cursor_stays_on_a_row(app: AppView, input: Input, update: UpdateView)
    requires
        app.on_a_row(),
    ensures
        AppView::fresh().on_a_row(),
        app.on_input(input).0.on_a_row(),
        app.on_update(update).0.on_a_row(),
{
    inputs_keep_the_cursor(app, input);
    match update {
        UpdateView::Swarms(swarms) => {
            a_new_list_takes_the_cursor(AppView { busy: false, ..app }, swarms);
        },
        _ => other_answers_leave_the_list(app, update),
    }
}

/// A swarm is deleted only where a confirmation for that very swarm is up, and forced
/// only where the daemon has refused before.
pub proof fn a_delete_is_confirmed(app: AppView, input: Input)
    ensures
        app.on_input(input).1 matches EffectView::Delete { swarm_id, force } ==> app.modal == (
        ModalView::ConfirmDelete { swarm_id, force }),
        app.on_input(input).0.modal matches ModalView::ConfirmDelete { force, .. } && force
            ==> app.modal == app.on_input(input).0.modal,
{
}

/// A daemon without the method is told of on a screen of its own, from anywhere; every
/// key then leaves.
pub proof fn a_missing_method_degrades(app: AppView, failure: RpcFailureView, input: Input)
    requires
        failure.code == METHOD_NOT_FOUND,
    ensures
        ({
            let (after, effect) = app.on_update(UpdateView::Failed(failure));
            &&& after.screen == ScreenView::Unsupported
            &&& after.modal == ModalView::Closed
            &&& effect == EffectView::Idle
            &&& after.on_input(input).1 == EffectView::Quit
        }),
{
}

/// A live run is asked about again with force, never forced in silence.
pub proof fn a_live_run_is_asked_about_again(
    app: AppView,
    swarm_id: Seq<char>,
    force: bool,
    failure: RpcFailureView,
)
    requires
        app.modal == (ModalView::ConfirmDelete { swarm_id, force }),
        failure.code == SWARM_RUN_ACTIVE,
    ensures
        app.on_update(UpdateView::Failed(failure)).0.modal == (ModalView::ConfirmDelete {
            swarm_id,
            force: true,
        }),
        app.on_update(UpdateView::Failed(failure)).1 == EffectView::Idle,
{
}

/// A created swarm is selected once the list holds it.
pub proof fn a_created_swarm_is_selected(
    app: AppView,
    created: PersistedSwarmView,
    swarms: Seq<PersistedSwarmView>,
)
    requires
        ids_of(swarms).contains(created.spec.id),
    ensures
        ({
            let after = app.on_update(UpdateView::Created(created)).0.on_update(
                UpdateView::Swarms(swarms),
            ).0;
            after.chosen() matches Some(s) && s.spec.id == created.spec.id
        }),
{
    let ids = ids_of(swarms);
    let k = choose|k: int| 0 <= k < ids.len() && ids[k] == created.spec.id;
    text::first_index_finds(ids, created.spec.id, k);
}

/// What the keys of the dashboard do: Down and Tab go to the next row and Up and Shift with
/// Tab to the one before, going round over the swarms and the row for a new one; Enter opens
/// the swarm of the row, or a new draft on the last row; `d` asks about deleting the swarm of
/// the row; `r` asks for the list again; `q` and Escape leave.
pub proof fn what_the_dashboard_keys_do(app: AppView)
    requires
        app.modal == ModalView::Closed,
        app.screen == ScreenView::Dashboard,
        app.selected <= app.swarms.len() < usize::MAX,
    ensures
        ({
            let n = app.swarms.len();
            let down = app.on_input(Input::Down);
            let up = app.on_input(Input::Up);
            let enter = app.on_input(Input::Enter);
            let delete = app.on_input(Input::Char('d'));
            let reload = app.on_input(Input::Char('r'));
            &&& down.0.selected == if app.selected == n {
                0
            } else {
                app.selected + 1
            }
            &&& up.0.selected == if app.selected == 0 {
                n as int
            } else {
                app.selected - 1
            }
            &&& app.on_input(Input::Tab).0.selected == down.0.selected
            &&& app.on_input(Input::BackTab).0.selected == up.0.selected
            &&& down.1 == EffectView::Idle && up.1 == EffectView::Idle
            &&& app.selected == n ==> enter.0.screen == ScreenView::Wizard && enter.0.wizard is None
                && enter.1 == (EffectView::Fields { provider: None }) && enter.0.busy
            &&& app.selected == n ==> delete.0.modal == ModalView::Closed
            &&& app.selected < n ==> {
                let swarm = app.swarms[app.selected as int];
                &&& enter.0.screen == (ScreenView::Detail { swarm_id: swarm.spec.id })
                &&& (enter.0.canvas matches Some(c) && c == CanvasView::opened(swarm))
                &&& swarm.run.status == SwarmStatus::Running ==> enter.1 == (
                EffectView::Subscribe { swarm_id: swarm.spec.id }) && enter.0.busy
                &&& swarm.run.status != SwarmStatus::Running ==> enter.1 == EffectView::Idle
                &&& delete.0.modal == (ModalView::ConfirmDelete {
                    swarm_id: swarm.spec.id,
                    force: false,
                })
            }
            &&& delete.1 == EffectView::Idle
            &&& reload.1 == EffectView::List && reload.0.busy
            &&& app.on_input(Input::Char('q')).1 == EffectView::Quit
            &&& app.on_input(Input::Escape).1 == EffectView::Quit
            &&& app.on_input(Input::Char('q')).0.quit && app.on_input(Input::Escape).0.quit
        }),
{
    super::input::where_a_wrapping_cursor_goes(app.selected, app.rows());
}

/// What an overlay does with a key: a confirmation deletes its own swarm on Enter or `y`,
/// goes away on Escape or `n`, and keeps standing on anything else; an error goes away on any
/// key. What is under the overlay stays.
pub proof fn what_an_overlay_does(
    app: AppView,
    swarm_id: Seq<char>,
    force: bool,
    message: Seq<char>,
    input: Input,
)
    requires
        input != Input::Interrupt,
    ensures
        app.modal == (ModalView::ConfirmDelete { swarm_id, force }) ==> ({
            let (after, effect) = app.on_input(input);
            let yes = input == Input::Enter || input == Input::Char('y') || input == Input::Char(
                'Y',
            );
            let no = input == Input::Escape || input == Input::Char('n') || input == Input::Char(
                'N',
            );
            &&& yes ==> effect == (EffectView::Delete { swarm_id, force }) && after.busy
            &&& no ==> after.modal == ModalView::Closed && effect == EffectView::Idle
            &&& !yes && !no ==> after == app && effect == EffectView::Idle
            &&& after.screen == app.screen && after.canvas == app.canvas && after.wizard
                == app.wizard
        }),
        app.modal == (ModalView::Error { message }) ==> ({
            let (after, effect) = app.on_input(input);
            &&& after.modal == ModalView::Closed && effect == EffectView::Idle
            &&& after.screen == app.screen && after.canvas == app.canvas && after.wizard
                == app.wizard
        }),
{
}

/// A key on the canvas goes to the canvas, and on the draft to the draft; what that answers
/// is what the app does: a call makes it busy, leaving leads to the dashboard, and quitting
/// quits.
pub proof fn keys_go_to_the_open_screen(app: AppView, input: Input)
    requires
        app.modal == ModalView::Closed,
        input != Input::Interrupt,
    ensures
        app.screen is Detail ==> (app.canvas matches Some(canvas) ==> {
            let (after, effect) = app.on_input(input);
            let (drawn, action) = canvas.on_input(input);
            &&& action matches ViewActionView::Call(e) ==> effect == e && after.busy
                && after.canvas == Some(drawn) && after.screen == app.screen
            &&& action == ViewActionView::Idle ==> effect == EffectView::Idle && after.canvas
                == Some(drawn) && after.screen == app.screen && after.busy == app.busy
            &&& action == ViewActionView::Leave ==> effect == EffectView::Idle && after.screen
                == ScreenView::Dashboard && after.canvas is None
            &&& action == ViewActionView::Quit ==> effect == EffectView::Quit && after.quit
        }),
        app.screen == ScreenView::Wizard ==> (app.wizard matches Some(draft) ==> {
            let (after, effect) = app.on_input(input);
            let (written, action) = draft.on_input(input);
            &&& action matches WizardActionView::Call(e) ==> effect == e && after.busy
                && after.wizard == Some(written) && after.screen == app.screen
            &&& action == WizardActionView::Idle ==> effect == EffectView::Idle && after.wizard
                == Some(written) && after.screen == app.screen
            &&& action == WizardActionView::Leave ==> effect == EffectView::Idle && after.screen
                == ScreenView::Dashboard && after.wizard is None
        }),
        app.screen == ScreenView::Wizard && app.wizard is None ==> {
            let (after, effect) = app.on_input(input);
            &&& effect == EffectView::Idle
            &&& input == Input::Escape ==> after.screen == ScreenView::Dashboard
            &&& input != Input::Escape ==> after == app
        },
{
}

/// A list that arrives is the list that is shown, and the app is busy no more; without a
/// created swarm to go to, the cursor stays on its row while there is one.
pub proof fn a_list_is_shown_as_it_arrives(app: AppView, swarms: Seq<PersistedSwarmView>)
    requires
        swarms.len() < usize::MAX,
    ensures
        ({
            let (after, effect) = app.on_update(UpdateView::Swarms(swarms));
            &&& after.swarms == swarms && !after.busy && effect == EffectView::Idle
            &&& after.pending_select is None
            &&& app.pending_select is None && app.selected <= swarms.len() ==> after.selected
                == app.selected
            &&& app.pending_select is None && app.selected > swarms.len() ==> after.selected
                == swarms.len()
            &&& after.screen == app.screen && after.modal == app.modal
        }),
{
}

/// What a run comes to shows on the canvas of that swarm, as the daemon told it, and asks for
/// its stream where it runs and none is on; the canvas of any other swarm stays.
pub proof fn a_run_shows_on_its_canvas(
    app: AppView,
    swarm_id: Seq<char>,
    status: SwarmStatus,
    spent: SwarmSpend,
)
    requires
        app.canvas is Some,
    ensures
        ({
            let (after, effect) = app.on_update(
                UpdateView::RunControl { swarm_id, status, spent },
            );
            let canvas = app.canvas->0;
            let own = canvas.swarm_id == swarm_id;
            &&& own ==> (after.canvas matches Some(c) && c.status == status && c.spent == spent
                && c.boxes == canvas.boxes && c.feed == canvas.feed && c.revision
                == canvas.revision)
            &&& own && status == SwarmStatus::Running && !canvas.subscribed ==> effect == (
            EffectView::Subscribe { swarm_id }) && after.busy
            &&& own && (status != SwarmStatus::Running || canvas.subscribed) ==> effect
                == EffectView::Idle && !after.busy
            &&& !own ==> after.canvas == app.canvas && effect == EffectView::Idle
        }),
{
}

/// What arrives about another swarm than the open one touches no canvas.
pub proof fn other_swarms_leave_the_canvas(
    app: AppView,
    swarm_id: Seq<char>,
    swarm: PersistedSwarmView,
    result: super::wire::ChatResultView,
    step: super::wire::SwarmUpdateView,
    change: super::wire::BoardNotifyView,
)
    requires
        app.canvas matches Some(c) ==> c.swarm_id != swarm_id && c.swarm_id != swarm.spec.id
            && c.swarm_id != result.swarm_id && c.swarm_id != step.swarm_id && c.swarm_id
            != change.swarm_id,
    ensures
        app.on_update(UpdateView::Subscribed { swarm_id }).0.canvas == app.canvas,
        app.on_update(UpdateView::LayoutSaved(swarm)).0.canvas == app.canvas,
        app.on_update(UpdateView::Chatted(result)).0.canvas == app.canvas,
        app.on_update(UpdateView::Stream(step)).0 == app,
        app.on_update(UpdateView::Board(change)).0 == app,
{
}

/// What arrives about the open swarm goes to its canvas: its stream is on, its layout saved,
/// a message answered, a step taken, its board changed, or steps lost.
pub proof fn the_open_swarm_is_kept_up(
    app: AppView,
    swarm: PersistedSwarmView,
    result: super::wire::ChatResultView,
    step: super::wire::SwarmUpdateView,
    change: super::wire::BoardNotifyView,
)
    requires
        app.canvas is Some,
    ensures
        ({
            let canvas = app.canvas->0;
            let id = canvas.swarm_id;
            &&& (app.on_update(UpdateView::Subscribed { swarm_id: id }).0.canvas matches Some(c)
                && c.subscribed && c.boxes == canvas.boxes && c.status == canvas.status)
            &&& swarm.spec.id == id ==> app.on_update(UpdateView::LayoutSaved(swarm)).0.canvas
                == Some(canvas.saved(swarm))
            &&& result.swarm_id == id ==> app.on_update(UpdateView::Chatted(result)).0.canvas
                == Some(canvas.chatted(result))
            &&& step.swarm_id == id ==> app.on_update(UpdateView::Stream(step)).0.canvas == Some(
                canvas.updated(step),
            )
            &&& change.swarm_id == id ==> app.on_update(UpdateView::Board(change)).0.canvas
                == Some(canvas.boarded(change.event))
            &&& (app.on_update(UpdateView::Gap).0.canvas matches Some(c) && c.feed.last().key
                == "cli-swarm-tui-feed-gap"@)
        }),
{
}

/// A swarm that was created or deleted is told of by name, and the list is asked for again;
/// the canvas of a deleted one is closed, and so is the confirmation.
pub proof fn creations_and_deletions_are_told(
    app: AppView,
    created: PersistedSwarmView,
    swarm_id: Seq<char>,
)
    ensures
        ({
            let (after, effect) = app.on_update(UpdateView::Created(created));
            &&& effect == EffectView::List && after.busy
            &&& after.screen == ScreenView::Dashboard && after.wizard is None
            &&& after.pending_select == Some(created.spec.id)
            &&& (after.status matches Some(p) && p.key == "cli-swarm-tui-created"@ && p.slots
                == seq![phrase::slot("name"@, created.spec.name)])
        }),
        ({
            let (after, effect) = app.on_update(UpdateView::Deleted { swarm_id });
            &&& effect == EffectView::List && after.busy
            &&& after.modal == ModalView::Closed
            &&& app.screen == (ScreenView::Detail { swarm_id }) ==> after.screen
                == ScreenView::Dashboard && after.canvas is None
            &&& app.screen != (ScreenView::Detail { swarm_id }) ==> after.screen == app.screen
                && after.canvas == app.canvas
            &&& (after.status matches Some(p) && p.key == "cli-swarm-tui-deleted"@ && p.slots
                == seq![phrase::slot("swarm_id"@, swarm_id)])
        }),
{
}

/// A call that fails is told of in the daemon's own words, waits for nothing any more, and
/// leaves the draft's answers and the canvas's boxes as they are.
pub proof fn a_failure_is_shown(app: AppView, failure: RpcFailureView)
    requires
        failure.code != -32601,
        !(app.modal is ConfirmDelete) || failure.code != -32020,
    ensures
        ({
            let (after, effect) = app.on_update(UpdateView::Failed(failure));
            &&& after.modal == (ModalView::Error { message: failure.message })
            &&& effect == EffectView::Idle && !after.busy
            &&& after.screen == app.screen
            &&& app.wizard matches Some(draft) ==> (after.wizard matches Some(d)
                && !d.awaiting_submit && d.answers == draft.answers && d.current == draft.current)
            &&& app.canvas matches Some(canvas) ==> (after.canvas matches Some(c) && c.boxes
                == canvas.boxes && !c.layout_saving && c.status == canvas.status)
        }),
{
}

/// What stays of the application: leaving and calling set one flag, a new listing touches
/// the rows, the cursor and the swarm to be selected, a failure touches what it is shown
/// in, and a deletion leaves the rows until the next listing.
pub proof fn what_stays_of_the_application(
    app: AppView,
    effect: EffectView,
    swarm: PersistedSwarmView,
    swarms: Seq<PersistedSwarmView>,
    status: SwarmStatus,
    spent: crate::store::model::SwarmSpend,
    failure: RpcFailureView,
    swarm_id: Seq<char>,
    verdict: super::wire::VerdictView,
    input: Input,
)
    ensures
        ({
            let after = app.leaving().0;
            after == AppView { quit: true, ..app }
        }),
        ({
            let after = app.calling(effect).0;
            after == AppView { busy: true, ..app }
        }),
        ({
            let after = app.opening(swarm).0;
            after == AppView {
                screen: after.screen,
                canvas: after.canvas,
                busy: after.busy,
                ..app
            }
        }),
        ({
            let after = app.listed(swarms);
            after == AppView {
                swarms: after.swarms,
                selected: after.selected,
                pending_select: after.pending_select,
                ..app
            }
        }),
        ({
            let after = app.run_controlled(swarm_id, status, spent).0;
            after == AppView { canvas: after.canvas, busy: after.busy, ..app }
        }),
        ({
            let after = app.failed(failure);
            after == AppView {
                screen: after.screen,
                modal: after.modal,
                wizard: after.wizard,
                canvas: after.canvas,
                ..app
            }
        }),
        ({
            let after = app.dropped(swarm_id).0;
            after == AppView {
                screen: after.screen,
                modal: after.modal,
                canvas: after.canvas,
                status: after.status,
                busy: true,
                ..app
            }
        }),
        ({
            let after = app.validated(verdict).0;
            after == AppView {
                screen: after.screen,
                wizard: after.wizard,
                busy: after.busy,
                ..app
            }
        }),
        ({
            let after = app.on_input(input).0;
            &&& after.swarms == app.swarms
            &&& after.pending_select == app.pending_select
            &&& app.quit ==> after.quit
        }),
        ({
            let after = app.detail_input(input).0;
            after == AppView {
                screen: after.screen,
                canvas: after.canvas,
                busy: after.busy,
                quit: after.quit,
                ..app
            }
        }),
        ({
            let after = app.wizard_input(input).0;
            after == AppView {
                screen: after.screen,
                wizard: after.wizard,
                busy: after.busy,
                ..app
            }
        }),
        ({
            let after = app.modal_input(input).0;
            after == AppView { modal: after.modal, busy: after.busy, ..app }
        }),
        ({
            let after = app.dashboard_input(input).0;
            &&& after.modal == app.modal || input == Input::Char('d')
            &&& after.selected == app.selected || after == AppView { selected: after.selected, ..app }
        }),
{
}

} // verus!
