//! What each screen shows, as rows of toned text. Reads the dashboard; never writes it.

use vstd::prelude::*;

use super::grid;
use super::phrase;
use super::phrase::{
    t, ta, ta_one, text_slot, Phrase, PhraseArg, PhraseArgView, PhraseSlot, PhraseSlotView,
    PhraseView, Words, WordsView,
};
use super::state;
use super::state::{App, AppView, Modal, ModalView};
use super::stream;
use super::stream::{BoxStream, LineKind, StreamView};
use super::view::{BadgeView, BoxBadge, CanvasView, EditLine, Mode, ModeView, ViewState};
use super::wizard;
use super::wizard::{WizardState, WizardView};
use crate::board::BoxStatus;
use crate::duplicate::Duplicate;
use crate::store::model::{
    PersistedSwarm, PersistedSwarmView, SwarmBudget, SwarmBudgetLimits, SwarmPauseReason,
    SwarmSpend, SwarmStatus,
};
use crate::text;
use crate::text::{clip, decimal, join, pad, text_eq};
use crate::usd;
use crate::wizard::{FieldDescriptor, FieldView, PropKind};

verus! {

/// Column widths on the dashboard, in cells.
pub const NAME_WIDTH: usize = 26;

pub const STATUS_WIDTH: usize = 12;

pub const BOXES_WIDTH: usize = 6;

pub const BUDGET_WIDTH: usize = 10;

/// The date and the clock of an RFC 3339 stamp, without what trails them.
pub const TIMESTAMP_WIDTH: usize = 19;

/// Width of a field's label in the wizard.
pub const LABEL_WIDTH: usize = 18;

// ── Tones and colours ───────────────────────────────────────────────

/// How a piece of text is meant; a palette turns it into a colour.
#[derive(Debug, Clone, Copy, PartialEq, Eq, Structural)]
pub enum Tone {
    Plain,
    Accent,
    Muted,
    Good,
    Warn,
    Danger,
}

/// A colour of the ANSI-16 set.
#[derive(Debug, Clone, Copy, PartialEq, Eq, Structural)]
pub enum Color {
    /// The terminal's own.
    Reset,
    Cyan,
    DarkGray,
    Green,
    Yellow,
    Red,
}

/// The colours the dashboard draws with.
#[derive(Debug, Clone, Copy, PartialEq, Eq, Structural)]
pub struct Palette {
    pub accent: Color,
    pub muted: Color,
    pub ok: Color,
    pub warn: Color,
    pub danger: Color,
}

impl Palette {
    /// Colours, or none at all where `NO_COLOR` is set and not empty.
    pub fn detect(no_color: Option<&str>) -> (r: Palette)
        ensures
            r == (match no_color {
                Some(v) => if v@.len() > 0 {
                    Palette::without_colour()
                } else {
                    Palette::with_colour()
                },
                None => Palette::with_colour(),
            }),
    {
        match no_color {
            Some(v) => if v.is_empty() {
                Palette::ansi()
            } else {
                Palette::plain()
            },
            None => Palette::ansi(),
        }
    }

    /// The ANSI colours.
    pub open spec fn with_colour() -> Palette {
        Palette {
            accent: Color::Cyan,
            muted: Color::DarkGray,
            ok: Color::Green,
            warn: Color::Yellow,
            danger: Color::Red,
        }
    }

    /// No colour.
    pub open spec fn without_colour() -> Palette {
        Palette {
            accent: Color::Reset,
            muted: Color::Reset,
            ok: Color::Reset,
            warn: Color::Reset,
            danger: Color::Reset,
        }
    }

    /// The ANSI colours.
    pub fn ansi() -> (r: Palette)
        ensures
            r == Palette::with_colour(),
    {
        Palette {
            accent: Color::Cyan,
            muted: Color::DarkGray,
            ok: Color::Green,
            warn: Color::Yellow,
            danger: Color::Red,
        }
    }

    /// No colour.
    pub fn plain() -> (r: Palette)
        ensures
            r == Palette::without_colour(),
    {
        Palette {
            accent: Color::Reset,
            muted: Color::Reset,
            ok: Color::Reset,
            warn: Color::Reset,
            danger: Color::Reset,
        }
    }

    /// The colour of a tone.
    pub fn color(self, tone: Tone) -> (r: Color)
        ensures
            r == (match tone {
                Tone::Plain => Color::Reset,
                Tone::Accent => self.accent,
                Tone::Muted => self.muted,
                Tone::Good => self.ok,
                Tone::Warn => self.warn,
                Tone::Danger => self.danger,
            }),
    {
        match tone {
            Tone::Plain => Color::Reset,
            Tone::Accent => self.accent,
            Tone::Muted => self.muted,
            Tone::Good => self.ok,
            Tone::Warn => self.warn,
            Tone::Danger => self.danger,
        }
    }
}

// ── Rows ────────────────────────────────────────────────────────────

/// Words in one tone, written one after the other, and padded or clipped to a column
/// where they have a width.
#[derive(Debug, PartialEq, Eq)]
pub struct Span {
    pub pieces: Vec<Words>,
    pub tone: Tone,
    pub bold: bool,
    pub width: Option<usize>,
}

/// A span as plain values.
#[verifier::ext_equal]
pub struct SpanView {
    pub pieces: Seq<WordsView>,
    pub tone: Tone,
    pub bold: bool,
    pub width: Option<usize>,
}

impl View for Span {
    type V = SpanView;

    open spec fn view(&self) -> SpanView {
        SpanView {
            pieces: text::views(self.pieces@),
            tone: self.tone,
            bold: self.bold,
            width: self.width,
        }
    }
}

/// One row of the screen.
#[derive(Debug, PartialEq, Eq)]
pub struct Row {
    pub spans: Vec<Span>,
    /// The cursor is on the row.
    pub selected: bool,
}

/// A row as plain values.
#[verifier::ext_equal]
pub struct RowView {
    pub spans: Seq<SpanView>,
    pub selected: bool,
}

impl View for Row {
    type V = RowView;

    open spec fn view(&self) -> RowView {
        RowView { spans: text::views(self.spans@), selected: self.selected }
    }
}

/// One piece in a tone.
pub open spec fn toned(words: WordsView, tone: Tone) -> SpanView {
    SpanView { pieces: seq![words], tone, bold: false, width: None }
}

/// One piece in a column.
pub open spec fn column(words: WordsView, tone: Tone, width: usize) -> SpanView {
    SpanView { pieces: seq![words], tone, bold: false, width: Some(width) }
}

/// One piece in bold.
pub open spec fn heading(words: WordsView, tone: Tone) -> SpanView {
    SpanView { pieces: seq![words], tone, bold: true, width: None }
}

/// A row of one span.
pub open spec fn row(span: SpanView) -> RowView {
    RowView { spans: seq![span], selected: false }
}

/// Text as it stands.
pub open spec fn plain(s: Seq<char>) -> WordsView {
    WordsView::Plain(s)
}

/// An entry of the catalogue.
pub open spec fn entry(key: Seq<char>, fallback: Seq<char>) -> WordsView {
    WordsView::Phrase(phrase::said(key, fallback))
}

fn words(s: &str) -> (r: Words)
    ensures
        r@ == plain(s@),
{
    Words::Plain(s.to_owned())
}

fn said(key: &'static str, fallback: &'static str) -> (r: Words)
    ensures
        r@ == entry(key@, fallback@),
{
    Words::Phrase(t(key, fallback))
}

fn span_with(words: Words, tone: Tone, bold: bool, width: Option<usize>) -> (r: Span)
    ensures
        r@ == (SpanView { pieces: seq![words@], tone, bold, width }),
{
    let mut pieces: Vec<Words> = Vec::new();
    pieces.push(words);
    assert(text::views(pieces@) =~= seq![words@]);
    Span { pieces, tone, bold, width }
}

fn span_of_two(first: Words, second: Words, tone: Tone) -> (r: Span)
    ensures
        r@ == (SpanView { pieces: seq![first@, second@], tone, bold: false, width: None }),
{
    let mut pieces: Vec<Words> = Vec::new();
    pieces.push(first);
    pieces.push(second);
    assert(text::views(pieces@) =~= seq![first@, second@]);
    Span { pieces, tone, bold: false, width: None }
}

fn row_of(span: Span) -> (r: Row)
    ensures
        r@ == row(span@),
{
    let mut spans: Vec<Span> = Vec::new();
    spans.push(span);
    assert(text::views(spans@) =~= seq![span@]);
    Row { spans, selected: false }
}

fn toned_row(words: Words, tone: Tone) -> (r: Row)
    ensures
        r@ == row(toned(words@, tone)),
{
    row_of(span_with(words, tone, false, None))
}

fn push_row(rows: &mut Vec<Row>, next: Row)
    ensures
        text::views(final(rows)@) == text::views(old(rows)@).push(next@),
{
    let ghost before = text::views(rows@);
    rows.push(next);
    assert(text::views(rows@) =~= before.push(next@));
}

fn push_span(spans: &mut Vec<Span>, next: Span)
    ensures
        text::views(final(spans)@) == text::views(old(spans)@).push(next@),
{
    let ghost before = text::views(spans@);
    spans.push(next);
    assert(text::views(spans@) =~= before.push(next@));
}

impl Span {
    /// The text of a span whose pieces read `text`, in its column where it has one.
    pub fn fit(&self, text: &str) -> (r: String)
        ensures
            r@ == (match self@.width {
                Some(width) => text::padded(text@, width as nat),
                None => text@,
            }),
    {
        match self.width {
            Some(width) => pad(text, width),
            None => text.to_owned(),
        }
    }
}

// ── Labels ──────────────────────────────────────────────────────────

/// One word for a status.
pub open spec fn status_phrase(status: SwarmStatus) -> PhraseView {
    match status {
        SwarmStatus::Created => phrase::said("cli-swarm-status-created"@, "created"@),
        SwarmStatus::Running => phrase::said("cli-swarm-status-running"@, "running"@),
        SwarmStatus::Paused { .. } => phrase::said("cli-swarm-status-paused"@, "paused"@),
        SwarmStatus::Stopped => phrase::said("cli-swarm-status-stopped"@, "stopped"@),
        SwarmStatus::Completed => phrase::said("cli-swarm-status-completed"@, "completed"@),
    }
}

/// One word, for a fixed-width column.
pub fn status_label(status: SwarmStatus) -> (r: Phrase)
    ensures
        r@ == status_phrase(status),
{
    match status {
        SwarmStatus::Created => t("cli-swarm-status-created", "created"),
        SwarmStatus::Running => t("cli-swarm-status-running", "running"),
        SwarmStatus::Paused { .. } => t("cli-swarm-status-paused", "paused"),
        SwarmStatus::Stopped => t("cli-swarm-status-stopped", "stopped"),
        SwarmStatus::Completed => t("cli-swarm-status-completed", "completed"),
    }
}

/// The catalogue entry of a pause reason.
pub open spec fn pause_entry(reason: SwarmPauseReason) -> (Seq<char>, Seq<char>) {
    match reason {
        SwarmPauseReason::BudgetExhausted => (
            "cli-swarm-pause-budget-exhausted"@,
            "budget exhausted"@,
        ),
        SwarmPauseReason::DaemonRestart => ("cli-swarm-pause-daemon-restart"@, "daemon restart"@),
        SwarmPauseReason::UserRequested => ("cli-swarm-pause-user-requested"@, "user requested"@),
    }
}

fn pause_keys(reason: SwarmPauseReason) -> (r: (&'static str, &'static str))
    ensures
        (r.0@, r.1@) == pause_entry(reason),
{
    match reason {
        SwarmPauseReason::BudgetExhausted => (
            "cli-swarm-pause-budget-exhausted",
            "budget exhausted",
        ),
        SwarmPauseReason::DaemonRestart => ("cli-swarm-pause-daemon-restart", "daemon restart"),
        SwarmPauseReason::UserRequested => ("cli-swarm-pause-user-requested", "user requested"),
    }
}

/// What is said of a pause reason.
pub fn pause_label(reason: SwarmPauseReason) -> (r: Phrase)
    ensures
        r@ == phrase::said(pause_entry(reason).0, pause_entry(reason).1),
{
    let (key, fallback) = pause_keys(reason);
    t(key, fallback)
}

/// The status with the pause reason spelled out.
pub open spec fn detail_phrase(status: SwarmStatus) -> PhraseView {
    match status {
        SwarmStatus::Paused { reason } => phrase::said_with(
            "cli-swarm-status-paused-detail"@,
            seq![
                PhraseSlotView {
                    name: "reason"@,
                    value: PhraseArgView::Entry {
                        key: pause_entry(reason).0,
                        fallback: pause_entry(reason).1,
                    },
                },
            ],
            "paused"@,
        ),
        _ => status_phrase(status),
    }
}

/// The status with the pause reason spelled out, where there is room for it.
pub fn status_detail(status: SwarmStatus) -> (r: Phrase)
    ensures
        r@ == detail_phrase(status),
{
    match status {
        SwarmStatus::Paused { reason } => {
            let (key, fallback) = pause_keys(reason);
            let mut slots: Vec<PhraseSlot> = Vec::new();
            slots.push(PhraseSlot { name: "reason", value: PhraseArg::Entry { key, fallback } });
            let r = ta("cli-swarm-status-paused-detail", slots, "paused");
            assert(r@.slots =~= detail_phrase(status).slots);
            r
        },
        _ => status_label(status),
    }
}

/// A parked swarm reads short in a column and says why in the pane.
pub proof fn a_pause_names_its_reason(reason: SwarmPauseReason)
    ensures
        phrase::names(
            detail_phrase(SwarmStatus::Paused { reason }),
            phrase::said(pause_entry(reason).0, pause_entry(reason).1),
        ),
        status_phrase(SwarmStatus::Paused { reason }) == phrase::said(
            "cli-swarm-status-paused"@,
            "paused"@,
        ),
{
    let p = detail_phrase(SwarmStatus::Paused { reason });
    assert(p.slots[0].value == (PhraseArgView::Entry {
        key: pause_entry(reason).0,
        fallback: pause_entry(reason).1,
    }));
}

/// The tone of a status.
pub open spec fn status_tone_of(status: SwarmStatus) -> Tone {
    match status {
        SwarmStatus::Running => Tone::Good,
        SwarmStatus::Paused { .. } => Tone::Warn,
        SwarmStatus::Stopped => Tone::Danger,
        SwarmStatus::Created => Tone::Muted,
        SwarmStatus::Completed => Tone::Muted,
    }
}

fn status_tone(status: SwarmStatus) -> (r: Tone)
    ensures
        r == status_tone_of(status),
{
    match status {
        SwarmStatus::Running => Tone::Good,
        SwarmStatus::Paused { .. } => Tone::Warn,
        SwarmStatus::Stopped => Tone::Danger,
        SwarmStatus::Created | SwarmStatus::Completed => Tone::Muted,
    }
}

/// The budget as one word: the preset name, or `custom`.
pub open spec fn budget_words(budget: SwarmBudget) -> WordsView {
    match budget {
        SwarmBudget::Preset(preset) => plain(preset.name()),
        SwarmBudget::Custom(_) => entry("cli-swarm-budget-custom"@, "custom"@),
    }
}

/// The budget as one word: the preset name, or `custom`.
pub fn budget_label(budget: SwarmBudget) -> (r: Words)
    ensures
        r@ == budget_words(budget),
{
    match budget {
        SwarmBudget::Preset(preset) => words(preset.wire_name()),
        SwarmBudget::Custom(_) => said("cli-swarm-budget-custom", "custom"),
    }
}

/// What is spent against the ceilings.
pub open spec fn bar_phrase(spent: SwarmSpend, limits: SwarmBudgetLimits) -> PhraseView {
    phrase::said_with(
        "cli-swarm-tui-budget-bar"@,
        seq![
            phrase::slot("turns"@, text::numeral(spent.turns as nat)),
            phrase::slot("max_turns"@, text::numeral(limits.max_turns as nat)),
            phrase::slot("tokens"@, text::numeral(spent.tokens as nat)),
            phrase::slot("max_tokens"@, text::numeral(limits.max_tokens as nat)),
            phrase::slot("cost"@, usd::cents_text(spent.cost_usd.micros as nat)),
            phrase::slot("max_cost"@, usd::cents_text(limits.max_cost_usd.micros as nat)),
        ],
        "budget"@,
    )
}

/// The budget status bar: turns, tokens and cost spent against the ceilings.
pub fn budget_bar(spent: SwarmSpend, limits: SwarmBudgetLimits) -> (r: Phrase)
    ensures
        r@ == bar_phrase(spent, limits),
{
    let mut slots: Vec<PhraseSlot> = Vec::new();
    slots.push(text_slot("turns", decimal(spent.turns as u64).as_str()));
    slots.push(text_slot("max_turns", decimal(limits.max_turns as u64).as_str()));
    slots.push(text_slot("tokens", decimal(spent.tokens).as_str()));
    slots.push(text_slot("max_tokens", decimal(limits.max_tokens).as_str()));
    slots.push(text_slot("cost", spent.cost_usd.cents_text().as_str()));
    slots.push(text_slot("max_cost", limits.max_cost_usd.cents_text().as_str()));
    let r = ta("cli-swarm-tui-budget-bar", slots, "budget");
    assert(r@.slots =~= bar_phrase(spent, limits).slots);
    r
}

/// A box's board status as one word.
pub open spec fn box_status_words(status: BoxStatus) -> WordsView {
    match status {
        BoxStatus::Idle => entry("cli-swarm-tui-badge-idle"@, "idle"@),
        BoxStatus::Working => entry("cli-swarm-tui-badge-working"@, "working"@),
        BoxStatus::Blocked => entry("cli-swarm-tui-badge-blocked"@, "blocked"@),
        BoxStatus::Done => entry("cli-swarm-tui-badge-done"@, "done"@),
    }
}

/// A box's board status as one word.
pub fn box_status_label(status: BoxStatus) -> (r: Words)
    ensures
        r@ == box_status_words(status),
{
    match status {
        BoxStatus::Idle => said("cli-swarm-tui-badge-idle", "idle"),
        BoxStatus::Working => said("cli-swarm-tui-badge-working", "working"),
        BoxStatus::Blocked => said("cli-swarm-tui-badge-blocked", "blocked"),
        BoxStatus::Done => said("cli-swarm-tui-badge-done", "done"),
    }
}

/// The tone of a board status.
pub open spec fn box_tone_of(status: BoxStatus) -> Tone {
    match status {
        BoxStatus::Working => Tone::Good,
        BoxStatus::Blocked => Tone::Danger,
        BoxStatus::Done => Tone::Accent,
        BoxStatus::Idle => Tone::Muted,
    }
}

fn box_status_tone(status: BoxStatus) -> (r: Tone)
    ensures
        r == box_tone_of(status),
{
    match status {
        BoxStatus::Working => Tone::Good,
        BoxStatus::Blocked => Tone::Danger,
        BoxStatus::Done => Tone::Accent,
        BoxStatus::Idle => Tone::Muted,
    }
}

/// The tone of a coalesced line.
pub open spec fn line_tone_of(kind: LineKind) -> Tone {
    match kind {
        LineKind::Message => Tone::Plain,
        LineKind::Thought => Tone::Muted,
        LineKind::Tool => Tone::Accent,
        LineKind::System => Tone::Warn,
    }
}

fn line_tone(kind: LineKind) -> (r: Tone)
    ensures
        r == line_tone_of(kind),
{
    match kind {
        LineKind::Message => Tone::Plain,
        LineKind::Thought => Tone::Muted,
        LineKind::Tool => Tone::Accent,
        LineKind::System => Tone::Warn,
    }
}

// ── Layout ──────────────────────────────────────────────────────────

/// The slice of a list to draw so that the cursor stays on screen.
pub open spec fn slice_of(selected: nat, total: nat, height: nat) -> (nat, nat) {
    if height == 0 || total == 0 {
        (0, 0)
    } else if total <= height {
        (0, total)
    } else {
        let wanted = if selected + 1 > height {
            (selected + 1 - height) as nat
        } else {
            0
        };
        let start = if wanted <= total - height {
            wanted
        } else {
            (total - height) as nat
        };
        (start, start + height)
    }
}

/// The slice of a list to draw so that the cursor stays on screen.
pub fn window(selected: usize, total: usize, height: usize) -> (r: (usize, usize))
    ensures
        (r.0 as nat, r.1 as nat) == slice_of(selected as nat, total as nat, height as nat),
        r.0 <= r.1 <= total,
{
    if height == 0 || total == 0 {
        return (0, 0);
    }
    if total <= height {
        return (0, total);
    }
    let wanted: usize = if selected >= height {
        selected - (height - 1)
    } else {
        0
    };
    let start: usize = if wanted <= total - height {
        wanted
    } else {
        total - height
    };
    (start, start + height)
}

/// The cursor is always on screen, the slice never overflows it, and no room is left
/// unused while rows are hidden.
pub proof fn the_cursor_is_on_screen(selected: nat, total: nat, height: nat)
    requires
        selected < total,
        height > 0,
    ensures
        ({
            let (start, end) = slice_of(selected, total, height);
            &&& start <= selected < end <= total
            &&& end - start <= height
            &&& end - start == height || end - start == total
        }),
{
}

/// A rectangle of the screen, in cells.
#[derive(Debug, Clone, Copy, PartialEq, Eq, Structural)]
pub struct Rect {
    pub x: u16,
    pub y: u16,
    pub width: u16,
    pub height: u16,
}

/// A rectangle in the middle of `area`, no larger than it.
pub fn centered(area: Rect, width: u16, height: u16) -> (r: Rect)
    requires
        area.x + area.width <= u16::MAX,
        area.y + area.height <= u16::MAX,
    ensures
        r.width == if width <= area.width {
            width
        } else {
            area.width
        },
        r.height == if height <= area.height {
            height
        } else {
            area.height
        },
        r.x == area.x + (area.width - r.width) / 2,
        r.y == area.y + (area.height - r.height) / 2,
        r.x + r.width <= area.x + area.width,
        r.y + r.height <= area.y + area.height,
{
    let w: u16 = if width <= area.width {
        width
    } else {
        area.width
    };
    let h: u16 = if height <= area.height {
        height
    } else {
        area.height
    };
    Rect {
        x: area.x + (area.width - w) / 2,
        y: area.y + (area.height - h) / 2,
        width: w,
        height: h,
    }
}

// ── Dashboard ───────────────────────────────────────────────────────

/// The list screen.
#[derive(Debug, PartialEq, Eq)]
pub struct DashboardScreen {
    pub title: Row,
    pub header: Row,
    pub rows: Vec<Row>,
    pub status: Row,
    pub hint: Row,
}

/// The list screen as plain values.
#[verifier::ext_equal]
pub struct DashboardScreenView {
    pub title: RowView,
    pub header: RowView,
    pub rows: Seq<RowView>,
    pub status: RowView,
    pub hint: RowView,
}

impl View for DashboardScreen {
    type V = DashboardScreenView;

    open spec fn view(&self) -> DashboardScreenView {
        DashboardScreenView {
            title: self.title@,
            header: self.header@,
            rows: text::views(self.rows@),
            status: self.status@,
            hint: self.hint@,
        }
    }
}

/// One swarm on the list.
pub open spec fn swarm_cells(swarm: PersistedSwarmView) -> RowView {
    RowView {
        spans: seq![
            column(plain(swarm.spec.name), Tone::Plain, NAME_WIDTH),
            column(
                WordsView::Phrase(status_phrase(swarm.run.status)),
                status_tone_of(swarm.run.status),
                STATUS_WIDTH,
            ),
            column(plain(text::numeral(swarm.spec.boxes.len())), Tone::Plain, BOXES_WIDTH),
            column(budget_words(swarm.spec.budget), Tone::Plain, BUDGET_WIDTH),
            toned(plain(text::clipped(swarm.updated_at, TIMESTAMP_WIDTH as nat)), Tone::Muted),
        ],
        selected: false,
    }
}

fn swarm_row(swarm: &PersistedSwarm) -> (r: Row)
    ensures
        r@ == swarm_cells(swarm@),
{
    let mut spans: Vec<Span> = Vec::new();
    spans.push(
        span_with(words(swarm.spec.name.as_str()), Tone::Plain, false, Some(NAME_WIDTH)),
    );
    spans.push(
        span_with(
            Words::Phrase(status_label(swarm.run.status)),
            status_tone(swarm.run.status),
            false,
            Some(STATUS_WIDTH),
        ),
    );
    let boxes = decimal(swarm.spec.boxes.len() as u64);
    spans.push(span_with(words(boxes.as_str()), Tone::Plain, false, Some(BOXES_WIDTH)));
    spans.push(
        span_with(budget_label(swarm.spec.budget), Tone::Plain, false, Some(BUDGET_WIDTH)),
    );
    let updated = clip(swarm.updated_at.as_str(), TIMESTAMP_WIDTH);
    spans.push(span_with(Words::Plain(updated), Tone::Muted, false, None));
    assert(text::views(spans@) =~= swarm_cells(swarm@).spans);
    Row { spans, selected: false }
}

/// The `index`-th row of the list.
pub open spec fn list_row(app: AppView, index: nat) -> RowView {
    let line = if index < app.swarms.len() {
        swarm_cells(app.swarms[index as int])
    } else {
        row(toned(entry("cli-swarm-tui-new-row"@, "+ New swarm"@), Tone::Accent))
    };
    RowView { selected: index == app.selected, ..line }
}

/// The list screen on `height` rows.
pub open spec fn dashboard_of(app: AppView, height: nat) -> DashboardScreenView {
    let (start, end) = slice_of(app.selected, app.rows(), height);
    DashboardScreenView {
        title: row(heading(entry("cli-swarm-tui-title"@, "ZeroClaw swarms"@), Tone::Accent)),
        header: RowView {
            spans: seq![
                column(entry("cli-swarm-tui-col-name"@, "Name"@), Tone::Muted, NAME_WIDTH),
                column(entry("cli-swarm-tui-col-status"@, "Status"@), Tone::Muted, STATUS_WIDTH),
                column(entry("cli-swarm-tui-col-boxes"@, "Boxes"@), Tone::Muted, BOXES_WIDTH),
                column(entry("cli-swarm-tui-col-budget"@, "Budget"@), Tone::Muted, BUDGET_WIDTH),
                toned(entry("cli-swarm-tui-col-updated"@, "Updated"@), Tone::Muted),
            ],
            selected: false,
        },
        rows: Seq::new((end - start) as nat, |i: int| list_row(app, (start + i) as nat)),
        status: row(
            toned(
                if app.busy {
                    entry("cli-swarm-tui-loading"@, "Working..."@)
                } else {
                    match app.status {
                        Some(p) => WordsView::Phrase(p),
                        None => plain(""@),
                    }
                },
                Tone::Muted,
            ),
        ),
        hint: row(
            toned(
                entry(
                    "cli-swarm-tui-keys-dashboard"@,
                    "up/down move - enter open - d delete - r refresh - q quit"@,
                ),
                Tone::Muted,
            ),
        ),
    }
}

fn dashboard_header() -> (r: Row)
    ensures
        forall|app: AppView, height: nat| #[trigger] dashboard_of(app, height).header == r@,
{
    let mut spans: Vec<Span> = Vec::new();
    spans.push(
        span_with(said("cli-swarm-tui-col-name", "Name"), Tone::Muted, false, Some(NAME_WIDTH)),
    );
    spans.push(
        span_with(
            said("cli-swarm-tui-col-status", "Status"),
            Tone::Muted,
            false,
            Some(STATUS_WIDTH),
        ),
    );
    spans.push(
        span_with(said("cli-swarm-tui-col-boxes", "Boxes"), Tone::Muted, false, Some(BOXES_WIDTH)),
    );
    spans.push(
        span_with(
            said("cli-swarm-tui-col-budget", "Budget"),
            Tone::Muted,
            false,
            Some(BUDGET_WIDTH),
        ),
    );
    spans.push(span_with(said("cli-swarm-tui-col-updated", "Updated"), Tone::Muted, false, None));
    let r = Row { spans, selected: false };
    assert forall|app: AppView, height: nat| #[trigger] dashboard_of(app, height).header == r@ by {
        assert(dashboard_of(app, height).header.spans =~= r@.spans);
    }
    r
}

/// The list screen on `height` rows.
pub fn draw_dashboard(app: &App, height: usize) -> (r: DashboardScreen)
    ensures
        r@ == dashboard_of(app@, height as nat),
{
    let (start, end) = window(app.selected(), app.row_count(), height);
    let ghost expected = dashboard_of(app@, height as nat).rows;
    let mut rows: Vec<Row> = Vec::new();
    let mut index: usize = start;
    assert(text::views(rows@) =~= expected.take(0));
    while index < end
        invariant
            start <= index <= end,
            (start as nat, end as nat) == slice_of(app@.selected, app@.rows(), height as nat),
            expected == dashboard_of(app@, height as nat).rows,
            expected.len() == end - start,
            text::views(rows@) == expected.take(index - start),
        decreases end - index,
    {
        let mut line = if index < app.swarms().len() {
            let swarm = &app.swarms()[index];
            assert(swarm@ == app@.swarms[index as int]);
            swarm_row(swarm)
        } else {
            row_of(
                span_with(said("cli-swarm-tui-new-row", "+ New swarm"), Tone::Accent, false, None),
            )
        };
        line.selected = index == app.selected();
        assert(line@ == list_row(app@, index as nat));
        assert(line@ == expected[index - start]);
        push_row(&mut rows, line);
        assert(expected.take(index - start + 1) =~= expected.take(index - start).push(
            expected[index - start],
        ));
        index += 1;
    }
    assert(expected.take(end - start) =~= expected);
    let status = if app.busy() {
        said("cli-swarm-tui-loading", "Working...")
    } else {
        match app.status() {
            Some(p) => Words::Phrase(p.duplicate()),
            None => words(""),
        }
    };
    DashboardScreen {
        title: row_of(
            span_with(said("cli-swarm-tui-title", "ZeroClaw swarms"), Tone::Accent, true, None),
        ),
        header: dashboard_header(),
        rows,
        status: toned_row(status, Tone::Muted),
        hint: toned_row(
            said(
                "cli-swarm-tui-keys-dashboard",
                "up/down move - enter open - d delete - r refresh - q quit",
            ),
            Tone::Muted,
        ),
    }
}

// ── Canvas ──────────────────────────────────────────────────────────

/// Which header line of a cell is being edited.
pub open spec fn edited_line(canvas: CanvasView, idx: nat) -> Option<EditLine> {
    match canvas.mode {
        ModeView::Edit { line, .. } => if canvas.focus == idx {
            Some(line)
        } else {
            None
        },
        _ => None,
    }
}

/// Which header line of cell `idx` is being edited, if the focused box is in edit mode.
pub fn focused_edit(view: &ViewState, idx: usize) -> (r: Option<EditLine>)
    ensures
        r == edited_line(view@, idx as nat),
{
    if view.focus() != idx {
        return None;
    }
    match view.mode() {
        Mode::Edit { line, .. } => Some(*line),
        _ => None,
    }
}

/// The header row of one field: its label and its value, with a cursor while it is
/// being edited.
pub open spec fn header_cells(label: WordsView, value: Seq<char>, editing: bool) -> RowView {
    let shown = if value.len() == 0 && !editing {
        entry("cli-swarm-tui-box-unassigned"@, "unassigned"@)
    } else {
        plain(value)
    };
    RowView {
        spans: seq![
            SpanView {
                pieces: seq![label, plain(": "@)],
                tone: Tone::Muted,
                bold: false,
                width: None,
            },
            if editing {
                SpanView {
                    pieces: seq![shown, plain("_"@)],
                    tone: Tone::Accent,
                    bold: false,
                    width: None,
                }
            } else {
                toned(
                    shown,
                    if value.len() == 0 {
                        Tone::Muted
                    } else {
                        Tone::Plain
                    },
                )
            },
        ],
        selected: false,
    }
}

fn header_line(label: Words, value: &str, editing: bool) -> (r: Row)
    ensures
        r@ == header_cells(label@, value@, editing),
{
    let empty = value.is_empty();
    let shown = if empty && !editing {
        said("cli-swarm-tui-box-unassigned", "unassigned")
    } else {
        words(value)
    };
    let mut spans: Vec<Span> = Vec::new();
    spans.push(span_of_two(label, words(": "), Tone::Muted));
    spans.push(
        if editing {
            span_of_two(shown, words("_"), Tone::Accent)
        } else {
            span_with(
                shown,
                if empty {
                    Tone::Muted
                } else {
                    Tone::Plain
                },
                false,
                None,
            )
        },
    );
    assert(text::views(spans@) =~= header_cells(label@, value@, editing).spans);
    Row { spans, selected: false }
}

/// A piece behind a space.
pub open spec fn spaced(words: WordsView, tone: Tone) -> SpanView {
    SpanView { pieces: seq![plain(" "@), words], tone, bold: false, width: None }
}

/// What a badge says of a claim.
pub open spec fn claim_words(claim: Seq<char>) -> WordsView {
    WordsView::Phrase(
        phrase::said_with(
            "cli-swarm-tui-badge-claim"@,
            seq![phrase::slot("claim"@, claim)],
            "claim"@,
        ),
    )
}

/// What a badge says of the context usage.
pub open spec fn context_words(tokens: u64, ceiling: Option<u64>) -> WordsView {
    WordsView::Phrase(
        phrase::said_with(
            "cli-swarm-tui-badge-ctx"@,
            seq![
                phrase::slot("tokens"@, text::numeral(tokens as nat)),
                phrase::slot(
                    "ceiling"@,
                    match ceiling {
                        Some(c) => text::numeral(c as nat),
                        None => "?"@,
                    },
                ),
            ],
            "ctx"@,
        ),
    )
}

/// The badge row: board status, current claim, whether the user holds the box, and the
/// latest context usage.
pub open spec fn badge_cells(badge: Option<BadgeView>) -> RowView {
    match badge {
        None => row(toned(entry("cli-swarm-tui-badge-idle"@, "idle"@), Tone::Muted)),
        Some(b) => RowView {
            spans: seq![toned(box_status_words(b.status), box_tone_of(b.status))] + (match b.claim {
                Some(claim) => seq![spaced(claim_words(claim), Tone::Muted)],
                None => Seq::empty(),
            }) + (if b.engaged {
                seq![spaced(entry("cli-swarm-tui-badge-engaged"@, "(you)"@), Tone::Warn)]
            } else {
                Seq::empty()
            }) + (match b.context {
                Some((tokens, ceiling)) => seq![spaced(context_words(tokens, ceiling), Tone::Muted)],
                None => Seq::empty(),
            }),
            selected: false,
        },
    }
}

fn badge_line(badge: Option<&BoxBadge>) -> (r: Row)
    ensures
        r@ == badge_cells(crate::store::ref_view(badge)),
{
    let badge = match badge {
        Some(badge) => badge,
        None => {
            return toned_row(said("cli-swarm-tui-badge-idle", "idle"), Tone::Muted);
        },
    };
    let mut spans: Vec<Span> = Vec::new();
    assert(text::views(spans@) =~= Seq::empty());
    push_span(
        &mut spans,
        span_with(box_status_label(badge.status), box_status_tone(badge.status), false, None),
    );
    let ghost first = text::views(spans@);
    assert(first =~= seq![toned(box_status_words(badge.status), box_tone_of(badge.status))]);
    if let Some(claim) = &badge.claim {
        let said_claim = ta_one("cli-swarm-tui-badge-claim", "claim", claim.as_str(), "claim");
        push_span(&mut spans, span_of_two(words(" "), Words::Phrase(said_claim), Tone::Muted));
    }
    let ghost second = text::views(spans@);
    assert(second =~= first + (match badge@.claim {
        Some(claim) => seq![spaced(claim_words(claim), Tone::Muted)],
        None => Seq::empty(),
    }));
    if badge.engaged {
        push_span(
            &mut spans,
            span_of_two(words(" "), said("cli-swarm-tui-badge-engaged", "(you)"), Tone::Warn),
        );
    }
    let ghost third = text::views(spans@);
    assert(third =~= second + (if badge.engaged {
        seq![spaced(entry("cli-swarm-tui-badge-engaged"@, "(you)"@), Tone::Warn)]
    } else {
        Seq::empty()
    }));
    if let Some((used, most)) = badge.context {
        let ceiling = match most {
            Some(c) => decimal(c),
            None => "?".to_owned(),
        };
        let tokens = decimal(used);
        let ctx = phrase::ta_two(
            "cli-swarm-tui-badge-ctx",
            "tokens",
            tokens.as_str(),
            "ceiling",
            ceiling.as_str(),
            "ctx",
        );
        assert(WordsView::Phrase(ctx@) == context_words(used, most));
        push_span(&mut spans, span_of_two(words(" "), Words::Phrase(ctx), Tone::Muted));
    }
    assert(text::views(spans@) =~= third + (match badge@.context {
        Some((tokens, ceiling)) => seq![spaced(context_words(tokens, ceiling), Tone::Muted)],
        None => Seq::empty(),
    }));
    assert(text::views(spans@) =~= badge_cells(Some(badge@)).spans);
    Row { spans, selected: false }
}

/// Everything that a stream could show, oldest first: a marker where content was
/// dropped, the finished lines, and the tail.
pub open spec fn stream_rows_of(stream: StreamView) -> Seq<RowView> {
    (if stream.gap {
        seq![row(toned(entry("cli-swarm-tui-stream-gap"@, "… (stream gap)"@), Tone::Warn))]
    } else {
        Seq::empty()
    }) + Seq::new(
        stream.lines.len(),
        |i: int| row(toned(stream.lines[i].text, line_tone_of(stream.lines[i].kind))),
    ) + (match stream.partial {
        Some((kind, line)) => seq![
            row(
                SpanView {
                    pieces: seq![plain(line), plain("_"@)],
                    tone: line_tone_of(kind),
                    bold: false,
                    width: None,
                },
            ),
        ],
        None => Seq::empty(),
    })
}

/// The last `room` items.
pub open spec fn tail_of<T>(items: Seq<T>, room: nat) -> Seq<T> {
    if items.len() > room {
        items.skip(items.len() - room)
    } else {
        items
    }
}

/// The part of a box's stream that fits `room` rows.
pub open spec fn stream_tail(stream: Option<StreamView>, room: nat) -> Seq<RowView> {
    if room == 0 {
        Seq::empty()
    } else {
        match stream {
            None => seq![row(toned(entry("cli-swarm-tui-cell-waiting"@, "waiting…"@), Tone::Muted))],
            Some(s) => tail_of(stream_rows_of(s), room),
        }
    }
}

fn all_stream_rows(stream: &BoxStream) -> (r: Vec<Row>)
    ensures
        text::views(r@) == stream_rows_of(stream@),
{
    let mut all: Vec<Row> = Vec::new();
    assert(text::views(all@) =~= Seq::empty());
    if stream.has_gap() {
        push_row(
            &mut all,
            toned_row(said("cli-swarm-tui-stream-gap", "… (stream gap)"), Tone::Warn),
        );
    }
    let ghost head = text::views(all@);
    let ghost lines = stream@.lines;
    let ghost body = Seq::new(
        lines.len(),
        |i: int| row(toned(lines[i].text, line_tone_of(lines[i].kind))),
    );
    let finished = stream.lines();
    let mut i: usize = 0;
    assert(text::views(all@) =~= head + body.take(0));
    while i < finished.len()
        invariant
            i <= finished.len(),
            lines == text::views(finished@),
            body == Seq::new(
                lines.len(),
                |i: int| row(toned(lines[i].text, line_tone_of(lines[i].kind))),
            ),
            text::views(all@) == head + body.take(i as int),
        decreases finished.len() - i,
    {
        let line = &finished[i];
        assert(line@ == lines[i as int]);
        push_row(&mut all, toned_row(line.text.duplicate(), line_tone(line.kind)));
        assert(text::views(all@) =~= head + body.take(i + 1));
        i += 1;
    }
    assert(body.take(i as int) =~= body);
    if let Some((kind, line)) = stream.partial() {
        push_row(&mut all, row_of(span_of_two(words(line), words("_"), line_tone(kind))));
    }
    assert(text::views(all@) =~= stream_rows_of(stream@));
    all
}

fn stream_rows(stream: Option<&BoxStream>, room: usize) -> (r: Vec<Row>)
    ensures
        text::views(r@) == stream_tail(crate::store::ref_view(stream), room as nat),
{
    let mut out: Vec<Row> = Vec::new();
    assert(text::views(out@) =~= Seq::empty());
    if room == 0 {
        return out;
    }
    match stream {
        None => {
            push_row(
                &mut out,
                toned_row(said("cli-swarm-tui-cell-waiting", "waiting…"), Tone::Muted),
            );
            assert(text::views(out@) =~= stream_tail(None, room as nat));
            out
        },
        Some(stream) => {
            let mut all = all_stream_rows(stream);
            let ghost whole = text::views(all@);
            if all.len() > room {
                let drop: usize = all.len() - room;
                let kept = all.split_off(drop);
                assert(text::views(kept@) =~= whole.skip(drop as int));
                return kept;
            }
            all
        },
    }
}

/// One cell of the grid.
#[derive(Debug, PartialEq, Eq)]
pub struct Cell {
    /// The box's id.
    pub title: String,
    pub border: Tone,
    pub rows: Vec<Row>,
}

/// A cell as plain values.
#[verifier::ext_equal]
pub struct CellView {
    pub title: Seq<char>,
    pub border: Tone,
    pub rows: Seq<RowView>,
}

impl View for Cell {
    type V = CellView;

    open spec fn view(&self) -> CellView {
        CellView { title: self.title@, border: self.border, rows: text::views(self.rows@) }
    }
}

/// The cell of the `idx`-th box, on `height` rows: its header, which shows what is
/// being typed while it is edited, its badges, and the tail of its stream.
pub open spec fn cell_of(canvas: CanvasView, idx: nat, height: nat) -> CellView {
    let b = canvas.boxes[idx as int];
    let editing = edited_line(canvas, idx);
    let (role, job) = match (editing, canvas.mode) {
        (Some(_), ModeView::Edit { role, job, .. }) => (role, job),
        _ => (b.role, b.job),
    };
    CellView {
        title: " "@ + b.box_id + " "@,
        border: if canvas.focus != idx {
            Tone::Muted
        } else if canvas.mode == ModeView::Move {
            Tone::Warn
        } else {
            Tone::Accent
        },
        rows: seq![
            header_cells(
                entry("cli-swarm-tui-cell-role"@, "role"@),
                role,
                editing == Some(EditLine::Role),
            ),
            header_cells(
                entry("cli-swarm-tui-cell-job"@, "job"@),
                job,
                editing == Some(EditLine::Job),
            ),
            badge_cells(
                if canvas.badges.contains_key(b.box_id) {
                    Some(canvas.badges[b.box_id])
                } else {
                    None
                },
            ),
        ] + stream_tail(
            if canvas.streams.contains_key(b.box_id) {
                Some(canvas.streams[b.box_id])
            } else {
                None
            },
            if height >= 3 {
                (height - 3) as nat
            } else {
                0
            },
        ),
    }
}

/// The cell of the `idx`-th box, on `height` rows.
pub fn draw_cell(view: &ViewState, idx: usize, height: usize) -> (r: Cell)
    requires
        idx < view@.boxes.len(),
    ensures
        r@ == cell_of(view@, idx as nat, height as nat),
{
    let b = &view.boxes()[idx];
    assert(b@ == view@.boxes[idx as int]);
    let editing = focused_edit(view, idx);
    let focused = view.focus() == idx;
    let border = if !focused {
        Tone::Muted
    } else if matches!(view.mode(), Mode::Move) {
        Tone::Warn
    } else {
        Tone::Accent
    };
    let (role, job) = match (editing, view.mode()) {
        (Some(_), Mode::Edit { line: _, role, job }) => (role.as_str(), job.as_str()),
        _ => (b.role.as_str(), b.job.as_str()),
    };
    let on_role = matches!(editing, Some(EditLine::Role));
    let on_job = matches!(editing, Some(EditLine::Job));
    let mut rows: Vec<Row> = Vec::new();
    rows.push(header_line(said("cli-swarm-tui-cell-role", "role"), role, on_role));
    rows.push(header_line(said("cli-swarm-tui-cell-job", "job"), job, on_job));
    rows.push(badge_line(view.badge(b.box_id.as_str())));
    let ghost head = text::views(rows@);
    let room: usize = if height >= 3 {
        height - 3
    } else {
        0
    };
    let mut tail = stream_rows(view.stream(b.box_id.as_str()), room);
    let ghost last = text::views(tail@);
    rows.append(&mut tail);
    assert(text::views(rows@) =~= head + last);
    assert(head =~= cell_of(view@, idx as nat, 3).rows.take(3));
    let title = " ".to_owned().concat(b.box_id.as_str()).concat(" ");
    let r = Cell { title, border, rows };
    assert(r@.rows =~= cell_of(view@, idx as nat, height as nat).rows);
    r
}

/// The feed, on `room` rows below its label.
pub open spec fn feed_rows_of(feed: Seq<PhraseView>, room: nat) -> Seq<RowView> {
    seq![row(heading(entry("cli-swarm-tui-feed-label"@, "Broadcast"@), Tone::Muted))] + (
    if feed.len() == 0 {
        seq![
            row(toned(entry("cli-swarm-tui-feed-empty"@, "no board activity yet"@), Tone::Muted)),
        ]
    } else {
        let shown = tail_of(feed, room);
        Seq::new(shown.len(), |i: int| row(toned(WordsView::Phrase(shown[i]), Tone::Muted)))
    })
}

/// The broadcast feed, on `height` rows.
pub fn draw_feed(view: &ViewState, height: usize) -> (r: Vec<Row>)
    ensures
        text::views(r@) == feed_rows_of(
            view@.feed,
            if height >= 1 {
                (height - 1) as nat
            } else {
                0
            },
        ),
{
    let room: usize = if height >= 1 {
        height - 1
    } else {
        0
    };
    let mut out: Vec<Row> = Vec::new();
    out.push(row_of(span_with(said("cli-swarm-tui-feed-label", "Broadcast"), Tone::Muted, true, None)));
    let ghost head = text::views(out@);
    assert(head =~= seq![
        row(heading(entry("cli-swarm-tui-feed-label"@, "Broadcast"@), Tone::Muted)),
    ]);
    let feed = view.feed();
    let n: usize = feed.len();
    let ghost all = view@.feed;
    assert(all.len() == n);
    if n == 0 {
        push_row(
            &mut out,
            toned_row(said("cli-swarm-tui-feed-empty", "no board activity yet"), Tone::Muted),
        );
        assert(text::views(out@) =~= feed_rows_of(all, room as nat));
        return out;
    }
    let start: usize = if n > room {
        n - room
    } else {
        0
    };
    let ghost shown = tail_of(all, room as nat);
    let ghost body = Seq::new(
        shown.len(),
        |i: int| row(toned(WordsView::Phrase(shown[i]), Tone::Muted)),
    );
    let mut i: usize = start;
    assert(text::views(out@) =~= head + body.take(0));
    while i < n
        invariant
            start <= i <= n,
            n == feed@.len(),
            all == text::views(feed@),
            shown.len() == n - start,
            forall|j: int| 0 <= j < shown.len() ==> shown[j] == all[start + j],
            body == Seq::new(
                shown.len(),
                |i: int| row(toned(WordsView::Phrase(shown[i]), Tone::Muted)),
            ),
            text::views(out@) == head + body.take(i - start),
        decreases n - i,
    {
        let note = &feed[i];
        assert(note@ == all[i as int]);
        assert(shown[i - start] == all[i as int]);
        push_row(&mut out, toned_row(Words::Phrase(note.duplicate()), Tone::Muted));
        assert(text::views(out@) =~= head + body.take(i - start + 1));
        i += 1;
    }
    assert(body.take(n - start) =~= body);
    out
}

/// The chat row, while a message is typed to a box.
pub open spec fn chat_cells(canvas: CanvasView) -> Option<RowView> {
    match canvas.mode {
        ModeView::Chat { buffer } => Some(
            RowView {
                spans: seq![
                    SpanView {
                        pieces: seq![
                            WordsView::Phrase(
                                phrase::said_with(
                                    "cli-swarm-tui-chat-prompt"@,
                                    seq![
                                        phrase::slot(
                                            "box"@,
                                            match canvas.focused() {
                                                Some(b) => b.box_id,
                                                None => ""@,
                                            },
                                        ),
                                    ],
                                    "chat"@,
                                ),
                            ),
                            plain(" "@),
                        ],
                        tone: Tone::Accent,
                        bold: false,
                        width: None,
                    },
                    SpanView {
                        pieces: seq![plain(buffer), plain("_"@)],
                        tone: Tone::Plain,
                        bold: false,
                        width: None,
                    },
                ],
                selected: false,
            },
        ),
        _ => None,
    }
}

/// The chat input row, shown only while typing to a box.
pub fn draw_view_input(view: &ViewState) -> (r: Option<Row>)
    ensures
        crate::duplicate::opt_view(r) == chat_cells(view@),
{
    match view.mode() {
        Mode::Chat { buffer } => {
            let box_id = match view.focused_box() {
                Some(b) => b.box_id.as_str(),
                None => "",
            };
            let ghost who = match view@.focused() {
                Some(b) => b.box_id,
                None => ""@,
            };
            assert(box_id@ == who);
            let prompt = ta_one("cli-swarm-tui-chat-prompt", "box", box_id, "chat");
            assert(prompt@ == phrase::said_with(
                "cli-swarm-tui-chat-prompt"@,
                seq![phrase::slot("box"@, who)],
                "chat"@,
            ));
            let mut spans: Vec<Span> = Vec::new();
            spans.push(span_of_two(Words::Phrase(prompt), words(" "), Tone::Accent));
            spans.push(span_of_two(words(buffer.as_str()), words("_"), Tone::Plain));
            let r = Row { spans, selected: false };
            let ghost expected = chat_cells(view@)->0.spans;
            assert(r@.spans[0].pieces =~= expected[0].pieces);
            assert(r@.spans[1].pieces =~= expected[1].pieces);
            assert(r@.spans =~= expected);
            Some(r)
        },
        _ => None,
    }
}

/// The key help of a mode.
pub open spec fn hint_of(mode: ModeView) -> WordsView {
    match mode {
        ModeView::Nav => entry(
            "cli-swarm-tui-keys-view"@,
            "arrows focus - enter chat - e edit - m move - s/p/r/x run - esc back - q quit"@,
        ),
        ModeView::Chat { .. } => entry(
            "cli-swarm-tui-keys-chat"@,
            "type message - enter send - 'resume' hands back - esc cancel"@,
        ),
        ModeView::Edit { .. } => entry(
            "cli-swarm-tui-keys-edit"@,
            "type - tab role/job - enter save - esc cancel"@,
        ),
        ModeView::Move => entry("cli-swarm-tui-keys-move"@, "arrows swap - enter/m/esc drop"@),
    }
}

/// The key help of a mode.
pub fn view_hint(mode: &Mode) -> (r: Words)
    ensures
        r@ == hint_of(mode@),
{
    match mode {
        Mode::Nav => said(
            "cli-swarm-tui-keys-view",
            "arrows focus - enter chat - e edit - m move - s/p/r/x run - esc back - q quit",
        ),
        Mode::Chat { .. } => said(
            "cli-swarm-tui-keys-chat",
            "type message - enter send - 'resume' hands back - esc cancel",
        ),
        Mode::Edit { .. } => said(
            "cli-swarm-tui-keys-edit",
            "type - tab role/job - enter save - esc cancel",
        ),
        Mode::Move => said("cli-swarm-tui-keys-move", "arrows swap - enter/m/esc drop"),
    }
}

/// What frames the grid of a canvas.
#[derive(Debug, PartialEq, Eq)]
pub struct CanvasFrame {
    pub title: Row,
    pub budget: Row,
    /// Where there are no boxes: what to say instead of a grid.
    pub empty: Option<Row>,
    pub input: Option<Row>,
    pub hint: Row,
}

/// A frame as plain values.
#[verifier::ext_equal]
pub struct CanvasFrameView {
    pub title: RowView,
    pub budget: RowView,
    pub empty: Option<RowView>,
    pub input: Option<RowView>,
    pub hint: RowView,
}

impl View for CanvasFrame {
    type V = CanvasFrameView;

    open spec fn view(&self) -> CanvasFrameView {
        CanvasFrameView {
            title: self.title@,
            budget: self.budget@,
            empty: crate::duplicate::opt_view(self.empty),
            input: crate::duplicate::opt_view(self.input),
            hint: self.hint@,
        }
    }
}

/// The frame of the canvas of the swarm called `name`.
pub open spec fn frame_of(name: Seq<char>, canvas: CanvasView) -> CanvasFrameView {
    CanvasFrameView {
        title: RowView {
            spans: seq![
                heading(plain(name + " "@), Tone::Accent),
                toned(
                    WordsView::Phrase(detail_phrase(canvas.status)),
                    status_tone_of(canvas.status),
                ),
            ],
            selected: false,
        },
        budget: row(
            toned(WordsView::Phrase(bar_phrase(canvas.spent, canvas.limits)), Tone::Muted),
        ),
        empty: if canvas.boxes.len() == 0 {
            Some(
                row(
                    toned(
                        entry("cli-swarm-tui-view-empty"@, "This swarm has no boxes."@),
                        Tone::Plain,
                    ),
                ),
            )
        } else {
            None
        },
        input: chat_cells(canvas),
        hint: row(toned(hint_of(canvas.mode), Tone::Muted)),
    }
}

/// What frames the grid: the title with the run's status, the budget bar, the chat
/// row and the key help.
pub fn draw_frame(name: &str, view: &ViewState) -> (r: CanvasFrame)
    ensures
        r@ == frame_of(name@, view@),
{
    let mut spans: Vec<Span> = Vec::new();
    spans.push(span_with(Words::Plain(name.to_owned().concat(" ")), Tone::Accent, true, None));
    spans.push(
        span_with(
            Words::Phrase(status_detail(view.status())),
            status_tone(view.status()),
            false,
            None,
        ),
    );
    assert(text::views(spans@) =~= frame_of(name@, view@).title.spans);
    CanvasFrame {
        title: Row { spans, selected: false },
        budget: toned_row(Words::Phrase(budget_bar(view.spent(), view.limits())), Tone::Muted),
        empty: if view.boxes().len() == 0 {
            Some(
                toned_row(
                    said("cli-swarm-tui-view-empty", "This swarm has no boxes."),
                    Tone::Plain,
                ),
            )
        } else {
            None
        },
        input: draw_view_input(view),
        hint: toned_row(view_hint(view.mode()), Tone::Muted),
    }
}

/// The box before which a row of the grid starts.
pub open spec fn row_start(row: nat, cols: nat, count: nat) -> nat {
    if row * cols < count {
        row * cols
    } else {
        count
    }
}

/// The boxes of one row of a grid with `cols` columns, left to right.
pub open spec fn row_cells(row: nat, cols: nat, count: nat) -> Seq<usize> {
    let from = row_start(row, cols, count);
    let to = row_start(row + 1, cols, count);
    Seq::new((to - from) as nat, |c: int| (from + c) as usize)
}

/// The boxes of the grid, row by row: which cell each is drawn in.
pub fn draw_grid(view: &ViewState) -> (r: Vec<Vec<usize>>)
    ensures
        r.len() == grid::rows(view@.boxes.len()),
        forall|i: int|
            0 <= i < r.len() ==> (#[trigger] r@[i])@ == row_cells(
                i as nat,
                grid::columns(view@.boxes.len()),
                view@.boxes.len(),
            ),
{
    let count: usize = view.boxes().len();
    let (rows, cols) = view.grid_shape();
    let mut drawn: Vec<Vec<usize>> = Vec::new();
    let mut row: usize = 0;
    let mut start: usize = 0;
    while row < rows
        invariant
            row <= rows,
            drawn.len() == row,
            start == row_start(row as nat, cols as nat, count as nat),
            forall|i: int|
                0 <= i < row ==> (#[trigger] drawn@[i])@ == row_cells(
                    i as nat,
                    cols as nat,
                    count as nat,
                ),
        decreases rows - row,
    {
        let end: usize = if count - start > cols {
            start + cols
        } else {
            count
        };
        assert((row + 1) * cols == row * cols + cols) by (nonlinear_arith);
        let mut cells: Vec<usize> = Vec::new();
        let mut at: usize = start;
        while at < end
            invariant
                start <= at <= end,
                cells.len() == at - start,
                forall|c: int| 0 <= c < cells.len() ==> #[trigger] cells@[c] == start + c,
            decreases end - at,
        {
            cells.push(at);
            at += 1;
        }
        assert(cells@ =~= row_cells(row as nat, cols as nat, count as nat));
        drawn.push(cells);
        start = end;
        row += 1;
    }
    drawn
}

/// Every box has one cell: the grid has a row for it, and it stands in that row at its
/// column.
pub proof fn every_box_has_a_cell(count: nat, idx: nat)
    requires
        idx < count,
        count <= usize::MAX,
    ensures
        ({
            let cols = grid::columns(count);
            &&& cols > 0
            &&& idx / cols < grid::rows(count)
            &&& idx % cols < row_cells(idx / cols, cols, count).len()
            &&& row_cells(idx / cols, cols, count)[(idx % cols) as int] == idx
        }),
{
    let cols = grid::columns(count);
    grid::the_grid_is_near_square(count);
    let row = idx / cols;
    vstd::arithmetic::div_mod::lemma_fundamental_div_mod(idx as int, cols as int);
    assert(row * cols + idx % cols == idx) by (nonlinear_arith)
        requires
            idx == cols * row + idx % cols,
    ;
    assert((row + 1) * cols == row * cols + cols) by (nonlinear_arith);
    if row >= grid::rows(count) {
        assert(row * cols >= grid::rows(count) * cols) by (nonlinear_arith)
            requires
                row >= grid::rows(count),
        ;
    }
}

/// The screen of one swarm.
#[derive(Debug, PartialEq, Eq)]
pub enum SwarmScreen {
    /// No canvas is open: what to say instead.
    Missing(Row),
    Canvas(CanvasFrame),
}

/// The screen of one swarm as plain values.
#[verifier::ext_equal]
pub enum SwarmScreenView {
    Missing(RowView),
    Canvas(CanvasFrameView),
}

impl View for SwarmScreen {
    type V = SwarmScreenView;

    open spec fn view(&self) -> SwarmScreenView {
        match self {
            SwarmScreen::Missing(row) => SwarmScreenView::Missing(row@),
            SwarmScreen::Canvas(frame) => SwarmScreenView::Canvas(frame@),
        }
    }
}

/// What a swarm is called on its screen: its name, or its id where it is not listed.
pub open spec fn screen_name(app: AppView, swarm_id: Seq<char>) -> Seq<char> {
    if state::ids_of(app.swarms).contains(swarm_id) {
        app.swarms[text::first_index(state::ids_of(app.swarms), swarm_id)].spec.name
    } else {
        swarm_id
    }
}

/// What is shown of the swarm of that id.
pub open spec fn swarm_screen(app: AppView, swarm_id: Seq<char>) -> SwarmScreenView {
    match app.canvas {
        Some(canvas) => SwarmScreenView::Canvas(frame_of(screen_name(app, swarm_id), canvas)),
        None => SwarmScreenView::Missing(
            row(
                toned(
                    entry("cli-swarm-tui-detail-missing"@, "That swarm is gone."@),
                    Tone::Plain,
                ),
            ),
        ),
    }
}

/// What is shown of a swarm around its grid and its feed.
pub fn draw_swarm_view(app: &App, swarm_id: &str) -> (r: SwarmScreen)
    ensures
        r@ == swarm_screen(app@, swarm_id@),
{
    match app.view_state() {
        Some(view) => {
            let name = match app.swarm(swarm_id) {
                Some(swarm) => swarm.spec.name.as_str(),
                None => swarm_id,
            };
            SwarmScreen::Canvas(draw_frame(name, view))
        },
        None => SwarmScreen::Missing(
            toned_row(
                said("cli-swarm-tui-detail-missing", "That swarm is gone."),
                Tone::Plain,
            ),
        ),
    }
}

// ── Wizard ──────────────────────────────────────────────────────────

/// A closed-set control: up and down pick, typing does not.
pub fn is_picker(field: &FieldDescriptor) -> (r: bool)
    ensures
        r == wizard::picks(field@),
{
    if matches!(field.kind, PropKind::StringArray) {
        return false;
    }
    match &field.enum_variants {
        Some(variants) => variants.len() > 0,
        None => false,
    }
}

/// `n` asterisks.
pub open spec fn asterisks(n: nat) -> Seq<char> {
    Seq::new(n, |i: int| '*')
}

fn masked(s: &str) -> (r: String)
    ensures
        r@ == asterisks(s@.len()),
{
    let n: usize = s.unicode_len();
    let mut out = String::new();
    let mut i: usize = 0;
    assert(out@ =~= asterisks(0));
    while i < n
        invariant
            i <= n,
            out@ == asterisks(i as nat),
        decreases n - i,
    {
        out.push('*');
        assert(out@ =~= asterisks((i + 1) as nat));
        i += 1;
    }
    out
}

/// The value that a field shows: its default where it is only shown, and never a
/// secret.
pub open spec fn shown_value(draft: WizardView, field: FieldView) -> Seq<char> {
    if !wizard::submission_key(field.key) {
        match field.default {
            Some(d) => d,
            None => ""@,
        }
    } else if field.is_secret {
        asterisks(draft.answer(field.key).len())
    } else {
        draft.answer(field.key)
    }
}

/// A muted row, indented.
pub open spec fn aside(words: WordsView, tone: Tone) -> RowView {
    row(SpanView { pieces: seq![plain("    "@), words], tone, bold: false, width: None })
}

fn aside_row(shown: Words, tone: Tone) -> (r: Row)
    ensures
        r@ == aside(shown@, tone),
{
    row_of(span_of_two(words("    "), shown, tone))
}

/// The first row of a field: marker, label and value.
pub open spec fn field_cells(draft: WizardView, field: FieldView, focused: bool) -> RowView {
    let advisory = !wizard::submission_key(field.key);
    let value = shown_value(draft, field);
    RowView {
        spans: seq![
            SpanView {
                pieces: seq![
                    plain(
                        if focused {
                            "> "@
                        } else {
                            "  "@
                        },
                    ),
                    plain(text::padded(field.label, LABEL_WIDTH as nat)),
                ],
                tone: if advisory {
                    Tone::Muted
                } else if focused {
                    Tone::Accent
                } else {
                    Tone::Plain
                },
                bold: focused && !advisory,
                width: None,
            },
            SpanView {
                pieces: seq![
                    plain(value),
                    plain(
                        if focused && !wizard::picks(field) {
                            "_"@
                        } else {
                            ""@
                        },
                    ),
                ],
                tone: Tone::Plain,
                bold: false,
                width: None,
            },
        ],
        selected: false,
    }
}

/// The rows of one field: its label and value, then whatever it adds: that it is only
/// shown, its help, its choices, and the daemon's rejection of it.
pub open spec fn field_rows_of(draft: WizardView, field: FieldView, focused: bool) -> Seq<RowView> {
    seq![field_cells(draft, field, focused)] + (if !wizard::submission_key(field.key) {
        seq![
            aside(
                entry(
                    "cli-swarm-tui-wizard-advisory"@,
                    "config only - set it with `zeroclaw config`"@,
                ),
                Tone::Muted,
            ),
        ]
    } else {
        Seq::empty()
    }) + (if field.help.len() > 0 {
        seq![aside(plain(field.help), Tone::Muted)]
    } else {
        Seq::empty()
    }) + choice_rows_of(field) + error_rows_of(draft, field.key)
}

/// The row of a field's choices, where it has any.
pub open spec fn choice_rows_of(field: FieldView) -> Seq<RowView> {
    match field.enum_variants {
        Some(v) => if v.len() > 0 {
            seq![
                aside(
                    WordsView::Phrase(
                        phrase::said_with(
                            "cli-swarm-tui-wizard-choices"@,
                            seq![phrase::slot("choices"@, text::joined(v, ", "@))],
                            "choices"@,
                        ),
                    ),
                    Tone::Muted,
                ),
            ]
        } else {
            Seq::empty()
        },
        None => Seq::empty(),
    }
}

/// The rows of the daemon's rejections of a field.
pub open spec fn error_rows_of(draft: WizardView, key: Seq<char>) -> Seq<RowView> {
    let messages = wizard::messages_about(draft.errors, key, draft.errors.len() as int);
    Seq::new(messages.len(), |i: int| aside(plain(messages[i]), Tone::Danger))
}

fn field_row(draft: &WizardState, field: &FieldDescriptor, focused: bool) -> (r: Row)
    ensures
        r@ == field_cells(draft@, field@, focused),
{
    let advisory = WizardState::is_advisory(field);
    let value: String = if advisory {
        match &field.default {
            Some(d) => d.clone(),
            None => "".to_owned(),
        }
    } else if field.is_secret {
        masked(draft.answer(field.key.as_str()))
    } else {
        draft.answer(field.key.as_str()).to_owned()
    };
    assert(value@ == shown_value(draft@, field@));
    let mut label = span_of_two(
        words(
            if focused {
                "> "
            } else {
                "  "
            },
        ),
        Words::Plain(pad(field.label.as_str(), LABEL_WIDTH)),
        if advisory {
            Tone::Muted
        } else if focused {
            Tone::Accent
        } else {
            Tone::Plain
        },
    );
    label.bold = focused && !advisory;
    let cursor = if focused && !is_picker(field) {
        "_"
    } else {
        ""
    };
    let mut spans: Vec<Span> = Vec::new();
    spans.push(label);
    spans.push(span_of_two(Words::Plain(value), words(cursor), Tone::Plain));
    let r = Row { spans, selected: false };
    let ghost expected = field_cells(draft@, field@, focused).spans;
    assert(r@.spans[0].pieces =~= expected[0].pieces);
    assert(r@.spans[1].pieces =~= expected[1].pieces);
    assert(r@.spans =~= expected);
    r
}

/// The rows of one field.
pub fn field_rows(draft: &WizardState, field: &FieldDescriptor, focused: bool) -> (r: Vec<Row>)
    ensures
        text::views(r@) == field_rows_of(draft@, field@, focused),
{
    let mut rows: Vec<Row> = Vec::new();
    rows.push(field_row(draft, field, focused));
    let ghost a = text::views(rows@);
    assert(a =~= seq![field_cells(draft@, field@, focused)]);
    if WizardState::is_advisory(field) {
        push_row(
            &mut rows,
            aside_row(
                said(
                    "cli-swarm-tui-wizard-advisory",
                    "config only - set it with `zeroclaw config`",
                ),
                Tone::Muted,
            ),
        );
    }
    let ghost b = text::views(rows@);
    assert(b =~= a + (if !wizard::submission_key(field@.key) {
        seq![
            aside(
                entry(
                    "cli-swarm-tui-wizard-advisory"@,
                    "config only - set it with `zeroclaw config`"@,
                ),
                Tone::Muted,
            ),
        ]
    } else {
        Seq::empty()
    }));
    if !field.help.as_str().is_empty() {
        push_row(&mut rows, aside_row(words(field.help.as_str()), Tone::Muted));
    }
    let ghost c = text::views(rows@);
    assert(c =~= b + (if field@.help.len() > 0 {
        seq![aside(plain(field@.help), Tone::Muted)]
    } else {
        Seq::empty()
    }));
    if let Some(variants) = &field.enum_variants {
        if variants.len() > 0 {
            let choices = join(variants, ", ");
            let said_choices = ta_one(
                "cli-swarm-tui-wizard-choices",
                "choices",
                choices.as_str(),
                "choices",
            );
            push_row(&mut rows, aside_row(Words::Phrase(said_choices), Tone::Muted));
        }
    }
    let ghost d = text::views(rows@);
    assert(d =~= c + choice_rows_of(field@));
    let messages = draft.field_errors(field.key.as_str());
    let ghost all = text::views(messages@);
    let ghost body = error_rows_of(draft@, field@.key);
    let mut i: usize = 0;
    assert(text::views(rows@) =~= d + body.take(0));
    while i < messages.len()
        invariant
            i <= messages.len(),
            all == text::views(messages@),
            body.len() == all.len(),
            forall|j: int| 0 <= j < all.len() ==> body[j] == aside(plain(all[j]), Tone::Danger),
            text::views(rows@) == d + body.take(i as int),
        decreases messages.len() - i,
    {
        let message = messages[i];
        assert(message@ == all[i as int]);
        push_row(&mut rows, aside_row(words(message), Tone::Danger));
        assert(text::views(rows@) =~= d + body.take(i + 1));
        i += 1;
    }
    assert(body.take(i as int) =~= body);
    assert(text::views(rows@) =~= field_rows_of(draft@, field@, focused));
    rows
}

/// The rows of the first `n` fields that are shown.
pub open spec fn step_rows_of(draft: WizardView, n: int) -> Seq<RowView>
    decreases n,
{
    if n <= 0 {
        Seq::empty()
    } else {
        step_rows_of(draft, n - 1) + field_rows_of(
            draft,
            draft.shown()[n - 1],
            has_cursor(draft, draft.shown()[n - 1]),
        )
    }
}

/// The cursor is on the field.
pub open spec fn has_cursor(draft: WizardView, field: FieldView) -> bool {
    wizard::submission_key(field.key) && (draft.focused() matches Some(f) && f.key == field.key)
}

/// How many of the first `n` shown fields can be answered.
pub open spec fn answerable(draft: WizardView, n: int) -> nat
    decreases n,
{
    if n <= 0 {
        0
    } else {
        answerable(draft, n - 1) + if wizard::submission_key(draft.shown()[n - 1].key) {
            1nat
        } else {
            0
        }
    }
}

/// One step of the wizard.
#[derive(Debug, PartialEq, Eq)]
pub struct StepScreen {
    pub title: Row,
    pub help: Words,
    pub rows: Vec<Row>,
    pub footer: Row,
    pub hint: Row,
}

/// A step's screen as plain values.
#[verifier::ext_equal]
pub struct StepScreenView {
    pub title: RowView,
    pub help: WordsView,
    pub rows: Seq<RowView>,
    pub footer: RowView,
    pub hint: RowView,
}

impl View for StepScreen {
    type V = StepScreenView;

    open spec fn view(&self) -> StepScreenView {
        StepScreenView {
            title: self.title@,
            help: self.help@,
            rows: text::views(self.rows@),
            footer: self.footer@,
            hint: self.hint@,
        }
    }
}

/// The wizard's screen.
#[derive(Debug, PartialEq, Eq)]
pub enum WizardScreen {
    /// The steps are still in flight.
    Loading(Phrase),
    Step(StepScreen),
    /// There is no such step.
    Blank,
}

/// The wizard's screen as plain values.
#[verifier::ext_equal]
pub enum WizardScreenView {
    Loading(PhraseView),
    Step(StepScreenView),
    Blank,
}

impl View for WizardScreen {
    type V = WizardScreenView;

    open spec fn view(&self) -> WizardScreenView {
        match self {
            WizardScreen::Loading(p) => WizardScreenView::Loading(p@),
            WizardScreen::Step(s) => WizardScreenView::Step(s@),
            WizardScreen::Blank => WizardScreenView::Blank,
        }
    }
}

/// A step's title goes into the heading as text, or as the entry that it is.
pub open spec fn title_slot(title: WordsView) -> PhraseSlotView {
    PhraseSlotView {
        name: "title"@,
        value: match title {
            WordsView::Plain(s) => PhraseArgView::Text(s),
            WordsView::Phrase(p) => PhraseArgView::Entry { key: p.key, fallback: p.fallback },
        },
    }
}

/// The rows of the current step.
pub open spec fn step_body(draft: WizardView) -> Seq<RowView> {
    let n = draft.shown().len() as int;
    step_rows_of(draft, n) + if answerable(draft, n) == 0 {
        seq![
            row(
                toned(
                    entry(
                        "cli-swarm-tui-wizard-advisory-only"@,
                        "Nothing to answer here."@,
                    ),
                    Tone::Muted,
                ),
            ),
        ]
    } else {
        Seq::empty()
    }
}

/// The footer: a submission in flight, or the first rejection.
pub open spec fn step_footer(draft: WizardView) -> RowView {
    if draft.awaiting_submit {
        row(
            toned(
                entry("cli-swarm-tui-wizard-submitting"@, "Creating the swarm..."@),
                Tone::Muted,
            ),
        )
    } else if draft.errors.len() > 0 {
        row(
            toned(
                plain(draft.errors[0].field + ": "@ + draft.errors[0].message),
                Tone::Danger,
            ),
        )
    } else {
        row(toned(plain(""@), Tone::Plain))
    }
}

/// The screen of a draft.
pub open spec fn wizard_of(draft: Option<WizardView>) -> WizardScreenView {
    match draft {
        None => WizardScreenView::Loading(
            phrase::said(
                "cli-swarm-tui-wizard-loading"@,
                "Asking the daemon for the wizard steps..."@,
            ),
        ),
        Some(d) => if d.current < d.steps.len() {
            let step = d.steps[d.current as int];
            WizardScreenView::Step(
                StepScreenView {
                    title: row(
                        heading(
                            WordsView::Phrase(
                                phrase::said_with(
                                    "cli-swarm-tui-wizard-title"@,
                                    seq![
                                        phrase::slot("step"@, text::numeral(d.current + 1)),
                                        phrase::slot("total"@, text::numeral(d.steps.len())),
                                        title_slot(step.title),
                                    ],
                                    "New swarm"@,
                                ),
                            ),
                            Tone::Accent,
                        ),
                    ),
                    help: step.help,
                    rows: step_body(d),
                    footer: step_footer(d),
                    hint: row(
                        toned(
                            entry(
                                "cli-swarm-tui-keys-wizard"@,
                                "enter next - esc back - tab field - up/down choose - ctrl+c quit"@,
                            ),
                            Tone::Muted,
                        ),
                    ),
                },
            )
        } else {
            WizardScreenView::Blank
        },
    }
}

fn step_rows(draft: &WizardState) -> (r: Vec<Row>)
    ensures
        text::views(r@) == step_body(draft@),
{
    let fields = draft.visible_fields();
    let editable = draft.editable_fields();
    let ghost shown = draft@.shown();
    let at: usize = draft.field_index();
    let mut rows: Vec<Row> = Vec::new();
    let mut any = false;
    let mut i: usize = 0;
    assert(text::views(rows@) =~= step_rows_of(draft@, 0));
    while i < fields.len()
        invariant
            i <= fields.len(),
            shown == draft@.shown(),
            shown == text::views(fields@),
            text::views(editable@) == draft@.editable(),
            at == draft@.field,
            any == (answerable(draft@, i as int) > 0),
            text::views(rows@) == step_rows_of(draft@, i as int),
        decreases fields.len() - i,
    {
        let field = fields[i];
        assert(field@ == shown[i as int]);
        let advisory = WizardState::is_advisory(field);
        let mut focused = false;
        if !advisory && at < editable.len() {
            assert(draft@.editable()[at as int] == editable@[at as int]@);
            focused = text_eq(editable[at].key.as_str(), field.key.as_str());
        }
        assert(focused == has_cursor(draft@, shown[i as int]));
        let ghost before = text::views(rows@);
        let mut next = field_rows(draft, field, focused);
        let ghost added = text::views(next@);
        rows.append(&mut next);
        assert(text::views(rows@) =~= before + added);
        if !advisory {
            any = true;
        }
        i += 1;
    }
    if !any {
        push_row(
            &mut rows,
            toned_row(
                said("cli-swarm-tui-wizard-advisory-only", "Nothing to answer here."),
                Tone::Muted,
            ),
        );
    }
    assert(text::views(rows@) =~= step_body(draft@));
    rows
}

/// The screen of the draft, or of waiting for its steps.
pub fn draw_wizard(draft: Option<&WizardState>) -> (r: WizardScreen)
    ensures
        r@ == wizard_of(crate::store::ref_view(draft)),
{
    let draft = match draft {
        Some(draft) => draft,
        None => {
            return WizardScreen::Loading(
                t("cli-swarm-tui-wizard-loading", "Asking the daemon for the wizard steps..."),
            );
        },
    };
    let step = match draft.current_step() {
        Some(step) => step,
        None => {
            return WizardScreen::Blank;
        },
    };
    let count: usize = draft.steps().len();
    assert(count == draft@.steps.len());
    let at = decimal(draft.current_index() as u64 + 1);
    let total = decimal(count as u64);
    let mut slots: Vec<PhraseSlot> = Vec::new();
    slots.push(text_slot("step", at.as_str()));
    slots.push(text_slot("total", total.as_str()));
    slots.push(
        PhraseSlot {
            name: "title",
            value: match &step.title {
                Words::Plain(s) => PhraseArg::Text(s.clone()),
                Words::Phrase(p) => PhraseArg::Entry { key: p.key, fallback: p.fallback },
            },
        },
    );
    let ghost expected = seq![
        phrase::slot("step"@, text::numeral(draft@.current + 1)),
        phrase::slot("total"@, text::numeral(draft@.steps.len())),
        title_slot(step@.title),
    ];
    assert(slots@[2]@ == title_slot(step@.title));
    assert(text::views(slots@) =~= expected);
    let position = ta("cli-swarm-tui-wizard-title", slots, "New swarm");
    let footer = if draft.awaiting_submit() {
        toned_row(said("cli-swarm-tui-wizard-submitting", "Creating the swarm..."), Tone::Muted)
    } else if draft.errors().len() > 0 {
        let error = &draft.errors()[0];
        assert(error@ == draft@.errors[0]);
        let mut text = error.field.clone();
        text.append(": ");
        text.append(error.message.as_str());
        toned_row(Words::Plain(text), Tone::Danger)
    } else {
        toned_row(words(""), Tone::Plain)
    };
    assert(footer@ == step_footer(draft@));
    WizardScreen::Step(
        StepScreen {
            title: row_of(span_with(Words::Phrase(position), Tone::Accent, true, None)),
            help: step.help.duplicate(),
            rows: step_rows(draft),
            footer,
            hint: toned_row(
                said(
                    "cli-swarm-tui-keys-wizard",
                    "enter next - esc back - tab field - up/down choose - ctrl+c quit",
                ),
                Tone::Muted,
            ),
        },
    )
}

/// A secret that is asked for is never shown.
pub proof fn secrets_are_masked(draft: WizardView, field: FieldView)
    requires
        field.is_secret,
        wizard::submission_key(field.key),
    ensures
        shown_value(draft, field) == asterisks(draft.answer(field.key).len()),
{
}

// ── Degrade and overlays ────────────────────────────────────────────

/// What is shown of a daemon without swarms.
pub open spec fn unsupported_rows() -> Seq<RowView> {
    seq![
        row(
            heading(
                entry("cli-swarm-tui-unsupported-title"@, "This daemon has no swarms"@),
                Tone::Warn,
            ),
        ),
        row(toned(plain(""@), Tone::Plain)),
        row(
            toned(
                entry(
                    "cli-swarm-tui-unsupported-body"@,
                    "The daemon behind this socket was built before swarms existed."@,
                ),
                Tone::Plain,
            ),
        ),
        row(toned(plain(""@), Tone::Plain)),
        row(toned(entry("cli-swarm-tui-unsupported-keys"@, "any key to quit"@), Tone::Muted)),
    ]
}

/// What is shown of a daemon without swarms.
pub fn draw_unsupported() -> (r: Vec<Row>)
    ensures
        text::views(r@) == unsupported_rows(),
{
    let mut rows: Vec<Row> = Vec::new();
    rows.push(
        row_of(
            span_with(
                said("cli-swarm-tui-unsupported-title", "This daemon has no swarms"),
                Tone::Warn,
                true,
                None,
            ),
        ),
    );
    rows.push(toned_row(words(""), Tone::Plain));
    rows.push(
        toned_row(
            said(
                "cli-swarm-tui-unsupported-body",
                "The daemon behind this socket was built before swarms existed.",
            ),
            Tone::Plain,
        ),
    );
    rows.push(toned_row(words(""), Tone::Plain));
    rows.push(
        toned_row(said("cli-swarm-tui-unsupported-keys", "any key to quit"), Tone::Muted),
    );
    assert(text::views(rows@) =~= unsupported_rows());
    rows
}

/// An overlay.
#[derive(Debug, PartialEq, Eq)]
pub struct Overlay {
    pub body: Words,
    pub hint: Phrase,
    pub border: Tone,
}

/// An overlay as plain values.
#[verifier::ext_equal]
pub struct OverlayView {
    pub body: WordsView,
    pub hint: PhraseView,
    pub border: Tone,
}

impl View for Overlay {
    type V = OverlayView;

    open spec fn view(&self) -> OverlayView {
        OverlayView { body: self.body@, hint: self.hint@, border: self.border }
    }
}

/// What an overlay shows.
pub open spec fn overlay_of(modal: ModalView) -> Option<OverlayView> {
    match modal {
        ModalView::Closed => None,
        ModalView::ConfirmDelete { swarm_id, force } => Some(
            OverlayView {
                body: WordsView::Phrase(
                    if force {
                        phrase::said_with(
                            "cli-swarm-tui-confirm-delete-force"@,
                            seq![phrase::slot("swarm_id"@, swarm_id)],
                            "A live run holds this swarm. Delete anyway?"@,
                        )
                    } else {
                        phrase::said_with(
                            "cli-swarm-tui-confirm-delete"@,
                            seq![phrase::slot("swarm_id"@, swarm_id)],
                            "Delete this swarm?"@,
                        )
                    },
                ),
                hint: phrase::said("cli-swarm-tui-confirm-keys"@, "y delete - n cancel"@),
                border: if force {
                    Tone::Danger
                } else {
                    Tone::Warn
                },
            },
        ),
        ModalView::Error { message } => Some(
            OverlayView {
                body: plain(message),
                hint: phrase::said("cli-swarm-tui-error-keys"@, "any key to dismiss"@),
                border: Tone::Danger,
            },
        ),
    }
}

/// What an overlay shows.
pub fn draw_modal(modal: &Modal) -> (r: Option<Overlay>)
    ensures
        crate::duplicate::opt_view(r) == overlay_of(modal@),
{
    match modal {
        Modal::Closed => None,
        Modal::ConfirmDelete { swarm_id, force } => {
            let prompt = if *force {
                ta_one(
                    "cli-swarm-tui-confirm-delete-force",
                    "swarm_id",
                    swarm_id.as_str(),
                    "A live run holds this swarm. Delete anyway?",
                )
            } else {
                ta_one(
                    "cli-swarm-tui-confirm-delete",
                    "swarm_id",
                    swarm_id.as_str(),
                    "Delete this swarm?",
                )
            };
            Some(
                Overlay {
                    body: Words::Phrase(prompt),
                    hint: t("cli-swarm-tui-confirm-keys", "y delete - n cancel"),
                    border: if *force {
                        Tone::Danger
                    } else {
                        Tone::Warn
                    },
                },
            )
        },
        Modal::Error { message } => Some(
            Overlay {
                body: words(message.as_str()),
                hint: t("cli-swarm-tui-error-keys", "any key to dismiss"),
                border: Tone::Danger,
            },
        ),
    }
}

// ── Laws of what is shown ───────────────────────────────────────────

/// How a status is called and toned: each status has a name of its own, and only a running
/// swarm shows as good, a paused one as a warning and a stopped one as danger.
pub proof fn how_a_status_is_shown(status: SwarmStatus)
    ensures
        status_phrase(status).fallback == status.label(),
        status_phrase(status).slots.len() == 0,
        status_tone_of(status) == Tone::Good <==> status == SwarmStatus::Running,
        status_tone_of(status) == Tone::Warn <==> status is Paused,
        status_tone_of(status) == Tone::Danger <==> status == SwarmStatus::Stopped,
        !(status is Paused) ==> detail_phrase(status) == status_phrase(status),
{
}

/// How a box's status is called and toned: by its own label; only a working box shows as
/// good and only a blocked one as danger.
pub proof fn how_a_box_status_is_shown(status: BoxStatus)
    ensures
        box_status_words(status) matches WordsView::Phrase(p) && p.fallback == status.label(),
        box_tone_of(status) == Tone::Good <==> status == BoxStatus::Working,
        box_tone_of(status) == Tone::Danger <==> status == BoxStatus::Blocked,
        box_tone_of(status) == Tone::Accent <==> status == BoxStatus::Done,
        box_tone_of(status) == Tone::Muted <==> status == BoxStatus::Idle,
{
}

/// The budget bar tells what was spent of each axis and the ceiling of the same axis.
pub proof fn the_bar_tells_each_axis(spent: SwarmSpend, limits: SwarmBudgetLimits)
    ensures
        ({
            let slots = bar_phrase(spent, limits).slots;
            &&& slots.len() == 6
            &&& slots[0] == phrase::slot("turns"@, text::numeral(spent.turns as nat))
            &&& slots[1] == phrase::slot("max_turns"@, text::numeral(limits.max_turns as nat))
            &&& slots[2] == phrase::slot("tokens"@, text::numeral(spent.tokens as nat))
            &&& slots[3] == phrase::slot("max_tokens"@, text::numeral(limits.max_tokens as nat))
            &&& slots[4] == phrase::slot("cost"@, usd::cents_text(spent.cost_usd.micros as nat))
            &&& slots[5] == phrase::slot(
                "max_cost"@,
                usd::cents_text(limits.max_cost_usd.micros as nat),
            )
        }),
{
}

/// A row of the dashboard tells a swarm's name, how it stands, how many boxes it has, its
/// budget and when it was last written; the row past the last swarm is the one for a new
/// swarm; and the cursor is on the selected row alone.
pub proof fn what_a_dashboard_row_tells(app: AppView, index: nat)
    ensures
        list_row(app, index).selected <==> index == app.selected,
        index >= app.swarms.len() ==> list_row(app, index).spans.len() == 1 && (list_row(
            app,
            index,
        ).spans[0].pieces[0] matches WordsView::Phrase(p) && p.key == "cli-swarm-tui-new-row"@),
        index < app.swarms.len() ==> ({
            let swarm = app.swarms[index as int];
            let spans = list_row(app, index).spans;
            &&& spans.len() == 5
            &&& spans[0].pieces == seq![WordsView::Plain(swarm.spec.name)]
            &&& spans[1].pieces == seq![WordsView::Phrase(status_phrase(swarm.run.status))]
            &&& spans[2].pieces == seq![WordsView::Plain(text::numeral(swarm.spec.boxes.len()))]
            &&& spans[3].pieces == seq![budget_words(swarm.spec.budget)]
            &&& spans[4].pieces == seq![
                WordsView::Plain(
                    if swarm.updated_at.len() <= 19 {
                        swarm.updated_at
                    } else {
                        swarm.updated_at.take(19)
                    },
                ),
            ]
        }),
{
}

/// The dashboard shows as many rows as fit, one after the other, and says that it is working
/// while it waits for an answer, else what it was last told.
pub proof fn what_the_dashboard_shows(app: AppView, height: nat, i: int)
    requires
        height > 0,
        0 <= i < dashboard_of(app, height).rows.len(),
    ensures
        ({
            let screen = dashboard_of(app, height);
            let start = slice_of(app.selected, app.rows(), height).0;
            &&& screen.rows.len() == if app.rows() <= height {
                app.rows()
            } else {
                height
            }
            &&& screen.rows[i] == list_row(app, (start + i) as nat)
            &&& app.rows() <= height ==> start == 0
            &&& app.busy ==> (screen.status.spans[0].pieces[0] matches WordsView::Phrase(p)
                && p.key == "cli-swarm-tui-loading"@)
            &&& !app.busy ==> (app.status matches Some(said) ==> screen.status.spans[0].pieces[0]
                == WordsView::Phrase(said))
        }),
{
}

/// A line that is too long for its room shows its end: the last items, in order.
pub proof fn a_tail_is_the_end<T>(items: Seq<T>, room: nat, i: int)
    requires
        0 <= i < tail_of(items, room).len(),
    ensures
        items.len() <= room ==> tail_of(items, room) == items,
        items.len() > room ==> tail_of(items, room).len() == room && tail_of(items, room)[i]
            == items[items.len() - room + i],
{
}

/// A cell is of its box: titled with its id, it shows the role and the job of the box, or
/// what is being typed where the focus edits it, then the badge and the end of the stream.
pub proof fn a_cell_is_of_its_box(canvas: CanvasView, idx: nat, height: nat)
    requires
        idx < canvas.boxes.len(),
    ensures
        ({
            let cell = cell_of(canvas, idx, height);
            let b = canvas.boxes[idx as int];
            let role = cell.rows[0].spans[1].pieces[0];
            let job = cell.rows[1].spans[1].pieces[0];
            let edited = canvas.mode is Edit && canvas.focus == idx;
            &&& cell.title == " "@ + b.box_id + " "@
            &&& cell.rows.len() >= 3
            &&& !edited && b.role.len() > 0 ==> role == WordsView::Plain(b.role)
            &&& !edited && b.job.len() > 0 ==> job == WordsView::Plain(b.job)
            &&& !edited && b.role.len() == 0 ==> (role matches WordsView::Phrase(p) && p.key
                == "cli-swarm-tui-box-unassigned"@)
            &&& edited ==> (canvas.mode matches ModeView::Edit { line, role: r, job: j } && (r.len()
                > 0 || line == EditLine::Role ==> role == WordsView::Plain(r)) && (j.len() > 0
                || line == EditLine::Job ==> job == WordsView::Plain(j)))
            &&& canvas.badges.contains_key(b.box_id) ==> cell.rows[2] == badge_cells(
                Some(canvas.badges[b.box_id]),
            )
            &&& cell.border == Tone::Muted <==> canvas.focus != idx
            &&& canvas.focus == idx ==> (cell.border == Tone::Warn <==> canvas.mode
                == ModeView::Move)
            &&& height <= 3 ==> cell.rows.len() == 3
            &&& height > 3 ==> cell.rows.len() <= height || !canvas.streams.contains_key(b.box_id)
        }),
{
    let cell = cell_of(canvas, idx, height);
    let b = canvas.boxes[idx as int];
    let tail = stream_tail(
        if canvas.streams.contains_key(b.box_id) {
            Some(canvas.streams[b.box_id])
        } else {
            None
        },
        if height >= 3 {
            (height - 3) as nat
        } else {
            0
        },
    );
    assert(cell.rows.len() == 3 + tail.len());
}

/// A badge shows the status first, then the key that the box holds, whether the user has it,
/// and how full its context is, each only where there is something to show.
pub proof fn what_a_badge_shows(badge: BadgeView)
    ensures
        ({
            let spans = badge_cells(Some(badge)).spans;
            let held = if badge.claim is Some {
                1int
            } else {
                0int
            };
            let engaged = if badge.engaged {
                1int
            } else {
                0int
            };
            let counted = if badge.context is Some {
                1int
            } else {
                0int
            };
            &&& spans.len() == 1 + held + engaged + counted
            &&& spans[0].pieces == seq![box_status_words(badge.status)]
            &&& spans[0].tone == box_tone_of(badge.status)
            &&& badge.claim matches Some(key) ==> (spans[1].pieces[1] matches WordsView::Phrase(p)
                && p.slots == seq![phrase::slot("claim"@, key)])
            &&& badge.engaged ==> (spans[1 + held].pieces[1] matches WordsView::Phrase(p) && p.key
                == "cli-swarm-tui-badge-engaged"@)
            &&& badge.context matches Some((tokens, ceiling)) ==> (spans[1 + held
                + engaged].pieces[1] matches WordsView::Phrase(p) && p.slots[0] == phrase::slot(
                "tokens"@,
                text::numeral(tokens as nat),
            ) && p.slots[1] == phrase::slot(
                "ceiling"@,
                match ceiling {
                    Some(c) => text::numeral(c as nat),
                    None => "?"@,
                },
            ))
        }),
{
}

/// A stream shows a gap first where something was lost, then its lines in order and in the
/// tone of their kind, and last the line that is still open.
pub proof fn what_a_stream_shows(stream: StreamView, i: int)
    requires
        0 <= i < stream.lines.len(),
    ensures
        ({
            let rows = stream_rows_of(stream);
            let lead = if stream.gap {
                1int
            } else {
                0int
            };
            &&& rows[lead + i].spans[0].pieces == seq![stream.lines[i].text]
            &&& rows[lead + i].spans[0].tone == line_tone_of(stream.lines[i].kind)
            &&& stream.partial matches Some((kind, line)) ==> rows.len() == lead
                + stream.lines.len() + 1 && rows.last().spans[0].pieces[0] == WordsView::Plain(line)
                && rows.last().spans[0].tone == line_tone_of(kind)
            &&& stream.partial is None ==> rows.len() == lead + stream.lines.len()
            &&& stream.gap ==> (rows[0].spans[0].pieces[0] matches WordsView::Phrase(p) && p.key
                == "cli-swarm-tui-stream-gap"@)
        }),
{
}

/// The feed shows its latest notes, under a heading; and the prompt names the box that a
/// message goes to and what has been typed.
pub proof fn what_the_feed_and_the_prompt_show(canvas: CanvasView, room: nat, i: int)
    requires
        0 <= i < canvas.feed.len(),
        i < room,
    ensures
        ({
            let rows = feed_rows_of(canvas.feed, room);
            let n = if canvas.feed.len() <= room {
                canvas.feed.len()
            } else {
                room
            };
            &&& rows.len() == 1 + n
            &&& rows[rows.len() - 1 - i].spans[0].pieces == seq![
                WordsView::Phrase(canvas.feed[canvas.feed.len() - 1 - i]),
            ]
        }),
        chat_cells(canvas) is Some <==> canvas.mode is Chat,
        canvas.mode matches ModeView::Chat { buffer } ==> (chat_cells(canvas) matches Some(line)
            && line.spans[1].pieces[0] == WordsView::Plain(buffer) && (canvas.focus
            < canvas.boxes.len() ==> (line.spans[0].pieces[0] matches WordsView::Phrase(p)
            && p.slots == seq![
            phrase::slot("box"@, canvas.boxes[canvas.focus as int].box_id),
        ]))),
{
}

/// The frame of a canvas names the swarm, tells how it stands and what it has spent, and says
/// so where it has no boxes.
pub proof fn what_the_frame_tells(name: Seq<char>, canvas: CanvasView)
    ensures
        ({
            let frame = frame_of(name, canvas);
            &&& frame.title.spans[0].pieces == seq![WordsView::Plain(name + " "@)]
            &&& frame.title.spans[1].pieces == seq![
                WordsView::Phrase(detail_phrase(canvas.status)),
            ]
            &&& frame.budget.spans[0].pieces == seq![
                WordsView::Phrase(bar_phrase(canvas.spent, canvas.limits)),
            ]
            &&& frame.empty is Some <==> canvas.boxes.len() == 0
            &&& frame.input is Some <==> canvas.mode is Chat
        }),
{
}

/// A field shows its answer, a secret as so many asterisks, and one that is not answered here
/// as what it stands at; its errors follow in danger.
pub proof fn what_a_field_shows(draft: WizardView, field: FieldView, focused: bool)
    ensures
        ({
            let cells = field_cells(draft, field, focused);
            let answered = wizard::submission_key(field.key);
            &&& answered && !field.is_secret ==> cells.spans[1].pieces[0] == WordsView::Plain(
                draft.answer(field.key),
            )
            &&& answered && field.is_secret ==> (cells.spans[1].pieces[0] matches WordsView::Plain(
                shown,
            ) && shown.len() == draft.answer(field.key).len() && forall|i: int|
                0 <= i < shown.len() ==> #[trigger] shown[i] == '*')
            &&& !answered ==> (field.default matches Some(d) ==> cells.spans[1].pieces[0]
                == WordsView::Plain(d))
            &&& cells.spans[0].pieces[0] == WordsView::Plain(
                if focused {
                    "> "@
                } else {
                    "  "@
                },
            )
            &&& field_rows_of(draft, field, focused)[0] == cells
        }),
{
}

/// The wizard shows the step it is on and how many there are, the help of that step, and in
/// the footer that the draft is being sent, else its first error.
pub proof fn what_the_wizard_shows(draft: WizardView)
    requires
        draft.current < draft.steps.len(),
    ensures
        wizard_of(Some(draft)) matches WizardScreenView::Step(screen) && {
            &&& (screen.title.spans[0].pieces[0] matches WordsView::Phrase(p) && p.slots[0]
                == phrase::slot("step"@, text::numeral(draft.current + 1)) && p.slots[1]
                == phrase::slot("total"@, text::numeral(draft.steps.len())))
            &&& screen.help == draft.steps[draft.current as int].help
            &&& screen.rows == step_body(draft)
            &&& draft.awaiting_submit ==> (screen.footer.spans[0].pieces[0] matches
                WordsView::Phrase(p) && p.key == "cli-swarm-tui-wizard-submitting"@)
            &&& !draft.awaiting_submit && draft.errors.len() > 0 ==> screen.footer.spans[0].pieces
                == seq![
                WordsView::Plain(draft.errors[0].field + ": "@ + draft.errors[0].message),
            ]
        },
        wizard_of(None) is Loading,
{
}

/// An overlay asks about the very swarm it would delete, in other words and another tone once
/// the daemon has said that a run holds it; and an error shows its message.
pub proof fn what_an_overlay_shows(swarm_id: Seq<char>, force: bool, message: Seq<char>)
    ensures
        overlay_of(ModalView::Closed) is None,
        overlay_of(ModalView::ConfirmDelete { swarm_id, force }) matches Some(o) && (o.body matches
            WordsView::Phrase(p) && p.slots == seq![phrase::slot("swarm_id"@, swarm_id)] && p.key
            == if force {
            "cli-swarm-tui-confirm-delete-force"@
        } else {
            "cli-swarm-tui-confirm-delete"@
        }) && o.border == if force {
            Tone::Danger
        } else {
            Tone::Warn
        },
        overlay_of(ModalView::Error { message }) matches Some(o) && o.body == WordsView::Plain(
            message,
        ) && o.border == Tone::Danger,
{
}

/// The screen of a swarm goes by the name of that swarm where the list has it, else by its
/// id; and by what is on the canvas.
pub proof fn a_screen_is_of_its_swarm(app: AppView, swarm_id: Seq<char>, k: int)
    requires
        0 <= k < app.swarms.len(),
        app.swarms[k].spec.id == swarm_id,
        forall|i: int| 0 <= i < k ==> (#[trigger] app.swarms[i]).spec.id != swarm_id,
    ensures
        screen_name(app, swarm_id) == app.swarms[k].spec.name,
        app.canvas matches Some(canvas) ==> swarm_screen(app, swarm_id) == SwarmScreenView::Canvas(
            frame_of(app.swarms[k].spec.name, canvas),
        ),
        app.canvas is None ==> swarm_screen(app, swarm_id) is Missing,
{
    let ids = state::ids_of(app.swarms);
    assert forall|i: int| 0 <= i < k implies ids[i] != swarm_id by {
        assert(app.swarms[i].spec.id != swarm_id);
    }
    text::first_index_at(ids, swarm_id, k);
}

} // verus!
