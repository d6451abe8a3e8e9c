//! One box's activity, coalesced into whole lines.

use std::collections::VecDeque;

use vstd::prelude::*;

use super::phrase;
use super::phrase::{t, ta_one, Phrase, PhraseView, Words, WordsView};
use super::wire::{SessionUpdateEvent, TurnCompletionOutcome, TurnEventView};
use crate::text;
use crate::text::{chars_of, decimal};

verus! {

/// Scrollback of a box. Beyond this the oldest lines are evicted and the cell flags a
/// gap, so that a dropped tail is visible rather than silent.
pub const STREAM_CAP: usize = 200;

/// Ceiling on one coalesced line, so that a stream without a newline cannot grow it
/// without bound.
pub const MAX_LINE_CHARS: usize = 2000;

/// What a coalesced line is, so that it can be tinted.
#[derive(Debug, Clone, Copy, PartialEq, Eq, Structural)]
pub enum LineKind {
    /// Model output.
    Message,
    /// Model reasoning.
    Thought,
    /// A tool call or result.
    Tool,
    /// Chrome: turn completion, a plan, a trim marker, a gap.
    System,
}

/// One line of a box's scrollback.
#[derive(Debug, PartialEq, Eq)]
pub struct StreamLine {
    pub kind: LineKind,
    pub text: Words,
}

/// A line as plain values.
#[verifier::ext_equal]
pub struct LineView {
    pub kind: LineKind,
    pub text: WordsView,
}

impl View for StreamLine {
    type V = LineView;

    open spec fn view(&self) -> LineView {
        LineView { kind: self.kind, text: self.text@ }
    }
}

/// One box's coalesced activity. Chunks accrete into the tail line until a newline or
/// a different event flushes it.
#[derive(Debug)]
pub struct BoxStream {
    lines: VecDeque<StreamLine>,
    /// The tail line still accreting chunks: its kind and text so far.
    partial: Option<(LineKind, String)>,
    /// Content was evicted that was never shown.
    gap: bool,
}

/// A box's activity as plain values.
#[verifier::ext_equal]
pub struct StreamView {
    pub lines: Seq<LineView>,
    pub partial: Option<(LineKind, Seq<char>)>,
    pub gap: bool,
}

/// The view of a tail line.
pub open spec fn partial_view(partial: Option<(LineKind, String)>) -> Option<
    (LineKind, Seq<char>),
> {
    match partial {
        Some((kind, text)) => Some((kind, text@)),
        None => None,
    }
}

impl View for BoxStream {
    type V = StreamView;

    closed spec fn view(&self) -> StreamView {
        StreamView {
            lines: text::views(self.lines@),
            partial: partial_view(self.partial),
            gap: self.gap,
        }
    }
}

/// What a line says of a turn that ended.
pub open spec fn turn_line(outcome: TurnCompletionOutcome) -> PhraseView {
    phrase::said(
        match outcome {
            TurnCompletionOutcome::Completed => "cli-swarm-tui-line-turn-done"@,
            TurnCompletionOutcome::Cancelled => "cli-swarm-tui-line-turn-cancelled"@,
            TurnCompletionOutcome::Failed => "cli-swarm-tui-line-turn-failed"@,
        },
        "turn complete"@,
    )
}

impl StreamView {
    /// Nothing yet.
    pub open spec fn silent() -> StreamView {
        StreamView { lines: Seq::empty(), partial: None, gap: false }
    }

    /// With one more line; past the cap the oldest one goes.
    pub open spec fn pushed(self, kind: LineKind, text: WordsView) -> StreamView {
        let line = LineView { kind, text };
        if self.lines.len() >= STREAM_CAP {
            StreamView { lines: self.lines.drop_first().push(line), gap: true, ..self }
        } else {
            StreamView { lines: self.lines.push(line), ..self }
        }
    }

    /// With the tail committed as a finished line.
    pub open spec fn flushed(self) -> StreamView {
        let rest = StreamView { partial: None, ..self };
        match self.partial {
            Some((kind, text)) => if text.len() > 0 {
                rest.pushed(kind, WordsView::Plain(text))
            } else {
                rest
            },
            None => rest,
        }
    }

    /// After the first `n` characters of a chunk: whole lines break off at newlines,
    /// and an overlong line is cut. With it, the line that is still open.
    pub open spec fn taking(
        self,
        kind: LineKind,
        open_line: Seq<char>,
        chunk: Seq<char>,
        n: int,
    ) -> (StreamView, Seq<char>)
        decreases n,
    {
        if n <= 0 {
            (self, open_line)
        } else {
            let (stream, line) = self.taking(kind, open_line, chunk, n - 1);
            let c = chunk[n - 1];
            if c == '\n' {
                (stream.pushed(kind, WordsView::Plain(line)), Seq::empty())
            } else if line.len() < MAX_LINE_CHARS {
                (stream, line.push(c))
            } else {
                (stream, line)
            }
        }
    }

    /// With a chunk folded in. A tail of a different kind is flushed first, so that a
    /// thought never merges into a message.
    pub open spec fn appended(self, kind: LineKind, chunk: Seq<char>) -> StreamView {
        let ready = match self.partial {
            Some((k, _)) => if k == kind {
                self
            } else {
                self.flushed()
            },
            None => self,
        };
        let open_line = match ready.partial {
            Some((_, line)) => line,
            None => Seq::empty(),
        };
        let (stream, line) = StreamView { partial: None, ..ready }.taking(
            kind,
            open_line,
            chunk,
            chunk.len() as int,
        );
        if line.len() > 0 {
            StreamView { partial: Some((kind, line)), ..stream }
        } else {
            stream
        }
    }

    /// With one phrase on a line of its own.
    pub open spec fn noted(self, kind: LineKind, phrase: PhraseView) -> StreamView {
        self.flushed().pushed(kind, WordsView::Phrase(phrase))
    }

    /// After one step of the box's turn.
    pub open spec fn applied(self, event: TurnEventView) -> StreamView {
        match event {
            TurnEventView::MessageChunk(text) => self.appended(LineKind::Message, text),
            TurnEventView::ThoughtChunk(text) => self.appended(LineKind::Thought, text),
            TurnEventView::ToolCall(name) => self.noted(
                LineKind::Tool,
                phrase::said_with(
                    "cli-swarm-tui-line-tool"@,
                    seq![phrase::slot("tool"@, name)],
                    "tool"@,
                ),
            ),
            TurnEventView::ToolResult(name) => self.noted(
                LineKind::Tool,
                phrase::said_with(
                    "cli-swarm-tui-line-tool-result"@,
                    seq![phrase::slot("tool"@, name)],
                    "tool done"@,
                ),
            ),
            TurnEventView::ApprovalRequest(tool) => self.noted(
                LineKind::System,
                phrase::said_with(
                    "cli-swarm-tui-line-approval"@,
                    seq![phrase::slot("tool"@, tool)],
                    "approval"@,
                ),
            ),
            TurnEventView::Plan(count) => self.noted(
                LineKind::System,
                phrase::said_with(
                    "cli-swarm-tui-line-plan"@,
                    seq![phrase::slot("count"@, text::numeral(count))],
                    "plan"@,
                ),
            ),
            TurnEventView::TurnComplete(outcome) => self.noted(
                LineKind::System,
                turn_line(outcome),
            ),
            TurnEventView::HistoryTrimmed => self.noted(
                LineKind::System,
                phrase::said("cli-swarm-tui-line-trimmed"@, "context trimmed"@),
            ),
            // Context usage feeds the badge, not the scrollback.
            TurnEventView::ContextUsage { .. } => self,
        }
    }
}

impl Default for BoxStream {
    fn default() -> (r: Self)
        ensures
            r@ == StreamView::silent(),
    {
        BoxStream::new()
    }
}

impl BoxStream {
    /// A stream that nothing has come through.
    pub fn new() -> (r: Self)
        ensures
            r@ == StreamView::silent(),
    {
        let r = BoxStream { lines: VecDeque::new(), partial: None, gap: false };
        assert(r@.lines =~= Seq::empty());
        r
    }

    /// Takes one step of the box's turn.
    pub fn apply(&mut self, event: &SessionUpdateEvent)
        ensures
            final(self)@ == old(self)@.applied(event@),
    {
        match event {
            SessionUpdateEvent::AgentMessageChunk { session_id: _, text } => {
                self.append_chunk(LineKind::Message, text.as_str());
            },
            SessionUpdateEvent::AgentThoughtChunk { session_id: _, text } => {
                self.append_chunk(LineKind::Thought, text.as_str());
            },
            SessionUpdateEvent::ToolCall { session_id: _, tool_call_id: _, name } => {
                self.note(
                    LineKind::Tool,
                    ta_one("cli-swarm-tui-line-tool", "tool", name.as_str(), "tool"),
                );
            },
            SessionUpdateEvent::ToolResult { session_id: _, tool_call_id: _, name } => {
                self.note(
                    LineKind::Tool,
                    ta_one("cli-swarm-tui-line-tool-result", "tool", name.as_str(), "tool done"),
                );
            },
            SessionUpdateEvent::ApprovalRequest { session_id: _, tool_name } => {
                self.note(
                    LineKind::System,
                    ta_one("cli-swarm-tui-line-approval", "tool", tool_name.as_str(), "approval"),
                );
            },
            SessionUpdateEvent::Plan { session_id: _, entries } => {
                let count = decimal(entries.len() as u64);
                self.note(
                    LineKind::System,
                    ta_one("cli-swarm-tui-line-plan", "count", count.as_str(), "plan"),
                );
            },
            SessionUpdateEvent::TurnComplete { session_id: _, outcome } => {
                let key = match outcome {
                    TurnCompletionOutcome::Completed => "cli-swarm-tui-line-turn-done",
                    TurnCompletionOutcome::Cancelled => "cli-swarm-tui-line-turn-cancelled",
                    TurnCompletionOutcome::Failed => "cli-swarm-tui-line-turn-failed",
                };
                self.note(LineKind::System, t(key, "turn complete"));
            },
            SessionUpdateEvent::HistoryTrimmed { session_id: _ } => {
                self.note(
                    LineKind::System,
                    t("cli-swarm-tui-line-trimmed", "context trimmed"),
                );
            },
            SessionUpdateEvent::ContextUsage { .. } => {},
        }
    }

    fn note(&mut self, kind: LineKind, phrase: Phrase)
        ensures
            final(self)@ == old(self)@.noted(kind, phrase@),
    {
        self.flush_partial();
        self.push(kind, Words::Phrase(phrase));
    }

    /// Fold a chunk into the tail, breaking off whole lines at newlines.
    pub fn append_chunk(&mut self, kind: LineKind, text: &str)
        ensures
            final(self)@ == old(self)@.appended(kind, text@),
    {
        let other = match &self.partial {
            Some((current, _)) => *current != kind,
            None => false,
        };
        if other {
            self.flush_partial();
        }
        let ghost ready = self@;
        let mut buffer = match self.partial.take() {
            Some((_, line)) => line,
            None => String::new(),
        };
        let ghost start = self@;
        let ghost open_line = buffer@;
        let ghost chunk = text@;
        let chars = chars_of(text);
        let mut i: usize = 0;
        while i < chars.len()
            invariant
                i <= chars.len(),
                chars@ == chunk,
                (self@, buffer@) == start.taking(kind, open_line, chunk, i as int),
            decreases chars.len() - i,
        {
            let c: char = chars[i];
            if c == '\n' {
                let line = buffer;
                buffer = String::new();
                self.push(kind, Words::Plain(line));
            } else if buffer.as_str().unicode_len() < MAX_LINE_CHARS {
                buffer.push(c);
            }
            i += 1;
        }
        proof {
            taking_keeps_no_partial(start, kind, open_line, chunk, chunk.len() as int);
        }
        if !buffer.as_str().is_empty() {
            self.partial = Some((kind, buffer));
        }
    }

    /// Commit the tail as a finished line.
    fn flush_partial(&mut self)
        ensures
            final(self)@ == old(self)@.flushed(),
    {
        if let Some((kind, text)) = self.partial.take() {
            if !text.as_str().is_empty() {
                self.push(kind, Words::Plain(text));
            }
        }
    }

    fn push(&mut self, kind: LineKind, text: Words)
        ensures
            final(self)@ == old(self)@.pushed(kind, text@),
    {
        let ghost before = self@.lines;
        if self.lines.len() >= STREAM_CAP {
            let _ = self.lines.pop_front();
            self.gap = true;
            assert(self@.lines =~= before.drop_first());
        }
        let ghost kept = self@.lines;
        self.lines.push_back(StreamLine { kind, text });
        assert(self@.lines =~= kept.push(LineView { kind, text: text@ }));
    }

    /// The finished lines, oldest first.
    pub fn lines(&self) -> (r: &VecDeque<StreamLine>)
        ensures
            text::views(r@) == self@.lines,
    {
        &self.lines
    }

    /// The tail line still accreting, if any.
    pub fn partial(&self) -> (r: Option<(LineKind, &str)>)
        ensures
            match r {
                Some((kind, line)) => self@.partial == Some((kind, line@)),
                None => self@.partial is None,
            },
    {
        match &self.partial {
            Some((kind, line)) => Some((*kind, line.as_str())),
            None => None,
        }
    }

    /// Lines were dropped that were never shown.
    pub fn has_gap(&self) -> (r: bool)
        ensures
            r == self@.gap,
    {
        self.gap
    }

    /// Nothing has come through.
    pub fn is_empty(&self) -> (r: bool)
        ensures
            r == (self@.lines.len() == 0 && self@.partial is None),
    {
        self.lines.len() == 0 && self.partial.is_none()
    }
}

proof fn taking_keeps_no_partial(
    stream: StreamView,
    kind: LineKind,
    open_line: Seq<char>,
    chunk: Seq<char>,
    n: int,
)
    ensures
        stream.taking(kind, open_line, chunk, n).0.partial == stream.partial,
    decreases n,
{
    if n > 0 {
        taking_keeps_no_partial(stream, kind, open_line, chunk, n - 1);
    }
}

// ── Laws ────────────────────────────────────────────────────────────

/// One line of text: no newline, and no longer than a line may be.
pub open spec fn one_line(text: Seq<char>) -> bool {
    text.len() <= MAX_LINE_CHARS && !text.contains('\n')
}

impl StreamView {
    /// The scrollback is within its cap, and what chunks made of it, finished or still
    /// accreting, is cut into lines.
    pub open spec fn bounded(self) -> bool {
        &&& self.lines.len() <= STREAM_CAP
        &&& forall|i: int|
            0 <= i < self.lines.len() ==> ((#[trigger] self.lines[i]).text matches WordsView::Plain(
                text,
            ) ==> one_line(text))
        &&& self.partial matches Some((_, line)) ==> line.len() > 0 && one_line(line)
    }
}

proof fn pushing_stays_bounded(stream: StreamView, kind: LineKind, text: WordsView)
    requires
        stream.bounded(),
        text matches WordsView::Plain(line) ==> one_line(line),
    ensures
        stream.pushed(kind, text).bounded(),
{
    let after = stream.pushed(kind, text);
    assert forall|i: int| 0 <= i < after.lines.len() implies ((
    #[trigger] after.lines[i]).text matches WordsView::Plain(t) ==> one_line(t)) by {
        if i < after.lines.len() - 1 {
            if stream.lines.len() >= STREAM_CAP {
                assert(after.lines[i] == stream.lines[i + 1]);
            } else {
                assert(after.lines[i] == stream.lines[i]);
            }
        }
    }
}

proof fn taking_stays_bounded(
    stream: StreamView,
    kind: LineKind,
    open_line: Seq<char>,
    chunk: Seq<char>,
    n: int,
)
    requires
        stream.bounded(),
        one_line(open_line),
    ensures
        stream.taking(kind, open_line, chunk, n).0.bounded(),
        one_line(stream.taking(kind, open_line, chunk, n).1),
    decreases n,
{
    if n > 0 {
        taking_stays_bounded(stream, kind, open_line, chunk, n - 1);
        let (before, line) = stream.taking(kind, open_line, chunk, n - 1);
        let c = chunk[n - 1];
        if c == '\n' {
            pushing_stays_bounded(before, kind, WordsView::Plain(line));
        } else if line.len() < MAX_LINE_CHARS {
            let longer = line.push(c);
            assert forall|i: int| 0 <= i < longer.len() implies longer[i] != '\n' by {
                if i < line.len() {
                    assert(line.contains(line[i]));
                }
            }
        }
    }
}

proof fn flushing_stays_bounded(stream: StreamView)
    requires
        stream.bounded(),
    ensures
        stream.flushed().bounded(),
{
    let rest = StreamView { partial: None, ..stream };
    if let Some((kind, text)) = stream.partial {
        pushing_stays_bounded(rest, kind, WordsView::Plain(text));
    }
}

/// Whatever comes through, a stream stays within its bounds: the scrollback is capped,
/// and no line that chunks made, finished or still accreting, holds a newline or is
/// longer than a line may be.
pub proof fn streams_stay_bounded(stream: StreamView, event: TurnEventView)
    requires
        stream.bounded(),
    ensures
        StreamView::silent().bounded(),
        stream.applied(event).bounded(),
{
    match event {
        TurnEventView::MessageChunk(text) => chunks_stay_bounded(stream, LineKind::Message, text),
        TurnEventView::ThoughtChunk(text) => chunks_stay_bounded(stream, LineKind::Thought, text),
        TurnEventView::ContextUsage { .. } => {},
        _ => {
            flushing_stays_bounded(stream);
            let line = stream.applied(event).lines.last();
            pushing_stays_bounded(stream.flushed(), line.kind, line.text);
        },
    }
}

proof fn chunks_stay_bounded(stream: StreamView, kind: LineKind, chunk: Seq<char>)
    requires
        stream.bounded(),
    ensures
        stream.appended(kind, chunk).bounded(),
{
    flushing_stays_bounded(stream);
    let ready = match stream.partial {
        Some((k, _)) => if k == kind {
            stream
        } else {
            stream.flushed()
        },
        None => stream,
    };
    let open_line = match ready.partial {
        Some((_, line)) => line,
        None => Seq::empty(),
    };
    let start = StreamView { partial: None, ..ready };
    assert(start.bounded());
    taking_stays_bounded(start, kind, open_line, chunk, chunk.len() as int);
}

/// A line that is evicted is never lost in silence: the gap is flagged, and stays so.
pub proof fn an_eviction_is_visible(stream: StreamView, kind: LineKind, text: WordsView)
    ensures
        stream.lines.len() >= STREAM_CAP ==> stream.pushed(kind, text).gap,
        stream.gap ==> stream.pushed(kind, text).gap,
        stream.pushed(kind, text).lines.last() == (LineView { kind, text }),
{
}

proof fn taking_joins(
    stream: StreamView,
    kind: LineKind,
    open_line: Seq<char>,
    a: Seq<char>,
    b: Seq<char>,
    n: int,
)
    requires
        0 <= n <= b.len(),
    ensures
        ({
            let (after, line) = stream.taking(kind, open_line, a, a.len() as int);
            stream.taking(kind, open_line, a + b, a.len() + n) == after.taking(kind, line, b, n)
        }),
    decreases n,
{
    if n > 0 {
        taking_joins(stream, kind, open_line, a, b, n - 1);
        assert((a + b)[a.len() + n - 1] == b[n - 1]);
    } else {
        taking_prefix(stream, kind, open_line, a, b, a.len() as int);
    }
}

proof fn taking_prefix(
    stream: StreamView,
    kind: LineKind,
    open_line: Seq<char>,
    a: Seq<char>,
    b: Seq<char>,
    n: int,
)
    requires
        n <= a.len(),
    ensures
        stream.taking(kind, open_line, a + b, n) == stream.taking(kind, open_line, a, n),
    decreases n,
{
    if n > 0 {
        taking_prefix(stream, kind, open_line, a, b, n - 1);
        assert((a + b)[n - 1] == a[n - 1]);
    }
}

/// Chunks of one kind coalesce: how the text was cut up shows neither in the finished
/// lines, nor in the tail, nor in the gap; and no line that they make, finished or still
/// accreting, holds a newline or is longer than a line may be.
pub proof fn chunks_coalesce(stream: StreamView, kind: LineKind, a: Seq<char>, b: Seq<char>)
    requires
        stream.bounded(),
    ensures
        stream.appended(kind, a).appended(kind, b) == stream.appended(kind, a + b),
        stream.appended(kind, a).appended(kind, b).bounded(),
{
    appending_joins(stream, kind, a, b);
    chunks_stay_bounded(stream, kind, a + b);
}

/// Steps of one kind coalesce as their chunks do, whatever the stream.
pub proof fn steps_coalesce(stream: StreamView, a: Seq<char>, b: Seq<char>)
    ensures
        stream.applied(TurnEventView::MessageChunk(a)).applied(TurnEventView::MessageChunk(b))
            == stream.applied(TurnEventView::MessageChunk(a + b)),
        stream.applied(TurnEventView::ThoughtChunk(a)).applied(TurnEventView::ThoughtChunk(b))
            == stream.applied(TurnEventView::ThoughtChunk(a + b)),
{
    appending_joins(stream, LineKind::Message, a, b);
    appending_joins(stream, LineKind::Thought, a, b);
}

proof fn appending_joins(stream: StreamView, kind: LineKind, a: Seq<char>, b: Seq<char>)
    ensures
        stream.appended(kind, a).appended(kind, b) == stream.appended(kind, a + b),
{
    let ready = match stream.partial {
        Some((k, _)) => if k == kind {
            stream
        } else {
            stream.flushed()
        },
        None => stream,
    };
    let open_line = match ready.partial {
        Some((_, line)) => line,
        None => Seq::empty(),
    };
    let start = StreamView { partial: None, ..ready };
    taking_joins(start, kind, open_line, a, b, b.len() as int);
    taking_keeps_no_partial(start, kind, open_line, a, a.len() as int);
    let (after, line) = start.taking(kind, open_line, a, a.len() as int);
    assert((StreamView { partial: None, ..stream.appended(kind, a) }) == after);
    if line.len() == 0 {
        assert(line =~= Seq::empty());
    }
}

/// The last lines of a history that the scrollback has room for.
pub open spec fn latest(history: Seq<LineView>) -> Seq<LineView> {
    if history.len() > STREAM_CAP {
        history.skip(history.len() - STREAM_CAP)
    } else {
        history
    }
}

/// The line that a tail becomes when it is committed; none for an empty one.
pub open spec fn committed(partial: Option<(LineKind, Seq<char>)>) -> Seq<LineView> {
    match partial {
        Some((kind, text)) => if text.len() > 0 {
            seq![LineView { kind, text: WordsView::Plain(text) }]
        } else {
            Seq::empty()
        },
        None => Seq::empty(),
    }
}

/// The lines that the first `n` characters of a chunk finish, and the line that is still
/// open.
pub open spec fn broken_off(kind: LineKind, open_line: Seq<char>, chunk: Seq<char>, n: int) -> (
    Seq<LineView>,
    Seq<char>,
)
    decreases n,
{
    if n <= 0 {
        (Seq::empty(), open_line)
    } else {
        let (lines, line) = broken_off(kind, open_line, chunk, n - 1);
        let c = chunk[n - 1];
        if c == '\n' {
            (lines.push(LineView { kind, text: WordsView::Plain(line) }), Seq::empty())
        } else if line.len() < MAX_LINE_CHARS {
            (lines, line.push(c))
        } else {
            (lines, line)
        }
    }
}

impl StreamView {
    /// The lines that a chunk finishes, a tail of another kind first.
    pub open spec fn finished_by(self, kind: LineKind, chunk: Seq<char>) -> Seq<LineView> {
        match self.partial {
            Some((k, line)) => if k == kind {
                broken_off(kind, line, chunk, chunk.len() as int).0
            } else {
                committed(self.partial) + broken_off(
                    kind,
                    Seq::empty(),
                    chunk,
                    chunk.len() as int,
                ).0
            },
            None => broken_off(kind, Seq::empty(), chunk, chunk.len() as int).0,
        }
    }

    /// The scrollback is the latest of `history`, and a gap is flagged exactly where some
    /// of it had to go.
    pub open spec fn shows(self, history: Seq<LineView>) -> bool {
        &&& self.lines == latest(history)
        &&& self.gap == (history.len() > STREAM_CAP)
    }
}

proof fn pushing_shows(
    stream: StreamView,
    history: Seq<LineView>,
    kind: LineKind,
    text: WordsView,
)
    requires
        stream.shows(history),
    ensures
        stream.pushed(kind, text).shows(history.push(LineView { kind, text })),
{
    let line = LineView { kind, text };
    assert(stream.pushed(kind, text).lines =~= latest(history.push(line)));
}

proof fn flushing_shows(stream: StreamView, history: Seq<LineView>)
    requires
        stream.shows(history),
    ensures
        stream.flushed().shows(history + committed(stream.partial)),
{
    let rest = StreamView { partial: None, ..stream };
    assert(history + Seq::<LineView>::empty() =~= history);
    if let Some((kind, text)) = stream.partial {
        if text.len() > 0 {
            pushing_shows(rest, history, kind, WordsView::Plain(text));
            assert(history + committed(stream.partial) =~= history.push(
                LineView { kind, text: WordsView::Plain(text) },
            ));
        }
    }
}

proof fn taking_shows(
    stream: StreamView,
    history: Seq<LineView>,
    kind: LineKind,
    open_line: Seq<char>,
    chunk: Seq<char>,
    n: int,
)
    requires
        stream.shows(history),
    ensures
        stream.taking(kind, open_line, chunk, n).0.shows(
            history + broken_off(kind, open_line, chunk, n).0,
        ),
        stream.taking(kind, open_line, chunk, n).1 == broken_off(kind, open_line, chunk, n).1,
    decreases n,
{
    if n > 0 {
        taking_shows(stream, history, kind, open_line, chunk, n - 1);
        let (lines, line) = broken_off(kind, open_line, chunk, n - 1);
        let before = stream.taking(kind, open_line, chunk, n - 1).0;
        if chunk[n - 1] == '\n' {
            pushing_shows(before, history + lines, kind, WordsView::Plain(line));
            let last = LineView { kind, text: WordsView::Plain(line) };
            assert((history + lines).push(last) =~= history + lines.push(last));
        }
    } else {
        assert(history + Seq::<LineView>::empty() =~= history);
    }
}

/// The scrollback is the latest of everything that was finished, in order, and the gap
/// is flagged exactly where more was finished than it has room for: a chunk adds the
/// lines that it finishes, and a phrase adds the tail it commits and a line of its own.
pub proof fn the_scrollback_is_the_latest_history(
    stream: StreamView,
    history: Seq<LineView>,
    kind: LineKind,
    chunk: Seq<char>,
    phrase: PhraseView,
)
    requires
        stream.shows(history),
    ensures
        StreamView::silent().shows(Seq::empty()),
        stream.appended(kind, chunk).shows(history + stream.finished_by(kind, chunk)),
        stream.noted(kind, phrase).shows(
            (history + committed(stream.partial)).push(
                LineView { kind, text: WordsView::Phrase(phrase) },
            ),
        ),
{
    flushing_shows(stream, history);
    let settled = history + committed(stream.partial);
    pushing_shows(stream.flushed(), settled, kind, WordsView::Phrase(phrase));
    let n = chunk.len() as int;
    match stream.partial {
        Some((k, line)) => if k == kind {
            taking_shows(StreamView { partial: None, ..stream }, history, kind, line, chunk, n);
        } else {
            taking_shows(stream.flushed(), settled, kind, Seq::empty(), chunk, n);
            assert(settled + broken_off(kind, Seq::empty(), chunk, n).0 =~= history
                + stream.finished_by(kind, chunk));
        },
        None => {
            taking_shows(stream, history, kind, Seq::empty(), chunk, n);
        },
    }
}

/// What one character does to a stream: it joins the open line of its kind while that has
/// fewer than two thousand characters, a line break ends the line as it stands, and a
/// character of another kind ends the open line first.
pub proof fn what_one_character_does(stream: StreamView, kind: LineKind, c: char)
    requires
        c != '\n',
    ensures
        ({
            let after = stream.appended(kind, seq![c]);
            let broken = stream.appended(kind, seq!['\n']);
            &&& stream.partial is None ==> after.partial == Some((kind, seq![c])) && after.lines
                == stream.lines
            &&& stream.partial matches Some((k, line)) ==> {
                &&& k == kind && line.len() < 2000 ==> after.partial == Some((kind, line.push(c)))
                    && after.lines == stream.lines
                &&& k == kind && line.len() >= 2000 ==> after.partial == Some((kind, line))
                    && after.lines == stream.lines
                &&& k == kind ==> broken.partial is None && broken.lines.last() == (LineView {
                    kind,
                    text: WordsView::Plain(line),
                })
                &&& k != kind && line.len() > 0 ==> after.partial == Some((kind, seq![c]))
                    && after.lines.last() == (LineView { kind: k, text: WordsView::Plain(line) })
                &&& k == kind && stream.lines.len() < 200 ==> broken.lines.len()
                    == stream.lines.len() + 1
            }
        }),
{
    let empty = Seq::<char>::empty();
    let chunk = seq![c];
    let brk = seq!['\n'];
    reveal_with_fuel(StreamView::taking, 2);
    assert(chunk[0] == c && brk[0] == '\n');
    assert(empty.push(c) =~= seq![c]);
}

/// What each event leaves as the last line: a tool call and its result name the tool, a
/// request for approval too, a plan its number of entries, the end of a turn how it ended;
/// and context usage leaves the stream as it is.
pub proof fn what_each_event_leaves(
    stream: StreamView,
    name: Seq<char>,
    count: nat,
    outcome: TurnCompletionOutcome,
    tokens: Option<u64>,
    ceiling: Option<u64>,
)
    ensures
        ({
            let line = stream.applied(TurnEventView::ToolCall(name)).lines.last();
            &&& line.kind == LineKind::Tool
            &&& (line.text matches WordsView::Phrase(p) && p.key == "cli-swarm-tui-line-tool"@
                && p.slots == seq![phrase::slot("tool"@, name)])
        }),
        ({
            let line = stream.applied(TurnEventView::ToolResult(name)).lines.last();
            &&& line.kind == LineKind::Tool
            &&& (line.text matches WordsView::Phrase(p) && p.key
                == "cli-swarm-tui-line-tool-result"@ && p.slots == seq![phrase::slot("tool"@, name)])
        }),
        ({
            let line = stream.applied(TurnEventView::ApprovalRequest(name)).lines.last();
            &&& line.kind == LineKind::System
            &&& (line.text matches WordsView::Phrase(p) && p.key == "cli-swarm-tui-line-approval"@
                && p.slots == seq![phrase::slot("tool"@, name)])
        }),
        ({
            let line = stream.applied(TurnEventView::Plan(count)).lines.last();
            &&& line.kind == LineKind::System
            &&& (line.text matches WordsView::Phrase(p) && p.key == "cli-swarm-tui-line-plan"@
                && p.slots == seq![phrase::slot("count"@, text::numeral(count))])
        }),
        ({
            let line = stream.applied(TurnEventView::TurnComplete(outcome)).lines.last();
            &&& line.kind == LineKind::System
            &&& (line.text matches WordsView::Phrase(p) && p.key == if outcome
                == TurnCompletionOutcome::Completed {
                "cli-swarm-tui-line-turn-done"@
            } else if outcome == TurnCompletionOutcome::Cancelled {
                "cli-swarm-tui-line-turn-cancelled"@
            } else {
                "cli-swarm-tui-line-turn-failed"@
            })
        }),
        stream.applied(TurnEventView::MessageChunk(name)) == stream.appended(
            LineKind::Message,
            name,
        ),
        stream.applied(TurnEventView::ThoughtChunk(name)) == stream.appended(
            LineKind::Thought,
            name,
        ),
        stream.applied(
            TurnEventView::ContextUsage { input_tokens: tokens, max_context_tokens: ceiling },
        ) == stream,
        stream.applied(TurnEventView::ToolCall(name)).partial is None,
{
}

/// The scrollback keeps two hundred lines: a new one joins the end, and pushes the oldest out
/// only where there are that many.
pub proof fn the_scrollback_keeps_two_hundred(stream: StreamView, kind: LineKind, text: WordsView)
    ensures
        stream.lines.len() < 200 ==> stream.pushed(kind, text).lines == stream.lines.push(
            LineView { kind, text },
        ) && stream.pushed(kind, text).gap == stream.gap,
        stream.lines.len() >= 200 ==> stream.pushed(kind, text).lines
            == stream.lines.drop_first().push(LineView { kind, text }),
        stream.pushed(kind, text).partial == stream.partial,
{
}

} // verus!
