//! In-memory coordination board for running swarms.
//!
//! One entry per swarm holds every box's published state plus the live task
//! claims, so a claim is a real compare-and-set: exactly one box wins a contested
//! key and the losers are told who holds it.

use vstd::prelude::*;

use crate::duplicate;
use crate::duplicate::{duplicate_opt, Duplicate};
use crate::strmap::StrMap;
use crate::text;
use crate::text::{decimal, find_control, quote, quote_char, text_eq, trim};

verus! {

/// Change-feed capacity per swarm. Slow subscribers lag rather than block.
pub const BROADCAST_CAPACITY: usize = 128;

/// Maximum number of boards held at once, so a leaked registration cannot
/// grow the map without bound.
pub const MAX_BOARDS: usize = 64;

/// Maximum live claims one swarm may hold. Claims are model-driven, so the
/// ceiling is what keeps a looping box from exhausting memory.
pub const MAX_CLAIMS_PER_SWARM: usize = 512;

/// Maximum length of a published note, in bytes.
pub const MAX_NOTE_LEN: usize = 2048;

/// Maximum length of a task key, in bytes.
pub const MAX_TASK_KEY_LEN: usize = 256;

// ── Box states ──────────────────────────────────────────────────────

/// What a box says it is doing. A closed set: an unparseable status is
/// rejected rather than recorded as free text.
#[derive(Debug, Clone, Copy, PartialEq, Eq, Structural)]
pub enum BoxStatus {
    /// Registered, nothing in flight.
    Idle,
    /// Working its claim or its job.
    Working,
    /// Stuck and waiting on something.
    Blocked,
    /// Finished its job.
    Done,
}

impl Default for BoxStatus {
    fn default() -> (r: Self)
        ensures
            r == BoxStatus::Idle,
    {
        BoxStatus::Idle
    }
}

impl BoxStatus {
    /// The label of a status.
    pub open spec fn label(self) -> Seq<char> {
        match self {
            BoxStatus::Idle => "idle"@,
            BoxStatus::Working => "working"@,
            BoxStatus::Blocked => "blocked"@,
            BoxStatus::Done => "done"@,
        }
    }

    /// Stable wire label.
    pub fn as_str(self) -> (r: &'static str)
        ensures
            r@ == self.label(),
    {
        match self {
            BoxStatus::Idle => "idle",
            BoxStatus::Working => "working",
            BoxStatus::Blocked => "blocked",
            BoxStatus::Done => "done",
        }
    }

    /// The inverse of [`Self::as_str`]; `None` for anything else.
    pub fn parse(value: &str) -> (r: Option<BoxStatus>)
        ensures
            match r {
                Some(s) => s.label() == value@,
                None => forall|s: BoxStatus| #[trigger] s.label() != value@,
            },
    {
        if text_eq(value, "idle") {
            Some(BoxStatus::Idle)
        } else if text_eq(value, "working") {
            Some(BoxStatus::Working)
        } else if text_eq(value, "blocked") {
            Some(BoxStatus::Blocked)
        } else if text_eq(value, "done") {
            Some(BoxStatus::Done)
        } else {
            None
        }
    }

    /// Every accepted label, for schemas and error text.
    pub fn all() -> (r: [&'static str; 4])
        ensures
            r@[0]@ == "idle"@,
            r@[1]@ == "working"@,
            r@[2]@ == "blocked"@,
            r@[3]@ == "done"@,
    {
        ["idle", "working", "blocked", "done"]
    }
}

/// The labels of the statuses are all different, so parsing undoes labelling.
pub proof fn status_labels_differ(a: BoxStatus, b: BoxStatus)
    ensures
        a.label() == b.label() ==> a == b,
{
    reveal_strlit("idle");
    reveal_strlit("working");
    reveal_strlit("blocked");
    reveal_strlit("done");
    assert("idle"@[0] == 'i' && "done"@[0] == 'd');
    assert("working"@[0] == 'w' && "blocked"@[0] == 'b');
}

/// One box's published state.
#[derive(Debug, PartialEq, Eq)]
pub struct BoxState {
    pub status: BoxStatus,
    /// The task key this box currently holds, if any.
    pub claim: Option<String>,
    pub note: String,
}

/// A box's published state as plain values.
#[verifier::ext_equal]
pub struct BoxStateView {
    pub status: BoxStatus,
    pub claim: Option<Seq<char>>,
    pub note: Seq<char>,
}

impl View for BoxState {
    type V = BoxStateView;

    open spec fn view(&self) -> BoxStateView {
        BoxStateView {
            status: self.status,
            claim: duplicate::opt_view(self.claim),
            note: self.note@,
        }
    }
}

/// The state every box starts in.
pub open spec fn idle_state() -> BoxStateView {
    BoxStateView { status: BoxStatus::Idle, claim: None, note: Seq::empty() }
}

impl Default for BoxState {
    fn default() -> (r: Self)
        ensures
            r@ == idle_state(),
    {
        BoxState { status: BoxStatus::Idle, claim: None, note: String::new() }
    }
}

impl Duplicate for BoxState {
    fn duplicate(&self) -> (r: Self) {
        BoxState {
            status: self.status,
            claim: duplicate_opt(&self.claim),
            note: self.note.clone(),
        }
    }
}

impl Clone for BoxState {
    fn clone(&self) -> (r: Self)
        ensures
            r@ == self@,
    {
        self.duplicate()
    }
}

// ── Events and outcomes ─────────────────────────────────────────────

/// A change to a board, fanned out to its subscribers.
#[derive(Debug, PartialEq, Eq)]
pub enum BoardEvent {
    Published { box_id: String, state: BoxState },
    Claimed { box_id: String, task_key: String },
    Released { box_id: String, task_key: String },
    /// The board was torn down; no further events follow.
    Reaped,
}

/// A board change as plain values.
#[verifier::ext_equal]
pub enum BoardEventView {
    Published { box_id: Seq<char>, state: BoxStateView },
    Claimed { box_id: Seq<char>, task_key: Seq<char> },
    Released { box_id: Seq<char>, task_key: Seq<char> },
    Reaped,
}

impl View for BoardEvent {
    type V = BoardEventView;

    open spec fn view(&self) -> BoardEventView {
        match self {
            BoardEvent::Published { box_id, state } => BoardEventView::Published {
                box_id: box_id@,
                state: state@,
            },
            BoardEvent::Claimed { box_id, task_key } => BoardEventView::Claimed {
                box_id: box_id@,
                task_key: task_key@,
            },
            BoardEvent::Released { box_id, task_key } => BoardEventView::Released {
                box_id: box_id@,
                task_key: task_key@,
            },
            BoardEvent::Reaped => BoardEventView::Reaped,
        }
    }
}

/// A change and the swarm whose board it happened on.
#[derive(Debug, PartialEq, Eq)]
pub struct FeedEntry {
    pub swarm_id: String,
    pub event: BoardEvent,
}

/// A feed entry as plain values.
#[verifier::ext_equal]
pub struct FeedEntryView {
    pub swarm_id: Seq<char>,
    pub event: BoardEventView,
}

impl View for FeedEntry {
    type V = FeedEntryView;

    open spec fn view(&self) -> FeedEntryView {
        FeedEntryView { swarm_id: self.swarm_id@, event: self.event@ }
    }
}

/// Result of a compare-and-set claim.
#[derive(Debug, PartialEq, Eq)]
pub enum ClaimOutcome {
    /// The caller holds the key (a re-claim by the current holder is granted
    /// again rather than treated as contention).
    Granted,
    /// Someone else holds it; `holder` is the box that won.
    Held { holder: String },
}

/// A claim's outcome as plain values.
#[verifier::ext_equal]
pub enum ClaimOutcomeView {
    Granted,
    Held { holder: Seq<char> },
}

impl View for ClaimOutcome {
    type V = ClaimOutcomeView;

    open spec fn view(&self) -> ClaimOutcomeView {
        match self {
            ClaimOutcome::Granted => ClaimOutcomeView::Granted,
            ClaimOutcome::Held { holder } => ClaimOutcomeView::Held { holder: holder@ },
        }
    }
}

/// Result of releasing a claim.
#[derive(Debug, PartialEq, Eq)]
pub enum ReleaseOutcome {
    Released,
    /// Refused: the key is held by another box. Releasing is not a steal.
    NotHolder { holder: String },
    /// Nobody held the key.
    Unclaimed,
}

/// A release's outcome as plain values.
#[verifier::ext_equal]
pub enum ReleaseOutcomeView {
    Released,
    NotHolder { holder: Seq<char> },
    Unclaimed,
}

impl View for ReleaseOutcome {
    type V = ReleaseOutcomeView;

    open spec fn view(&self) -> ReleaseOutcomeView {
        match self {
            ReleaseOutcome::Released => ReleaseOutcomeView::Released,
            ReleaseOutcome::NotHolder { holder } => ReleaseOutcomeView::NotHolder {
                holder: holder@,
            },
            ReleaseOutcome::Unclaimed => ReleaseOutcomeView::Unclaimed,
        }
    }
}

/// Why a board operation was refused.
#[derive(Debug, PartialEq, Eq)]
pub enum BoardError {
    UnknownSwarm { swarm_id: String },
    UnknownBox { swarm_id: String, box_id: String },
    BoardLimit,
    ClaimLimit { swarm_id: String },
    NoteTooLong { len: usize },
    TaskKey { reason: String },
}

/// A refusal as plain values.
#[verifier::ext_equal]
pub enum BoardErrorView {
    UnknownSwarm { swarm_id: Seq<char> },
    UnknownBox { swarm_id: Seq<char>, box_id: Seq<char> },
    BoardLimit,
    ClaimLimit { swarm_id: Seq<char> },
    NoteTooLong { len: usize },
    TaskKey { reason: Seq<char> },
}

impl View for BoardError {
    type V = BoardErrorView;

    open spec fn view(&self) -> BoardErrorView {
        match self {
            BoardError::UnknownSwarm { swarm_id } => BoardErrorView::UnknownSwarm {
                swarm_id: swarm_id@,
            },
            BoardError::UnknownBox { swarm_id, box_id } => BoardErrorView::UnknownBox {
                swarm_id: swarm_id@,
                box_id: box_id@,
            },
            BoardError::BoardLimit => BoardErrorView::BoardLimit,
            BoardError::ClaimLimit { swarm_id } => BoardErrorView::ClaimLimit {
                swarm_id: swarm_id@,
            },
            BoardError::NoteTooLong { len } => BoardErrorView::NoteTooLong { len: *len },
            BoardError::TaskKey { reason } => BoardErrorView::TaskKey { reason: reason@ },
        }
    }
}

impl BoardErrorView {
    /// What the refusal says.
    pub open spec fn text(self) -> Seq<char> {
        match self {
            BoardErrorView::UnknownSwarm { swarm_id } => {
                "no board registered for swarm "@ + text::quoted(swarm_id)
            },
            BoardErrorView::UnknownBox { swarm_id, box_id } => {
                "box "@ + text::quoted(box_id) + " is not on swarm "@ + text::quoted(swarm_id)
                    + "'s board"@
            },
            BoardErrorView::BoardLimit => {
                "cannot register another swarm board: the limit of "@ + text::numeral(
                    MAX_BOARDS as nat,
                ) + " is reached"@
            },
            BoardErrorView::ClaimLimit { swarm_id } => {
                "swarm "@ + text::quoted(swarm_id) + " already holds the maximum of "@
                    + text::numeral(MAX_CLAIMS_PER_SWARM as nat) + " claims"@
            },
            BoardErrorView::NoteTooLong { len } => {
                "note is "@ + text::numeral(len as nat) + " bytes; the maximum is "@
                    + text::numeral(MAX_NOTE_LEN as nat)
            },
            BoardErrorView::TaskKey { reason } => "task key is invalid: "@ + reason,
        }
    }
}

impl BoardError {
    /// What the refusal says.
    pub fn message(&self) -> (r: String)
        ensures
            r@ == self@.text(),
    {
        match self {
            BoardError::UnknownSwarm { swarm_id } => {
                "no board registered for swarm ".to_owned().concat(quote(swarm_id.as_str()).as_str())
            },
            BoardError::UnknownBox { swarm_id, box_id } => {
                let mut out = "box ".to_owned();
                out.append(quote(box_id.as_str()).as_str());
                out.append(" is not on swarm ");
                out.append(quote(swarm_id.as_str()).as_str());
                out.append("'s board");
                out
            },
            BoardError::BoardLimit => {
                let mut out = "cannot register another swarm board: the limit of ".to_owned();
                out.append(decimal(MAX_BOARDS as u64).as_str());
                out.append(" is reached");
                out
            },
            BoardError::ClaimLimit { swarm_id } => {
                let mut out = "swarm ".to_owned();
                out.append(quote(swarm_id.as_str()).as_str());
                out.append(" already holds the maximum of ");
                out.append(decimal(MAX_CLAIMS_PER_SWARM as u64).as_str());
                out.append(" claims");
                out
            },
            BoardError::NoteTooLong { len } => {
                let mut out = "note is ".to_owned();
                out.append(decimal(*len as u64).as_str());
                out.append(" bytes; the maximum is ");
                out.append(decimal(MAX_NOTE_LEN as u64).as_str());
                out
            },
            BoardError::TaskKey { reason } => {
                "task key is invalid: ".to_owned().concat(reason.as_str())
            },
        }
    }
}

// ── Task keys ───────────────────────────────────────────────────────

/// What is wrong with a task key, if anything is.
pub open spec fn task_key_problem(key: Seq<char>) -> Option<Seq<char>> {
    if text::trimmed(key).len() == 0 {
        Some("must not be empty"@)
    } else if text::byte_len(key) > MAX_TASK_KEY_LEN {
        Some(
            text::numeral(text::byte_len(key) as nat) + " bytes exceeds the maximum of "@
                + text::numeral(MAX_TASK_KEY_LEN as nat),
        )
    } else {
        match text::first_control(key) {
            Some(c) => Some("contains the control character "@ + text::quoted_char(c)),
            None => None,
        }
    }
}

/// Refuses a task key that is blank, too long, or holds a control character.
pub fn validate_task_key(task_key: &str) -> (r: Result<(), BoardError>)
    ensures
        match task_key_problem(task_key@) {
            Some(reason) => r matches Err(e) && e@ == (BoardErrorView::TaskKey { reason }),
            None => r is Ok,
        },
{
    if trim(task_key).is_empty() {
        return Err(BoardError::TaskKey { reason: "must not be empty".to_owned() });
    }
    let len: usize = task_key.len();
    if len > MAX_TASK_KEY_LEN {
        let mut reason = decimal(len as u64);
        reason.append(" bytes exceeds the maximum of ");
        reason.append(decimal(MAX_TASK_KEY_LEN as u64).as_str());
        return Err(BoardError::TaskKey { reason });
    }
    if let Some(ch) = find_control(task_key) {
        let mut reason = "contains the control character ".to_owned();
        reason.append(quote_char(ch).as_str());
        return Err(BoardError::TaskKey { reason });
    }
    Ok(())
}

// ── Boards ──────────────────────────────────────────────────────────

/// The persistable view of a board.
#[derive(Debug, PartialEq, Eq)]
pub struct BoardSnapshot {
    /// `box_id` to published state.
    pub boxes: StrMap<BoxState>,
    /// `task_key` to holding `box_id`.
    pub claims: StrMap<String>,
}

/// A board as plain values.
#[verifier::ext_equal]
pub struct BoardView {
    pub boxes: Map<Seq<char>, BoxStateView>,
    pub claims: Map<Seq<char>, Seq<char>>,
}

impl View for BoardSnapshot {
    type V = BoardView;

    open spec fn view(&self) -> BoardView {
        BoardView { boxes: self.boxes@, claims: self.claims@ }
    }
}

impl Default for BoardSnapshot {
    fn default() -> (r: Self)
        ensures
            r@ == (BoardView { boxes: Map::empty(), claims: Map::empty() }),
    {
        BoardSnapshot { boxes: StrMap::new(), claims: StrMap::new() }
    }
}

impl Duplicate for BoardSnapshot {
    fn duplicate(&self) -> (r: Self) {
        BoardSnapshot { boxes: self.boxes.duplicate(), claims: self.claims.duplicate() }
    }
}

impl Clone for BoardSnapshot {
    fn clone(&self) -> (r: Self)
        ensures
            r@ == self@,
    {
        self.duplicate()
    }
}

impl BoardView {
    /// A board on which the named boxes are idle and nothing is claimed.
    pub open spec fn fresh(ids: Seq<Seq<char>>) -> BoardView {
        BoardView {
            boxes: Map::new(|id: Seq<char>| ids.contains(id), |id: Seq<char>| idle_state()),
            claims: Map::empty(),
        }
    }

    /// What a box's state becomes when it publishes.
    pub open spec fn published_state(
        self,
        box_id: Seq<char>,
        status: BoxStatus,
        note: Seq<char>,
    ) -> BoxStateView {
        BoxStateView { status, note, ..self.boxes[box_id] }
    }

    /// After a box has published.
    pub open spec fn published(self, box_id: Seq<char>, status: BoxStatus, note: Seq<char>) -> BoardView {
        BoardView {
            boxes: self.boxes.insert(box_id, self.published_state(box_id, status, note)),
            ..self
        }
    }

    /// After a box has won a free key.
    pub open spec fn claimed(self, box_id: Seq<char>, key: Seq<char>) -> BoardView {
        BoardView {
            boxes: self.boxes.insert(
                box_id,
                BoxStateView { claim: Some(key), ..self.boxes[box_id] },
            ),
            claims: self.claims.insert(key, box_id),
        }
    }

    /// After the holder of a key has released it.
    pub open spec fn released(self, box_id: Seq<char>, key: Seq<char>) -> BoardView {
        BoardView {
            boxes: if self.boxes[box_id].claim == Some(key) {
                self.boxes.insert(box_id, BoxStateView { claim: None, ..self.boxes[box_id] })
            } else {
                self.boxes
            },
            claims: self.claims.remove(key),
        }
    }

    /// Every claim is on a usable key and held by a box of the board, a box shows only a
    /// key that it holds and no overlong note, and there are no more claims than the limit.
    pub open spec fn consistent(self) -> bool {
        &&& self.claims.dom().finite()
        &&& self.claims.len() <= MAX_CLAIMS_PER_SWARM
        &&& forall|k: Seq<char>| #[trigger]
            self.claims.contains_key(k) ==> task_key_problem(k) is None && self.boxes.contains_key(
                self.claims[k],
            )
        &&& forall|b: Seq<char>| #[trigger]
            self.boxes.contains_key(b) ==> text::byte_len(self.boxes[b].note) <= MAX_NOTE_LEN && (
            match self.boxes[b].claim {
                Some(k) => self.claims.contains_key(k) && self.claims[k] == b,
                None => true,
            })
    }
}

/// All boards, and the changes not yet handed to subscribers.
#[verifier::ext_equal]
pub struct BoardsView {
    pub boards: Map<Seq<char>, BoardView>,
    pub feed: Seq<FeedEntryView>,
}

impl BoardsView {
    /// After the board of `swarm_id` became `board` through `event`.
    pub open spec fn changed(
        self,
        swarm_id: Seq<char>,
        board: BoardView,
        event: BoardEventView,
    ) -> BoardsView {
        BoardsView {
            boards: self.boards.insert(swarm_id, board),
            feed: self.feed.push(FeedEntryView { swarm_id, event }),
        }
    }

    /// Why `box_id` may not act on the board of `swarm_id`, if it may not.
    pub open spec fn access_refusal(
        self,
        swarm_id: Seq<char>,
        box_id: Seq<char>,
    ) -> Option<BoardErrorView> {
        if !self.boards.contains_key(swarm_id) {
            Some(BoardErrorView::UnknownSwarm { swarm_id })
        } else if !self.boards[swarm_id].boxes.contains_key(box_id) {
            Some(BoardErrorView::UnknownBox { swarm_id, box_id })
        } else {
            None
        }
    }

    /// Why a registration is refused, if it is.
    pub open spec fn register_refusal(self, swarm_id: Seq<char>) -> Option<BoardErrorView> {
        if !self.boards.contains_key(swarm_id) && self.boards.len() >= MAX_BOARDS {
            Some(BoardErrorView::BoardLimit)
        } else {
            None
        }
    }

    /// Why a publication is refused, if it is.
    pub open spec fn publish_refusal(
        self,
        swarm_id: Seq<char>,
        box_id: Seq<char>,
        note: Seq<char>,
    ) -> Option<BoardErrorView> {
        if text::byte_len(note) > MAX_NOTE_LEN {
            Some(BoardErrorView::NoteTooLong { len: text::byte_len(note) })
        } else {
            self.access_refusal(swarm_id, box_id)
        }
    }

    /// The boards after a publication.
    pub open spec fn after_publish(
        self,
        swarm_id: Seq<char>,
        box_id: Seq<char>,
        status: BoxStatus,
        note: Seq<char>,
    ) -> BoardsView {
        match self.publish_refusal(swarm_id, box_id, note) {
            Some(_) => self,
            None => {
                let board = self.boards[swarm_id];
                self.changed(
                    swarm_id,
                    board.published(box_id, status, note),
                    BoardEventView::Published {
                        box_id,
                        state: board.published_state(box_id, status, note),
                    },
                )
            },
        }
    }

    /// What a claim comes to: a refusal, or an outcome.
    pub open spec fn claim_result(
        self,
        swarm_id: Seq<char>,
        box_id: Seq<char>,
        key: Seq<char>,
    ) -> Result<ClaimOutcomeView, BoardErrorView> {
        let board = self.boards[swarm_id];
        match (task_key_problem(key), self.access_refusal(swarm_id, box_id)) {
            (Some(reason), _) => Err(BoardErrorView::TaskKey { reason }),
            (None, Some(e)) => Err(e),
            (None, None) => if board.claims.contains_key(key) {
                if board.claims[key] == box_id {
                    Ok(ClaimOutcomeView::Granted)
                } else {
                    Ok(ClaimOutcomeView::Held { holder: board.claims[key] })
                }
            } else if board.claims.len() >= MAX_CLAIMS_PER_SWARM {
                Err(BoardErrorView::ClaimLimit { swarm_id })
            } else {
                Ok(ClaimOutcomeView::Granted)
            },
        }
    }

    /// The boards after a claim: only a key that was free and is granted changes
    /// anything.
    pub open spec fn after_claim(
        self,
        swarm_id: Seq<char>,
        box_id: Seq<char>,
        key: Seq<char>,
    ) -> BoardsView {
        if self.claim_result(swarm_id, box_id, key) == Ok::<ClaimOutcomeView, BoardErrorView>(
            ClaimOutcomeView::Granted,
        ) && !self.boards[swarm_id].claims.contains_key(key) {
            self.changed(
                swarm_id,
                self.boards[swarm_id].claimed(box_id, key),
                BoardEventView::Claimed { box_id, task_key: key },
            )
        } else {
            self
        }
    }

    /// What a release comes to: a refusal, or an outcome.
    pub open spec fn release_result(
        self,
        swarm_id: Seq<char>,
        box_id: Seq<char>,
        key: Seq<char>,
    ) -> Result<ReleaseOutcomeView, BoardErrorView> {
        let board = self.boards[swarm_id];
        match (task_key_problem(key), self.access_refusal(swarm_id, box_id)) {
            (Some(reason), _) => Err(BoardErrorView::TaskKey { reason }),
            (None, Some(e)) => Err(e),
            (None, None) => if !board.claims.contains_key(key) {
                Ok(ReleaseOutcomeView::Unclaimed)
            } else if board.claims[key] != box_id {
                Ok(ReleaseOutcomeView::NotHolder { holder: board.claims[key] })
            } else {
                Ok(ReleaseOutcomeView::Released)
            },
        }
    }

    /// The boards after a release.
    pub open spec fn after_release(
        self,
        swarm_id: Seq<char>,
        box_id: Seq<char>,
        key: Seq<char>,
    ) -> BoardsView {
        if self.release_result(swarm_id, box_id, key) == Ok::<ReleaseOutcomeView, BoardErrorView>(
            ReleaseOutcomeView::Released,
        ) {
            self.changed(
                swarm_id,
                self.boards[swarm_id].released(box_id, key),
                BoardEventView::Released { box_id, task_key: key },
            )
        } else {
            self
        }
    }

    /// Every board is consistent and there are no more boards than the limit.
    pub open spec fn consistent(self) -> bool {
        &&& self.boards.dom().finite()
        &&& self.boards.len() <= MAX_BOARDS
        &&& forall|id: Seq<char>| #[trigger]
            self.boards.contains_key(id) ==> self.boards[id].consistent()
    }
}

/// Per-swarm coordination state.
pub struct SwarmStateBoard {
    boards: StrMap<BoardSnapshot>,
    feed: Vec<FeedEntry>,
}

impl View for SwarmStateBoard {
    type V = BoardsView;

    closed spec fn view(&self) -> BoardsView {
        BoardsView { boards: self.boards@, feed: text::views(self.feed@) }
    }
}

impl SwarmStateBoard {
    /// No boards.
    pub fn new() -> (r: Self)
        ensures
            r@ == (BoardsView { boards: Map::empty(), feed: Seq::empty() }),
    {
        let r = SwarmStateBoard { boards: StrMap::new(), feed: Vec::new() };
        assert(r@.feed =~= Seq::<FeedEntryView>::empty());
        r
    }

    fn emit(&mut self, swarm_id: &str, event: BoardEvent)
        ensures
            final(self)@.boards == old(self)@.boards,
            final(self)@.feed == old(self)@.feed.push(
                FeedEntryView { swarm_id: swarm_id@, event: event@ },
            ),
    {
        self.feed.push(FeedEntry { swarm_id: swarm_id.to_owned(), event });
        assert(self@.feed =~= old(self)@.feed.push(
            FeedEntryView { swarm_id: swarm_id@, event: event@ },
        ));
    }

    /// Register (or re-register, on resume) a swarm's boxes. Every named box
    /// starts idle and unclaimed; nothing outside this roster can ever publish
    /// or claim.
    pub fn register(&mut self, swarm_id: &str, box_ids: Vec<String>) -> (r: Result<(), BoardError>)
        ensures
            match old(self)@.register_refusal(swarm_id@) {
                Some(e) => r matches Err(x) && x@ == e && final(self)@ == old(self)@,
                None => r is Ok && final(self)@ == (BoardsView {
                    boards: old(self)@.boards.insert(
                        swarm_id@,
                        BoardView::fresh(text::views(box_ids@)),
                    ),
                    ..old(self)@
                }),
            },
    {
        if !self.boards.contains_key(swarm_id) && self.boards.len() >= MAX_BOARDS {
            return Err(BoardError::BoardLimit);
        }
        let ghost ids = text::views(box_ids@);
        let mut boxes: StrMap<BoxState> = StrMap::new();
        let mut i: usize = 0;
        while i < box_ids.len()
            invariant
                i <= box_ids.len(),
                ids == text::views(box_ids@),
                forall|id: Seq<char>| #[trigger]
                    boxes@.contains_key(id) <==> ids.take(i as int).contains(id),
                forall|id: Seq<char>| #[trigger]
                    boxes@.contains_key(id) ==> boxes@[id] == idle_state(),
            decreases box_ids.len() - i,
        {
            boxes.insert(box_ids[i].clone(), BoxState::default());
            assert(ids.take(i + 1) =~= ids.take(i as int).push(ids[i as int]));
            assert forall|id: Seq<char>| #[trigger]
                boxes@.contains_key(id) <==> ids.take(i + 1).contains(id) by {
                let a = ids.take(i as int);
                let b = ids.take(i + 1);
                if a.contains(id) {
                    let k = choose|k: int| 0 <= k < a.len() && a[k] == id;
                    assert(b[k] == id);
                }
                if b.contains(id) {
                    let k = choose|k: int| 0 <= k < b.len() && b[k] == id;
                    if k < i {
                        assert(a[k] == id);
                    }
                }
                if id == ids[i as int] {
                    assert(b[i as int] == id);
                }
            }
            i += 1;
        }
        assert(ids.take(i as int) =~= ids);
        assert(boxes@ =~= BoardView::fresh(ids).boxes);
        self.boards.insert(swarm_id.to_owned(), BoardSnapshot { boxes, claims: StrMap::new() });
        assert(self@.feed =~= old(self)@.feed);
        Ok(())
    }

    /// Record what a box is doing.
    pub fn publish(&mut self, swarm_id: &str, box_id: &str, status: BoxStatus, note: &str) -> (r:
        Result<BoxState, BoardError>)
        ensures
            match old(self)@.publish_refusal(swarm_id@, box_id@, note@) {
                Some(e) => r matches Err(x) && x@ == e,
                None => r matches Ok(s) && s@ == old(self)@.boards[swarm_id@].published_state(
                    box_id@,
                    status,
                    note@,
                ),
            },
            final(self)@ == old(self)@.after_publish(swarm_id@, box_id@, status, note@),
            r matches Ok(s) ==> {
                let before = old(self)@.boards[swarm_id@].boxes[box_id@];
                let shown = final(self)@.boards[swarm_id@].boxes[box_id@];
                &&& s.status == status && s.note@ == note@ && s@.claim == before.claim
                &&& shown.status == status && shown.note == note@ && shown.claim == before.claim
            },
            r is Err ==> final(self)@ == old(self)@,
    {
        let len: usize = note.len();
        if len > MAX_NOTE_LEN {
            return Err(BoardError::NoteTooLong { len });
        }
        let state = match self.boards.get(swarm_id) {
            None => {
                return Err(BoardError::UnknownSwarm { swarm_id: swarm_id.to_owned() });
            },
            Some(board) => match board.boxes.get(box_id) {
                None => {
                    return Err(
                        BoardError::UnknownBox {
                            swarm_id: swarm_id.to_owned(),
                            box_id: box_id.to_owned(),
                        },
                    );
                },
                Some(held) => BoxState {
                    status,
                    claim: duplicate_opt(&held.claim),
                    note: note.to_owned(),
                },
            },
        };
        if let Some(mut board) = self.boards.remove(swarm_id) {
            board.boxes.insert(box_id.to_owned(), state.duplicate());
            self.boards.insert(swarm_id.to_owned(), board);
        }
        self.emit(
            swarm_id,
            BoardEvent::Published { box_id: box_id.to_owned(), state: state.duplicate() },
        );
        assert(self@.boards =~= old(self)@.boards.insert(
            swarm_id@,
            old(self)@.boards[swarm_id@].published(box_id@, status, note@),
        ));
        Ok(state)
    }

    /// Compare-and-set on `task_key`: of two boxes that claim the same key exactly
    /// one is granted it.
    pub fn claim(&mut self, swarm_id: &str, box_id: &str, task_key: &str) -> (r: Result<
        ClaimOutcome,
        BoardError,
    >)
        ensures
            match old(self)@.claim_result(swarm_id@, box_id@, task_key@) {
                Ok(o) => r matches Ok(x) && x@ == o,
                Err(e) => r matches Err(x) && x@ == e,
            },
            final(self)@ == old(self)@.after_claim(swarm_id@, box_id@, task_key@),
            (r matches Ok(o) && o is Granted) <==> final(self)@.boards.contains_key(swarm_id@)
                && final(self)@.boards[swarm_id@].boxes.contains_key(box_id@)
                && task_key_problem(task_key@) is None
                && final(self)@.boards[swarm_id@].claims.contains_key(task_key@)
                && final(self)@.boards[swarm_id@].claims[task_key@] == box_id@,
    {
        match validate_task_key(task_key) {
            Ok(()) => {},
            Err(e) => {
                return Err(e);
            },
        }
        let state = match self.boards.get(swarm_id) {
            None => {
                return Err(BoardError::UnknownSwarm { swarm_id: swarm_id.to_owned() });
            },
            Some(board) => match board.boxes.get(box_id) {
                None => {
                    return Err(
                        BoardError::UnknownBox {
                            swarm_id: swarm_id.to_owned(),
                            box_id: box_id.to_owned(),
                        },
                    );
                },
                Some(held) => {
                    if let Some(holder) = board.claims.get(task_key) {
                        if text_eq(holder.as_str(), box_id) {
                            return Ok(ClaimOutcome::Granted);
                        }
                        return Ok(ClaimOutcome::Held { holder: holder.clone() });
                    }
                    if board.claims.len() >= MAX_CLAIMS_PER_SWARM {
                        return Err(BoardError::ClaimLimit { swarm_id: swarm_id.to_owned() });
                    }
                    BoxState {
                        status: held.status,
                        claim: Some(task_key.to_owned()),
                        note: held.note.clone(),
                    }
                },
            },
        };
        if let Some(mut board) = self.boards.remove(swarm_id) {
            board.claims.insert(task_key.to_owned(), box_id.to_owned());
            board.boxes.insert(box_id.to_owned(), state);
            self.boards.insert(swarm_id.to_owned(), board);
        }
        self.emit(
            swarm_id,
            BoardEvent::Claimed { box_id: box_id.to_owned(), task_key: task_key.to_owned() },
        );
        assert(self@.boards =~= old(self)@.boards.insert(
            swarm_id@,
            old(self)@.boards[swarm_id@].claimed(box_id@, task_key@),
        ));
        Ok(ClaimOutcome::Granted)
    }

    /// Drop a claim. Only its holder may release it: a non-holder is refused
    /// with the current holder rather than freeing someone else's work.
    pub fn release(&mut self, swarm_id: &str, box_id: &str, task_key: &str) -> (r: Result<
        ReleaseOutcome,
        BoardError,
    >)
        ensures
            match old(self)@.release_result(swarm_id@, box_id@, task_key@) {
                Ok(o) => r matches Ok(x) && x@ == o,
                Err(e) => r matches Err(x) && x@ == e,
            },
            final(self)@ == old(self)@.after_release(swarm_id@, box_id@, task_key@),
            (r matches Ok(o) && o is Released) ==> {
                &&& old(self)@.boards[swarm_id@].claims[task_key@] == box_id@
                &&& !final(self)@.boards[swarm_id@].claims.contains_key(task_key@)
            },
            !(r matches Ok(o) && o is Released) ==> final(self)@ == old(self)@,
    {
        match validate_task_key(task_key) {
            Ok(()) => {},
            Err(e) => {
                return Err(e);
            },
        }
        let shown: Option<BoxState> = match self.boards.get(swarm_id) {
            None => {
                return Err(BoardError::UnknownSwarm { swarm_id: swarm_id.to_owned() });
            },
            Some(board) => match board.boxes.get(box_id) {
                None => {
                    return Err(
                        BoardError::UnknownBox {
                            swarm_id: swarm_id.to_owned(),
                            box_id: box_id.to_owned(),
                        },
                    );
                },
                Some(held) => match board.claims.get(task_key) {
                    None => {
                        return Ok(ReleaseOutcome::Unclaimed);
                    },
                    Some(holder) => {
                        if !text_eq(holder.as_str(), box_id) {
                            return Ok(ReleaseOutcome::NotHolder { holder: holder.clone() });
                        }
                        match &held.claim {
                            Some(key) => if text_eq(key.as_str(), task_key) {
                                Some(
                                    BoxState {
                                        status: held.status,
                                        claim: None,
                                        note: held.note.clone(),
                                    },
                                )
                            } else {
                                None
                            },
                            None => None,
                        }
                    },
                },
            },
        };
        if let Some(mut board) = self.boards.remove(swarm_id) {
            let _ = board.claims.remove(task_key);
            if let Some(state) = shown {
                board.boxes.insert(box_id.to_owned(), state);
            }
            self.boards.insert(swarm_id.to_owned(), board);
        }
        self.emit(
            swarm_id,
            BoardEvent::Released { box_id: box_id.to_owned(), task_key: task_key.to_owned() },
        );
        assert(self@.boards =~= old(self)@.boards.insert(
            swarm_id@,
            old(self)@.boards[swarm_id@].released(box_id@, task_key@),
        ));
        Ok(ReleaseOutcome::Released)
    }

    /// The board as it is persisted and as the `read_board` action reports it.
    pub fn snapshot(&self, swarm_id: &str) -> (r: Option<BoardSnapshot>)
        ensures
            match r {
                Some(b) => self@.boards.contains_key(swarm_id@) && self@.boards[swarm_id@] == b@,
                None => !self@.boards.contains_key(swarm_id@),
            },
    {
        match self.boards.get(swarm_id) {
            Some(board) => Some(board.duplicate()),
            None => None,
        }
    }

    /// Whether this swarm has a change feed to subscribe to.
    pub fn subscribe(&self, swarm_id: &str) -> (r: Result<(), BoardError>)
        ensures
            match r {
                Ok(()) => self@.boards.contains_key(swarm_id@),
                Err(e) => !self@.boards.contains_key(swarm_id@) && e@ == (
                BoardErrorView::UnknownSwarm { swarm_id: swarm_id@ }),
            },
    {
        if self.boards.contains_key(swarm_id) {
            Ok(())
        } else {
            Err(BoardError::UnknownSwarm { swarm_id: swarm_id.to_owned() })
        }
    }

    /// Takes the changes that subscribers have not been handed yet, oldest first.
    pub fn take_feed(&mut self) -> (r: Vec<FeedEntry>)
        ensures
            text::views(r@) == old(self)@.feed,
            final(self)@ == (BoardsView { feed: Seq::empty(), ..old(self)@ }),
    {
        let mut out: Vec<FeedEntry> = Vec::new();
        std::mem::swap(&mut self.feed, &mut out);
        assert(self@.feed =~= Seq::<FeedEntryView>::empty());
        out
    }

    /// Tear the board down, returning what it held so the caller can account
    /// for it. Subscribers see [`BoardEvent::Reaped`] last.
    pub fn remove(&mut self, swarm_id: &str) -> (r: Option<BoardSnapshot>)
        ensures
            match r {
                Some(b) => {
                    &&& old(self)@.boards.contains_key(swarm_id@)
                    &&& old(self)@.boards[swarm_id@] == b@
                    &&& final(self)@ == (BoardsView {
                        boards: old(self)@.boards.remove(swarm_id@),
                        feed: old(self)@.feed.push(
                            FeedEntryView { swarm_id: swarm_id@, event: BoardEventView::Reaped },
                        ),
                    })
                },
                None => !old(self)@.boards.contains_key(swarm_id@) && final(self)@ == old(self)@,
            },
    {
        match self.boards.remove(swarm_id) {
            Some(board) => {
                self.emit(swarm_id, BoardEvent::Reaped);
                Some(board)
            },
            None => None,
        }
    }

    /// Number of live boards.
    pub fn len(&self) -> (r: usize)
        ensures
            r == self@.boards.len(),
    {
        self.boards.len()
    }

    /// Whether there are no live boards.
    pub fn is_empty(&self) -> (r: bool)
        ensures
            r == (self@.boards == Map::<Seq<char>, BoardView>::empty()),
    {
        self.boards.is_empty()
    }
}

impl Default for SwarmStateBoard {
    fn default() -> (r: Self)
        ensures
            r@ == (BoardsView { boards: Map::empty(), feed: Seq::empty() }),
    {
        SwarmStateBoard::new()
    }
}

// ── Laws ────────────────────────────────────────────────────────────

/// A key that one box holds is refused to every other box, which is told the
/// holder; the holder is granted it again, and nothing changes either way.
pub proof fn a_held_key_has_one_holder(
    boards: BoardsView,
    swarm_id: Seq<char>,
    box_id: Seq<char>,
    key: Seq<char>,
)
    requires
        task_key_problem(key) is None,
        boards.access_refusal(swarm_id, box_id) is None,
        boards.boards[swarm_id].claims.contains_key(key),
    ensures
        boards.claim_result(swarm_id, box_id, key) == (if boards.boards[swarm_id].claims[key]
            == box_id {
            Ok::<ClaimOutcomeView, BoardErrorView>(ClaimOutcomeView::Granted)
        } else {
            Ok(ClaimOutcomeView::Held { holder: boards.boards[swarm_id].claims[key] })
        }),
        boards.after_claim(swarm_id, box_id, key) == boards,
{
}

/// Of two different boxes that claim a free key one after the other, the first is
/// granted it and the second is told that the first holds it.
pub proof fn a_contested_key_has_one_winner(
    boards: BoardsView,
    swarm_id: Seq<char>,
    first: Seq<char>,
    second: Seq<char>,
    key: Seq<char>,
)
    requires
        first != second,
        boards.access_refusal(swarm_id, second) is None,
        !boards.boards[swarm_id].claims.contains_key(key),
        boards.claim_result(swarm_id, first, key) == Ok::<ClaimOutcomeView, BoardErrorView>(
            ClaimOutcomeView::Granted,
        ),
    ensures
        boards.after_claim(swarm_id, first, key).claim_result(swarm_id, second, key) == Ok::<
            ClaimOutcomeView,
            BoardErrorView,
        >(ClaimOutcomeView::Held { holder: first }),
        boards.after_claim(swarm_id, first, key).boards[swarm_id].claims[key] == first,
{
}

/// Releasing is never a steal: a box that does not hold the key changes nothing.
pub proof fn only_the_holder_releases(
    boards: BoardsView,
    swarm_id: Seq<char>,
    box_id: Seq<char>,
    key: Seq<char>,
)
    requires
        boards.boards.contains_key(swarm_id),
        boards.boards[swarm_id].claims.contains_key(key) ==> boards.boards[swarm_id].claims[key]
            != box_id,
    ensures
        boards.after_release(swarm_id, box_id, key) == boards,
{
}

/// A key that its holder releases is free for any box of the board.
pub proof fn a_released_key_is_free(
    boards: BoardsView,
    swarm_id: Seq<char>,
    box_id: Seq<char>,
    other: Seq<char>,
    key: Seq<char>,
)
    requires
        boards.consistent(),
        boards.access_refusal(swarm_id, other) is None,
        boards.release_result(swarm_id, box_id, key) == Ok::<ReleaseOutcomeView, BoardErrorView>(
            ReleaseOutcomeView::Released,
        ),
    ensures
        boards.after_release(swarm_id, box_id, key).claim_result(swarm_id, other, key) == Ok::<
            ClaimOutcomeView,
            BoardErrorView,
        >(ClaimOutcomeView::Granted),
{
    assert(boards.boards[swarm_id].consistent());
}

/// What a box does reaches its own state alone: the states of the other boxes of
/// its board, and all other boards, stay as they are.
pub proof fn a_box_acts_as_itself(
    boards: BoardsView,
    swarm_id: Seq<char>,
    box_id: Seq<char>,
    key: Seq<char>,
    status: BoxStatus,
    note: Seq<char>,
    other: Seq<char>,
    elsewhere: Seq<char>,
)
    requires
        boards.boards.contains_key(swarm_id),
        other != box_id,
        elsewhere != swarm_id,
    ensures
        boards.after_claim(swarm_id, box_id, key).boards[swarm_id].boxes[other]
            == boards.boards[swarm_id].boxes[other],
        boards.after_release(swarm_id, box_id, key).boards[swarm_id].boxes[other]
            == boards.boards[swarm_id].boxes[other],
        boards.boards[swarm_id].published(box_id, status, note).boxes[other]
            == boards.boards[swarm_id].boxes[other],
        boards.boards[swarm_id].published(box_id, status, note).claims
            == boards.boards[swarm_id].claims,
        boards.after_claim(swarm_id, box_id, key).boards[elsewhere] == boards.boards[elsewhere],
        boards.after_release(swarm_id, box_id, key).boards[elsewhere] == boards.boards[elsewhere],
{
}

/// Publishing keeps every board consistent.
pub proof fn publishing_keeps_consistent(
    boards: BoardsView,
    swarm_id: Seq<char>,
    box_id: Seq<char>,
    status: BoxStatus,
    note: Seq<char>,
)
    requires
        boards.consistent(),
    ensures
        boards.after_publish(swarm_id, box_id, status, note).consistent(),
{
    if boards.publish_refusal(swarm_id, box_id, note) is None {
        assert(boards.boards[swarm_id].consistent());
        assert(boards.boards[swarm_id].published(box_id, status, note).consistent());
        assert(boards.after_publish(swarm_id, box_id, status, note).boards.dom()
            =~= boards.boards.dom());
    }
}

/// Claiming and releasing keep every board consistent.
pub proof fn claims_keep_consistent(
    boards: BoardsView,
    swarm_id: Seq<char>,
    box_id: Seq<char>,
    key: Seq<char>,
)
    requires
        boards.consistent(),
    ensures
        boards.after_claim(swarm_id, box_id, key).consistent(),
        boards.after_release(swarm_id, box_id, key).consistent(),
{
    if boards.boards.contains_key(swarm_id) {
        let board = boards.boards[swarm_id];
        assert(board.consistent());
        if boards.access_refusal(swarm_id, box_id) is None {
            if task_key_problem(key) is None && !board.claims.contains_key(key)
                && board.claims.len() < MAX_CLAIMS_PER_SWARM {
                let c = board.claimed(box_id, key);
                assert(c.claims.dom() =~= board.claims.dom().insert(key));
                assert(c.consistent());
            }
            if board.claims.contains_key(key) && board.claims[key] == box_id {
                let c = board.released(box_id, key);
                assert(c.claims.dom() =~= board.claims.dom().remove(key));
                assert(c.consistent());
            }
        }
        assert(boards.after_claim(swarm_id, box_id, key).boards.dom() =~= boards.boards.dom());
        assert(boards.after_release(swarm_id, box_id, key).boards.dom() =~= boards.boards.dom());
    }
}

/// A registration that is not refused keeps every board consistent.
pub proof fn registering_keeps_consistent(
    boards: BoardsView,
    swarm_id: Seq<char>,
    ids: Seq<Seq<char>>,
)
    requires
        boards.consistent(),
        boards.register_refusal(swarm_id) is None,
    ensures
        (BoardsView {
            boards: boards.boards.insert(swarm_id, BoardView::fresh(ids)),
            ..boards
        }).consistent(),
{
    let after = boards.boards.insert(swarm_id, BoardView::fresh(ids));
    assert(after.dom() =~= boards.boards.dom().insert(swarm_id));
    assert(BoardView::fresh(ids).consistent());
}

/// A board holds the boxes that it was last registered with and no others: nothing that
/// is published, claimed or released on any board adds one or takes one away.
pub proof fn boxes_stay_those_registered(
    boards: BoardsView,
    swarm_id: Seq<char>,
    ids: Seq<Seq<char>>,
    id: Seq<char>,
    acting: Seq<char>,
    box_id: Seq<char>,
    status: BoxStatus,
    note: Seq<char>,
    key: Seq<char>,
)
    requires
        boards.boards.contains_key(swarm_id),
    ensures
        BoardView::fresh(ids).boxes.contains_key(id) <==> ids.contains(id),
        boards.after_publish(acting, box_id, status, note).boards[swarm_id].boxes.dom()
            == boards.boards[swarm_id].boxes.dom(),
        boards.after_claim(acting, box_id, key).boards[swarm_id].boxes.dom()
            == boards.boards[swarm_id].boxes.dom(),
        boards.after_release(acting, box_id, key).boards[swarm_id].boxes.dom()
            == boards.boards[swarm_id].boxes.dom(),
{
    let before = boards.boards[swarm_id].boxes.dom();
    assert(boards.after_publish(acting, box_id, status, note).boards[swarm_id].boxes.dom()
        =~= before);
    assert(boards.after_claim(acting, box_id, key).boards[swarm_id].boxes.dom() =~= before);
    assert(boards.after_release(acting, box_id, key).boards[swarm_id].boxes.dom() =~= before);
}

/// Tearing a board down keeps every other board, and keeps them consistent.
pub proof fn teardown_keeps_consistent(
    boards: BoardsView,
    swarm_id: Seq<char>,
    elsewhere: Seq<char>,
    feed: Seq<FeedEntryView>,
)
    requires
        boards.consistent(),
        elsewhere != swarm_id,
    ensures
        ({
            let after = BoardsView { boards: boards.boards.remove(swarm_id), feed };
            &&& after.consistent()
            &&& !after.boards.contains_key(swarm_id)
            &&& after.boards.contains_key(elsewhere) == boards.boards.contains_key(elsewhere)
            &&& after.boards[elsewhere] == boards.boards[elsewhere]
        }),
{
    let after = boards.boards.remove(swarm_id);
    assert(after.dom() =~= boards.boards.dom().remove(swarm_id));
}

/// After a publication that is not refused, the box's state on the board, the state that
/// is handed back and the state that subscribers are sent all have exactly the status and
/// the note that were passed in, whatever the box showed before; the key that the box
/// shows stays.
pub proof fn a_box_shows_what_it_published(
    boards: BoardsView,
    swarm_id: Seq<char>,
    box_id: Seq<char>,
    status: BoxStatus,
    note: Seq<char>,
)
    requires
        boards.publish_refusal(swarm_id, box_id, note) is None,
    ensures
        ({
            let before = boards.boards[swarm_id].boxes[box_id];
            let given = boards.boards[swarm_id].published_state(box_id, status, note);
            let after = boards.after_publish(swarm_id, box_id, status, note);
            let shown = after.boards[swarm_id].boxes[box_id];
            &&& after.boards[swarm_id].boxes.contains_key(box_id)
            &&& shown.status == status && shown.note == note && shown.claim == before.claim
            &&& given.status == status && given.note == note && given.claim == before.claim
            &&& after.feed.len() == boards.feed.len() + 1
            &&& after.feed.last().swarm_id == swarm_id
            &&& (after.feed.last().event matches BoardEventView::Published { box_id: b, state }
                && b == box_id && state.status == status && state.note == note && state.claim
                == before.claim)
            &&& after.feed.drop_last() == boards.feed
        }),
{
    let after = boards.after_publish(swarm_id, box_id, status, note);
    assert(after.feed.drop_last() =~= boards.feed);
}

/// What a box published last is what counts: an earlier publication leaves no trace on the
/// board.
pub proof fn the_last_publication_counts(
    boards: BoardsView,
    swarm_id: Seq<char>,
    box_id: Seq<char>,
    first: BoxStatus,
    earlier: Seq<char>,
    status: BoxStatus,
    note: Seq<char>,
)
    requires
        boards.publish_refusal(swarm_id, box_id, earlier) is None,
        boards.publish_refusal(swarm_id, box_id, note) is None,
    ensures
        boards.after_publish(swarm_id, box_id, first, earlier).after_publish(
            swarm_id,
            box_id,
            status,
            note,
        ).boards == boards.after_publish(swarm_id, box_id, status, note).boards,
{
    let twice = boards.after_publish(swarm_id, box_id, first, earlier).after_publish(
        swarm_id,
        box_id,
        status,
        note,
    ).boards;
    let once = boards.after_publish(swarm_id, box_id, status, note).boards;
    assert(twice[swarm_id].boxes =~= once[swarm_id].boxes);
    assert(twice =~= once);
}

/// A publication is refused exactly where its note is over two thousand and forty-eight
/// bytes, the swarm has no board or the box is not on it, in this order; and a refused one
/// changes nothing.
pub proof fn refusals_of_a_publication(
    boards: BoardsView,
    swarm_id: Seq<char>,
    box_id: Seq<char>,
    status: BoxStatus,
    note: Seq<char>,
)
    ensures
        ({
            let refusal = boards.publish_refusal(swarm_id, box_id, note);
            let len = text::byte_len(note);
            let known = boards.boards.contains_key(swarm_id);
            let seated = boards.boards[swarm_id].boxes.contains_key(box_id);
            &&& refusal is None <==> len <= 2048 && known && seated
            &&& len > 2048 ==> refusal == Some(BoardErrorView::NoteTooLong { len })
            &&& len <= 2048 && !known ==> refusal == Some(BoardErrorView::UnknownSwarm { swarm_id })
            &&& len <= 2048 && known && !seated ==> refusal == Some(
                BoardErrorView::UnknownBox { swarm_id, box_id },
            )
            &&& refusal is Some ==> boards.after_publish(swarm_id, box_id, status, note) == boards
        }),
{
}

/// A key can be claimed and released where it is not blank, is at most two hundred and
/// fifty-six bytes and holds no control character; any other is refused first, and changes
/// nothing.
pub proof fn only_usable_keys_are_claimed(
    boards: BoardsView,
    swarm_id: Seq<char>,
    box_id: Seq<char>,
    key: Seq<char>,
)
    ensures
        task_key_problem(key) is None <==> text::trimmed(key).len() > 0 && text::byte_len(key)
            <= 256 && (forall|i: int| 0 <= i < key.len() ==> !text::control(#[trigger] key[i])),
        task_key_problem(key) matches Some(reason) ==> {
            &&& boards.claim_result(swarm_id, box_id, key) == Err::<
                ClaimOutcomeView,
                BoardErrorView,
            >(BoardErrorView::TaskKey { reason })
            &&& boards.release_result(swarm_id, box_id, key) == Err::<
                ReleaseOutcomeView,
                BoardErrorView,
            >(BoardErrorView::TaskKey { reason })
            &&& boards.after_claim(swarm_id, box_id, key) == boards
            &&& boards.after_release(swarm_id, box_id, key) == boards
        },
{
    text::control_free_everywhere(key);
}

/// Nobody claims or releases on a board that is not there, or that the box is not on.
pub proof fn strangers_are_refused(
    boards: BoardsView,
    swarm_id: Seq<char>,
    box_id: Seq<char>,
    key: Seq<char>,
)
    requires
        task_key_problem(key) is None,
        !boards.boards.contains_key(swarm_id) || !boards.boards[swarm_id].boxes.contains_key(
            box_id,
        ),
    ensures
        ({
            let e = if !boards.boards.contains_key(swarm_id) {
                BoardErrorView::UnknownSwarm { swarm_id }
            } else {
                BoardErrorView::UnknownBox { swarm_id, box_id }
            };
            &&& boards.claim_result(swarm_id, box_id, key) == Err::<
                ClaimOutcomeView,
                BoardErrorView,
            >(e)
            &&& boards.release_result(swarm_id, box_id, key) == Err::<
                ReleaseOutcomeView,
                BoardErrorView,
            >(e)
            &&& boards.after_claim(swarm_id, box_id, key) == boards
            &&& boards.after_release(swarm_id, box_id, key) == boards
        }),
{
}

/// A free key is granted to any box of the board that asks while fewer than five hundred
/// and twelve keys are claimed: the claim is on the board under that box, the box shows the
/// key and keeps its status and note, every other claim stays, and subscribers are told.
pub proof fn a_free_key_is_granted(
    boards: BoardsView,
    swarm_id: Seq<char>,
    box_id: Seq<char>,
    key: Seq<char>,
    other: Seq<char>,
)
    requires
        task_key_problem(key) is None,
        boards.boards.contains_key(swarm_id),
        boards.boards[swarm_id].boxes.contains_key(box_id),
        !boards.boards[swarm_id].claims.contains_key(key),
        other != key,
    ensures
        boards.boards[swarm_id].claims.len() >= 512 ==> {
            &&& boards.claim_result(swarm_id, box_id, key) == Err::<
                ClaimOutcomeView,
                BoardErrorView,
            >(BoardErrorView::ClaimLimit { swarm_id })
            &&& boards.after_claim(swarm_id, box_id, key) == boards
        },
        boards.boards[swarm_id].claims.len() < 512 ==> ({
            let before = boards.boards[swarm_id];
            let after = boards.after_claim(swarm_id, box_id, key);
            let board = after.boards[swarm_id];
            &&& boards.claim_result(swarm_id, box_id, key) == Ok::<
                ClaimOutcomeView,
                BoardErrorView,
            >(ClaimOutcomeView::Granted)
            &&& board.claims.contains_key(key) && board.claims[key] == box_id
            &&& board.claims.contains_key(other) == before.claims.contains_key(other)
            &&& board.claims[other] == before.claims[other]
            &&& board.boxes[box_id].claim == Some(key)
            &&& board.boxes[box_id].status == before.boxes[box_id].status
            &&& board.boxes[box_id].note == before.boxes[box_id].note
            &&& after.feed == boards.feed.push(
                FeedEntryView {
                    swarm_id,
                    event: BoardEventView::Claimed { box_id, task_key: key },
                },
            )
        }),
{
}

/// A release by the holder takes that one claim off the board: the box stops showing the
/// key, keeps its status and note, and a key that it shows instead; every other claim
/// stays, and subscribers are told. A key that nobody holds is reported as such.
pub proof fn what_a_release_does(
    boards: BoardsView,
    swarm_id: Seq<char>,
    box_id: Seq<char>,
    key: Seq<char>,
    other: Seq<char>,
)
    requires
        task_key_problem(key) is None,
        boards.boards.contains_key(swarm_id),
        boards.boards[swarm_id].boxes.contains_key(box_id),
        other != key,
    ensures
        !boards.boards[swarm_id].claims.contains_key(key) ==> boards.release_result(
            swarm_id,
            box_id,
            key,
        ) == Ok::<ReleaseOutcomeView, BoardErrorView>(ReleaseOutcomeView::Unclaimed)
            && boards.after_release(swarm_id, box_id, key) == boards,
        boards.boards[swarm_id].claims.contains_key(key) && boards.boards[swarm_id].claims[key]
            != box_id ==> boards.release_result(swarm_id, box_id, key) == Ok::<
            ReleaseOutcomeView,
            BoardErrorView,
        >(ReleaseOutcomeView::NotHolder { holder: boards.boards[swarm_id].claims[key] })
            && boards.after_release(swarm_id, box_id, key) == boards,
        boards.boards[swarm_id].claims.contains_key(key) && boards.boards[swarm_id].claims[key]
            == box_id ==> ({
            let before = boards.boards[swarm_id];
            let after = boards.after_release(swarm_id, box_id, key);
            let board = after.boards[swarm_id];
            &&& boards.release_result(swarm_id, box_id, key) == Ok::<
                ReleaseOutcomeView,
                BoardErrorView,
            >(ReleaseOutcomeView::Released)
            &&& !board.claims.contains_key(key)
            &&& board.claims.contains_key(other) == before.claims.contains_key(other)
            &&& board.claims[other] == before.claims[other]
            &&& before.boxes[box_id].claim == Some(key) ==> board.boxes[box_id].claim is None
            &&& before.boxes[box_id].claim != Some(key) ==> board.boxes[box_id].claim
                == before.boxes[box_id].claim
            &&& board.boxes[box_id].status == before.boxes[box_id].status
            &&& board.boxes[box_id].note == before.boxes[box_id].note
            &&& after.feed == boards.feed.push(
                FeedEntryView {
                    swarm_id,
                    event: BoardEventView::Released { box_id, task_key: key },
                },
            )
        }),
{
}

/// A new board holds the boxes it was registered with, each idle, without a note and
/// without a key; there is room for sixty-four boards, and a board that is there can always
/// be registered again.
pub proof fn a_new_board_is_idle(boards: BoardsView, swarm_id: Seq<char>, ids: Seq<Seq<char>>, i: int)
    requires
        0 <= i < ids.len(),
    ensures
        ({
            let board = BoardView::fresh(ids);
            &&& board.boxes.contains_key(ids[i])
            &&& board.boxes[ids[i]].status == BoxStatus::Idle
            &&& board.boxes[ids[i]].note.len() == 0
            &&& board.boxes[ids[i]].claim is None
            &&& forall|k: Seq<char>| !(#[trigger] board.claims.contains_key(k))
        }),
        boards.register_refusal(swarm_id) is Some <==> !boards.boards.contains_key(swarm_id)
            && boards.boards.len() >= 64,
        boards.register_refusal(swarm_id) matches Some(e) ==> e == BoardErrorView::BoardLimit,
{
    assert(ids.contains(ids[i]));
}

/// The wire labels of the statuses.
pub proof fn what_the_statuses_are_called(status: BoxStatus)
    ensures
        status == BoxStatus::Idle <==> status.label() == "idle"@,
        status == BoxStatus::Working <==> status.label() == "working"@,
        status == BoxStatus::Blocked <==> status.label() == "blocked"@,
        status == BoxStatus::Done <==> status.label() == "done"@,
{
    status_labels_differ(status, BoxStatus::Idle);
    status_labels_differ(status, BoxStatus::Working);
    status_labels_differ(status, BoxStatus::Blocked);
    status_labels_differ(status, BoxStatus::Done);
}

/// What a refusal says names the swarm, the box, the size or the reason that it is about.
pub proof fn refusals_say_what_they_are_about(
    swarm_id: Seq<char>,
    box_id: Seq<char>,
    len: usize,
    reason: Seq<char>,
)
    ensures
        text::stands_in(
            text::quoted(swarm_id),
            (BoardErrorView::UnknownSwarm { swarm_id }).text(),
        ),
        text::stands_in(
            text::quoted(box_id),
            (BoardErrorView::UnknownBox { swarm_id, box_id }).text(),
        ),
        text::stands_in(
            text::quoted(swarm_id),
            (BoardErrorView::UnknownBox { swarm_id, box_id }).text(),
        ),
        text::stands_in(
            text::quoted(swarm_id),
            (BoardErrorView::ClaimLimit { swarm_id }).text(),
        ),
        text::stands_in(
            text::numeral(len as nat),
            (BoardErrorView::NoteTooLong { len }).text(),
        ),
        text::stands_in(
            reason,
            (BoardErrorView::TaskKey { reason }).text(),
        ),
{
    assert(text::stands_in(
        text::quoted(swarm_id),
        (BoardErrorView::UnknownSwarm { swarm_id }).text(),
    )) by {
        assert("no board registered for swarm "@ + (text::quoted(swarm_id)) + (Seq::<char>::empty())
            =~= (BoardErrorView::UnknownSwarm { swarm_id }).text());
        text::stands_between(
            "no board registered for swarm "@,
            text::quoted(swarm_id),
            Seq::<char>::empty(),
        );
    }
    assert(text::stands_in(
        text::quoted(box_id),
        (BoardErrorView::UnknownBox { swarm_id, box_id }).text(),
    )) by {
        assert("box "@ + (text::quoted(box_id)) + (" is not on swarm "@ + text::quoted(swarm_id) + "'s board"@)
            =~= (BoardErrorView::UnknownBox { swarm_id, box_id }).text());
        text::stands_between(
            "box "@,
            text::quoted(box_id),
            " is not on swarm "@ + text::quoted(swarm_id) + "'s board"@,
        );
    }
    assert(text::stands_in(
        text::quoted(swarm_id),
        (BoardErrorView::UnknownBox { swarm_id, box_id }).text(),
    )) by {
        assert(("box "@ + text::quoted(box_id) + " is not on swarm "@) + (text::quoted(swarm_id)) + ("'s board"@)
            =~= (BoardErrorView::UnknownBox { swarm_id, box_id }).text());
        text::stands_between(
            ("box "@ + text::quoted(box_id) + " is not on swarm "@),
            text::quoted(swarm_id),
            "'s board"@,
        );
    }
    assert(text::stands_in(
        text::quoted(swarm_id),
        (BoardErrorView::ClaimLimit { swarm_id }).text(),
    )) by {
        assert("swarm "@ + (text::quoted(swarm_id)) + (" already holds the maximum of "@ + text::numeral(512) + " claims"@)
            =~= (BoardErrorView::ClaimLimit { swarm_id }).text());
        text::stands_between(
            "swarm "@,
            text::quoted(swarm_id),
            " already holds the maximum of "@ + text::numeral(512) + " claims"@,
        );
    }
    assert(text::stands_in(
        text::numeral(len as nat),
        (BoardErrorView::NoteTooLong { len }).text(),
    )) by {
        assert("note is "@ + (text::numeral(len as nat)) + (" bytes; the maximum is "@ + text::numeral(2048))
            =~= (BoardErrorView::NoteTooLong { len }).text());
        text::stands_between(
            "note is "@,
            text::numeral(len as nat),
            " bytes; the maximum is "@ + text::numeral(2048),
        );
    }
    assert(text::stands_in(
        reason,
        (BoardErrorView::TaskKey { reason }).text(),
    )) by {
        assert("task key is invalid: "@ + (reason) + (Seq::<char>::empty())
            =~= (BoardErrorView::TaskKey { reason }).text());
        text::stands_between(
            "task key is invalid: "@,
            reason,
            Seq::<char>::empty(),
        );
    }
}

} // verus!
