//! The `swarm_state` tool: a box's only handle on the shared board.
//!
//! The tool is made per box with the swarm id and box id already bound, so the model
//! can say what it is doing but never who is doing it. No argument selects another
//! box, another swarm, or another holder's claim.

use vstd::prelude::*;

use crate::board;
use crate::board::{
    BoardView, BoardsView, BoxStateView, BoxStatus, ClaimOutcome, ClaimOutcomeView,
    ReleaseOutcome, ReleaseOutcomeView, SwarmStateBoard,
};
use crate::json;
use crate::json::string_member;
use crate::strmap;
use crate::text;
use crate::text::{join, quote, text_eq};
use crate::tool;
use crate::tool::{required_str, ToolData, ToolDataView, ToolParameter, ToolParameterView, ToolResult, ToolResultView};

verus! {

/// Board access for one box of one swarm.
#[derive(Debug)]
pub struct SwarmStateTool {
    swarm_id: String,
    box_id: String,
}

/// The ids that a tool is bound to.
#[verifier::ext_equal]
pub struct BoundView {
    pub swarm_id: Seq<char>,
    pub box_id: Seq<char>,
}

impl View for SwarmStateTool {
    type V = BoundView;

    closed spec fn view(&self) -> BoundView {
        BoundView { swarm_id: self.swarm_id@, box_id: self.box_id@ }
    }
}

/// One line of a board: what a box does, what it holds and what it says.
pub open spec fn board_line(box_id: Seq<char>, state: BoxStateView) -> Seq<char> {
    box_id + ": "@ + state.status.label() + (match state.claim {
        Some(key) => " holding `"@ + key + "`"@,
        None => Seq::empty(),
    }) + (if state.note.len() == 0 {
        Seq::empty()
    } else {
        " — "@ + state.note
    })
}

/// A board in lines, in the order of its box ids.
pub open spec fn board_text(board: BoardView) -> Seq<char> {
    let keys = strmap::key_order(board.boxes.dom());
    text::joined(
        Seq::new(keys.len(), |i: int| board_line(keys[i], board.boxes[keys[i]])),
        "\n"@,
    )
}

/// The status that goes by a label.
pub open spec fn status_of(label: Seq<char>) -> Option<BoxStatus> {
    if label == BoxStatus::Idle.label() {
        Some(BoxStatus::Idle)
    } else if label == BoxStatus::Working.label() {
        Some(BoxStatus::Working)
    } else if label == BoxStatus::Blocked.label() {
        Some(BoxStatus::Blocked)
    } else if label == BoxStatus::Done.label() {
        Some(BoxStatus::Done)
    } else {
        None
    }
}

/// A refusal.
pub open spec fn refused(error: Seq<char>) -> ToolResultView {
    ToolResultView::Refused { error }
}

/// An answer.
pub open spec fn done(text: Seq<char>, data: ToolDataView) -> ToolResultView {
    ToolResultView::Done { text, data: Some(data) }
}

impl BoundView {
    /// What publishing comes to.
    pub open spec fn publish(self, boards: BoardsView, args: Map<Seq<char>, Seq<char>>) -> (
        ToolResultView,
        BoardsView,
    ) {
        let note = if args.contains_key("note"@) {
            args["note"@]
        } else {
            ""@
        };
        match tool::member_text(args, "status"@) {
            None => (refused(tool::missing("status"@)), boards),
            Some(label) => match status_of(label) {
                None => (
                    refused(
                        "`status` must be one of idle, working, blocked, done, got "@
                            + text::quoted(label),
                    ),
                    boards,
                ),
                Some(status) => match boards.publish_refusal(self.swarm_id, self.box_id, note) {
                    Some(e) => (refused(e.text()), boards),
                    None => {
                        let before = boards.boards[self.swarm_id];
                        let state = before.published_state(self.box_id, status, note);
                        (
                            done(
                                self.box_id + " is now "@ + status.label(),
                                ToolDataView::Published {
                                    box_id: self.box_id,
                                    status,
                                    claim: state.claim,
                                    note,
                                },
                            ),
                            boards.changed(
                                self.swarm_id,
                                before.published(self.box_id, status, note),
                                board::BoardEventView::Published { box_id: self.box_id, state },
                            ),
                        )
                    },
                },
            },
        }
    }

    /// What reading the board comes to.
    pub open spec fn read_board(self, boards: BoardsView) -> ToolResultView {
        if boards.boards.contains_key(self.swarm_id) {
            let b = boards.boards[self.swarm_id];
            done(board_text(b), ToolDataView::Board(b))
        } else {
            refused("no board for swarm "@ + text::quoted(self.swarm_id))
        }
    }

    /// What claiming comes to.
    pub open spec fn claim(self, boards: BoardsView, args: Map<Seq<char>, Seq<char>>) -> (
        ToolResultView,
        BoardsView,
    ) {
        match tool::member_text(args, "task_key"@) {
            None => (refused(tool::missing("task_key"@)), boards),
            Some(key) => (
                match boards.claim_result(self.swarm_id, self.box_id, key) {
                    Err(e) => refused(e.text()),
                    Ok(ClaimOutcomeView::Granted) => done(
                        "claimed `"@ + key + "`"@,
                        ToolDataView::Claim { task_key: key, granted: true, holder: self.box_id },
                    ),
                    Ok(ClaimOutcomeView::Held { holder }) => done(
                        "`"@ + key + "` is already held by "@ + holder + "; pick different work"@,
                        ToolDataView::Claim { task_key: key, granted: false, holder },
                    ),
                },
                boards.after_claim(self.swarm_id, self.box_id, key),
            ),
        }
    }

    /// What releasing comes to.
    pub open spec fn release(self, boards: BoardsView, args: Map<Seq<char>, Seq<char>>) -> (
        ToolResultView,
        BoardsView,
    ) {
        match tool::member_text(args, "task_key"@) {
            None => (refused(tool::missing("task_key"@)), boards),
            Some(key) => (
                match boards.release_result(self.swarm_id, self.box_id, key) {
                    Err(e) => refused(e.text()),
                    Ok(ReleaseOutcomeView::Released) => done(
                        "released `"@ + key + "`"@,
                        ToolDataView::Release { task_key: key, released: true, held_by: None },
                    ),
                    Ok(ReleaseOutcomeView::NotHolder { holder }) => done(
                        "`"@ + key + "` is held by "@ + holder
                            + "; only its holder can release it"@,
                        ToolDataView::Release {
                            task_key: key,
                            released: false,
                            held_by: Some(holder),
                        },
                    ),
                    Ok(ReleaseOutcomeView::Unclaimed) => done(
                        "`"@ + key + "` was not claimed"@,
                        ToolDataView::Release { task_key: key, released: false, held_by: None },
                    ),
                },
                boards.after_release(self.swarm_id, self.box_id, key),
            ),
        }
    }

    /// What a call comes to: its answer, and the boards after it.
    pub open spec fn execute(self, boards: BoardsView, args: Map<Seq<char>, Seq<char>>) -> (
        ToolResultView,
        BoardsView,
    ) {
        match tool::member_text(args, "action"@) {
            None => (refused(tool::missing("action"@)), boards),
            Some(action) => if action == "publish"@ {
                self.publish(boards, args)
            } else if action == "read_board"@ {
                (self.read_board(boards), boards)
            } else if action == "claim"@ {
                self.claim(boards, args)
            } else if action == "release"@ {
                self.release(boards, args)
            } else {
                (
                    refused(
                        "unknown action "@ + text::quoted(action)
                            + "; expected publish, read_board, claim, or release"@,
                    ),
                    boards,
                )
            },
        }
    }
}

impl SwarmStateTool {
    /// Canonical tool name.
    pub const NAME: &'static str = "swarm_state";

    /// What the model is told of the tool.
    pub const DESCRIPTION: &'static str = "Coordinate with the other boxes of this swarm through the shared state board. Actions: `publish` your status (idle|working|blocked|done) and a short note; `read_board` to see every box's status and the live claims; `claim` a task_key before starting work on it, which succeeds only if no other box holds it; `release` a task_key you hold when you are done with it. You always act as your own box — there is no way to publish, claim, or release on another box's behalf.";

    /// A tool that speaks as `box_id` on the board of `swarm_id`.
    pub fn new(swarm_id: &str, box_id: &str) -> (r: Self)
        ensures
            r@ == (BoundView { swarm_id: swarm_id@, box_id: box_id@ }),
    {
        SwarmStateTool { swarm_id: swarm_id.to_owned(), box_id: box_id.to_owned() }
    }

    /// The box this tool speaks as. Fixed at construction.
    pub fn box_id(&self) -> (r: &str)
        ensures
            r@ == self@.box_id,
    {
        self.box_id.as_str()
    }

    fn publish(&self, board: &mut SwarmStateBoard, args: &serde_json::Value) -> (r: ToolResult)
        ensures
            (r@, final(board)@) == self@.publish(old(board)@, json::string_members(*args)),
    {
        let status_label = match required_str(args, "status") {
            Ok(value) => value,
            Err(error) => {
                return ToolResult::Refused { error };
            },
        };
        let status = match BoxStatus::parse(status_label) {
            Some(status) => status,
            None => {
                proof {
                    assert(BoxStatus::Idle.label() != status_label@);
                    assert(BoxStatus::Working.label() != status_label@);
                    assert(BoxStatus::Blocked.label() != status_label@);
                    assert(BoxStatus::Done.label() != status_label@);
                }
                let mut error =
                    "`status` must be one of idle, working, blocked, done, got ".to_owned();
                error.append(quote(status_label).as_str());
                return ToolResult::Refused { error };
            },
        };
        proof {
            board::status_labels_differ(status, BoxStatus::Idle);
            board::status_labels_differ(status, BoxStatus::Working);
            board::status_labels_differ(status, BoxStatus::Blocked);
            board::status_labels_differ(status, BoxStatus::Done);
        }
        let note = match string_member(args, "note") {
            Some(note) => note,
            None => "",
        };
        match board.publish(self.swarm_id.as_str(), self.box_id.as_str(), status, note) {
            Ok(state) => {
                let mut text = self.box_id.clone();
                text.append(" is now ");
                text.append(state.status.as_str());
                ToolResult::Done {
                    text,
                    data: Some(
                        ToolData::Published {
                            box_id: self.box_id.clone(),
                            status: state.status,
                            claim: state.claim,
                            note: state.note,
                        },
                    ),
                }
            },
            Err(err) => ToolResult::Refused { error: err.message() },
        }
    }

    fn read_board(&self, board: &SwarmStateBoard) -> (r: ToolResult)
        ensures
            r@ == self@.read_board(board@),
    {
        let snapshot = match board.snapshot(self.swarm_id.as_str()) {
            Some(snapshot) => snapshot,
            None => {
                let mut error = "no board for swarm ".to_owned();
                error.append(quote(self.swarm_id.as_str()).as_str());
                return ToolResult::Refused { error };
            },
        };
        let ghost b = snapshot@;
        let ghost keys = strmap::key_order(b.boxes.dom());
        let ghost expected = Seq::new(keys.len(), |i: int| board_line(keys[i], b.boxes[keys[i]]));
        let mut lines: Vec<String> = Vec::new();
        let n: usize = snapshot.boxes.len();
        let mut i: usize = 0;
        while i < n
            invariant
                i <= n,
                n == keys.len(),
                b == snapshot@,
                keys == snapshot.boxes.keys(),
                n == snapshot.boxes.values().len(),
                forall|k: int|
                    0 <= k < n ==> #[trigger] snapshot.boxes@.contains_key(
                        snapshot.boxes.keys()[k],
                    ) && snapshot.boxes@[snapshot.boxes.keys()[k]] == snapshot.boxes.values()[k],
                lines.len() == i,
                forall|k: int|
                    0 <= k < i ==> (#[trigger] lines@[k])@ == board_line(
                        keys[k],
                        b.boxes[keys[k]],
                    ),
            decreases n - i,
        {
            let state = snapshot.boxes.value_at(i);
            assert(snapshot.boxes@.contains_key(snapshot.boxes.keys()[i as int]));
            assert(state@ == b.boxes[keys[i as int]]);
            let mut line = snapshot.boxes.key_at(i).to_owned();
            line.append(": ");
            line.append(state.status.as_str());
            if let Some(key) = &state.claim {
                line.append(" holding `".to_owned().concat(key.as_str()).concat("`").as_str());
            }
            if !state.note.as_str().is_empty() {
                line.append(" — ".to_owned().concat(state.note.as_str()).as_str());
            }
            assert(line@ =~= board_line(keys[i as int], state@));
            lines.push(line);
            i += 1;
        }
        assert(text::views(lines@) =~= expected);
        ToolResult::Done { text: join(&lines, "\n"), data: Some(ToolData::Board(snapshot)) }
    }

    fn claim(&self, board: &mut SwarmStateBoard, args: &serde_json::Value) -> (r: ToolResult)
        ensures
            (r@, final(board)@) == self@.claim(old(board)@, json::string_members(*args)),
    {
        let task_key = match required_str(args, "task_key") {
            Ok(value) => value,
            Err(error) => {
                return ToolResult::Refused { error };
            },
        };
        match board.claim(self.swarm_id.as_str(), self.box_id.as_str(), task_key) {
            Ok(ClaimOutcome::Granted) => ToolResult::Done {
                text: "claimed `".to_owned().concat(task_key).concat("`"),
                data: Some(
                    ToolData::Claim {
                        task_key: task_key.to_owned(),
                        granted: true,
                        holder: self.box_id.clone(),
                    },
                ),
            },
            Ok(ClaimOutcome::Held { holder }) => {
                let mut text = "`".to_owned();
                text.append(task_key);
                text.append("` is already held by ");
                text.append(holder.as_str());
                text.append("; pick different work");
                ToolResult::Done {
                    text,
                    data: Some(
                        ToolData::Claim { task_key: task_key.to_owned(), granted: false, holder },
                    ),
                }
            },
            Err(err) => ToolResult::Refused { error: err.message() },
        }
    }

    fn release(&self, board: &mut SwarmStateBoard, args: &serde_json::Value) -> (r: ToolResult)
        ensures
            (r@, final(board)@) == self@.release(old(board)@, json::string_members(*args)),
    {
        let task_key = match required_str(args, "task_key") {
            Ok(value) => value,
            Err(error) => {
                return ToolResult::Refused { error };
            },
        };
        match board.release(self.swarm_id.as_str(), self.box_id.as_str(), task_key) {
            Ok(ReleaseOutcome::Released) => ToolResult::Done {
                text: "released `".to_owned().concat(task_key).concat("`"),
                data: Some(
                    ToolData::Release {
                        task_key: task_key.to_owned(),
                        released: true,
                        held_by: None,
                    },
                ),
            },
            Ok(ReleaseOutcome::NotHolder { holder }) => {
                let mut text = "`".to_owned();
                text.append(task_key);
                text.append("` is held by ");
                text.append(holder.as_str());
                text.append("; only its holder can release it");
                ToolResult::Done {
                    text,
                    data: Some(
                        ToolData::Release {
                            task_key: task_key.to_owned(),
                            released: false,
                            held_by: Some(holder),
                        },
                    ),
                }
            },
            Ok(ReleaseOutcome::Unclaimed) => ToolResult::Done {
                text: "`".to_owned().concat(task_key).concat("` was not claimed"),
                data: Some(
                    ToolData::Release {
                        task_key: task_key.to_owned(),
                        released: false,
                        held_by: None,
                    },
                ),
            },
            Err(err) => ToolResult::Refused { error: err.message() },
        }
    }

    /// Carry out one call.
    pub fn execute(&self, board: &mut SwarmStateBoard, args: &serde_json::Value) -> (r: ToolResult)
        ensures
            (r@, final(board)@) == self@.execute(old(board)@, json::string_members(*args)),
    {
        let action = match required_str(args, "action") {
            Ok(value) => value,
            Err(error) => {
                return ToolResult::Refused { error };
            },
        };
        if text_eq(action, "publish") {
            self.publish(board, args)
        } else if text_eq(action, "read_board") {
            self.read_board(board)
        } else if text_eq(action, "claim") {
            self.claim(board, args)
        } else if text_eq(action, "release") {
            self.release(board, args)
        } else {
            let mut error = "unknown action ".to_owned();
            error.append(quote(action).as_str());
            error.append("; expected publish, read_board, claim, or release");
            ToolResult::Refused { error }
        }
    }

    /// What the tool takes.
    pub fn parameters(&self) -> (r: Vec<ToolParameter>)
        ensures
            text::views(r@) == state_parameters(),
    {
        let mut actions: Vec<String> = Vec::new();
        actions.push("publish".to_owned());
        actions.push("read_board".to_owned());
        actions.push("claim".to_owned());
        actions.push("release".to_owned());
        assert(text::views(actions@) =~= seq![
            "publish"@,
            "read_board"@,
            "claim"@,
            "release"@,
        ]);
        let labels = BoxStatus::all();
        let mut statuses: Vec<String> = Vec::new();
        statuses.push(labels[0].to_owned());
        statuses.push(labels[1].to_owned());
        statuses.push(labels[2].to_owned());
        statuses.push(labels[3].to_owned());
        assert(text::views(statuses@) =~= seq![
            BoxStatus::Idle.label(),
            BoxStatus::Working.label(),
            BoxStatus::Blocked.label(),
            BoxStatus::Done.label(),
        ]);
        let mut out: Vec<ToolParameter> = Vec::new();
        out.push(
            ToolParameter {
                name: "action",
                choices: Some(actions),
                description: "What to do on the board.",
                required: true,
            },
        );
        out.push(
            ToolParameter {
                name: "status",
                choices: Some(statuses),
                description: "Required for `publish`: what you are doing now.",
                required: false,
            },
        );
        out.push(
            ToolParameter {
                name: "note",
                choices: None,
                description: "Optional for `publish`: one line of detail for the other boxes.",
                required: false,
            },
        );
        out.push(
            ToolParameter {
                name: "task_key",
                choices: None,
                description: "Required for `claim` and `release`: the work item's key.",
                required: false,
            },
        );
        assert(text::views(out@) =~= state_parameters());
        out
    }
}

/// What the tool takes: an action, and what the actions need.
pub open spec fn state_parameters() -> Seq<ToolParameterView> {
    seq![
        ToolParameterView {
            name: "action"@,
            choices: Some(seq!["publish"@, "read_board"@, "claim"@, "release"@]),
            description: "What to do on the board."@,
            required: true,
        },
        ToolParameterView {
            name: "status"@,
            choices: Some(
                seq![
                    BoxStatus::Idle.label(),
                    BoxStatus::Working.label(),
                    BoxStatus::Blocked.label(),
                    BoxStatus::Done.label(),
                ],
            ),
            description: "Required for `publish`: what you are doing now."@,
            required: false,
        },
        ToolParameterView {
            name: "note"@,
            choices: None,
            description: "Optional for `publish`: one line of detail for the other boxes."@,
            required: false,
        },
        ToolParameterView {
            name: "task_key"@,
            choices: None,
            description: "Required for `claim` and `release`: the work item's key."@,
            required: false,
        },
    ]
}

/// A tool acts as its own box: whatever its arguments say, no other swarm's board and
/// no other box's state on its own board is touched.
pub proof fn a_tool_acts_as_its_own_box(
    tool: BoundView,
    boards: BoardsView,
    args: Map<Seq<char>, Seq<char>>,
    other: Seq<char>,
    elsewhere: Seq<char>,
)
    requires
        boards.boards.contains_key(tool.swarm_id),
        other != tool.box_id,
        elsewhere != tool.swarm_id,
    ensures
        tool.execute(boards, args).1.boards[tool.swarm_id].boxes[other]
            == boards.boards[tool.swarm_id].boxes[other],
        tool.execute(boards, args).1.boards[elsewhere] == boards.boards[elsewhere],
        tool.execute(boards, args).1.boards.dom() == boards.boards.dom(),
{
    assert(tool.execute(boards, args).1.boards.dom() =~= boards.boards.dom());
}

/// A refused call leaves the boards as they are.
pub proof fn refused_calls_touch_nothing(
    tool: BoundView,
    boards: BoardsView,
    args: Map<Seq<char>, Seq<char>>,
)
    requires
        tool.execute(boards, args).0 is Refused,
    ensures
        tool.execute(boards, args).1 == boards,
{
}

/// What a board says of a box: its id, the label of its status, the key that it holds and
/// its note, in this order, and nothing where it holds no key or says nothing.
pub proof fn what_a_board_line_says(box_id: Seq<char>, state: BoxStateView)
    ensures
        state.claim is None && state.note.len() == 0 ==> board_line(box_id, state) == box_id
            + ": "@ + state.status.label(),
        state.claim matches Some(key) ==> state.note.len() == 0 ==> board_line(box_id, state)
            == box_id + ": "@ + state.status.label() + " holding `"@ + key + "`"@,
        state.claim is None && state.note.len() > 0 ==> board_line(box_id, state) == box_id
            + ": "@ + state.status.label() + " — "@ + state.note,
        state.claim matches Some(key) ==> state.note.len() > 0 ==> board_line(box_id, state)
            == box_id + ": "@ + state.status.label() + " holding `"@ + key + "`"@ + " — "@
            + state.note,
{
    match state.claim {
        Some(key) => {
            assert(board_line(box_id, state) =~= if state.note.len() == 0 {
                box_id + ": "@ + state.status.label() + " holding `"@ + key + "`"@
            } else {
                box_id + ": "@ + state.status.label() + " holding `"@ + key + "`"@ + " — "@
                    + state.note
            });
        },
        None => {
            assert(board_line(box_id, state) =~= if state.note.len() == 0 {
                box_id + ": "@ + state.status.label()
            } else {
                box_id + ": "@ + state.status.label() + " — "@ + state.note
            });
        },
    }
}

/// Every box of a board has its line in the board's text.
pub proof fn every_box_has_its_line(board: BoardView, box_id: Seq<char>) -> (at: int)
    requires
        board.boxes.dom().finite(),
        board.boxes.contains_key(box_id),
    ensures
        0 <= at,
        at + board_line(box_id, board.boxes[box_id]).len() <= board_text(board).len(),
        board_text(board).subrange(at, at + board_line(box_id, board.boxes[box_id]).len())
            == board_line(box_id, board.boxes[box_id]),
{
    let keys = strmap::key_order(board.boxes.dom());
    let lines = Seq::new(keys.len(), |i: int| board_line(keys[i], board.boxes[keys[i]]));
    strmap::key_order_lists_the_set(board.boxes.dom());
    assert(keys.to_set().contains(box_id));
    let i = choose|i: int| 0 <= i < keys.len() && keys[i] == box_id;
    assert(lines[i] == board_line(box_id, board.boxes[box_id]));
    text::joined_holds_each(lines, "\n"@, i)
}

proof fn the_actions_differ()
    ensures
        "publish"@ != "read_board"@,
        "publish"@ != "claim"@,
        "publish"@ != "release"@,
        "read_board"@ != "claim"@,
        "read_board"@ != "release"@,
        "claim"@ != "release"@,
{
    reveal_strlit("publish");
    reveal_strlit("read_board");
    reveal_strlit("claim");
    reveal_strlit("release");
    assert("publish"@[0] == 'p' && "read_board"@.len() == 10);
    assert("claim"@.len() == 5 && "release"@[0] == 'r');
}

/// A box that publishes says what it was told to say: its answer and its state on the board
/// have the status that goes by the label, and the note as it was given, or none. Without a
/// label, or with one that is no status, the call is refused and nothing changes.
pub proof fn publishing_says_what_was_told(
    tool: BoundView,
    boards: BoardsView,
    args: Map<Seq<char>, Seq<char>>,
    status: BoxStatus,
)
    requires
        tool::member_text(args, "action"@) == Some("publish"@),
    ensures
        ({
            let (answer, after) = tool.execute(boards, args);
            let label = tool::member_text(args, "status"@);
            let note = if args.contains_key("note"@) {
                args["note"@]
            } else {
                Seq::empty()
            };
            let seated = boards.boards.contains_key(tool.swarm_id)
                && boards.boards[tool.swarm_id].boxes.contains_key(tool.box_id);
            &&& label is None ==> answer is Refused && after == boards
            &&& (forall|s: BoxStatus| Some(#[trigger] s.label()) != label) ==> answer is Refused
                && after == boards
            &&& !seated || text::byte_len(note) > 2048 ==> answer is Refused && after == boards
            &&& label == Some(status.label()) && seated && text::byte_len(note) <= 2048 ==> {
                let shown = after.boards[tool.swarm_id].boxes[tool.box_id];
                &&& shown.status == status && shown.note == note
                &&& (answer matches ToolResultView::Done { text: said, data: Some(data) } && said
                    == tool.box_id + " is now "@ + status.label() && (data matches
                    ToolDataView::Published { box_id, status: told, claim, note: noted } && box_id
                    == tool.box_id && told == status && noted == note && claim == shown.claim))
                &&& after.feed.len() == boards.feed.len() + 1
            }
        }),
{
    the_actions_differ();
    reveal_strlit("");
    assert(""@ =~= Seq::<char>::empty());
    let label = tool::member_text(args, "status"@);
    if label == Some(status.label()) {
        board::status_labels_differ(status, BoxStatus::Idle);
        board::status_labels_differ(status, BoxStatus::Working);
        board::status_labels_differ(status, BoxStatus::Blocked);
        board::status_labels_differ(status, BoxStatus::Done);
        assert(status_of(status.label()) == Some(status));
    }
    if forall|s: BoxStatus| Some(#[trigger] s.label()) != label {
        assert(Some(BoxStatus::Idle.label()) != label);
        assert(Some(BoxStatus::Working.label()) != label);
        assert(Some(BoxStatus::Blocked.label()) != label);
        assert(Some(BoxStatus::Done.label()) != label);
    }
}

/// Reading the board hands over the whole board of the tool's own swarm and changes
/// nothing; where there is none it is refused.
pub proof fn reading_hands_over_the_board(
    tool: BoundView,
    boards: BoardsView,
    args: Map<Seq<char>, Seq<char>>,
)
    requires
        tool::member_text(args, "action"@) == Some("read_board"@),
    ensures
        tool.execute(boards, args).1 == boards,
        !boards.boards.contains_key(tool.swarm_id) ==> tool.execute(boards, args).0 is Refused,
        boards.boards.contains_key(tool.swarm_id) ==> tool.execute(boards, args).0 == (
        ToolResultView::Done {
            text: board_text(boards.boards[tool.swarm_id]),
            data: Some(ToolDataView::Board(boards.boards[tool.swarm_id])),
        }),
{
    the_actions_differ();
}

/// A claim is answered by who holds the key afterwards: it was granted exactly where that
/// is the tool's own box. A key that is missing, blank or unusable, and a full board, are
/// refused.
pub proof fn a_claim_is_answered_by_its_holder(
    tool: BoundView,
    boards: BoardsView,
    args: Map<Seq<char>, Seq<char>>,
)
    requires
        tool::member_text(args, "action"@) == Some("claim"@),
    ensures
        ({
            let (answer, after) = tool.execute(boards, args);
            let key = tool::member_text(args, "task_key"@);
            &&& key is None ==> answer is Refused && after == boards
            &&& key matches Some(k) ==> {
                &&& answer is Refused <==> boards.claim_result(tool.swarm_id, tool.box_id, k) is Err
                &&& answer matches ToolResultView::Done { data, .. } ==> {
                    let holder_now = after.boards[tool.swarm_id].claims[k];
                    &&& after.boards[tool.swarm_id].claims.contains_key(k)
                    &&& (data matches Some(ToolDataView::Claim { task_key, granted, holder })
                        && task_key == k && granted == (holder_now == tool.box_id) && holder
                        == holder_now)
                    &&& boards.boards[tool.swarm_id].claims.contains_key(k) ==> after == boards
                }
            }
        }),
{
    the_actions_differ();
}

/// A release is answered by what became of the key: it was released exactly where the
/// tool's own box held it, and then nobody does; otherwise nothing changes, and the answer
/// names the box that holds it, if one does.
pub proof fn a_release_is_answered_by_what_became_of_it(
    tool: BoundView,
    boards: BoardsView,
    args: Map<Seq<char>, Seq<char>>,
)
    requires
        tool::member_text(args, "action"@) == Some("release"@),
    ensures
        ({
            let (answer, after) = tool.execute(boards, args);
            let key = tool::member_text(args, "task_key"@);
            let claims = boards.boards[tool.swarm_id].claims;
            &&& key is None ==> answer is Refused && after == boards
            &&& key matches Some(k) ==> {
                &&& answer is Refused <==> boards.release_result(
                    tool.swarm_id,
                    tool.box_id,
                    k,
                ) is Err
                &&& answer matches ToolResultView::Done { data, .. } ==> {
                    let held = claims.contains_key(k);
                    let own = held && claims[k] == tool.box_id;
                    &&& (data matches Some(ToolDataView::Release { task_key, released, held_by })
                        && task_key == k && released == own && held_by == if held && !own {
                        Some(claims[k])
                    } else {
                        None
                    })
                    &&& own ==> !after.boards[tool.swarm_id].claims.contains_key(k)
                    &&& !own ==> after == boards
                }
            }
        }),
{
    the_actions_differ();
}

/// A call without an action, or with one that the tool does not know, is refused and
/// changes nothing.
pub proof fn unknown_actions_are_refused(
    tool: BoundView,
    boards: BoardsView,
    args: Map<Seq<char>, Seq<char>>,
)
    requires
        ({
            let action = tool::member_text(args, "action"@);
            action != Some("publish"@) && action != Some("read_board"@) && action != Some("claim"@)
                && action != Some("release"@)
        }),
    ensures
        tool.execute(boards, args).0 is Refused,
        tool.execute(boards, args).1 == boards,
        tool::member_text(args, "action"@) is None ==> tool.execute(boards, args).0 == (
        ToolResultView::Refused { error: "`"@ + "action"@ + "` is required"@ }),
{
}

} // verus!
