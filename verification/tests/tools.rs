use serde_json::Value;
use zeroclaw_swarm::board::{BoxState, BoxStatus, SwarmStateBoard};
use zeroclaw_swarm::delegate_tool::{Delegation, SwarmDelegateTool};
use zeroclaw_swarm::engine::{BoxTurnError, BudgetAxis};
use zeroclaw_swarm::state_tool::SwarmStateTool;
use zeroclaw_swarm::tool::{ToolData, ToolResult};

fn args(fields: &[(&str, &str)]) -> Value {
    let mut map = serde_json::Map::new();
    for (key, value) in fields {
        map.insert(key.to_string(), Value::String(value.to_string()));
    }
    Value::Object(map)
}

fn tool_for(box_id: &str) -> SwarmStateTool {
    SwarmStateTool::new("s1", box_id)
}

fn board() -> SwarmStateBoard {
    let mut board = SwarmStateBoard::new();
    board
        .register("s1", vec!["box-1".to_string(), "box-2".to_string()])
        .expect("register");
    board
}

fn text_of(result: &ToolResult) -> &str {
    match result {
        ToolResult::Done { text, .. } => text,
        ToolResult::Refused { error } => error,
    }
}

#[test]
fn publish_then_read_board_round_trips() {
    let mut board = board();
    let one = tool_for("box-1");
    let two = tool_for("box-2");

    let published = one.execute(
        &mut board,
        &args(&[
            ("action", "publish"),
            ("status", "working"),
            ("note", "on task-a"),
        ]),
    );
    assert!(published.success(), "{published:?}");

    let read = two.execute(&mut board, &args(&[("action", "read_board")]));
    assert!(read.success());
    match read.data().expect("read_board returns structure") {
        ToolData::Board(snapshot) => {
            let state = snapshot.boxes.get("box-1").expect("box-1");
            assert_eq!(state.status, BoxStatus::Working);
            assert_eq!(state.note, "on task-a");
        }
        other => panic!("unexpected data {other:?}"),
    }
    assert!(text_of(&read).contains("box-1: working"));
}

#[test]
fn a_box_can_only_act_as_itself() {
    let mut board = board();
    let one = tool_for("box-1");

    one.execute(
        &mut board,
        &args(&[
            ("action", "publish"),
            ("status", "done"),
            ("box_id", "box-2"),
            ("swarm_id", "other"),
        ]),
    );

    let snapshot = board.snapshot("s1").expect("board");
    assert_eq!(
        snapshot.boxes.get("box-1").expect("box-1").status,
        BoxStatus::Done
    );
    assert_eq!(
        snapshot.boxes.get("box-2").expect("box-2").status,
        BoxStatus::Idle,
        "no argument may let one box publish as another"
    );
}

#[test]
fn contested_claims_report_the_holder_and_only_the_holder_releases() {
    let mut board = board();
    let one = tool_for("box-1");
    let two = tool_for("box-2");
    let claim = args(&[("action", "claim"), ("task_key", "task-a")]);
    let release = args(&[("action", "release"), ("task_key", "task-a")]);

    let won = one.execute(&mut board, &claim);
    assert!(matches!(
        won.data().expect("data"),
        ToolData::Claim { granted: true, .. }
    ));

    let lost = two.execute(&mut board, &claim);
    match lost.data().expect("data") {
        ToolData::Claim {
            granted, holder, ..
        } => {
            assert!(!granted);
            assert_eq!(holder, "box-1");
        }
        other => panic!("unexpected data {other:?}"),
    }

    let steal = two.execute(&mut board, &release);
    assert_eq!(
        steal.data().expect("data"),
        &ToolData::Release {
            task_key: "task-a".to_string(),
            released: false,
            held_by: Some("box-1".to_string()),
        }
    );
    assert_eq!(
        board
            .snapshot("s1")
            .expect("board")
            .claims
            .get("task-a")
            .map(String::as_str),
        Some("box-1"),
        "a non-holder must not free another box's claim"
    );

    let released = one.execute(&mut board, &release);
    assert!(matches!(
        released.data().expect("data"),
        ToolData::Release { released: true, .. }
    ));
    assert!(board.snapshot("s1").expect("board").claims.is_empty());
}

#[test]
fn malformed_calls_are_refused_without_touching_the_board() {
    let mut board = board();
    let one = tool_for("box-1");

    for fields in [
        vec![],
        vec![("action", "escalate")],
        vec![("action", "publish")],
        vec![("action", "publish"), ("status", "omniscient")],
        vec![("action", "claim")],
        vec![("action", "release"), ("task_key", "   ")],
    ] {
        let result = one.execute(&mut board, &args(&fields));
        assert!(!result.success(), "{fields:?} must be refused");
        assert!(matches!(result, ToolResult::Refused { .. }));
    }

    let snapshot = board.snapshot("s1").expect("board");
    assert!(snapshot.claims.is_empty());
    assert_eq!(
        snapshot.boxes.get("box-1").expect("box-1"),
        &BoxState::default()
    );
}

#[test]
fn an_argument_that_is_no_string_counts_as_missing() {
    let mut board = board();
    let mut map = serde_json::Map::new();
    map.insert("action".to_string(), Value::Bool(true));
    let result = tool_for("box-1").execute(&mut board, &Value::Object(map));
    assert!(!result.success());
    assert!(!tool_for("box-1").execute(&mut board, &Value::Null).success());
}

#[test]
fn the_state_tool_says_what_it_takes() {
    let tool = tool_for("box-1");
    assert_eq!(SwarmStateTool::NAME, "swarm_state");
    assert_eq!(tool.box_id(), "box-1");
    let parameters = tool.parameters();
    assert_eq!(parameters[0].name, "action");
    assert!(parameters[0].required);
    let status = parameters
        .iter()
        .find(|p| p.name == "status")
        .expect("status");
    assert_eq!(
        status.choices,
        Some(BoxStatus::all().map(String::from).to_vec())
    );
}

#[test]
fn schema_enumerates_exactly_the_roster_box_ids() {
    let box_ids = vec!["box-1".to_string(), "box-2".to_string()];
    let tool = SwarmDelegateTool::new(box_ids.clone());
    let parameters = tool.parameters();
    let enumerated = parameters
        .iter()
        .find(|p| p.name == "box_id")
        .expect("box_id must be a parameter")
        .choices
        .clone()
        .expect("box_id must carry an enum");
    assert_eq!(enumerated, box_ids);
    assert_eq!(tool.box_ids(), box_ids);
}

fn delegate_tool() -> SwarmDelegateTool {
    SwarmDelegateTool::new(vec!["box-1".to_string(), "box-2".to_string()])
}

#[test]
fn a_delegation_names_a_roster_box_and_a_subtask() {
    let tool = delegate_tool();
    assert_eq!(
        tool.plan(&args(&[("box_id", "box-2"), ("subtask", "read it")])),
        Ok(Delegation {
            box_id: "box-2".to_string(),
            subtask: "read it".to_string(),
        })
    );
    let refused = tool
        .plan(&args(&[("box_id", "box-9"), ("subtask", "read it")]))
        .expect_err("off the roster");
    assert_eq!(
        text_of(&refused),
        "box \"box-9\" is not on this swarm's roster; valid boxes are: box-1, box-2"
    );
    assert!(tool.plan(&args(&[("box_id", "box-1")])).is_err());
    assert!(tool.plan(&args(&[("subtask", "read it")])).is_err());
}

#[test]
fn a_delegations_outcome_reads_as_the_box_left_it() {
    let said = SwarmDelegateTool::answer("box-1", Ok("done and dusted".to_string()));
    assert_eq!(text_of(&said), "done and dusted");
    let silent = SwarmDelegateTool::answer("box-1", Ok("  ".to_string()));
    assert_eq!(text_of(&silent), "box-1 completed without output");
    let spent = SwarmDelegateTool::answer(
        "box-1",
        Err(BoxTurnError::BudgetExhausted(BudgetAxis::Tokens)),
    );
    assert!(!spent.success());
    assert_eq!(
        text_of(&spent),
        "swarm budget exhausted on the tokens axis; no further delegation admitted"
    );
    let failed =
        SwarmDelegateTool::answer("box-1", Err(BoxTurnError::Turn("no route".to_string())));
    assert_eq!(text_of(&failed), "box box-1 turn failed: no route");
    let held = SwarmDelegateTool::answer(
        "box-1",
        Err(BoxTurnError::UserEngaged("box-1".to_string())),
    );
    assert!(text_of(&held).contains("engaged with a user"));
}
