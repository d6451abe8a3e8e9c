use zeroclaw_swarm::board::{
    BoardError, BoardEvent, BoxState, BoxStatus, ClaimOutcome, FeedEntry, ReleaseOutcome,
    SwarmStateBoard, MAX_BOARDS, MAX_CLAIMS_PER_SWARM, MAX_NOTE_LEN, MAX_TASK_KEY_LEN,
};

fn board_with_two_boxes() -> SwarmStateBoard {
    let mut board = SwarmStateBoard::new();
    board
        .register("s1", vec!["box-1".to_string(), "box-2".to_string()])
        .expect("registering the first board must succeed");
    board
}

#[test]
fn publish_records_status_and_note() {
    let mut board = board_with_two_boxes();
    let state = board
        .publish("s1", "box-1", BoxStatus::Working, "reading the RFC")
        .expect("publishing as a registered box must succeed");
    assert_eq!(state.status, BoxStatus::Working);
    assert_eq!(state.note, "reading the RFC");
    let snapshot = board.snapshot("s1").expect("board must exist");
    assert_eq!(
        snapshot.boxes.get("box-1").expect("box-1").status,
        BoxStatus::Working
    );
    assert_eq!(
        snapshot.boxes.get("box-2").expect("box-2"),
        &BoxState::default()
    );
}

#[test]
fn publish_rejects_an_unregistered_box() {
    let mut board = board_with_two_boxes();
    let err = board
        .publish("s1", "box-9", BoxStatus::Done, "")
        .expect_err("an unregistered box must be refused");
    assert_eq!(
        err,
        BoardError::UnknownBox {
            swarm_id: "s1".to_string(),
            box_id: "box-9".to_string(),
        }
    );
}

#[test]
fn publish_rejects_an_oversized_note() {
    let mut board = board_with_two_boxes();
    let note = "x".repeat(MAX_NOTE_LEN + 1);
    assert!(matches!(
        board.publish("s1", "box-1", BoxStatus::Idle, &note),
        Err(BoardError::NoteTooLong { .. })
    ));
}

#[test]
fn a_note_of_exactly_the_limit_is_accepted() {
    let mut board = board_with_two_boxes();
    let note = "x".repeat(MAX_NOTE_LEN);
    let state = board
        .publish("s1", "box-1", BoxStatus::Idle, &note)
        .expect("the limit itself is allowed");
    assert_eq!(state.note, note);
}

#[test]
fn claim_is_exclusive_and_names_the_holder() {
    let mut board = board_with_two_boxes();
    assert_eq!(
        board.claim("s1", "box-1", "task-a"),
        Ok(ClaimOutcome::Granted)
    );
    assert_eq!(
        board.claim("s1", "box-2", "task-a"),
        Ok(ClaimOutcome::Held {
            holder: "box-1".to_string()
        })
    );
    assert_eq!(
        board.claim("s1", "box-1", "task-a"),
        Ok(ClaimOutcome::Granted)
    );
}

#[test]
fn raced_claims_produce_exactly_one_winner() {
    for order in [["box-1", "box-2"], ["box-2", "box-1"]] {
        let mut board = board_with_two_boxes();
        let mut winners = Vec::new();
        let mut losers = Vec::new();
        for box_id in order {
            match board
                .claim("s1", box_id, "task-a")
                .expect("claiming on a registered board must not error")
            {
                ClaimOutcome::Granted => winners.push(box_id.to_string()),
                ClaimOutcome::Held { holder } => losers.push((box_id.to_string(), holder)),
            }
        }
        assert_eq!(winners.len(), 1, "exactly one box may win a raced claim");
        assert_eq!(losers.len(), 1, "the other box must lose");
        let (loser, holder) = &losers[0];
        assert_eq!(
            holder, &winners[0],
            "the loser must be told who actually holds the key"
        );
        assert_ne!(loser, holder, "a box cannot both lose and hold");

        let snapshot = board.snapshot("s1").expect("board must exist");
        assert_eq!(snapshot.claims.len(), 1);
        assert_eq!(snapshot.claims.get("task-a"), Some(&winners[0]));
    }
}

#[test]
fn release_refuses_a_non_holder_and_frees_for_the_holder() {
    let mut board = board_with_two_boxes();
    assert_eq!(
        board.claim("s1", "box-1", "task-a"),
        Ok(ClaimOutcome::Granted)
    );
    assert_eq!(
        board.release("s1", "box-2", "task-a"),
        Ok(ReleaseOutcome::NotHolder {
            holder: "box-1".to_string()
        }),
        "releasing another box's claim must never be a steal"
    );
    assert_eq!(
        board.release("s1", "box-1", "task-a"),
        Ok(ReleaseOutcome::Released)
    );
    assert_eq!(
        board.release("s1", "box-1", "task-a"),
        Ok(ReleaseOutcome::Unclaimed)
    );
    let snapshot = board.snapshot("s1").expect("board must exist");
    assert!(snapshot.claims.is_empty());
    assert_eq!(snapshot.boxes.get("box-1").expect("box-1").claim, None);
}

#[test]
fn claim_and_release_reject_unusable_task_keys() {
    let mut board = board_with_two_boxes();
    assert!(matches!(
        board.claim("s1", "box-1", "  "),
        Err(BoardError::TaskKey { .. })
    ));
    assert!(matches!(
        board.claim("s1", "box-1", &"k".repeat(MAX_TASK_KEY_LEN + 1)),
        Err(BoardError::TaskKey { .. })
    ));
    assert!(matches!(
        board.release("s1", "box-1", "bad\nkey"),
        Err(BoardError::TaskKey { .. })
    ));
}

#[test]
fn operations_on_an_unregistered_swarm_are_refused() {
    let mut board = SwarmStateBoard::new();
    let expected = BoardError::UnknownSwarm {
        swarm_id: "ghost".to_string(),
    };
    assert_eq!(
        board.publish("ghost", "box-1", BoxStatus::Idle, ""),
        Err(expected)
    );
    assert!(board.snapshot("ghost").is_none());
    assert!(board.subscribe("ghost").is_err());
}

#[test]
fn subscribers_see_the_change_feed() {
    let mut board = board_with_two_boxes();
    board.subscribe("s1").expect("board must exist");
    board.take_feed();

    board
        .publish("s1", "box-1", BoxStatus::Working, "on it")
        .expect("publish must succeed");
    board.claim("s1", "box-1", "task-a").expect("claim");
    board.release("s1", "box-1", "task-a").expect("release");
    board.remove("s1");

    let events: Vec<FeedEntry> = board.take_feed();
    assert_eq!(events.len(), 4, "got {events:?}");
    assert!(events.iter().all(|entry| entry.swarm_id == "s1"));
    assert!(matches!(events[0].event, BoardEvent::Published { .. }));
    assert!(matches!(events[1].event, BoardEvent::Claimed { .. }));
    assert!(matches!(events[2].event, BoardEvent::Released { .. }));
    assert_eq!(events[3].event, BoardEvent::Reaped);
    assert!(board.take_feed().is_empty(), "a taken feed starts over");
}

#[test]
fn remove_returns_what_it_dropped() {
    let mut board = board_with_two_boxes();
    board.claim("s1", "box-1", "task-a").expect("claim");
    let dropped = board.remove("s1").expect("board must exist");
    assert_eq!(dropped.claims.len(), 1);
    assert!(board.is_empty());
    assert!(board.remove("s1").is_none());
}

#[test]
fn registration_is_bounded() {
    let mut board = SwarmStateBoard::new();
    for i in 0..MAX_BOARDS {
        board
            .register(&format!("s{i}"), vec!["box-1".to_string()])
            .expect("registrations below the limit must succeed");
    }
    assert_eq!(
        board.register("overflow", vec![]),
        Err(BoardError::BoardLimit)
    );
    assert_eq!(board.register("s0", vec!["box-1".to_string()]), Ok(()));
    assert_eq!(board.len(), MAX_BOARDS);
}

#[test]
fn claims_are_bounded_per_swarm() {
    let mut board = board_with_two_boxes();
    for i in 0..MAX_CLAIMS_PER_SWARM {
        assert_eq!(
            board.claim("s1", "box-1", &format!("task-{i}")),
            Ok(ClaimOutcome::Granted)
        );
    }
    assert!(matches!(
        board.claim("s1", "box-1", "one-too-many"),
        Err(BoardError::ClaimLimit { .. })
    ));
}

#[test]
fn box_status_labels_round_trip() {
    for label in BoxStatus::all() {
        let parsed = BoxStatus::parse(label).expect("every advertised label must parse");
        assert_eq!(parsed.as_str(), label);
    }
    assert_eq!(BoxStatus::parse("escalated"), None);
}

#[test]
fn board_refusals_quote_the_ids_they_name() {
    let unknown = BoardError::UnknownBox {
        swarm_id: "s\"1".to_string(),
        box_id: "box-9".to_string(),
    };
    let text = unknown.message();
    assert!(text.contains("\"s\\\"1\""), "{text}");
    assert!(text.contains("\"box-9\""), "{text}");
    assert!(BoardError::BoardLimit.message().contains("64"));
}

#[test]
fn a_control_character_is_named_in_the_refusal() {
    let mut board = board_with_two_boxes();
    let err = board
        .claim("s1", "box-1", "bad\nkey")
        .expect_err("a control character must be refused");
    assert!(err.message().contains("'\\n'"), "{}", err.message());
}

#[test]
fn a_box_keeps_its_claim_until_it_is_released() {
    let mut board = board_with_two_boxes();
    board.claim("s1", "box-1", "task-a").expect("claim");
    board
        .publish("s1", "box-1", BoxStatus::Done, "finished")
        .expect("publish");
    let snapshot = board.snapshot("s1").expect("board");
    assert_eq!(
        snapshot.boxes.get("box-1").expect("box-1").claim.as_deref(),
        Some("task-a")
    );
}

#[test]
fn tearing_one_board_down_leaves_the_others() {
    let mut board = board_with_two_boxes();
    board
        .register("s2", vec!["box-1".to_string()])
        .expect("register");
    assert_eq!(
        board.claim("s2", "box-1", "task-a"),
        Ok(ClaimOutcome::Granted)
    );
    let kept = board.snapshot("s2");
    board.remove("s1").expect("was registered");
    assert_eq!(board.snapshot("s1"), None);
    assert_eq!(board.snapshot("s2"), kept);
}

#[test]
fn a_board_holds_the_boxes_it_was_last_registered_with() {
    let mut board = SwarmStateBoard::new();
    board
        .register("s1", vec!["box-1".to_string(), "box-2".to_string()])
        .expect("register");
    board
        .publish("s1", "box-1", BoxStatus::Working, "busy")
        .expect("publish");
    board.claim("s1", "box-2", "t-1").expect("claim");
    board.release("s1", "box-2", "t-1").expect("release");
    let seen = board.snapshot("s1").expect("board");
    assert_eq!(seen.boxes.len(), 2);

    board
        .register("s1", vec!["box-3".to_string()])
        .expect("register again");
    let seen = board.snapshot("s1").expect("board");
    assert_eq!(seen.boxes.len(), 1);
    assert!(seen.boxes.get("box-3").is_some());
    assert!(board
        .publish("s1", "box-1", BoxStatus::Idle, "")
        .is_err());
}
