use zeroclaw_swarm::board::{BoxStatus, SwarmStateBoard};
use zeroclaw_swarm::reap::{reap_plan, reap_swarm, ReapAnswers, ReapCall};
use zeroclaw_swarm::roster::{
    build_swarm_roster, swarm_box_alias, swarm_namespace, validate_id, BoxAnswer, Envelope,
    RosterBuild, RosterError, SwarmRoster, MAX_ROSTER_SIZE,
};
use zeroclaw_swarm::store::{BoxSpec, SwarmSpec};

fn spec_with_boxes(swarm_id: &str, box_ids: &[&str]) -> SwarmSpec {
    let mut spec = SwarmSpec::new(
        swarm_id,
        "test swarm",
        "anthropic",
        "model",
        "default",
        "supervisor",
        "ship it",
    );
    spec.boxes = box_ids
        .iter()
        .enumerate()
        .map(|(slot, box_id)| BoxSpec {
            box_id: (*box_id).to_string(),
            role: "worker".to_string(),
            job: "do the thing".to_string(),
            slot: u8::try_from(slot).unwrap_or(0),
        })
        .collect();
    spec
}

fn agents() -> Vec<String> {
    vec!["default".to_string()]
}

/// What the outside world answers for a roster of `n` boxes in the same envelope.
fn answers(n: usize) -> Vec<BoxAnswer<&'static str>> {
    (0..n)
        .map(|i| BoxAnswer {
            envelope: Envelope::Built("parent envelope"),
            identity: Ok(format!("agent-{i}")),
        })
        .collect()
}

fn build(spec: &SwarmSpec) -> Result<SwarmRoster<&'static str>, RosterError> {
    build_swarm_roster(spec, "default", agents(), Ok(()), answers(spec.boxes.len()))
}

#[test]
fn builds_synthetic_aliases_and_real_uuids() {
    let spec = spec_with_boxes("swarm-1", &["box-1", "box-2"]);
    let roster = build(&spec).expect("a roster inside the parent envelope must build");
    assert_eq!(roster.len(), 2);
    assert_eq!(
        roster.aliases(),
        vec!["swarm/swarm-1/box-1", "swarm/swarm-1/box-2"]
    );
    let ids = roster.agent_ids();
    assert_eq!(ids, vec!["agent-0", "agent-1"]);
    assert_ne!(ids[0], ids[1], "each box gets its own identity");
    let again = build(&spec).expect("rebuild must succeed");
    assert_eq!(again.agent_ids(), ids);
}

#[test]
fn boxes_inherit_the_parent_envelope_verbatim() {
    let roster = build(&spec_with_boxes("swarm-1", &["box-1"])).expect("build");
    assert_eq!(roster.parent_alias(), "default");
    assert_eq!(roster.boxes()[0].context, "parent envelope");
    assert_eq!(roster.boxes()[0].role, "worker");
    assert_eq!(roster.boxes()[0].job, "do the thing");
    assert_eq!(roster.boxes()[0].slot, 0);
}

#[test]
fn a_widening_policy_request_fails_the_build_closed() {
    let spec = spec_with_boxes("swarm-1", &["box-1", "box-2"]);
    let mut replies = answers(2);
    replies[1].envelope = Envelope::Refused("allowed_roots is wider".to_string());
    let err = build_swarm_roster(&spec, "default", agents(), Ok(()), replies)
        .expect_err("escalation must fail closed");
    match &err {
        RosterError::PolicyEscalation { box_id, .. } => assert_eq!(box_id, "box-2"),
        other => panic!("expected a policy-escalation refusal, got {other:?}"),
    }
    assert_eq!(
        err.message(),
        "box \"box-2\" requested a policy outside the \"default\" envelope: \
         allowed_roots is wider; a box may only narrow it"
    );
}

#[test]
fn synthetic_aliases_cannot_shadow_a_configured_agent() {
    let spec = spec_with_boxes("swarm-1", &["box-1"]);
    let mut configured = agents();
    configured.push("swarm/swarm-1/box-1".to_string());
    let err = build_swarm_roster(&spec, "default", configured, Ok(()), answers(1))
        .expect_err("a shadowing alias must be refused");
    assert_eq!(
        err,
        RosterError::AliasCollision {
            alias: "swarm/swarm-1/box-1".to_string()
        }
    );
}

#[test]
fn ids_that_could_forge_another_boxs_alias_are_refused() {
    for (swarm_id, box_id) in [
        ("a/b", "c"),
        ("a", "b/c"),
        ("..", "box-1"),
        ("a", ".."),
        ("a b", "box-1"),
        ("", "box-1"),
        ("a", ""),
    ] {
        let err = build(&spec_with_boxes(swarm_id, &[box_id]))
            .expect_err("unusable ids must be refused");
        assert!(
            matches!(err, RosterError::InvalidId { .. }),
            "({swarm_id:?}, {box_id:?}) must be refused, got {err:?}"
        );
    }
}

#[test]
fn duplicate_and_oversized_rosters_are_refused() {
    assert!(matches!(
        build(&spec_with_boxes("swarm-1", &["box-1", "box-1"])),
        Err(RosterError::DuplicateBox { .. })
    ));
    assert!(matches!(
        build(&spec_with_boxes("swarm-1", &[])),
        Err(RosterError::EmptyRoster { .. })
    ));
    let ids: Vec<String> = (0..=MAX_ROSTER_SIZE).map(|i| format!("box-{i}")).collect();
    let refs: Vec<&str> = ids.iter().map(String::as_str).collect();
    assert!(matches!(
        build(&spec_with_boxes("swarm-1", &refs)),
        Err(RosterError::RosterTooLarge { .. })
    ));
}

#[test]
fn an_unknown_parent_agent_is_refused() {
    let spec = spec_with_boxes("swarm-1", &["box-1"]);
    let err = build_swarm_roster(
        &spec,
        "ghost",
        agents(),
        Err("no such agent".to_string()),
        answers(1),
    )
    .expect_err("an unknown parent must be refused");
    assert!(matches!(err, RosterError::Parent { .. }), "got {err:?}");
    assert_eq!(
        err.message(),
        "cannot resolve the parent envelope from agent \"ghost\": no such agent"
    );
}

#[test]
fn an_identity_that_cannot_be_minted_fails_the_build() {
    let spec = spec_with_boxes("swarm-1", &["box-1", "box-2"]);
    let mut replies = answers(2);
    replies[0].identity = Err("database locked".to_string());
    let err = build_swarm_roster(&spec, "default", agents(), Ok(()), replies)
        .expect_err("no partial roster");
    assert_eq!(
        err,
        RosterError::Identity {
            alias: "swarm/swarm-1/box-1".to_string(),
            reason: "database locked".to_string(),
        }
    );
}

#[test]
fn building_a_roster_writes_no_agents_config() {
    let configured = agents();
    let roster = build_swarm_roster(
        &spec_with_boxes("swarm-1", &["box-1", "box-2"]),
        "default",
        configured.clone(),
        Ok(()),
        answers(2),
    )
    .expect("build");
    for entry in roster.boxes() {
        assert!(!configured.contains(&entry.alias));
    }
}

#[test]
fn a_roster_is_built_box_by_box() {
    let spec = spec_with_boxes("swarm-1", &["box-1", "box-2"]);
    let mut build: RosterBuild<u8> =
        RosterBuild::begin(&spec, "default", agents()).expect("begin");
    assert_eq!(
        build.plan_next(),
        Ok(Some("swarm/swarm-1/box-1".to_string()))
    );
    build.add_box(1, "agent-a".to_string());
    assert_eq!(
        build.plan_next(),
        Ok(Some("swarm/swarm-1/box-2".to_string()))
    );
    build.add_box(2, "agent-b".to_string());
    assert_eq!(build.plan_next(), Ok(None));
    let roster = build.finish().expect("complete");
    assert_eq!(roster.box_ids(), vec!["box-1", "box-2"]);
    assert_eq!(roster.get("box-2").expect("box-2").agent_id, "agent-b");
    assert!(roster.get("box-3").is_none());
}

#[test]
fn box_memories_share_the_swarms_namespace() {
    let roster = build(&spec_with_boxes("swarm-1", &["box-1", "box-2"])).expect("build");
    let scopes = roster.compose_memories(true).expect("allowlists are honored");
    assert_eq!(scopes.len(), 2);
    assert_eq!(scopes[0].0, "box-1");
    assert_eq!(scopes[0].1.namespace, swarm_namespace("swarm-1"));
    assert_eq!(scopes[0].1.agent_id, "agent-0");
    assert_eq!(scopes[1].1.agent_id, "agent-1");
    for (_, scope) in &scopes {
        assert_eq!(scope.allowlist, roster.agent_ids());
    }
}

#[test]
fn memories_are_not_composed_where_isolation_would_be_lost() {
    let roster = build(&spec_with_boxes("swarm-1", &["box-1", "box-2"])).expect("build");
    let err = roster
        .compose_memories(false)
        .expect_err("an allowlist-blind backend is refused");
    assert_eq!(
        err,
        RosterError::UnscopedMemory {
            swarm_id: "swarm-1".to_string(),
        }
    );
    assert_eq!(
        err.message(),
        "swarm \"swarm-1\" needs a memory backend that honors the per-agent allowlist"
    );
    let scope = roster.memory_scope("box-2").expect("box-2");
    assert_eq!(scope.agent_id, "agent-1");
    assert!(roster.memory_scope("box-9").is_none());
}

#[test]
fn aliases_tell_boxes_apart() {
    assert_eq!(swarm_box_alias("s", "b"), "swarm/s/b");
    assert_ne!(swarm_box_alias("s", "b"), swarm_box_alias("s", "c"));
    assert_ne!(swarm_box_alias("s", "b"), swarm_box_alias("t", "b"));
    let err = validate_id("box id", "a b").expect_err("a space is refused");
    assert!(err.message().contains("' '"), "{}", err.message());
}

// ── Reaping ─────────────────────────────────────────────────────────

fn worked_board(roster: &SwarmRoster<&'static str>) -> SwarmStateBoard {
    let mut board = SwarmStateBoard::new();
    board
        .register(roster.swarm_id(), roster.box_ids())
        .expect("register");
    for box_id in ["box-1", "box-3"] {
        board
            .publish(roster.swarm_id(), box_id, BoxStatus::Working, "working")
            .expect("publish");
        board
            .claim(roster.swarm_id(), box_id, &format!("task-{box_id}"))
            .expect("claim");
    }
    board
}

#[test]
fn reaping_leaves_no_residual_rows() {
    let roster = build(&spec_with_boxes(
        "swarm-reap",
        &["box-1", "box-2", "box-3", "box-4"],
    ))
    .expect("roster");
    let mut board = worked_board(&roster);
    let answers = ReapAnswers {
        namespace: Ok(2),
        rows: vec![Ok(0), Ok(0), Ok(0), Ok(0)],
        identities: vec![Ok(true), Ok(true), Ok(true), Ok(true)],
    };
    let report = reap_swarm(&mut board, &roster, &answers);

    assert!(report.is_clean(), "unclean reap: {:?}", report.warnings);
    assert_eq!(report.swarm_id, "swarm-reap");
    assert_eq!(report.namespace_rows_purged, 2);
    assert_eq!(report.agent_rows_purged, 0, "the namespace sweep took them");
    assert_eq!(
        report.identities_removed, 4,
        "every box's binding must go, not just the ones that wrote"
    );
    assert!(report.board_removed);
    assert_eq!(report.claims_dropped, 2);
    assert!(board.snapshot(roster.swarm_id()).is_none());
    assert!(board.is_empty(), "no board entry may survive a reap");
}

#[test]
fn reaping_survives_a_backend_that_cannot_purge() {
    let roster =
        build(&spec_with_boxes("swarm-none", &["box-1", "box-3"])).expect("roster");
    let mut board = worked_board(&roster);
    let answers = ReapAnswers {
        namespace: Err("unsupported".to_string()),
        rows: vec![Err("unsupported".to_string()), Ok(3)],
        identities: vec![Ok(false), Err("unsupported".to_string())],
    };
    let report = reap_swarm(&mut board, &roster, &answers);

    assert!(
        !report.is_clean(),
        "an unsupported purge must be reported, not swallowed"
    );
    assert_eq!(report.warnings.len(), 3);
    assert!(report.warnings[1].contains("swarm/swarm-none/box-1"));
    assert_eq!(report.agent_rows_purged, 3);
    assert_eq!(report.identities_removed, 0);
    assert!(
        report.board_removed,
        "board teardown must still happen after memory failures"
    );
    assert!(board.is_empty());
}

#[test]
fn a_reap_asks_for_rows_before_identities() {
    let roster = build(&spec_with_boxes("s", &["box-1", "box-2"])).expect("build");
    assert_eq!(
        reap_plan(&roster),
        vec![
            ReapCall::PurgeNamespace("swarm/s".to_string()),
            ReapCall::PurgeRows("swarm/s/box-1".to_string()),
            ReapCall::PurgeRows("swarm/s/box-2".to_string()),
            ReapCall::PurgeIdentity("swarm/s/box-1".to_string()),
            ReapCall::PurgeIdentity("swarm/s/box-2".to_string()),
        ]
    );
}

#[test]
fn a_reap_warns_in_the_order_it_asked() {
    let roster = build(&spec_with_boxes("s", &["box-1", "box-2"])).expect("build");
    let mut board = SwarmStateBoard::new();
    let answers = ReapAnswers {
        namespace: Err("n".to_string()),
        rows: vec![Ok(3), Err("r".to_string())],
        identities: vec![Err("i".to_string()), Ok(true)],
    };
    let report = reap_swarm(&mut board, &roster, &answers);
    assert_eq!(
        report.warnings,
        vec![
            "purge namespace swarm/s: n",
            "purge rows for swarm/s/box-2: r",
            "purge identity for swarm/s/box-1: i",
        ]
    );
    assert_eq!(report.agent_rows_purged, 3);
    assert_eq!(report.identities_removed, 1);
}
