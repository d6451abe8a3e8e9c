use zeroclaw_swarm::board::SwarmStateBoard;
use zeroclaw_swarm::engine::run::{measured_spend, RoundEnd, RoundOutcome, RoundStart};
use zeroclaw_swarm::engine::supervisor::{Pausing, Preparation};
use zeroclaw_swarm::engine::{
    orchestrator_alias, swarm_task, task_status, BoxTurnError, BudgetAxis, DriverExit,
    BarredTools, GrantedTool, SwarmEngine, SwarmEngineError, TaskStatus, ToolKind,
};
use zeroclaw_swarm::reap::ReapAnswers;
use zeroclaw_swarm::roster::{BoxAnswer, Envelope};
use zeroclaw_swarm::store::{
    default_roster, InMemorySwarmStore, PayloadValue, PersistedSwarm, SwarmBudget,
    SwarmBudgetLimits, SwarmPauseReason, SwarmRun, SwarmSpec, SwarmSpend, SwarmStatus, SwarmStore,
};
use zeroclaw_swarm::text::truncate;
use zeroclaw_swarm::usd::Usd;

type Engine = SwarmEngine<InMemorySwarmStore, ()>;

const NOW: &str = "2026-01-01T00:00:00Z";
const PROVIDER: &str = "scripted";
const MODEL: &str = "scripted-model";

fn prep(boxes: usize) -> Preparation<()> {
    Preparation {
        agents: vec!["default".to_string()],
        parent: Ok(()),
        answers: (0..boxes)
            .map(|i| BoxAnswer {
                envelope: Envelope::Built(()),
                identity: Ok(format!("agent-{i}")),
            })
            .collect(),
        honors_allowlist: true,
    }
}

fn clean(boxes: usize) -> ReapAnswers {
    ReapAnswers {
        namespace: Ok(0),
        rows: (0..boxes).map(|_| Ok(0)).collect(),
        identities: (0..boxes).map(|_| Ok(true)).collect(),
    }
}

fn spec_with(id: &str, boxes: usize, budget: SwarmBudget) -> SwarmSpec {
    let mut spec = SwarmSpec::new(
        id,
        &format!("Swarm {id}"),
        PROVIDER,
        MODEL,
        "default",
        "supervisor",
        "ship the thing",
    );
    spec.budget = budget;
    spec.boxes = default_roster(boxes);
    spec
}

fn custom(max_turns: u32, max_tokens: u64, max_cost_usd: Usd) -> SwarmBudget {
    SwarmBudget::Custom(SwarmBudgetLimits {
        max_turns,
        max_tokens,
        max_cost_usd,
    })
}

fn roomy() -> SwarmBudget {
    custom(100, 10_000_000, Usd::dollars(1000))
}

fn boundless() -> Usd {
    Usd { micros: u64::MAX }
}

fn created(id: &str, budget: SwarmBudget) -> InMemorySwarmStore {
    let mut store = InMemorySwarmStore::new();
    store
        .save_swarm(&PersistedSwarm::new(spec_with(id, 2, budget)))
        .expect("save created swarm");
    store
}

fn engine(store: InMemorySwarmStore) -> Engine {
    SwarmEngine::new(store, SwarmStateBoard::new(), "default", "boot-test")
}

fn run_of(engine: &Engine, id: &str) -> SwarmRun {
    engine
        .store()
        .load_swarm(id)
        .expect("load")
        .expect("present")
        .run
}

fn kinds(engine: &Engine, id: &str) -> Vec<String> {
    engine
        .store()
        .list_events(id)
        .expect("events")
        .into_iter()
        .map(|e| e.kind)
        .collect()
}

fn box_delegated_events(engine: &Engine, id: &str) -> Vec<String> {
    engine
        .store()
        .list_events(id)
        .expect("events")
        .into_iter()
        .filter(|e| e.kind == "box_delegated")
        .filter_map(|e| e.box_id)
        .collect()
}

/// One delegation from admission to its end.
fn box_turn(
    engine: &mut Engine,
    id: &str,
    box_id: &str,
    spend: SwarmSpend,
) -> Result<String, BoxTurnError> {
    engine.start_box_turn(id, box_id, "work", 0, NOW)?;
    engine.finish_box_turn(id, box_id, spend, Ok("box ok".to_string()), NOW)
}

fn plan(engine: &mut Engine, id: &str, round: usize) -> (String, u64) {
    match engine.begin_round(id, round, NOW).expect("live run") {
        RoundStart::Plan { prompt, before } => (prompt, before),
        RoundStart::Exit(exit) => panic!("unexpected exit {exit:?}"),
    }
}

fn said(text: &str) -> RoundOutcome {
    RoundOutcome::Turn {
        spend: measured_spend(0, 0, Usd::zero()),
        result: Ok(text.to_string()),
    }
}

#[test]
fn budget_axis_labels_are_stable() {
    assert_eq!(BudgetAxis::Turns.as_str(), "turns");
    assert_eq!(BudgetAxis::Tokens.as_str(), "tokens");
    assert_eq!(BudgetAxis::Cost.as_str(), "cost");
}

#[test]
fn truncate_keeps_short_text_and_marks_long_text() {
    assert_eq!(truncate("hi", 8), "hi");
    assert_eq!(truncate("abcdef", 3), "abc…");
}

#[test]
fn swarm_out_of_roster_target_rejected_by_engine_primitive() {
    let mut engine = engine(created("s-roster", roomy()));
    engine.begin_run("s-roster", prep(2), NOW).expect("begin");
    let err = engine
        .start_box_turn("s-roster", "ghost", "do it", 0, NOW)
        .expect_err("an out-of-roster box must be refused");
    assert_eq!(err, BoxTurnError::UnknownBox("ghost".to_string()));
    box_turn(
        &mut engine,
        "s-roster",
        "box-1",
        measured_spend(1, 1, Usd::zero()),
    )
    .expect("an in-roster box must be admitted");
}

#[test]
fn swarm_orchestrator_out_of_roster_runs_no_box_and_completes() {
    let mut engine = engine(created("s-ghost", roomy()));
    engine.start("s-ghost", prep(2), NOW).expect("start");
    let (_, before) = plan(&mut engine, "s-ghost", 0);
    engine
        .start_box_turn("s-ghost", "ghost", "unreachable subtask", 0, NOW)
        .expect_err("off the roster");
    assert_eq!(
        engine.end_round("s-ghost", 0, before, said("could not delegate; finishing"), NOW),
        Some(RoundEnd::Exit(DriverExit::Completed))
    );
    engine
        .finish_drive("s-ghost", DriverExit::Completed, &clean(2), NOW)
        .expect("a completed run is reaped");
    assert_eq!(run_of(&engine, "s-ghost").status, SwarmStatus::Completed);
    assert!(
        box_delegated_events(&engine, "s-ghost").is_empty(),
        "an out-of-roster delegation must never run a box"
    );
}

fn drive_box_turns_until_budget(budget: SwarmBudget, spend: SwarmSpend) -> (Engine, BudgetAxis) {
    let mut engine = engine(created("s-budget", budget));
    engine.begin_run("s-budget", prep(2), NOW).expect("begin");
    let mut axis = None;
    for _ in 0..10 {
        match box_turn(&mut engine, "s-budget", "box-1", spend) {
            Ok(_) => {}
            Err(BoxTurnError::BudgetExhausted(a)) => {
                axis = Some(a);
                break;
            }
            Err(other) => panic!("unexpected box turn error: {}", other.message()),
        }
    }
    (
        engine,
        axis.expect("budget must eventually halt delegation"),
    )
}

#[test]
fn swarm_budget_halts_on_the_turns_axis_alone() {
    let (engine, axis) = drive_box_turns_until_budget(
        custom(2, u64::MAX, boundless()),
        measured_spend(0, 0, Usd::zero()),
    );
    assert_eq!(axis, BudgetAxis::Turns);
    let run = run_of(&engine, "s-budget");
    assert_eq!(
        run.status,
        SwarmStatus::Paused {
            reason: SwarmPauseReason::BudgetExhausted
        }
    );
    assert_eq!(
        run.spent.turns, 2,
        "exactly the admitted turns are recorded"
    );
}

#[test]
fn swarm_budget_halts_on_the_tokens_axis_alone() {
    let (engine, axis) = drive_box_turns_until_budget(
        custom(100, 1_000, boundless()),
        measured_spend(600, 0, Usd::zero()),
    );
    assert_eq!(axis, BudgetAxis::Tokens);
    let run = run_of(&engine, "s-budget");
    assert_eq!(
        run.status,
        SwarmStatus::Paused {
            reason: SwarmPauseReason::BudgetExhausted
        }
    );
    assert_eq!(run.spent.tokens, 1_200, "two 600-token turns were admitted");
    assert!(run.spent.turns < 100, "the turns axis did not trip first");
}

#[test]
fn swarm_budget_halts_on_the_cost_axis_alone() {
    let (engine, axis) = drive_box_turns_until_budget(
        custom(100, u64::MAX, Usd::dollars(3)),
        measured_spend(1_000, 1_000, Usd::dollars(2)),
    );
    assert_eq!(axis, BudgetAxis::Cost);
    let run = run_of(&engine, "s-budget");
    assert_eq!(
        run.status,
        SwarmStatus::Paused {
            reason: SwarmPauseReason::BudgetExhausted
        }
    );
    assert!(
        run.spent.cost_usd >= Usd::dollars(3),
        "spend reached the cost ceiling"
    );
    assert!(run.spent.turns < 100, "the turns axis did not trip first");
    let axes: Vec<PayloadValue> = engine
        .store()
        .list_events("s-budget")
        .expect("events")
        .into_iter()
        .filter(|e| e.kind == "budget_exhausted")
        .flat_map(|e| e.payload)
        .filter(|f| f.name == "axis")
        .map(|f| f.value)
        .collect();
    assert_eq!(axes, vec![PayloadValue::Text("cost".to_string())]);
}

#[test]
fn swarm_full_lifecycle_start_run_complete() {
    let mut engine = engine(created("s-life", roomy()));
    engine.start("s-life", prep(2), NOW).expect("start");
    assert_eq!(run_of(&engine, "s-life").status, SwarmStatus::Running);

    let (prompt, before) = plan(&mut engine, "s-life", 0);
    assert!(prompt.contains("ship the thing"));
    assert!(prompt.contains("- box-1"));
    box_turn(
        &mut engine,
        "s-life",
        "box-1",
        measured_spend(10, 5, Usd::zero()),
    )
    .expect("admitted");
    assert_eq!(
        engine.end_round("s-life", 0, before, said("round one complete"), NOW),
        Some(RoundEnd::Next(1))
    );
    let (_, before) = plan(&mut engine, "s-life", 1);
    assert_eq!(
        engine.end_round("s-life", 1, before, said("goal met"), NOW),
        Some(RoundEnd::Exit(DriverExit::Completed))
    );
    let report = engine
        .finish_drive("s-life", DriverExit::Completed, &clean(2), NOW)
        .expect("reaped");
    assert!(report.is_clean());

    let run = run_of(&engine, "s-life");
    assert_eq!(run.status, SwarmStatus::Completed);
    assert_eq!(
        run.spent.turns, 3,
        "orchestrator + box turns were counted"
    );
    assert_eq!(run.spent.tokens, 15, "box usage accumulated into spend");
    assert_eq!(
        box_delegated_events(&engine, "s-life"),
        vec!["box-1".to_string()]
    );
    assert_eq!(
        task_status(DriverExit::Completed),
        Some(TaskStatus::Completed)
    );
    assert!(engine.board().is_empty(), "no board survives a completion");
    assert!(engine.live("s-life").is_none());
    assert!(
        engine.store().load_swarm("s-life").expect("load").is_some(),
        "the swarm document survives; only the ephemeral run state is reaped"
    );
}

#[test]
fn swarm_restart_recovery_parks_and_resume_rehydrates() {
    let mut store = created("s-recover", roomy());
    let mut swarm = store.load_swarm("s-recover").expect("load").expect("some");
    swarm.revision += 1;
    swarm.run.status = SwarmStatus::Running;
    swarm
        .run
        .sessions
        .insert("box-1".to_string(), "sess-box-1".to_string());
    swarm
        .run
        .sessions
        .insert("box-2".to_string(), "sess-box-2".to_string());
    store.save_swarm(&swarm).expect("save running");
    store
        .try_claim_swarm_with_boot("s-recover", "boot-dead")
        .expect("claim")
        .expect("claim wins");

    let mut engine = engine(store);
    let recovered = engine.recover().expect("recover");
    assert_eq!(recovered, vec!["s-recover".to_string()]);
    assert_eq!(
        run_of(&engine, "s-recover").status,
        SwarmStatus::Paused {
            reason: SwarmPauseReason::DaemonRestart
        }
    );

    engine.resume("s-recover", prep(2), NOW).expect("resume");
    let (_, before) = plan(&mut engine, "s-recover", 0);
    assert_eq!(
        engine.end_round("s-recover", 0, before, said("nothing to do"), NOW),
        Some(RoundEnd::Exit(DriverExit::Completed))
    );
    engine
        .finish_drive("s-recover", DriverExit::Completed, &clean(2), NOW)
        .expect("reaped");
    let run = run_of(&engine, "s-recover");
    assert_eq!(run.status, SwarmStatus::Completed);
    assert_eq!(
        run.sessions.get("box-1").map(String::as_str),
        Some("sess-box-1"),
        "resume must rehydrate the recorded box sessions, not mint fresh ones"
    );
    assert_eq!(
        run.sessions.get("box-2").map(String::as_str),
        Some("sess-box-2")
    );
}

#[test]
fn a_first_start_mints_a_session_for_every_box() {
    let mut engine = engine(created("s-fresh", roomy()));
    engine.start("s-fresh", prep(2), NOW).expect("start");
    let run = run_of(&engine, "s-fresh");
    let one = run.sessions.get("box-1").expect("box-1 session");
    let two = run.sessions.get("box-2").expect("box-2 session");
    assert_ne!(one, two);
    assert!(!one.is_empty());
}

#[test]
fn swarm_pause_finishes_in_flight_then_holds() {
    let mut engine = engine(created("s-pause", roomy()));
    engine.start("s-pause", prep(2), NOW).expect("start");
    let (_, before) = plan(&mut engine, "s-pause", 0);
    engine
        .start_box_turn("s-pause", "box-1", "long running subtask", 0, NOW)
        .expect("admitted");

    assert_eq!(engine.pause("s-pause", NOW), Ok(Pausing::Draining));

    engine
        .finish_box_turn(
            "s-pause",
            "box-1",
            measured_spend(1, 1, Usd::zero()),
            Ok("box done".to_string()),
            NOW,
        )
        .expect("the turn in flight finishes");
    assert_eq!(
        engine.end_round("s-pause", 0, before, said("round done"), NOW),
        Some(RoundEnd::Next(1))
    );
    assert!(matches!(
        engine.begin_round("s-pause", 1, NOW),
        Some(RoundStart::Exit(DriverExit::Paused))
    ));
    assert!(engine
        .finish_drive("s-pause", DriverExit::Paused, &clean(0), NOW)
        .is_none());

    assert_eq!(
        run_of(&engine, "s-pause").status,
        SwarmStatus::Paused {
            reason: SwarmPauseReason::UserRequested
        },
        "pause must hold at UserRequested after finishing the in-flight round"
    );
    assert!(
        !box_delegated_events(&engine, "s-pause").is_empty(),
        "the in-flight box turn must finish before the run holds"
    );
    assert_eq!(task_status(DriverExit::Paused), Some(TaskStatus::Paused));
    engine
        .resume("s-pause", prep(2), NOW)
        .expect("a parked run can be resumed");
}

#[test]
fn swarm_stop_cancels_and_reaps_cleanly() {
    let mut engine = engine(created("s-stop", roomy()));
    engine.start("s-stop", prep(2), NOW).expect("start");
    let (_, before) = plan(&mut engine, "s-stop", 0);
    engine
        .start_box_turn("s-stop", "box-1", "long running subtask", 0, NOW)
        .expect("admitted");

    assert_eq!(engine.cancel_run("s-stop"), Ok(true), "a driver must exit");
    assert_eq!(
        engine.end_round("s-stop", 0, before, said("cancelled"), NOW),
        Some(RoundEnd::Exit(DriverExit::Cancelled))
    );
    assert!(engine
        .finish_drive("s-stop", DriverExit::Cancelled, &clean(0), NOW)
        .is_none());
    let report = engine.stop("s-stop", &clean(2), NOW).expect("stop");

    assert!(
        report.is_clean(),
        "stop must reap cleanly: {:?}",
        report.warnings
    );
    assert!(
        engine.board().is_empty(),
        "the board must not survive a stop"
    );
    assert_eq!(run_of(&engine, "s-stop").status, SwarmStatus::Stopped);
    assert_eq!(task_status(DriverExit::Cancelled), None);
    assert_eq!(
        engine.start("s-stop", prep(2), NOW),
        Err(SwarmEngineError::Terminal("s-stop".to_string()))
    );
}

#[test]
fn swarm_concurrent_box_turns_admit_at_most_the_turn_budget() {
    let mut engine = engine(created("s-atomic", custom(2, u64::MAX, boundless())));
    engine.begin_run("s-atomic", prep(2), NOW).expect("begin");

    let mut admitted = 0;
    let mut denied = 0;
    for _ in 0..4 {
        match engine.start_box_turn("s-atomic", "box-1", "work", 0, NOW) {
            Ok(_) => admitted += 1,
            Err(BoxTurnError::BudgetExhausted(BudgetAxis::Turns))
            | Err(BoxTurnError::NotRunning(_)) => denied += 1,
            Err(other) => panic!("unexpected box turn error: {}", other.message()),
        }
    }
    assert_eq!(
        admitted, 2,
        "atomic admission admits exactly the turn budget regardless of race order"
    );
    assert_eq!(
        denied, 2,
        "over-budget delegations are refused before running"
    );
    for _ in 0..2 {
        engine
            .finish_box_turn(
                "s-atomic",
                "box-1",
                measured_spend(0, 0, Usd::zero()),
                Ok("ok".to_string()),
                NOW,
            )
            .expect("finish");
    }

    let run = run_of(&engine, "s-atomic");
    assert_eq!(
        run.spent.turns, 2,
        "atomic admission never lets recorded spend exceed the ceiling"
    );
    assert_eq!(
        run.status,
        SwarmStatus::Paused {
            reason: SwarmPauseReason::BudgetExhausted
        }
    );
}

#[test]
fn swarm_pause_on_begin_run_releases_claim_and_resume_succeeds() {
    let mut engine = engine(created("s-begin", roomy()));
    engine.begin_run("s-begin", prep(2), NOW).expect("begin");
    assert_eq!(engine.pause("s-begin", NOW), Ok(Pausing::Parked));
    assert_eq!(
        run_of(&engine, "s-begin").status,
        SwarmStatus::Paused {
            reason: SwarmPauseReason::UserRequested
        },
        "a driver-less pause must park the run"
    );

    engine
        .resume("s-begin", prep(2), NOW)
        .expect("resume must succeed after a begin_run pause released the claim");
    let (_, before) = plan(&mut engine, "s-begin", 0);
    assert_eq!(
        engine.end_round("s-begin", 0, before, said("nothing to do"), NOW),
        Some(RoundEnd::Exit(DriverExit::Completed))
    );
    engine
        .finish_drive("s-begin", DriverExit::Completed, &clean(2), NOW)
        .expect("reaped");
    assert_eq!(run_of(&engine, "s-begin").status, SwarmStatus::Completed);
}

#[test]
fn swarm_recover_reclaims_prior_boot_claim_even_when_paused_with_live_lease() {
    let mut store = created("s-wedge", roomy());
    let mut swarm = store.load_swarm("s-wedge").expect("load").expect("some");
    swarm.revision += 1;
    swarm.run.status = SwarmStatus::Paused {
        reason: SwarmPauseReason::BudgetExhausted,
    };
    store.save_swarm(&swarm).expect("save paused");
    store
        .try_claim_swarm_with_boot("s-wedge", "boot-dead")
        .expect("claim")
        .expect("claim wins");

    let mut engine = engine(store);
    let recovered = engine.recover().expect("recover");
    assert!(
        recovered.is_empty(),
        "an already-paused swarm is not re-parked, only its dead claim is freed"
    );
    assert_eq!(
        run_of(&engine, "s-wedge").status,
        SwarmStatus::Paused {
            reason: SwarmPauseReason::BudgetExhausted
        },
        "recovery must not touch a non-Running swarm's status (never auto-resume)"
    );
    assert!(
        engine.claim_run("s-wedge").is_ok(),
        "recover must free a prior-boot claim so the swarm can be resumed"
    );
}

#[test]
fn swarm_user_engaged_box_holds_delegation_until_handback() {
    let mut engine = engine(created("s-engaged", roomy()));
    let spend = measured_spend(1, 1, Usd::zero());
    engine.begin_run("s-engaged", prep(2), NOW).expect("begin");

    box_turn(&mut engine, "s-engaged", "box-1", spend).expect("an unengaged box is admitted");
    assert!(!engine.is_box_user_engaged("s-engaged", "box-1", 0));

    assert!(
        engine.engage_box_for_user("s-engaged", "box-1", 0),
        "engaging a roster box must succeed"
    );
    assert!(engine.is_box_user_engaged("s-engaged", "box-1", 0));
    let held = box_turn(&mut engine, "s-engaged", "box-1", spend)
        .expect_err("a user-engaged box must refuse orchestrator delegation");
    assert_eq!(held, BoxTurnError::UserEngaged("box-1".to_string()));

    box_turn(&mut engine, "s-engaged", "box-2", spend)
        .expect("a different box is still delegable while box-1 is engaged");

    assert!(
        engine.release_box_for_user("s-engaged", "box-1", 0),
        "releasing a held box reports it was held"
    );
    assert!(!engine.is_box_user_engaged("s-engaged", "box-1", 0));
    box_turn(&mut engine, "s-engaged", "box-1", spend)
        .expect("a released box is delegable again");
}

#[test]
fn swarm_engage_and_release_are_scoped_to_a_live_run() {
    let mut engine = engine(created("s-norun", roomy()));
    assert!(!engine.engage_box_for_user("s-norun", "box-1", 0));
    assert!(!engine.is_box_user_engaged("s-norun", "box-1", 0));
    assert!(!engine.release_box_for_user("s-norun", "box-1", 0));

    engine.begin_run("s-norun", prep(2), NOW).expect("begin");
    assert!(!engine.engage_box_for_user("s-norun", "ghost", 0));
    assert!(!engine.is_box_user_engaged("s-norun", "ghost", 0));
}

#[test]
fn a_hold_runs_out_after_ninety_idle_seconds() {
    let mut engine = engine(created("s-idle", roomy()));
    engine.begin_run("s-idle", prep(2), NOW).expect("begin");
    assert!(engine.engage_box_for_user("s-idle", "box-1", 1_000));
    assert!(engine.is_box_user_engaged("s-idle", "box-1", 1_089));
    assert!(!engine.is_box_user_engaged("s-idle", "box-1", 1_090));
    engine
        .start_box_turn("s-idle", "box-1", "work", 1_090, NOW)
        .expect("the box is back with the orchestrator");
}

#[test]
fn an_interjection_takes_a_box_and_the_handback_returns_it() {
    let mut engine = engine(created("s-chat", roomy()));
    engine.begin_run("s-chat", prep(2), NOW).expect("begin");
    engine.interject("s-chat", "box-1", "stop, look at this first", 5);
    assert!(engine.is_box_user_engaged("s-chat", "box-1", 5));
    engine.interject("s-chat", "box-1", "resume", 6);
    assert!(!engine.is_box_user_engaged("s-chat", "box-1", 6));
}

#[test]
fn a_second_driver_is_refused() {
    let mut engine = engine(created("s-two", roomy()));
    engine.start("s-two", prep(2), NOW).expect("start");
    assert_eq!(
        engine.begin_run("s-two", prep(2), NOW),
        Err(SwarmEngineError::AlreadyClaimed("s-two".to_string()))
    );
    assert!(engine.heartbeat("s-two"));
}

#[test]
fn an_absent_swarm_is_not_found() {
    let mut engine = engine(InMemorySwarmStore::new());
    assert_eq!(
        engine.start("nope", prep(2), NOW),
        Err(SwarmEngineError::NotFound("nope".to_string()))
    );
    assert_eq!(engine.status("nope"), Ok(None));
    assert_eq!(
        engine.pause("nope", NOW),
        Err(SwarmEngineError::NotRunning {
            swarm_id: "nope".to_string()
        })
    );
    assert_eq!(
        engine
            .start_box_turn("nope", "box-1", "work", 0, NOW)
            .map(|_| ()),
        Err(BoxTurnError::NotRunning("nope".to_string()))
    );
    assert_eq!(
        SwarmEngineError::NotFound("nope".to_string()).message(),
        "no swarm found for id \"nope\""
    );
}

#[test]
fn a_roster_that_cannot_be_built_gives_the_claim_back() {
    let mut engine = engine(created("s-roster-fail", roomy()));
    let mut bad = prep(2);
    bad.answers[1].identity = Err("database locked".to_string());
    let err = engine
        .start("s-roster-fail", bad, NOW)
        .expect_err("no partial roster");
    assert!(matches!(err, SwarmEngineError::Roster(_)), "{err:?}");
    assert!(engine.board().is_empty());
    engine
        .start("s-roster-fail", prep(2), NOW)
        .expect("the claim was given back");
}

#[test]
fn a_failed_box_turn_still_costs_its_spend() {
    let mut engine = engine(created("s-fail", roomy()));
    engine.begin_run("s-fail", prep(2), NOW).expect("begin");
    engine
        .start_box_turn("s-fail", "box-1", "work", 0, NOW)
        .expect("admitted");
    let err = engine
        .finish_box_turn(
            "s-fail",
            "box-1",
            measured_spend(7, 3, Usd { micros: 20 }),
            Err("provider down".to_string()),
            NOW,
        )
        .expect_err("the turn failed");
    assert_eq!(err, BoxTurnError::Turn("provider down".to_string()));
    let spent = run_of(&engine, "s-fail").spent;
    assert_eq!(spent.turns, 1);
    assert_eq!(spent.tokens, 10);
    assert_eq!(spent.cost_usd, Usd { micros: 20 });
}

#[test]
fn an_aborted_box_turn_frees_its_reservation() {
    let mut engine = engine(created("s-abort", custom(1, u64::MAX, boundless())));
    engine.begin_run("s-abort", prep(2), NOW).expect("begin");
    engine
        .start_box_turn("s-abort", "box-1", "work", 0, NOW)
        .expect("admitted");
    assert_eq!(
        engine.abort_box_turn("s-abort", "no agent".to_string()),
        BoxTurnError::Turn("no agent".to_string())
    );
    engine
        .start_box_turn("s-abort", "box-1", "work", 0, NOW)
        .expect("the one turn is free again");
}

#[test]
fn an_orchestrator_that_cannot_run_ends_the_drive_and_is_logged() {
    let mut engine = engine(created("s-orch", roomy()));
    engine.start("s-orch", prep(2), NOW).expect("start");
    let (_, before) = plan(&mut engine, "s-orch", 0);
    assert_eq!(
        engine.end_round(
            "s-orch",
            0,
            before,
            RoundOutcome::NoAgent("no provider".to_string()),
            NOW
        ),
        Some(RoundEnd::Exit(DriverExit::Completed))
    );
    assert!(kinds(&engine, "s-orch").contains(&"orchestrator_error".to_string()));
}

#[test]
fn the_prompt_shows_the_roster_and_the_board() {
    let mut engine = engine(created("s-prompt", roomy()));
    engine.start("s-prompt", prep(2), NOW).expect("start");
    engine
        .start_box_turn("s-prompt", "box-1", "read the \"RFC\"", 0, NOW)
        .expect("admitted");
    let (prompt, _) = plan(&mut engine, "s-prompt", 3);
    assert!(
        prompt.starts_with("You are the orchestrator of swarm \"Swarm s-prompt\" (role: supervisor)."),
        "{prompt}"
    );
    assert!(prompt.contains("- box-2 — role: (unset), job: (unset)\n"));
    assert!(prompt.contains("- box-1: working — "), "{prompt}");
    assert!(prompt.contains("- box-2: idle\n"));
    assert!(prompt.contains("Planning round 3."));
}

fn granted(tools: &[(&str, ToolKind)]) -> Vec<GrantedTool> {
    tools
        .iter()
        .map(|(name, kind)| GrantedTool {
            name: name.to_string(),
            kind: *kind,
        })
        .collect()
}

#[test]
fn a_box_gets_no_tool_that_starts_agents() {
    let mut engine = engine(created("s-tools", roomy()));
    engine.begin_run("s-tools", prep(2), NOW).expect("begin");
    let tools = granted(&[
        ("shell", ToolKind::Other),
        ("swarm_delegate", ToolKind::Reentrant),
        ("coder", ToolKind::Launcher),
        ("memory_recall", ToolKind::Other),
        ("cron_add", ToolKind::Scheduler),
    ]);
    let run = engine.live("s-tools").expect("live");
    let set = run.box_tools("box-2", &tools).expect("on the roster");
    assert_eq!(set.granted, vec!["shell", "memory_recall"]);
    assert_eq!(set.board.box_id(), "box-2");
    assert!(run.box_tools("box-3", &tools).is_none());

    let empty = run.box_tools("box-1", &Vec::new()).expect("on the roster");
    assert!(empty.granted.is_empty());
}

#[test]
fn a_barred_name_is_kept_from_every_box() {
    let list = |names: &[&str]| names.iter().map(|n| n.to_string()).collect::<Vec<_>>();
    let barred = BarredTools {
        reentrant: list(&["delegate", "both"]),
        launchers: list(&["coder", "both"]),
        schedulers: list(&["cron_add"]),
    };
    assert_eq!(barred.kind("delegate"), ToolKind::Reentrant);
    assert_eq!(barred.kind("both"), ToolKind::Reentrant);
    assert_eq!(barred.kind("coder"), ToolKind::Launcher);
    assert_eq!(barred.kind("cron_add"), ToolKind::Scheduler);
    assert_eq!(barred.kind("shell"), ToolKind::Other);

    let mut engine = engine(created("s-barred", roomy()));
    engine.begin_run("s-barred", prep(2), NOW).expect("begin");
    let names = list(&["cron_add", "shell", "both", "coder", "read_file", "delegate"]);
    let set = engine
        .live("s-barred")
        .and_then(|run| run.box_tools("box-1", &barred.sort(names)))
        .expect("on the roster");
    assert_eq!(set.granted, vec!["shell", "read_file"]);
}

#[test]
fn a_planning_turn_takes_no_place_in_the_budget_before_it_reports() {
    let mut engine = engine(created("s-plan", custom(1, u64::MAX, boundless())));
    engine.start("s-plan", prep(2), NOW).expect("start");
    let (_, before) = plan(&mut engine, "s-plan", 0);
    box_turn(
        &mut engine,
        "s-plan",
        "box-1",
        measured_spend(1, 1, Usd::zero()),
    )
    .expect("the one turn is the box's");
    let err = engine
        .start_box_turn("s-plan", "box-2", "work", 0, NOW)
        .expect_err("the budget is used up");
    assert_eq!(err, BoxTurnError::BudgetExhausted(BudgetAxis::Turns));
    let end = engine.end_round(
        "s-plan",
        0,
        before,
        RoundOutcome::Turn {
            spend: measured_spend(1, 1, Usd::zero()),
            result: Ok("planned".to_string()),
        },
        NOW,
    );
    assert_eq!(end, Some(RoundEnd::Exit(DriverExit::BudgetExhausted)));
    assert_eq!(run_of(&engine, "s-plan").spent.turns, 2);
}

#[test]
fn turns_under_way_are_counted_across_a_budget_park() {
    let mut engine = engine(created("s-over", custom(2, u64::MAX, boundless())));
    engine.start("s-over", prep(2), NOW).expect("start");
    let (_, before) = plan(&mut engine, "s-over", 0);
    for _ in 0..2 {
        engine
            .start_box_turn("s-over", "box-1", "work", 0, NOW)
            .expect("admitted");
    }
    assert_eq!(
        engine
            .start_box_turn("s-over", "box-2", "work", 0, NOW)
            .expect_err("no room"),
        BoxTurnError::BudgetExhausted(BudgetAxis::Turns)
    );
    assert_eq!(
        engine.end_round(
            "s-over",
            0,
            before,
            RoundOutcome::NoAgent("gone".to_string()),
            NOW
        ),
        Some(RoundEnd::Exit(DriverExit::Completed))
    );
    engine.finish_drive("s-over", DriverExit::BudgetExhausted, &clean(2), NOW);
    assert!(engine.live("s-over").is_none());
    assert_eq!(engine.turns_under_way("s-over"), 2);

    engine.resume("s-over", prep(2), NOW).expect("resume");
    assert!(
        matches!(
            engine.begin_round("s-over", 0, NOW),
            Some(RoundStart::Exit(DriverExit::BudgetExhausted))
        ),
        "a swarm without room parks again"
    );
    engine.finish_drive("s-over", DriverExit::BudgetExhausted, &clean(2), NOW);
    for _ in 0..2 {
        engine
            .finish_box_turn(
                "s-over",
                "box-1",
                measured_spend(1, 1, Usd::zero()),
                Ok("ok".to_string()),
                NOW,
            )
            .expect("finished late");
    }
    assert_eq!(engine.turns_under_way("s-over"), 0);
    assert_eq!(run_of(&engine, "s-over").spent.turns, 2);
}

#[test]
fn a_turn_that_outlives_a_pause_keeps_its_place() {
    let mut engine = engine(created("s-late", custom(2, u64::MAX, boundless())));
    engine.begin_run("s-late", prep(2), NOW).expect("begin");
    engine
        .start_box_turn("s-late", "box-1", "work", 0, NOW)
        .expect("first");
    assert_eq!(engine.pause("s-late", NOW), Ok(Pausing::Parked));
    engine.begin_run("s-late", prep(2), NOW).expect("again");
    engine
        .start_box_turn("s-late", "box-2", "work", 0, NOW)
        .expect("second");
    engine
        .finish_box_turn(
            "s-late",
            "box-1",
            measured_spend(1, 1, Usd::zero()),
            Ok("ok".to_string()),
            NOW,
        )
        .expect("the first ends");
    assert_eq!(engine.turns_under_way("s-late"), 1);
    assert_eq!(
        engine
            .start_box_turn("s-late", "box-1", "work", 0, NOW)
            .expect_err("the second still runs"),
        BoxTurnError::BudgetExhausted(BudgetAxis::Turns)
    );
}

#[test]
fn a_turn_given_up_after_its_run_frees_its_place() {
    let mut engine = engine(created("s-given", custom(1, u64::MAX, boundless())));
    engine.begin_run("s-given", prep(2), NOW).expect("begin");
    engine
        .start_box_turn("s-given", "box-1", "work", 0, NOW)
        .expect("admitted");
    engine.pause("s-given", NOW).expect("pause");
    engine.abort_box_turn("s-given", "no agent".to_string());
    assert_eq!(engine.turns_under_way("s-given"), 0);
    engine.begin_run("s-given", prep(2), NOW).expect("again");
    engine
        .start_box_turn("s-given", "box-1", "work", 0, NOW)
        .expect("the place is free");
}

#[test]
fn a_budget_park_without_a_driver_can_be_resumed() {
    let mut engine = engine(created("s-free", custom(1, u64::MAX, boundless())));
    engine.begin_run("s-free", prep(2), NOW).expect("begin");
    box_turn(
        &mut engine,
        "s-free",
        "box-1",
        measured_spend(1, 1, Usd::zero()),
    )
    .expect("the one turn");
    assert_eq!(
        engine
            .start_box_turn("s-free", "box-1", "work", 0, NOW)
            .expect_err("used up"),
        BoxTurnError::BudgetExhausted(BudgetAxis::Turns)
    );
    assert!(engine.live("s-free").is_none());
    assert_eq!(
        run_of(&engine, "s-free").status,
        SwarmStatus::Paused {
            reason: SwarmPauseReason::BudgetExhausted
        }
    );
    assert_eq!(
        engine
            .start_box_turn("s-free", "box-1", "work", 0, NOW)
            .expect_err("gone"),
        BoxTurnError::NotRunning("s-free".to_string())
    );
    engine
        .resume("s-free", prep(2), NOW)
        .expect("the claim was given back");
}

#[test]
fn a_box_speaks_as_itself_on_its_own_swarms_board() {
    let mut engine = engine(created("s-bound", roomy()));
    engine.begin_run("s-bound", prep(2), NOW).expect("begin");
    let set = engine
        .live("s-bound")
        .and_then(|run| run.box_tools("box-2", &Vec::new()))
        .expect("on the roster");
    let mut args = serde_json::Map::new();
    for (key, value) in [("action", "claim"), ("task_key", "t-1")] {
        args.insert(key.to_string(), serde_json::Value::String(value.to_string()));
    }
    let result = set
        .board
        .execute(engine.board_mut(), &serde_json::Value::Object(args));
    assert!(result.success(), "{result:?}");
    let board = engine.board().snapshot("s-bound").expect("board");
    assert_eq!(board.claims.get("t-1").map(String::as_str), Some("box-2"));
}

#[test]
fn a_backend_that_ignores_allowlists_is_refused() {
    let mut engine = engine(created("s-memory", roomy()));
    let mut blind = prep(2);
    blind.honors_allowlist = false;
    let err = engine
        .start("s-memory", blind, NOW)
        .expect_err("isolation would be lost");
    assert_eq!(
        err,
        SwarmEngineError::Roster(
            "swarm \"s-memory\" needs a memory backend that honors the per-agent allowlist"
                .to_string()
        )
    );
    assert!(engine.live("s-memory").is_none());
    assert!(engine.board().is_empty());
    engine
        .start("s-memory", prep(2), NOW)
        .expect("the claim was given back");
}

#[test]
fn a_box_turn_carries_the_boxs_memory_scope() {
    let mut engine = engine(created("s-scope", roomy()));
    engine.begin_run("s-scope", prep(2), NOW).expect("begin");
    let turn = engine
        .start_box_turn("s-scope", "box-2", "work", 0, NOW)
        .expect("admitted");
    assert_eq!(turn.memory.namespace, "swarm/s-scope");
    assert_eq!(turn.memory.agent_id, "agent-1");
    assert_eq!(turn.memory.allowlist, vec!["agent-0", "agent-1"]);
}

#[test]
fn a_claimed_swarm_is_brought_up_or_given_up() {
    let mut engine = engine(created("s-claimed", roomy()));
    let claimed = engine.claim_run("s-claimed").expect("claim");
    assert_eq!(claimed.persisted.spec.boxes.len(), 2);
    assert_eq!(
        engine.claim_run("s-claimed").expect_err("taken"),
        SwarmEngineError::AlreadyClaimed("s-claimed".to_string())
    );
    assert_eq!(
        engine.abandon_run(claimed, "no envelope".to_string()),
        SwarmEngineError::Roster("no envelope".to_string())
    );
    let claimed = engine.claim_run("s-claimed").expect("free again");
    engine.raise_run(claimed, prep(2), NOW).expect("raise");
    engine.mark_started("s-claimed", NOW);
    assert_eq!(run_of(&engine, "s-claimed").status, SwarmStatus::Running);
    assert_eq!(kinds(&engine, "s-claimed"), vec!["swarm_started"]);
}

#[test]
fn a_run_is_recorded_under_its_swarm() {
    let task = swarm_task("s1", "default", 7, "boot", NOW);
    assert_eq!(task.id, "s1");
    assert_eq!(task.status, TaskStatus::Running);
    assert_eq!(task.heartbeat_at.as_deref(), Some(NOW));
    assert_eq!(orchestrator_alias("s1"), "swarm/s1/orchestrator");
}
