use zeroclaw_swarm::store::{PersistedSwarm, SwarmSpec, SwarmSpend, SwarmStatus};
use zeroclaw_swarm::tui::client::{RpcFailure, METHOD_NOT_FOUND, SWARM_RUN_ACTIVE};
use zeroclaw_swarm::tui::input::{Direction, Input, KeyCode, KeyPress};
use zeroclaw_swarm::tui::state::{App, Modal, Screen};
use zeroclaw_swarm::tui::wire::{Effect, Update};

fn swarm(id: &str, name: &str) -> PersistedSwarm {
    PersistedSwarm::new(SwarmSpec::new(
        id,
        name,
        "anthropic",
        "sonnet-4",
        "balanced",
        "supervisor",
        "survey the field",
    ))
}

fn loaded() -> App {
    let mut app = App::new();
    app.on_update(Update::Swarms(vec![
        swarm("sw-1", "Research squad"),
        swarm("sw-2", "Triage squad"),
    ]));
    app
}

#[test]
fn a_wrapping_cursor_never_leaves_the_list() {
    assert_eq!(Direction::Forward.wrap(2, 3), 0);
    assert_eq!(Direction::Backward.wrap(0, 3), 2);
    assert_eq!(Direction::Forward.wrap(0, 0), 0);
}

#[test]
fn the_dashboard_always_offers_a_new_swarm_row() {
    let app = App::new();
    assert_eq!(app.row_count(), 1);
    assert!(app.on_new_row());
    assert_eq!(loaded().row_count(), 3);
}

#[test]
fn enter_on_the_new_row_asks_for_the_wizard_shapes() {
    let mut app = loaded();
    app.on_input(Input::Up);
    assert!(app.on_new_row());
    assert!(matches!(
        app.on_input(Input::Enter),
        Effect::Fields { provider: None }
    ));
    assert_eq!(app.screen(), &Screen::Wizard);
    assert!(app.wizard().is_none(), "the wizard waits for its shapes");
}

#[test]
fn enter_on_a_swarm_opens_the_detail_pane() {
    let mut app = loaded();
    app.on_input(Input::Enter);
    assert_eq!(
        app.screen(),
        &Screen::Detail {
            swarm_id: "sw-1".to_string()
        }
    );
    app.on_input(Input::Escape);
    assert_eq!(app.screen(), &Screen::Dashboard);
}

#[test]
fn q_quits_from_the_dashboard_and_the_detail_pane() {
    let mut app = loaded();
    assert!(matches!(app.on_input(Input::Char('q')), Effect::Quit));
    assert!(app.quit());

    let mut app = loaded();
    app.on_input(Input::Enter);
    assert!(matches!(app.on_input(Input::Char('q')), Effect::Quit));
}

#[test]
fn delete_confirms_before_it_calls() {
    let mut app = loaded();
    app.on_input(Input::Char('d'));
    assert_eq!(
        app.modal(),
        &Modal::ConfirmDelete {
            swarm_id: "sw-1".to_string(),
            force: false
        }
    );
    match app.on_input(Input::Char('y')) {
        Effect::Delete { swarm_id, force } => {
            assert_eq!(swarm_id, "sw-1");
            assert!(!force);
        }
        other => panic!("expected a delete, got {other:?}"),
    }
}

#[test]
fn declining_the_confirmation_calls_nothing() {
    let mut app = loaded();
    app.on_input(Input::Char('d'));
    assert!(matches!(app.on_input(Input::Char('n')), Effect::Idle));
    assert_eq!(app.modal(), &Modal::Closed);
}

#[test]
fn a_live_run_re_asks_with_force_rather_than_forcing() {
    let mut app = loaded();
    app.on_input(Input::Char('d'));
    app.on_input(Input::Char('y'));
    app.on_update(Update::Failed(RpcFailure {
        code: SWARM_RUN_ACTIVE,
        message: "swarm 'sw-1' is being driven by a live run".to_string(),
    }));
    assert_eq!(
        app.modal(),
        &Modal::ConfirmDelete {
            swarm_id: "sw-1".to_string(),
            force: true
        }
    );
    match app.on_input(Input::Enter) {
        Effect::Delete { force, .. } => assert!(force),
        other => panic!("expected a forced delete, got {other:?}"),
    }
}

#[test]
fn a_deleted_swarm_reloads_the_list_and_clears_the_modal() {
    let mut app = loaded();
    app.on_input(Input::Char('d'));
    app.on_input(Input::Char('y'));
    assert!(matches!(
        app.on_update(Update::Deleted {
            swarm_id: "sw-1".to_string()
        }),
        Effect::List
    ));
    assert_eq!(app.modal(), &Modal::Closed);
    assert!(app.status().is_some());
}

#[test]
fn deleting_the_swarm_on_screen_returns_to_the_dashboard() {
    let mut app = loaded();
    app.on_input(Input::Enter);
    app.on_update(Update::Deleted {
        swarm_id: "sw-1".to_string(),
    });
    assert_eq!(app.screen(), &Screen::Dashboard);
}

#[test]
fn method_not_found_degrades_instead_of_crashing() {
    let mut app = loaded();
    app.on_update(Update::Failed(RpcFailure {
        code: METHOD_NOT_FOUND,
        message: "Method not found".to_string(),
    }));
    assert_eq!(app.screen(), &Screen::Unsupported);
    assert_eq!(app.modal(), &Modal::Closed);
}

#[test]
fn any_other_failure_is_a_dismissible_modal() {
    let mut app = loaded();
    app.on_update(Update::Failed(RpcFailure {
        code: -32602,
        message: "swarm 'sw-9' not found".to_string(),
    }));
    assert_eq!(
        app.modal(),
        &Modal::Error {
            message: "swarm 'sw-9' not found".to_string()
        }
    );
    app.on_input(Input::Char('x'));
    assert_eq!(app.modal(), &Modal::Closed);
}

#[test]
fn a_created_swarm_lands_back_on_the_dashboard_selected() {
    let mut app = loaded();
    app.on_input(Input::Up);
    app.on_input(Input::Enter);
    let created = swarm("sw-3", "Fresh squad");
    assert!(matches!(
        app.on_update(Update::Created(Box::new(created.clone()))),
        Effect::List
    ));
    assert_eq!(app.screen(), &Screen::Dashboard);
    app.on_update(Update::Swarms(vec![
        swarm("sw-1", "Research squad"),
        swarm("sw-2", "Triage squad"),
        created,
    ]));
    assert_eq!(app.selected(), 2);
    assert_eq!(
        app.selected_swarm().map(|s| s.spec.id.as_str()),
        Some("sw-3")
    );
}

#[test]
fn a_shrinking_list_pulls_the_cursor_back_onto_a_row() {
    let mut app = loaded();
    app.on_input(Input::Down);
    assert_eq!(app.selected(), 1);
    app.on_update(Update::Swarms(Vec::new()));
    assert_eq!(app.selected(), 0);
    assert!(app.on_new_row());
}

#[test]
fn ctrl_c_leaves_from_anywhere() {
    let mut app = loaded();
    app.on_input(Input::Enter);
    assert!(matches!(app.on_input(Input::Interrupt), Effect::Quit));
    assert!(app.quit());
}

#[test]
fn the_unsupported_screen_only_quits() {
    let mut app = App::unsupported();
    assert_eq!(app.screen(), &Screen::Unsupported);
    assert!(matches!(app.on_input(Input::Enter), Effect::Quit));
}

fn key(code: KeyCode, control: bool, release: bool) -> KeyPress {
    KeyPress {
        code,
        control,
        release,
    }
}

#[test]
fn key_translation_drops_releases_and_catches_ctrl_c() {
    assert_eq!(
        Input::from_key(key(KeyCode::Char('q'), false, false)),
        Some(Input::Char('q'))
    );
    assert_eq!(
        Input::from_key(key(KeyCode::Char('q'), false, true)),
        None
    );
    assert_eq!(
        Input::from_key(key(KeyCode::Char('c'), true, false)),
        Some(Input::Interrupt)
    );
    assert_eq!(Input::from_key(key(KeyCode::Other, false, false)), None);
    assert_eq!(
        Input::from_key(key(KeyCode::BackTab, false, false)),
        Some(Input::BackTab)
    );
}

#[test]
fn a_swarm_can_be_found_by_id_for_the_detail_pane() {
    let app = loaded();
    assert_eq!(
        app.swarm("sw-2").map(|s| s.spec.name.as_str()),
        Some("Triage squad")
    );
    assert!(app.swarm("sw-9").is_none());
    assert_eq!(
        app.swarms().first().map(|s| s.run.status),
        Some(SwarmStatus::Created)
    );
}

#[test]
fn a_run_that_starts_is_subscribed_to() {
    let mut app = loaded();
    app.on_input(Input::Enter);
    assert!(matches!(
        app.on_input(Input::Char('s')),
        Effect::Start { .. }
    ));
    assert!(app.busy());
    let effect = app.on_update(Update::RunControl {
        swarm_id: "sw-1".to_string(),
        status: SwarmStatus::Running,
        spent: SwarmSpend::default(),
    });
    assert_eq!(
        effect,
        Effect::Subscribe {
            swarm_id: "sw-1".to_string()
        }
    );
    app.on_update(Update::Subscribed {
        swarm_id: "sw-1".to_string(),
    });
    assert!(app.is_streaming());
}

#[test]
fn a_failed_layout_save_is_sent_again() {
    let mut app = loaded();
    app.on_input(Input::Enter);
    app.on_input(Input::Char('m'));
    app.on_input(Input::Right);
    app.on_input(Input::Enter);
    assert!(matches!(app.flush_layout(), Effect::SaveLayout { .. }));
    assert!(matches!(app.flush_layout(), Effect::Idle));
    app.on_update(Update::Failed(RpcFailure {
        code: -32603,
        message: "write failed".to_string(),
    }));
    assert!(matches!(app.flush_layout(), Effect::SaveLayout { .. }));
}
