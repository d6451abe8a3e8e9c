use zeroclaw_swarm::queen::{banner_lines, resolve_queen, AgentEntry, QueenChoice};
use zeroclaw_swarm::store::{PersistedSwarm, SwarmSpec};
use zeroclaw_swarm::tui::client::{
    call_failed, classify, note, read_frame, read_note, supports_swarms, unsupported_message,
    CallError, CallIds, Frame, FrameError, Note, Reply, RpcFailure, INTERNAL_ERROR,
    INVALID_PARAMS, METHOD_NOT_FOUND,
};
use zeroclaw_swarm::tui::phrase::{Phrase, PhraseArg};
use zeroclaw_swarm::tui::state::App;
use zeroclaw_swarm::tui::wire::{Effect, Update};
use zeroclaw_swarm::tui::{delete_message, fold, list_swarms, needs_terminal, opening_effect};

fn agents(aliases: &[&str]) -> Vec<AgentEntry> {
    aliases
        .iter()
        .map(|alias| AgentEntry {
            alias: alias.to_string(),
            enabled: true,
        })
        .collect()
}

fn slot_texts(phrase: &Phrase) -> Vec<&str> {
    phrase
        .slots
        .iter()
        .map(|slot| match &slot.value {
            PhraseArg::Text(text) => text.as_str(),
            PhraseArg::Entry { fallback, .. } => fallback,
        })
        .collect()
}

#[test]
fn explicit_queen_that_exists_is_selected() {
    let queen = resolve_queen(&agents(&["alpha", "beta"]), Some("beta".to_string()));
    assert_eq!(queen, Ok(QueenChoice::Chosen("beta".to_string())));
}

#[test]
fn explicit_queen_that_is_missing_errors() {
    let err = resolve_queen(&agents(&["alpha"]), Some("ghost".to_string())).unwrap_err();
    assert!(
        err.contains("ghost"),
        "error should name the missing alias; got: {err}"
    );
}

#[test]
fn single_agent_is_auto_selected_as_queen() {
    let queen = resolve_queen(&agents(&["solo"]), None);
    assert_eq!(queen, Ok(QueenChoice::Chosen("solo".to_string())));
}

#[test]
fn no_agents_errors_with_quickstart_hint() {
    let err = resolve_queen(&agents(&[]), None).unwrap_err();
    assert!(
        err.contains("quickstart"),
        "error should point at quickstart; got: {err}"
    );
}

#[test]
fn several_agents_are_a_question() {
    let mut several = agents(&["alpha", "beta", "gamma"]);
    several[1].enabled = false;
    assert_eq!(
        resolve_queen(&several, None),
        Ok(QueenChoice::Ask(vec![
            "alpha".to_string(),
            "gamma".to_string()
        ]))
    );
    several[2].enabled = false;
    assert_eq!(
        resolve_queen(&several, None),
        Ok(QueenChoice::Chosen("alpha".to_string())),
        "the only enabled agent needs no question"
    );
}

#[test]
fn the_banner_names_the_queen() {
    let lines = banner_lines(
        "alpha",
        &Some("anthropic.work".to_string()),
        &Some("balanced".to_string()),
    );
    assert!(lines.iter().any(|line| line.contains("alpha")));
    assert!(lines.iter().any(|line| line.contains("anthropic.work")));
    assert!(lines.iter().any(|line| line.contains("balanced")));
}

#[test]
fn method_not_found_is_the_degrade_signal() {
    let failure = RpcFailure {
        code: METHOD_NOT_FOUND,
        message: "Method not found".to_string(),
    };
    assert!(failure.is_method_not_found());
    assert!(!RpcFailure {
        code: -32602,
        message: String::new(),
    }
    .is_method_not_found());
}

#[test]
fn a_transport_error_carries_no_daemon_failure() {
    let error = CallError::Transport("socket gone".to_string());
    assert!(error.failure().is_none());
    assert_eq!(error.message(), "socket gone");
    assert_eq!(slot_texts(&call_failed(&error)), vec!["socket gone"]);
}

#[test]
fn a_daemon_without_swarms_is_named_as_such() {
    let error = call_failed(&CallError::Rpc(RpcFailure {
        code: METHOD_NOT_FOUND,
        message: "Method not found".to_string(),
    }));
    assert_eq!(error, unsupported_message());
}

#[test]
fn any_other_refusal_carries_the_daemons_own_message() {
    let error = call_failed(&CallError::Rpc(RpcFailure {
        code: INVALID_PARAMS,
        message: "swarm 'sw-9' not found".to_string(),
    }));
    assert!(
        slot_texts(&error)
            .iter()
            .any(|text| text.contains("swarm 'sw-9' not found")),
        "got {error:?}"
    );
}

#[test]
fn a_daemon_error_folds_into_an_update_while_a_dead_socket_does_not() {
    let folded = fold::<Vec<PersistedSwarm>, _>(
        Err(CallError::Rpc(RpcFailure {
            code: INVALID_PARAMS,
            message: "nope".to_string(),
        })),
        Update::Swarms,
    );
    assert!(matches!(folded, Ok(Update::Failed(_))));

    let dead = fold::<Vec<PersistedSwarm>, _>(
        Err(CallError::Transport("socket gone".to_string())),
        Update::Swarms,
    );
    assert!(dead.is_err());

    let answered = fold(Ok(vec![]), Update::Swarms);
    assert!(matches!(answered, Ok(Update::Swarms(_))));
}

#[test]
fn a_frame_is_read_from_its_text() {
    assert_eq!(
        read_frame(r#"{"id":"swarm-1","result":[]}"#),
        Some(Frame {
            id: Some("swarm-1".to_string()),
            error: None,
        })
    );
    assert_eq!(
        read_frame(r#"{"id":"swarm-1","error":{"code":-32601,"message":"no"}}"#),
        Some(Frame {
            id: Some("swarm-1".to_string()),
            error: Some(FrameError {
                code: Some(-32601),
                message: Some("no".to_string()),
            }),
        })
    );
    assert_eq!(read_frame("not json"), None);
    assert_eq!(
        read_frame(r#"{"id":7}"#),
        Some(Frame {
            id: None,
            error: None,
        })
    );
}

#[test]
fn a_call_takes_only_its_own_reply() {
    let frame = |id: &str| Frame {
        id: Some(id.to_string()),
        error: None,
    };
    assert_eq!(classify(&frame("a"), "a"), Reply::Answered);
    assert_eq!(classify(&frame("b"), "a"), Reply::Skip);
    let failed = Frame {
        id: Some("a".to_string()),
        error: Some(FrameError {
            code: Some(-32602),
            message: Some("bad".to_string()),
        }),
    };
    assert_eq!(
        classify(&failed, "a"),
        Reply::Failed(RpcFailure {
            code: -32602,
            message: "bad".to_string(),
        })
    );
    let vague = Frame {
        id: Some("a".to_string()),
        error: Some(FrameError {
            code: None,
            message: None,
        }),
    };
    match classify(&vague, "a") {
        Reply::Failed(failure) => assert_eq!(failure.code, INTERNAL_ERROR),
        other => panic!("unexpected {other:?}"),
    }
}

#[test]
fn every_call_has_its_own_id() {
    let mut ids = CallIds::new();
    let a = ids.next_id();
    let b = ids.next_id();
    assert_ne!(a, b);
}

#[test]
fn a_daemon_says_whether_it_has_swarms() {
    assert!(supports_swarms(&vec![
        "session/new".to_string(),
        "swarm/list".to_string()
    ]));
    assert!(!supports_swarms(&vec!["session/new".to_string()]));
    assert!(!supports_swarms(&vec![]));
}

#[test]
fn a_session_opens_on_its_list_or_on_the_explanation() {
    assert_eq!(opening_effect(&App::new()), Effect::List);
    assert_eq!(opening_effect(&App::unsupported()), Effect::Idle);
}

#[test]
fn the_list_is_one_line_per_swarm() {
    let lines = list_swarms(&vec![PersistedSwarm::new(SwarmSpec::new(
        "sw-1",
        "Research squad",
        "anthropic",
        "sonnet-4",
        "balanced",
        "supervisor",
        "survey the field",
    ))]);
    assert_eq!(lines.len(), 1);
    let texts = slot_texts(&lines[0]);
    assert!(texts.contains(&"sw-1"), "{texts:?}");
    assert!(texts.contains(&"Research squad"), "{texts:?}");
    assert_eq!(list_swarms(&vec![]).len(), 1, "an empty list says so");
}

#[test]
fn a_delete_says_whether_anything_was_deleted() {
    assert_ne!(delete_message("sw-1", true), delete_message("sw-1", false));
    assert!(slot_texts(&delete_message("sw-1", true)).contains(&"sw-1"));
    assert!(!needs_terminal().fallback.is_empty());
}

#[test]
fn notifications_are_told_apart_by_their_method() {
    assert_eq!(note("swarm/update"), Some(Note::Step));
    assert_eq!(note("swarm/board"), Some(Note::Board));
    assert_eq!(note("swarm/gap"), Some(Note::Gap));
    assert_eq!(note("swarm/list"), None);

    assert_eq!(
        read_note("{\"jsonrpc\":\"2.0\",\"method\":\"swarm/board\",\"params\":{}}"),
        Some(Note::Board)
    );
    assert_eq!(read_note("{\"method\":\"swarm/gap\"}"), Some(Note::Gap));
    assert_eq!(read_note("{\"method\":7}"), None);
    assert_eq!(read_note("{\"id\":\"swarm-0\",\"result\":{}}"), None);
    assert_eq!(read_note("not json"), None);
}
