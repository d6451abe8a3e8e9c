use zeroclaw_swarm::store::{SwarmBudget, SwarmBudgetLimits, SwarmBudgetPreset};
use zeroclaw_swarm::tui::input::Input;
use zeroclaw_swarm::tui::wire::{Effect, SwarmValidateResult};
use zeroclaw_swarm::tui::wizard::{split_list, WizardAction, WizardState};
use zeroclaw_swarm::usd::Usd;
use zeroclaw_swarm::wizard::{
    FieldDescriptor, PropKind, SwarmStepShape, SwarmValidationError, SwarmWizardStep,
};

fn descriptor(key: &str, kind: PropKind) -> FieldDescriptor {
    FieldDescriptor {
        key: key.to_string(),
        label: key.to_string(),
        help: String::new(),
        kind,
        is_secret: false,
        enum_variants: None,
        required: true,
        default: None,
    }
}

fn enum_field(key: &str, variants: &[&str], default: &str) -> FieldDescriptor {
    FieldDescriptor {
        enum_variants: Some(variants.iter().map(ToString::to_string).collect()),
        default: Some(default.to_string()),
        ..descriptor(key, PropKind::Enum)
    }
}

/// The seven shapes the daemon returns, trimmed to what the wizard reads.
fn shapes() -> Vec<SwarmStepShape> {
    vec![
        SwarmStepShape {
            step: SwarmWizardStep::Provider,
            title: "Model provider".to_string(),
            help: String::new(),
            fields: vec![FieldDescriptor {
                enum_variants: Some(vec!["anthropic".to_string(), "openai".to_string()]),
                ..descriptor("provider", PropKind::AliasRef)
            }],
        },
        SwarmStepShape {
            step: SwarmWizardStep::Model,
            title: "Model".to_string(),
            help: String::new(),
            fields: vec![descriptor("model", PropKind::String)],
        },
        SwarmStepShape {
            step: SwarmWizardStep::RiskProfile,
            title: "Risk profile".to_string(),
            help: String::new(),
            fields: vec![enum_field(
                "risk_profile",
                &["balanced", "strict"],
                "balanced",
            )],
        },
        SwarmStepShape {
            step: SwarmWizardStep::Boundedness,
            title: "Boundedness".to_string(),
            help: String::new(),
            fields: vec![
                enum_field(
                    "budget_preset",
                    &["quick", "standard", "marathon", "custom"],
                    "standard",
                ),
                FieldDescriptor {
                    required: false,
                    default: Some("100".to_string()),
                    ..descriptor("max_turns", PropKind::Integer)
                },
                FieldDescriptor {
                    required: false,
                    default: Some("1000000".to_string()),
                    ..descriptor("max_tokens", PropKind::Integer)
                },
                FieldDescriptor {
                    required: false,
                    default: Some("20".to_string()),
                    ..descriptor("max_cost_usd", PropKind::Float)
                },
            ],
        },
        SwarmStepShape {
            step: SwarmWizardStep::Channels,
            title: "Channels".to_string(),
            help: String::new(),
            fields: vec![FieldDescriptor {
                required: false,
                enum_variants: Some(vec!["ops".to_string()]),
                ..descriptor("channels", PropKind::StringArray)
            }],
        },
        SwarmStepShape {
            step: SwarmWizardStep::Role,
            title: "Role".to_string(),
            help: String::new(),
            fields: vec![descriptor("role", PropKind::String)],
        },
        SwarmStepShape {
            step: SwarmWizardStep::Goal,
            title: "Goal".to_string(),
            help: String::new(),
            fields: vec![descriptor("goal", PropKind::String)],
        },
    ]
}

fn typed(state: &mut WizardState, text: &str) {
    for c in text.chars() {
        state.on_input(Input::Char(c));
    }
}

#[test]
fn step_order_is_the_daemons_order_behind_the_client_owned_name_step() {
    let state = WizardState::new(shapes());
    let order: Vec<Option<SwarmWizardStep>> = state.steps().iter().map(|s| s.step).collect();
    assert_eq!(
        order,
        vec![
            None,
            Some(SwarmWizardStep::Provider),
            Some(SwarmWizardStep::Model),
            Some(SwarmWizardStep::RiskProfile),
            Some(SwarmWizardStep::Boundedness),
            Some(SwarmWizardStep::Channels),
            Some(SwarmWizardStep::Role),
            Some(SwarmWizardStep::Goal),
        ]
    );
}

#[test]
fn daemon_defaults_prefill_the_answers() {
    let state = WizardState::new(shapes());
    assert_eq!(state.answer("risk_profile"), "balanced");
    assert_eq!(state.answer("budget_preset"), "standard");
    assert_eq!(state.answer("name"), "", "the name step has no prefill");
}

#[test]
fn leaving_the_provider_step_refetches_the_shapes_for_that_provider() {
    let mut state = WizardState::new(shapes());
    state.on_input(Input::Enter); // leave the name step
    state.on_input(Input::Down); // pick the first provider variant
    let action = state.on_input(Input::Enter);
    match action {
        WizardAction::Call(Effect::Fields { provider }) => {
            assert_eq!(provider.as_deref(), Some("anthropic"));
        }
        other => panic!("expected a shape re-fetch, got {other:?}"),
    }
}

#[test]
fn a_refetch_keeps_answers_and_position() {
    let mut state = WizardState::new(shapes());
    typed(&mut state, "Research squad");
    state.on_input(Input::Enter);
    state.on_input(Input::Down);
    state.on_input(Input::Enter);
    let at = state.current_index();

    let mut refreshed = shapes();
    refreshed[1].fields = vec![FieldDescriptor {
        enum_variants: Some(vec!["sonnet-4".to_string()]),
        default: Some("sonnet-4".to_string()),
        ..descriptor("model", PropKind::Enum)
    }];
    state.merge_steps(refreshed, Some("anthropic".to_string()));

    assert_eq!(state.answer("name"), "Research squad");
    assert_eq!(state.answer("provider"), "anthropic");
    assert_eq!(state.answer("model"), "sonnet-4");
    assert_eq!(state.current_index(), at);
}

#[test]
fn the_provider_is_not_refetched_twice_for_the_same_answer() {
    let mut state = WizardState::new(shapes());
    state.on_input(Input::Enter);
    state.on_input(Input::Down);
    state.on_input(Input::Enter);
    state.merge_steps(shapes(), Some("anthropic".to_string()));
    // Walk back onto the provider step and off it again, unchanged.
    state.on_input(Input::Escape);
    assert!(matches!(state.on_input(Input::Enter), WizardAction::Idle));
}

#[test]
fn the_custom_ceilings_appear_only_under_the_custom_preset() {
    let mut state = WizardState::new(shapes());
    for _ in 0..4 {
        state.on_input(Input::Enter);
    }
    let visible: Vec<&str> = state
        .visible_fields()
        .iter()
        .map(|f| f.key.as_str())
        .collect();
    assert_eq!(visible, vec!["budget_preset"]);

    // standard -> marathon -> custom
    state.on_input(Input::Down);
    state.on_input(Input::Down);
    assert_eq!(state.answer("budget_preset"), "custom");
    let visible: Vec<&str> = state
        .visible_fields()
        .iter()
        .map(|f| f.key.as_str())
        .collect();
    assert_eq!(
        visible,
        vec!["budget_preset", "max_turns", "max_tokens", "max_cost_usd"]
    );
}

#[test]
fn a_custom_preset_submits_the_typed_triple() {
    let mut state = WizardState::new(shapes());
    for _ in 0..4 {
        state.on_input(Input::Enter);
    }
    state.on_input(Input::Down);
    state.on_input(Input::Down);
    assert_eq!(
        state.submission().budget,
        SwarmBudget::Custom(SwarmBudgetLimits {
            max_turns: 100,
            max_tokens: 1_000_000,
            max_cost_usd: Usd::dollars(20),
        })
    );
}

#[test]
fn an_unparseable_ceiling_becomes_zero_for_the_daemon_to_reject() {
    let mut state = WizardState::new(shapes());
    for _ in 0..4 {
        state.on_input(Input::Enter);
    }
    state.on_input(Input::Down);
    state.on_input(Input::Down);
    state.on_input(Input::Tab); // onto max_turns
    for _ in 0..8 {
        state.on_input(Input::Backspace);
    }
    typed(&mut state, "lots");
    let SwarmBudget::Custom(limits) = state.submission().budget else {
        panic!("custom preset must submit a custom budget");
    };
    assert_eq!(limits.max_turns, 0);
}

#[test]
fn a_preset_answer_submits_a_preset_budget() {
    let state = WizardState::new(shapes());
    assert_eq!(
        state.submission().budget,
        SwarmBudget::Preset(SwarmBudgetPreset::Standard)
    );
}

#[test]
fn channels_are_split_on_commas_and_blanks_dropped() {
    let mut state = WizardState::new(shapes());
    for _ in 0..5 {
        state.on_input(Input::Enter);
    }
    typed(&mut state, " ops , , alerts ");
    assert_eq!(
        state.submission().channels,
        vec!["ops".to_string(), "alerts".to_string()]
    );
}

#[test]
fn the_last_step_validates_before_it_creates() {
    let mut state = WizardState::new(shapes());
    for _ in 0..7 {
        state.on_input(Input::Enter);
    }
    assert!(matches!(
        state.on_input(Input::Enter),
        WizardAction::Call(Effect::Validate(_))
    ));
    assert!(state.awaiting_submit());
    assert!(matches!(
        state.on_validation(&SwarmValidateResult::Accepted),
        WizardAction::Call(Effect::Create(_))
    ));
}

#[test]
fn rejections_jump_to_the_step_that_owns_the_first_bad_field() {
    let mut state = WizardState::new(shapes());
    for _ in 0..8 {
        state.on_input(Input::Enter);
    }
    state.on_validation(&SwarmValidateResult::Errors {
        errors: vec![SwarmValidationError {
            step: Some(SwarmWizardStep::Role),
            field: "role".to_string(),
            message: "describe the supervising role the swarm plays".to_string(),
        }],
    });
    assert_eq!(
        state.current_step().and_then(|s| s.step),
        Some(SwarmWizardStep::Role)
    );
    assert!(!state.awaiting_submit());
    assert_eq!(
        state.field_errors("role"),
        vec!["describe the supervising role the swarm plays"]
    );
}

#[test]
fn a_stepless_rejection_lands_on_the_client_owned_name_step() {
    let mut state = WizardState::new(shapes());
    for _ in 0..8 {
        state.on_input(Input::Enter);
    }
    state.on_validation(&SwarmValidateResult::Errors {
        errors: vec![SwarmValidationError {
            step: None,
            field: "name".to_string(),
            message: "a swarm needs a name".to_string(),
        }],
    });
    assert_eq!(state.current_index(), 0);
    assert_eq!(state.current_step().and_then(|s| s.step), None);
}

#[test]
fn escape_walks_back_and_then_leaves() {
    let mut state = WizardState::new(shapes());
    state.on_input(Input::Enter);
    assert!(matches!(state.on_input(Input::Escape), WizardAction::Idle));
    assert_eq!(state.current_index(), 0);
    assert!(matches!(state.on_input(Input::Escape), WizardAction::Leave));
}

#[test]
fn a_picker_ignores_typing_and_cycles_instead() {
    let mut state = WizardState::new(shapes());
    state.on_input(Input::Enter);
    typed(&mut state, "zzz");
    assert_eq!(state.answer("provider"), "");
    state.on_input(Input::Up);
    assert_eq!(state.answer("provider"), "anthropic");
    state.on_input(Input::Up);
    assert_eq!(state.answer("provider"), "openai");
}

#[test]
fn advisory_rows_are_shown_but_never_collected() {
    let mut shapes = shapes();
    shapes[0].fields.push(FieldDescriptor {
        is_secret: true,
        ..descriptor("api-key", PropKind::String)
    });
    let mut state = WizardState::new(shapes);
    state.on_input(Input::Enter);
    assert_eq!(state.visible_fields().len(), 2);
    assert_eq!(state.editable_fields().len(), 1);
    assert!(WizardState::is_advisory(state.visible_fields()[1]));
    state.on_input(Input::Tab);
    assert_eq!(state.field_index(), 0, "the cursor cannot reach a secret");
    typed(&mut state, "secret");
    assert_eq!(state.answer("api-key"), "");
}

#[test]
fn a_list_field_takes_typed_text_rather_than_cycling_its_suggestions() {
    let mut state = WizardState::new(shapes());
    for _ in 0..5 {
        state.on_input(Input::Enter);
    }
    typed(&mut state, "ops");
    assert_eq!(state.answer("channels"), "ops");
}

#[test]
fn lists_are_read_without_blanks() {
    assert_eq!(split_list(" a, ,b ,"), vec!["a", "b"]);
    assert!(split_list("  ").is_empty());
}

#[test]
fn a_refused_call_lets_the_wizard_submit_again() {
    let mut state = WizardState::new(shapes());
    for _ in 0..8 {
        state.on_input(Input::Enter);
    }
    assert!(state.awaiting_submit());
    state.on_call_failed();
    assert!(!state.awaiting_submit());
}

#[test]
fn erasing_takes_the_last_character() {
    let mut state = WizardState::new(shapes());
    typed(&mut state, "Squad\u{e9}");
    state.on_input(Input::Backspace);
    assert_eq!(state.answer("name"), "Squad");
}
