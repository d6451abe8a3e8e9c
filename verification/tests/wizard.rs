use zeroclaw_swarm::store::{
    default_roster, BoxSpec, SwarmBudget, SwarmBudgetLimits, SwarmBudgetPreset,
    DEFAULT_ROSTER_SIZE,
};
use zeroclaw_swarm::usd::Usd;
use zeroclaw_swarm::wizard::{
    new_swarm_id, prepare_spec, prepare_spec_as, provider_entry, provider_family,
    validate_roster, wizard_steps, FieldDescriptor, PropKind, SwarmSpecPatch, SwarmStepShape, SwarmSubmission, SwarmWizardStep,
    WizardConfig, MAX_ROSTER_SIZE,
};

const RISK_PRESETS: [&str; 3] = ["strict", "balanced", "yolo"];

fn config() -> WizardConfig {
    WizardConfig {
        model_providers: vec![],
        provider_families: ["anthropic", "ollama", "openai"]
            .map(String::from)
            .to_vec(),
        risk_profiles: vec![],
        risk_presets: RISK_PRESETS.map(String::from).to_vec(),
        channels: vec![],
    }
}

fn submission() -> SwarmSubmission {
    SwarmSubmission {
        swarm_id: None,
        name: "  Research squad  ".to_string(),
        provider: " anthropic ".to_string(),
        model: " sonnet-4 ".to_string(),
        risk_profile: "balanced".to_string(),
        budget: SwarmBudget::default(),
        channels: Vec::new(),
        role: "supervisor".to_string(),
        goal: "survey the field".to_string(),
        boxes: None,
    }
}

fn steps(provider: Option<&str>, models: &Vec<String>) -> Vec<SwarmStepShape> {
    wizard_steps(&config(), provider, models, &vec![], |key| key.to_string())
}

fn step_of(steps: &[SwarmStepShape], step: SwarmWizardStep) -> &SwarmStepShape {
    steps.iter().find(|s| s.step == step).expect("step")
}

#[test]
fn a_clean_submission_normalizes_into_a_spec() {
    let spec = prepare_spec(&submission(), &config()).expect("accepted");
    assert_eq!(spec.name, "Research squad", "authored strings are trimmed");
    assert_eq!(spec.provider, "anthropic");
    assert_eq!(spec.model, "sonnet-4");
    assert!(
        spec.id.starts_with("sw-"),
        "an id is generated when none is supplied, got {}",
        spec.id
    );
    assert_eq!(
        spec.boxes.len(),
        DEFAULT_ROSTER_SIZE,
        "an absent roster becomes the default unassigned roster"
    );
    assert_eq!(spec.budget, SwarmBudget::default());
}

#[test]
fn garbage_submissions_are_rejected_field_by_field() {
    let mut sub = submission();
    sub.name = "   ".to_string();
    sub.provider = "definitely-not-a-provider".to_string();
    sub.model = String::new();
    sub.risk_profile = "reckless".to_string();
    sub.role = String::new();
    sub.goal = "  ".to_string();
    sub.budget = SwarmBudget::Custom(SwarmBudgetLimits {
        max_turns: 0,
        max_tokens: 0,
        max_cost_usd: Usd::zero(),
    });
    sub.channels = vec!["telegram.ghost".to_string()];

    let errors = prepare_spec(&sub, &config()).expect_err("rejected");
    let fields: Vec<&str> = errors.iter().map(|e| e.field.as_str()).collect();
    for expected in [
        "name",
        "provider",
        "model",
        "risk_profile",
        "max_turns",
        "max_tokens",
        "max_cost_usd",
        "channels",
        "role",
        "goal",
    ] {
        assert!(
            fields.contains(&expected),
            "expected a rejection for {expected}, got {fields:?}"
        );
    }

    let provider_error = errors
        .iter()
        .find(|e| e.field == "provider")
        .expect("provider error");
    assert!(
        provider_error.message.contains("definitely-not-a-provider"),
        "the provider rejection names the offending value, got {:?}",
        provider_error.message
    );
    assert_eq!(provider_error.step, Some(SwarmWizardStep::Provider));
    let risk_error = errors
        .iter()
        .find(|e| e.field == "risk_profile")
        .expect("risk error");
    assert!(
        risk_error.message.contains("balanced"),
        "the risk rejection lists what is valid, got {:?}",
        risk_error.message
    );
}

#[test]
fn a_bare_provider_family_is_accepted_without_a_configured_alias() {
    let mut sub = submission();
    sub.provider = "ollama".to_string();
    prepare_spec(&sub, &config()).expect("a known family is enough");
}

#[test]
fn a_supplied_id_is_kept_but_must_be_slug_safe() {
    let mut sub = submission();
    sub.swarm_id = Some("sw-keeper".to_string());
    let spec = prepare_spec(&sub, &config()).expect("accepted");
    assert_eq!(spec.id, "sw-keeper");

    sub.swarm_id = Some("sw keeper/../etc".to_string());
    let errors = prepare_spec(&sub, &config()).expect_err("rejected");
    assert!(errors.iter().any(|e| e.field == "swarm_id"));
}

#[test]
fn roster_overrides_are_checked_for_collisions_and_size() {
    let dup = vec![
        BoxSpec {
            box_id: "box-1".to_string(),
            role: "researcher".to_string(),
            job: "read".to_string(),
            slot: 0,
        },
        BoxSpec {
            box_id: "box-1".to_string(),
            role: "critic".to_string(),
            job: "poke".to_string(),
            slot: 0,
        },
    ];
    let errors = validate_roster(&dup);
    assert_eq!(
        errors.len(),
        2,
        "a duplicate id and a duplicate slot are two separate problems: {errors:?}"
    );

    assert!(
        !validate_roster(&vec![]).is_empty(),
        "an empty roster is not a swarm"
    );

    let oversized = default_roster(MAX_ROSTER_SIZE + 1);
    let errors = validate_roster(&oversized);
    assert!(
        errors.iter().any(|e| e.message.contains("at most")),
        "an oversized roster is refused: {errors:?}"
    );
}

#[test]
fn a_slot_past_the_pane_grid_is_refused() {
    let out_of_grid = vec![BoxSpec {
        box_id: "box-1".to_string(),
        role: String::new(),
        job: String::new(),
        slot: MAX_ROSTER_SIZE as u8,
    }];
    let errors = validate_roster(&out_of_grid);
    assert!(
        errors.iter().any(|e| e.message.contains("slot")),
        "expected a slot rejection, got {errors:?}"
    );
}

#[test]
fn a_patch_only_replaces_the_fields_it_sets() {
    let base = prepare_spec(&submission(), &config()).expect("accepted");
    let mut sub = SwarmSubmission::from_spec(&base);
    SwarmSpecPatch {
        goal: Some("ship it".to_string()),
        ..Default::default()
    }
    .apply(&mut sub);
    let updated = prepare_spec(&sub, &config()).expect("accepted");

    assert_eq!(updated.goal, "ship it");
    assert_eq!(updated.id, base.id, "the round trip keeps the same swarm");
    assert_eq!(updated.name, base.name);
    assert_eq!(updated.provider, base.provider);
    assert_eq!(updated.boxes, base.boxes, "a patch never edits the roster");
}

#[test]
fn every_wizard_step_renders_with_a_non_empty_shape() {
    let steps = steps(None, &vec![]);
    assert_eq!(
        steps.len(),
        SwarmWizardStep::ALL.len(),
        "swarm/fields returns one shape per step"
    );
    assert_eq!(
        steps.iter().map(|s| s.step).collect::<Vec<_>>(),
        SwarmWizardStep::ALL.to_vec(),
        "the steps come back in wizard order"
    );
    for shape in &steps {
        assert!(!shape.title.is_empty(), "{:?} has no title", shape.step);
        assert!(!shape.help.is_empty(), "{:?} has no help", shape.step);
        assert!(!shape.fields.is_empty(), "{:?} renders nothing", shape.step);
    }
    assert_eq!(steps[0].title, SwarmWizardStep::Provider.title_key());
    assert_eq!(steps[0].help, SwarmWizardStep::Provider.help_key());
}

#[test]
fn the_boundedness_step_offers_every_preset_plus_custom() {
    let steps = steps(None, &vec![]);
    let boundedness = step_of(&steps, SwarmWizardStep::Boundedness);
    let keys: Vec<&str> = boundedness.fields.iter().map(|f| f.key.as_str()).collect();
    assert_eq!(
        keys,
        vec!["budget_preset", "max_turns", "max_tokens", "max_cost_usd"]
    );

    let preset = &boundedness.fields[0];
    assert_eq!(
        preset.enum_variants.as_deref(),
        Some(
            ["quick", "standard", "marathon", "custom"]
                .map(String::from)
                .as_slice()
        )
    );
    assert_eq!(preset.default.as_deref(), Some("standard"));
    let standard = SwarmBudgetPreset::Standard.limits();
    assert_eq!(
        boundedness.fields[1].default.as_deref(),
        Some(standard.max_turns.to_string().as_str()),
        "the custom triple is prefilled from the default preset"
    );
    assert_eq!(boundedness.fields[2].default.as_deref(), Some("1000000"));
    assert_eq!(boundedness.fields[3].default.as_deref(), Some("20"));
}

#[test]
fn the_risk_step_offers_the_canonical_presets() {
    let steps = steps(None, &vec![]);
    let risk = step_of(&steps, SwarmWizardStep::RiskProfile);
    let variants = risk.fields[0]
        .enum_variants
        .clone()
        .expect("the risk step is a picker");
    for preset in RISK_PRESETS {
        assert!(
            variants.iter().any(|v| v == preset),
            "{preset} is missing from the risk picker: {variants:?}"
        );
    }
    assert_eq!(risk.fields[0].default.as_deref(), Some("balanced"));
}

#[test]
fn the_model_step_becomes_a_picker_once_a_catalog_is_known() {
    let free_text = steps(None, &vec![]);
    let model = &step_of(&free_text, SwarmWizardStep::Model).fields[0];
    assert_eq!(model.kind, PropKind::String);
    assert!(model.enum_variants.is_none());

    let catalog = vec!["sonnet-4".to_string(), "opus-4".to_string()];
    let picker = steps(Some("anthropic"), &catalog);
    let model = &step_of(&picker, SwarmWizardStep::Model).fields[0];
    assert_eq!(model.kind, PropKind::Enum);
    assert_eq!(model.enum_variants.as_deref(), Some(catalog.as_slice()));
    assert_eq!(model.default.as_deref(), Some("sonnet-4"));
}

fn credential(key: &str, is_secret: bool) -> FieldDescriptor {
    FieldDescriptor {
        key: key.to_string(),
        label: key.to_string(),
        help: String::new(),
        kind: PropKind::String,
        is_secret,
        enum_variants: None,
        required: is_secret,
        default: None,
    }
}

#[test]
fn an_unconfigured_provider_carries_its_quickstart_credential_shape() {
    let credentials = vec![credential("api_key", true), credential("model", false)];
    let steps = wizard_steps(
        &config(),
        Some("anthropic"),
        &vec![],
        &credentials,
        |key| key.to_string(),
    );
    let provider = step_of(&steps, SwarmWizardStep::Provider);
    let keys: Vec<&str> = provider.fields.iter().map(|f| f.key.as_str()).collect();
    assert_eq!(keys.first(), Some(&"provider"));
    assert!(
        keys.contains(&"api_key"),
        "an unconfigured provider shows what it still needs: {keys:?}"
    );
    assert!(
        !keys.contains(&"model"),
        "the model step owns the model choice, not the provider step: {keys:?}"
    );
    assert!(
        provider.fields.iter().any(|f| f.is_secret),
        "the borrowed credential rows keep their secret flag"
    );
}

#[test]
fn the_provider_picker_lists_known_families_when_nothing_is_configured() {
    let steps = steps(None, &vec![]);
    let provider = step_of(&steps, SwarmWizardStep::Provider);
    assert_eq!(provider.fields.len(), 1, "no provider chosen, no extras");
    let variants = provider.fields[0]
        .enum_variants
        .clone()
        .expect("the provider step is a picker");
    assert!(variants.iter().any(|v| v == "anthropic"));
}

#[test]
fn a_configured_alias_is_preferred_and_needs_no_credentials() {
    let mut config = config();
    config.model_providers = vec!["anthropic.work".to_string()];
    let steps = wizard_steps(
        &config,
        Some("anthropic.work"),
        &vec![],
        &vec![credential("api_key", true)],
        |key| key.to_string(),
    );
    let provider = step_of(&steps, SwarmWizardStep::Provider);
    assert_eq!(provider.fields.len(), 1);
    assert_eq!(
        provider.fields[0].default.as_deref(),
        Some("anthropic.work")
    );
    assert_eq!(provider_family("anthropic.work"), "anthropic");
    assert_eq!(provider_family("ollama"), "ollama");
}

#[test]
fn an_accepted_spec_round_trips_whatever_id_is_minted() {
    let base = prepare_spec(&submission(), &config()).expect("accepted");
    let again = prepare_spec_as(
        &SwarmSubmission::from_spec(&base),
        &config(),
        "sw-00000000000000000000000000000000",
    )
    .expect("accepted again");
    assert_eq!(again, base);
}

#[test]
fn a_minted_id_is_used_where_none_is_supplied() {
    let fresh = "sw-0123456789abcdef0123456789abcdef";
    let spec = prepare_spec_as(&submission(), &config(), fresh).expect("accepted");
    assert_eq!(spec.id, fresh);
}

#[test]
fn minted_ids_are_slug_safe_and_distinct() {
    let a = new_swarm_id();
    let b = new_swarm_id();
    assert_ne!(a, b);
    for id in [a, b] {
        let hex = id.strip_prefix("sw-").expect("prefixed");
        assert_eq!(hex.len(), 32);
        assert!(hex
            .chars()
            .all(|c| c.is_ascii_hexdigit() && !c.is_ascii_uppercase()));
    }
}

#[test]
fn a_provider_reference_names_its_entry() {
    assert_eq!(provider_entry("anthropic.main"), Some(("anthropic", "main")));
    assert_eq!(provider_entry("a.b.c"), Some(("a", "b.c")));
    assert_eq!(provider_entry("ollama"), None);
}

#[test]
fn a_dry_run_refuses_and_accepts_what_the_write_does() {
    let mut refused = submission();
    refused.name = String::new();
    assert_eq!(
        prepare_spec_as(&refused, &config(), "sw-dry"),
        prepare_spec_as(&refused, &config(), "sw-written"),
    );
    let dry = prepare_spec_as(&submission(), &config(), "sw-dry").expect("accepted");
    let mut written = prepare_spec_as(&submission(), &config(), "sw-written").expect("accepted");
    assert_eq!(written.id, "sw-written");
    written.id = dry.id.clone();
    assert_eq!(written, dry);
}
