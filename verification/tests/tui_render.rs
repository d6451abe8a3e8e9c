use zeroclaw_swarm::board::{BoardEvent, BoxState, BoxStatus};
use zeroclaw_swarm::store::{
    PersistedSwarm, SwarmBudget, SwarmBudgetLimits, SwarmPauseReason, SwarmSpec, SwarmSpend,
    SwarmStatus,
};
use zeroclaw_swarm::text::{clip, pad};
use zeroclaw_swarm::tui::client::{RpcFailure, SWARM_RUN_ACTIVE};
use zeroclaw_swarm::tui::input::Input;
use zeroclaw_swarm::tui::phrase::{t, ta_one, Phrase, PhraseArg, Words};
use zeroclaw_swarm::tui::render::{
    budget_label, centered, draw_cell, draw_dashboard, draw_feed, draw_grid, draw_modal,
    draw_swarm_view, draw_unsupported, draw_wizard, status_detail, status_label, window, Color,
    Palette, Rect, Row, Span, SwarmScreen, Tone, WizardScreen,
};
use zeroclaw_swarm::tui::state::{App, Screen};
use zeroclaw_swarm::tui::wire::{
    SessionUpdateEvent, SwarmBoardNotify, SwarmUpdate, SwarmValidateResult, Update,
};
use zeroclaw_swarm::usd::Usd;
use zeroclaw_swarm::wizard::{
    FieldDescriptor, PropKind, SwarmStepShape, SwarmValidationError, SwarmWizardStep,
};

/// A phrase as a catalogue without entries has it, with its values behind.
fn phrase_text(phrase: &Phrase) -> String {
    let mut out = phrase.fallback.to_string();
    for slot in &phrase.slots {
        out.push(' ');
        match &slot.value {
            PhraseArg::Text(text) => out.push_str(text),
            PhraseArg::Entry { fallback, .. } => out.push_str(fallback),
        }
    }
    out
}

fn said(key: &'static str, fallback: &'static str) -> String {
    phrase_text(&t(key, fallback))
}

fn said_of(
    key: &'static str,
    name: &'static str,
    value: &str,
    fallback: &'static str,
) -> String {
    phrase_text(&ta_one(key, name, value, fallback))
}

fn words_text(words: &Words) -> String {
    match words {
        Words::Plain(text) => text.clone(),
        Words::Phrase(phrase) => phrase_text(phrase),
    }
}

fn row_text(row: &Row) -> String {
    let mut out = String::new();
    for span in &row.spans {
        let text: String = span.pieces.iter().map(words_text).collect();
        out.push_str(&span.fit(&text));
    }
    out.push('\n');
    out
}

fn rows_text(rows: &[Row]) -> String {
    rows.iter().map(row_text).collect()
}

fn render(app: &App) -> String {
    let mut out = String::new();
    match app.screen() {
        Screen::Dashboard => {
            let screen = draw_dashboard(app, 20);
            out.push_str(&row_text(&screen.title));
            out.push_str(&row_text(&screen.header));
            out.push_str(&rows_text(&screen.rows));
            out.push_str(&row_text(&screen.status));
            out.push_str(&row_text(&screen.hint));
        }
        Screen::Detail { swarm_id } => {
            let frame = match draw_swarm_view(app, swarm_id) {
                SwarmScreen::Missing(row) => return row_text(&row),
                SwarmScreen::Canvas(frame) => frame,
            };
            let view = app.view_state().expect("the canvas is mounted");
            out.push_str(&row_text(&frame.title));
            out.push_str(&row_text(&frame.budget));
            for idx in draw_grid(view).concat() {
                let cell = draw_cell(view, idx, 8);
                out.push_str(&cell.title);
                out.push_str(&rows_text(&cell.rows));
            }
            out.push_str(&rows_text(&draw_feed(view, 4)));
            if let Some(input) = &frame.input {
                out.push_str(&row_text(input));
            }
            out.push_str(&row_text(&frame.hint));
        }
        Screen::Wizard => match draw_wizard(app.wizard()) {
            WizardScreen::Loading(phrase) => out.push_str(&phrase_text(&phrase)),
            WizardScreen::Step(step) => {
                out.push_str(&row_text(&step.title));
                out.push_str(&words_text(&step.help));
                out.push_str(&rows_text(&step.rows));
                out.push_str(&row_text(&step.footer));
                out.push_str(&row_text(&step.hint));
            }
            WizardScreen::Blank => {}
        },
        Screen::Unsupported => out.push_str(&rows_text(&draw_unsupported())),
    }
    if let Some(overlay) = draw_modal(app.modal()) {
        out.push_str(&words_text(&overlay.body));
        out.push_str(&phrase_text(&overlay.hint));
    }
    out
}

fn swarm(id: &str, name: &str) -> PersistedSwarm {
    PersistedSwarm::new(SwarmSpec::new(
        id,
        name,
        "anthropic",
        "sonnet-4",
        "balanced",
        "supervisor",
        "survey the field",
    ))
}

fn loaded() -> App {
    let mut app = App::new();
    app.on_update(Update::Swarms(vec![
        swarm("sw-1", "Research squad"),
        swarm("sw-2", "Triage squad"),
    ]));
    app
}

fn field(key: &str, kind: PropKind, variants: Option<Vec<String>>) -> FieldDescriptor {
    FieldDescriptor {
        key: key.to_string(),
        label: key.to_string(),
        help: String::new(),
        kind,
        is_secret: false,
        enum_variants: variants,
        required: true,
        default: None,
    }
}

fn shapes() -> Vec<SwarmStepShape> {
    vec![
        SwarmStepShape {
            step: SwarmWizardStep::Provider,
            title: "Model provider".to_string(),
            help: "The provider every box talks to.".to_string(),
            fields: vec![field(
                "provider",
                PropKind::AliasRef,
                Some(vec!["anthropic".to_string(), "openai".to_string()]),
            )],
        },
        SwarmStepShape {
            step: SwarmWizardStep::Goal,
            title: "Goal".to_string(),
            help: "What this swarm is for.".to_string(),
            fields: vec![field("goal", PropKind::String, None)],
        },
    ]
}

#[test]
fn the_dashboard_lists_every_swarm_and_the_new_row() {
    let rendered = render(&loaded());
    assert!(rendered.contains("Research squad"), "{rendered}");
    assert!(rendered.contains("Triage squad"));
    assert!(rendered.contains(&said("cli-swarm-tui-new-row", "+ New swarm")));
    assert!(rendered.contains(&phrase_text(&status_label(SwarmStatus::Created))));
    assert!(rendered.contains("standard"), "budget preset column");
}

#[test]
fn an_empty_dashboard_still_offers_the_new_row() {
    let mut app = App::new();
    app.on_update(Update::Swarms(Vec::new()));
    let rendered = render(&app);
    assert!(rendered.contains(&said("cli-swarm-tui-new-row", "+ New swarm")));
}

#[test]
fn the_live_canvas_shows_a_cell_per_box_and_the_budget_bar() {
    let mut app = loaded();
    app.on_input(Input::Enter);
    let rendered = render(&app);
    // One grid cell per roster box, titled by box id.
    assert!(rendered.contains("box-1"), "{rendered}");
    assert!(rendered.contains("box-4"));
    // The swarm-level budget status bar and the broadcast feed.
    assert!(rendered.contains(&said("cli-swarm-tui-feed-label", "Broadcast")));
    assert!(
        rendered.contains(&phrase_text(&status_label(SwarmStatus::Created))),
        "the run status is shown"
    );
}

/// Headless smoke: drive the reducer with a scripted stream and assert the
/// rendered frame shows four streaming boxes with badges plus the budget
/// bar — no TTY, no daemon.
#[test]
fn a_scripted_run_renders_four_streaming_boxes_with_badges() {
    let mut app = loaded();
    app.on_input(Input::Enter); // open the live view for sw-1
    app.on_update(Update::Subscribed {
        swarm_id: "sw-1".to_string(),
    });
    assert!(app.is_streaming(), "the view streams once subscribed");

    // Every box works its job and streams a line.
    for n in 1..=4 {
        let box_id = format!("box-{n}");
        app.on_update(Update::Board(Box::new(SwarmBoardNotify {
            swarm_id: "sw-1".to_string(),
            event: BoardEvent::Published {
                box_id: box_id.clone(),
                state: BoxState {
                    status: BoxStatus::Working,
                    claim: Some(format!("task-{n}")),
                    note: String::new(),
                },
            },
        })));
        app.on_update(Update::Stream(Box::new(SwarmUpdate {
            swarm_id: "sw-1".to_string(),
            box_id: box_id.clone(),
            event: SessionUpdateEvent::AgentMessageChunk {
                session_id: box_id,
                text: format!("analyzing shard {n}\n"),
            },
        })));
    }
    // A live spend so the budget bar is not all zeros.
    app.on_update(Update::RunControl {
        swarm_id: "sw-1".to_string(),
        status: SwarmStatus::Running,
        spent: SwarmSpend {
            turns: 12,
            tokens: 3400,
            cost_usd: Usd { micros: 1_500_000 },
        },
    });

    let rendered = render(&app);
    for n in 1..=4 {
        assert!(
            rendered.contains(&format!("box-{n}")),
            "cell {n}: {rendered}"
        );
        assert!(
            rendered.contains(&format!("analyzing shard {n}")),
            "streamed line {n}: {rendered}"
        );
    }
    assert!(
        rendered.contains(&said("cli-swarm-tui-badge-working", "working")),
        "working badge: {rendered}"
    );
    assert!(rendered.contains("task-1"), "claim badge: {rendered}");
    assert!(
        rendered.contains("12"),
        "spent turns in the budget bar: {rendered}"
    );
    assert!(
        rendered.contains(&phrase_text(&status_label(SwarmStatus::Running))),
        "run status: {rendered}"
    );
}

#[test]
fn the_chat_input_row_appears_while_typing_to_a_box() {
    let mut app = loaded();
    app.on_input(Input::Enter);
    app.on_input(Input::Enter); // open chat on the focused box
    app.on_input(Input::Char('h'));
    app.on_input(Input::Char('i'));
    let rendered = render(&app);
    assert!(
        rendered.contains(&clip(
            &said_of("cli-swarm-tui-chat-prompt", "box", "box-1", "chat"),
            8
        )),
        "the chat prompt names the box: {rendered}"
    );
    assert!(
        rendered.contains("hi"),
        "the typed message is shown: {rendered}"
    );
}

#[test]
fn the_wizard_renders_the_daemons_step_and_choices() {
    let mut app = loaded();
    app.on_input(Input::Up);
    app.on_input(Input::Enter);
    app.on_update(Update::Fields {
        provider: None,
        steps: shapes(),
    });
    // Step 1 is the client-owned name step; step 2 is the daemon's first.
    app.on_input(Input::Enter);
    let rendered = render(&app);
    assert!(rendered.contains("Model provider"), "{rendered}");
    assert!(rendered.contains("The provider every box talks to."));
    assert!(rendered.contains("anthropic"));
    assert!(rendered.contains("openai"));
}

#[test]
fn the_wizard_shows_the_loading_state_before_its_shapes_arrive() {
    let mut app = loaded();
    app.on_input(Input::Up);
    app.on_input(Input::Enter);
    let rendered = render(&app);
    assert!(rendered.contains(&clip(
        &said("cli-swarm-tui-wizard-loading", "Asking the daemon"),
        20
    )));
}

#[test]
fn a_rejected_field_is_drawn_next_to_it() {
    let mut app = loaded();
    app.on_input(Input::Up);
    app.on_input(Input::Enter);
    app.on_update(Update::Fields {
        provider: None,
        steps: shapes(),
    });
    for _ in 0..3 {
        app.on_input(Input::Enter);
    }
    app.on_update(Update::Validated(
        SwarmValidateResult::Errors {
            errors: vec![SwarmValidationError {
                step: Some(SwarmWizardStep::Goal),
                field: "goal".to_string(),
                message: "state what this swarm is for".to_string(),
            }],
        },
    ));
    let rendered = render(&app);
    assert!(
        rendered.contains("state what this swarm is for"),
        "{rendered}"
    );
}

#[test]
fn the_delete_confirmation_names_the_swarm_and_escalates_to_force() {
    let mut app = loaded();
    app.on_input(Input::Char('d'));
    let rendered = render(&app);
    assert!(rendered.contains("sw-1"), "{rendered}");

    app.on_input(Input::Char('y'));
    app.on_update(Update::Failed(RpcFailure {
        code: SWARM_RUN_ACTIVE,
        message: "live run".to_string(),
    }));
    let rendered = render(&app);
    assert!(
        rendered.contains(&clip(
            &said_of("cli-swarm-tui-confirm-delete-force", "swarm_id", "sw-1", "A live run holds this swarm. Delete anyway?"),
            20
        )),
        "{rendered}"
    );
}

#[test]
fn the_degrade_screen_explains_itself_instead_of_crashing() {
    let app = App::unsupported();
    let rendered = render(&app);
    assert!(rendered.contains(&clip(
        &said(
            "cli-swarm-tui-unsupported-title",
            "This daemon has no swarms"
        ),
        20
    )));
}

#[test]
fn an_error_modal_draws_the_daemons_message() {
    let mut app = loaded();
    app.on_update(Update::Failed(RpcFailure {
        code: -32602,
        message: "swarm not found".to_string(),
    }));
    let rendered = render(&app);
    assert!(rendered.contains("swarm not found"), "{rendered}");
}

#[test]
fn a_paused_swarm_reads_short_in_a_column_and_long_in_the_pane() {
    let paused = SwarmStatus::Paused {
        reason: SwarmPauseReason::BudgetExhausted,
    };
    assert_eq!(
        status_label(paused),
        t("cli-swarm-status-paused", "paused")
    );
    assert!(
        status_detail(paused).contains(&t(
            "cli-swarm-pause-budget-exhausted",
            "budget exhausted"
        )),
        "the detail pane names why a swarm parked"
    );
}

#[test]
fn no_color_collapses_the_palette_to_the_terminal_default() {
    assert_eq!(Palette::plain().accent, Color::Reset);
    assert_eq!(Palette::plain().danger, Color::Reset);
    assert_ne!(Palette::ansi().accent, Color::Reset);
}

#[test]
fn the_window_keeps_the_cursor_on_screen() {
    assert_eq!(window(0, 3, 10), (0, 3));
    assert_eq!(window(9, 20, 5), (5, 10));
    assert_eq!(window(0, 20, 5), (0, 5));
    assert_eq!(window(19, 20, 5), (15, 20));
    assert_eq!(window(0, 0, 5), (0, 0));
}

#[test]
fn padding_clips_rather_than_overflowing_a_column() {
    assert_eq!(pad("ab", 4), "ab   ");
    assert_eq!(pad("abcdef", 4), "abcd ");
}

#[test]
fn the_palette_follows_the_environment() {
    assert_eq!(Palette::detect(None), Palette::ansi());
    assert_eq!(Palette::detect(Some("")), Palette::ansi());
    assert_eq!(Palette::detect(Some("1")), Palette::plain());
    assert_eq!(Palette::ansi().color(Tone::Danger), Color::Red);
    assert_eq!(Palette::ansi().color(Tone::Plain), Color::Reset);
}

#[test]
fn a_column_span_takes_its_width() {
    let span = Span {
        pieces: vec![],
        tone: Tone::Plain,
        bold: false,
        width: Some(4),
    };
    assert_eq!(span.fit("ab"), "ab   ");
    let free = Span {
        width: None,
        ..span
    };
    assert_eq!(free.fit("ab"), "ab");
}

#[test]
fn a_custom_budget_reads_as_custom() {
    let custom = SwarmBudget::Custom(SwarmBudgetLimits {
        max_turns: 1,
        max_tokens: 1,
        max_cost_usd: Usd::dollars(1),
    });
    assert!(words_text(&budget_label(custom)).contains("custom"));
}

#[test]
fn an_overlay_sits_in_the_middle() {
    let area = Rect {
        x: 0,
        y: 0,
        width: 90,
        height: 24,
    };
    assert_eq!(
        centered(area, 60, 8),
        Rect {
            x: 15,
            y: 8,
            width: 60,
            height: 8,
        }
    );
    assert_eq!(centered(area, 200, 200), area, "it never leaves the screen");
}

#[test]
fn a_secret_is_masked() {
    let mut steps = shapes();
    steps[1].fields[0].is_secret = true;
    let mut app = loaded();
    app.on_input(Input::Up);
    app.on_input(Input::Enter);
    app.on_update(Update::Fields {
        provider: None,
        steps,
    });
    app.on_input(Input::Enter);
    app.on_input(Input::Enter);
    for c in "hush".chars() {
        app.on_input(Input::Char(c));
    }
    let rendered = render(&app);
    assert!(rendered.contains("****_"), "{rendered}");
    assert!(!rendered.contains("hush"), "{rendered}");
}

#[test]
fn every_box_has_one_cell_of_the_grid() {
    let mut app = loaded();
    app.on_input(Input::Enter);
    let view = app.view_state().expect("the canvas is mounted");
    assert_eq!(draw_grid(view), vec![vec![0, 1], vec![2, 3]]);
}

#[test]
fn a_canvas_that_is_not_open_says_so() {
    let app = loaded();
    let SwarmScreen::Missing(row) = draw_swarm_view(&app, "sw-1") else {
        panic!("no canvas is open");
    };
    assert_eq!(
        row_text(&row).trim_end(),
        said("cli-swarm-tui-detail-missing", "That swarm is gone.")
    );
}

#[test]
fn a_canvas_is_titled_by_name_or_by_id() {
    let mut app = loaded();
    app.on_input(Input::Enter);
    let titled = |id: &str| match draw_swarm_view(&app, id) {
        SwarmScreen::Canvas(frame) => row_text(&frame.title),
        SwarmScreen::Missing(_) => panic!("the canvas is mounted"),
    };
    assert!(titled("sw-1").contains("Research squad"));
    assert!(titled("sw-9").contains("sw-9"));
}
