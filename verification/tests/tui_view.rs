use zeroclaw_swarm::board::{BoardEvent, BoxState, BoxStatus};
use zeroclaw_swarm::store::{
    BoxSpec, PersistedSwarm, SwarmPauseReason, SwarmSpec, SwarmSpend, SwarmStatus,
};
use zeroclaw_swarm::tui::grid::{grid_shape, neighbour, sort_by_slot, GridStep};
use zeroclaw_swarm::tui::input::Input;
use zeroclaw_swarm::tui::phrase::{Phrase, PhraseArg, Words};
use zeroclaw_swarm::tui::stream::{BoxStream, LineKind, MAX_LINE_CHARS, STREAM_CAP};
use zeroclaw_swarm::tui::view::{Mode, ViewAction, ViewState, FEED_CAP};
use zeroclaw_swarm::tui::wire::{Effect, SessionUpdateEvent, SwarmChatResult, SwarmUpdate};

fn phrase_text(phrase: &Phrase) -> String {
    let mut out = phrase.fallback.to_string();
    for slot in &phrase.slots {
        out.push(' ');
        match &slot.value {
            PhraseArg::Text(text) => out.push_str(text),
            PhraseArg::Entry { fallback, .. } => out.push_str(fallback),
        }
    }
    out
}

fn words_text(words: &Words) -> String {
    match words {
        Words::Plain(text) => text.clone(),
        Words::Phrase(phrase) => phrase_text(phrase),
    }
}

fn line_texts(stream: &BoxStream) -> Vec<String> {
    stream.lines().iter().map(|l| words_text(&l.text)).collect()
}

fn swarm_with(boxes: usize) -> PersistedSwarm {
    let mut swarm = PersistedSwarm::new(SwarmSpec::new(
        "sw-1",
        "Research squad",
        "anthropic",
        "sonnet-4",
        "balanced",
        "supervisor",
        "survey the field",
    ));
    swarm.spec.boxes.truncate(boxes.max(1));
    for (slot, b) in swarm.spec.boxes.iter_mut().enumerate() {
        b.slot = u8::try_from(slot).unwrap_or(0);
    }
    swarm
}

fn view(boxes: usize) -> ViewState {
    ViewState::new(&swarm_with(boxes))
}

fn chunk(box_id: &str, text: &str) -> SwarmUpdate {
    SwarmUpdate {
        swarm_id: "sw-1".to_string(),
        box_id: box_id.to_string(),
        event: SessionUpdateEvent::AgentMessageChunk {
            session_id: "s".to_string(),
            text: text.to_string(),
        },
    }
}

#[test]
fn the_grid_packs_into_a_near_square() {
    assert_eq!(grid_shape(0), (1, 1));
    assert_eq!(grid_shape(1), (1, 1));
    assert_eq!(grid_shape(2), (1, 2));
    assert_eq!(grid_shape(3), (2, 2));
    assert_eq!(grid_shape(4), (2, 2));
    assert_eq!(grid_shape(5), (2, 3));
    assert_eq!(grid_shape(6), (2, 3));
}

#[test]
fn chunks_coalesce_into_lines_broken_on_newlines() {
    let mut v = view(4);
    v.apply_update(&chunk("box-1", "hello "));
    v.apply_update(&chunk("box-1", "world\nnext bit"));
    let stream = v.stream("box-1").expect("box-1 has a stream");
    assert_eq!(
        line_texts(stream),
        vec!["hello world"],
        "the first line is complete"
    );
    assert_eq!(
        stream.partial(),
        Some((LineKind::Message, "next bit")),
        "the tail keeps accreting"
    );
}

#[test]
fn a_different_event_flushes_the_partial() {
    let mut v = view(4);
    v.apply_update(&chunk("box-1", "thinking about it"));
    v.apply_update(&SwarmUpdate {
        swarm_id: "sw-1".to_string(),
        box_id: "box-1".to_string(),
        event: SessionUpdateEvent::ToolCall {
            session_id: "s".to_string(),
            tool_call_id: "t1".to_string(),
            name: "read_file".to_string(),
        },
    });
    let stream = v.stream("box-1").expect("stream");
    let lines = line_texts(stream);
    assert_eq!(lines.len(), 2, "the message line then the tool line");
    assert_eq!(lines[0], "thinking about it");
    assert!(lines[1].contains("read_file"), "tool line names the tool");
    assert!(stream.partial().is_none());
}

#[test]
fn a_full_ring_buffer_drops_the_head_but_flags_a_gap() {
    let mut v = view(4);
    for i in 0..(STREAM_CAP + 5) {
        v.apply_update(&chunk("box-1", &format!("line {i}\n")));
    }
    let stream = v.stream("box-1").expect("stream");
    assert!(stream.has_gap(), "eviction is visible, not silent");
    assert!(stream.lines().len() <= STREAM_CAP);
    assert_eq!(
        line_texts(stream).last().map(String::as_str),
        Some("line 204"),
        "the newest line is kept"
    );
}

#[test]
fn an_endless_line_is_cut() {
    let mut stream = BoxStream::new();
    for _ in 0..3 {
        stream.apply(&SessionUpdateEvent::AgentMessageChunk {
            session_id: "s".to_string(),
            text: "x".repeat(MAX_LINE_CHARS),
        });
    }
    let longest = line_texts(&stream)
        .iter()
        .map(|line| line.chars().count())
        .max()
        .unwrap_or(0);
    assert!(longest <= MAX_LINE_CHARS, "{longest}");
}

#[test]
fn an_update_for_another_swarm_is_ignored() {
    let mut v = view(4);
    v.apply_update(&SwarmUpdate {
        swarm_id: "sw-OTHER".to_string(),
        box_id: "box-1".to_string(),
        event: SessionUpdateEvent::AgentMessageChunk {
            session_id: "s".to_string(),
            text: "not mine".to_string(),
        },
    });
    assert!(
        v.stream("box-1").is_none(),
        "a stale fan-out is filtered out"
    );
}

#[test]
fn board_events_drive_the_badges() {
    let mut v = view(4);
    v.apply_board(&BoardEvent::Published {
        box_id: "box-2".to_string(),
        state: BoxState {
            status: BoxStatus::Working,
            claim: Some("scan".to_string()),
            note: "reading".to_string(),
        },
    });
    let badge = v.badge("box-2").expect("badge");
    assert_eq!(badge.status, BoxStatus::Working);
    assert_eq!(badge.claim.as_deref(), Some("scan"));

    v.apply_board(&BoardEvent::Released {
        box_id: "box-2".to_string(),
        task_key: "scan".to_string(),
    });
    assert!(
        v.badge("box-2").unwrap().claim.is_none(),
        "release clears it"
    );

    v.apply_board(&BoardEvent::Reaped);
    assert_eq!(v.badge("box-2").unwrap().status, BoxStatus::Idle);
}

#[test]
fn a_dropped_burst_leaves_a_visible_feed_marker() {
    let mut v = view(4);
    v.note_gap();
    assert!(
        v.feed()
            .iter()
            .any(|line| phrase_text(line).contains("gap")),
        "the gap is on the feed, not hidden"
    );
}

#[test]
fn the_feed_keeps_its_newest_entries() {
    let mut v = view(4);
    for i in 0..(FEED_CAP + 3) {
        v.apply_board(&BoardEvent::Claimed {
            box_id: "box-1".to_string(),
            task_key: format!("task-{i}"),
        });
    }
    assert_eq!(v.feed().len(), FEED_CAP);
    assert!(phrase_text(&v.feed()[FEED_CAP - 1]).contains("task-102"));
}

#[test]
fn focus_snaps_around_a_two_by_two_grid() {
    let mut v = view(4);
    assert_eq!(v.focus(), 0);
    v.on_input(Input::Right);
    assert_eq!(v.focus(), 1);
    v.on_input(Input::Down);
    assert_eq!(v.focus(), 3);
    v.on_input(Input::Left);
    assert_eq!(v.focus(), 2);
    v.on_input(Input::Up);
    assert_eq!(v.focus(), 0);
    v.on_input(Input::Up);
    assert_eq!(v.focus(), 0);
    v.on_input(Input::BackTab);
    assert_eq!(v.focus(), 3);
    v.on_input(Input::Tab);
    assert_eq!(v.focus(), 0);
}

#[test]
fn a_grid_move_is_undone_by_its_opposite() {
    assert_eq!(neighbour(0, 4, 2, GridStep::Right), Some(1));
    assert_eq!(neighbour(1, 4, 2, GridStep::Left), Some(0));
    assert_eq!(neighbour(1, 4, 2, GridStep::Right), None);
    assert_eq!(neighbour(1, 3, 2, GridStep::Down), None, "a ragged last row");
}

#[test]
fn editing_a_header_marks_the_layout_and_flushes_once() {
    let mut v = view(4);
    v.on_input(Input::Char('e'));
    for c in "critic".chars() {
        v.on_input(Input::Char(c));
    }
    v.on_input(Input::Tab);
    for c in "poke holes".chars() {
        v.on_input(Input::Char(c));
    }
    v.on_input(Input::Enter);
    assert_eq!(v.boxes()[0].role, "critic");
    assert_eq!(v.boxes()[0].job, "poke holes");
    assert!(v.layout_ready(), "a committed edit is pending a save");

    let effect = v.flush_layout();
    match effect {
        Effect::SaveLayout { boxes, .. } => {
            assert_eq!(boxes[0].role, "critic");
        }
        other => panic!("expected a layout save, got {other:?}"),
    }
    assert!(matches!(v.flush_layout(), Effect::Idle));

    let mut saved = swarm_with(4);
    saved.revision = 7;
    v.apply_layout_saved(&saved);
    assert!(!v.layout_ready());
}

#[test]
fn an_unchanged_header_edit_saves_nothing() {
    let mut v = view(4);
    v.on_input(Input::Char('e'));
    v.on_input(Input::Enter);
    assert!(!v.layout_ready());
}

#[test]
fn moving_a_box_swaps_slots_and_carries_focus() {
    let mut v = view(4);
    let first = v.boxes()[0].box_id.clone();
    v.on_input(Input::Char('m'));
    v.on_input(Input::Right);
    assert_eq!(v.focus(), 1, "focus follows the grabbed box");
    assert_eq!(v.boxes()[1].box_id, first, "the box moved to cell 1");
    assert_eq!(v.boxes()[1].slot, 1, "its slot was exchanged");
    assert!(v.layout_ready(), "the move is pending a save");
}

#[test]
fn boxes_show_in_slot_order() {
    let at = |id: &str, slot: u8| BoxSpec {
        box_id: id.to_string(),
        role: String::new(),
        job: String::new(),
        slot,
    };
    let sorted = sort_by_slot(vec![at("c", 2), at("a", 0), at("b", 1), at("a2", 0)]);
    let ids: Vec<&str> = sorted.iter().map(|b| b.box_id.as_str()).collect();
    assert_eq!(ids, vec!["a", "a2", "b", "c"]);
}

#[test]
fn enter_opens_chat_and_sends_to_the_focused_box() {
    let mut v = view(4);
    v.on_input(Input::Right);
    v.on_input(Input::Enter);
    for c in "status?".chars() {
        v.on_input(Input::Char(c));
    }
    match v.on_input(Input::Enter) {
        ViewAction::Call(Effect::Chat {
            box_id, message, ..
        }) => {
            assert_eq!(box_id, "box-2");
            assert_eq!(message, "status?");
        }
        _ => panic!("expected a chat call"),
    }
    v.on_input(Input::Enter);
    assert!(matches!(v.on_input(Input::Enter), ViewAction::Idle));
}

#[test]
fn a_chat_reply_toggles_the_engaged_badge() {
    let mut v = view(4);
    v.apply_chat(&SwarmChatResult {
        swarm_id: "sw-1".to_string(),
        box_id: "box-1".to_string(),
        queued: true,
        user_engaged: true,
        released: false,
    });
    assert!(v.badge("box-1").unwrap().engaged);
    v.apply_chat(&SwarmChatResult {
        swarm_id: "sw-1".to_string(),
        box_id: "box-1".to_string(),
        queued: false,
        user_engaged: false,
        released: true,
    });
    assert!(!v.badge("box-1").unwrap().engaged, "handback clears it");
}

#[test]
fn run_control_keys_only_fire_when_the_status_allows() {
    let mut v = view(4);
    assert!(matches!(
        v.on_input(Input::Char('s')),
        ViewAction::Call(Effect::Start { .. })
    ));
    assert!(matches!(v.on_input(Input::Char('p')), ViewAction::Idle));

    v.set_run_state(SwarmStatus::Running, SwarmSpend::default());
    assert!(matches!(
        v.on_input(Input::Char('p')),
        ViewAction::Call(Effect::Pause { .. })
    ));
    assert!(matches!(
        v.on_input(Input::Char('x')),
        ViewAction::Call(Effect::Stop { .. })
    ));

    v.set_run_state(
        SwarmStatus::Paused {
            reason: SwarmPauseReason::BudgetExhausted,
        },
        SwarmSpend::default(),
    );
    assert!(matches!(
        v.on_input(Input::Char('r')),
        ViewAction::Call(Effect::Resume { .. })
    ));

    v.set_status(SwarmStatus::Stopped);
    for key in ['s', 'p', 'r', 'x'] {
        assert!(matches!(v.on_input(Input::Char(key)), ViewAction::Idle));
    }
}

#[test]
fn escape_leaves_the_canvas() {
    let mut v = view(4);
    assert!(matches!(v.on_input(Input::Escape), ViewAction::Leave));
    let mut v = view(4);
    v.on_input(Input::Enter);
    assert!(matches!(v.on_input(Input::Escape), ViewAction::Idle));
    assert!(
        matches!(v.mode(), Mode::Nav),
        "escape only cancels the chat"
    );
}

#[test]
fn how_a_text_is_cut_into_chunks_does_not_show() {
    let chunk = |text: &str| SessionUpdateEvent::AgentMessageChunk {
        session_id: "s".to_string(),
        text: text.to_string(),
    };
    let mut cut = BoxStream::default();
    cut.apply(&chunk("one\ntw"));
    cut.apply(&chunk("o\n\nthr"));
    cut.apply(&chunk("ee"));
    let mut whole = BoxStream::new();
    whole.apply(&chunk("one\ntwo\n\nthree"));
    assert_eq!(line_texts(&cut), vec!["one", "two", ""]);
    assert_eq!(line_texts(&cut), line_texts(&whole));
    assert_eq!(cut.partial(), Some((LineKind::Message, "three")));
    assert_eq!(cut.partial(), whole.partial());
    assert_eq!(cut.has_gap(), whole.has_gap());
}

#[test]
fn chunks_leave_no_newline_and_no_overlong_line() {
    let mut stream = BoxStream::new();
    let long = "x".repeat(MAX_LINE_CHARS + 5);
    for text in [long.as_str(), "more\n", "short\ntail"] {
        stream.apply(&SessionUpdateEvent::AgentThoughtChunk {
            session_id: "s".to_string(),
            text: text.to_string(),
        });
    }
    let lines = line_texts(&stream);
    assert_eq!(lines.len(), 2);
    assert_eq!(lines[0].chars().count(), MAX_LINE_CHARS);
    assert_eq!(lines[1], "short");
    assert!(lines.iter().all(|line| !line.contains('\n')));
    assert_eq!(stream.partial(), Some((LineKind::Thought, "tail")));
}

#[test]
fn the_scrollback_keeps_the_latest_lines() {
    let mut stream = BoxStream::new();
    let text: String = (0..STREAM_CAP).map(|i| format!("line {i}\n")).collect();
    stream.append_chunk(LineKind::Message, &text);
    assert!(!stream.has_gap());
    assert_eq!(line_texts(&stream).len(), STREAM_CAP);
    stream.append_chunk(LineKind::Message, "one more\nand one\n");
    assert!(stream.has_gap());
    let lines = line_texts(&stream);
    assert_eq!(lines.len(), STREAM_CAP);
    assert_eq!(lines[0], "line 2");
    assert_eq!(lines[STREAM_CAP - 1], "and one");
}
