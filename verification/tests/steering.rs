use zeroclaw_swarm::steering::{
    PumpStep, SteeringBuffer, SteeringClass, SteeringError, SteeringQueue,
};

#[test]
fn class_order_puts_user_ahead_of_orchestrator() {
    assert!(
        SteeringClass::User < SteeringClass::Orchestrator,
        "the derived Ord is the priority order the buffer relies on; \
         reordering the variants silently demotes human interjections"
    );
    assert_eq!(
        SteeringClass::ALL,
        [SteeringClass::User, SteeringClass::Orchestrator]
    );
    assert_eq!(SteeringClass::default(), SteeringClass::User);
    assert_eq!(SteeringClass::User.lane(), 0);
    assert_eq!(SteeringClass::Orchestrator.lane(), 1);
}

#[test]
fn class_names_are_the_wire_names() {
    assert_eq!(SteeringClass::User.as_str(), "user");
    assert_eq!(SteeringClass::Orchestrator.as_str(), "orchestrator");
}

#[test]
fn buffer_drains_user_class_before_orchestrator() {
    let mut buffer = SteeringBuffer::default();
    buffer.push(SteeringClass::Orchestrator, "o1".into());
    buffer.push(SteeringClass::User, "u1".into());
    buffer.push(SteeringClass::Orchestrator, "o2".into());
    buffer.push(SteeringClass::User, "u2".into());

    assert_eq!(
        buffer.drain_prioritized(16),
        vec!["u1", "u2", "o1", "o2"],
        "every queued User message must precede every Orchestrator one, \
         FIFO within each class"
    );
    assert_eq!(buffer.len(), 0);
}

#[test]
fn buffer_respects_the_batch_bound_and_keeps_the_remainder() {
    let mut buffer = SteeringBuffer::default();
    buffer.push(SteeringClass::Orchestrator, "o1".into());
    buffer.push(SteeringClass::User, "u1".into());
    buffer.push(SteeringClass::User, "u2".into());

    assert_eq!(buffer.drain_prioritized(2), vec!["u1", "u2"]);
    assert_eq!(
        buffer.drain_prioritized(2),
        vec!["o1"],
        "a bounded batch must leave the rest queued, not drop it"
    );
}

#[test]
fn queue_hands_a_single_message_to_the_turn() {
    let mut queue = SteeringQueue::start();
    queue
        .send(false, SteeringClass::User, "keep going".into())
        .expect("a live queue accepts a steer");
    assert_eq!(queue.pump_step(), PumpStep::Reserve(32));
    assert_eq!(queue.hand_over(true), Some(vec!["keep going".to_string()]));
    assert_eq!(queue.pending(), 0);
}

#[test]
fn queued_user_message_overtakes_a_queued_orchestrator_message() {
    let mut queue = SteeringQueue::start_with_capacity(1, 8);
    queue
        .send(false, SteeringClass::Orchestrator, "committed".into())
        .expect("live queue");
    assert_eq!(queue.hand_over(true), Some(vec!["committed".to_string()]));

    queue
        .send(false, SteeringClass::Orchestrator, "o1".into())
        .expect("live queue");
    queue
        .send(false, SteeringClass::User, "u1".into())
        .expect("live queue");
    assert_eq!(queue.pending(), 2, "the full channel must hold both back");

    assert_eq!(
        queue.hand_over(true),
        Some(vec!["u1".to_string()]),
        "the User-class steer must jump the queued Orchestrator one"
    );
    assert_eq!(queue.hand_over(true), Some(vec!["o1".to_string()]));
}

#[test]
fn send_after_the_turn_receiver_is_dropped_reports_turn_ended() {
    let mut queue = SteeringQueue::start();
    assert_eq!(
        queue.send(true, SteeringClass::User, "too late".into()),
        Err(SteeringError::TurnEnded)
    );
}

#[test]
fn send_after_close_reports_turn_ended_and_close_counts_the_loss() {
    let mut queue = SteeringQueue::start_with_capacity(1, 8);
    queue
        .send(false, SteeringClass::User, "committed".into())
        .expect("live queue");
    assert_eq!(queue.hand_over(true), Some(vec!["committed".to_string()]));
    queue
        .send(false, SteeringClass::User, "stranded".into())
        .expect("live queue");

    assert_eq!(
        queue.close(),
        1,
        "close must report the still-queued message so the turn teardown \
         can log the loss rather than swallow it"
    );
    assert_eq!(queue.close(), 0, "close is idempotent");
    assert_eq!(
        queue.send(false, SteeringClass::User, "after".into()),
        Err(SteeringError::TurnEnded)
    );
    assert_eq!(queue.pump_step(), PumpStep::Stop);
}

#[test]
fn queue_rejects_messages_past_the_pending_bound() {
    let mut queue = SteeringQueue::start_with_capacity(1, 2);
    for i in 0..2 {
        assert_eq!(
            queue.send(false, SteeringClass::User, format!("m{i}")),
            Ok(())
        );
    }
    assert_eq!(
        queue.send(false, SteeringClass::User, "m2".into()),
        Err(SteeringError::QueueFull)
    );
    assert_eq!(queue.pending(), 2);
}

#[test]
fn an_idle_queue_waits_and_a_closed_reservation_stops() {
    let mut queue = SteeringQueue::start_with_capacity(4, 8);
    assert_eq!(queue.pump_step(), PumpStep::Wait);
    queue
        .send(false, SteeringClass::User, "u1".into())
        .expect("live queue");
    assert_eq!(
        queue.hand_over(false),
        None,
        "no slot was reserved, so nothing can be handed over"
    );
}

#[test]
fn steering_refusals_say_what_went_wrong() {
    let stale = SteeringError::StaleGeneration {
        requested: 3,
        current: 12,
    };
    assert_eq!(
        stale.message(),
        "steering message targets turn generation 3; the session is on generation 12"
    );
    assert_eq!(
        SteeringError::NoTurnInFlight.message(),
        "no turn in flight for this session"
    );
    assert_eq!(
        SteeringError::QueueFull.message(),
        "steering queue is full for the running turn"
    );
    assert_eq!(
        SteeringError::TurnEnded.message(),
        "the running turn is no longer accepting steering"
    );
}
