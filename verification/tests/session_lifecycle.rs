use zeroclaw_swarm::session_lifecycle::{FinalizingGuard, MutationRejection, SessionLifecycle};

#[test]
fn never_deleted_session_reports_unchanged_generation() {
    let lifecycle = SessionLifecycle::new();
    let captured = lifecycle.deletion_generation("brand-new");
    assert!(
        !lifecycle.deleted_since("brand-new", captured),
        "a session that was never deleted must not look deleted"
    );
}

#[test]
fn deletion_invalidates_a_generation_captured_before_it() {
    let mut lifecycle = SessionLifecycle::new();
    let captured = lifecycle.deletion_generation("doomed");
    lifecycle.record_deletion("doomed");
    assert!(
        lifecycle.deleted_since("doomed", captured),
        "a writer queued across a delete must observe it"
    );
}

#[test]
fn delete_then_recreate_still_invalidates_the_queued_writer() {
    let mut lifecycle = SessionLifecycle::new();
    let captured = lifecycle.deletion_generation("recycled");
    lifecycle.record_deletion("recycled");
    assert!(
        lifecycle.deleted_since("recycled", captured),
        "delete+recreate must not look identical to never-deleted"
    );
}

#[test]
fn deletion_generation_is_per_session() {
    let mut lifecycle = SessionLifecycle::new();
    let other = lifecycle.deletion_generation("bystander");
    lifecycle.record_deletion("doomed");
    assert!(
        !lifecycle.deleted_since("bystander", other),
        "deleting one session must not invalidate writers on another"
    );
}

#[test]
fn persistence_failure_generation_is_monotonic_and_not_consumed() {
    let mut lifecycle = SessionLifecycle::new();
    let session_key = "damaged";
    let deletion = lifecycle.deletion_generation(session_key);
    let socket_b = lifecycle.persistence_generation(session_key);
    let socket_c = socket_b;

    lifecycle
        .with_completion(session_key, deletion, |disposition| {
            disposition.record_persistence_failure();
        })
        .expect("session incarnation remains current");

    assert!(matches!(
        lifecycle.with_write(session_key, deletion, socket_b, || ()),
        Err(MutationRejection::PersistenceChanged)
    ));
    assert!(matches!(
        lifecycle.with_write(session_key, deletion, socket_c, || ()),
        Err(MutationRejection::PersistenceChanged)
    ));

    let rehydrated = lifecycle.persistence_generation(session_key);
    assert!(
        lifecycle
            .with_write(session_key, deletion, rehydrated, || ())
            .is_ok(),
        "a writer prepared from the current backend disposition may proceed"
    );
}

#[test]
fn finalizing_is_observable_until_the_guard_drops() {
    let mut lifecycle = SessionLifecycle::new();
    assert!(!lifecycle.is_finalizing("s"));
    {
        let guard = FinalizingGuard::new(&mut lifecycle, "s");
        assert!(
            lifecycle.is_finalizing("s"),
            "a turn between stream-end and persisted must read as finalizing"
        );
        guard.release(&mut lifecycle);
    }
    assert!(
        !lifecycle.is_finalizing("s"),
        "the guard must clear the hold on drop"
    );
}

#[test]
fn overlapping_finalizations_do_not_clear_each_other_early() {
    let mut lifecycle = SessionLifecycle::new();
    let outer = FinalizingGuard::new(&mut lifecycle, "s");
    {
        let inner = FinalizingGuard::new(&mut lifecycle, "s");
        inner.release(&mut lifecycle);
    }
    assert!(
        lifecycle.is_finalizing("s"),
        "an inner hold releasing must not cancel the outer one"
    );
    outer.release(&mut lifecycle);
    assert!(!lifecycle.is_finalizing("s"));
}

#[test]
fn end_finalizing_without_a_begin_is_inert() {
    let mut lifecycle = SessionLifecycle::new();
    lifecycle.end_finalizing("never-started");
    assert!(!lifecycle.is_finalizing("never-started"));
}

#[test]
fn forget_finalizing_clears_holds_but_keeps_the_deletion_generation() {
    let mut lifecycle = SessionLifecycle::new();
    let captured = lifecycle.deletion_generation("gone");
    lifecycle.begin_finalizing("gone");
    lifecycle.record_deletion("gone");
    lifecycle.forget_finalizing("gone");
    assert!(!lifecycle.is_finalizing("gone"));
    assert!(
        lifecycle.deleted_since("gone", captured),
        "forgetting finalization must not erase the deletion a queued writer still needs to see"
    );
}

#[test]
fn a_write_after_a_deletion_is_rejected_as_deleted() {
    let mut lifecycle = SessionLifecycle::new();
    let deletion = lifecycle.deletion_generation("gone");
    let persistence = lifecycle.persistence_generation("gone");
    assert_eq!(lifecycle.with_deletion("gone", || 7), 7);
    assert_eq!(
        lifecycle.with_write("gone", deletion, persistence, || ()),
        Err(MutationRejection::Deleted)
    );
    assert_eq!(
        lifecycle.with_completion("gone", deletion, |_| ()),
        None,
        "a completion of the dead incarnation must not run"
    );
}

#[test]
fn a_current_write_hands_back_what_the_closure_returned() {
    let lifecycle = SessionLifecycle::default();
    let deletion = lifecycle.deletion_generation("s");
    let persistence = lifecycle.persistence_generation("s");
    assert_eq!(
        lifecycle.with_write("s", deletion, persistence, || "written"),
        Ok("written")
    );
}

#[test]
fn a_failure_in_one_session_leaves_another_writable() {
    let mut lifecycle = SessionLifecycle::new();
    let deletion_a = lifecycle.deletion_generation("a");
    let deletion_b = lifecycle.deletion_generation("b");
    let persistence_b = lifecycle.persistence_generation("b");
    lifecycle
        .with_completion("a", deletion_a, |disposition| {
            disposition.record_persistence_failure()
        })
        .expect("current");
    assert!(lifecycle
        .with_write("b", deletion_b, persistence_b, || ())
        .is_ok());
}

#[test]
fn a_rejected_write_never_runs_its_mutation() {
    let mut lifecycle = SessionLifecycle::new();
    let deletion = lifecycle.deletion_generation("s");
    let persistence = lifecycle.persistence_generation("s");
    let mut ran = 0;
    lifecycle
        .with_completion("s", deletion, |disposition| {
            disposition.record_persistence_failure();
        })
        .expect("the incarnation is alive");
    assert_eq!(
        lifecycle.with_write("s", deletion, persistence, || ran += 1),
        Err(MutationRejection::PersistenceChanged)
    );
    lifecycle.record_deletion("s");
    assert_eq!(
        lifecycle.with_write("s", deletion, persistence, || ran += 1),
        Err(MutationRejection::Deleted)
    );
    assert_eq!(ran, 0, "a stale write must not happen");

    let deletion = lifecycle.deletion_generation("s");
    let persistence = lifecycle.persistence_generation("s");
    assert_eq!(
        lifecycle.with_write("s", deletion, persistence, || ran += 1),
        Ok(())
    );
    assert_eq!(ran, 1);
}

#[test]
fn a_rejected_completion_never_runs() {
    let mut lifecycle = SessionLifecycle::new();
    let deletion = lifecycle.deletion_generation("s");
    let failures = lifecycle.persistence_generation("s");
    lifecycle.record_deletion("s");
    let mut ran = false;
    let outcome = lifecycle.with_completion("s", deletion, |disposition| {
        ran = true;
        disposition.record_persistence_failure();
    });
    assert_eq!(outcome, None);
    assert!(!ran, "the dead incarnation must not complete");
    assert_eq!(lifecycle.persistence_generation("s"), failures);
}
