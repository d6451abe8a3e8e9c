use zeroclaw_swarm::clock::{Timestamp, LAST_SECOND};
use zeroclaw_swarm::store::model::{PayloadField, PayloadValue};
use zeroclaw_swarm::store::{
    default_roster, mint_claim, renewed_lease, same_claim, InMemorySwarmStore, PersistedSwarm, StoreError,
    SwarmBudget, SwarmBudgetLimits, SwarmBudgetPreset, SwarmEventRecord, SwarmPauseReason,
    SwarmSpec, SwarmSpend, SwarmStatus, SwarmStore, DEFAULT_ROSTER_SIZE,
};
use zeroclaw_swarm::usd::Usd;

fn spec(id: &str) -> SwarmSpec {
    SwarmSpec::new(
        id,
        &format!("Swarm {id}"),
        "anthropic",
        "sonnet-4",
        "standard",
        "supervisor",
        "ship the thing",
    )
}

fn swarm(id: &str, created_at: &str) -> PersistedSwarm {
    let mut s = PersistedSwarm::new(spec(id));
    s.created_at = created_at.to_string();
    s.updated_at = created_at.to_string();
    s
}

fn event(swarm_id: &str, kind: &str) -> SwarmEventRecord {
    SwarmEventRecord {
        swarm_id: swarm_id.to_string(),
        seq: 0,
        ts: "t".to_string(),
        kind: kind.to_string(),
        box_id: None,
        payload: vec![],
    }
}

fn store() -> InMemorySwarmStore {
    InMemorySwarmStore::new()
}

#[test]
fn in_memory_crud_round_trip() {
    let mut store = store();
    let created = swarm("s1", "2020-01-01T00:00:00Z");
    store.save_swarm(&created).expect("create");
    let loaded = store.load_swarm("s1").expect("load").expect("present");
    assert_eq!(loaded, created, "the stored document round-trips verbatim");
    assert_eq!(loaded.spec.boxes.len(), DEFAULT_ROSTER_SIZE);
    assert_eq!(loaded.run.status, SwarmStatus::Created);

    let mut running = created.clone();
    running.revision = 1;
    running.run.status = SwarmStatus::Running;
    running
        .run
        .sessions
        .insert("box-1".to_string(), "sess-1".to_string());
    running.run.spent.turns = 3;
    store.save_swarm(&running).expect("update");
    let loaded = store.load_swarm("s1").expect("load").expect("present");
    assert_eq!(loaded.revision, 1);
    assert_eq!(loaded.run.status, SwarmStatus::Running);
    assert_eq!(
        loaded.run.sessions.get("box-1").map(String::as_str),
        Some("sess-1")
    );
    assert_eq!(loaded.run.spent.turns, 3);

    assert_eq!(store.list_swarms().expect("list").len(), 1);
    assert!(store.delete_swarm("s1").expect("delete"));
    assert!(store.load_swarm("s1").expect("load").is_none());
    assert!(
        !store.delete_swarm("s1").expect("delete"),
        "deleting an absent swarm reports no removal rather than erroring"
    );
    assert!(store.health_check());
}

#[test]
fn in_memory_list_is_newest_first_and_stable() {
    let mut store = store();
    for (id, created) in [
        ("b", "2020-01-01T00:00:00Z"),
        ("c", "2020-03-01T00:00:00Z"),
        ("a", "2020-02-01T00:00:00Z"),
    ] {
        store.save_swarm(&swarm(id, created)).expect("save");
    }
    let ids: Vec<String> = store
        .list_swarms()
        .expect("list")
        .into_iter()
        .map(|s| s.spec.id)
        .collect();
    assert_eq!(ids, vec!["c", "a", "b"], "newest-created first");
}

#[test]
fn in_memory_save_guards_revision() {
    let mut store = store();
    let mut base = swarm("s1", "2020-01-01T00:00:00Z");
    base.revision = 5;
    store.save_swarm(&base).expect("save at revision 5");

    let mut older = base.clone();
    older.revision = 4;
    let err = store.save_swarm(&older).expect_err("stale write refused");
    assert!(
        matches!(
            err,
            StoreError::StaleRevision {
                have: 4,
                found: 5,
                ..
            }
        ),
        "expected StaleRevision, got {}",
        err.message()
    );

    store.save_swarm(&base).expect("idempotent retry");

    let mut divergent = base.clone();
    divergent.run.status = SwarmStatus::Running;
    let err = store
        .save_swarm(&divergent)
        .expect_err("divergent same-revision write refused");
    assert!(
        matches!(err, StoreError::RevisionConflict { revision: 5, .. }),
        "expected RevisionConflict, got {}",
        err.message()
    );

    let stored = store.load_swarm("s1").expect("load").expect("present");
    assert_eq!(stored.revision, 5);
    assert_eq!(stored.run.status, SwarmStatus::Created);

    let mut newer = base.clone();
    newer.revision = 6;
    newer.run.status = SwarmStatus::Running;
    store.save_swarm(&newer).expect("newer revision wins");
    assert_eq!(
        store
            .load_swarm("s1")
            .expect("load")
            .expect("present")
            .revision,
        6
    );
}

#[test]
fn in_memory_claim_lifecycle() {
    let mut store = store();
    store
        .save_swarm(&swarm("s1", "2020-01-01T00:00:00Z"))
        .expect("save");

    let token = store
        .try_claim_swarm("s1")
        .expect("claim")
        .expect("first claim wins");
    assert_eq!(token.swarm_id, "s1");
    assert!(!token.holder.is_empty());
    assert!(
        store.try_claim_swarm("s1").expect("claim").is_none(),
        "a claimed swarm is refused to the next caller"
    );

    store.heartbeat_claim(&token).expect("heartbeat");

    store.release_claim(&token).expect("release");
    let retaken = store
        .try_claim_swarm("s1")
        .expect("claim")
        .expect("released swarm is claimable again");

    let err = store
        .heartbeat_claim(&token)
        .expect_err("a released token must not renew");
    assert!(
        matches!(err, StoreError::ClaimLost { .. }),
        "expected ClaimLost, got {}",
        err.message()
    );
    store
        .release_claim(&token)
        .expect("stale release is a no-op");
    assert!(
        store.try_claim_swarm("s1").expect("claim").is_none(),
        "the live claim survived a stale release"
    );

    store.release_claim(&retaken).expect("release");
}

#[test]
fn in_memory_terminal_swarms_are_not_claimable() {
    let mut store = store();
    let mut done = swarm("s1", "2020-01-01T00:00:00Z");
    done.run.status = SwarmStatus::Completed;
    store.save_swarm(&done).expect("save");
    assert!(
        store.try_claim_swarm("s1").expect("claim").is_none(),
        "a completed swarm is history, not claimable work"
    );
}

#[test]
fn in_memory_expired_claims_match_past_due_leases() {
    let mut store = store();
    store
        .save_swarm(&swarm("s1", "2020-01-01T00:00:00Z"))
        .expect("save");
    let token = store
        .try_claim_swarm("s1")
        .expect("claim")
        .expect("claim wins");
    assert!(
        store
            .expired_claims("2000-01-01T00:00:00Z")
            .expect("expired")
            .is_empty(),
        "a fresh lease is not past due"
    );
    let expired = store
        .expired_claims("2999-01-01T00:00:00Z")
        .expect("expired");
    assert_eq!(expired.len(), 1);
    assert_eq!(expired[0].swarm_id, "s1");
    assert_eq!(expired[0].holder, token.holder);
}

#[test]
fn in_memory_events_are_append_only_and_ordered() {
    let mut store = store();
    assert_eq!(
        store
            .append_event(&event("s1", "swarm_created"))
            .expect("append"),
        1
    );
    assert_eq!(
        store
            .append_event(&event("s1", "swarm_started"))
            .expect("append"),
        2
    );
    assert_eq!(
        store
            .append_event(&event("s2", "swarm_created"))
            .expect("append"),
        3
    );

    let critic = || {
        vec![PayloadField {
            name: "role".to_string(),
            value: PayloadValue::Text("critic".to_string()),
        }]
    };
    let mut boxed = event("s1", "box_assigned");
    boxed.box_id = Some("box-2".to_string());
    boxed.payload = critic();
    assert_eq!(store.append_event(&boxed).expect("append"), 4);

    let s1 = store.list_events("s1").expect("list");
    assert_eq!(s1.len(), 3);
    assert_eq!(
        s1.iter().map(|e| e.seq).collect::<Vec<_>>(),
        vec![1, 2, 4],
        "seq is monotonic across swarms and preserved per swarm"
    );
    assert_eq!(s1[1].kind, "swarm_started");
    assert_eq!(s1[2].box_id.as_deref(), Some("box-2"));
    assert_eq!(s1[2].payload, critic());
    assert_eq!(store.list_events("s2").expect("list").len(), 1);
    assert!(store.list_events("nope").expect("list").is_empty());
}

#[test]
fn in_memory_delete_drops_events_and_claim() {
    let mut store = store();
    store
        .save_swarm(&swarm("s1", "2020-01-01T00:00:00Z"))
        .expect("save");
    store
        .append_event(&event("s1", "swarm_created"))
        .expect("append");
    let token = store
        .try_claim_swarm("s1")
        .expect("claim")
        .expect("claim wins");

    assert!(store.delete_swarm("s1").expect("delete"));
    assert!(
        store.list_events("s1").expect("list").is_empty(),
        "event history goes with the swarm"
    );
    let err = store
        .heartbeat_claim(&token)
        .expect_err("the claim went with the swarm");
    assert!(matches!(err, StoreError::ClaimLost { .. }));
}

#[test]
fn in_memory_backend_is_named() {
    assert_eq!(store().backend(), "in-memory");
}

#[test]
fn in_memory_claims_are_scoped_to_owning_boot() {
    let mut store = store();
    for id in ["s1", "s2"] {
        store
            .save_swarm(&swarm(id, "2020-01-01T00:00:00Z"))
            .expect("save");
    }
    let old = store
        .try_claim_swarm_with_boot("s1", "boot-a")
        .expect("claim")
        .expect("wins");
    store
        .try_claim_swarm_with_boot("s2", "boot-b")
        .expect("claim")
        .expect("wins");
    assert_eq!(old.boot_id, "boot-a");
    let foreign = store.claims_not_held_by_boot("boot-b").expect("foreign");
    assert_eq!(foreign.len(), 1);
    assert_eq!(foreign[0].swarm_id, "s1");
}

#[test]
fn a_heartbeat_moves_the_lease_on() {
    let mut store = store();
    store
        .save_swarm(&swarm("s1", "2020-01-01T00:00:00Z"))
        .expect("save");
    let token = store
        .try_claim_swarm("s1")
        .expect("claim")
        .expect("claim wins");
    assert!(token.lease_expires > token.claimed_at);
    store.heartbeat_claim(&token).expect("heartbeat");
    let held = store
        .expired_claims("2999-01-01T00:00:00Z")
        .expect("expired");
    assert_eq!(held[0].holder, token.holder, "renewing keeps the holder");
    assert!(held[0].lease_expires >= token.lease_expires);
}

#[test]
fn claims_differ_by_their_nonce() {
    let at = Timestamp {
        secs: 1_577_836_800,
        nanos: 0,
    };
    let a = mint_claim("s1", "boot", 7, 1, at);
    let b = mint_claim("s1", "boot", 7, 2, at);
    assert!(same_claim(&a, &a));
    assert!(!same_claim(&a, &b));
    assert_eq!(a.claimed_at, "2020-01-01T00:00:00+00:00");
    assert_eq!(a.lease_expires, "2020-01-01T01:00:00+00:00");
}

#[test]
fn timestamps_are_written_in_utc_with_their_fraction() {
    let at = Timestamp {
        secs: 0,
        nanos: 123_000_000,
    };
    assert_eq!(at.to_rfc3339(), "1970-01-01T00:00:00.123+00:00");
    assert_eq!(at.after(60).to_rfc3339(), "1970-01-01T00:01:00.123+00:00");
    let now = Timestamp::now();
    assert!(now.secs > 1_577_836_800, "the clock is past 2020");
    assert!(now.secs <= LAST_SECOND);
}

#[test]
fn budget_presets_expand_to_the_documented_triples() {
    assert_eq!(
        SwarmBudgetPreset::Quick.limits(),
        SwarmBudgetLimits {
            max_turns: 25,
            max_tokens: 250_000,
            max_cost_usd: Usd::dollars(5),
        }
    );
    assert_eq!(
        SwarmBudgetPreset::Standard.limits(),
        SwarmBudgetLimits {
            max_turns: 100,
            max_tokens: 1_000_000,
            max_cost_usd: Usd::dollars(20),
        }
    );
    assert_eq!(
        SwarmBudgetPreset::Marathon.limits(),
        SwarmBudgetLimits {
            max_turns: 400,
            max_tokens: 5_000_000,
            max_cost_usd: Usd::dollars(100),
        }
    );
    let custom = SwarmBudgetLimits {
        max_turns: 7,
        max_tokens: 8,
        max_cost_usd: Usd::dollars(9),
    };
    assert_eq!(SwarmBudget::Custom(custom).limits(), custom);
    assert_eq!(
        SwarmBudget::default().limits(),
        SwarmBudgetPreset::Standard.limits()
    );
}

#[test]
fn budget_preset_wire_names_match_the_serde_tags() {
    for (preset, tag) in SwarmBudgetPreset::ALL
        .into_iter()
        .zip(["quick", "standard", "marathon"])
    {
        assert_eq!(preset.wire_name(), tag);
        assert_eq!(
            SwarmBudgetPreset::from_wire(preset.wire_name()),
            Some(preset)
        );
    }
    assert_eq!(SwarmBudgetPreset::from_wire("marathon-plus"), None);
}

#[test]
fn default_roster_fills_every_layout_slot() {
    let roster = default_roster(DEFAULT_ROSTER_SIZE);
    assert_eq!(roster.len(), 4);
    assert_eq!(
        roster.iter().map(|b| b.slot).collect::<Vec<_>>(),
        vec![0, 1, 2, 3]
    );
    assert_eq!(roster[0].box_id, "box-1");
    assert!(
        roster.iter().all(|b| b.role.is_empty() && b.job.is_empty()),
        "a fresh roster is unassigned until the author fills it"
    );
}

#[test]
fn status_terminality_and_labels() {
    assert!(!SwarmStatus::Created.is_terminal());
    assert!(!SwarmStatus::Running.is_terminal());
    assert!(
        !SwarmStatus::Paused {
            reason: SwarmPauseReason::DaemonRestart
        }
        .is_terminal(),
        "a restart-paused swarm is resumable, not finished"
    );
    assert!(SwarmStatus::Stopped.is_terminal());
    assert!(SwarmStatus::Completed.is_terminal());
    assert_eq!(
        SwarmStatus::Paused {
            reason: SwarmPauseReason::BudgetExhausted
        }
        .as_str(),
        "paused"
    );
}

#[test]
fn pause_reason_survives_a_store_round_trip() {
    let mut s = store();
    let mut paused = swarm("s1", "2020-01-01T00:00:00Z");
    paused.run.status = SwarmStatus::Paused {
        reason: SwarmPauseReason::BudgetExhausted,
    };
    s.save_swarm(&paused).expect("save");
    assert_eq!(
        s.load_swarm("s1")
            .expect("load")
            .expect("present")
            .run
            .status,
        SwarmStatus::Paused {
            reason: SwarmPauseReason::BudgetExhausted
        }
    );
}

#[test]
fn spend_adds_up_on_every_axis_and_stops_at_the_top() {
    let spent = SwarmSpend {
        turns: 3,
        tokens: 100,
        cost_usd: Usd { micros: 250_000 },
    };
    let more = SwarmSpend {
        turns: u32::MAX,
        tokens: 11,
        cost_usd: Usd { micros: 750_000 },
    };
    let total = spent.saturating_add(more);
    assert_eq!(total.turns, u32::MAX);
    assert_eq!(total.tokens, 111);
    assert_eq!(total.cost_usd, Usd::dollars(1));
}

#[test]
fn store_refusals_carry_their_numbers() {
    let stale = StoreError::StaleRevision {
        swarm_id: "s1".to_string(),
        have: 4,
        found: 5,
    };
    let text = stale.message();
    assert!(text.contains("s1"), "{text}");
    assert!(text.contains('4'), "{text}");
    assert!(text.contains('5'), "{text}");
    assert!(StoreError::Io("disk full".to_string())
        .message()
        .contains("disk full"));
}

#[test]
fn amounts_are_written_and_read_back() {
    assert_eq!(Usd::parse("20").micros, 20_000_000);
    assert_eq!(Usd::parse("0.25").micros, 250_000);
    assert_eq!(Usd::parse("1e2").micros, 100_000_000);
    assert_eq!(Usd::parse("plenty"), Usd::zero());
    assert_eq!(Usd::parse("-3"), Usd::zero());
    assert_eq!(Usd::parse("0.0000005").micros, 1, "positive, if barely");
    assert_eq!(Usd::parse("5e-9").micros, 1);
    assert_eq!(Usd::parse("0.000"), Usd::zero());
    assert_eq!(Usd::dollars(20).dollars_text(), "20");
    assert_eq!(Usd { micros: 250_000 }.dollars_text(), "0.25");
    assert_eq!(Usd { micros: 1_234_500 }.cents_text(), "1.23");
    assert_eq!(Usd::dollars(5).cents_text(), "5.00");
}

#[test]
fn a_claim_names_its_process_and_its_grant() {
    let mut store = InMemorySwarmStore::for_process(4711);
    let first = store.try_claim_swarm("s1").expect("answer").expect("free");
    assert_eq!(first.holder, "pid-4711-0");
    assert!(store.try_claim_swarm("s1").expect("answer").is_none());
    store.release_claim(&first).expect("release");
    let second = store
        .try_claim_swarm_with_boot("s1", "boot-2")
        .expect("answer")
        .expect("free");
    assert_eq!(second.holder, "pid-4711-1");
    assert_eq!(second.boot_id, "boot-2");
    assert!(!same_claim(&first, &second));
}

#[test]
fn a_clock_reading_is_held_within_its_range() {
    let ordinary = Timestamp::from_reading(1_577_836_800, 5);
    assert_eq!(
        ordinary,
        Timestamp {
            secs: 1_577_836_800,
            nanos: 5
        }
    );
    assert_eq!(Timestamp::from_reading(-1, 0).secs, 0);
    assert_eq!(Timestamp::from_reading(i64::MAX, 0).secs, LAST_SECOND);
    assert_eq!(
        Timestamp::from_reading(0, 1_500_000_000).nanos,
        999_999_999,
        "a leap second stays within its second"
    );
}

#[test]
fn a_lease_runs_for_an_hour() {
    let at = Timestamp::from_reading(1_767_225_600, 0);
    assert_eq!(renewed_lease(at), "2026-01-01T01:00:00+00:00");
    let claim = mint_claim("s1", "boot", 7, 0, at);
    assert_eq!(claim.lease_expires, renewed_lease(at));
}
