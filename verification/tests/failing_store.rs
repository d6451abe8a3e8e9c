use zeroclaw_swarm::board::SwarmStateBoard;
use zeroclaw_swarm::engine::supervisor::{Pausing, Preparation};
use zeroclaw_swarm::engine::{DriverExit, SwarmEngine, SwarmEngineError};
use zeroclaw_swarm::reap::ReapAnswers;
use zeroclaw_swarm::roster::{BoxAnswer, Envelope};
use zeroclaw_swarm::store::{
    default_roster, InMemorySwarmStore, PersistedSwarm, StoreError, StoreView, SwarmClaimToken,
    SwarmEventRecord, SwarmSpec, SwarmStore,
};

const NOW: &str = "2026-01-01T00:00:00Z";

/// A store that keeps documents and claims in memory, and fails to write on request.
struct FlakyStore {
    inner: InMemorySwarmStore,
    saves_left: usize,
    keeps_claims: bool,
}

fn down() -> StoreError {
    StoreError::Backend("disk full".to_string())
}

impl SwarmStore for FlakyStore {
    fn view(&self) -> StoreView {
        unreachable!("a store has its view in contracts only")
    }

    fn dependable(&self) -> bool {
        false
    }

    fn save_swarm(&mut self, swarm: &PersistedSwarm) -> Result<(), StoreError> {
        if self.saves_left == 0 {
            return Err(down());
        }
        self.saves_left -= 1;
        self.inner.save_swarm(swarm)
    }

    fn load_swarm(&self, swarm_id: &str) -> Result<Option<PersistedSwarm>, StoreError> {
        self.inner.load_swarm(swarm_id)
    }

    fn list_swarms(&self) -> Result<Vec<PersistedSwarm>, StoreError> {
        self.inner.list_swarms()
    }

    fn delete_swarm(&mut self, swarm_id: &str) -> Result<bool, StoreError> {
        self.inner.delete_swarm(swarm_id)
    }

    fn try_claim_swarm_with_boot(
        &mut self,
        swarm_id: &str,
        boot_id: &str,
    ) -> Result<Option<SwarmClaimToken>, StoreError> {
        self.inner.try_claim_swarm_with_boot(swarm_id, boot_id)
    }

    fn try_claim_swarm(&mut self, swarm_id: &str) -> Result<Option<SwarmClaimToken>, StoreError> {
        self.inner.try_claim_swarm(swarm_id)
    }

    fn heartbeat_claim(&mut self, token: &SwarmClaimToken) -> Result<(), StoreError> {
        self.inner.heartbeat_claim(token)
    }

    fn release_claim(&mut self, token: &SwarmClaimToken) -> Result<(), StoreError> {
        if self.keeps_claims {
            return Err(down());
        }
        self.inner.release_claim(token)
    }

    fn expired_claims(&self, now_iso: &str) -> Result<Vec<SwarmClaimToken>, StoreError> {
        self.inner.expired_claims(now_iso)
    }

    fn claims_not_held_by_boot(&self, boot_id: &str) -> Result<Vec<SwarmClaimToken>, StoreError> {
        self.inner.claims_not_held_by_boot(boot_id)
    }

    fn append_event(&mut self, _ev: &SwarmEventRecord) -> Result<u64, StoreError> {
        Err(down())
    }

    fn list_events(&self, swarm_id: &str) -> Result<Vec<SwarmEventRecord>, StoreError> {
        self.inner.list_events(swarm_id)
    }

    fn health_check(&self) -> bool {
        false
    }

    fn backend(&self) -> &'static str {
        "flaky"
    }
}

fn engine(saves_left: usize, keeps_claims: bool) -> SwarmEngine<FlakyStore, ()> {
    let mut inner = InMemorySwarmStore::new();
    let mut spec = SwarmSpec::new("s1", "S1", "p", "m", "default", "supervisor", "goal");
    spec.boxes = default_roster(2);
    inner
        .save_swarm(&PersistedSwarm::new(spec))
        .expect("created");
    let store = FlakyStore {
        inner,
        saves_left,
        keeps_claims,
    };
    SwarmEngine::new(store, SwarmStateBoard::new(), "default", "boot")
}

fn prep() -> Preparation<()> {
    Preparation {
        agents: vec!["default".to_string()],
        parent: Ok(()),
        answers: (0..2)
            .map(|i| BoxAnswer {
                envelope: Envelope::Built(()),
                identity: Ok(format!("agent-{i}")),
            })
            .collect(),
        honors_allowlist: true,
    }
}

fn clean() -> ReapAnswers {
    ReapAnswers {
        namespace: Ok(0),
        rows: vec![Ok(0), Ok(0)],
        identities: vec![Ok(true), Ok(true)],
    }
}

#[test]
fn a_run_that_cannot_be_saved_does_not_go_live() {
    let mut engine = engine(0, false);
    let err = engine.start("s1", prep(), NOW).expect_err("not saved");
    assert_eq!(err, SwarmEngineError::Store(down()));
    assert!(engine.live("s1").is_none());
    assert!(engine.board().snapshot("s1").is_some(), "the board stays");
    engine.claim_run("s1").expect("the claim was given back");
}

#[test]
fn a_claim_that_cannot_be_given_back_is_kept() {
    let mut engine = engine(0, true);
    let mut blind = prep();
    blind.honors_allowlist = false;
    let err = engine.start("s1", blind, NOW).expect_err("refused");
    assert!(matches!(err, SwarmEngineError::Roster(_)), "{err:?}");
    assert!(engine.live("s1").is_none());
    assert!(engine.board().is_empty());
    assert_eq!(
        engine.claim_run("s1").expect_err("still claimed"),
        SwarmEngineError::AlreadyClaimed("s1".to_string())
    );
}

#[test]
fn a_run_is_driven_though_its_start_cannot_be_logged() {
    let mut engine = engine(1, false);
    engine.start("s1", prep(), NOW).expect("saved once");
    assert!(engine.live("s1").expect("live").is_driven());
}

#[test]
fn a_pause_takes_hold_though_it_cannot_be_saved() {
    let mut engine = engine(1, true);
    engine.begin_run("s1", prep(), NOW).expect("saved once");
    assert_eq!(engine.pause("s1", NOW), Ok(Pausing::Parked));
    assert!(engine.live("s1").is_none());
    assert!(engine.board().snapshot("s1").is_some());
}

#[test]
fn a_stopped_run_is_gone_though_it_cannot_be_saved() {
    let mut engine = engine(1, true);
    engine.begin_run("s1", prep(), NOW).expect("saved once");
    let report = engine.stop("s1", &clean(), NOW).expect("stopped");
    assert!(report.is_clean());
    assert!(engine.live("s1").is_none());
    assert!(engine.board().snapshot("s1").is_none());
}

#[test]
fn a_completed_run_is_reaped_though_it_cannot_be_saved() {
    let mut engine = engine(1, true);
    engine.start("s1", prep(), NOW).expect("saved once");
    let report = engine
        .finish_drive("s1", DriverExit::Completed, &clean(), NOW)
        .expect("reaped");
    assert_eq!(report.identities_removed, 2);
    assert!(engine.live("s1").is_none());
    assert!(engine.board().snapshot("s1").is_none());
}
