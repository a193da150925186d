use pgcluster::raft::commands::TopologyCommand;
use pgcluster::raft::topology::{ClusterTopology, NodeConfig, NodeRole};
use pgcluster::raft::TopologyWatch;
use pgcluster::switchover::handoff::{plan_switchover, Handoff, HandoffAction, HandoffError};
use pgcluster::switchover::handoff::HandoffInput;
use pgcluster::switchover::lag_wait::{timeout_message, wait_for_replica_sync, SyncStep};
use pgcluster::switchover::lag_wait::POLL_INTERVAL_MS;
use pgcluster::switchover::{planned_switchover, SwitchoverParams, SwitchoverStep};
use pgcluster::table::NameTable;

fn watch_from(t: ClusterTopology) -> TopologyWatch {
    let (_, rx) = TopologyWatch::new(t);
    rx
}

/// Looks again and again, as long as the time allows.
fn wait_until_synced(
    rx: &TopologyWatch,
    target: &str,
    max_lag_bytes: u64,
    timeout_ms: u128,
) -> Result<u64, ()> {
    let mut elapsed_ms = 0;
    loop {
        match wait_for_replica_sync(rx, target, max_lag_bytes, elapsed_ms, timeout_ms) {
            SyncStep::Synced(lag) => return Ok(lag),
            SyncStep::Waiting(_) => elapsed_ms += POLL_INTERVAL_MS,
            SyncStep::TimedOut => return Err(()),
        }
    }
}

fn two_positions(primary: u64, replica: u64) -> ClusterTopology {
    let mut t = ClusterTopology {
        primary_node_id: "pg1".into(),
        ..Default::default()
    };
    t.last_flush_lsns.insert("pg1".into(), primary);
    t.last_flush_lsns.insert("pg2".into(), replica);
    t
}

#[test]
fn synced_replica_returns_immediately() {
    // 1-byte lag — within 10
    let rx = watch_from(two_positions(1000, 999));
    let result = wait_until_synced(&rx, "pg2", 10, 1000);
    assert!(result.is_ok());
    assert_eq!(wait_for_replica_sync(&rx, "pg2", 10, 0, 1000), SyncStep::Synced(1));
}

#[test]
fn times_out_when_replica_behind() {
    // far behind
    let rx = watch_from(two_positions(1000, 0));
    let result = wait_until_synced(&rx, "pg2", 10, 50);
    assert!(result.is_err());
}

#[test]
fn lag_zero_returns_immediately() {
    // zero lag
    let rx = watch_from(two_positions(500, 500));
    let result = wait_until_synced(&rx, "pg2", 0, 1000);
    assert!(result.is_ok());
    assert_eq!(wait_for_replica_sync(&rx, "pg2", 0, 0, 1000), SyncStep::Synced(0));
}

#[test]
fn lag_nonzero_waits_until_caught_up() {
    // 5 bytes lag
    let rx = watch_from(two_positions(100, 95));
    // max_lag_bytes=10 so 5-byte lag is within threshold
    let result = wait_until_synced(&rx, "pg2", 10, 1000);
    assert!(result.is_ok());
}

#[test]
fn lag_wait_times_out() {
    // very far behind
    let rx = watch_from(two_positions(10_000, 0));
    // strict 0-lag threshold → will never satisfy
    let result = wait_until_synced(&rx, "pg2", 0, 30);
    assert!(result.is_err());
}

#[test]
fn a_replica_that_catches_up_ends_the_wait() {
    let (mut tx, rx) = TopologyWatch::new(two_positions(1000, 0));
    assert_eq!(
        wait_for_replica_sync(&rx, "pg2", 0, 0, 1000),
        SyncStep::Waiting(1000)
    );
    tx.publish(two_positions(1000, 1000));
    assert_eq!(
        wait_for_replica_sync(&rx, "pg2", 0, 200, 1000),
        SyncStep::Synced(0)
    );
    assert_eq!(timeout_message("pg2", "30s"), "replica pg2 did not sync within 30s");
}

// ── Handing off ──────────────────────────────────────────────────────────────

fn cluster() -> ClusterTopology {
    let mut t = two_positions(1000, 1000);
    for id in ["pg1", "pg2"] {
        t.node_configs.insert(
            id.into(),
            NodeConfig {
                node_id: id.into(),
                agent_addr: format!("{id}:7001"),
                postgres_addr: format!("{id}:5432"),
                priority: 100,
                tags: NameTable::new(),
            },
        );
    }
    t.node_roles.insert("pg1".into(), NodeRole::Primary);
    t.node_roles.insert("pg2".into(), NodeRole::Replica);
    t
}

fn params() -> SwitchoverParams {
    SwitchoverParams {
        new_primary_id: "pg2".into(),
        max_lag_bytes: 0,
        sync_timeout_secs: 1,
        replication_user: "repl".into(),
        replication_password: "pw".into(),
        drain_timeout_ms: Some(3000),
        slot_prefix: "slot_".into(),
    }
}

#[test]
fn a_switchover_waits_and_hands_off() {
    let mut t = cluster();
    t.last_flush_lsns.insert("pg2".into(), 900);
    assert!(matches!(
        planned_switchover(&t, &params(), 0),
        SwitchoverStep::Wait(100)
    ));
    assert!(matches!(
        planned_switchover(&t, &params(), 1000),
        SwitchoverStep::TimedOut
    ));
    let plan = match planned_switchover(&cluster(), &params(), 0) {
        SwitchoverStep::HandOff(plan) => plan,
        other => panic!("expected a hand-off, got {other:?}"),
    };
    assert_eq!(plan.old_primary, "pg1");
    assert_eq!(plan.new_primary, "pg2");
    assert_eq!(plan.at_lsn, 1000);
    let (mut h, first) = Handoff::start(plan);
    assert!(matches!(first, HandoffAction::Drain { wait_ms: 3000 }));
    match h.step(HandoffInput::Done) {
        HandoffAction::Demote {
            node_id,
            agent_addr,
            conninfo,
            slot_name,
        } => {
            assert_eq!(node_id, "pg1");
            assert_eq!(agent_addr, "pg1:7001");
            assert!(conninfo.contains("host=pg2"));
            assert_eq!(slot_name, "slot_pg1");
        }
        other => panic!("expected the old primary to be demoted, got {other:?}"),
    }
    assert!(matches!(
        h.step(HandoffInput::Done),
        HandoffAction::Promote { node_id, .. } if node_id == "pg2"
    ));
    assert!(matches!(
        h.step(HandoffInput::Done),
        HandoffAction::Propose(TopologyCommand::SetPrimary { node_id, .. }) if node_id == "pg2"
    ));
}

#[test]
fn a_hand_off_that_fails_says_why() {
    let plan = plan_switchover(&cluster(), "pg2", "repl", "pw", None, "slot_").unwrap();
    let (mut h, first) = Handoff::start(plan);
    assert!(matches!(first, HandoffAction::Demote { .. }));
    match h.step(HandoffInput::Error("agent gone".into())) {
        HandoffAction::Fail(reason) => assert!(reason.contains("agent gone")),
        other => panic!("expected a failure, got {other:?}"),
    }
}

#[test]
fn a_hand_off_needs_both_nodes() {
    let mut t = cluster();
    t.node_configs.remove("pg2");
    match plan_switchover(&t, "pg2", "repl", "pw", None, "slot_") {
        Err(e) => {
            assert!(matches!(&e, HandoffError::NewPrimaryMissing(id) if id == "pg2"));
            assert_eq!(e.message(), "new primary 'pg2' not found in topology");
        }
        Ok(_) => panic!("pg2 is missing"),
    }
    let mut t = cluster();
    t.node_configs.remove("pg1");
    match plan_switchover(&t, "pg2", "repl", "pw", None, "slot_") {
        Err(e) => assert_eq!(e.message(), "old primary 'pg1' not found in topology"),
        Ok(_) => panic!("pg1 is missing"),
    }
}

#[test]
fn a_failed_hand_off_keeps_its_reason() {
    let plan = plan_switchover(&cluster(), "pg2", "repl", "pw", None, "slot_").unwrap();
    let (mut h, _) = Handoff::start(plan);
    let first = match h.step(HandoffInput::Error("agent gone".into())) {
        HandoffAction::Fail(reason) => reason,
        other => panic!("expected a failure, got {other:?}"),
    };
    for input in [HandoffInput::Done, HandoffInput::Refused("later".into())] {
        match h.step(input) {
            HandoffAction::Fail(reason) => assert_eq!(reason, first),
            other => panic!("expected the failure, got {other:?}"),
        }
    }
}
