use pgcluster::node_monitor::failure_state::FailureTracker;
use pgcluster::node_monitor::health_check::{check_node, unreachable_result, AgentStatus};
use pgcluster::node_monitor::health_check::HealthCheckResult;
use pgcluster::node_monitor::{audit_slots, needs_repoint, on_failover_ended, on_marked_offline};
use pgcluster::node_monitor::{on_result, on_tick, MonitorSettings, NodeDecision, Tick};
use pgcluster::ops::OpSlot;
use pgcluster::raft::commands::TopologyCommand;
use pgcluster::raft::topology::{ClusterTopology, NodeConfig, NodeRole};
use pgcluster::table::NameTable;

// ── Failure tracking ─────────────────────────────────────────────────────────

#[test]
fn records_and_counts_failures() {
    let mut t = FailureTracker::default();
    assert_eq!(t.failure_count("pg1"), 0);

    t.record_failure("pg1");
    assert_eq!(t.failure_count("pg1"), 1);

    t.record_failure("pg1");
    t.record_failure("pg1");
    assert_eq!(t.failure_count("pg1"), 3);

    // Other nodes unaffected
    assert_eq!(t.failure_count("pg2"), 0);
}

#[test]
fn success_clears_count() {
    let mut t = FailureTracker::default();
    t.record_failure("pg1");
    t.record_failure("pg1");
    assert_eq!(t.failure_count("pg1"), 2);

    t.record_success("pg1");
    assert_eq!(t.failure_count("pg1"), 0);
}

#[test]
fn is_failed_threshold() {
    let mut t = FailureTracker::default();
    assert!(!t.is_failed("pg1", 3));

    t.record_failure("pg1");
    t.record_failure("pg1");
    assert!(!t.is_failed("pg1", 3));

    t.record_failure("pg1");
    assert!(t.is_failed("pg1", 3));

    t.record_failure("pg1");
    assert!(t.is_failed("pg1", 3)); // still failed above threshold
}

#[test]
fn failure_increments_counter() {
    let mut t = FailureTracker::default();
    assert_eq!(t.failure_count("pg1"), 0);
    t.record_failure("pg1");
    assert_eq!(t.failure_count("pg1"), 1);
    t.record_failure("pg1");
    assert_eq!(t.failure_count("pg1"), 2);
}

#[test]
fn success_resets_counter() {
    let mut t = FailureTracker::default();
    t.record_failure("pg1");
    t.record_failure("pg1");
    t.record_success("pg1");
    assert_eq!(t.failure_count("pg1"), 0);
}

#[test]
fn threshold_triggers_failover_callback() {
    let mut t = FailureTracker::default();
    // The failover callback is triggered when is_failed() returns true.
    // Here we verify the tracker correctly signals "failed" at threshold.
    for _ in 0..3 {
        t.record_failure("pg1");
    }
    assert!(t.is_failed("pg1", 3), "should signal failover at threshold");
}

#[test]
fn threshold_triggers_mark_offline_for_replica() {
    let mut t = FailureTracker::default();
    // Replicas are marked offline after reaching the same threshold.
    let threshold = 3u32;
    for _ in 0..threshold {
        t.record_failure("pg-replica");
    }
    assert!(
        t.is_failed("pg-replica", threshold),
        "replica should be marked offline at threshold"
    );
}

// ── Repointing ───────────────────────────────────────────────────────────────

#[test]
fn stale_conninfo_triggers_repoint() {
    // Replica still points at old-primary after a failover.
    let result = HealthCheckResult {
        node_id: "pg2".into(),
        reachable: true,
        in_recovery: true,
        flush_lsn: 0,
        replay_lsn: 0,
        timeline: 1,
        pg_running: true,
        replication_conninfo: "host=pg-primary port=5432 user=replicator".into(),
    };
    let primary_host = "pg-replica-1"; // new primary after failover
    assert!(
        needs_repoint(primary_host, &result.replication_conninfo),
        "stale conninfo should trigger repoint"
    );
}

#[test]
fn current_conninfo_skips_repoint() {
    // Replica already points at the current primary — no repoint needed.
    let result = HealthCheckResult {
        node_id: "pg3".into(),
        reachable: true,
        in_recovery: true,
        flush_lsn: 0,
        replay_lsn: 0,
        timeline: 2,
        pg_running: true,
        replication_conninfo: "host=pg-replica-1 port=5432 user=replicator".into(),
    };
    let primary_host = "pg-replica-1";
    assert!(
        !needs_repoint(primary_host, &result.replication_conninfo),
        "correct conninfo should skip repoint"
    );
}

#[test]
fn empty_conninfo_triggers_repoint() {
    // WAL receiver not yet started (e.g. postgres just restarted) — treat as stale.
    let result = HealthCheckResult {
        node_id: "pg2".into(),
        reachable: true,
        in_recovery: true,
        flush_lsn: 0,
        replay_lsn: 0,
        timeline: 0,
        pg_running: true,
        replication_conninfo: String::new(),
    };
    let primary_host = "pg-replica-1";
    assert!(
        needs_repoint(primary_host, &result.replication_conninfo),
        "empty conninfo should trigger repoint"
    );
}

#[test]
fn empty_primary_host_skips_repoint() {
    // No primary in topology yet — don't repoint to an unknown host.
    let result = HealthCheckResult {
        node_id: "pg2".into(),
        reachable: true,
        in_recovery: true,
        flush_lsn: 0,
        replay_lsn: 0,
        timeline: 1,
        pg_running: true,
        replication_conninfo: "host=pg-primary port=5432 user=replicator".into(),
    };
    let primary_host = ""; // no primary elected yet
    assert!(
        !needs_repoint(primary_host, &result.replication_conninfo),
        "unknown primary should skip repoint"
    );
}

// ── Decisions ────────────────────────────────────────────────────────────────

fn cluster() -> ClusterTopology {
    let mut t = ClusterTopology {
        primary_node_id: "pg1".into(),
        ..Default::default()
    };
    for id in ["pg1", "pg2"] {
        t.node_configs.insert(
            id.into(),
            NodeConfig {
                node_id: id.into(),
                agent_addr: format!("{id}:7001"),
                postgres_addr: format!("{id}:5432"),
                priority: 100,
                tags: NameTable::new(),
            },
        );
    }
    t.node_roles.insert("pg1".into(), NodeRole::Primary);
    t.node_roles.insert("pg2".into(), NodeRole::Replica);
    t
}

fn settings() -> MonitorSettings {
    MonitorSettings {
        repl_user: "repl".into(),
        repl_password: "pw".into(),
        slot_prefix: "slot_".into(),
        threshold: 2,
    }
}

#[test]
fn a_failed_primary_starts_one_failover() {
    let t = cluster();
    let s = settings();
    let mut tracker = FailureTracker::default();
    let mut slot = OpSlot::new();
    let down = unreachable_result("pg1");
    assert!(matches!(
        on_result(&t, &s, &mut tracker, &mut slot, &down),
        NodeDecision::Failing
    ));
    match on_result(&t, &s, &mut tracker, &mut slot, &down) {
        NodeDecision::StartFailover { mark_offline } => assert!(matches!(
            mark_offline,
            TopologyCommand::MarkOffline { node_id } if node_id == "pg1"
        )),
        other => panic!("expected a failover, got {other:?}"),
    }
    assert!(slot.is_busy());
    assert!(matches!(
        on_result(&t, &s, &mut tracker, &mut slot, &down),
        NodeDecision::FailoverBlocked
    ));
    assert!(on_marked_offline(true, &mut slot));
    assert!(slot.is_busy());
    on_failover_ended("pg1", &mut tracker, &mut slot);
    assert!(!slot.is_busy());
    assert_eq!(tracker.failure_count("pg1"), 0);
    assert!(slot.try_acquire());
    assert!(!on_marked_offline(false, &mut slot));
    assert!(!slot.is_busy());
}

#[test]
fn a_failed_replica_goes_offline() {
    let t = cluster();
    let s = settings();
    let mut tracker = FailureTracker::default();
    let mut slot = OpSlot::new();
    let down = unreachable_result("pg2");
    on_result(&t, &s, &mut tracker, &mut slot, &down);
    match on_result(&t, &s, &mut tracker, &mut slot, &down) {
        NodeDecision::ReplicaFailed { mark_offline } => assert!(matches!(
            mark_offline,
            Some(TopologyCommand::MarkOffline { node_id }) if node_id == "pg2"
        )),
        other => panic!("expected the replica to go offline, got {other:?}"),
    }
    assert!(!slot.is_busy());
}

#[test]
fn maintenance_and_unknown_nodes_are_left_alone() {
    let mut t = cluster();
    t.node_roles.insert("pg2".into(), NodeRole::Maintenance);
    let s = settings();
    let mut tracker = FailureTracker::default();
    let mut slot = OpSlot::new();
    for _ in 0..5 {
        assert!(matches!(
            on_result(&t, &s, &mut tracker, &mut slot, &unreachable_result("pg2")),
            NodeDecision::InMaintenance
        ));
    }
    assert!(matches!(
        on_result(&t, &s, &mut tracker, &mut slot, &unreachable_result("pg9")),
        NodeDecision::Unknown
    ));
}

#[test]
fn a_healthy_node_updates_its_position() {
    let t = cluster();
    let s = settings();
    let mut tracker = FailureTracker::default();
    let mut slot = OpSlot::new();
    tracker.record_failure("pg2");
    let result = check_node(
        "pg2",
        Some(AgentStatus {
            is_in_recovery: true,
            sent_lsn: 0,
            received_lsn: 40,
            replayed_lsn: 30,
            timeline: 1,
            postgres_running: true,
            replication_conninfo: "host=pg1 port=5432".into(),
        }),
    );
    assert!(result.reachable);
    assert_eq!((result.flush_lsn, result.replay_lsn), (40, 30));
    match on_result(&t, &s, &mut tracker, &mut slot, &result) {
        NodeDecision::Healthy {
            repoint, update, ..
        } => {
            assert!(repoint.is_none());
            assert!(matches!(
                update,
                TopologyCommand::UpdateFlushLsn { node_id, flush_lsn: 40, replay_lsn: 30 }
                    if node_id == "pg2"
            ));
        }
        other => panic!("expected a healthy node, got {other:?}"),
    }
    assert_eq!(tracker.failure_count("pg2"), 0);

    let stale = HealthCheckResult {
        replication_conninfo: "host=old port=5432".into(),
        ..result
    };
    let mut back = cluster();
    back.node_roles.insert("pg2".into(), NodeRole::Offline);
    match on_result(&back, &s, &mut tracker, &mut slot, &stale) {
        NodeDecision::Healthy {
            mark_replica,
            repoint,
            ..
        } => {
            assert!(matches!(
                mark_replica,
                Some(TopologyCommand::MarkReplica { node_id, flush_lsn: 40 }) if node_id == "pg2"
            ));
            let r = repoint.unwrap();
            assert_eq!(r.agent_addr, "pg2:7001");
            assert_eq!(r.slot_name, "slot_pg2");
            assert!(r.conninfo.contains("host=pg1"));
        }
        other => panic!("expected a healthy node, got {other:?}"),
    }
}

#[test]
fn only_the_leader_polls() {
    assert_eq!(on_tick(Some(1), 1), Tick::Leader);
    assert_eq!(on_tick(Some(2), 1), Tick::Follower);
    assert_eq!(on_tick(None, 1), Tick::NoLeader);
}

#[test]
fn slots_are_audited_once_in_a_while() {
    let t = cluster();
    let audit = audit_slots(&t, 120, "repl", "pw", "slot_").unwrap();
    assert_eq!(audit.pattern, "slot_%");
    assert_eq!(audit.max_lag_bytes, 1_073_741_824);
    assert!(audit.primary_url.contains("pg1:5432"));
    assert!(audit_slots(&t, 121, "repl", "pw", "slot_").is_none());
    assert!(audit_slots(&ClusterTopology::default(), 120, "repl", "pw", "slot_").is_none());
}
