use pgcluster::failover::candidate::pick_candidate;
use pgcluster::failover::events::build_failover_event;
use pgcluster::failover::promote::{exhausted_message, promote_node, verify_promotion};
use pgcluster::failover::promote::{StatusReport, VerifyStep};
use pgcluster::failover::repoint::{repoint_outcome, DemoteReport};
use pgcluster::failover::slots::{lag_limit, slot_name, slot_pattern, slots_for_replicas};
use pgcluster::failover::{host_of, plan_failover, postgres_url, primary_conninfo, record_command};
use pgcluster::failover::{Failover, FailoverAbort, FailoverAction, FailoverInput, FailoverPhase};
use pgcluster::raft::commands::TopologyCommand;
use pgcluster::raft::topology::{ClusterTopology, NodeConfig, NodeRole};
use pgcluster::table::NameTable;

fn make_config(id: &str) -> NodeConfig {
    NodeConfig {
        node_id: id.into(),
        agent_addr: format!("127.0.0.1:700{}", id.chars().last().unwrap_or('0')),
        postgres_addr: format!("127.0.0.1:543{}", id.chars().last().unwrap_or('0')),
        priority: 100,
        tags: NameTable::new(),
    }
}

fn config_with_priority(id: &str, priority: u32) -> NodeConfig {
    NodeConfig {
        node_id: id.into(),
        agent_addr: "x".into(),
        postgres_addr: "y".into(),
        priority,
        tags: NameTable::new(),
    }
}

// ── Candidates ───────────────────────────────────────────────────────────────

#[test]
fn returns_none_when_no_replicas() {
    let mut t = ClusterTopology::default();
    t.node_roles.insert("pg1".into(), NodeRole::Primary);
    t.node_configs.insert("pg1".into(), make_config("pg1"));
    assert_eq!(pick_candidate(&t, "pg1"), None);
}

#[test]
fn returns_highest_lsn_replica() {
    let mut t = ClusterTopology::default();
    t.node_roles.insert("pg1".into(), NodeRole::Primary);
    t.node_roles.insert("pg2".into(), NodeRole::Replica);
    t.node_roles.insert("pg3".into(), NodeRole::Replica);
    t.last_flush_lsns.insert("pg2".into(), 100);
    t.last_flush_lsns.insert("pg3".into(), 200);
    for id in ["pg1", "pg2", "pg3"] {
        t.node_configs.insert(id.into(), make_config(id));
    }
    assert_eq!(pick_candidate(&t, "pg1").as_deref(), Some("pg3"));
}

#[test]
fn excludes_failed_node_from_candidates() {
    let mut t = ClusterTopology::default();
    t.node_roles.insert("pg1".into(), NodeRole::Primary);
    t.node_roles.insert("pg2".into(), NodeRole::Replica);
    t.last_flush_lsns.insert("pg2".into(), 500);
    for id in ["pg1", "pg2"] {
        t.node_configs.insert(id.into(), make_config(id));
    }
    let candidate = pick_candidate(&t, "pg1");
    assert_eq!(candidate.as_deref(), Some("pg2"));
}

#[test]
fn highest_lsn_wins() {
    let mut t = ClusterTopology::default();
    for id in ["pg1", "pg2", "pg3"] {
        t.node_configs.insert(id.into(), make_config(id));
    }
    t.node_roles.insert("pg1".into(), NodeRole::Primary);
    t.node_roles.insert("pg2".into(), NodeRole::Replica);
    t.node_roles.insert("pg3".into(), NodeRole::Replica);
    t.last_flush_lsns.insert("pg2".into(), 50);
    t.last_flush_lsns.insert("pg3".into(), 500);
    assert_eq!(pick_candidate(&t, "pg1").as_deref(), Some("pg3"));
}

#[test]
fn tied_lsn_priority_wins() {
    let mut t = ClusterTopology::default();
    t.node_roles.insert("pg1".into(), NodeRole::Primary);
    t.node_roles.insert("pg2".into(), NodeRole::Replica);
    t.node_roles.insert("pg3".into(), NodeRole::Replica);
    t.last_flush_lsns.insert("pg2".into(), 100);
    t.last_flush_lsns.insert("pg3".into(), 100); // tied
    t.node_configs
        .insert("pg1".into(), config_with_priority("pg1", 100));
    t.node_configs
        .insert("pg2".into(), config_with_priority("pg2", 80));
    // higher priority wins tie
    t.node_configs
        .insert("pg3".into(), config_with_priority("pg3", 120));
    assert_eq!(pick_candidate(&t, "pg1").as_deref(), Some("pg3"));
}

#[test]
fn unhealthy_replica_excluded() {
    let mut t = ClusterTopology::default();
    for id in ["pg1", "pg2", "pg3"] {
        t.node_configs.insert(id.into(), make_config(id));
    }
    t.node_roles.insert("pg1".into(), NodeRole::Primary);
    t.node_roles.insert("pg2".into(), NodeRole::Offline); // unhealthy
    t.node_roles.insert("pg3".into(), NodeRole::Replica);
    t.last_flush_lsns.insert("pg3".into(), 100);
    // pg2 is offline so only pg3 is eligible
    assert_eq!(pick_candidate(&t, "pg1").as_deref(), Some("pg3"));
}

#[test]
fn single_replica_is_selected() {
    let mut t = ClusterTopology::default();
    t.node_configs.insert("pg1".into(), make_config("pg1"));
    t.node_configs.insert("pg2".into(), make_config("pg2"));
    t.node_roles.insert("pg1".into(), NodeRole::Primary);
    t.node_roles.insert("pg2".into(), NodeRole::Replica);
    t.last_flush_lsns.insert("pg2".into(), 1);
    assert_eq!(pick_candidate(&t, "pg1").as_deref(), Some("pg2"));
}

#[test]
fn no_candidates_returns_empty() {
    let mut t = ClusterTopology::default();
    t.node_configs.insert("pg1".into(), make_config("pg1"));
    t.node_roles.insert("pg1".into(), NodeRole::Primary);
    assert_eq!(pick_candidate(&t, "pg1"), None);
}

// ── Promotion ────────────────────────────────────────────────────────────────

#[test]
fn verify_promotion_parameters() {
    let _ = std::time::Duration::from_millis(500);
    let max = 3u32;
    assert!(max > 0);
    assert_eq!(pgcluster::failover::VERIFY_ATTEMPTS, max);
    assert_eq!(pgcluster::failover::VERIFY_INTERVAL_MS, 500);
}

#[test]
fn promotion_is_verified_or_retried() {
    let promoted = StatusReport::Status {
        is_in_recovery: false,
        postgres_running: true,
    };
    let recovering = StatusReport::Status {
        is_in_recovery: true,
        postgres_running: true,
    };
    assert_eq!(verify_promotion(1, 3, promoted), VerifyStep::Passed);
    assert_eq!(verify_promotion(1, 3, recovering), VerifyStep::Retry);
    assert_eq!(verify_promotion(3, 3, recovering), VerifyStep::Exhausted);
    assert_eq!(verify_promotion(3, 3, promoted), VerifyStep::Passed);
    assert_eq!(verify_promotion(1, 0, promoted), VerifyStep::Exhausted);
    assert_eq!(verify_promotion(1, 0, StatusReport::ConnectFailed), VerifyStep::Exhausted);
    assert_eq!(verify_promotion(4, 3, promoted), VerifyStep::Exhausted);
    assert!(exhausted_message("pg2", 3).contains("pg2"));
    assert!(promote_node("pg2", true, "").is_ok());
    assert!(promote_node("pg2", false, "no").unwrap_err().contains("no"));
}

// ── Slots ────────────────────────────────────────────────────────────────────

#[test]
fn slot_name_format() {
    let prefix = "pgcluster_";
    let node_id = "pg2";
    assert_eq!(slot_name(prefix, node_id), "pgcluster_pg2");
}

#[test]
fn slot_prefix_pattern() {
    let prefix = "pgcluster_";
    let pattern = slot_pattern(prefix);
    assert_eq!(pattern, "pgcluster_%");
}

#[test]
fn custom_slot_prefix_formats_correctly() {
    let prefix = "mycluster_";
    let node_id = "node1";
    let slot = slot_name(prefix, node_id);
    assert_eq!(slot, "mycluster_node1");
}

#[test]
fn every_replica_has_a_slot() {
    let ids = vec!["pg2".to_string(), "pg3".to_string()];
    assert_eq!(slots_for_replicas(&ids, "s_"), ["s_pg2", "s_pg3"]);
    assert_eq!(lag_limit(5), 5);
    assert_eq!(lag_limit(u64::MAX), i64::MAX);
}

// ── The course of a failover ─────────────────────────────────────────────────

fn three_nodes() -> ClusterTopology {
    let mut t = ClusterTopology {
        primary_node_id: "pg1".into(),
        ..Default::default()
    };
    for id in ["pg1", "pg2", "pg3"] {
        t.node_configs.insert(id.into(), make_config(id));
    }
    t.node_roles.insert("pg1".into(), NodeRole::Offline);
    t.node_roles.insert("pg2".into(), NodeRole::Replica);
    t.node_roles.insert("pg3".into(), NodeRole::Replica);
    t.last_flush_lsns.insert("pg2".into(), 70);
    t.last_flush_lsns.insert("pg3".into(), 60);
    t
}

#[test]
fn a_failover_promotes_announces_and_repoints() {
    let plan = plan_failover(&three_nodes(), "pg1", "repl", "pw", "slot_").unwrap();
    assert_eq!(plan.candidate, "pg2");
    assert_eq!(plan.at_lsn, 70);
    let (mut f, first) = Failover::start(plan);
    assert!(matches!(first, FailoverAction::Promote { node_id, .. } if node_id == "pg2"));
    let next = f.step(FailoverInput::Done(true));
    assert!(matches!(next, FailoverAction::CheckStatus { node_id, .. } if node_id == "pg2"));
    let next = f.step(FailoverInput::Status(StatusReport::Status {
        is_in_recovery: false,
        postgres_running: true,
    }));
    assert!(matches!(
        next,
        FailoverAction::Propose(TopologyCommand::SetPrimary { node_id, at_lsn: 70, .. })
            if node_id == "pg2"
    ));
    let next = f.step(FailoverInput::Done(true));
    assert!(matches!(next, FailoverAction::Record { old_primary, new_primary, .. }
        if old_primary == "pg1" && new_primary == "pg2"));
    let next = f.step(FailoverInput::Done(true));
    assert!(matches!(next, FailoverAction::EnsureSlots { .. }));
    let next = f.step(FailoverInput::Done(true));
    match next {
        FailoverAction::Demote {
            node_id, slot_name, ..
        } => {
            assert_eq!(node_id, "pg3");
            assert_eq!(slot_name, "slot_pg3");
        }
        other => panic!("expected a repoint, got {other:?}"),
    }
    assert!(matches!(
        f.step(FailoverInput::Done(true)),
        FailoverAction::Finish
    ));
    assert_eq!(f.current_phase(), FailoverPhase::Finished);
}

#[test]
fn a_failover_stops_where_promotion_fails() {
    let plan = plan_failover(&three_nodes(), "pg1", "repl", "pw", "slot_").unwrap();
    let (mut f, _) = Failover::start(plan);
    assert!(matches!(
        f.step(FailoverInput::Done(false)),
        FailoverAction::Abort
    ));
    assert_eq!(f.current_phase(), FailoverPhase::PromoteFailed);

    let plan = plan_failover(&three_nodes(), "pg1", "repl", "pw", "slot_").unwrap();
    let (mut f, _) = Failover::start(plan);
    f.step(FailoverInput::Done(true));
    let recovering = StatusReport::Status {
        is_in_recovery: true,
        postgres_running: true,
    };
    for _ in 0..2 {
        assert!(matches!(
            f.step(FailoverInput::Status(recovering)),
            FailoverAction::CheckStatus { .. }
        ));
    }
    assert!(matches!(
        f.step(FailoverInput::Status(recovering)),
        FailoverAction::Abort
    ));
    assert_eq!(f.current_phase(), FailoverPhase::VerifyFailed);
}

#[test]
fn a_failover_needs_a_candidate() {
    let t = ClusterTopology::default();
    assert!(matches!(
        plan_failover(&t, "pg1", "u", "p", "s"),
        Err(FailoverAbort::NoCandidate)
    ));
    let mut t = ClusterTopology::default();
    t.node_roles.insert("pg2".into(), NodeRole::Replica);
    assert!(matches!(
        plan_failover(&t, "pg1", "u", "p", "s"),
        Err(FailoverAbort::NoConfig(id)) if id == "pg2"
    ));
}

#[test]
fn connection_texts() {
    assert_eq!(host_of("pg-a:5432"), "pg-a");
    assert_eq!(host_of("pg-a"), "pg-a");
    assert!(primary_conninfo("pg-a", "repl", "pw").contains("host=pg-a"));
    assert!(postgres_url("repl", "pw", "pg-a:5432").contains("pg-a:5432"));
}

#[test]
fn an_event_is_recorded_as_it_was_built() {
    let event = build_failover_event(
        "pg1".into(),
        "pg2".into(),
        std::time::Instant::now(),
        "health_check_failure".into(),
    );
    assert!(event.triggered_at > 1_600_000_000);
    assert!(event.duration_ms < 60_000);
    match record_command(&event) {
        TopologyCommand::RecordFailover {
            old_primary,
            new_primary,
            triggered_at,
            duration_ms,
            reason,
        } => {
            assert_eq!(old_primary, "pg1");
            assert_eq!(new_primary, "pg2");
            assert_eq!(triggered_at, event.triggered_at);
            assert_eq!(duration_ms, event.duration_ms);
            assert_eq!(reason, "health_check_failure");
        }
        other => panic!("unexpected command {other:?}"),
    }
}

#[test]
fn a_repoint_reports_what_went_wrong() {
    let ok = repoint_outcome(DemoteReport::Reply {
        success: true,
        error: String::new(),
    });
    assert_eq!(ok.error, None);
    assert!(!ok.evict);
    let failed = repoint_outcome(DemoteReport::RpcFailed("deadline".into()));
    assert!(failed.error.unwrap().contains("deadline"));
    assert!(failed.evict);
}
