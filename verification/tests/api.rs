use pgcluster::api::auth::{bearer_token, constant_time_eq, is_known_key, require_auth};
use pgcluster::api::backup::{delete_backup, list_backups, plan_backup, trigger_backup};
use pgcluster::api::backup::{ListQuery, TriggerBackupRequest};
use pgcluster::api::config::get_config;
use pgcluster::api::failover::{failover_history, offline_command, on_offline, trigger_failover};
use pgcluster::api::failover::{FailoverRequest, ManualStep};
use pgcluster::api::forward::leader_url;
use pgcluster::api::maintenance::{enter_maintenance, exit_maintenance, on_entered, on_left};
use pgcluster::api::maintenance::Decision;
use pgcluster::api::nodes::{add_node, get_node, list_nodes, remove_node, AddNodeRequest};
use pgcluster::api::on_written;
use pgcluster::api::pg_hba::{reload_pg_hba, ReloadAttempt};
use pgcluster::api::replication::list_slots;
use pgcluster::api::status::{cluster_status, health, unix_to_rfc3339};
use pgcluster::api::switchover::{trigger_switchover, SwitchoverRequest};
use pgcluster::config::{ApiConfig, BackupConfig, ClusterConfig, ClusterMode, FailoverConfig};
use pgcluster::config::{MetricsConfig, NodesConfig, PgClusterConfig, ProxyConfig, RaftConfig};
use pgcluster::config::{RaftPeer, ReplicationConfig, S3Config, TlsConfig};
use pgcluster::ops::OpSlot;
use pgcluster::raft::commands::TopologyCommand;
use pgcluster::raft::state_machine::TopologyStateMachine;
use pgcluster::raft::topology::{BackupManifest, BackupStatus, ClusterTopology, FailoverEvent};
use pgcluster::raft::topology::{NodeConfig, NodeRole};
use pgcluster::table::NameTable;
use std::sync::{Arc, Mutex};

fn node(id: &str, agent_addr: &str, postgres_addr: &str, priority: u32) -> NodeConfig {
    NodeConfig {
        node_id: id.into(),
        agent_addr: agent_addr.into(),
        postgres_addr: postgres_addr.into(),
        priority,
        tags: NameTable::new(),
    }
}

fn topology_with_roles(primary: &str, nodes: &[(&str, NodeRole)]) -> ClusterTopology {
    let mut t = ClusterTopology {
        primary_node_id: primary.into(),
        ..Default::default()
    };
    for (id, role) in nodes {
        t.node_roles.insert(id.to_string(), *role);
        t.node_configs.insert(
            id.to_string(),
            node(id, "127.0.0.1:7001", "127.0.0.1:5432", 100),
        );
    }
    t
}

fn topology_with_primary(primary: &str, replicas: &[&str]) -> ClusterTopology {
    let mut t = ClusterTopology {
        primary_node_id: primary.into(),
        ..Default::default()
    };
    t.node_roles.insert(primary.into(), NodeRole::Primary);
    t.node_configs.insert(
        primary.into(),
        node(primary, "127.0.0.1:7001", "127.0.0.1:5432", 100),
    );
    for r in replicas {
        t.node_roles.insert(r.to_string(), NodeRole::Replica);
        t.node_configs.insert(
            r.to_string(),
            node(r, "127.0.0.1:7002", "127.0.0.1:5433", 90),
        );
    }
    t
}

// ── Authentication ───────────────────────────────────────────────────────────

#[test]
fn bearer_extraction() {
    let header = "Bearer my-secret-token";
    assert_eq!(bearer_token(header).as_deref(), Some("my-secret-token"));
}

#[test]
fn bearer_missing_prefix_returns_none() {
    let header = "Basic abc123";
    assert_eq!(bearer_token(header), None);
}

#[test]
fn bearer_whitespace_trimmed() {
    let header = "Bearer   token-with-space  ";
    assert_eq!(bearer_token(header).as_deref(), Some("token-with-space"));
}

#[test]
fn empty_api_keys_disables_auth() {
    let keys: Vec<String> = vec![];
    assert!(keys.is_empty());
    assert!(require_auth(&keys, false, "POST", None).is_ok());
    assert!(require_auth(&keys, false, "DELETE", Some("Basic x".into())).is_ok());
}

#[test]
fn valid_key_matches() {
    let keys = vec!["secret".to_string(), "other".to_string()];
    let token = "secret";
    assert!(keys.iter().any(|k| constant_time_eq(k, token)));
    assert!(is_known_key(&keys, token));
}

#[test]
fn invalid_key_rejected() {
    let keys = vec!["secret".to_string()];
    let token = "wrong";
    assert!(!keys.iter().any(|k| constant_time_eq(k, token)));
    assert!(!is_known_key(&keys, token));
}

#[test]
fn constant_time_eq_same_length_different_content() {
    // Must reject without short-circuiting.
    assert!(!constant_time_eq("aaaaaa", "aaaaab"));
    assert!(!constant_time_eq("abc", "abd"));
}

#[test]
fn constant_time_eq_different_length_rejected() {
    assert!(!constant_time_eq("short", "longer-string"));
    assert!(!constant_time_eq("", "x"));
}

#[test]
fn constant_time_eq_identical_strings() {
    assert!(constant_time_eq("my-api-token-123", "my-api-token-123"));
    assert!(constant_time_eq("", ""));
}

#[test]
fn a_write_needs_a_key_even_if_reading_is_public() {
    let keys = vec!["secret".to_string()];
    assert!(require_auth(&keys, true, "GET", None).is_ok());
    assert!(require_auth(&keys, true, "HEAD", None).is_ok());
    assert_eq!(require_auth(&keys, true, "POST", None), Err(401));
    assert_eq!(require_auth(&keys, false, "GET", None), Err(401));
    assert!(require_auth(&keys, false, "POST", Some("Bearer secret".into())).is_ok());
    assert_eq!(
        require_auth(&keys, false, "POST", Some("Bearer other".into())),
        Err(401)
    );
    assert_eq!(
        require_auth(&keys, false, "POST", Some("secret".into())),
        Err(401)
    );
}

// ── Failover ─────────────────────────────────────────────────────────────────

#[test]
fn failover_blocked_when_op_in_progress() {
    let mut slot = OpSlot::new();
    assert!(slot.try_acquire());
    assert!(
        !slot.try_acquire(),
        "flag set — failover trigger should be blocked"
    );
    let t = topology_with_primary("pg1", &["pg2"]);
    let req = FailoverRequest {
        failed_node_id: "pg1".into(),
    };
    let (status, body) = trigger_failover(&mut slot, &t, &req);
    assert_eq!(status, 409);
    assert!(!body.triggered);
    assert_eq!(
        body.message,
        "a switchover or failover is already in progress — retry after it completes"
    );
    assert!(slot.is_busy());
}

#[test]
fn failover_allowed_when_op_not_in_progress() {
    let mut slot = OpSlot::new();
    assert!(
        slot.try_acquire(),
        "flag clear — failover trigger should proceed"
    );
    slot.release();
    assert!(!slot.is_busy());
    let t = topology_with_primary("pg1", &["pg2"]);
    let req = FailoverRequest {
        failed_node_id: "pg1".into(),
    };
    let (status, body) = trigger_failover(&mut slot, &t, &req);
    assert_eq!(status, 202);
    assert!(body.triggered);
    assert_eq!(body.message, "failover initiated for pg1");
    assert!(slot.is_busy());
    assert!(matches!(
        offline_command(&req),
        TopologyCommand::MarkOffline { node_id } if node_id == "pg1"
    ));
}

#[test]
fn op_guard_releases_on_drop() {
    let slot = Arc::new(Mutex::new(OpSlot::new()));
    assert!(slot.lock().unwrap().try_acquire());
    {
        let _guard = OpGuard(slot.clone());
        // The slot is still taken while the guard lives.
        assert!(slot.lock().unwrap().is_busy());
        assert!(!slot.lock().unwrap().try_acquire());
    }
    assert!(!slot.lock().unwrap().is_busy(), "OpGuard must release flag on drop");
}

/// Gives the slot back when dropped.
struct OpGuard(Arc<Mutex<OpSlot>>);

impl Drop for OpGuard {
    fn drop(&mut self) {
        self.0.lock().unwrap().release();
    }
}

#[test]
fn failover_of_an_unknown_node_gives_the_slot_back() {
    let mut slot = OpSlot::new();
    let t = topology_with_primary("pg1", &[]);
    let req = FailoverRequest {
        failed_node_id: "pg9".into(),
    };
    let (status, body) = trigger_failover(&mut slot, &t, &req);
    assert_eq!(status, 404);
    assert!(!body.triggered);
    assert_eq!(body.message, "node pg9 not found");
    assert!(!slot.is_busy());
}

#[test]
fn unix_to_rfc3339_epoch() {
    let s = unix_to_rfc3339(0);
    assert_eq!(s, "1970-01-01T00:00:00Z");
}

#[test]
fn unix_to_rfc3339_known_date() {
    // 2024-01-15 12:00:00 UTC = 1705320000
    let s = unix_to_rfc3339(1_705_320_000);
    assert_eq!(s, "2024-01-15T12:00:00Z");
}

#[test]
fn unix_to_rfc3339_around_leap_days() {
    assert_eq!(unix_to_rfc3339(951_782_400), "2000-02-29T00:00:00Z");
    assert_eq!(unix_to_rfc3339(951_868_799), "2000-02-29T23:59:59Z");
    assert_eq!(unix_to_rfc3339(951_868_800), "2000-03-01T00:00:00Z");
    assert_eq!(unix_to_rfc3339(4_107_542_400), "2100-03-01T00:00:00Z");
    assert_eq!(unix_to_rfc3339(4_107_542_399), "2100-02-28T23:59:59Z");
    assert_eq!(unix_to_rfc3339(1_709_164_800), "2024-02-29T00:00:00Z");
    assert_eq!(unix_to_rfc3339(-1), "1970-01-01T00:00:00Z");
    assert_eq!(unix_to_rfc3339(i64::MIN), "1970-01-01T00:00:00Z");
}

#[test]
fn failover_history_is_shown_in_order() {
    let mut t = ClusterTopology::default();
    for i in 0..2i64 {
        t.record_failover(FailoverEvent {
            old_primary: format!("pg{i}"),
            new_primary: "pg9".into(),
            triggered_at: 1_705_320_000 + i,
            duration_ms: 7,
            reason: "health_check_failure".into(),
        });
    }
    let history = failover_history(&t);
    assert_eq!(history.len(), 2);
    assert_eq!(history[0].old_primary, "pg0");
    assert_eq!(history[0].triggered_at, "2024-01-15T12:00:00Z");
    assert_eq!(history[1].old_primary, "pg1");
    assert_eq!(history[1].triggered_at, "2024-01-15T12:00:01Z");
    assert_eq!(history[1].duration_ms, 7);
    assert_eq!(history[1].reason, "health_check_failure");
}

// ── Maintenance ──────────────────────────────────────────────────────────────

#[test]
fn primary_cannot_enter_maintenance() {
    let t = topology_with_roles(
        "pg1",
        &[("pg1", NodeRole::Primary), ("pg2", NodeRole::Replica)],
    );
    assert_eq!(t.primary_node_id, "pg1");
    match enter_maintenance(&t, "pg1") {
        Decision::Answer(status, body) => {
            assert_eq!(status, 400);
            assert!(!body.success);
            assert_eq!(
                body.message,
                "cannot put the current primary into maintenance — switchover first"
            );
        }
        Decision::Write(_) => panic!("primary should be rejected"),
    }
}

#[test]
fn maintenance_node_excluded_from_candidates() {
    let mut t = topology_with_roles(
        "pg1",
        &[
            ("pg1", NodeRole::Primary),
            ("pg2", NodeRole::Replica),
            ("pg3", NodeRole::Maintenance),
        ],
    );
    t.last_flush_lsns.insert("pg2".into(), 100);
    t.last_flush_lsns.insert("pg3".into(), 999); // higher LSN but in maintenance

    // Only Replica nodes are candidates — pg3 in Maintenance is excluded
    let candidate = t.best_failover_candidate("pg1");
    assert_eq!(
        candidate.as_deref(),
        Some("pg2"),
        "maintenance node should not be a failover candidate"
    );
}

#[test]
fn exit_maintenance_requires_maintenance_role() {
    let t = topology_with_roles(
        "pg1",
        &[("pg1", NodeRole::Primary), ("pg2", NodeRole::Replica)],
    );
    assert_ne!(
        t.node_roles.get("pg2"),
        Some(&NodeRole::Maintenance),
        "pg2 is not in maintenance mode"
    );
    match exit_maintenance(&t, "pg2") {
        Decision::Answer(status, body) => {
            assert_eq!(status, 400);
            assert!(!body.success);
            assert_eq!(body.message, "node pg2 is not in maintenance mode");
        }
        Decision::Write(_) => panic!("pg2 is not in maintenance mode"),
    }
}

#[test]
fn maintenance_is_entered_and_left() {
    let mut t = topology_with_roles(
        "pg1",
        &[("pg1", NodeRole::Primary), ("pg2", NodeRole::Replica)],
    );
    match enter_maintenance(&t, "pg2") {
        Decision::Write(c) => TopologyStateMachine::apply_command(&mut t, &c),
        Decision::Answer(..) => panic!("pg2 can enter maintenance mode"),
    }
    assert_eq!(t.node_roles.get("pg2"), Some(&NodeRole::Maintenance));
    assert_eq!(t.best_failover_candidate("pg1"), None);
    match exit_maintenance(&t, "pg2") {
        Decision::Write(c) => TopologyStateMachine::apply_command(&mut t, &c),
        Decision::Answer(..) => panic!("pg2 is in maintenance mode"),
    }
    assert_eq!(t.node_roles.get("pg2"), Some(&NodeRole::Replica));
    assert_eq!(t.best_failover_candidate("pg1").as_deref(), Some("pg2"));
}

#[test]
fn maintenance_of_an_unknown_node_is_not_found() {
    let t = topology_with_roles("pg1", &[("pg1", NodeRole::Primary)]);
    for decision in [enter_maintenance(&t, "pg9"), exit_maintenance(&t, "pg9")] {
        match decision {
            Decision::Answer(status, body) => {
                assert_eq!(status, 404);
                assert_eq!(body.message, "node pg9 not found");
            }
            Decision::Write(_) => panic!("pg9 is unknown"),
        }
    }
}

#[test]
fn maintenance_answers_after_the_write() {
    let (status, body) = on_entered("pg2", None);
    assert_eq!(
        (status, body.message.as_str()),
        (200, "node pg2 is now in maintenance mode")
    );
    let (status, body) = on_entered("pg2", Some("no quorum".into()));
    assert_eq!(
        (status, body.message.as_str()),
        (500, "failed to set maintenance mode: no quorum")
    );
    assert!(!body.success);
    let (status, body) = on_left("pg2", None);
    assert_eq!(
        (status, body.message.as_str()),
        (200, "node pg2 returned to replica role")
    );
    assert!(body.success);
    let (status, body) = on_left("pg2", Some("no quorum".into()));
    assert_eq!(
        (status, body.message.as_str()),
        (500, "failed to exit maintenance mode: no quorum")
    );
}

// ── Switchover ───────────────────────────────────────────────────────────────

fn ask_for(topology: &ClusterTopology, target: &str) -> (u16, bool, String, bool) {
    let mut slot = OpSlot::new();
    let req = SwitchoverRequest::new(target.into(), None, None);
    let (status, body) = trigger_switchover(&mut slot, topology, &req);
    (status, body.success, body.message, slot.is_busy())
}

#[test]
fn switchover_rejects_unknown_node() {
    let topology = topology_with_primary("pg1", &["pg2"]);
    let target = "pg99";
    assert!(
        !topology.node_configs.contains_key(target),
        "pg99 should not exist in topology"
    );
    assert_eq!(
        ask_for(&topology, target),
        (404, false, "node pg99 not found".to_string(), false)
    );
}

#[test]
fn switchover_rejects_current_primary_as_target() {
    let topology = topology_with_primary("pg1", &["pg2"]);
    let target = "pg1";
    assert_eq!(
        topology.primary_node_id, target,
        "pg1 is the primary — switchover to self should be rejected"
    );
    assert_eq!(
        ask_for(&topology, target),
        (400, false, "target is already the primary".to_string(), false)
    );
}

#[test]
fn switchover_request_default_lag_and_timeout() {
    let json = r#"{"target_node_id":"pg2"}"#;
    let value: serde_json::Value = serde_json::from_str(json).unwrap();
    let req = SwitchoverRequest::new(
        value["target_node_id"].as_str().unwrap().to_string(),
        value["max_lag_bytes"].as_u64(),
        value["timeout_secs"].as_u64(),
    );
    assert_eq!(req.target_node_id, "pg2");
    assert_eq!(req.max_lag_bytes, 1_048_576);
    assert_eq!(req.timeout_secs, 30);
}

#[test]
fn switchover_rejects_offline_target() {
    let mut topology = topology_with_primary("pg1", &["pg2"]);
    topology.node_roles.insert("pg2".into(), NodeRole::Offline);
    let role = topology.node_roles.get("pg2");
    assert!(
        !matches!(role, Some(&NodeRole::Replica)),
        "pg2 is Offline — switchover should be rejected"
    );
    assert_eq!(
        ask_for(&topology, "pg2"),
        (
            400,
            false,
            "target pg2 is in role Offline — only Replica nodes can be promoted".to_string(),
            false
        )
    );
}

#[test]
fn switchover_accepts_replica_target() {
    let topology = topology_with_primary("pg1", &["pg2"]);
    let role = topology.node_roles.get("pg2");
    assert!(
        matches!(role, Some(&NodeRole::Replica)),
        "pg2 is Replica — switchover should be accepted"
    );
    assert_eq!(
        ask_for(&topology, "pg2"),
        (202, true, "switchover to pg2 initiated".to_string(), true)
    );
}

#[test]
fn op_in_progress_flag_compare_exchange() {
    let mut slot = OpSlot::new();
    // First acquire succeeds.
    assert!(slot.try_acquire(), "first acquire should succeed");
    // Second acquire is rejected (flag already true).
    assert!(!slot.try_acquire(), "concurrent attempt should be rejected");
    // After clearing, a new request is accepted.
    slot.release();
    assert!(slot.try_acquire(), "acquire after clear should succeed");
}

#[test]
fn switchover_without_a_role_or_while_busy_is_refused() {
    let mut topology = topology_with_primary("pg1", &["pg2"]);
    let mut slot = OpSlot::new();
    assert!(slot.try_acquire());
    let req = SwitchoverRequest::new("pg2".into(), Some(5), Some(7));
    assert_eq!((req.max_lag_bytes, req.timeout_secs), (5, 7));
    let (status, body) = trigger_switchover(&mut slot, &topology, &req);
    assert_eq!(status, 409);
    assert_eq!(body.message, "a switchover or failover is already in progress");
    assert!(slot.is_busy());
    topology.node_roles.remove("pg2");
    assert_eq!(
        ask_for(&topology, "pg2"),
        (
            400,
            false,
            "target pg2 has no role in topology — not ready for switchover".to_string(),
            false
        )
    );
}

// ── Nodes, slots and configuration ───────────────────────────────────────────

#[test]
fn nodes_are_described() {
    let mut t = topology_with_primary("pg1", &["pg2"]);
    t.node_configs
        .insert("pg3".into(), node("pg3", "a:1", "p:2", 7));
    t.last_flush_lsns.insert("pg2".into(), 11);
    t.last_replay_lsns.insert("pg2".into(), 10);
    t.replica_lag_bytes.insert("pg2".into(), 9);
    let nodes = list_nodes(&t).nodes;
    assert_eq!(nodes.len(), 3);
    let pg2 = nodes.iter().find(|n| n.node_id == "pg2").unwrap();
    assert_eq!(pg2.role, "replica");
    assert_eq!((pg2.flush_lsn, pg2.replay_lsn, pg2.lag_bytes), (11, 10, 9));
    assert_eq!(pg2.priority, 90);
    let pg3 = nodes.iter().find(|n| n.node_id == "pg3").unwrap();
    assert_eq!(pg3.role, "unknown");
    assert_eq!((pg3.flush_lsn, pg3.replay_lsn, pg3.lag_bytes), (0, 0, 0));
    assert_eq!(get_node(&t, "pg3").unwrap().role, "");
    assert_eq!(get_node(&t, "pg1").unwrap().role, "primary");
    assert_eq!(get_node(&t, "pg1").unwrap().postgres_addr, "127.0.0.1:5432");
    assert_eq!(get_node(&t, "pg9").unwrap_err(), 404);
}

#[test]
fn nodes_are_added_and_removed() {
    let mut t = ClusterTopology::default();
    let add = add_node(AddNodeRequest {
        node_id: "pg4".into(),
        agent_addr: "a:1".into(),
        postgres_addr: "p:2".into(),
        priority: None,
    });
    TopologyStateMachine::apply_command(&mut t, &add);
    let info = get_node(&t, "pg4").unwrap();
    assert_eq!(info.priority, 100);
    assert_eq!(info.agent_addr, "a:1");
    TopologyStateMachine::apply_command(&mut t, &remove_node("pg4".into()));
    assert!(get_node(&t, "pg4").is_err());
    assert!(matches!(on_written(201, None), Ok(201)));
    let e = on_written(204, Some("no leader".into())).unwrap_err();
    assert_eq!((e.status, e.message.as_str()), (500, "no leader"));
}

#[test]
fn slots_are_listed() {
    let mut t = ClusterTopology::default();
    t.replica_slots.insert("pg2".into(), "pgcluster_pg2".into());
    t.replica_slots.insert("pg3".into(), "pgcluster_pg3".into());
    let slots = list_slots(&t);
    assert_eq!(slots.len(), 2);
    assert!(slots
        .iter()
        .any(|s| s.node_id == "pg3" && s.slot_name == "pgcluster_pg3"));
}

fn server_config() -> PgClusterConfig {
    PgClusterConfig {
        cluster: ClusterConfig {
            name: "prod".into(),
            data_dir: "/tmp".into(),
            mode: ClusterMode::Cluster,
        },
        raft: RaftConfig {
            node_id: 2,
            peers: vec![
                RaftPeer {
                    id: 1,
                    addr: "a:7000".into(),
                },
                RaftPeer {
                    id: 2,
                    addr: "b:7000".into(),
                },
            ],
            heartbeat_interval_ms: 150,
            election_timeout_ms: 500,
            bootstrap: false,
        },
        nodes: NodesConfig::default(),
        replication: ReplicationConfig {
            replication_user: "replicator".into(),
            replication_password_env: "PG_REPLICATION_PASSWORD".into(),
            slot_prefix: "pgcluster_".into(),
            synchronous_standby_names: "".into(),
        },
        proxy: ProxyConfig {
            listen_addr: "0.0.0.0:5432".into(),
            admin_listen_addr: "0.0.0.0:5433".into(),
            health_listen_addr: "0.0.0.0:8008".into(),
            pool: Default::default(),
            read_routing: Default::default(),
        },
        failover: FailoverConfig::default(),
        tls: TlsConfig::default(),
        metrics: MetricsConfig::default(),
        api: ApiConfig::default(),
        backup: None,
    }
}

#[test]
fn configuration_is_shown() {
    let cfg = server_config();
    let shown = get_config(&cfg);
    assert_eq!(shown.cluster_name, "prod");
    assert_eq!(shown.node_id, 2);
    assert_eq!(shown.peers.len(), 2);
    assert_eq!((shown.peers[1].id, shown.peers[1].addr.as_str()), (2, "b:7000"));
    assert_eq!(shown.proxy_addr, "0.0.0.0:5432");
    assert_eq!(shown.api_addr, cfg.api.listen_addr);
    assert_eq!(shown.metrics_addr, cfg.metrics.listen_addr);
}

#[test]
fn the_leader_is_called_by_its_address() {
    assert_eq!(leader_url("10.0.0.1:8080", "/api/x"), "http://10.0.0.1:8080/api/x");
}

// ── Status ───────────────────────────────────────────────────────────────────

#[test]
fn health_depends_on_the_primary() {
    let t = topology_with_primary("pg1", &["pg2"]);
    let (status, body) = health(&t, Some(1), 1);
    assert_eq!(status, 200);
    assert_eq!(body.status, "ok");
    assert_eq!(body.primary.as_deref(), Some("pg1"));
    assert!(body.raft_leader);
    let (status, body) = health(&ClusterTopology::default(), None, 1);
    assert_eq!(status, 503);
    assert_eq!(body.status, "no_primary");
    assert_eq!(body.primary, None);
    assert!(!body.raft_leader);
    assert!(!health(&t, Some(2), 1).1.raft_leader);
}

#[test]
fn status_counts_nodes_and_failovers() {
    let mut t = topology_with_primary("pg1", &["pg2", "pg3"]);
    t.version = 7;
    t.record_failover(FailoverEvent {
        old_primary: "pg0".into(),
        new_primary: "pg1".into(),
        triggered_at: 0,
        duration_ms: 0,
        reason: "r".into(),
    });
    let s = cluster_status("prod", &t, Some(2));
    assert_eq!(s.cluster_name, "prod");
    assert_eq!(s.primary_node_id, "pg1");
    assert_eq!(s.topology_version, 7);
    assert_eq!(s.raft_leader_id, Some(2));
    assert_eq!(s.node_count, 3);
    assert_eq!(s.failover_history_count, 1);
}

// ── Reload ───────────────────────────────────────────────────────────────────

#[test]
fn reload_sums_up_all_attempts() {
    let ok = || ReloadAttempt::Answered {
        success: true,
        error: String::new(),
    };
    let (status, r) = reload_pg_hba(&vec![("pg1".into(), ok()), ("pg2".into(), ok())]);
    assert_eq!(status, 200);
    assert_eq!(r.reloaded, vec!["pg1".to_string(), "pg2".to_string()]);
    assert!(r.failed.is_empty());

    let (status, r) = reload_pg_hba(&vec![
        ("pg1".into(), ok()),
        ("pg2".into(), ReloadAttempt::ConnectFailed("refused".into())),
        ("pg3".into(), ReloadAttempt::RpcFailed("deadline".into())),
        (
            "pg4".into(),
            ReloadAttempt::Answered {
                success: false,
                error: "bad line".into(),
            },
        ),
    ]);
    assert_eq!(status, 207);
    assert_eq!(r.reloaded, vec!["pg1".to_string()]);
    let failed: Vec<(&str, &str)> = r
        .failed
        .iter()
        .map(|f| (f.node_id.as_str(), f.error.as_str()))
        .collect();
    assert_eq!(
        failed,
        vec![
            ("pg2", "connect failed: refused"),
            ("pg3", "RPC failed: deadline"),
            ("pg4", "bad line")
        ]
    );

    let (status, _) = reload_pg_hba(&vec![(
        "pg2".into(),
        ReloadAttempt::ConnectFailed("refused".into()),
    )]);
    assert_eq!(status, 500);
    assert_eq!(reload_pg_hba(&vec![]).0, 200);
}

// ── Backups ──────────────────────────────────────────────────────────────────

fn manifest(id: &str, frequency: &str, completed_at: i64) -> BackupManifest {
    BackupManifest {
        backup_id: id.into(),
        label: "l".into(),
        frequency: frequency.into(),
        source_node: "pg2".into(),
        started_at: completed_at - 1,
        completed_at,
        size_bytes: 1,
        s3_uri: "s3://b/k".into(),
        status: BackupStatus::Completed,
    }
}

fn backup_config(enabled: bool) -> BackupConfig {
    BackupConfig {
        enabled,
        s3: S3Config {
            bucket: "b".into(),
            prefix: "p".into(),
            region: None,
            endpoint: None,
            path_style: false,
        },
        prefer_replica: true,
        schedule: vec![],
    }
}

#[test]
fn backups_are_listed_newest_first() {
    let mut t = ClusterTopology::default();
    t.backups = vec![
        manifest("a", "daily", 10),
        manifest("b", "weekly", 30),
        manifest("c", "daily", 20),
    ];
    let ids = |q: ListQuery| -> Vec<String> {
        list_backups(&t, &q)
            .backups
            .iter()
            .map(|b| b.backup_id.clone())
            .collect()
    };
    assert_eq!(ids(ListQuery { frequency: None }), ["b", "c", "a"]);
    assert_eq!(
        ids(ListQuery {
            frequency: Some("daily".into())
        }),
        ["c", "a"]
    );
    assert!(ids(ListQuery {
        frequency: Some("monthly".into())
    })
    .is_empty());
}

#[test]
fn a_manual_backup_is_planned() {
    let t = topology_with_primary("pg1", &["pg2"]);
    let req = TriggerBackupRequest {
        label: None,
        frequency: None,
    };
    let id = "0123456789abcdef".to_string();
    let b = plan_backup(&Some(backup_config(true)), &t, &req, id.clone()).unwrap();
    assert_eq!(b.source_node, "pg2");
    assert_eq!(b.source_addr, "127.0.0.1:5433");
    assert_eq!(b.label, "manual-01234567");
    assert_eq!(b.frequency, "manual");
    assert_eq!(b.response.backup_id, id);
    assert_eq!(
        b.response.message,
        "backup started: frequency=manual, label=manual-01234567, source=pg2"
    );

    let named = TriggerBackupRequest {
        label: Some("before-upgrade".into()),
        frequency: Some("weekly".into()),
    };
    let b = trigger_backup(&Some(backup_config(true)), &t, &named).unwrap();
    assert_eq!(b.response.backup_id.len(), 36);
    assert_eq!(b.label, "before-upgrade");
    assert_eq!(b.frequency, "weekly");
}

#[test]
fn a_backup_that_cannot_be_taken_is_refused() {
    let t = topology_with_primary("pg1", &["pg2"]);
    let req = TriggerBackupRequest {
        label: None,
        frequency: None,
    };
    let e = trigger_backup(&None, &t, &req).unwrap_err();
    assert_eq!((e.status, e.message.as_str()), (404, "backup not configured"));
    let e = trigger_backup(&Some(backup_config(false)), &t, &req).unwrap_err();
    assert_eq!((e.status, e.message.as_str()), (503, "backup is disabled"));
    let none = ClusterTopology::default();
    let e = trigger_backup(&Some(backup_config(true)), &none, &req).unwrap_err();
    assert_eq!(
        (e.status, e.message.as_str()),
        (503, "no suitable backup source node available")
    );
}

#[test]
fn a_backup_is_deleted_by_its_id() {
    let mut t = ClusterTopology::default();
    t.backups = vec![manifest("a", "daily", 10), manifest("b", "daily", 9)];
    let (m, c) = delete_backup(true, &t, "b").unwrap();
    assert_eq!(m.completed_at, 9);
    TopologyStateMachine::apply_command(&mut t, &c);
    assert_eq!(t.backups.len(), 1);
    assert_eq!(t.backups[0].backup_id, "a");
    let e = delete_backup(true, &t, "b").unwrap_err();
    assert_eq!((e.status, e.message.as_str()), (404, "backup b not found"));
    let e = delete_backup(false, &t, "a").unwrap_err();
    assert_eq!((e.status, e.message.as_str()), (404, "backup not configured"));
}

#[test]
fn timestamps_sort_as_the_moments_do() {
    let moments: [i64; 9] = [
        0, 1, 59, 60, 86_399, 86_400, 951_782_399, 951_782_400, 253_402_300_799,
    ];
    for pair in moments.windows(2) {
        let (a, b) = (unix_to_rfc3339(pair[0]), unix_to_rfc3339(pair[1]));
        assert!(a < b, "{a} {b}");
        assert_eq!(a.len(), 20);
        assert_eq!(b.len(), 20);
    }
    assert_eq!(unix_to_rfc3339(253_402_300_799), "9999-12-31T23:59:59Z");
    assert_eq!(unix_to_rfc3339(253_402_300_800), "10000-01-01T00:00:00Z");
    assert!(unix_to_rfc3339(253_402_300_800) < unix_to_rfc3339(253_402_300_799));
    assert_eq!(unix_to_rfc3339(-5), "1970-01-01T00:00:00Z");
}

#[test]
fn a_manual_failover_needs_the_offline_mark() {
    assert_eq!(on_offline(true), ManualStep::FailOver);
    assert_eq!(on_offline(false), ManualStep::GiveUp);
}
