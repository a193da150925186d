use pgcluster::config::validate::{validate, ConfigError};
use pgcluster::config::{ApiConfig, BackupConfig, BackupFrequency, BackupScheduleEntry};
use pgcluster::config::{ClusterConfig, ClusterMode, FailoverConfig, MetricsConfig, NodeConfig};
use pgcluster::config::{NodesConfig, PgClusterConfig, ProxyConfig, RaftConfig, RaftPeer};
use pgcluster::config::{ReplicationConfig, S3Config, TlsConfig};
use pgcluster::raft::timing::raft_timing;
use pgcluster::server::{bootstrap_members, is_leader, peer_addr, raft_listen_addr, seed_commands};
use pgcluster::server::seeds_topology;
use pgcluster::raft::commands::TopologyCommand;
use pgcluster::raft::state_machine::TopologyStateMachine;
use pgcluster::raft::topology::{ClusterTopology, NodeRole};
use pgcluster::table::NameTable;

fn minimal() -> PgClusterConfig {
    PgClusterConfig {
        cluster: ClusterConfig {
            name: "test".into(),
            data_dir: "/tmp".into(),
            mode: ClusterMode::Cluster,
        },
        raft: RaftConfig {
            node_id: 1,
            peers: vec![
                RaftPeer {
                    id: 1,
                    addr: "127.0.0.1:7000".into(),
                },
                RaftPeer {
                    id: 2,
                    addr: "127.0.0.1:7001".into(),
                },
                RaftPeer {
                    id: 3,
                    addr: "127.0.0.1:7002".into(),
                },
            ],
            heartbeat_interval_ms: 150,
            election_timeout_ms: 500,
            bootstrap: true,
        },
        nodes: NodesConfig {
            node: vec![NodeConfig {
                id: "pg1".into(),
                agent_addr: "127.0.0.1:7010".into(),
                postgres_addr: "127.0.0.1:5432".into(),
                priority: 100,
                tags: NameTable::new(),
            }],
        },
        replication: ReplicationConfig {
            replication_user: "replicator".into(),
            replication_password_env: "PG_REPLICATION_PASSWORD".into(),
            slot_prefix: "pgcluster_".into(),
            synchronous_standby_names: "".into(),
        },
        proxy: ProxyConfig {
            listen_addr: "0.0.0.0:5432".into(),
            admin_listen_addr: "0.0.0.0:5433".into(),
            health_listen_addr: "0.0.0.0:8008".into(),
            pool: Default::default(),
            read_routing: Default::default(),
        },
        failover: FailoverConfig::default(),
        tls: TlsConfig::default(),
        metrics: MetricsConfig::default(),
        api: ApiConfig::default(),
        backup: None,
    }
}

#[test]
fn valid_config_passes() {
    assert!(validate(&minimal()).is_ok());
}

/// Three nodes, with every optional section left to its default.
fn three_nodes() -> PgClusterConfig {
    let mut cfg = minimal();
    cfg.cluster.data_dir = "/tmp/pgcluster".into();
    let nodes = [
        ("pg1", "127.0.0.1:7010", "127.0.0.1:5432", 100),
        ("pg2", "127.0.0.1:7011", "127.0.0.1:5433", 90),
        ("pg3", "127.0.0.1:7012", "127.0.0.1:5434", 80),
    ];
    cfg.nodes.node = nodes
        .iter()
        .map(|n| NodeConfig {
            id: n.0.into(),
            agent_addr: n.1.into(),
            postgres_addr: n.2.into(),
            priority: n.3,
            tags: NameTable::new(),
        })
        .collect();
    cfg.failover.health_check_interval_ms = 500;
    cfg.failover.health_check_failures_before_failover = 3;
    cfg.failover.agent_heartbeat_timeout_seconds = 10;
    cfg.api.listen_addr = "0.0.0.0:8009".into();
    cfg.api.api_keys = vec!["test-key".into()];
    cfg
}

#[test]
fn defaults_applied_for_optional_sections() {
    let cfg = three_nodes();
    assert_eq!(cfg.proxy.pool.max_connections_per_db_user, 25);
    assert!(cfg.proxy.read_routing.enabled);
    assert_eq!(cfg.metrics.listen_addr, "0.0.0.0:9190");
    assert!(cfg.tls.auto_generate);
}

#[test]
fn rejects_duplicate_node_ids() {
    let mut cfg = three_nodes();
    assert!(validate(&cfg).is_ok());
    cfg.nodes.node[2].id = "pg1".into();
    assert!(validate(&cfg).is_err());
}

#[test]
fn docker_hostnames_pass_validation() {
    let mut cfg = minimal();
    cfg.nodes.node[0].postgres_addr = "postgres:5432".into();
    cfg.nodes.node[0].agent_addr = "vk-agent:7001".into();
    cfg.raft.peers[0].addr = "pgcluster-1:7000".into();
    cfg.raft.peers[1].addr = "pgcluster-2:7000".into();
    cfg.raft.peers[2].addr = "pgcluster-3:7000".into();
    assert!(
        validate(&cfg).is_ok(),
        "Docker hostnames should be valid connect addresses"
    );
}

#[test]
fn empty_cluster_name_fails() {
    let mut cfg = minimal();
    cfg.cluster.name = "".into();
    assert!(validate(&cfg).is_err());
}

#[test]
fn node_id_not_in_peers_fails() {
    let mut cfg = minimal();
    cfg.raft.node_id = 99;
    assert!(validate(&cfg).is_err());
}

#[test]
fn duplicate_node_ids_fail() {
    let mut cfg = minimal();
    cfg.nodes.node.push(NodeConfig {
        id: "pg1".into(),
        agent_addr: "127.0.0.1:7011".into(),
        postgres_addr: "127.0.0.1:5433".into(),
        priority: 90,
        tags: NameTable::new(),
    });
    assert!(validate(&cfg).is_err());
}

#[test]
fn invalid_proxy_addr_fails() {
    let mut cfg = minimal();
    cfg.proxy.listen_addr = "not-an-addr".into();
    assert!(validate(&cfg).is_err());
}

#[test]
fn node_addr_missing_port_fails() {
    let mut cfg = minimal();
    cfg.nodes.node[0].postgres_addr = "postgres".into();
    assert!(validate(&cfg).is_err());
}

#[test]
fn node_addr_invalid_port_fails() {
    let mut cfg = minimal();
    cfg.nodes.node[0].postgres_addr = "postgres:notaport".into();
    assert!(validate(&cfg).is_err());
}

#[test]
fn election_timeout_too_small_fails() {
    let mut cfg = minimal();
    cfg.raft.heartbeat_interval_ms = 150;
    cfg.raft.election_timeout_ms = 200; // < 2×150 = 300
    let err = validate(&cfg).unwrap_err();
    assert!(
        err.message().contains("election_timeout_ms"),
        "error should mention election_timeout_ms: {}",
        err.message()
    );
}

#[test]
fn election_timeout_exactly_2x_passes() {
    let mut cfg = minimal();
    cfg.raft.heartbeat_interval_ms = 150;
    cfg.raft.election_timeout_ms = 300; // exactly 2×150
    assert!(validate(&cfg).is_ok(), "2× ratio should pass validation");
}

#[test]
fn election_timeout_well_above_2x_passes() {
    let mut cfg = minimal();
    cfg.raft.heartbeat_interval_ms = 150;
    cfg.raft.election_timeout_ms = 750; // 5× — well above minimum
    assert!(validate(&cfg).is_ok());
}

#[test]
fn every_fault_is_named() {
    let fault = |change: fn(&mut PgClusterConfig)| -> ConfigError {
        let mut cfg = minimal();
        change(&mut cfg);
        validate(&cfg).unwrap_err()
    };
    assert!(matches!(
        fault(|c| c.cluster.name = String::new()),
        ConfigError::EmptyClusterName
    ));
    assert!(matches!(
        fault(|c| c.cluster.data_dir = String::new()),
        ConfigError::EmptyDataDir
    ));
    assert!(matches!(
        fault(|c| c.raft.peers.clear()),
        ConfigError::NoPeers
    ));
    assert!(matches!(
        fault(|c| c.raft.node_id = 99),
        ConfigError::NodeIdNotInPeers(99)
    ));
    assert!(matches!(
        fault(|c| c.raft.peers[1].id = 1),
        ConfigError::DuplicatePeerIds
    ));
    assert!(matches!(
        fault(|c| c.raft.peers[2].addr = "nowhere".into()),
        ConfigError::PeerAddr { id: 3, .. }
    ));
    assert!(matches!(
        fault(|c| c.raft.election_timeout_ms = 299),
        ConfigError::ElectionTimeout { min_election_ms: 300, .. }
    ));
    assert!(matches!(
        fault(|c| c.nodes.node[0].id = String::new()),
        ConfigError::EmptyNodeId
    ));
    assert!(matches!(
        fault(|c| c.api.listen_addr = "host:80".into()),
        ConfigError::BindAddr { .. }
    ));
    assert!(matches!(
        fault(|c| c.nodes.node[0].agent_addr = ":1".into()),
        ConfigError::AgentAddr { .. }
    ));
    assert!(matches!(
        fault(|c| c.nodes.node[0].postgres_addr = "a:70000".into()),
        ConfigError::PostgresAddr { .. }
    ));
}

#[test]
fn backup_settings_are_checked() {
    let mut cfg = minimal();
    let backup = BackupConfig {
        enabled: true,
        s3: S3Config {
            bucket: "b".into(),
            prefix: "p".into(),
            region: None,
            endpoint: None,
            path_style: false,
        },
        prefer_replica: true,
        schedule: vec![BackupScheduleEntry {
            frequency: BackupFrequency::Daily,
            retain: 7,
        }],
    };
    cfg.backup = Some(backup.clone());
    assert!(validate(&cfg).is_ok());
    let mut no_bucket = backup.clone();
    no_bucket.s3.bucket = String::new();
    cfg.backup = Some(no_bucket);
    assert!(validate(&cfg).is_err());
    let mut no_retain = backup;
    no_retain.schedule[0].retain = 0;
    cfg.backup = Some(no_retain);
    assert!(validate(&cfg).is_err());
}

#[test]
fn addresses_are_found_by_node() {
    let cfg = minimal();
    assert_eq!(cfg.postgres_addr("pg1").as_deref(), Some("127.0.0.1:5432"));
    assert_eq!(cfg.agent_addr("pg1").as_deref(), Some("127.0.0.1:7010"));
    assert_eq!(cfg.agent_addr("pg2"), None);
}

#[test]
fn a_valid_configuration_has_raft_timing() {
    let cfg = minimal();
    let timing = raft_timing(&cfg.raft).unwrap();
    assert_eq!(timing.heartbeat_interval, 150);
    assert_eq!(timing.election_timeout_min, 500);
    assert_eq!(timing.election_timeout_max, 1000);
    let mut slow = cfg.raft.clone();
    slow.election_timeout_ms = 100;
    assert!(raft_timing(&slow).is_err());
}

// ── Starting the server ──────────────────────────────────────────────────────

fn config_node(id: &str, priority: u32) -> NodeConfig {
    NodeConfig {
        id: id.into(),
        agent_addr: format!("{id}:7001"),
        postgres_addr: format!("{id}:5432"),
        priority,
        tags: NameTable::new(),
    }
}

#[test]
fn seeding_chooses_the_highest_priority() {
    let nodes = vec![
        config_node("pg1", 90),
        config_node("pg2", 100),
        config_node("pg3", 100),
        config_node("pg4", 10),
    ];
    let commands = seed_commands(&nodes);
    assert_eq!(commands.len(), 5);
    assert!(matches!(
        commands.last(),
        Some(TopologyCommand::SetPrimary { node_id, at_lsn: 0, new_timeline: 1 }) if node_id == "pg3"
    ));
    let mut t = ClusterTopology::default();
    for c in &commands {
        TopologyStateMachine::apply_command(&mut t, c);
    }
    assert_eq!(t.primary_node_id, "pg3");
    assert_eq!(t.node_roles.get("pg3"), Some(&NodeRole::Primary));
    assert_eq!(t.node_configs.len(), 4);
    assert_eq!(t.node_configs.get("pg4").unwrap().agent_addr, "pg4:7001");
    assert!(seed_commands(&vec![]).is_empty());
}

#[test]
fn only_a_bootstrapping_node_seeds() {
    let mut cfg = minimal();
    assert!(seeds_topology(&cfg));
    cfg.nodes.node.clear();
    assert!(!seeds_topology(&cfg));
    let mut cfg = minimal();
    cfg.raft.bootstrap = false;
    assert!(!seeds_topology(&cfg));
    assert!(is_leader(Some(3), 3));
    assert!(!is_leader(Some(2), 3));
    assert!(!is_leader(None, 3));
}

#[test]
fn members_come_from_the_peers() {
    let cfg = minimal();
    let members = bootstrap_members(&cfg.raft.peers);
    assert_eq!(members.len(), 3);
    assert_eq!(members.get(&2).map(String::as_str), Some("127.0.0.1:7001"));
    let twice = vec![
        RaftPeer { id: 1, addr: "a:1".into() },
        RaftPeer { id: 1, addr: "b:2".into() },
    ];
    let members = bootstrap_members(&twice);
    assert_eq!(members.len(), 1);
    assert_eq!(members.get(&1).map(String::as_str), Some("b:2"));
}

#[test]
fn the_node_listens_at_its_peer_port() {
    let mut cfg = minimal();
    cfg.raft.peers[1].addr = "pgcluster-2:7005".into();
    assert_eq!(peer_addr(&cfg.raft.peers, 2), "pgcluster-2:7005");
    assert_eq!(raft_listen_addr(&cfg.raft.peers, 2), "0.0.0.0:7005");
    assert_eq!(raft_listen_addr(&cfg.raft.peers, 9), "0.0.0.0:7000");
}
