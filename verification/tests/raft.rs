use pgcluster::raft::commands::TopologyCommand;
use pgcluster::raft::network::{leader_reply, PgClusterNetworkFactory};
use pgcluster::raft::state_machine::TopologyStateMachine;
use pgcluster::raft::storage::{idx_key, key_index, key_range, purged_keys, to_key_bound};
use pgcluster::raft::storage::{truncated_keys, IndexBound, KeyBound};
use pgcluster::raft::topology::{format_lsn, parse_lsn, BackupManifest, BackupStatus};
use pgcluster::raft::topology::{ClusterTopology, FailoverEvent, NodeConfig, NodeRole};
use pgcluster::raft::types::{Entry, EntryPayload, LogId, Membership};
use pgcluster::table::NameTable;

fn make_node_cfg(id: &str) -> NodeConfig {
    NodeConfig {
        node_id: id.into(),
        agent_addr: format!("127.0.0.1:700{}", id.len()),
        postgres_addr: format!("127.0.0.1:543{}", id.len()),
        priority: 100,
        tags: NameTable::new(),
    }
}

fn apply(t: &mut ClusterTopology, cmd: TopologyCommand) {
    TopologyStateMachine::apply_command(t, &cmd);
}

// ── Commands ─────────────────────────────────────────────────────────────────

#[test]
fn apply_set_primary_updates_topology() {
    let mut t = ClusterTopology::default();
    apply(
        &mut t,
        TopologyCommand::SetPrimary {
            node_id: "pg1".into(),
            at_lsn: 100,
            new_timeline: 1,
        },
    );
    assert_eq!(t.primary_node_id, "pg1");
    assert_eq!(t.node_roles.get("pg1"), Some(&NodeRole::Primary));
    assert_eq!(t.last_flush_lsns.get("pg1"), Some(&100));
    assert_eq!(t.version, 1);
}

#[test]
fn apply_mark_offline_changes_role() {
    let mut t = ClusterTopology::default();
    apply(
        &mut t,
        TopologyCommand::MarkReplica {
            node_id: "pg2".into(),
            flush_lsn: 50,
        },
    );
    apply(
        &mut t,
        TopologyCommand::MarkOffline {
            node_id: "pg2".into(),
        },
    );
    assert_eq!(t.node_roles.get("pg2"), Some(&NodeRole::Offline));
}

#[test]
fn apply_mark_replica_tracks_lsn() {
    let mut t = ClusterTopology::default();
    apply(
        &mut t,
        TopologyCommand::MarkReplica {
            node_id: "pg3".into(),
            flush_lsn: 999,
        },
    );
    assert_eq!(t.node_roles.get("pg3"), Some(&NodeRole::Replica));
    assert_eq!(t.last_flush_lsns.get("pg3"), Some(&999));
}

#[test]
fn apply_update_flush_lsn() {
    let mut t = ClusterTopology::default();
    apply(
        &mut t,
        TopologyCommand::SetPrimary {
            node_id: "pg1".into(),
            at_lsn: 1000,
            new_timeline: 1,
        },
    );
    apply(
        &mut t,
        TopologyCommand::UpdateFlushLsn {
            node_id: "pg2".into(),
            flush_lsn: 900,
            replay_lsn: 890,
        },
    );
    assert_eq!(t.last_flush_lsns.get("pg2"), Some(&900));
    assert_eq!(t.last_replay_lsns.get("pg2"), Some(&890));
    assert_eq!(t.replica_lag_bytes.get("pg2"), Some(&100u64));
}

#[test]
fn apply_add_then_remove_node() {
    let mut t = ClusterTopology::default();
    apply(&mut t, TopologyCommand::AddNode(make_node_cfg("pg4")));
    assert!(t.node_configs.contains_key("pg4"));
    apply(
        &mut t,
        TopologyCommand::RemoveNode {
            node_id: "pg4".into(),
        },
    );
    assert!(!t.node_configs.contains_key("pg4"));
    assert!(!t.node_roles.contains_key("pg4"));
}

#[test]
fn apply_sequence_of_commands_is_idempotent() {
    let mut t = ClusterTopology::default();
    for _ in 0..3 {
        apply(
            &mut t,
            TopologyCommand::SetPrimary {
                node_id: "pg1".into(),
                at_lsn: 100,
                new_timeline: 1,
            },
        );
    }
    assert_eq!(t.primary_node_id, "pg1");
    let primaries: Vec<usize> = (0..t.node_roles.len())
        .filter(|i| *t.node_roles.value_at(*i) == NodeRole::Primary)
        .collect();
    assert_eq!(primaries.len(), 1, "expected exactly one primary");
}

#[test]
fn a_new_primary_replaces_the_old_one() {
    let mut t = ClusterTopology::default();
    for id in ["pg1", "pg2"] {
        apply(
            &mut t,
            TopologyCommand::SetPrimary {
                node_id: id.into(),
                at_lsn: 5,
                new_timeline: 1,
            },
        );
    }
    assert_eq!(t.primary_node_id, "pg2");
    assert_eq!(t.node_roles.get("pg1"), Some(&NodeRole::Replica));
    assert_eq!(t.node_roles.get("pg2"), Some(&NodeRole::Primary));
    assert_eq!(t.version, 2);
}

#[test]
fn the_remaining_commands() {
    let mut t = ClusterTopology::default();
    apply(
        &mut t,
        TopologyCommand::UpdatePrimaryConninfo {
            node_id: "pg2".into(),
            conninfo: "host=pg1".into(),
        },
    );
    assert_eq!(
        t.primary_conninfos.get("pg2").map(String::as_str),
        Some("host=pg1")
    );
    apply(
        &mut t,
        TopologyCommand::SetReplicationSlot {
            node_id: "pg2".into(),
            slot_name: "s2".into(),
        },
    );
    assert_eq!(t.replica_slots.get("pg2").map(String::as_str), Some("s2"));
    apply(
        &mut t,
        TopologyCommand::MarkMaintenance {
            node_id: "pg2".into(),
        },
    );
    assert_eq!(t.node_roles.get("pg2"), Some(&NodeRole::Maintenance));
    apply(
        &mut t,
        TopologyCommand::RecordFailover {
            old_primary: "pg1".into(),
            new_primary: "pg2".into(),
            triggered_at: 3,
            duration_ms: 4,
            reason: "r".into(),
        },
    );
    assert_eq!(t.failover_history.len(), 1);
    assert_eq!(t.failover_history[0].duration_ms, 4);
    assert!(TopologyCommand::SetPrimary {
        node_id: "x".into(),
        at_lsn: 0,
        new_timeline: 0
    }
    .changes_primary());
    assert!(!TopologyCommand::RemoveNode {
        node_id: "x".into()
    }
    .changes_primary());
}

fn manifest(i: i64) -> BackupManifest {
    BackupManifest {
        backup_id: format!("b{i}"),
        label: "l".into(),
        frequency: "daily".into(),
        source_node: "pg2".into(),
        started_at: i,
        completed_at: i,
        size_bytes: 0,
        s3_uri: String::new(),
        status: BackupStatus::Completed,
    }
}

#[test]
fn lists_stay_bounded() {
    let mut t = ClusterTopology::default();
    for i in 0..105 {
        t.record_failover(FailoverEvent {
            old_primary: format!("pg{i}"),
            new_primary: "x".into(),
            triggered_at: i,
            duration_ms: 0,
            reason: "r".into(),
        });
    }
    assert_eq!(t.failover_history.len(), 100);
    assert_eq!(t.failover_history[0].triggered_at, 5);
    for i in 0..1001 {
        apply(&mut t, TopologyCommand::AddBackupManifest(manifest(i)));
    }
    assert_eq!(t.backups.len(), 1000);
    assert_eq!(t.backups[0].backup_id, "b1000");
    assert_eq!(t.backups[999].backup_id, "b1");
}

// ── Log positions ────────────────────────────────────────────────────────────

#[test]
fn parse_lsn_roundtrip() {
    let cases = ["0/1A2B3C", "A/DEADBEEF", "0/0", "1/0"];
    for s in &cases {
        let lsn = parse_lsn(s).unwrap();
        assert_eq!(&format_lsn(lsn), s);
    }
}

#[test]
fn parse_lsn_invalid() {
    assert!(parse_lsn("not-an-lsn").is_err());
    assert!(parse_lsn("XYZ/123").is_err());
}

#[test]
fn log_positions_have_two_halves() {
    assert_eq!(parse_lsn("1/0").unwrap(), 1 << 32);
    assert_eq!(parse_lsn("FFFFFFFF/FFFFFFFF").unwrap(), u64::MAX);
    assert_eq!(format_lsn(u64::MAX), "FFFFFFFF/FFFFFFFF");
    assert!(parse_lsn("0/XYZ").unwrap_err().message().contains("XYZ"));
}

// ── Candidates ───────────────────────────────────────────────────────────────

#[test]
fn best_candidate_picks_highest_lsn() {
    let mut t = ClusterTopology::default();
    t.node_roles.insert("pg1".into(), NodeRole::Primary);
    t.node_roles.insert("pg2".into(), NodeRole::Replica);
    t.node_roles.insert("pg3".into(), NodeRole::Replica);
    t.last_flush_lsns.insert("pg2".into(), 100);
    t.last_flush_lsns.insert("pg3".into(), 200); // higher
    for id in ["pg1", "pg2", "pg3"] {
        t.node_configs.insert(
            id.into(),
            NodeConfig {
                node_id: id.into(),
                agent_addr: format!("127.0.0.1:700{}", id.chars().last().unwrap()),
                postgres_addr: format!("127.0.0.1:543{}", id.chars().last().unwrap()),
                priority: 100,
                tags: NameTable::new(),
            },
        );
    }
    assert_eq!(t.best_failover_candidate("pg1").as_deref(), Some("pg3"));
}

#[test]
fn best_candidate_priority_breaks_tie() {
    let mut t = ClusterTopology::default();
    t.node_roles.insert("pg1".into(), NodeRole::Primary);
    t.node_roles.insert("pg2".into(), NodeRole::Replica);
    t.node_roles.insert("pg3".into(), NodeRole::Replica);
    t.last_flush_lsns.insert("pg2".into(), 100);
    t.last_flush_lsns.insert("pg3".into(), 100); // tied LSN
    for (id, priority) in [("pg2", 90), ("pg3", 110), ("pg1", 100)] {
        t.node_configs.insert(
            id.into(),
            NodeConfig {
                node_id: id.into(),
                agent_addr: "x".into(),
                postgres_addr: "y".into(),
                priority,
                tags: NameTable::new(),
            },
        );
    }
    assert_eq!(t.best_failover_candidate("pg1").as_deref(), Some("pg3"));
}

#[test]
fn replicas_within_lag() {
    let mut t = ClusterTopology {
        primary_node_id: "pg1".into(),
        ..Default::default()
    };
    for (id, role, lsn) in [
        ("pg1", NodeRole::Primary, 1000),
        ("pg2", NodeRole::Replica, 995),
        ("pg3", NodeRole::Replica, 10),
    ] {
        t.node_configs.insert(id.into(), make_node_cfg(id));
        t.node_roles.insert(id.into(), role);
        t.last_flush_lsns.insert(id.into(), lsn);
    }
    assert_eq!(t.replica_addrs_within_lag(5), ["127.0.0.1:5433"]);
    assert_eq!(t.replica_addrs_within_lag(990).len(), 2);
    assert!(t.replica_addrs_within_lag(4).is_empty());
    assert_eq!(t.primary_postgres_addr(), Some("127.0.0.1:5433"));
}

// ── The state machine ────────────────────────────────────────────────────────

fn entry(index: u64, payload: EntryPayload) -> Entry {
    Entry {
        log_id: LogId {
            term: 1,
            node_id: 1,
            index,
        },
        payload,
    }
}

#[test]
fn entries_are_applied_and_published() {
    let (mut sm, watch) = TopologyStateMachine::new();
    assert!(sm.get_current_snapshot_data().is_none());
    let responses = sm.apply_entries(&vec![
        entry(1, EntryPayload::Blank),
        entry(
            2,
            EntryPayload::Normal(TopologyCommand::SetPrimary {
                node_id: "pg1".into(),
                at_lsn: 9,
                new_timeline: 1,
            }),
        ),
        entry(
            3,
            EntryPayload::Membership(Membership {
                configs: vec![vec![1, 2]],
                nodes: vec![(1, "a:1".into()), (2, "b:2".into())],
            }),
        ),
    ]);
    assert_eq!(responses.len(), 3);
    assert_eq!(responses[2].applied_version, 1);
    assert_eq!(watch.current().primary_node_id, "pg1");
    assert_eq!(sm.current_topology().primary_node_id, "pg1");
    let (last, membership) = sm.applied_state();
    assert_eq!(last.unwrap().index, 3);
    assert_eq!(membership.membership.configs, vec![vec![1, 2]]);
}

#[test]
fn the_current_topology_needs_no_reader() {
    let (mut sm, watch) = TopologyStateMachine::new();
    drop(watch);
    sm.apply_entries(&vec![entry(
        1,
        EntryPayload::Normal(TopologyCommand::SetPrimary {
            node_id: "pg1".into(),
            at_lsn: 9,
            new_timeline: 1,
        }),
    )]);
    assert_eq!(sm.current_topology().primary_node_id, "pg1");
    assert_eq!(sm.current_topology().version, 1);
}

#[test]
fn a_snapshot_restores_the_state() {
    let (mut a, _watch_a) = TopologyStateMachine::new();
    a.apply_entries(&vec![entry(
        4,
        EntryPayload::Normal(TopologyCommand::SetPrimary {
            node_id: "pg1".into(),
            at_lsn: 9,
            new_timeline: 1,
        }),
    )]);
    let snap = a.build_snapshot_data();
    let (mut b, watch_b) = TopologyStateMachine::new();
    assert!(b.begin_receiving_snapshot().is_empty());
    b.install_snapshot_from(&snap.meta, snap.snapshot);
    assert_eq!(b.current_topology().primary_node_id, "pg1");
    assert_eq!(b.current_topology().version, 1);
    assert_eq!(b.applied_state().0.unwrap().index, 4);
    assert_eq!(watch_b.borrow().primary_node_id, "pg1");
    assert!(b.get_current_snapshot_data().is_some());
}

// ── Keys of the log ──────────────────────────────────────────────────────────

#[test]
fn keys_are_ordered_like_indices() {
    assert_eq!(idx_key(258), [0, 0, 0, 0, 0, 0, 1, 2]);
    assert_eq!(key_index(&idx_key(u64::MAX)), Some(u64::MAX));
    assert_eq!(key_index(&[1, 2]), None);
    let indices = [0u64, 1, 255, 256, 65_535, 65_536, u64::MAX];
    for pair in indices.windows(2) {
        assert!(idx_key(pair[0]) < idx_key(pair[1]));
    }
}

#[test]
fn ranges_of_keys() {
    let (lo, hi) = key_range(IndexBound::Included(2), IndexBound::Excluded(5));
    assert!(matches!(lo, KeyBound::Included(k) if k == idx_key(2)));
    assert!(matches!(hi, KeyBound::Excluded(k) if k == idx_key(5)));
    assert!(matches!(
        to_key_bound(IndexBound::Unbounded),
        KeyBound::Unbounded
    ));
    let (lo, hi) = truncated_keys(7);
    assert!(matches!(lo, KeyBound::Included(k) if k == idx_key(7)));
    assert!(matches!(hi, KeyBound::Unbounded));
    let (lo, hi) = purged_keys(7);
    assert!(matches!(lo, KeyBound::Unbounded));
    assert!(matches!(hi, KeyBound::Included(k) if k == idx_key(7)));
}

// ── Peers ────────────────────────────────────────────────────────────────────

#[test]
fn peers_are_called_by_their_address() {
    let c = PgClusterNetworkFactory::new(None).new_client(2, "pgcluster-2:7000");
    assert_eq!(c.target(), 2);
    assert_eq!(c.uri(), "http://pgcluster-2:7000");
    assert_eq!(
        c.invalid_uri("empty"),
        "invalid peer URI pgcluster-2:7000: empty"
    );
    let f = PgClusterNetworkFactory::new(Some(vec![7]));
    assert_eq!(f.ca_pem(), Some(&vec![7]));
    assert_eq!(f.new_client(3, "c:7000").uri(), "https://c:7000");
}

#[test]
fn the_leader_is_told() {
    let r = leader_reply(Some(3), Some("c:7000".into()));
    assert!(r.has_leader);
    assert_eq!((r.leader_id, r.leader_addr.as_str()), (3, "c:7000"));
    assert_eq!(leader_reply(Some(3), None).leader_addr, "");
    let r = leader_reply(None, None);
    assert!(!r.has_leader);
    assert_eq!((r.leader_id, r.leader_addr.as_str()), (0, ""));
}

#[test]
fn removing_an_added_node_leaves_all_else() {
    let mut t = ClusterTopology::default();
    apply(&mut t, TopologyCommand::AddNode(make_node_cfg("pg1")));
    apply(
        &mut t,
        TopologyCommand::SetPrimary {
            node_id: "pg1".into(),
            at_lsn: 100,
            new_timeline: 1,
        },
    );
    let before = t.version;
    let shown = |t: &ClusterTopology| {
        let all = format!("{t:?}");
        let from = all.find("version: ").unwrap();
        all[..from].to_string()
    };
    let text = shown(&t);
    apply(&mut t, TopologyCommand::AddNode(make_node_cfg("pg4")));
    assert_ne!(shown(&t), text);
    apply(
        &mut t,
        TopologyCommand::RemoveNode {
            node_id: "pg4".into(),
        },
    );
    assert_eq!(shown(&t), text);
    assert_eq!(t.version, before + 2);
}
