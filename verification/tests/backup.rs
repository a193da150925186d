use pgcluster::backup::{acts_as_scheduler, basebackup_args, completed_manifest, delete_prefix};
use pgcluster::backup::{exit_message, is_due, is_due_at, last_backup_ts, new_backup_id};
use pgcluster::backup::{parse_host_port, prune, s3_key, s3_key_base, s3_uri, schedule_step};
use pgcluster::backup::{on_executed, on_recorded, removal, schedule_step_at, select_source};
use pgcluster::backup::{BackupJob, ScheduleStep};
use pgcluster::config::{BackupFrequency, BackupScheduleEntry};
use pgcluster::raft::commands::TopologyCommand;
use pgcluster::raft::topology::{BackupManifest, BackupStatus, ClusterTopology, NodeConfig};
use pgcluster::raft::topology::NodeRole;
use pgcluster::table::NameTable;
use std::time::{SystemTime, UNIX_EPOCH};

fn unix_now() -> i64 {
    SystemTime::now()
        .duration_since(UNIX_EPOCH)
        .unwrap()
        .as_secs() as i64
}

fn make_topology_with_backups(backups: Vec<BackupManifest>) -> ClusterTopology {
    let mut t = ClusterTopology {
        primary_node_id: "pg1".into(),
        ..Default::default()
    };
    t.node_roles.insert("pg1".into(), NodeRole::Primary);
    t.node_roles.insert("pg2".into(), NodeRole::Replica);
    t.node_roles.insert("pg3".into(), NodeRole::Replica);
    t.replica_lag_bytes.insert("pg2".into(), 500);
    t.replica_lag_bytes.insert("pg3".into(), 100); // pg3 is closer
    for id in ["pg1", "pg2", "pg3"] {
        t.node_configs.insert(
            id.into(),
            NodeConfig {
                node_id: id.into(),
                agent_addr: format!("{}:7001", id),
                postgres_addr: format!("{}:5432", id),
                priority: 100,
                tags: NameTable::new(),
            },
        );
    }
    t.backups = backups;
    t
}

fn completed(frequency: &str, completed_at: i64) -> BackupManifest {
    BackupManifest {
        backup_id: new_backup_id(),
        label: format!("{}-test", frequency),
        frequency: frequency.to_string(),
        source_node: "pg2".into(),
        started_at: completed_at - 60,
        completed_at,
        size_bytes: 1024 * 1024,
        s3_uri: format!("s3://test-bucket/backups/{}/backup-id/", frequency),
        status: BackupStatus::Completed,
    }
}

#[test]
fn select_source_prefers_lowest_lag_replica() {
    let t = make_topology_with_backups(vec![]);
    let (node_id, _) = select_source(&t, true).unwrap();
    assert_eq!(node_id, "pg3", "pg3 has lower lag (100) than pg2 (500)");
}

#[test]
fn select_source_falls_back_to_primary_when_prefer_replica_false() {
    let t = make_topology_with_backups(vec![]);
    let (node_id, _) = select_source(&t, false).unwrap();
    assert_eq!(node_id, "pg1");
}

#[test]
fn select_source_falls_back_to_primary_when_no_replicas() {
    let mut t = ClusterTopology {
        primary_node_id: "pg1".into(),
        ..Default::default()
    };
    t.node_roles.insert("pg1".into(), NodeRole::Primary);
    t.node_configs.insert(
        "pg1".into(),
        NodeConfig {
            node_id: "pg1".into(),
            agent_addr: "pg1:7001".into(),
            postgres_addr: "pg1:5432".into(),
            priority: 100,
            tags: NameTable::new(),
        },
    );
    let (node_id, _) = select_source(&t, true).unwrap();
    assert_eq!(node_id, "pg1");
}

#[test]
fn is_due_when_never_backed_up() {
    assert!(is_due(&BackupFrequency::Daily, None));
    assert!(is_due(&BackupFrequency::Weekly, None));
    assert!(is_due(&BackupFrequency::Monthly, None));
}

#[test]
fn is_due_daily_after_threshold() {
    let now = unix_now();
    let just_backed_up = now - 22 * 3600;
    assert!(!is_due(&BackupFrequency::Daily, Some(just_backed_up)));

    let old_backup = now - 24 * 3600;
    assert!(is_due(&BackupFrequency::Daily, Some(old_backup)));
}

#[test]
fn is_due_weekly_after_threshold() {
    let now = unix_now();
    let recent = now - 6 * 24 * 3600; // 6 days ago — not yet due
    assert!(!is_due(&BackupFrequency::Weekly, Some(recent)));

    let old = now - 7 * 24 * 3600; // 7 days ago — due
    assert!(is_due(&BackupFrequency::Weekly, Some(old)));
}

#[test]
fn is_due_monthly_after_threshold() {
    let now = unix_now();
    let recent = now - 27 * 24 * 3600; // 27 days — not yet due
    assert!(!is_due(&BackupFrequency::Monthly, Some(recent)));

    let old = now - 29 * 24 * 3600; // 29 days — due
    assert!(is_due(&BackupFrequency::Monthly, Some(old)));
}

#[test]
fn last_backup_ts_returns_most_recent_completed() {
    let now = unix_now();
    let t = make_topology_with_backups(vec![
        completed("daily", now - 100),
        completed("daily", now - 50), // most recent
        completed("weekly", now - 200),
    ]);
    assert_eq!(last_backup_ts(&t, "daily"), Some(now - 50));
    assert_eq!(last_backup_ts(&t, "weekly"), Some(now - 200));
    assert_eq!(last_backup_ts(&t, "monthly"), None);
}

#[test]
fn last_backup_ts_ignores_failed_backups() {
    let now = unix_now();
    let mut failed = completed("daily", now - 30);
    failed.status = BackupStatus::Failed;
    let t = make_topology_with_backups(vec![failed, completed("daily", now - 100)]);
    // The failed manifest (now - 30) must not count.
    assert_eq!(last_backup_ts(&t, "daily"), Some(now - 100));
}

#[test]
fn parse_host_port_valid() {
    let (h, p) = parse_host_port("pg-replica:5432").unwrap();
    assert_eq!(h, "pg-replica");
    assert_eq!(p, 5432);
}

#[test]
fn parse_host_port_missing_port() {
    assert!(parse_host_port("pg-replica").is_err());
}

#[test]
fn host_and_port_errors_are_told_apart() {
    assert!(parse_host_port("pg:99999").is_err());
    assert!(parse_host_port("pg:x").is_err());
    assert_eq!(parse_host_port("a:b:5432").unwrap().0, "a:b");
    assert!(!parse_host_port("pg").unwrap_err().message().is_empty());
}

#[test]
fn is_due_exactly_at_the_threshold() {
    let t = 1_700_000_000;
    assert!(!is_due_at(&BackupFrequency::Daily, Some(t), t + 23 * 3600 - 1));
    assert!(is_due_at(&BackupFrequency::Daily, Some(t), t + 23 * 3600 + 1));
    assert!(is_due_at(&BackupFrequency::Daily, None, t));
}

#[test]
fn ids_are_random_uuids() {
    let a = new_backup_id();
    let b = new_backup_id();
    assert_ne!(a, b);
    for id in [&a, &b] {
        assert_eq!(id.len(), 36);
        assert_eq!(id.as_bytes()[14], b'4');
        assert!(id
            .chars()
            .enumerate()
            .all(|(i, c)| if matches!(i, 8 | 13 | 18 | 23) {
                c == '-'
            } else {
                c.is_ascii_hexdigit()
            }));
    }
}

#[test]
fn only_the_leader_schedules() {
    assert!(acts_as_scheduler(true, Some(1), 1));
    assert!(!acts_as_scheduler(true, Some(2), 1));
    assert!(!acts_as_scheduler(true, None, 1));
    assert!(!acts_as_scheduler(false, Some(1), 1));
}

#[test]
fn a_due_backup_is_scheduled() {
    let now = 1_700_000_000;
    let entry = BackupScheduleEntry {
        frequency: BackupFrequency::Daily,
        retain: 2,
    };
    let t = make_topology_with_backups(vec![completed("daily", now - 48 * 3600)]);
    match schedule_step_at(&t, true, &entry, now, "2023-11-14") {
        ScheduleStep::Run(job) => {
            assert_eq!(job.frequency, "daily");
            assert_eq!(job.source_node, "pg3");
            assert_eq!(job.source_addr, "pg3:5432");
            assert_eq!(job.label, "daily-2023-11-14");
        }
        other => panic!("expected a job, got {other:?}"),
    }
    let fresh = make_topology_with_backups(vec![completed("daily", now - 60)]);
    assert!(matches!(
        schedule_step_at(&fresh, true, &entry, now, "2023-11-14"),
        ScheduleStep::NotDue
    ));
    assert!(matches!(
        schedule_step_at(&ClusterTopology::default(), true, &entry, now, "2023-11-14"),
        ScheduleStep::NoSource
    ));
    match schedule_step(&t, true, &entry) {
        ScheduleStep::Run(job) => {
            let date = chrono::Utc::now().format("%Y-%m-%d").to_string();
            assert!(job.label.starts_with("daily-"));
            assert_eq!(job.label.len(), "daily-".len() + date.len());
            let days = SystemTime::now().duration_since(UNIX_EPOCH).unwrap().as_secs() / 86_400;
            let is_date_of = |days: u64| {
                let (y, m, d) = pgcluster::calendar::days_to_ymd(days);
                job.label == format!("daily-{y:04}-{m:02}-{d:02}")
            };
            assert!(is_date_of(days) || is_date_of(days - 1));
        }
        other => panic!("expected a job, got {other:?}"),
    }
}

#[test]
fn the_newest_backups_are_kept() {
    let t = make_topology_with_backups(vec![
        completed("daily", 30),
        completed("daily", 50),
        completed("weekly", 10),
        completed("daily", 40),
    ]);
    let removed: Vec<i64> = prune(&t, "daily", 1).iter().map(|m| m.completed_at).collect();
    assert_eq!(removed.len(), 2);
    assert!(removed.contains(&30) && removed.contains(&40));
    assert!(prune(&t, "daily", 3).is_empty());
    assert!(prune(&t, "weekly", 1).is_empty());
}

#[test]
fn objects_are_stored_and_deleted_under_the_same_prefix() {
    let base = s3_key_base("backups/", "daily", "id-1");
    let key = s3_key(&base, "base.tar.gz");
    let uri = s3_uri("bucket", &base);
    assert!(key.starts_with(&base));
    assert!(key.ends_with("base.tar.gz"));
    assert!(uri.starts_with("s3://bucket/"));
    assert!(key.starts_with(&delete_prefix("bucket", &uri)));
}

#[test]
fn a_completed_backup_is_recorded() {
    let job = BackupJob {
        frequency: "daily".into(),
        source_node: "pg2".into(),
        source_addr: "pg2:5432".into(),
        label: "daily-2024-01-15".into(),
    };
    let base = s3_key_base("p", "daily", "id-1");
    let m = completed_manifest(&job, "id-1", 10, 20, 5, "b", &base);
    assert_eq!(m.backup_id, "id-1");
    assert_eq!(m.label, "daily-2024-01-15");
    assert_eq!(m.source_node, "pg2");
    assert_eq!((m.started_at, m.completed_at, m.size_bytes), (10, 20, 5));
    assert_eq!(m.s3_uri, s3_uri("b", &base));
    assert_eq!(m.status, BackupStatus::Completed);
}

#[test]
fn the_backup_command_names_its_source() {
    let args = basebackup_args("pg2", 5433, "replicator", "/tmp/x");
    assert!(args.iter().any(|a| a.contains("pg2")));
    assert!(args.iter().any(|a| a.contains("5433")));
    assert!(args.iter().any(|a| a.contains("replicator")));
    assert!(args.iter().any(|a| a.contains("/tmp/x")));
    assert!(exit_message(Some(1), "boom").contains("boom"));
}

#[test]
fn old_backups_go_only_after_the_new_one_is_recorded() {
    assert!(on_executed(None).is_none());
    match on_executed(Some(completed("daily", 50))) {
        Some(TopologyCommand::AddBackupManifest(m)) => assert_eq!(m.completed_at, 50),
        other => panic!("expected a record, got {other:?}"),
    }
    let t = make_topology_with_backups(vec![completed("daily", 30), completed("daily", 50)]);
    assert!(on_recorded(false, &t, "daily", 1).is_empty());
    let old = on_recorded(true, &t, "daily", 1);
    assert_eq!(old.len(), 1);
    assert_eq!(old[0].completed_at, 30);
    match removal(&old[0]) {
        TopologyCommand::RemoveBackupManifest { backup_id } => {
            assert_eq!(backup_id, old[0].backup_id)
        }
        other => panic!("expected a removal, got {other:?}"),
    }
}
