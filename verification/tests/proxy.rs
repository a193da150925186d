use pgcluster::config::{PoolConfig, ReadRoutingConfig};
use pgcluster::proxy::backend::{connect_context, is_alive, BackendConnection, Probe};
use pgcluster::proxy::connection::{is_forwardable, is_startup_encodable, ProxyConnection, Start};
use pgcluster::proxy::connection::{StartupError, Step};
use pgcluster::proxy::health::{health_handler, health_reply};
use pgcluster::proxy::passthrough::{forwards_response, AuthExchange, AuthStep};
use pgcluster::proxy::pool::{exhausted_message, is_idle_too_long, wait_step, Acquire};
use pgcluster::proxy::pool::{ConnectionPool, PoolKey};
use pgcluster::proxy::protocol::{FrontendMessage, StatementIntent};
use pgcluster::proxy::router::{best_replica_in, read_backend_in, Router};
use pgcluster::proxy::scan::{closed_message, PipeStep, ReadyScan, ResponsePipe};
use pgcluster::proxy::session::{RouteTarget, SessionState, TxnState};
use pgcluster::proxy::ssl::{handle_ssl_negotiation, handle_ssl_owned, is_ssl_request, SslAction};
use pgcluster::raft::topology::{ClusterTopology, NodeConfig, NodeRole};
use pgcluster::raft::TopologyWatch;
use pgcluster::table::NameTable;

fn make_topology(
    primary: &str,
    replicas: &[(&str, u64)], // (node_id, lag_bytes)
) -> ClusterTopology {
    let mut topo = ClusterTopology {
        primary_node_id: primary.to_owned(),
        ..Default::default()
    };

    // Primary
    topo.node_roles
        .insert(primary.to_owned(), NodeRole::Primary);
    topo.node_configs.insert(
        primary.to_owned(),
        NodeConfig {
            node_id: primary.to_owned(),
            agent_addr: "127.0.0.1:7000".to_string(),
            postgres_addr: "127.0.0.1:5432".to_string(),
            priority: 100,
            tags: NameTable::new(),
        },
    );

    // Replicas
    for (i, (rid, lag)) in replicas.iter().enumerate() {
        topo.node_roles.insert(rid.to_string(), NodeRole::Replica);
        topo.replica_lag_bytes.insert(rid.to_string(), *lag);
        topo.node_configs.insert(
            rid.to_string(),
            NodeConfig {
                node_id: rid.to_string(),
                agent_addr: format!("127.0.0.1:701{i}"),
                postgres_addr: format!("127.0.0.1:543{}", i + 2),
                priority: 90,
                tags: NameTable::new(),
            },
        );
    }

    topo
}

fn make_router(topo: ClusterTopology, max_lag: u64) -> Router {
    let (sender, watch) = TopologyWatch::new(topo);
    let _ = sender; // keep alive
    Router::new(
        watch,
        ReadRoutingConfig {
            enabled: true,
            max_replica_lag_bytes: max_lag,
        },
    )
}

#[test]
fn primary_addr_returns_current_primary() {
    let topo = make_topology("pg1", &[("pg2", 0)]);
    let router = make_router(topo, 10_000_000);

    assert_eq!(router.primary_addr().as_deref(), Some("127.0.0.1:5432"));
}

#[test]
fn best_replica_excludes_lagged() {
    // pg2 has 5 MB lag (within threshold), pg3 has 20 MB lag (over threshold)
    let topo = make_topology("pg1", &[("pg2", 5_000_000), ("pg3", 20_000_000)]);
    let router = make_router(topo, 10_000_000); // 10 MB max

    let result = router.best_replica_addr();
    assert!(result.is_some());
    // Only pg2 is within threshold
    let (node_id, _) = result.unwrap();
    assert_eq!(node_id, "pg2");
}

#[test]
fn best_replica_returns_none_when_all_over_lag() {
    let topo = make_topology("pg1", &[("pg2", 50_000_000), ("pg3", 60_000_000)]);
    let router = make_router(topo, 10_000_000); // 10 MB max — both over

    assert!(router.best_replica_addr().is_none());
}

#[test]
fn best_replica_picks_least_lagged() {
    // pg2 = 2 MB, pg3 = 1 MB — pg3 should win
    let topo = make_topology("pg1", &[("pg2", 2_000_000), ("pg3", 1_000_000)]);
    let router = make_router(topo, 10_000_000);

    let (node_id, _) = router.best_replica_addr().unwrap();
    assert_eq!(node_id, "pg3");
}

#[test]
fn read_backend_falls_back_to_primary_when_no_replicas() {
    let topo = make_topology("pg1", &[]);
    let router = make_router(topo, 10_000_000);

    let (node_id, addr) = router.read_backend().unwrap();
    assert_eq!(node_id, "pg1");
    assert_eq!(addr, "127.0.0.1:5432");
}

#[test]
fn reads_stay_on_the_primary_where_routing_is_off() {
    let topo = make_topology("pg1", &[("pg2", 0)]);
    let off = ReadRoutingConfig {
        enabled: false,
        max_replica_lag_bytes: 10,
    };
    assert_eq!(read_backend_in(&topo, &off).unwrap().0, "pg1");
    assert_eq!(best_replica_in(&topo, 0).unwrap().0, "pg2");
}

#[test]
fn a_router_sees_what_is_published() {
    let (mut sender, watch) = TopologyWatch::new(make_topology("pg1", &[]));
    let config = ReadRoutingConfig {
        enabled: true,
        max_replica_lag_bytes: 10,
    };
    let mut router = Router::new(watch, config);
    assert_eq!(router.primary_node_id().as_deref(), Some("pg1"));
    sender.publish(make_topology("pg9", &[]));
    assert_eq!(router.primary_node_id().as_deref(), Some("pg9"));
    assert_eq!(sender.latest().primary_node_id, "pg9");
    assert!(!router.is_draining());
    router.set_draining(true);
    assert!(router.is_draining());
    assert_eq!(router.resolve_backend(&RouteTarget::Primary).unwrap().0, "pg9");
    assert_eq!(health_handler(&router).status, 200);
    let empty = make_router(ClusterTopology::default(), 1);
    assert_eq!(health_handler(&empty).status, 503);
    assert_eq!(health_reply(false).body, "no primary");
    assert_eq!(health_reply(true).body, "ok");
}

// ── Sessions ─────────────────────────────────────────────────────────────────

#[test]
fn txn_state_transitions() {
    let mut s = SessionState::default();
    assert_eq!(s.txn_state, TxnState::Idle);

    // Client opens a transaction
    s.update_from_ready_for_query(b'T');
    assert_eq!(s.txn_state, TxnState::InTransaction);

    // Transaction commits/rolls back
    s.update_from_ready_for_query(b'I');
    assert_eq!(s.txn_state, TxnState::Idle);
}

#[test]
fn txn_state_failed_transition() {
    let mut s = SessionState::default();
    s.update_from_ready_for_query(b'T');
    s.update_from_ready_for_query(b'E');
    assert_eq!(s.txn_state, TxnState::Failed);
    // After rollback
    s.update_from_ready_for_query(b'I');
    assert_eq!(s.txn_state, TxnState::Idle);
}

#[test]
fn sticky_routing_while_in_txn() {
    let mut s = SessionState::default();

    // Before any transaction: a read can go to replica
    let target = s.route_intent(&StatementIntent::Read);
    assert_eq!(target, RouteTarget::ReplicaOrPrimary);

    // Open a write transaction (backend returns 'T')
    s.update_from_ready_for_query(b'T');

    // Now a read inside a write txn must stay on primary
    let target = s.route_intent(&StatementIntent::Read);
    assert_eq!(target, RouteTarget::Primary);
}

#[test]
fn needs_primary_for_write_intent() {
    let mut s = SessionState::default();
    // Idle + read-only == no primary needed
    assert!(!s.needs_primary());

    // Begin write transaction
    s.update_from_ready_for_query(b'T');
    s.is_read_only = false;
    assert!(s.needs_primary());

    // Begin read-only transaction
    s.is_read_only = true;
    assert!(!s.needs_primary());
}

#[test]
fn needs_primary_when_failed() {
    let mut s = SessionState::default();
    s.update_from_ready_for_query(b'E');
    assert!(s.needs_primary());
}

#[test]
fn backend_pin_cleared_on_idle() {
    let mut s = SessionState::default();
    s.pinned_backend = Some("pg1".to_string());
    s.update_from_ready_for_query(b'I');
    assert!(s.pinned_backend.is_none());
}

#[test]
fn txn_state_transitions_commit() {
    let mut s = SessionState::default();
    s.update_from_ready_for_query(b'T');
    assert_eq!(s.txn_state, TxnState::InTransaction);
    s.update_from_ready_for_query(b'I'); // commit → Idle
    assert_eq!(s.txn_state, TxnState::Idle);
}

#[test]
fn txn_state_transitions_rollback() {
    let mut s = SessionState::default();
    s.update_from_ready_for_query(b'T');
    s.update_from_ready_for_query(b'E'); // error
    s.update_from_ready_for_query(b'I'); // rollback → Idle
    assert_eq!(s.txn_state, TxnState::Idle);
}

#[test]
fn txn_state_stays_in_failed() {
    let mut s = SessionState::default();
    s.update_from_ready_for_query(b'E');
    assert_eq!(s.txn_state, TxnState::Failed);
    // Another statement while failed — still Failed until rollback
    s.update_from_ready_for_query(b'E');
    assert_eq!(s.txn_state, TxnState::Failed);
}

#[test]
fn an_unknown_status_byte_counts_as_idle() {
    let mut s = SessionState::default();
    s.update_from_ready_for_query(b'T');
    s.is_read_only = true;
    s.pinned_backend = Some("pg1".to_string());
    s.update_from_ready_for_query(b'?');
    assert_eq!(s.txn_state, TxnState::Idle);
    assert!(s.is_read_only);
    assert!(s.pinned_backend.is_none());
}

// ── Responses of a backend ───────────────────────────────────────────────────

#[test]
fn ready_is_found_across_reads() {
    let response = b"C\0\0\0\x08SET\0Z\0\0\0\x05T";
    for cut in 0..response.len() {
        let mut scan = ReadyScan::new();
        let first = scan.feed(&response[..cut]);
        assert_eq!(first, None);
        assert_eq!(scan.feed(&response[cut..]), Some(b'T'));
    }
    let mut scan = ReadyScan::new();
    // A data row that holds the bytes of a ReadyForQuery is no ReadyForQuery.
    assert_eq!(scan.feed(b"D\0\0\0\x0aZ\0\0\0\x05I"), None);
    assert_eq!(scan.feed(b"Z\0\0\0\x05I"), Some(b'I'));
}

#[test]
fn authentication_ends_when_the_backend_is_ready() {
    let mut auth = AuthExchange::new();
    assert_eq!(auth.on_backend(b"R\0\0\0\x08\0\0\0\x03"), AuthStep::AwaitClient);
    assert!(forwards_response(Some(5)));
    assert!(!forwards_response(Some(0)));
    assert!(!forwards_response(None));
    assert_eq!(auth.on_backend(b"R\0\0\0\x08\0\0\0\0Z\0\0"), AuthStep::AwaitClient);
    assert_eq!(auth.on_backend(b"\0\x05I"), AuthStep::Done);
    assert_eq!(AuthExchange::new().on_backend(b""), AuthStep::BackendClosed);
}

// ── TLS negotiation ──────────────────────────────────────────────────────────

#[test]
fn a_request_for_tls_is_answered() {
    let request = [0, 0, 0, 8, 0x04, 0xd2, 0x16, 0x2f];
    assert!(is_ssl_request(&request));
    assert!(!is_ssl_request(&request[..7]));
    assert!(!is_ssl_request(&[0, 0, 0, 8, 0, 3, 0, 0]));
    assert_eq!(handle_ssl_owned(&request, true), SslAction::Upgrade(b'S'));
    assert_eq!(handle_ssl_owned(&request, false), SslAction::Decline(b'N'));
    assert_eq!(
        handle_ssl_owned(&[0, 0, 0, 8, 0, 3, 0, 0], true),
        SslAction::Plain
    );
    assert_eq!(handle_ssl_negotiation(&request), SslAction::Decline(b'N'));
}

// ── The pool ─────────────────────────────────────────────────────────────────

fn small_pool() -> ConnectionPool {
    ConnectionPool::new(PoolConfig {
        max_connections_per_db_user: 2,
        idle_timeout_seconds: 60,
        connect_timeout_seconds: 5,
    })
}

#[test]
fn a_released_connection_is_reused() {
    let mut pool = small_pool();
    let generation = match pool.acquire("db", "u", "a:1", "pg1") {
        Acquire::Open { generation } => generation,
        other => panic!("expected a new connection, got {other:?}"),
    };
    let conn = pgcluster::proxy::pool::PooledConn { id: 7, generation };
    assert!(pool.release("db", "u", "a:1", "pg1", conn, true));
    assert_eq!(pool.idle_connections(), [7]);
    assert_eq!(pool.acquire("db", "u", "a:1", "pg1"), Acquire::Idle(conn));
    assert!(matches!(
        pool.acquire("db", "u", "a:1", "pg1"),
        Acquire::Open { .. }
    ));
    assert_eq!(pool.acquire("db", "u", "a:1", "pg1"), Acquire::Wait);
    // Another user has connections of their own.
    assert!(matches!(
        pool.acquire("db", "v", "a:1", "pg1"),
        Acquire::Open { .. }
    ));
    pool.discard("db", "u", "a:1", "pg1");
    assert!(matches!(
        pool.acquire("db", "u", "a:1", "pg1"),
        Acquire::Open { .. }
    ));
}

#[test]
fn a_drained_backend_keeps_no_connections() {
    let mut pool = small_pool();
    pool.inject("db", "u", "a:1", "pg1", 3);
    let conn = match pool.acquire("db", "u", "a:1", "pg1") {
        Acquire::Idle(c) => c,
        other => panic!("expected the injected connection, got {other:?}"),
    };
    pool.inject("db", "u", "b:1", "pg2", 4);
    pool.drain_backend("a:1");
    assert!(!pool.release("db", "u", "a:1", "pg1", conn, true));
    assert_eq!(pool.drain_backend("b:1"), [4]);
    assert!(pool.idle_connections().is_empty());
}

#[test]
fn idle_connections_expire() {
    let mut pool = small_pool();
    pool.inject("db", "u", "a:1", "pg1", 3);
    pool.inject("db", "u", "b:1", "pg2", 4);
    pool.evict_idle(&vec![3]);
    assert_eq!(pool.idle_connections(), [4]);
    assert!(is_idle_too_long(61, 60));
    assert!(!is_idle_too_long(60, 60));
    assert_eq!(
        exhausted_message("db", "u", "a:1"),
        "connection pool exhausted for db/u → a:1"
    );
    let a = PoolKey::new("db", "u", "pg1", "a:1").string_key();
    let b = PoolKey::new("db", "u", "pg2", "b:1").string_key();
    assert_ne!(a, b);
}

#[test]
fn the_state_of_a_backend_connection() {
    let mut c = BackendConnection::connected("pg1");
    assert!(!c.in_use);
    c.mark_in_use();
    assert!(c.in_use);
    c.mark_idle();
    assert!(!c.in_use);
    let before = c.last_used;
    c.touch();
    assert!(c.last_used >= before);
    assert!(c.created_at <= c.last_used);
    let now = std::time::Instant::now();
    c.touch_at(now);
    assert_eq!(c.last_used, now);
    assert!(!c.is_idle_too_long(3600));
    assert!(is_alive(Probe::Locked));
    assert!(is_alive(Probe::WouldBlock));
    assert!(!is_alive(Probe::Eof));
    assert!(!is_alive(Probe::Other));
    assert_eq!(connect_context("pg1", "a:1"), "connect to backend pg1 at a:1");
}

// ── Connections ──────────────────────────────────────────────────────────────

fn startup() -> FrontendMessage {
    let mut params = NameTable::new();
    params.insert("user".to_string(), "alice".to_string());
    params.insert("database".to_string(), "shop".to_string());
    FrontendMessage::StartupMessage { params }
}

fn connected() -> ProxyConnection {
    let primary = Some(("pg1".to_string(), "127.0.0.1:5432".to_string()));
    assert!(is_startup_encodable(&startup()));
    match ProxyConnection::start(&startup(), false, &primary) {
        Ok(Start::Connect {
            connection,
            node_id,
            addr,
            startup,
        }) => {
            assert_eq!(node_id, "pg1");
            assert_eq!(addr, "127.0.0.1:5432");
            assert!(startup.windows(5).any(|w| w == b"alice"));
            connection
        }
        other => panic!("expected a connection, got {other:?}"),
    }
}

#[test]
fn a_connection_begins_with_a_startup_message() {
    let c = connected();
    assert_eq!(c.session.user, "alice");
    assert_eq!(c.session.database, "shop");
    assert!(matches!(
        ProxyConnection::start(&FrontendMessage::Sync, false, &None),
        Err(StartupError::NotStartup)
    ));
    assert!(matches!(
        ProxyConnection::start(&startup(), false, &None),
        Ok(Start::Refuse(_))
    ));
    let primary = Some(("pg1".to_string(), "a:1".to_string()));
    assert!(matches!(
        ProxyConnection::start(&startup(), true, &primary),
        Ok(Start::Refuse(_))
    ));
}

#[test]
fn statements_go_where_they_can_be_served() {
    let topo = make_topology("pg1", &[("pg2", 0)]);
    let config = ReadRoutingConfig {
        enabled: true,
        max_replica_lag_bytes: 10,
    };
    let mut c = connected();
    let read = FrontendMessage::Query("SELECT 1".into());
    assert!(is_forwardable(&read));
    match c.on_message_in(&read, false, &topo, &config) {
        Step::Acquire { node_id, addr, raw } => {
            assert_eq!(node_id, "pg2");
            assert_eq!(addr, "127.0.0.1:5432");
            assert_eq!(raw[0], b'Q');
        }
        other => panic!("expected a backend to be acquired, got {other:?}"),
    }
    let mut c = connected();
    let write = FrontendMessage::Query("DELETE FROM t".into());
    match c.on_message_in(&write, false, &topo, &config) {
        Step::Acquire { node_id, .. } => assert_eq!(node_id, "pg1"),
        other => panic!("expected a backend to be acquired, got {other:?}"),
    }
    assert!(matches!(
        c.on_message_in(&FrontendMessage::Terminate, false, &topo, &config),
        Step::Close
    ));
}

#[test]
fn a_transaction_keeps_its_backend() {
    let topo = make_topology("pg1", &[("pg2", 0)]);
    let config = ReadRoutingConfig {
        enabled: true,
        max_replica_lag_bytes: 10,
    };
    let mut c = connected();
    let begin = FrontendMessage::Query("BEGIN".into());
    assert!(matches!(
        c.on_message_in(&begin, false, &topo, &config),
        Step::Acquire { node_id, .. } if node_id == "pg1"
    ));
    let conn = pgcluster::proxy::pool::PooledConn {
        id: 5,
        generation: 0,
    };
    c.on_acquired(conn, "pg1".into(), "127.0.0.1:5432".into());
    assert!(c.on_ready(b'T').is_none());
    let read = FrontendMessage::Query("SELECT 1".into());
    match c.on_message_in(&read, false, &topo, &config) {
        Step::Forward { conn, .. } => assert_eq!(conn.id, 5),
        other => panic!("expected the pinned backend, got {other:?}"),
    }
    let released = c.on_ready(b'I').unwrap();
    assert_eq!(released.conn.id, 5);
    assert_eq!(released.node_id, "pg1");
    assert!(c.on_disconnect().is_none());
}

#[test]
fn a_connection_is_idle_since_its_last_use() {
    let used = std::time::Instant::now();
    let later = used + std::time::Duration::from_millis(10_900);
    let mut c = BackendConnection::connected("pg1");
    c.touch_at(used);
    assert!(c.is_idle_too_long_at(later, 9));
    assert!(!c.is_idle_too_long_at(later, 10));
    assert!(!c.is_idle_too_long_at(used, 0));
    c.touch_at(later);
    assert!(!c.is_idle_too_long_at(used, 0));
}

#[test]
fn a_session_waits_until_its_deadline() {
    assert_eq!(wait_step(100, 350), Some(250));
    assert_eq!(wait_step(349, 350), Some(1));
    assert_eq!(wait_step(350, 350), None);
    assert_eq!(wait_step(900, 350), None);
}

#[test]
fn a_second_watch_sees_the_same_topology() {
    let (mut sender, watch) = TopologyWatch::new(make_topology("pg1", &[]));
    let second = watch.clone();
    assert_eq!(second.current().primary_node_id, "pg1");
    sender.publish(make_topology("pg9", &[]));
    assert_eq!(second.current().primary_node_id, "pg9");
    assert_eq!(watch.borrow().primary_node_id, "pg9");
}

#[test]
fn an_open_transaction_outlasts_a_failover() {
    let before = make_topology("pg1", &[]);
    let after = make_topology("pg9", &[("pg2", 0)]);
    let config = ReadRoutingConfig {
        enabled: true,
        max_replica_lag_bytes: 10,
    };
    let mut c = connected();
    let begin = FrontendMessage::Query("BEGIN".into());
    assert!(matches!(
        c.on_message_in(&begin, false, &before, &config),
        Step::Acquire { node_id, .. } if node_id == "pg1"
    ));
    let conn = pgcluster::proxy::pool::PooledConn {
        id: 7,
        generation: 0,
    };
    c.on_acquired(conn, "pg1".into(), "127.0.0.1:5432".into());
    for status in [b'T', b'E', b'T'] {
        assert!(c.on_ready(status).is_none());
        for message in [FrontendMessage::Query("SELECT 1".into()), FrontendMessage::Sync] {
            match c.on_message_in(&message, true, &after, &config) {
                Step::Forward { conn, .. } => assert_eq!(conn.id, 7),
                other => panic!("expected the pinned backend, got {other:?}"),
            }
        }
    }
    assert_eq!(c.on_ready(b'I').unwrap().conn.id, 7);
    let read = FrontendMessage::Query("SELECT 1".into());
    assert!(matches!(
        c.on_message_in(&read, false, &after, &config),
        Step::Acquire { node_id, .. } if node_id == "pg2"
    ));
}

#[test]
fn a_response_is_piped_whatever_the_cuts() {
    // A row whose body looks like the end, the end, and the next response.
    let mut bytes: Vec<u8> = vec![b'D', 0, 0, 0, 10, b'Z', 0, 0, 0, 5, b'T'];
    let row = bytes.len();
    bytes.extend([b'Z', 0, 0, 0, 5, b'E']);
    let end = bytes.len();
    bytes.extend([b'Z', 0, 0, 0, 5, b'I']);
    for size in 1..=bytes.len() {
        let mut pipe = ResponsePipe::new();
        let mut sent: Vec<u8> = Vec::new();
        let mut status = None;
        for chunk in bytes.chunks(size) {
            match pipe.on_backend(chunk) {
                PipeStep::Forward { bytes, status: s } => {
                    sent.extend(bytes);
                    status = s;
                }
                PipeStep::Closed => panic!("the backend is open"),
            }
            if status.is_some() {
                break;
            }
        }
        assert_eq!(status, Some(b'E'));
        assert!(row < sent.len() && end <= sent.len());
        assert_eq!(sent, bytes[..sent.len()]);
        assert_eq!(sent.len(), bytes.len().min(end.div_ceil(size) * size));
    }
    let mut pipe = ResponsePipe::new();
    assert!(matches!(pipe.on_backend(&[]), PipeStep::Closed));
    assert_eq!(closed_message(), "backend closed connection unexpectedly");
}

#[test]
fn every_bucket_has_the_configured_limit() {
    let mut pool = ConnectionPool::new(PoolConfig {
        max_connections_per_db_user: 2,
        ..Default::default()
    });
    for (db, addr) in [("db1", "a:1"), ("db2", "a:1"), ("db1", "b:1")] {
        pool.inject(db, "u", addr, "pg1", 1);
        pool.drain_backend(addr);
        assert!(matches!(pool.acquire(db, "u", addr, "pg1"), Acquire::Open { .. }));
        assert!(matches!(pool.acquire(db, "u", addr, "pg1"), Acquire::Open { .. }));
        assert!(matches!(pool.acquire(db, "u", addr, "pg1"), Acquire::Wait));
        pool.discard(db, "u", addr, "pg1");
        assert!(matches!(pool.acquire(db, "u", addr, "pg1"), Acquire::Open { .. }));
        assert!(matches!(pool.acquire(db, "u", addr, "pg1"), Acquire::Wait));
    }
}

#[test]
fn keys_are_compared_and_hashed() {
    let a = PoolKey::new("db", "u", "pg1", "a:1");
    let mut seen = std::collections::HashSet::new();
    assert!(seen.insert(a.clone()));
    assert!(!seen.insert(a.clone()));
    assert!(seen.insert(PoolKey::new("db", "u", "pg2", "a:1")));
    assert_eq!(a, a.clone());
    assert_ne!(a, PoolKey::new("db", "v", "pg1", "a:1"));
}
