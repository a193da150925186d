//! Where the statements of a client go, and what it is told.

use super::connection::{is_extended, is_ready_step, is_start, is_step, statement_intent};
use super::connection::{Backend, ProxyConnection, Reply, Start, StartupError, Step};
use super::encode::startup_frame;
use super::health::{is_health_reply, HealthReply};
use super::protocol::{FrontendMessage, MessageView, StatementIntent};
use super::router::{is_backend, is_primary_addr, is_primary_choice, is_primary_id};
use super::router::{is_read_choice, is_replica_choice, primary_is_known};
use super::session::{routed, session_after, target_of, RouteTarget, SessionState, TxnState};
use super::wire_laws::lemma_frame_bytes;
use crate::config::ReadRoutingConfig;
use crate::raft::topology::{NodeRole, TopologyView};
use vstd::prelude::*;
use vstd::utf8::encode_utf8;

verus! {

// ── Sessions ─────────────────────────────────────────────────────────────────

/// A session follows the status that the server reports: `T` opens a
/// transaction, `E` tells that it failed, and anything else that there is none.
/// Only then the session is pinned to no backend any more; nothing else of it
/// changes, but that a transaction that ends with `I` is no longer read-only.
pub proof fn lemma_session_follows_status(s: SessionState, status_byte: u8)
    ensures
        ({
            let u = session_after(s, status_byte);
            &&& u.txn_state == TxnState::InTransaction <==> status_byte == 0x54
            &&& u.txn_state == TxnState::Failed <==> status_byte == 0x45
            &&& u.txn_state == TxnState::Idle <==> status_byte != 0x54 && status_byte != 0x45
            &&& status_byte == 0x54 || status_byte == 0x45 ==> u.pinned_backend
                == s.pinned_backend
            &&& status_byte != 0x54 && status_byte != 0x45 ==> u.pinned_backend is None
            &&& status_byte == 0x49 ==> !u.is_read_only
            &&& status_byte != 0x49 ==> u.is_read_only == s.is_read_only
            &&& u.database == s.database && u.user == s.user
            &&& u.application_name == s.application_name
            &&& u.set_vars == s.set_vars && u.shard_key == s.shard_key
        }),
{
}

/// A statement may go to a replica exactly if it reads and the session is not in
/// a failed transaction, nor in an open one that is not read-only.
pub proof fn lemma_who_may_use_a_replica(s: SessionState, intent: StatementIntent)
    ensures
        target_of(s, intent) == RouteTarget::ReplicaOrPrimary <==> intent == StatementIntent::Read
            && s.txn_state != TxnState::Failed && (s.txn_state == TxnState::InTransaction
            ==> s.is_read_only),
        target_of(s, intent) == RouteTarget::Primary <==> target_of(s, intent)
            != RouteTarget::ReplicaOrPrimary,
        intent == StatementIntent::Write ==> !routed(s, intent).is_read_only,
        intent != StatementIntent::Write ==> routed(s, intent) == s,
        routed(s, intent).txn_state == s.txn_state,
        routed(s, intent).pinned_backend == s.pinned_backend,
        routed(s, intent).database == s.database,
        routed(s, intent).user == s.user,
{
}

// ── Backends ─────────────────────────────────────────────────────────────────

/// How far behind a node is recorded to be, 0 if nothing is recorded.
pub open spec fn recorded_lag(t: TopologyView, id: Seq<char>) -> int {
    if t.replica_lag_bytes.contains_key(id) {
        t.replica_lag_bytes[id] as int
    } else {
        0
    }
}

/// Whether a node can serve reads: it has the role of a replica and an address,
/// and its recorded lag is within the limit.
pub open spec fn can_read(t: TopologyView, max_lag: u64, id: Seq<char>) -> bool {
    &&& t.node_roles.contains_key(id)
    &&& t.node_roles[id] == NodeRole::Replica
    &&& t.node_configs.contains_key(id)
    &&& recorded_lag(t, id) <= max_lag
}

/// A replica is chosen exactly if one can serve reads. The chosen one can, at
/// its own address, and none that can is less behind.
pub proof fn lemma_least_lagged_replica_is_chosen(
    t: TopologyView,
    max_lag: u64,
    r: Option<(String, String)>,
    other: Seq<char>,
)
    requires
        is_replica_choice(t, max_lag, r),
    ensures
        can_read(t, max_lag, other) ==> r is Some,
        r matches Some((id, addr)) ==> can_read(t, max_lag, id@) && addr@
            == t.node_configs[id@].postgres_addr && (can_read(t, max_lag, other) ==> recorded_lag(
            t,
            id@,
        ) <= recorded_lag(t, other)),
{
    if can_read(t, max_lag, other) {
        assert(super::router::is_eligible(t, max_lag, other));
    }
}

/// A read goes to a replica if reads are routed and one can serve them. It goes
/// to the primary otherwise, if that has an address.
pub proof fn lemma_reads_prefer_replicas(
    t: TopologyView,
    config: ReadRoutingConfig,
    r: Option<(String, String)>,
    other: Seq<char>,
)
    requires
        is_read_choice(t, config, r),
    ensures
        config.enabled && can_read(t, config.max_replica_lag_bytes, other) ==> (r matches Some(
            (id, addr),
        ) && can_read(t, config.max_replica_lag_bytes, id@) && addr@
            == t.node_configs[id@].postgres_addr && recorded_lag(t, id@) <= recorded_lag(
            t,
            other,
        )),
        !config.enabled || (forall|id: Seq<char>|
            !#[trigger] can_read(t, config.max_replica_lag_bytes, id)) ==> {
            &&& r is Some <==> t.node_configs.contains_key(t.primary_node_id)
            &&& r matches Some((id, addr)) ==> id@ == t.primary_node_id && addr@
                == t.node_configs[t.primary_node_id].postgres_addr
        },
{
    let max_lag = config.max_replica_lag_bytes;
    if can_read(t, max_lag, other) {
        assert(super::router::is_eligible(t, max_lag, other));
    }
    if config.enabled && !super::router::no_replica(t, max_lag) {
        let id = choose|id: Seq<char>| #[trigger] super::router::is_eligible(t, max_lag, id);
        assert(can_read(t, max_lag, id));
        lemma_least_lagged_replica_is_chosen(t, max_lag, r, other);
    }
}

/// The primary is found exactly if there is one and it has an address.
pub proof fn lemma_primary_is_found(
    t: TopologyView,
    config: ReadRoutingConfig,
    backend: Option<(String, String)>,
    addr: Option<String>,
    id: Option<String>,
)
    requires
        is_backend(t, config, RouteTarget::Primary, backend),
        is_primary_addr(t, addr),
        is_primary_id(t, id),
    ensures
        backend is Some <==> t.primary_node_id.len() > 0 && t.node_configs.contains_key(
            t.primary_node_id,
        ),
        backend matches Some((i, a)) ==> i@ == t.primary_node_id && a@
            == t.node_configs[t.primary_node_id].postgres_addr,
        addr is Some <==> t.node_configs.contains_key(t.primary_node_id),
        addr matches Some(a) ==> a@ == t.node_configs[t.primary_node_id].postgres_addr,
        id is Some <==> t.primary_node_id.len() > 0,
        id matches Some(i) ==> i@ == t.primary_node_id,
{
}

/// The health of the proxy is good exactly if the primary has an address.
pub proof fn lemma_health(t: TopologyView, r: HealthReply)
    requires
        is_health_reply(primary_is_known(t), r),
    ensures
        t.node_configs.contains_key(t.primary_node_id) ==> r.status == 200 && r.body@ == "ok"@,
        !t.node_configs.contains_key(t.primary_node_id) ==> r.status == 503 && r.body@
            == "no primary"@,
{
}

// ── Clients ──────────────────────────────────────────────────────────────────

/// Whether a reply carries the given texts.
pub open spec fn says(r: Reply, severity: Seq<char>, code: Seq<char>, message: Seq<char>) -> bool {
    r.severity@ == severity && r.code@ == code && r.message@ == message
}

/// A client that starts while the proxy drains, or while no primary is known, is
/// refused. Otherwise it is connected to the primary, with the names that it
/// gave, in a session without a transaction, and its own startup message is
/// passed on.
pub proof fn lemma_start_of_a_client(
    params: crate::table::NameTable<String>,
    draining: bool,
    primary: Option<(String, String)>,
    r: Result<Start, StartupError>,
)
    requires
        is_start(FrontendMessage::StartupMessage { params }, draining, primary, r),
    ensures
        draining ==> (r matches Ok(Start::Refuse(reply)) && says(
            reply,
            "FATAL"@,
            "57P01"@,
            "server is draining connections for a planned switchover; reconnect shortly"@,
        )),
        !draining && primary is None ==> (r matches Ok(Start::Refuse(reply)) && says(
            reply,
            "FATAL"@,
            "57P03"@,
            "no primary available"@,
        )),
        !draining ==> (primary matches Some((primary_id, primary_addr)) ==> (r matches Ok(
            Start::Connect { connection, node_id, addr, startup },
        ) && node_id@ == primary_id@ && addr@ == primary_addr@ && startup@ == startup_frame(
            params.pairs(),
        ) && connection.current is None && connection.session.txn_state == TxnState::Idle
            && !connection.session.is_read_only && (params@.contains_key("database"@)
            ==> connection.session.database@ == params@["database"@]) && (params@.contains_key(
            "user"@,
        ) ==> connection.session.user@ == params@["user"@]) && (params@.contains_key(
            "application_name"@,
        ) ==> connection.session.application_name@ == params@["application_name"@]) && (
        !params@.contains_key("database"@) ==> connection.session.database@.len() == 0) && (
        !params@.contains_key("user"@) ==> connection.session.user@.len() == 0) && (
        !params@.contains_key("application_name"@)
            ==> connection.session.application_name@.len() == 0) && connection.session.set_vars@
            == Map::<Seq<char>, Seq<char>>::empty() && connection.session.shard_key is None
            && connection.session.pinned_backend is None)),
{
}

/// A first message that does not start a session is told apart.
pub proof fn lemma_start_needs_startup(
    msg: FrontendMessage,
    draining: bool,
    primary: Option<(String, String)>,
    r: Result<Start, StartupError>,
)
    requires
        is_start(msg, draining, primary, r),
        !(msg is StartupMessage),
    ensures
        r is Err,
        (r matches Err(StartupError::UnexpectedRequest)) <==> msg is SslRequest
            || msg is CancelRequest,
{
}

/// A statement of a session that holds no connection. One that needs the primary
/// is sent away while the proxy drains, with an error that tells the client to
/// reconnect. Otherwise it goes to the primary, or is refused if the primary is
/// not known.
pub proof fn lemma_statement_for_the_primary(
    c: ProxyConnection,
    sql: Seq<char>,
    draining: bool,
    t: TopologyView,
    config: ReadRoutingConfig,
    r: Step,
)
    requires
        c.current is None,
        is_step(c, MessageView::Query(sql), draining, t, config, r),
        statement_intent(sql) != StatementIntent::Read || c.session.txn_state == TxnState::Failed
            || c.session.txn_state == TxnState::InTransaction && !c.session.is_read_only,
    ensures
        draining ==> (r matches Step::ReplyAndClose(reply) && says(
            reply,
            "FATAL"@,
            "57P01"@,
            "server is draining connections for a planned switchover; reconnect shortly"@,
        )),
        !draining && t.primary_node_id.len() > 0 && t.node_configs.contains_key(t.primary_node_id)
            ==> (r matches Step::Acquire { node_id, addr, raw } && node_id@ == t.primary_node_id
            && addr@ == t.node_configs[t.primary_node_id].postgres_addr && raw@ == query_bytes(
            sql,
        )),
        !draining && (t.primary_node_id.len() == 0 || !t.node_configs.contains_key(
            t.primary_node_id,
        )) ==> (r matches Step::Reply(reply) && says(
            reply,
            "ERROR"@,
            "57P03"@,
            "no backend available"@,
        )),
{
    lemma_query_bytes(sql);
    lemma_who_may_use_a_replica(c.session, statement_intent(sql));
}

/// A read of a session that holds no connection and is in no transaction. It is
/// never sent away. It goes to a replica that is least behind if reads are
/// routed and one can serve it; to the primary otherwise.
pub proof fn lemma_read_outside_a_transaction(
    c: ProxyConnection,
    sql: Seq<char>,
    draining: bool,
    t: TopologyView,
    config: ReadRoutingConfig,
    r: Step,
    other: Seq<char>,
)
    requires
        c.current is None,
        c.session.txn_state == TxnState::Idle,
        is_step(c, MessageView::Query(sql), draining, t, config, r),
        statement_intent(sql) == StatementIntent::Read,
    ensures
        config.enabled && can_read(t, config.max_replica_lag_bytes, other) ==> (
        r matches Step::Acquire { node_id, addr, raw } && can_read(
            t,
            config.max_replica_lag_bytes,
            node_id@,
        ) && addr@ == t.node_configs[node_id@].postgres_addr && recorded_lag(t, node_id@)
            <= recorded_lag(t, other) && raw@ == query_bytes(sql)),
        (!config.enabled || forall|id: Seq<char>|
            !#[trigger] can_read(t, config.max_replica_lag_bytes, id))
            && t.node_configs.contains_key(t.primary_node_id) ==> (r matches Step::Acquire {
            node_id,
            addr,
            raw,
        } && node_id@ == t.primary_node_id && addr@
            == t.node_configs[t.primary_node_id].postgres_addr && raw@ == query_bytes(sql)),
{
    lemma_query_bytes(sql);
    lemma_who_may_use_a_replica(c.session, StatementIntent::Read);
    let choice = choose|choice: Option<(String, String)>|
        #![trigger is_backend(t, config, RouteTarget::ReplicaOrPrimary, choice)]
        is_backend(t, config, RouteTarget::ReplicaOrPrimary, choice)
            && super::connection::is_dispatch(
            MessageView::Query(sql),
            choice,
            "no backend available"@,
            r,
        );
    lemma_reads_prefer_replicas(t, config, choice, other);
}

/// The other messages of a session that holds no connection: those of the
/// extended and the COPY protocol go to the primary, also while the proxy
/// drains; the end of the session closes it; the rest is passed over.
pub proof fn lemma_other_messages(
    c: ProxyConnection,
    m: MessageView,
    draining: bool,
    t: TopologyView,
    config: ReadRoutingConfig,
    r: Step,
)
    requires
        c.current is None,
        is_step(c, m, draining, t, config, r),
    ensures
        m is Parse || m is Bind || m is Execute || m is Describe || m is Sync || m is Flush
            || m is Close || m is CopyData || m is CopyDone || m is CopyFail ==> {
            &&& t.primary_node_id.len() > 0 && t.node_configs.contains_key(t.primary_node_id) ==> (
            r matches Step::Acquire { node_id, addr, .. } && node_id@ == t.primary_node_id && addr@
                == t.node_configs[t.primary_node_id].postgres_addr)
            &&& t.primary_node_id.len() == 0 || !t.node_configs.contains_key(t.primary_node_id)
                ==> (r matches Step::Reply(reply) && says(
                reply,
                "ERROR"@,
                "57P03"@,
                "no primary"@,
            ))
        },
        m is Terminate ==> r is Close,
        m is PasswordMessage || m is StartupMessage || m is SslRequest || m is CancelRequest
            ==> r is Ignore,
{
    if is_extended(m) {
        let choice = choose|choice: Option<(String, String)>|
            #![trigger is_primary_choice(t, choice)]
            is_primary_choice(t, choice) && super::connection::is_dispatch(
                m,
                choice,
                "no primary"@,
                r,
            );
        assert(is_primary_choice(t, choice));
    }
}

/// Whatever connection a session holds, every statement and every message of the
/// extended and the COPY protocol goes there.
pub proof fn lemma_held_connection_is_used(
    c: ProxyConnection,
    m: MessageView,
    draining: bool,
    t: TopologyView,
    config: ReadRoutingConfig,
    r: Step,
)
    requires
        c.current is Some,
        is_step(c, m, draining, t, config, r),
        m is Query || m is Parse || m is Bind || m is Execute || m is Describe || m is Sync
            || m is Flush || m is Close || m is CopyData || m is CopyDone || m is CopyFail,
    ensures
        r matches Step::Forward { conn, raw } && conn == c.current->0.conn && (
        m matches MessageView::Query(sql) ==> raw@ == query_bytes(sql)),
{
    if let MessageView::Query(sql) = m {
        lemma_query_bytes(sql);
    }
}

/// At the end of a response the connection is kept while the status is `T` or
/// `E`, and given back for any other.
pub proof fn lemma_status_decides_on_release(
    before: ProxyConnection,
    status_byte: u8,
    after: ProxyConnection,
    released: Option<Backend>,
)
    requires
        is_ready_step(before, status_byte, after, released),
    ensures
        status_byte == 0x54 || status_byte == 0x45 ==> released is None && after.current
            == before.current,
        status_byte != 0x54 && status_byte != 0x45 ==> released == before.current
            && after.current is None,
{
}

/// The wire bytes of a statement: `Q`, the length in four bytes, the text and a
/// null byte.
pub open spec fn query_bytes(sql: Seq<char>) -> Seq<u8> {
    let n = 5 + encode_utf8(sql).len();
    seq![
        0x51u8,
        (n / 0x100_0000 % 0x100) as u8,
        (n / 0x1_0000 % 0x100) as u8,
        (n / 0x100 % 0x100) as u8,
        (n % 0x100) as u8,
    ] + encode_utf8(sql) + seq![0u8]
}

proof fn lemma_query_bytes(sql: Seq<char>)
    ensures
        super::connection::wire_of(MessageView::Query(sql)) == query_bytes(sql),
{
    let body = encode_utf8(sql).push(0u8);
    lemma_frame_bytes(0x51, body);
    assert(super::encode::terminated(sql) =~= body);
    assert(super::connection::wire_of(MessageView::Query(sql)) =~= query_bytes(sql));
}

/// A connection that was got is used for all that follows, and is given back at
/// the latest when the client is gone.
pub proof fn lemma_acquired_connection_is_used(
    before: ProxyConnection,
    backend: Backend,
    after: ProxyConnection,
    sql: Seq<char>,
    draining: bool,
    t: TopologyView,
    config: ReadRoutingConfig,
    r: Step,
    gone: ProxyConnection,
    released: Option<Backend>,
)
    requires
        super::connection::is_acquired_step(before, backend, after),
        is_step(after, MessageView::Query(sql), draining, t, config, r),
        super::connection::is_gone_step(after, gone, released),
    ensures
        r matches Step::Forward { conn, raw } && conn == backend.conn && raw@ == query_bytes(sql),
        released == Some(backend),
        gone.current is None,
        after.session == before.session,
{
    lemma_query_bytes(sql);
}

/// A message changes what is known of the session only if it is a simple query
/// that writes: the session is then not known to read only. Where it stands in a
/// transaction the backend alone says.
pub proof fn lemma_messages_keep_the_session(s: SessionState, m: MessageView, sql: Seq<char>)
    ensures
        !(m is Query) ==> super::connection::session_after_message(s, m) == s,
        super::connection::session_after_message(s, MessageView::Query(sql)).txn_state
            == s.txn_state,
        super::connection::session_after_message(s, MessageView::Query(sql)).pinned_backend
            == s.pinned_backend,
        super::connection::session_after_message(s, MessageView::Query(sql)).is_read_only == (
        s.is_read_only && statement_intent(sql) != StatementIntent::Write),
{
}

/// A startup parameter that was not sent is taken to be empty.
pub proof fn lemma_startup_parameter(
    params: Map<Seq<char>, Seq<char>>,
    name: Seq<char>,
    value: Seq<char>,
)
    ensures
        super::connection::param_or_empty(params.insert(name, value), name) == value,
        super::connection::param_or_empty(params.remove(name), name).len() == 0,
{
}

} // verus!
