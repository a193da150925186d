//! Per-client connection state machine.
//!
//! A `ProxyConnection` is made for each accepted TCP connection. It decides:
//!   1. what to do with the startup message
//!   2. where every statement of the client goes
//!   3. when a backend connection is given back
//!
//! The caller performs the decisions on its sockets.

use super::encode::{encode_query_message, encode_raw_message, encode_startup_message, is_sendable};
use super::encode::{pairs_bytes, raw_bytes, sendable, startup_body, startup_frame, terminated};
use super::pool::PooledConn;
use super::protocol::{classify_statement, error_body, frame, write_error_response};
use super::protocol::{intent_of, FrontendMessage, MessageView, StatementIntent, ERROR_RESPONSE};
use super::protocol::{PROTOCOL_V3, QUERY};
use super::router::{is_backend, is_primary_choice, primary_in, resolve_backend_in, Router};
use super::session::{routed, session_after, target_of, RouteTarget, SessionState, TxnState};
use super::session::{STATUS_FAILED, STATUS_IN_TRANSACTION};
use crate::config::ReadRoutingConfig;
use crate::raft::topology::TopologyView;
use crate::raft::ClusterTopology;
use crate::table::NameTable;
use crate::text::{trimmed_start, upper_text};
use vstd::prelude::*;
use vstd::string::StringExecFns;
use vstd::utf8::encode_utf8;

verus! {

// ── Replies ──────────────────────────────────────────────────────────────────

/// An error that is sent to the client.
#[derive(Debug)]
pub struct Reply {
    pub severity: String,
    /// SQLSTATE code
    pub code: String,
    pub message: String,
}

/// Whether a reply says what is given.
pub open spec fn is_reply(
    r: Reply,
    severity: Seq<char>,
    code: Seq<char>,
    message: Seq<char>,
) -> bool {
    r.severity@ == severity && r.code@ == code && r.message@ == message
}

/// The reply to a client that is sent away for a planned switchover.
pub open spec fn is_draining_reply(r: Reply) -> bool {
    is_reply(
        r,
        "FATAL"@,
        "57P01"@,
        "server is draining connections for a planned switchover; reconnect shortly"@,
    )
}

fn reply(severity: &str, code: &str, message: &str) -> (r: Reply)
    ensures
        is_reply(r, severity@, code@, message@),
{
    Reply { severity: severity.to_owned(), code: code.to_owned(), message: message.to_owned() }
}

fn draining_reply() -> (r: Reply)
    ensures
        is_draining_reply(r),
{
    reply(
        "FATAL",
        "57P01",
        "server is draining connections for a planned switchover; reconnect shortly",
    )
}

impl Reply {
    /// Whether the reply fits into one message.
    pub open spec fn fits(self) -> bool {
        4 + error_body(self.severity@, self.code@, self.message@).len() <= u32::MAX
    }

    /// Whether the reply fits into one message.
    pub fn is_encodable(&self) -> (r: bool)
        ensures
            r == self.fits(),
    {
        let a: usize = self.severity.as_str().as_bytes().len();
        let b: usize = self.code.as_str().as_bytes().len();
        let c: usize = self.message.as_str().as_bytes().len();
        4 + (a as u128 + 2) + (b as u128 + 2) + (c as u128 + 2) + 1 <= u32::MAX as u128
    }

    /// The wire bytes of the reply.
    pub fn encode(&self) -> (r: Vec<u8>)
        requires
            self.fits(),
        ensures
            r@ == frame(ERROR_RESPONSE, error_body(self.severity@, self.code@, self.message@)),
    {
        let mut out: Vec<u8> = Vec::new();
        write_error_response(
            &mut out,
            self.severity.as_str(),
            self.code.as_str(),
            self.message.as_str(),
        );
        assert(out@ =~= frame(
            ERROR_RESPONSE,
            error_body(self.severity@, self.code@, self.message@),
        ));
        out
    }
}

// ── Startup ──────────────────────────────────────────────────────────────────

/// Why a first message cannot start a session.
#[derive(Debug, Clone, Copy, PartialEq, Eq, Structural)]
pub enum StartupError {
    /// An SSL or cancel request.
    UnexpectedRequest,
    /// Anything else that is no startup message.
    NotStartup,
}

impl StartupError {
    /// The message for the log.
    pub open spec fn text(self) -> Seq<char> {
        match self {
            StartupError::UnexpectedRequest => "unexpected message type at startup"@,
            StartupError::NotStartup => "expected StartupMessage, got something else"@,
        }
    }

    /// The message for the log.
    pub fn message(&self) -> (r: String)
        ensures
            r@ == self.text(),
    {
        match self {
            StartupError::UnexpectedRequest => "unexpected message type at startup".to_owned(),
            StartupError::NotStartup => "expected StartupMessage, got something else".to_owned(),
        }
    }
}

/// What to do with a client that has sent its first message.
#[derive(Debug)]
pub enum Start {
    /// Send the reply and close the connection.
    Refuse(Reply),
    /// Connect to the primary, send it the startup message, and pass the
    /// authentication through.
    Connect { connection: ProxyConnection, node_id: String, addr: String, startup: Vec<u8> },
}

/// A backend connection that a session holds.
#[derive(Debug)]
pub struct Backend {
    pub conn: PooledConn,
    pub node_id: String,
    pub addr: String,
}

/// The state of one client connection.
#[derive(Debug)]
pub struct ProxyConnection {
    pub session: SessionState,
    /// Current backend — held while in a transaction.
    pub current: Option<Backend>,
}

/// The value of a startup parameter, empty if it is missing.
pub open spec fn param_or_empty(params: Map<Seq<char>, Seq<char>>, name: Seq<char>) -> Seq<char> {
    if params.contains_key(name) {
        params[name]
    } else {
        Seq::empty()
    }
}

fn param(params: &NameTable<String>, name: &str) -> (r: String)
    ensures
        r@ == param_or_empty(params@, name@),
{
    match params.get(name) {
        Some(v) => v.clone(),
        None => {
            let empty = String::new();
            assert(empty@ =~= Seq::<char>::empty());
            empty
        },
    }
}

/// Whether a session is a fresh one with the names that the client gave.
pub open spec fn is_fresh_session(s: SessionState, params: Map<Seq<char>, Seq<char>>) -> bool {
    &&& s.txn_state == TxnState::Idle
    &&& !s.is_read_only
    &&& s.database@ == param_or_empty(params, "database"@)
    &&& s.user@ == param_or_empty(params, "user"@)
    &&& s.application_name@ == param_or_empty(params, "application_name"@)
    &&& s.set_vars@ == Map::<Seq<char>, Seq<char>>::empty()
    &&& s.shard_key is None
    &&& s.pinned_backend is None
}

/// Whether a startup message can be passed on.
pub open spec fn startup_fits(msg: FrontendMessage) -> bool {
    msg matches FrontendMessage::StartupMessage { params } ==> 4 + startup_body(
        params.pairs(),
    ).len() <= u32::MAX
}

proof fn lemma_pairs_len(pairs: Seq<(Seq<char>, Seq<char>)>, i: int)
    requires
        0 <= i < pairs.len(),
    ensures
        pairs_bytes(pairs.take(i + 1)).len() == pairs_bytes(pairs.take(i)).len() + encode_utf8(
            pairs[i].0,
        ).len() + encode_utf8(pairs[i].1).len() + 2,
{
    assert(pairs.take(i + 1).drop_last() =~= pairs.take(i));
}

/// Whether a startup message can be passed on.
pub fn is_startup_encodable(msg: &FrontendMessage) -> (r: bool)
    ensures
        r == startup_fits(*msg),
{
    match msg {
        FrontendMessage::StartupMessage { params } => {
            let ghost pairs = params.pairs();
            let n = params.len();
            let mut size: u64 = 0;
            let mut fits = true;
            assert(pairs.take(0) =~= Seq::<(Seq<char>, Seq<char>)>::empty());
            proof {
                crate::big_endian::lemma_be_len(PROTOCOL_V3 as int, 4);
            }
            for i in 0..n
                invariant
                    n == pairs.len(),
                    pairs == params.pairs(),
                    fits ==> size == pairs_bytes(pairs.take(i as int)).len() && size <= u32::MAX,
                    !fits ==> pairs_bytes(pairs.take(i as int)).len() > u32::MAX,
            {
                let a: usize = params.name_at(i).as_str().as_bytes().len();
                let b: usize = params.value_at(i).as_str().as_bytes().len();
                proof {
                    lemma_pairs_len(pairs, i as int);
                }
                if fits {
                    let next: u128 = size as u128 + a as u128 + b as u128 + 2;
                    if next <= u32::MAX as u128 {
                        size = next as u64;
                    } else {
                        fits = false;
                    }
                }
            }
            assert(pairs.take(n as int) =~= pairs);
            fits && 4 + (4 + size + 1) <= u32::MAX as u64
        },
        _ => true,
    }
}

/// Whether `r` is the right answer to the first message of a client.
pub open spec fn is_start(
    msg: FrontendMessage,
    draining: bool,
    primary: Option<(String, String)>,
    r: Result<Start, StartupError>,
) -> bool {
    match msg {
        FrontendMessage::StartupMessage { params } => if draining {
            r matches Ok(Start::Refuse(reply)) && is_draining_reply(reply)
        } else {
            match primary {
                None => r matches Ok(Start::Refuse(reply)) && is_reply(
                    reply,
                    "FATAL"@,
                    "57P03"@,
                    "no primary available"@,
                ),
                Some((id, address)) => {
                    &&& r matches Ok(Start::Connect { connection, node_id, addr, startup })
                    &&& is_fresh_session(connection.session, params@)
                    &&& connection.current is None
                    &&& node_id@ == id@
                    &&& addr@ == address@
                    &&& startup@ == startup_frame(params.pairs())
                },
            }
        },
        FrontendMessage::SslRequest | FrontendMessage::CancelRequest { .. } => r == Err::<
            Start,
            StartupError,
        >(StartupError::UnexpectedRequest),
        _ => r == Err::<Start, StartupError>(StartupError::NotStartup),
    }
}

// ── Messages ─────────────────────────────────────────────────────────────────

/// What to do with a message of the client.
#[derive(Debug)]
pub enum Step {
    /// The client is gone.
    Close,
    /// The message has no place here.
    Ignore,
    /// Send the reply and go on.
    Reply(Reply),
    /// Send the reply and close the connection.
    ReplyAndClose(Reply),
    /// Send the bytes to the connection that the session holds, and pipe the
    /// response back.
    Forward { conn: PooledConn, raw: Vec<u8> },
    /// Get a connection to the node, then send the bytes and pipe the
    /// response back.
    Acquire { node_id: String, addr: String, raw: Vec<u8> },
}

/// The bytes that are sent to a backend for a message.
pub open spec fn wire_of(m: MessageView) -> Seq<u8> {
    match m {
        MessageView::Query(sql) => frame(QUERY, terminated(sql)),
        _ => raw_bytes(m),
    }
}

/// Whether the length of a message fits into its length field.
pub open spec fn forwardable(m: MessageView) -> bool {
    match m {
        MessageView::Query(sql) => 4 + terminated(sql).len() <= u32::MAX,
        _ => sendable(m),
    }
}

/// The intent of a statement.
pub open spec fn statement_intent(sql: Seq<char>) -> StatementIntent {
    intent_of(upper_text(trimmed_start(sql)))
}

/// Whether a message belongs to the extended query or the COPY protocol.
pub open spec fn is_extended(m: MessageView) -> bool {
    match m {
        MessageView::Parse { .. }
        | MessageView::Bind { .. }
        | MessageView::Execute { .. }
        | MessageView::Describe { .. }
        | MessageView::Sync
        | MessageView::Flush
        | MessageView::Close { .. }
        | MessageView::CopyData(_)
        | MessageView::CopyDone
        | MessageView::CopyFail(_) => true,
        _ => false,
    }
}

/// The session after a message.
pub open spec fn session_after_message(s: SessionState, m: MessageView) -> SessionState {
    match m {
        MessageView::Query(sql) => routed(s, statement_intent(sql)),
        _ => s,
    }
}

/// Whether `r` gets a connection to the chosen backend and sends the message,
/// or sends the reply if no backend was found.
pub open spec fn is_dispatch(
    m: MessageView,
    choice: Option<(String, String)>,
    missing: Seq<char>,
    r: Step,
) -> bool {
    match choice {
        Some((id, address)) => r matches Step::Acquire { node_id, addr, raw } && node_id@ == id@
            && addr@ == address@ && raw@ == wire_of(m),
        None => r matches Step::Reply(reply) && is_reply(reply, "ERROR"@, "57P03"@, missing),
    }
}

/// Whether `r` is the right step for a message, on a given topology.
pub open spec fn is_step(
    c: ProxyConnection,
    m: MessageView,
    draining: bool,
    t: TopologyView,
    config: ReadRoutingConfig,
    r: Step,
) -> bool {
    match m {
        MessageView::Terminate => r is Close,
        MessageView::Query(sql) => match c.current {
            Some(b) => r matches Step::Forward { conn, raw } && conn == b.conn && raw@ == wire_of(
                m,
            ),
            None => {
                let target = target_of(c.session, statement_intent(sql));
                if draining && target == RouteTarget::Primary {
                    r matches Step::ReplyAndClose(reply) && is_draining_reply(reply)
                } else {
                    exists|choice: Option<(String, String)>|
                        #![trigger is_backend(t, config, target, choice)]
                        is_backend(t, config, target, choice) && is_dispatch(
                            m,
                            choice,
                            "no backend available"@,
                            r,
                        )
                }
            },
        },
        _ => if is_extended(m) {
            match c.current {
                Some(b) => r matches Step::Forward { conn, raw } && conn == b.conn && raw@
                    == wire_of(m),
                None => exists|choice: Option<(String, String)>|
                    #![trigger is_primary_choice(t, choice)]
                    is_primary_choice(t, choice) && is_dispatch(m, choice, "no primary"@, r),
            }
        } else {
            r is Ignore
        },
    }
}

/// Whether a `ReadyForQuery` with the given status takes a connection from
/// `before` to `after` and gives `released` back to the pool.
pub open spec fn is_ready_step(
    before: ProxyConnection,
    status_byte: u8,
    after: ProxyConnection,
    released: Option<Backend>,
) -> bool {
    &&& after.session == session_after(before.session, status_byte)
    &&& if after.session.txn_state == TxnState::Idle {
        released == before.current && after.current is None
    } else {
        released is None && after.current == before.current
    }
}

/// Whether a connection that was got takes a session from `before` to `after`.
pub open spec fn is_acquired_step(
    before: ProxyConnection,
    backend: Backend,
    after: ProxyConnection,
) -> bool {
    after.session == before.session && after.current == Some(backend)
}

/// Whether the end of a client takes its session from `before` to `after` and
/// gives `released` back to the pool.
pub open spec fn is_gone_step(
    before: ProxyConnection,
    after: ProxyConnection,
    released: Option<Backend>,
) -> bool {
    released == before.current && after.current is None && after.session == before.session
}

fn encode_message(msg: &FrontendMessage) -> (r: Vec<u8>)
    requires
        forwardable(msg@),
    ensures
        r@ == wire_of(msg@),
{
    match msg {
        FrontendMessage::Query(sql) => encode_query_message(sql.as_str()),
        _ => encode_raw_message(msg),
    }
}

/// Whether the length of a message fits into its length field.
pub fn is_forwardable(msg: &FrontendMessage) -> (r: bool)
    ensures
        r == forwardable(msg@),
{
    match msg {
        FrontendMessage::Query(sql) => {
            let n: usize = sql.as_str().as_bytes().len();
            4 + (n as u128 + 1) <= u32::MAX as u128
        },
        _ => is_sendable(msg),
    }
}

fn dispatch(msg: &FrontendMessage, choice: Option<(String, String)>, missing: &str) -> (r: Step)
    requires
        forwardable(msg@),
    ensures
        is_dispatch(msg@, choice, missing@, r),
{
    match choice {
        Some((node_id, addr)) => Step::Acquire { node_id, addr, raw: encode_message(msg) },
        None => Step::Reply(reply("ERROR", "57P03", missing)),
    }
}

impl ProxyConnection {
    /// Decides on the first message of a client.
    ///
    /// New connections are refused while the proxy is draining (switchover in
    /// progress) and while no primary is known.
    pub fn start(
        msg: &FrontendMessage,
        draining: bool,
        primary: &Option<(String, String)>,
    ) -> (r: Result<Start, StartupError>)
        requires
            startup_fits(*msg),
        ensures
            is_start(*msg, draining, *primary, r),
    {
        match msg {
            FrontendMessage::StartupMessage { params } => {
                if draining {
                    return Ok(Start::Refuse(draining_reply()));
                }
                match primary {
                    None => Ok(Start::Refuse(reply("FATAL", "57P03", "no primary available"))),
                    Some((node_id, addr)) => {
                        let mut session = SessionState::default();
                        session.database = param(params, "database");
                        session.user = param(params, "user");
                        session.application_name = param(params, "application_name");
                        Ok(
                            Start::Connect {
                                connection: ProxyConnection { session, current: None },
                                node_id: node_id.clone(),
                                addr: addr.clone(),
                                startup: encode_startup_message(params),
                            },
                        )
                    },
                }
            },
            FrontendMessage::SslRequest | FrontendMessage::CancelRequest { .. } => Err(
                StartupError::UnexpectedRequest,
            ),
            _ => Err(StartupError::NotStartup),
        }
    }

    /// The reply when the primary could not be connected to.
    pub fn on_connect_failed(error: &str) -> (r: Reply)
        ensures
            is_reply(r, "FATAL"@, "08006"@, "could not connect to primary: "@ + error@),
    {
        let message = "could not connect to primary: ".to_owned().concat(error);
        reply("FATAL", "08006", message.as_str())
    }

    /// Decides on a message, on the topology at the time of the call.
    pub fn on_message(&mut self, msg: &FrontendMessage, router: &Router) -> (r: Step)
        requires
            forwardable(msg@),
        ensures
            final(self).session == session_after_message(old(self).session, msg@),
            final(self).current == old(self).current,
            exists|t: TopologyView| #[trigger]
                router.sees(t) && is_step(
                    *old(self),
                    msg@,
                    router.drains(),
                    t,
                    router.routing(),
                    r,
                ),
    {
        let topo = router.topology();
        let draining = router.is_draining();
        let config = router.read_routing();
        let r = self.on_message_in(msg, draining, &topo, &config);
        assert(is_step(*old(self), msg@, router.drains(), topo@, router.routing(), r));
        r
    }

    /// Decides on a message, on the given topology.
    pub fn on_message_in(
        &mut self,
        msg: &FrontendMessage,
        draining: bool,
        topo: &ClusterTopology,
        config: &ReadRoutingConfig,
    ) -> (r: Step)
        requires
            forwardable(msg@),
        ensures
            final(self).session == session_after_message(old(self).session, msg@),
            final(self).current == old(self).current,
            is_step(*old(self), msg@, draining, topo@, *config, r),
    {
        match msg {
            FrontendMessage::Terminate => Step::Close,
            FrontendMessage::Query(sql) => {
                let intent = classify_statement(sql.as_str());
                let target = self.session.route_intent(&intent);
                match &self.current {
                    // Sticky to current backend while in a transaction.
                    Some(b) => Step::Forward { conn: b.conn, raw: encode_message(msg) },
                    None => {
                        // Between transactions: disconnect if the proxy is draining
                        // so clients reconnect to the (new) primary after switchover.
                        if draining && target == RouteTarget::Primary {
                            return Step::ReplyAndClose(draining_reply());
                        }
                        let choice = resolve_backend_in(topo, config, &target);
                        assert(is_backend(topo@, *config, target, choice));
                        dispatch(msg, choice, "no backend available")
                    },
                }
            },
            FrontendMessage::Parse { .. }
            | FrontendMessage::Bind { .. }
            | FrontendMessage::Execute { .. }
            | FrontendMessage::Describe { .. }
            | FrontendMessage::Sync
            | FrontendMessage::Flush
            | FrontendMessage::Close { .. }
            | FrontendMessage::CopyData(_)
            | FrontendMessage::CopyDone
            | FrontendMessage::CopyFail(_) => match &self.current {
                Some(b) => Step::Forward { conn: b.conn, raw: encode_message(msg) },
                None => {
                    let choice = primary_in(topo);
                    assert(is_primary_choice(topo@, choice));
                    dispatch(msg, choice, "no primary")
                },
            },
            FrontendMessage::PasswordMessage(_)
            | FrontendMessage::StartupMessage { .. }
            | FrontendMessage::SslRequest
            | FrontendMessage::CancelRequest { .. } => Step::Ignore,
        }
    }

    /// The session now holds a connection.
    pub fn on_acquired(&mut self, conn: PooledConn, node_id: String, addr: String)
        ensures
            final(self).session == old(self).session,
            final(self).current == Some(Backend { conn, node_id, addr }),
            is_acquired_step(*old(self), Backend { conn, node_id, addr }, *final(self)),
    {
        self.current = Some(Backend { conn, node_id, addr });
    }

    /// The reply when no connection could be got for a message.
    pub fn on_acquire_failed(&self, msg: &FrontendMessage, error: &str) -> (r: Reply)
        ensures
            is_reply(
                r,
                "ERROR"@,
                "08006"@,
                if msg@ is Query {
                    "backend connection failed: "@ + error@
                } else {
                    "backend unavailable: "@ + error@
                },
            ),
    {
        let message = match msg {
            FrontendMessage::Query(_) => "backend connection failed: ".to_owned().concat(error),
            _ => "backend unavailable: ".to_owned().concat(error),
        };
        reply("ERROR", "08006", message.as_str())
    }

    /// The backend has ended its response with the given transaction status.
    /// Returns the connection that goes back to the pool, if the session is
    /// idle again.
    pub fn on_ready(&mut self, status_byte: u8) -> (released: Option<Backend>)
        ensures
            is_ready_step(*old(self), status_byte, *final(self), released),
    {
        self.session.update_from_ready_for_query(status_byte);
        if self.session.txn_state == TxnState::Idle {
            self.current.take()
        } else {
            None
        }
    }

    /// The client is gone. Returns the connection that goes back to the pool.
    pub fn on_disconnect(&mut self) -> (released: Option<Backend>)
        ensures
            released == old(self).current,
            final(self).current is None,
            final(self).session == old(self).session,
            is_gone_step(*old(self), *final(self), released),
    {
        self.current.take()
    }
}

// ── Laws ─────────────────────────────────────────────────────────────────────

/// A session that holds a connection sends every statement there: within a
/// transaction the backend does not change.
pub proof fn lemma_transaction_is_sticky(
    c: ProxyConnection,
    m: MessageView,
    draining: bool,
    t: TopologyView,
    config: ReadRoutingConfig,
    r: Step,
)
    requires
        c.current is Some,
        m is Query || is_extended(m),
        is_step(c, m, draining, t, config, r),
    ensures
        r matches Step::Forward { conn, raw } && conn == c.current->0.conn && raw@ == wire_of(m),
{
}

/// What moves a connection on: a message of the client, or the status in a
/// `ReadyForQuery` of the server.
pub ghost enum Turn {
    Message(MessageView),
    Ready(u8),
}

/// Whether a turn takes a connection from `before` to `after`.
pub open spec fn is_turn(before: ProxyConnection, turn: Turn, after: ProxyConnection) -> bool {
    match turn {
        Turn::Message(m) => {
            &&& after.session == session_after_message(before.session, m)
            &&& after.current == before.current
        },
        Turn::Ready(status_byte) => exists|released: Option<Backend>| #[trigger]
            is_ready_step(before, status_byte, after, released),
    }
}

/// Whether the turns take a connection from each of the states to the next.
pub open spec fn is_run(states: Seq<ProxyConnection>, turns: Seq<Turn>) -> bool {
    &&& states.len() == turns.len() + 1
    &&& forall|i: int|
        #![trigger turns[i]]
        0 <= i < turns.len() ==> is_turn(states[i], turns[i], states[i + 1])
}

/// Whether a turn leaves a transaction open.
pub open spec fn leaves_open(turn: Turn) -> bool {
    turn matches Turn::Ready(status_byte) ==> status_byte == STATUS_IN_TRANSACTION || status_byte
        == STATUS_FAILED
}

/// From the time a session holds a connection until the server reports the end
/// of the transaction, the session keeps that connection, over any number of
/// messages and replies. Whatever statement comes next goes there, whatever the
/// topology has become.
pub proof fn lemma_open_transaction_keeps_backend(
    states: Seq<ProxyConnection>,
    turns: Seq<Turn>,
    m: MessageView,
    draining: bool,
    t: TopologyView,
    config: ReadRoutingConfig,
    r: Step,
)
    requires
        is_run(states, turns),
        states[0].current is Some,
        forall|i: int| 0 <= i < turns.len() ==> leaves_open(#[trigger] turns[i]),
        m is Query || is_extended(m),
        is_step(states.last(), m, draining, t, config, r),
    ensures
        states.last().current == states[0].current,
        r matches Step::Forward { conn, raw } && conn == states[0].current->0.conn && raw@
            == wire_of(m),
{
    lemma_run_keeps_backend(states, turns);
    lemma_transaction_is_sticky(states.last(), m, draining, t, config, r);
}

proof fn lemma_run_keeps_backend(states: Seq<ProxyConnection>, turns: Seq<Turn>)
    requires
        is_run(states, turns),
        forall|i: int| 0 <= i < turns.len() ==> leaves_open(#[trigger] turns[i]),
    ensures
        states.last().current == states[0].current,
    decreases turns.len(),
{
    if turns.len() > 0 {
        let n = turns.len() - 1;
        let shorter = turns.drop_last();
        assert forall|i: int| 0 <= i < shorter.len() implies {
            &&& is_turn(states.drop_last()[i], #[trigger] shorter[i], states.drop_last()[i + 1])
            &&& leaves_open(shorter[i])
        } by {
            assert(shorter[i] == turns[i]);
        }
        lemma_run_keeps_backend(states.drop_last(), shorter);
        assert(is_turn(states[n], turns[n], states[n + 1]));
        assert(leaves_open(turns[n]));
    }
}

/// A connection goes back to the pool at the end of a response only if the
/// session is then idle.
pub proof fn lemma_release_needs_idle(
    before: ProxyConnection,
    status_byte: u8,
    after: ProxyConnection,
    released: Option<Backend>,
)
    requires
        is_ready_step(before, status_byte, after, released),
        released is Some,
    ensures
        after.session.txn_state == TxnState::Idle,
        released == before.current,
        after.current is None,
{
}

/// While the proxy drains, no statement that needs the primary starts a new
/// transaction there.
pub proof fn lemma_draining_sends_away(
    c: ProxyConnection,
    sql: Seq<char>,
    t: TopologyView,
    config: ReadRoutingConfig,
    r: Step,
)
    requires
        c.current is None,
        target_of(c.session, statement_intent(sql)) == RouteTarget::Primary,
        is_step(c, MessageView::Query(sql), true, t, config, r),
    ensures
        r matches Step::ReplyAndClose(reply) && is_draining_reply(reply),
{
}

/// A statement that writes is never sent to a node that is not the primary,
/// unless the session already holds a connection.
pub proof fn lemma_writes_go_to_primary(
    c: ProxyConnection,
    sql: Seq<char>,
    draining: bool,
    t: TopologyView,
    config: ReadRoutingConfig,
    r: Step,
)
    requires
        c.current is None,
        statement_intent(sql) == StatementIntent::Write,
        is_step(c, MessageView::Query(sql), draining, t, config, r),
    ensures
        r matches Step::Acquire { node_id, addr, raw } ==> node_id@ == t.primary_node_id && addr@
            == t.node_configs[t.primary_node_id].postgres_addr,
{
}

} // verus!
