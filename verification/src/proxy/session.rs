//! Per-connection session state.
//!
//! Tracks transaction status, session variables, and routing hints.

use super::protocol::StatementIntent;
use crate::table::NameTable;
use vstd::prelude::*;

verus! {

// ── TxnState ─────────────────────────────────────────────────────────────────

/// The current transaction state of a client connection, mirroring the
/// `ReadyForQuery` status byte sent by the backend.
#[derive(Debug, Clone, Copy, PartialEq, Eq, Structural)]
pub enum TxnState {
    /// No open transaction — free to route to any backend.
    Idle,
    /// Inside an open transaction block — must stay on the same backend.
    InTransaction,
    /// Inside a failed transaction block (error occurred) — must stay on
    /// the same backend until `ROLLBACK`.
    Failed,
}

/// `ReadyForQuery` status: idle, `I`
pub const STATUS_IDLE: u8 = 0x49;

/// `ReadyForQuery` status: in a transaction block, `T`
pub const STATUS_IN_TRANSACTION: u8 = 0x54;

/// `ReadyForQuery` status: in a failed transaction block, `E`
pub const STATUS_FAILED: u8 = 0x45;

// ── SessionState ─────────────────────────────────────────────────────────────

/// All per-connection state that influences routing and protocol behaviour.
#[derive(Debug)]
pub struct SessionState {
    /// Current transaction state (updated from each ReadyForQuery 'Z' message).
    pub txn_state: TxnState,
    /// Whether the current transaction was opened in read-only mode
    /// (`BEGIN READ ONLY` or `SET TRANSACTION READ ONLY`).
    pub is_read_only: bool,
    /// Database name from the startup message.
    pub database: String,
    /// User name from the startup message.
    pub user: String,
    /// `application_name` from the startup message (may be empty).
    pub application_name: String,
    /// Session-level SET variables seen since connection start.
    ///
    /// These are forwarded to the backend but also tracked here so that when
    /// a backend connection is returned to the pool and later reassigned, we
    /// can replay the SET commands.
    pub set_vars: NameTable<String>,
    /// Shard key supplied by the client via `SET pgcluster.shard_key = '...'`.
    ///
    /// Reserved for coordinator mode; `None` in regular proxy mode.
    pub shard_key: Option<String>,
    /// The node ID of the backend this session is currently pinned to.
    /// `None` while in `Idle` state (no active backend).
    pub pinned_backend: Option<String>,
}

impl Default for SessionState {
    fn default() -> (r: Self)
        ensures
            r.txn_state == TxnState::Idle,
            !r.is_read_only,
            r.database@.len() == 0,
            r.user@.len() == 0,
            r.application_name@.len() == 0,
            r.set_vars@ == Map::<Seq<char>, Seq<char>>::empty(),
            r.shard_key is None,
            r.pinned_backend is None,
    {
        SessionState {
            txn_state: TxnState::Idle,
            is_read_only: false,
            database: String::new(),
            user: String::new(),
            application_name: String::new(),
            set_vars: NameTable::new(),
            shard_key: None,
            pinned_backend: None,
        }
    }
}

/// Where to send the next statement.
#[derive(Debug, Clone, Copy, PartialEq, Eq, Structural)]
pub enum RouteTarget {
    /// Must go to the current primary.
    Primary,
    /// Can go to a replica; fall back to primary if no replica available.
    ReplicaOrPrimary,
}

/// The transaction state that a status byte stands for. An unknown byte is
/// treated as idle.
pub open spec fn txn_state_of(status_byte: u8) -> TxnState {
    if status_byte == STATUS_IN_TRANSACTION {
        TxnState::InTransaction
    } else if status_byte == STATUS_FAILED {
        TxnState::Failed
    } else {
        TxnState::Idle
    }
}

/// The session after a `ReadyForQuery` with the given status byte. When the
/// session returns to idle the backend pin is released.
pub open spec fn session_after(s: SessionState, status_byte: u8) -> SessionState {
    SessionState {
        txn_state: txn_state_of(status_byte),
        is_read_only: if status_byte == STATUS_IDLE {
            false
        } else {
            s.is_read_only
        },
        pinned_backend: if txn_state_of(status_byte) == TxnState::Idle {
            None
        } else {
            s.pinned_backend
        },
        ..s
    }
}

/// Whether the session state binds the next statement to the primary.
pub open spec fn bound_to_primary(s: SessionState) -> bool {
    match s.txn_state {
        TxnState::Idle => false,
        TxnState::InTransaction => !s.is_read_only,
        TxnState::Failed => true,
    }
}

/// Where a statement with the given intent goes.
pub open spec fn target_of(s: SessionState, intent: StatementIntent) -> RouteTarget {
    if intent == StatementIntent::Read && !bound_to_primary(s) {
        RouteTarget::ReplicaOrPrimary
    } else {
        RouteTarget::Primary
    }
}

/// The session after a statement with the given intent was routed.
pub open spec fn routed(s: SessionState, intent: StatementIntent) -> SessionState {
    if intent == StatementIntent::Write {
        SessionState { is_read_only: false, ..s }
    } else {
        s
    }
}

impl SessionState {
    /// Update transaction state from the status byte in a `ReadyForQuery` ('Z') message.
    ///
    /// `b'I'` → `Idle`, `b'T'` → `InTransaction`, `b'E'` → `Failed`.
    ///
    /// When the session returns to Idle the backend pin is released.
    pub fn update_from_ready_for_query(&mut self, status_byte: u8)
        ensures
            *final(self) == session_after(*old(self), status_byte),
    {
        if status_byte == STATUS_IDLE {
            self.txn_state = TxnState::Idle;
            self.is_read_only = false;
            self.pinned_backend = None;
        } else if status_byte == STATUS_IN_TRANSACTION {
            self.txn_state = TxnState::InTransaction;
        } else if status_byte == STATUS_FAILED {
            self.txn_state = TxnState::Failed;
        } else {
            self.txn_state = TxnState::Idle;
            self.pinned_backend = None;
        }
    }

    /// Returns `true` if the next statement must be sent to the primary.
    ///
    /// This is the case when:
    /// - We are inside a write transaction (not read-only).
    /// - We are in a failed transaction block (must ROLLBACK on primary).
    ///
    /// Note: this does not take the *current* statement intent into account —
    /// that is handled by the router. This method only reflects sticky-routing
    /// requirements from the session state.
    pub fn needs_primary(&self) -> (r: bool)
        ensures
            r == bound_to_primary(*self),
    {
        match self.txn_state {
            TxnState::Idle => false,
            TxnState::InTransaction => !self.is_read_only,
            TxnState::Failed => true,
        }
    }

    /// Determine whether a statement with the given intent should go to the
    /// primary, updating session state as appropriate.
    pub fn route_intent(&mut self, intent: &StatementIntent) -> (r: RouteTarget)
        ensures
            r == target_of(*old(self), *intent),
            *final(self) == routed(*old(self), *intent),
    {
        match intent {
            StatementIntent::Write => {
                // Write statements always go to the primary.
                self.is_read_only = false;
                RouteTarget::Primary
            },
            StatementIntent::SetLocal => {
                // SET commands are session-affine; route to primary to be safe.
                RouteTarget::Primary
            },
            StatementIntent::Read => {
                if self.needs_primary() {
                    // Inside a write transaction: stay on primary.
                    RouteTarget::Primary
                } else {
                    RouteTarget::ReplicaOrPrimary
                }
            },
        }
    }
}

// ── Laws ─────────────────────────────────────────────────────────────────────

/// Writes and SETs always go to the primary, and so does every statement in a
/// failed transaction or in one that is not read-only.
pub proof fn lemma_primary_routing(s: SessionState, intent: StatementIntent)
    requires
        intent != StatementIntent::Read || s.txn_state == TxnState::Failed || (s.txn_state
            == TxnState::InTransaction && !s.is_read_only),
    ensures
        target_of(s, intent) == RouteTarget::Primary,
{
}

/// Between transactions every read may go to a replica.
pub proof fn lemma_idle_reads_are_free(s: SessionState)
    requires
        s.txn_state == TxnState::Idle,
    ensures
        target_of(s, StatementIntent::Read) == RouteTarget::ReplicaOrPrimary,
{
}

/// An idle session is pinned to no backend, whatever it was before.
pub proof fn lemma_idle_releases_pin(s: SessionState, status_byte: u8)
    ensures
        session_after(s, status_byte).txn_state == TxnState::Idle ==> session_after(
            s,
            status_byte,
        ).pinned_backend is None,
{
}

} // verus!
