//! The state of a pooled connection to a backend.

use crate::clock::{secs_between, secs_from, secs_since};
use std::time::Instant;
use vstd::prelude::*;
use vstd::string::StringExecFns;

verus! {

/// What reading from a connection without waiting gives.
#[derive(Debug, Clone, Copy, PartialEq, Eq, Structural)]
pub enum Probe {
    /// Somebody else is using the connection.
    Locked,
    /// The backend has closed the connection.
    Eof,
    /// There is nothing to read.
    WouldBlock,
    /// There is something to read, or an error.
    Other,
}

/// Returns `true` if the connection appears to be alive.
///
/// If the backend has closed the socket we will see EOF; if no data is
/// available, the connection is alive.
///
/// Returns `true` conservatively if the stream lock is held (in-use).
pub fn is_alive(probe: Probe) -> (r: bool)
    ensures
        r <==> probe == Probe::Locked || probe == Probe::WouldBlock,
        r == lives(probe),
{
    match probe {
        Probe::Locked => true,
        Probe::WouldBlock => true,
        Probe::Eof => false,
        Probe::Other => false,
    }
}

/// What is known of a connection to a backend node.
///
/// Authentication and the startup handshake are **not** performed here —
/// they are handled by the pool layer so that connections can be reused across
/// client sessions in transaction-mode pooling.
#[derive(Debug)]
pub struct BackendConnection {
    /// Logical node identifier (e.g. "pg1").
    pub node_id: String,
    /// Whether this connection is currently checked out by a client.
    pub in_use: bool,
    /// When the connection was first established.
    pub created_at: Instant,
    /// Time of the most recent activity (last read or write).
    pub last_used: Instant,
}

impl BackendConnection {
    /// A connection that was established just now.
    pub fn connected(node_id: &str) -> (r: Self)
        ensures
            r.node_id@ == node_id@,
            !r.in_use,
    {
        BackendConnection {
            node_id: node_id.to_owned(),
            in_use: false,
            created_at: Instant::now(),
            last_used: Instant::now(),
        }
    }

    /// Returns `true` if the connection has been idle longer than `timeout_secs`.
    pub fn is_idle_too_long(&self, timeout_secs: u64) -> (r: bool)
        ensures
            exists|now: Instant| r == (#[trigger] secs_between(self.last_used, now) > timeout_secs),
    {
        super::pool::is_idle_too_long(secs_since(&self.last_used), timeout_secs)
    }

    /// Whether the connection has been idle longer than `timeout_secs` at the
    /// time `now`.
    pub fn is_idle_too_long_at(&self, now: Instant, timeout_secs: u64) -> (r: bool)
        ensures
            r == (secs_between(self.last_used, now) > timeout_secs),
            r == is_stale(secs_between(self.last_used, now), timeout_secs),
    {
        super::pool::is_idle_too_long(secs_from(&self.last_used, &now), timeout_secs)
    }

    /// Mark this connection as in-use (checked out from the pool).
    pub fn mark_in_use(&mut self)
        ensures
            *final(self) == (BackendConnection { in_use: true, ..*old(self) }),
    {
        self.in_use = true;
    }

    /// Mark this connection as idle (returned to the pool).
    pub fn mark_idle(&mut self)
        ensures
            *final(self) == (BackendConnection { in_use: false, ..*old(self) }),
    {
        self.in_use = false;
    }

    /// Touch `last_used` to reset the idle timer. Nothing is known of the time.
    pub fn touch(&mut self)
        ensures
            *final(self) == (BackendConnection { last_used: final(self).last_used, ..*old(self) }),
    {
        self.touch_at(Instant::now());
    }

    /// Resets the idle timer at the time `now`.
    pub fn touch_at(&mut self, now: Instant)
        ensures
            *final(self) == (BackendConnection { last_used: now, ..*old(self) }),
    {
        self.last_used = now;
    }
}

/// What an error says of a connection that was not established.
pub fn connect_context(node_id: &str, addr: &str) -> (r: String)
    ensures
        r@ == "connect to backend "@ + node_id@ + " at "@ + addr@,
{
    "connect to backend ".to_owned().concat(node_id).concat(" at ").concat(addr)
}

/// Whether a connection that was probed can still be used.
pub open spec fn lives(probe: Probe) -> bool {
    match probe {
        Probe::Locked => true,
        Probe::WouldBlock => true,
        _ => false,
    }
}

/// Whether a connection that was idle for so long is given up.
pub open spec fn is_stale(idle_secs: u64, timeout_secs: u64) -> bool {
    idle_secs > timeout_secs
}

/// A connection that the backend closed, or that has something to say that
/// nobody asked for, is not used again.
pub proof fn lemma_which_connections_live()
    ensures
        lives(Probe::Locked),
        lives(Probe::WouldBlock),
        !lives(Probe::Eof),
        !lives(Probe::Other),
{
}

/// A connection is given up only after its time, and then for good.
pub proof fn lemma_idle_timeout(idle_secs: u64, later: u64, timeout_secs: u64)
    ensures
        idle_secs <= timeout_secs ==> !is_stale(idle_secs, timeout_secs),
        timeout_secs < later ==> is_stale(later, timeout_secs),
{
}

} // verus!
