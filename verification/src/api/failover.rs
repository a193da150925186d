//! Failovers that an operator asks for, and the history of all failovers.

use super::{ACCEPTED, CONFLICT, NOT_FOUND};
use crate::calendar::{rfc3339_text, unix_to_rfc3339};
use crate::ops::{occupied, OpSlot};
use crate::raft::commands::{CommandView, TopologyCommand};
use crate::raft::topology::{ClusterTopology, FailoverEventView, TopologyView};
use crate::table::views;
use vstd::prelude::*;
use vstd::string::StringExecFns;

verus! {

/// A request to fail over away from a node.
#[derive(Debug)]
pub struct FailoverRequest {
    pub failed_node_id: String,
}

/// Whether a failover has begun.
#[derive(Debug)]
pub struct FailoverResponse {
    pub triggered: bool,
    pub message: String,
}

/// What is answered to a request for a failover.
pub open spec fn failover_answer(busy: bool, topology: TopologyView, failed: Seq<char>) -> (
    u16,
    bool,
    Seq<char>,
) {
    if busy {
        (
            CONFLICT,
            false,
            "a switchover or failover is already in progress — retry after it completes"@,
        )
    } else if !topology.node_configs.dom().contains(failed) {
        (NOT_FOUND, false, "node "@ + failed + " not found"@)
    } else {
        (ACCEPTED, true, "failover initiated for "@ + failed)
    }
}

/// Decides on a request for a failover. Only one failover or switchover runs
/// at a time: where the request is accepted, the slot is taken, and it is given
/// back when the failover ends.
pub fn trigger_failover(
    slot: &mut OpSlot,
    topology: &ClusterTopology,
    req: &FailoverRequest,
) -> (r: (u16, FailoverResponse))
    ensures
        (r.0, r.1.triggered, r.1.message@) == failover_answer(
            old(slot)@,
            topology@,
            req.failed_node_id@,
        ),
        final(slot)@ == (old(slot)@ || r.1.triggered),
        final(slot)@ == occupied(old(slot)@, r.1.triggered),
{
    if !slot.try_acquire() {
        let message =
            "a switchover or failover is already in progress — retry after it completes".to_owned();
        return (CONFLICT, FailoverResponse { triggered: false, message });
    }
    if !topology.node_configs.contains_key(req.failed_node_id.as_str()) {
        slot.release();
        let message = "node ".to_owned().concat(req.failed_node_id.as_str()).concat(" not found");
        return (NOT_FOUND, FailoverResponse { triggered: false, message });
    }
    let message = "failover initiated for ".to_owned().concat(req.failed_node_id.as_str());
    (ACCEPTED, FailoverResponse { triggered: true, message })
}

/// The command that an accepted failover begins with. If it cannot be written,
/// the failover does not go on.
pub fn offline_command(req: &FailoverRequest) -> (r: TopologyCommand)
    ensures
        r@ == (CommandView::MarkOffline { node_id: req.failed_node_id@ }),
{
    TopologyCommand::MarkOffline { node_id: req.failed_node_id.clone() }
}

/// What follows once the failed node was marked offline, or could not be.
#[derive(Debug, Clone, Copy, PartialEq, Eq, Structural)]
pub enum ManualStep {
    /// Promote another node.
    FailOver,
    /// Stop: the leadership may be lost.
    GiveUp,
}

/// The offline command was written, or could not be. Only a written one lets
/// the failover go on.
pub fn on_offline(written: bool) -> (r: ManualStep)
    ensures
        r == if written {
            ManualStep::FailOver
        } else {
            ManualStep::GiveUp
        },
{
    if written {
        ManualStep::FailOver
    } else {
        ManualStep::GiveUp
    }
}

/// A failover as the API shows it.
#[derive(Debug)]
pub struct HistoryEntry {
    pub old_primary: String,
    pub new_primary: String,
    /// Date and time in UTC.
    pub triggered_at: String,
    pub duration_ms: u64,
    pub reason: String,
}

impl HistoryEntry {
    /// Whether this shows the given event.
    pub open spec fn shows(&self, e: FailoverEventView) -> bool {
        &&& self.old_primary@ == e.old_primary
        &&& self.new_primary@ == e.new_primary
        &&& self.triggered_at@ == rfc3339_text(if e.triggered_at < 0 {
            0
        } else {
            e.triggered_at as int
        })
        &&& self.duration_ms == e.duration_ms
        &&& self.reason@ == e.reason
    }
}

/// The failover history, oldest first, with timestamps as RFC 3339 text.
pub fn failover_history(topology: &ClusterTopology) -> (r: Vec<HistoryEntry>)
    ensures
        r@.len() == topology@.failover_history.len(),
        forall|i: int|
            0 <= i < r@.len() ==> (#[trigger] r@[i]).shows(topology@.failover_history[i]),
{
    let mut history: Vec<HistoryEntry> = Vec::new();
    for i in 0..topology.failover_history.len()
        invariant
            history@.len() == i,
            topology@.failover_history == views(topology.failover_history@),
            forall|j: int|
                0 <= j < i ==> (#[trigger] history@[j]).shows(topology@.failover_history[j]),
    {
        let e = &topology.failover_history[i];
        history.push(
            HistoryEntry {
                old_primary: e.old_primary.clone(),
                new_primary: e.new_primary.clone(),
                triggered_at: unix_to_rfc3339(e.triggered_at),
                duration_ms: e.duration_ms,
                reason: e.reason.clone(),
            },
        );
    }
    history
}

// ── Laws ─────────────────────────────────────────────────────────────────────

/// While an operation is in progress, every request for a failover is refused.
pub proof fn lemma_one_operation_at_a_time(topology: TopologyView, failed: Seq<char>)
    ensures
        failover_answer(true, topology, failed).0 == CONFLICT,
        !failover_answer(true, topology, failed).1,
{
}

} // verus!
