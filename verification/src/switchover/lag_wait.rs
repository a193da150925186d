//! Waiting for a replica to catch up.

use crate::raft::topology::{number_or, ClusterTopology, TopologyView};
use crate::raft::watch::shows;
use crate::raft::TopologyWatch;
use vstd::prelude::*;
use vstd::string::StringExecFns;

verus! {

/// How often the topology is read while waiting.
pub const POLL_INTERVAL_MS: u64 = 200;

/// What a look at the topology gives.
#[derive(Debug, Clone, Copy, PartialEq, Eq, Structural)]
pub enum SyncStep {
    /// The replica is at most the given number of bytes behind.
    Synced(u64),
    /// The replica is this many bytes behind: wait, and look again.
    Waiting(u64),
    /// The time is over.
    TimedOut,
}

/// What a look at the topology gives after `elapsed_ms` of `timeout_ms`.
pub open spec fn sync_step(
    t: TopologyView,
    target: Seq<char>,
    max_lag_bytes: u64,
    elapsed_ms: u64,
    timeout_ms: int,
) -> SyncStep {
    let lag = t.flush_lag(target);
    if elapsed_ms >= timeout_ms {
        SyncStep::TimedOut
    } else if lag <= max_lag_bytes {
        SyncStep::Synced(lag as u64)
    } else {
        SyncStep::Waiting(lag as u64)
    }
}

/// Whether `target_node_id` is within `max_lag_bytes` of the primary's flush
/// LSN, on the given topology.
pub fn sync_step_in(
    topology: &ClusterTopology,
    target_node_id: &str,
    max_lag_bytes: u64,
    elapsed_ms: u64,
    timeout_ms: u128,
) -> (r: SyncStep)
    ensures
        r == sync_step(topology@, target_node_id@, max_lag_bytes, elapsed_ms, timeout_ms as int),
{
    if elapsed_ms as u128 >= timeout_ms {
        return SyncStep::TimedOut;
    }
    let primary_lsn = number_or(&topology.last_flush_lsns, topology.primary_node_id.as_str(), 0);
    let replica_lsn = number_or(&topology.last_flush_lsns, target_node_id, 0);
    let lag = primary_lsn.saturating_sub(replica_lsn);
    if lag <= max_lag_bytes {
        SyncStep::Synced(lag)
    } else {
        SyncStep::Waiting(lag)
    }
}

/// One look while waiting until `target_node_id` is within `max_lag_bytes` of
/// the primary's flush LSN, or until the timeout elapses. The caller looks
/// again every 200 ms.
pub fn wait_for_replica_sync(
    topology_rx: &TopologyWatch,
    target_node_id: &str,
    max_lag_bytes: u64,
    elapsed_ms: u64,
    timeout_ms: u128,
) -> (r: SyncStep)
    ensures
        exists|t: TopologyView| #[trigger]
            shows(topology_rx.receiver(), t) && r == sync_step(
                t,
                target_node_id@,
                max_lag_bytes,
                elapsed_ms,
                timeout_ms as int,
            ),
{
    let topology = topology_rx.current();
    sync_step_in(&topology, target_node_id, max_lag_bytes, elapsed_ms, timeout_ms)
}

/// The text of the error when the time is over.
pub fn timeout_message(target_node_id: &str, timeout: &str) -> (r: String)
    ensures
        r@ == "replica "@ + target_node_id@ + " did not sync within "@ + timeout@,
{
    "replica ".to_owned().concat(target_node_id).concat(" did not sync within ").concat(timeout)
}

} // verus!
