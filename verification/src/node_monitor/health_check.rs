//! The result of one health check.

use vstd::prelude::*;

verus! {

// ── HealthCheckResult ────────────────────────────────────────────────────────

/// The normalised result of a single health-check poll against one vk-agent.
#[derive(Debug)]
pub struct HealthCheckResult {
    pub node_id: String,
    /// Whether the agent responded at all.
    pub reachable: bool,
    /// `true` when Postgres is in recovery (i.e. acting as a standby).
    pub in_recovery: bool,
    /// Bytes flushed to WAL on a primary (`sent_lsn`), or bytes received on a
    /// standby (`received_lsn`).  We store the best available LSN here.
    pub flush_lsn: u64,
    /// Bytes replayed on a standby (`replayed_lsn`).
    pub replay_lsn: u64,
    pub timeline: u32,
    pub pg_running: bool,
    /// How the WAL receiver of a standby reaches its primary.
    pub replication_conninfo: String,
}

/// What an agent reports of its node.
#[derive(Debug)]
pub struct AgentStatus {
    pub is_in_recovery: bool,
    pub sent_lsn: u64,
    pub received_lsn: u64,
    pub replayed_lsn: u64,
    pub timeline: u32,
    pub postgres_running: bool,
    pub replication_conninfo: String,
}

/// Whether `r` is the result for a node whose agent did not answer.
pub open spec fn is_unreachable_result(node_id: Seq<char>, r: HealthCheckResult) -> bool {
    &&& r.node_id@ == node_id
    &&& !r.reachable
    &&& !r.in_recovery
    &&& r.flush_lsn == 0
    &&& r.replay_lsn == 0
    &&& r.timeline == 0
    &&& !r.pg_running
    &&& r.replication_conninfo@.len() == 0
}

/// Whether `r` is the result for a node whose agent answered. The flush
/// position of a standby is what it has received, that of a primary what it
/// has sent.
pub open spec fn is_reachable_result(
    node_id: Seq<char>,
    status: AgentStatus,
    r: HealthCheckResult,
) -> bool {
    &&& r.node_id@ == node_id
    &&& r.reachable
    &&& r.in_recovery == status.is_in_recovery
    &&& r.flush_lsn == if status.is_in_recovery {
        status.received_lsn
    } else {
        status.sent_lsn
    }
    &&& r.replay_lsn == status.replayed_lsn
    &&& r.timeline == status.timeline
    &&& r.pg_running == status.postgres_running
    &&& r.replication_conninfo@ == status.replication_conninfo@
}

/// The result for a node whose agent did not answer.
pub fn unreachable_result(node_id: &str) -> (r: HealthCheckResult)
    ensures
        is_unreachable_result(node_id@, r),
{
    HealthCheckResult {
        node_id: node_id.to_owned(),
        reachable: false,
        in_recovery: false,
        flush_lsn: 0,
        replay_lsn: 0,
        timeline: 0,
        pg_running: false,
        replication_conninfo: String::new(),
    }
}

/// The normalised result of a poll: what the agent answered, or `None` if it
/// could not be connected to or the request failed. Failures are represented
/// as `reachable: false` so the caller's failure tracker can account for them.
pub fn check_node(node_id: &str, answer: Option<AgentStatus>) -> (r: HealthCheckResult)
    ensures
        match answer {
            Some(status) => is_reachable_result(node_id@, status, r),
            None => is_unreachable_result(node_id@, r),
        },
{
    match answer {
        Some(status) => {
            let flush_lsn = if status.is_in_recovery {
                status.received_lsn
            } else {
                status.sent_lsn
            };
            HealthCheckResult {
                node_id: node_id.to_owned(),
                reachable: true,
                in_recovery: status.is_in_recovery,
                flush_lsn,
                replay_lsn: status.replayed_lsn,
                timeline: status.timeline,
                pg_running: status.postgres_running,
                replication_conninfo: status.replication_conninfo,
            }
        },
        None => unreachable_result(node_id),
    }
}

} // verus!
