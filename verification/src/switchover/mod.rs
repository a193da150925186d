//! Planned (operator-initiated) switchover.

pub mod handoff;
pub mod lag_wait;
pub mod laws;

use crate::raft::ClusterTopology;
use handoff::{is_handoff, plan_switchover, HandoffError, HandoffPlan};
use lag_wait::{sync_step, sync_step_in, SyncStep};
use vstd::prelude::*;

verus! {

/// Parameters for a planned switchover.
#[derive(Debug)]
pub struct SwitchoverParams {
    pub new_primary_id: String,
    pub max_lag_bytes: u64,
    pub sync_timeout_secs: u64,
    pub replication_user: String,
    pub replication_password: String,
    /// How long to wait for in-flight transactions to complete after clients
    /// are being sent away; `None` when no local proxy is running on this node.
    pub drain_timeout_ms: Option<u64>,
    /// Replication slot name prefix from config (e.g. `"pgcluster_"`).
    pub slot_prefix: String,
}

/// How long clients are sent away before a hand-off.
pub const DEFAULT_DRAIN_TIMEOUT_MS: u64 = 3000;

/// What a planned switchover does next.
#[derive(Debug)]
pub enum SwitchoverStep {
    /// Wait for the target to catch up; it is this many bytes behind.
    Wait(u64),
    /// The target did not catch up in time.
    TimedOut,
    /// The hand-off cannot be planned.
    Refuse(HandoffError),
    /// Hand off.
    HandOff(HandoffPlan),
}

/// Whether `r` is the right step on a topology after `elapsed_ms`.
pub open spec fn is_switchover_step(
    t: ClusterTopology,
    p: SwitchoverParams,
    elapsed_ms: u64,
    r: SwitchoverStep,
) -> bool {
    match sync_step(
        t@,
        p.new_primary_id@,
        p.max_lag_bytes,
        elapsed_ms,
        p.sync_timeout_secs * 1000,
    ) {
        SyncStep::TimedOut => r is TimedOut,
        SyncStep::Waiting(lag) => r == SwitchoverStep::Wait(lag),
        SyncStep::Synced(_) => if !t@.node_configs.contains_key(t@.primary_node_id) {
            r matches SwitchoverStep::Refuse(HandoffError::OldPrimaryMissing(id)) && id@
                == t@.primary_node_id
        } else if !t@.node_configs.contains_key(p.new_primary_id@) {
            r matches SwitchoverStep::Refuse(HandoffError::NewPrimaryMissing(id)) && id@
                == p.new_primary_id@
        } else {
            r matches SwitchoverStep::HandOff(plan) && is_handoff(
                t@,
                p.new_primary_id@,
                p.replication_user@,
                p.replication_password@,
                p.drain_timeout_ms,
                p.slot_prefix@,
                plan,
            )
        },
    }
}

/// One look at the topology during a planned switchover: waits until
/// `new_primary_id` is within `max_lag_bytes` of the current primary, then
/// plans the hand-off on the same topology.
pub fn planned_switchover(topology: &ClusterTopology, p: &SwitchoverParams, elapsed_ms: u64) -> (r:
    SwitchoverStep)
    ensures
        is_switchover_step(*topology, *p, elapsed_ms, r),
{
    let timeout_ms: u128 = p.sync_timeout_secs as u128 * 1000;
    match sync_step_in(
        topology,
        p.new_primary_id.as_str(),
        p.max_lag_bytes,
        elapsed_ms,
        timeout_ms,
    ) {
        SyncStep::TimedOut => SwitchoverStep::TimedOut,
        SyncStep::Waiting(lag) => SwitchoverStep::Wait(lag),
        SyncStep::Synced(_) => match plan_switchover(
            topology,
            p.new_primary_id.as_str(),
            p.replication_user.as_str(),
            p.replication_password.as_str(),
            p.drain_timeout_ms,
            p.slot_prefix.as_str(),
        ) {
            Ok(plan) => SwitchoverStep::HandOff(plan),
            Err(e) => SwitchoverStep::Refuse(e),
        },
    }
}

/// A hand-off starts only when the new primary is close enough to the old one.
pub proof fn lemma_handoff_needs_sync(
    t: ClusterTopology,
    p: SwitchoverParams,
    elapsed_ms: u64,
    r: SwitchoverStep,
)
    requires
        is_switchover_step(t, p, elapsed_ms, r),
        r is HandOff,
    ensures
        t@.flush_lag(p.new_primary_id@) <= p.max_lag_bytes,
{
}

} // verus!
