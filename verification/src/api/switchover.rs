//! Switchovers that an operator asks for.

use super::{ACCEPTED, BAD_REQUEST, CONFLICT, NOT_FOUND};
use crate::ops::{occupied, OpSlot};
use crate::raft::topology::{ClusterTopology, NodeRole, TopologyView};
use crate::text::same_text;
use vstd::prelude::*;
use vstd::string::StringExecFns;

verus! {

/// A request to make a replica the primary.
#[derive(Debug)]
pub struct SwitchoverRequest {
    pub target_node_id: String,
    pub max_lag_bytes: u64,
    pub timeout_secs: u64,
}

/// The lag that a request allows where it does not say: 1 MiB.
pub const DEFAULT_MAX_LAG: u64 = 1048576;

/// How many seconds a request waits for the replica where it does not say.
pub const DEFAULT_TIMEOUT: u64 = 30;

impl SwitchoverRequest {
    /// A request, with the defaults where it does not say.
    pub fn new(target_node_id: String, max_lag_bytes: Option<u64>, timeout_secs: Option<u64>) -> (r:
        Self)
        ensures
            r.target_node_id@ == target_node_id@,
            r.max_lag_bytes == (match max_lag_bytes {
                Some(n) => n,
                None => DEFAULT_MAX_LAG,
            }),
            r.timeout_secs == (match timeout_secs {
                Some(n) => n,
                None => DEFAULT_TIMEOUT,
            }),
    {
        SwitchoverRequest {
            target_node_id,
            max_lag_bytes: match max_lag_bytes {
                Some(n) => n,
                None => DEFAULT_MAX_LAG,
            },
            timeout_secs: match timeout_secs {
                Some(n) => n,
                None => DEFAULT_TIMEOUT,
            },
        }
    }
}

/// Whether a switchover has begun.
#[derive(Debug)]
pub struct SwitchoverResponse {
    pub success: bool,
    pub message: String,
}

/// What is answered to a request for a switchover.
pub open spec fn switchover_answer(busy: bool, topology: TopologyView, target: Seq<char>) -> (
    u16,
    bool,
    Seq<char>,
) {
    if !topology.node_configs.dom().contains(target) {
        (NOT_FOUND, false, "node "@ + target + " not found"@)
    } else if topology.primary_node_id == target {
        (BAD_REQUEST, false, "target is already the primary"@)
    } else if !topology.node_roles.dom().contains(target) {
        (
            BAD_REQUEST,
            false,
            "target "@ + target + " has no role in topology — not ready for switchover"@,
        )
    } else if topology.node_roles[target] != NodeRole::Replica {
        (
            BAD_REQUEST,
            false,
            "target "@ + target + " is in role "@ + topology.node_roles[target].variant_name()
                + " — only Replica nodes can be promoted"@,
        )
    } else if busy {
        (CONFLICT, false, "a switchover or failover is already in progress"@)
    } else {
        (ACCEPTED, true, "switchover to "@ + target + " initiated"@)
    }
}

fn refused(status: u16, message: String) -> (r: (u16, SwitchoverResponse))
    ensures
        r.0 == status,
        !r.1.success,
        r.1.message@ == message@,
{
    (status, SwitchoverResponse { success: false, message })
}

/// Decides on a request for a switchover. The target must be a replica. Only
/// one failover or switchover runs at a time: where the request is accepted,
/// the slot is taken, and it is given back when the switchover ends.
pub fn trigger_switchover(
    slot: &mut OpSlot,
    topology: &ClusterTopology,
    req: &SwitchoverRequest,
) -> (r: (u16, SwitchoverResponse))
    ensures
        (r.0, r.1.success, r.1.message@) == switchover_answer(
            old(slot)@,
            topology@,
            req.target_node_id@,
        ),
        final(slot)@ == (old(slot)@ || r.1.success),
        final(slot)@ == occupied(old(slot)@, r.1.success),
{
    let target = req.target_node_id.as_str();
    if !topology.node_configs.contains_key(target) {
        return refused(NOT_FOUND, "node ".to_owned().concat(target).concat(" not found"));
    }
    if same_text(topology.primary_node_id.as_str(), target) {
        return refused(BAD_REQUEST, "target is already the primary".to_owned());
    }
    match topology.node_roles.get(target) {
        Some(NodeRole::Replica) => {},
        Some(role) => {
            return refused(
                BAD_REQUEST,
                "target ".to_owned().concat(target).concat(" is in role ").concat(
                    role.as_variant().as_str(),
                ).concat(" — only Replica nodes can be promoted"),
            );
        },
        None => {
            return refused(
                BAD_REQUEST,
                "target ".to_owned().concat(target).concat(
                    " has no role in topology — not ready for switchover",
                ),
            );
        },
    }
    if !slot.try_acquire() {
        return refused(CONFLICT, "a switchover or failover is already in progress".to_owned());
    }
    let message = "switchover to ".to_owned().concat(target).concat(" initiated");
    (ACCEPTED, SwitchoverResponse { success: true, message })
}

// ── Laws ─────────────────────────────────────────────────────────────────────

/// A switchover is accepted only onto a known replica that is not the primary,
/// and only while no other operation is in progress.
pub proof fn lemma_only_replicas_take_over(busy: bool, topology: TopologyView, target: Seq<char>)
    requires
        switchover_answer(busy, topology, target).1,
    ensures
        !busy,
        topology.node_configs.dom().contains(target),
        topology.primary_node_id != target,
        topology.node_roles.dom().contains(target),
        topology.node_roles[target] == NodeRole::Replica,
{
}

} // verus!
