//! The health and the status of the cluster.

use super::{OK, SERVICE_UNAVAILABLE};
use crate::raft::topology::{ClusterTopology, TopologyView};
use vstd::prelude::*;

pub use crate::calendar::unix_to_rfc3339;

verus! {

/// The answer to a health check.
#[derive(Debug)]
pub struct HealthResponse {
    pub status: &'static str,
    pub primary: Option<String>,
    pub raft_leader: bool,
}

/// Whether a health check of a node that sees the topology `t` and this leader is
/// answered with this status and this reply.
pub open spec fn is_health(
    t: TopologyView,
    leader: Option<u64>,
    my_id: u64,
    status: u16,
    r: HealthResponse,
) -> bool {
    &&& r.raft_leader == (leader == Some(my_id))
    &&& if t.primary_node_id.len() == 0 {
        status == SERVICE_UNAVAILABLE && r.status@ == "no_primary"@ && r.primary is None
    } else {
        status == OK && r.status@ == "ok"@ && (r.primary matches Some(id) && id@
            == t.primary_node_id)
    }
}

/// Whether this node leads the Raft cluster, and which node is primary. The
/// cluster is healthy exactly when some node is.
pub fn health(topology: &ClusterTopology, leader: Option<u64>, my_id: u64) -> (r: (
    u16,
    HealthResponse,
))
    ensures
        r.1.raft_leader == (leader == Some(my_id)),
        topology@.primary_node_id.len() == 0 ==> {
            &&& r.0 == SERVICE_UNAVAILABLE
            &&& r.1.status@ == "no_primary"@
            &&& r.1.primary is None
        },
        topology@.primary_node_id.len() > 0 ==> {
            &&& r.0 == OK
            &&& r.1.status@ == "ok"@
            &&& r.1.primary matches Some(id) && id@ == topology@.primary_node_id
        },
        is_health(topology@, leader, my_id, r.0, r.1),
{
    let raft_leader = match leader {
        Some(id) => id == my_id,
        None => false,
    };
    if topology.primary_node_id.as_str().is_empty() {
        (SERVICE_UNAVAILABLE, HealthResponse { status: "no_primary", primary: None, raft_leader })
    } else {
        let primary = Some(topology.primary_node_id.clone());
        (OK, HealthResponse { status: "ok", primary, raft_leader })
    }
}

/// The cluster at a glance.
#[derive(Debug)]
pub struct ClusterStatusResponse {
    pub cluster_name: String,
    pub primary_node_id: String,
    pub topology_version: u64,
    pub raft_leader_id: Option<u64>,
    pub node_count: usize,
    pub failover_history_count: usize,
}

/// The cluster at a glance.
pub fn cluster_status(cluster_name: &str, topology: &ClusterTopology, leader: Option<u64>) -> (r:
    ClusterStatusResponse)
    ensures
        r.cluster_name@ == cluster_name@,
        r.primary_node_id@ == topology@.primary_node_id,
        r.topology_version == topology@.version,
        r.raft_leader_id == leader,
        r.node_count == topology@.node_configs.dom().len(),
        r.failover_history_count == topology@.failover_history.len(),
{
    ClusterStatusResponse {
        cluster_name: cluster_name.to_owned(),
        primary_node_id: topology.primary_node_id.clone(),
        topology_version: topology.version,
        raft_leader_id: leader,
        node_count: topology.node_configs.len(),
        failover_history_count: topology.failover_history.len(),
    }
}

} // verus!
