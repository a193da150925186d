//! Who replaces a failed primary.

use crate::raft::topology::ClusterTopology;
use vstd::prelude::*;

verus! {

/// Pick the best failover candidate from the current topology.
///
/// Returns the node ID of the healthy replica with the highest flush LSN
/// (breaking ties by node priority), or `None` if no eligible replica exists.
pub fn pick_candidate(topology: &ClusterTopology, failed_node_id: &str) -> (r: Option<String>)
    ensures
        r is None <==> forall|c: Seq<char>|
            !#[trigger] topology@.is_candidate(failed_node_id@, c),
        r matches Some(id) ==> topology@.is_best_candidate(failed_node_id@, id@),
{
    topology.best_failover_candidate(failed_node_id)
}

} // verus!
