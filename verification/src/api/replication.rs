//! The replication slots.

use crate::raft::topology::ClusterTopology;
use crate::table::distinct_names;
use vstd::prelude::*;

verus! {

/// The replication slot of a node.
#[derive(Debug)]
pub struct SlotInfo {
    pub node_id: String,
    pub slot_name: String,
}

/// The replication slots of all nodes that have one.
pub fn list_slots(t: &ClusterTopology) -> (r: Vec<SlotInfo>)
    ensures
        distinct_names(t.replica_slots.pairs()),
        r@.len() == t.replica_slots.pairs().len(),
        forall|i: int|
            0 <= i < r@.len() ==> ((#[trigger] r@[i]).node_id@, r@[i].slot_name@)
                == t.replica_slots.pairs()[i],
{
    let mut slots: Vec<SlotInfo> = Vec::new();
    let n = t.replica_slots.len();
    for i in 0..n
        invariant
            n == t.replica_slots.pairs().len(),
            slots@.len() == i,
            forall|j: int|
                0 <= j < i ==> ((#[trigger] slots@[j]).node_id@, slots@[j].slot_name@)
                    == t.replica_slots.pairs()[j],
    {
        slots.push(
            SlotInfo {
                node_id: t.replica_slots.name_at(i).clone(),
                slot_name: t.replica_slots.value_at(i).clone(),
            },
        );
    }
    slots
}

} // verus!
