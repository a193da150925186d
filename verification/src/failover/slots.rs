//! Names and limits of replication slots.

use vstd::prelude::*;
use vstd::string::StringExecFns;

verus! {

/// The replication slot of a node: the prefix and the node id.
pub fn slot_name(slot_prefix: &str, node_id: &str) -> (r: String)
    ensures
        r@ == slot_prefix@ + node_id@,
{
    slot_prefix.to_owned().concat(node_id)
}

/// The pattern that the names of all slots with a prefix match.
pub fn slot_pattern(slot_prefix: &str) -> (r: String)
    ensures
        r@ == slot_prefix@ + "%"@,
{
    slot_prefix.to_owned().concat("%")
}

/// The slots of the replicas, in their order.
pub fn slots_for_replicas(replica_node_ids: &Vec<String>, slot_prefix: &str) -> (r: Vec<String>)
    ensures
        r@.len() == replica_node_ids@.len(),
        forall|i: int|
            0 <= i < r@.len() ==> (#[trigger] r@[i])@ == slot_prefix@ + replica_node_ids@[i]@,
{
    let mut out: Vec<String> = Vec::new();
    for i in 0..replica_node_ids.len()
        invariant
            out@.len() == i,
            forall|j: int|
                0 <= j < i ==> (#[trigger] out@[j])@ == slot_prefix@ + replica_node_ids@[j]@,
    {
        out.push(slot_name(slot_prefix, replica_node_ids[i].as_str()));
    }
    out
}

/// The greatest lag as PostgreSQL takes it: a signed number.
pub fn lag_limit(max_lag_bytes: u64) -> (r: i64)
    ensures
        r == if max_lag_bytes <= i64::MAX {
            max_lag_bytes as int
        } else {
            i64::MAX as int
        },
        is_lag_limit(max_lag_bytes, r),
{
    if max_lag_bytes <= i64::MAX as u64 {
        max_lag_bytes as i64
    } else {
        i64::MAX
    }
}

/// Whether a slot may lag by `limit` bytes if the configuration allows
/// `max_lag_bytes`.
pub open spec fn is_lag_limit(max_lag_bytes: u64, limit: i64) -> bool {
    &&& 0 <= limit <= max_lag_bytes
    &&& limit < max_lag_bytes ==> limit == i64::MAX
}

/// A lag that a slot can have is within the limit exactly if the configuration
/// allows it.
pub proof fn lemma_lag_limit(max_lag_bytes: u64, limit: i64, lag: i64)
    requires
        is_lag_limit(max_lag_bytes, limit),
        0 <= lag,
    ensures
        lag <= limit <==> lag <= max_lag_bytes,
{
}

} // verus!
