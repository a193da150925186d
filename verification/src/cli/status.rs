//! `pgcluster status`

use crate::numerals::{decimal, decimal_string};
use vstd::prelude::*;

verus! {

/// Arguments of `pgcluster status`.
#[derive(Debug)]
pub struct StatusArgs {
    /// pgcluster API address
    pub api: String,
    /// Output as JSON
    pub json: bool,
}

/// What the API said of the cluster. What it did not say, or not in the
/// expected form, is missing.
#[derive(Debug)]
pub struct StatusFields {
    pub primary_node_id: Option<String>,
    pub topology_version: Option<u64>,
    pub raft_leader_id: Option<u64>,
    pub node_count: Option<u64>,
}

/// A text that may be missing, or a default.
pub open spec fn text_or(s: Option<String>, default: Seq<char>) -> Seq<char> {
    match s {
        Some(t) => t@,
        None => default,
    }
}

/// A number that may be missing, or a default.
pub open spec fn count_or(n: Option<u64>, default: u64) -> u64 {
    match n {
        Some(k) => k,
        None => default,
    }
}

/// A text that may be missing, or a default.
pub fn or_text(s: &Option<String>, default: &str) -> (r: String)
    ensures
        r@ == text_or(*s, default@),
{
    match s {
        Some(t) => t.clone(),
        None => default.to_owned(),
    }
}

/// A number that may be missing, or a default, in decimal.
pub fn or_count(n: Option<u64>, default: u64) -> (r: String)
    ensures
        r@ == decimal(count_or(n, default) as int),
{
    match n {
        Some(k) => decimal_string(k),
        None => decimal_string(default),
    }
}

/// What is shown of the cluster.
pub fn status_pairs(status: &StatusFields) -> (r: Vec<(&'static str, String)>)
    ensures
        r@.len() == 4,
        r@[0].0@ == "primary"@,
        r@[0].1@ == text_or(status.primary_node_id, ""@),
        r@[1].0@ == "topology_version"@,
        r@[1].1@ == decimal(count_or(status.topology_version, 0) as int),
        r@[2].0@ == "raft_leader"@,
        r@[2].1@ == (match status.raft_leader_id {
            Some(id) => decimal(id as int),
            None => "none"@,
        }),
        r@[3].0@ == "node_count"@,
        r@[3].1@ == decimal(count_or(status.node_count, 0) as int),
{
    let leader = match status.raft_leader_id {
        Some(id) => decimal_string(id),
        None => "none".to_owned(),
    };
    let mut pairs: Vec<(&'static str, String)> = Vec::new();
    pairs.push(("primary", or_text(&status.primary_node_id, "")));
    pairs.push(("topology_version", or_count(status.topology_version, 0)));
    pairs.push(("raft_leader", leader));
    pairs.push(("node_count", or_count(status.node_count, 0)));
    pairs
}

} // verus!
