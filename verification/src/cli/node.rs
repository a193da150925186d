//! `pgcluster node`

use super::status::{count_or, or_count, or_text, text_or};
use crate::numerals::decimal;
use vstd::prelude::*;

verus! {

/// Arguments of `pgcluster node`.
#[derive(Debug)]
pub struct NodeArgs {
    pub command: NodeCommands,
}

/// What to do with the nodes.
#[derive(Debug)]
#[allow(inconsistent_fields)]
pub enum NodeCommands {
    /// List all nodes
    List { api: String, json: bool },
    /// Get details for a specific node
    Get { node_id: String, api: String, json: bool },
    /// Add a new node to the cluster
    Add {
        node_id: String,
        agent_addr: String,
        postgres_addr: String,
        priority: u32,
        api: String,
    },
    /// Remove a node from the cluster
    Remove { node_id: String, api: String },
}

/// What the API said of a node. What it did not say, or not in the expected
/// form, is missing.
#[derive(Debug)]
pub struct NodeFields {
    pub node_id: Option<String>,
    pub role: Option<String>,
    pub postgres_addr: Option<String>,
    pub agent_addr: Option<String>,
    pub lag_bytes: Option<u64>,
}

/// The headers of the table of nodes.
pub fn node_headers() -> (r: Vec<&'static str>)
    ensures
        r@.len() == 4,
        r@[0]@ == "NODE_ID"@,
        r@[1]@ == "ROLE"@,
        r@[2]@ == "POSTGRES_ADDR"@,
        r@[3]@ == "LAG_BYTES"@,
{
    let mut headers: Vec<&'static str> = Vec::new();
    headers.push("NODE_ID");
    headers.push("ROLE");
    headers.push("POSTGRES_ADDR");
    headers.push("LAG_BYTES");
    headers
}

/// Whether a row of the table is that of the given node.
pub open spec fn is_node_row(row: Seq<String>, node: NodeFields) -> bool {
    &&& row.len() == 4
    &&& row[0]@ == text_or(node.node_id, ""@)
    &&& row[1]@ == text_or(node.role, ""@)
    &&& row[2]@ == text_or(node.postgres_addr, ""@)
    &&& row[3]@ == decimal(count_or(node.lag_bytes, 0) as int)
}

/// The table of the given nodes, in their order.
pub fn node_rows(nodes: &Vec<NodeFields>) -> (r: Vec<Vec<String>>)
    ensures
        r@.len() == nodes@.len(),
        forall|i: int| 0 <= i < r@.len() ==> is_node_row((#[trigger] r@[i])@, nodes@[i]),
{
    let mut rows: Vec<Vec<String>> = Vec::new();
    for i in 0..nodes.len()
        invariant
            rows@.len() == i,
            forall|j: int| 0 <= j < i ==> is_node_row((#[trigger] rows@[j])@, nodes@[j]),
    {
        let node = &nodes[i];
        let mut row: Vec<String> = Vec::new();
        row.push(or_text(&node.node_id, ""));
        row.push(or_text(&node.role, ""));
        row.push(or_text(&node.postgres_addr, ""));
        row.push(or_count(node.lag_bytes, 0));
        rows.push(row);
    }
    rows
}

/// What is shown of one node.
pub fn node_pairs(node: &NodeFields) -> (r: Vec<(&'static str, String)>)
    ensures
        r@.len() == 4,
        r@[0].0@ == "node_id"@,
        r@[0].1@ == text_or(node.node_id, ""@),
        r@[1].0@ == "role"@,
        r@[1].1@ == text_or(node.role, ""@),
        r@[2].0@ == "postgres_addr"@,
        r@[2].1@ == text_or(node.postgres_addr, ""@),
        r@[3].0@ == "agent_addr"@,
        r@[3].1@ == text_or(node.agent_addr, ""@),
{
    let mut pairs: Vec<(&'static str, String)> = Vec::new();
    pairs.push(("node_id", or_text(&node.node_id, "")));
    pairs.push(("role", or_text(&node.role, "")));
    pairs.push(("postgres_addr", or_text(&node.postgres_addr, "")));
    pairs.push(("agent_addr", or_text(&node.agent_addr, "")));
    pairs
}

/// A node is shown under its name, with its role, its address and its lag; what
/// the answer leaves out is shown as nothing, and a lag as none.
pub proof fn lemma_node_row(row: Seq<String>, node: NodeFields)
    requires
        is_node_row(row, node),
    ensures
        row.len() == 4,
        match node.node_id {
            Some(id) => row[0]@ == id@,
            None => row[0]@ == ""@,
        },
        match node.role {
            Some(role) => row[1]@ == role@,
            None => row[1]@ == ""@,
        },
        match node.postgres_addr {
            Some(addr) => row[2]@ == addr@,
            None => row[2]@ == ""@,
        },
        match node.lag_bytes {
            Some(lag) => row[3]@ == decimal(lag as int),
            None => row[3]@ == decimal(0),
        },
{
}

} // verus!
