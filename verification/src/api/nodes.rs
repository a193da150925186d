//! The nodes of the cluster.

use super::NOT_FOUND;
use crate::config::DEFAULT_PRIORITY;
use crate::raft::commands::{CommandView, TopologyCommand};
use crate::raft::topology::{number_or, value_or};
use crate::raft::topology::{ClusterTopology, NodeConfig, NodeConfigView, TopologyView};
use crate::table::{distinct_names, NameTable};
use vstd::prelude::*;

verus! {

/// A list of nodes.
#[derive(Debug)]
pub struct NodeListResponse {
    pub nodes: Vec<NodeInfo>,
}

/// What is known of a node.
#[derive(Debug)]
pub struct NodeInfo {
    pub node_id: String,
    pub role: String,
    pub postgres_addr: String,
    pub agent_addr: String,
    pub priority: u32,
    pub flush_lsn: u64,
    pub replay_lsn: u64,
    pub lag_bytes: u64,
}

/// What a [`NodeInfo`] stands for.
#[verifier::ext_equal]
pub struct NodeInfoView {
    pub node_id: Seq<char>,
    pub role: Seq<char>,
    pub postgres_addr: Seq<char>,
    pub agent_addr: Seq<char>,
    pub priority: u32,
    pub flush_lsn: u64,
    pub replay_lsn: u64,
    pub lag_bytes: u64,
}

impl View for NodeInfo {
    type V = NodeInfoView;

    open spec fn view(&self) -> NodeInfoView {
        NodeInfoView {
            node_id: self.node_id@,
            role: self.role@,
            postgres_addr: self.postgres_addr@,
            agent_addr: self.agent_addr@,
            priority: self.priority,
            flush_lsn: self.flush_lsn,
            replay_lsn: self.replay_lsn,
            lag_bytes: self.lag_bytes,
        }
    }
}

/// What the topology says of the node with the given configuration. A node
/// without a role gets `no_role`.
pub open spec fn node_info(t: TopologyView, cfg: NodeConfigView, no_role: Seq<char>) -> NodeInfoView {
    NodeInfoView {
        node_id: cfg.node_id,
        role: if t.node_roles.contains_key(cfg.node_id) {
            t.node_roles[cfg.node_id].name()
        } else {
            no_role
        },
        postgres_addr: cfg.postgres_addr,
        agent_addr: cfg.agent_addr,
        priority: cfg.priority,
        flush_lsn: value_or(t.last_flush_lsns, cfg.node_id, 0),
        replay_lsn: value_or(t.last_replay_lsns, cfg.node_id, 0),
        lag_bytes: value_or(t.replica_lag_bytes, cfg.node_id, 0),
    }
}

fn describe(t: &ClusterTopology, cfg: &NodeConfig, no_role: &str) -> (r: NodeInfo)
    ensures
        r@ == node_info(t@, cfg@, no_role@),
{
    let id = cfg.node_id.as_str();
    NodeInfo {
        node_id: cfg.node_id.clone(),
        role: match t.node_roles.get(id) {
            Some(role) => role.as_text(),
            None => no_role.to_owned(),
        },
        postgres_addr: cfg.postgres_addr.clone(),
        agent_addr: cfg.agent_addr.clone(),
        priority: cfg.priority,
        flush_lsn: number_or(&t.last_flush_lsns, id, 0),
        replay_lsn: number_or(&t.last_replay_lsns, id, 0),
        lag_bytes: number_or(&t.replica_lag_bytes, id, 0),
    }
}

/// All nodes that have a configuration, each once.
pub fn list_nodes(t: &ClusterTopology) -> (r: NodeListResponse)
    ensures
        distinct_names(t.node_configs.pairs()),
        r.nodes@.len() == t.node_configs.pairs().len(),
        forall|i: int|
            0 <= i < r.nodes@.len() ==> (#[trigger] r.nodes@[i])@ == node_info(
                t@,
                t.node_configs.pairs()[i].1,
                "unknown"@,
            ),
{
    let mut nodes: Vec<NodeInfo> = Vec::new();
    let n = t.node_configs.len();
    for i in 0..n
        invariant
            n == t.node_configs.pairs().len(),
            nodes@.len() == i,
            forall|j: int|
                0 <= j < i ==> (#[trigger] nodes@[j])@ == node_info(
                    t@,
                    t.node_configs.pairs()[j].1,
                    "unknown"@,
                ),
    {
        nodes.push(describe(t, t.node_configs.value_at(i), "unknown"));
    }
    NodeListResponse { nodes }
}

/// What is known of one node.
pub fn get_node(t: &ClusterTopology, node_id: &str) -> (r: Result<NodeInfo, u16>)
    ensures
        r is Ok <==> t@.node_configs.contains_key(node_id@),
        r matches Ok(info) ==> info@ == node_info(t@, t@.node_configs[node_id@], ""@),
        r matches Err(status) ==> status == NOT_FOUND,
{
    match t.node_configs.get(node_id) {
        Some(cfg) => Ok(describe(t, cfg, "")),
        None => Err(NOT_FOUND),
    }
}

/// A request to register a node.
#[derive(Debug)]
pub struct AddNodeRequest {
    pub node_id: String,
    pub agent_addr: String,
    pub postgres_addr: String,
    pub priority: Option<u32>,
}

/// The command that registers a node. Once it is written the answer is 201.
pub fn add_node(req: AddNodeRequest) -> (r: TopologyCommand)
    ensures
        r@ == CommandView::AddNode(
            NodeConfigView {
                node_id: req.node_id@,
                agent_addr: req.agent_addr@,
                postgres_addr: req.postgres_addr@,
                priority: match req.priority {
                    Some(p) => p,
                    None => DEFAULT_PRIORITY,
                },
                tags: Map::empty(),
            },
        ),
{
    TopologyCommand::AddNode(
        NodeConfig {
            node_id: req.node_id,
            agent_addr: req.agent_addr,
            postgres_addr: req.postgres_addr,
            priority: match req.priority {
                Some(p) => p,
                None => DEFAULT_PRIORITY,
            },
            tags: NameTable::new(),
        },
    )
}

/// The command that removes a node. Once it is written the answer is 204.
pub fn remove_node(node_id: String) -> (r: TopologyCommand)
    ensures
        r@ == (CommandView::RemoveNode { node_id: node_id@ }),
{
    TopologyCommand::RemoveNode { node_id }
}

} // verus!
