//! What the Raft log and the state machine exchange.

use super::commands::TopologyCommand;
use crate::table::Duplicate;
use vstd::prelude::*;

verus! {

// ── NodeId ───────────────────────────────────────────────────────────────────

/// Raft node identifier — maps 1-to-1 to `RaftPeer.id` in the config.
pub type NodeId = u64;

// ── Log positions and membership ─────────────────────────────────────────────

/// The position of a log entry: the leader that proposed it, and its index.
#[derive(Debug, Clone, Copy, PartialEq, Eq, Structural)]
pub struct LogId {
    pub term: u64,
    pub node_id: NodeId,
    pub index: u64,
}

/// The voters of each configuration and the addresses of the nodes.
#[derive(Debug)]
pub struct Membership {
    pub configs: Vec<Vec<NodeId>>,
    pub nodes: Vec<(NodeId, String)>,
}

/// What a [`Membership`] stands for.
#[verifier::ext_equal]
pub struct MembershipView {
    pub configs: Seq<Seq<NodeId>>,
    pub nodes: Seq<(NodeId, Seq<char>)>,
}

impl View for Membership {
    type V = MembershipView;

    open spec fn view(&self) -> MembershipView {
        MembershipView {
            configs: self.configs@.map_values(|c: Vec<NodeId>| c@),
            nodes: self.nodes@.map_values(|n: (NodeId, String)| (n.0, n.1@)),
        }
    }
}

impl MembershipView {
    /// The membership of a cluster that was never initialised.
    pub open spec fn empty() -> MembershipView {
        MembershipView { configs: Seq::empty(), nodes: Seq::empty() }
    }
}

impl Default for Membership {
    fn default() -> (r: Self)
        ensures
            r@ == MembershipView::empty(),
    {
        let r = Membership { configs: Vec::new(), nodes: Vec::new() };
        assert(r@ =~= MembershipView::empty());
        r
    }
}

fn duplicate_ids(v: &Vec<NodeId>) -> (r: Vec<NodeId>)
    ensures
        r@ == v@,
{
    let mut out: Vec<NodeId> = Vec::new();
    for i in 0..v.len()
        invariant
            out@ == v@.subrange(0, i as int),
    {
        out.push(v[i]);
        assert(v@.subrange(0, i + 1) =~= v@.subrange(0, i as int).push(v@[i as int]));
    }
    assert(v@.subrange(0, v@.len() as int) =~= v@);
    out
}

impl Duplicate for Membership {
    fn duplicate(&self) -> (r: Self) {
        let mut configs: Vec<Vec<NodeId>> = Vec::new();
        for i in 0..self.configs.len()
            invariant
                configs@.map_values(|c: Vec<NodeId>| c@) == self@.configs.subrange(0, i as int),
        {
            let ghost before = configs@;
            let c = duplicate_ids(&self.configs[i]);
            configs.push(c);
            assert(configs@.map_values(|c: Vec<NodeId>| c@) =~= before.map_values(
                |c: Vec<NodeId>| c@,
            ).push(c@));
            assert(self@.configs.subrange(0, i + 1) =~= self@.configs.subrange(0, i as int).push(
                self@.configs[i as int],
            ));
        }
        assert(self@.configs.subrange(0, self@.configs.len() as int) =~= self@.configs);
        let mut nodes: Vec<(NodeId, String)> = Vec::new();
        for i in 0..self.nodes.len()
            invariant
                nodes@.map_values(|n: (NodeId, String)| (n.0, n.1@)) == self@.nodes.subrange(
                    0,
                    i as int,
                ),
        {
            let ghost before = nodes@;
            let addr = self.nodes[i].1.clone();
            let id = self.nodes[i].0;
            nodes.push((id, addr));
            assert(nodes@.map_values(|n: (NodeId, String)| (n.0, n.1@)) =~= before.map_values(
                |n: (NodeId, String)| (n.0, n.1@),
            ).push((id, addr@)));
            assert(self@.nodes.subrange(0, i + 1) =~= self@.nodes.subrange(0, i as int).push(
                self@.nodes[i as int],
            ));
        }
        assert(self@.nodes.subrange(0, self@.nodes.len() as int) =~= self@.nodes);
        Membership { configs, nodes }
    }
}

impl Clone for Membership {
    fn clone(&self) -> (r: Self)
        ensures
            r@ == self@,
    {
        self.duplicate()
    }
}

/// A membership and the log entry that set it.
#[derive(Debug)]
pub struct StoredMembership {
    pub log_id: Option<LogId>,
    pub membership: Membership,
}

/// What a [`StoredMembership`] stands for.
#[verifier::ext_equal]
pub struct StoredMembershipView {
    pub log_id: Option<LogId>,
    pub membership: MembershipView,
}

impl View for StoredMembership {
    type V = StoredMembershipView;

    open spec fn view(&self) -> StoredMembershipView {
        StoredMembershipView { log_id: self.log_id, membership: self.membership@ }
    }
}

impl Duplicate for StoredMembership {
    fn duplicate(&self) -> (r: Self) {
        StoredMembership { log_id: self.log_id, membership: self.membership.duplicate() }
    }
}

impl Clone for StoredMembership {
    fn clone(&self) -> (r: Self)
        ensures
            r@ == self@,
    {
        self.duplicate()
    }
}

impl Default for StoredMembership {
    fn default() -> (r: Self)
        ensures
            r@ == (StoredMembershipView { log_id: None, membership: MembershipView::empty() }),
    {
        StoredMembership { log_id: None, membership: Membership::default() }
    }
}

// ── Log entries ──────────────────────────────────────────────────────────────

/// What a log entry carries.
#[derive(Debug)]
pub enum EntryPayload {
    /// Nothing: the entry that a new leader proposes.
    Blank,
    /// A change of the topology.
    Normal(TopologyCommand),
    /// A change of the Raft membership.
    Membership(Membership),
}

/// One entry of the Raft log.
#[derive(Debug)]
pub struct Entry {
    pub log_id: LogId,
    pub payload: EntryPayload,
}

// ── TopologyResponse ─────────────────────────────────────────────────────────

/// Returned by the state machine after each applied log entry.
#[derive(Debug, Clone, Copy)]
pub struct TopologyResponse {
    /// The `ClusterTopology::version` after this entry was applied.
    pub applied_version: u64,
}

} // verus!
