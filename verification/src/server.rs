//! What the server does when it starts.

use crate::config::{NodeConfig, PgClusterConfig, RaftPeer};
use crate::raft::commands::{CommandView, TopologyCommand};
use crate::raft::state_machine::applied;
use crate::raft::topology::{NodeConfigView, NodeRole, TopologyView};
use crate::table::Duplicate;
use crate::text::{after_last, text_after_last};
use std::collections::BTreeMap;
use vstd::prelude::*;
use vstd::string::StringExecFns;

verus! {

/// Whether a node leads the Raft cluster.
pub fn is_leader(leader: Option<u64>, my_id: u64) -> (r: bool)
    ensures
        r <==> leader == Some(my_id),
        r == leads(leader, my_id),
{
    match leader {
        Some(id) => id == my_id,
        None => false,
    }
}

// ── Bootstrap ────────────────────────────────────────────────────────────────

/// How often a bootstrapping node looks whether it leads the cluster before it
/// seeds the topology.
pub const SEED_ATTEMPTS: u32 = 50;

/// How long it waits between two looks, in milliseconds.
pub const SEED_INTERVAL_MS: u64 = 100;

/// What a bootstrapping node does next.
#[derive(Debug, Clone, Copy, PartialEq, Eq, Structural)]
pub enum SeedStep {
    /// Wait, and look again whether the node leads.
    Wait,
    /// Seed the topology.
    Seed,
}

/// What follows after `attempt` looks in vain, given what the next one shows.
/// The topology is seeded once the node leads, and in any case after the last
/// look.
pub fn seed_step(attempt: u32, leads: bool) -> (r: SeedStep)
    ensures
        r == if attempt >= SEED_ATTEMPTS || leads {
            SeedStep::Seed
        } else {
            SeedStep::Wait
        },
        r == seeding_step(attempt as int, leads),
{
    if attempt >= SEED_ATTEMPTS || leads {
        SeedStep::Seed
    } else {
        SeedStep::Wait
    }
}

/// Whether the topology is seeded from the configuration.
pub fn seeds_topology(cfg: &PgClusterConfig) -> (r: bool)
    ensures
        r == (cfg.raft.bootstrap && cfg.nodes.node@.len() > 0),
{
    cfg.raft.bootstrap && cfg.nodes.node.len() > 0
}

/// The configuration of a node as the topology holds it.
pub open spec fn seeded(node: NodeConfig) -> NodeConfigView {
    NodeConfigView {
        node_id: node.id@,
        agent_addr: node.agent_addr@,
        postgres_addr: node.postgres_addr@,
        priority: node.priority,
        tags: node.tags@,
    }
}

/// Whether node `k` has the highest priority, and is the last one that has it.
pub open spec fn is_first_choice(nodes: Seq<NodeConfig>, k: int) -> bool {
    &&& 0 <= k < nodes.len()
    &&& forall|j: int| 0 <= j < nodes.len() ==> (#[trigger] nodes[j]).priority <= nodes[k].priority
    &&& forall|j: int| k < j < nodes.len() ==> (#[trigger] nodes[j]).priority < nodes[k].priority
}

/// The command that makes a node the first primary.
pub open spec fn first_primary(node: NodeConfig) -> CommandView {
    CommandView::SetPrimary { node_id: node.id@, at_lsn: 0, new_timeline: 1 }
}

/// The commands that seed the topology: every node is registered, and the
/// highest-priority node becomes the initial primary.
pub fn seed_commands(nodes: &Vec<NodeConfig>) -> (r: Vec<TopologyCommand>)
    ensures
        nodes@.len() == 0 ==> r@.len() == 0,
        nodes@.len() > 0 ==> r@.len() == nodes@.len() + 1,
        forall|i: int|
            0 <= i < nodes@.len() ==> (#[trigger] r@[i])@ == CommandView::AddNode(
                seeded(nodes@[i]),
            ),
        nodes@.len() > 0 ==> exists|k: int| #[trigger]
            is_first_choice(nodes@, k) && r@.last()@ == first_primary(nodes@[k]),
{
    let mut commands: Vec<TopologyCommand> = Vec::new();
    let n: usize = nodes.len();
    if n == 0 {
        return commands;
    }
    let mut best: usize = 0;
    for i in 0..n
        invariant
            n == nodes@.len(),
            commands@.len() == i,
            best < n,
            i > 0 ==> best < i,
            i == 0 ==> best == 0,
            forall|j: int|
                0 <= j < i ==> (#[trigger] commands@[j])@ == CommandView::AddNode(
                    seeded(nodes@[j]),
                ),
            forall|j: int|
                0 <= j < i ==> (#[trigger] nodes@[j]).priority <= nodes@[best as int].priority,
            forall|j: int|
                best < j < i ==> (#[trigger] nodes@[j]).priority < nodes@[best as int].priority,
    {
        let node = &nodes[i];
        commands.push(
            TopologyCommand::AddNode(
                crate::raft::topology::NodeConfig {
                    node_id: node.id.clone(),
                    agent_addr: node.agent_addr.clone(),
                    postgres_addr: node.postgres_addr.clone(),
                    priority: node.priority,
                    tags: node.tags.duplicate(),
                },
            ),
        );
        if node.priority >= nodes[best].priority {
            best = i;
        }
    }
    commands.push(
        TopologyCommand::SetPrimary { node_id: nodes[best].id.clone(), at_lsn: 0, new_timeline: 1 },
    );
    assert(is_first_choice(nodes@, best as int));
    commands
}

/// The topology after the given commands, one after the other.
pub open spec fn after_all(t: TopologyView, commands: Seq<CommandView>, now: i64) -> TopologyView
    decreases commands.len(),
{
    if commands.len() == 0 {
        t
    } else {
        applied(after_all(t, commands.drop_last(), now), commands.last(), now)
    }
}

/// The commands that seed the topology with node `k` as the first primary.
pub open spec fn seeding(nodes: Seq<NodeConfig>, k: int) -> Seq<CommandView> {
    nodes.map_values(|n: NodeConfig| CommandView::AddNode(seeded(n))).push(first_primary(nodes[k]))
}

/// Seeding registers every node and makes the chosen one the primary, whatever
/// the topology was before.
pub proof fn lemma_seeding(t: TopologyView, nodes: Seq<NodeConfig>, k: int, now: i64)
    requires
        is_first_choice(nodes, k),
    ensures
        ({
            let u = after_all(t, seeding(nodes, k), now);
            &&& u.primary_node_id == nodes[k].id@
            &&& u.has_role(nodes[k].id@, NodeRole::Primary)
            &&& forall|i: int|
                0 <= i < nodes.len() ==> u.node_configs.contains_key((#[trigger] nodes[i]).id@)
        }),
{
    let adds = nodes.map_values(|n: NodeConfig| CommandView::AddNode(seeded(n)));
    assert(seeding(nodes, k).drop_last() =~= adds);
    lemma_adding(t, nodes, now);
}

proof fn lemma_adding(t: TopologyView, nodes: Seq<NodeConfig>, now: i64)
    ensures
        ({
            let adds = nodes.map_values(|n: NodeConfig| CommandView::AddNode(seeded(n)));
            let u = after_all(t, adds, now);
            &&& forall|i: int|
                0 <= i < nodes.len() ==> u.node_configs.contains_key((#[trigger] nodes[i]).id@)
        }),
    decreases nodes.len(),
{
    if nodes.len() > 0 {
        let front = nodes.drop_last();
        lemma_adding(t, front, now);
        let adds = nodes.map_values(|n: NodeConfig| CommandView::AddNode(seeded(n)));
        assert(adds.drop_last() =~= front.map_values(
            |n: NodeConfig| CommandView::AddNode(seeded(n)),
        ));
        let u = after_all(t, adds, now);
        assert forall|i: int| 0 <= i < nodes.len() implies u.node_configs.contains_key(
            (#[trigger] nodes[i]).id@,
        ) by {
            if i < front.len() {
                assert(front[i] == nodes[i]);
            }
        }
    }
}

/// The members that the peers make, by their ids. Of two peers with the same
/// id the later one counts.
pub open spec fn members_of(peers: Seq<RaftPeer>) -> Map<u64, Seq<char>>
    decreases peers.len(),
{
    if peers.len() == 0 {
        Map::empty()
    } else {
        members_of(peers.drop_last()).insert(peers.last().id, peers.last().addr@)
    }
}

/// Whether a map of addresses is the given one.
pub open spec fn holds_members(m: Map<u64, String>, members: Map<u64, Seq<char>>) -> bool {
    &&& m.dom() == members.dom()
    &&& forall|id: u64| #[trigger] m.contains_key(id) ==> m[id]@ == members[id]
}

/// The members with which a bootstrapping node initializes the Raft cluster.
pub fn bootstrap_members(peers: &Vec<RaftPeer>) -> (r: BTreeMap<u64, String>)
    ensures
        holds_members(r@, members_of(peers@)),
{

    let mut members: BTreeMap<u64, String> = BTreeMap::new();
    assert(peers@.take(0) =~= Seq::<RaftPeer>::empty());
    assert(holds_members(members@, members_of(peers@.take(0))));
    for i in 0..peers.len()
        invariant
            holds_members(members@, members_of(peers@.take(i as int))),
    {
        let p = &peers[i];
        members.insert(p.id, p.addr.clone());
        assert(peers@.take(i + 1).drop_last() =~= peers@.take(i as int));
        assert(holds_members(members@, members_of(peers@.take(i + 1))));
    }
    assert(peers@.take(peers@.len() as int) =~= peers@);
    members
}

// ── Listening for peers ──────────────────────────────────────────────────────

/// The peer address of a node where the configuration lists no such peer.
pub open spec fn default_peer_addr() -> Seq<char> {
    "0.0.0.0:7000"@
}

/// Whether `addr` is the address under which the peers know the node: that of
/// the first peer with its id.
pub open spec fn is_peer_addr(peers: Seq<RaftPeer>, id: u64, addr: Seq<char>) -> bool {
    ||| exists|i: int|
        0 <= i < peers.len() && (#[trigger] peers[i]).id == id && addr == peers[i].addr@ && forall|
            j: int,
        |
            0 <= j < i ==> (#[trigger] peers[j]).id != id
    ||| (forall|j: int| 0 <= j < peers.len() ==> (#[trigger] peers[j]).id != id) && addr
        == default_peer_addr()
}

/// The address under which the peers know the node.
pub fn peer_addr(peers: &Vec<RaftPeer>, id: u64) -> (r: String)
    ensures
        is_peer_addr(peers@, id, r@),
{
    for i in 0..peers.len()
        invariant
            forall|j: int| 0 <= j < i ==> (#[trigger] peers@[j]).id != id,
    {
        if peers[i].id == id {
            return peers[i].addr.clone();
        }
    }
    "0.0.0.0:7000".to_owned()
}

/// Where the node listens for its peers. Peer addresses use host names
/// (e.g. "pgcluster-1:7000"); the node listens at the same port on all
/// interfaces.
pub fn raft_listen_addr(peers: &Vec<RaftPeer>, id: u64) -> (r: String)
    ensures
        exists|addr: Seq<char>| #[trigger]
            is_peer_addr(peers@, id, addr) && r@ == "0.0.0.0:"@ + after_last(addr, ':'),
{
    let addr = peer_addr(peers, id);
    let r = "0.0.0.0:".to_owned().concat(text_after_last(addr.as_str(), ':').as_str());
    assert(is_peer_addr(peers@, id, addr@) && r@ == "0.0.0.0:"@ + after_last(addr@, ':'));
    r
}

// ── Laws ─────────────────────────────────────────────────────────────────────

/// Seeding registers each node as it is configured. A node that was not known
/// before has no role yet, but for the one with the highest priority, which is
/// the primary.
pub proof fn lemma_seeded_nodes(nodes: Seq<NodeConfig>, k: int, i: int, now: i64)
    requires
        is_first_choice(nodes, k),
        0 <= i < nodes.len(),
        forall|a: int, b: int|
            0 <= a < b < nodes.len() ==> (#[trigger] nodes[a]).id@ != (#[trigger] nodes[b]).id@,
    ensures
        ({
            let u = after_all(TopologyView::empty(), seeding(nodes, k), now);
            let id = nodes[i].id@;
            &&& nodes[i].priority <= nodes[k].priority
            &&& nodes[i].priority == nodes[k].priority ==> i <= k
            &&& u.primary_node_id == nodes[k].id@
            &&& u.node_configs.contains_key(id)
            &&& u.node_configs[id].agent_addr == nodes[i].agent_addr@
            &&& u.node_configs[id].postgres_addr == nodes[i].postgres_addr@
            &&& u.node_configs[id].priority == nodes[i].priority
            &&& u.node_configs[id].tags == nodes[i].tags@
            &&& u.node_configs[id].node_id == id
            &&& u.node_roles.contains_key(id)
            &&& u.node_roles[id] == if i == k {
                NodeRole::Primary
            } else {
                NodeRole::Unknown
            }
        }),
{
    let adds = nodes.map_values(|n: NodeConfig| CommandView::AddNode(seeded(n)));
    assert(seeding(nodes, k).drop_last() =~= adds);
    lemma_added_nodes(nodes, i, now);
    lemma_added_nodes(nodes, k, now);
    if i != k {
        assert(nodes[i].id@ != nodes[k].id@) by {
            if i < k {
            } else {
                assert(nodes[k].id@ != nodes[i].id@);
            }
        }
    }
}

proof fn lemma_added_nodes(nodes: Seq<NodeConfig>, i: int, now: i64)
    requires
        0 <= i < nodes.len(),
        forall|a: int, b: int|
            0 <= a < b < nodes.len() ==> (#[trigger] nodes[a]).id@ != (#[trigger] nodes[b]).id@,
    ensures
        ({
            let adds = nodes.map_values(|n: NodeConfig| CommandView::AddNode(seeded(n)));
            let u = after_all(TopologyView::empty(), adds, now);
            let id = nodes[i].id@;
            &&& u.primary_node_id.len() == 0
            &&& u.node_configs.contains_key(id)
            &&& u.node_configs[id] == seeded(nodes[i])
            &&& u.node_roles.contains_key(id)
            &&& u.node_roles[id] == NodeRole::Unknown
        }),
    decreases nodes.len(),
{
    let front = nodes.drop_last();
    let adds = nodes.map_values(|n: NodeConfig| CommandView::AddNode(seeded(n)));
    assert(adds.drop_last() =~= front.map_values(
        |n: NodeConfig| CommandView::AddNode(seeded(n)),
    ));
    lemma_none_is_primary(front, now);
    lemma_not_added(front, nodes.last().id@, now);
    if i < front.len() {
        assert(front[i] == nodes[i]);
        lemma_added_nodes(front, i, now);
        assert(nodes[i].id@ != nodes[nodes.len() - 1].id@);
    }
}

proof fn lemma_none_is_primary(nodes: Seq<NodeConfig>, now: i64)
    ensures
        after_all(
            TopologyView::empty(),
            nodes.map_values(|n: NodeConfig| CommandView::AddNode(seeded(n))),
            now,
        ).primary_node_id.len() == 0,
    decreases nodes.len(),
{
    if nodes.len() > 0 {
        let adds = nodes.map_values(|n: NodeConfig| CommandView::AddNode(seeded(n)));
        lemma_none_is_primary(nodes.drop_last(), now);
        assert(adds.drop_last() =~= nodes.drop_last().map_values(
            |n: NodeConfig| CommandView::AddNode(seeded(n)),
        ));
    }
}

proof fn lemma_not_added(nodes: Seq<NodeConfig>, id: Seq<char>, now: i64)
    ensures
        ({
            let u = after_all(
                TopologyView::empty(),
                nodes.map_values(|n: NodeConfig| CommandView::AddNode(seeded(n))),
                now,
            );
            &&& (forall|i: int| 0 <= i < nodes.len() ==> (#[trigger] nodes[i]).id@ != id)
                ==> !u.node_roles.contains_key(id)
            &&& u.node_roles.contains_key(id) ==> u.node_roles[id] == NodeRole::Unknown
        }),
    decreases nodes.len(),
{
    if nodes.len() > 0 {
        let front = nodes.drop_last();
        let adds = nodes.map_values(|n: NodeConfig| CommandView::AddNode(seeded(n)));
        lemma_not_added(front, id, now);
        assert(adds.drop_last() =~= front.map_values(
            |n: NodeConfig| CommandView::AddNode(seeded(n)),
        ));
        if forall|i: int| 0 <= i < nodes.len() ==> (#[trigger] nodes[i]).id@ != id {
            assert forall|i: int| 0 <= i < front.len() implies (#[trigger] front[i]).id@ != id by {
                assert(front[i] == nodes[i]);
            }
            assert(nodes[nodes.len() - 1].id@ != id);
        }
    }
}

/// A member of the Raft cluster has the address of its peer, and there are no
/// members but the peers. Of peers with the same id the last one counts.
pub proof fn lemma_members_are_peers(peers: Seq<RaftPeer>, i: int, id: u64)
    requires
        0 <= i < peers.len(),
        forall|j: int| i < j < peers.len() ==> (#[trigger] peers[j]).id != peers[i].id,
    ensures
        members_of(peers).contains_key(peers[i].id),
        members_of(peers)[peers[i].id] == peers[i].addr@,
        members_of(peers).contains_key(id) ==> exists|j: int|
            0 <= j < peers.len() && (#[trigger] peers[j]).id == id,
    decreases peers.len(),
{
    let front = peers.drop_last();
    if i < front.len() {
        assert(front[i] == peers[i]);
        assert(peers[peers.len() - 1].id != peers[i].id);
        assert forall|j: int| i < j < front.len() implies (#[trigger] front[j]).id
            != front[i].id by {
            assert(front[j] == peers[j]);
        }
        lemma_members_are_peers(front, i, id);
    }
    lemma_only_peers(peers, id);
}

proof fn lemma_only_peers(peers: Seq<RaftPeer>, id: u64)
    ensures
        members_of(peers).contains_key(id) ==> exists|j: int|
            0 <= j < peers.len() && (#[trigger] peers[j]).id == id,
    decreases peers.len(),
{
    if peers.len() > 0 && members_of(peers).contains_key(id) {
        let front = peers.drop_last();
        if peers.last().id == id {
            assert(peers[peers.len() - 1].id == id);
        } else {
            lemma_only_peers(front, id);
            let j = choose|j: int| 0 <= j < front.len() && (#[trigger] front[j]).id == id;
            assert(peers[j].id == id);
        }
    }
}

/// The address under which the peers know a node is that of its first entry, and
/// a fixed one if there is none.
pub proof fn lemma_peer_address(peers: Seq<RaftPeer>, id: u64, addr: Seq<char>, i: int)
    requires
        is_peer_addr(peers, id, addr),
    ensures
        0 <= i < peers.len() && peers[i].id == id && (forall|j: int|
            0 <= j < i ==> (#[trigger] peers[j]).id != id) ==> addr == peers[i].addr@,
        (forall|j: int| 0 <= j < peers.len() ==> (#[trigger] peers[j]).id != id) ==> addr
            == "0.0.0.0:7000"@,
{
    if exists|k: int|
        0 <= k < peers.len() && (#[trigger] peers[k]).id == id && addr == peers[k].addr@ && forall|
            j: int,
        |
            0 <= j < k ==> (#[trigger] peers[j]).id != id {
        let k = choose|k: int|
            0 <= k < peers.len() && (#[trigger] peers[k]).id == id && addr == peers[k].addr@
                && forall|j: int| 0 <= j < k ==> (#[trigger] peers[j]).id != id;
        if 0 <= i < peers.len() && peers[i].id == id && (forall|j: int|
            0 <= j < i ==> (#[trigger] peers[j]).id != id) {
            assert(i == k);
        }
    }
}

/// Whether the node with this id is the one that the cluster follows.
pub open spec fn leads(leader: Option<u64>, my_id: u64) -> bool {
    match leader {
        Some(id) => id == my_id,
        None => false,
    }
}

/// What a node that seeds the topology does next.
pub open spec fn seeding_step(attempt: int, leads: bool) -> SeedStep {
    if leads || attempt >= SEED_ATTEMPTS {
        SeedStep::Seed
    } else {
        SeedStep::Wait
    }
}

/// At most one node leads, and none while the cluster follows nobody.
pub proof fn lemma_one_leader(leader: Option<u64>, a: u64, b: u64)
    ensures
        leads(leader, a) && leads(leader, b) ==> a == b,
        leads(Some(a), a),
        !leads(None, a),
{
}

/// A node that leads seeds at once; another waits, but not for ever.
pub proof fn lemma_seeding_does_not_wait_for_ever(attempt: int)
    ensures
        seeding_step(attempt, true) is Seed,
        attempt < 50 ==> seeding_step(attempt, false) is Wait,
        attempt >= 50 ==> seeding_step(attempt, false) is Seed,
{
}

/// Every member is listed under its id with its address, and nobody else is.
pub proof fn lemma_members_are_listed(
    m: Map<u64, String>,
    members: Map<u64, Seq<char>>,
    id: u64,
)
    requires
        holds_members(m, members),
    ensures
        m.contains_key(id) <==> members.contains_key(id),
        members.contains_key(id) ==> m[id]@ == members[id],
{
    assert(m.dom().contains(id) == members.dom().contains(id));
}

} // verus!
