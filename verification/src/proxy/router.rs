//! Routing decisions: which backend should a statement go to?
//!
//! The [`Router`] reads the current [`ClusterTopology`] from a local
//! [`TopologyWatch`] — no network hop.

use super::session::RouteTarget;
use crate::config::ReadRoutingConfig;
use crate::raft::topology::{number_or, value_or, TopologyView};
use crate::raft::watch::shows;
use crate::raft::{ClusterTopology, NodeRole, TopologyWatch};
use crate::table::has_name;
use vstd::prelude::*;

verus! {

// ── Decisions on a topology ──────────────────────────────────────────────────

/// How far a replica is behind, 0 if nothing is known.
pub open spec fn reported_lag(t: TopologyView, id: Seq<char>) -> u64 {
    value_or(t.replica_lag_bytes, id, 0)
}

/// Whether a node is a replica with a known address that is at most `max_lag`
/// bytes behind.
pub open spec fn is_eligible(t: TopologyView, max_lag: u64, id: Seq<char>) -> bool {
    &&& t.is_replica(id)
    &&& t.node_configs.contains_key(id)
    &&& reported_lag(t, id) <= max_lag
}

/// Whether a node is eligible and no eligible node is less behind.
pub open spec fn is_best_replica(t: TopologyView, max_lag: u64, id: Seq<char>) -> bool {
    &&& is_eligible(t, max_lag, id)
    &&& forall|other: Seq<char>| #[trigger]
        is_eligible(t, max_lag, other) ==> reported_lag(t, id) <= reported_lag(t, other)
}

/// Whether there is no eligible node.
pub open spec fn no_replica(t: TopologyView, max_lag: u64) -> bool {
    forall|id: Seq<char>| !#[trigger] is_eligible(t, max_lag, id)
}

/// Whether the address of the primary is known.
pub open spec fn primary_is_known(t: TopologyView) -> bool {
    t.node_configs.contains_key(t.primary_node_id)
}

/// Whether `r` is the address of the primary, if it is known.
pub open spec fn is_primary_addr(t: TopologyView, r: Option<String>) -> bool {
    &&& r is Some <==> primary_is_known(t)
    &&& r matches Some(a) ==> a@ == t.node_configs[t.primary_node_id].postgres_addr
}

/// Whether `r` is the id of the primary, if there is one.
pub open spec fn is_primary_id(t: TopologyView, r: Option<String>) -> bool {
    &&& r is Some <==> t.primary_node_id.len() != 0
    &&& r matches Some(id) ==> id@ == t.primary_node_id
}

/// Whether `r` is the id and the address of a best replica, if there is one.
pub open spec fn is_replica_choice(
    t: TopologyView,
    max_lag: u64,
    r: Option<(String, String)>,
) -> bool {
    &&& r is None <==> no_replica(t, max_lag)
    &&& r matches Some((id, addr)) ==> is_best_replica(t, max_lag, id@) && addr@
        == t.node_configs[id@].postgres_addr
}

/// Whether `r` is a backend for a read: a best replica if reads are routed to
/// replicas and there is one, otherwise the primary.
pub open spec fn is_read_choice(
    t: TopologyView,
    config: ReadRoutingConfig,
    r: Option<(String, String)>,
) -> bool {
    if config.enabled && !no_replica(t, config.max_replica_lag_bytes) {
        is_replica_choice(t, config.max_replica_lag_bytes, r)
    } else {
        &&& r is Some <==> t.node_configs.contains_key(t.primary_node_id)
        &&& r matches Some((id, addr)) ==> id@ == t.primary_node_id && addr@
            == t.node_configs[t.primary_node_id].postgres_addr
    }
}

/// Whether `r` is the id and the address of the primary, if both are known.
pub open spec fn is_primary_choice(t: TopologyView, r: Option<(String, String)>) -> bool {
    &&& r is Some <==> t.primary_node_id.len() != 0 && t.node_configs.contains_key(
        t.primary_node_id,
    )
    &&& r matches Some((id, addr)) ==> id@ == t.primary_node_id && addr@
        == t.node_configs[t.primary_node_id].postgres_addr
}

/// The address of the primary, if it is known.
pub fn primary_addr_in(t: &ClusterTopology) -> (r: Option<String>)
    ensures
        is_primary_addr(t@, r),
{
    match t.node_configs.get(t.primary_node_id.as_str()) {
        Some(c) => Some(c.postgres_addr.clone()),
        None => None,
    }
}

/// The id of the primary, if there is one.
pub fn primary_node_id_in(t: &ClusterTopology) -> (r: Option<String>)
    ensures
        is_primary_id(t@, r),
{
    if t.primary_node_id.as_str().is_empty() {
        None
    } else {
        Some(t.primary_node_id.clone())
    }
}

/// The id and the address of the primary, if both are known.
pub fn primary_in(t: &ClusterTopology) -> (r: Option<(String, String)>)
    ensures
        is_primary_choice(t@, r),
{
    match (primary_node_id_in(t), primary_addr_in(t)) {
        (Some(id), Some(addr)) => Some((id, addr)),
        _ => None,
    }
}

/// The id and the address of the least-lagged replica that is at most
/// `max_lag` bytes behind.
///
/// If lag info is missing for a replica, it is treated as zero lag.
pub fn best_replica_in(t: &ClusterTopology, max_lag: u64) -> (r: Option<(String, String)>)
    ensures
        is_replica_choice(t@, max_lag, r),
{
    let mut best: Option<(String, String)> = None;
    let mut best_lag: u64 = 0;
    let n = t.node_roles.len();
    let ghost pairs = t.node_roles.pairs();
    for i in 0..n
        invariant
            n == pairs.len(),
            pairs == t.node_roles.pairs(),
            best is None ==> forall|j: int|
                0 <= j < i ==> !is_eligible(t@, max_lag, (#[trigger] pairs[j]).0),
            best matches Some((id, addr)) ==> {
                &&& is_eligible(t@, max_lag, id@)
                &&& addr@ == t@.node_configs[id@].postgres_addr
                &&& best_lag == reported_lag(t@, id@)
                &&& forall|j: int|
                    0 <= j < i && is_eligible(t@, max_lag, (#[trigger] pairs[j]).0) ==> best_lag
                        <= reported_lag(t@, pairs[j].0)
            },
    {
        let id = t.node_roles.name_at(i);
        let role = *t.node_roles.value_at(i);
        if role == NodeRole::Replica {
            match t.node_configs.get(id.as_str()) {
                Some(c) => {
                    let lag = number_or(&t.replica_lag_bytes, id.as_str(), 0);
                    let better = match &best {
                        None => true,
                        Some(_) => lag < best_lag,
                    };
                    if lag <= max_lag && better {
                        best = Some((id.clone(), c.postgres_addr.clone()));
                        best_lag = lag;
                    }
                },
                None => {},
            }
        }
    }
    proof {
        assert forall|id: Seq<char>| #[trigger] is_eligible(t@, max_lag, id) implies exists|
            j: int,
        | 0 <= j < n && (#[trigger] pairs[j]).0 == id by {
            assert(has_name(pairs, id));
        }
    }
    best
}

/// The backend for a read: a replica if possible, otherwise the primary.
pub fn read_backend_in(t: &ClusterTopology, config: &ReadRoutingConfig) -> (r: Option<
    (String, String),
>)
    ensures
        is_read_choice(t@, *config, r),
{
    if config.enabled {
        match best_replica_in(t, config.max_replica_lag_bytes) {
            Some(found) => return Some(found),
            None => {},
        }
    }
    // Fall back to primary

    match t.node_configs.get(t.primary_node_id.as_str()) {
        Some(c) => Some((t.primary_node_id.clone(), c.postgres_addr.clone())),
        None => None,
    }
}

/// Whether `r` is a backend for the target.
pub open spec fn is_backend(
    t: TopologyView,
    config: ReadRoutingConfig,
    target: RouteTarget,
    r: Option<(String, String)>,
) -> bool {
    match target {
        RouteTarget::Primary => is_primary_choice(t, r),
        RouteTarget::ReplicaOrPrimary => is_read_choice(t, config, r),
    }
}

/// The backend for a target, if there is one.
pub fn resolve_backend_in(
    t: &ClusterTopology,
    config: &ReadRoutingConfig,
    target: &RouteTarget,
) -> (r: Option<(String, String)>)
    ensures
        is_backend(t@, *config, *target, r),
{
    match target {
        RouteTarget::Primary => primary_in(t),
        RouteTarget::ReplicaOrPrimary => read_backend_in(t, config),
    }
}

// ── Router ───────────────────────────────────────────────────────────────────

/// Decides which backend address to use for a given routing intent.
///
/// Every decision is made on the topology at the time of the call.
pub struct Router {
    topology: TopologyWatch,
    config: ReadRoutingConfig,
    draining: bool,
}

impl Router {
    /// How reads are routed.
    pub closed spec fn routing(&self) -> ReadRoutingConfig {
        self.config
    }

    /// Whether clients are being sent away for a planned switchover.
    pub closed spec fn drains(&self) -> bool {
        self.draining
    }

    /// Where the topology is read.
    pub closed spec fn watch(&self) -> TopologyWatch {
        self.topology
    }

    /// Whether a topology is one that the router can see.
    pub open spec fn sees(&self, t: TopologyView) -> bool {
        shows(self.watch().receiver(), t)
    }

    /// A router on the topology that `watch` shows.
    pub fn new(watch: TopologyWatch, config: ReadRoutingConfig) -> (r: Self)
        ensures
            r.watch() == watch,
            r.routing() == config,
            !r.drains(),
    {
        Router { topology: watch, config, draining: false }
    }

    /// Whether clients are being sent away for a planned switchover.
    pub fn is_draining(&self) -> (r: bool)
        ensures
            r == self.drains(),
    {
        self.draining
    }

    /// How reads are routed.
    pub fn read_routing(&self) -> (r: ReadRoutingConfig)
        ensures
            r == self.routing(),
    {
        self.config
    }

    /// The topology at the time of the call.
    pub fn topology(&self) -> (r: std::sync::Arc<ClusterTopology>)
        ensures
            self.sees(r@),
    {
        self.topology.current()
    }

    /// Starts or ends sending clients away.
    pub fn set_draining(&mut self, draining: bool)
        ensures
            final(self).drains() == draining,
            final(self).routing() == old(self).routing(),
            final(self).watch() == old(self).watch(),
    {
        self.draining = draining;
    }

    /// Returns the Postgres address of the current primary, if known.
    pub fn primary_addr(&self) -> (r: Option<String>)
        ensures
            exists|t: TopologyView| #[trigger] self.sees(t) && is_primary_addr(t, r),
    {
        let topo = self.topology();
        primary_addr_in(&topo)
    }

    /// Returns the `(node_id, postgres_addr)` of the least-lagged replica that
    /// is within the configured `max_replica_lag_bytes` threshold.
    ///
    /// Returns `None` if no eligible replica exists.
    pub fn best_replica_addr(&self) -> (r: Option<(String, String)>)
        ensures
            exists|t: TopologyView| #[trigger]
                self.sees(t) && is_replica_choice(t, self.routing().max_replica_lag_bytes, r),
    {
        let topo = self.topology();
        let r = best_replica_in(&topo, self.config.max_replica_lag_bytes);
        assert(is_replica_choice(topo@, self.routing().max_replica_lag_bytes, r));
        r
    }

    /// Returns the node ID of the current primary, if known.
    pub fn primary_node_id(&self) -> (r: Option<String>)
        ensures
            exists|t: TopologyView| #[trigger] self.sees(t) && is_primary_id(t, r),
    {
        let topo = self.topology();
        primary_node_id_in(&topo)
    }

    /// Return the best backend for a read statement.
    ///
    /// Prefers a replica; falls back to primary if no replica is eligible.
    pub fn read_backend(&self) -> (r: Option<(String, String)>)
        ensures
            exists|t: TopologyView| #[trigger] self.sees(t) && is_read_choice(t, self.routing(), r),
    {
        let topo = self.topology();
        let r = read_backend_in(&topo, &self.config);
        assert(is_read_choice(topo@, self.routing(), r));
        r
    }

    /// Returns the node ID and the address of the current primary, if known.
    pub fn primary(&self) -> (r: Option<(String, String)>)
        ensures
            exists|t: TopologyView| #[trigger] self.sees(t) && is_primary_choice(t, r),
    {
        let topo = self.topology();
        primary_in(&topo)
    }

    /// The backend for a target, if there is one.
    pub fn resolve_backend(&self, target: &RouteTarget) -> (r: Option<(String, String)>)
        ensures
            exists|t: TopologyView| #[trigger]
                self.sees(t) && is_backend(t, self.routing(), *target, r),
    {
        let topo = self.topology();
        let r = resolve_backend_in(&topo, &self.config, target);
        assert(is_backend(topo@, self.routing(), *target, r));
        r
    }
}

// ── Laws ─────────────────────────────────────────────────────────────────────

/// The id of a chosen backend.
pub open spec fn chosen_id(r: Option<(String, String)>) -> Seq<char> {
    match r {
        Some((id, addr)) => id@,
        None => Seq::empty(),
    }
}

/// A replica that is too far behind is never chosen.
pub proof fn lemma_lagged_replica_is_skipped(
    t: TopologyView,
    config: ReadRoutingConfig,
    r: Option<(String, String)>,
)
    requires
        is_read_choice(t, config, r),
        r is Some,
        t.is_replica(chosen_id(r)),
        t.primary_node_id != chosen_id(r),
    ensures
        reported_lag(t, chosen_id(r)) <= config.max_replica_lag_bytes,
{
}

/// As long as the address of the primary is known, every statement has a
/// backend, if the primary has a name.
pub proof fn lemma_known_primary_serves_all(
    t: TopologyView,
    config: ReadRoutingConfig,
    target: RouteTarget,
    r: Option<(String, String)>,
)
    requires
        is_backend(t, config, target, r),
        t.primary_node_id.len() != 0,
        t.node_configs.contains_key(t.primary_node_id),
    ensures
        r is Some,
{
}

} // verus!
