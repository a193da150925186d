//! The metrics that the server exposes.

use vstd::prelude::*;

verus! {

/// A metric.
#[derive(Debug, Clone, Copy, PartialEq, Eq, Structural)]
pub enum Metric {
    FailoverTotal,
    FailoverDurationSeconds,
    ProxyConnectionsTotal,
    SwitchoverTotal,
    PrimaryChangesTotal,
    ConnectedClients,
    PrimaryNodeId,
    ReplicaLagBytes,
    HealthCheckFailures,
    RaftLeader,
    TopologyVersion,
}

/// What a metric measures.
#[derive(Debug, Clone, Copy, PartialEq, Eq, Structural)]
pub enum MetricKind {
    /// A number that only grows.
    Counter,
    /// A number that grows and shrinks.
    Gauge,
    /// A distribution.
    Histogram,
    /// One counter per node, under the label `node_id`.
    CounterByNode,
    /// One gauge per node, under the label `node_id`.
    GaugeByNode,
}

impl Metric {
    /// The name of the metric.
    pub open spec fn title(self) -> Seq<char> {
        match self {
            Metric::FailoverTotal => "pgcluster_failovers_total"@,
            Metric::FailoverDurationSeconds => "pgcluster_failover_duration_seconds"@,
            Metric::ProxyConnectionsTotal => "pgcluster_proxy_connections_total"@,
            Metric::SwitchoverTotal => "pgcluster_switchovers_total"@,
            Metric::PrimaryChangesTotal => "pgcluster_primary_changes_total"@,
            Metric::ConnectedClients => "pgcluster_connected_clients"@,
            Metric::PrimaryNodeId => "pgcluster_primary_info"@,
            Metric::ReplicaLagBytes => "pgcluster_replica_lag_bytes"@,
            Metric::HealthCheckFailures => "pgcluster_health_check_failures_total"@,
            Metric::RaftLeader => "pgcluster_raft_is_leader"@,
            Metric::TopologyVersion => "pgcluster_topology_version"@,
        }
    }

    /// The name of the metric.
    pub fn name(&self) -> (r: &'static str)
        ensures
            r@ == self.title(),
    {
        match self {
            Metric::FailoverTotal => "pgcluster_failovers_total",
            Metric::FailoverDurationSeconds => "pgcluster_failover_duration_seconds",
            Metric::ProxyConnectionsTotal => "pgcluster_proxy_connections_total",
            Metric::SwitchoverTotal => "pgcluster_switchovers_total",
            Metric::PrimaryChangesTotal => "pgcluster_primary_changes_total",
            Metric::ConnectedClients => "pgcluster_connected_clients",
            Metric::PrimaryNodeId => "pgcluster_primary_info",
            Metric::ReplicaLagBytes => "pgcluster_replica_lag_bytes",
            Metric::HealthCheckFailures => "pgcluster_health_check_failures_total",
            Metric::RaftLeader => "pgcluster_raft_is_leader",
            Metric::TopologyVersion => "pgcluster_topology_version",
        }
    }

    /// What the metric is about.
    pub open spec fn about(self) -> Seq<char> {
        match self {
            Metric::FailoverTotal => "Total automatic failovers triggered"@,
            Metric::FailoverDurationSeconds => "Duration of each automatic failover from detection to new primary"@,
            Metric::ProxyConnectionsTotal => "Total client connections accepted by the proxy"@,
            Metric::SwitchoverTotal => "Total planned switchovers"@,
            Metric::PrimaryChangesTotal => "Total primary changes (failover + switchover)"@,
            Metric::ConnectedClients => "Number of clients connected to the proxy"@,
            Metric::PrimaryNodeId => "Current primary node info (label: node_id)"@,
            Metric::ReplicaLagBytes => "Replication lag in bytes per replica"@,
            Metric::HealthCheckFailures => "Health check failures per node"@,
            Metric::RaftLeader => "1 if this node is the Raft leader"@,
            Metric::TopologyVersion => "Current topology version from Raft state machine"@,
        }
    }

    /// What the metric is about.
    pub fn help(&self) -> (r: &'static str)
        ensures
            r@ == self.about(),
    {
        match self {
            Metric::FailoverTotal => "Total automatic failovers triggered",
            Metric::FailoverDurationSeconds => "Duration of each automatic failover from detection to new primary",
            Metric::ProxyConnectionsTotal => "Total client connections accepted by the proxy",
            Metric::SwitchoverTotal => "Total planned switchovers",
            Metric::PrimaryChangesTotal => "Total primary changes (failover + switchover)",
            Metric::ConnectedClients => "Number of clients connected to the proxy",
            Metric::PrimaryNodeId => "Current primary node info (label: node_id)",
            Metric::ReplicaLagBytes => "Replication lag in bytes per replica",
            Metric::HealthCheckFailures => "Health check failures per node",
            Metric::RaftLeader => "1 if this node is the Raft leader",
            Metric::TopologyVersion => "Current topology version from Raft state machine",
        }
    }

    /// What the metric measures.
    pub open spec fn measures(self) -> MetricKind {
        match self {
            Metric::FailoverTotal => MetricKind::Counter,
            Metric::FailoverDurationSeconds => MetricKind::Histogram,
            Metric::ProxyConnectionsTotal => MetricKind::Counter,
            Metric::SwitchoverTotal => MetricKind::Counter,
            Metric::PrimaryChangesTotal => MetricKind::Counter,
            Metric::ConnectedClients => MetricKind::Gauge,
            Metric::PrimaryNodeId => MetricKind::GaugeByNode,
            Metric::ReplicaLagBytes => MetricKind::GaugeByNode,
            Metric::HealthCheckFailures => MetricKind::CounterByNode,
            Metric::RaftLeader => MetricKind::Gauge,
            Metric::TopologyVersion => MetricKind::Gauge,
        }
    }

    /// What the metric measures.
    pub fn kind(&self) -> (r: MetricKind)
        ensures
            r == self.measures(),
    {
        match self {
            Metric::FailoverTotal => MetricKind::Counter,
            Metric::FailoverDurationSeconds => MetricKind::Histogram,
            Metric::ProxyConnectionsTotal => MetricKind::Counter,
            Metric::SwitchoverTotal => MetricKind::Counter,
            Metric::PrimaryChangesTotal => MetricKind::Counter,
            Metric::ConnectedClients => MetricKind::Gauge,
            Metric::PrimaryNodeId => MetricKind::GaugeByNode,
            Metric::ReplicaLagBytes => MetricKind::GaugeByNode,
            Metric::HealthCheckFailures => MetricKind::CounterByNode,
            Metric::RaftLeader => MetricKind::Gauge,
            Metric::TopologyVersion => MetricKind::Gauge,
        }
    }

    /// All metrics, each once.
    pub fn all() -> (r: Vec<Metric>)
        ensures
            r@.no_duplicates(),
            forall|m: Metric| #[trigger] r@.contains(m),
    {
        let mut all: Vec<Metric> = Vec::new();
        all.push(Metric::FailoverTotal);
        all.push(Metric::FailoverDurationSeconds);
        all.push(Metric::ProxyConnectionsTotal);
        all.push(Metric::SwitchoverTotal);
        all.push(Metric::PrimaryChangesTotal);
        all.push(Metric::ConnectedClients);
        all.push(Metric::PrimaryNodeId);
        all.push(Metric::ReplicaLagBytes);
        all.push(Metric::HealthCheckFailures);
        all.push(Metric::RaftLeader);
        all.push(Metric::TopologyVersion);
        proof {
            assert(all@[0] == Metric::FailoverTotal);
            assert(all@[1] == Metric::FailoverDurationSeconds);
            assert(all@[2] == Metric::ProxyConnectionsTotal);
            assert(all@[3] == Metric::SwitchoverTotal);
            assert(all@[4] == Metric::PrimaryChangesTotal);
            assert(all@[5] == Metric::ConnectedClients);
            assert(all@[6] == Metric::PrimaryNodeId);
            assert(all@[7] == Metric::ReplicaLagBytes);
            assert(all@[8] == Metric::HealthCheckFailures);
            assert(all@[9] == Metric::RaftLeader);
            assert(all@[10] == Metric::TopologyVersion);
            assert forall|m: Metric| #[trigger] all@.contains(m) by {
                let i: int = match m {
                    Metric::FailoverTotal => 0,
                    Metric::FailoverDurationSeconds => 1,
                    Metric::ProxyConnectionsTotal => 2,
                    Metric::SwitchoverTotal => 3,
                    Metric::PrimaryChangesTotal => 4,
                    Metric::ConnectedClients => 5,
                    Metric::PrimaryNodeId => 6,
                    Metric::ReplicaLagBytes => 7,
                    Metric::HealthCheckFailures => 8,
                    Metric::RaftLeader => 9,
                    Metric::TopologyVersion => 10,
                };
                assert(all@[i] == m);
            }
        }
        all
    }
}

// ── Laws ─────────────────────────────────────────────────────────────────────

/// No two metrics have the same name, so that all of them can be registered.
pub proof fn lemma_names_are_distinct(a: Metric, b: Metric)
    requires
        a.title() == b.title(),
    ensures
        a == b,
{
    reveal_strlit("pgcluster_failovers_total");
    assert("pgcluster_failovers_total"@.len() == 25);
    assert("pgcluster_failovers_total"@[10] == 'f');
    reveal_strlit("pgcluster_failover_duration_seconds");
    assert("pgcluster_failover_duration_seconds"@.len() == 35);
    assert("pgcluster_failover_duration_seconds"@[10] == 'f');
    reveal_strlit("pgcluster_proxy_connections_total");
    assert("pgcluster_proxy_connections_total"@.len() == 33);
    assert("pgcluster_proxy_connections_total"@[10] == 'p');
    reveal_strlit("pgcluster_switchovers_total");
    assert("pgcluster_switchovers_total"@.len() == 27);
    assert("pgcluster_switchovers_total"@[10] == 's');
    reveal_strlit("pgcluster_primary_changes_total");
    assert("pgcluster_primary_changes_total"@.len() == 31);
    assert("pgcluster_primary_changes_total"@[10] == 'p');
    reveal_strlit("pgcluster_connected_clients");
    assert("pgcluster_connected_clients"@.len() == 27);
    assert("pgcluster_connected_clients"@[10] == 'c');
    reveal_strlit("pgcluster_primary_info");
    assert("pgcluster_primary_info"@.len() == 22);
    assert("pgcluster_primary_info"@[10] == 'p');
    reveal_strlit("pgcluster_replica_lag_bytes");
    assert("pgcluster_replica_lag_bytes"@.len() == 27);
    assert("pgcluster_replica_lag_bytes"@[10] == 'r');
    reveal_strlit("pgcluster_health_check_failures_total");
    assert("pgcluster_health_check_failures_total"@.len() == 37);
    assert("pgcluster_health_check_failures_total"@[10] == 'h');
    reveal_strlit("pgcluster_raft_is_leader");
    assert("pgcluster_raft_is_leader"@.len() == 24);
    assert("pgcluster_raft_is_leader"@[10] == 'r');
    reveal_strlit("pgcluster_topology_version");
    assert("pgcluster_topology_version"@.len() == 26);
    assert("pgcluster_topology_version"@[10] == 't');
    assert(a.title()[10] == b.title()[10]);
    assert(a.title().len() == b.title().len());
}

/// The metrics that count are those whose names end in `_total`; the one in
/// seconds is a histogram, and what is told by node is so.
pub proof fn lemma_names_tell_the_kind(m: Metric)
    ensures
        (m.measures() is Counter || m.measures() is CounterByNode) <==> (m.title().len() > 6
            && m.title().skip(m.title().len() - 6) == "_total"@),
        m.measures() is Histogram <==> m == Metric::FailoverDurationSeconds,
        (m.measures() is GaugeByNode || m.measures() is CounterByNode) <==> (m
            == Metric::PrimaryNodeId || m == Metric::ReplicaLagBytes || m
            == Metric::HealthCheckFailures),
{
    reveal_strlit("_total");
    reveal_strlit("pgcluster_failovers_total");
    reveal_strlit("pgcluster_failover_duration_seconds");
    reveal_strlit("pgcluster_proxy_connections_total");
    reveal_strlit("pgcluster_switchovers_total");
    reveal_strlit("pgcluster_primary_changes_total");
    reveal_strlit("pgcluster_connected_clients");
    reveal_strlit("pgcluster_primary_info");
    reveal_strlit("pgcluster_replica_lag_bytes");
    reveal_strlit("pgcluster_health_check_failures_total");
    reveal_strlit("pgcluster_raft_is_leader");
    reveal_strlit("pgcluster_topology_version");
    let t = m.title();
    if t.skip(t.len() - 6) == "_total"@ {
        assert(t.skip(t.len() - 6)[5] == t[t.len() - 1]);
        assert("_total"@[5] == 'l');
    }
    if m.measures() is Counter || m.measures() is CounterByNode {
        assert(t.skip(t.len() - 6) =~= "_total"@);
    }
}

} // verus!
