//! Health checks and what follows from them.

pub mod failure_state;
pub mod health_check;
pub mod laws;

use crate::failover::slots::{lag_limit, slot_name, slot_pattern};
use crate::failover::{conninfo_text, host_of, postgres_url, primary_conninfo, url_text};
use crate::ops::{after_release, occupied, OpSlot};
use crate::raft::commands::{CommandView, TopologyCommand};
use crate::raft::topology::{number_or, ClusterTopology, NodeRole, TopologyView};
use crate::text::{before_first, contains_text, has_text, same_text};
use failure_state::{count_of, recorded, FailureRecord, FailureTracker};
use health_check::HealthCheckResult;
use std::time::Instant;
use vstd::prelude::*;

verus! {

// ── Leadership ───────────────────────────────────────────────────────────────

/// What a tick of the monitor does.
#[derive(Debug, Clone, Copy, PartialEq, Eq, Structural)]
pub enum Tick {
    /// No Raft leader is elected yet.
    NoLeader,
    /// Another instance is the leader.
    Follower,
    /// This instance is the leader: check all nodes.
    Leader,
}

/// What a tick does, by who leads the Raft cluster.
pub open spec fn tick_of(leader: Option<u64>, my_id: u64) -> Tick {
    if leader is None {
        Tick::NoLeader
    } else if leader == Some(my_id) {
        Tick::Leader
    } else {
        Tick::Follower
    }
}

/// Only the Raft leader should drive health checks.
pub fn on_tick(leader: Option<u64>, my_id: u64) -> (r: Tick)
    ensures
        r == tick_of(leader, my_id),
        r == match leader {
            None => Tick::NoLeader,
            Some(id) => if id == my_id {
                Tick::Leader
            } else {
                Tick::Follower
            },
        },
{
    match leader {
        None => Tick::NoLeader,
        Some(id) => if id == my_id {
            Tick::Leader
        } else {
            Tick::Follower
        },
    }
}

// ── Slot audit ───────────────────────────────────────────────────────────────

/// How many health-check ticks between orphaned-slot audits on the primary.
/// 120 ticks × 500 ms interval ≈ once per minute.
pub const SLOT_AUDIT_TICKS: u64 = 120;

/// Slots more than 1 GiB behind are considered orphaned.
pub const ORPHAN_LAG_THRESHOLD: u64 = 1073741824;

/// Which slots to drop where.
#[derive(Debug)]
pub struct SlotAudit {
    pub primary_url: String,
    /// The names of the slots match this pattern.
    pub pattern: String,
    /// The slots are more than this many bytes behind.
    pub max_lag_bytes: i64,
}

/// Whether the primary is to be audited for orphaned slots: on every 120th
/// tick, if there is a primary with a configuration.
pub open spec fn audit_is_due(t: TopologyView, tick_count: u64) -> bool {
    &&& tick_count % SLOT_AUDIT_TICKS == 0
    &&& t.primary_node_id.len() != 0
    &&& t.node_configs.contains_key(t.primary_node_id)
}

/// Whether `r` is the right audit at a tick.
pub open spec fn is_audit(
    t: TopologyView,
    tick_count: u64,
    user: Seq<char>,
    password: Seq<char>,
    slot_prefix: Seq<char>,
    r: Option<SlotAudit>,
) -> bool {
    if audit_is_due(t, tick_count) {
        r matches Some(a) && a.primary_url@ == url_text(
            user,
            password,
            t.node_configs[t.primary_node_id].postgres_addr,
        ) && a.pattern@ == slot_prefix + "%"@ && a.max_lag_bytes == ORPHAN_LAG_THRESHOLD
    } else {
        r is None
    }
}

/// Periodically audit the primary for orphaned WAL replication slots.
pub fn audit_slots(
    topology: &ClusterTopology,
    tick_count: u64,
    repl_user: &str,
    repl_password: &str,
    slot_prefix: &str,
) -> (r: Option<SlotAudit>)
    ensures
        r is Some <==> audit_is_due(topology@, tick_count),
        r matches Some(a) ==> a.primary_url@ == url_text(
            repl_user@,
            repl_password@,
            topology@.node_configs[topology@.primary_node_id].postgres_addr,
        ) && a.pattern@ == slot_prefix@ + "%"@ && a.max_lag_bytes == ORPHAN_LAG_THRESHOLD,
        is_audit(topology@, tick_count, repl_user@, repl_password@, slot_prefix@, r),
{
    if tick_count % SLOT_AUDIT_TICKS != 0 || topology.primary_node_id.as_str().is_empty() {
        return None;
    }
    match topology.node_configs.get(topology.primary_node_id.as_str()) {
        Some(config) => Some(
            SlotAudit {
                primary_url: postgres_url(repl_user, repl_password, config.postgres_addr.as_str()),
                pattern: slot_pattern(slot_prefix),
                max_lag_bytes: lag_limit(ORPHAN_LAG_THRESHOLD),
            },
        ),
        None => None,
    }
}

// ── Decisions on one node ────────────────────────────────────────────────────

/// How a replica is pointed to the current primary.
#[derive(Debug)]
pub struct Repoint {
    pub agent_addr: String,
    pub conninfo: String,
    pub slot_name: String,
}

/// What follows from the health check of one node.
#[allow(inconsistent_fields)]
#[derive(Debug)]
pub enum NodeDecision {
    /// The node is not configured.
    Unknown,
    /// The node answers.
    Healthy {
        /// Mark the node as a replica.
        mark_replica: Option<TopologyCommand>,
        /// Point the node to the current primary.
        repoint: Option<Repoint>,
        /// How far a replica is behind.
        lag: Option<u64>,
        /// Propose its positions.
        update: TopologyCommand,
    },
    /// The node is in maintenance and intentionally stopped.
    InMaintenance,
    /// The node failed, but not often enough.
    Failing,
    /// A replica failed often enough: mark it offline, unless it already is.
    ReplicaFailed { mark_offline: Option<TopologyCommand> },
    /// The primary failed often enough, but an operation is in progress.
    FailoverBlocked,
    /// The primary failed often enough: mark it offline, then fail over. The
    /// slot is held.
    StartFailover { mark_offline: TopologyCommand },
}

/// Whether a node with this conninfo has to be pointed to the primary host:
/// a primary is known, and the conninfo does not name it.
pub open spec fn repoint_needed(primary_host: Seq<char>, conninfo: Seq<char>) -> bool {
    primary_host.len() != 0 && !contains_text(conninfo, primary_host)
}

/// Whether a node with this conninfo has to be pointed to the primary host.
///
/// Returns `false` when `primary_host` is empty (no primary elected yet).
pub fn needs_repoint(primary_host: &str, conninfo: &str) -> (r: bool)
    ensures
        r == repoint_needed(primary_host@, conninfo@),
{
    if primary_host.is_empty() {
        return false;
    }
    !has_text(conninfo, primary_host)
}

/// The host of the current primary; empty if it is not known.
pub open spec fn primary_host(t: TopologyView) -> Seq<char> {
    if t.primary_node_id.len() != 0 && t.node_configs.contains_key(t.primary_node_id) {
        before_first(t.node_configs[t.primary_node_id].postgres_addr, ':')
    } else {
        Seq::empty()
    }
}

/// Whether a healthy node is marked as a replica: it has a role, but none in
/// which it takes part, and it is not the primary. This handles recovery from
/// failure, nodes returning from maintenance, and the initial bootstrap.
pub open spec fn rejoins(t: TopologyView, id: Seq<char>) -> bool {
    &&& id != t.primary_node_id
    &&& t.node_roles.contains_key(id)
    &&& t.node_roles[id] == NodeRole::Offline || t.node_roles[id] == NodeRole::Unknown
        || t.node_roles[id] == NodeRole::Maintenance
}

/// The lag that is shown for a node: that of a replica behind the primary.
pub open spec fn shown_lag(t: TopologyView, id: Seq<char>, flush_lsn: u64) -> Option<int> {
    if id != t.primary_node_id {
        let p = t.flush_lsn(t.primary_node_id);
        Some(
            if p >= flush_lsn {
                p - flush_lsn
            } else {
                0
            },
        )
    } else {
        None
    }
}

/// How the monitor reaches and names things.
#[derive(Debug)]
pub struct MonitorSettings {
    pub repl_user: String,
    pub repl_password: String,
    pub slot_prefix: String,
    /// How many consecutive failures make a node failed.
    pub threshold: u32,
}

/// Whether `d` is the decision on a node that answers.
pub open spec fn is_healthy_decision(
    t: TopologyView,
    s: MonitorSettings,
    result: HealthCheckResult,
    d: NodeDecision,
) -> bool {
    let id = result.node_id@;
    &&& d matches NodeDecision::Healthy { mark_replica, repoint, lag, update }
    &&& mark_replica is Some <==> rejoins(t, id)
    &&& mark_replica matches Some(c) ==> c@ == (CommandView::MarkReplica {
        node_id: id,
        flush_lsn: result.flush_lsn,
    })
    &&& repoint is Some <==> rejoins(t, id) && result.in_recovery && repoint_needed(
        primary_host(t),
        result.replication_conninfo@,
    )
    &&& repoint matches Some(r) ==> r.agent_addr@ == t.node_configs[id].agent_addr && r.conninfo@
        == conninfo_text(primary_host(t), s.repl_user@, s.repl_password@) && r.slot_name@
        == s.slot_prefix@ + id
    &&& lag is Some <==> shown_lag(t, id, result.flush_lsn) is Some
    &&& lag matches Some(n) ==> shown_lag(t, id, result.flush_lsn) == Some(n as int)
    &&& update@ == (CommandView::UpdateFlushLsn {
        node_id: id,
        flush_lsn: result.flush_lsn,
        replay_lsn: result.replay_lsn,
    })
}

/// Whether `d` is the decision on a node that does not answer, once its
/// failure is counted.
pub open spec fn is_failure_decision(
    t: TopologyView,
    s: MonitorSettings,
    id: Seq<char>,
    failures: int,
    busy: bool,
    d: NodeDecision,
) -> bool {
    if failures < s.threshold {
        d is Failing
    } else if t.has_role(id, NodeRole::Primary) {
        if busy {
            d is FailoverBlocked
        } else {
            d matches NodeDecision::StartFailover { mark_offline } && mark_offline@
                == (CommandView::MarkOffline { node_id: id })
        }
    } else {
        &&& d matches NodeDecision::ReplicaFailed { mark_offline }
        &&& mark_offline is None <==> t.has_role(id, NodeRole::Offline)
        &&& mark_offline matches Some(c) ==> c@ == (CommandView::MarkOffline { node_id: id })
    }
}

/// The failures after a health check.
pub open spec fn failures_after(
    t: TopologyView,
    m: Map<Seq<char>, FailureRecord>,
    result: HealthCheckResult,
    now: Instant,
) -> Map<Seq<char>, FailureRecord> {
    let id = result.node_id@;
    if !t.node_configs.contains_key(id) {
        m
    } else if result.reachable && result.pg_running {
        m.remove(id)
    } else if t.has_role(id, NodeRole::Maintenance) {
        m
    } else {
        recorded(m, id, now)
    }
}

/// Whether `d` is the decision on the health check of a node.
pub open spec fn is_decision(
    t: TopologyView,
    s: MonitorSettings,
    m: Map<Seq<char>, FailureRecord>,
    busy: bool,
    result: HealthCheckResult,
    d: NodeDecision,
) -> bool {
    let id = result.node_id@;
    if !t.node_configs.contains_key(id) {
        d is Unknown
    } else if result.reachable && result.pg_running {
        is_healthy_decision(t, s, result, d)
    } else if t.has_role(id, NodeRole::Maintenance) {
        d is InMaintenance
    } else {
        is_failure_decision(t, s, id, count_of(m, id) + 1, busy, d)
    }
}

fn has_role(topology: &ClusterTopology, id: &str, role: NodeRole) -> (r: bool)
    ensures
        r == topology@.has_role(id@, role),
{
    match topology.node_roles.get(id) {
        Some(found) => *found == role,
        None => false,
    }
}

fn known_primary_host(topology: &ClusterTopology) -> (r: String)
    ensures
        r@ == primary_host(topology@),
{
    if topology.primary_node_id.as_str().is_empty() {
        let empty = String::new();
        assert(empty@ =~= Seq::<char>::empty());
        return empty;
    }
    match topology.node_configs.get(topology.primary_node_id.as_str()) {
        Some(config) => host_of(config.postgres_addr.as_str()),
        None => {
            let empty = String::new();
            assert(empty@ =~= Seq::<char>::empty());
            empty
        },
    }
}

fn healthy_decision(
    topology: &ClusterTopology,
    settings: &MonitorSettings,
    result: &HealthCheckResult,
    agent_addr: &str,
) -> (d: NodeDecision)
    requires
        agent_addr@ == topology@.node_configs[result.node_id@].agent_addr,
    ensures
        is_healthy_decision(topology@, *settings, *result, d),
{
    let id = result.node_id.as_str();
    let is_primary = same_text(id, topology.primary_node_id.as_str());
    let rejoining = !is_primary && (has_role(topology, id, NodeRole::Offline) || has_role(
        topology,
        id,
        NodeRole::Unknown,
    ) || has_role(topology, id, NodeRole::Maintenance));
    let host = known_primary_host(topology);
    // A replica that was offline during a failover still points at the old
    // primary; it must follow the current primary so it can rejoin.
    let repoint = if rejoining && result.in_recovery && needs_repoint(
        host.as_str(),
        result.replication_conninfo.as_str(),
    ) {
        Some(
            Repoint {
                agent_addr: agent_addr.to_owned(),
                conninfo: primary_conninfo(
                    host.as_str(),
                    settings.repl_user.as_str(),
                    settings.repl_password.as_str(),
                ),
                slot_name: slot_name(settings.slot_prefix.as_str(), id),
            },
        )
    } else {
        None
    };
    let lag: Option<u64> = if is_primary {
        None
    } else {
        let primary_lsn = number_or(
            &topology.last_flush_lsns,
            topology.primary_node_id.as_str(),
            0,
        );
        Some(primary_lsn.saturating_sub(result.flush_lsn))
    };
    NodeDecision::Healthy {
        mark_replica: if rejoining {
            Some(
                TopologyCommand::MarkReplica {
                    node_id: result.node_id.clone(),
                    flush_lsn: result.flush_lsn,
                },
            )
        } else {
            None
        },
        repoint,
        lag,
        update: TopologyCommand::UpdateFlushLsn {
            node_id: result.node_id.clone(),
            flush_lsn: result.flush_lsn,
            replay_lsn: result.replay_lsn,
        },
    }
}

/// Decides on the health check of one node at the current time.
pub fn on_result(
    topology: &ClusterTopology,
    settings: &MonitorSettings,
    tracker: &mut FailureTracker,
    slot: &mut OpSlot,
    result: &HealthCheckResult,
) -> (d: NodeDecision)
    requires
        count_of(old(tracker)@, result.node_id@) < u32::MAX,
    ensures
        is_decision(topology@, *settings, old(tracker)@, old(slot)@, *result, d),
        exists|now: Instant|
            final(tracker)@ == #[trigger] failures_after(topology@, old(tracker)@, *result, now),
        final(slot)@ == (old(slot)@ || d is StartFailover),
        final(slot)@ == occupied(old(slot)@, d is StartFailover),
{
    let now = Instant::now();
    on_result_at(topology, settings, tracker, slot, result, now)
}

/// Decides on the health check of one node at the time `now`.
///
/// A node that answers is reset in the failure tracker, and its positions are
/// proposed. A node that does not is counted. If the primary misses enough
/// consecutive checks, a failover starts, unless an operation is in progress.
pub fn on_result_at(
    topology: &ClusterTopology,
    settings: &MonitorSettings,
    tracker: &mut FailureTracker,
    slot: &mut OpSlot,
    result: &HealthCheckResult,
    now: Instant,
) -> (d: NodeDecision)
    requires
        count_of(old(tracker)@, result.node_id@) < u32::MAX,
    ensures
        is_decision(topology@, *settings, old(tracker)@, old(slot)@, *result, d),
        final(tracker)@ == failures_after(topology@, old(tracker)@, *result, now),
        final(slot)@ == (old(slot)@ || d is StartFailover),
        final(slot)@ == occupied(old(slot)@, d is StartFailover),
{
    let id = result.node_id.as_str();
    let config = match topology.node_configs.get(id) {
        Some(c) => c,
        None => return NodeDecision::Unknown,
    };
    if result.reachable && result.pg_running {
        tracker.record_success(id);
        return healthy_decision(topology, settings, result, config.agent_addr.as_str());
    }
    // Nodes in Maintenance mode are intentionally stopped; ignore health failures.

    if has_role(topology, id, NodeRole::Maintenance) {
        return NodeDecision::InMaintenance;
    }
    tracker.record_failure_at(id, now);
    if !tracker.is_failed(id, settings.threshold) {
        return NodeDecision::Failing;
    }
    if has_role(topology, id, NodeRole::Primary) {
        // Guard: skip automatic failover if an operator-initiated
        // failover or switchover is already running.
        if !slot.try_acquire() {
            return NodeDecision::FailoverBlocked;
        }
        NodeDecision::StartFailover {
            mark_offline: TopologyCommand::MarkOffline { node_id: result.node_id.clone() },
        }
    } else {
        NodeDecision::ReplicaFailed {
            mark_offline: if has_role(topology, id, NodeRole::Offline) {
                None
            } else {
                Some(TopologyCommand::MarkOffline { node_id: result.node_id.clone() })
            },
        }
    }
}

/// The failed primary was marked offline, or that write failed. Tells whether
/// to fail over: not after a failed write, as the leadership may be lost. The
/// slot is then given back.
pub fn on_marked_offline(written: bool, slot: &mut OpSlot) -> (proceed: bool)
    ensures
        proceed == written,
        final(slot)@ == (old(slot)@ && written),
        !written ==> final(slot)@ == after_release(old(slot)@),
{
    if !written {
        slot.release();
    }
    written
}

/// The failover has ended: the slot is given back, and the failed node is
/// counted from zero so that it does not trigger again.
pub fn on_failover_ended(node_id: &str, tracker: &mut FailureTracker, slot: &mut OpSlot)
    ensures
        final(tracker)@ == old(tracker)@.remove(node_id@),
        !final(slot)@,
        final(slot)@ == after_release(old(slot)@),
{
    slot.release();
    tracker.record_success(node_id);
}

// ── Laws ─────────────────────────────────────────────────────────────────────

/// A failover starts only for the primary, only after as many consecutive
/// failures as the threshold says, and only while no operation is in progress.
pub proof fn lemma_failover_needs_failed_primary(
    t: TopologyView,
    s: MonitorSettings,
    m: Map<Seq<char>, FailureRecord>,
    busy: bool,
    result: HealthCheckResult,
    d: NodeDecision,
)
    requires
        is_decision(t, s, m, busy, result, d),
        d is StartFailover,
    ensures
        t.has_role(result.node_id@, NodeRole::Primary),
        count_of(m, result.node_id@) + 1 >= s.threshold,
        !busy,
        !(result.reachable && result.pg_running),
{
}

/// A primary that misses enough consecutive checks triggers a failover, if no
/// operation is in progress.
pub proof fn lemma_failed_primary_triggers_failover(
    t: TopologyView,
    s: MonitorSettings,
    m: Map<Seq<char>, FailureRecord>,
    result: HealthCheckResult,
    d: NodeDecision,
)
    requires
        is_decision(t, s, m, false, result, d),
        t.node_configs.contains_key(result.node_id@),
        t.has_role(result.node_id@, NodeRole::Primary),
        !(result.reachable && result.pg_running),
        count_of(m, result.node_id@) + 1 >= s.threshold,
    ensures
        d is StartFailover,
{
}

/// A node in maintenance is never counted as failing.
pub proof fn lemma_maintenance_is_not_counted(
    t: TopologyView,
    m: Map<Seq<char>, FailureRecord>,
    result: HealthCheckResult,
    now: Instant,
)
    requires
        t.has_role(result.node_id@, NodeRole::Maintenance),
        !(result.reachable && result.pg_running),
    ensures
        failures_after(t, m, result, now) == m,
{
}

} // verus!
