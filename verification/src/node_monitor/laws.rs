//! What follows from the health checks of a node, over time.

use super::failure_state::{count_of, FailureRecord};
use super::health_check::{is_reachable_result, AgentStatus, HealthCheckResult};
use super::{failures_after, is_decision, MonitorSettings, NodeDecision};
use crate::failover::laws::lemma_host_before_port;
use crate::raft::commands::CommandView;
use crate::raft::state_machine::applied;
use crate::raft::topology::{NodeConfigView, NodeRole, TopologyView};
use crate::text::lemma_contains_parts;
use std::time::Instant;
use vstd::prelude::*;

verus! {

// ── Nodes that answer ────────────────────────────────────────────────────────

/// Whatever role a configured node has other than that of a replica or a
/// primary, once it answers and is not the current primary it is marked as a
/// replica at its reported flush position. It then is one, and may replace any
/// other node.
pub proof fn lemma_answering_node_rejoins(
    t: TopologyView,
    s: MonitorSettings,
    m: Map<Seq<char>, FailureRecord>,
    busy: bool,
    result: HealthCheckResult,
    d: NodeDecision,
    now: i64,
    failed: Seq<char>,
)
    requires
        is_decision(t, s, m, busy, result, d),
        t.node_configs.contains_key(result.node_id@),
        result.reachable,
        result.pg_running,
        result.node_id@ != t.primary_node_id,
        t.node_roles.contains_key(result.node_id@),
        t.node_roles[result.node_id@] != NodeRole::Replica,
        t.node_roles[result.node_id@] != NodeRole::Primary,
        failed != result.node_id@,
    ensures
        d matches NodeDecision::Healthy { mark_replica: Some(c), .. } && c@ == (
        CommandView::MarkReplica { node_id: result.node_id@, flush_lsn: result.flush_lsn }) && {
            let u = applied(t, c@, now);
            &&& u.node_roles.contains_key(result.node_id@)
            &&& u.node_roles[result.node_id@] == NodeRole::Replica
            &&& u.last_flush_lsns[result.node_id@] == result.flush_lsn
            &&& u.is_candidate(failed, result.node_id@)
        },
{
}

/// A node that is added to a topology that did not know it, and then answers,
/// becomes a replica.
pub proof fn lemma_added_node_becomes_replica(
    t: TopologyView,
    config: NodeConfigView,
    s: MonitorSettings,
    m: Map<Seq<char>, FailureRecord>,
    busy: bool,
    result: HealthCheckResult,
    d: NodeDecision,
    now: i64,
    later: i64,
)
    requires
        !t.node_roles.contains_key(config.node_id),
        config.node_id != t.primary_node_id,
        result.node_id@ == config.node_id,
        result.reachable,
        result.pg_running,
        is_decision(applied(t, CommandView::AddNode(config), now), s, m, busy, result, d),
    ensures
        d matches NodeDecision::Healthy { mark_replica: Some(c), .. } && {
            let u = applied(applied(t, CommandView::AddNode(config), now), c@, later);
            &&& u.node_roles.contains_key(config.node_id)
            &&& u.node_roles[config.node_id] == NodeRole::Replica
            &&& u.node_configs.contains_key(config.node_id)
        },
{
}

/// The current primary, a node that has its part already and a node without a
/// role are not marked, and not pointed anywhere.
pub proof fn lemma_settled_node_is_left_alone(
    t: TopologyView,
    s: MonitorSettings,
    m: Map<Seq<char>, FailureRecord>,
    busy: bool,
    result: HealthCheckResult,
    d: NodeDecision,
)
    requires
        is_decision(t, s, m, busy, result, d),
        t.node_configs.contains_key(result.node_id@),
        result.reachable,
        result.pg_running,
        result.node_id@ == t.primary_node_id || !t.node_roles.contains_key(result.node_id@)
            || t.node_roles[result.node_id@] == NodeRole::Replica || t.node_roles[result.node_id@]
            == NodeRole::Primary,
    ensures
        d matches NodeDecision::Healthy { mark_replica, repoint, .. } && mark_replica is None
            && repoint is None,
{
}

/// Every answer has the positions of the node proposed. A node other than the
/// primary also has its distance to the primary's flush position shown, which
/// is none if it is ahead; the primary has not.
pub proof fn lemma_answers_report_positions(
    t: TopologyView,
    s: MonitorSettings,
    m: Map<Seq<char>, FailureRecord>,
    busy: bool,
    result: HealthCheckResult,
    d: NodeDecision,
)
    requires
        is_decision(t, s, m, busy, result, d),
        t.node_configs.contains_key(result.node_id@),
        result.reachable,
        result.pg_running,
    ensures
        d matches NodeDecision::Healthy { lag, update, .. } && update@ == (
        CommandView::UpdateFlushLsn {
            node_id: result.node_id@,
            flush_lsn: result.flush_lsn,
            replay_lsn: result.replay_lsn,
        }) && {
            let ahead: int = if t.last_flush_lsns.contains_key(t.primary_node_id) {
                t.last_flush_lsns[t.primary_node_id] as int
            } else {
                0
            };
            &&& lag is None <==> result.node_id@ == t.primary_node_id
            &&& lag matches Some(n) ==> n == if ahead >= result.flush_lsn {
                ahead - result.flush_lsn
            } else {
                0
            }
        },
{
}

/// A standby that rejoins is pointed to the host of the current primary exactly
/// if it does not follow that host yet: by its own agent, through its own slot.
pub proof fn lemma_stray_standby_is_repointed(
    t: TopologyView,
    s: MonitorSettings,
    m: Map<Seq<char>, FailureRecord>,
    busy: bool,
    result: HealthCheckResult,
    d: NodeDecision,
    host: Seq<char>,
    rest: Seq<char>,
)
    requires
        is_decision(t, s, m, busy, result, d),
        t.node_configs.contains_key(result.node_id@),
        result.reachable,
        result.pg_running,
        result.node_id@ != t.primary_node_id,
        t.node_roles.contains_key(result.node_id@),
        t.node_roles[result.node_id@] != NodeRole::Replica,
        t.node_roles[result.node_id@] != NodeRole::Primary,
        t.primary_node_id.len() != 0,
        t.node_configs.contains_key(t.primary_node_id),
        host.len() != 0,
        !host.contains(':'),
        t.node_configs[t.primary_node_id].postgres_addr == host + seq![':'] + rest,
    ensures
        d matches NodeDecision::Healthy { repoint, .. } && {
            let follows = exists|a: Seq<char>, b: Seq<char>|
                result.replication_conninfo@ == #[trigger] (a + host + b);
            &&& repoint is Some <==> result.in_recovery && !follows
            &&& repoint matches Some(r) ==> {
                &&& r.agent_addr@ == t.node_configs[result.node_id@].agent_addr
                &&& r.conninfo@ == "host="@ + host + " port=5432 user="@ + s.repl_user@
                    + " password="@ + s.repl_password@
                &&& r.slot_name@ == s.slot_prefix@ + result.node_id@
            }
        },
{
    lemma_host_before_port(host, rest);
    lemma_contains_parts(result.replication_conninfo@, host);
}

/// Without a known primary no node is pointed anywhere.
pub proof fn lemma_no_primary_no_repoint(
    t: TopologyView,
    s: MonitorSettings,
    m: Map<Seq<char>, FailureRecord>,
    busy: bool,
    result: HealthCheckResult,
    d: NodeDecision,
)
    requires
        is_decision(t, s, m, busy, result, d),
        t.primary_node_id.len() == 0 || !t.node_configs.contains_key(t.primary_node_id),
    ensures
        d matches NodeDecision::Healthy { repoint, .. } ==> repoint is None,
{
}

/// The flush position of a standby is what it received, that of a primary what
/// it sent.
pub proof fn lemma_position_of_answer(
    node_id: Seq<char>,
    status: AgentStatus,
    r: HealthCheckResult,
)
    requires
        is_reachable_result(node_id, status, r),
    ensures
        r.node_id@ == node_id,
        r.reachable,
        r.in_recovery == status.is_in_recovery,
        r.pg_running == status.postgres_running,
        status.is_in_recovery ==> r.flush_lsn == status.received_lsn,
        !status.is_in_recovery ==> r.flush_lsn == status.sent_lsn,
        r.replay_lsn == status.replayed_lsn,
        r.timeline == status.timeline,
        r.replication_conninfo@ == status.replication_conninfo@,
{
}

// ── Nodes that do not answer ─────────────────────────────────────────────────

/// What follows from a missed check of a configured node that is not in
/// maintenance, with `count` checks missed before: nothing up to the threshold;
/// then a primary is failed over, unless an operation is in progress, and any
/// other node is marked offline, unless it is.
pub proof fn lemma_missed_checks(
    t: TopologyView,
    s: MonitorSettings,
    m: Map<Seq<char>, FailureRecord>,
    busy: bool,
    result: HealthCheckResult,
    d: NodeDecision,
    count: int,
)
    requires
        is_decision(t, s, m, busy, result, d),
        t.node_configs.contains_key(result.node_id@),
        !result.reachable || !result.pg_running,
        !(t.node_roles.contains_key(result.node_id@) && t.node_roles[result.node_id@]
            == NodeRole::Maintenance),
        count == if m.contains_key(result.node_id@) {
            m[result.node_id@].count as int
        } else {
            0
        },
    ensures
        ({
            let id = result.node_id@;
            let leads = t.node_roles.contains_key(id) && t.node_roles[id] == NodeRole::Primary;
            let offline = t.node_roles.contains_key(id) && t.node_roles[id] == NodeRole::Offline;
            let enough = count + 1 >= s.threshold;
            &&& d is Failing <==> !enough
            &&& d is FailoverBlocked <==> enough && leads && busy
            &&& (d matches NodeDecision::StartFailover { mark_offline } && mark_offline@
                == (CommandView::MarkOffline { node_id: id })) <==> enough && leads && !busy
            &&& (d matches NodeDecision::ReplicaFailed { mark_offline: None }) <==> enough
                && !leads && offline
            &&& (d matches NodeDecision::ReplicaFailed { mark_offline: Some(c) } && c@
                == (CommandView::MarkOffline { node_id: id })) <==> enough && !leads && !offline
        }),
{
}

/// A node in maintenance that does not answer is left alone, and a node without
/// a configuration always is.
pub proof fn lemma_who_is_left_alone(
    t: TopologyView,
    s: MonitorSettings,
    m: Map<Seq<char>, FailureRecord>,
    busy: bool,
    result: HealthCheckResult,
    d: NodeDecision,
    now: Instant,
)
    requires
        is_decision(t, s, m, busy, result, d),
    ensures
        d is Unknown <==> !t.node_configs.contains_key(result.node_id@),
        d is InMaintenance <==> t.node_configs.contains_key(result.node_id@) && (!result.reachable
            || !result.pg_running) && t.node_roles.contains_key(result.node_id@)
            && t.node_roles[result.node_id@] == NodeRole::Maintenance,
        d is Unknown || d is InMaintenance ==> failures_after(t, m, result, now) == m,
{
}

/// A missed check counts one more for its node, an answer takes its count back
/// to zero, and neither changes the count of another node.
pub proof fn lemma_checks_are_counted(
    t: TopologyView,
    m: Map<Seq<char>, FailureRecord>,
    result: HealthCheckResult,
    now: Instant,
    other: Seq<char>,
)
    requires
        t.node_configs.contains_key(result.node_id@),
        !(t.node_roles.contains_key(result.node_id@) && t.node_roles[result.node_id@]
            == NodeRole::Maintenance),
        other != result.node_id@,
        m.contains_key(result.node_id@) ==> m[result.node_id@].count < u32::MAX,
    ensures
        ({
            let id = result.node_id@;
            let after = failures_after(t, m, result, now);
            &&& result.reachable && result.pg_running ==> !after.contains_key(id)
            &&& !result.reachable || !result.pg_running ==> {
                &&& after.contains_key(id)
                &&& after[id].count == if m.contains_key(id) {
                    m[id].count + 1
                } else {
                    1
                }
                &&& after[id].last_seen == now
                &&& after[id].first_seen == if m.contains_key(id) {
                    m[id].first_seen
                } else {
                    now
                }
            }
            &&& after.contains_key(other) == m.contains_key(other)
            &&& m.contains_key(other) ==> after[other] == m[other]
        }),
{
}

/// A primary that misses as many checks in a row as the threshold says is
/// failed over at the last of them and not before.
pub proof fn lemma_threshold_is_reached(
    t: TopologyView,
    s: MonitorSettings,
    m: Map<Seq<char>, FailureRecord>,
    result: HealthCheckResult,
    d: NodeDecision,
    missed: Seq<Instant>,
)
    requires
        t.node_configs.contains_key(result.node_id@),
        t.node_roles.contains_key(result.node_id@),
        t.node_roles[result.node_id@] == NodeRole::Primary,
        !result.reachable,
        !m.contains_key(result.node_id@),
        missed.len() < u32::MAX,
        is_decision(t, s, missed_checks(t, m, result, missed), false, result, d),
    ensures
        d is StartFailover <==> missed.len() + 1 >= s.threshold,
        d is Failing <==> missed.len() + 1 < s.threshold,
{
    lemma_missed_checks_add_up(t, m, result, missed);
}

/// The failures after checks that were missed at the given times.
pub open spec fn missed_checks(
    t: TopologyView,
    m: Map<Seq<char>, FailureRecord>,
    result: HealthCheckResult,
    missed: Seq<Instant>,
) -> Map<Seq<char>, FailureRecord>
    decreases missed.len(),
{
    if missed.len() == 0 {
        m
    } else {
        failures_after(t, missed_checks(t, m, result, missed.drop_last()), result, missed.last())
    }
}

proof fn lemma_missed_checks_add_up(
    t: TopologyView,
    m: Map<Seq<char>, FailureRecord>,
    result: HealthCheckResult,
    missed: Seq<Instant>,
)
    requires
        t.node_configs.contains_key(result.node_id@),
        t.node_roles.contains_key(result.node_id@),
        t.node_roles[result.node_id@] == NodeRole::Primary,
        !result.reachable,
        !m.contains_key(result.node_id@),
        missed.len() < u32::MAX,
    ensures
        count_of(missed_checks(t, m, result, missed), result.node_id@) == missed.len(),
    decreases missed.len(),
{
    if missed.len() > 0 {
        lemma_missed_checks_add_up(t, m, result, missed.drop_last());
    }
}

// ── Ticks ────────────────────────────────────────────────────────────────────

/// Only the leader checks the nodes.
pub proof fn lemma_only_the_leader_checks(leader: Option<u64>, my_id: u64)
    ensures
        super::tick_of(leader, my_id) == super::Tick::Leader <==> leader == Some(my_id),
        super::tick_of(leader, my_id) == super::Tick::NoLeader <==> leader is None,
{
}

/// Every 120th tick the slots on the primary are audited, if it is known with
/// its address: those with the prefix that are more than a gibibyte behind.
pub proof fn lemma_slots_are_audited(
    t: TopologyView,
    tick_count: u64,
    user: Seq<char>,
    password: Seq<char>,
    slot_prefix: Seq<char>,
    r: Option<super::SlotAudit>,
)
    requires
        super::is_audit(t, tick_count, user, password, slot_prefix, r),
    ensures
        r is Some <==> tick_count % 120 == 0 && t.primary_node_id.len() > 0
            && t.node_configs.contains_key(t.primary_node_id),
        r matches Some(a) ==> a.primary_url@ == "postgres://"@ + user + ":"@ + password + "@"@
            + t.node_configs[t.primary_node_id].postgres_addr + "/postgres"@ && a.pattern@
            == slot_prefix + "%"@ && a.max_lag_bytes == 1024 * 1024 * 1024,
{
}

/// While the slot of an automatic failover is held, no operator's request is
/// accepted and no second failover starts.
pub proof fn lemma_automatic_failover_excludes_others(
    t: TopologyView,
    s: MonitorSettings,
    m: Map<Seq<char>, FailureRecord>,
    busy: bool,
    result: HealthCheckResult,
    d: NodeDecision,
    next: HealthCheckResult,
    e: NodeDecision,
    node: Seq<char>,
)
    requires
        is_decision(t, s, m, busy, result, d),
        d is StartFailover,
        is_decision(t, s, m, crate::ops::occupied(busy, true), next, e),
    ensures
        !busy,
        !(e is StartFailover),
        !crate::api::failover::failover_answer(crate::ops::occupied(busy, true), t, node).1,
        !crate::api::switchover::switchover_answer(crate::ops::occupied(busy, true), t, node).1,
{
}

/// A node that gave no answer is reported under its name as one that cannot be
/// reached, whose server does not run and whose position is unknown.
pub proof fn lemma_missing_answer(node_id: Seq<char>, r: HealthCheckResult)
    requires
        super::health_check::is_unreachable_result(node_id, r),
    ensures
        r.node_id@ == node_id,
        !r.reachable && !r.pg_running && !r.in_recovery,
        r.flush_lsn == 0 && r.replay_lsn == 0 && r.timeline == 0,
        r.replication_conninfo@ == Seq::<char>::empty(),
{
}

} // verus!
