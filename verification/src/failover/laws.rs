//! What a failover does from its first action to its last.

use super::promote::StatusReport;
use super::{is_action, is_plan, next_phase, run, FailoverAction, FailoverInput, FailoverPhase};
use super::FailoverPlan;
use crate::raft::commands::CommandView;
use crate::raft::topology::{NodeRole, TopologyView};
use crate::table::views;
use crate::text::before_first;
use vstd::prelude::*;

verus! {

// ── The plan ─────────────────────────────────────────────────────────────────

/// The candidate is a replica other than the failed node, and no such replica
/// is further ahead, nor as far ahead with a higher priority. The plan names
/// its agent and its flush position.
pub proof fn lemma_candidate_is_furthest_ahead(
    t: TopologyView,
    failed: Seq<char>,
    user: Seq<char>,
    password: Seq<char>,
    slot_prefix: Seq<char>,
    p: FailoverPlan,
    other: Seq<char>,
)
    requires
        is_plan(t, failed, user, password, slot_prefix, p),
    ensures
        p.failed_primary@ == failed,
        p.candidate@ != failed,
        t.node_roles.contains_key(p.candidate@),
        t.node_roles[p.candidate@] == NodeRole::Replica,
        t.node_configs.contains_key(p.candidate@),
        p.candidate_agent@ == t.node_configs[p.candidate@].agent_addr,
        p.at_lsn == if t.last_flush_lsns.contains_key(p.candidate@) {
            t.last_flush_lsns[p.candidate@]
        } else {
            0
        },
        p.slot_prefix@ == slot_prefix,
        other != failed && t.node_roles.contains_key(other) && t.node_roles[other]
            == NodeRole::Replica ==> {
            let lsn: u64 = if t.last_flush_lsns.contains_key(other) {
                t.last_flush_lsns[other]
            } else {
                0
            };
            let priority: u32 = if t.node_configs.contains_key(other) {
                t.node_configs[other].priority
            } else {
                0
            };
            ||| p.at_lsn > lsn
            ||| p.at_lsn == lsn && t.node_configs[p.candidate@].priority >= priority
        },
{
    if other != failed && t.node_roles.contains_key(other) && t.node_roles[other]
        == NodeRole::Replica {
        assert(t.is_candidate(failed, other));
    }
}

/// A node is pointed to the new primary exactly if it is configured, is neither
/// the failed node nor the candidate, and is not known to be anything but a
/// replica. Each is listed once, with its own agent.
pub proof fn lemma_plan_lists_every_follower(
    t: TopologyView,
    failed: Seq<char>,
    user: Seq<char>,
    password: Seq<char>,
    slot_prefix: Seq<char>,
    p: FailoverPlan,
    id: Seq<char>,
)
    requires
        is_plan(t, failed, user, password, slot_prefix, p),
    ensures
        (t.node_configs.contains_key(id) && id != failed && id != p.candidate@ && (
        t.node_roles.contains_key(id) ==> t.node_roles[id] == NodeRole::Replica || t.node_roles[id]
            == NodeRole::Unknown)) <==> exists|i: int|
            0 <= i < p.replicas@.len() && (#[trigger] p.replicas@[i]).node_id@ == id
                && p.replicas@[i].agent_addr@ == t.node_configs[id].agent_addr,
        forall|i: int, j: int|
            0 <= i < j < p.replicas@.len() ==> (#[trigger] p.replicas@[i]).node_id@ != (
            #[trigger] p.replicas@[j]).node_id@,
{
    let targets = views(p.replicas@);
    assert forall|i: int, j: int| 0 <= i < j < p.replicas@.len() implies (
    #[trigger] p.replicas@[i]).node_id@ != (#[trigger] p.replicas@[j]).node_id@ by {
        assert(targets[i].node_id != targets[j].node_id);
    }
    if super::is_repointed(t, failed, p.candidate@, id) {
        let i = choose|i: int| 0 <= i < targets.len() && (#[trigger] targets[i]).node_id == id;
        assert(targets[i] == p.replicas@[i]@);
        assert(p.replicas@[i].node_id@ == id);
    }
    if exists|i: int|
        0 <= i < p.replicas@.len() && (#[trigger] p.replicas@[i]).node_id@ == id
            && p.replicas@[i].agent_addr@ == t.node_configs[id].agent_addr {
        let i = choose|i: int|
            0 <= i < p.replicas@.len() && (#[trigger] p.replicas@[i]).node_id@ == id
                && p.replicas@[i].agent_addr@ == t.node_configs[id].agent_addr;
        assert(targets[i] == p.replicas@[i]@);
        assert(super::is_repointed(t, failed, p.candidate@, targets[i].node_id));
    }
}

/// The replicas reach the new primary at the host of the candidate's address,
/// which is what stands before its port, and the slots are created there.
pub proof fn lemma_replicas_follow_candidate(
    t: TopologyView,
    failed: Seq<char>,
    user: Seq<char>,
    password: Seq<char>,
    slot_prefix: Seq<char>,
    p: FailoverPlan,
    host: Seq<char>,
    rest: Seq<char>,
)
    requires
        is_plan(t, failed, user, password, slot_prefix, p),
        !host.contains(':'),
        t.node_configs[p.candidate@].postgres_addr == host + seq![':'] + rest,
    ensures
        p.conninfo@ == "host="@ + host + " port=5432 user="@ + user + " password="@ + password,
        p.primary_url@ == "postgres://"@ + user + ":"@ + password + "@"@ + (host + seq![':'] + rest)
            + "/postgres"@,
{
    lemma_host_before_port(host, rest);
}

/// What stands before the port of an address is its host.
pub proof fn lemma_host_before_port(host: Seq<char>, rest: Seq<char>)
    requires
        !host.contains(':'),
    ensures
        before_first(host + seq![':'] + rest, ':') == host,
        before_first(host, ':') == host,
{
    let addr = host + seq![':'] + rest;
    assert forall|j: int| 0 <= j < host.len() implies addr[j] != ':' && host[j] != ':' by {
        assert(addr[j] == host[j]);
        assert(host.contains(host[j]));
    }
    crate::text::lemma_first_index(addr, ':', host.len() as int);
    crate::text::lemma_first_index(host, ':', host.len() as int);
    assert(addr.subrange(0, host.len() as int) =~= host);
    assert(host.subrange(0, host.len() as int) =~= host);
}

// ── Promotion ────────────────────────────────────────────────────────────────

/// A failover begins with the promotion of the candidate by its agent. If the
/// agent does not confirm it, the failover is given up for good.
pub proof fn lemma_promotion_comes_first(
    p: FailoverPlan,
    a: FailoverAction,
    b: FailoverAction,
    inputs: Seq<FailoverInput>,
)
    requires
        is_action(p, FailoverPhase::Promoting, a),
        inputs.len() > 0,
        inputs[0] == FailoverInput::Done(false),
        is_action(p, run(p.replicas@.len() as int, FailoverPhase::Promoting, inputs), b),
    ensures
        a matches FailoverAction::Promote { node_id, agent_addr } && node_id@ == p.candidate@
            && agent_addr@ == p.candidate_agent@,
        b is Abort,
{
    lemma_refused_promotion_ends(p.replicas@.len() as int, inputs);
}

proof fn lemma_refused_promotion_ends(replicas: int, inputs: Seq<FailoverInput>)
    requires
        inputs.len() > 0,
        inputs[0] == FailoverInput::Done(false),
    ensures
        run(replicas, FailoverPhase::Promoting, inputs) == FailoverPhase::PromoteFailed,
    decreases inputs.len(),
{
    if inputs.len() == 1 {
        reveal_with_fuel(run, 2);
        assert(inputs.drop_last() =~= Seq::empty());
    } else {
        assert(inputs.drop_last()[0] == inputs[0]);
        lemma_refused_promotion_ends(replicas, inputs.drop_last());
    }
}

/// The reports of a status request after another.
pub open spec fn statuses(reports: Seq<StatusReport>) -> Seq<FailoverInput> {
    reports.map_values(|r: StatusReport| FailoverInput::Status(r))
}

/// Whether a report shows a node that runs and is not in recovery.
pub open spec fn shows_primary(r: StatusReport) -> bool {
    r matches StatusReport::Status { is_in_recovery, postgres_running } && !is_in_recovery
        && postgres_running
}

/// After a confirmed promotion the status is asked for up to three times: at
/// once, then after half a second each. The first report that shows a primary
/// is enough to go on; a lost connection, or three reports that do not show
/// one, end the failover.
pub proof fn lemma_promotion_is_verified(
    p: FailoverPlan,
    reports: Seq<StatusReport>,
    a: FailoverAction,
)
    requires
        reports.len() <= 3,
        forall|i: int|
            0 <= i < reports.len() - 1 ==> !shows_primary(#[trigger] reports[i]) && reports[i]
                != StatusReport::ConnectFailed,
        is_action(
            p,
            run(
                p.replicas@.len() as int,
                FailoverPhase::Promoting,
                seq![FailoverInput::Done(true)] + statuses(reports),
            ),
            a,
        ),
    ensures
        reports.len() > 0 && shows_primary(reports.last()) ==> (a matches FailoverAction::Propose(
            cmd,
        ) && cmd@ == (CommandView::SetPrimary {
            node_id: p.candidate@,
            at_lsn: p.at_lsn,
            new_timeline: 1,
        })),
        reports.len() > 0 && reports.last() == StatusReport::ConnectFailed ==> a is Abort,
        reports.len() == 3 && !shows_primary(reports.last()) ==> a is Abort,
        reports.len() == 0 || reports.len() < 3 && !shows_primary(reports.last())
            && reports.last() != StatusReport::ConnectFailed ==> (
        a matches FailoverAction::CheckStatus { node_id, agent_addr, wait_ms } && node_id@
            == p.candidate@ && agent_addr@ == p.candidate_agent@ && wait_ms == if reports.len()
            == 0 {
            0int
        } else {
            500int
        }),
{
    let n = p.replicas@.len() as int;
    lemma_verification(n, reports);
}

/// The phases of the verification.
proof fn lemma_verification(replicas: int, reports: Seq<StatusReport>)
    requires
        reports.len() <= 3,
        forall|i: int|
            0 <= i < reports.len() - 1 ==> !shows_primary(#[trigger] reports[i]) && reports[i]
                != StatusReport::ConnectFailed,
    ensures
        ({
            let phase = run(
                replicas,
                FailoverPhase::Promoting,
                seq![FailoverInput::Done(true)] + statuses(reports),
            );
            if reports.len() == 0 {
                phase == FailoverPhase::Verifying(1)
            } else if reports.last() == StatusReport::ConnectFailed {
                phase == FailoverPhase::VerifyFailed
            } else if shows_primary(reports.last()) {
                phase == FailoverPhase::Announcing
            } else if reports.len() == 3 {
                phase == FailoverPhase::VerifyFailed
            } else {
                phase == FailoverPhase::Verifying((reports.len() + 1) as u32)
            }
        }),
    decreases reports.len(),
{
    let inputs = seq![FailoverInput::Done(true)] + statuses(reports);
    if reports.len() == 0 {
        reveal_with_fuel(run, 2);
        assert(inputs =~= seq![FailoverInput::Done(true)]);
        assert(inputs.drop_last() =~= Seq::empty());
    } else {
        let front = reports.drop_last();
        lemma_verification(replicas, front);
        assert(inputs.drop_last() =~= seq![FailoverInput::Done(true)] + statuses(front));
        assert(inputs.last() == FailoverInput::Status(reports.last()));
        if front.len() > 0 {
            assert(front.last() == reports[reports.len() - 2]);
        }
    }
}

/// A report that does not belong to the action in progress changes nothing,
/// and a failover that has ended stays so.
pub proof fn lemma_stray_reports_do_nothing(
    replicas: int,
    phase: FailoverPhase,
    ok: bool,
    report: StatusReport,
)
    ensures
        !(phase is Verifying) ==> next_phase(replicas, phase, FailoverInput::Status(report))
            == phase,
        phase is Verifying || phase is Finished || phase is PromoteFailed || phase is VerifyFailed
            ==> next_phase(replicas, phase, FailoverInput::Done(ok)) == phase,
{
}

// ── After the announcement ───────────────────────────────────────────────────

/// Reports that actions were performed, successfully or not.
pub open spec fn dones(oks: Seq<bool>) -> Seq<FailoverInput> {
    oks.map_values(|ok: bool| FailoverInput::Done(ok))
}

/// Where a failover stands after as many reports as `oks` holds, counted from
/// the announcement: it is recorded, the slots are created, and then the
/// replicas are pointed to the new primary in their order, each exactly once,
/// whether or not an action succeeds. Only then the failover is complete.
pub proof fn lemma_replicas_are_visited_in_order(replicas: int, oks: Seq<bool>)
    requires
        0 <= replicas <= usize::MAX,
    ensures
        ({
            let phase = run(replicas, FailoverPhase::Announcing, dones(oks));
            let k = oks.len() as int;
            &&& k == 0 ==> phase == FailoverPhase::Announcing
            &&& k == 1 ==> phase == FailoverPhase::Recording
            &&& k == 2 && replicas > 0 ==> phase == FailoverPhase::EnsuringSlots
            &&& 3 <= k < 3 + replicas ==> phase == FailoverPhase::Repointing((k - 3) as usize)
            &&& k >= 3 + replicas || replicas == 0 && k >= 2 ==> phase == FailoverPhase::Finished
        }),
    decreases oks.len(),
{
    if oks.len() > 0 {
        let front = oks.drop_last();
        lemma_replicas_are_visited_in_order(replicas, front);
        assert(dones(oks).drop_last() =~= dones(front));
        assert(dones(oks).last() == FailoverInput::Done(oks.last()));
    }
}

/// Every replica of the plan is demoted, by its own agent, to follow the new
/// primary through its own slot: the one at position `i` after the announcement,
/// the record, the slots and the `i` replicas before it.
pub proof fn lemma_every_replica_is_demoted(
    p: FailoverPlan,
    oks: Seq<bool>,
    i: int,
    a: FailoverAction,
)
    requires
        0 <= i < p.replicas@.len() <= usize::MAX,
        oks.len() == 3 + i,
        is_action(p, run(p.replicas@.len() as int, FailoverPhase::Announcing, dones(oks)), a),
    ensures
        a matches FailoverAction::Demote { node_id, agent_addr, conninfo, slot_name } && node_id@
            == p.replicas@[i].node_id@ && agent_addr@ == p.replicas@[i].agent_addr@ && conninfo@
            == p.conninfo@ && slot_name@ == p.slot_prefix@ + p.replicas@[i].node_id@,
{
    lemma_replicas_are_visited_in_order(p.replicas@.len() as int, oks);
}

/// The failover is complete only when every replica was pointed to the new
/// primary, and it is given up at no time after the announcement.
pub proof fn lemma_failover_leaves_no_replica_behind(
    p: FailoverPlan,
    oks: Seq<bool>,
    a: FailoverAction,
)
    requires
        p.replicas@.len() <= usize::MAX,
        is_action(p, run(p.replicas@.len() as int, FailoverPhase::Announcing, dones(oks)), a),
    ensures
        a is Finish <==> oks.len() >= if p.replicas@.len() == 0 {
            2
        } else {
            3 + p.replicas@.len()
        },
        !(a is Abort),
{
    lemma_replicas_are_visited_in_order(p.replicas@.len() as int, oks);
}

/// After the announcement the failover is recorded, from the failed node to the
/// candidate; then the new primary gets one slot for each replica.
pub proof fn lemma_failover_is_recorded(
    p: FailoverPlan,
    oks: Seq<bool>,
    a: FailoverAction,
)
    requires
        p.replicas@.len() <= usize::MAX,
        is_action(p, run(p.replicas@.len() as int, FailoverPhase::Announcing, dones(oks)), a),
    ensures
        oks.len() == 0 ==> (a matches FailoverAction::Propose(cmd) && cmd@
            == (CommandView::SetPrimary {
            node_id: p.candidate@,
            at_lsn: p.at_lsn,
            new_timeline: 1,
        })),
        oks.len() == 1 ==> (a matches FailoverAction::Record { old_primary, new_primary, reason }
            && old_primary@ == p.failed_primary@ && new_primary@ == p.candidate@ && reason@
            == "health_check_failure"@),
        oks.len() == 2 && p.replicas@.len() > 0 ==> (a matches FailoverAction::EnsureSlots {
            primary_url,
            slots,
        } && primary_url@ == p.primary_url@ && slots@.len() == p.replicas@.len() && (forall|i: int|
            0 <= i < slots@.len() ==> (#[trigger] slots@[i])@ == p.slot_prefix@
                + p.replicas@[i].node_id@)),
{
    lemma_replicas_are_visited_in_order(p.replicas@.len() as int, oks);
}

/// No action of a failover demotes the candidate or speaks to the failed node.
pub proof fn lemma_new_primary_is_not_demoted(
    t: TopologyView,
    failed: Seq<char>,
    user: Seq<char>,
    password: Seq<char>,
    slot_prefix: Seq<char>,
    p: FailoverPlan,
    phase: FailoverPhase,
    a: FailoverAction,
)
    requires
        is_plan(t, failed, user, password, slot_prefix, p),
        phase matches FailoverPhase::Repointing(i) ==> i < p.replicas@.len(),
        is_action(p, phase, a),
    ensures
        a matches FailoverAction::Demote { node_id, .. } ==> node_id@ != p.candidate@ && node_id@
            != failed,
        a matches FailoverAction::Promote { node_id, .. } ==> node_id@ == p.candidate@,
        a matches FailoverAction::CheckStatus { node_id, .. } ==> node_id@ == p.candidate@,
{
    if let FailoverPhase::Repointing(i) = phase {
        let targets = views(p.replicas@);
        assert(targets[i as int] == p.replicas@[i as int]@);
        assert(super::is_repointed(t, failed, p.candidate@, targets[i as int].node_id));
    }
}

/// A failover is planned whenever a replica other than the failed node exists
/// and the best one is configured. It is given up for want of a candidate only
/// if there is no such replica.
pub proof fn lemma_failover_is_planned_when_it_can_be(
    t: TopologyView,
    failed: Seq<char>,
    user: Seq<char>,
    password: Seq<char>,
    slot_prefix: Seq<char>,
    r: Result<FailoverPlan, super::FailoverAbort>,
    other: Seq<char>,
)
    requires
        super::is_planned(t, failed, user, password, slot_prefix, r),
        other != failed,
        t.node_roles.contains_key(other),
        t.node_roles[other] == NodeRole::Replica,
        forall|id: Seq<char>|
            t.node_roles.contains_key(id) && #[trigger] t.node_roles[id] == NodeRole::Replica
                ==> t.node_configs.contains_key(id),
    ensures
        r matches Ok(p) && is_plan(t, failed, user, password, slot_prefix, p),
{
    assert(t.is_candidate(failed, other));
    if let Err(super::FailoverAbort::NoConfig(c)) = r {
        assert(t.node_roles[c@] == NodeRole::Replica);
    }
}

/// No failover is planned if no other node is a replica.
pub proof fn lemma_no_replica_no_failover(
    t: TopologyView,
    failed: Seq<char>,
    user: Seq<char>,
    password: Seq<char>,
    slot_prefix: Seq<char>,
    r: Result<FailoverPlan, super::FailoverAbort>,
)
    requires
        super::is_planned(t, failed, user, password, slot_prefix, r),
        forall|id: Seq<char>|
            id != failed && t.node_roles.contains_key(id) ==> #[trigger] t.node_roles[id]
                != NodeRole::Replica,
    ensures
        r matches Err(super::FailoverAbort::NoCandidate),
{
    match r {
        Ok(p) => {
            assert(t.node_roles[p.candidate@] == NodeRole::Replica);
        },
        Err(super::FailoverAbort::NoConfig(c)) => {
            assert(t.node_roles[c@] == NodeRole::Replica);
        },
        Err(super::FailoverAbort::NoCandidate) => {},
    }
}

/// The first action of a failover promotes the candidate, by its own agent.
pub proof fn lemma_first_action(p: FailoverPlan, a: FailoverAction)
    requires
        is_action(p, super::first_phase(), a),
    ensures
        a matches FailoverAction::Promote { node_id, agent_addr } && node_id@ == p.candidate@
            && agent_addr@ == p.candidate_agent@,
{
}

} // verus!
