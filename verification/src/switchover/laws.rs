//! What a switchover does from its first action to its last.

use super::handoff::{failure_text, is_action, is_handoff, run, HandoffAction};
use super::handoff::{HandoffInput, HandoffPhase, HandoffPlan};
use super::lag_wait::{sync_step, SyncStep};
use super::{is_switchover_step, HandoffError, SwitchoverParams, SwitchoverStep};
use crate::failover::laws::lemma_host_before_port;
use crate::raft::commands::CommandView;
use crate::raft::topology::{ClusterTopology, TopologyView};
use vstd::prelude::*;

verus! {

// ── Who is addressed ─────────────────────────────────────────────────────────

/// In every phase of a hand-off, only the node that was the primary when the
/// plan was made is demoted, by its own agent and to follow the new primary
/// through its own slot; only the new primary is promoted, by its own agent,
/// and only it is announced, with its flush position.
pub proof fn lemma_old_primary_follows_new(
    t: TopologyView,
    new_primary: Seq<char>,
    user: Seq<char>,
    password: Seq<char>,
    drain_ms: Option<u64>,
    slot_prefix: Seq<char>,
    p: HandoffPlan,
    phase: HandoffPhase,
    a: HandoffAction,
    host: Seq<char>,
    rest: Seq<char>,
)
    requires
        is_handoff(t, new_primary, user, password, drain_ms, slot_prefix, p),
        is_action(p, phase, a),
        !host.contains(':'),
        t.node_configs[new_primary].postgres_addr == host + seq![':'] + rest,
    ensures
        match a {
            HandoffAction::Drain { wait_ms } => Some(wait_ms) == drain_ms,
            HandoffAction::Demote { node_id, agent_addr, conninfo, slot_name } => {
                &&& node_id@ == t.primary_node_id
                &&& t.primary_node_id != new_primary ==> node_id@ != new_primary
                &&& agent_addr@ == t.node_configs[t.primary_node_id].agent_addr
                &&& conninfo@ == "host="@ + host + " port=5432 user="@ + user + " password="@
                    + password
                &&& slot_name@ == slot_prefix + t.primary_node_id
            },
            HandoffAction::Promote { node_id, agent_addr } => {
                &&& node_id@ == new_primary
                &&& agent_addr@ == t.node_configs[new_primary].agent_addr
            },
            HandoffAction::Propose(cmd) => cmd@ == (CommandView::SetPrimary {
                node_id: new_primary,
                at_lsn: if t.last_flush_lsns.contains_key(new_primary) {
                    t.last_flush_lsns[new_primary]
                } else {
                    0
                },
                new_timeline: 0,
            }),
            _ => true,
        },
{
    lemma_host_before_port(host, rest);
}

// ── The order of the actions ─────────────────────────────────────────────────

/// Successful reports.
pub open spec fn successes(n: nat) -> Seq<bool> {
    Seq::new(n, |i: int| true)
}

proof fn lemma_after_successes(n: nat)
    ensures
        run(HandoffPhase::Demoting, successes(n)) == if n == 0 {
            HandoffPhase::Demoting
        } else if n == 1 {
            HandoffPhase::Promoting
        } else if n == 2 {
            HandoffPhase::Announcing
        } else if n == 3 {
            HandoffPhase::Repointing
        } else {
            HandoffPhase::Finished
        },
        run(HandoffPhase::Finished, successes(n)) == HandoffPhase::Finished,
    decreases n,
{
    reveal_with_fuel(run, 6);
    if n > 0 {
        let m = (n - 1) as nat;
        lemma_after_successes(m);
        assert(successes(n).skip(1) =~= successes(m));
    }
    if n >= 2 {
        assert(successes(n).skip(1).skip(1) =~= successes((n - 2) as nat));
    }
    if n >= 3 {
        assert(successes(n).skip(1).skip(1).skip(1) =~= successes((n - 3) as nat));
    }
    if n >= 4 {
        lemma_after_successes((n - 4) as nat);
        assert(successes(n).skip(1).skip(1).skip(1).skip(1) =~= successes((n - 4) as nat));
    }
}

/// A hand-off that succeeds demotes the old primary, promotes the new one,
/// announces it, demotes the old one again to follow it, and then is complete.
/// With a proxy, clients are sent away first.
pub proof fn lemma_actions_come_in_order(
    p: HandoffPlan,
    n: nat,
    a: HandoffAction,
    b: HandoffAction,
)
    requires
        is_action(p, run(HandoffPhase::Demoting, successes(n)), a),
        is_action(p, run(HandoffPhase::Draining, successes(n + 1)), b),
    ensures
        n == 0 || n == 3 ==> a is Demote && b is Demote,
        n == 1 ==> a is Promote && b is Promote,
        n == 2 ==> a is Propose && b is Propose,
        n >= 4 ==> a is Finish && b is Finish,
{
    lemma_after_successes(n);
    assert(successes(n + 1).skip(1) =~= successes(n));
}

/// A hand-off is given up if the demotion, the promotion or the announcement
/// fails, and it stays given up. A failure to drain or to repoint the old
/// primary is passed over.
pub proof fn lemma_failures_end_a_handoff(
    p: HandoffPlan,
    n: nat,
    more: Seq<bool>,
    a: HandoffAction,
)
    requires
        n <= 3,
        is_action(
            p,
            run(run(HandoffPhase::Demoting, successes(n)), seq![false] + more),
            a,
        ),
    ensures
        n <= 2 ==> a is Fail,
        ({
            let before = run(HandoffPhase::Demoting, successes(n));
            if n <= 2 {
                run(before, seq![false] + more) == HandoffPhase::Failed
            } else {
                run(before, seq![false]) == HandoffPhase::Finished
            }
        }),
        run(HandoffPhase::Draining, seq![false] + more) == run(HandoffPhase::Demoting, more),
{
    lemma_after_successes(n);
    reveal_with_fuel(run, 3);
    assert((seq![false] + more).skip(1) =~= more);
    assert(seq![false].skip(1) =~= Seq::empty());
    lemma_failed_stays(more);
}

proof fn lemma_failed_stays(more: Seq<bool>)
    ensures
        run(HandoffPhase::Failed, more) == HandoffPhase::Failed,
    decreases more.len(),
{
    if more.len() > 0 {
        lemma_failed_stays(more.skip(1));
    }
}

/// The reason for a failure holds what was reported, and names the node that
/// refused.
pub proof fn lemma_failure_names_its_cause(p: HandoffPlan, e: String)
    ensures
        failure_text(p, HandoffPhase::Demoting, HandoffInput::Error(e)) == e@,
        failure_text(p, HandoffPhase::Promoting, HandoffInput::Error(e)) == e@,
        failure_text(p, HandoffPhase::Demoting, HandoffInput::Refused(e))
            == "demote RPC failed for old primary "@ + p.old_primary@ + ": "@ + e@,
        failure_text(p, HandoffPhase::Promoting, HandoffInput::Refused(e))
            == "promote RPC failed for new primary "@ + p.new_primary@ + ": "@ + e@,
        failure_text(p, HandoffPhase::Announcing, HandoffInput::Error(e))
            == "Raft propose SetPrimary: "@ + e@,
{
}

// ── Waiting for the target ───────────────────────────────────────────────────

/// The position that a node last reported, 0 if it reported none.
pub open spec fn reported(t: TopologyView, id: Seq<char>) -> int {
    if t.last_flush_lsns.contains_key(id) {
        t.last_flush_lsns[id] as int
    } else {
        0
    }
}

/// Within the time limit, a target counts as caught up exactly if it is no
/// further behind the primary than allowed; the reported lag is the distance
/// between the two positions, and none if the target is ahead.
pub proof fn lemma_sync_compares_positions(
    t: TopologyView,
    target: Seq<char>,
    max_lag_bytes: u64,
    elapsed_ms: u64,
    timeout_ms: int,
)
    ensures
        ({
            let r = sync_step(t, target, max_lag_bytes, elapsed_ms, timeout_ms);
            let ahead = reported(t, t.primary_node_id);
            let behind = reported(t, target);
            &&& r is TimedOut <==> elapsed_ms >= timeout_ms
            &&& r is Synced <==> elapsed_ms < timeout_ms && ahead <= behind + max_lag_bytes
            &&& r is Waiting <==> elapsed_ms < timeout_ms && ahead > behind + max_lag_bytes
            &&& r matches SyncStep::Waiting(lag) ==> behind + lag == ahead
            &&& r matches SyncStep::Synced(lag) ==> (if ahead >= behind {
                behind + lag == ahead
            } else {
                lag == 0
            })
        }),
{
}

/// A switchover hands off exactly if the time is not over, the target is close
/// enough to the primary, and both are configured. It hands off from the
/// current primary to the target.
pub proof fn lemma_switchover_hands_off_when_it_may(
    t: ClusterTopology,
    p: SwitchoverParams,
    elapsed_ms: u64,
    r: SwitchoverStep,
)
    requires
        is_switchover_step(t, p, elapsed_ms, r),
    ensures
        ({
            let in_time = elapsed_ms < p.sync_timeout_secs * 1000;
            let close = reported(t@, t@.primary_node_id) <= reported(t@, p.new_primary_id@)
                + p.max_lag_bytes;
            let old_known = t@.node_configs.contains_key(t@.primary_node_id);
            let new_known = t@.node_configs.contains_key(p.new_primary_id@);
            &&& r is TimedOut <==> !in_time
            &&& r is Wait <==> in_time && !close
            &&& (r matches SwitchoverStep::Refuse(HandoffError::OldPrimaryMissing(id)) && id@
                == t@.primary_node_id) <==> in_time && close && !old_known
            &&& (r matches SwitchoverStep::Refuse(HandoffError::NewPrimaryMissing(id)) && id@
                == p.new_primary_id@) <==> in_time && close && old_known && !new_known
            &&& r is HandOff <==> in_time && close && old_known && new_known
            &&& r matches SwitchoverStep::HandOff(plan) ==> plan.old_primary@ == t@.primary_node_id
                && plan.new_primary@ == p.new_primary_id@ && plan.drain_ms == p.drain_timeout_ms
        }),
{
    lemma_sync_compares_positions(
        t@,
        p.new_primary_id@,
        p.max_lag_bytes,
        elapsed_ms,
        p.sync_timeout_secs * 1000,
    );
}

/// A hand-off is planned exactly if both nodes are configured. It begins with
/// sending clients away if there is a proxy, and with the demotion of the old
/// primary otherwise.
pub proof fn lemma_start_of_a_handoff(
    t: TopologyView,
    new_primary: Seq<char>,
    user: Seq<char>,
    password: Seq<char>,
    drain_ms: Option<u64>,
    slot_prefix: Seq<char>,
    r: Result<HandoffPlan, HandoffError>,
    p: HandoffPlan,
    a: HandoffAction,
)
    requires
        super::handoff::is_handoff_answer(
            t,
            new_primary,
            user,
            password,
            drain_ms,
            slot_prefix,
            r,
        ),
        r == Ok::<HandoffPlan, HandoffError>(p) ==> is_action(
            p,
            super::handoff::first_phase(p),
            a,
        ),
    ensures
        r is Ok <==> t.node_configs.contains_key(t.primary_node_id) && t.node_configs.contains_key(
            new_primary,
        ),
        r == Ok::<HandoffPlan, HandoffError>(p) ==> match drain_ms {
            Some(ms) => a == (HandoffAction::Drain { wait_ms: ms }),
            None => a matches HandoffAction::Demote { node_id, .. } && node_id@
                == t.primary_node_id,
        },
{
}

/// A switchover cannot be planned if the address of one of its two nodes is not
/// known. The refusal names that node, the old primary first.
pub proof fn lemma_missing_nodes_are_named(
    t: TopologyView,
    new_primary: Seq<char>,
    user: Seq<char>,
    password: Seq<char>,
    drain_ms: Option<u64>,
    slot_prefix: Seq<char>,
    r: Result<HandoffPlan, HandoffError>,
)
    requires
        super::handoff::is_handoff_answer(
            t,
            new_primary,
            user,
            password,
            drain_ms,
            slot_prefix,
            r,
        ),
    ensures
        r is Ok <==> t.node_configs.contains_key(t.primary_node_id) && t.node_configs.contains_key(
            new_primary,
        ),
        !t.node_configs.contains_key(t.primary_node_id) ==> (r matches Err(
            HandoffError::OldPrimaryMissing(id),
        ) && id@ == t.primary_node_id),
        t.node_configs.contains_key(t.primary_node_id) && !t.node_configs.contains_key(new_primary)
            ==> (r matches Err(HandoffError::NewPrimaryMissing(id)) && id@ == new_primary),
{
}

} // verus!
