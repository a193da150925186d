//! What the API promises to operators.

use super::auth::{allowed, bearer};
use super::backup::{is_backup_from, is_manual_backup, ManualBackup, TriggerBackupRequest};
use super::failover::failover_answer;
use super::maintenance::{entering, leaving, DecisionView};
use super::nodes::node_info;
use super::pg_hba::{failures, successes, ReloadAttempt};
use super::switchover::switchover_answer;
use super::ErrorReply;
use crate::backup::is_source;
use crate::config::BackupConfig;
use crate::raft::commands::CommandView;
use crate::raft::state_machine::applied;
use crate::raft::topology::{NodeConfigView, NodeRole, TopologyView};
use crate::text::{is_space, lemma_begins_parts, lemma_text_parts, lemma_trimming};
use vstd::prelude::*;

verus! {

// ── Operations ───────────────────────────────────────────────────────────────

/// A switchover begins exactly if its target is configured, has the role of a
/// replica and is not the primary, and no operation is in progress.
pub proof fn lemma_when_a_switchover_begins(busy: bool, t: TopologyView, target: Seq<char>)
    ensures
        ({
            let r = switchover_answer(busy, t, target);
            let known = t.node_configs.contains_key(target);
            let ready = known && t.primary_node_id != target && t.node_roles.contains_key(target)
                && t.node_roles[target] == NodeRole::Replica;
            &&& r.1 <==> ready && !busy
            &&& r.1 <==> r.0 == 202
            &&& r.0 == 404 <==> !known
            &&& r.0 == 400 <==> known && !ready
            &&& r.0 == 409 <==> ready && busy
            &&& r.1 ==> r.2 == "switchover to "@ + target + " initiated"@
            &&& !known ==> r.2 == "node "@ + target + " not found"@
            &&& ready && busy ==> r.2 == "a switchover or failover is already in progress"@
            &&& known && t.primary_node_id == target ==> r.2 == "target is already the primary"@
            &&& known && t.primary_node_id != target && !t.node_roles.contains_key(target) ==> r.2
                == "target "@ + target + " has no role in topology — not ready for switchover"@
            &&& known && t.primary_node_id != target && t.node_roles.contains_key(target) && !ready
                ==> r.2 == "target "@ + target + " is in role "@ + (
            match t.node_roles[target] {
                NodeRole::Primary => "Primary"@,
                NodeRole::Replica => "Replica"@,
                NodeRole::Maintenance => "Maintenance"@,
                NodeRole::Offline => "Offline"@,
                NodeRole::Unknown => "Unknown"@,
            }) + " — only Replica nodes can be promoted"@
        }),
{
}

/// A failover begins exactly if the failed node is configured and no operation
/// is in progress.
pub proof fn lemma_when_a_failover_begins(busy: bool, t: TopologyView, failed: Seq<char>)
    ensures
        ({
            let r = failover_answer(busy, t, failed);
            let known = t.node_configs.contains_key(failed);
            &&& r.1 <==> known && !busy
            &&& r.1 <==> r.0 == 202
            &&& r.0 == 409 <==> busy
            &&& r.0 == 404 <==> !busy && !known
            &&& r.1 ==> r.2 == "failover initiated for "@ + failed
            &&& busy ==> r.2
                == "a switchover or failover is already in progress — retry after it completes"@
            &&& !busy && !known ==> r.2 == "node "@ + failed + " not found"@
        }),
{
}

// ── Maintenance ──────────────────────────────────────────────────────────────

/// A node can be put into maintenance exactly if it is configured and not the
/// primary. It then is in maintenance, and no other node changes its role.
pub proof fn lemma_entering_maintenance(
    t: TopologyView,
    node_id: Seq<char>,
    now: i64,
    other: Seq<char>,
)
    requires
        other != node_id,
    ensures
        (entering(t, node_id) matches DecisionView::Write(c) && {
            let u = applied(t, c, now);
            &&& u.node_roles.contains_key(node_id)
            &&& u.node_roles[node_id] == NodeRole::Maintenance
            &&& u.node_roles.contains_key(other) == t.node_roles.contains_key(other)
            &&& t.node_roles.contains_key(other) ==> u.node_roles[other] == t.node_roles[other]
            &&& u.primary_node_id == t.primary_node_id
        }) <==> t.node_configs.contains_key(node_id) && t.primary_node_id != node_id,
        !t.node_configs.contains_key(node_id) ==> entering(t, node_id) == DecisionView::Answer(
            404,
            (false, "node "@ + node_id + " not found"@),
        ),
        t.node_configs.contains_key(node_id) && t.primary_node_id == node_id ==> entering(
            t,
            node_id,
        ) == DecisionView::Answer(
            400,
            (false, "cannot put the current primary into maintenance — switchover first"@),
        ),
{
}

/// A node can be taken out of maintenance exactly if it is configured and in
/// maintenance. It then is a replica.
pub proof fn lemma_leaving_maintenance(t: TopologyView, node_id: Seq<char>, now: i64)
    ensures
        ({
            let away = t.node_roles.contains_key(node_id) && t.node_roles[node_id]
                == NodeRole::Maintenance;
            &&& (leaving(t, node_id) matches DecisionView::Write(c) && {
                let u = applied(t, c, now);
                &&& u.node_roles.contains_key(node_id)
                &&& u.node_roles[node_id] == NodeRole::Replica
            }) <==> t.node_configs.contains_key(node_id) && away
            &&& !t.node_configs.contains_key(node_id) ==> leaving(t, node_id)
                == DecisionView::Answer(404, (false, "node "@ + node_id + " not found"@))
            &&& t.node_configs.contains_key(node_id) && !away ==> leaving(t, node_id)
                == DecisionView::Answer(
                400,
                (false, "node "@ + node_id + " is not in maintenance mode"@),
            )
        }),
{
}

// ── Keys ─────────────────────────────────────────────────────────────────────

/// A header carries the token that stands behind `Bearer `, without white space
/// around it, and a header that does not begin so carries none.
pub proof fn lemma_token_in_header(
    before: Seq<char>,
    token: Seq<char>,
    after: Seq<char>,
    header: Seq<char>,
)
    requires
        forall|i: int| 0 <= i < before.len() ==> is_space(#[trigger] before[i]),
        forall|i: int| 0 <= i < after.len() ==> is_space(#[trigger] after[i]),
        token.len() > 0,
        !is_space(token[0]),
        !is_space(token.last()),
        forall|rest: Seq<char>| header != #[trigger] ("Bearer "@ + rest),
    ensures
        bearer("Bearer "@ + (before + token + after)) == Some(token),
        bearer(header) is None,
{
    let rest = before + token + after;
    lemma_text_parts("Bearer "@, rest, ' ');
    assert(rest =~= before + (token + after));
    assert((token + after)[0] == token[0]);
    lemma_trimming(before, token + after);
    lemma_trimming(after, token);
    lemma_begins_parts(header, "Bearer "@);
}

/// A request is served exactly if there are no keys, or it only reads and
/// reading is public, or it carries one of the keys.
pub proof fn lemma_who_is_served(
    keys: Seq<String>,
    public_read: bool,
    method: Seq<char>,
    header: Option<Seq<char>>,
)
    ensures
        allowed(keys, public_read, method, header) <==> keys.len() == 0 || public_read && (method
            == "GET"@ || method == "HEAD"@) || (header is Some && bearer(header->0) is Some
            && exists|i: int| 0 <= i < keys.len() && (#[trigger] keys[i])@ == bearer(header->0)->0),
{
}

// ── Nodes ────────────────────────────────────────────────────────────────────

/// What is shown of a node is what the topology holds of it.
pub proof fn lemma_node_is_shown_as_it_is(
    t: TopologyView,
    cfg: NodeConfigView,
    no_role: Seq<char>,
)
    ensures
        ({
            let id = cfg.node_id;
            let r = node_info(t, cfg, no_role);
            &&& r.node_id == id && r.postgres_addr == cfg.postgres_addr && r.agent_addr
                == cfg.agent_addr && r.priority == cfg.priority
            &&& !t.node_roles.contains_key(id) ==> r.role == no_role
            &&& t.node_roles.contains_key(id) ==> r.role == match t.node_roles[id] {
                NodeRole::Primary => "primary"@,
                NodeRole::Replica => "replica"@,
                NodeRole::Offline => "offline"@,
                NodeRole::Maintenance => "maintenance"@,
                NodeRole::Unknown => "unknown"@,
            }
            &&& r.flush_lsn == if t.last_flush_lsns.contains_key(id) {
                t.last_flush_lsns[id]
            } else {
                0
            }
            &&& r.replay_lsn == if t.last_replay_lsns.contains_key(id) {
                t.last_replay_lsns[id]
            } else {
                0
            }
            &&& r.lag_bytes == if t.replica_lag_bytes.contains_key(id) {
                t.replica_lag_bytes[id]
            } else {
                0
            }
        }),
{
}

// ── Reloading ────────────────────────────────────────────────────────────────

/// One more attempt adds its node to those that reloaded exactly if the agent
/// answered that it did, and to those that failed otherwise, with the error.
pub proof fn lemma_attempts_are_told_apart(
    attempts: Seq<(String, ReloadAttempt)>,
    node: String,
    e: String,
)
    ensures
        ({
            let done = attempts.push(
                (node, ReloadAttempt::Answered { success: true, error: e }),
            );
            let refused = attempts.push(
                (node, ReloadAttempt::Answered { success: false, error: e }),
            );
            let lost = attempts.push((node, ReloadAttempt::ConnectFailed(e)));
            let broken = attempts.push((node, ReloadAttempt::RpcFailed(e)));
            &&& successes(done) == successes(attempts).push(node@)
            &&& failures(done) == failures(attempts)
            &&& successes(refused) == successes(attempts)
            &&& failures(refused) == failures(attempts).push((node@, e@))
            &&& successes(lost) == successes(attempts)
            &&& failures(lost) == failures(attempts).push((node@, "connect failed: "@ + e@))
            &&& successes(broken) == successes(attempts)
            &&& failures(broken) == failures(attempts).push((node@, "RPC failed: "@ + e@))
        }),
        successes(Seq::empty()).len() == 0,
        failures(Seq::empty()).len() == 0,
{
    let done = (node, ReloadAttempt::Answered { success: true, error: e });
    let refused = (node, ReloadAttempt::Answered { success: false, error: e });
    let lost = (node, ReloadAttempt::ConnectFailed(e));
    let broken = (node, ReloadAttempt::RpcFailed(e));
    assert(attempts.push(done).drop_last() =~= attempts);
    assert(attempts.push(refused).drop_last() =~= attempts);
    assert(attempts.push(lost).drop_last() =~= attempts);
    assert(attempts.push(broken).drop_last() =~= attempts);
}

// ── Backups ──────────────────────────────────────────────────────────────────

/// A backup that is asked for is taken if backups are configured and enabled and
/// there is a node to take it from, under the given label and tier, or under
/// "manual" where the request does not say.
pub proof fn lemma_manual_backup(
    c: BackupConfig,
    t: TopologyView,
    req: &TriggerBackupRequest,
    id: Seq<char>,
    r: Result<ManualBackup, ErrorReply>,
    unset: Result<ManualBackup, ErrorReply>,
)
    requires
        is_manual_backup(&Some(c), t, req, id, r),
        is_manual_backup(&None, t, req, id, unset),
    ensures
        unset matches Err(e) && e.status == 404 && e.message@ == "backup not configured"@,
        !c.enabled ==> (r matches Err(e) && e.status == 503 && e.message@
            == "backup is disabled"@),
        c.enabled ==> {
            ||| (r matches Err(e) && e.status == 503 && e.message@
                == "no suitable backup source node available"@ && is_source(
                t,
                c.prefer_replica,
                None,
            ))
            ||| (r matches Ok(b) && b.response.backup_id@ == id && (req.label matches Some(l)
                ==> b.label@ == l@) && (req.label is None ==> b.label@ == "manual-"@ + id.take(8))
                && (req.frequency matches Some(f) ==> b.frequency@ == f@) && (req.frequency is None
                ==> b.frequency@ == "manual"@) && exists|node: String, addr: String| #[trigger]
                is_source(t, c.prefer_replica, Some((node, addr))) && b.source_node@ == node@
                    && b.source_addr@ == addr@)
        },
{
    if c.enabled {
        let source = choose|source: Option<(String, String)>| #[trigger]
            is_source(t, c.prefer_replica, source) && is_backup_from(source, req, id, r);
        match source {
            None => {},
            Some((node, addr)) => {
                assert(is_source(t, c.prefer_replica, Some((node, addr))));
            },
        }
    }
}

/// Once an operation was accepted, no other is until the slot is given back.
pub proof fn lemma_accepted_operation_excludes_others(
    busy: bool,
    t: TopologyView,
    target: Seq<char>,
    u: TopologyView,
    other: Seq<char>,
)
    requires
        switchover_answer(busy, t, target).1 || failover_answer(busy, t, target).1,
    ensures
        !switchover_answer(crate::ops::occupied(busy, true), u, other).1,
        !failover_answer(crate::ops::occupied(busy, true), u, other).1,
        switchover_answer(crate::ops::after_release(true), t, target).1
            || failover_answer(crate::ops::after_release(true), t, target).1,
{
}

/// A list of backups holds those of the frequency that was asked for, or all if
/// none was.
pub proof fn lemma_which_backups_are_listed(
    q: super::backup::ListQuery,
    b: crate::raft::topology::BackupManifestView,
)
    ensures
        q.frequency is None ==> q.asks_for(b),
        q.frequency matches Some(f) ==> (q.asks_for(b) <==> b.frequency == f@),
{
}

/// A failover is shown with the nodes, the time, the length and the reason that
/// were recorded.
pub proof fn lemma_history_is_shown_as_recorded(
    h: super::failover::HistoryEntry,
    e: crate::raft::topology::FailoverEventView,
)
    requires
        h.shows(e),
    ensures
        h.old_primary@ == e.old_primary,
        h.new_primary@ == e.new_primary,
        h.duration_ms == e.duration_ms,
        h.reason@ == e.reason,
        e.triggered_at >= 0 ==> h.triggered_at@ == crate::calendar::rfc3339_text(
            e.triggered_at as int,
        ),
        e.triggered_at < 0 ==> h.triggered_at@ == crate::calendar::rfc3339_text(0),
{
}

/// The cluster is healthy exactly if its primary is known, and the node says
/// that it leads exactly if it is the one that the cluster follows.
pub proof fn lemma_when_the_cluster_is_healthy(
    t: TopologyView,
    leader: Option<u64>,
    my_id: u64,
    status: u16,
    r: super::status::HealthResponse,
)
    requires
        super::status::is_health(t, leader, my_id, status, r),
    ensures
        status == 200 <==> t.primary_node_id.len() > 0,
        status == 200 || status == 503,
        status == 200 ==> r.status@ == "ok"@ && (r.primary matches Some(id) && id@
            == t.primary_node_id),
        status == 503 ==> r.status@ == "no_primary"@ && r.primary is None,
        leader == Some(my_id) <==> r.raft_leader,
{
}

} // verus!
