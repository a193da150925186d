//! What holds of the replicated state whatever commands are applied to it.

use super::commands::CommandView;
use super::state_machine::{applied, changed, first_of, most_recent_first, placed, restored};
use super::state_machine::{MachineView, Snapshot, BACKUPS_MAX};
use super::topology::{BackupManifestView, ClusterTopology, NodeRole, TopologyView};
use super::types::Entry;
use vstd::prelude::*;

verus! {

// ── The version ──────────────────────────────────────────────────────────────

/// Every command raises the version by one and records its time.
pub proof fn lemma_version_increases(t: TopologyView, c: CommandView, now: i64)
    requires
        t.version < u64::MAX,
    ensures
        applied(t, c, now).version == t.version + 1,
        applied(t, c, now).last_changed_at == now,
{
}

// ── The primary ──────────────────────────────────────────────────────────────

/// Whether only the current primary, if any, has the role of a primary.
pub open spec fn unique_primary(t: TopologyView) -> bool {
    forall|id: Seq<char>| #[trigger]
        t.has_role(id, NodeRole::Primary) ==> id == t.primary_node_id && id.len() != 0
}

/// No command gives a second node the role of the primary, as long as the
/// node that becomes the primary has a name.
pub proof fn lemma_primary_stays_unique(t: TopologyView, c: CommandView, now: i64)
    requires
        unique_primary(t),
        c matches CommandView::SetPrimary { node_id, .. } ==> node_id.len() != 0,
    ensures
        unique_primary(applied(t, c, now)),
{
    let u = applied(t, c, now);
    assert forall|id: Seq<char>| #[trigger] u.has_role(id, NodeRole::Primary) implies id
        == u.primary_node_id && id.len() != 0 by {
        assert(t.has_role(id, NodeRole::Primary) ==> id == t.primary_node_id && id.len() != 0);
    }
}

/// A cluster that nothing is known about has no second primary.
pub proof fn lemma_empty_has_unique_primary()
    ensures
        unique_primary(TopologyView::empty()),
{
}

/// After `SetPrimary` the node is the primary, and it is the only node with
/// that role.
pub proof fn lemma_set_primary(
    t: TopologyView,
    node_id: Seq<char>,
    at_lsn: u64,
    new_timeline: u32,
    now: i64,
)
    requires
        unique_primary(t),
    ensures
        ({
            let u = applied(t, CommandView::SetPrimary { node_id, at_lsn, new_timeline }, now);
            &&& u.primary_node_id == node_id
            &&& u.flush_lsn(node_id) == at_lsn
            &&& forall|id: Seq<char>| #[trigger]
                u.has_role(id, NodeRole::Primary) <==> id == node_id
        }),
{
    let u = applied(t, CommandView::SetPrimary { node_id, at_lsn, new_timeline }, now);
    assert forall|id: Seq<char>| #[trigger] u.has_role(id, NodeRole::Primary) <==> id == node_id by {
        assert(t.has_role(id, NodeRole::Primary) ==> id == t.primary_node_id && id.len() != 0);
    }
}

/// Only `SetPrimary` changes who the primary is.
pub proof fn lemma_others_keep_primary(t: TopologyView, c: CommandView, now: i64)
    requires
        !(c is SetPrimary),
    ensures
        applied(t, c, now).primary_node_id == t.primary_node_id,
{
}

// ── Failover candidates ──────────────────────────────────────────────────────

/// A node in maintenance, a node that is offline and the primary are no
/// failover candidates.
pub proof fn lemma_only_replicas_are_candidates(
    t: TopologyView,
    node_id: Seq<char>,
    failed: Seq<char>,
    at_lsn: u64,
    new_timeline: u32,
    now: i64,
)
    ensures
        !applied(t, CommandView::MarkMaintenance { node_id }, now).is_candidate(failed, node_id),
        !applied(t, CommandView::MarkOffline { node_id }, now).is_candidate(failed, node_id),
        !applied(
            t,
            CommandView::SetPrimary { node_id, at_lsn, new_timeline },
            now,
        ).is_candidate(failed, node_id),
{
}

/// A node that is marked as a replica is a candidate to replace any other.
pub proof fn lemma_replica_is_candidate(
    t: TopologyView,
    node_id: Seq<char>,
    flush_lsn: u64,
    failed: Seq<char>,
    now: i64,
)
    requires
        failed != node_id,
    ensures
        applied(t, CommandView::MarkReplica { node_id, flush_lsn }, now).is_candidate(
            failed,
            node_id,
        ),
{
}

// ── Nodes ────────────────────────────────────────────────────────────────────

/// Removing a node that was added leaves no trace of its role, configuration
/// and positions, and touches nothing else but the version and the time. If the
/// node was not known before, all else is as it was.
pub proof fn lemma_remove_undoes_add(
    t: TopologyView,
    config: super::topology::NodeConfigView,
    now: i64,
    later: i64,
)
    ensures
        ({
            let id = config.node_id;
            let u = applied(
                applied(t, CommandView::AddNode(config), now),
                CommandView::RemoveNode { node_id: id },
                later,
            );
            let known = t.node_roles.contains_key(id) || t.node_configs.contains_key(id)
                || t.last_flush_lsns.contains_key(id) || t.last_replay_lsns.contains_key(id)
                || t.replica_lag_bytes.contains_key(id);
            &&& u == TopologyView {
                node_roles: t.node_roles.remove(id),
                node_configs: t.node_configs.remove(id),
                last_flush_lsns: t.last_flush_lsns.remove(id),
                last_replay_lsns: t.last_replay_lsns.remove(id),
                replica_lag_bytes: t.replica_lag_bytes.remove(id),
                version: u.version,
                last_changed_at: later,
                ..t
            }
            &&& t.version + 2 <= u64::MAX ==> u.version == t.version + 2
            &&& !known ==> u == TopologyView {
                version: u.version,
                last_changed_at: later,
                ..t
            }
        }),
{
    let id = config.node_id;
    let u = applied(
        applied(t, CommandView::AddNode(config), now),
        CommandView::RemoveNode { node_id: id },
        later,
    );
    assert(u.node_roles =~= t.node_roles.remove(id));
    assert(u.node_configs =~= t.node_configs.remove(id));
    if !t.node_roles.contains_key(id) {
        assert(t.node_roles.remove(id) =~= t.node_roles);
    }
    if !t.node_configs.contains_key(id) {
        assert(t.node_configs.remove(id) =~= t.node_configs);
    }
    if !t.last_flush_lsns.contains_key(id) {
        assert(t.last_flush_lsns.remove(id) =~= t.last_flush_lsns);
    }
    if !t.last_replay_lsns.contains_key(id) {
        assert(t.last_replay_lsns.remove(id) =~= t.last_replay_lsns);
    }
    if !t.replica_lag_bytes.contains_key(id) {
        assert(t.replica_lag_bytes.remove(id) =~= t.replica_lag_bytes);
    }
}

// ── Backups and history ──────────────────────────────────────────────────────

/// Whether manifests are sorted most-recent first.
pub open spec fn newest_first(s: Seq<BackupManifestView>) -> bool {
    forall|i: int, j: int|
        0 <= i <= j < s.len() ==> (#[trigger] s[i]).completed_at >= (#[trigger] s[j]).completed_at
}

/// Whether the bounded lists are within their bounds and the manifests in
/// order.
pub open spec fn bounded(t: TopologyView) -> bool {
    &&& newest_first(t.backups)
    &&& t.backups.len() <= BACKUPS_MAX
    &&& t.failover_history.len() <= ClusterTopology::FAILOVER_HISTORY_MAX
}

proof fn lemma_placed_sorted(s: Seq<BackupManifestView>, m: BackupManifestView)
    requires
        newest_first(s),
    ensures
        newest_first(placed(s, m)),
        placed(s, m).len() == s.len() + 1,
        placed(s, m).to_multiset() == s.to_multiset().insert(m),
        forall|i: int|
            0 <= i < placed(s, m).len() ==> (#[trigger] placed(s, m)[i]).completed_at
                <= m.completed_at || s.len() > 0 && placed(s, m)[i].completed_at
                <= s[0].completed_at,
    decreases s.len(),
{
    broadcast use vstd::seq_lib::group_to_multiset_ensures;

    if s.len() == 0 || s.last().completed_at >= m.completed_at {
    } else {
        let front = s.drop_last();
        lemma_placed_sorted(front, m);
        let r = placed(front, m);
        assert(front.push(s.last()) =~= s);
        assert(s.to_multiset() == front.to_multiset().insert(s.last()));
        assert(s.to_multiset().insert(m) =~= front.to_multiset().insert(m).insert(s.last()));
        assert forall|i: int| 0 <= i < r.len() implies (#[trigger] r[i]).completed_at
            >= s.last().completed_at by {
            lemma_placed_bound(front, m, s.last().completed_at);
        }
    }
}

/// What is placed among manifests that completed no earlier than `at` is
/// still such a list, if the new one completed no earlier either.
proof fn lemma_placed_bound(s: Seq<BackupManifestView>, m: BackupManifestView, at: i64)
    requires
        forall|i: int| 0 <= i < s.len() ==> (#[trigger] s[i]).completed_at >= at,
        m.completed_at >= at,
    ensures
        forall|i: int|
            0 <= i < placed(s, m).len() ==> (#[trigger] placed(s, m)[i]).completed_at >= at,
    decreases s.len(),
{
    if s.len() == 0 || s.last().completed_at >= m.completed_at {
    } else {
        lemma_placed_bound(s.drop_last(), m, at);
    }
}

/// Sorting gives the same manifests, most-recent first.
pub proof fn lemma_most_recent_first(s: Seq<BackupManifestView>)
    ensures
        newest_first(most_recent_first(s)),
        most_recent_first(s).len() == s.len(),
        most_recent_first(s).to_multiset() == s.to_multiset(),
    decreases s.len(),
{
    broadcast use vstd::seq_lib::group_to_multiset_ensures;

    if s.len() > 0 {
        let front = s.drop_last();
        lemma_most_recent_first(front);
        lemma_placed_sorted(most_recent_first(front), s.last());
        assert(front.push(s.last()) =~= s);
    }
}

/// A list that is sorted most-recent first stays as it is.
pub proof fn lemma_sorted_stays(s: Seq<BackupManifestView>)
    requires
        newest_first(s),
    ensures
        most_recent_first(s) == s,
    decreases s.len(),
{
    if s.len() > 0 {
        let front = s.drop_last();
        lemma_sorted_stays(front);
        assert(front.push(s.last()) =~= s);
        if front.len() > 0 {
            assert(front.last() == s[s.len() - 2]);
            assert(s[s.len() - 2].completed_at >= s[s.len() - 1].completed_at);
        }
    }
}

/// What a filter keeps of a sorted list is sorted.
proof fn lemma_filter_sorted(
    s: Seq<BackupManifestView>,
    keep: spec_fn(BackupManifestView) -> bool,
)
    requires
        newest_first(s),
    ensures
        newest_first(s.filter(keep)),
        s.filter(keep).len() <= s.len(),
        s.len() > 0 ==> forall|i: int|
            0 <= i < s.filter(keep).len() ==> (#[trigger] s.filter(keep)[i]).completed_at
                >= s.last().completed_at,
    decreases s.len(),
{
    reveal(Seq::filter);
    if s.len() > 0 {
        let front = s.drop_last();
        lemma_filter_sorted(front, keep);
        let r = front.filter(keep);
        assert forall|i: int| 0 <= i < r.len() implies (#[trigger] r[i]).completed_at
            >= s.last().completed_at by {
            assert(front.len() > 0);
            assert(front.last() == s[s.len() - 2]);
            assert(s[s.len() - 2].completed_at >= s[s.len() - 1].completed_at);
        }
    }
}

/// Whatever command is applied, the manifests stay sorted most-recent first
/// and capped, and the failover history stays capped.
pub proof fn lemma_lists_stay_bounded(t: TopologyView, c: CommandView, now: i64)
    requires
        bounded(t),
    ensures
        bounded(applied(t, c, now)),
{
    match c {
        CommandView::AddBackupManifest(m) => {
            lemma_most_recent_first(t.backups.push(m));
        },
        CommandView::RemoveBackupManifest { backup_id } => {
            lemma_filter_sorted(
                t.backups,
                |b: BackupManifestView| b.backup_id != backup_id,
            );
        },
        _ => {},
    }
}

/// When the cap forces a manifest out, none that stays is older.
pub proof fn lemma_oldest_backup_leaves(t: TopologyView, m: BackupManifestView, now: i64)
    ensures
        ({
            let all = most_recent_first(t.backups.push(m));
            let kept = applied(t, CommandView::AddBackupManifest(m), now).backups;
            &&& all.to_multiset() == t.backups.push(m).to_multiset()
            &&& kept == first_of(all, BACKUPS_MAX as int)
            &&& forall|i: int, j: int|
                0 <= i < kept.len() && kept.len() <= j < all.len() ==> (
                #[trigger] kept[i]).completed_at >= (#[trigger] all[j]).completed_at
        }),
{
    lemma_most_recent_first(t.backups.push(m));
}

/// After its removal no manifest with the id is left, and every other
/// manifest stays.
pub proof fn lemma_backup_is_removed(t: TopologyView, backup_id: Seq<char>, now: i64)
    ensures
        ({
            let u = applied(t, CommandView::RemoveBackupManifest { backup_id }, now);
            forall|b: BackupManifestView| #[trigger]
                u.backups.contains(b) <==> t.backups.contains(b) && b.backup_id != backup_id
        }),
{
    broadcast use vstd::seq_lib::group_filter_ensures;

    let keep = |b: BackupManifestView| b.backup_id != backup_id;
    let u = applied(t, CommandView::RemoveBackupManifest { backup_id }, now);
    assert(u.backups == t.backups.filter(keep));
    assert forall|b: BackupManifestView| #[trigger] u.backups.contains(b) implies t.backups.contains(
        b,
    ) && b.backup_id != backup_id by {
        let i = choose|i: int| 0 <= i < u.backups.len() && u.backups[i] == b;
        assert(keep(t.backups.filter(keep)[i]));
        t.backups.lemma_filter_contains_rev(keep, b);
    }
    assert forall|b: BackupManifestView|
        t.backups.contains(b) && b.backup_id != backup_id implies u.backups.contains(b) by {
        let i = choose|i: int| 0 <= i < t.backups.len() && t.backups[i] == b;
        assert(keep(t.backups[i]));
    }
}

// ── Repetition ───────────────────────────────────────────────────────────────

/// Filtering what a filter kept keeps all of it.
proof fn lemma_filter_twice(
    s: Seq<BackupManifestView>,
    keep: spec_fn(BackupManifestView) -> bool,
)
    ensures
        s.filter(keep).filter(keep) == s.filter(keep),
    decreases s.len(),
{
    reveal(Seq::filter);
    if s.len() > 0 {
        let front = s.drop_last();
        lemma_filter_twice(front, keep);
        if keep(s.last()) {
            let r = front.filter(keep);
            assert(r.push(s.last()).drop_last() =~= r);
        }
    }
}

/// Applying a command a second time changes nothing more, unless the command
/// adds to a list.
pub proof fn lemma_commands_are_idempotent(t: TopologyView, c: CommandView)
    requires
        !(c is RecordFailover),
        !(c is AddBackupManifest),
    ensures
        changed(changed(t, c), c) == changed(t, c),
{
    if let CommandView::RemoveBackupManifest { backup_id } = c {
        lemma_filter_twice(t.backups, |b: BackupManifestView| b.backup_id != backup_id);
    }
    assert(changed(changed(t, c), c) =~= changed(t, c));
}

// ── What each command does ───────────────────────────────────────────────────

/// Whether nothing that is recorded of one node differs.
pub open spec fn same_node(t: TopologyView, u: TopologyView, id: Seq<char>) -> bool {
    &&& u.node_roles.contains_key(id) == t.node_roles.contains_key(id)
    &&& t.node_roles.contains_key(id) ==> u.node_roles[id] == t.node_roles[id]
    &&& same_positions(t, u, id)
    &&& same_setup(t, u, id)
}

/// Whether the recorded positions of one node do not differ.
pub open spec fn same_positions(t: TopologyView, u: TopologyView, id: Seq<char>) -> bool {
    &&& u.last_flush_lsns.contains_key(id) == t.last_flush_lsns.contains_key(id)
    &&& t.last_flush_lsns.contains_key(id) ==> u.last_flush_lsns[id] == t.last_flush_lsns[id]
    &&& u.last_replay_lsns.contains_key(id) == t.last_replay_lsns.contains_key(id)
    &&& t.last_replay_lsns.contains_key(id) ==> u.last_replay_lsns[id] == t.last_replay_lsns[id]
    &&& u.replica_lag_bytes.contains_key(id) == t.replica_lag_bytes.contains_key(id)
    &&& t.replica_lag_bytes.contains_key(id) ==> u.replica_lag_bytes[id] == t.replica_lag_bytes[id]
}

/// Whether the configuration, the slot and the conninfo of one node do not
/// differ.
pub open spec fn same_setup(t: TopologyView, u: TopologyView, id: Seq<char>) -> bool {
    &&& u.node_configs.contains_key(id) == t.node_configs.contains_key(id)
    &&& t.node_configs.contains_key(id) ==> u.node_configs[id] == t.node_configs[id]
    &&& u.replica_slots.contains_key(id) == t.replica_slots.contains_key(id)
    &&& t.replica_slots.contains_key(id) ==> u.replica_slots[id] == t.replica_slots[id]
    &&& u.primary_conninfos.contains_key(id) == t.primary_conninfos.contains_key(id)
    &&& t.primary_conninfos.contains_key(id) ==> u.primary_conninfos[id] == t.primary_conninfos[id]
}

/// Whether neither the history nor the backups differ.
pub open spec fn same_lists(t: TopologyView, u: TopologyView) -> bool {
    u.failover_history == t.failover_history && u.backups == t.backups
}

/// After `SetPrimary` the node is the primary, at the given position. A previous
/// primary is a replica. No other node changes.
pub proof fn lemma_effect_of_set_primary(
    t: TopologyView,
    node_id: Seq<char>,
    at_lsn: u64,
    new_timeline: u32,
    now: i64,
    other: Seq<char>,
)
    requires
        other != node_id,
    ensures
        ({
            let u = applied(t, CommandView::SetPrimary { node_id, at_lsn, new_timeline }, now);
            &&& u.primary_node_id == node_id
            &&& u.node_roles.contains_key(node_id) && u.node_roles[node_id] == NodeRole::Primary
            &&& u.last_flush_lsns.contains_key(node_id) && u.last_flush_lsns[node_id] == at_lsn
            &&& same_setup(t, u, node_id)
            &&& same_positions(t, u, other) && same_setup(t, u, other)
            &&& other == t.primary_node_id && other.len() != 0 ==> u.node_roles.contains_key(other)
                && u.node_roles[other] == NodeRole::Replica
            &&& other != t.primary_node_id || other.len() == 0 ==> same_node(t, u, other)
            &&& same_lists(t, u)
        }),
{
}

/// Marking a node sets its role and nothing else of it, but for the position
/// that a replica is marked with. No other node changes.
pub proof fn lemma_effect_of_marking(
    t: TopologyView,
    node_id: Seq<char>,
    flush_lsn: u64,
    now: i64,
    other: Seq<char>,
)
    requires
        other != node_id,
    ensures
        ({
            let offline = applied(t, CommandView::MarkOffline { node_id }, now);
            let away = applied(t, CommandView::MarkMaintenance { node_id }, now);
            let replica = applied(t, CommandView::MarkReplica { node_id, flush_lsn }, now);
            &&& offline.node_roles.contains_key(node_id) && offline.node_roles[node_id]
                == NodeRole::Offline
            &&& away.node_roles.contains_key(node_id) && away.node_roles[node_id]
                == NodeRole::Maintenance
            &&& replica.node_roles.contains_key(node_id) && replica.node_roles[node_id]
                == NodeRole::Replica
            &&& replica.last_flush_lsns.contains_key(node_id) && replica.last_flush_lsns[node_id]
                == flush_lsn
            &&& same_positions(t, offline, node_id) && same_setup(t, offline, node_id)
            &&& same_positions(t, away, node_id) && same_setup(t, away, node_id)
            &&& same_setup(t, replica, node_id)
            &&& same_node(t, offline, other) && same_node(t, away, other) && same_node(
                t,
                replica,
                other,
            )
            &&& offline.primary_node_id == t.primary_node_id
            &&& away.primary_node_id == t.primary_node_id
            &&& replica.primary_node_id == t.primary_node_id
            &&& same_lists(t, offline) && same_lists(t, away) && same_lists(t, replica)
        }),
{
}

/// After a node reported its positions they are recorded, whatever was recorded
/// before. If another node is the primary, the recorded lag is the distance to
/// the flush position of that primary, and none if the node is ahead of it. No
/// other node changes.
pub proof fn lemma_lag_follows_every_report(
    t: TopologyView,
    node_id: Seq<char>,
    flush_lsn: u64,
    replay_lsn: u64,
    now: i64,
    other: Seq<char>,
)
    requires
        other != node_id,
    ensures
        ({
            let u = applied(
                t,
                CommandView::UpdateFlushLsn { node_id, flush_lsn, replay_lsn },
                now,
            );
            let ahead: int = if t.last_flush_lsns.contains_key(t.primary_node_id) {
                t.last_flush_lsns[t.primary_node_id] as int
            } else {
                0
            };
            &&& u.last_flush_lsns.contains_key(node_id) && u.last_flush_lsns[node_id] == flush_lsn
            &&& u.last_replay_lsns.contains_key(node_id) && u.last_replay_lsns[node_id]
                == replay_lsn
            &&& t.primary_node_id.len() != 0 && node_id != t.primary_node_id ==> {
                &&& u.replica_lag_bytes.contains_key(node_id)
                &&& u.replica_lag_bytes[node_id] == if ahead >= flush_lsn {
                    ahead - flush_lsn
                } else {
                    0
                }
                &&& u.replica_lag_bytes[node_id] == u.flush_lag(node_id)
            }
            &&& t.primary_node_id.len() == 0 || node_id == t.primary_node_id
                ==> u.replica_lag_bytes == t.replica_lag_bytes
            &&& u.node_roles == t.node_roles
            &&& same_setup(t, u, node_id)
            &&& same_node(t, u, other)
            &&& u.primary_node_id == t.primary_node_id
            &&& same_lists(t, u)
        }),
{
}

/// The last of two reports of a node counts: what it reported before leaves no
/// trace.
pub proof fn lemma_last_report_counts(
    t: TopologyView,
    node_id: Seq<char>,
    first_flush: u64,
    first_replay: u64,
    flush_lsn: u64,
    replay_lsn: u64,
)
    requires
        t.primary_node_id != node_id,
    ensures
        changed(
            changed(
                t,
                CommandView::UpdateFlushLsn {
                    node_id,
                    flush_lsn: first_flush,
                    replay_lsn: first_replay,
                },
            ),
            CommandView::UpdateFlushLsn { node_id, flush_lsn, replay_lsn },
        ) == changed(t, CommandView::UpdateFlushLsn { node_id, flush_lsn, replay_lsn }),
{
    let first = CommandView::UpdateFlushLsn {
        node_id,
        flush_lsn: first_flush,
        replay_lsn: first_replay,
    };
    let second = CommandView::UpdateFlushLsn { node_id, flush_lsn, replay_lsn };
    let u = changed(changed(t, first), second);
    let v = changed(t, second);
    assert(u.last_flush_lsns =~= v.last_flush_lsns);
    assert(u.last_replay_lsns =~= v.last_replay_lsns);
    assert(u.replica_lag_bytes =~= v.replica_lag_bytes);
}

/// A node that is added has the given configuration. Its role is unknown if it
/// had none, and stays otherwise. No other node changes.
pub proof fn lemma_effect_of_adding(
    t: TopologyView,
    config: super::topology::NodeConfigView,
    now: i64,
    other: Seq<char>,
)
    requires
        other != config.node_id,
    ensures
        ({
            let id = config.node_id;
            let u = applied(t, CommandView::AddNode(config), now);
            &&& u.node_configs.contains_key(id) && u.node_configs[id] == config
            &&& u.node_roles.contains_key(id)
            &&& u.node_roles[id] == if t.node_roles.contains_key(id) {
                t.node_roles[id]
            } else {
                NodeRole::Unknown
            }
            &&& same_positions(t, u, id)
            &&& same_node(t, u, other)
            &&& u.primary_node_id == t.primary_node_id
            &&& same_lists(t, u)
        }),
{
}

/// A node that is removed has no role, no configuration and no positions any
/// more. No other node changes.
pub proof fn lemma_effect_of_removing(
    t: TopologyView,
    node_id: Seq<char>,
    now: i64,
    other: Seq<char>,
)
    requires
        other != node_id,
    ensures
        ({
            let u = applied(t, CommandView::RemoveNode { node_id }, now);
            &&& !u.node_roles.contains_key(node_id)
            &&& !u.node_configs.contains_key(node_id)
            &&& !u.last_flush_lsns.contains_key(node_id)
            &&& !u.last_replay_lsns.contains_key(node_id)
            &&& !u.replica_lag_bytes.contains_key(node_id)
            &&& same_node(t, u, other)
            &&& u.primary_node_id == t.primary_node_id
            &&& same_lists(t, u)
        }),
{
}

/// A slot and a conninfo are recorded for their node, and nothing else changes.
pub proof fn lemma_effect_of_setup(
    t: TopologyView,
    node_id: Seq<char>,
    text: Seq<char>,
    now: i64,
    other: Seq<char>,
)
    requires
        other != node_id,
    ensures
        ({
            let slot = applied(
                t,
                CommandView::SetReplicationSlot { node_id, slot_name: text },
                now,
            );
            let info = applied(
                t,
                CommandView::UpdatePrimaryConninfo { node_id, conninfo: text },
                now,
            );
            &&& slot.replica_slots.contains_key(node_id) && slot.replica_slots[node_id] == text
            &&& info.primary_conninfos.contains_key(node_id) && info.primary_conninfos[node_id]
                == text
            &&& slot.primary_conninfos == t.primary_conninfos
            &&& info.replica_slots == t.replica_slots
            &&& same_node(t, slot, other) && same_node(t, info, other)
            &&& slot.node_roles == t.node_roles && info.node_roles == t.node_roles
            &&& slot.node_configs == t.node_configs && info.node_configs == t.node_configs
            &&& same_positions(t, slot, node_id) && same_positions(t, info, node_id)
            &&& slot.primary_node_id == t.primary_node_id
            &&& info.primary_node_id == t.primary_node_id
            &&& same_lists(t, slot) && same_lists(t, info)
        }),
{
}

/// A recorded failover is the last in the history. All before it stay, in their
/// order, but for the oldest where there are more than a hundred. No node
/// changes.
pub proof fn lemma_effect_of_recording(
    t: TopologyView,
    old_primary: Seq<char>,
    new_primary: Seq<char>,
    triggered_at: i64,
    duration_ms: u64,
    reason: Seq<char>,
    now: i64,
    id: Seq<char>,
)
    requires
        t.failover_history.len() <= 100,
    ensures
        ({
            let u = applied(
                t,
                CommandView::RecordFailover {
                    old_primary,
                    new_primary,
                    triggered_at,
                    duration_ms,
                    reason,
                },
                now,
            );
            let n = t.failover_history.len();
            let gone: int = if n < 100 {
                0
            } else {
                1
            };
            let last = u.failover_history.last();
            &&& u.failover_history.len() == n + 1 - gone
            &&& last.old_primary == old_primary && last.new_primary == new_primary
            &&& last.triggered_at == triggered_at && last.duration_ms == duration_ms
            &&& last.reason == reason
            &&& forall|i: int|
                0 <= i < n - gone ==> #[trigger] u.failover_history[i] == t.failover_history[i
                    + gone]
            &&& same_node(t, u, id)
            &&& u.primary_node_id == t.primary_node_id
            &&& u.backups == t.backups
        }),
{
}

/// A manifest that is added stands behind all that completed no earlier than
/// it, and before all that completed earlier. All others stay, in their order,
/// but for the last where there are more than a thousand. No node changes.
pub proof fn lemma_effect_of_adding_backup(
    t: TopologyView,
    m: BackupManifestView,
    now: i64,
    id: Seq<char>,
)
    requires
        newest_first(t.backups),
        t.backups.len() <= 1000,
    ensures
        ({
            let u = applied(t, CommandView::AddBackupManifest(m), now);
            let s = t.backups;
            &&& exists|k: int| #[trigger] is_place(s, m, k) && u.backups == first_of(
                s.take(k).push(m) + s.skip(k),
                1000,
            )
            &&& same_node(t, u, id)
            &&& u.primary_node_id == t.primary_node_id
            &&& u.failover_history == t.failover_history
        }),
{
    let s = t.backups;
    assert(s.push(m).drop_last() =~= s);
    lemma_sorted_stays(s);
    lemma_place(s, m);
    let k = choose|k: int| #[trigger]
        is_place(s, m, k) && placed(s, m) == s.take(k).push(m) + s.skip(k);
    assert(is_place(s, m, k));
}

/// Whether the place of a manifest in a sorted list is at `k`.
pub open spec fn is_place(s: Seq<BackupManifestView>, m: BackupManifestView, k: int) -> bool {
    &&& 0 <= k <= s.len()
    &&& forall|i: int| 0 <= i < k ==> (#[trigger] s[i]).completed_at >= m.completed_at
    &&& forall|i: int| k <= i < s.len() ==> (#[trigger] s[i]).completed_at < m.completed_at
}

proof fn lemma_place(s: Seq<BackupManifestView>, m: BackupManifestView)
    requires
        newest_first(s),
    ensures
        exists|k: int| #[trigger]
            is_place(s, m, k) && placed(s, m) == s.take(k).push(m) + s.skip(k),
    decreases s.len(),
{
    if s.len() == 0 || s.last().completed_at >= m.completed_at {
        let k = s.len() as int;
        assert(forall|i: int| 0 <= i < s.len() ==> (#[trigger] s[i]).completed_at >= s[s.len()
            - 1].completed_at);
        assert(is_place(s, m, k));
        assert(s.take(k).push(m) + s.skip(k) =~= s.push(m));
    } else {
        let front = s.drop_last();
        lemma_place(front, m);
        let k = choose|k: int| #[trigger]
            is_place(front, m, k) && placed(front, m) == front.take(k).push(m) + front.skip(k);
        assert(forall|i: int| 0 <= i < front.len() ==> front[i] == s[i]);
        assert(is_place(s, m, k));
        assert(s.take(k).push(m) + s.skip(k) =~= (front.take(k).push(m) + front.skip(k)).push(
            s.last(),
        ));
    }
}

/// Removing a manifest changes no node and not the history, and keeps the order
/// of the manifests that stay.
pub proof fn lemma_effect_of_removing_backup(
    t: TopologyView,
    backup_id: Seq<char>,
    now: i64,
    id: Seq<char>,
)
    requires
        newest_first(t.backups),
    ensures
        ({
            let u = applied(t, CommandView::RemoveBackupManifest { backup_id }, now);
            &&& newest_first(u.backups)
            &&& same_node(t, u, id)
            &&& u.primary_node_id == t.primary_node_id
            &&& u.failover_history == t.failover_history
        }),
{
    lemma_filter_sorted(t.backups, |b: BackupManifestView| b.backup_id != backup_id);
}

// ── What the topology says of its nodes ──────────────────────────────────────

/// A node may replace a failed one exactly if it is another node with the role
/// of a replica. The best one has the furthest flush position and, among equal
/// ones, the highest priority.
pub proof fn lemma_candidates(t: TopologyView, failed: Seq<char>, a: Seq<char>, b: Seq<char>)
    ensures
        t.is_candidate(failed, a) <==> a != failed && t.node_roles.contains_key(a)
            && t.node_roles[a] == NodeRole::Replica,
        t.is_best_candidate(failed, a) && b != failed && t.node_roles.contains_key(b)
            && t.node_roles[b] == NodeRole::Replica ==> {
            let lsn_a: u64 = if t.last_flush_lsns.contains_key(a) {
                t.last_flush_lsns[a]
            } else {
                0
            };
            let lsn_b: u64 = if t.last_flush_lsns.contains_key(b) {
                t.last_flush_lsns[b]
            } else {
                0
            };
            let first: u32 = if t.node_configs.contains_key(a) {
                t.node_configs[a].priority
            } else {
                0
            };
            let second: u32 = if t.node_configs.contains_key(b) {
                t.node_configs[b].priority
            } else {
                0
            };
            lsn_a > lsn_b || lsn_a == lsn_b && first >= second
        },
{
    if t.is_best_candidate(failed, a) && t.is_candidate(failed, b) {
        assert(t.ranks_at_least(a, b));
    }
}

/// A configured replica serves reads within a limit exactly if its flush
/// position is at most that far behind the primary's.
pub proof fn lemma_serving_replicas(t: TopologyView, id: Seq<char>, max_lag: u64)
    ensures
        t.serves_within(id, max_lag) <==> {
            let ahead: int = if t.last_flush_lsns.contains_key(t.primary_node_id) {
                t.last_flush_lsns[t.primary_node_id] as int
            } else {
                0
            };
            let behind: int = if t.last_flush_lsns.contains_key(id) {
                t.last_flush_lsns[id] as int
            } else {
                0
            };
            &&& t.node_roles.contains_key(id) && t.node_roles[id] == NodeRole::Replica
            &&& t.node_configs.contains_key(id)
            &&& ahead <= behind + max_lag
        },
{
}

// ── Replication ──────────────────────────────────────────────────────────────

/// The topology without the time of its last change.
pub open spec fn timeless(t: TopologyView) -> TopologyView {
    TopologyView { last_changed_at: 0, ..t }
}

/// The state without the time of the last change.
pub open spec fn timeless_machine(m: MachineView) -> MachineView {
    MachineView { topology: timeless(m.topology), ..m }
}

/// Two machines in the same state that apply the same log entries are in the
/// same state afterwards, except for the time of the last change.
pub proof fn lemma_machines_agree(
    a: MachineView,
    b: MachineView,
    entries: Seq<Entry>,
    times_a: Seq<i64>,
    times_b: Seq<i64>,
)
    requires
        timeless_machine(a) == timeless_machine(b),
        times_a.len() == entries.len(),
        times_b.len() == entries.len(),
    ensures
        timeless_machine(a.after_entries(entries, times_a)) == timeless_machine(
            b.after_entries(entries, times_b),
        ),
    decreases entries.len(),
{
    if entries.len() > 0 {
        lemma_machines_agree(
            a,
            b,
            entries.drop_last(),
            times_a.drop_last(),
            times_b.drop_last(),
        );
        let x = a.after_entries(entries.drop_last(), times_a.drop_last());
        let y = b.after_entries(entries.drop_last(), times_b.drop_last());
        let e = entries.last();
        lemma_entry_agrees(x, y, e, times_a.last(), times_b.last());
    }
}

proof fn lemma_entry_agrees(x: MachineView, y: MachineView, e: Entry, now: i64, later: i64)
    requires
        timeless_machine(x) == timeless_machine(y),
    ensures
        timeless_machine(x.after_entry(e, now)) == timeless_machine(y.after_entry(e, later)),
{
    let t = x.topology;
    let u = y.topology;
    assert(t.primary_node_id == timeless(t).primary_node_id);
    assert(u == TopologyView { last_changed_at: u.last_changed_at, ..timeless(t) });
    assert(x.last_log == timeless_machine(x).last_log);
    assert(x.membership == timeless_machine(x).membership);
    assert(y == MachineView { topology: u, ..x });
}

/// A machine that installs a snapshot is in the state that the snapshot was
/// taken of.
pub proof fn lemma_snapshot_restores(s: Snapshot, m: MachineView)
    requires
        s.captures(m),
    ensures
        restored(s.meta, s.snapshot) == m,
{
}

// ── The log ──────────────────────────────────────────────────────────────────

/// Every entry is the last one that was applied. A command changes the topology
/// only, a change of the membership the membership only, and a blank entry
/// neither.
pub proof fn lemma_effect_of_an_entry(m: MachineView, e: Entry, now: i64)
    ensures
        ({
            let u = m.after_entry(e, now);
            &&& u.last_log == Some(e.log_id)
            &&& e.payload matches super::types::EntryPayload::Normal(cmd) ==> u.topology
                == applied(m.topology, cmd@, now) && u.membership == m.membership
            &&& e.payload is Blank ==> u.topology == m.topology && u.membership == m.membership
            &&& e.payload matches super::types::EntryPayload::Membership(members) ==> u.topology
                == m.topology && u.membership.log_id == Some(e.log_id) && u.membership.membership
                == members@
        }),
{
}

/// Applying entries in two batches is applying them in one.
pub proof fn lemma_batches_do_not_matter(
    m: MachineView,
    first: Seq<Entry>,
    second: Seq<Entry>,
    times: Seq<i64>,
    later: Seq<i64>,
)
    requires
        times.len() == first.len(),
        later.len() == second.len(),
    ensures
        m.after_entries(first, times).after_entries(second, later) == m.after_entries(
            first + second,
            times + later,
        ),
    decreases second.len(),
{
    if second.len() == 0 {
        assert(first + second =~= first);
        assert(times + later =~= times);
    } else {
        lemma_batches_do_not_matter(m, first, second.drop_last(), times, later.drop_last());
        assert((first + second).drop_last() =~= first + second.drop_last());
        assert((times + later).drop_last() =~= times + later.drop_last());
        assert((first + second).last() == second.last());
        assert((times + later).last() == later.last());
    }
}

/// A machine that installs a snapshot and goes on with the log is in the state
/// of one that applied the whole log.
pub proof fn lemma_snapshot_replaces_log(
    m: MachineView,
    s: Snapshot,
    first: Seq<Entry>,
    second: Seq<Entry>,
    times: Seq<i64>,
    later: Seq<i64>,
)
    requires
        times.len() == first.len(),
        later.len() == second.len(),
        s.captures(m.after_entries(first, times)),
    ensures
        restored(s.meta, s.snapshot).after_entries(second, later) == m.after_entries(
            first + second,
            times + later,
        ),
{
    lemma_batches_do_not_matter(m, first, second, times, later);
}

/// A snapshot holds the state that it was taken of, and is named after the last
/// entry.
pub proof fn lemma_what_a_snapshot_holds(s: Snapshot, m: MachineView)
    requires
        s.captures(m),
    ensures
        s.snapshot.topology@ == m.topology,
        s.meta.last_log_id == m.last_log,
        s.meta.last_membership@ == m.membership,
        s.snapshot.meta@ == m.membership,
        m.last_log is None ==> s.meta.snapshot_id@ == "snapshot-empty"@,
        m.last_log matches Some(id) ==> s.meta.snapshot_id@ == "snapshot-T"@
            + crate::numerals::decimal(id.term as int) + "-N"@ + crate::numerals::decimal(
            id.node_id as int,
        ) + "-"@ + crate::numerals::decimal(id.index as int),
{
}

} // verus!
