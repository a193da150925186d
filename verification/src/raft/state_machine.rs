//! The Raft state machine that applies commands to the cluster topology.

use super::commands::{CommandView, TopologyCommand};
use super::topology::{BackupManifest, BackupManifestView, ClusterTopology, FailoverEvent};
use super::topology::{last_of, number_or};
use super::topology::{FailoverEventView, NodeRole, TopologyView};
use super::types::{Entry, EntryPayload, LogId, MembershipView, StoredMembership};
use super::types::{StoredMembershipView, TopologyResponse};
use super::watch::{shows, TopologySender, TopologyWatch};
use crate::clock::unix_now;
use crate::numerals::{decimal, decimal_string};
use crate::table::{views, Duplicate};
use crate::text::same_text;
use std::sync::Arc;
use vstd::prelude::*;
use vstd::string::StringExecFns;

verus! {

/// How many backup manifests the topology keeps.
pub const BACKUPS_MAX: usize = 1_000;

// ── What a command does ──────────────────────────────────────────────────────

/// Puts `m` behind the last manifest that completed no earlier than it.
pub open spec fn placed(s: Seq<BackupManifestView>, m: BackupManifestView) -> Seq<
    BackupManifestView,
>
    decreases s.len(),
{
    if s.len() == 0 || s.last().completed_at >= m.completed_at {
        s.push(m)
    } else {
        placed(s.drop_last(), m).push(s.last())
    }
}

/// The manifests, the most recently completed first. Manifests that completed
/// at the same time stay in the order that they had.
pub open spec fn most_recent_first(s: Seq<BackupManifestView>) -> Seq<BackupManifestView>
    decreases s.len(),
{
    if s.len() == 0 {
        s
    } else {
        placed(most_recent_first(s.drop_last()), s.last())
    }
}

/// The first `n` elements of a sequence.
pub open spec fn first_of<T>(s: Seq<T>, n: int) -> Seq<T> {
    if s.len() <= n {
        s
    } else {
        s.take(n)
    }
}

/// The roles after `node_id` became the primary: a previous primary becomes a
/// replica.
pub open spec fn roles_with_primary(t: TopologyView, node_id: Seq<char>) -> Map<
    Seq<char>,
    NodeRole,
> {
    if t.primary_node_id.len() != 0 && t.primary_node_id != node_id {
        t.node_roles.insert(t.primary_node_id, NodeRole::Replica).insert(
            node_id,
            NodeRole::Primary,
        )
    } else {
        t.node_roles.insert(node_id, NodeRole::Primary)
    }
}

/// The replication lags after `node_id` reported its flush position.
pub open spec fn lags_after(t: TopologyView, node_id: Seq<char>, flush_lsn: u64) -> Map<
    Seq<char>,
    u64,
> {
    if t.primary_node_id.len() != 0 && node_id != t.primary_node_id {
        let primary_lsn = t.flush_lsn(t.primary_node_id);
        t.replica_lag_bytes.insert(
            node_id,
            if primary_lsn >= flush_lsn {
                (primary_lsn - flush_lsn) as u64
            } else {
                0
            },
        )
    } else {
        t.replica_lag_bytes
    }
}

/// What a command changes in the topology, apart from the version and the
/// time of the change.
pub open spec fn changed(t: TopologyView, c: CommandView) -> TopologyView {
    match c {
        CommandView::SetPrimary { node_id, at_lsn, new_timeline } => TopologyView {
            primary_node_id: node_id,
            node_roles: roles_with_primary(t, node_id),
            last_flush_lsns: t.last_flush_lsns.insert(node_id, at_lsn),
            ..t
        },
        CommandView::MarkOffline { node_id } => TopologyView {
            node_roles: t.node_roles.insert(node_id, NodeRole::Offline),
            ..t
        },
        CommandView::MarkReplica { node_id, flush_lsn } => TopologyView {
            node_roles: t.node_roles.insert(node_id, NodeRole::Replica),
            last_flush_lsns: t.last_flush_lsns.insert(node_id, flush_lsn),
            ..t
        },
        CommandView::MarkMaintenance { node_id } => TopologyView {
            node_roles: t.node_roles.insert(node_id, NodeRole::Maintenance),
            ..t
        },
        CommandView::UpdatePrimaryConninfo { node_id, conninfo } => TopologyView {
            primary_conninfos: t.primary_conninfos.insert(node_id, conninfo),
            ..t
        },
        CommandView::UpdateFlushLsn { node_id, flush_lsn, replay_lsn } => TopologyView {
            last_flush_lsns: t.last_flush_lsns.insert(node_id, flush_lsn),
            last_replay_lsns: t.last_replay_lsns.insert(node_id, replay_lsn),
            replica_lag_bytes: lags_after(t, node_id, flush_lsn),
            ..t
        },
        CommandView::AddNode(config) => TopologyView {
            node_roles: if t.node_roles.contains_key(config.node_id) {
                t.node_roles
            } else {
                t.node_roles.insert(config.node_id, NodeRole::Unknown)
            },
            node_configs: t.node_configs.insert(config.node_id, config),
            ..t
        },
        CommandView::RemoveNode { node_id } => TopologyView {
            node_roles: t.node_roles.remove(node_id),
            node_configs: t.node_configs.remove(node_id),
            last_flush_lsns: t.last_flush_lsns.remove(node_id),
            last_replay_lsns: t.last_replay_lsns.remove(node_id),
            replica_lag_bytes: t.replica_lag_bytes.remove(node_id),
            ..t
        },
        CommandView::RecordFailover {
            old_primary,
            new_primary,
            triggered_at,
            duration_ms,
            reason,
        } => TopologyView {
            failover_history: last_of(
                t.failover_history.push(
                    FailoverEventView {
                        old_primary,
                        new_primary,
                        triggered_at,
                        duration_ms,
                        reason,
                    },
                ),
                ClusterTopology::FAILOVER_HISTORY_MAX as int,
            ),
            ..t
        },
        CommandView::SetReplicationSlot { node_id, slot_name } => TopologyView {
            replica_slots: t.replica_slots.insert(node_id, slot_name),
            ..t
        },
        CommandView::AddBackupManifest(manifest) => TopologyView {
            backups: first_of(most_recent_first(t.backups.push(manifest)), BACKUPS_MAX as int),
            ..t
        },
        CommandView::RemoveBackupManifest { backup_id } => TopologyView {
            backups: t.backups.filter(|b: BackupManifestView| b.backup_id != backup_id),
            ..t
        },
    }
}

/// The topology after a command that was applied at the time `now`.
pub open spec fn applied(t: TopologyView, c: CommandView, now: i64) -> TopologyView {
    changed(
        TopologyView { version: (t.version + 1) as u64, last_changed_at: now, ..t },
        c,
    )
}

// ── Sorting and filtering manifests ──────────────────────────────────────────

/// Placing is an insertion at the position that the completion times give.
proof fn lemma_placed(s: Seq<BackupManifestView>, m: BackupManifestView, p: int)
    requires
        0 <= p <= s.len(),
        forall|i: int| p <= i < s.len() ==> (#[trigger] s[i]).completed_at < m.completed_at,
        p > 0 ==> s[p - 1].completed_at >= m.completed_at,
    ensures
        placed(s, m) == s.insert(p, m),
    decreases s.len(),
{
    if p == s.len() {
        assert(s.insert(p, m) =~= s.push(m));
    } else {
        let front = s.drop_last();
        lemma_placed(front, m, p);
        assert(s.insert(p, m) =~= front.insert(p, m).push(s.last()));
    }
}

fn place(v: &mut Vec<BackupManifest>, m: BackupManifest)
    ensures
        views(final(v)@) == placed(views(old(v)@), m@),
{
    let ghost s = views(v@);
    let mut p: usize = v.len();
    while p > 0 && v[p - 1].completed_at < m.completed_at
        invariant
            p <= v@.len(),
            s == views(v@),
            forall|i: int| p <= i < s.len() ==> (#[trigger] s[i]).completed_at < m@.completed_at,
        decreases p,
    {
        p = p - 1;
    }
    proof {
        if p > 0 {
            assert(s[p - 1].completed_at >= m@.completed_at);
        }
        lemma_placed(s, m@, p as int);
    }
    let ghost before = v@;
    v.insert(p, m);
    assert(views(v@) =~= s.insert(p as int, m@));
}

/// Sorts manifests, the most recently completed first.
pub fn sort_manifests(v: &Vec<BackupManifest>) -> (r: Vec<BackupManifest>)
    ensures
        views(r@) == most_recent_first(views(v@)),
{
    let ghost s = views(v@);
    let mut out: Vec<BackupManifest> = Vec::new();
    assert(views(out@) =~= s.subrange(0, 0));
    for i in 0..v.len()
        invariant
            s == views(v@),
            views(out@) == most_recent_first(s.subrange(0, i as int)),
    {
        place(&mut out, v[i].duplicate());
        assert(s.subrange(0, i + 1).drop_last() =~= s.subrange(0, i as int));
    }
    assert(s.subrange(0, s.len() as int) =~= s);
    out
}

fn without_backup(v: &Vec<BackupManifest>, backup_id: &str) -> (r: Vec<BackupManifest>)
    ensures
        views(r@) == views(v@).filter(|b: BackupManifestView| b.backup_id != backup_id@),
{
    let ghost s = views(v@);
    let ghost keep = |b: BackupManifestView| b.backup_id != backup_id@;
    let mut out: Vec<BackupManifest> = Vec::new();
    proof {
        reveal(Seq::filter);
    }
    assert(views(out@) =~= s.subrange(0, 0).filter(keep));
    for i in 0..v.len()
        invariant
            s == views(v@),
            keep == (|b: BackupManifestView| b.backup_id != backup_id@),
            views(out@) == s.subrange(0, i as int).filter(keep),
    {
        proof {
            reveal(Seq::filter);
            assert(s.subrange(0, i + 1).drop_last() =~= s.subrange(0, i as int));
        }
        if !same_text(v[i].backup_id.as_str(), backup_id) {
            let ghost before = out@;
            out.push(v[i].duplicate());
            assert(views(out@) =~= views(before).push(s[i as int]));
        }
    }
    assert(s.subrange(0, s.len() as int) =~= s);
    out
}

// ── State machine ────────────────────────────────────────────────────────────

/// Full state-machine snapshot: membership + topology.
#[derive(Debug)]
pub struct StateMachineSnapshot {
    pub meta: StoredMembership,
    pub topology: ClusterTopology,
}

/// What identifies a snapshot.
#[derive(Debug)]
pub struct SnapshotMeta {
    pub last_log_id: Option<LogId>,
    pub last_membership: StoredMembership,
    pub snapshot_id: String,
}

/// A snapshot and what identifies it.
#[derive(Debug)]
pub struct Snapshot {
    pub meta: SnapshotMeta,
    pub snapshot: StateMachineSnapshot,
}

impl Snapshot {
    /// Whether the snapshot holds the state `m`.
    pub open spec fn captures(self, m: MachineView) -> bool {
        &&& self.snapshot.topology@ == m.topology
        &&& self.snapshot.meta@ == m.membership
        &&& self.meta.last_log_id == m.last_log
        &&& self.meta.last_membership@ == m.membership
        &&& self.meta.snapshot_id@ == snapshot_name(m.last_log)
    }
}

/// The state that a machine has once the snapshot is installed.
pub open spec fn restored(meta: SnapshotMeta, snapshot: StateMachineSnapshot) -> MachineView {
    MachineView {
        topology: snapshot.topology@,
        last_log: meta.last_log_id,
        membership: snapshot.meta@,
    }
}

/// The name of the snapshot that ends with the log entry `last`.
pub open spec fn snapshot_name(last: Option<LogId>) -> Seq<char> {
    match last {
        Some(id) => "snapshot-T"@ + decimal(id.term as int) + "-N"@ + decimal(id.node_id as int)
            + "-"@ + decimal(id.index as int),
        None => "snapshot-empty"@,
    }
}

fn name_snapshot(last: &Option<LogId>) -> (r: String)
    ensures
        r@ == snapshot_name(*last),
{
    match last {
        Some(id) => {
            let r = "snapshot-T".to_owned().concat(decimal_string(id.term).as_str()).concat(
                "-N",
            ).concat(decimal_string(id.node_id).as_str()).concat("-").concat(
                decimal_string(id.index).as_str(),
            );
            assert(r@ == snapshot_name(*last));
            r
        },
        None => "snapshot-empty".to_owned(),
    }
}

/// The Raft state machine that applies [`TopologyCommand`] entries to a
/// [`ClusterTopology`].
pub struct TopologyStateMachine {
    state: ClusterTopology,
    last_log: Option<LogId>,
    membership: StoredMembership,
    /// Sends topology snapshots to external subscribers (proxy router, etc.).
    change_tx: TopologySender,
}

/// What a [`TopologyStateMachine`] stands for.
#[verifier::ext_equal]
pub struct MachineView {
    pub topology: TopologyView,
    pub last_log: Option<LogId>,
    pub membership: StoredMembershipView,
}

/// Whether a command is among the log entries.
pub open spec fn has_command(entries: Seq<Entry>) -> bool {
    exists|i: int| 0 <= i < entries.len() && (#[trigger] entries[i]).payload is Normal
}

impl View for TopologyStateMachine {
    type V = MachineView;

    closed spec fn view(&self) -> MachineView {
        MachineView {
            topology: self.state@,
            last_log: self.last_log,
            membership: self.membership@,
        }
    }
}

impl MachineView {
    /// The state before any log entry was applied.
    pub open spec fn initial() -> MachineView {
        MachineView {
            topology: TopologyView::empty(),
            last_log: None,
            membership: StoredMembershipView { log_id: None, membership: MembershipView::empty() },
        }
    }

    /// The state after a log entry that was applied at the time `now`.
    pub open spec fn after_entry(self, e: Entry, now: i64) -> MachineView {
        match e.payload {
            EntryPayload::Blank => MachineView { last_log: Some(e.log_id), ..self },
            EntryPayload::Normal(cmd) => MachineView {
                topology: applied(self.topology, cmd@, now),
                last_log: Some(e.log_id),
                ..self
            },
            EntryPayload::Membership(m) => MachineView {
                last_log: Some(e.log_id),
                membership: StoredMembershipView { log_id: Some(e.log_id), membership: m@ },
                ..self
            },
        }
    }

    /// The state after a sequence of log entries that were applied at the
    /// given times.
    pub open spec fn after_entries(self, entries: Seq<Entry>, times: Seq<i64>) -> MachineView
        decreases entries.len(),
    {
        if entries.len() == 0 {
            self
        } else {
            self.after_entries(entries.drop_last(), times.drop_last()).after_entry(
                entries.last(),
                times.last(),
            )
        }
    }
}

impl TopologyStateMachine {
    /// The topology that subscribers see.
    pub closed spec fn published(&self) -> TopologyView {
        self.change_tx@
    }

    /// Whether a watch reads what this machine publishes.
    pub closed spec fn feeds(&self, watch: TopologyWatch) -> bool {
        self.change_tx.feeds(watch)
    }

    /// Create a new, empty state machine.
    ///
    /// Returns the machine and a watch that fires on every topology change.
    pub fn new() -> (r: (Self, TopologyWatch))
        ensures
            r.0@ == MachineView::initial(),
            r.0.published() == TopologyView::empty(),
            r.0.feeds(r.1),
            shows(r.1.receiver(), TopologyView::empty()),
    {
        let (tx, rx) = TopologyWatch::new(ClusterTopology::default());
        let sm = TopologyStateMachine {
            state: ClusterTopology::default(),
            last_log: None,
            membership: StoredMembership::default(),
            change_tx: tx,
        };
        (sm, rx)
    }

    /// Return a snapshot of the current topology, as it was last published.
    pub fn current_topology(&self) -> (r: Arc<ClusterTopology>)
        ensures
            r@ == self.published(),
    {
        self.change_tx.latest()
    }

    /// Return the last applied log id and current membership.
    pub fn applied_state(&self) -> (r: (Option<LogId>, StoredMembership))
        ensures
            r.0 == self@.last_log,
            r.1@ == self@.membership,
    {
        (self.last_log, self.membership.duplicate())
    }

    /// Apply one log entry and publish the topology if the entry changes it.
    fn apply_entry(&mut self, entry: &Entry) -> (r: TopologyResponse)
        requires
            old(self)@.topology.version < u64::MAX,
        ensures
            exists|now: i64|
                final(self)@ == #[trigger] old(self)@.after_entry(*entry, now),
            final(self).published() == if entry.payload is Normal {
                final(self)@.topology
            } else {
                old(self).published()
            },
            forall|w: TopologyWatch| #[trigger] final(self).feeds(w) == old(self).feeds(w),
            forall|w: TopologyWatch| #[trigger]
                final(self).feeds(w) && entry.payload is Normal ==> shows(
                    w.receiver(),
                    final(self)@.topology,
                ),
            r.applied_version == final(self)@.topology.version,
            final(self)@.topology.version <= old(self)@.topology.version + 1,
    {
        self.last_log = Some(entry.log_id);
        match &entry.payload {
            EntryPayload::Blank => {
                assert(self@ == old(self)@.after_entry(*entry, 0));
            },
            EntryPayload::Normal(cmd) => {
                TopologyStateMachine::apply_command(&mut self.state, cmd);
                let snapshot = self.state.clone();
                self.change_tx.publish(snapshot);
                proof {
                    let now = choose|now: i64|
                        self.state@ == #[trigger] applied(old(self)@.topology, cmd@, now);
                    assert(self@ == old(self)@.after_entry(*entry, now));
                }
            },
            EntryPayload::Membership(m) => {
                self.membership = StoredMembership {
                    log_id: Some(entry.log_id),
                    membership: m.duplicate(),
                };
                assert(self@ == old(self)@.after_entry(*entry, 0));
            },
        }
        TopologyResponse { applied_version: self.state.version }
    }

    /// Apply a slice of log entries and return per-entry responses: the
    /// version of the topology after each entry.
    pub fn apply_entries(&mut self, entries: &Vec<Entry>) -> (r: Vec<TopologyResponse>)
        requires
            old(self)@.topology.version + entries@.len() <= u64::MAX,
        ensures
            r@.len() == entries@.len(),
            exists|times: Seq<i64>|
                {
                    &&& times.len() == entries@.len()
                    &&& final(self)@ == #[trigger] old(self)@.after_entries(entries@, times)
                    &&& forall|i: int|
                        0 <= i < entries@.len() ==> (#[trigger] r@[i]).applied_version
                            == old(self)@.after_entries(
                            entries@.take(i + 1),
                            times.take(i + 1),
                        ).topology.version
                    &&& forall|w: TopologyWatch, i: int|
                        #![trigger final(self).feeds(w), entries@[i]]
                        final(self).feeds(w) && 0 <= i < entries@.len()
                            && entries@[i].payload is Normal ==> shows(
                            w.receiver(),
                            old(self)@.after_entries(
                                entries@.take(i + 1),
                                times.take(i + 1),
                            ).topology,
                        )
                },
            forall|w: TopologyWatch| #[trigger] final(self).feeds(w) == old(self).feeds(w),
            final(self).published() == if has_command(entries@) {
                final(self)@.topology
            } else {
                old(self).published()
            },
            old(self).published() == old(self)@.topology ==> final(self).published()
                == final(self)@.topology,
    {
        let mut responses: Vec<TopologyResponse> = Vec::new();
        let ghost mut times: Seq<i64> = Seq::empty();
        let ghost start = self@;
        let ghost shown = self.published();
        assert(entries@.take(0) =~= Seq::<Entry>::empty());
        for i in 0..entries.len()
            invariant
                start == old(self)@,
                shown == old(self).published(),
                start.topology.version + entries@.len() <= u64::MAX,
                self@.topology.version <= start.topology.version + i,
                times.len() == i,
                responses@.len() == i,
                self@ == start.after_entries(entries@.take(i as int), times),
                forall|j: int|
                    0 <= j < i ==> (#[trigger] responses@[j]).applied_version
                        == start.after_entries(
                        entries@.take(j + 1),
                        times.take(j + 1),
                    ).topology.version,
                self.published() == if has_command(entries@.take(i as int)) {
                    self@.topology
                } else {
                    shown
                },
                shown == start.topology ==> self.published() == self@.topology,
                forall|w: TopologyWatch| #[trigger] self.feeds(w) == old(self).feeds(w),
                forall|w: TopologyWatch, j: int|
                    #![trigger self.feeds(w), entries@[j]]
                    self.feeds(w) && 0 <= j < i && entries@[j].payload is Normal ==> shows(
                        w.receiver(),
                        start.after_entries(entries@.take(j + 1), times.take(j + 1)).topology,
                    ),
        {
            let ghost before = self@;
            let ghost machine = *self;
            let ghost old_times = times;
            let response = self.apply_entry(&entries[i]);
            responses.push(response);
            proof {
                let now = choose|now: i64|
                    self@ == #[trigger] before.after_entry(entries@[i as int], now);
                times = times.push(now);
                let all = entries@.take(i + 1);
                assert(all.drop_last() =~= entries@.take(i as int));
                assert(times.drop_last() =~= old_times);
                assert(times.take(i + 1) =~= times);
                assert(self@ == start.after_entries(all, times));
                assert forall|j: int| 0 <= j < i + 1 implies (#[trigger] responses@[j]).applied_version
                    == start.after_entries(
                    entries@.take(j + 1),
                    times.take(j + 1),
                ).topology.version by {
                    if j < i {
                        assert(times.take(j + 1) =~= old_times.take(j + 1));
                    }
                }
                assert forall|w: TopologyWatch, j: int|
                    #![trigger self.feeds(w), entries@[j]]
                    self.feeds(w) && 0 <= j < i + 1 && entries@[j].payload is Normal implies shows(
                    w.receiver(),
                    start.after_entries(entries@.take(j + 1), times.take(j + 1)).topology,
                ) by {
                    if j < i {
                        assert(machine.feeds(w));
                        assert(times.take(j + 1) =~= old_times.take(j + 1));
                    }
                }
                let prefix = entries@.take(i as int);
                if entries@[i as int].payload is Normal {
                    assert(all[i as int].payload is Normal);
                } else if has_command(prefix) {
                    let k = choose|k: int|
                        0 <= k < prefix.len() && (#[trigger] prefix[k]).payload is Normal;
                    assert(all[k].payload is Normal);
                } else if has_command(all) {
                    let k = choose|k: int|
                        0 <= k < all.len() && (#[trigger] all[k]).payload is Normal;
                    assert(prefix[k].payload is Normal);
                }
            }
        }
        proof {
            assert(entries@.take(entries@.len() as int) =~= entries@);
        }
        responses
    }

    /// Build a snapshot of the current state.
    pub fn build_snapshot_data(&self) -> (r: Snapshot)
        ensures
            r.captures(self@),
    {
        Snapshot {
            meta: SnapshotMeta {
                last_log_id: self.last_log,
                last_membership: self.membership.duplicate(),
                snapshot_id: name_snapshot(&self.last_log),
            },
            snapshot: StateMachineSnapshot {
                meta: self.membership.duplicate(),
                topology: self.state.clone(),
            },
        }
    }

    /// Begin receiving an incoming snapshot (returns an empty write buffer).
    pub fn begin_receiving_snapshot(&self) -> (r: Vec<u8>)
        ensures
            r@ == Seq::<u8>::empty(),
    {
        Vec::new()
    }

    /// Install a snapshot received from the leader and publish its topology.
    pub fn install_snapshot_from(&mut self, meta: &SnapshotMeta, snapshot: StateMachineSnapshot)
        ensures
            final(self)@ == restored(*meta, snapshot),
            final(self).published() == snapshot.topology@,
            forall|w: TopologyWatch| #[trigger] final(self).feeds(w) == old(self).feeds(w),
            forall|w: TopologyWatch| #[trigger]
                final(self).feeds(w) ==> shows(w.receiver(), snapshot.topology@),
    {
        self.state = snapshot.topology.clone();
        self.membership = snapshot.meta;
        self.last_log = meta.last_log_id;
        self.change_tx.publish(snapshot.topology);
    }

    /// Return the current snapshot if any log entry was applied.
    pub fn get_current_snapshot_data(&self) -> (r: Option<Snapshot>)
        ensures
            r is Some <==> self@.last_log is Some,
            r matches Some(s) ==> s.captures(self@),
    {
        match self.last_log {
            None => None,
            Some(_) => Some(self.build_snapshot_data()),
        }
    }

    // ── Command application ──────────────────────────────────────────────────

    /// Applies a command at the current time.
    pub fn apply_command(topology: &mut ClusterTopology, cmd: &TopologyCommand)
        requires
            old(topology)@.version < u64::MAX,
        ensures
            exists|now: i64| final(topology)@ == #[trigger] applied(old(topology)@, cmd@, now),
    {
        let now = unix_now();
        TopologyStateMachine::apply_command_at(topology, cmd, now);
    }

    /// Applies a command at the time `now`, in Unix seconds.
    pub fn apply_command_at(topology: &mut ClusterTopology, cmd: &TopologyCommand, now: i64)
        requires
            old(topology)@.version < u64::MAX,
        ensures
            final(topology)@ == applied(old(topology)@, cmd@, now),
    {
        topology.version = topology.version + 1;
        topology.last_changed_at = now;
        match cmd {
            TopologyCommand::SetPrimary { node_id, at_lsn, new_timeline: _ } => {
                let previous = topology.primary_node_id.clone();
                if !previous.as_str().is_empty() && !same_text(previous.as_str(), node_id.as_str()) {
                    topology.node_roles.insert(previous, NodeRole::Replica);
                }
                topology.primary_node_id = node_id.clone();
                topology.node_roles.insert(node_id.clone(), NodeRole::Primary);
                topology.last_flush_lsns.insert(node_id.clone(), *at_lsn);
            },
            TopologyCommand::MarkOffline { node_id } => {
                topology.node_roles.insert(node_id.clone(), NodeRole::Offline);
            },
            TopologyCommand::MarkReplica { node_id, flush_lsn } => {
                topology.node_roles.insert(node_id.clone(), NodeRole::Replica);
                topology.last_flush_lsns.insert(node_id.clone(), *flush_lsn);
            },
            TopologyCommand::MarkMaintenance { node_id } => {
                topology.node_roles.insert(node_id.clone(), NodeRole::Maintenance);
            },
            TopologyCommand::UpdatePrimaryConninfo { node_id, conninfo } => {
                topology.primary_conninfos.insert(node_id.clone(), conninfo.clone());
            },
            TopologyCommand::UpdateFlushLsn { node_id, flush_lsn, replay_lsn } => {
                topology.last_flush_lsns.insert(node_id.clone(), *flush_lsn);
                topology.last_replay_lsns.insert(node_id.clone(), *replay_lsn);
                let primary = topology.primary_node_id.clone();
                if !primary.as_str().is_empty() && !same_text(node_id.as_str(), primary.as_str()) {
                    let primary_lsn = number_or(&topology.last_flush_lsns, primary.as_str(), 0);
                    topology.replica_lag_bytes.insert(
                        node_id.clone(),
                        primary_lsn.saturating_sub(*flush_lsn),
                    );
                }
            },
            TopologyCommand::AddNode(node_cfg) => {
                if !topology.node_roles.contains_key(node_cfg.node_id.as_str()) {
                    topology.node_roles.insert(node_cfg.node_id.clone(), NodeRole::Unknown);
                }
                topology.node_configs.insert(node_cfg.node_id.clone(), node_cfg.duplicate());
            },
            TopologyCommand::RemoveNode { node_id } => {
                topology.node_roles.remove(node_id.as_str());
                topology.node_configs.remove(node_id.as_str());
                topology.last_flush_lsns.remove(node_id.as_str());
                topology.last_replay_lsns.remove(node_id.as_str());
                topology.replica_lag_bytes.remove(node_id.as_str());
            },
            TopologyCommand::RecordFailover {
                old_primary,
                new_primary,
                triggered_at,
                duration_ms,
                reason,
            } => {
                topology.record_failover(
                    FailoverEvent {
                        old_primary: old_primary.clone(),
                        new_primary: new_primary.clone(),
                        triggered_at: *triggered_at,
                        duration_ms: *duration_ms,
                        reason: reason.clone(),
                    },
                );
            },
            TopologyCommand::SetReplicationSlot { node_id, slot_name } => {
                topology.replica_slots.insert(node_id.clone(), slot_name.clone());
            },
            TopologyCommand::AddBackupManifest(manifest) => {
                let ghost before = topology.backups@;
                topology.backups.push(manifest.duplicate());
                assert(views(topology.backups@) =~= views(before).push(manifest@));
                let mut sorted = sort_manifests(&topology.backups);
                let ghost all = sorted@;
                sorted.truncate(BACKUPS_MAX);
                assert(views(sorted@) =~= first_of(views(all), BACKUPS_MAX as int));
                topology.backups = sorted;
            },
            TopologyCommand::RemoveBackupManifest { backup_id } => {
                topology.backups = without_backup(&topology.backups, backup_id.as_str());
            },
        }
        assert(topology@ =~= applied(old(topology)@, cmd@, now));
    }
}

} // verus!
