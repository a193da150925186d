//! What the backups of a cluster amount to.

use super::{counts, due, is_last_backup, is_schedule_step, is_source};
use super::{key_base, prefix_of, superseded, uri_of, ScheduleStep};
use crate::config::BackupFrequency;
use crate::raft::laws::lemma_most_recent_first;
use crate::raft::state_machine::most_recent_first;
use crate::raft::topology::{BackupManifestView, BackupStatus, NodeRole, TopologyView};
use vstd::prelude::*;

verus! {

// ── The source ───────────────────────────────────────────────────────────────

/// Whether a node has the role of a replica.
pub open spec fn replicates(t: TopologyView, id: Seq<char>) -> bool {
    t.node_roles.contains_key(id) && t.node_roles[id] == NodeRole::Replica
}

/// How far behind a node is recorded to be; a node of which nothing is recorded
/// is behind all others.
pub open spec fn known_lag(t: TopologyView, id: Seq<char>) -> int {
    if t.replica_lag_bytes.contains_key(id) {
        t.replica_lag_bytes[id] as int
    } else {
        0xffff_ffff_ffff_ffff
    }
}

/// If replicas are preferred and there is one, the backup is taken from a
/// replica that is least behind, at its own address, as long as the replicas
/// have addresses.
pub proof fn lemma_backup_prefers_replica(
    t: TopologyView,
    r: Option<(String, String)>,
    other: Seq<char>,
)
    requires
        is_source(t, true, r),
        replicates(t, other),
        forall|id: Seq<char>| #[trigger] replicates(t, id) ==> t.node_configs.contains_key(id),
    ensures
        r matches Some((id, addr)) && replicates(t, id@) && known_lag(t, id@) <= known_lag(t, other)
            && addr@ == t.node_configs[id@].postgres_addr,
{
    assert(t.is_replica(other));
    let best = choose|best: Seq<char>|
        #![trigger super::is_least_lagged(t, best)]
        super::is_least_lagged(t, best) && super::is_replica_source(t, best, r);
    assert(replicates(t, best));
}

/// If replicas are not preferred, or there is none, the backup is taken from the
/// primary, if it is known with its address.
pub proof fn lemma_backup_falls_back_to_primary(
    t: TopologyView,
    prefer_replica: bool,
    r: Option<(String, String)>,
)
    requires
        is_source(t, prefer_replica, r),
        !prefer_replica || forall|id: Seq<char>| !#[trigger] replicates(t, id),
    ensures
        r is Some <==> t.primary_node_id.len() > 0 && t.node_configs.contains_key(
            t.primary_node_id,
        ),
        r matches Some((id, addr)) ==> id@ == t.primary_node_id && addr@
            == t.node_configs[t.primary_node_id].postgres_addr,
{
    if prefer_replica {
        assert forall|id: Seq<char>| !#[trigger] t.is_replica(id) by {
            assert(!replicates(t, id));
        }
    }
}

// ── The schedule ─────────────────────────────────────────────────────────────

/// How many seconds after the last one the next backup of a tier is made: 23
/// hours, 7 days less an hour, and 28 days.
pub open spec fn interval(frequency: BackupFrequency) -> int {
    match frequency {
        BackupFrequency::Daily => 82800,
        BackupFrequency::Weekly => 601200,
        BackupFrequency::Monthly => 2419200,
    }
}

/// How a tier is called.
pub open spec fn tier(frequency: BackupFrequency) -> Seq<char> {
    match frequency {
        BackupFrequency::Daily => "daily"@,
        BackupFrequency::Weekly => "weekly"@,
        BackupFrequency::Monthly => "monthly"@,
    }
}

/// Whether a completed backup of a tier is younger than its interval.
pub open spec fn is_recent(b: BackupManifestView, frequency: BackupFrequency, now: i64) -> bool {
    &&& b.status == BackupStatus::Completed
    &&& b.frequency == tier(frequency)
    &&& now - b.completed_at < interval(frequency)
}

/// A backup is due if there was none, and again once its interval has passed.
pub proof fn lemma_when_a_backup_is_due(frequency: BackupFrequency, at: i64, now: i64)
    ensures
        due(frequency, None, now),
        due(frequency, Some(at), now) <==> now - at >= interval(frequency),
{
}

/// The time of the last backup of a tier is that of its newest completed one:
/// backups of other tiers, and those that did not complete, do not count.
pub proof fn lemma_last_backup_is_newest(
    backups: Seq<BackupManifestView>,
    frequency: Seq<char>,
    ts: Option<i64>,
    i: int,
)
    requires
        is_last_backup(backups, frequency, ts),
        0 <= i < backups.len(),
        backups[i].status == BackupStatus::Completed,
        backups[i].frequency == frequency,
    ensures
        ts matches Some(at) && at >= backups[i].completed_at && exists|j: int|
            0 <= j < backups.len() && (#[trigger] backups[j]).status == BackupStatus::Completed
                && backups[j].frequency == frequency && backups[j].completed_at == at,
{
    assert(counts(backups[i], frequency));
    if let Some(at) = ts {
        let j = choose|j: int|
            0 <= j < backups.len() && counts(#[trigger] backups[j], frequency)
                && backups[j].completed_at == at;
        assert(backups[j].completed_at == at);
    }
}

/// A tier is passed over exactly if it has a completed backup that is younger
/// than its interval. Otherwise a backup is made if there is a node to make it
/// from, under the name of the tier and the date.
pub proof fn lemma_schedule(
    t: TopologyView,
    prefer_replica: bool,
    frequency: BackupFrequency,
    now: i64,
    date: Seq<char>,
    r: ScheduleStep,
)
    requires
        is_schedule_step(t, prefer_replica, frequency, now, date, r),
    ensures
        r is NotDue <==> exists|i: int|
            0 <= i < t.backups.len() && is_recent(#[trigger] t.backups[i], frequency, now),
        r matches ScheduleStep::Run(job) ==> {
            &&& job.frequency@ == tier(frequency)
            &&& job.label@ == tier(frequency) + "-"@ + date
            &&& is_source(t, prefer_replica, Some((job.source_node, job.source_addr)))
        },
        r is NoSource ==> is_source(t, prefer_replica, None),
{
    let (last, source) = choose|last: Option<i64>, source: Option<(String, String)>|
        #![trigger is_last_backup(t.backups, frequency.name(), last), is_source(t, prefer_replica, source)]
        {
            &&& is_last_backup(t.backups, frequency.name(), last)
            &&& is_source(t, prefer_replica, source)
            &&& if !due(frequency, last, now) {
                r is NotDue
            } else {
                match source {
                    None => r is NoSource,
                    Some((id, addr)) => r matches ScheduleStep::Run(job) && job.frequency@
                        == frequency.name() && job.source_node@ == id@ && job.source_addr@ == addr@
                        && job.label@ == frequency.name() + "-"@ + date,
                }
            }
        };
    assert(frequency.name() == tier(frequency));
    if let Some(at) = last {
        let i = choose|i: int|
            0 <= i < t.backups.len() && counts(#[trigger] t.backups[i], frequency.name())
                && t.backups[i].completed_at == at;
        if now - at < interval(frequency) {
            assert(is_recent(t.backups[i], frequency, now));
        } else {
            assert forall|j: int| 0 <= j < t.backups.len() implies !is_recent(
                #[trigger] t.backups[j],
                frequency,
                now,
            ) by {
                if counts(t.backups[j], frequency.name()) {
                    assert(t.backups[j].completed_at <= at);
                }
            }
        }
    } else {
        assert forall|j: int| 0 <= j < t.backups.len() implies !is_recent(
            #[trigger] t.backups[j],
            frequency,
            now,
        ) by {
            assert(!counts(t.backups[j], frequency.name()));
        }
    }
    if let ScheduleStep::Run(job) = r {
        lemma_source_by_views(t, prefer_replica, source, Some((job.source_node, job.source_addr)));
    }
}

/// Whether a source is right depends on its texts only.
proof fn lemma_source_by_views(
    t: TopologyView,
    prefer_replica: bool,
    a: Option<(String, String)>,
    b: Option<(String, String)>,
)
    requires
        is_source(t, prefer_replica, a),
        a matches Some((id, addr)) && (b matches Some((id2, addr2)) && id@ == id2@ && addr@
            == addr2@),
    ensures
        is_source(t, prefer_replica, b),
{
    if prefer_replica && !super::no_replica(t) {
        let best = choose|best: Seq<char>|
            #![trigger super::is_least_lagged(t, best)]
            super::is_least_lagged(t, best) && super::is_replica_source(t, best, a);
        assert(super::is_least_lagged(t, best) && super::is_replica_source(t, best, b));
    }
}

// ── Pruning ──────────────────────────────────────────────────────────────────

/// The completed backups of a tier.
pub open spec fn completed_of(
    backups: Seq<BackupManifestView>,
    frequency: Seq<char>,
) -> Seq<BackupManifestView> {
    backups.filter(
        |b: BackupManifestView| b.status == BackupStatus::Completed && b.frequency == frequency,
    )
}

/// Pruning splits the completed backups of a tier in those that stay and those
/// that go. As many stay as are to be retained, or all if there are fewer, and
/// each of them is at least as recent as any that goes.
pub proof fn lemma_prune_splits_tier(
    backups: Seq<BackupManifestView>,
    frequency: Seq<char>,
    retain: int,
)
    requires
        0 <= retain,
    ensures
        exists|kept: Seq<BackupManifestView>| #[trigger]
            is_split(backups, frequency, retain, kept),
{
    broadcast use vstd::seq_lib::group_to_multiset_ensures;

    let all = completed_of(backups, frequency);
    assert(all =~= backups.filter(|b: BackupManifestView| counts(b, frequency))) by {
        lemma_same_filter(backups, frequency);
    }
    lemma_most_recent_first(all);
    let sorted = most_recent_first(all);
    let n = if sorted.len() <= retain {
        sorted.len() as int
    } else {
        retain
    };
    let kept = sorted.take(n);
    let gone = superseded(backups, frequency, retain);
    assert(gone =~= sorted.skip(n));
    assert(kept + gone =~= sorted);
    vstd::seq_lib::lemma_multiset_commutative(kept, gone);
    assert(is_split(backups, frequency, retain, kept));
}

proof fn lemma_same_filter(backups: Seq<BackupManifestView>, frequency: Seq<char>)
    ensures
        completed_of(backups, frequency) == backups.filter(
            |b: BackupManifestView| counts(b, frequency),
        ),
    decreases backups.len(),
{
    reveal(Seq::filter);
    if backups.len() > 0 {
        lemma_same_filter(backups.drop_last(), frequency);
    }
}

/// Whether `kept` is what pruning leaves of a tier.
pub open spec fn is_split(
    backups: Seq<BackupManifestView>,
    frequency: Seq<char>,
    retain: int,
    kept: Seq<BackupManifestView>,
) -> bool {
    let all = completed_of(backups, frequency);
    let gone = superseded(backups, frequency, retain);
    &&& kept.to_multiset().add(gone.to_multiset()) == all.to_multiset()
    &&& kept.len() == if all.len() <= retain {
        all.len() as int
    } else {
        retain
    }
    &&& forall|i: int, j: int|
        0 <= i < kept.len() && 0 <= j < gone.len() ==> (#[trigger] kept[i]).completed_at >= (
        #[trigger] gone[j]).completed_at
}

// ── Where backups stand ──────────────────────────────────────────────────────

/// The files of a backup stand under the prefix, the tier and the id; a slash
/// at the end of the prefix makes no difference. Their location names the
/// bucket. A location in another bucket is left as it is.
pub proof fn lemma_keys(
    prefix: Seq<char>,
    frequency: Seq<char>,
    backup_id: Seq<char>,
    bucket: Seq<char>,
    base: Seq<char>,
    other: Seq<char>,
)
    requires
        prefix.len() > 0 ==> prefix.last() != '/',
        forall|rest: Seq<char>| other != #[trigger] ("s3://"@ + bucket + "/"@ + rest),
    ensures
        key_base(prefix, frequency, backup_id) == prefix + "/"@ + frequency + "/"@ + backup_id,
        key_base(prefix.push('/'), frequency, backup_id) == prefix + "/"@ + frequency + "/"@
            + backup_id,
        uri_of(bucket, base) == "s3://"@ + bucket + "/"@ + base,
        prefix_of(bucket, "s3://"@ + bucket + "/"@ + base) == base,
        prefix_of(bucket, other) == other,
{
    reveal_with_fuel(crate::text::without_trailing, 3);
    assert(prefix.push('/').drop_last() =~= prefix);
    super::lemma_delete_reaches_backup(bucket, base);
    assert(uri_of(bucket, base) =~= "s3://"@ + bucket + "/"@ + base);
    crate::text::lemma_begins_parts(other, "s3://"@ + bucket + "/"@);
}

/// Nothing is deleted while the new backup is not on record. Afterwards exactly
/// the superseded ones go, and never one of another tier or one that did not
/// complete.
pub proof fn lemma_what_is_deleted(
    backups: Seq<BackupManifestView>,
    frequency: Seq<char>,
    retain: int,
    i: int,
)
    requires
        0 <= retain,
    ensures
        super::to_delete(false, backups, frequency, retain).len() == 0,
        super::to_delete(true, backups, frequency, retain).len() == if completed_of(
            backups,
            frequency,
        ).len() <= retain {
            0
        } else {
            completed_of(backups, frequency).len() - retain
        },
        0 <= i < super::to_delete(true, backups, frequency, retain).len() ==> {
            let b = super::to_delete(true, backups, frequency, retain)[i];
            b.status == BackupStatus::Completed && b.frequency == frequency && backups.contains(b)
        },
{
    broadcast use vstd::seq_lib::group_filter_ensures;
    broadcast use vstd::seq_lib::group_to_multiset_ensures;

    lemma_same_filter(backups, frequency);
    let keep = |b: BackupManifestView| counts(b, frequency);
    let all = backups.filter(keep);
    let sorted = most_recent_first(all);
    lemma_most_recent_first(all);
    let gone = superseded(backups, frequency, retain);
    if 0 <= i < gone.len() {
        let b = gone[i];
        assert(b == sorted[i + retain]);
        assert(sorted.contains(b));
        assert(sorted.to_multiset().count(b) > 0);
        assert(all.to_multiset().count(b) > 0);
        assert(all.contains(b));
        let k = choose|k: int| 0 <= k < all.len() && all[k] == b;
        assert(keep(all[k]));
        backups.lemma_filter_contains_rev(keep, b);
    }
}

/// The message for a backup that failed gives its exit code, if it had one, and
/// what it printed.
pub proof fn lemma_exit_message(code: i32, stderr: Seq<char>)
    requires
        stderr.len() > 0,
        !crate::text::is_space(stderr[0]),
        !crate::text::is_space(stderr.last()),
    ensures
        super::exit_text(Some(code), stderr) == "pg_basebackup exited "@ + ("Some("@
            + crate::numerals::signed_decimal(code as int) + ")"@) + ": "@ + stderr,
        super::exit_text(None, stderr) == "pg_basebackup exited "@ + "None"@ + ": "@ + stderr,
{
    crate::text::lemma_trimming(Seq::empty(), stderr);
    assert(Seq::<char>::empty() + stderr =~= stderr);
    assert(stderr + Seq::<char>::empty() =~= stderr);
}

} // verus!
