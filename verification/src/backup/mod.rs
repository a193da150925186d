//! Scheduled backup coordinator.
//!
//! A scheduler runs on every pgcluster node but acts only when the node is the
//! Raft leader. It wakes once per hour, checks each configured frequency tier
//! (daily / weekly / monthly) against the last completed backup timestamp
//! stored in Raft topology, and runs pg_basebackup when a tier is due.
//!
//! The preferred source is the replica with the smallest replication lag;
//! the primary is used as a fallback.

pub mod laws;

use crate::clock::unix_now;
use crate::config::{BackupFrequency, BackupScheduleEntry};
use crate::numerals::{decimal, decimal_string, parse_unsigned, signed_decimal};
use crate::numerals::{signed_decimal_string, unsigned_value};
use crate::raft::commands::{CommandView, TopologyCommand};
use crate::raft::state_machine::{most_recent_first, sort_manifests};
use crate::raft::topology::{number_or, value_or, BackupManifest, BackupManifestView};
use crate::raft::topology::{BackupStatus, ClusterTopology, NodeRole, TopologyView};
use crate::table::{has_name, views, Duplicate};
use crate::text::{after_last, char_vec, cut, find_last, last_index, quote, quoted, same_text};
use crate::text::{begins_with, strip_prefix, trim, trim_end_of, trimmed, without_prefix};
use crate::text::{lemma_last_index_bounds, without_trailing};
use crate::calendar::{date_of, date_text};
use vstd::prelude::*;
use vstd::string::StringExecFns;

verus! {

// ── Outside values ───────────────────────────────────────────────────────────

/// Whether a text has the shape of a random UUID: 32 lower-case hexadecimal
/// digits in five groups, with the version in its place.
pub open spec fn is_random_uuid(s: Seq<char>) -> bool {
    &&& s.len() == 36
    &&& s[8] == '-' && s[13] == '-' && s[18] == '-' && s[23] == '-'
    &&& s[14] == '4'
    &&& forall|i: int|
        0 <= i < 36 && i != 8 && i != 13 && i != 18 && i != 23 ==> ('0' <= #[trigger] s[i] <= '9'
            || 'a' <= s[i] <= 'f')
}

/// `uuid::Uuid::new_v4`, written as text. Two calls give different texts with
/// overwhelming probability, which is not stated; only the shape is.
#[verifier::external_body]
fn new_uuid() -> (r: String)
    ensures
        is_random_uuid(r@),
{
    uuid::Uuid::new_v4().to_string()
}

/// Whether a text is a date from 1970 on, written as year, month and day.
pub open spec fn is_date(s: Seq<char>) -> bool {
    exists|days: nat| s == #[trigger] date_text(date_of(days))
}

/// `chrono::Utc::now`, formatted as year, month and day. The clock reading is
/// counted from the beginning of 1970, so the text is a date from then on;
/// which date it is, is not said.
#[verifier::external_body]
fn utc_date() -> (r: String)
    ensures
        is_date(r@),
{
    chrono::Utc::now().format("%Y-%m-%d").to_string()
}

/// The id of a new backup.
pub fn new_backup_id() -> (r: String)
    ensures
        is_random_uuid(r@),
{
    new_uuid()
}

// ── Scheduling helpers ───────────────────────────────────────────────────────

/// The replication lag of a replica, the greatest number if it is not known.
pub open spec fn backup_lag(t: TopologyView, id: Seq<char>) -> u64 {
    value_or(t.replica_lag_bytes, id, u64::MAX)
}

/// Whether no replica is less behind than this one.
pub open spec fn is_least_lagged(t: TopologyView, id: Seq<char>) -> bool {
    &&& t.is_replica(id)
    &&& forall|other: Seq<char>| #[trigger]
        t.is_replica(other) ==> backup_lag(t, id) <= backup_lag(t, other)
}

/// Whether there is no replica.
pub open spec fn no_replica(t: TopologyView) -> bool {
    forall|id: Seq<char>| !#[trigger] t.is_replica(id)
}

/// Whether `r` is the primary with its address, if both are known.
pub open spec fn is_primary_source(t: TopologyView, r: Option<(String, String)>) -> bool {
    &&& r is Some <==> t.primary_node_id.len() != 0 && t.node_configs.contains_key(
        t.primary_node_id,
    )
    &&& r matches Some((id, addr)) ==> id@ == t.primary_node_id && addr@
        == t.node_configs[t.primary_node_id].postgres_addr
}

/// Whether `r` is a source with the replica `best` as the first choice: the
/// replica if its address is known, otherwise the primary.
pub open spec fn is_replica_source(
    t: TopologyView,
    best: Seq<char>,
    r: Option<(String, String)>,
) -> bool {
    if t.node_configs.contains_key(best) {
        r matches Some((id, addr)) && id@ == best && addr@ == t.node_configs[best].postgres_addr
    } else {
        is_primary_source(t, r)
    }
}

/// Whether `r` is the node to back up from.
pub open spec fn is_source(
    t: TopologyView,
    prefer_replica: bool,
    r: Option<(String, String)>,
) -> bool {
    if prefer_replica && !no_replica(t) {
        exists|best: Seq<char>|
            #![trigger is_least_lagged(t, best)]
            is_least_lagged(t, best) && is_replica_source(t, best, r)
    } else {
        is_primary_source(t, r)
    }
}

fn least_lagged(topology: &ClusterTopology) -> (r: Option<String>)
    ensures
        r is None <==> no_replica(topology@),
        r matches Some(id) ==> is_least_lagged(topology@, id@),
{
    let mut best: Option<String> = None;
    let mut best_lag: u64 = 0;
    let n = topology.node_roles.len();
    let ghost pairs = topology.node_roles.pairs();
    let ghost t = topology@;
    for i in 0..n
        invariant
            n == pairs.len(),
            t == topology@,
            pairs == topology.node_roles.pairs(),
            best is None ==> forall|j: int| 0 <= j < i ==> !t.is_replica((#[trigger] pairs[j]).0),
            best matches Some(b) ==> {
                &&& t.is_replica(b@)
                &&& best_lag == backup_lag(t, b@)
                &&& forall|j: int|
                    0 <= j < i && t.is_replica((#[trigger] pairs[j]).0) ==> best_lag <= backup_lag(
                        t,
                        pairs[j].0,
                    )
            },
    {
        let id = topology.node_roles.name_at(i);
        let role = *topology.node_roles.value_at(i);
        if role == NodeRole::Replica {
            let lag = number_or(&topology.replica_lag_bytes, id.as_str(), u64::MAX);
            let better = match &best {
                None => true,
                Some(_) => lag < best_lag,
            };
            if better {
                best = Some(id.clone());
                best_lag = lag;
            }
        }
    }
    proof {
        assert forall|id: Seq<char>| #[trigger] t.is_replica(id) implies exists|j: int|
            0 <= j < n && (#[trigger] pairs[j]).0 == id by {
            assert(has_name(pairs, id));
        }
    }
    best
}

/// Pick the best Postgres node to back up from.
/// Prefers the replica with the smallest replication lag (fewest bytes behind);
/// falls back to the primary when `prefer_replica` is false or no replica is healthy.
pub fn select_source(topology: &ClusterTopology, prefer_replica: bool) -> (r: Option<
    (String, String),
>)
    ensures
        is_source(topology@, prefer_replica, r),
{
    if prefer_replica {
        match least_lagged(topology) {
            Some(node_id) => match topology.node_configs.get(node_id.as_str()) {
                Some(config) => {
                    let r = Some((node_id, config.postgres_addr.clone()));
                    assert(is_least_lagged(topology@, node_id@));
                    assert(is_replica_source(topology@, node_id@, r));
                    return r;
                },
                None => {
                    assert(is_least_lagged(topology@, node_id@));
                },
            },
            None => {},
        }
    }
    if topology.primary_node_id.as_str().is_empty() {
        return None;
    }
    match topology.node_configs.get(topology.primary_node_id.as_str()) {
        Some(config) => Some((topology.primary_node_id.clone(), config.postgres_addr.clone())),
        None => None,
    }
}

/// Whether a manifest is that of a completed backup of the frequency.
pub open spec fn counts(b: BackupManifestView, frequency: Seq<char>) -> bool {
    b.frequency == frequency && b.status == BackupStatus::Completed
}

/// Whether `ts` is the time of the last completed backup of the frequency.
pub open spec fn is_last_backup(
    backups: Seq<BackupManifestView>,
    frequency: Seq<char>,
    ts: Option<i64>,
) -> bool {
    match ts {
        None => forall|i: int|
            0 <= i < backups.len() ==> !counts(#[trigger] backups[i], frequency),
        Some(at) => {
            &&& exists|i: int|
                0 <= i < backups.len() && counts(#[trigger] backups[i], frequency)
                    && backups[i].completed_at == at
            &&& forall|i: int|
                0 <= i < backups.len() && counts(#[trigger] backups[i], frequency)
                    ==> backups[i].completed_at <= at
        },
    }
}

/// When the last completed backup of the frequency ended.
pub fn last_backup_ts(topology: &ClusterTopology, frequency: &str) -> (r: Option<i64>)
    ensures
        is_last_backup(topology@.backups, frequency@, r),
{
    let ghost all = topology@.backups;
    let mut last: Option<i64> = None;
    for i in 0..topology.backups.len()
        invariant
            all == topology@.backups,
            all == views(topology.backups@),
            is_last_backup(all.take(i as int), frequency@, last),
    {
        let b = &topology.backups[i];
        let ghost before = all.take(i as int);
        let ghost now = all.take(i + 1);
        assert(now =~= before.push(all[i as int]));
        assert(all[i as int] == b@);
        let ghost previous = last;
        if same_text(b.frequency.as_str(), frequency) && b.status == BackupStatus::Completed {
            let newer = match last {
                None => true,
                Some(at) => b.completed_at > at,
            };
            if newer {
                last = Some(b.completed_at);
            }
        }
        proof {
            if let Some(at) = last {
                if counts(all[i as int], frequency@) && all[i as int].completed_at == at {
                    assert(counts(now[i as int], frequency@));
                } else {
                    let j = choose|j: int|
                        0 <= j < before.len() && counts(#[trigger] before[j], frequency@)
                            && before[j].completed_at == at;
                    assert(counts(now[j], frequency@));
                }
                assert forall|j: int|
                    0 <= j < now.len() && counts(#[trigger] now[j], frequency@) implies now[j].completed_at
                    <= at by {
                    if j < i {
                        assert(counts(before[j], frequency@));
                    }
                }
            } else {
                assert forall|j: int| 0 <= j < now.len() implies !counts(
                    #[trigger] now[j],
                    frequency@,
                ) by {
                    if j < i {
                        assert(!counts(before[j], frequency@));
                    }
                }
            }
        }
    }
    assert(all.take(all.len() as int) =~= all);
    last
}

/// How many seconds after a backup the next one of the frequency is due. Daily
/// and weekly backups have one hour of slack so that they don't drift across
/// the day boundary.
pub open spec fn period(frequency: BackupFrequency) -> int {
    match frequency {
        BackupFrequency::Daily => 23int * 3600,
        BackupFrequency::Weekly => (7int * 24 - 1) * 3600,
        BackupFrequency::Monthly => 28int * 24 * 3600,
    }
}

/// Whether a backup is due at the time `now`.
pub open spec fn due(frequency: BackupFrequency, last: Option<i64>, now: i64) -> bool {
    last matches Some(at) ==> now - at >= period(frequency)
}

/// Whether a backup is due at the time `now`: there was none yet, or the last
/// one is long enough ago.
pub fn is_due_at(frequency: &BackupFrequency, last: Option<i64>, now: i64) -> (r: bool)
    ensures
        r == due(*frequency, last, now),
{
    match last {
        None => true,  // never backed up
        Some(at) => {
            let elapsed: i128 = now as i128 - at as i128;
            match frequency {
                BackupFrequency::Daily => elapsed >= 23 * 3600,
                BackupFrequency::Weekly => elapsed >= (7 * 24 - 1) * 3600,
                BackupFrequency::Monthly => elapsed >= 28 * 24 * 3600,
            }
        },
    }
}

/// Whether a backup is due now.
pub fn is_due(frequency: &BackupFrequency, last: Option<i64>) -> (r: bool)
    ensures
        exists|now: i64| r == #[trigger] due(*frequency, last, now),
        last is None ==> r,
{
    let now = unix_now();
    is_due_at(frequency, last, now)
}

// ── Jobs ─────────────────────────────────────────────────────────────────────

/// A backup that is to be made.
#[derive(Debug)]
pub struct BackupJob {
    pub frequency: String,
    pub source_node: String,
    pub source_addr: String,
    pub label: String,
}

/// What the scheduler does with one tier.
#[derive(Debug)]
pub enum ScheduleStep {
    NotDue,
    /// There is no suitable node to back up from.
    NoSource,
    Run(BackupJob),
}

/// Whether a node acts as the scheduler: backups are enabled, and it is the
/// Raft leader.
pub fn acts_as_scheduler(enabled: bool, leader: Option<u64>, my_id: u64) -> (r: bool)
    ensures
        r <==> enabled && leader == Some(my_id),
{
    enabled && match leader {
        Some(id) => id == my_id,
        None => false,
    }
}

/// Whether `r` is the right step for a tier.
pub open spec fn is_schedule_step(
    t: TopologyView,
    prefer_replica: bool,
    frequency: BackupFrequency,
    now: i64,
    date: Seq<char>,
    r: ScheduleStep,
) -> bool {
    exists|last: Option<i64>, source: Option<(String, String)>|
        #![trigger is_last_backup(t.backups, frequency.name(), last), is_source(t, prefer_replica, source)]
        {
            &&& is_last_backup(t.backups, frequency.name(), last)
            &&& is_source(t, prefer_replica, source)
            &&& if !due(frequency, last, now) {
                r is NotDue
            } else {
                match source {
                    None => r is NoSource,
                    Some((id, addr)) => r matches ScheduleStep::Run(job) && job.frequency@
                        == frequency.name() && job.source_node@ == id@ && job.source_addr@ == addr@
                        && job.label@ == frequency.name() + "-"@ + date,
                }
            }
        }
}

/// Decides on one tier at the time `now`, on the given date.
pub fn schedule_step_at(
    topology: &ClusterTopology,
    prefer_replica: bool,
    entry: &BackupScheduleEntry,
    now: i64,
    date: &str,
) -> (r: ScheduleStep)
    ensures
        is_schedule_step(topology@, prefer_replica, entry.frequency, now, date@, r),
{
    let frequency = entry.frequency.as_text();
    let last = last_backup_ts(topology, frequency.as_str());
    let source = select_source(topology, prefer_replica);
    proof {
        assert(is_last_backup(topology@.backups, entry.frequency.name(), last));
        assert(is_source(topology@, prefer_replica, source));
    }
    if !is_due_at(&entry.frequency, last, now) {
        return ScheduleStep::NotDue;
    }
    match source {
        None => ScheduleStep::NoSource,
        Some((source_node, source_addr)) => {
            let label = frequency.clone().concat("-").concat(date);
            ScheduleStep::Run(BackupJob { frequency, source_node, source_addr, label })
        },
    }
}

/// Decides on one tier now.
pub fn schedule_step(
    topology: &ClusterTopology,
    prefer_replica: bool,
    entry: &BackupScheduleEntry,
) -> (r: ScheduleStep)
    ensures
        exists|now: i64, date: Seq<char>|
            is_date(date) && #[trigger] is_schedule_step(
                topology@,
                prefer_replica,
                entry.frequency,
                now,
                date,
                r,
            ),
{
    let now = unix_now();
    let date = utc_date();
    schedule_step_at(topology, prefer_replica, entry, now, date.as_str())
}

// ── Pruning ──────────────────────────────────────────────────────────────────

/// The completed backups of a frequency that are no longer retained: all but
/// the `retain` most recent ones.
pub open spec fn superseded(
    backups: Seq<BackupManifestView>,
    frequency: Seq<char>,
    retain: int,
) -> Seq<BackupManifestView> {
    let completed = most_recent_first(
        backups.filter(|b: BackupManifestView| counts(b, frequency)),
    );
    if completed.len() <= retain {
        Seq::empty()
    } else {
        completed.skip(retain)
    }
}

fn select_completed(backups: &Vec<BackupManifest>, frequency: &str) -> (r: Vec<BackupManifest>)
    ensures
        views(r@) == views(backups@).filter(|b: BackupManifestView| counts(b, frequency@)),
{
    let ghost s = views(backups@);
    let ghost keep = |b: BackupManifestView| counts(b, frequency@);
    let mut out: Vec<BackupManifest> = Vec::new();
    proof {
        reveal(Seq::filter);
    }
    assert(views(out@) =~= s.take(0).filter(keep));
    for i in 0..backups.len()
        invariant
            s == views(backups@),
            keep == (|b: BackupManifestView| counts(b, frequency@)),
            views(out@) == s.take(i as int).filter(keep),
    {
        proof {
            reveal(Seq::filter);
            assert(s.take(i + 1).drop_last() =~= s.take(i as int));
        }
        let b = &backups[i];
        assert(s[i as int] == b@);
        if same_text(b.frequency.as_str(), frequency) && b.status == BackupStatus::Completed {
            let ghost before = out@;
            out.push(b.duplicate());
            assert(views(out@) =~= views(before).push(s[i as int]));
        }
    }
    assert(s.take(s.len() as int) =~= s);
    out
}

/// The backups to delete so that `retain` completed ones of the frequency are
/// left, the most recent first.
pub fn prune(topology: &ClusterTopology, frequency: &str, retain: usize) -> (r: Vec<BackupManifest>)
    ensures
        views(r@) == superseded(topology@.backups, frequency@, retain as int),
{
    let selected = select_completed(&topology.backups, frequency);
    let completed = sort_manifests(&selected);
    let ghost all = views(completed@);
    let n: usize = completed.len();
    let mut out: Vec<BackupManifest> = Vec::new();
    if n <= retain {
        assert(views(out@) =~= Seq::empty());
        return out;
    }
    let mut i: usize = retain;
    assert(views(out@) =~= all.subrange(retain as int, retain as int));
    while i < n
        invariant
            n == completed@.len(),
            retain <= i <= n,
            all == views(completed@),
            views(out@) == all.subrange(retain as int, i as int),
        decreases n - i,
    {
        let ghost before = out@;
        out.push(completed[i].duplicate());
        assert(views(out@) =~= views(before).push(all[i as int]));
        assert(all.subrange(retain as int, i + 1) =~= all.subrange(retain as int, i as int).push(
            all[i as int],
        ));
        i = i + 1;
    }
    assert(all.subrange(retain as int, n as int) =~= all.skip(retain as int));
    out
}

// ── Locations ────────────────────────────────────────────────────────────────

/// The key under which the files of a backup stand.
pub open spec fn key_base(prefix: Seq<char>, frequency: Seq<char>, backup_id: Seq<char>) -> Seq<
    char,
> {
    without_trailing(prefix, '/') + "/"@ + frequency + "/"@ + backup_id
}

/// The location of a backup.
pub open spec fn uri_of(bucket: Seq<char>, base: Seq<char>) -> Seq<char> {
    "s3://"@ + bucket + "/"@ + base
}

/// The key prefix that a location in a bucket has; the whole location if it
/// is in another bucket.
pub open spec fn prefix_of(bucket: Seq<char>, uri: Seq<char>) -> Seq<char> {
    match without_prefix(uri, "s3://"@ + bucket + "/"@) {
        Some(rest) => rest,
        None => uri,
    }
}

/// The key under which the files of a backup stand.
pub fn s3_key_base(prefix: &str, frequency: &str, backup_id: &str) -> (r: String)
    ensures
        r@ == key_base(prefix@, frequency@, backup_id@),
{
    trim_end_of(prefix, '/').concat("/").concat(frequency).concat("/").concat(backup_id)
}

/// The key of one file of a backup.
pub fn s3_key(base: &str, filename: &str) -> (r: String)
    ensures
        r@ == base@ + "/"@ + filename@,
{
    base.to_owned().concat("/").concat(filename)
}

/// The location of a backup.
pub fn s3_uri(bucket: &str, base: &str) -> (r: String)
    ensures
        r@ == uri_of(bucket@, base@),
{
    "s3://".to_owned().concat(bucket).concat("/").concat(base)
}

/// The key prefix of all objects of a backup.
pub fn delete_prefix(bucket: &str, s3_uri: &str) -> (r: String)
    ensures
        r@ == prefix_of(bucket@, s3_uri@),
{
    let head = "s3://".to_owned().concat(bucket).concat("/");
    match strip_prefix(s3_uri, head.as_str()) {
        Some(rest) => rest,
        None => s3_uri.to_owned(),
    }
}

// ── Running a backup ─────────────────────────────────────────────────────────

/// Why an address cannot be connected to.
#[derive(Debug)]
pub enum AddressError {
    MissingPort(String),
    InvalidPort(String),
}

impl AddressError {
    /// The message for the log.
    pub open spec fn text(self) -> Seq<char> {
        match self {
            AddressError::MissingPort(addr) => "missing port in address "@ + quoted(addr@),
            AddressError::InvalidPort(addr) => "invalid port in address "@ + quoted(addr@),
        }
    }

    /// The message for the log.
    pub fn message(&self) -> (r: String)
        ensures
            r@ == self.text(),
    {
        match self {
            AddressError::MissingPort(addr) => "missing port in address ".to_owned().concat(
                quote(addr.as_str()).as_str(),
            ),
            AddressError::InvalidPort(addr) => "invalid port in address ".to_owned().concat(
                quote(addr.as_str()).as_str(),
            ),
        }
    }
}

/// The port in an address: what stands behind the last colon, as a number
/// below 65536.
pub open spec fn port_of(addr: Seq<char>) -> Option<int> {
    unsigned_value(after_last(addr, ':'), 10, u16::MAX as int)
}

/// Splits an address at its last colon.
pub fn parse_host_port(addr: &str) -> (r: Result<(String, u16), AddressError>)
    ensures
        match r {
            Ok((host, port)) => {
                &&& last_index(addr@, ':') >= 0
                &&& host@ == addr@.subrange(0, last_index(addr@, ':'))
                &&& port_of(addr@) == Some(port as int)
            },
            Err(AddressError::MissingPort(a)) => a@ == addr@ && last_index(addr@, ':') < 0,
            Err(AddressError::InvalidPort(a)) => a@ == addr@ && last_index(addr@, ':') >= 0
                && port_of(addr@) is None,
        },
{
    let v = char_vec(addr);
    let n: usize = v.len();
    proof {
        lemma_last_index_bounds(addr@, ':');
    }
    match find_last(&v, ':') {
        None => Err(AddressError::MissingPort(addr.to_owned())),
        Some(colon) => {
            let host = cut(&v, 0, colon);
            let port = cut(&v, colon + 1, n);
            match parse_unsigned(port.as_str(), 10, 65535) {
                Some(p) => Ok((host, p as u16)),
                None => Err(AddressError::InvalidPort(addr.to_owned())),
            }
        },
    }
}

/// The arguments of `pg_basebackup`.
pub fn basebackup_args(host: &str, port: u16, user: &str, dir: &str) -> (r: Vec<String>)
    ensures
        views(r@) == seq![
            "-h"@,
            host@,
            "-p"@,
            decimal(port as int),
            "-U"@,
            user@,
            "-F"@,
            "tar"@,
            "-z"@,
            "--wal-method=stream"@,
            "-D"@,
            dir@,
            "--no-password"@,
        ],
{
    let mut v: Vec<String> = Vec::new();
    v.push("-h".to_owned());
    v.push(host.to_owned());
    v.push("-p".to_owned());
    v.push(decimal_string(port as u64));
    v.push("-U".to_owned());
    v.push(user.to_owned());
    v.push("-F".to_owned());
    v.push("tar".to_owned());
    v.push("-z".to_owned());
    v.push("--wal-method=stream".to_owned());
    v.push("-D".to_owned());
    v.push(dir.to_owned());
    v.push("--no-password".to_owned());
    assert(views(v@) =~= seq![
        "-h"@,
        host@,
        "-p"@,
        decimal(port as int),
        "-U"@,
        user@,
        "-F"@,
        "tar"@,
        "-z"@,
        "--wal-method=stream"@,
        "-D"@,
        dir@,
        "--no-password"@,
    ]);
    v
}

/// The text of the error when `pg_basebackup` failed.
pub open spec fn exit_text(code: Option<i32>, stderr: Seq<char>) -> Seq<char> {
    let shown = match code {
        Some(c) => "Some("@ + signed_decimal(c as int) + ")"@,
        None => "None"@,
    };
    "pg_basebackup exited "@ + shown + ": "@ + trimmed(stderr)
}

/// The text of the error when `pg_basebackup` failed.
pub fn exit_message(code: Option<i32>, stderr: &str) -> (r: String)
    ensures
        r@ == exit_text(code, stderr@),
{
    let shown = match code {
        Some(c) => "Some(".to_owned().concat(signed_decimal_string(c as i64).as_str()).concat(")"),
        None => "None".to_owned(),
    };
    "pg_basebackup exited ".to_owned().concat(shown.as_str()).concat(": ").concat(
        trim(stderr).as_str(),
    )
}

/// The record of a backup that completed.
pub fn completed_manifest(
    job: &BackupJob,
    backup_id: &str,
    started_at: i64,
    completed_at: i64,
    size_bytes: u64,
    bucket: &str,
    base: &str,
) -> (r: BackupManifest)
    ensures
        r@ == (BackupManifestView {
            backup_id: backup_id@,
            label: job.label@,
            frequency: job.frequency@,
            source_node: job.source_node@,
            started_at,
            completed_at,
            size_bytes,
            s3_uri: uri_of(bucket@, base@),
            status: BackupStatus::Completed,
        }),
{
    BackupManifest {
        backup_id: backup_id.to_owned(),
        label: job.label.clone(),
        frequency: job.frequency.clone(),
        source_node: job.source_node.clone(),
        started_at,
        completed_at,
        size_bytes,
        s3_uri: s3_uri(bucket, base),
        status: BackupStatus::Completed,
    }
}

// ── After a backup ───────────────────────────────────────────────────────────

/// The backup has ended, with a manifest if it succeeded. Only a backup that
/// succeeded is recorded.
pub fn on_executed(manifest: Option<BackupManifest>) -> (r: Option<TopologyCommand>)
    ensures
        match manifest {
            Some(m) => r matches Some(cmd) && cmd@ == CommandView::AddBackupManifest(m@),
            None => r is None,
        },
{
    match manifest {
        Some(m) => Some(TopologyCommand::AddBackupManifest(m)),
        None => None,
    }
}

/// The backups that are deleted after a new one was recorded, or could not be.
pub open spec fn to_delete(
    written: bool,
    backups: Seq<BackupManifestView>,
    frequency: Seq<char>,
    retain: int,
) -> Seq<BackupManifestView> {
    if written {
        superseded(backups, frequency, retain)
    } else {
        Seq::empty()
    }
}

/// The backup was recorded, or could not be. Older backups are deleted only
/// after the new one is on record.
pub fn on_recorded(
    written: bool,
    topology: &ClusterTopology,
    frequency: &str,
    retain: usize,
) -> (r: Vec<BackupManifest>)
    ensures
        views(r@) == if written {
            superseded(topology@.backups, frequency@, retain as int)
        } else {
            Seq::empty()
        },
        views(r@) == to_delete(written, topology@.backups, frequency@, retain as int),
{
    if written {
        prune(topology, frequency, retain)
    } else {
        let none: Vec<BackupManifest> = Vec::new();
        assert(views(none@) =~= Seq::empty());
        none
    }
}

/// The command that follows when the objects of an old backup are deleted.
pub fn removal(old_backup: &BackupManifest) -> (r: TopologyCommand)
    ensures
        r@ == (CommandView::RemoveBackupManifest { backup_id: old_backup@.backup_id }),
{
    TopologyCommand::RemoveBackupManifest { backup_id: old_backup.backup_id.clone() }
}

// ── Laws ─────────────────────────────────────────────────────────────────────

/// Deleting a backup reaches exactly the key under which its files stand.
pub proof fn lemma_delete_reaches_backup(bucket: Seq<char>, base: Seq<char>)
    ensures
        prefix_of(bucket, uri_of(bucket, base)) == base,
{
    let head = "s3://"@ + bucket + "/"@;
    let uri = uri_of(bucket, base);
    assert(uri =~= head + base);
    assert(uri.subrange(0, head.len() as int) =~= head);
    assert(begins_with(uri, head));
    assert(uri.skip(head.len() as int) =~= base);
}

/// Of the completed backups of a frequency, pruning leaves as many as are to
/// be retained, and none that goes is newer than one that stays.
pub proof fn lemma_prune_keeps_newest(
    backups: Seq<BackupManifestView>,
    frequency: Seq<char>,
    retain: int,
)
    requires
        0 <= retain,
    ensures
        ({
            let completed = most_recent_first(
                backups.filter(|b: BackupManifestView| counts(b, frequency)),
            );
            let gone = superseded(backups, frequency, retain);
            &&& gone.len() == if completed.len() <= retain {
                0
            } else {
                completed.len() - retain
            }
            &&& forall|i: int, j: int|
                0 <= i < completed.len() - gone.len() && 0 <= j < gone.len() ==> (
                #[trigger] completed[i]).completed_at >= (#[trigger] gone[j]).completed_at
        }),
{
    let selected = backups.filter(|b: BackupManifestView| counts(b, frequency));
    crate::raft::laws::lemma_most_recent_first(selected);
}

/// Once a tier is due it stays due until it is backed up.
pub proof fn lemma_due_stays(frequency: BackupFrequency, last: Option<i64>, now: i64, later: i64)
    requires
        due(frequency, last, now),
        later >= now,
    ensures
        due(frequency, last, later),
{
}

} // verus!
