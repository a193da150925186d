//! The cluster topology: which node is primary, what every node's role,
//! replication position and configuration are.

use crate::numerals::{numeral, numeral_string, parse_unsigned, unsigned_value};
use crate::numerals::lemma_unsigned_reads_back;
use crate::table::{duplicate_vec, views, Duplicate, NameTable};
use crate::text::{char_vec, cut, find_first, first_index, lemma_first_index, quote, quoted};
use crate::text::same_text;
use std::collections::VecDeque;
use vstd::prelude::*;
use vstd::string::StringExecFns;

verus! {

// ── Core types ───────────────────────────────────────────────────────────────

/// The role of a node.
#[derive(Debug, Clone, Copy, PartialEq, Eq, Structural)]
pub enum NodeRole {
    Primary,
    Replica,
    Offline,
    Maintenance,
    Unknown,
}

impl View for NodeRole {
    type V = NodeRole;

    open spec fn view(&self) -> NodeRole {
        *self
    }
}

impl Duplicate for NodeRole {
    fn duplicate(&self) -> (r: Self) {
        *self
    }
}

impl NodeRole {
    /// The lower-case name of the role.
    pub open spec fn name(self) -> Seq<char> {
        match self {
            NodeRole::Primary => "primary"@,
            NodeRole::Replica => "replica"@,
            NodeRole::Offline => "offline"@,
            NodeRole::Maintenance => "maintenance"@,
            NodeRole::Unknown => "unknown"@,
        }
    }

    /// The lower-case name of the role.
    pub fn as_text(&self) -> (r: String)
        ensures
            r@ == self.name(),
    {
        match self {
            NodeRole::Primary => "primary".to_owned(),
            NodeRole::Replica => "replica".to_owned(),
            NodeRole::Offline => "offline".to_owned(),
            NodeRole::Maintenance => "maintenance".to_owned(),
            NodeRole::Unknown => "unknown".to_owned(),
        }
    }

    /// The name of the role as the variant is spelled.
    pub open spec fn variant_name(self) -> Seq<char> {
        match self {
            NodeRole::Primary => "Primary"@,
            NodeRole::Replica => "Replica"@,
            NodeRole::Offline => "Offline"@,
            NodeRole::Maintenance => "Maintenance"@,
            NodeRole::Unknown => "Unknown"@,
        }
    }

    /// The name of the role as the variant is spelled.
    pub fn as_variant(&self) -> (r: String)
        ensures
            r@ == self.variant_name(),
    {
        match self {
            NodeRole::Primary => "Primary".to_owned(),
            NodeRole::Replica => "Replica".to_owned(),
            NodeRole::Offline => "Offline".to_owned(),
            NodeRole::Maintenance => "Maintenance".to_owned(),
            NodeRole::Unknown => "Unknown".to_owned(),
        }
    }
}

/// The static configuration of a node.
#[derive(Debug)]
pub struct NodeConfig {
    pub node_id: String,
    pub agent_addr: String,
    pub postgres_addr: String,
    pub priority: u32,
    pub tags: NameTable<String>,
}

/// What a [`NodeConfig`] stands for.
#[verifier::ext_equal]
pub struct NodeConfigView {
    pub node_id: Seq<char>,
    pub agent_addr: Seq<char>,
    pub postgres_addr: Seq<char>,
    pub priority: u32,
    pub tags: Map<Seq<char>, Seq<char>>,
}

impl View for NodeConfig {
    type V = NodeConfigView;

    open spec fn view(&self) -> NodeConfigView {
        NodeConfigView {
            node_id: self.node_id@,
            agent_addr: self.agent_addr@,
            postgres_addr: self.postgres_addr@,
            priority: self.priority,
            tags: self.tags@,
        }
    }
}

impl Clone for NodeConfig {
    fn clone(&self) -> (r: Self)
        ensures
            r@ == self@,
    {
        self.duplicate()
    }
}

impl Duplicate for NodeConfig {
    fn duplicate(&self) -> (r: Self) {
        NodeConfig {
            node_id: self.node_id.clone(),
            agent_addr: self.agent_addr.clone(),
            postgres_addr: self.postgres_addr.clone(),
            priority: self.priority,
            tags: self.tags.duplicate(),
        }
    }
}

/// How a backup ended.
#[derive(Debug, Clone, Copy, PartialEq, Eq, Structural)]
pub enum BackupStatus {
    Completed,
    Failed,
}

/// The record of one backup.
#[derive(Debug)]
pub struct BackupManifest {
    pub backup_id: String,
    /// Human-readable label, e.g. "daily-2026-07-04" or operator-provided.
    pub label: String,
    /// "daily" | "weekly" | "monthly" | "manual"
    pub frequency: String,
    /// Node ID of the postgres instance that served pg_basebackup.
    pub source_node: String,
    pub started_at: i64,
    pub completed_at: i64,
    /// Total bytes uploaded across all tar files.
    pub size_bytes: u64,
    /// S3 URI prefix for this backup.
    pub s3_uri: String,
    pub status: BackupStatus,
}

/// What a [`BackupManifest`] stands for.
#[verifier::ext_equal]
pub struct BackupManifestView {
    pub backup_id: Seq<char>,
    pub label: Seq<char>,
    pub frequency: Seq<char>,
    pub source_node: Seq<char>,
    pub started_at: i64,
    pub completed_at: i64,
    pub size_bytes: u64,
    pub s3_uri: Seq<char>,
    pub status: BackupStatus,
}

impl View for BackupManifest {
    type V = BackupManifestView;

    open spec fn view(&self) -> BackupManifestView {
        BackupManifestView {
            backup_id: self.backup_id@,
            label: self.label@,
            frequency: self.frequency@,
            source_node: self.source_node@,
            started_at: self.started_at,
            completed_at: self.completed_at,
            size_bytes: self.size_bytes,
            s3_uri: self.s3_uri@,
            status: self.status,
        }
    }
}

impl Clone for BackupManifest {
    fn clone(&self) -> (r: Self)
        ensures
            r@ == self@,
    {
        self.duplicate()
    }
}

impl Duplicate for BackupManifest {
    fn duplicate(&self) -> (r: Self) {
        BackupManifest {
            backup_id: self.backup_id.clone(),
            label: self.label.clone(),
            frequency: self.frequency.clone(),
            source_node: self.source_node.clone(),
            started_at: self.started_at,
            completed_at: self.completed_at,
            size_bytes: self.size_bytes,
            s3_uri: self.s3_uri.clone(),
            status: self.status,
        }
    }
}

/// The record of one failover.
#[derive(Debug)]
pub struct FailoverEvent {
    pub old_primary: String,
    pub new_primary: String,
    /// Unix seconds.
    pub triggered_at: i64,
    pub duration_ms: u64,
    /// "health_check_failure" | "operator_switchover"
    pub reason: String,
}

/// What a [`FailoverEvent`] stands for.
#[verifier::ext_equal]
pub struct FailoverEventView {
    pub old_primary: Seq<char>,
    pub new_primary: Seq<char>,
    pub triggered_at: i64,
    pub duration_ms: u64,
    pub reason: Seq<char>,
}

impl View for FailoverEvent {
    type V = FailoverEventView;

    open spec fn view(&self) -> FailoverEventView {
        FailoverEventView {
            old_primary: self.old_primary@,
            new_primary: self.new_primary@,
            triggered_at: self.triggered_at,
            duration_ms: self.duration_ms,
            reason: self.reason@,
        }
    }
}

impl Clone for FailoverEvent {
    fn clone(&self) -> (r: Self)
        ensures
            r@ == self@,
    {
        self.duplicate()
    }
}

impl Duplicate for FailoverEvent {
    fn duplicate(&self) -> (r: Self) {
        FailoverEvent {
            old_primary: self.old_primary.clone(),
            new_primary: self.new_primary.clone(),
            triggered_at: self.triggered_at,
            duration_ms: self.duration_ms,
            reason: self.reason.clone(),
        }
    }
}

// ── ClusterTopology ──────────────────────────────────────────────────────────

/// The state that the Raft log builds up.
#[derive(Debug)]
pub struct ClusterTopology {
    /// Which node is currently primary; empty if none is.
    pub primary_node_id: String,
    /// Role of each node
    pub node_roles: NameTable<NodeRole>,
    /// Replication slot name for each replica
    pub replica_slots: NameTable<String>,
    /// primary_conninfo for each replica (written to postgresql.auto.conf)
    pub primary_conninfos: NameTable<String>,
    /// Last confirmed flush_lsn per node (updated on every health check)
    pub last_flush_lsns: NameTable<u64>,
    /// Last confirmed replay_lsn per node
    pub last_replay_lsns: NameTable<u64>,
    /// Replication lag in bytes per replica (primary_lsn - replica_flush_lsn)
    pub replica_lag_bytes: NameTable<u64>,
    /// Static node configuration (address + priority)
    pub node_configs: NameTable<NodeConfig>,
    /// The most recent failover events, oldest first
    pub failover_history: VecDeque<FailoverEvent>,
    /// All known backup manifests, sorted most-recent first. Capped at 1 000.
    pub backups: Vec<BackupManifest>,
    /// Monotonically increasing version; incremented on every command
    pub version: u64,
    /// Unix seconds of last topology change
    pub last_changed_at: i64,
}

/// What a [`ClusterTopology`] stands for.
#[verifier::ext_equal]
pub struct TopologyView {
    pub primary_node_id: Seq<char>,
    pub node_roles: Map<Seq<char>, NodeRole>,
    pub replica_slots: Map<Seq<char>, Seq<char>>,
    pub primary_conninfos: Map<Seq<char>, Seq<char>>,
    pub last_flush_lsns: Map<Seq<char>, u64>,
    pub last_replay_lsns: Map<Seq<char>, u64>,
    pub replica_lag_bytes: Map<Seq<char>, u64>,
    pub node_configs: Map<Seq<char>, NodeConfigView>,
    pub failover_history: Seq<FailoverEventView>,
    pub backups: Seq<BackupManifestView>,
    pub version: u64,
    pub last_changed_at: i64,
}

impl View for ClusterTopology {
    type V = TopologyView;

    open spec fn view(&self) -> TopologyView {
        TopologyView {
            primary_node_id: self.primary_node_id@,
            node_roles: self.node_roles@,
            replica_slots: self.replica_slots@,
            primary_conninfos: self.primary_conninfos@,
            last_flush_lsns: self.last_flush_lsns@,
            last_replay_lsns: self.last_replay_lsns@,
            replica_lag_bytes: self.replica_lag_bytes@,
            node_configs: self.node_configs@,
            failover_history: views(self.failover_history@),
            backups: views(self.backups@),
            version: self.version,
            last_changed_at: self.last_changed_at,
        }
    }
}

/// What a table says for a name, or a default where it says nothing.
pub open spec fn value_or<W>(m: Map<Seq<char>, W>, k: Seq<char>, default: W) -> W {
    if m.contains_key(k) {
        m[k]
    } else {
        default
    }
}

/// The number that a table holds for a name, or a default.
pub fn number_or(t: &NameTable<u64>, name: &str, default: u64) -> (r: u64)
    ensures
        r == value_or(t@, name@, default),
{
    match t.get(name) {
        Some(n) => *n,
        None => default,
    }
}

impl TopologyView {
    /// The topology of a cluster that nothing is known about.
    pub open spec fn empty() -> TopologyView {
        TopologyView {
            primary_node_id: Seq::empty(),
            node_roles: Map::empty(),
            replica_slots: Map::empty(),
            primary_conninfos: Map::empty(),
            last_flush_lsns: Map::empty(),
            last_replay_lsns: Map::empty(),
            replica_lag_bytes: Map::empty(),
            node_configs: Map::empty(),
            failover_history: Seq::empty(),
            backups: Seq::empty(),
            version: 0,
            last_changed_at: 0,
        }
    }

    /// Whether the node has the role of a replica.
    pub open spec fn is_replica(self, id: Seq<char>) -> bool {
        self.node_roles.contains_key(id) && self.node_roles[id] == NodeRole::Replica
    }

    /// Whether the node has the given role.
    pub open spec fn has_role(self, id: Seq<char>, role: NodeRole) -> bool {
        self.node_roles.contains_key(id) && self.node_roles[id] == role
    }

    /// The last known flush position of a node, 0 if none is known.
    pub open spec fn flush_lsn(self, id: Seq<char>) -> u64 {
        value_or(self.last_flush_lsns, id, 0)
    }

    /// The priority of a node, 0 if it has no configuration.
    pub open spec fn priority(self, id: Seq<char>) -> u32 {
        if self.node_configs.contains_key(id) {
            self.node_configs[id].priority
        } else {
            0
        }
    }

    /// How many bytes a node is behind the primary, by the flush positions.
    pub open spec fn flush_lag(self, id: Seq<char>) -> int {
        let p = self.flush_lsn(self.primary_node_id) as int;
        let n = self.flush_lsn(id) as int;
        if p >= n {
            p - n
        } else {
            0
        }
    }

    /// Whether a node may replace `failed` as the primary.
    pub open spec fn is_candidate(self, failed: Seq<char>, id: Seq<char>) -> bool {
        self.is_replica(id) && id != failed
    }

    /// Whether node `a` is at least as good a replacement as node `b`: it has
    /// the higher flush position, or the same one and no lower priority.
    pub open spec fn ranks_at_least(self, a: Seq<char>, b: Seq<char>) -> bool {
        ||| self.flush_lsn(a) > self.flush_lsn(b)
        ||| self.flush_lsn(a) == self.flush_lsn(b) && self.priority(a) >= self.priority(b)
    }

    /// Whether `id` is a best replacement for `failed`.
    pub open spec fn is_best_candidate(self, failed: Seq<char>, id: Seq<char>) -> bool {
        &&& self.is_candidate(failed, id)
        &&& forall|c: Seq<char>| #[trigger]
            self.is_candidate(failed, c) ==> self.ranks_at_least(id, c)
    }

    /// Whether a node is a replica with a configuration that is at most
    /// `max_lag` bytes behind the primary.
    pub open spec fn serves_within(self, id: Seq<char>, max_lag: u64) -> bool {
        &&& self.is_replica(id)
        &&& self.flush_lag(id) <= max_lag
        &&& self.node_configs.contains_key(id)
    }
}

/// The last `n` elements of a sequence.
pub open spec fn last_of<T>(s: Seq<T>, n: int) -> Seq<T> {
    if s.len() <= n {
        s
    } else {
        s.skip(s.len() - n)
    }
}

impl Default for ClusterTopology {
    fn default() -> (r: Self)
        ensures
            r@ == TopologyView::empty(),
    {
        let r = ClusterTopology {
            primary_node_id: String::new(),
            node_roles: NameTable::new(),
            replica_slots: NameTable::new(),
            primary_conninfos: NameTable::new(),
            last_flush_lsns: NameTable::new(),
            last_replay_lsns: NameTable::new(),
            replica_lag_bytes: NameTable::new(),
            node_configs: NameTable::new(),
            failover_history: VecDeque::new(),
            backups: Vec::new(),
            version: 0,
            last_changed_at: 0,
        };
        assert(r@ =~= TopologyView::empty());
        r
    }
}

fn duplicate_history(v: &VecDeque<FailoverEvent>) -> (r: VecDeque<FailoverEvent>)
    ensures
        views(r@) == views(v@),
{
    let mut out: VecDeque<FailoverEvent> = VecDeque::new();
    for i in 0..v.len()
        invariant
            views(out@) == views(v@.subrange(0, i as int)),
    {
        let ghost before = out@;
        let item = v[i].duplicate();
        out.push_back(item);
        assert(views(out@) =~= views(before).push(item@));
        assert(views(v@.subrange(0, i + 1)) =~= views(v@.subrange(0, i as int)).push(
            v@[i as int]@,
        ));
    }
    assert(v@.subrange(0, v@.len() as int) =~= v@);
    out
}

impl Clone for ClusterTopology {
    fn clone(&self) -> (r: Self)
        ensures
            r@ == self@,
    {
        ClusterTopology {
            primary_node_id: self.primary_node_id.clone(),
            node_roles: self.node_roles.duplicate(),
            replica_slots: self.replica_slots.duplicate(),
            primary_conninfos: self.primary_conninfos.duplicate(),
            last_flush_lsns: self.last_flush_lsns.duplicate(),
            last_replay_lsns: self.last_replay_lsns.duplicate(),
            replica_lag_bytes: self.replica_lag_bytes.duplicate(),
            node_configs: self.node_configs.duplicate(),
            failover_history: duplicate_history(&self.failover_history),
            backups: duplicate_vec(&self.backups),
            version: self.version,
            last_changed_at: self.last_changed_at,
        }
    }
}

impl ClusterTopology {
    /// Maximum number of failover events kept in history.
    pub const FAILOVER_HISTORY_MAX: usize = 100;

    /// An empty topology. The name of the cluster is not part of it.
    pub fn new(cluster_name: &str) -> (r: Self)
        ensures
            r@ == TopologyView::empty(),
    {
        ClusterTopology::default()
    }

    /// Returns the Postgres address for the current primary, if any.
    pub fn primary_postgres_addr(&self) -> (r: Option<&str>)
        ensures
            r is Some <==> self@.node_configs.contains_key(self@.primary_node_id),
            r matches Some(a) ==> a@ == self@.node_configs[self@.primary_node_id].postgres_addr,
    {
        match self.node_configs.get(self.primary_node_id.as_str()) {
            Some(c) => Some(c.postgres_addr.as_str()),
            None => None,
        }
    }

    /// Returns postgres addresses of replicas within the lag threshold (bytes).
    ///
    /// Every such replica contributes its address once, in no particular order.
    pub fn replica_addrs_within_lag(&self, max_lag_bytes: u64) -> (r: Vec<String>)
        ensures
            exists|ids: Seq<Seq<char>>|
                {
                    &&& ids.no_duplicates()
                    &&& forall|id: Seq<char>| #[trigger]
                        ids.contains(id) <==> self@.serves_within(id, max_lag_bytes)
                    &&& views(r@) == ids.map_values(
                        |id: Seq<char>| self@.node_configs[id].postgres_addr,
                    )
                },
    {
        let primary_lsn = number_or(&self.last_flush_lsns, self.primary_node_id.as_str(), 0);
        let mut out: Vec<String> = Vec::new();
        let ghost mut ids: Seq<Seq<char>> = Seq::empty();
        let n = self.node_roles.len();
        let ghost pairs = self.node_roles.pairs();
        assert(views(out@) =~= ids.map_values(
            |id: Seq<char>| self@.node_configs[id].postgres_addr,
        ));
        for i in 0..n
            invariant
                n == pairs.len(),
                pairs == self.node_roles.pairs(),
                crate::table::distinct_names(pairs),
                primary_lsn == self@.flush_lsn(self@.primary_node_id),
                ids.no_duplicates(),
                forall|j: int| i <= j < n ==> !ids.contains((#[trigger] pairs[j]).0),
                forall|k: int|
                    0 <= k < ids.len() ==> self@.serves_within(#[trigger] ids[k], max_lag_bytes),
                forall|j: int|
                    0 <= j < i && self@.serves_within((#[trigger] pairs[j]).0, max_lag_bytes)
                        ==> ids.contains(pairs[j].0),
                views(out@) == ids.map_values(
                    |id: Seq<char>| self@.node_configs[id].postgres_addr,
                ),
        {
            let id = self.node_roles.name_at(i);
            let role = *self.node_roles.value_at(i);
            let lsn = number_or(&self.last_flush_lsns, id.as_str(), 0);
            let lag = primary_lsn.saturating_sub(lsn);
            if role == NodeRole::Replica && lag <= max_lag_bytes {
                match self.node_configs.get(id.as_str()) {
                    Some(c) => {
                        let ghost before = out@;
                        let ghost old_ids = ids;
                        let addr = c.postgres_addr.clone();
                        out.push(addr);
                        proof {
                            ids = ids.push(id@);
                            assert(pairs[i as int].0 == id@);
                            assert(views(out@) =~= views(before).push(addr@));
                            assert(ids.map_values(
                                |id: Seq<char>| self@.node_configs[id].postgres_addr,
                            ) =~= old_ids.map_values(
                                |id: Seq<char>| self@.node_configs[id].postgres_addr,
                            ).push(addr@));
                            assert forall|j: int|
                                0 <= j < i + 1 && self@.serves_within(
                                    (#[trigger] pairs[j]).0,
                                    max_lag_bytes,
                                ) implies ids.contains(pairs[j].0) by {
                                if j < i {
                                    assert(old_ids.contains(pairs[j].0));
                                    let k = choose|k: int|
                                        0 <= k < old_ids.len() && old_ids[k] == pairs[j].0;
                                    assert(ids[k] == pairs[j].0);
                                } else {
                                    assert(ids[old_ids.len() as int] == id@);
                                }
                            }
                            assert forall|j: int| i + 1 <= j < n implies !ids.contains(
                                (#[trigger] pairs[j]).0,
                            ) by {
                                assert(pairs[j].0 != id@);
                                assert(!old_ids.contains(pairs[j].0));
                            }
                        }
                    },
                    None => {},
                }
            }
        }
        proof {
            assert forall|id: Seq<char>| #[trigger]
                ids.contains(id) <==> self@.serves_within(id, max_lag_bytes) by {
                if self@.serves_within(id, max_lag_bytes) {
                    let j = crate::table::name_position(pairs, id);
                    assert(crate::table::has_name(pairs, id));
                    assert(pairs[j].0 == id);
                }
            }
        }
        out
    }

    /// Returns the node ID of the best failover candidate (highest LSN, then priority).
    /// Excludes `failed_id` and offline/maintenance nodes.
    pub fn best_failover_candidate(&self, failed_id: &str) -> (r: Option<String>)
        ensures
            r is None <==> forall|c: Seq<char>| !#[trigger] self@.is_candidate(failed_id@, c),
            r matches Some(id) ==> self@.is_best_candidate(failed_id@, id@),
    {
        let mut best: Option<String> = None;
        let mut best_lsn: u64 = 0;
        let mut best_priority: u32 = 0;
        let n = self.node_roles.len();
        let ghost pairs = self.node_roles.pairs();
        for i in 0..n
            invariant
                n == pairs.len(),
                pairs == self.node_roles.pairs(),
                best is None ==> forall|j: int|
                    0 <= j < i ==> !self@.is_candidate(failed_id@, (#[trigger] pairs[j]).0),
                best matches Some(b) ==> {
                    &&& self@.is_candidate(failed_id@, b@)
                    &&& best_lsn == self@.flush_lsn(b@)
                    &&& best_priority == self@.priority(b@)
                    &&& forall|j: int|
                        0 <= j < i && self@.is_candidate(failed_id@, (#[trigger] pairs[j]).0)
                            ==> self@.ranks_at_least(b@, pairs[j].0)
                },
        {
            let id = self.node_roles.name_at(i);
            let role = *self.node_roles.value_at(i);
            if role == NodeRole::Replica && !same_text(id.as_str(), failed_id) {
                let lsn = number_or(&self.last_flush_lsns, id.as_str(), 0);
                let priority: u32 = match self.node_configs.get(id.as_str()) {
                    Some(c) => c.priority,
                    None => 0,
                };
                let better = match &best {
                    None => true,
                    Some(_) => lsn > best_lsn || (lsn == best_lsn && priority > best_priority),
                };
                if better {
                    best = Some(id.clone());
                    best_lsn = lsn;
                    best_priority = priority;
                }
            }
        }
        proof {
            assert forall|c: Seq<char>| #[trigger] self@.is_candidate(failed_id@, c) implies exists|
                j: int,
            | 0 <= j < n && (#[trigger] pairs[j]).0 == c by {
                assert(crate::table::has_name(pairs, c));
            }
        }
        best
    }

    /// Append a failover event, keeping only the last `FAILOVER_HISTORY_MAX`.
    pub fn record_failover(&mut self, event: FailoverEvent)
        ensures
            final(self)@ == (TopologyView {
                failover_history: last_of(
                    old(self)@.failover_history.push(event@),
                    ClusterTopology::FAILOVER_HISTORY_MAX as int,
                ),
                ..old(self)@
            }),
    {
        let ghost full = views(self.failover_history@).push(event@);
        self.failover_history.push_back(event);
        assert(views(self.failover_history@) =~= full);
        assert(full.skip(0) =~= full);
        while self.failover_history.len() > Self::FAILOVER_HISTORY_MAX
            invariant
                self.failover_history@.len() <= full.len(),
                views(self.failover_history@) == full.skip(
                    full.len() - self.failover_history@.len(),
                ),
                self.failover_history@.len() == full.len() || self.failover_history@.len()
                    >= ClusterTopology::FAILOVER_HISTORY_MAX,
                self@ == (TopologyView {
                    failover_history: views(self.failover_history@),
                    ..old(self)@
                }),
            decreases self.failover_history@.len(),
        {
            let ghost before = self.failover_history@;
            let gone = self.failover_history.pop_front();
            assert(views(self.failover_history@) =~= views(before).skip(1));
            assert(full.skip(full.len() - before.len()).skip(1) =~= full.skip(
                full.len() - before.len() + 1,
            ));
        }
    }
}

// ── LSN helpers ──────────────────────────────────────────────────────────────

/// Why a text is not an LSN.
#[derive(Debug)]
pub enum LsnError {
    /// The text has no slash.
    Malformed(String),
    /// What stands before the slash is no hexadecimal number.
    High(String),
    /// What stands after the slash is no hexadecimal number.
    Low(String),
}

impl LsnError {
    /// The message for the operator.
    pub open spec fn text(self) -> Seq<char> {
        match self {
            LsnError::Malformed(s) => "invalid LSN "@ + quoted(s@),
            LsnError::High(s) => "invalid LSN hi "@ + quoted(s@),
            LsnError::Low(s) => "invalid LSN lo "@ + quoted(s@),
        }
    }

    /// The message for the operator.
    pub fn message(&self) -> (r: String)
        ensures
            r@ == self.text(),
    {
        match self {
            LsnError::Malformed(s) => "invalid LSN ".to_owned().concat(quote(s.as_str()).as_str()),
            LsnError::High(s) => "invalid LSN hi ".to_owned().concat(quote(s.as_str()).as_str()),
            LsnError::Low(s) => "invalid LSN lo ".to_owned().concat(quote(s.as_str()).as_str()),
        }
    }
}

/// What stands before the first slash.
pub open spec fn lsn_high(s: Seq<char>) -> Seq<char> {
    s.subrange(0, first_index(s, '/'))
}

/// What stands after the first slash.
pub open spec fn lsn_low(s: Seq<char>) -> Seq<char> {
    s.subrange(first_index(s, '/') + 1, s.len() as int)
}

/// The position that two hexadecimal halves denote.
pub open spec fn lsn_of_halves(hi: u64, lo: u64) -> u64 {
    (hi << 32) | lo
}

/// The hexadecimal number that a half of an LSN denotes.
pub open spec fn lsn_half(s: Seq<char>) -> Option<int> {
    unsigned_value(s, 16, u64::MAX as int)
}

/// How PostgreSQL writes a position.
pub open spec fn lsn_text(lsn: int) -> Seq<char> {
    numeral(lsn / 0x1_0000_0000, 16) + seq!['/'] + numeral(lsn % 0x1_0000_0000, 16)
}

/// The position that a text denotes, if it is an LSN.
pub open spec fn lsn_value(s: Seq<char>) -> Option<u64> {
    if first_index(s, '/') < s.len() && lsn_half(lsn_high(s)) is Some && lsn_half(
        lsn_low(s),
    ) is Some {
        Some(
            lsn_of_halves(
                lsn_half(lsn_high(s))->0 as u64,
                lsn_half(lsn_low(s))->0 as u64,
            ),
        )
    } else {
        None
    }
}

/// Parse a Postgres LSN string like "A/1B2C3D" into a u64.
pub fn parse_lsn(s: &str) -> (r: Result<u64, LsnError>)
    ensures
        r is Ok <==> lsn_value(s@) is Some,
        r matches Ok(n) ==> lsn_value(s@) == Some(n),
        r matches Err(LsnError::Malformed(t)) ==> t@ == s@,
        r matches Err(LsnError::High(t)) ==> t@ == lsn_high(s@),
        r matches Err(LsnError::Low(t)) ==> t@ == lsn_low(s@),
        (r matches Err(LsnError::Malformed(_))) <==> first_index(s@, '/') == s@.len(),
        (r matches Err(LsnError::High(_))) <==> first_index(s@, '/') < s@.len() && lsn_half(
            lsn_high(s@),
        ) is None,
        (r matches Err(LsnError::Low(_))) <==> first_index(s@, '/') < s@.len() && lsn_half(
            lsn_high(s@),
        ) is Some && lsn_half(lsn_low(s@)) is None,
{
    let v = char_vec(s);
    let n: usize = v.len();
    let i: usize = find_first(&v, '/');
    if i == n {
        return Err(LsnError::Malformed(s.to_owned()));
    }
    let high = cut(&v, 0, i);
    let low = cut(&v, i + 1, n);
    match parse_unsigned(high.as_str(), 16, u64::MAX) {
        None => Err(LsnError::High(high)),
        Some(hi) => match parse_unsigned(low.as_str(), 16, u64::MAX) {
            None => Err(LsnError::Low(low)),
            Some(lo) => Ok((hi << 32) | lo),
        },
    }
}

/// Format a u64 LSN as "A/1B2C3D" (matches PostgreSQL's pg_lsn output format).
pub fn format_lsn(lsn: u64) -> (r: String)
    ensures
        r@ == lsn_text(lsn as int),
{
    assert(lsn >> 32 == lsn / 0x1_0000_0000) by (bit_vector);
    assert(lsn & 0xffff_ffff == lsn % 0x1_0000_0000) by (bit_vector);
    let mut out = numeral_string(lsn >> 32, 16);
    out.push('/');
    let low = numeral_string(lsn & 0xffff_ffff, 16);
    let r = out.concat(low.as_str());
    assert(r@ =~= lsn_text(lsn as int));
    r
}

/// A formatted LSN parses back to the position it was made from.
pub proof fn lemma_lsn_reads_back(lsn: u64)
    ensures
        lsn_value(lsn_text(lsn as int)) == Some(lsn),
{
    let hi = (lsn as int) / 0x1_0000_0000;
    let lo = (lsn as int) % 0x1_0000_0000;
    let h = numeral(hi, 16);
    let l = numeral(lo, 16);
    let s = lsn_text(lsn as int);
    crate::numerals::lemma_numeral_reads_back(hi, 16);
    lemma_unsigned_reads_back(hi, 16, u64::MAX as int);
    lemma_unsigned_reads_back(lo, 16, u64::MAX as int);
    assert forall|j: int| 0 <= j < h.len() implies s[j] != '/' by {
        assert(s[j] == h[j]);
        assert(crate::numerals::digit_value(h[j]) < 16);
    }
    assert(s[h.len() as int] == '/');
    lemma_first_index(s, '/', h.len() as int);
    assert(lsn_high(s) =~= h);
    assert(lsn_low(s) =~= l);
    let a = hi as u64;
    let b = lo as u64;
    assert((a << 32) | b == lsn) by (bit_vector)
        requires
            a == lsn / 0x1_0000_0000,
            b == lsn % 0x1_0000_0000,
    ;
}

/// A text is a position exactly if two hexadecimal numbers stand around its
/// first slash. The first is the upper half of the position.
pub proof fn lemma_lsn_of_halves(high: Seq<char>, low: Seq<char>)
    requires
        !high.contains('/'),
    ensures
        ({
            let hi = unsigned_value(high, 16, u64::MAX as int);
            let lo = unsigned_value(low, 16, u64::MAX as int);
            let r = lsn_value(high + seq!['/'] + low);
            &&& r is Some <==> hi is Some && lo is Some
            &&& hi is Some && lo is Some && hi->0 < 0x1_0000_0000 && lo->0 < 0x1_0000_0000 ==> r
                == Some((hi->0 * 0x1_0000_0000 + lo->0) as u64)
        }),
        lsn_value(high) is None,
{
    let s = high + seq!['/'] + low;
    assert forall|j: int| 0 <= j < high.len() implies s[j] != '/' && high[j] != '/' by {
        assert(s[j] == high[j]);
        assert(high.contains(high[j]));
    }
    lemma_first_index(s, '/', high.len() as int);
    lemma_first_index(high, '/', high.len() as int);
    assert(lsn_high(s) =~= high);
    assert(lsn_low(s) =~= low);
    let hi = unsigned_value(high, 16, u64::MAX as int);
    let lo = unsigned_value(low, 16, u64::MAX as int);
    if hi is Some && lo is Some && 0 <= hi->0 < 0x1_0000_0000 && 0 <= lo->0 < 0x1_0000_0000 {
        let a = hi->0 as u64;
        let b = lo->0 as u64;
        assert((a << 32) | b == a * 0x1_0000_0000 + b) by (bit_vector)
            requires
                a < 0x1_0000_0000,
                b < 0x1_0000_0000,
        ;
    }
    if hi is Some {
        crate::numerals::lemma_numeral_prefix(
            crate::numerals::without_plus(high),
            16,
            0,
        );
    }
    if lo is Some {
        crate::numerals::lemma_numeral_prefix(crate::numerals::without_plus(low), 16, 0);
    }
}

} // verus!
