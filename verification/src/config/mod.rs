//! The configuration of a cluster node.

pub mod validate;

use crate::table::NameTable;
use crate::text::same_text;
use vstd::prelude::*;

verus! {

// ── Top-level config ─────────────────────────────────────────────────────────

/// Everything that a cluster node is configured with.
#[derive(Debug, Clone)]
pub struct PgClusterConfig {
    pub cluster: ClusterConfig,
    pub raft: RaftConfig,
    pub nodes: NodesConfig,
    pub replication: ReplicationConfig,
    pub proxy: ProxyConfig,
    pub failover: FailoverConfig,
    pub tls: TlsConfig,
    pub metrics: MetricsConfig,
    pub api: ApiConfig,
    /// Backup policy. When present, `[backup.s3]` is mandatory.
    pub backup: Option<BackupConfig>,
}

// ── [cluster] ────────────────────────────────────────────────────────────────

#[derive(Debug, Clone)]
pub struct ClusterConfig {
    pub name: String,
    pub data_dir: String,
    pub mode: ClusterMode,
}

#[derive(Debug, Clone, Copy, PartialEq, Eq, Structural)]
pub enum ClusterMode {
    Cluster,
    Coordinator,
}

impl Default for ClusterMode {
    fn default() -> (r: Self)
        ensures
            r == ClusterMode::Cluster,
    {
        ClusterMode::Cluster
    }
}

// ── [raft] ───────────────────────────────────────────────────────────────────

#[derive(Debug, Clone)]
pub struct RaftConfig {
    pub node_id: u64,
    pub peers: Vec<RaftPeer>,
    pub heartbeat_interval_ms: u64,
    pub election_timeout_ms: u64,
    /// Set true on exactly one node for initial cluster bootstrap.
    pub bootstrap: bool,
}

#[derive(Debug, Clone)]
pub struct RaftPeer {
    pub id: u64,
    /// e.g. "10.0.0.1:7000"
    pub addr: String,
}

/// `heartbeat_interval_ms` where the file does not set it.
pub const DEFAULT_HEARTBEAT_MS: u64 = 150;

/// `election_timeout_ms` where the file does not set it.
pub const DEFAULT_ELECTION_TIMEOUT_MS: u64 = 500;

// ── [[nodes.node]] ───────────────────────────────────────────────────────────

#[derive(Debug, Clone)]
pub struct NodesConfig {
    pub node: Vec<NodeConfig>,
}

impl Default for NodesConfig {
    fn default() -> (r: Self)
        ensures
            r.node@.len() == 0,
    {
        NodesConfig { node: Vec::new() }
    }
}

#[derive(Debug, Clone)]
pub struct NodeConfig {
    pub id: String,
    /// vk-agent gRPC address, e.g. "10.0.0.1:7001"
    pub agent_addr: String,
    /// Postgres TCP address, e.g. "10.0.0.1:5432"
    pub postgres_addr: String,
    pub priority: u32,
    pub tags: NameTable<String>,
}

/// `priority` where the file does not set it.
pub const DEFAULT_PRIORITY: u32 = 100;

// ── [replication] ────────────────────────────────────────────────────────────

#[derive(Debug, Clone)]
pub struct ReplicationConfig {
    pub replication_user: String,
    pub replication_password_env: String,
    pub slot_prefix: String,
    pub synchronous_standby_names: String,
}

/// `replication_password_env` where the file does not set it.
pub fn default_replication_password_env() -> (r: String)
    ensures
        r@ == "PG_REPLICATION_PASSWORD"@,
{
    "PG_REPLICATION_PASSWORD".to_owned()
}

/// `slot_prefix` where the file does not set it.
pub fn default_slot_prefix() -> (r: String)
    ensures
        r@ == "pgcluster_"@,
{
    "pgcluster_".to_owned()
}

// ── [proxy] ──────────────────────────────────────────────────────────────────

#[derive(Debug, Clone)]
pub struct ProxyConfig {
    pub listen_addr: String,
    pub admin_listen_addr: String,
    pub health_listen_addr: String,
    pub pool: PoolConfig,
    pub read_routing: ReadRoutingConfig,
}

/// `listen_addr` of the proxy where the file does not set it.
pub fn default_proxy_listen() -> (r: String)
    ensures
        r@ == "0.0.0.0:5432"@,
{
    "0.0.0.0:5432".to_owned()
}

/// `admin_listen_addr` of the proxy where the file does not set it.
pub fn default_admin_listen() -> (r: String)
    ensures
        r@ == "0.0.0.0:5433"@,
{
    "0.0.0.0:5433".to_owned()
}

/// `health_listen_addr` of the proxy where the file does not set it.
pub fn default_health_listen() -> (r: String)
    ensures
        r@ == "0.0.0.0:8008"@,
{
    "0.0.0.0:8008".to_owned()
}

#[derive(Debug, Clone, Copy, PartialEq, Eq, Structural)]
pub struct PoolConfig {
    pub max_connections_per_db_user: u32,
    pub idle_timeout_seconds: u64,
    pub connect_timeout_seconds: u64,
}

impl Default for PoolConfig {
    fn default() -> (r: Self)
        ensures
            r.max_connections_per_db_user == 25,
            r.idle_timeout_seconds == 600,
            r.connect_timeout_seconds == 5,
    {
        PoolConfig {
            max_connections_per_db_user: 25,
            idle_timeout_seconds: 600,
            connect_timeout_seconds: 5,
        }
    }
}

#[derive(Debug, Clone, Copy, PartialEq, Eq, Structural)]
pub struct ReadRoutingConfig {
    pub enabled: bool,
    pub max_replica_lag_bytes: u64,
}

impl Default for ReadRoutingConfig {
    fn default() -> (r: Self)
        ensures
            r.enabled,
            r.max_replica_lag_bytes == 10 * 1024 * 1024,
    {
        ReadRoutingConfig { enabled: true, max_replica_lag_bytes: 10 * 1024 * 1024 }
    }
}

// ── [failover] ───────────────────────────────────────────────────────────────

#[derive(Debug, Clone, Copy, PartialEq, Eq, Structural)]
pub struct FailoverConfig {
    pub health_check_interval_ms: u64,
    pub health_check_failures_before_failover: u32,
    pub agent_heartbeat_timeout_seconds: u64,
    pub promote_timeout_secs: u64,
    pub repoint_timeout_secs: u64,
}

impl Default for FailoverConfig {
    fn default() -> (r: Self)
        ensures
            r.health_check_interval_ms == 500,
            r.health_check_failures_before_failover == 3,
            r.agent_heartbeat_timeout_seconds == 10,
            r.promote_timeout_secs == 30,
            r.repoint_timeout_secs == 60,
    {
        FailoverConfig {
            health_check_interval_ms: 500,
            health_check_failures_before_failover: 3,
            agent_heartbeat_timeout_seconds: 10,
            promote_timeout_secs: 30,
            repoint_timeout_secs: 60,
        }
    }
}

// ── [tls] ────────────────────────────────────────────────────────────────────

#[derive(Debug, Clone)]
pub struct TlsConfig {
    pub ca_cert: Option<String>,
    pub cert: Option<String>,
    pub key: Option<String>,
    /// If true and cert/key are None, generate self-signed dev certs at startup.
    pub auto_generate: bool,
}

impl Default for TlsConfig {
    fn default() -> (r: Self)
        ensures
            r.ca_cert is None,
            r.cert is None,
            r.key is None,
            r.auto_generate,
    {
        TlsConfig { ca_cert: None, cert: None, key: None, auto_generate: true }
    }
}

// ── [metrics] ────────────────────────────────────────────────────────────────

#[derive(Debug, Clone)]
pub struct MetricsConfig {
    pub listen_addr: String,
}

impl Default for MetricsConfig {
    fn default() -> (r: Self)
        ensures
            r.listen_addr@ == "0.0.0.0:9190"@,
    {
        MetricsConfig { listen_addr: "0.0.0.0:9190".to_owned() }
    }
}

// ── [api] ────────────────────────────────────────────────────────────────────

#[derive(Debug, Clone)]
pub struct ApiConfig {
    pub listen_addr: String,
    pub api_keys: Vec<String>,
    /// If true, status/metrics endpoints skip auth.
    pub public_read_endpoints: bool,
}

impl Default for ApiConfig {
    fn default() -> (r: Self)
        ensures
            r.listen_addr@ == "0.0.0.0:8009"@,
            r.api_keys@.len() == 0,
            !r.public_read_endpoints,
    {
        ApiConfig {
            listen_addr: "0.0.0.0:8009".to_owned(),
            api_keys: Vec::new(),
            public_read_endpoints: false,
        }
    }
}

// ── [backup] ─────────────────────────────────────────────────────────────────

#[derive(Debug, Clone, Copy, PartialEq, Eq, Structural)]
pub enum BackupFrequency {
    Daily,
    Weekly,
    Monthly,
}

impl BackupFrequency {
    /// The lower-case name of the frequency.
    pub open spec fn name(self) -> Seq<char> {
        match self {
            BackupFrequency::Daily => "daily"@,
            BackupFrequency::Weekly => "weekly"@,
            BackupFrequency::Monthly => "monthly"@,
        }
    }

    /// The lower-case name of the frequency.
    pub fn as_text(&self) -> (r: String)
        ensures
            r@ == self.name(),
    {
        match self {
            BackupFrequency::Daily => "daily".to_owned(),
            BackupFrequency::Weekly => "weekly".to_owned(),
            BackupFrequency::Monthly => "monthly".to_owned(),
        }
    }
}

#[derive(Debug, Clone, Copy, PartialEq, Eq, Structural)]
pub struct BackupScheduleEntry {
    pub frequency: BackupFrequency,
    /// Number of completed backups of this frequency to retain.
    pub retain: u32,
}

/// S3-compatible object storage configuration.
/// Credentials are read from the environment: AWS_ACCESS_KEY_ID,
/// AWS_SECRET_ACCESS_KEY, and optionally AWS_SESSION_TOKEN.
/// IAM instance roles are also supported (no env vars needed).
#[derive(Debug, Clone)]
pub struct S3Config {
    pub bucket: String,
    /// Key prefix for all backups, e.g. "backups/my-cluster".
    pub prefix: String,
    /// AWS region, e.g. "us-east-1". Reads AWS_REGION env var if absent.
    pub region: Option<String>,
    /// Custom endpoint for S3-compatible stores (MinIO, Ceph, Cloudflare R2).
    pub endpoint: Option<String>,
    /// Use path-style addressing instead of virtual-hosted-style.
    /// Required for MinIO and other self-hosted S3-compatible stores.
    pub path_style: bool,
}

/// Backup policy configuration. When this section is present, `[backup.s3]`
/// is mandatory — pgcluster refuses to start without a valid S3 destination.
#[derive(Debug, Clone)]
pub struct BackupConfig {
    pub enabled: bool,
    pub s3: S3Config,
    /// Prefer running pg_basebackup against a replica (reduces primary load).
    /// Falls back to the primary if no healthy replica is available.
    pub prefer_replica: bool,
    /// One entry per frequency tier. At least one entry is required.
    pub schedule: Vec<BackupScheduleEntry>,
}

// ── Lookups ──────────────────────────────────────────────────────────────────

/// Whether `i` is the first node with the given id.
pub open spec fn is_first_node(nodes: Seq<NodeConfig>, id: Seq<char>, i: int) -> bool {
    &&& 0 <= i < nodes.len()
    &&& nodes[i].id@ == id
    &&& forall|j: int| 0 <= j < i ==> (#[trigger] nodes[j]).id@ != id
}

/// Whether a node with the given id is configured.
pub open spec fn has_node(nodes: Seq<NodeConfig>, id: Seq<char>) -> bool {
    exists|i: int| 0 <= i < nodes.len() && (#[trigger] nodes[i]).id@ == id
}

impl PgClusterConfig {
    fn node_index(&self, node_id: &str) -> (r: Option<usize>)
        ensures
            r is Some <==> has_node(self.nodes.node@, node_id@),
            r matches Some(i) ==> is_first_node(self.nodes.node@, node_id@, i as int),
    {
        for i in 0..self.nodes.node.len()
            invariant
                forall|j: int| 0 <= j < i ==> (#[trigger] self.nodes.node@[j]).id@ != node_id@,
        {
            if same_text(self.nodes.node[i].id.as_str(), node_id) {
                return Some(i);
            }
        }
        None
    }

    /// Returns the Postgres address for a given node ID.
    pub fn postgres_addr(&self, node_id: &str) -> (r: Option<String>)
        ensures
            r is Some <==> has_node(self.nodes.node@, node_id@),
            r matches Some(a) ==> exists|i: int|
                is_first_node(self.nodes.node@, node_id@, i) && a@ == (
                #[trigger] self.nodes.node@[i]).postgres_addr@,
    {
        match self.node_index(node_id) {
            Some(i) => {
                let r = self.nodes.node[i].postgres_addr.clone();
                assert(r@ == self.nodes.node@[i as int].postgres_addr@);
                Some(r)
            },
            None => None,
        }
    }

    /// Returns the vk-agent gRPC address for a given node ID.
    pub fn agent_addr(&self, node_id: &str) -> (r: Option<String>)
        ensures
            r is Some <==> has_node(self.nodes.node@, node_id@),
            r matches Some(a) ==> exists|i: int|
                is_first_node(self.nodes.node@, node_id@, i) && a@ == (
                #[trigger] self.nodes.node@[i]).agent_addr@,
    {
        match self.node_index(node_id) {
            Some(i) => {
                let r = self.nodes.node[i].agent_addr.clone();
                assert(r@ == self.nodes.node@[i as int].agent_addr@);
                Some(r)
            },
            None => None,
        }
    }
}

/// A node is found exactly if one is listed under its name, and it is the first
/// of them.
pub proof fn lemma_node_is_found(nodes: Seq<NodeConfig>, id: Seq<char>, i: int, k: int)
    requires
        0 <= k < nodes.len(),
        nodes[k].id@ == id,
    ensures
        has_node(nodes, id),
        is_first_node(nodes, id, i) ==> 0 <= i <= k && nodes[i].id@ == id,
        is_first_node(nodes, id, i) && is_first_node(nodes, id, k) ==> i == k,
        (forall|j: int| 0 <= j < k ==> (#[trigger] nodes[j]).id@ != id) ==> is_first_node(
            nodes,
            id,
            k,
        ),
{
}

/// A node that is not listed is not found.
pub proof fn lemma_node_is_missing(nodes: Seq<NodeConfig>, id: Seq<char>, i: int)
    requires
        forall|k: int| 0 <= k < nodes.len() ==> (#[trigger] nodes[k]).id@ != id,
    ensures
        !has_node(nodes, id),
        !is_first_node(nodes, id, i),
{
}

} // verus!
