//! Checks on a parsed configuration.

use super::{BackupConfig, BackupFrequency, BackupScheduleEntry, NodeConfig, PgClusterConfig};
use super::RaftPeer;
use crate::numerals::{decimal, decimal_string, parse_unsigned, unsigned_value};
use crate::text::{after_last, char_vec, cut, find_last, last_index, quote, quoted, same_text};
use crate::text::lemma_last_index_bounds;
use vstd::prelude::*;
use vstd::string::StringExecFns;

verus! {

// ── Errors ───────────────────────────────────────────────────────────────────

/// Why a text is no "host:port".
#[derive(Debug)]
pub enum HostPortError {
    MissingPort,
    MissingHost,
    /// What stands behind the last colon.
    InvalidPort(String),
}

/// What a [`HostPortError`] stands for.
pub enum HostPortErrorView {
    MissingPort,
    MissingHost,
    InvalidPort(Seq<char>),
}

impl View for HostPortError {
    type V = HostPortErrorView;

    open spec fn view(&self) -> HostPortErrorView {
        match self {
            HostPortError::MissingPort => HostPortErrorView::MissingPort,
            HostPortError::MissingHost => HostPortErrorView::MissingHost,
            HostPortError::InvalidPort(p) => HostPortErrorView::InvalidPort(p@),
        }
    }
}

impl HostPortErrorView {
    /// The message for the text `s`.
    pub open spec fn text(self, s: Seq<char>) -> Seq<char> {
        match self {
            HostPortErrorView::MissingPort => "missing port in "@ + quoted(s),
            HostPortErrorView::MissingHost => "missing host in "@ + quoted(s),
            HostPortErrorView::InvalidPort(p) => "invalid port "@ + quoted(p) + " in "@ + quoted(s),
        }
    }
}

impl HostPortError {
    /// The message for the text `s`.
    pub fn message(&self, s: &str) -> (r: String)
        ensures
            r@ == self@.text(s@),
    {
        match self {
            HostPortError::MissingPort => "missing port in ".to_owned().concat(quote(s).as_str()),
            HostPortError::MissingHost => "missing host in ".to_owned().concat(quote(s).as_str()),
            HostPortError::InvalidPort(p) => "invalid port ".to_owned().concat(
                quote(p.as_str()).as_str(),
            ).concat(" in ").concat(quote(s).as_str()),
        }
    }
}

/// What is wrong with a configuration.
#[derive(Debug)]
#[allow(inconsistent_fields)]
pub enum ConfigError {
    EmptyClusterName,
    EmptyDataDir,
    NoPeers,
    NodeIdNotInPeers(u64),
    DuplicatePeerIds,
    PeerAddr { id: u64, addr: String, cause: HostPortError },
    ElectionTimeout { election_timeout_ms: u64, heartbeat_interval_ms: u64, min_election_ms: u64 },
    EmptyNodeId,
    DuplicateNodeId(String),
    BindAddr { name: String, addr: String, cause: String },
    PostgresAddr { id: String, addr: String, cause: HostPortError },
    AgentAddr { id: String, addr: String, cause: HostPortError },
    EmptyBucket,
    EmptySchedule,
    RetainZero(BackupFrequency),
}

/// What a [`ConfigError`] stands for.
#[allow(inconsistent_fields)]
pub enum ConfigErrorView {
    EmptyClusterName,
    EmptyDataDir,
    NoPeers,
    NodeIdNotInPeers(u64),
    DuplicatePeerIds,
    PeerAddr { id: u64, addr: Seq<char>, cause: HostPortErrorView },
    ElectionTimeout { election_timeout_ms: u64, heartbeat_interval_ms: u64, min_election_ms: u64 },
    EmptyNodeId,
    DuplicateNodeId(Seq<char>),
    BindAddr { name: Seq<char>, addr: Seq<char>, cause: Seq<char> },
    PostgresAddr { id: Seq<char>, addr: Seq<char>, cause: HostPortErrorView },
    AgentAddr { id: Seq<char>, addr: Seq<char>, cause: HostPortErrorView },
    EmptyBucket,
    EmptySchedule,
    RetainZero(BackupFrequency),
}

impl View for ConfigError {
    type V = ConfigErrorView;

    open spec fn view(&self) -> ConfigErrorView {
        match self {
            ConfigError::EmptyClusterName => ConfigErrorView::EmptyClusterName,
            ConfigError::EmptyDataDir => ConfigErrorView::EmptyDataDir,
            ConfigError::NoPeers => ConfigErrorView::NoPeers,
            ConfigError::NodeIdNotInPeers(n) => ConfigErrorView::NodeIdNotInPeers(*n),
            ConfigError::DuplicatePeerIds => ConfigErrorView::DuplicatePeerIds,
            ConfigError::PeerAddr { id, addr, cause } => ConfigErrorView::PeerAddr {
                id: *id,
                addr: addr@,
                cause: cause@,
            },
            ConfigError::ElectionTimeout {
                election_timeout_ms,
                heartbeat_interval_ms,
                min_election_ms,
            } => ConfigErrorView::ElectionTimeout {
                election_timeout_ms: *election_timeout_ms,
                heartbeat_interval_ms: *heartbeat_interval_ms,
                min_election_ms: *min_election_ms,
            },
            ConfigError::EmptyNodeId => ConfigErrorView::EmptyNodeId,
            ConfigError::DuplicateNodeId(id) => ConfigErrorView::DuplicateNodeId(id@),
            ConfigError::BindAddr { name, addr, cause } => ConfigErrorView::BindAddr {
                name: name@,
                addr: addr@,
                cause: cause@,
            },
            ConfigError::PostgresAddr { id, addr, cause } => ConfigErrorView::PostgresAddr {
                id: id@,
                addr: addr@,
                cause: cause@,
            },
            ConfigError::AgentAddr { id, addr, cause } => ConfigErrorView::AgentAddr {
                id: id@,
                addr: addr@,
                cause: cause@,
            },
            ConfigError::EmptyBucket => ConfigErrorView::EmptyBucket,
            ConfigError::EmptySchedule => ConfigErrorView::EmptySchedule,
            ConfigError::RetainZero(f) => ConfigErrorView::RetainZero(*f),
        }
    }
}

impl ConfigErrorView {
    /// The message for the operator.
    pub open spec fn text(self) -> Seq<char> {
        match self {
            ConfigErrorView::EmptyClusterName => "[cluster] name must not be empty"@,
            ConfigErrorView::EmptyDataDir => "[cluster] data_dir must not be empty"@,
            ConfigErrorView::NoPeers => "[raft] peers must contain at least one entry"@,
            ConfigErrorView::NodeIdNotInPeers(n) => "[raft] node_id "@ + decimal(n as int)
                + " does not appear in peers list"@,
            ConfigErrorView::DuplicatePeerIds => "[raft] duplicate peer IDs in peers list"@,
            ConfigErrorView::PeerAddr { id, addr, cause } => "[raft] peer "@ + decimal(id as int)
                + " has invalid addr "@ + quoted(addr) + ": "@ + cause.text(addr),
            ConfigErrorView::ElectionTimeout {
                election_timeout_ms,
                heartbeat_interval_ms,
                min_election_ms,
            } => "[raft] election_timeout_ms ("@ + decimal(election_timeout_ms as int)
                + ") must be >= 2 × heartbeat_interval_ms ("@ + decimal(
                heartbeat_interval_ms as int,
            ) + " × 2 = "@ + decimal(min_election_ms as int) + ")"@,
            ConfigErrorView::EmptyNodeId => "[[nodes.node]] id must not be empty"@,
            ConfigErrorView::DuplicateNodeId(id) => "[[nodes.node]] duplicate node id "@ + quoted(
                id,
            ),
            ConfigErrorView::BindAddr { name, addr, cause } => "["@ + name
                + "] invalid bind address "@ + quoted(addr) + ": "@ + cause,
            ConfigErrorView::PostgresAddr { id, addr, cause } => "node "@ + quoted(id)
                + " postgres_addr "@ + quoted(addr) + ": "@ + cause.text(addr),
            ConfigErrorView::AgentAddr { id, addr, cause } => "node "@ + quoted(id)
                + " agent_addr "@ + quoted(addr) + ": "@ + cause.text(addr),
            ConfigErrorView::EmptyBucket => "[backup.s3] bucket must not be empty"@,
            ConfigErrorView::EmptySchedule =>
                "[backup] schedule must have at least one [[backup.schedule]] entry"@,
            ConfigErrorView::RetainZero(f) => "[backup] schedule retain must be >= 1 (frequency: "@
                + f.name() + ")"@,
        }
    }
}

impl ConfigError {
    /// The message for the operator.
    pub fn message(&self) -> (r: String)
        ensures
            r@ == self@.text(),
    {
        match self {
            ConfigError::EmptyClusterName => "[cluster] name must not be empty".to_owned(),
            ConfigError::EmptyDataDir => "[cluster] data_dir must not be empty".to_owned(),
            ConfigError::NoPeers => "[raft] peers must contain at least one entry".to_owned(),
            ConfigError::NodeIdNotInPeers(n) => "[raft] node_id ".to_owned().concat(
                decimal_string(*n).as_str(),
            ).concat(" does not appear in peers list"),
            ConfigError::DuplicatePeerIds => "[raft] duplicate peer IDs in peers list".to_owned(),
            ConfigError::PeerAddr { id, addr, cause } => "[raft] peer ".to_owned().concat(
                decimal_string(*id).as_str(),
            ).concat(" has invalid addr ").concat(quote(addr.as_str()).as_str()).concat(
                ": ",
            ).concat(cause.message(addr.as_str()).as_str()),
            ConfigError::ElectionTimeout {
                election_timeout_ms,
                heartbeat_interval_ms,
                min_election_ms,
            } => "[raft] election_timeout_ms (".to_owned().concat(
                decimal_string(*election_timeout_ms).as_str(),
            ).concat(") must be >= 2 × heartbeat_interval_ms (").concat(
                decimal_string(*heartbeat_interval_ms).as_str(),
            ).concat(" × 2 = ").concat(decimal_string(*min_election_ms).as_str()).concat(")"),
            ConfigError::EmptyNodeId => "[[nodes.node]] id must not be empty".to_owned(),
            ConfigError::DuplicateNodeId(id) => "[[nodes.node]] duplicate node id ".to_owned().concat(
                quote(id.as_str()).as_str(),
            ),
            ConfigError::BindAddr { name, addr, cause } => "[".to_owned().concat(
                name.as_str(),
            ).concat("] invalid bind address ").concat(quote(addr.as_str()).as_str()).concat(
                ": ",
            ).concat(cause.as_str()),
            ConfigError::PostgresAddr { id, addr, cause } => "node ".to_owned().concat(
                quote(id.as_str()).as_str(),
            ).concat(" postgres_addr ").concat(quote(addr.as_str()).as_str()).concat(": ").concat(
                cause.message(addr.as_str()).as_str(),
            ),
            ConfigError::AgentAddr { id, addr, cause } => "node ".to_owned().concat(
                quote(id.as_str()).as_str(),
            ).concat(" agent_addr ").concat(quote(addr.as_str()).as_str()).concat(": ").concat(
                cause.message(addr.as_str()).as_str(),
            ),
            ConfigError::EmptyBucket => "[backup.s3] bucket must not be empty".to_owned(),
            ConfigError::EmptySchedule =>
                "[backup] schedule must have at least one [[backup.schedule]] entry".to_owned(),
            ConfigError::RetainZero(f) =>
                "[backup] schedule retain must be >= 1 (frequency: ".to_owned().concat(
                f.as_text().as_str(),
            ).concat(")"),
        }
    }
}

// ── Addresses ────────────────────────────────────────────────────────────────

/// What is wrong with a text that should be "host:port" with a port below
/// 65536; `None` if nothing is.
pub open spec fn host_port_fault(s: Seq<char>) -> Option<HostPortErrorView> {
    let colon = last_index(s, ':');
    if colon < 0 {
        Some(HostPortErrorView::MissingPort)
    } else if colon == 0 {
        Some(HostPortErrorView::MissingHost)
    } else if unsigned_value(after_last(s, ':'), 10, u16::MAX as int) is None {
        Some(HostPortErrorView::InvalidPort(after_last(s, ':')))
    } else {
        None
    }
}

/// Accept any "host:port" where port is a valid u16.
/// Allows IP addresses, DNS names, and Docker service names.
pub fn parse_host_port(s: &str) -> (r: Result<(), HostPortError>)
    ensures
        r is Ok <==> host_port_fault(s@) is None,
        r matches Err(e) ==> host_port_fault(s@) == Some(e@),
{
    let v = char_vec(s);
    let n: usize = v.len();
    proof {
        lemma_last_index_bounds(s@, ':');
    }
    match find_last(&v, ':') {
        None => Err(HostPortError::MissingPort),
        Some(colon) => {
            if colon == 0 {
                return Err(HostPortError::MissingHost);
            }
            let port = cut(&v, colon + 1, n);
            match parse_unsigned(port.as_str(), 10, 65535) {
                Some(_) => Ok(()),
                None => Err(HostPortError::InvalidPort(port)),
            }
        },
    }
}

/// Why a text is no socket address, as the standard library words it; `None`
/// if it is one.
pub uninterp spec fn socket_addr_fault(s: Seq<char>) -> Option<Seq<char>>;

/// `<SocketAddr as FromStr>::from_str`: `None` if the text is an IP address
/// with a port, otherwise the text of the error.
#[verifier::external_body]
fn parse_socket_addr(s: &str) -> (r: Option<String>)
    ensures
        r is Some <==> socket_addr_fault(s@) is Some,
        r matches Some(e) ==> socket_addr_fault(s@) == Some(e@),
{
    s.parse::<core::net::SocketAddr>().err().map(|e| e.to_string())
}

// ── What is wrong with a configuration ───────────────────────────────────────

/// What is wrong with the `[cluster]` section.
pub open spec fn cluster_fault(cfg: PgClusterConfig) -> Option<ConfigErrorView> {
    if cfg.cluster.name@.len() == 0 {
        Some(ConfigErrorView::EmptyClusterName)
    } else if cfg.cluster.data_dir@.len() == 0 {
        Some(ConfigErrorView::EmptyDataDir)
    } else {
        None
    }
}

/// Whether a peer with the id is listed.
pub open spec fn has_peer(peers: Seq<RaftPeer>, id: u64) -> bool {
    exists|i: int| 0 <= i < peers.len() && (#[trigger] peers[i]).id == id
}

/// Whether no two peers have the same id.
pub open spec fn distinct_peers(peers: Seq<RaftPeer>) -> bool {
    forall|i: int, j: int|
        0 <= i < j < peers.len() ==> (#[trigger] peers[i]).id != (#[trigger] peers[j]).id
}

/// The fault of the first peer from `i` on whose address is no "host:port".
pub open spec fn peer_addr_fault(peers: Seq<RaftPeer>, i: int) -> Option<ConfigErrorView>
    decreases peers.len() - i,
{
    if i >= peers.len() {
        None
    } else {
        match host_port_fault(peers[i].addr@) {
            Some(cause) => Some(
                ConfigErrorView::PeerAddr { id: peers[i].id, addr: peers[i].addr@, cause },
            ),
            None => peer_addr_fault(peers, i + 1),
        }
    }
}

/// What is wrong with the `[raft]` section.
pub open spec fn raft_fault(cfg: PgClusterConfig) -> Option<ConfigErrorView> {
    let peers = cfg.raft.peers@;
    if peers.len() == 0 {
        Some(ConfigErrorView::NoPeers)
    } else if !has_peer(peers, cfg.raft.node_id) {
        Some(ConfigErrorView::NodeIdNotInPeers(cfg.raft.node_id))
    } else if !distinct_peers(peers) {
        Some(ConfigErrorView::DuplicatePeerIds)
    } else if peer_addr_fault(peers, 0) is Some {
        peer_addr_fault(peers, 0)
    } else if cfg.raft.election_timeout_ms < 2 * cfg.raft.heartbeat_interval_ms {
        Some(
            ConfigErrorView::ElectionTimeout {
                election_timeout_ms: cfg.raft.election_timeout_ms,
                heartbeat_interval_ms: cfg.raft.heartbeat_interval_ms,
                min_election_ms: (2 * cfg.raft.heartbeat_interval_ms) as u64,
            },
        )
    } else {
        None
    }
}

/// The fault of the first node from `i` on with an empty or repeated id.
pub open spec fn node_id_fault(nodes: Seq<NodeConfig>, i: int) -> Option<ConfigErrorView>
    decreases nodes.len() - i,
{
    if i >= nodes.len() {
        None
    } else if nodes[i].id@.len() == 0 {
        Some(ConfigErrorView::EmptyNodeId)
    } else if exists|j: int| 0 <= j < i && (#[trigger] nodes[j]).id@ == nodes[i].id@ {
        Some(ConfigErrorView::DuplicateNodeId(nodes[i].id@))
    } else {
        node_id_fault(nodes, i + 1)
    }
}

/// What is wrong with an address that is bound to.
pub open spec fn bind_fault(name: Seq<char>, addr: Seq<char>) -> Option<ConfigErrorView> {
    match socket_addr_fault(addr) {
        Some(cause) => Some(ConfigErrorView::BindAddr { name, addr, cause }),
        None => None,
    }
}

/// The first of two faults.
pub open spec fn first_fault(a: Option<ConfigErrorView>, b: Option<ConfigErrorView>) -> Option<
    ConfigErrorView,
> {
    match a {
        Some(e) => Some(e),
        None => b,
    }
}

/// What is wrong with the addresses that are bound to.
pub open spec fn binds_fault(cfg: PgClusterConfig) -> Option<ConfigErrorView> {
    first_fault(
        bind_fault("proxy.listen_addr"@, cfg.proxy.listen_addr@),
        first_fault(
            bind_fault("proxy.admin_listen_addr"@, cfg.proxy.admin_listen_addr@),
            first_fault(
                bind_fault("proxy.health_listen_addr"@, cfg.proxy.health_listen_addr@),
                first_fault(
                    bind_fault("metrics.listen_addr"@, cfg.metrics.listen_addr@),
                    bind_fault("api.listen_addr"@, cfg.api.listen_addr@),
                ),
            ),
        ),
    )
}

/// The fault of the first node from `i` on with an address that is no
/// "host:port".
pub open spec fn node_addr_fault(nodes: Seq<NodeConfig>, i: int) -> Option<ConfigErrorView>
    decreases nodes.len() - i,
{
    if i >= nodes.len() {
        None
    } else {
        match host_port_fault(nodes[i].postgres_addr@) {
            Some(cause) => Some(
                ConfigErrorView::PostgresAddr {
                    id: nodes[i].id@,
                    addr: nodes[i].postgres_addr@,
                    cause,
                },
            ),
            None => match host_port_fault(nodes[i].agent_addr@) {
                Some(cause) => Some(
                    ConfigErrorView::AgentAddr {
                        id: nodes[i].id@,
                        addr: nodes[i].agent_addr@,
                        cause,
                    },
                ),
                None => node_addr_fault(nodes, i + 1),
            },
        }
    }
}

/// The fault of the first schedule entry from `i` on that retains nothing.
pub open spec fn retain_fault(schedule: Seq<BackupScheduleEntry>, i: int) -> Option<
    ConfigErrorView,
>
    decreases schedule.len() - i,
{
    if i >= schedule.len() {
        None
    } else if schedule[i].retain == 0 {
        Some(ConfigErrorView::RetainZero(schedule[i].frequency))
    } else {
        retain_fault(schedule, i + 1)
    }
}

/// What is wrong with the `[backup]` section.
pub open spec fn backup_fault(backup: Option<BackupConfig>) -> Option<ConfigErrorView> {
    match backup {
        None => None,
        Some(b) => if b.s3.bucket@.len() == 0 {
            Some(ConfigErrorView::EmptyBucket)
        } else if b.schedule@.len() == 0 {
            Some(ConfigErrorView::EmptySchedule)
        } else {
            retain_fault(b.schedule@, 0)
        },
    }
}

/// The first thing that is wrong with a configuration; `None` if it is valid.
pub open spec fn config_fault(cfg: PgClusterConfig) -> Option<ConfigErrorView> {
    first_fault(
        cluster_fault(cfg),
        first_fault(
            raft_fault(cfg),
            first_fault(
                node_id_fault(cfg.nodes.node@, 0),
                first_fault(
                    binds_fault(cfg),
                    first_fault(node_addr_fault(cfg.nodes.node@, 0), backup_fault(cfg.backup)),
                ),
            ),
        ),
    )
}

/// Whether a result reports exactly the given fault.
pub open spec fn reports(r: Result<(), ConfigError>, fault: Option<ConfigErrorView>) -> bool {
    match r {
        Ok(()) => fault is None,
        Err(e) => fault == Some(e@),
    }
}

// ── Validation ───────────────────────────────────────────────────────────────

/// Validate the parsed config and return a descriptive error if anything is wrong.
pub fn validate(cfg: &PgClusterConfig) -> (r: Result<(), ConfigError>)
    requires
        2 * cfg.raft.heartbeat_interval_ms <= u64::MAX,
    ensures
        reports(r, config_fault(*cfg)),
{
    validate_cluster(cfg)?;
    validate_raft(cfg)?;
    validate_nodes(cfg)?;
    validate_addresses(cfg)?;
    validate_backup(cfg)?;
    Ok(())
}

fn validate_cluster(cfg: &PgClusterConfig) -> (r: Result<(), ConfigError>)
    ensures
        reports(r, cluster_fault(*cfg)),
{
    if cfg.cluster.name.as_str().is_empty() {
        return Err(ConfigError::EmptyClusterName);
    }
    if cfg.cluster.data_dir.as_str().is_empty() {
        return Err(ConfigError::EmptyDataDir);
    }
    Ok(())
}

fn lists_peer(peers: &Vec<RaftPeer>, id: u64) -> (r: bool)
    ensures
        r == has_peer(peers@, id),
{
    for i in 0..peers.len()
        invariant
            forall|j: int| 0 <= j < i ==> (#[trigger] peers@[j]).id != id,
    {
        if peers[i].id == id {
            return true;
        }
    }
    false
}

fn peers_distinct(peers: &Vec<RaftPeer>) -> (r: bool)
    ensures
        r == distinct_peers(peers@),
{
    for i in 0..peers.len()
        invariant
            forall|a: int, b: int|
                0 <= a < b < i ==> (#[trigger] peers@[a]).id != (#[trigger] peers@[b]).id,
    {
        for k in 0..i
            invariant
                i < peers@.len(),
                forall|a: int| 0 <= a < k ==> (#[trigger] peers@[a]).id != peers@[i as int].id,
        {
            if peers[k].id == peers[i].id {
                assert(peers@[k as int].id == peers@[i as int].id);
                return false;
            }
        }
    }
    true
}

fn validate_raft(cfg: &PgClusterConfig) -> (r: Result<(), ConfigError>)
    requires
        2 * cfg.raft.heartbeat_interval_ms <= u64::MAX,
    ensures
        reports(r, raft_fault(*cfg)),
{
    let peers = &cfg.raft.peers;
    if peers.len() == 0 {
        return Err(ConfigError::NoPeers);
    }
    // node_id must appear in peers

    if !lists_peer(peers, cfg.raft.node_id) {
        return Err(ConfigError::NodeIdNotInPeers(cfg.raft.node_id));
    }
    // Peer IDs must be unique

    if !peers_distinct(peers) {
        return Err(ConfigError::DuplicatePeerIds);
    }
    // Peer addresses must be valid host:port (hostnames allowed for Docker/k8s)

    for i in 0..peers.len()
        invariant
            peers@ == cfg.raft.peers@,
            peers@.len() > 0,
            has_peer(peers@, cfg.raft.node_id),
            distinct_peers(peers@),
            peer_addr_fault(peers@, 0) == peer_addr_fault(peers@, i as int),
    {
        match parse_host_port(peers[i].addr.as_str()) {
            Ok(()) => {},
            Err(cause) => {
                return Err(
                    ConfigError::PeerAddr { id: peers[i].id, addr: peers[i].addr.clone(), cause },
                );
            },
        }
    }
    // election_timeout_ms must be at least 2× heartbeat_interval_ms.
    // A tighter ratio means followers expire before seeing even two heartbeats,
    // causing spurious elections under normal network jitter.
    let min_election: u64 = cfg.raft.heartbeat_interval_ms * 2;
    if cfg.raft.election_timeout_ms < min_election {
        return Err(
            ConfigError::ElectionTimeout {
                election_timeout_ms: cfg.raft.election_timeout_ms,
                heartbeat_interval_ms: cfg.raft.heartbeat_interval_ms,
                min_election_ms: min_election,
            },
        );
    }
    Ok(())
}

fn validate_nodes(cfg: &PgClusterConfig) -> (r: Result<(), ConfigError>)
    ensures
        reports(r, node_id_fault(cfg.nodes.node@, 0)),
{
    let nodes = &cfg.nodes.node;
    for i in 0..nodes.len()
        invariant
            nodes@ == cfg.nodes.node@,
            node_id_fault(nodes@, 0) == node_id_fault(nodes@, i as int),
    {
        if nodes[i].id.as_str().is_empty() {
            return Err(ConfigError::EmptyNodeId);
        }
        for k in 0..i
            invariant
                i < nodes@.len(),
                nodes@ == cfg.nodes.node@,
                nodes@[i as int].id@.len() != 0,
                node_id_fault(nodes@, 0) == node_id_fault(nodes@, i as int),
                forall|a: int| 0 <= a < k ==> (#[trigger] nodes@[a]).id@ != nodes@[i as int].id@,
        {
            if same_text(nodes[k].id.as_str(), nodes[i].id.as_str()) {
                assert(nodes@[k as int].id@ == nodes@[i as int].id@);
                return Err(ConfigError::DuplicateNodeId(nodes[i].id.clone()));
            }
        }
    }
    Ok(())
}

fn validate_bind(name: &str, addr: &String) -> (r: Result<(), ConfigError>)
    ensures
        reports(r, bind_fault(name@, addr@)),
{
    match parse_socket_addr(addr.as_str()) {
        None => Ok(()),
        Some(cause) => Err(
            ConfigError::BindAddr { name: name.to_owned(), addr: addr.clone(), cause },
        ),
    }
}

fn validate_addresses(cfg: &PgClusterConfig) -> (r: Result<(), ConfigError>)
    ensures
        reports(r, first_fault(binds_fault(*cfg), node_addr_fault(cfg.nodes.node@, 0))),
{
    // Bind addresses must be IP:port (the OS rejects hostnames on bind)
    validate_bind("proxy.listen_addr", &cfg.proxy.listen_addr)?;
    validate_bind("proxy.admin_listen_addr", &cfg.proxy.admin_listen_addr)?;
    validate_bind("proxy.health_listen_addr", &cfg.proxy.health_listen_addr)?;
    validate_bind("metrics.listen_addr", &cfg.metrics.listen_addr)?;
    validate_bind("api.listen_addr", &cfg.api.listen_addr)?;
    // Connect addresses accept hostnames (Docker service names, DNS, etc.)
    let nodes = &cfg.nodes.node;
    for i in 0..nodes.len()
        invariant
            nodes@ == cfg.nodes.node@,
            binds_fault(*cfg) is None,
            node_addr_fault(nodes@, 0) == node_addr_fault(nodes@, i as int),
    {
        match parse_host_port(nodes[i].postgres_addr.as_str()) {
            Ok(()) => {},
            Err(cause) => {
                return Err(
                    ConfigError::PostgresAddr {
                        id: nodes[i].id.clone(),
                        addr: nodes[i].postgres_addr.clone(),
                        cause,
                    },
                );
            },
        }
        match parse_host_port(nodes[i].agent_addr.as_str()) {
            Ok(()) => {},
            Err(cause) => {
                return Err(
                    ConfigError::AgentAddr {
                        id: nodes[i].id.clone(),
                        addr: nodes[i].agent_addr.clone(),
                        cause,
                    },
                );
            },
        }
    }
    Ok(())
}

fn validate_backup(cfg: &PgClusterConfig) -> (r: Result<(), ConfigError>)
    ensures
        reports(r, backup_fault(cfg.backup)),
{
    match &cfg.backup {
        None => Ok(()),
        Some(backup) => {
            if backup.s3.bucket.as_str().is_empty() {
                return Err(ConfigError::EmptyBucket);
            }
            if backup.schedule.len() == 0 {
                return Err(ConfigError::EmptySchedule);
            }
            for i in 0..backup.schedule.len()
                invariant
                    cfg.backup == Some(*backup),
                    backup.s3.bucket@.len() != 0,
                    backup.schedule@.len() != 0,
                    retain_fault(backup.schedule@, 0) == retain_fault(backup.schedule@, i as int),
            {
                if backup.schedule[i].retain == 0 {
                    return Err(ConfigError::RetainZero(backup.schedule[i].frequency));
                }
            }
            Ok(())
        },
    }
}

// ── Laws ─────────────────────────────────────────────────────────────────────

/// Whether no two nodes have the same id, and none has an empty one.
pub open spec fn distinct_nodes(nodes: Seq<NodeConfig>) -> bool {
    &&& forall|i: int| 0 <= i < nodes.len() ==> (#[trigger] nodes[i]).id@.len() != 0
    &&& forall|i: int, j: int|
        0 <= i < j < nodes.len() ==> (#[trigger] nodes[i]).id@ != (#[trigger] nodes[j]).id@
}

proof fn lemma_peer_addrs_valid(peers: Seq<RaftPeer>, i: int)
    requires
        0 <= i,
        peer_addr_fault(peers, i) is None,
    ensures
        forall|k: int| i <= k < peers.len() ==> host_port_fault((#[trigger] peers[k]).addr@) is None,
    decreases peers.len() - i,
{
    if i < peers.len() {
        lemma_peer_addrs_valid(peers, i + 1);
    }
}

proof fn lemma_node_ids_valid(nodes: Seq<NodeConfig>, i: int)
    requires
        0 <= i,
        node_id_fault(nodes, i) is None,
    ensures
        forall|k: int| i <= k < nodes.len() ==> (#[trigger] nodes[k]).id@.len() != 0,
        forall|j: int, k: int|
            0 <= j < k < nodes.len() && i <= k ==> (#[trigger] nodes[j]).id@ != (
            #[trigger] nodes[k]).id@,
    decreases nodes.len() - i,
{
    if i < nodes.len() {
        lemma_node_ids_valid(nodes, i + 1);
    }
}

proof fn lemma_node_addrs_valid(nodes: Seq<NodeConfig>, i: int)
    requires
        0 <= i,
        node_addr_fault(nodes, i) is None,
    ensures
        forall|k: int|
            i <= k < nodes.len() ==> host_port_fault((#[trigger] nodes[k]).postgres_addr@) is None
                && host_port_fault(nodes[k].agent_addr@) is None,
    decreases nodes.len() - i,
{
    if i < nodes.len() {
        lemma_node_addrs_valid(nodes, i + 1);
    }
}

proof fn lemma_retains_valid(schedule: Seq<BackupScheduleEntry>, i: int)
    requires
        0 <= i,
        retain_fault(schedule, i) is None,
    ensures
        forall|k: int| i <= k < schedule.len() ==> (#[trigger] schedule[k]).retain >= 1,
    decreases schedule.len() - i,
{
    if i < schedule.len() {
        lemma_retains_valid(schedule, i + 1);
    }
}

/// What holds of every configuration that passes validation.
pub proof fn lemma_valid_config(cfg: PgClusterConfig)
    requires
        config_fault(cfg) is None,
    ensures
        cfg.cluster.name@.len() != 0,
        cfg.cluster.data_dir@.len() != 0,
        has_peer(cfg.raft.peers@, cfg.raft.node_id),
        distinct_peers(cfg.raft.peers@),
        forall|k: int|
            0 <= k < cfg.raft.peers@.len() ==> host_port_fault(
                (#[trigger] cfg.raft.peers@[k]).addr@,
            ) is None,
        cfg.raft.election_timeout_ms >= 2 * cfg.raft.heartbeat_interval_ms,
        distinct_nodes(cfg.nodes.node@),
        forall|k: int|
            0 <= k < cfg.nodes.node@.len() ==> host_port_fault(
                (#[trigger] cfg.nodes.node@[k]).postgres_addr@,
            ) is None && host_port_fault(cfg.nodes.node@[k].agent_addr@) is None,
        socket_addr_fault(cfg.proxy.listen_addr@) is None,
        socket_addr_fault(cfg.proxy.admin_listen_addr@) is None,
        socket_addr_fault(cfg.proxy.health_listen_addr@) is None,
        socket_addr_fault(cfg.metrics.listen_addr@) is None,
        socket_addr_fault(cfg.api.listen_addr@) is None,
        cfg.backup matches Some(b) ==> b.s3.bucket@.len() != 0 && b.schedule@.len() != 0 && forall|
            k: int,
        | 0 <= k < b.schedule@.len() ==> (#[trigger] b.schedule@[k]).retain >= 1,
{
    lemma_peer_addrs_valid(cfg.raft.peers@, 0);
    lemma_node_ids_valid(cfg.nodes.node@, 0);
    lemma_node_addrs_valid(cfg.nodes.node@, 0);
    if let Some(b) = cfg.backup {
        lemma_retains_valid(b.schedule@, 0);
    }
}

/// A configuration that satisfies all of this passes validation.
pub proof fn lemma_config_that_passes(cfg: PgClusterConfig)
    requires
        cfg.cluster.name@.len() > 0,
        cfg.cluster.data_dir@.len() > 0,
        exists|i: int|
            0 <= i < cfg.raft.peers@.len() && (#[trigger] cfg.raft.peers@[i]).id
                == cfg.raft.node_id,
        forall|i: int, j: int|
            0 <= i < j < cfg.raft.peers@.len() ==> (#[trigger] cfg.raft.peers@[i]).id != (
            #[trigger] cfg.raft.peers@[j]).id,
        forall|i: int|
            0 <= i < cfg.raft.peers@.len() ==> host_port_fault(
                (#[trigger] cfg.raft.peers@[i]).addr@,
            ) is None,
        cfg.raft.election_timeout_ms >= 2 * cfg.raft.heartbeat_interval_ms,
        forall|i: int|
            0 <= i < cfg.nodes.node@.len() ==> (#[trigger] cfg.nodes.node@[i]).id@.len() > 0
                && host_port_fault(cfg.nodes.node@[i].postgres_addr@) is None && host_port_fault(
                cfg.nodes.node@[i].agent_addr@,
            ) is None,
        forall|i: int, j: int|
            0 <= i < j < cfg.nodes.node@.len() ==> (#[trigger] cfg.nodes.node@[i]).id@ != (
            #[trigger] cfg.nodes.node@[j]).id@,
        socket_addr_fault(cfg.proxy.listen_addr@) is None,
        socket_addr_fault(cfg.proxy.admin_listen_addr@) is None,
        socket_addr_fault(cfg.proxy.health_listen_addr@) is None,
        socket_addr_fault(cfg.metrics.listen_addr@) is None,
        socket_addr_fault(cfg.api.listen_addr@) is None,
        cfg.backup matches Some(b) ==> b.s3.bucket@.len() > 0 && b.schedule@.len() > 0 && forall|
            k: int,
        | 0 <= k < b.schedule@.len() ==> (#[trigger] b.schedule@[k]).retain >= 1,
    ensures
        config_fault(cfg) is None,
{
    lemma_peers_pass(cfg.raft.peers@, 0);
    lemma_nodes_pass(cfg.nodes.node@, 0);
    if let Some(b) = cfg.backup {
        lemma_retains_pass(b.schedule@, 0);
    }
}

proof fn lemma_peers_pass(peers: Seq<RaftPeer>, i: int)
    requires
        0 <= i,
        forall|k: int|
            0 <= k < peers.len() ==> host_port_fault((#[trigger] peers[k]).addr@) is None,
    ensures
        peer_addr_fault(peers, i) is None,
    decreases peers.len() - i,
{
    if i < peers.len() {
        lemma_peers_pass(peers, i + 1);
    }
}

proof fn lemma_nodes_pass(nodes: Seq<NodeConfig>, i: int)
    requires
        0 <= i,
        forall|k: int|
            0 <= k < nodes.len() ==> (#[trigger] nodes[k]).id@.len() > 0 && host_port_fault(
                nodes[k].postgres_addr@,
            ) is None && host_port_fault(nodes[k].agent_addr@) is None,
        forall|a: int, b: int|
            0 <= a < b < nodes.len() ==> (#[trigger] nodes[a]).id@ != (#[trigger] nodes[b]).id@,
    ensures
        node_id_fault(nodes, i) is None,
        node_addr_fault(nodes, i) is None,
    decreases nodes.len() - i,
{
    if i < nodes.len() {
        lemma_nodes_pass(nodes, i + 1);
    }
}

proof fn lemma_retains_pass(schedule: Seq<BackupScheduleEntry>, i: int)
    requires
        0 <= i,
        forall|k: int| 0 <= k < schedule.len() ==> (#[trigger] schedule[k]).retain >= 1,
    ensures
        retain_fault(schedule, i) is None,
    decreases schedule.len() - i,
{
    if i < schedule.len() {
        lemma_retains_pass(schedule, i + 1);
    }
}

/// An address needs a host and a port below 65536 behind its last colon.
pub proof fn lemma_host_and_port(host: Seq<char>, port: Seq<char>)
    requires
        !port.contains(':'),
    ensures
        host_port_fault(host + seq![':'] + port) is None <==> host.len() > 0 && unsigned_value(
            port,
            10,
            65535,
        ) is Some,
        host_port_fault(port) == Some(HostPortErrorView::MissingPort),
{
    let s = host + seq![':'] + port;
    crate::text::lemma_text_parts(host, port, ':');
    assert forall|j: int| host.len() < j < s.len() implies s[j] != ':' by {
        assert(s[j] == port[j - host.len() - 1]);
        assert(port.contains(port[j - host.len() - 1]));
    }
    crate::text::lemma_last_index(s, ':', host.len() as int);
    assert forall|j: int| 0 <= j < port.len() implies port[j] != ':' by {
        assert(port.contains(port[j]));
    }
    crate::text::lemma_last_index(port, ':', -1);
}

/// An address to listen on that cannot be read is refused under the name of its
/// setting, the first of them if there are several.
pub proof fn lemma_bad_listener_is_named(cfg: PgClusterConfig)
    ensures
        ({
            let proxy = socket_addr_fault(cfg.proxy.listen_addr@);
            let admin = socket_addr_fault(cfg.proxy.admin_listen_addr@);
            let health = socket_addr_fault(cfg.proxy.health_listen_addr@);
            let metrics = socket_addr_fault(cfg.metrics.listen_addr@);
            let api = socket_addr_fault(cfg.api.listen_addr@);
            &&& proxy matches Some(cause) ==> binds_fault(cfg) == Some(
                ConfigErrorView::BindAddr {
                    name: "proxy.listen_addr"@,
                    addr: cfg.proxy.listen_addr@,
                    cause,
                },
            )
            &&& proxy is None ==> (admin matches Some(cause) ==> binds_fault(cfg) == Some(
                ConfigErrorView::BindAddr {
                    name: "proxy.admin_listen_addr"@,
                    addr: cfg.proxy.admin_listen_addr@,
                    cause,
                },
            ))
            &&& proxy is None && admin is None ==> (health matches Some(cause) ==> binds_fault(cfg)
                == Some(
                ConfigErrorView::BindAddr {
                    name: "proxy.health_listen_addr"@,
                    addr: cfg.proxy.health_listen_addr@,
                    cause,
                },
            ))
            &&& proxy is None && admin is None && health is None ==> (metrics matches Some(cause)
                ==> binds_fault(cfg) == Some(
                ConfigErrorView::BindAddr {
                    name: "metrics.listen_addr"@,
                    addr: cfg.metrics.listen_addr@,
                    cause,
                },
            ))
            &&& proxy is None && admin is None && health is None && metrics is None ==> (
            api matches Some(cause) ==> binds_fault(cfg) == Some(
                ConfigErrorView::BindAddr {
                    name: "api.listen_addr"@,
                    addr: cfg.api.listen_addr@,
                    cause,
                },
            ))
        }),
{
}

/// What is wrong with a configuration is told by its own error: the name and the
/// directory of the cluster first, then its peers, among which the node must be.
pub proof fn lemma_faults_are_told(cfg: PgClusterConfig)
    ensures
        cfg.cluster.name@.len() == 0 ==> config_fault(cfg) == Some(
            ConfigErrorView::EmptyClusterName,
        ),
        cfg.cluster.name@.len() > 0 && cfg.cluster.data_dir@.len() == 0 ==> config_fault(cfg)
            == Some(ConfigErrorView::EmptyDataDir),
        cfg.cluster.name@.len() > 0 && cfg.cluster.data_dir@.len() > 0 && cfg.raft.peers@.len() == 0
            ==> config_fault(cfg) == Some(ConfigErrorView::NoPeers),
        cfg.cluster.name@.len() > 0 && cfg.cluster.data_dir@.len() > 0 && cfg.raft.peers@.len() > 0
            && (forall|i: int|
            0 <= i < cfg.raft.peers@.len() ==> (#[trigger] cfg.raft.peers@[i]).id
                != cfg.raft.node_id) ==> config_fault(cfg) == Some(
            ConfigErrorView::NodeIdNotInPeers(cfg.raft.node_id),
        ),
{
}

/// Backups need a bucket and a schedule whose entries keep something.
pub proof fn lemma_faults_of_backups(b: BackupConfig, i: int)
    requires
        0 <= i < b.schedule@.len(),
        b.schedule@[i].retain == 0,
        forall|k: int| 0 <= k < i ==> (#[trigger] b.schedule@[k]).retain > 0,
    ensures
        b.s3.bucket@.len() == 0 ==> backup_fault(Some(b)) == Some(ConfigErrorView::EmptyBucket),
        b.s3.bucket@.len() > 0 ==> backup_fault(Some(b)) == Some(
            ConfigErrorView::RetainZero(b.schedule@[i].frequency),
        ),
        backup_fault(None) is None,
{
    lemma_retain_fault_at(b.schedule@, 0, i);
}

proof fn lemma_retain_fault_at(schedule: Seq<BackupScheduleEntry>, from: int, i: int)
    requires
        0 <= from <= i < schedule.len(),
        schedule[i].retain == 0,
        forall|k: int| from <= k < i ==> (#[trigger] schedule[k]).retain > 0,
    ensures
        retain_fault(schedule, from) == Some(ConfigErrorView::RetainZero(schedule[i].frequency)),
    decreases i - from,
{
    if from < i {
        lemma_retain_fault_at(schedule, from + 1, i);
    }
}

} // verus!
