//! Clients of the agents that run beside PostgreSQL.

use crate::raft::network::{server_uri, uri_text};
use vstd::prelude::*;
use vstd::string::StringExecFns;

verus! {

// ── AgentClient ──────────────────────────────────────────────────────────────

/// A call to an agent.
#[derive(Debug, Clone, Copy, PartialEq, Eq, Structural)]
pub enum AgentCall {
    GetStatus,
    Heartbeat,
    Promote,
    Demote,
    StopPostgres,
}

/// A client of a single agent. It tracks the heartbeat sequence number.
#[derive(Debug)]
pub struct AgentClient {
    addr: String,
    seq: u64,
}

impl View for AgentClient {
    type V = (Seq<char>, u64);

    /// The address of the agent, and how many heartbeats were sent.
    closed spec fn view(&self) -> (Seq<char>, u64) {
        (self.addr@, self.seq)
    }
}

impl AgentClient {
    /// A client that has sent nothing yet.
    pub fn new(addr: &str) -> (r: Self)
        ensures
            r@ == (addr@, 0u64),
    {
        AgentClient { addr: addr.to_owned(), seq: 0 }
    }

    /// The sequence number of the next heartbeat.
    ///
    /// The agent enters safe mode if it does not receive a heartbeat within its
    /// configured timeout.  The sequence number is monotonically incremented.
    pub fn heartbeat(&mut self) -> (r: u64)
        requires
            old(self)@.1 < u64::MAX,
        ensures
            r == old(self)@.1 + 1,
            final(self)@ == (old(self)@.0, r),
    {
        self.seq = self.seq + 1;
        self.seq
    }

    /// What an error says of the call that failed.
    pub fn context(&self, call: AgentCall) -> (r: String)
        ensures
            r@ == (match call {
                AgentCall::GetStatus => "GetStatus from "@,
                AgentCall::Heartbeat => "Heartbeat to "@,
                AgentCall::Promote => "Promote at "@,
                AgentCall::Demote => "Demote at "@,
                AgentCall::StopPostgres => "StopPostgres at "@,
            }) + self@.0,
    {
        let what = match call {
            AgentCall::GetStatus => "GetStatus from ",
            AgentCall::Heartbeat => "Heartbeat to ",
            AgentCall::Promote => "Promote at ",
            AgentCall::Demote => "Demote at ",
            AgentCall::StopPostgres => "StopPostgres at ",
        };
        what.to_owned().concat(self.addr.as_str())
    }
}

// ── AgentClientPool ──────────────────────────────────────────────────────────

/// The channels that a map holds, by the nodes they lead to.
pub uninterp spec fn channels(m: dashmap::DashMap<String, u64>) -> Map<Seq<char>, u64>;

/// The map that holds nothing.
pub open spec fn no_channels() -> Map<Seq<char>, u64> {
    Map::empty()
}

/// `DashMap::new` makes a map that holds nothing.
#[verifier::external_body]
fn new_channels() -> (r: dashmap::DashMap<String, u64>)
    ensures
        channels(r) == no_channels(),
{
    dashmap::DashMap::new()
}

/// `DashMap::get` gives the value of a key, if the map holds the key. Here it
/// is copied.
#[verifier::external_body]
fn get_channel(m: &dashmap::DashMap<String, u64>, node_id: &str) -> (r: Option<u64>)
    ensures
        r is Some <==> channels(*m).contains_key(node_id@),
        r matches Some(c) ==> c == channels(*m)[node_id@],
{
    m.get(node_id).map(|c| *c.value())
}

/// `DashMap::insert` sets the value of a key and leaves all others as they
/// are.
#[verifier::external_body]
fn put_channel(m: &mut dashmap::DashMap<String, u64>, node_id: String, channel: u64)
    ensures
        channels(*final(m)) == channels(*old(m)).insert(node_id@, channel),
{
    m.insert(node_id, channel);
}

/// `DashMap::remove` takes a key out and leaves all others as they are.
#[verifier::external_body]
fn drop_channel(m: &mut dashmap::DashMap<String, u64>, node_id: &str)
    ensures
        channels(*final(m)) == channels(*old(m)).remove(node_id@),
{
    m.remove(node_id);
}

/// Connection pool for agent endpoints, keyed by node ID.
///
/// It remembers which channel leads to which node. A channel is known by its
/// number.
pub struct AgentClientPool {
    channels: dashmap::DashMap<String, u64>,
    ca_pem: Option<Vec<u8>>,
}

impl View for AgentClientPool {
    type V = Map<Seq<char>, u64>;

    closed spec fn view(&self) -> Map<Seq<char>, u64> {
        channels(self.channels)
    }
}

impl AgentClientPool {
    /// The certificate authority that the agents are verified with, if the
    /// channels are encrypted.
    pub closed spec fn ca(&self) -> Option<Seq<u8>> {
        match self.ca_pem {
            Some(pem) => Some(pem@),
            None => None,
        }
    }

    /// A pool without channels, whose channels will be plaintext.
    pub fn new() -> (r: Self)
        ensures
            r@ == Map::<Seq<char>, u64>::empty(),
            r.ca() is None,
    {
        AgentClientPool { channels: new_channels(), ca_pem: None }
    }

    /// A pool without channels, whose channels will be verified with the given
    /// certificate authority.
    pub fn new_with_ca(ca_pem: Vec<u8>) -> (r: Self)
        ensures
            r@ == Map::<Seq<char>, u64>::empty(),
            r.ca() == Some(ca_pem@),
    {
        AgentClientPool { channels: new_channels(), ca_pem: Some(ca_pem) }
    }

    /// The certificate authority, if the channels are encrypted.
    pub fn ca_pem(&self) -> (r: Option<&Vec<u8>>)
        ensures
            match r {
                Some(pem) => self.ca() == Some(pem@),
                None => self.ca() is None,
            },
    {
        match &self.ca_pem {
            Some(pem) => Some(pem),
            None => None,
        }
    }

    /// The URL of an agent.
    pub fn agent_url(&self, addr: &str) -> (r: String)
        ensures
            r@ == uri_text(addr@, self.ca() is Some),
    {
        server_uri(addr, self.ca_pem.is_some())
    }

    /// The channel to a node, if there is one. Otherwise a new one is to be
    /// opened and handed to [`AgentClientPool::connected`].
    pub fn get_or_connect(&self, node_id: &str) -> (r: Option<u64>)
        ensures
            r is Some <==> self@.contains_key(node_id@),
            r matches Some(c) ==> c == self@[node_id@],
    {
        get_channel(&self.channels, node_id)
    }

    /// Remembers a new channel to a node.
    pub fn connected(&mut self, node_id: &str, channel: u64)
        ensures
            final(self)@ == old(self)@.insert(node_id@, channel),
            final(self).ca() == old(self).ca(),
    {
        put_channel(&mut self.channels, node_id.to_owned(), channel);
    }

    /// Evict a cached channel so the next call reconnects from scratch.
    ///
    /// Call this after any RPC error to avoid reusing a broken channel.
    pub fn remove(&mut self, node_id: &str)
        ensures
            final(self)@ == old(self)@.remove(node_id@),
            final(self).ca() == old(self).ca(),
    {
        drop_channel(&mut self.channels, node_id);
    }
}

impl Default for AgentClientPool {
    fn default() -> (r: Self)
        ensures
            r@ == Map::<Seq<char>, u64>::empty(),
            r.ca() is None,
    {
        Self::new()
    }
}

// ── Laws ─────────────────────────────────────────────────────────────────────

/// A channel is reused until it is evicted; after that the node has none, and
/// the channels of all other nodes are as they were.
pub proof fn lemma_channel_until_removed(
    pool: Map<Seq<char>, u64>,
    node_id: Seq<char>,
    channel: u64,
    other: Seq<char>,
)
    requires
        other != node_id,
    ensures
        pool.insert(node_id, channel)[node_id] == channel,
        !pool.insert(node_id, channel).remove(node_id).contains_key(node_id),
        pool.insert(node_id, channel).remove(node_id).contains_key(other) == pool.contains_key(
            other,
        ),
        pool.contains_key(other) ==> pool.insert(node_id, channel).remove(node_id)[other]
            == pool[other],
{
}

} // verus!
