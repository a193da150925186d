//! Addresses of the Raft peers.

use super::types::NodeId;
use vstd::prelude::*;
use vstd::string::StringExecFns;

verus! {

/// Makes connections to the peers, one for each.
#[derive(Debug)]
pub struct PgClusterNetworkFactory {
    ca_pem: Option<Vec<u8>>,
}

impl View for PgClusterNetworkFactory {
    type V = Option<Seq<u8>>;

    /// The certificate authority that the peers are verified with, if the
    /// connections are encrypted.
    closed spec fn view(&self) -> Option<Seq<u8>> {
        match self.ca_pem {
            Some(pem) => Some(pem@),
            None => None,
        }
    }
}

impl PgClusterNetworkFactory {
    /// Pass a PEM-encoded CA certificate to encrypt the connections. Without
    /// one they are plaintext.
    pub fn new(ca_pem: Option<Vec<u8>>) -> (r: Self)
        ensures
            match ca_pem {
                Some(pem) => r@ == Some(pem@),
                None => r@ is None,
            },
    {
        PgClusterNetworkFactory { ca_pem }
    }

    /// The certificate authority, if the connections are encrypted.
    pub fn ca_pem(&self) -> (r: Option<&Vec<u8>>)
        ensures
            match r {
                Some(pem) => self@ == Some(pem@),
                None => self@ is None,
            },
    {
        match &self.ca_pem {
            Some(pem) => Some(pem),
            None => None,
        }
    }

    /// A connection to the given peer.
    pub fn new_client(&self, target: NodeId, addr: &str) -> (r: RaftNetworkConnection)
        ensures
            r@ == (target, addr@, self@ is Some),
    {
        RaftNetworkConnection {
            target,
            target_addr: addr.to_owned(),
            encrypted: self.ca_pem.is_some(),
        }
    }
}

/// A logical connection to a single peer node.
#[derive(Debug)]
pub struct RaftNetworkConnection {
    target: NodeId,
    target_addr: String,
    encrypted: bool,
}

impl View for RaftNetworkConnection {
    type V = (NodeId, Seq<char>, bool);

    /// The peer, its address, and whether what is sent is encrypted.
    closed spec fn view(&self) -> (NodeId, Seq<char>, bool) {
        (self.target, self.target_addr@, self.encrypted)
    }
}

/// The URI of a server, by its address.
pub open spec fn uri_text(addr: Seq<char>, encrypted: bool) -> Seq<char> {
    (if encrypted {
        "https://"@
    } else {
        "http://"@
    }) + addr
}

/// The URI of a server, by its address.
pub fn server_uri(addr: &str, encrypted: bool) -> (r: String)
    ensures
        r@ == uri_text(addr@, encrypted),
{
    if encrypted {
        "https://".to_owned().concat(addr)
    } else {
        "http://".to_owned().concat(addr)
    }
}

impl RaftNetworkConnection {
    /// The peer.
    pub fn target(&self) -> (r: NodeId)
        ensures
            r == self@.0,
    {
        self.target
    }

    /// Where the peer is called.
    pub fn uri(&self) -> (r: String)
        ensures
            r@ == uri_text(self@.1, self@.2),
    {
        server_uri(self.target_addr.as_str(), self.encrypted)
    }

    /// The text of the error when the address of the peer is no URI.
    pub fn invalid_uri(&self, reason: &str) -> (r: String)
        ensures
            r@ == "invalid peer URI "@ + self@.1 + ": "@ + reason@,
    {
        "invalid peer URI ".to_owned().concat(self.target_addr.as_str()).concat(": ").concat(reason)
    }
}

/// Which node leads the cluster, as a peer is told.
#[derive(Debug)]
pub struct LeaderReply {
    pub leader_id: NodeId,
    pub leader_addr: String,
    pub has_leader: bool,
}

/// What a peer is told that asks for the leader. `addr` is the address of the
/// leader, if it is a member.
pub fn leader_reply(leader: Option<NodeId>, addr: Option<String>) -> (r: LeaderReply)
    ensures
        match leader {
            Some(id) => {
                &&& r.has_leader
                &&& r.leader_id == id
                &&& r.leader_addr@ == (match addr {
                    Some(a) => a@,
                    None => Seq::empty(),
                })
            },
            None => !r.has_leader && r.leader_id == 0 && r.leader_addr@.len() == 0,
        },
{
    match leader {
        Some(leader_id) => {
            let leader_addr = match addr {
                Some(a) => a,
                None => String::new(),
            };
            assert(addr is None ==> leader_addr@ =~= Seq::<char>::empty());
            LeaderReply { leader_id, leader_addr, has_leader: true }
        },
        None => LeaderReply { leader_id: 0, leader_addr: String::new(), has_leader: false },
    }
}

/// A server is called by https exactly if what is sent is encrypted.
pub proof fn lemma_scheme(addr: Seq<char>)
    ensures
        uri_text(addr, true) == "https://"@ + addr,
        uri_text(addr, false) == "http://"@ + addr,
{
}

} // verus!
