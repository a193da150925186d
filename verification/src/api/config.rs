//! The part of the configuration that the API shows.

use crate::config::PgClusterConfig;
use vstd::prelude::*;

verus! {

/// The part of the configuration that the API shows.
#[derive(Debug)]
pub struct ConfigResponse {
    pub cluster_name: String,
    pub node_id: u64,
    pub peers: Vec<PeerInfo>,
    pub proxy_addr: String,
    pub api_addr: String,
    pub metrics_addr: String,
}

/// A Raft peer.
#[derive(Debug)]
pub struct PeerInfo {
    pub id: u64,
    pub addr: String,
}

/// The part of the configuration that the API shows. Neither keys nor
/// credentials are in it.
pub fn get_config(cfg: &PgClusterConfig) -> (r: ConfigResponse)
    ensures
        r.cluster_name@ == cfg.cluster.name@,
        r.node_id == cfg.raft.node_id,
        r.peers@.len() == cfg.raft.peers@.len(),
        forall|i: int|
            0 <= i < r.peers@.len() ==> (#[trigger] r.peers@[i]).id == cfg.raft.peers@[i].id
                && r.peers@[i].addr@ == cfg.raft.peers@[i].addr@,
        r.proxy_addr@ == cfg.proxy.listen_addr@,
        r.api_addr@ == cfg.api.listen_addr@,
        r.metrics_addr@ == cfg.metrics.listen_addr@,
{
    let mut peers: Vec<PeerInfo> = Vec::new();
    for i in 0..cfg.raft.peers.len()
        invariant
            peers@.len() == i,
            forall|j: int|
                0 <= j < i ==> (#[trigger] peers@[j]).id == cfg.raft.peers@[j].id
                    && peers@[j].addr@ == cfg.raft.peers@[j].addr@,
    {
        let p = &cfg.raft.peers[i];
        peers.push(PeerInfo { id: p.id, addr: p.addr.clone() });
    }
    ConfigResponse {
        cluster_name: cfg.cluster.name.clone(),
        node_id: cfg.raft.node_id,
        peers,
        proxy_addr: cfg.proxy.listen_addr.clone(),
        api_addr: cfg.api.listen_addr.clone(),
        metrics_addr: cfg.metrics.listen_addr.clone(),
    }
}

} // verus!
