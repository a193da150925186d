//! The health endpoint of the proxy.

use super::router::{primary_is_known, Router};
use crate::raft::topology::TopologyView;
use vstd::prelude::*;

verus! {

/// An HTTP status and a text.
#[derive(Debug)]
pub struct HealthReply {
    pub status: u16,
    pub body: String,
}

/// Whether a reply tells that a primary is known, or that none is.
pub open spec fn is_health_reply(primary_known: bool, r: HealthReply) -> bool {
    if primary_known {
        r.status == 200 && r.body@ == "ok"@
    } else {
        r.status == 503 && r.body@ == "no primary"@
    }
}

/// `GET /health`: 200 OK if a primary is known, 503 if not.
pub fn health_reply(primary_known: bool) -> (r: HealthReply)
    ensures
        is_health_reply(primary_known, r),
{
    if primary_known {
        HealthReply { status: 200, body: "ok".to_owned() }
    } else {
        HealthReply { status: 503, body: "no primary".to_owned() }
    }
}

/// `GET /health` on the topology at the time of the call.
pub fn health_handler(router: &Router) -> (r: HealthReply)
    ensures
        exists|t: TopologyView| #[trigger]
            router.sees(t) && is_health_reply(primary_is_known(t), r),
{
    health_reply(router.primary_addr().is_some())
}

} // verus!
