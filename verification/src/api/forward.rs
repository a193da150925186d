//! Where a request goes that only the leader can serve.

use vstd::prelude::*;
use vstd::string::StringExecFns;

verus! {

/// The URL of a path on the leader.
pub fn leader_url(leader_addr: &str, path: &str) -> (r: String)
    ensures
        r@ == "http://"@ + leader_addr@ + path@,
{
    "http://".to_owned().concat(leader_addr).concat(path)
}

} // verus!
