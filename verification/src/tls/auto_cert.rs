//! Development certificates.
//!
//! A self-signed CA and a node certificate signed by that CA. They are written
//! to `data_dir/certs/` on first run and reused on subsequent runs:
//! regenerating the CA on every restart would invalidate all distributed trust
//! anchors and break the TLS connections of peers and agents.

use crate::numerals::{decimal, decimal_string};
use vstd::prelude::*;
use vstd::string::StringExecFns;

verus! {

/// The common name of the CA.
pub fn ca_name() -> (r: String)
    ensures
        r@ == "pgcluster-ca"@,
{
    "pgcluster-ca".to_owned()
}

/// Whether the certificates are reused: all three files must be there.
pub fn reuses_existing(ca: bool, cert: bool, key: bool) -> (r: bool)
    ensures
        r == (ca && cert && key),
{
    ca && cert && key
}

/// The DNS names that the certificate of a node is for.
pub fn dns_names(node_id: u64) -> (r: Vec<String>)
    ensures
        r@.len() == 3,
        r@[0]@ == "localhost"@,
        r@[1]@ == "pgcluster"@,
        r@[2]@ == "pgcluster-"@ + decimal(node_id as int),
{
    let mut names: Vec<String> = Vec::new();
    names.push("localhost".to_owned());
    names.push("pgcluster".to_owned());
    names.push("pgcluster-".to_owned().concat(decimal_string(node_id).as_str()));
    names
}

/// The common name of a node.
pub fn node_name(node_id: u64) -> (r: String)
    ensures
        r@ == "pgcluster-node-"@ + decimal(node_id as int),
{
    "pgcluster-node-".to_owned().concat(decimal_string(node_id).as_str())
}

} // verus!
