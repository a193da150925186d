//! `pgcluster server`

use vstd::prelude::*;

verus! {

/// Arguments of `pgcluster server`.
#[derive(Debug)]
pub struct ServerArgs {
    /// Path to the pgcluster config file
    pub config: String,
}

} // verus!
