//! `pgcluster switchover`

use super::status::{or_text, text_or};
use vstd::prelude::*;

verus! {

/// Arguments of `pgcluster switchover`.
#[derive(Debug)]
pub struct SwitchoverArgs {
    /// Node ID to promote as the new primary
    pub target: String,
    pub api: String,
    /// Maximum tolerable replica lag in bytes
    pub max_lag: u64,
    /// Timeout waiting for replica sync (seconds)
    pub timeout: u64,
}

/// What is shown once the API has answered with the given message, if any.
pub fn switchover_line(message: &Option<String>) -> (r: String)
    ensures
        r@ == text_or(*message, "initiated"@),
{
    or_text(message, "initiated")
}

} // verus!
