//! `pgcluster failover`

use super::status::{or_text, text_or};
use vstd::prelude::*;

verus! {

/// Arguments of `pgcluster failover`.
#[derive(Debug)]
pub struct FailoverArgs {
    /// Node ID that has failed (will be marked offline)
    pub failed_node: String,
    pub api: String,
}

/// What is shown once the API has answered with the given message, if any.
pub fn failover_line(message: &Option<String>) -> (r: String)
    ensures
        r@ == text_or(*message, "triggered"@),
{
    or_text(message, "triggered")
}

} // verus!
