//! `pgcluster config`

use super::status::{count_or, or_count, or_text, text_or};
use crate::numerals::decimal;
use vstd::prelude::*;
use vstd::string::StringExecFns;

verus! {

/// Arguments of `pgcluster config`.
#[derive(Debug)]
pub struct ConfigArgs {
    pub command: ConfigCommands,
}

/// What to do with the configuration.
#[derive(Debug)]
pub enum ConfigCommands {
    /// Validate a config file without starting the server
    Validate {
        /// Path to config file
        path: String,
    },
    /// Show the current running config from the API
    Show { api: String, json: bool },
}

/// What the API said of the configuration. What it did not say, or not in the
/// expected form, is missing.
#[derive(Debug)]
pub struct ConfigFields {
    pub cluster_name: Option<String>,
    pub node_id: Option<u64>,
    pub proxy_addr: Option<String>,
    pub api_addr: Option<String>,
}

/// What is shown of the configuration.
pub fn config_pairs(config: &ConfigFields) -> (r: Vec<(&'static str, String)>)
    ensures
        r@.len() == 4,
        r@[0].0@ == "cluster_name"@,
        r@[0].1@ == text_or(config.cluster_name, ""@),
        r@[1].0@ == "node_id"@,
        r@[1].1@ == decimal(count_or(config.node_id, 0) as int),
        r@[2].0@ == "proxy_addr"@,
        r@[2].1@ == text_or(config.proxy_addr, ""@),
        r@[3].0@ == "api_addr"@,
        r@[3].1@ == text_or(config.api_addr, ""@),
{
    let mut pairs: Vec<(&'static str, String)> = Vec::new();
    pairs.push(("cluster_name", or_text(&config.cluster_name, "")));
    pairs.push(("node_id", or_count(config.node_id, 0)));
    pairs.push(("proxy_addr", or_text(&config.proxy_addr, "")));
    pairs.push(("api_addr", or_text(&config.api_addr, "")));
    pairs
}

/// What is shown when a configuration file is valid.
pub fn valid_line(path: &str) -> (r: String)
    ensures
        r@ == "config OK: "@ + path@,
{
    "config OK: ".to_owned().concat(path)
}

} // verus!
