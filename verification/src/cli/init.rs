//! `pgcluster init`

use vstd::prelude::*;
use vstd::string::StringExecFns;

verus! {

/// Arguments of `pgcluster init`.
#[derive(Debug)]
pub struct InitArgs {
    /// Path to config file to use for bootstrap
    pub config: String,
    /// If set, generate dev TLS certificates into data_dir/certs/
    pub gen_certs: bool,
}

/// What is shown once the data directory is there.
pub fn data_dir_line(data_dir: &str) -> (r: String)
    ensures
        r@ == "data_dir created: "@ + data_dir@,
{
    "data_dir created: ".to_owned().concat(data_dir)
}

/// What is shown once the development certificates are there.
pub fn certs_line(data_dir: &str) -> (r: String)
    ensures
        r@ == "dev certs generated in "@ + data_dir@ + "/certs/"@,
{
    "dev certs generated in ".to_owned().concat(data_dir).concat("/certs/")
}

/// What is shown at the end.
pub fn ready_line(config: &str) -> (r: String)
    ensures
        r@ == "ready — run 'pgcluster server --config "@ + config@ + "' to start"@,
{
    "ready — run 'pgcluster server --config ".to_owned().concat(config).concat("' to start")
}

} // verus!
