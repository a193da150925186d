//! Pointing replicas to a new primary.

use vstd::prelude::*;
use vstd::string::StringExecFns;

verus! {

/// What a Demote request to an agent gave.
#[derive(Debug)]
pub enum DemoteReport {
    /// The agent could not be connected to.
    ConnectFailed(String),
    /// The request failed.
    RpcFailed(String),
    /// The agent answered.
    Reply { success: bool, error: String },
}

/// What follows from a Demote request.
#[derive(Debug)]
pub struct RepointOutcome {
    /// Why the replica could not be repointed.
    pub error: Option<String>,
    /// Whether the connection to the agent is to be given up, so that the
    /// next caller does not reuse it.
    pub evict: bool,
}

/// The error that a Demote request gave, if any.
pub open spec fn demote_error(report: DemoteReport) -> Option<Seq<char>> {
    match report {
        DemoteReport::ConnectFailed(e) => Some(e@),
        DemoteReport::RpcFailed(e) => Some(e@),
        DemoteReport::Reply { success, error } => if success {
            None
        } else {
            Some("demote RPC failed: "@ + error@)
        },
    }
}

/// Whether the connection to an agent is given up after a Demote request.
pub open spec fn gives_up_agent(report: DemoteReport) -> bool {
    match report {
        DemoteReport::Reply { .. } => false,
        _ => true,
    }
}

/// What follows from a Demote request. Callers should log the errors but
/// continue — a subset of replicas failing to repoint is recoverable.
pub fn repoint_outcome(report: DemoteReport) -> (r: RepointOutcome)
    ensures
        r.error is Some <==> demote_error(report) is Some,
        r.error matches Some(e) ==> demote_error(report) == Some(e@),
        r.evict <==> !(report is Reply),
        r.evict == gives_up_agent(report),
{
    match report {
        DemoteReport::ConnectFailed(e) => RepointOutcome { error: Some(e), evict: true },
        DemoteReport::RpcFailed(e) => RepointOutcome { error: Some(e), evict: true },
        DemoteReport::Reply { success, error } => RepointOutcome {
            error: if success {
                None
            } else {
                Some("demote RPC failed: ".to_owned().concat(error.as_str()))
            },
            evict: false,
        },
    }
}

/// A Demote request went well exactly if the agent says so. What the agent
/// answers is passed on as a failed Demote; what kept the agent from answering
/// is passed on as it is, and its connection is given up.
pub proof fn lemma_meaning_of_a_demote_report(success: bool, error: String)
    ensures
        demote_error(DemoteReport::Reply { success, error }) is None <==> success,
        !success ==> demote_error(DemoteReport::Reply { success, error }) == Some(
            "demote RPC failed: "@ + error@,
        ),
        demote_error(DemoteReport::ConnectFailed(error)) == Some(error@),
        demote_error(DemoteReport::RpcFailed(error)) == Some(error@),
        gives_up_agent(DemoteReport::ConnectFailed(error)),
        gives_up_agent(DemoteReport::RpcFailed(error)),
        !gives_up_agent(DemoteReport::Reply { success, error }),
{
}

} // verus!
