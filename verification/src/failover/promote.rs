//! Promoting a replica and making sure that it took effect.

use vstd::prelude::*;
use vstd::string::StringExecFns;

verus! {

/// The text of the error when an agent reports that it could not promote.
pub open spec fn promote_error(node_id: Seq<char>, error: Seq<char>) -> Seq<char> {
    "promote failed for "@ + node_id + ": "@ + error
}

/// What the answer of an agent to the Promote RPC means.
///
/// Returns `Ok(())` when the agent confirms the promotion succeeded, or an
/// `Err` if the agent reports an error.
pub fn promote_node(node_id: &str, success: bool, error: &str) -> (r: Result<(), String>)
    ensures
        r is Ok <==> success,
        r matches Err(e) ==> e@ == promote_error(node_id@, error@),
{
    if success {
        Ok(())
    } else {
        Err("promote failed for ".to_owned().concat(node_id).concat(": ").concat(error))
    }
}

/// What a status request to an agent gave.
#[derive(Debug, Clone, Copy, PartialEq, Eq, Structural)]
pub enum StatusReport {
    /// The agent could not be connected to.
    ConnectFailed,
    /// The request failed.
    RpcFailed,
    /// The agent answered.
    Status { is_in_recovery: bool, postgres_running: bool },
}

impl StatusReport {
    /// Whether the node runs and is no longer in recovery.
    pub open spec fn is_primary(self) -> bool {
        self == (StatusReport::Status { is_in_recovery: false, postgres_running: true })
    }

    /// Whether the connection to the agent is given up after this report.
    pub open spec fn gives_up_agent(self) -> bool {
        match self {
            StatusReport::RpcFailed => true,
            _ => false,
        }
    }

    /// Whether the connection to the agent is to be given up, so that the
    /// next attempt opens a fresh one.
    pub fn evicts(&self) -> (r: bool)
        ensures
            r <==> *self == StatusReport::RpcFailed,
            r == self.gives_up_agent(),
    {
        match self {
            StatusReport::RpcFailed => true,
            _ => false,
        }
    }
}

/// What follows from a status report after a promotion.
#[derive(Debug, Clone, Copy, PartialEq, Eq, Structural)]
pub enum VerifyStep {
    /// The node is the primary.
    Passed,
    /// Wait, and ask again.
    Retry,
    /// The agent could not be connected to.
    ConnectFailed,
    /// The node did not become the primary in time.
    Exhausted,
}

/// What follows from the report of the attempt `attempt`, counted from 1. A
/// report beyond the last attempt does not count.
pub open spec fn verify_step(attempt: u32, max_attempts: u32, report: StatusReport) -> VerifyStep {
    if attempt > max_attempts {
        VerifyStep::Exhausted
    } else if report == StatusReport::ConnectFailed {
        VerifyStep::ConnectFailed
    } else if report.is_primary() {
        VerifyStep::Passed
    } else if attempt < max_attempts {
        VerifyStep::Retry
    } else {
        VerifyStep::Exhausted
    }
}

/// Verify that the node is no longer in recovery (i.e. promotion succeeded).
///
/// Retries up to `max_attempts` times. Passes when `is_in_recovery == false`
/// and Postgres runs; gives up if the agent cannot be connected to, or if the
/// node still reports being in recovery after all attempts. Without any attempt
/// it does not pass.
pub fn verify_promotion(attempt: u32, max_attempts: u32, report: StatusReport) -> (r: VerifyStep)
    ensures
        r == verify_step(attempt, max_attempts, report),
{
    if attempt > max_attempts {
        return VerifyStep::Exhausted;
    }
    match report {
        StatusReport::ConnectFailed => VerifyStep::ConnectFailed,
        StatusReport::Status { is_in_recovery, postgres_running } => if !is_in_recovery
            && postgres_running {
            VerifyStep::Passed
        } else if attempt < max_attempts {
            VerifyStep::Retry
        } else {
            VerifyStep::Exhausted
        },
        StatusReport::RpcFailed => if attempt < max_attempts {
            VerifyStep::Retry
        } else {
            VerifyStep::Exhausted
        },
    }
}

/// The text of the error when a node did not become the primary in time.
pub fn exhausted_message(node_id: &str, max_attempts: u32) -> (r: String)
    ensures
        r@ == "node "@ + node_id@ + " did not become primary after "@ + crate::numerals::decimal(
            max_attempts as int,
        ) + " attempts"@,
{
    "node ".to_owned().concat(node_id).concat(" did not become primary after ").concat(
        crate::numerals::decimal_string(max_attempts as u64).as_str(),
    ).concat(" attempts")
}

// ── Laws ─────────────────────────────────────────────────────────────────────

/// What a sequence of reports leads to, from the given attempt on; `Retry` if
/// they end before a decision. No report is needed when no attempt is left.
pub open spec fn verify_all(attempt: u32, max_attempts: u32, reports: Seq<StatusReport>) -> VerifyStep
    decreases reports.len(),
{
    if attempt > max_attempts {
        VerifyStep::Exhausted
    } else if reports.len() == 0 {
        VerifyStep::Retry
    } else {
        let step = verify_step(attempt, max_attempts, reports[0]);
        if step == VerifyStep::Retry {
            verify_all((attempt + 1) as u32, max_attempts, reports.skip(1))
        } else {
            step
        }
    }
}

/// A promotion is only ever confirmed by a report that the node runs and is no
/// longer in recovery, within the number of attempts.
pub proof fn lemma_confirmation_needs_primary(
    attempt: u32,
    max_attempts: u32,
    reports: Seq<StatusReport>,
)
    ensures
        verify_all(attempt, max_attempts, reports) == VerifyStep::Passed ==> exists|i: int|
            0 <= i < reports.len() && i <= max_attempts - attempt && (
            #[trigger] reports[i]).is_primary(),
    decreases reports.len(),
{
    if attempt <= max_attempts && reports.len() > 0 {
        let step = verify_step(attempt, max_attempts, reports[0]);
        if step == VerifyStep::Retry {
            let rest = reports.skip(1);
            lemma_confirmation_needs_primary((attempt + 1) as u32, max_attempts, rest);
            if verify_all(attempt, max_attempts, reports) == VerifyStep::Passed {
                let i = choose|i: int|
                    0 <= i < rest.len() && i <= max_attempts - (attempt + 1) && (
                    #[trigger] rest[i]).is_primary();
                assert(reports[i + 1].is_primary());
            }
        } else if step == VerifyStep::Passed {
            assert(reports[0].is_primary());
        }
    }
}

/// As many reports as there are attempts always lead to a decision.
pub proof fn lemma_attempts_are_bounded(
    attempt: u32,
    max_attempts: u32,
    reports: Seq<StatusReport>,
)
    requires
        reports.len() > max_attempts - attempt,
    ensures
        verify_all(attempt, max_attempts, reports) != VerifyStep::Retry,
    decreases reports.len(),
{
    if attempt <= max_attempts && verify_step(attempt, max_attempts, reports[0])
        == VerifyStep::Retry {
        lemma_attempts_are_bounded((attempt + 1) as u32, max_attempts, reports.skip(1));
    }
}

/// What a report means while attempts are left, and on the last one.
pub proof fn lemma_meaning_of_a_report(attempt: u32, max_attempts: u32, in_recovery: bool, running: bool)
    requires
        attempt <= max_attempts,
    ensures
        ({
            let status = StatusReport::Status {
                is_in_recovery: in_recovery,
                postgres_running: running,
            };
            let r = verify_step(attempt, max_attempts, status);
            let again = if attempt < max_attempts {
                VerifyStep::Retry
            } else {
                VerifyStep::Exhausted
            };
            &&& !in_recovery && running ==> r == VerifyStep::Passed
            &&& in_recovery || !running ==> r == again
            &&& verify_step(attempt, max_attempts, StatusReport::RpcFailed) == again
            &&& verify_step(attempt, max_attempts, StatusReport::ConnectFailed)
                == VerifyStep::ConnectFailed
        }),
{
}

/// Only a request that failed on an open connection makes the next attempt open
/// a fresh one.
pub proof fn lemma_when_an_agent_is_given_up(in_recovery: bool, running: bool)
    ensures
        StatusReport::RpcFailed.gives_up_agent(),
        !StatusReport::ConnectFailed.gives_up_agent(),
        !(StatusReport::Status {
            is_in_recovery: in_recovery,
            postgres_running: running,
        }).gives_up_agent(),
{
}

} // verus!
