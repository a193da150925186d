//! Reloading the PostgreSQL configuration on every node.

use super::{INTERNAL_SERVER_ERROR, MULTI_STATUS, OK};
use crate::table::views;
use vstd::prelude::*;
use vstd::string::StringExecFns;

verus! {

/// Which nodes reloaded their configuration, and which failed to.
#[derive(Debug)]
pub struct ReloadResponse {
    pub reloaded: Vec<String>,
    pub failed: Vec<ReloadFailure>,
}

/// Why a node failed to reload its configuration.
#[derive(Debug)]
pub struct ReloadFailure {
    pub node_id: String,
    pub error: String,
}

/// What came of the attempt to have a node reload its configuration.
#[derive(Debug)]
pub enum ReloadAttempt {
    /// The agent of the node was not reached.
    ConnectFailed(String),
    /// The call to the agent failed.
    RpcFailed(String),
    /// The agent answered.
    Answered { success: bool, error: String },
}

impl ReloadAttempt {
    /// The error of an attempt that failed.
    pub open spec fn fault(self) -> Option<Seq<char>> {
        match self {
            ReloadAttempt::ConnectFailed(e) => Some("connect failed: "@ + e@),
            ReloadAttempt::RpcFailed(e) => Some("RPC failed: "@ + e@),
            ReloadAttempt::Answered { success, error } => if success {
                None
            } else {
                Some(error@)
            },
        }
    }
}

impl View for ReloadFailure {
    type V = (Seq<char>, Seq<char>);

    open spec fn view(&self) -> (Seq<char>, Seq<char>) {
        (self.node_id@, self.error@)
    }
}

impl ReloadAttempt {
    /// The error of an attempt that failed.
    pub fn error(&self) -> (r: Option<String>)
        ensures
            match self.fault() {
                Some(error) => r matches Some(e) && e@ == error,
                None => r is None,
            },
    {
        match self {
            ReloadAttempt::ConnectFailed(e) => Some(
                "connect failed: ".to_owned().concat(e.as_str()),
            ),
            ReloadAttempt::RpcFailed(e) => Some("RPC failed: ".to_owned().concat(e.as_str())),
            ReloadAttempt::Answered { success, error } => if *success {
                None
            } else {
                Some(error.clone())
            },
        }
    }
}

/// The nodes whose attempt succeeded, in order.
pub open spec fn successes(attempts: Seq<(String, ReloadAttempt)>) -> Seq<Seq<char>>
    decreases attempts.len(),
{
    if attempts.len() == 0 {
        Seq::empty()
    } else {
        let before = successes(attempts.drop_last());
        match attempts.last().1.fault() {
            None => before.push(attempts.last().0@),
            Some(_) => before,
        }
    }
}

/// The nodes whose attempt failed, in order, each with its error.
pub open spec fn failures(attempts: Seq<(String, ReloadAttempt)>) -> Seq<(Seq<char>, Seq<char>)>
    decreases attempts.len(),
{
    if attempts.len() == 0 {
        Seq::empty()
    } else {
        let before = failures(attempts.drop_last());
        match attempts.last().1.fault() {
            None => before,
            Some(error) => before.push((attempts.last().0@, error)),
        }
    }
}

/// Sums up the attempts on all nodes.
///
/// This lets operators update `pg_hba.conf` (or any GUC) and apply it without
/// restarting containers.  The call is fire-and-report: it attempts all nodes
/// and returns a summary of which succeeded and which failed.
pub fn reload_pg_hba(attempts: &Vec<(String, ReloadAttempt)>) -> (r: (u16, ReloadResponse))
    ensures
        views(r.1.reloaded@) == successes(attempts@),
        views(r.1.failed@) == failures(attempts@),
        r.0 == if failures(attempts@).len() == 0 {
            OK
        } else if successes(attempts@).len() == 0 {
            INTERNAL_SERVER_ERROR
        } else {
            MULTI_STATUS
        },
{
    let mut reloaded: Vec<String> = Vec::new();
    let mut failed: Vec<ReloadFailure> = Vec::new();
    assert(views(reloaded@) =~= Seq::<Seq<char>>::empty());
    assert(views(failed@) =~= Seq::<(Seq<char>, Seq<char>)>::empty());
    for i in 0..attempts.len()
        invariant
            views(reloaded@) == successes(attempts@.take(i as int)),
            views(failed@) == failures(attempts@.take(i as int)),
    {
        let node_id = attempts[i].0.clone();
        let ghost s = views(reloaded@);
        let ghost f = views(failed@);
        assert(attempts@.take(i + 1).drop_last() =~= attempts@.take(i as int));
        match attempts[i].1.error() {
            None => {
                reloaded.push(node_id);
                assert(views(reloaded@) =~= s.push(node_id@));
            },
            Some(error) => {
                failed.push(ReloadFailure { node_id, error });
                assert(views(failed@) =~= f.push((node_id@, error@)));
            },
        }
    }
    assert(attempts@.take(attempts@.len() as int) =~= attempts@);
    let status: u16 = if failed.len() == 0 {
        OK
    } else if reloaded.len() == 0 {
        INTERNAL_SERVER_ERROR
    } else {
        MULTI_STATUS
    };
    (status, ReloadResponse { reloaded, failed })
}

// ── Laws ─────────────────────────────────────────────────────────────────────

/// Every attempt is in the summary, as a success or as a failure.
pub proof fn lemma_every_attempt_counts(attempts: Seq<(String, ReloadAttempt)>)
    ensures
        successes(attempts).len() + failures(attempts).len() == attempts.len(),
    decreases attempts.len(),
{
    if attempts.len() > 0 {
        lemma_every_attempt_counts(attempts.drop_last());
    }
}

} // verus!
