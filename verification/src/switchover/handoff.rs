//! The hand-off from one primary to another.
//!
//! A hand-off first makes a plan from the topology, then goes through its
//! phases. The caller performs the action of each phase and reports what came
//! of it.

use crate::failover::slots::slot_name;
use crate::failover::{conninfo_text, host_of, primary_conninfo};
use crate::raft::commands::{CommandView, TopologyCommand};
use crate::raft::topology::{number_or, ClusterTopology, TopologyView};
use crate::text::before_first;
use vstd::prelude::*;
use vstd::string::StringExecFns;

verus! {

// ── The plan ─────────────────────────────────────────────────────────────────

/// Everything that a hand-off does.
#[derive(Debug)]
pub struct HandoffPlan {
    pub old_primary: String,
    pub old_agent: String,
    pub new_primary: String,
    pub new_agent: String,
    /// The last known flush position of the new primary.
    pub at_lsn: u64,
    /// How the old primary reaches the new one.
    pub conninfo: String,
    /// The replication slot of the old primary.
    pub slot_name: String,
    /// How long clients are sent away before the hand-off begins; `None` if
    /// there is no proxy on this node.
    pub drain_ms: Option<u64>,
}

/// Why a hand-off cannot be planned.
#[derive(Debug)]
pub enum HandoffError {
    OldPrimaryMissing(String),
    NewPrimaryMissing(String),
}

impl HandoffError {
    /// The message for the operator.
    pub open spec fn text(self) -> Seq<char> {
        match self {
            HandoffError::OldPrimaryMissing(id) => "old primary '"@ + id@
                + "' not found in topology"@,
            HandoffError::NewPrimaryMissing(id) => "new primary '"@ + id@
                + "' not found in topology"@,
        }
    }

    /// The message for the operator.
    pub fn message(&self) -> (r: String)
        ensures
            r@ == self.text(),
    {
        match self {
            HandoffError::OldPrimaryMissing(id) => "old primary '".to_owned().concat(
                id.as_str(),
            ).concat("' not found in topology"),
            HandoffError::NewPrimaryMissing(id) => "new primary '".to_owned().concat(
                id.as_str(),
            ).concat("' not found in topology"),
        }
    }
}

/// Whether a plan is right for a topology.
pub open spec fn is_handoff(
    t: TopologyView,
    new_primary: Seq<char>,
    user: Seq<char>,
    password: Seq<char>,
    drain_ms: Option<u64>,
    slot_prefix: Seq<char>,
    p: HandoffPlan,
) -> bool {
    let old_config = t.node_configs[t.primary_node_id];
    let new_config = t.node_configs[new_primary];
    &&& p.old_primary@ == t.primary_node_id
    &&& p.old_agent@ == old_config.agent_addr
    &&& p.new_primary@ == new_primary
    &&& p.new_agent@ == new_config.agent_addr
    &&& p.at_lsn == t.flush_lsn(new_primary)
    &&& p.conninfo@ == conninfo_text(before_first(new_config.postgres_addr, ':'), user, password)
    &&& p.slot_name@ == slot_prefix + t.primary_node_id
    &&& p.drain_ms == drain_ms
}

/// Whether `r` is the right answer to a request for a hand-off: a plan, or which
/// node is missing.
pub open spec fn is_handoff_answer(
    t: TopologyView,
    new_primary: Seq<char>,
    user: Seq<char>,
    password: Seq<char>,
    drain_ms: Option<u64>,
    slot_prefix: Seq<char>,
    r: Result<HandoffPlan, HandoffError>,
) -> bool {
    if !t.node_configs.contains_key(t.primary_node_id) {
        r matches Err(HandoffError::OldPrimaryMissing(id)) && id@ == t.primary_node_id
    } else if !t.node_configs.contains_key(new_primary) {
        r matches Err(HandoffError::NewPrimaryMissing(id)) && id@ == new_primary
    } else {
        r matches Ok(p) && is_handoff(t, new_primary, user, password, drain_ms, slot_prefix, p)
    }
}

/// Plans a planned (operator-initiated) switchover from the current primary
/// to `new_primary_id`.
///
/// The caller is responsible for ensuring the replica is sufficiently in sync
/// (see `lag_wait::wait_for_replica_sync`).
pub fn plan_switchover(
    topology: &ClusterTopology,
    new_primary_id: &str,
    replication_user: &str,
    replication_password: &str,
    drain_ms: Option<u64>,
    slot_prefix: &str,
) -> (r: Result<HandoffPlan, HandoffError>)
    ensures
        match r {
            Err(HandoffError::OldPrimaryMissing(id)) => id@ == topology@.primary_node_id
                && !topology@.node_configs.contains_key(topology@.primary_node_id),
            Err(HandoffError::NewPrimaryMissing(id)) => id@ == new_primary_id@
                && topology@.node_configs.contains_key(topology@.primary_node_id)
                && !topology@.node_configs.contains_key(new_primary_id@),
            Ok(p) => {
                &&& topology@.node_configs.contains_key(topology@.primary_node_id)
                &&& topology@.node_configs.contains_key(new_primary_id@)
                &&& is_handoff(
                    topology@,
                    new_primary_id@,
                    replication_user@,
                    replication_password@,
                    drain_ms,
                    slot_prefix@,
                    p,
                )
            },
        },
        is_handoff_answer(
            topology@,
            new_primary_id@,
            replication_user@,
            replication_password@,
            drain_ms,
            slot_prefix@,
            r,
        ),
{
    let old_config = match topology.node_configs.get(topology.primary_node_id.as_str()) {
        Some(c) => c,
        None => {
            return Err(HandoffError::OldPrimaryMissing(topology.primary_node_id.clone()));
        },
    };
    let new_config = match topology.node_configs.get(new_primary_id) {
        Some(c) => c,
        None => return Err(HandoffError::NewPrimaryMissing(new_primary_id.to_owned())),
    };
    let host = host_of(new_config.postgres_addr.as_str());
    Ok(
        HandoffPlan {
            old_primary: topology.primary_node_id.clone(),
            old_agent: old_config.agent_addr.clone(),
            new_primary: new_primary_id.to_owned(),
            new_agent: new_config.agent_addr.clone(),
            at_lsn: number_or(&topology.last_flush_lsns, new_primary_id, 0),
            conninfo: primary_conninfo(host.as_str(), replication_user, replication_password),
            slot_name: slot_name(slot_prefix, topology.primary_node_id.as_str()),
            drain_ms,
        },
    )
}

// ── The phases ───────────────────────────────────────────────────────────────

/// How far a hand-off is.
#[derive(Debug, Clone, Copy, PartialEq, Eq, Structural)]
pub enum HandoffPhase {
    /// Clients are being sent away.
    Draining,
    /// The old primary is being demoted.
    Demoting,
    /// The new primary is being promoted.
    Promoting,
    /// The new primary is being announced.
    Announcing,
    /// The old primary is being pointed to the new one.
    Repointing,
    /// All is done.
    Finished,
    /// The hand-off was given up.
    Failed,
}

/// What the caller reports.
#[derive(Debug)]
pub enum HandoffInput {
    /// The action was performed.
    Done,
    /// The action failed.
    Error(String),
    /// An agent refused.
    Refused(String),
}

/// What the caller has to do.
#[derive(Debug)]
pub enum HandoffAction {
    /// Send clients away, and wait.
    Drain { wait_ms: u64 },
    /// Send the Demote RPC.
    Demote { node_id: String, agent_addr: String, conninfo: String, slot_name: String },
    /// Send the Promote RPC.
    Promote { node_id: String, agent_addr: String },
    /// Propose the command to Raft.
    Propose(TopologyCommand),
    /// The hand-off is complete; clients are let in again.
    Finish,
    /// The hand-off was given up for this reason; clients are let in again.
    Fail(String),
}

/// The phase that a hand-off begins with: clients are sent away first if there
/// is a proxy.
pub open spec fn first_phase(p: HandoffPlan) -> HandoffPhase {
    if p.drain_ms is Some {
        HandoffPhase::Draining
    } else {
        HandoffPhase::Demoting
    }
}

/// The phase that follows. Only a failure to repoint the old primary is passed
/// over: it can be repointed manually.
pub open spec fn next_phase(phase: HandoffPhase, ok: bool) -> HandoffPhase {
    match phase {
        HandoffPhase::Draining => HandoffPhase::Demoting,
        HandoffPhase::Demoting => if ok {
            HandoffPhase::Promoting
        } else {
            HandoffPhase::Failed
        },
        HandoffPhase::Promoting => if ok {
            HandoffPhase::Announcing
        } else {
            HandoffPhase::Failed
        },
        HandoffPhase::Announcing => if ok {
            HandoffPhase::Repointing
        } else {
            HandoffPhase::Failed
        },
        HandoffPhase::Repointing => HandoffPhase::Finished,
        HandoffPhase::Finished => HandoffPhase::Finished,
        HandoffPhase::Failed => HandoffPhase::Failed,
    }
}

/// The text of the failure of a phase.
pub open spec fn failure_text(p: HandoffPlan, phase: HandoffPhase, input: HandoffInput) -> Seq<
    char,
> {
    match (phase, input) {
        (HandoffPhase::Demoting, HandoffInput::Refused(e)) =>
            "demote RPC failed for old primary "@ + p.old_primary@ + ": "@ + e@,
        (HandoffPhase::Promoting, HandoffInput::Refused(e)) =>
            "promote RPC failed for new primary "@ + p.new_primary@ + ": "@ + e@,
        (HandoffPhase::Announcing, HandoffInput::Error(e)) => "Raft propose SetPrimary: "@ + e@,
        (HandoffPhase::Announcing, HandoffInput::Refused(e)) => "Raft propose SetPrimary: "@ + e@,
        (_, HandoffInput::Error(e)) => e@,
        (_, HandoffInput::Refused(e)) => e@,
        (_, HandoffInput::Done) => Seq::empty(),
    }
}

/// Whether an action is the one of a phase.
pub open spec fn is_action(p: HandoffPlan, phase: HandoffPhase, a: HandoffAction) -> bool {
    match phase {
        HandoffPhase::Draining => a matches HandoffAction::Drain { wait_ms } && Some(wait_ms)
            == p.drain_ms,
        HandoffPhase::Demoting | HandoffPhase::Repointing => a matches HandoffAction::Demote {
            node_id,
            agent_addr,
            conninfo,
            slot_name,
        } && node_id@ == p.old_primary@ && agent_addr@ == p.old_agent@ && conninfo@ == p.conninfo@
            && slot_name@ == p.slot_name@,
        HandoffPhase::Promoting => a matches HandoffAction::Promote { node_id, agent_addr }
            && node_id@ == p.new_primary@ && agent_addr@ == p.new_agent@,
        HandoffPhase::Announcing => a matches HandoffAction::Propose(cmd) && cmd@
            == (CommandView::SetPrimary {
            node_id: p.new_primary@,
            at_lsn: p.at_lsn,
            new_timeline: 0,
        }),
        HandoffPhase::Finished => a is Finish,
        HandoffPhase::Failed => a is Fail,
    }
}

/// A hand-off in progress.
#[derive(Debug)]
pub struct Handoff {
    plan: HandoffPlan,
    phase: HandoffPhase,
    failure: String,
}

impl Handoff {
    /// What the hand-off does.
    pub closed spec fn plan(&self) -> HandoffPlan {
        self.plan
    }

    /// How far the hand-off is.
    pub closed spec fn phase(&self) -> HandoffPhase {
        self.phase
    }

    /// Why the hand-off was given up.
    pub closed spec fn failure(&self) -> Seq<char> {
        self.failure@
    }

    /// Whether the phase fits the plan.
    #[verifier::type_invariant]
    spec fn in_range(&self) -> bool {
        self.phase == HandoffPhase::Draining ==> self.plan.drain_ms is Some
    }

    /// Starts a hand-off: clients are sent away first if there is a proxy.
    pub fn start(plan: HandoffPlan) -> (r: (Self, HandoffAction))
        ensures
            r.0.plan() == plan,
            r.0.phase() == if plan.drain_ms is Some {
                HandoffPhase::Draining
            } else {
                HandoffPhase::Demoting
            },
            r.0.phase() == first_phase(plan),
            is_action(plan, r.0.phase(), r.1),
    {
        let phase = match plan.drain_ms {
            Some(_) => HandoffPhase::Draining,
            None => HandoffPhase::Demoting,
        };
        let h = Handoff { plan, phase, failure: String::new() };
        let action = h.action();
        (h, action)
    }

    /// What the caller has to do in the current phase.
    pub fn action(&self) -> (r: HandoffAction)
        ensures
            is_action(self.plan(), self.phase(), r),
            r matches HandoffAction::Fail(e) ==> e@ == self.failure(),
    {
        proof {
            use_type_invariant(self);
        }
        let p = &self.plan;
        match self.phase {
            HandoffPhase::Draining => HandoffAction::Drain {
                wait_ms: match p.drain_ms {
                    Some(ms) => ms,
                    None => 0,
                },
            },
            HandoffPhase::Demoting | HandoffPhase::Repointing => HandoffAction::Demote {
                node_id: p.old_primary.clone(),
                agent_addr: p.old_agent.clone(),
                conninfo: p.conninfo.clone(),
                slot_name: p.slot_name.clone(),
            },
            HandoffPhase::Promoting => HandoffAction::Promote {
                node_id: p.new_primary.clone(),
                agent_addr: p.new_agent.clone(),
            },
            // The timeline is updated by the next health-check poll.
            HandoffPhase::Announcing => HandoffAction::Propose(
                TopologyCommand::SetPrimary {
                    node_id: p.new_primary.clone(),
                    at_lsn: p.at_lsn,
                    new_timeline: 0,
                },
            ),
            HandoffPhase::Finished => HandoffAction::Finish,
            HandoffPhase::Failed => HandoffAction::Fail(self.failure.clone()),
        }
    }

    /// Goes on with what came of the last action.
    pub fn step(&mut self, input: HandoffInput) -> (r: HandoffAction)
        ensures
            final(self).plan() == old(self).plan(),
            final(self).phase() == next_phase(old(self).phase(), input is Done),
            is_action(final(self).plan(), final(self).phase(), r),
            final(self).phase() == HandoffPhase::Failed && old(self).phase()
                != HandoffPhase::Failed ==> (r matches HandoffAction::Fail(e) && e@
                == failure_text(old(self).plan(), old(self).phase(), input)),
            old(self).phase() == HandoffPhase::Failed ==> final(self).failure()
                == old(self).failure(),
            r matches HandoffAction::Fail(e) ==> e@ == final(self).failure(),
    {
        proof {
            use_type_invariant(&*self);
        }
        let phase = self.phase;
        let ok = match &input {
            HandoffInput::Done => true,
            _ => false,
        };
        let next = match phase {
            HandoffPhase::Draining => HandoffPhase::Demoting,
            HandoffPhase::Demoting => if ok {
                HandoffPhase::Promoting
            } else {
                HandoffPhase::Failed
            },
            HandoffPhase::Promoting => if ok {
                HandoffPhase::Announcing
            } else {
                HandoffPhase::Failed
            },
            HandoffPhase::Announcing => if ok {
                HandoffPhase::Repointing
            } else {
                HandoffPhase::Failed
            },
            HandoffPhase::Repointing => HandoffPhase::Finished,
            HandoffPhase::Finished => HandoffPhase::Finished,
            HandoffPhase::Failed => HandoffPhase::Failed,
        };
        let failed = match (phase, next) {
            (HandoffPhase::Failed, _) => false,
            (_, HandoffPhase::Failed) => true,
            _ => false,
        };
        if failed {
            self.failure = match (phase, input) {
                (HandoffPhase::Demoting, HandoffInput::Refused(e)) =>
                    "demote RPC failed for old primary ".to_owned().concat(
                    self.plan.old_primary.as_str(),
                ).concat(": ").concat(e.as_str()),
                (HandoffPhase::Promoting, HandoffInput::Refused(e)) =>
                    "promote RPC failed for new primary ".to_owned().concat(
                    self.plan.new_primary.as_str(),
                ).concat(": ").concat(e.as_str()),
                (HandoffPhase::Announcing, HandoffInput::Error(e)) =>
                    "Raft propose SetPrimary: ".to_owned().concat(e.as_str()),
                (HandoffPhase::Announcing, HandoffInput::Refused(e)) =>
                    "Raft propose SetPrimary: ".to_owned().concat(e.as_str()),
                (_, HandoffInput::Error(e)) => e,
                (_, HandoffInput::Refused(e)) => e,
                (_, HandoffInput::Done) => String::new(),
            };
        }
        self.phase = next;
        self.action()
    }
}

// ── Laws ─────────────────────────────────────────────────────────────────────

/// The phase after a sequence of reports, each of them a success or not.
pub open spec fn run(phase: HandoffPhase, reports: Seq<bool>) -> HandoffPhase
    decreases reports.len(),
{
    if reports.len() == 0 {
        phase
    } else {
        run(next_phase(phase, reports[0]), reports.skip(1))
    }
}

/// The new primary is promoted only after the old one was demoted, and it is
/// announced only after it was promoted: each phase is entered from the one
/// before it, and only on success.
pub proof fn lemma_one_primary_at_a_time(phase: HandoffPhase, ok: bool)
    ensures
        next_phase(phase, ok) == HandoffPhase::Promoting ==> phase == HandoffPhase::Demoting && ok,
        next_phase(phase, ok) == HandoffPhase::Announcing ==> phase == HandoffPhase::Promoting
            && ok,
        next_phase(phase, ok) == HandoffPhase::Repointing ==> phase == HandoffPhase::Announcing
            && ok,
        next_phase(phase, ok) == HandoffPhase::Finished && phase != HandoffPhase::Finished
            ==> phase == HandoffPhase::Repointing,
{
}

/// If every step succeeds, the hand-off is complete after the drain, the
/// demotion, the promotion, the announcement and the repointing.
pub proof fn lemma_handoff_completes(reports: Seq<bool>)
    requires
        reports.len() == 5,
        forall|i: int| 0 <= i < reports.len() ==> #[trigger] reports[i],
    ensures
        run(HandoffPhase::Draining, reports) == HandoffPhase::Finished,
{
    reveal_with_fuel(run, 6);
    assert(reports[0] && reports[1] && reports[2] && reports[3] && reports[4]);
    assert(reports.skip(1)[0] == reports[1]);
    assert(reports.skip(1).skip(1)[0] == reports[2]);
    assert(reports.skip(1).skip(1).skip(1)[0] == reports[3]);
    assert(reports.skip(1).skip(1).skip(1).skip(1)[0] == reports[4]);
}

} // verus!
