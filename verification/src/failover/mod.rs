//! Automatic failover.
//!
//! A failover first makes a plan from the topology, then goes through its
//! phases. The caller performs the action of each phase and reports what came
//! of it.

pub mod candidate;
pub mod events;
pub mod laws;
pub mod promote;
pub mod repoint;
pub mod slots;

use crate::raft::commands::{CommandView, TopologyCommand};
use crate::raft::topology::{number_or, ClusterTopology, FailoverEvent, NodeRole, TopologyView};
use crate::table::{distinct_names, has_name, name_position, views};
use crate::text::{before_first, same_text, text_before_first};
use promote::{verify_promotion, verify_step, StatusReport, VerifyStep};
use vstd::prelude::*;
use vstd::string::StringExecFns;

verus! {

// ── Texts ────────────────────────────────────────────────────────────────────

/// The host in an address: what stands before the first colon.
pub fn host_of(addr: &str) -> (r: String)
    ensures
        r@ == before_first(addr@, ':'),
{
    text_before_first(addr, ':')
}

/// How a standby reaches its primary.
pub open spec fn conninfo_text(host: Seq<char>, user: Seq<char>, password: Seq<char>) -> Seq<char> {
    "host="@ + host + " port=5432 user="@ + user + " password="@ + password
}

/// How a standby reaches its primary.
pub fn primary_conninfo(host: &str, user: &str, password: &str) -> (r: String)
    ensures
        r@ == conninfo_text(host@, user@, password@),
{
    "host=".to_owned().concat(host).concat(" port=5432 user=").concat(user).concat(
        " password=",
    ).concat(password)
}

/// The URL of the administrative database on a node.
pub open spec fn url_text(user: Seq<char>, password: Seq<char>, addr: Seq<char>) -> Seq<char> {
    "postgres://"@ + user + ":"@ + password + "@"@ + addr + "/postgres"@
}

/// The URL of the administrative database on a node.
pub fn postgres_url(user: &str, password: &str, addr: &str) -> (r: String)
    ensures
        r@ == url_text(user@, password@, addr@),
{
    "postgres://".to_owned().concat(user).concat(":").concat(password).concat("@").concat(
        addr,
    ).concat("/postgres")
}

// ── The plan ─────────────────────────────────────────────────────────────────

/// A replica that is pointed to the new primary.
#[derive(Debug)]
pub struct RepointTarget {
    pub node_id: String,
    pub agent_addr: String,
}

/// What a [`RepointTarget`] stands for.
pub struct RepointTargetView {
    pub node_id: Seq<char>,
    pub agent_addr: Seq<char>,
}

impl View for RepointTarget {
    type V = RepointTargetView;

    open spec fn view(&self) -> RepointTargetView {
        RepointTargetView { node_id: self.node_id@, agent_addr: self.agent_addr@ }
    }
}

/// Everything that a failover does.
#[derive(Debug)]
pub struct FailoverPlan {
    pub failed_primary: String,
    pub candidate: String,
    /// The agent of the candidate.
    pub candidate_agent: String,
    /// The last known flush position of the candidate.
    pub at_lsn: u64,
    pub replicas: Vec<RepointTarget>,
    /// How the replicas reach the new primary.
    pub conninfo: String,
    /// The administrative database on the new primary.
    pub primary_url: String,
    pub slot_prefix: String,
}

/// Why a failover cannot be planned.
#[derive(Debug)]
pub enum FailoverAbort {
    /// No eligible replica was found.
    NoCandidate,
    /// The candidate is not configured.
    NoConfig(String),
}

/// Whether a node is pointed to the new primary: a configured replica, or a
/// node whose role is not known. A node may be `Unknown` right after bootstrap
/// or after a restart.
pub open spec fn is_repointed(
    t: TopologyView,
    failed: Seq<char>,
    candidate: Seq<char>,
    id: Seq<char>,
) -> bool {
    &&& t.node_configs.contains_key(id)
    &&& id != failed
    &&& id != candidate
    &&& !t.node_roles.contains_key(id) || t.node_roles[id] == NodeRole::Replica || t.node_roles[id]
        == NodeRole::Unknown
}

/// Whether a list holds every node that is pointed to the new primary once,
/// with the address of its agent.
pub open spec fn are_targets(
    t: TopologyView,
    failed: Seq<char>,
    candidate: Seq<char>,
    targets: Seq<RepointTargetView>,
) -> bool {
    &&& forall|i: int, j: int|
        0 <= i < j < targets.len() ==> (#[trigger] targets[i]).node_id != (
        #[trigger] targets[j]).node_id
    &&& forall|i: int|
        0 <= i < targets.len() ==> is_repointed(
            t,
            failed,
            candidate,
            (#[trigger] targets[i]).node_id,
        ) && targets[i].agent_addr == t.node_configs[targets[i].node_id].agent_addr
    &&& forall|id: Seq<char>| #[trigger]
        is_repointed(t, failed, candidate, id) ==> exists|i: int|
            0 <= i < targets.len() && (#[trigger] targets[i]).node_id == id
}

/// Whether a plan is right for a topology.
pub open spec fn is_plan(
    t: TopologyView,
    failed: Seq<char>,
    user: Seq<char>,
    password: Seq<char>,
    slot_prefix: Seq<char>,
    p: FailoverPlan,
) -> bool {
    let c = p.candidate@;
    let config = t.node_configs[c];
    &&& p.failed_primary@ == failed
    &&& t.is_best_candidate(failed, c)
    &&& t.node_configs.contains_key(c)
    &&& p.candidate_agent@ == config.agent_addr
    &&& p.at_lsn == t.flush_lsn(c)
    &&& p.conninfo@ == conninfo_text(before_first(config.postgres_addr, ':'), user, password)
    &&& p.primary_url@ == url_text(user, password, config.postgres_addr)
    &&& p.slot_prefix@ == slot_prefix
    &&& are_targets(t, failed, c, views(p.replicas@))
}

/// Whether `r` is the right answer to a failed primary: a plan, or why there is
/// none.
pub open spec fn is_planned(
    t: TopologyView,
    failed: Seq<char>,
    user: Seq<char>,
    password: Seq<char>,
    slot_prefix: Seq<char>,
    r: Result<FailoverPlan, FailoverAbort>,
) -> bool {
    match r {
        Ok(p) => is_plan(t, failed, user, password, slot_prefix, p),
        Err(FailoverAbort::NoCandidate) => forall|c: Seq<char>| !#[trigger]
            t.is_candidate(failed, c),
        Err(FailoverAbort::NoConfig(c)) => t.is_best_candidate(failed, c@)
            && !t.node_configs.contains_key(c@),
    }
}

/// The nodes that are pointed to the new primary.
pub fn repoint_targets(topology: &ClusterTopology, failed: &str, candidate: &str) -> (r: Vec<
    RepointTarget,
>)
    ensures
        are_targets(topology@, failed@, candidate@, views(r@)),
{
    let n = topology.node_configs.len();
    let ghost pairs = topology.node_configs.pairs();
    let ghost t = topology@;
    let mut out: Vec<RepointTarget> = Vec::new();
    for i in 0..n
        invariant
            n == pairs.len(),
            t == topology@,
            pairs == topology.node_configs.pairs(),
            distinct_names(pairs),
            forall|a: int, b: int|
                0 <= a < b < out@.len() ==> (#[trigger] views(out@)[a]).node_id != (
                #[trigger] views(out@)[b]).node_id,
            forall|a: int|
                0 <= a < out@.len() ==> is_repointed(
                    t,
                    failed@,
                    candidate@,
                    (#[trigger] views(out@)[a]).node_id,
                ) && views(out@)[a].agent_addr
                    == t.node_configs[views(out@)[a].node_id].agent_addr,
            forall|a: int, j: int|
                0 <= a < out@.len() && i <= j < n ==> (#[trigger] views(out@)[a]).node_id != (
                #[trigger] pairs[j]).0,
            forall|j: int|
                0 <= j < i && is_repointed(t, failed@, candidate@, (#[trigger] pairs[j]).0)
                    ==> exists|a: int|
                    0 <= a < out@.len() && (#[trigger] views(out@)[a]).node_id == pairs[j].0,
    {
        let id = topology.node_configs.name_at(i);
        let config = topology.node_configs.value_at(i);
        let eligible = match topology.node_roles.get(id.as_str()) {
            Some(role) => *role == NodeRole::Replica || *role == NodeRole::Unknown,
            None => true,
        };
        let ghost before = views(out@);
        if !same_text(id.as_str(), failed) && !same_text(id.as_str(), candidate) && eligible {
            let target = RepointTarget {
                node_id: id.clone(),
                agent_addr: config.agent_addr.clone(),
            };
            out.push(target);
            proof {
                assert(views(out@) =~= before.push(target@));
                assert forall|j: int|
                    0 <= j < i + 1 && is_repointed(
                        t,
                        failed@,
                        candidate@,
                        (#[trigger] pairs[j]).0,
                    ) implies exists|a: int|
                    0 <= a < out@.len() && (#[trigger] views(out@)[a]).node_id == pairs[j].0 by {
                    if j < i {
                        let a = choose|a: int|
                            0 <= a < before.len() && (#[trigger] before[a]).node_id == pairs[j].0;
                        assert(views(out@)[a] == before[a]);
                    } else {
                        assert(views(out@)[before.len() as int].node_id == pairs[j].0);
                    }
                }
                assert forall|a: int, j: int|
                    0 <= a < out@.len() && i + 1 <= j < n implies (
                #[trigger] views(out@)[a]).node_id != (#[trigger] pairs[j]).0 by {
                    if a < before.len() {
                        assert(views(out@)[a] == before[a]);
                    } else {
                        assert(pairs[i as int].0 != pairs[j].0);
                    }
                }
            }
        }
    }
    proof {
        assert forall|id: Seq<char>| #[trigger]
            is_repointed(t, failed@, candidate@, id) implies exists|a: int|
            0 <= a < out@.len() && (#[trigger] views(out@)[a]).node_id == id by {
            assert(has_name(pairs, id));
            let j = name_position(pairs, id);
            assert(pairs[j].0 == id);
        }
    }
    out
}

/// Plans the failover of a failed primary:
/// the best replica (highest LSN, then priority) replaces it, and all
/// remaining replicas follow the new primary.
pub fn plan_failover(
    topology: &ClusterTopology,
    failed_primary: &str,
    repl_user: &str,
    repl_password: &str,
    slot_prefix: &str,
) -> (r: Result<FailoverPlan, FailoverAbort>)
    ensures
        (r matches Err(FailoverAbort::NoCandidate)) <==> forall|c: Seq<char>|
            !#[trigger] topology@.is_candidate(failed_primary@, c),
        r matches Err(FailoverAbort::NoConfig(c)) ==> topology@.is_best_candidate(
            failed_primary@,
            c@,
        ) && !topology@.node_configs.contains_key(c@),
        r matches Ok(p) ==> is_plan(
            topology@,
            failed_primary@,
            repl_user@,
            repl_password@,
            slot_prefix@,
            p,
        ),
        is_planned(topology@, failed_primary@, repl_user@, repl_password@, slot_prefix@, r),
{
    let candidate = match candidate::pick_candidate(topology, failed_primary) {
        Some(c) => c,
        None => return Err(FailoverAbort::NoCandidate),
    };
    match topology.node_configs.get(candidate.as_str()) {
        None => Err(FailoverAbort::NoConfig(candidate)),
        Some(config) => {
            let host = host_of(config.postgres_addr.as_str());
            let at_lsn = number_or(&topology.last_flush_lsns, candidate.as_str(), 0);
            let replicas = repoint_targets(topology, failed_primary, candidate.as_str());
            Ok(
                FailoverPlan {
                    failed_primary: failed_primary.to_owned(),
                    candidate_agent: config.agent_addr.clone(),
                    at_lsn,
                    replicas,
                    conninfo: primary_conninfo(host.as_str(), repl_user, repl_password),
                    primary_url: postgres_url(
                        repl_user,
                        repl_password,
                        config.postgres_addr.as_str(),
                    ),
                    slot_prefix: slot_prefix.to_owned(),
                    candidate,
                },
            )
        },
    }
}

// ── The phases ───────────────────────────────────────────────────────────────

/// How often the status of the promoted node is asked for.
pub const VERIFY_ATTEMPTS: u32 = 3;

/// How long to wait between two status requests.
pub const VERIFY_INTERVAL_MS: u64 = 500;

/// How far a failover is.
#[derive(Debug, Clone, Copy, PartialEq, Eq, Structural)]
pub enum FailoverPhase {
    /// The candidate is being promoted.
    Promoting,
    /// The promotion is being verified, for the given time.
    Verifying(u32),
    /// The new primary is being announced.
    Announcing,
    /// The failover is being recorded.
    Recording,
    /// The replication slots are being created.
    EnsuringSlots,
    /// The replica at this position is being repointed.
    Repointing(usize),
    /// All is done.
    Finished,
    /// The candidate could not be promoted.
    PromoteFailed,
    /// The candidate did not become the primary.
    VerifyFailed,
}

/// What the caller reports.
#[derive(Debug, Clone, Copy, PartialEq, Eq, Structural)]
pub enum FailoverInput {
    /// The action was performed, successfully or not.
    Done(bool),
    /// The status of the candidate.
    Status(StatusReport),
}

/// What the caller has to do.
#[derive(Debug)]
pub enum FailoverAction {
    /// Send the Promote RPC.
    Promote { node_id: String, agent_addr: String },
    /// Wait the given time, then ask for the status.
    CheckStatus { node_id: String, agent_addr: String, wait_ms: u64 },
    /// Propose the command to Raft.
    Propose(TopologyCommand),
    /// Record the failover of one node to the other.
    Record { old_primary: String, new_primary: String, reason: String },
    /// Create the slots on the new primary.
    EnsureSlots { primary_url: String, slots: Vec<String> },
    /// Send the Demote RPC.
    Demote { node_id: String, agent_addr: String, conninfo: String, slot_name: String },
    /// The failover is complete.
    Finish,
    /// The failover was given up.
    Abort,
}

/// The phase that a failover begins with.
pub open spec fn first_phase() -> FailoverPhase {
    FailoverPhase::Promoting
}

/// The phase that follows.
pub open spec fn next_phase(replicas: int, phase: FailoverPhase, input: FailoverInput) -> FailoverPhase {
    match (phase, input) {
        (FailoverPhase::Promoting, FailoverInput::Done(ok)) => if ok {
            FailoverPhase::Verifying(1)
        } else {
            FailoverPhase::PromoteFailed
        },
        (FailoverPhase::Verifying(attempt), FailoverInput::Status(report)) => match verify_step(
            attempt,
            VERIFY_ATTEMPTS,
            report,
        ) {
            VerifyStep::Passed => FailoverPhase::Announcing,
            VerifyStep::Retry => FailoverPhase::Verifying((attempt + 1) as u32),
            _ => FailoverPhase::VerifyFailed,
        },
        (FailoverPhase::Announcing, FailoverInput::Done(_)) => FailoverPhase::Recording,
        (FailoverPhase::Recording, FailoverInput::Done(_)) => if replicas == 0 {
            FailoverPhase::Finished
        } else {
            FailoverPhase::EnsuringSlots
        },
        (FailoverPhase::EnsuringSlots, FailoverInput::Done(_)) => FailoverPhase::Repointing(0),
        (FailoverPhase::Repointing(i), FailoverInput::Done(_)) => if i + 1 < replicas {
            FailoverPhase::Repointing((i + 1) as usize)
        } else {
            FailoverPhase::Finished
        },
        _ => phase,
    }
}

/// Whether an action is the one of a phase.
pub open spec fn is_action(p: FailoverPlan, phase: FailoverPhase, a: FailoverAction) -> bool {
    match phase {
        FailoverPhase::Promoting => a matches FailoverAction::Promote { node_id, agent_addr }
            && node_id@ == p.candidate@ && agent_addr@ == p.candidate_agent@,
        FailoverPhase::Verifying(attempt) => a matches FailoverAction::CheckStatus {
            node_id,
            agent_addr,
            wait_ms,
        } && node_id@ == p.candidate@ && agent_addr@ == p.candidate_agent@ && wait_ms
            == if attempt <= 1 {
            0
        } else {
            VERIFY_INTERVAL_MS
        },
        FailoverPhase::Announcing => a matches FailoverAction::Propose(cmd) && cmd@
            == (CommandView::SetPrimary {
            node_id: p.candidate@,
            at_lsn: p.at_lsn,
            new_timeline: 1,
        }),
        FailoverPhase::Recording => a matches FailoverAction::Record {
            old_primary,
            new_primary,
            reason,
        } && old_primary@ == p.failed_primary@ && new_primary@ == p.candidate@ && reason@
            == "health_check_failure"@,
        FailoverPhase::EnsuringSlots => a matches FailoverAction::EnsureSlots {
            primary_url,
            slots,
        } && primary_url@ == p.primary_url@ && slots@.len() == p.replicas@.len() && forall|i: int|
            0 <= i < slots@.len() ==> (#[trigger] slots@[i])@ == p.slot_prefix@
                + p.replicas@[i].node_id@,
        FailoverPhase::Repointing(i) => a matches FailoverAction::Demote {
            node_id,
            agent_addr,
            conninfo,
            slot_name,
        } && node_id@ == p.replicas@[i as int].node_id@ && agent_addr@
            == p.replicas@[i as int].agent_addr@ && conninfo@ == p.conninfo@ && slot_name@
            == p.slot_prefix@ + p.replicas@[i as int].node_id@,
        FailoverPhase::Finished => a is Finish,
        FailoverPhase::PromoteFailed | FailoverPhase::VerifyFailed => a is Abort,
    }
}

/// A failover in progress.
#[derive(Debug)]
pub struct Failover {
    plan: FailoverPlan,
    phase: FailoverPhase,
}

impl Failover {
    /// What the failover does.
    pub closed spec fn plan(&self) -> FailoverPlan {
        self.plan
    }

    /// How far the failover is.
    pub closed spec fn phase(&self) -> FailoverPhase {
        self.phase
    }

    /// Whether the phase fits the plan.
    #[verifier::type_invariant]
    spec fn in_range(&self) -> bool {
        &&& self.phase matches FailoverPhase::Repointing(i) ==> i < self.plan.replicas@.len()
        &&& self.phase matches FailoverPhase::EnsuringSlots ==> self.plan.replicas@.len() > 0
        &&& self.phase matches FailoverPhase::Verifying(k) ==> k <= VERIFY_ATTEMPTS
    }

    /// Starts a failover.
    pub fn start(plan: FailoverPlan) -> (r: (Self, FailoverAction))
        ensures
            r.0.plan() == plan,
            r.0.phase() == FailoverPhase::Promoting,
            r.0.phase() == first_phase(),
            is_action(plan, FailoverPhase::Promoting, r.1),
    {
        let f = Failover { plan, phase: FailoverPhase::Promoting };
        let action = f.action();
        (f, action)
    }

    /// How far the failover is.
    pub fn current_phase(&self) -> (r: FailoverPhase)
        ensures
            r == self.phase(),
    {
        self.phase
    }

    /// What the caller has to do in the current phase.
    pub fn action(&self) -> (r: FailoverAction)
        ensures
            is_action(self.plan(), self.phase(), r),
    {
        proof {
            use_type_invariant(self);
        }
        let p = &self.plan;
        match self.phase {
            FailoverPhase::Promoting => FailoverAction::Promote {
                node_id: p.candidate.clone(),
                agent_addr: p.candidate_agent.clone(),
            },
            FailoverPhase::Verifying(attempt) => FailoverAction::CheckStatus {
                node_id: p.candidate.clone(),
                agent_addr: p.candidate_agent.clone(),
                wait_ms: if attempt <= 1 {
                    0
                } else {
                    VERIFY_INTERVAL_MS
                },
            },
            // The timeline will be refreshed by the next health-check poll.
            FailoverPhase::Announcing => FailoverAction::Propose(
                TopologyCommand::SetPrimary {
                    node_id: p.candidate.clone(),
                    at_lsn: p.at_lsn,
                    new_timeline: 1,
                },
            ),
            FailoverPhase::Recording => FailoverAction::Record {
                old_primary: p.failed_primary.clone(),
                new_primary: p.candidate.clone(),
                reason: "health_check_failure".to_owned(),
            },
            FailoverPhase::EnsuringSlots => {
                let mut slots: Vec<String> = Vec::new();
                for i in 0..p.replicas.len()
                    invariant
                        slots@.len() == i,
                        forall|j: int|
                            0 <= j < i ==> (#[trigger] slots@[j])@ == p.slot_prefix@
                                + p.replicas@[j].node_id@,
                {
                    slots.push(
                        slots::slot_name(p.slot_prefix.as_str(), p.replicas[i].node_id.as_str()),
                    );
                }
                FailoverAction::EnsureSlots { primary_url: p.primary_url.clone(), slots }
            },
            FailoverPhase::Repointing(i) => FailoverAction::Demote {
                node_id: p.replicas[i].node_id.clone(),
                agent_addr: p.replicas[i].agent_addr.clone(),
                conninfo: p.conninfo.clone(),
                slot_name: slots::slot_name(
                    p.slot_prefix.as_str(),
                    p.replicas[i].node_id.as_str(),
                ),
            },
            FailoverPhase::Finished => FailoverAction::Finish,
            FailoverPhase::PromoteFailed | FailoverPhase::VerifyFailed => FailoverAction::Abort,
        }
    }

    /// Goes on with what came of the last action. A failed promotion ends the
    /// failover. After the promotion took effect nothing does: a proposal that
    /// fails is still recorded, and a replica that cannot be repointed is
    /// passed over.
    pub fn step(&mut self, input: FailoverInput) -> (r: FailoverAction)
        ensures
            final(self).plan() == old(self).plan(),
            final(self).phase() == next_phase(
                old(self).plan().replicas@.len() as int,
                old(self).phase(),
                input,
            ),
            is_action(final(self).plan(), final(self).phase(), r),
    {
        proof {
            use_type_invariant(&*self);
        }
        let n: usize = self.plan.replicas.len();
        let phase = self.phase;
        let next = match input {
            FailoverInput::Done(ok) => match phase {
                FailoverPhase::Promoting => if ok {
                    FailoverPhase::Verifying(1)
                } else {
                    FailoverPhase::PromoteFailed
                },
                FailoverPhase::Announcing => FailoverPhase::Recording,
                FailoverPhase::Recording => if n == 0 {
                    FailoverPhase::Finished
                } else {
                    FailoverPhase::EnsuringSlots
                },
                FailoverPhase::EnsuringSlots => FailoverPhase::Repointing(0),
                FailoverPhase::Repointing(i) => if i + 1 < n {
                    FailoverPhase::Repointing(i + 1)
                } else {
                    FailoverPhase::Finished
                },
                _ => phase,
            },
            FailoverInput::Status(report) => match phase {
                FailoverPhase::Verifying(attempt) => match verify_promotion(
                    attempt,
                    VERIFY_ATTEMPTS,
                    report,
                ) {
                    VerifyStep::Passed => FailoverPhase::Announcing,
                    VerifyStep::Retry => FailoverPhase::Verifying(attempt + 1),
                    _ => FailoverPhase::VerifyFailed,
                },
                _ => phase,
            },
        };
        self.phase = next;
        self.action()
    }
}

/// The command that records a failover.
pub fn record_command(event: &FailoverEvent) -> (r: TopologyCommand)
    ensures
        r@ == (CommandView::RecordFailover {
            old_primary: event@.old_primary,
            new_primary: event@.new_primary,
            triggered_at: event@.triggered_at,
            duration_ms: event@.duration_ms,
            reason: event@.reason,
        }),
{
    TopologyCommand::RecordFailover {
        old_primary: event.old_primary.clone(),
        new_primary: event.new_primary.clone(),
        triggered_at: event.triggered_at,
        duration_ms: event.duration_ms,
        reason: event.reason.clone(),
    }
}

// ── Laws ─────────────────────────────────────────────────────────────────────

/// The phase after a sequence of reports.
pub open spec fn run(replicas: int, phase: FailoverPhase, inputs: Seq<FailoverInput>) -> FailoverPhase
    decreases inputs.len(),
{
    if inputs.len() == 0 {
        phase
    } else {
        next_phase(replicas, run(replicas, phase, inputs.drop_last()), inputs.last())
    }
}

/// Whether the new primary may have been announced.
pub open spec fn announced(phase: FailoverPhase) -> bool {
    match phase {
        FailoverPhase::Promoting
        | FailoverPhase::Verifying(_)
        | FailoverPhase::PromoteFailed
        | FailoverPhase::VerifyFailed => false,
        _ => true,
    }
}

/// Whether a promotion was reported as successful.
pub open spec fn promotion_reported(inputs: Seq<FailoverInput>) -> bool {
    exists|i: int| 0 <= i < inputs.len() && #[trigger] inputs[i] == FailoverInput::Done(true)
}

/// Whether the candidate was reported as the primary.
pub open spec fn primary_reported(inputs: Seq<FailoverInput>) -> bool {
    exists|i: int|
        0 <= i < inputs.len() && (#[trigger] inputs[i] matches FailoverInput::Status(report)
            && report.is_primary())
}

proof fn lemma_reports_stay(inputs: Seq<FailoverInput>)
    requires
        inputs.len() > 0,
    ensures
        promotion_reported(inputs.drop_last()) ==> promotion_reported(inputs),
        primary_reported(inputs.drop_last()) ==> primary_reported(inputs),
{
    let front = inputs.drop_last();
    if promotion_reported(front) {
        let i = choose|i: int|
            0 <= i < front.len() && #[trigger] front[i] == FailoverInput::Done(true);
        assert(inputs[i] == FailoverInput::Done(true));
    }
    if primary_reported(front) {
        let i = choose|i: int|
            0 <= i < front.len() && (#[trigger] front[i] matches FailoverInput::Status(report)
                && report.is_primary());
        assert(inputs[i] == front[i]);
    }
}

/// No new primary is announced unless the agent confirmed its promotion and
/// its status showed that it is no longer in recovery.
pub proof fn lemma_announcement_needs_promotion(replicas: int, inputs: Seq<FailoverInput>)
    ensures
        announced(run(replicas, FailoverPhase::Promoting, inputs)) ==> promotion_reported(inputs)
            && primary_reported(inputs),
        run(replicas, FailoverPhase::Promoting, inputs) is Verifying ==> promotion_reported(inputs),
    decreases inputs.len(),
{
    if inputs.len() > 0 {
        let front = inputs.drop_last();
        lemma_announcement_needs_promotion(replicas, front);
        lemma_reports_stay(inputs);
        let before = run(replicas, FailoverPhase::Promoting, front);
        let after = run(replicas, FailoverPhase::Promoting, inputs);
        let last = inputs.last();
        assert(inputs[inputs.len() - 1] == last);
        if before == FailoverPhase::Promoting && after is Verifying {
            assert(last == FailoverInput::Done(true));
        }
    }
}

/// Once the new primary may have been announced, the failover is not given
/// up any more.
pub proof fn lemma_announced_failover_completes(
    replicas: int,
    phase: FailoverPhase,
    input: FailoverInput,
)
    requires
        announced(phase),
    ensures
        announced(next_phase(replicas, phase, input)),
{
}

/// The remaining actions of an announced failover.
pub open spec fn remaining(replicas: int, phase: FailoverPhase) -> int {
    match phase {
        FailoverPhase::Announcing => 3 + replicas,
        FailoverPhase::Recording => 2 + replicas,
        FailoverPhase::EnsuringSlots => 1 + replicas,
        FailoverPhase::Repointing(i) => replicas - i,
        _ => 0,
    }
}

/// Every performed action brings an announced failover closer to its end, so
/// that every remaining replica is repointed.
pub proof fn lemma_announced_failover_ends(replicas: int, phase: FailoverPhase, ok: bool)
    requires
        0 <= replicas <= usize::MAX,
        announced(phase),
        phase != FailoverPhase::Finished,
        phase matches FailoverPhase::Repointing(i) ==> i < replicas,
        phase == FailoverPhase::EnsuringSlots ==> replicas > 0,
    ensures
        0 <= remaining(replicas, next_phase(replicas, phase, FailoverInput::Done(ok)))
            < remaining(replicas, phase),
{
}

} // verus!
