//! Maintenance mode.

use super::{BAD_REQUEST, INTERNAL_SERVER_ERROR, NOT_FOUND, OK};
use crate::raft::commands::{CommandView, TopologyCommand};
use crate::raft::topology::{ClusterTopology, NodeRole, TopologyView};
use crate::text::same_text;
use vstd::prelude::*;
use vstd::string::StringExecFns;

verus! {

/// Whether a node changed its mode.
#[derive(Debug)]
pub struct MaintenanceResponse {
    pub success: bool,
    pub message: String,
}

impl View for MaintenanceResponse {
    type V = (bool, Seq<char>);

    open spec fn view(&self) -> (bool, Seq<char>) {
        (self.success, self.message@)
    }
}

/// What follows from a request: a command to write, or an answer.
#[derive(Debug)]
pub enum Decision {
    Write(TopologyCommand),
    Answer(u16, MaintenanceResponse),
}

/// What a [`Decision`] stands for.
pub enum DecisionView {
    Write(CommandView),
    Answer(u16, (bool, Seq<char>)),
}

impl View for Decision {
    type V = DecisionView;

    open spec fn view(&self) -> DecisionView {
        match self {
            Decision::Write(c) => DecisionView::Write(c@),
            Decision::Answer(status, response) => DecisionView::Answer(*status, response@),
        }
    }
}

fn refusal(status: u16, message: String) -> (r: Decision)
    ensures
        r@ == DecisionView::Answer(status, (false, message@)),
{
    Decision::Answer(status, MaintenanceResponse { success: false, message })
}

/// What follows from a request to put a node into maintenance mode.
pub open spec fn entering(t: TopologyView, node_id: Seq<char>) -> DecisionView {
    if !t.node_configs.dom().contains(node_id) {
        DecisionView::Answer(NOT_FOUND, (false, "node "@ + node_id + " not found"@))
    } else if t.primary_node_id == node_id {
        DecisionView::Answer(
            BAD_REQUEST,
            (false, "cannot put the current primary into maintenance — switchover first"@),
        )
    } else {
        DecisionView::Write(CommandView::MarkMaintenance { node_id })
    }
}

/// Put a node into maintenance mode — it will be excluded from failover
/// candidates and health-check failures will not trigger automatic failover.
pub fn enter_maintenance(topology: &ClusterTopology, node_id: &str) -> (r: Decision)
    ensures
        r@ == entering(topology@, node_id@),
{
    if !topology.node_configs.contains_key(node_id) {
        return refusal(NOT_FOUND, "node ".to_owned().concat(node_id).concat(" not found"));
    }
    if same_text(topology.primary_node_id.as_str(), node_id) {
        return refusal(
            BAD_REQUEST,
            "cannot put the current primary into maintenance — switchover first".to_owned(),
        );
    }
    Decision::Write(TopologyCommand::MarkMaintenance { node_id: node_id.to_owned() })
}

/// The answer when the command that puts a node into maintenance mode was
/// written, or failed to be with the given error.
pub fn on_entered(node_id: &str, failure: Option<String>) -> (r: (u16, MaintenanceResponse))
    ensures
        (r.0, r.1@) == (match failure {
            None => (OK, (true, "node "@ + node_id@ + " is now in maintenance mode"@)),
            Some(e) => (INTERNAL_SERVER_ERROR, (false, "failed to set maintenance mode: "@ + e@)),
        }),
{
    match failure {
        None => {
            let message = "node ".to_owned().concat(node_id).concat(" is now in maintenance mode");
            (OK, MaintenanceResponse { success: true, message })
        },
        Some(e) => {
            let message = "failed to set maintenance mode: ".to_owned().concat(e.as_str());
            (INTERNAL_SERVER_ERROR, MaintenanceResponse { success: false, message })
        },
    }
}

/// What follows from a request to take a node out of maintenance mode.
pub open spec fn leaving(t: TopologyView, node_id: Seq<char>) -> DecisionView {
    if !t.node_configs.dom().contains(node_id) {
        DecisionView::Answer(NOT_FOUND, (false, "node "@ + node_id + " not found"@))
    } else if !t.has_role(node_id, NodeRole::Maintenance) {
        DecisionView::Answer(
            BAD_REQUEST,
            (false, "node "@ + node_id + " is not in maintenance mode"@),
        )
    } else {
        DecisionView::Write(CommandView::MarkReplica { node_id, flush_lsn: 0 })
    }
}

/// Take a node out of maintenance mode by marking it as a Replica.
pub fn exit_maintenance(topology: &ClusterTopology, node_id: &str) -> (r: Decision)
    ensures
        r@ == leaving(topology@, node_id@),
{
    if !topology.node_configs.contains_key(node_id) {
        return refusal(NOT_FOUND, "node ".to_owned().concat(node_id).concat(" not found"));
    }
    let in_maintenance = match topology.node_roles.get(node_id) {
        Some(role) => *role == NodeRole::Maintenance,
        None => false,
    };
    if !in_maintenance {
        return refusal(
            BAD_REQUEST,
            "node ".to_owned().concat(node_id).concat(" is not in maintenance mode"),
        );
    }
    Decision::Write(TopologyCommand::MarkReplica { node_id: node_id.to_owned(), flush_lsn: 0 })
}

/// The answer when the command that takes a node out of maintenance mode was
/// written, or failed to be with the given error.
pub fn on_left(node_id: &str, failure: Option<String>) -> (r: (u16, MaintenanceResponse))
    ensures
        (r.0, r.1@) == (match failure {
            None => (OK, (true, "node "@ + node_id@ + " returned to replica role"@)),
            Some(e) => (INTERNAL_SERVER_ERROR, (false, "failed to exit maintenance mode: "@ + e@)),
        }),
{
    match failure {
        None => {
            let message = "node ".to_owned().concat(node_id).concat(" returned to replica role");
            (OK, MaintenanceResponse { success: true, message })
        },
        Some(e) => {
            let message = "failed to exit maintenance mode: ".to_owned().concat(e.as_str());
            (INTERNAL_SERVER_ERROR, MaintenanceResponse { success: false, message })
        },
    }
}

// ── Laws ─────────────────────────────────────────────────────────────────────

/// The current primary never goes into maintenance mode.
pub proof fn lemma_primary_stays_out(t: TopologyView)
    ensures
        entering(t, t.primary_node_id) is Answer,
{
}

/// A node that was put into maintenance mode is no failover candidate, and it
/// can be taken out again.
pub proof fn lemma_maintenance_can_be_left(t: TopologyView, node_id: Seq<char>, now: i64)
    requires
        entering(t, node_id) is Write,
    ensures
        ({
            let c = entering(t, node_id)->Write_0;
            let after = crate::raft::state_machine::applied(t, c, now);
            &&& forall|failed: Seq<char>| !after.is_candidate(failed, node_id)
            &&& leaving(after, node_id) == DecisionView::Write(
                CommandView::MarkReplica { node_id, flush_lsn: 0 },
            )
        }),
{
}

} // verus!
