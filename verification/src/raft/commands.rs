//! The commands of the Raft log.

use super::topology::{BackupManifest, BackupManifestView, NodeConfig, NodeConfigView};
use crate::table::Duplicate;
use vstd::prelude::*;

verus! {

/// Every topology change is a Raft log entry with one of these variants.
/// The Raft leader proposes a command; all instances apply it to their local
/// `ClusterTopology` copy.
#[derive(Debug)]
pub enum TopologyCommand {
    /// Declare a node as the current primary (called after successful promotion)
    SetPrimary { node_id: String, at_lsn: u64, new_timeline: u32 },
    /// Mark a node as offline (failed health checks, or operator request)
    MarkOffline { node_id: String },
    /// Mark a node back as a streaming replica
    MarkReplica { node_id: String, flush_lsn: u64 },
    /// Put a node into maintenance mode (excluded from failover candidates)
    MarkMaintenance { node_id: String },
    /// Update the primary_conninfo string for a replica
    UpdatePrimaryConninfo { node_id: String, conninfo: String },
    /// Update flush/replay LSN from a health check poll
    UpdateFlushLsn { node_id: String, flush_lsn: u64, replay_lsn: u64 },
    /// Register a new node in the cluster
    AddNode(NodeConfig),
    /// Remove a node from the cluster
    RemoveNode { node_id: String },
    /// Record a completed failover event in history
    RecordFailover {
        old_primary: String,
        new_primary: String,
        triggered_at: i64,
        duration_ms: u64,
        reason: String,
    },
    /// Update the replication slot name for a replica
    SetReplicationSlot { node_id: String, slot_name: String },
    /// Record a completed (or failed) backup in cluster state
    AddBackupManifest(BackupManifest),
    /// Remove a backup manifest (after pruning or operator delete)
    RemoveBackupManifest { backup_id: String },
}

/// What a [`TopologyCommand`] stands for.
#[verifier::ext_equal]
pub enum CommandView {
    SetPrimary { node_id: Seq<char>, at_lsn: u64, new_timeline: u32 },
    MarkOffline { node_id: Seq<char> },
    MarkReplica { node_id: Seq<char>, flush_lsn: u64 },
    MarkMaintenance { node_id: Seq<char> },
    UpdatePrimaryConninfo { node_id: Seq<char>, conninfo: Seq<char> },
    UpdateFlushLsn { node_id: Seq<char>, flush_lsn: u64, replay_lsn: u64 },
    AddNode(NodeConfigView),
    RemoveNode { node_id: Seq<char> },
    RecordFailover {
        old_primary: Seq<char>,
        new_primary: Seq<char>,
        triggered_at: i64,
        duration_ms: u64,
        reason: Seq<char>,
    },
    SetReplicationSlot { node_id: Seq<char>, slot_name: Seq<char> },
    AddBackupManifest(BackupManifestView),
    RemoveBackupManifest { backup_id: Seq<char> },
}

impl View for TopologyCommand {
    type V = CommandView;

    open spec fn view(&self) -> CommandView {
        match self {
            TopologyCommand::SetPrimary { node_id, at_lsn, new_timeline } => {
                CommandView::SetPrimary {
                    node_id: node_id@,
                    at_lsn: *at_lsn,
                    new_timeline: *new_timeline,
                }
            },
            TopologyCommand::MarkOffline { node_id } => CommandView::MarkOffline {
                node_id: node_id@,
            },
            TopologyCommand::MarkReplica { node_id, flush_lsn } => CommandView::MarkReplica {
                node_id: node_id@,
                flush_lsn: *flush_lsn,
            },
            TopologyCommand::MarkMaintenance { node_id } => CommandView::MarkMaintenance {
                node_id: node_id@,
            },
            TopologyCommand::UpdatePrimaryConninfo { node_id, conninfo } => {
                CommandView::UpdatePrimaryConninfo { node_id: node_id@, conninfo: conninfo@ }
            },
            TopologyCommand::UpdateFlushLsn { node_id, flush_lsn, replay_lsn } => {
                CommandView::UpdateFlushLsn {
                    node_id: node_id@,
                    flush_lsn: *flush_lsn,
                    replay_lsn: *replay_lsn,
                }
            },
            TopologyCommand::AddNode(c) => CommandView::AddNode(c@),
            TopologyCommand::RemoveNode { node_id } => CommandView::RemoveNode {
                node_id: node_id@,
            },
            TopologyCommand::RecordFailover {
                old_primary,
                new_primary,
                triggered_at,
                duration_ms,
                reason,
            } => CommandView::RecordFailover {
                old_primary: old_primary@,
                new_primary: new_primary@,
                triggered_at: *triggered_at,
                duration_ms: *duration_ms,
                reason: reason@,
            },
            TopologyCommand::SetReplicationSlot { node_id, slot_name } => {
                CommandView::SetReplicationSlot { node_id: node_id@, slot_name: slot_name@ }
            },
            TopologyCommand::AddBackupManifest(m) => CommandView::AddBackupManifest(m@),
            TopologyCommand::RemoveBackupManifest { backup_id } => {
                CommandView::RemoveBackupManifest { backup_id: backup_id@ }
            },
        }
    }
}

impl Duplicate for TopologyCommand {
    fn duplicate(&self) -> (r: Self) {
        match self {
            TopologyCommand::SetPrimary { node_id, at_lsn, new_timeline } => {
                TopologyCommand::SetPrimary {
                    node_id: node_id.clone(),
                    at_lsn: *at_lsn,
                    new_timeline: *new_timeline,
                }
            },
            TopologyCommand::MarkOffline { node_id } => TopologyCommand::MarkOffline {
                node_id: node_id.clone(),
            },
            TopologyCommand::MarkReplica { node_id, flush_lsn } => TopologyCommand::MarkReplica {
                node_id: node_id.clone(),
                flush_lsn: *flush_lsn,
            },
            TopologyCommand::MarkMaintenance { node_id } => TopologyCommand::MarkMaintenance {
                node_id: node_id.clone(),
            },
            TopologyCommand::UpdatePrimaryConninfo { node_id, conninfo } => {
                TopologyCommand::UpdatePrimaryConninfo {
                    node_id: node_id.clone(),
                    conninfo: conninfo.clone(),
                }
            },
            TopologyCommand::UpdateFlushLsn { node_id, flush_lsn, replay_lsn } => {
                TopologyCommand::UpdateFlushLsn {
                    node_id: node_id.clone(),
                    flush_lsn: *flush_lsn,
                    replay_lsn: *replay_lsn,
                }
            },
            TopologyCommand::AddNode(c) => TopologyCommand::AddNode(c.duplicate()),
            TopologyCommand::RemoveNode { node_id } => TopologyCommand::RemoveNode {
                node_id: node_id.clone(),
            },
            TopologyCommand::RecordFailover {
                old_primary,
                new_primary,
                triggered_at,
                duration_ms,
                reason,
            } => TopologyCommand::RecordFailover {
                old_primary: old_primary.clone(),
                new_primary: new_primary.clone(),
                triggered_at: *triggered_at,
                duration_ms: *duration_ms,
                reason: reason.clone(),
            },
            TopologyCommand::SetReplicationSlot { node_id, slot_name } => {
                TopologyCommand::SetReplicationSlot {
                    node_id: node_id.clone(),
                    slot_name: slot_name.clone(),
                }
            },
            TopologyCommand::AddBackupManifest(m) => TopologyCommand::AddBackupManifest(
                m.duplicate(),
            ),
            TopologyCommand::RemoveBackupManifest { backup_id } => {
                TopologyCommand::RemoveBackupManifest { backup_id: backup_id.clone() }
            },
        }
    }
}

impl Clone for TopologyCommand {
    fn clone(&self) -> (r: Self)
        ensures
            r@ == self@,
    {
        self.duplicate()
    }
}

impl TopologyCommand {
    /// Returns true if this command changes who the primary is (used for watch notification).
    pub fn changes_primary(&self) -> (r: bool)
        ensures
            r <==> self@ is SetPrimary,
    {
        matches!(self, TopologyCommand::SetPrimary { .. })
    }
}

} // verus!
