//! Listing, triggering and deleting backups.

use super::{ErrorReply, NOT_FOUND, SERVICE_UNAVAILABLE};
use crate::backup::{is_random_uuid, is_source, new_backup_id, select_source};
use crate::config::BackupConfig;
use crate::raft::commands::{CommandView, TopologyCommand};
use crate::raft::state_machine::{most_recent_first, sort_manifests};
use crate::raft::topology::{BackupManifest, BackupManifestView, ClusterTopology, TopologyView};
use crate::table::{views, Duplicate};
use crate::text::{char_vec, cut, same_text};
use vstd::prelude::*;
use vstd::string::StringExecFns;

verus! {

// ── List ─────────────────────────────────────────────────────────────────────

/// Which backups to list.
#[derive(Debug)]
pub struct ListQuery {
    pub frequency: Option<String>,
}

impl ListQuery {
    /// Whether a backup is asked for.
    pub open spec fn asks_for(&self, b: BackupManifestView) -> bool {
        self.frequency matches Some(f) ==> b.frequency == f@
    }
}

/// A list of backups.
#[derive(Debug)]
pub struct BackupListResponse {
    pub backups: Vec<BackupManifest>,
}

/// The backups that are asked for, the most recent first.
pub fn list_backups(topology: &ClusterTopology, q: &ListQuery) -> (r: BackupListResponse)
    ensures
        views(r.backups@) == most_recent_first(
            topology@.backups.filter(|b: BackupManifestView| q.asks_for(b)),
        ),
{
    let mut chosen: Vec<BackupManifest> = Vec::new();
    let ghost all = topology@.backups;
    let ghost wanted = |b: BackupManifestView| q.asks_for(b);
    assert(views(chosen@) =~= all.take(0).filter(wanted)) by {
        reveal(Seq::filter);
    }
    for i in 0..topology.backups.len()
        invariant
            all == topology@.backups,
            all == views(topology.backups@),
            wanted == (|b: BackupManifestView| q.asks_for(b)),
            views(chosen@) == all.take(i as int).filter(wanted),
    {
        let b = &topology.backups[i];
        let ghost before = views(chosen@);
        let asked = match &q.frequency {
            Some(f) => same_text(b.frequency.as_str(), f.as_str()),
            None => true,
        };
        proof {
            reveal(Seq::filter);
            assert(all.take(i + 1).drop_last() =~= all.take(i as int));
            assert(all.take(i + 1).last() == b@);
            assert(asked == wanted(b@));
        }
        if asked {
            chosen.push(b.duplicate());
            assert(views(chosen@) =~= before.push(b@));
        }
    }
    assert(all.take(all.len() as int) =~= all);
    BackupListResponse { backups: sort_manifests(&chosen) }
}

// ── Trigger (manual) ─────────────────────────────────────────────────────────

/// A request for a backup.
#[derive(Debug)]
pub struct TriggerBackupRequest {
    pub label: Option<String>,
    pub frequency: Option<String>,
}

/// A backup that has begun.
#[derive(Debug)]
pub struct TriggerBackupResponse {
    pub backup_id: String,
    pub message: String,
}

/// A backup to take.
#[derive(Debug)]
pub struct ManualBackup {
    pub source_node: String,
    pub source_addr: String,
    pub frequency: String,
    pub label: String,
    pub response: TriggerBackupResponse,
}

fn refusal(status: u16, message: &str) -> (r: ErrorReply)
    ensures
        r@ == (status, message@),
{
    ErrorReply { status, message: message.to_owned() }
}

/// How a backup that was asked for is called. Where the request does not say,
/// the label is made of the beginning of the id.
pub open spec fn manual_label(req: &TriggerBackupRequest, id: Seq<char>) -> Seq<char> {
    match req.label {
        Some(label) => label@,
        None => "manual-"@ + id.take(8),
    }
}

/// The frequency that a backup that was asked for counts toward.
pub open spec fn manual_frequency(req: &TriggerBackupRequest) -> Seq<char> {
    match req.frequency {
        Some(frequency) => frequency@,
        None => "manual"@,
    }
}

/// Whether `r` is what follows from a request for a backup whose source was
/// looked for.
pub open spec fn is_backup_from(
    source: Option<(String, String)>,
    req: &TriggerBackupRequest,
    id: Seq<char>,
    r: Result<ManualBackup, ErrorReply>,
) -> bool {
    match source {
        None => r matches Err(e) && e@ == (
            SERVICE_UNAVAILABLE,
            "no suitable backup source node available"@,
        ),
        Some((node, addr)) => r matches Ok(b) && {
            &&& b.source_node@ == node@
            &&& b.source_addr@ == addr@
            &&& b.frequency@ == manual_frequency(req)
            &&& b.label@ == manual_label(req, id)
            &&& b.response.backup_id@ == id
            &&& b.response.message@ == "backup started: frequency="@ + manual_frequency(req)
                + ", label="@ + manual_label(req, id) + ", source="@ + node@
        },
    }
}

/// Whether `r` is what follows from a request for a backup, under the given id.
pub open spec fn is_manual_backup(
    config: &Option<BackupConfig>,
    t: TopologyView,
    req: &TriggerBackupRequest,
    id: Seq<char>,
    r: Result<ManualBackup, ErrorReply>,
) -> bool {
    match config {
        None => r matches Err(e) && e@ == (NOT_FOUND, "backup not configured"@),
        Some(c) => if !c.enabled {
            r matches Err(e) && e@ == (SERVICE_UNAVAILABLE, "backup is disabled"@)
        } else {
            exists|source: Option<(String, String)>| #[trigger]
                is_source(t, c.prefer_replica, source) && is_backup_from(source, req, id, r)
        },
    }
}

/// The backup that a request asks for, if it can be taken. The answer to it is
/// 202.
pub fn plan_backup(
    config: &Option<BackupConfig>,
    topology: &ClusterTopology,
    req: &TriggerBackupRequest,
    backup_id: String,
) -> (r: Result<ManualBackup, ErrorReply>)
    requires
        8 <= backup_id@.len(),
    ensures
        is_manual_backup(config, topology@, req, backup_id@, r),
{
    let c = match config {
        Some(c) => c,
        None => return Err(refusal(NOT_FOUND, "backup not configured")),
    };
    if !c.enabled {
        return Err(refusal(SERVICE_UNAVAILABLE, "backup is disabled"));
    }
    let source = select_source(topology, c.prefer_replica);
    let ghost chosen = source;
    assert(is_source(topology@, c.prefer_replica, chosen));
    match source {
        None => Err(refusal(SERVICE_UNAVAILABLE, "no suitable backup source node available")),
        Some((source_node, source_addr)) => {
            let frequency = match &req.frequency {
                Some(f) => f.clone(),
                None => "manual".to_owned(),
            };
            let label = match &req.label {
                Some(l) => l.clone(),
                None => {
                    let chars = char_vec(backup_id.as_str());
                    assert(chars@.subrange(0, 8) =~= chars@.take(8));
                    "manual-".to_owned().concat(cut(&chars, 0, 8).as_str())
                },
            };
            let message = "backup started: frequency=".to_owned().concat(
                frequency.as_str(),
            ).concat(", label=").concat(label.as_str()).concat(", source=").concat(
                source_node.as_str(),
            );
            let response = TriggerBackupResponse { backup_id, message };
            Ok(ManualBackup { source_node, source_addr, frequency, label, response })
        },
    }
}

/// Decides on a request for a backup, under a new id. What is not stated is the
/// id itself.
pub fn trigger_backup(
    config: &Option<BackupConfig>,
    topology: &ClusterTopology,
    req: &TriggerBackupRequest,
) -> (r: Result<ManualBackup, ErrorReply>)
    ensures
        exists|id: Seq<char>| #[trigger]
            is_random_uuid(id) && is_manual_backup(config, topology@, req, id, r),
{
    let id = new_backup_id();
    let ghost chosen = id@;
    let r = plan_backup(config, topology, req, id);
    assert(is_random_uuid(chosen) && is_manual_backup(config, topology@, req, chosen, r));
    r
}

// ── Delete ───────────────────────────────────────────────────────────────────

/// The backup with the given id that is deleted first from the object store,
/// then from the topology, by the given command. Once it is written the answer
/// is 204.
pub fn delete_backup(configured: bool, topology: &ClusterTopology, backup_id: &str) -> (r: Result<
    (BackupManifest, TopologyCommand),
    ErrorReply,
>)
    ensures
        !configured ==> (r matches Err(e) && e@ == (NOT_FOUND, "backup not configured"@)),
        configured && (forall|i: int|
            0 <= i < topology@.backups.len() ==> (#[trigger] topology@.backups[i]).backup_id
                != backup_id@) ==> (r matches Err(e) && e@ == (
            NOT_FOUND,
            "backup "@ + backup_id@ + " not found"@,
        )),
        configured && (exists|i: int|
            0 <= i < topology@.backups.len() && (#[trigger] topology@.backups[i]).backup_id
                == backup_id@) ==> (r matches Ok((m, c)) && {
            &&& exists|i: int|
                0 <= i < topology@.backups.len() && m@ == #[trigger] topology@.backups[i] && (
                forall|j: int|
                    0 <= j < i ==> (#[trigger] topology@.backups[j]).backup_id != backup_id@)
            &&& m@.backup_id == backup_id@
            &&& c@ == CommandView::RemoveBackupManifest { backup_id: backup_id@ }
        }),
{
    if !configured {
        return Err(refusal(NOT_FOUND, "backup not configured"));
    }
    let ghost all = topology@.backups;
    for i in 0..topology.backups.len()
        invariant
            all == topology@.backups,
            all == views(topology.backups@),
            configured,
            forall|j: int| 0 <= j < i ==> (#[trigger] all[j]).backup_id != backup_id@,
    {
        let b = &topology.backups[i];
        assert(all[i as int] == b@);
        if same_text(b.backup_id.as_str(), backup_id) {
            let command = TopologyCommand::RemoveBackupManifest { backup_id: backup_id.to_owned() };
            return Ok((b.duplicate(), command));
        }
    }
    Err(
        ErrorReply {
            status: NOT_FOUND,
            message: "backup ".to_owned().concat(backup_id).concat(" not found"),
        },
    )
}

} // verus!
