//! `pgcluster replication`

use super::status::{or_text, text_or};
use vstd::prelude::*;

verus! {

/// Arguments of `pgcluster replication`.
#[derive(Debug)]
pub struct ReplicationArgs {
    pub command: ReplicationCommands,
}

/// What to do with the replication.
#[derive(Debug)]
pub enum ReplicationCommands {
    /// List replication slots
    Slots { api: String, json: bool },
}

/// What the API said of a replication slot. What it did not say, or not in the
/// expected form, is missing.
#[derive(Debug)]
pub struct SlotFields {
    pub node_id: Option<String>,
    pub slot_name: Option<String>,
}

/// The headers of the table of slots.
pub fn slot_headers() -> (r: Vec<&'static str>)
    ensures
        r@.len() == 2,
        r@[0]@ == "NODE_ID"@,
        r@[1]@ == "SLOT_NAME"@,
{
    let mut headers: Vec<&'static str> = Vec::new();
    headers.push("NODE_ID");
    headers.push("SLOT_NAME");
    headers
}

/// Whether a row of the table is that of the given slot.
pub open spec fn is_slot_row(row: Seq<String>, slot: SlotFields) -> bool {
    &&& row.len() == 2
    &&& row[0]@ == text_or(slot.node_id, ""@)
    &&& row[1]@ == text_or(slot.slot_name, ""@)
}

/// The table of the given slots, in their order.
pub fn slot_rows(slots: &Vec<SlotFields>) -> (r: Vec<Vec<String>>)
    ensures
        r@.len() == slots@.len(),
        forall|i: int| 0 <= i < r@.len() ==> is_slot_row((#[trigger] r@[i])@, slots@[i]),
{
    let mut rows: Vec<Vec<String>> = Vec::new();
    for i in 0..slots.len()
        invariant
            rows@.len() == i,
            forall|j: int| 0 <= j < i ==> is_slot_row((#[trigger] rows@[j])@, slots@[j]),
    {
        let mut row: Vec<String> = Vec::new();
        row.push(or_text(&slots[i].node_id, ""));
        row.push(or_text(&slots[i].slot_name, ""));
        rows.push(row);
    }
    rows
}

/// A slot is shown beside the node that uses it; what the answer leaves out is
/// shown as nothing.
pub proof fn lemma_slot_row(row: Seq<String>, slot: SlotFields)
    requires
        is_slot_row(row, slot),
    ensures
        row.len() == 2,
        match slot.node_id {
            Some(id) => row[0]@ == id@,
            None => row[0]@ == ""@,
        },
        match slot.slot_name {
            Some(name) => row[1]@ == name@,
            None => row[1]@ == ""@,
        },
{
}

} // verus!
