//! Consecutive health-check failures per node.

use crate::table::NameTable;
use std::time::Instant;
use vstd::prelude::*;

verus! {

// ── FailureRecord ────────────────────────────────────────────────────────────

/// The failures of one node since it last answered.
#[derive(Debug, Clone, Copy)]
pub struct FailureRecord {
    pub count: u32,
    pub first_seen: Instant,
    pub last_seen: Instant,
}

impl View for FailureRecord {
    type V = FailureRecord;

    open spec fn view(&self) -> FailureRecord {
        *self
    }
}

// ── FailureTracker ───────────────────────────────────────────────────────────

/// Tracks consecutive health-check failures per node.
///
/// A successful check resets a node's counter to zero so that transient
/// blips do not accumulate toward the failover threshold.
#[derive(Debug)]
pub struct FailureTracker {
    failures: NameTable<FailureRecord>,
}

impl View for FailureTracker {
    type V = Map<Seq<char>, FailureRecord>;

    /// The nodes that have failed since they last answered.
    closed spec fn view(&self) -> Map<Seq<char>, FailureRecord> {
        self.failures@
    }
}

/// How many consecutive failures are recorded for a node.
pub open spec fn count_of(m: Map<Seq<char>, FailureRecord>, id: Seq<char>) -> u32 {
    if m.contains_key(id) {
        m[id].count
    } else {
        0
    }
}

/// The records after one more failure of a node at the time `now`.
pub open spec fn recorded(
    m: Map<Seq<char>, FailureRecord>,
    id: Seq<char>,
    now: Instant,
) -> Map<Seq<char>, FailureRecord> {
    m.insert(
        id,
        FailureRecord {
            count: (count_of(m, id) + 1) as u32,
            first_seen: if m.contains_key(id) {
                m[id].first_seen
            } else {
                now
            },
            last_seen: now,
        },
    )
}

impl Default for FailureTracker {
    fn default() -> (r: Self)
        ensures
            r@ == Map::<Seq<char>, FailureRecord>::empty(),
    {
        FailureTracker { failures: NameTable::new() }
    }
}

impl FailureTracker {
    /// Record one failure for `node_id`.
    pub fn record_failure(&mut self, node_id: &str)
        requires
            count_of(old(self)@, node_id@) < u32::MAX,
        ensures
            exists|now: Instant| final(self)@ == #[trigger] recorded(old(self)@, node_id@, now),
    {
        let now = Instant::now();
        self.record_failure_at(node_id, now);
    }

    /// Record one failure for `node_id` at the time `now`.
    pub fn record_failure_at(&mut self, node_id: &str, now: Instant)
        requires
            count_of(old(self)@, node_id@) < u32::MAX,
        ensures
            final(self)@ == recorded(old(self)@, node_id@, now),
    {
        let record = match self.failures.get(node_id) {
            Some(rec) => FailureRecord {
                count: rec.count + 1,
                first_seen: rec.first_seen,
                last_seen: now,
            },
            None => FailureRecord { count: 1, first_seen: now, last_seen: now },
        };
        self.failures.insert(node_id.to_owned(), record);
    }

    /// Reset the failure counter for `node_id` (node answered OK).
    pub fn record_success(&mut self, node_id: &str)
        ensures
            final(self)@ == old(self)@.remove(node_id@),
    {
        self.failures.remove(node_id);
    }

    /// How many consecutive failures have been recorded for `node_id`.
    pub fn failure_count(&self, node_id: &str) -> (r: u32)
        ensures
            r == count_of(self@, node_id@),
    {
        match self.failures.get(node_id) {
            Some(rec) => rec.count,
            None => 0,
        }
    }

    /// Returns `true` when the failure count has reached or exceeded `threshold`.
    pub fn is_failed(&self, node_id: &str, threshold: u32) -> (r: bool)
        ensures
            r <==> count_of(self@, node_id@) >= threshold,
    {
        self.failure_count(node_id) >= threshold
    }
}

// ── Laws ─────────────────────────────────────────────────────────────────────

/// A failure counts for its node only, a success resets its node only.
pub proof fn lemma_counts(
    m: Map<Seq<char>, FailureRecord>,
    id: Seq<char>,
    other: Seq<char>,
    now: Instant,
)
    requires
        count_of(m, id) < u32::MAX,
        other != id,
    ensures
        count_of(recorded(m, id, now), id) == count_of(m, id) + 1,
        count_of(recorded(m, id, now), other) == count_of(m, other),
        count_of(m.remove(id), id) == 0,
        count_of(m.remove(id), other) == count_of(m, other),
{
}

/// The records after failures of one node at the given times.
pub open spec fn recorded_all(
    m: Map<Seq<char>, FailureRecord>,
    id: Seq<char>,
    times: Seq<Instant>,
) -> Map<Seq<char>, FailureRecord>
    decreases times.len(),
{
    if times.len() == 0 {
        m
    } else {
        recorded(recorded_all(m, id, times.drop_last()), id, times.last())
    }
}

/// A node is failed after as many consecutive failures as the threshold says,
/// and not before.
pub proof fn lemma_threshold(
    m: Map<Seq<char>, FailureRecord>,
    id: Seq<char>,
    times: Seq<Instant>,
    threshold: u32,
)
    requires
        times.len() <= u32::MAX,
        count_of(m, id) == 0,
    ensures
        count_of(recorded_all(m, id, times), id) == times.len(),
        count_of(recorded_all(m, id, times), id) >= threshold <==> times.len() >= threshold,
    decreases times.len(),
{
    if times.len() > 0 {
        lemma_threshold(m, id, times.drop_last(), threshold);
    }
}

} // verus!
