//! The record of a failover.

use crate::clock::{millis_between, millis_since, unix_now};
use crate::raft::topology::{FailoverEvent, FailoverEventView};
use std::time::Instant;
use vstd::prelude::*;

verus! {

/// Build a `FailoverEvent` from the pieces collected during a failover run.
///
/// `started_at` is the `Instant` captured at the very beginning of the
/// failover sequence; `duration_ms` is computed from it automatically.
pub fn build_failover_event(
    old_primary: String,
    new_primary: String,
    started_at: Instant,
    reason: String,
) -> (r: FailoverEvent)
    ensures
        exists|now: Instant|
            r@ == (FailoverEventView {
                old_primary: old_primary@,
                new_primary: new_primary@,
                triggered_at: r.triggered_at,
                duration_ms: #[trigger] millis_between(started_at, now),
                reason: reason@,
            }),
{
    FailoverEvent {
        old_primary,
        new_primary,
        triggered_at: unix_now(),
        duration_ms: millis_since(&started_at),
        reason,
    }
}

} // verus!
