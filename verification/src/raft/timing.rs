//! The timing of the Raft protocol.

use crate::config::validate::config_fault;
use crate::config::{PgClusterConfig, RaftConfig};
use vstd::prelude::*;

verus! {

/// The intervals that the Raft implementation is started with.
#[derive(Debug, Clone, Copy, PartialEq, Eq, Structural)]
pub struct RaftTiming {
    pub heartbeat_interval: u64,
    pub election_timeout_min: u64,
    pub election_timeout_max: u64,
}

/// Why the Raft implementation rejects its timing.
#[derive(Debug, Clone, Copy, PartialEq, Eq, Structural)]
pub enum TimingError {
    /// The least election timeout is not below the greatest.
    ElectionTimeout { min: u64, max: u64 },
    /// The least election timeout is not above the heartbeat interval.
    ElectionTimeoutLTHeartBeat { election_timeout_min: u64, heartbeat_interval: u64 },
    /// Something that does not depend on the timing.
    Other,
}

/// What is wrong with a timing.
pub open spec fn timing_fault(t: RaftTiming) -> Option<TimingError> {
    if t.election_timeout_min >= t.election_timeout_max {
        Some(
            TimingError::ElectionTimeout {
                min: t.election_timeout_min,
                max: t.election_timeout_max,
            },
        )
    } else if t.election_timeout_min <= t.heartbeat_interval {
        Some(
            TimingError::ElectionTimeoutLTHeartBeat {
                election_timeout_min: t.election_timeout_min,
                heartbeat_interval: t.heartbeat_interval,
            },
        )
    } else {
        None
    }
}

/// `openraft::Config::validate`, on the default configuration with the given
/// intervals. It asks that the least election timeout lies above the
/// heartbeat interval and below the greatest election timeout; the default
/// number of entries per payload, which it checks too, is not zero.
#[verifier::external_body]
fn check_timing(t: RaftTiming) -> (r: Result<(), TimingError>)
    ensures
        r is Ok <==> timing_fault(t) is None,
        r matches Err(e) ==> timing_fault(t) == Some(e),
{
    let config = openraft::Config {
        heartbeat_interval: t.heartbeat_interval,
        election_timeout_min: t.election_timeout_min,
        election_timeout_max: t.election_timeout_max,
        ..Default::default()
    };
    match config.validate() {
        Ok(_) => Ok(()),
        Err(openraft::ConfigError::ElectionTimeout { min, max }) => Err(TimingError::ElectionTimeout { min, max }),
        Err(openraft::ConfigError::ElectionTimeoutLTHeartBeat { election_timeout_min, heartbeat_interval }) => Err(
            TimingError::ElectionTimeoutLTHeartBeat { election_timeout_min, heartbeat_interval },
        ),
        Err(_) => Err(TimingError::Other),
    }
}

/// The timing that a configuration asks for: elections time out after one to
/// two times the configured timeout.
pub open spec fn timing_of(cfg: RaftConfig) -> RaftTiming {
    RaftTiming {
        heartbeat_interval: cfg.heartbeat_interval_ms,
        election_timeout_min: cfg.election_timeout_ms,
        election_timeout_max: (2 * cfg.election_timeout_ms) as u64,
    }
}

/// The timing that a configuration asks for, if the Raft implementation
/// accepts it.
pub fn raft_timing(cfg: &RaftConfig) -> (r: Result<RaftTiming, TimingError>)
    requires
        2 * cfg.election_timeout_ms <= u64::MAX,
    ensures
        r is Ok <==> timing_fault(timing_of(*cfg)) is None,
        r matches Ok(t) ==> t == timing_of(*cfg),
        r matches Err(e) ==> timing_fault(timing_of(*cfg)) == Some(e),
{
    let t = RaftTiming {
        heartbeat_interval: cfg.heartbeat_interval_ms,
        election_timeout_min: cfg.election_timeout_ms,
        election_timeout_max: cfg.election_timeout_ms * 2,
    };
    match check_timing(t) {
        Ok(()) => Ok(t),
        Err(e) => Err(e),
    }
}

/// A configuration that passes validation has a timing that the Raft
/// implementation accepts, if its heartbeat interval is not zero.
pub proof fn lemma_valid_config_has_timing(cfg: PgClusterConfig)
    requires
        config_fault(cfg) is None,
        cfg.raft.heartbeat_interval_ms > 0,
        2 * cfg.raft.election_timeout_ms <= u64::MAX,
    ensures
        timing_fault(timing_of(cfg.raft)) is None,
{
    crate::config::validate::lemma_valid_config(cfg);
}

/// The timing follows the configuration: elections time out after one to two
/// times the configured timeout, and that must lie above the heartbeat interval.
pub proof fn lemma_timing_follows_config(cfg: RaftConfig)
    requires
        2 * cfg.election_timeout_ms <= u64::MAX,
    ensures
        timing_of(cfg).heartbeat_interval == cfg.heartbeat_interval_ms,
        timing_of(cfg).election_timeout_min == cfg.election_timeout_ms,
        timing_of(cfg).election_timeout_max == cfg.election_timeout_ms + cfg.election_timeout_ms,
        timing_fault(timing_of(cfg)) is None <==> 0 < cfg.election_timeout_ms
            && cfg.heartbeat_interval_ms < cfg.election_timeout_ms,
{
}

/// The election timeouts must leave room between them, and heartbeats must come
/// faster than elections. The refusal gives the two times that clash.
pub proof fn lemma_times_that_clash(t: RaftTiming)
    ensures
        t.election_timeout_max <= t.election_timeout_min ==> timing_fault(t) == Some(
            TimingError::ElectionTimeout {
                min: t.election_timeout_min,
                max: t.election_timeout_max,
            },
        ),
        t.election_timeout_min < t.election_timeout_max && t.election_timeout_min
            <= t.heartbeat_interval ==> timing_fault(t) == Some(
            TimingError::ElectionTimeoutLTHeartBeat {
                election_timeout_min: t.election_timeout_min,
                heartbeat_interval: t.heartbeat_interval,
            },
        ),
        t.heartbeat_interval < t.election_timeout_min < t.election_timeout_max ==> timing_fault(t)
            is None,
{
}

} // verus!
