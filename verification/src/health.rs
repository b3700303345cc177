//! Per-peer health tracking.
//!
//! Liveness probes feed successes and failures into a [`NodeHealth`] record;
//! enough consecutive failures turn the peer Unhealthy, one success turns it
//! Healthy again.  Round-trip times are kept as a moving average.  Times are
//! carried as plain milliseconds.

use vstd::prelude::*;

verus! {

/// Health state of a peer.
#[derive(Debug, Clone, Copy, PartialEq, Eq, Structural)]
pub enum HealthStatus {
    /// Not probed yet.
    Unknown,
    /// The last probe round-trip succeeded.
    Healthy,
    /// Too many consecutive probes failed.
    Unhealthy,
}

/// Health record of a single peer.
#[derive(Debug, Clone)]
pub struct NodeHealth {
    /// Number of probe failures since the last success.
    pub consecutive_failures: u32,
    /// Time of the last successful probe, in milliseconds.
    pub last_success: Option<u64>,
    /// Time of the last failed probe, in milliseconds.
    pub last_failure: Option<u64>,
    /// Moving average of the probe round-trip time, in milliseconds.
    pub average_rtt: Option<u64>,
    /// Current health state.
    pub status: HealthStatus,
}

/// Round-trip times are kept below this bound so that the moving average
/// can be formed without overflow.
pub open spec fn rtt_bound() -> u64 {
    0x8000_0000_0000_0000u64
}

impl NodeHealth {
    /// Well-formedness against a failure threshold: Unhealthy means the
    /// threshold was reached, and the average stays in range.
    pub open spec fn wf(self, max_failures: u32) -> bool {
        &&& self.status is Unhealthy ==> self.consecutive_failures >= max_failures
        &&& match self.average_rtt {
            Some(a) => a < rtt_bound(),
            None => true,
        }
    }

    /// A fresh record: no probes seen yet.
    pub fn new() -> (r: Self)
        ensures
            r.consecutive_failures == 0,
            r.last_success is None,
            r.last_failure is None,
            r.average_rtt is None,
            r.status is Unknown,
    {
        Self {
            consecutive_failures: 0,
            last_success: None,
            last_failure: None,
            average_rtt: None,
            status: HealthStatus::Unknown,
        }
    }

    /// The moving average after a new sample: the first sample stands as is,
    /// each later one is averaged into the previous value with weight 1/2.
    pub open spec fn next_average(prev: Option<u64>, rtt: u64) -> u64 {
        match prev {
            Some(a) => ((a + rtt) / 2) as u64,
            None => rtt,
        }
    }

    /// Record a successful probe with round-trip time `rtt` at time `now`.
    pub fn record_success(&mut self, rtt: u64, now: u64)
        requires
            rtt < rtt_bound(),
            match old(self).average_rtt {
                Some(a) => a < rtt_bound(),
                None => true,
            },
        ensures
            final(self).consecutive_failures == 0,
            final(self).last_success == Some(now),
            final(self).last_failure is None,
            final(self).status is Healthy,
            final(self).average_rtt == Some(Self::next_average(old(self).average_rtt, rtt)),
            forall|m: u32| final(self).wf(m),
    {
        self.consecutive_failures = 0;
        self.last_success = Some(now);
        self.last_failure = None;
        self.status = HealthStatus::Healthy;
        self.average_rtt = match self.average_rtt {
            Some(avg) => Some((avg + rtt) / 2),
            None => Some(rtt),
        };
    }

    /// Record a failed probe at time `now` against the threshold
    /// `max_failures`; reaching the threshold turns the peer Unhealthy.
    pub fn record_failure(&mut self, max_failures: u32, now: u64)
        requires
            old(self).consecutive_failures < u32::MAX,
        ensures
            final(self).consecutive_failures == old(self).consecutive_failures + 1,
            final(self).last_failure == Some(now),
            final(self).last_success == old(self).last_success,
            final(self).average_rtt == old(self).average_rtt,
            final(self).status == if old(self).consecutive_failures + 1 >= max_failures {
                HealthStatus::Unhealthy
            } else {
                old(self).status
            },
            old(self).wf(max_failures) ==> final(self).wf(max_failures),
    {
        self.consecutive_failures = self.consecutive_failures + 1;
        self.last_failure = Some(now);
        if self.consecutive_failures >= max_failures {
            self.status = HealthStatus::Unhealthy;
        }
    }

    /// Whether the peer counts as offline.
    pub fn is_offline(&self) -> (r: bool)
        ensures
            r == (self.status is Unhealthy),
    {
        match self.status {
            HealthStatus::Unhealthy => true,
            _ => false,
        }
    }
}

/// Configuration of the liveness checking.
#[derive(Debug, Clone)]
pub struct HealthCheckConfig {
    /// Cadence of liveness probes, in milliseconds (informational; the
    /// probe protocol drives its own timing).
    pub heartbeat_interval: u64,
    /// Number of consecutive failures after which a peer is Unhealthy.
    pub max_failures: u32,
}

impl Default for HealthCheckConfig {
    /// Probes every 10 seconds; three failures in a row mean Unhealthy.
    fn default() -> (r: Self)
        ensures
            r.heartbeat_interval == 10_000,
            r.max_failures == 3,
    {
        Self { heartbeat_interval: 10_000, max_failures: 3 }
    }
}

} // verus!
