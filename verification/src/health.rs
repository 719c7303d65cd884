//! Health status of the gateway.

use vstd::prelude::*;
use crate::clock::unix_now;

verus! {

#[derive(Debug, Clone, Copy, PartialEq, Eq, Structural)]
pub struct HealthStatus {
    pub healthy: bool,
    pub teams_connection: bool,
    pub active_calls: usize,
    pub uptime_seconds: u64,
}

impl HealthStatus {
    pub fn healthy() -> (r: Self)
        ensures
            r == (HealthStatus {
                healthy: true,
                teams_connection: true,
                active_calls: 0,
                uptime_seconds: 0,
            }),
    {
        HealthStatus { healthy: true, teams_connection: true, active_calls: 0, uptime_seconds: 0 }
    }

    pub fn unhealthy(reason: &str) -> (r: Self)
        ensures
            r == (HealthStatus {
                healthy: false,
                teams_connection: false,
                active_calls: 0,
                uptime_seconds: 0,
            }),
    {
        HealthStatus { healthy: false, teams_connection: false, active_calls: 0, uptime_seconds: 0 }
    }
}

/// Reports the health of the gateway, with the time since it was started.
#[derive(Debug, Clone, Copy)]
pub struct HealthChecker {
    start_time: u64,
}

/// The seconds from `start` to `now`; none where the clock went back.
pub open spec fn uptime(start: u64, now: u64) -> u64 {
    if now >= start {
        (now - start) as u64
    } else {
        0
    }
}

impl HealthChecker {
    pub closed spec fn started(&self) -> u64 {
        self.start_time
    }

    /// Uptime is counted from the time of the system clock at this call.
    pub fn new() -> Self {
        HealthChecker { start_time: unix_now() }
    }

    /// Uptime is counted from `now`, in seconds since the Unix epoch.
    pub fn started_at(now: u64) -> (r: Self)
        ensures
            r.started() == now,
    {
        HealthChecker { start_time: now }
    }

    /// The health at the time of the system clock.
    pub fn check(&self) -> (r: HealthStatus)
        ensures
            r.healthy,
            r.teams_connection,
            r.active_calls == 0,
            exists|now: u64| r.uptime_seconds == uptime(self.started(), now),
    {
        self.check_at(unix_now())
    }

    /// The health at `now`.
    pub fn check_at(&self, now: u64) -> (r: HealthStatus)
        ensures
            r == (HealthStatus {
                healthy: true,
                teams_connection: true,
                active_calls: 0,
                uptime_seconds: uptime(self.started(), now),
            }),
    {
        let up = if now >= self.start_time {
            now - self.start_time
        } else {
            0
        };
        HealthStatus { healthy: true, teams_connection: true, active_calls: 0, uptime_seconds: up }
    }
}

impl Default for HealthChecker {
    fn default() -> Self {
        HealthChecker::new()
    }
}

} // verus!
