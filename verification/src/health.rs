//! Health checking.
//!
//! Times are milliseconds on the caller's clock; each function needing the
//! current time has a form taking `now` and a form reading `clock::now_millis`.
use vstd::prelude::*;
use crate::clock::now_millis;

verus! {

/// Health status.
#[derive(Debug, Clone, Copy, PartialEq, Eq, Structural)]
pub enum HealthStatus {
    /// Healthy.
    Healthy,
    /// Degraded but operational.
    Degraded,
    /// Unhealthy.
    Unhealthy,
    /// Unknown (not yet checked).
    Unknown,
}

impl HealthStatus {
    /// Whether healthy.
    pub fn is_healthy(&self) -> (r: bool)
        ensures
            r == (*self == HealthStatus::Healthy),
    {
        matches!(self, HealthStatus::Healthy)
    }

    /// Whether operational (healthy or degraded).
    pub fn is_operational(&self) -> (r: bool)
        ensures
            r == (*self == HealthStatus::Healthy || *self == HealthStatus::Degraded),
    {
        matches!(self, HealthStatus::Healthy | HealthStatus::Degraded)
    }
}

/// Result of a health check.
#[derive(Debug, Clone)]
pub struct HealthCheckResult {
    /// Status.
    pub status: HealthStatus,
    /// Message.
    pub message: Option<String>,
    /// Duration of the check (milliseconds).
    pub duration: u64,
    /// When the check was made (milliseconds).
    pub timestamp: u64,
}

impl HealthCheckResult {
    /// A healthy result made at `now`.
    pub fn healthy_at(now: u64) -> (r: Self)
        ensures
            r.status == HealthStatus::Healthy,
            r.message is None,
            r.duration == 0,
            r.timestamp == now,
    {
        HealthCheckResult { status: HealthStatus::Healthy, message: None, duration: 0, timestamp: now }
    }

    /// A healthy result made now.
    pub fn healthy() -> (r: Self)
        ensures
            r.status == HealthStatus::Healthy,
            r.message is None,
            r.duration == 0,
    {
        Self::healthy_at(now_millis())
    }

    /// An unhealthy result made at `now`.
    pub fn unhealthy_at(message: String, now: u64) -> (r: Self)
        ensures
            r.status == HealthStatus::Unhealthy,
            r.message == Some(message),
            r.duration == 0,
            r.timestamp == now,
    {
        HealthCheckResult { status: HealthStatus::Unhealthy, message: Some(message), duration: 0, timestamp: now }
    }

    /// An unhealthy result made now.
    pub fn unhealthy(message: String) -> (r: Self)
        ensures
            r.status == HealthStatus::Unhealthy,
            r.message == Some(message),
            r.duration == 0,
    {
        Self::unhealthy_at(message, now_millis())
    }

    /// A degraded result made at `now`.
    pub fn degraded_at(message: String, now: u64) -> (r: Self)
        ensures
            r.status == HealthStatus::Degraded,
            r.message == Some(message),
            r.duration == 0,
            r.timestamp == now,
    {
        HealthCheckResult { status: HealthStatus::Degraded, message: Some(message), duration: 0, timestamp: now }
    }

    /// A degraded result made now.
    pub fn degraded(message: String) -> (r: Self)
        ensures
            r.status == HealthStatus::Degraded,
            r.message == Some(message),
            r.duration == 0,
    {
        Self::degraded_at(message, now_millis())
    }

    /// Set the duration.
    pub fn with_duration(self, duration: u64) -> (r: Self)
        ensures
            r.duration == duration,
            r.status == self.status,
            r.message == self.message,
            r.timestamp == self.timestamp,
    {
        HealthCheckResult { duration, ..self }
    }
}

/// Health check configuration (milliseconds).
#[derive(Debug, Clone, Copy, PartialEq, Eq, Structural)]
pub struct HealthCheckConfig {
    /// Interval between checks.
    pub interval: u64,
    /// Timeout for a check.
    pub timeout: u64,
    /// Failures before unhealthy.
    pub failure_threshold: u32,
    /// Successes before healthy.
    pub success_threshold: u32,
}

impl HealthCheckConfig {
    /// The default configuration.
    pub open spec fn spec_default() -> HealthCheckConfig {
        HealthCheckConfig { interval: 30_000, timeout: 5_000, failure_threshold: 3, success_threshold: 1 }
    }

    /// Create with defaults: 30 s interval, 5 s timeout, 3 failures, 1 success.
    pub fn new() -> (r: Self)
        ensures
            r == Self::spec_default(),
    {
        HealthCheckConfig { interval: 30_000, timeout: 5_000, failure_threshold: 3, success_threshold: 1 }
    }

    /// Set the interval.
    pub fn with_interval(self, interval: u64) -> (r: Self)
        ensures
            r == (HealthCheckConfig { interval, ..self }),
    {
        HealthCheckConfig { interval, ..self }
    }

    /// Set the timeout.
    pub fn with_timeout(self, timeout: u64) -> (r: Self)
        ensures
            r == (HealthCheckConfig { timeout, ..self }),
    {
        HealthCheckConfig { timeout, ..self }
    }

    /// Set the failure threshold.
    pub fn with_failure_threshold(self, threshold: u32) -> (r: Self)
        ensures
            r == (HealthCheckConfig { failure_threshold: threshold, ..self }),
    {
        HealthCheckConfig { failure_threshold: threshold, ..self }
    }

    /// Set the success threshold.
    pub fn with_success_threshold(self, threshold: u32) -> (r: Self)
        ensures
            r == (HealthCheckConfig { success_threshold: threshold, ..self }),
    {
        HealthCheckConfig { success_threshold: threshold, ..self }
    }
}

impl Default for HealthCheckConfig {
    fn default() -> (r: Self)
        ensures
            r == HealthCheckConfig::spec_default(),
    {
        HealthCheckConfig::new()
    }
}

/// Health checker: tracks consecutive successes and failures.
#[derive(Debug)]
pub struct HealthChecker {
    config: HealthCheckConfig,
    status: HealthStatus,
    failures: u32,
    successes: u32,
    last_check: Option<u64>,
    last_result: Option<HealthCheckResult>,
}

impl HealthChecker {
    /// Current status.
    pub closed spec fn spec_status(&self) -> HealthStatus {
        self.status
    }

    /// Consecutive failures.
    pub closed spec fn spec_failures(&self) -> u32 {
        self.failures
    }

    /// Consecutive successes.
    pub closed spec fn spec_successes(&self) -> u32 {
        self.successes
    }

    /// Configuration.
    pub closed spec fn spec_config(&self) -> HealthCheckConfig {
        self.config
    }

    /// Time of the last check.
    pub closed spec fn spec_last_check(&self) -> Option<u64> {
        self.last_check
    }

    /// The last result's status.
    pub closed spec fn spec_last_status(&self) -> Option<HealthStatus> {
        match self.last_result {
            Some(r) => Some(r.status),
            None => None,
        }
    }

    /// Create a checker.
    pub fn new(config: HealthCheckConfig) -> (r: Self)
        ensures
            r.spec_config() == config,
            r.spec_status() == HealthStatus::Unknown,
            r.spec_failures() == 0,
            r.spec_successes() == 0,
            r.spec_last_check() is None,
            r.spec_last_status() is None,
    {
        HealthChecker { config, status: HealthStatus::Unknown, failures: 0, successes: 0, last_check: None, last_result: None }
    }

    /// Current status.
    pub fn status(&self) -> (r: HealthStatus)
        ensures
            r == self.spec_status(),
    {
        self.status
    }

    /// Last result.
    pub fn last_result(&self) -> (r: Option<&HealthCheckResult>)
        ensures
            match r {
                Some(x) => self.spec_last_status() == Some(x.status),
                None => self.spec_last_status() is None,
            },
    {
        match &self.last_result {
            Some(x) => Some(x),
            None => None,
        }
    }

    /// Whether a check is due at `now`.
    pub fn is_check_due_at(&self, now: u64) -> (r: bool)
        ensures
            r == (match self.spec_last_check() {
                Some(t) => (if now >= t { now - t } else { 0 }) >= self.spec_config().interval,
                None => true,
            }),
    {
        match self.last_check {
            Some(last) => now.saturating_sub(last) >= self.config.interval,
            None => true,
        }
    }

    /// Whether a check is due now (reads the clock).
    pub fn is_check_due(&self) -> (r: bool)
        ensures
            self.spec_last_check() is None ==> r,
    {
        self.is_check_due_at(now_millis())
    }

    /// Record a successful check at `now`.
    pub fn record_success_at(&mut self, now: u64)
        requires
            old(self).spec_successes() < u32::MAX,
        ensures
            final(self).spec_failures() == 0,
            final(self).spec_successes() == old(self).spec_successes() + 1,
            final(self).spec_last_check() == Some(now),
            final(self).spec_status() == (if old(self).spec_successes() + 1 >= old(self).spec_config().success_threshold {
                HealthStatus::Healthy
            } else {
                old(self).spec_status()
            }),
            final(self).spec_last_status() == Some(HealthStatus::Healthy),
            final(self).spec_config() == old(self).spec_config(),
    {
        self.failures = 0;
        self.successes = self.successes + 1;
        self.last_check = Some(now);
        if self.successes >= self.config.success_threshold {
            self.status = HealthStatus::Healthy;
        }
        self.last_result = Some(HealthCheckResult::healthy_at(now));
    }

    /// Record a successful check now (reads the clock).
    pub fn record_success(&mut self)
        requires
            old(self).spec_successes() < u32::MAX,
        ensures
            final(self).spec_failures() == 0,
            final(self).spec_successes() == old(self).spec_successes() + 1,
            final(self).spec_last_check() is Some,
            final(self).spec_status() == (if old(self).spec_successes() + 1 >= old(self).spec_config().success_threshold {
                HealthStatus::Healthy
            } else {
                old(self).spec_status()
            }),
            final(self).spec_last_status() == Some(HealthStatus::Healthy),
            final(self).spec_config() == old(self).spec_config(),
    {
        self.record_success_at(now_millis());
    }

    /// Record a failed check at `now`.
    pub fn record_failure_at(&mut self, message: String, now: u64)
        requires
            old(self).spec_failures() < u32::MAX,
        ensures
            final(self).spec_successes() == 0,
            final(self).spec_failures() == old(self).spec_failures() + 1,
            final(self).spec_last_check() == Some(now),
            final(self).spec_status() == (if old(self).spec_failures() + 1 >= old(self).spec_config().failure_threshold {
                HealthStatus::Unhealthy
            } else {
                HealthStatus::Degraded
            }),
            final(self).spec_last_status() == Some(HealthStatus::Unhealthy),
            final(self).spec_config() == old(self).spec_config(),
    {
        self.successes = 0;
        self.failures = self.failures + 1;
        self.last_check = Some(now);
        if self.failures >= self.config.failure_threshold {
            self.status = HealthStatus::Unhealthy;
        } else if self.failures > 0 {
            self.status = HealthStatus::Degraded;
        }
        self.last_result = Some(HealthCheckResult::unhealthy_at(message, now));
    }

    /// Record a failed check now (reads the clock).
    pub fn record_failure(&mut self, message: String)
        requires
            old(self).spec_failures() < u32::MAX,
        ensures
            final(self).spec_successes() == 0,
            final(self).spec_failures() == old(self).spec_failures() + 1,
            final(self).spec_last_check() is Some,
            final(self).spec_status() == (if old(self).spec_failures() + 1 >= old(self).spec_config().failure_threshold {
                HealthStatus::Unhealthy
            } else {
                HealthStatus::Degraded
            }),
            final(self).spec_last_status() == Some(HealthStatus::Unhealthy),
            final(self).spec_config() == old(self).spec_config(),
    {
        self.record_failure_at(message, now_millis());
    }

    /// Reset the checker.
    pub fn reset(&mut self)
        ensures
            final(self).spec_status() == HealthStatus::Unknown,
            final(self).spec_failures() == 0,
            final(self).spec_successes() == 0,
            final(self).spec_last_check() is None,
            final(self).spec_last_status() is None,
            final(self).spec_config() == old(self).spec_config(),
    {
        self.status = HealthStatus::Unknown;
        self.failures = 0;
        self.successes = 0;
        self.last_check = None;
        self.last_result = None;
    }
}

/// A liveness check: always healthy.
pub fn liveness_check() -> (r: HealthCheckResult)
    ensures
        r.status == HealthStatus::Healthy,
        r.message is None,
        r.duration == 0,
{
    HealthCheckResult::healthy()
}

/// After a failure the checker is never healthy, and it is unhealthy exactly
/// when the consecutive failures reach the threshold.
pub proof fn law_failure_status(failures_before: u32, threshold: u32, status_after: HealthStatus)
    requires
        status_after == (if failures_before + 1 >= threshold { HealthStatus::Unhealthy } else { HealthStatus::Degraded }),
    ensures
        !status_after.is_healthy_spec(),
        (status_after == HealthStatus::Unhealthy) == (failures_before + 1 >= threshold),
{
}

impl HealthStatus {
    /// Whether healthy, for contracts.
    pub open spec fn is_healthy_spec(self) -> bool {
        self == HealthStatus::Healthy
    }
}

} // verus!
