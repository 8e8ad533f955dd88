//! Counters, gauges, timers (in milliseconds) and snapshots of session
//! metrics. Counters and gauges wrap around at `u64::MAX` as atomic integer
//! operations do.
use vstd::prelude::*;
use crate::clock::now_millis;

verus! {

/// `a + b` wrapped to 64 bits.
pub open spec fn wrap_add(a: u64, b: u64) -> u64 {
    ((a + b) % 0x1_0000_0000_0000_0000) as u64
}

/// `a - b` wrapped to 64 bits.
pub open spec fn wrap_sub(a: u64, b: u64) -> u64 {
    if a >= b { (a - b) as u64 } else { (a - b + 0x1_0000_0000_0000_0000) as u64 }
}

/// A counter.
#[derive(Debug)]
pub struct Counter {
    value: u64,
}

impl Counter {
    /// The count.
    pub closed spec fn spec_value(&self) -> u64 {
        self.value
    }

    /// A counter at zero.
    pub fn new() -> (r: Self)
        ensures
            r.spec_value() == 0,
    {
        Counter { value: 0 }
    }

    /// Count one.
    pub fn inc(&mut self)
        ensures
            final(self).spec_value() == wrap_add(old(self).spec_value(), 1),
    {
        self.value = self.value.wrapping_add(1);
    }

    /// Count `n`.
    pub fn add(&mut self, n: u64)
        ensures
            final(self).spec_value() == wrap_add(old(self).spec_value(), n),
    {
        self.value = self.value.wrapping_add(n);
    }

    /// The count.
    pub fn get(&self) -> (r: u64)
        ensures
            r == self.spec_value(),
    {
        self.value
    }

    /// Back to zero.
    pub fn reset(&mut self)
        ensures
            final(self).spec_value() == 0,
    {
        self.value = 0;
    }
}

impl Default for Counter {
    fn default() -> (r: Self)
        ensures
            r.spec_value() == 0,
    {
        Counter::new()
    }
}

/// A gauge.
#[derive(Debug)]
pub struct Gauge {
    value: u64,
}

impl Gauge {
    /// The value.
    pub closed spec fn spec_value(&self) -> u64 {
        self.value
    }

    /// A gauge at zero.
    pub fn new() -> (r: Self)
        ensures
            r.spec_value() == 0,
    {
        Gauge { value: 0 }
    }

    /// Set the value.
    pub fn set(&mut self, value: u64)
        ensures
            final(self).spec_value() == value,
    {
        self.value = value;
    }

    /// Up by one.
    pub fn inc(&mut self)
        ensures
            final(self).spec_value() == wrap_add(old(self).spec_value(), 1),
    {
        self.value = self.value.wrapping_add(1);
    }

    /// Down by one.
    pub fn dec(&mut self)
        ensures
            final(self).spec_value() == wrap_sub(old(self).spec_value(), 1),
    {
        self.value = self.value.wrapping_sub(1);
    }

    /// The value.
    pub fn get(&self) -> (r: u64)
        ensures
            r == self.spec_value(),
    {
        self.value
    }
}

impl Default for Gauge {
    fn default() -> (r: Self)
        ensures
            r.spec_value() == 0,
    {
        Gauge::new()
    }
}

/// A timer started at some time (milliseconds).
#[derive(Debug, Clone, Copy, PartialEq, Eq, Structural)]
pub struct Timer {
    /// When it started.
    pub started: u64,
}

impl Timer {
    /// A timer started at `now`.
    pub fn start_at(now: u64) -> (r: Self)
        ensures
            r.started == now,
    {
        Timer { started: now }
    }

    /// A timer started now (reads the clock).
    pub fn start() -> (r: Self) {
        Timer { started: now_millis() }
    }

    /// The time elapsed at `now` (none before the start).
    pub fn elapsed_at(&self, now: u64) -> (r: u64)
        ensures
            r == (if now >= self.started { now - self.started } else { 0 }),
    {
        if now >= self.started {
            now - self.started
        } else {
            0
        }
    }
}

/// A snapshot of session metrics.
#[derive(Debug, Clone, Copy, PartialEq, Eq, Structural)]
pub struct MetricsSnapshot {
    /// Bytes sent.
    pub bytes_sent: u64,
    /// Bytes received.
    pub bytes_received: u64,
    /// Commands executed.
    pub commands_executed: u64,
    /// Pattern matches.
    pub pattern_matches: u64,
    /// Timeouts.
    pub timeouts: u64,
    /// Errors.
    pub errors: u64,
    /// Active sessions.
    pub active_sessions: u64,
}

/// The counters and gauge of a session.
#[derive(Debug)]
pub struct SessionCounters {
    /// Bytes sent.
    pub bytes_sent: Counter,
    /// Bytes received.
    pub bytes_received: Counter,
    /// Commands executed.
    pub commands_executed: Counter,
    /// Pattern matches.
    pub pattern_matches: Counter,
    /// Timeouts.
    pub timeouts: Counter,
    /// Errors.
    pub errors: Counter,
    /// Active sessions.
    pub active_sessions: Gauge,
}

impl SessionCounters {
    /// All at zero.
    pub fn new() -> (r: Self)
        ensures
            r.snapshot_spec() == (MetricsSnapshot {
                bytes_sent: 0,
                bytes_received: 0,
                commands_executed: 0,
                pattern_matches: 0,
                timeouts: 0,
                errors: 0,
                active_sessions: 0,
            }),
    {
        SessionCounters {
            bytes_sent: Counter::new(),
            bytes_received: Counter::new(),
            commands_executed: Counter::new(),
            pattern_matches: Counter::new(),
            timeouts: Counter::new(),
            errors: Counter::new(),
            active_sessions: Gauge::new(),
        }
    }

    /// The values, as a snapshot.
    pub open spec fn snapshot_spec(&self) -> MetricsSnapshot {
        MetricsSnapshot {
            bytes_sent: self.bytes_sent.spec_value(),
            bytes_received: self.bytes_received.spec_value(),
            commands_executed: self.commands_executed.spec_value(),
            pattern_matches: self.pattern_matches.spec_value(),
            timeouts: self.timeouts.spec_value(),
            errors: self.errors.spec_value(),
            active_sessions: self.active_sessions.spec_value(),
        }
    }

    /// A snapshot of the values.
    pub fn snapshot(&self) -> (r: MetricsSnapshot)
        ensures
            r == self.snapshot_spec(),
    {
        MetricsSnapshot {
            bytes_sent: self.bytes_sent.get(),
            bytes_received: self.bytes_received.get(),
            commands_executed: self.commands_executed.get(),
            pattern_matches: self.pattern_matches.get(),
            timeouts: self.timeouts.get(),
            errors: self.errors.get(),
            active_sessions: self.active_sessions.get(),
        }
    }
}

/// A gauge raised then lowered is back where it was.
pub proof fn law_gauge_inc_dec(v: u64)
    ensures
        wrap_sub(wrap_add(v, 1), 1) == v,
{
}

/// A counter counts exactly, below wrapping.
pub proof fn law_counter_adds(v: u64, n: u64)
    requires
        v + n <= u64::MAX,
    ensures
        wrap_add(v, n) == v + n,
{
}

} // verus!
