//! Metrics: counters, gauges, timers and snapshots.
pub mod basic;
