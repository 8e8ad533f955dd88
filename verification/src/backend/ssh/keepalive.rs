//! SSH keepalive management.
//!
//! Times are milliseconds on the caller's clock: every method that needs the
//! current time has a form taking `now` and a form reading `clock::now_millis`.
use vstd::prelude::*;
use crate::clock::now_millis;

verus! {

/// Keepalive configuration (durations in milliseconds).
#[derive(Debug, Clone, Copy, PartialEq, Eq, Structural)]
pub struct KeepaliveConfig {
    /// Interval between keepalive messages.
    pub interval: u64,
    /// Maximum missed keepalives before disconnect.
    pub max_missed: u32,
    /// Enable keepalive.
    pub enabled: bool,
    /// Use SSH-level keepalive (vs TCP).
    pub use_ssh_keepalive: bool,
    /// Timeout for each keepalive response.
    pub response_timeout: u64,
}

impl KeepaliveConfig {
    /// The default configuration.
    pub open spec fn spec_default() -> KeepaliveConfig {
        KeepaliveConfig { interval: 30_000, max_missed: 3, enabled: true, use_ssh_keepalive: true, response_timeout: 15_000 }
    }

    /// Create new config: 30 s interval, 3 missed allowed, 15 s response timeout.
    pub fn new() -> (r: Self)
        ensures
            r == Self::spec_default(),
    {
        KeepaliveConfig { interval: 30_000, max_missed: 3, enabled: true, use_ssh_keepalive: true, response_timeout: 15_000 }
    }

    /// Set interval between keepalive messages.
    pub fn interval(self, interval: u64) -> (r: Self)
        ensures
            r == (KeepaliveConfig { interval, ..self }),
    {
        KeepaliveConfig { interval, ..self }
    }

    /// Set maximum missed keepalives before considering connection dead.
    pub fn max_missed(self, max: u32) -> (r: Self)
        ensures
            r == (KeepaliveConfig { max_missed: max, ..self }),
    {
        KeepaliveConfig { max_missed: max, ..self }
    }

    /// Enable or disable keepalive.
    pub fn enabled(self, enabled: bool) -> (r: Self)
        ensures
            r == (KeepaliveConfig { enabled, ..self }),
    {
        KeepaliveConfig { enabled, ..self }
    }

    /// Set response timeout for each keepalive.
    pub fn response_timeout(self, timeout: u64) -> (r: Self)
        ensures
            r == (KeepaliveConfig { response_timeout: timeout, ..self }),
    {
        KeepaliveConfig { response_timeout: timeout, ..self }
    }

    /// Use SSH-level keepalives.
    pub fn use_ssh_keepalive(self, use_ssh: bool) -> (r: Self)
        ensures
            r == (KeepaliveConfig { use_ssh_keepalive: use_ssh, ..self }),
    {
        KeepaliveConfig { use_ssh_keepalive: use_ssh, ..self }
    }

    /// A disabled keepalive config.
    pub fn disabled() -> (r: Self)
        ensures
            r == (KeepaliveConfig { enabled: false, ..Self::spec_default() }),
    {
        KeepaliveConfig { enabled: false, ..Self::new() }
    }

    /// A config for high-latency connections: 60 s interval, 5 missed, 30 s timeout.
    pub fn high_latency() -> (r: Self)
        ensures
            r == (KeepaliveConfig { interval: 60_000, max_missed: 5, response_timeout: 30_000, ..Self::spec_default() }),
    {
        KeepaliveConfig { interval: 60_000, max_missed: 5, response_timeout: 30_000, ..Self::new() }
    }

    /// A config for unstable connections: 15 s interval, 2 missed, 10 s timeout.
    pub fn aggressive() -> (r: Self)
        ensures
            r == (KeepaliveConfig { interval: 15_000, max_missed: 2, response_timeout: 10_000, ..Self::spec_default() }),
    {
        KeepaliveConfig { interval: 15_000, max_missed: 2, response_timeout: 10_000, ..Self::new() }
    }
}

impl Default for KeepaliveConfig {
    fn default() -> (r: Self)
        ensures
            r == KeepaliveConfig::spec_default(),
    {
        KeepaliveConfig::new()
    }
}

/// Keepalive state tracking.
#[derive(Debug, Clone, Copy, PartialEq, Eq, Structural)]
pub struct KeepaliveState {
    config: KeepaliveConfig,
    last_sent: Option<u64>,
    last_received: Option<u64>,
    missed_count: u32,
    alive: bool,
    pending_response: bool,
    pending_since: Option<u64>,
    total_sent: u64,
    total_received: u64,
}

/// The fields of a keepalive state, for contracts.
pub struct KeepaliveView {
    pub config: KeepaliveConfig,
    pub last_sent: Option<u64>,
    pub last_received: Option<u64>,
    pub missed_count: u32,
    pub alive: bool,
    pub pending_response: bool,
    pub pending_since: Option<u64>,
    pub total_sent: u64,
    pub total_received: u64,
}

impl View for KeepaliveState {
    type V = KeepaliveView;

    closed spec fn view(&self) -> KeepaliveView {
        KeepaliveView {
            config: self.config,
            last_sent: self.last_sent,
            last_received: self.last_received,
            missed_count: self.missed_count,
            alive: self.alive,
            pending_response: self.pending_response,
            pending_since: self.pending_since,
            total_sent: self.total_sent,
            total_received: self.total_received,
        }
    }
}

/// A new state for `config`: alive, nothing sent or received.
pub open spec fn new_view(config: KeepaliveConfig) -> KeepaliveView {
    KeepaliveView {
        config,
        last_sent: None,
        last_received: None,
        missed_count: 0,
        alive: true,
        pending_response: false,
        pending_since: None,
        total_sent: 0,
        total_received: 0,
    }
}

/// `v` after a keepalive sent at `now`: waiting for its response.
pub open spec fn sent_view(v: KeepaliveView, now: u64) -> KeepaliveView {
    KeepaliveView {
        last_sent: Some(now),
        pending_response: true,
        pending_since: Some(now),
        total_sent: (v.total_sent + 1) as u64,
        ..v
    }
}

/// `v` after a response received at `now`: alive, nothing missed.
pub open spec fn received_view(v: KeepaliveView, now: u64) -> KeepaliveView {
    KeepaliveView {
        last_received: Some(now),
        missed_count: 0,
        alive: true,
        pending_response: false,
        pending_since: None,
        total_received: (v.total_received + 1) as u64,
        ..v
    }
}

/// `v` after a missed keepalive: dead once `max_missed` are missed in a row.
pub open spec fn missed_view(v: KeepaliveView) -> KeepaliveView {
    KeepaliveView {
        missed_count: (v.missed_count + 1) as u32,
        pending_response: false,
        pending_since: None,
        alive: if v.missed_count + 1 >= v.config.max_missed { false } else { v.alive },
        ..v
    }
}

/// `v` reset for reconnection (totals kept).
pub open spec fn reset_view(v: KeepaliveView) -> KeepaliveView {
    KeepaliveView {
        last_sent: None,
        last_received: None,
        missed_count: 0,
        alive: true,
        pending_response: false,
        pending_since: None,
        ..v
    }
}

/// A state is alive exactly while fewer than `max_missed` (at least one)
/// keepalives have been missed in a row, and waits for a response only after
/// sending a keepalive.
pub open spec fn keepalive_consistent(v: KeepaliveView) -> bool {
    &&& v.config.max_missed >= 1
    &&& v.alive == (v.missed_count < v.config.max_missed)
    &&& (v.pending_response ==> v.total_sent >= 1)
}

/// Every state reached from a new one (with `max_missed` at least 1) by
/// sending, receiving, missing and resetting is consistent (see
/// [`keepalive_consistent`]): alive exactly while fewer than `max_missed`
/// keepalives were missed in a row.
pub proof fn law_keepalive_consistent(config: KeepaliveConfig, v: KeepaliveView, now: u64)
    requires
        config.max_missed >= 1,
    ensures
        keepalive_consistent(new_view(config)),
        keepalive_consistent(v) && v.total_sent < u64::MAX ==> keepalive_consistent(sent_view(v, now)),
        keepalive_consistent(v) && v.total_received < u64::MAX ==> keepalive_consistent(received_view(v, now)),
        keepalive_consistent(v) && v.missed_count < u32::MAX ==> keepalive_consistent(missed_view(v)),
        keepalive_consistent(v) ==> keepalive_consistent(reset_view(v)),
{
}

/// Whether a keepalive is due at time `now`.
pub open spec fn keepalive_due(s: KeepaliveView, now: u64) -> bool {
    s.config.enabled && match s.last_sent {
        Some(t) => (if now >= t { now - t } else { 0 }) >= s.config.interval,
        None => true,
    }
}

/// Whether the pending keepalive has timed out at time `now`.
pub open spec fn response_timed_out(s: KeepaliveView, now: u64) -> bool {
    s.pending_response && match s.pending_since {
        Some(t) => (if now >= t { now - t } else { 0 }) >= s.config.response_timeout,
        None => false,
    }
}

/// Time elapsed from `t` to `now` (0 if the clock went back).
pub open spec fn elapsed(t: u64, now: u64) -> u64 {
    if now >= t { (now - t) as u64 } else { 0 }
}

impl KeepaliveState {
    /// Create new state.
    pub fn new(config: KeepaliveConfig) -> (r: Self)
        ensures
            r@ == new_view(config),
    {
        KeepaliveState {
            config,
            last_sent: None,
            last_received: None,
            missed_count: 0,
            alive: true,
            pending_response: false,
            pending_since: None,
            total_sent: 0,
            total_received: 0,
        }
    }

    /// Check if keepalive is enabled.
    pub fn is_enabled(&self) -> (r: bool)
        ensures
            r == self@.config.enabled,
    {
        self.config.enabled
    }

    /// Check if connection is alive.
    pub fn is_alive(&self) -> (r: bool)
        ensures
            r == self@.alive,
    {
        self.alive
    }

    /// Whether a keepalive is due at time `now`: enabled, and none sent yet or
    /// the interval elapsed since the last.
    pub fn is_keepalive_due_at(&self, now: u64) -> (r: bool)
        ensures
            r == keepalive_due(self@, now),
    {
        if !self.config.enabled {
            return false;
        }
        match self.last_sent {
            Some(last) => now.saturating_sub(last) >= self.config.interval,
            None => true,
        }
    }

    /// Whether a keepalive is due now (reads the clock).
    pub fn is_keepalive_due(&self) -> (r: bool)
        ensures
            exists|t: u64| r == keepalive_due(self@, t),
    {
        let now = now_millis();
        self.is_keepalive_due_at(now)
    }

    /// Whether the pending keepalive has timed out at time `now`.
    pub fn is_response_timed_out_at(&self, now: u64) -> (r: bool)
        ensures
            r == response_timed_out(self@, now),
    {
        if !self.pending_response {
            return false;
        }
        match self.pending_since {
            Some(t) => now.saturating_sub(t) >= self.config.response_timeout,
            None => false,
        }
    }

    /// Whether the pending keepalive has timed out now (reads the clock).
    pub fn is_response_timed_out(&self) -> (r: bool)
        ensures
            exists|t: u64| r == response_timed_out(self@, t),
    {
        let now = now_millis();
        self.is_response_timed_out_at(now)
    }

    /// Record sending a keepalive at time `now`.
    pub fn record_sent_at(&mut self, now: u64)
        requires
            old(self)@.total_sent < u64::MAX,
        ensures
            final(self)@ == sent_view(old(self)@, now),
    {
        self.last_sent = Some(now);
        self.pending_response = true;
        self.pending_since = Some(now);
        self.total_sent = self.total_sent + 1;
    }

    /// Record sending a keepalive now (reads the clock).
    pub fn record_sent(&mut self)
        requires
            old(self)@.total_sent < u64::MAX,
        ensures
            final(self)@.last_sent is Some,
            final(self)@ == (KeepaliveView {
                last_sent: final(self)@.last_sent,
                pending_response: true,
                pending_since: final(self)@.last_sent,
                total_sent: (old(self)@.total_sent + 1) as u64,
                ..old(self)@
            }),
    {
        let now = now_millis();
        self.record_sent_at(now);
    }

    /// Record receiving a response at time `now`.
    pub fn record_received_at(&mut self, now: u64)
        requires
            old(self)@.total_received < u64::MAX,
        ensures
            final(self)@ == received_view(old(self)@, now),
    {
        self.last_received = Some(now);
        self.missed_count = 0;
        self.alive = true;
        self.pending_response = false;
        self.pending_since = None;
        self.total_received = self.total_received + 1;
    }

    /// Record receiving a response now (reads the clock).
    pub fn record_received(&mut self)
        requires
            old(self)@.total_received < u64::MAX,
        ensures
            final(self)@.last_received is Some,
            final(self)@ == (KeepaliveView {
                last_received: final(self)@.last_received,
                missed_count: 0,
                alive: true,
                pending_response: false,
                pending_since: None,
                total_received: (old(self)@.total_received + 1) as u64,
                ..old(self)@
            }),
    {
        let now = now_millis();
        self.record_received_at(now);
    }

    /// Record a missed keepalive (timeout); the connection is dead once
    /// `max_missed` have been missed in a row.
    pub fn record_missed(&mut self)
        requires
            old(self)@.missed_count < u32::MAX,
        ensures
            final(self)@ == missed_view(old(self)@),
    {
        self.missed_count = self.missed_count + 1;
        self.pending_response = false;
        self.pending_since = None;
        if self.missed_count >= self.config.max_missed {
            self.alive = false;
        }
    }

    /// Get missed count.
    pub fn missed_count(&self) -> (r: u32)
        ensures
            r == self@.missed_count,
    {
        self.missed_count
    }

    /// Get total keepalives sent.
    pub fn total_sent(&self) -> (r: u64)
        ensures
            r == self@.total_sent,
    {
        self.total_sent
    }

    /// Get total responses received.
    pub fn total_received(&self) -> (r: u64)
        ensures
            r == self@.total_received,
    {
        self.total_received
    }

    /// Check if we're waiting for a response.
    pub fn is_pending(&self) -> (r: bool)
        ensures
            r == self@.pending_response,
    {
        self.pending_response
    }

    /// Time since last activity at `now`: since the last response if any,
    /// else since the last keepalive sent, else 0.
    pub fn time_since_activity_at(&self, now: u64) -> (r: u64)
        ensures
            r == (match self@.last_received {
                Some(t) => elapsed(t, now),
                None => match self@.last_sent {
                    Some(t) => elapsed(t, now),
                    None => 0,
                },
            }),
    {
        match self.last_received {
            Some(t) => now.saturating_sub(t),
            None => match self.last_sent {
                Some(t) => now.saturating_sub(t),
                None => 0,
            },
        }
    }

    /// Time since last activity now (reads the clock).
    pub fn time_since_activity(&self) -> (r: u64)
        ensures
            self@.last_received is None && self@.last_sent is None ==> r == 0,
    {
        let now = now_millis();
        self.time_since_activity_at(now)
    }

    /// Time since the last successful response at `now`.
    pub fn time_since_response_at(&self, now: u64) -> (r: Option<u64>)
        ensures
            r == (match self@.last_received {
                Some(t) => Some(elapsed(t, now)),
                None => None,
            }),
    {
        match self.last_received {
            Some(t) => Some(now.saturating_sub(t)),
            None => None,
        }
    }

    /// Time since the last successful response now (reads the clock).
    pub fn time_since_response(&self) -> (r: Option<u64>)
        ensures
            r is Some <==> self@.last_received is Some,
    {
        let now = now_millis();
        self.time_since_response_at(now)
    }

    /// Get the configuration.
    pub fn config(&self) -> (r: &KeepaliveConfig)
        ensures
            *r == self@.config,
    {
        &self.config
    }

    /// Reset state for reconnection (totals are kept).
    pub fn reset(&mut self)
        ensures
            final(self)@ == reset_view(old(self)@),
    {
        self.last_sent = None;
        self.last_received = None;
        self.missed_count = 0;
        self.alive = true;
        self.pending_response = false;
        self.pending_since = None;
    }
}

/// Result of a keepalive tick.
#[derive(Debug, Clone, Copy, PartialEq, Eq, Structural)]
pub enum KeepaliveAction {
    /// No action needed.
    NoAction,
    /// A keepalive should be sent.
    SendKeepalive,
    /// A pending keepalive timed out.
    Timeout,
    /// Connection is considered dead.
    Disconnect,
}

/// The action a tick at time `now` calls for.
pub open spec fn tick_action(s: KeepaliveView, now: u64) -> KeepaliveAction {
    if !s.config.enabled {
        KeepaliveAction::NoAction
    } else if !s.alive {
        KeepaliveAction::Disconnect
    } else if response_timed_out(s, now) {
        KeepaliveAction::Timeout
    } else if keepalive_due(s, now) {
        KeepaliveAction::SendKeepalive
    } else {
        KeepaliveAction::NoAction
    }
}

/// Keepalive statistics (time in milliseconds).
#[derive(Debug, Clone, Copy, PartialEq, Eq, Structural)]
pub struct KeepaliveStats {
    /// Total keepalives sent.
    pub total_sent: u64,
    /// Total responses received.
    pub total_received: u64,
    /// Current consecutive missed count.
    pub missed_count: u32,
    /// Whether connection is alive.
    pub is_alive: bool,
    /// Time since last activity.
    pub time_since_activity: u64,
}

/// Keepalive manager.
#[derive(Debug)]
pub struct KeepaliveManager {
    state: KeepaliveState,
}

impl KeepaliveManager {
    /// The managed state.
    pub closed spec fn spec_state(&self) -> KeepaliveView {
        self.state@
    }

    /// Create new manager.
    pub fn new(config: KeepaliveConfig) -> (r: Self)
        ensures
            r.spec_state() == new_view(config),
    {
        KeepaliveManager { state: KeepaliveState::new(config) }
    }

    /// Create a disabled manager.
    pub fn disabled() -> (r: Self)
        ensures
            r.spec_state() == new_view(
                KeepaliveConfig { enabled: false, ..KeepaliveConfig::spec_default() },
            ),
    {
        Self::new(KeepaliveConfig::disabled())
    }

    /// Get state.
    pub fn state(&self) -> (r: &KeepaliveState)
        ensures
            r@ == self.spec_state(),
    {
        &self.state
    }

    /// Get mutable state.
    pub fn state_mut(&mut self) -> (r: &mut KeepaliveState)
        ensures
            r@ == old(self).spec_state(),
            final(self).spec_state() == final(r)@,
    {
        &mut self.state
    }

    /// Check if keepalive is enabled.
    pub fn is_enabled(&self) -> (r: bool)
        ensures
            r == self.spec_state().config.enabled,
    {
        self.state.is_enabled()
    }

    /// Check if connection is alive.
    pub fn is_alive(&self) -> (r: bool)
        ensures
            r == self.spec_state().alive,
    {
        self.state.is_alive()
    }

    /// Whether a keepalive should be sent at time `now`.
    pub fn is_due_at(&self, now: u64) -> (r: bool)
        ensures
            r == keepalive_due(self.spec_state(), now),
    {
        self.state.is_keepalive_due_at(now)
    }

    /// Whether a keepalive should be sent now (reads the clock).
    pub fn is_due(&self) -> (r: bool)
        ensures
            exists|t: u64| r == keepalive_due(self.spec_state(), t),
    {
        self.state.is_keepalive_due()
    }

    /// The action to take at time `now`.
    pub fn tick_at(&self, now: u64) -> (r: KeepaliveAction)
        ensures
            r == tick_action(self.spec_state(), now),
    {
        if !self.state.is_enabled() {
            return KeepaliveAction::NoAction;
        }
        if !self.state.is_alive() {
            return KeepaliveAction::Disconnect;
        }
        if self.state.is_response_timed_out_at(now) {
            return KeepaliveAction::Timeout;
        }
        if self.state.is_keepalive_due_at(now) {
            return KeepaliveAction::SendKeepalive;
        }
        KeepaliveAction::NoAction
    }

    /// The action to take now (reads the clock once).
    pub fn tick(&mut self) -> (r: KeepaliveAction)
        ensures
            exists|t: u64| r == tick_action(old(self).spec_state(), t),
            final(self).spec_state() == old(self).spec_state(),
    {
        let now = now_millis();
        self.tick_at(now)
    }

    /// Record that a keepalive was sent at `now`.
    pub fn record_sent_at(&mut self, now: u64)
        requires
            old(self).spec_state().total_sent < u64::MAX,
        ensures
            final(self).spec_state() == sent_view(old(self).spec_state(), now),
    {
        self.state.record_sent_at(now);
    }

    /// Record that a keepalive was sent now (reads the clock).
    pub fn record_sent(&mut self)
        requires
            old(self).spec_state().total_sent < u64::MAX,
        ensures
            final(self).spec_state().pending_response,
            final(self).spec_state().total_sent == old(self).spec_state().total_sent + 1,
            final(self).spec_state().total_received == old(self).spec_state().total_received,
            final(self).spec_state().alive == old(self).spec_state().alive,
            final(self).spec_state().config == old(self).spec_state().config,
    {
        self.state.record_sent();
    }

    /// Record that a response was received at `now`.
    pub fn record_response_at(&mut self, now: u64)
        requires
            old(self).spec_state().total_received < u64::MAX,
        ensures
            final(self).spec_state() == received_view(old(self).spec_state(), now),
    {
        self.state.record_received_at(now);
    }

    /// Record that a response was received now (reads the clock).
    pub fn record_response(&mut self)
        requires
            old(self).spec_state().total_received < u64::MAX,
        ensures
            !final(self).spec_state().pending_response,
            final(self).spec_state().alive,
            final(self).spec_state().missed_count == 0,
            final(self).spec_state().total_received == old(self).spec_state().total_received + 1,
            final(self).spec_state().total_sent == old(self).spec_state().total_sent,
            final(self).spec_state().config == old(self).spec_state().config,
    {
        self.state.record_received();
    }

    /// Record that a keepalive timed out.
    pub fn record_timeout(&mut self)
        requires
            old(self).spec_state().missed_count < u32::MAX,
        ensures
            final(self).spec_state() == missed_view(old(self).spec_state()),
    {
        self.state.record_missed();
    }

    /// Handle keepalive response (as `record_response`).
    pub fn handle_response(&mut self)
        requires
            old(self).spec_state().total_received < u64::MAX,
        ensures
            !final(self).spec_state().pending_response,
            final(self).spec_state().alive,
            final(self).spec_state().missed_count == 0,
            final(self).spec_state().total_received == old(self).spec_state().total_received + 1,
            final(self).spec_state().total_sent == old(self).spec_state().total_sent,
            final(self).spec_state().config == old(self).spec_state().config,
    {
        self.record_response();
    }

    /// Handle keepalive timeout (as `record_timeout`).
    pub fn handle_timeout(&mut self)
        requires
            old(self).spec_state().missed_count < u32::MAX,
        ensures
            final(self).spec_state().missed_count == old(self).spec_state().missed_count + 1,
            !final(self).spec_state().pending_response,
            final(self).spec_state().alive == (old(self).spec_state().alive
                && old(self).spec_state().missed_count + 1 < old(self).spec_state().config.max_missed),
    {
        self.record_timeout();
    }

    /// Whether the connection should be closed due to missed keepalives.
    pub fn should_disconnect(&self) -> (r: bool)
        ensures
            r == !self.spec_state().alive,
    {
        !self.state.is_alive()
    }

    /// Statistics at time `now`.
    pub fn stats_at(&self, now: u64) -> (r: KeepaliveStats)
        ensures
            r.total_sent == self.spec_state().total_sent,
            r.total_received == self.spec_state().total_received,
            r.missed_count == self.spec_state().missed_count,
            r.is_alive == self.spec_state().alive,
            r.time_since_activity == (match self.spec_state().last_received {
                Some(t) => elapsed(t, now),
                None => match self.spec_state().last_sent {
                    Some(t) => elapsed(t, now),
                    None => 0,
                },
            }),
    {
        KeepaliveStats {
            total_sent: self.state.total_sent(),
            total_received: self.state.total_received(),
            missed_count: self.state.missed_count(),
            is_alive: self.state.is_alive(),
            time_since_activity: self.state.time_since_activity_at(now),
        }
    }

    /// Statistics now (reads the clock).
    pub fn stats(&self) -> (r: KeepaliveStats)
        ensures
            r.total_sent == self.spec_state().total_sent,
            r.total_received == self.spec_state().total_received,
            r.missed_count == self.spec_state().missed_count,
            r.is_alive == self.spec_state().alive,
    {
        let now = now_millis();
        self.stats_at(now)
    }

    /// Reset the manager for reconnection.
    pub fn reset(&mut self)
        ensures
            final(self).spec_state() == reset_view(old(self).spec_state()),
    {
        self.state.reset();
    }
}

/// A response resets the missed count and revives the connection, whatever
/// came before it.
pub proof fn law_response_revives(s: KeepaliveView, now: u64, r: KeepaliveView)
    requires
        r == received_view(s, now),
        s.config.enabled,
    ensures
        tick_action(r, now) != KeepaliveAction::Disconnect,
        tick_action(r, now) != KeepaliveAction::Timeout,
{
}

} // verus!
