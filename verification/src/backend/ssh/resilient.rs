//! A resilient SSH session: reconnection with backoff and keepalive
//! monitoring. Times are milliseconds on the caller's clock; waiting before a
//! reconnection is left to the caller, between
//! [`ResilientSession::begin_reconnect`] and
//! [`ResilientSession::finish_reconnect_at`].
use vstd::prelude::*;
use crate::backend::ssh::keepalive::{
    tick_action, KeepaliveAction, KeepaliveConfig, KeepaliveManager, KeepaliveState, KeepaliveView,
};
use crate::backend::ssh::retry::{delay_spec, RetryPolicy, RetryState, RetryStrategy};
use crate::backend::ssh::session::{SshConfig, SshSession, SshSessionState};
use crate::clock::now_millis;
use crate::error::ExpectError;

verus! {

/// The state of a resilient session.
#[derive(Debug, Clone, Copy, PartialEq, Eq, Structural)]
pub enum ResilientState {
    /// Disconnected.
    Disconnected,
    /// Connected.
    Connected,
    /// Reconnecting.
    Reconnecting,
    /// Failed (gave up).
    Failed,
}

/// Configuration of a resilient session (delays in milliseconds).
#[derive(Debug, Clone)]
pub struct ResilientConfig {
    /// The SSH configuration.
    pub ssh: SshConfig,
    /// The retry policy.
    pub retry: RetryPolicy,
    /// Keepalive configuration.
    pub keepalive: KeepaliveConfig,
    /// Whether to reconnect automatically.
    pub auto_reconnect: bool,
    /// Maximum reconnection attempts.
    pub max_reconnect_attempts: u32,
    /// Initial delay before reconnecting.
    pub reconnect_delay: u64,
}

impl ResilientConfig {
    /// A configuration for `ssh` with the default retry policy and
    /// keepalive, automatic reconnection, 5 attempts from a 5 s delay.
    pub fn new(ssh: SshConfig) -> (r: Self)
        ensures
            r.ssh == ssh,
            r.keepalive == KeepaliveConfig::spec_default(),
            r.retry.connection == RetryStrategy::spec_default(),
            r.auto_reconnect,
            r.max_reconnect_attempts == 5,
            r.reconnect_delay == 5000,
    {
        ResilientConfig {
            ssh,
            retry: RetryPolicy::default(),
            keepalive: KeepaliveConfig::new(),
            auto_reconnect: true,
            max_reconnect_attempts: 5,
            reconnect_delay: 5000,
        }
    }

    /// Set the retry policy.
    pub fn with_retry(self, policy: RetryPolicy) -> (r: Self)
        ensures
            r.retry == policy,
            r.ssh == self.ssh,
            r.keepalive == self.keepalive,
            r.auto_reconnect == self.auto_reconnect,
            r.max_reconnect_attempts == self.max_reconnect_attempts,
            r.reconnect_delay == self.reconnect_delay,
    {
        ResilientConfig { retry: policy, ..self }
    }

    /// Set the keepalive configuration.
    pub fn with_keepalive(self, config: KeepaliveConfig) -> (r: Self)
        ensures
            r.keepalive == config,
            r.ssh == self.ssh,
            r.retry == self.retry,
            r.auto_reconnect == self.auto_reconnect,
            r.max_reconnect_attempts == self.max_reconnect_attempts,
            r.reconnect_delay == self.reconnect_delay,
    {
        ResilientConfig { keepalive: config, ..self }
    }

    /// Turn automatic reconnection off.
    pub fn no_auto_reconnect(self) -> (r: Self)
        ensures
            !r.auto_reconnect,
            r.ssh == self.ssh,
            r.retry == self.retry,
            r.keepalive == self.keepalive,
            r.max_reconnect_attempts == self.max_reconnect_attempts,
            r.reconnect_delay == self.reconnect_delay,
    {
        ResilientConfig { auto_reconnect: false, ..self }
    }
}

/// An SSH session that reconnects and watches keepalives.
#[derive(Debug)]
pub struct ResilientSession {
    config: ResilientConfig,
    session: Option<SshSession>,
    state: ResilientState,
    reconnect_state: RetryState,
    keepalive: KeepaliveManager,
    last_activity: u64,
    reconnect_count: u32,
}

/// The reconnection strategy of a configuration: exponential from the
/// reconnection delay, for the maximum number of attempts.
pub open spec fn reconnect_strategy(c: ResilientConfig) -> RetryStrategy {
    RetryStrategy::Exponential {
        initial_delay: c.reconnect_delay,
        max_delay: 60_000,
        multiplier_milli: 2000,
        max_attempts: c.max_reconnect_attempts,
    }
}

impl ResilientSession {
    /// The configuration.
    pub closed spec fn spec_config(&self) -> ResilientConfig {
        self.config
    }

    /// The state.
    pub closed spec fn spec_state(&self) -> ResilientState {
        self.state
    }

    /// Whether a session is held, and whether it is connected.
    pub closed spec fn spec_session_connected(&self) -> Option<bool> {
        match self.session {
            Some(s) => Some(s.spec_state() == SshSessionState::Connected),
            None => None,
        }
    }

    /// The reconnection attempt count since the last connection.
    pub closed spec fn spec_attempt(&self) -> u32 {
        self.reconnect_state.spec_attempt()
    }

    /// The reconnection strategy.
    pub closed spec fn spec_strategy(&self) -> RetryStrategy {
        self.reconnect_state.spec_strategy()
    }

    /// The keepalive state.
    pub closed spec fn spec_keepalive(&self) -> KeepaliveView {
        self.keepalive.spec_state()
    }

    /// When activity was last seen.
    pub closed spec fn spec_last_activity(&self) -> u64 {
        self.last_activity
    }

    /// How many reconnections succeeded.
    pub closed spec fn spec_reconnect_count(&self) -> u32 {
        self.reconnect_count
    }

    /// Whether the session counts as connected.
    pub open spec fn connected_spec(&self) -> bool {
        self.spec_state() == ResilientState::Connected && self.spec_session_connected() == Some(true)
    }

    /// A disconnected session created at `now`.
    pub fn new_at(config: ResilientConfig, now: u64) -> (r: Self)
        ensures
            r.spec_config() == config,
            r.spec_state() == ResilientState::Disconnected,
            r.spec_session_connected() is None,
            r.spec_attempt() == 0,
            r.spec_strategy() == reconnect_strategy(config),
            r.spec_keepalive() == crate::backend::ssh::keepalive::new_view(config.keepalive),
            r.spec_last_activity() == now,
            r.spec_reconnect_count() == 0,
    {
        let keepalive = KeepaliveManager::new(config.keepalive.clone());
        let strategy = RetryStrategy::exponential(config.reconnect_delay, config.max_reconnect_attempts);
        ResilientSession {
            config,
            session: None,
            state: ResilientState::Disconnected,
            reconnect_state: RetryState::new(strategy),
            keepalive,
            last_activity: now,
            reconnect_count: 0,
        }
    }

    /// A disconnected session created now (reads the clock).
    pub fn new(config: ResilientConfig) -> (r: Self)
        ensures
            r.spec_config() == config,
            r.spec_state() == ResilientState::Disconnected,
            r.spec_session_connected() is None,
            r.spec_attempt() == 0,
            r.spec_strategy() == reconnect_strategy(config),
            r.spec_reconnect_count() == 0,
    {
        let now = now_millis();
        Self::new_at(config, now)
    }

    /// The state.
    pub fn state(&self) -> (r: ResilientState)
        ensures
            r == self.spec_state(),
    {
        self.state
    }

    /// Whether the session is connected: the state says so and the held
    /// session is connected.
    pub fn is_connected(&self) -> (r: bool)
        ensures
            r == self.connected_spec(),
    {
        self.state == ResilientState::Connected && match &self.session {
            Some(s) => s.is_connected(),
            None => false,
        }
    }

    /// How many reconnections succeeded.
    pub fn reconnect_count(&self) -> (r: u32)
        ensures
            r == self.spec_reconnect_count(),
    {
        self.reconnect_count
    }

    /// Connect at time `now`: a new session is connected, the attempts start
    /// over.
    pub fn connect_at(&mut self, now: u64) -> (r: Result<(), ExpectError>)
        ensures
            r is Ok,
            final(self).spec_state() == ResilientState::Connected,
            final(self).spec_session_connected() == Some(true),
            final(self).spec_attempt() == 0,
            final(self).spec_last_activity() == now,
            final(self).spec_config() == old(self).spec_config(),
            final(self).spec_strategy() == old(self).spec_strategy(),
            final(self).spec_keepalive() == old(self).spec_keepalive(),
            final(self).spec_reconnect_count() == old(self).spec_reconnect_count(),
    {
        let mut session = SshSession::new(self.config.ssh.clone());
        match session.connect() {
            Ok(()) => {},
            Err(e) => {
                return Err(e);
            },
        }
        self.session = Some(session);
        self.state = ResilientState::Connected;
        self.last_activity = now;
        self.reconnect_state.reset();
        Ok(())
    }

    /// Connect now (reads the clock).
    pub fn connect(&mut self) -> (r: Result<(), ExpectError>)
        ensures
            r is Ok,
            final(self).spec_state() == ResilientState::Connected,
            final(self).spec_session_connected() == Some(true),
            final(self).spec_attempt() == 0,
            final(self).spec_config() == old(self).spec_config(),
            final(self).spec_strategy() == old(self).spec_strategy(),
            final(self).spec_keepalive() == old(self).spec_keepalive(),
            final(self).spec_reconnect_count() == old(self).spec_reconnect_count(),
    {
        let now = now_millis();
        self.connect_at(now)
    }

    /// Disconnect and drop the session.
    pub fn disconnect(&mut self)
        ensures
            final(self).spec_state() == ResilientState::Disconnected,
            final(self).spec_session_connected() is None,
            final(self).spec_attempt() == old(self).spec_attempt(),
            final(self).spec_config() == old(self).spec_config(),
            final(self).spec_strategy() == old(self).spec_strategy(),
            final(self).spec_keepalive() == old(self).spec_keepalive(),
            final(self).spec_reconnect_count() == old(self).spec_reconnect_count(),
            final(self).spec_last_activity() == old(self).spec_last_activity(),
    {
        match &mut self.session {
            Some(s) => {
                s.disconnect();
            },
            None => {},
        }
        self.session = None;
        self.state = ResilientState::Disconnected;
    }

    /// The first half of a reconnection: refused (`SessionClosed`) without
    /// automatic reconnection, and refused with the state `Failed` once no
    /// attempt is left; else the state becomes `Reconnecting` and the delay to
    /// wait before [`ResilientSession::finish_reconnect_at`] is returned.
    pub fn begin_reconnect(&mut self) -> (r: Result<Option<u64>, ExpectError>)
        ensures
            final(self).spec_config() == old(self).spec_config(),
            final(self).spec_attempt() == old(self).spec_attempt(),
            final(self).spec_strategy() == old(self).spec_strategy(),
            final(self).spec_session_connected() == old(self).spec_session_connected(),
            final(self).spec_keepalive() == old(self).spec_keepalive(),
            final(self).spec_reconnect_count() == old(self).spec_reconnect_count(),
            final(self).spec_last_activity() == old(self).spec_last_activity(),
            !old(self).spec_config().auto_reconnect ==> r == Err::<Option<u64>, ExpectError>(ExpectError::SessionClosed)
                && final(self).spec_state() == old(self).spec_state(),
            old(self).spec_config().auto_reconnect && delay_spec(old(self).spec_strategy(), old(self).spec_attempt()) is None
                ==> r == Err::<Option<u64>, ExpectError>(ExpectError::SessionClosed)
                && final(self).spec_state() == ResilientState::Failed,
            old(self).spec_config().auto_reconnect && delay_spec(old(self).spec_strategy(), old(self).spec_attempt()) is Some
                ==> r is Ok && r->Ok_0 is Some
                && r->Ok_0->0 == delay_spec(old(self).spec_strategy(), old(self).spec_attempt())->0
                && final(self).spec_state() == ResilientState::Reconnecting
                && old(self).spec_attempt() < u32::MAX,
    {
        if !self.config.auto_reconnect {
            return Err(ExpectError::SessionClosed);
        }
        if !self.reconnect_state.should_retry() {
            self.state = ResilientState::Failed;
            return Err(ExpectError::SessionClosed);
        }
        self.state = ResilientState::Reconnecting;
        Ok(self.reconnect_state.next_delay())
    }

    /// The second half of a reconnection, after the wait: the attempt is
    /// recorded and a new session connected at `now`, which counts as a
    /// successful reconnection.
    pub fn finish_reconnect_at(&mut self, now: u64) -> (r: Result<(), ExpectError>)
        requires
            old(self).spec_attempt() < u32::MAX,
        ensures
            r is Ok,
            final(self).spec_state() == ResilientState::Connected,
            final(self).spec_session_connected() == Some(true),
            final(self).spec_attempt() == 0,
            final(self).spec_last_activity() == now,
            final(self).spec_reconnect_count() == (if old(self).spec_reconnect_count() < u32::MAX {
                old(self).spec_reconnect_count() + 1
            } else {
                old(self).spec_reconnect_count() as int
            }),
            final(self).spec_config() == old(self).spec_config(),
            final(self).spec_strategy() == old(self).spec_strategy(),
            final(self).spec_keepalive() == old(self).spec_keepalive(),
    {
        self.reconnect_state.record_attempt();
        match self.connect_at(now) {
            Ok(()) => {
                self.reconnect_count = self.reconnect_count.saturating_add(1);
                Ok(())
            },
            Err(e) => {
                if !self.reconnect_state.should_retry() {
                    self.state = ResilientState::Failed;
                }
                Err(e)
            },
        }
    }

    /// Handle a lost connection: the session is dropped; with automatic
    /// reconnection a reconnection begins (see
    /// [`ResilientSession::begin_reconnect`]), else the state becomes
    /// `Disconnected` and `SessionClosed` is returned.
    pub fn handle_disconnect(&mut self) -> (r: Result<Option<u64>, ExpectError>)
        ensures
            final(self).spec_session_connected() is None,
            final(self).spec_config() == old(self).spec_config(),
            final(self).spec_attempt() == old(self).spec_attempt(),
            !old(self).spec_config().auto_reconnect ==> r == Err::<Option<u64>, ExpectError>(ExpectError::SessionClosed)
                && final(self).spec_state() == ResilientState::Disconnected,
            old(self).spec_config().auto_reconnect && delay_spec(old(self).spec_strategy(), old(self).spec_attempt()) is None
                ==> r == Err::<Option<u64>, ExpectError>(ExpectError::SessionClosed)
                && final(self).spec_state() == ResilientState::Failed,
            old(self).spec_config().auto_reconnect && delay_spec(old(self).spec_strategy(), old(self).spec_attempt()) is Some
                ==> r is Ok && r->Ok_0 is Some && final(self).spec_state() == ResilientState::Reconnecting
                && old(self).spec_attempt() < u32::MAX,
    {
        self.session = None;
        if self.config.auto_reconnect {
            self.begin_reconnect()
        } else {
            self.state = ResilientState::Disconnected;
            Err(ExpectError::SessionClosed)
        }
    }

    /// A keepalive tick at `now`: whether the connection is still fine (the
    /// tick calls for nothing or for a keepalive); never when disconnected.
    pub fn keepalive_tick_at(&self, now: u64) -> (r: bool)
        ensures
            r == (self.connected_spec() && (tick_action(self.spec_keepalive(), now) == KeepaliveAction::NoAction
                || tick_action(self.spec_keepalive(), now) == KeepaliveAction::SendKeepalive)),
    {
        if !self.is_connected() {
            return false;
        }
        match self.keepalive.tick_at(now) {
            KeepaliveAction::NoAction | KeepaliveAction::SendKeepalive => true,
            KeepaliveAction::Timeout | KeepaliveAction::Disconnect => false,
        }
    }

    /// A keepalive tick now (reads the clock).
    pub fn keepalive_tick(&self) -> (r: bool)
        ensures
            r ==> self.connected_spec(),
    {
        let now = now_millis();
        self.keepalive_tick_at(now)
    }

    /// Whether the session is connected and its keepalive alive.
    pub fn is_healthy(&self) -> (r: bool)
        ensures
            r == (self.connected_spec() && self.spec_keepalive().alive),
    {
        self.is_connected() && self.keepalive.state().is_alive()
    }

    /// The held session, if any.
    pub fn session(&self) -> (r: Option<&SshSession>)
        ensures
            r is Some <==> self.spec_session_connected() is Some,
            r matches Some(s) ==> self.spec_session_connected() == Some(s.spec_state() == SshSessionState::Connected),
    {
        match &self.session {
            Some(s) => Some(s),
            None => None,
        }
    }

    /// Record activity at `now`: the keepalive counts a response.
    pub fn record_activity_at(&mut self, now: u64)
        requires
            old(self).spec_keepalive().total_received < u64::MAX,
        ensures
            final(self).spec_last_activity() == now,
            final(self).spec_keepalive().alive,
            final(self).spec_keepalive().missed_count == 0,
            !final(self).spec_keepalive().pending_response,
            final(self).spec_state() == old(self).spec_state(),
            final(self).spec_session_connected() == old(self).spec_session_connected(),
            final(self).spec_config() == old(self).spec_config(),
    {
        self.last_activity = now;
        self.keepalive.handle_response();
    }

    /// How long the session has been idle at `now`.
    pub fn idle_time_at(&self, now: u64) -> (r: u64)
        ensures
            r == (if now >= self.spec_last_activity() { now - self.spec_last_activity() } else { 0 }),
    {
        if now >= self.last_activity {
            now - self.last_activity
        } else {
            0
        }
    }
}

} // verus!
