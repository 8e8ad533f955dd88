use rust_expect::backend::ssh::auth::HostKeyVerification;
use rust_expect::backend::ssh::channel::{ChannelConfig, ChannelState, SshChannel};
use rust_expect::backend::ssh::keepalive::{KeepaliveAction, KeepaliveConfig, KeepaliveManager, KeepaliveState};
use rust_expect::backend::ssh::pool::{ConnectionPool, PoolConfig};
use rust_expect::backend::ssh::resilient::{ResilientConfig, ResilientSession, ResilientState};
use rust_expect::backend::ssh::retry::{RetryState, RetryStrategy};
use rust_expect::backend::ssh::session::{SshConfig, SshSession, SshSessionState};

#[test]
fn keepalive_config_builder() {
    let config = KeepaliveConfig::new()
        .interval(60_000)
        .max_missed(5)
        .response_timeout(20_000)
        .use_ssh_keepalive(true)
        .enabled(true);

    assert_eq!(config.interval, 60_000);
    assert_eq!(config.max_missed, 5);
    assert_eq!(config.response_timeout, 20_000);
    assert!(config.use_ssh_keepalive);
    assert!(config.enabled);
}

#[test]
fn keepalive_config_presets() {
    let disabled = KeepaliveConfig::disabled();
    assert!(!disabled.enabled);

    let high_latency = KeepaliveConfig::high_latency();
    assert_eq!(high_latency.interval, 60_000);
    assert_eq!(high_latency.max_missed, 5);

    let aggressive = KeepaliveConfig::aggressive();
    assert_eq!(aggressive.interval, 15_000);
    assert_eq!(aggressive.max_missed, 2);
}

#[test]
fn keepalive_state_lifecycle() {
    let config = KeepaliveConfig::new().max_missed(2);
    let mut state = KeepaliveState::new(config);

    assert!(state.is_alive());
    assert!(!state.is_pending());
    assert_eq!(state.total_sent(), 0);

    state.record_sent();
    assert!(state.is_pending());
    assert_eq!(state.total_sent(), 1);

    state.record_received();
    assert!(!state.is_pending());
    assert_eq!(state.total_received(), 1);
    assert!(state.is_alive());
}

#[test]
fn keepalive_state_missed() {
    let config = KeepaliveConfig::new().max_missed(2);
    let mut state = KeepaliveState::new(config);

    assert!(state.is_alive());

    state.record_missed();
    assert!(state.is_alive());
    assert_eq!(state.missed_count(), 1);

    state.record_missed();
    assert!(!state.is_alive());
    assert_eq!(state.missed_count(), 2);
}

#[test]
fn keepalive_state_recovery() {
    let config = KeepaliveConfig::new().max_missed(2);
    let mut state = KeepaliveState::new(config);

    state.record_missed();
    state.record_received();
    assert_eq!(state.missed_count(), 0);
    assert!(state.is_alive());
}

#[test]
fn keepalive_manager_disabled() {
    let mut manager = KeepaliveManager::disabled();
    assert!(!manager.is_enabled());
    assert_eq!(manager.tick(), KeepaliveAction::NoAction);
}

#[test]
fn keepalive_manager_tick() {
    let config = KeepaliveConfig::new().interval(10);
    let mut manager = KeepaliveManager::new(config);

    assert_eq!(manager.tick(), KeepaliveAction::SendKeepalive);

    manager.record_sent();

    assert_eq!(manager.tick(), KeepaliveAction::NoAction);
}

#[test]
fn keepalive_manager_stats() {
    let config = KeepaliveConfig::new();
    let mut manager = KeepaliveManager::new(config);

    manager.record_sent();
    manager.record_response();

    let stats = manager.stats();
    assert_eq!(stats.total_sent, 1);
    assert_eq!(stats.total_received, 1);
    assert!(stats.is_alive);
}

#[test]
fn keepalive_action_variants() {
    assert_eq!(KeepaliveAction::NoAction, KeepaliveAction::NoAction);
    assert_eq!(KeepaliveAction::SendKeepalive, KeepaliveAction::SendKeepalive);
    assert_eq!(KeepaliveAction::Timeout, KeepaliveAction::Timeout);
    assert_eq!(KeepaliveAction::Disconnect, KeepaliveAction::Disconnect);
}

#[test]
fn keepalive_manager_reset() {
    let config = KeepaliveConfig::new().max_missed(1);
    let mut manager = KeepaliveManager::new(config);

    manager.record_sent();
    manager.record_timeout();
    assert!(!manager.is_alive());

    manager.reset();
    assert!(manager.is_alive());
    assert!(!manager.state().is_pending());
}

#[test]
fn keepalive_due_at_explicit_times() {
    let config = KeepaliveConfig::new().interval(1_000).response_timeout(500);
    let mut state = KeepaliveState::new(config);
    state.record_sent_at(100);
    assert!(!state.is_keepalive_due_at(200));
    assert!(!state.is_response_timed_out_at(599));
    assert!(state.is_response_timed_out_at(600));
    assert!(state.is_keepalive_due_at(1_100));
    state.record_received_at(150);
    assert!(!state.is_keepalive_due_at(1_099));
    assert!(state.is_keepalive_due_at(1_100));
}

#[test]
fn channel_config() {
    let config = ChannelConfig::new()
        .term("vt100".to_string())
        .dimensions(120, 40)
        .buffer_size(65536);

    assert_eq!(config.term, "vt100");
    assert_eq!(config.dimensions.cols, 120);
    assert_eq!(config.buffer_size, 65536);
}

#[test]
fn channel_state() {
    let mut channel = SshChannel::new(ChannelConfig::new());
    assert_eq!(channel.state(), ChannelState::Opening);

    channel.open().unwrap();
    assert!(channel.is_open());

    channel.close();
    assert!(channel.is_closed());
}

#[test]
fn ssh_config_builder() {
    let config = SshConfig::new("example.com".to_string(), "nobody".to_string())
        .port(2222)
        .username("admin".to_string())
        .with_compression();

    assert_eq!(config.host, "example.com");
    assert_eq!(config.port, 2222);
    assert!(config.compression);
    assert_eq!(config.address(), "example.com:2222");
}

#[test]
fn ssh_session_state() {
    let mut session = SshSession::new(SshConfig::new("host".to_string(), "nobody".to_string()));
    assert_eq!(session.state(), SshSessionState::Disconnected);

    session.connect().unwrap();
    assert!(session.is_connected());

    session.disconnect();
    assert!(!session.is_connected());
}

#[test]
fn ssh_config_defaults() {
    let config = SshConfig::default_for("nobody".to_string());
    assert_eq!(config.port, 22);
    assert_eq!(config.connect_timeout, 30_000);
    assert!(!config.compression);
    assert_eq!(config.host_key_verification, HostKeyVerification::KnownHosts);
}

#[test]
fn pool_stats_empty() {
    let pool = ConnectionPool::with_defaults();
    let stats = pool.stats();

    assert_eq!(stats.total, 0);
    assert_eq!(stats.active, 0);
    assert_eq!(stats.idle, 0);
    assert_eq!(stats.connected, 0);
    assert!(stats.is_empty());
}

#[test]
fn pool_config_builder() {
    let config = PoolConfig::new()
        .max_per_host(10)
        .max_total(50)
        .idle_timeout(600_000)
        .reuse_connections(true)
        .validate_on_checkout(false)
        .max_connection_age(Some(7_200_000));

    let pool = ConnectionPool::new(config);
    assert_eq!(pool.config().max_per_host, 10);
    assert_eq!(pool.config().max_total, 50);
    assert_eq!(pool.config().idle_timeout, 600_000);
    assert!(pool.config().reuse_connections);
    assert!(!pool.config().validate_on_checkout);
    assert_eq!(pool.config().max_connection_age, Some(7_200_000));
}

#[test]
fn pool_config_defaults() {
    let config = PoolConfig::new();

    assert_eq!(config.max_per_host, 5);
    assert_eq!(config.max_total, 20);
    assert_eq!(config.idle_timeout, 300_000);
    assert!(config.reuse_connections);
    assert!(config.validate_on_checkout);
    assert_eq!(config.max_connection_age, Some(3_600_000));
}

#[test]
fn pool_cleanup_empty() {
    let mut pool = ConnectionPool::with_defaults();
    pool.cleanup(0);
    assert!(pool.stats().is_empty());
}

#[test]
fn pool_close_all_empty() {
    let mut pool = ConnectionPool::with_defaults();
    pool.close_all();
    assert!(pool.stats().is_empty());
}

#[test]
fn pool_reuses_released_connection_and_limits_per_host() {
    let mut pool = ConnectionPool::new(PoolConfig::new().max_per_host(1));
    let cfg = SshConfig::new("h".to_string(), "u".to_string());
    let first = pool.get(&cfg, 10).unwrap();
    let id = first.id();
    assert!(pool.get(&cfg, 11).is_err());
    pool.release(first);
    let again = pool.get(&cfg, 12).unwrap();
    assert_eq!(again.id(), id);
    let stats = pool.stats();
    assert_eq!(stats.total, 1);
    assert_eq!(stats.active, 1);
    assert_eq!(stats.hosts, 1);
}

#[test]
fn fixed_strategy() {
    let strategy = RetryStrategy::fixed(100, 3);

    assert!(strategy.should_retry(0));
    assert!(strategy.should_retry(2));
    assert!(!strategy.should_retry(3));
}

#[test]
fn exponential_strategy() {
    let strategy = RetryStrategy::exponential(100, 3);

    let d0 = strategy.delay_for_attempt(0).unwrap();
    let d1 = strategy.delay_for_attempt(1).unwrap();
    let d2 = strategy.delay_for_attempt(2).unwrap();

    assert!(d1 > d0);
    assert!(d2 > d1);
    assert_eq!(d0, 100);
    assert_eq!(d1, 200);
    assert_eq!(d2, 400);
    assert_eq!(strategy.delay_for_attempt(3), None);
}

#[test]
fn retry_state() {
    let strategy = RetryStrategy::fixed(100, 2);
    let mut state = RetryState::new(strategy);

    assert!(state.should_retry());
    state.record_attempt();
    assert!(state.should_retry());
    state.record_attempt();
    assert!(!state.should_retry());
    assert_eq!(state.total_delay(), 200);
}

#[test]
fn resilient_config() {
    let ssh_config = SshConfig::new("example.com".to_string(), "nobody".to_string());
    let config = ResilientConfig::new(ssh_config).with_keepalive(KeepaliveConfig::new().interval(10_000));

    assert!(config.auto_reconnect);
    assert_eq!(config.keepalive.interval, 10_000);
}

#[test]
fn resilient_session_state() {
    let ssh_config = SshConfig::new("example.com".to_string(), "nobody".to_string());
    let config = ResilientConfig::new(ssh_config);
    let session = ResilientSession::new(config);

    assert_eq!(session.state(), ResilientState::Disconnected);
    assert!(!session.is_connected());
}

#[test]
fn pool_cleanup_measures_idleness_from_release() {
    let mut pool = ConnectionPool::new(PoolConfig::new().idle_timeout(1_000).max_connection_age(None));
    let cfg = SshConfig::new("h".to_string(), "u".to_string());
    let conn = pool.get(&cfg, 0).unwrap();
    pool.release_at(conn, 5_000);
    pool.cleanup(5_500);
    assert_eq!(pool.stats().total, 1);
    pool.cleanup(6_001);
    assert_eq!(pool.stats().total, 0);
}

#[test]
fn keepalive_alive_tracks_missed_count() {
    let config = KeepaliveConfig::new().max_missed(2);
    let mut state = KeepaliveState::new(config);
    state.record_sent_at(0);
    state.record_missed();
    assert!(state.is_alive());
    state.record_sent_at(10);
    state.record_missed();
    assert!(!state.is_alive());
    assert_eq!(state.missed_count(), 2);
    state.record_received_at(20);
    assert!(state.is_alive());
    assert_eq!(state.missed_count(), 0);
}

#[test]
fn pool_stats_are_consistent() {
    let mut pool = ConnectionPool::new(PoolConfig::new());
    let a = SshConfig::new("h1".to_string(), "u".to_string());
    let b = SshConfig::new("h2".to_string(), "u".to_string());
    let first = pool.get(&a, 0).unwrap();
    let _second = pool.get(&b, 0).unwrap();
    pool.release_at(first, 5);
    let stats = pool.stats();
    assert_eq!(stats.total, stats.active + stats.idle);
    assert!(stats.connected <= stats.total);
    assert_eq!(stats.hosts, 2);
    assert_eq!(stats.active, 1);
}

#[test]
fn pool_get_refuses_past_the_total_limit() {
    let mut pool = ConnectionPool::new(PoolConfig::new().max_total(1));
    let a = SshConfig::new("h1".to_string(), "u".to_string());
    let b = SshConfig::new("h2".to_string(), "u".to_string());
    let _first = pool.get(&a, 0).unwrap();
    match pool.get(&b, 0) {
        Err(rust_expect::error::ExpectError::Config { message }) => {
            assert_eq!(message, "Maximum total connections (1) exceeded")
        }
        other => panic!("unexpected {other:?}"),
    }
    assert_eq!(pool.stats().total, 1);
}

#[test]
fn exponential_backoff_multiplies_then_limits_once() {
    let s = RetryStrategy::Exponential { initial_delay: 1, max_delay: 1_000, multiplier_milli: 1_500, max_attempts: 5 };
    assert_eq!(s.delay_for_attempt(0), Some(1));
    assert_eq!(s.delay_for_attempt(2), Some(2));
    assert_eq!(s.delay_for_attempt(4), Some(5));
    let shrinking = RetryStrategy::Exponential { initial_delay: 1_000, max_delay: 100, multiplier_milli: 500, max_attempts: 5 };
    assert_eq!(shrinking.delay_for_attempt(0), Some(100));
    assert_eq!(shrinking.delay_for_attempt(1), Some(100));
    assert_eq!(shrinking.delay_for_attempt(4), Some(62));
    let huge = RetryStrategy::Exponential { initial_delay: 10, max_delay: 60_000, multiplier_milli: u64::MAX, max_attempts: 50 };
    assert_eq!(huge.delay_for_attempt(40), Some(60_000));
}
