//! SSH session configuration and state.
use vstd::prelude::*;
use crate::backend::ssh::auth::{HostKeyVerification, SshCredentials};
use crate::error::{ExpectError, SshError};
use crate::text::{push_char, push_str};
use crate::num::{u64_to_decimal, decimal_text};

verus! {

/// SSH connection configuration (durations in milliseconds).
#[derive(Debug, Clone)]
pub struct SshConfig {
    /// Host to connect to.
    pub host: String,
    /// Port.
    pub port: u16,
    /// Credentials.
    pub credentials: SshCredentials,
    /// Connection timeout.
    pub connect_timeout: u64,
    /// Host key verification policy.
    pub host_key_verification: HostKeyVerification,
    /// Compression.
    pub compression: bool,
    /// TCP keepalive interval.
    pub tcp_keepalive: Option<u64>,
}

impl SshConfig {
    /// Default configuration for the given default user name (see
    /// `default_username`): empty host, port 22, 30 s timeout, known-hosts
    /// checking, no compression, 60 s TCP keepalive.
    pub fn default_for(username: String) -> (r: Self)
        ensures
            r.host@ == Seq::<char>::empty(),
            r.port == 22,
            r.credentials.username == username,
            r.credentials.auth_methods@.len() == 0,
            r.connect_timeout == 30_000,
            r.host_key_verification == HostKeyVerification::KnownHosts,
            !r.compression,
            r.tcp_keepalive == Some(60_000u64),
    {
        SshConfig {
            host: String::new(),
            port: 22,
            credentials: SshCredentials::new(username),
            connect_timeout: 30_000,
            host_key_verification: HostKeyVerification::default(),
            compression: false,
            tcp_keepalive: Some(60_000),
        }
    }

    /// Create a configuration for `host` with the default user name `username`.
    pub fn new(host: String, username: String) -> (r: Self)
        ensures
            r.host == host,
            r.port == 22,
            r.credentials.username == username,
            r.credentials.auth_methods@.len() == 0,
            r.connect_timeout == 30_000,
            r.host_key_verification == HostKeyVerification::KnownHosts,
            !r.compression,
            r.tcp_keepalive == Some(60_000u64),
    {
        SshConfig { host, ..SshConfig::default_for(username) }
    }

    /// Set port.
    pub fn port(self, port: u16) -> (r: Self)
        ensures
            r == (SshConfig { port, ..self }),
    {
        SshConfig { port, ..self }
    }

    /// Set credentials.
    pub fn credentials(self, credentials: SshCredentials) -> (r: Self)
        ensures
            r == (SshConfig { credentials, ..self }),
    {
        SshConfig { credentials, ..self }
    }

    /// Set username.
    pub fn username(self, username: String) -> (r: Self)
        ensures
            r.credentials.username == username,
            r.credentials.auth_methods == self.credentials.auth_methods,
            r.host == self.host,
            r.port == self.port,
            r.connect_timeout == self.connect_timeout,
            r.compression == self.compression,
    {
        let mut s = self;
        s.credentials.username = username;
        s
    }

    /// Set connection timeout.
    pub fn connect_timeout(self, timeout: u64) -> (r: Self)
        ensures
            r == (SshConfig { connect_timeout: timeout, ..self }),
    {
        SshConfig { connect_timeout: timeout, ..self }
    }

    /// Set host key verification policy.
    pub fn host_key_verification(self, policy: HostKeyVerification) -> (r: Self)
        ensures
            r == (SshConfig { host_key_verification: policy, ..self }),
    {
        SshConfig { host_key_verification: policy, ..self }
    }

    /// Enable compression.
    pub fn with_compression(self) -> (r: Self)
        ensures
            r == (SshConfig { compression: true, ..self }),
    {
        SshConfig { compression: true, ..self }
    }

    /// The address `host:port`.
    pub fn address(&self) -> (r: String)
        ensures
            r@ == self.host@ + seq![':'] + decimal_text(self.port as nat),
    {
        let mut s = self.host.clone();
        push_char(&mut s, ':');
        let p = u64_to_decimal(self.port as u64);
        push_str(&mut s, p.as_str());
        s
    }
}

/// SSH session state.
#[derive(Debug, Clone, Copy, PartialEq, Eq, Structural)]
pub enum SshSessionState {
    /// Not connected.
    Disconnected,
    /// Connecting.
    Connecting,
    /// Authenticating.
    Authenticating,
    /// Connected.
    Connected,
    /// Disconnecting.
    Disconnecting,
    /// Error state.
    Error,
}

/// An SSH session without a transport behind it: it tracks the
/// configuration and the connection state.
#[derive(Debug)]
pub struct SshSession {
    config: SshConfig,
    state: SshSessionState,
}

impl SshSession {
    /// The configuration of this session.
    pub closed spec fn spec_config(&self) -> SshConfig {
        self.config
    }

    /// The state of this session.
    pub closed spec fn spec_state(&self) -> SshSessionState {
        self.state
    }

    /// Create a new session.
    pub fn new(config: SshConfig) -> (r: Self)
        ensures
            r.spec_config() == config,
            r.spec_state() == SshSessionState::Disconnected,
    {
        SshSession { config, state: SshSessionState::Disconnected }
    }

    /// Get configuration.
    pub fn config(&self) -> (r: &SshConfig)
        ensures
            *r == self.spec_config(),
    {
        &self.config
    }

    /// Get current state.
    pub fn state(&self) -> (r: SshSessionState)
        ensures
            r == self.spec_state(),
    {
        self.state
    }

    /// Check if connected.
    pub fn is_connected(&self) -> (r: bool)
        ensures
            r == (self.spec_state() == SshSessionState::Connected),
    {
        self.state == SshSessionState::Connected
    }

    /// Connect: with no transport behind the session this always succeeds.
    pub fn connect(&mut self) -> (r: Result<(), ExpectError>)
        ensures
            r is Ok,
            final(self).spec_state() == SshSessionState::Connected,
            final(self).spec_config() == old(self).spec_config(),
    {
        self.state = SshSessionState::Connected;
        Ok(())
    }

    /// Disconnect.
    pub fn disconnect(&mut self)
        ensures
            final(self).spec_state() == SshSessionState::Disconnected,
            final(self).spec_config() == old(self).spec_config(),
    {
        self.state = SshSessionState::Disconnected;
    }
}

/// Whether `r` is the connection error for `host`, `port` and `reason`.
pub open spec fn is_connection_error(r: Result<(), ExpectError>, host: Seq<char>, port: u16, reason: Seq<char>) -> bool {
    r matches Err(ExpectError::Ssh(SshError::Connection { host: h, port: p, reason: why }))
        && h@ == host && p == port && why@ == reason
}

/// How establishing the transport of a connection ended.
#[derive(Debug, Clone)]
pub enum TransportOutcome {
    /// The connection timeout passed first.
    TimedOut,
    /// The connection failed, for this reason.
    Failed(String),
    /// The transport is up and authentication can start.
    Established,
}

impl SshSession {
    /// A connection starts.
    pub fn begin_connect(&mut self)
        ensures
            final(self).spec_state() == SshSessionState::Connecting,
            final(self).spec_config() == old(self).spec_config(),
    {
        self.state = SshSessionState::Connecting;
    }

    /// The transport of a connection ended as `outcome`: on a timeout the
    /// session is in error with a timeout error for the connection timeout;
    /// on a failure it is in error with a connection error for its host and
    /// port; once established, authentication starts.
    pub fn transport_result(&mut self, outcome: TransportOutcome) -> (r: Result<(), ExpectError>)
        ensures
            final(self).spec_config() == old(self).spec_config(),
            match outcome {
                TransportOutcome::TimedOut => final(self).spec_state() == SshSessionState::Error
                    && r == Err::<(), ExpectError>(ExpectError::Ssh(SshError::Timeout { duration: old(self).spec_config().connect_timeout })),
                TransportOutcome::Failed(reason) => final(self).spec_state() == SshSessionState::Error
                    && is_connection_error(r, old(self).spec_config().host@, old(self).spec_config().port, reason@),
                TransportOutcome::Established => final(self).spec_state() == SshSessionState::Authenticating && r is Ok,
            },
    {
        match outcome {
            TransportOutcome::TimedOut => {
                self.state = SshSessionState::Error;
                Err(ExpectError::Ssh(SshError::Timeout { duration: self.config.connect_timeout }))
            },
            TransportOutcome::Failed(reason) => {
                self.state = SshSessionState::Error;
                Err(ExpectError::Ssh(SshError::Connection { host: self.config.host.clone(), port: self.config.port, reason }))
            },
            TransportOutcome::Established => {
                self.state = SshSessionState::Authenticating;
                Ok(())
            },
        }
    }

    /// Authentication ended as `outcome`: success connects the session; a
    /// failure is passed on and leaves the state as it is.
    pub fn auth_result(&mut self, outcome: Result<(), ExpectError>) -> (r: Result<(), ExpectError>)
        ensures
            final(self).spec_config() == old(self).spec_config(),
            r == outcome,
            outcome is Ok ==> final(self).spec_state() == SshSessionState::Connected,
            outcome is Err ==> final(self).spec_state() == old(self).spec_state(),
    {
        if outcome.is_ok() {
            self.state = SshSessionState::Connected;
        }
        outcome
    }
}

/// The host key policy for one connection, and the host it is for.
#[derive(Debug, Clone)]
pub struct SshClientHandler {
    /// Host key verification policy.
    pub host_key_verification: HostKeyVerification,
    /// The host connected to.
    pub host: String,
    /// The port connected to.
    pub port: u16,
}

impl SshClientHandler {
    /// Whether the server's key is accepted, given what the `known_hosts`
    /// check concluded (see
    /// [`server_key_accepted`](crate::backend::ssh::known_hosts::server_key_accepted)).
    pub fn check_server_key(&self, known_hosts_verdict: bool) -> (r: bool)
        ensures
            r == match self.host_key_verification {
                HostKeyVerification::AcceptAll => true,
                HostKeyVerification::RejectUnknown => false,
                HostKeyVerification::KnownHosts => known_hosts_verdict,
                HostKeyVerification::Tofu => true,
            },
    {
        crate::backend::ssh::known_hosts::server_key_accepted(self.host_key_verification, known_hosts_verdict)
    }
}

} // verus!
