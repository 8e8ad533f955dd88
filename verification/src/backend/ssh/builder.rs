//! SSH session builder and target parsing.
use vstd::prelude::*;
use crate::backend::ssh::auth::{AuthMethod, HostKeyVerification, SshCredentials};
use crate::backend::ssh::session::{SshConfig, SshSession};
use crate::error::ExpectError;
use crate::text::{chars_of, find_char, rfind_char, substring, first_index_of, last_index_of};
use crate::num::{parse_unsigned, parse_unsigned_spec};

verus! {

/// Builder for SSH sessions (durations in milliseconds).
#[derive(Debug)]
pub struct SshSessionBuilder {
    /// Host.
    pub host: Option<String>,
    /// Port.
    pub port: u16,
    /// User name.
    pub username: Option<String>,
    /// Authentication methods, in order.
    pub auth_methods: Vec<AuthMethod>,
    /// Connection timeout.
    pub connect_timeout: u64,
    /// Host key policy.
    pub host_key_verification: HostKeyVerification,
    /// Compression.
    pub compression: bool,
    /// TCP keepalive interval.
    pub tcp_keepalive: Option<u64>,
}

impl SshSessionBuilder {
    /// Create a new builder: port 22, 30 s timeout, known-hosts checking, 60 s keepalive.
    pub fn new() -> (r: Self)
        ensures
            r.host is None,
            r.port == 22,
            r.username is None,
            r.auth_methods@.len() == 0,
            r.connect_timeout == 30_000,
            r.host_key_verification == HostKeyVerification::KnownHosts,
            !r.compression,
            r.tcp_keepalive == Some(60_000u64),
    {
        SshSessionBuilder {
            host: None,
            port: 22,
            username: None,
            auth_methods: Vec::new(),
            connect_timeout: 30_000,
            host_key_verification: HostKeyVerification::KnownHosts,
            compression: false,
            tcp_keepalive: Some(60_000),
        }
    }

    /// Set the host.
    pub fn host(self, host: String) -> (r: Self)
        ensures
            r == (SshSessionBuilder { host: Some(host), ..self }),
    {
        SshSessionBuilder { host: Some(host), ..self }
    }

    /// Set the port.
    pub fn port(self, port: u16) -> (r: Self)
        ensures
            r == (SshSessionBuilder { port, ..self }),
    {
        SshSessionBuilder { port, ..self }
    }

    /// Set the username.
    pub fn username(self, username: String) -> (r: Self)
        ensures
            r == (SshSessionBuilder { username: Some(username), ..self }),
    {
        SshSessionBuilder { username: Some(username), ..self }
    }

    /// Add password authentication.
    pub fn password(self, password: String) -> (r: Self)
        ensures
            r.auth_methods@ == self.auth_methods@.push(AuthMethod::Password(password)),
            r.host == self.host,
            r.username == self.username,
            r.port == self.port,
    {
        let mut s = self;
        s.auth_methods.push(AuthMethod::Password(password));
        s
    }

    /// Add public key authentication.
    pub fn private_key(self, path: String) -> (r: Self)
        ensures
            r.auth_methods@ == self.auth_methods@.push(AuthMethod::PublicKey { private_key: path, passphrase: None }),
            r.host == self.host,
            r.username == self.username,
            r.port == self.port,
    {
        let mut s = self;
        s.auth_methods.push(AuthMethod::PublicKey { private_key: path, passphrase: None });
        s
    }

    /// Add public key with passphrase.
    pub fn private_key_with_passphrase(self, path: String, passphrase: String) -> (r: Self)
        ensures
            r.auth_methods@ == self.auth_methods@.push(
                AuthMethod::PublicKey { private_key: path, passphrase: Some(passphrase) },
            ),
            r.host == self.host,
            r.username == self.username,
            r.port == self.port,
    {
        let mut s = self;
        s.auth_methods.push(AuthMethod::PublicKey { private_key: path, passphrase: Some(passphrase) });
        s
    }

    /// Enable SSH agent authentication.
    pub fn agent(self) -> (r: Self)
        ensures
            r.auth_methods@ == self.auth_methods@.push(AuthMethod::Agent),
            r.host == self.host,
            r.username == self.username,
            r.port == self.port,
    {
        let mut s = self;
        s.auth_methods.push(AuthMethod::Agent);
        s
    }

    /// Set connection timeout.
    pub fn connect_timeout(self, timeout: u64) -> (r: Self)
        ensures
            r == (SshSessionBuilder { connect_timeout: timeout, ..self }),
    {
        SshSessionBuilder { connect_timeout: timeout, ..self }
    }

    /// Set host key verification policy.
    pub fn host_key_verification(self, policy: HostKeyVerification) -> (r: Self)
        ensures
            r == (SshSessionBuilder { host_key_verification: policy, ..self }),
    {
        SshSessionBuilder { host_key_verification: policy, ..self }
    }

    /// Accept any host key without verification.
    ///
    /// This disables host key verification and leaves the connection open to
    /// a man in the middle: for controlled test environments only.
    pub fn accept_all_keys(self) -> (r: Self)
        ensures
            r == (SshSessionBuilder { host_key_verification: HostKeyVerification::AcceptAll, ..self }),
    {
        SshSessionBuilder { host_key_verification: HostKeyVerification::AcceptAll, ..self }
    }

    /// Enable compression.
    pub fn compression(self, enabled: bool) -> (r: Self)
        ensures
            r == (SshSessionBuilder { compression: enabled, ..self }),
    {
        SshSessionBuilder { compression: enabled, ..self }
    }

    /// Set TCP keepalive.
    pub fn tcp_keepalive(self, interval: Option<u64>) -> (r: Self)
        ensures
            r == (SshSessionBuilder { tcp_keepalive: interval, ..self }),
    {
        SshSessionBuilder { tcp_keepalive: interval, ..self }
    }

    /// Build the session. `default_user` is the user name to take when none
    /// was set, and `home` the home directory whose default keys are tried
    /// when no authentication method was added (both read by the caller).
    pub fn build(self, default_user: String, home: &str) -> (r: Result<SshSession, ExpectError>)
        ensures
            match self.host {
                None => r matches Err(e) && e matches ExpectError::Config { message } && message@
                    == "SSH host is required"@,
                Some(h) => r matches Ok(s) && {
                    let c = s.spec_config();
                    &&& c.host == h
                    &&& c.port == self.port
                    &&& c.credentials.username == (match self.username {
                        Some(u) => u,
                        None => default_user,
                    })
                    &&& (self.auth_methods@.len() > 0 ==> c.credentials.auth_methods@
                        == self.auth_methods@)
                    &&& (self.auth_methods@.len() == 0 ==> {
                        let ms = c.credentials.auth_methods@;
                        &&& ms.len() == 3
                        &&& ms[0] == AuthMethod::Agent
                        &&& ms[1] matches AuthMethod::PublicKey { private_key, passphrase }
                            && private_key@ == home@ + "/.ssh/id_ed25519"@ && passphrase is None
                        &&& ms[2] matches AuthMethod::PublicKey { private_key, passphrase }
                            && private_key@ == home@ + "/.ssh/id_rsa"@ && passphrase is None
                    })
                    &&& c.connect_timeout == self.connect_timeout
                    &&& c.host_key_verification == self.host_key_verification
                    &&& c.compression == self.compression
                    &&& c.tcp_keepalive == self.tcp_keepalive
                    &&& s.spec_state() == crate::backend::ssh::session::SshSessionState::Disconnected
                },
            },
    {
        let host = match self.host {
            Some(h) => h,
            None => {
                return Err(ExpectError::config("SSH host is required".to_owned()));
            },
        };
        let username = match self.username {
            Some(u) => u,
            None => default_user,
        };
        let mut credentials = SshCredentials { username, auth_methods: self.auth_methods };
        if credentials.auth_methods.len() == 0 {
            credentials = credentials.with_defaults(home);
        }
        let config = SshConfig {
            host,
            port: self.port,
            credentials,
            connect_timeout: self.connect_timeout,
            host_key_verification: self.host_key_verification,
            compression: self.compression,
            tcp_keepalive: self.tcp_keepalive,
        };
        Ok(SshSession::new(config))
    }

    /// Build and connect.
    pub fn connect(self, default_user: String, home: &str) -> (r: Result<SshSession, ExpectError>)
        ensures
            r is Ok <==> self.host is Some,
            r matches Ok(s) ==> s.spec_state() == crate::backend::ssh::session::SshSessionState::Connected,
    {
        let mut session = self.build(default_user, home)?;
        let _ = session.connect();
        Ok(session)
    }
}

/// What `parse_ssh_target` reads from `[user@]host[:port]`: the user (text
/// before the first `@`), the host and the port (text after the last `:` of
/// the rest, when it parses as a port; 22 otherwise).
pub open spec fn parse_target_spec(t: Seq<char>) -> (Option<Seq<char>>, Seq<char>, int) {
    let (user, rest) = match first_index_of(t, '@') {
        Some(i) => (Some(t.take(i)), t.skip(i + 1)),
        None => (None, t),
    };
    match last_index_of(rest, ':') {
        Some(j) => match parse_unsigned_spec(rest.skip(j + 1), 65535) {
            Some(p) => (user, rest.take(j), p),
            None => (user, rest, 22),
        },
        None => (user, rest, 22),
    }
}

/// Parse `[user@]host[:port]` into (user, host, port).
pub fn parse_ssh_target(target: &str) -> (r: (Option<String>, String, u16))
    ensures
        ({
            let (u, h, p) = parse_target_spec(target@);
            &&& (match r.0 { Some(s) => Some(s@), None => None }) == u
            &&& r.1@ == h
            &&& r.2 as int == p
        }),
{
    let cs = chars_of(target);
    let n = cs.len();
    let (user, start) = match find_char(cs.as_slice(), '@') {
        Some(i) => (Some(substring(cs.as_slice(), 0, i)), i + 1),
        None => (None, 0),
    };
    let rest = &cs.as_slice()[start..n];
    let ghost t = target@;
    let ghost srest = match first_index_of(t, '@') {
        Some(i) => t.skip(i + 1),
        None => t,
    };
    let ghost suser = match first_index_of(t, '@') {
        Some(i) => Some(t.take(i)),
        None => None,
    };
    proof {
        assert(cs@.skip(0) =~= cs@);
        assert(rest@ =~= cs@.skip(start as int));
        if user is Some {
            assert(user->0@ =~= cs@.take(start - 1));
        }
        assert(rest@ == srest);
        assert((match user { Some(s) => Some(s@), None => None }) == suser);
    }
    match rfind_char(rest, ':') {
        Some(j) => {
            let port_chars = &rest[j + 1..rest.len()];
            proof {
                assert(port_chars@ =~= rest@.skip(j + 1));
            }
            match parse_unsigned(port_chars, 65535) {
                Some(p) => {
                    let host = substring(rest, 0, j);
                    proof {
                        assert(host@ =~= rest@.take(j as int));
                    }
                    (user, host, p as u16)
                },
                None => {
                    let host = substring(rest, 0, rest.len());
                    proof {
                        assert(host@ =~= rest@);
                    }
                    (user, host, 22)
                },
            }
        },
        None => {
            let host = substring(rest, 0, rest.len());
            proof {
                assert(host@ =~= rest@);
            }
            (user, host, 22)
        },
    }
}

} // verus!
