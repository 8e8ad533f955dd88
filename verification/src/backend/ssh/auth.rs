//! SSH authentication methods.
use vstd::prelude::*;
use crate::text::push_str;

verus! {

/// SSH authentication method.
#[derive(Debug, Clone)]
pub enum AuthMethod {
    /// Password authentication.
    Password(String),
    /// Public key authentication.
    PublicKey {
        /// Private key path.
        private_key: String,
        /// Passphrase for the key (if encrypted).
        passphrase: Option<String>,
    },
    /// SSH agent authentication.
    Agent,
    /// Keyboard-interactive authentication with pre-defined answers, given
    /// in order as the server prompts.
    KeyboardInteractive {
        /// Pre-defined responses to server prompts.
        responses: Vec<String>,
    },
    /// No authentication (for tunnels).
    NoAuthentication,
}

impl AuthMethod {
    /// Create password auth.
    pub fn password(password: String) -> (r: Self)
        ensures
            r == AuthMethod::Password(password),
    {
        AuthMethod::Password(password)
    }

    /// Create public key auth.
    pub fn public_key(private_key: String) -> (r: Self)
        ensures
            r == (AuthMethod::PublicKey { private_key, passphrase: None }),
    {
        AuthMethod::PublicKey { private_key, passphrase: None }
    }

    /// Create public key auth with passphrase.
    pub fn public_key_with_passphrase(private_key: String, passphrase: String) -> (r: Self)
        ensures
            r == (AuthMethod::PublicKey { private_key, passphrase: Some(passphrase) }),
    {
        AuthMethod::PublicKey { private_key, passphrase: Some(passphrase) }
    }

    /// Create agent auth.
    pub fn agent() -> (r: Self)
        ensures
            r == AuthMethod::Agent,
    {
        AuthMethod::Agent
    }

    /// Create keyboard-interactive auth with responses.
    pub fn keyboard_interactive(responses: Vec<String>) -> (r: Self)
        ensures
            r == (AuthMethod::KeyboardInteractive { responses }),
    {
        AuthMethod::KeyboardInteractive { responses }
    }

    /// Create keyboard-interactive auth with a single password response.
    pub fn keyboard_interactive_password(password: String) -> (r: Self)
        ensures
            r matches AuthMethod::KeyboardInteractive { responses } && responses@ == seq![password],
    {
        let mut responses: Vec<String> = Vec::new();
        responses.push(password);
        AuthMethod::KeyboardInteractive { responses }
    }

    /// Check if this is keyboard-interactive auth.
    pub fn is_keyboard_interactive(&self) -> (r: bool)
        ensures
            r == (*self is KeyboardInteractive),
    {
        matches!(self, AuthMethod::KeyboardInteractive { .. })
    }

    /// Check if this is password auth.
    pub fn is_password(&self) -> (r: bool)
        ensures
            r == (*self is Password),
    {
        matches!(self, AuthMethod::Password(_))
    }

    /// Check if this is public key auth.
    pub fn is_public_key(&self) -> (r: bool)
        ensures
            r == (*self is PublicKey),
    {
        matches!(self, AuthMethod::PublicKey { .. })
    }
}

/// SSH credentials.
#[derive(Debug, Clone)]
pub struct SshCredentials {
    /// Username.
    pub username: String,
    /// Authentication methods to try (in order).
    pub auth_methods: Vec<AuthMethod>,
}

/// The user name that default credentials take, given the values of `USER`
/// and `USERNAME`: the first that is set, else `root`.
pub open spec fn default_user_spec(user: Option<Seq<char>>, username: Option<Seq<char>>) -> Seq<char> {
    match user {
        Some(u) => u,
        None => match username {
            Some(u) => u,
            None => "root"@,
        },
    }
}

/// The default user name, from the values of `USER` and `USERNAME` (read by the caller).
pub fn default_username(user: Option<String>, username: Option<String>) -> (r: String)
    ensures
        r@ == default_user_spec(
            match user { Some(u) => Some(u@), None => None },
            match username { Some(u) => Some(u@), None => None },
        ),
{
    match user {
        Some(u) => u,
        None => match username {
            Some(u) => u,
            None => "root".to_owned(),
        },
    }
}

impl SshCredentials {
    /// Create new credentials.
    pub fn new(username: String) -> (r: Self)
        ensures
            r.username == username,
            r.auth_methods@.len() == 0,
    {
        SshCredentials { username, auth_methods: Vec::new() }
    }

    /// Add an authentication method.
    pub fn with_auth(self, method: AuthMethod) -> (r: Self)
        ensures
            r.username == self.username,
            r.auth_methods@ == self.auth_methods@.push(method),
    {
        let mut s = self;
        s.auth_methods.push(method);
        s
    }

    /// Add password authentication.
    pub fn with_password(self, password: String) -> (r: Self)
        ensures
            r.username == self.username,
            r.auth_methods@ == self.auth_methods@.push(AuthMethod::Password(password)),
    {
        self.with_auth(AuthMethod::password(password))
    }

    /// Add public key authentication.
    pub fn with_key(self, private_key: String) -> (r: Self)
        ensures
            r.username == self.username,
            r.auth_methods@ == self.auth_methods@.push(AuthMethod::PublicKey { private_key, passphrase: None }),
    {
        self.with_auth(AuthMethod::public_key(private_key))
    }

    /// Add public key authentication with passphrase.
    pub fn with_key_passphrase(self, private_key: String, passphrase: String) -> (r: Self)
        ensures
            r.username == self.username,
            r.auth_methods@ == self.auth_methods@.push(
                AuthMethod::PublicKey { private_key, passphrase: Some(passphrase) },
            ),
    {
        self.with_auth(AuthMethod::public_key_with_passphrase(private_key, passphrase))
    }

    /// Add agent authentication.
    pub fn with_agent(self) -> (r: Self)
        ensures
            r.username == self.username,
            r.auth_methods@ == self.auth_methods@.push(AuthMethod::Agent),
    {
        self.with_auth(AuthMethod::Agent)
    }

    /// Add keyboard-interactive authentication with a password response.
    pub fn with_keyboard_interactive(self, password: String) -> (r: Self)
        ensures
            r.username == self.username,
            r.auth_methods@.len() == self.auth_methods@.len() + 1,
            r.auth_methods@.drop_last() == self.auth_methods@,
            r.auth_methods@.last() matches AuthMethod::KeyboardInteractive { responses } && responses@
                == seq![password],
    {
        let r = self.with_auth(AuthMethod::keyboard_interactive_password(password));
        assert(r.auth_methods@.drop_last() =~= self.auth_methods@);
        r
    }

    /// Add keyboard-interactive authentication with multiple responses.
    pub fn with_keyboard_interactive_responses(self, responses: Vec<String>) -> (r: Self)
        ensures
            r.username == self.username,
            r.auth_methods@ == self.auth_methods@.push(AuthMethod::KeyboardInteractive { responses }),
    {
        self.with_auth(AuthMethod::keyboard_interactive(responses))
    }

    /// Add the default authentication: the agent, then the default keys under
    /// the home directory `home` (read by the caller from `HOME`).
    pub fn with_defaults(self, home: &str) -> (r: Self)
        ensures
            r.username == self.username,
            r.auth_methods@.len() == self.auth_methods@.len() + 3,
            r.auth_methods@.subrange(0, self.auth_methods@.len() as int) == self.auth_methods@,
            r.auth_methods@[self.auth_methods@.len() as int] == AuthMethod::Agent,
            r.auth_methods@[self.auth_methods@.len() + 1int] matches AuthMethod::PublicKey { private_key, passphrase }
                && private_key@ == home@ + "/.ssh/id_ed25519"@ && passphrase is None,
            r.auth_methods@[self.auth_methods@.len() + 2int] matches AuthMethod::PublicKey { private_key, passphrase }
                && private_key@ == home@ + "/.ssh/id_rsa"@ && passphrase is None,
    {
        let mut k1 = home.to_owned();
        push_str(&mut k1, "/.ssh/id_ed25519");
        let mut k2 = home.to_owned();
        push_str(&mut k2, "/.ssh/id_rsa");
        let r = self.with_agent().with_key(k1).with_key(k2);
        assert(r.auth_methods@.subrange(0, self.auth_methods@.len() as int) =~= self.auth_methods@);
        r
    }
}

/// Host key verification policy.
#[derive(Debug, Clone, Copy, PartialEq, Eq, Structural)]
pub enum HostKeyVerification {
    /// Accept any key without verification.
    ///
    /// This disables host key verification entirely and leaves the connection
    /// open to a man in the middle: for controlled test environments only.
    AcceptAll,
    /// Reject unknown keys.
    RejectUnknown,
    /// Check against `known_hosts` file.
    KnownHosts,
    /// Accept on first use, then verify (Trust On First Use).
    Tofu,
}

impl Default for HostKeyVerification {
    fn default() -> (r: Self)
        ensures
            r == HostKeyVerification::KnownHosts,
    {
        HostKeyVerification::KnownHosts
    }
}

} // verus!
