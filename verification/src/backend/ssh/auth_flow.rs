//! The decisions of SSH authentication: which attempt comes next, given the
//! configured methods and the server's answers.
//!
//! The transport performs each attempt and reports what happened; the flow
//! decides the next attempt. Methods are tried in the order in which they
//! were configured, and the first accepted attempt ends the flow.
use vstd::prelude::*;
use crate::backend::ssh::auth::{AuthMethod, SshCredentials};
use crate::error::{ExpectError, SshError};

verus! {

/// What the transport reports after performing an [`AuthStep`].
#[derive(Debug, Clone, Copy, PartialEq, Eq, Structural)]
pub enum AuthEvent {
    /// The server accepted the attempt.
    Accepted,
    /// The attempt did not succeed: the server refused it, or it failed
    /// locally (a key that could not be loaded, a transport error).
    Rejected,
    /// The agent was reached and offered this many identities.
    AgentIdentities(usize),
    /// The server asked this many keyboard-interactive questions.
    Prompts(usize),
}

/// The next thing the transport is asked to do.
#[derive(Debug)]
pub enum AuthStep {
    /// Try a password.
    Password { user: String, password: String },
    /// Load the key and try it.
    PublicKey { user: String, private_key: String, passphrase: Option<String> },
    /// Reach the SSH agent and list its identities.
    AgentConnect,
    /// Try the agent identity with this index.
    AgentKey { user: String, key_index: usize },
    /// Start keyboard-interactive authentication.
    KeyboardStart { user: String },
    /// Answer the server's keyboard-interactive questions with these answers.
    KeyboardRespond { responses: Vec<String> },
    /// Try the `none` method.
    NoneAuth { user: String },
    /// Authentication succeeded.
    Authenticated,
    /// Every method failed.
    Exhausted(ExpectError),
}

/// Where the flow stands within the current method.
#[derive(Debug, Clone, Copy, PartialEq, Eq, Structural)]
pub enum AuthPhase {
    /// Waiting for the answer to a single attempt (password, key, none).
    Single,
    /// Waiting for the agent's identities.
    AgentConnecting,
    /// Waiting for the answer to the agent identity `next - 1` of `total`.
    AgentKey { next: usize, total: usize },
    /// In keyboard-interactive authentication.
    Keyboard,
    /// Authenticated.
    Succeeded,
    /// No method left.
    Failed,
}

/// The reason given when no method succeeded.
pub open spec fn exhausted_reason() -> Seq<char> {
    "All authentication methods exhausted"@
}

/// Whether `e` is the error that ends a failed authentication of `user`.
pub open spec fn is_exhausted_error(e: ExpectError, user: Seq<char>) -> bool {
    e matches ExpectError::Ssh(SshError::Authentication { user: u, reason: r })
        && u@ == user && r@ == exhausted_reason()
}

/// Whether `step` is the first step of method `i` of `methods` (or the end of
/// the flow when there is no such method).
pub open spec fn opens_method(step: AuthStep, user: Seq<char>, methods: Seq<AuthMethod>, i: int) -> bool {
    if i >= methods.len() {
        step matches AuthStep::Exhausted(e) && is_exhausted_error(e, user)
    } else {
        match methods[i] {
            AuthMethod::Password(p) => step matches AuthStep::Password { user: u, password: q }
                && u@ == user && q@ == p@,
            AuthMethod::PublicKey { private_key: k, passphrase: pp } => step matches AuthStep::PublicKey {
                user: u,
                private_key: k2,
                passphrase: pp2,
            } && u@ == user && k2@ == k@ && match (pp, pp2) {
                (Some(a), Some(b)) => a@ == b@,
                (None, None) => true,
                _ => false,
            },
            AuthMethod::Agent => step is AgentConnect,
            AuthMethod::KeyboardInteractive { .. } => step matches AuthStep::KeyboardStart { user: u }
                && u@ == user,
            AuthMethod::NoAuthentication => step matches AuthStep::NoneAuth { user: u } && u@ == user,
        }
    }
}

/// The phase that follows the first step of method `i`.
pub open spec fn phase_of_method(methods: Seq<AuthMethod>, i: int) -> AuthPhase {
    if i >= methods.len() {
        AuthPhase::Failed
    } else {
        match methods[i] {
            AuthMethod::Agent => AuthPhase::AgentConnecting,
            AuthMethod::KeyboardInteractive { .. } => AuthPhase::Keyboard,
            _ => AuthPhase::Single,
        }
    }
}

/// The answers given to `n` questions when `used` answers of `responses` were
/// given before: the next configured answers in order, then empty answers.
pub open spec fn keyboard_answers(responses: Seq<String>, used: int, n: nat) -> Seq<Seq<char>> {
    Seq::new(n, |k: int| if used + k < responses.len() { responses[used + k]@ } else { Seq::empty() })
}

/// The answers configured for method `i`, when it is keyboard-interactive.
pub open spec fn method_responses(methods: Seq<AuthMethod>, i: int) -> Seq<String> {
    if 0 <= i < methods.len() {
        match methods[i] {
            AuthMethod::KeyboardInteractive { responses } => responses@,
            _ => Seq::empty(),
        }
    } else {
        Seq::empty()
    }
}

/// `a + b`, or `usize::MAX` when that is larger.
pub open spec fn saturating_sum(a: int, b: int) -> int {
    if a + b <= usize::MAX { a + b } else { usize::MAX as int }
}

/// Whether `step` ends a failed authentication of `user`.
pub open spec fn is_exhausted_step(step: AuthStep, user: Seq<char>) -> bool {
    step matches AuthStep::Exhausted(e) && is_exhausted_error(e, user)
}

/// Whether `step` tries agent identity `k` for `user`.
pub open spec fn is_agent_key_step(step: AuthStep, user: Seq<char>, k: int) -> bool {
    step matches AuthStep::AgentKey { user: u, key_index: j } && u@ == user && j == k
}

/// Whether `step` answers with exactly `answers`.
pub open spec fn is_keyboard_respond_step(step: AuthStep, answers: Seq<Seq<char>>) -> bool {
    step matches AuthStep::KeyboardRespond { responses } && responses@.len() == answers.len()
        && forall|k: int| 0 <= k < answers.len() ==> #[trigger] responses@[k]@ == answers[k]
}

/// The authentication of one user with a list of methods.
#[derive(Debug)]
pub struct AuthFlow {
    user: String,
    methods: Vec<AuthMethod>,
    index: usize,
    phase: AuthPhase,
    used: usize,
}

impl AuthFlow {
    /// The user being authenticated.
    pub closed spec fn spec_user(&self) -> Seq<char> {
        self.user@
    }

    /// The configured methods, in order.
    pub closed spec fn spec_methods(&self) -> Seq<AuthMethod> {
        self.methods@
    }

    /// The index of the method being tried.
    pub closed spec fn spec_index(&self) -> int {
        self.index as int
    }

    /// The phase within that method.
    pub closed spec fn spec_phase(&self) -> AuthPhase {
        self.phase
    }

    /// How many keyboard-interactive answers were given in this method.
    pub closed spec fn spec_used(&self) -> int {
        self.used as int
    }

    /// The relation between the index and the phase.
    pub closed spec fn wf(&self) -> bool {
        &&& self.index <= self.methods@.len()
        &&& (self.phase is Failed <==> self.index == self.methods@.len())
        &&& (self.index < self.methods@.len() && !(self.phase is Succeeded) ==> match self.phase {
            AuthPhase::Single => !(self.methods@[self.index as int] is Agent)
                && !(self.methods@[self.index as int] is KeyboardInteractive),
            AuthPhase::AgentConnecting => self.methods@[self.index as int] is Agent,
            AuthPhase::AgentKey { next, total } => self.methods@[self.index as int] is Agent
                && 0 < next <= total,
            AuthPhase::Keyboard => self.methods@[self.index as int] is KeyboardInteractive,
            _ => true,
        })
    }

    /// Open method `i`: the step that starts it.
    fn open(&mut self, i: usize) -> (step: AuthStep)
        requires
            i <= old(self).methods@.len(),
        ensures
            final(self).user == old(self).user,
            final(self).methods == old(self).methods,
            final(self).index == i,
            final(self).phase == phase_of_method(old(self).methods@, i as int),
            final(self).used == 0,
            final(self).wf(),
            opens_method(step, old(self).user@, old(self).methods@, i as int),
    {
        self.index = i;
        self.used = 0;
        if i >= self.methods.len() {
            self.phase = AuthPhase::Failed;
            let reason = "All authentication methods exhausted".to_owned();
            proof {
                reveal_strlit("All authentication methods exhausted");
            }
            let e = ExpectError::Ssh(SshError::Authentication { user: self.user.clone(), reason });
            return AuthStep::Exhausted(e);
        }
        let user = self.user.clone();
        match &self.methods[i] {
            AuthMethod::Password(p) => {
                self.phase = AuthPhase::Single;
                AuthStep::Password { user, password: p.clone() }
            },
            AuthMethod::PublicKey { private_key, passphrase } => {
                self.phase = AuthPhase::Single;
                let pp = match passphrase {
                    Some(p) => Some(p.clone()),
                    None => None,
                };
                AuthStep::PublicKey { user, private_key: private_key.clone(), passphrase: pp }
            },
            AuthMethod::Agent => {
                self.phase = AuthPhase::AgentConnecting;
                AuthStep::AgentConnect
            },
            AuthMethod::KeyboardInteractive { .. } => {
                self.phase = AuthPhase::Keyboard;
                AuthStep::KeyboardStart { user }
            },
            AuthMethod::NoAuthentication => {
                self.phase = AuthPhase::Single;
                AuthStep::NoneAuth { user }
            },
        }
    }

    /// Start authenticating with `credentials`: the flow and its first step,
    /// which opens the first configured method.
    pub fn start(credentials: SshCredentials) -> (r: (AuthFlow, AuthStep))
        ensures
            r.0.wf(),
            r.0.spec_user() == credentials.username@,
            r.0.spec_methods() == credentials.auth_methods@,
            r.0.spec_index() == 0,
            r.0.spec_phase() == phase_of_method(credentials.auth_methods@, 0),
            opens_method(r.1, credentials.username@, credentials.auth_methods@, 0),
    {
        let mut flow = AuthFlow {
            user: credentials.username,
            methods: credentials.auth_methods,
            index: 0,
            phase: AuthPhase::Single,
            used: 0,
        };
        let step = flow.open(0);
        (flow, step)
    }

    /// The answers to `n` keyboard-interactive questions.
    fn answers(&mut self, n: usize) -> (r: Vec<String>)
        requires
            old(self).wf(),
            old(self).phase is Keyboard,
        ensures
            final(self).user == old(self).user,
            final(self).methods == old(self).methods,
            final(self).index == old(self).index,
            final(self).phase == old(self).phase,
            final(self).used == (if old(self).used + n <= usize::MAX { old(self).used + n } else { usize::MAX as int }),
            r@.len() == n,
            forall|k: int| 0 <= k < n ==> #[trigger] r@[k]@ == keyboard_answers(
                method_responses(old(self).methods@, old(self).index as int),
                old(self).used as int,
                n as nat,
            )[k],
    {
        let ghost responses_seq = method_responses(self.methods@, self.index as int);
        let ghost used0 = self.used as int;
        let mut out: Vec<String> = Vec::new();
        let mut k: usize = 0;
        let i = self.index;
        while k < n
            invariant
                self.wf(),
                self.phase is Keyboard,
                i == self.index,
                self.methods@ == old(self).methods@,
                self.user == old(self).user,
                self.methods == old(self).methods,
                self.index == old(self).index,
                self.phase == old(self).phase,
                responses_seq == method_responses(self.methods@, i as int),
                used0 == old(self).used,
                k <= n,
                out@.len() == k,
                self.used == (if used0 + k <= usize::MAX { used0 + k } else { usize::MAX as int }),
                forall|j: int| 0 <= j < k ==> #[trigger] out@[j]@ == keyboard_answers(responses_seq, used0, n as nat)[j],
            decreases n - k,
        {
            let answer = match &self.methods[i] {
                AuthMethod::KeyboardInteractive { responses } => {
                    if self.used < responses.len() {
                        responses[self.used].clone()
                    } else {
                        String::new()
                    }
                },
                _ => String::new(),
            };
            proof {
                assert(self.methods@[i as int] is KeyboardInteractive);
                if used0 + k > usize::MAX {
                    assert(used0 + k >= responses_seq.len());
                }
            }
            out.push(answer);
            if self.used < usize::MAX {
                self.used = self.used + 1;
            }
            k = k + 1;
        }
        out
    }

    /// Move on to the method after the current one.
    fn next_method(&mut self) -> (step: AuthStep)
        requires
            old(self).wf(),
            old(self).index < old(self).methods@.len(),
        ensures
            final(self).user == old(self).user,
            final(self).methods == old(self).methods,
            final(self).index == old(self).index + 1,
            final(self).phase == phase_of_method(old(self).methods@, old(self).index + 1),
            final(self).wf(),
            opens_method(step, old(self).user@, old(self).methods@, old(self).index + 1),
    {
        assert(self.index < self.methods.len());
        let i = self.index + 1;
        self.open(i)
    }

    /// The step that follows `event`.
    ///
    /// An accepted attempt ends the flow with success. A rejected attempt
    /// moves on to the next agent identity, if any is left, else to the next
    /// method. The agent's identities are tried in order; keyboard-interactive
    /// questions are answered with the configured answers in order, then with
    /// empty answers. Once the flow has ended, it stays where it is.
    pub fn next(&mut self, event: AuthEvent) -> (step: AuthStep)
        requires
            old(self).wf(),
        ensures
            final(self).wf(),
            final(self).spec_user() == old(self).spec_user(),
            final(self).spec_methods() == old(self).spec_methods(),
            // A finished flow stays finished.
            old(self).spec_phase() is Succeeded ==> final(self).spec_phase() is Succeeded && step is Authenticated,
            old(self).spec_phase() is Failed ==> final(self).spec_phase() is Failed
                && is_exhausted_step(step, old(self).spec_user()),
            // An accepted attempt ends the flow.
            !(old(self).spec_phase() is Succeeded) && !(old(self).spec_phase() is Failed) && event is Accepted
                ==> final(self).spec_phase() is Succeeded && step is Authenticated,
            // The agent's identities.
            old(self).spec_phase() is AgentConnecting && event is AgentIdentities && event->AgentIdentities_0 > 0
                ==> final(self).spec_index() == old(self).spec_index()
                && final(self).spec_phase() == (AuthPhase::AgentKey { next: 1, total: event->AgentIdentities_0 })
                && is_agent_key_step(step, old(self).spec_user(), 0),
            old(self).spec_phase() is AgentKey && old(self).spec_phase()->next < old(self).spec_phase()->total
                && !(event is Accepted)
                ==> final(self).spec_index() == old(self).spec_index()
                && final(self).spec_phase() == (AuthPhase::AgentKey {
                    next: (old(self).spec_phase()->next + 1) as usize,
                    total: old(self).spec_phase()->total,
                })
                && is_agent_key_step(step, old(self).spec_user(), old(self).spec_phase()->next as int),
            // Keyboard-interactive questions.
            old(self).spec_phase() is Keyboard && event is Prompts
                ==> final(self).spec_index() == old(self).spec_index()
                && final(self).spec_phase() is Keyboard
                && final(self).spec_used() == saturating_sum(old(self).spec_used(), event->Prompts_0 as int)
                && is_keyboard_respond_step(
                    step,
                    keyboard_answers(
                        method_responses(old(self).spec_methods(), old(self).spec_index()),
                        old(self).spec_used(),
                        event->Prompts_0 as nat,
                    ),
                ),
            // Everything else moves on to the next method.
            moves_on(old(self).spec_phase(), event) ==> final(self).spec_index() == old(self).spec_index() + 1
                && final(self).spec_phase() == phase_of_method(old(self).spec_methods(), old(self).spec_index() + 1)
                && opens_method(step, old(self).spec_user(), old(self).spec_methods(), old(self).spec_index() + 1),
    {
        match self.phase {
            AuthPhase::Succeeded => AuthStep::Authenticated,
            AuthPhase::Failed => {
                let reason = "All authentication methods exhausted".to_owned();
                proof {
                    reveal_strlit("All authentication methods exhausted");
                }
                AuthStep::Exhausted(ExpectError::Ssh(SshError::Authentication { user: self.user.clone(), reason }))
            },
            _ => {
                match event {
                    AuthEvent::Accepted => {
                        self.phase = AuthPhase::Succeeded;
                        AuthStep::Authenticated
                    },
                    AuthEvent::AgentIdentities(n) => {
                        if self.phase == AuthPhase::AgentConnecting && n > 0 {
                            self.phase = AuthPhase::AgentKey { next: 1, total: n };
                            AuthStep::AgentKey { user: self.user.clone(), key_index: 0 }
                        } else {
                            self.step_after_rejection()
                        }
                    },
                    AuthEvent::Prompts(n) => {
                        if self.phase == AuthPhase::Keyboard {
                            let responses = self.answers(n);
                            AuthStep::KeyboardRespond { responses }
                        } else {
                            self.step_after_rejection()
                        }
                    },
                    AuthEvent::Rejected => self.step_after_rejection(),
                }
            },
        }
    }

    /// After a rejection: the next agent identity, or the next method.
    fn step_after_rejection(&mut self) -> (step: AuthStep)
        requires
            old(self).wf(),
            !(old(self).phase is Succeeded),
            !(old(self).phase is Failed),
        ensures
            final(self).wf(),
            final(self).user == old(self).user,
            final(self).methods == old(self).methods,
            old(self).phase is AgentKey && old(self).phase->next < old(self).phase->total
                ==> final(self).index == old(self).index
                && final(self).phase == (AuthPhase::AgentKey {
                    next: (old(self).phase->next + 1) as usize,
                    total: old(self).phase->total,
                })
                && is_agent_key_step(step, old(self).user@, old(self).phase->next as int),
            !(old(self).phase is AgentKey && old(self).phase->next < old(self).phase->total)
                ==> final(self).index == old(self).index + 1
                && final(self).phase == phase_of_method(old(self).methods@, old(self).index + 1)
                && opens_method(step, old(self).user@, old(self).methods@, old(self).index + 1),
    {
        match self.phase {
            AuthPhase::AgentKey { next, total } => {
                if next < total {
                    self.phase = AuthPhase::AgentKey { next: next + 1, total };
                    AuthStep::AgentKey { user: self.user.clone(), key_index: next }
                } else {
                    self.next_method()
                }
            },
            _ => self.next_method(),
        }
    }
}

/// Whether `event` in `phase` makes the flow give up the current method.
pub open spec fn moves_on(phase: AuthPhase, event: AuthEvent) -> bool {
    &&& !(phase is Succeeded)
    &&& !(phase is Failed)
    &&& !(event is Accepted)
    &&& !(phase is AgentConnecting && event is AgentIdentities && event->AgentIdentities_0 > 0)
    &&& !(phase is AgentKey && phase->next < phase->total)
    &&& !(phase is Keyboard && event is Prompts)
}

} // verus!
