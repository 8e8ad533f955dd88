//! PTY spawning: the configuration of a spawned process and the environment
//! and working directory it is given. The pseudo-terminal itself is opened by
//! the caller.
use vstd::prelude::*;
use crate::config::SessionConfig;
use crate::env_map::EnvMap;
use crate::error::{ExpectError, SpawnError};

verus! {

/// Environment variable handling mode.
#[derive(Debug, Clone, Copy, PartialEq, Eq, Structural)]
pub enum EnvMode {
    /// Inherit all environment variables from parent.
    Inherit,
    /// Clear environment and only use specified variables.
    Clear,
    /// Inherit and extend with specified variables.
    Extend,
}

/// Configuration for PTY spawning.
#[derive(Debug)]
pub struct PtyConfig {
    /// Terminal dimensions (cols, rows).
    pub dimensions: (u16, u16),
    /// Whether to use a login shell.
    pub login_shell: bool,
    /// Environment variable handling.
    pub env_mode: EnvMode,
    /// Environment variables to apply per `env_mode` (overlay for `Extend`,
    /// the full set for `Clear`, ignored for `Inherit` unless set).
    pub env: EnvMap,
    /// Working directory for the spawned child (`None`: the parent's).
    pub working_directory: Option<String>,
}

/// The mode a session configuration implies: `Clear` without inheritance,
/// else `Inherit` with no variables of its own and `Extend` with some.
pub open spec fn env_mode_for(inherit_env: bool, env_empty: bool) -> EnvMode {
    if !inherit_env {
        EnvMode::Clear
    } else if env_empty {
        EnvMode::Inherit
    } else {
        EnvMode::Extend
    }
}

impl PtyConfig {
    /// The default configuration: 80x24, no login shell, inherited
    /// environment, no variables, the parent's working directory.
    pub fn default() -> (r: Self)
        ensures
            r.dimensions == (80u16, 24u16),
            !r.login_shell,
            r.env_mode == EnvMode::Inherit,
            r.env.contents() == Map::<Seq<char>, Seq<char>>::empty(),
            r.working_directory is None,
    {
        PtyConfig {
            dimensions: (80, 24),
            login_shell: false,
            env_mode: EnvMode::Inherit,
            env: EnvMap::new(),
            working_directory: None,
        }
    }

    /// The PTY configuration of a session configuration.
    pub fn from_session(config: &SessionConfig) -> (r: Self)
        ensures
            r.dimensions == config.dimensions,
            !r.login_shell,
            r.env_mode == env_mode_for(config.inherit_env, config.env.spec_entries().len() == 0),
            r.env.contents() == config.env.contents(),
            r.env.spec_entries() == config.env.spec_entries(),
            match (r.working_directory, config.working_dir) {
                (Some(a), Some(b)) => a@ == b@,
                (None, None) => true,
                _ => false,
            },
    {
        let empty = config.env.is_empty();
        let env_mode = if !config.inherit_env {
            EnvMode::Clear
        } else if empty {
            EnvMode::Inherit
        } else {
            EnvMode::Extend
        };
        let working_directory = match &config.working_dir {
            Some(d) => Some(d.clone()),
            None => None,
        };
        let env = config.env.clone();
        proof {
            assert(env.contents() =~= config.env.contents());
        }
        PtyConfig { dimensions: config.dimensions, login_shell: false, env_mode, env, working_directory }
    }
}

/// The environment a spawned process gets, given the parent's: `None` (the
/// parent's, untouched) when inheriting with no variables of its own; the
/// parent's overlaid with the configured variables when inheriting or
/// extending; only the configured variables when clearing.
pub open spec fn spawn_env_spec(
    mode: EnvMode,
    env: Map<Seq<char>, Seq<char>>,
    env_empty: bool,
    parent: Map<Seq<char>, Seq<char>>,
) -> Option<Map<Seq<char>, Seq<char>>> {
    match mode {
        EnvMode::Inherit => if env_empty { None } else { Some(parent.union_prefer_right(env)) },
        EnvMode::Extend => Some(parent.union_prefer_right(env)),
        EnvMode::Clear => Some(env),
    }
}

/// Whether `q` asks to spawn `command` with `args` as `cfg` says, given the
/// parent's environment.
pub open spec fn is_request_for(
    q: SpawnRequest,
    cfg: PtyConfig,
    command: Seq<char>,
    args: Seq<String>,
    parent: Map<Seq<char>, Seq<char>>,
) -> bool {
    &&& q.command@ == command
    &&& q.args@.len() == args.len()
    &&& forall|i: int| 0 <= i < args.len() ==> #[trigger] q.args@[i]@ == args[i]@
    &&& q.dimensions == cfg.dimensions
    &&& match (q.working_directory, cfg.working_directory) {
        (Some(a), Some(b)) => a@ == b@,
        (None, None) => true,
        _ => false,
    }
    &&& match (q.env, spawn_env_spec(cfg.env_mode, cfg.env.contents(), cfg.env.spec_entries().len() == 0, parent)) {
        (Some(e), Some(m)) => e.contents() == m,
        (None, None) => true,
        _ => false,
    }
}

/// Whether `s` holds a nul character, which no program name or argument can.
pub open spec fn has_nul(s: Seq<char>) -> bool {
    exists|i: int| 0 <= i < s.len() && s[i] == '\0'
}

/// The index of the first argument from `k` on that holds a nul character.
pub open spec fn first_nul_arg(args: Seq<String>, k: int) -> Option<int>
    decreases args.len() - k,
{
    if k < 0 || k >= args.len() {
        None
    } else if has_nul(args[k]@) {
        Some(k)
    } else {
        first_nul_arg(args, k + 1)
    }
}

/// Whether `r` is the error for an invalid `kind` of input `value`: one
/// holding a nul character.
pub open spec fn is_nul_error(r: Result<SpawnRequest, ExpectError>, kind: Seq<char>, value: Seq<char>) -> bool {
    r matches Err(ExpectError::Spawn(SpawnError::InvalidArgument { kind: k, value: v, reason }))
        && k@ == kind && v@ == value && reason@ == "contains a nul byte"@
}

/// What preparing a spawn gives: an error for a configured working
/// directory that does not exist, then for a program name or an argument
/// holding a nul character, else the request.
pub open spec fn prepare_outcome(
    r: Result<SpawnRequest, ExpectError>,
    cfg: PtyConfig,
    command: Seq<char>,
    args: Seq<String>,
    parent: Map<Seq<char>, Seq<char>>,
    working_dir_exists: bool,
) -> bool {
    if cfg.working_directory is Some && !working_dir_exists {
        r matches Err(ExpectError::Spawn(SpawnError::InvalidWorkingDir { path }))
            && path@ == cfg.working_directory->0@
    } else if has_nul(command) {
        is_nul_error(r, "command"@, command)
    } else if first_nul_arg(args, 0) is Some {
        is_nul_error(r, "argument"@, args[first_nul_arg(args, 0)->0]@)
    } else {
        r matches Ok(q) && is_request_for(q, cfg, command, args, parent)
    }
}

/// Whether `s` holds a nul character.
fn str_has_nul(s: &str) -> (r: bool)
    ensures
        r == has_nul(s@),
{
    let cs = crate::text::chars_of(s);
    let mut i: usize = 0;
    while i < cs.len()
        invariant
            i <= cs@.len(),
            cs@ == s@,
            forall|j: int| 0 <= j < i ==> cs@[j] != '\0',
        decreases cs.len() - i,
    {
        if cs[i] == '\0' {
            return true;
        }
        i = i + 1;
    }
    false
}

/// The error for a `kind` of input holding a nul character.
fn nul_error(kind: &str, value: &str) -> (r: Result<SpawnRequest, ExpectError>)
    ensures
        is_nul_error(r, kind@, value@),
{
    let reason = "contains a nul byte".to_owned();
    proof {
        reveal_strlit("contains a nul byte");
    }
    Err(ExpectError::Spawn(SpawnError::InvalidArgument { kind: kind.to_owned(), value: value.to_owned(), reason }))
}

/// What the caller needs to spawn a process.
#[derive(Debug)]
pub struct SpawnRequest {
    /// The program.
    pub command: String,
    /// Its arguments.
    pub args: Vec<String>,
    /// The environment (`None`: the parent's).
    pub env: Option<EnvMap>,
    /// The working directory (`None`: the parent's).
    pub working_directory: Option<String>,
    /// Terminal dimensions (cols, rows).
    pub dimensions: (u16, u16),
}

/// Spawner for PTY sessions.
#[derive(Debug)]
pub struct PtySpawner {
    config: PtyConfig,
}

impl PtySpawner {
    /// The spawner's configuration.
    pub closed spec fn spec_config(&self) -> PtyConfig {
        self.config
    }

    /// A spawner with the default configuration.
    pub fn new() -> (r: Self)
        ensures
            r.spec_config().dimensions == (80u16, 24u16),
            r.spec_config().env_mode == EnvMode::Inherit,
            r.spec_config().env.contents() == Map::<Seq<char>, Seq<char>>::empty(),
            r.spec_config().working_directory is None,
            !r.spec_config().login_shell,
    {
        PtySpawner { config: PtyConfig::default() }
    }

    /// A spawner with the given configuration.
    pub fn with_config(config: PtyConfig) -> (r: Self)
        ensures
            r.spec_config() == config,
    {
        PtySpawner { config }
    }

    /// The spawner's configuration.
    pub fn config(&self) -> (r: &PtyConfig)
        ensures
            *r == self.spec_config(),
    {
        &self.config
    }

    /// Set the terminal dimensions.
    pub fn set_dimensions(&mut self, cols: u16, rows: u16)
        ensures
            final(self).spec_config() == (PtyConfig { dimensions: (cols, rows), ..old(self).spec_config() }),
    {
        self.config.dimensions = (cols, rows);
    }

    /// The environment of a spawned process, given the parent's (see
    /// [`spawn_env_spec`]).
    pub fn spawn_env(&self, parent: &EnvMap) -> (r: Option<EnvMap>)
        ensures
            match (r, spawn_env_spec(
                self.spec_config().env_mode,
                self.spec_config().env.contents(),
                self.spec_config().env.spec_entries().len() == 0,
                parent.contents(),
            )) {
                (Some(e), Some(m)) => e.contents() == m,
                (None, None) => true,
                _ => false,
            },
    {
        match self.config.env_mode {
            EnvMode::Inherit => {
                if self.config.env.is_empty() {
                    None
                } else {
                    let mut m = parent.clone();
                    proof {
                        assert(m.contents() =~= parent.contents());
                    }
                    m.overlay(&self.config.env);
                    Some(m)
                }
            },
            EnvMode::Extend => {
                let mut m = parent.clone();
                proof {
                    assert(m.contents() =~= parent.contents());
                }
                m.overlay(&self.config.env);
                Some(m)
            },
            EnvMode::Clear => {
                let m = self.config.env.clone();
                proof {
                    assert(m.contents() =~= self.config.env.contents());
                }
                Some(m)
            },
        }
    }

    /// What to spawn for `command` with `args`, given the parent's
    /// environment and whether the configured working directory exists
    /// (checked by the caller): a missing working directory is refused.
    pub fn prepare_spawn(
        &self,
        command: &str,
        args: &[String],
        parent: &EnvMap,
        working_dir_exists: bool,
    ) -> (r: Result<SpawnRequest, ExpectError>)
        ensures
            prepare_outcome(r, self.spec_config(), command@, args@, parent.contents(), working_dir_exists),
    {
        let working_directory = match &self.config.working_directory {
            Some(d) => {
                if !working_dir_exists {
                    return Err(ExpectError::Spawn(SpawnError::InvalidWorkingDir { path: d.clone() }));
                }
                Some(d.clone())
            },
            None => None,
        };
        if str_has_nul(command) {
            proof {
                reveal_strlit("command");
            }
            return nul_error("command", command);
        }
        let mut k: usize = 0;
        while k < args.len()
            invariant
                k <= args@.len(),
                first_nul_arg(args@, k as int) == first_nul_arg(args@, 0),
                !has_nul(command@),
                !(self.spec_config().working_directory is Some && !working_dir_exists),
            decreases args.len() - k,
        {
            if str_has_nul(args[k].as_str()) {
                proof {
                    reveal_strlit("argument");
                    assert(first_nul_arg(args@, k as int) == Some(k as int));
                }
                return nul_error("argument", args[k].as_str());
            }
            k = k + 1;
        }
        let mut a: Vec<String> = Vec::new();
        let mut i: usize = 0;
        while i < args.len()
            invariant
                i <= args@.len(),
                a@.len() == i,
                forall|j: int| 0 <= j < i ==> #[trigger] a@[j]@ == args@[j]@,
            decreases args.len() - i,
        {
            a.push(args[i].clone());
            i = i + 1;
        }
        Ok(SpawnRequest {
            command: command.to_owned(),
            args: a,
            env: self.spawn_env(parent),
            working_directory,
            dimensions: self.config.dimensions,
        })
    }
}

} // verus!
