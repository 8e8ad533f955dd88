//! Configuration types for sessions, timeouts and buffers.
//!
//! Durations are held as whole milliseconds.
pub mod env;
pub mod file;

use vstd::prelude::*;
use crate::env_map::EnvMap;

verus! {

/// Default timeout for expect operations (30 s, in milliseconds).
pub const DEFAULT_TIMEOUT: u64 = 30_000u64;

/// Default maximum buffer size (100 MiB).
pub const DEFAULT_BUFFER_SIZE: usize = 104_857_600usize;

/// Default terminal width.
pub const DEFAULT_TERMINAL_WIDTH: u16 = 80u16;

/// Default terminal height.
pub const DEFAULT_TERMINAL_HEIGHT: u16 = 24u16;

/// Default delay before sending (50 ms).
pub const DEFAULT_DELAY_BEFORE_SEND: u64 = 50u64;

/// Default terminal type.
pub fn default_term() -> (r: &'static str)
    ensures
        r@ == "xterm-256color"@,
{
    "xterm-256color"
}

/// Line ending to send with lines.
#[derive(Debug, Clone, Copy, PartialEq, Eq, Structural)]
pub enum LineEnding {
    /// Unix-style LF.
    Lf,
    /// Windows-style CRLF.
    CrLf,
    /// Classic Mac CR.
    Cr,
}

impl LineEnding {
    /// The ending as a string.
    pub fn as_str(self) -> (r: &'static str)
        ensures
            r@ == (match self {
                LineEnding::Lf => "\n"@,
                LineEnding::CrLf => "\r\n"@,
                LineEnding::Cr => "\r"@,
            }),
    {
        match self {
            LineEnding::Lf => "\n",
            LineEnding::CrLf => "\r\n",
            LineEnding::Cr => "\r",
        }
    }

    /// The ending as bytes.
    pub fn as_bytes(self) -> (r: &'static [u8])
        ensures
            r@ == (match self {
                LineEnding::Lf => seq![10u8],
                LineEnding::CrLf => seq![13u8, 10u8],
                LineEnding::Cr => seq![13u8],
            }),
    {
        match self {
            LineEnding::Lf => crate::auto_config::line_ending::LineEnding::Lf.as_bytes(),
            LineEnding::CrLf => crate::auto_config::line_ending::LineEnding::CrLf.as_bytes(),
            LineEnding::Cr => crate::auto_config::line_ending::LineEnding::Cr.as_bytes(),
        }
    }

    /// The platform line ending; this build targets Unix-like systems (LF).
    pub fn platform_default() -> (r: Self)
        ensures
            r == LineEnding::Lf,
    {
        LineEnding::Lf
    }
}

impl Default for LineEnding {
    fn default() -> (r: Self)
        ensures
            r == LineEnding::Lf,
    {
        LineEnding::Lf
    }
}

/// Timeout configuration (milliseconds).
#[derive(Debug, Clone, Copy, PartialEq, Eq, Structural)]
pub struct TimeoutConfig {
    /// Default timeout for expect operations.
    pub default: u64,
    /// Timeout for spawn operations.
    pub spawn: u64,
    /// Timeout for close operations.
    pub close: u64,
}

impl Default for TimeoutConfig {
    fn default() -> (r: Self)
        ensures
            r == (TimeoutConfig { default: DEFAULT_TIMEOUT, spawn: 60_000, close: 10_000 }),
    {
        TimeoutConfig { default: DEFAULT_TIMEOUT, spawn: 60_000, close: 10_000 }
    }
}

impl TimeoutConfig {
    /// Create with the given default timeout.
    pub fn new(default: u64) -> (r: Self)
        ensures
            r == (TimeoutConfig { default, spawn: 60_000, close: 10_000 }),
    {
        TimeoutConfig { default, spawn: 60_000, close: 10_000 }
    }

    /// Set the spawn timeout.
    pub fn spawn(self, timeout: u64) -> (r: Self)
        ensures
            r == (TimeoutConfig { spawn: timeout, ..self }),
    {
        TimeoutConfig { spawn: timeout, ..self }
    }

    /// Set the close timeout.
    pub fn close(self, timeout: u64) -> (r: Self)
        ensures
            r == (TimeoutConfig { close: timeout, ..self }),
    {
        TimeoutConfig { close: timeout, ..self }
    }
}

/// Buffer configuration.
#[derive(Debug, Clone, Copy, PartialEq, Eq, Structural)]
pub struct BufferConfig {
    /// Maximum buffer size in bytes.
    pub max_size: usize,
    /// Search window size (only search last N bytes).
    pub search_window: Option<usize>,
}

impl Default for BufferConfig {
    fn default() -> (r: Self)
        ensures
            r == (BufferConfig { max_size: DEFAULT_BUFFER_SIZE, search_window: None }),
    {
        BufferConfig { max_size: DEFAULT_BUFFER_SIZE, search_window: None }
    }
}

impl BufferConfig {
    /// Create with the given maximum size.
    pub fn new(max_size: usize) -> (r: Self)
        ensures
            r == (BufferConfig { max_size, search_window: None }),
    {
        BufferConfig { max_size, search_window: None }
    }

    /// Set the search window.
    pub fn search_window(self, size: usize) -> (r: Self)
        ensures
            r == (BufferConfig { search_window: Some(size), ..self }),
    {
        BufferConfig { search_window: Some(size), ..self }
    }
}

/// Configuration for a session.
#[derive(Debug)]
pub struct SessionConfig {
    /// The command to run.
    pub command: String,
    /// Arguments.
    pub args: Vec<String>,
    /// Environment variables to set.
    pub env: EnvMap,
    /// Whether to inherit the parent environment.
    pub inherit_env: bool,
    /// Working directory.
    pub working_dir: Option<String>,
    /// Terminal dimensions (width, height).
    pub dimensions: (u16, u16),
    /// Timeouts.
    pub timeout: TimeoutConfig,
    /// Buffer settings.
    pub buffer: BufferConfig,
    /// Line ending to use.
    pub line_ending: LineEnding,
    /// Delay before sending (milliseconds).
    pub delay_before_send: u64,
}

impl SessionConfig {
    /// Default configuration (with `TERM` set to `xterm-256color`).
    pub fn default() -> (r: Self)
        ensures
            r.command@ == Seq::<char>::empty(),
            r.args@.len() == 0,
            r.env.contents() == Map::<Seq<char>, Seq<char>>::empty().insert("TERM"@, "xterm-256color"@),
            r.inherit_env,
            r.working_dir is None,
            r.dimensions == (DEFAULT_TERMINAL_WIDTH, DEFAULT_TERMINAL_HEIGHT),
            r.timeout == TimeoutConfig::spec_default(),
            r.buffer == (BufferConfig { max_size: DEFAULT_BUFFER_SIZE, search_window: None }),
            r.line_ending == LineEnding::Lf,
            r.delay_before_send == DEFAULT_DELAY_BEFORE_SEND,
    {
        let mut env = EnvMap::new();
        env.insert("TERM".to_owned(), default_term().to_owned());
        SessionConfig {
            command: String::new(),
            args: Vec::new(),
            env,
            inherit_env: true,
            working_dir: None,
            dimensions: (DEFAULT_TERMINAL_WIDTH, DEFAULT_TERMINAL_HEIGHT),
            timeout: TimeoutConfig::default(),
            buffer: BufferConfig::default(),
            line_ending: LineEnding::default(),
            delay_before_send: DEFAULT_DELAY_BEFORE_SEND,
        }
    }

    /// Create a config for the given command.
    pub fn new(command: String) -> (r: Self)
        ensures
            r.command == command,
            r.args@.len() == 0,
            r.env.contents() == Map::<Seq<char>, Seq<char>>::empty().insert("TERM"@, "xterm-256color"@),
            r.inherit_env,
            r.working_dir is None,
            r.dimensions == (DEFAULT_TERMINAL_WIDTH, DEFAULT_TERMINAL_HEIGHT),
            r.timeout == TimeoutConfig::spec_default(),
            r.line_ending == LineEnding::Lf,
            r.delay_before_send == DEFAULT_DELAY_BEFORE_SEND,
    {
        SessionConfig { command, ..SessionConfig::default() }
    }

    /// Set the arguments.
    pub fn args(self, args: Vec<String>) -> (r: Self)
        ensures
            r == (SessionConfig { args, ..self }),
    {
        SessionConfig { args, ..self }
    }

    /// Set an environment variable.
    pub fn env(self, key: String, value: String) -> (r: Self)
        ensures
            r.env.contents() == self.env.contents().insert(key@, value@),
            r.command == self.command,
            r.args == self.args,
            r.inherit_env == self.inherit_env,
            r.working_dir == self.working_dir,
            r.dimensions == self.dimensions,
            r.timeout == self.timeout,
            r.buffer == self.buffer,
            r.line_ending == self.line_ending,
            r.delay_before_send == self.delay_before_send,
    {
        let mut s = self;
        s.env.insert(key, value);
        s
    }

    /// Set whether to inherit the environment.
    pub fn inherit_env(self, inherit: bool) -> (r: Self)
        ensures
            r == (SessionConfig { inherit_env: inherit, ..self }),
    {
        SessionConfig { inherit_env: inherit, ..self }
    }

    /// Set the working directory.
    pub fn working_dir(self, path: String) -> (r: Self)
        ensures
            r == (SessionConfig { working_dir: Some(path), ..self }),
    {
        SessionConfig { working_dir: Some(path), ..self }
    }

    /// Set terminal dimensions.
    pub fn dimensions(self, width: u16, height: u16) -> (r: Self)
        ensures
            r == (SessionConfig { dimensions: (width, height), ..self }),
    {
        SessionConfig { dimensions: (width, height), ..self }
    }

    /// Set the default timeout.
    pub fn timeout(self, timeout: u64) -> (r: Self)
        ensures
            r == (SessionConfig { timeout: TimeoutConfig { default: timeout, ..self.timeout }, ..self }),
    {
        let t = TimeoutConfig { default: timeout, ..self.timeout };
        SessionConfig { timeout: t, ..self }
    }

    /// Set the line ending.
    pub fn line_ending(self, line_ending: LineEnding) -> (r: Self)
        ensures
            r == (SessionConfig { line_ending, ..self }),
    {
        SessionConfig { line_ending, ..self }
    }

    /// Set the delay before sending.
    pub fn delay_before_send(self, delay: u64) -> (r: Self)
        ensures
            r == (SessionConfig { delay_before_send: delay, ..self }),
    {
        SessionConfig { delay_before_send: delay, ..self }
    }
}

impl Clone for SessionConfig {
    fn clone(&self) -> (r: Self)
        ensures
            r.command == self.command,
            r.env.contents() == self.env.contents(),
            r.inherit_env == self.inherit_env,
            r.working_dir == self.working_dir,
            r.dimensions == self.dimensions,
            r.timeout == self.timeout,
            r.buffer == self.buffer,
            r.line_ending == self.line_ending,
            r.delay_before_send == self.delay_before_send,
    {
        let working_dir = match &self.working_dir {
            Some(d) => Some(d.clone()),
            None => None,
        };
        SessionConfig {
            command: self.command.clone(),
            args: self.args.clone(),
            env: self.env.clone(),
            inherit_env: self.inherit_env,
            working_dir,
            dimensions: self.dimensions,
            timeout: self.timeout,
            buffer: self.buffer,
            line_ending: self.line_ending,
            delay_before_send: self.delay_before_send,
        }
    }
}

impl TimeoutConfig {
    /// The default timeouts.
    pub open spec fn spec_default() -> TimeoutConfig {
        TimeoutConfig { default: DEFAULT_TIMEOUT, spawn: 60_000, close: 10_000 }
    }
}

} // verus!
