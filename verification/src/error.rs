//! Error types.
//!
//! Durations are whole milliseconds; an I/O or regex error is carried as its message.
use vstd::prelude::*;

pub mod message;

verus! {

/// Errors raised while spawning a process.
#[derive(Debug, Clone, PartialEq, Eq)]
pub enum SpawnError {
    /// The command was not found.
    CommandNotFound { command: String },
    /// Permission denied.
    PermissionDenied { path: String },
    /// PTY allocation failed.
    PtyAllocation { reason: String },
    /// Terminal setup failed.
    TerminalSetup { reason: String },
    /// Invalid environment variable.
    InvalidEnv { name: String },
    /// Invalid working directory.
    InvalidWorkingDir { path: String },
    /// I/O error during spawn (its message).
    Io(String),
    /// Invalid argument.
    InvalidArgument { kind: String, value: String, reason: String },
}

impl SpawnError {
    /// Command not found.
    pub fn command_not_found(command: String) -> (r: Self)
        ensures
            r == (SpawnError::CommandNotFound { command }),
    {
        SpawnError::CommandNotFound { command }
    }

    /// Permission denied.
    pub fn permission_denied(path: String) -> (r: Self)
        ensures
            r == (SpawnError::PermissionDenied { path }),
    {
        SpawnError::PermissionDenied { path }
    }

    /// PTY allocation failed.
    pub fn pty_allocation(reason: String) -> (r: Self)
        ensures
            r == (SpawnError::PtyAllocation { reason }),
    {
        SpawnError::PtyAllocation { reason }
    }

    /// Terminal setup failed.
    pub fn terminal_setup(reason: String) -> (r: Self)
        ensures
            r == (SpawnError::TerminalSetup { reason }),
    {
        SpawnError::TerminalSetup { reason }
    }

    /// Invalid environment variable.
    pub fn invalid_env(name: String) -> (r: Self)
        ensures
            r == (SpawnError::InvalidEnv { name }),
    {
        SpawnError::InvalidEnv { name }
    }

    /// Invalid working directory.
    pub fn invalid_working_dir(path: String) -> (r: Self)
        ensures
            r == (SpawnError::InvalidWorkingDir { path }),
    {
        SpawnError::InvalidWorkingDir { path }
    }
}

/// Errors of the SSH backend.
#[derive(Debug, Clone, PartialEq, Eq)]
pub enum SshError {
    /// Connection failed.
    Connection { host: String, port: u16, reason: String },
    /// Authentication failed.
    Authentication { user: String, reason: String },
    /// Host key verification failed.
    HostKeyVerification { host: String, reason: String },
    /// Channel error.
    Channel { reason: String },
    /// Session error.
    Session { reason: String },
    /// Operation timed out (milliseconds).
    Timeout { duration: u64 },
}

impl SshError {
    /// Connection failed.
    pub fn connection(host: String, port: u16, reason: String) -> (r: Self)
        ensures
            r == (SshError::Connection { host, port, reason }),
    {
        SshError::Connection { host, port, reason }
    }

    /// Authentication failed.
    pub fn authentication(user: String, reason: String) -> (r: Self)
        ensures
            r == (SshError::Authentication { user, reason }),
    {
        SshError::Authentication { user, reason }
    }

    /// Host key verification failed.
    pub fn host_key_verification(host: String, reason: String) -> (r: Self)
        ensures
            r == (SshError::HostKeyVerification { host, reason }),
    {
        SshError::HostKeyVerification { host, reason }
    }

    /// Channel error.
    pub fn channel(reason: String) -> (r: Self)
        ensures
            r == (SshError::Channel { reason }),
    {
        SshError::Channel { reason }
    }

    /// Session error.
    pub fn session(reason: String) -> (r: Self)
        ensures
            r == (SshError::Session { reason }),
    {
        SshError::Session { reason }
    }

    /// Timeout.
    pub fn timeout(duration: u64) -> (r: Self)
        ensures
            r == (SshError::Timeout { duration }),
    {
        SshError::Timeout { duration }
    }
}

/// The main error type.
#[derive(Debug, Clone, PartialEq, Eq)]
pub enum ExpectError {
    /// Failed to spawn a process.
    Spawn(SpawnError),
    /// I/O error (its message).
    Io(String),
    /// I/O error with context.
    IoWithContext { context: String, message: String },
    /// Timeout waiting for a pattern.
    Timeout { duration: u64, pattern: String, buffer: String },
    /// Pattern not found before EOF.
    PatternNotFound { pattern: String, buffer: String },
    /// Process exited unexpectedly (its exit code, if any).
    ProcessExited { exit_status: Option<i32>, buffer: String },
    /// End of file reached.
    Eof { buffer: String },
    /// Invalid pattern.
    InvalidPattern { message: String },
    /// Invalid regex pattern (the regex error's message).
    Regex(String),
    /// Session closed.
    SessionClosed,
    /// Session not found.
    SessionNotFound { id: usize },
    /// No sessions available.
    NoSessions,
    /// Not in interact mode.
    NotInteracting,
    /// Buffer overflow.
    BufferOverflow { max_size: usize },
    /// Encoding error.
    Encoding { message: String },
    /// SSH error.
    Ssh(SshError),
    /// Configuration error.
    Config { message: String },
    /// Signal error.
    Signal { message: String },
    /// The operation is not supported by this backend.
    Unsupported { operation: String },
}

impl ExpectError {
    /// Timeout error.
    pub fn timeout(duration: u64, pattern: String, buffer: String) -> (r: Self)
        ensures
            r == (ExpectError::Timeout { duration, pattern, buffer }),
    {
        ExpectError::Timeout { duration, pattern, buffer }
    }

    /// Pattern-not-found error.
    pub fn pattern_not_found(pattern: String, buffer: String) -> (r: Self)
        ensures
            r == (ExpectError::PatternNotFound { pattern, buffer }),
    {
        ExpectError::PatternNotFound { pattern, buffer }
    }

    /// Process-exited error.
    pub fn process_exited(exit_status: Option<i32>, buffer: String) -> (r: Self)
        ensures
            r == (ExpectError::ProcessExited { exit_status, buffer }),
    {
        ExpectError::ProcessExited { exit_status, buffer }
    }

    /// EOF error.
    pub fn eof(buffer: String) -> (r: Self)
        ensures
            r == (ExpectError::Eof { buffer }),
    {
        ExpectError::Eof { buffer }
    }

    /// Invalid pattern error.
    pub fn invalid_pattern(message: String) -> (r: Self)
        ensures
            r == (ExpectError::InvalidPattern { message }),
    {
        ExpectError::InvalidPattern { message }
    }

    /// Buffer overflow error.
    pub fn buffer_overflow(max_size: usize) -> (r: Self)
        ensures
            r == (ExpectError::BufferOverflow { max_size }),
    {
        ExpectError::BufferOverflow { max_size }
    }

    /// Encoding error.
    pub fn encoding(message: String) -> (r: Self)
        ensures
            r == (ExpectError::Encoding { message }),
    {
        ExpectError::Encoding { message }
    }

    /// Configuration error.
    pub fn config(message: String) -> (r: Self)
        ensures
            r == (ExpectError::Config { message }),
    {
        ExpectError::Config { message }
    }

    /// I/O error with context.
    pub fn io_context(context: String, message: String) -> (r: Self)
        ensures
            r == (ExpectError::IoWithContext { context, message }),
    {
        ExpectError::IoWithContext { context, message }
    }

    /// Maps the error of an I/O result (given as its message) to an error with context.
    pub fn with_io_context<T>(result: Result<T, String>, context: String) -> (r: Result<T, ExpectError>)
        ensures
            match result {
                Ok(v) => r == Ok::<T, ExpectError>(v),
                Err(m) => r == Err::<T, ExpectError>(ExpectError::IoWithContext { context, message: m }),
            },
    {
        match result {
            Ok(v) => Ok(v),
            Err(m) => Err(ExpectError::IoWithContext { context, message: m }),
        }
    }

    /// Whether this is a timeout.
    pub fn is_timeout(&self) -> (r: bool)
        ensures
            r == (*self is Timeout),
    {
        matches!(self, ExpectError::Timeout { .. })
    }

    /// Whether this is an EOF (or process exit).
    pub fn is_eof(&self) -> (r: bool)
        ensures
            r == (*self is Eof || *self is ProcessExited),
    {
        matches!(self, ExpectError::Eof { .. } | ExpectError::ProcessExited { .. })
    }

    /// The buffer contents at the time of the error, if it carries them.
    pub fn buffer(&self) -> (r: Option<&str>)
        ensures
            match *self {
                ExpectError::Timeout { buffer, .. } => r matches Some(b) && b@ == buffer@,
                ExpectError::PatternNotFound { buffer, .. } => r matches Some(b) && b@ == buffer@,
                ExpectError::ProcessExited { buffer, .. } => r matches Some(b) && b@ == buffer@,
                ExpectError::Eof { buffer } => r matches Some(b) && b@ == buffer@,
                _ => r is None,
            },
    {
        match self {
            ExpectError::Timeout { buffer, .. } => Some(buffer.as_str()),
            ExpectError::PatternNotFound { buffer, .. } => Some(buffer.as_str()),
            ExpectError::ProcessExited { buffer, .. } => Some(buffer.as_str()),
            ExpectError::Eof { buffer } => Some(buffer.as_str()),
            _ => None,
        }
    }
}

} // verus!
