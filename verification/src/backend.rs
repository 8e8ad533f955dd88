//! Backends: the transports a session can run over, and the capabilities a
//! transport may offer.
use vstd::prelude::*;
use crate::error::ExpectError;

pub mod pty;
pub mod ssh;

verus! {

/// Reaping of the child behind a transport.
pub trait ChildExit {
    /// The child's exit code once it has exited and been reaped; `None`
    /// while it runs or when its status cannot be known.
    fn try_exit_status(&mut self) -> Option<i32> {
        None
    }
}

/// Resizing of a transport's terminal.
pub trait Resizable {
    /// Resize the terminal to `cols` x `rows`.
    fn resize(&mut self, cols: u16, rows: u16) -> Result<(), ExpectError>;

    /// The terminal's dimensions as `(cols, rows)`.
    fn dimensions(&self) -> (u16, u16);
}

/// Control over the child process behind a session.
pub trait ProcessControl {
    /// The child's process id, if the backend has one.
    fn pid(&self) -> Option<u32>;

    /// Send a signal to the child; backends without signals refuse it.
    fn signal(&mut self, signal: i32) -> Result<(), ExpectError> {
        Err(ExpectError::Unsupported { operation: "signal".to_owned() })
    }

    /// Kill the child.
    fn kill(&mut self) -> Result<(), ExpectError>;

    /// Whether the child is still running.
    fn is_running(&mut self) -> bool;

    /// The child's exit code once reaped.
    fn try_exit_status(&mut self) -> Option<i32> {
        None
    }

    /// Whether the child has been seen to exit.
    fn has_exited(&mut self) -> bool {
        !self.is_running()
    }

    /// Give up ownership of the child.
    fn detach(&mut self) {
    }
}

/// A session backend.
pub trait Backend {
    /// Whether the backend can be used here.
    fn is_available(&self) -> bool;

    /// The backend's name.
    fn name(&self) -> &'static str;
}

/// Available backend types.
#[derive(Debug, Clone, Copy, PartialEq, Eq, Structural)]
pub enum BackendType {
    /// Local PTY backend.
    Pty,
    /// SSH backend for remote connections.
    Ssh,
    /// Mock backend for testing.
    Mock,
}

impl BackendType {
    /// Whether this backend can be used in this build: the PTY and mock
    /// backends can; the SSH transport is not built into this library (its
    /// configuration, pool and protocol decisions are).
    pub fn is_available(self) -> (r: bool)
        ensures
            r == (self != BackendType::Ssh),
    {
        match self {
            BackendType::Pty => true,
            BackendType::Ssh => false,
            BackendType::Mock => true,
        }
    }

    /// The backend's name.
    pub fn name(self) -> (r: &'static str)
        ensures
            r@ == match self {
                BackendType::Pty => "pty"@,
                BackendType::Ssh => "ssh"@,
                BackendType::Mock => "mock"@,
            },
    {
        match self {
            BackendType::Pty => "pty",
            BackendType::Ssh => "ssh",
            BackendType::Mock => "mock",
        }
    }
}

} // verus!
