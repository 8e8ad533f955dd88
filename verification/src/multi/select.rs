//! Results of operations over several sessions.
use vstd::prelude::*;
use crate::types::Match;

verus! {

/// The result of waiting on several sessions at once.
#[derive(Debug, Clone)]
pub struct SelectResult {
    /// The session that matched.
    pub session_id: usize,
    /// The match.
    pub matched: Match,
    /// Which pattern matched.
    pub pattern_index: usize,
}

/// The result of sending to one of several sessions.
#[derive(Debug, Clone)]
pub struct SendResult {
    /// The session sent to.
    pub session_id: usize,
    /// Whether the send succeeded.
    pub success: bool,
    /// The error, if it failed.
    pub error: Option<String>,
}

/// What made a session ready.
#[derive(Debug, Clone, Copy, PartialEq, Eq, Structural)]
pub enum ReadyType {
    /// A pattern matched.
    Matched,
    /// Data can be read.
    Readable,
    /// Data can be written.
    Writable,
    /// The session closed.
    Closed,
    /// An error occurred.
    Error,
}

impl SendResult {
    /// The result of sending to `session_id`: success, or the error's message.
    pub fn of(session_id: usize, outcome: Result<(), String>) -> (r: Self)
        ensures
            r.session_id == session_id,
            r.success == (outcome is Ok),
            match outcome {
                Ok(_) => r.error is None,
                Err(m) => r.error == Some(m),
            },
    {
        match outcome {
            Ok(()) => SendResult { session_id, success: true, error: None },
            Err(m) => SendResult { session_id, success: false, error: Some(m) },
        }
    }
}

} // verus!
