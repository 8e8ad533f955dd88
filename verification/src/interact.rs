//! Interactive sessions: modes and filters, hooks, and the terminal state.
pub mod mode;
pub mod hooks;
pub mod terminal;
pub mod session;
