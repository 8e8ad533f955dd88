//! Names of common environment variables.
use vstd::prelude::*;

verus! {

/// Timeout variable.
pub const TIMEOUT: &'static str = "TIMEOUT";
/// Debug variable.
pub const DEBUG: &'static str = "DEBUG";
/// Log level variable.
pub const LOG_LEVEL: &'static str = "LOG_LEVEL";
/// Shell variable.
pub const SHELL: &'static str = "SHELL";
/// Terminal type variable.
pub const TERM: &'static str = "TERM";
/// Terminal width variable.
pub const COLUMNS: &'static str = "COLUMNS";
/// Terminal height variable.
pub const LINES: &'static str = "LINES";
/// Home directory variable.
pub const HOME: &'static str = "HOME";
/// User name variable.
pub const USER: &'static str = "USER";
/// Search path variable.
pub const PATH: &'static str = "PATH";

} // verus!
