//! Groups of sessions.
pub mod group;
pub mod select;
