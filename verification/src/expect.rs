pub mod buffer;
pub mod glob;
pub mod pattern;
pub mod search;
pub mod matcher;
pub mod cache;
pub mod before_after;
pub mod large_buffer;
