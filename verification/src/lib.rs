pub mod auto_config;
pub mod text;
pub mod split;
pub mod env_map;
pub mod config;
pub mod backend;
pub mod error;
pub mod num;
pub mod types;
pub mod clock;
pub mod expect;
pub mod encoding;
pub mod ansi_bytes;
pub mod health;
pub mod dialog;
pub mod mock;
pub mod multi;
pub mod interact;
pub mod metrics;
pub mod pii;
