pub mod auth;
pub mod auth_flow;
pub mod builder;
pub mod channel;
pub mod keepalive;
pub mod known_hosts;
pub mod pool;
pub mod session;
pub mod resilient;
pub mod retry;
