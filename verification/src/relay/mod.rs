//! The relay node: wire protocol, port and session bookkeeping, token
//! checks, metrics and the health endpoint's routing.
pub mod protocol;
pub mod port_pool;
pub mod metrics;
pub mod health;
pub mod auth;
pub mod session;
pub mod config;
