//! The signaling server's logic: Redis key layout and lifetimes, the message
//! protocol, the registry of connected devices, the decisions of the message
//! handlers, expired key handling, relay node selection and relay tokens,
//! invites, ICE server choice and configuration.
pub mod keys;
pub mod ttl;
pub mod offline;
pub mod relay_nodes;
pub mod ice_config;
pub mod config;
pub mod invite;
pub mod peers;
pub mod keyed;
pub mod message;
pub mod registry;
pub mod handlers;
pub mod nearby;
