//! Verified core of the RDCS remote-desktop system: the relay wire protocol,
//! session and port bookkeeping, signaling helpers, NAT traversal planning
//! and the platform abstraction types.
pub mod text;
pub mod crypto;
pub mod relay;
pub mod signaling;
pub mod traversal;
pub mod platform;
pub mod macos;
pub mod display;
pub mod video;
pub mod input_events;
