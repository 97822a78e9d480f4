//! Lifetimes, in seconds, of the signaling server's Redis keys.
use vstd::prelude::*;

verus! {

/// Heartbeat lifetime of the `device:{code}:online` key: devices refresh it at
/// least once per minute to remain online.
pub const DEVICE_ONLINE_TTL: u64 = 60;

/// Expiry of a pending device-invite code (`device_invite:{code}`): 10 minutes.
pub const INVITE_TTL: u64 = 600;

/// Expiry of a one-shot relay-session token.
pub const RELAY_TOKEN_TTL: u64 = 30;

/// Expiry of session metadata (`session:{id}`): 24 hours.
pub const SESSION_TTL: u64 = 86_400;

/// Duration of a temporary lockout after repeated authentication failures: 30 minutes.
pub const LOCKOUT_TTL: u64 = 1800;

} // verus!
