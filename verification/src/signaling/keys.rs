//! Canonical Redis key-generation functions: every key the signaling server
//! uses is produced by exactly one function here.
use vstd::prelude::*;

verus! {

/// Key tracking whether a device is currently online.
///
/// Format: `device:{code}:online`
pub fn device_online_key(code: &str) -> (k: String)
    ensures
        k@ == "device:"@ + code@ + ":online"@,
{
    let mut s = String::from_str("device:");
    s.append(code);
    s.append(":online");
    assert(s@ =~= "device:"@ + code@ + ":online"@);
    s
}

/// Set key holding the online device codes of a team.
///
/// Format: `team:{team_id}:online_devices`
pub fn team_online_key(team_id: &str) -> (k: String)
    ensures
        k@ == "team:"@ + team_id@ + ":online_devices"@,
{
    let mut s = String::from_str("team:");
    s.append(team_id);
    s.append(":online_devices");
    assert(s@ =~= "team:"@ + team_id@ + ":online_devices"@);
    s
}

/// Hash key storing metadata for a single remote-control session.
///
/// Format: `session:{session_id}`
pub fn session_key(id: &str) -> (k: String)
    ensures
        k@ == "session:"@ + id@,
{
    let mut s = String::from_str("session:");
    s.append(id);
    assert(s@ =~= "session:"@ + id@);
    s
}

/// Key for a pending device-invite code awaiting claim.
///
/// Format: `device_invite:{code}`
pub fn invite_key(code: &str) -> (k: String)
    ensures
        k@ == "device_invite:"@ + code@,
{
    let mut s = String::from_str("device_invite:");
    s.append(code);
    assert(s@ =~= "device_invite:"@ + code@);
    s
}

/// Pub/Sub channel for broadcasting team-scoped events.
///
/// Format: `team:{team_id}:events`
pub fn team_events_channel(team_id: &str) -> (k: String)
    ensures
        k@ == "team:"@ + team_id@ + ":events"@,
{
    let mut s = String::from_str("team:");
    s.append(team_id);
    s.append(":events");
    assert(s@ =~= "team:"@ + team_id@ + ":events"@);
    s
}

/// Pub/Sub channel for signaling messages to a specific device.
///
/// Format: `device:{code}:signals`
pub fn device_signals_channel(code: &str) -> (k: String)
    ensures
        k@ == "device:"@ + code@ + ":signals"@,
{
    let mut s = String::from_str("device:");
    s.append(code);
    s.append(":signals");
    assert(s@ =~= "device:"@ + code@ + ":signals"@);
    s
}

/// Key for a one-shot relay session token; its value is the session id the
/// token was issued for.
///
/// Format: `relay_token:{token_hex}`
pub fn relay_token_key(token_hex: &str) -> (k: String)
    ensures
        k@ == "relay_token:"@ + token_hex@,
{
    let mut s = String::from_str("relay_token:");
    s.append(token_hex);
    assert(s@ =~= "relay_token:"@ + token_hex@);
    s
}

/// Key used for a temporary lockout after repeated failures.
///
/// Format: `lockout:{kind}:{id}`, where `kind` is a discriminator such as
/// `"ip"` or `"user"` and `id` the specific identifier.
pub fn lockout_key(kind: &str, id: &str) -> (k: String)
    ensures
        k@ == "lockout:"@ + kind@ + ":"@ + id@,
{
    let mut s = String::from_str("lockout:");
    s.append(kind);
    s.append(":");
    s.append(id);
    assert(s@ =~= "lockout:"@ + kind@ + ":"@ + id@);
    s
}

} // verus!
