//! The decisions of the signaling message handlers: given the registry and
//! an incoming message, what changes and which messages go where. The
//! caller delivers the messages and keeps Redis up to date.
use vstd::prelude::*;
use crate::signaling::invite::{generate_invite_code, invite_number, InviteRecord};
use crate::signaling::keys::invite_key;
use crate::signaling::message::{is_error_message, IceCandidate, WsMessage};
use crate::signaling::offline::{extract_device_code, spec_device_code};
use crate::signaling::peers::{ConnectionInfo, DeviceInfo, SessionSendError};
use crate::signaling::registry::{
    lists_recipients, opt_str_view, opt_view, other_peer, team_of, to_one, Delivery, Session, SessionManager,
};
use crate::crypto::hmac_sha256;
use crate::relay::auth::unix_now;
use crate::signaling::relay_nodes::{
    choose_relay_index, generate_hmac_token, is_selection, region_view, relay_token_message, snapshot_loads, RelayNode,
};
use crate::text::{decimal, hex_bytes, str_equal};
use crate::signaling::ttl::RELAY_TOKEN_TTL;

verus! {

/// `uuid::Uuid::new_v4().to_string()`: a random UUID in its hyphenated
/// text form. Nothing is stated of it: it comes from a random number
/// generator.
#[verifier::external_body]
fn random_uuid_text() -> String {
    uuid::Uuid::new_v4().to_string()
}

/// The text of an optional string slice, as an owned optional string.
fn opt_string(o: Option<&str>) -> (r: Option<String>)
    ensures
        opt_view(r) == opt_str_view(o),
{
    match o {
        Some(s) => Some(s.to_string()),
        None => None,
    }
}

/// `m` is a `peer_offline` notice for device `code` with the given reason.
pub open spec fn is_peer_offline(m: WsMessage, code: Seq<char>, reason: Seq<char>) -> bool {
    m matches WsMessage::PeerOffline { device_code: c, reason: why } && c@ == code && why@ == reason
}

/// `m` is a connection request from `from` to `to` with the given session
/// id and invite code.
pub open spec fn is_connect_request(
    m: WsMessage,
    from: Seq<char>,
    to: Seq<char>,
    session_id: Option<Seq<char>>,
    invite_code: Option<Seq<char>>,
) -> bool {
    m matches WsMessage::ConnectRequest { from_code: f, to_code: t, session_id: s, invite_code: i } && f@ == from
        && t@ == to && opt_view(s) == session_id && opt_view(i) == invite_code
}

/// `m` is a connection response from `from` for the given session.
pub open spec fn is_connect_response(m: WsMessage, accepted: bool, session_id: Seq<char>, from: Seq<char>) -> bool {
    m matches WsMessage::ConnectResponse { accepted: a, session_id: s, from_code: f } && a == accepted && s@
        == session_id && f@ == from
}

/// The single-device update that announces a device to its team.
pub open spec fn device_update(m: WsMessage, code: Seq<char>, platform: Seq<char>, online: bool) -> bool {
    m matches WsMessage::NearbyUpdate { devices } && devices@.len() == 1 && devices@[0].code@ == code
        && devices@[0].name@ == code && devices@[0].platform@ == platform && devices@[0].online == online
}

/// A message naming one device as the only one of an update.
fn single_device_update(code: &str, platform: &str, online: bool) -> (m: WsMessage)
    ensures
        device_update(m, code@, platform@, online),
{
    let mut devices: Vec<DeviceInfo> = Vec::new();
    devices.push(DeviceInfo { code: code.to_string(), name: code.to_string(), platform: platform.to_string(), online });
    WsMessage::NearbyUpdate { devices }
}

/// Handle a device registration: the session is recorded (replacing an
/// earlier one of the same code), the connection info to clean up on
/// disconnect is returned, and, for a device in a team, an update naming it
/// online goes to every registered device of the team (itself included).
pub fn handle_register(mgr: &mut SessionManager, device_code: &str, platform: &str, team_id: Option<&str>) -> (r: (
    ConnectionInfo,
    Option<Delivery>,
))
    ensures
        final(mgr).sessions().dom() == old(mgr).sessions().dom().insert(device_code@),
        team_of(final(mgr).sessions(), device_code@) == opt_str_view(team_id),
        forall|k: Seq<char>| k != device_code@ && #[trigger] old(mgr).sessions().dom().contains(k) ==> final(mgr).sessions()[k]
            == old(mgr).sessions()[k],
        final(mgr).pending() == old(mgr).pending(),
        final(mgr).participants() == old(mgr).participants(),
        r.0.device_code@ == device_code@,
        opt_view(r.0.team_id) == opt_str_view(team_id),
        match team_id {
            None => r.1 is None,
            Some(t) => r.1 matches Some(d) && lists_recipients(d.to@, final(mgr).sessions(), t@, None)
                && device_update(d.msg, device_code@, platform@, true),
        },
{
    let session = Session { device_code: device_code.to_string(), team_id: opt_string(team_id) };
    let _ = mgr.insert(device_code.to_string(), session);
    let info = ConnectionInfo { device_code: device_code.to_string(), team_id: opt_string(team_id) };
    let delivery = match team_id {
        None => None,
        Some(t) => Some(mgr.broadcast_to_team(t, single_device_update(device_code, platform, true), None)),
    };
    (info, delivery)
}

/// Handle a disconnect: the session is removed and, for a device in a team,
/// an update naming it offline (with no platform) goes to every remaining
/// device of the team.
pub fn handle_disconnect(mgr: &mut SessionManager, info: &ConnectionInfo) -> (r: Option<Delivery>)
    ensures
        final(mgr).sessions() == old(mgr).sessions().remove(info.device_code@),
        final(mgr).pending() == old(mgr).pending(),
        final(mgr).participants() == old(mgr).participants(),
        match info.team_id {
            None => r is None,
            Some(t) => r matches Some(d) && lists_recipients(d.to@, final(mgr).sessions(), t@, None)
                && device_update(d.msg, info.device_code@, Seq::empty(), false),
        },
{
    let _ = mgr.remove(info.device_code.as_str());
    match info.team_id.as_ref() {
        None => None,
        Some(t) => {
            let msg = single_device_update(info.device_code.as_str(), "", false);
            proof {
                reveal_strlit("");
                assert(""@ =~= Seq::<char>::empty());
            }
            Some(mgr.broadcast_to_team(t.as_str(), msg, None))
        },
    }
}

/// What expiry of a Redis key means for the registry: for a device's online
/// key, the device's team (for the caller's bookkeeping) and, if it has
/// one, a `peer_offline` notice with reason `key_expired` to every device of
/// the team (the device itself included); the device's session is then
/// removed. Other keys change nothing.
pub fn handle_expired_key(mgr: &mut SessionManager, expired_key: &str) -> (r: Option<(Option<String>, Option<Delivery>)>)
    ensures
        match spec_device_code(expired_key@) {
            None => r is None && final(mgr).sessions() == old(mgr).sessions(),
            Some(code) => r matches Some((team, delivery)) && {
                &&& opt_view(team) == team_of(old(mgr).sessions(), code)
                &&& match team_of(old(mgr).sessions(), code) {
                    None => delivery is None,
                    Some(t) => delivery matches Some(d) && lists_recipients(d.to@, old(mgr).sessions(), t, None)
                        && is_peer_offline(d.msg, code, "key_expired"@),
                }
                &&& final(mgr).sessions() == old(mgr).sessions().remove(code)
            },
        },
        final(mgr).pending() == old(mgr).pending(),
        final(mgr).participants() == old(mgr).participants(),
{
    let code = match extract_device_code(expired_key) {
        Some(c) => c,
        None => {
            return None;
        },
    };
    let team = mgr.get_team_id(code);
    let delivery = match &team {
        None => None,
        Some(t) => Some(
            mgr.broadcast_to_team(
                t.as_str(),
                WsMessage::PeerOffline { device_code: code.to_string(), reason: String::from_str("key_expired") },
                None,
            ),
        ),
    };
    let _ = mgr.remove(code);
    Some((team, delivery))
}

/// The answer to a heartbeat after its online key was refreshed: a
/// `peer_offline` notice with reason `heartbeat_timeout` when the key no
/// longer existed, else nothing.
pub fn heartbeat_reply(device_code: &str, key_existed: bool) -> (r: Option<WsMessage>)
    ensures
        key_existed ==> r is None,
        !key_existed ==> (r matches Some(WsMessage::PeerOffline { device_code: c, reason: why }) && c@ == device_code@
            && why@ == "heartbeat_timeout"@),
{
    if key_existed {
        None
    } else {
        Some(WsMessage::PeerOffline { device_code: device_code.to_string(), reason: String::from_str("heartbeat_timeout") })
    }
}

/// Handle a connection request under the given session id: to an offline
/// target, a `device_offline` error goes back to the requester; otherwise
/// the request is recorded as pending and forwarded to the target with the
/// session id and the invite code.
pub fn handle_connect_request_with(
    mgr: &mut SessionManager,
    from_code: &str,
    to_code: &str,
    invite_code: Option<&str>,
    session_id: String,
) -> (r: Result<Delivery, SessionSendError>)
    ensures
        final(mgr).sessions() == old(mgr).sessions(),
        final(mgr).participants() == old(mgr).participants(),
        !old(mgr).sessions().dom().contains(to_code@) ==> {
            &&& final(mgr).pending() == old(mgr).pending()
            &&& old(mgr).sessions().dom().contains(from_code@) ==> (r matches Ok(d) && to_one(d, from_code@)
                && is_error_message(d.msg, "device_offline"@, "device "@ + to_code@ + " is offline"@))
            &&& !old(mgr).sessions().dom().contains(from_code@) ==> r is Err
        },
        old(mgr).sessions().dom().contains(to_code@) ==> {
            &&& final(mgr).pending().dom() == old(mgr).pending().dom().insert(to_code@)
            &&& final(mgr).pending()[to_code@]@ == from_code@
            &&& forall|k: Seq<char>| k != to_code@ && #[trigger] old(mgr).pending().dom().contains(k) ==> final(mgr).pending()[k]
                == old(mgr).pending()[k]
            &&& r matches Ok(d) && to_one(d, to_code@) && is_connect_request(
                d.msg,
                from_code@,
                to_code@,
                Some(session_id@),
                opt_str_view(invite_code),
            )
        },
{
    if !mgr.contains(to_code) {
        let mut message = String::from_str("device ");
        message.append(to_code);
        message.append(" is offline");
        return mgr.send_to(from_code, WsMessage::Error { code: String::from_str("device_offline"), message });
    }
    mgr.add_pending_connection(to_code, from_code);
    mgr.send_to(
        to_code,
        WsMessage::ConnectRequest {
            from_code: from_code.to_string(),
            to_code: to_code.to_string(),
            session_id: Some(session_id),
            invite_code: opt_string(invite_code),
        },
    )
}

/// Handle a connection request under a new random session id (see
/// `handle_connect_request_with`).
pub fn handle_connect_request(mgr: &mut SessionManager, from_code: &str, to_code: &str, invite_code: Option<&str>) -> (r:
    Result<Delivery, SessionSendError>)
    ensures
        final(mgr).sessions() == old(mgr).sessions(),
        final(mgr).participants() == old(mgr).participants(),
        !old(mgr).sessions().dom().contains(to_code@) ==> {
            &&& final(mgr).pending() == old(mgr).pending()
            &&& old(mgr).sessions().dom().contains(from_code@) ==> (r matches Ok(d) && to_one(d, from_code@)
                && is_error_message(d.msg, "device_offline"@, "device "@ + to_code@ + " is offline"@))
            &&& !old(mgr).sessions().dom().contains(from_code@) ==> r is Err
        },
        old(mgr).sessions().dom().contains(to_code@) ==> {
            &&& final(mgr).pending().dom() == old(mgr).pending().dom().insert(to_code@)
            &&& final(mgr).pending()[to_code@]@ == from_code@
            &&& forall|k: Seq<char>| k != to_code@ && #[trigger] old(mgr).pending().dom().contains(k) ==> final(mgr).pending()[k]
                == old(mgr).pending()[k]
            &&& r matches Ok(d) && to_one(d, to_code@) && (d.msg matches WsMessage::ConnectRequest { session_id: s, .. }
                && s is Some && is_connect_request(d.msg, from_code@, to_code@, opt_view(s), opt_str_view(invite_code)))
        },
{
    let session_id = random_uuid_text();
    handle_connect_request_with(mgr, from_code, to_code, invite_code, session_id)
}

/// Handle a connection response from `from_device`: the controller is the
/// device whose request to `from_device` was pending (the `from_code` of
/// the message when none was); the two are recorded as the participants of
/// the session, and the response goes to the controller. Returns the
/// controller with the delivery.
pub fn handle_connect_response(
    mgr: &mut SessionManager,
    from_device: &str,
    accepted: bool,
    session_id: &str,
    from_code_in_msg: &str,
) -> (r: (String, Result<Delivery, SessionSendError>))
    ensures
        final(mgr).sessions() == old(mgr).sessions(),
        final(mgr).pending() == old(mgr).pending().remove(from_device@),
        r.0@ == (if old(mgr).pending().dom().contains(from_device@) {
            old(mgr).pending()[from_device@]@
        } else {
            from_code_in_msg@
        }),
        final(mgr).participants().dom() == old(mgr).participants().dom().insert(session_id@),
        final(mgr).participants()[session_id@].0@ == r.0@,
        final(mgr).participants()[session_id@].1@ == from_device@,
        old(mgr).sessions().dom().contains(r.0@) ==> (r.1 matches Ok(d) && to_one(d, r.0@) && is_connect_response(
            d.msg,
            accepted,
            session_id@,
            from_device@,
        )),
        !old(mgr).sessions().dom().contains(r.0@) ==> r.1 is Err,
{
    let controller = match mgr.take_pending_connection(from_device) {
        Some(c) => c,
        None => from_code_in_msg.to_string(),
    };
    mgr.insert_session_participants(session_id, controller.as_str(), from_device);
    let d = mgr.send_to(
        controller.as_str(),
        WsMessage::ConnectResponse { accepted, session_id: session_id.to_string(), from_code: from_device.to_string() },
    );
    (controller, d)
}

/// The error answered to a negotiation message for an unknown session.
fn unknown_session(session_id: &str) -> (m: WsMessage)
    ensures
        is_error_message(m, "unknown_session"@, "session "@ + session_id@ + " not found"@),
{
    let mut message = String::from_str("session ");
    message.append(session_id);
    message.append(" not found");
    WsMessage::Error { code: String::from_str("unknown_session"), message }
}

/// Where a negotiation message goes: to the other participant of the
/// session when `from_device` is one; otherwise an `unknown_session` error
/// goes back to `from_device`.
pub open spec fn negotiation_routed(
    mgr: SessionManager,
    r: Result<Delivery, SessionSendError>,
    session_id: Seq<char>,
    from_device: Seq<char>,
    forwarded: spec_fn(WsMessage) -> bool,
) -> bool {
    match other_peer(mgr.participants(), session_id, from_device) {
        Some(other) => if mgr.sessions().dom().contains(other) {
            r matches Ok(d) && to_one(d, other) && forwarded(d.msg)
        } else {
            r is Err
        },
        None => if mgr.sessions().dom().contains(from_device) {
            r matches Ok(d) && to_one(d, from_device) && is_error_message(
                d.msg,
                "unknown_session"@,
                "session "@ + session_id + " not found"@,
            )
        } else {
            r is Err
        },
    }
}

/// Relay an ICE offer to the other participant of the session.
pub fn handle_ice_offer(mgr: &SessionManager, from_device: &str, session_id: &str, sdp: &str, candidates: Vec<IceCandidate>) -> (r:
    Result<Delivery, SessionSendError>)
    ensures
        negotiation_routed(
            *mgr,
            r,
            session_id@,
            from_device@,
            |m: WsMessage|
                m matches WsMessage::IceOffer { session_id: s, sdp: p, candidates: c } && s@ == session_id@ && p@
                    == sdp@ && c == candidates,
        ),
{
    match mgr.get_other_peer(session_id, from_device) {
        None => mgr.send_to(from_device, unknown_session(session_id)),
        Some(other) => mgr.send_to(
            other.as_str(),
            WsMessage::IceOffer { session_id: session_id.to_string(), sdp: sdp.to_string(), candidates },
        ),
    }
}

/// Relay an ICE answer to the other participant of the session.
pub fn handle_ice_answer(mgr: &SessionManager, from_device: &str, session_id: &str, sdp: &str, candidates: Vec<IceCandidate>) -> (r:
    Result<Delivery, SessionSendError>)
    ensures
        negotiation_routed(
            *mgr,
            r,
            session_id@,
            from_device@,
            |m: WsMessage|
                m matches WsMessage::IceAnswer { session_id: s, sdp: p, candidates: c } && s@ == session_id@ && p@
                    == sdp@ && c == candidates,
        ),
{
    match mgr.get_other_peer(session_id, from_device) {
        None => mgr.send_to(from_device, unknown_session(session_id)),
        Some(other) => mgr.send_to(
            other.as_str(),
            WsMessage::IceAnswer { session_id: session_id.to_string(), sdp: sdp.to_string(), candidates },
        ),
    }
}

/// Relay a trickled ICE candidate to the other participant of the session.
pub fn handle_ice_trickle(mgr: &SessionManager, from_device: &str, session_id: &str, candidate: IceCandidate) -> (r: Result<
    Delivery,
    SessionSendError,
>)
    ensures
        negotiation_routed(
            *mgr,
            r,
            session_id@,
            from_device@,
            |m: WsMessage|
                m matches WsMessage::IceTrickle { session_id: s, candidate: c } && s@ == session_id@ && c == candidate,
        ),
{
    match mgr.get_other_peer(session_id, from_device) {
        None => mgr.send_to(from_device, unknown_session(session_id)),
        Some(other) => mgr.send_to(other.as_str(), WsMessage::IceTrickle { session_id: session_id.to_string(), candidate }),
    }
}

/// What a client asking for a relay is answered, given the loads read for
/// the nodes: a `no_relay_available` error when no node has room, else the
/// chosen node (see `is_selection`) with a token binding the session to it.
pub open spec fn relay_reply(
    nodes: Seq<RelayNode>,
    loads: Seq<u32>,
    preferred: Option<Seq<char>>,
    session_id: Seq<char>,
    secret: Seq<u8>,
    nonce: Seq<char>,
    expires_at: u64,
    r: WsMessage,
) -> bool {
    ||| is_selection(nodes, loads, preferred, None) && is_error_message(
        r,
        "no_relay_available"@,
        "no relay nodes available"@,
    )
    ||| exists|i: int|
        is_selection(nodes, loads, preferred, Some(i)) && #[trigger] is_relay_assignment(
            r,
            session_id,
            nodes[i],
            hex_bytes(hmac_sha256(secret, relay_token_message(session_id, nodes[i].addr@, nonce, expires_at))),
        )
}

/// `m` assigns `node` to the session, with the given token.
pub open spec fn is_relay_assignment(m: WsMessage, session_id: Seq<char>, node: RelayNode, token: Seq<char>) -> bool {
    m matches WsMessage::RelayAssigned { session_id: s, relay_addr: a, relay_port: p, token: t } && s@ == session_id
        && a@ == node.addr@ && p == node.port && t@ == token
}

/// The answer for the node chosen for a relay request: a `no_relay_available`
/// error when none was, else an assignment of that node with an HMAC token
/// over session id, node address, nonce and expiry.
fn reply_for_choice(
    session_id: &str,
    nodes: &[RelayNode],
    choice: Option<usize>,
    secret: &[u8],
    nonce: &str,
    expires_at: u64,
) -> (r: WsMessage)
    requires
        choice matches Some(i) ==> i < nodes@.len(),
    ensures
        match choice {
            None => is_error_message(r, "no_relay_available"@, "no relay nodes available"@),
            Some(i) => is_relay_assignment(
                r,
                session_id@,
                nodes@[i as int],
                hex_bytes(
                    hmac_sha256(secret@, relay_token_message(session_id@, nodes@[i as int].addr@, nonce@, expires_at)),
                ),
            ),
        },
{
    match choice {
        None => WsMessage::Error {
            code: String::from_str("no_relay_available"),
            message: String::from_str("no relay nodes available"),
        },
        Some(i) => {
            let node = &nodes[i];
            let token = generate_hmac_token(secret, session_id, node.addr.as_str(), nonce, expires_at);
            WsMessage::RelayAssigned {
                session_id: session_id.to_string(),
                relay_addr: node.addr.clone(),
                relay_port: node.port,
                token,
            }
        },
    }
}

/// What a relay request is answered when the nodes' loads read `loads`:
/// select a node (preferring the client's region, then the lowest load) and
/// assign it with an HMAC token over session id, node address, nonce and
/// expiry, or answer `no_relay_available` when no node has room.
pub fn relay_reply_for(
    session_id: &str,
    preferred_region: Option<&str>,
    nodes: &[RelayNode],
    loads: &[u32],
    secret: &[u8],
    nonce: &str,
    expires_at: u64,
) -> (r: WsMessage)
    requires
        loads@.len() == nodes@.len(),
    ensures
        relay_reply(nodes@, loads@, region_view(preferred_region), session_id@, secret@, nonce@, expires_at, r),
{
    let choice = choose_relay_index(nodes, loads, preferred_region);
    let r = reply_for_choice(session_id, nodes, choice, secret, nonce, expires_at);
    proof {
        if let Some(i) = choice {
            assert(is_relay_assignment(
                r,
                session_id@,
                nodes@[i as int],
                hex_bytes(hmac_sha256(secret@, relay_token_message(session_id@, nodes@[i as int].addr@, nonce@, expires_at))),
            ));
        }
    }
    r
}

/// Answer a relay request with the given nonce and token expiry: read the
/// nodes' loads once, answer as `relay_reply_for` does for those loads, and,
/// when a node was assigned, count one more session on it.
pub fn relay_assignment(
    session_id: &str,
    preferred_region: Option<&str>,
    nodes: &[RelayNode],
    secret: &[u8],
    nonce: &str,
    expires_at: u64,
) -> (r: WsMessage)
    ensures
        exists|loads: Seq<u32>|
            loads.len() == nodes@.len() && #[trigger] relay_reply(
                nodes@,
                loads,
                region_view(preferred_region),
                session_id@,
                secret@,
                nonce@,
                expires_at,
                r,
            ),
{
    let loads = snapshot_loads(nodes);
    let choice = choose_relay_index(nodes, loads.as_slice(), preferred_region);
    if let Some(i) = choice {
        nodes[i].add_session();
    }
    let r = reply_for_choice(session_id, nodes, choice, secret, nonce, expires_at);
    proof {
        if let Some(i) = choice {
            assert(is_relay_assignment(
                r,
                session_id@,
                nodes@[i as int],
                hex_bytes(hmac_sha256(secret@, relay_token_message(session_id@, nodes@[i as int].addr@, nonce@, expires_at))),
            ));
        }
    }
    assert(relay_reply(nodes@, loads@, region_view(preferred_region), session_id@, secret@, nonce@, expires_at, r));
    r
}

/// The expiry of a relay token issued at Unix time `now`: `RELAY_TOKEN_TTL`
/// seconds later, stopping at the largest time.
pub open spec fn relay_token_expiry(now: u64) -> u64 {
    if now + RELAY_TOKEN_TTL > u64::MAX {
        u64::MAX
    } else {
        (now + RELAY_TOKEN_TTL) as u64
    }
}

/// Handle a relay request: as `relay_assignment`, with a fresh random nonce
/// and a token that expires `RELAY_TOKEN_TTL` seconds from now. Returns the
/// answer for the client; the caller stores the token of an assignment.
pub fn handle_relay_request(session_id: &str, preferred_region: Option<&str>, nodes: &[RelayNode], secret: &[u8]) -> (r:
    WsMessage)
    ensures
        exists|loads: Seq<u32>, nonce: Seq<char>, now: u64|
            loads.len() == nodes@.len() && #[trigger] relay_reply(
                nodes@,
                loads,
                region_view(preferred_region),
                session_id@,
                secret@,
                nonce,
                relay_token_expiry(now),
                r,
            ),
{
    let nonce = random_uuid_text();
    let now = unix_now();
    let expires_at = now.saturating_add(RELAY_TOKEN_TTL);
    assert(expires_at == relay_token_expiry(now));
    relay_assignment(session_id, preferred_region, nodes, secret, nonce.as_str(), expires_at)
}

/// A newly generated invite: the code, the Redis key it is stored under and
/// the record stored there.
pub struct NewInvite {
    pub code: String,
    pub key: String,
    pub record: InviteRecord,
}

/// Generate an invite for a device: a random four-digit code, its key
/// `device_invite:{code}`, and the record naming the device and its team.
/// The caller stores the record for `INVITE_TTL` seconds.
pub fn handle_generate_invite(device_code: &str, team_id: Option<&str>) -> (r: NewInvite)
    ensures
        exists|b: Seq<u8>| b.len() == 16 && r.code@ == decimal(invite_number(b) as nat),
        r.key@ == "device_invite:"@ + r.code@,
        r.record.device_code@ == device_code@,
        opt_view(r.record.team_id) == opt_str_view(team_id),
{
    let code = generate_invite_code();
    let key = invite_key(code.as_str());
    let record = InviteRecord { device_code: device_code.to_string(), team_id: opt_string(team_id) };
    NewInvite { code, key, record }
}

/// Consume an invite, given the record found under its key (`None` when
/// the key had expired or never existed) and a session id for the new
/// session. Fails with "invite expired or invalid" without a record, and
/// with "device {target} is offline" when the device that generated it is
/// not registered. Otherwise the request of `from_code` to that device is
/// recorded as pending and a connection request carrying the invite code is
/// forwarded to it; returns the session id, the target, and the delivery.
pub fn use_invite_with(
    mgr: &mut SessionManager,
    invite_code: &str,
    from_code: &str,
    record: Option<InviteRecord>,
    session_id: String,
) -> (r: Result<(String, String, Delivery), String>)
    ensures
        final(mgr).sessions() == old(mgr).sessions(),
        final(mgr).participants() == old(mgr).participants(),
        match record {
            None => r matches Err(e) && e@ == "invite expired or invalid"@ && final(mgr).pending() == old(mgr).pending(),
            Some(rec) => if !old(mgr).sessions().dom().contains(rec.device_code@) {
                &&& r matches Err(e) && e@ == "device "@ + rec.device_code@ + " is offline"@
                &&& final(mgr).pending() == old(mgr).pending()
            } else {
                &&& r matches Ok((s, t, d)) && s@ == session_id@ && t@ == rec.device_code@ && to_one(d, rec.device_code@)
                    && is_connect_request(d.msg, from_code@, rec.device_code@, None, Some(invite_code@))
                &&& final(mgr).pending().dom() == old(mgr).pending().dom().insert(rec.device_code@)
                &&& final(mgr).pending()[rec.device_code@]@ == from_code@
                &&& forall|k: Seq<char>|
                    k != rec.device_code@ && #[trigger] old(mgr).pending().dom().contains(k) ==> final(mgr).pending()[k]
                        == old(mgr).pending()[k]
            },
        },
{
    let rec = match record {
        None => {
            return Err(String::from_str("invite expired or invalid"));
        },
        Some(rec) => rec,
    };
    let target = rec.device_code;
    if !mgr.contains(target.as_str()) {
        let mut message = String::from_str("device ");
        message.append(target.as_str());
        message.append(" is offline");
        return Err(message);
    }
    mgr.add_pending_connection(target.as_str(), from_code);
    let sent = mgr.send_to(
        target.as_str(),
        WsMessage::ConnectRequest {
            from_code: from_code.to_string(),
            to_code: target.clone(),
            session_id: None,
            invite_code: Some(invite_code.to_string()),
        },
    );
    match sent {
        Ok(d) => Ok((session_id, target, d)),
        Err(e) => Err(e.to_display_string()),
    }
}

/// Consume an invite under a new random session id (see `use_invite_with`).
pub fn handle_use_invite(mgr: &mut SessionManager, invite_code: &str, from_code: &str, record: Option<InviteRecord>) -> (r:
    Result<(String, String, Delivery), String>)
    ensures
        final(mgr).sessions() == old(mgr).sessions(),
        final(mgr).participants() == old(mgr).participants(),
        match record {
            None => r matches Err(e) && e@ == "invite expired or invalid"@ && final(mgr).pending() == old(mgr).pending(),
            Some(rec) => if !old(mgr).sessions().dom().contains(rec.device_code@) {
                &&& r matches Err(e) && e@ == "device "@ + rec.device_code@ + " is offline"@
                &&& final(mgr).pending() == old(mgr).pending()
            } else {
                &&& r matches Ok((s, t, d)) && t@ == rec.device_code@ && to_one(d, rec.device_code@)
                    && is_connect_request(d.msg, from_code@, rec.device_code@, None, Some(invite_code@))
                &&& final(mgr).pending().dom() == old(mgr).pending().dom().insert(rec.device_code@)
                &&& final(mgr).pending()[rec.device_code@]@ == from_code@
                &&& forall|k: Seq<char>|
                    k != rec.device_code@ && #[trigger] old(mgr).pending().dom().contains(k) ==> final(mgr).pending()[k]
                        == old(mgr).pending()[k]
            },
        },
{
    let session_id = random_uuid_text();
    use_invite_with(mgr, invite_code, from_code, record, session_id)
}

/// The error answered to an invite request that could not be served: code
/// `invite_error` with the given message.
pub fn invite_error(message: String) -> (m: WsMessage)
    ensures
        is_error_message(m, "invite_error"@, message@),
{
    WsMessage::Error { code: String::from_str("invite_error"), message }
}

/// The answer to an invite request when no invite store is configured:
/// `invite_error` with the message "redis unavailable".
pub fn invite_store_unavailable() -> (m: WsMessage)
    ensures
        is_error_message(m, "invite_error"@, "redis unavailable"@),
{
    invite_error(String::from_str("redis unavailable"))
}

/// Where a team message that an instance published reaches on this
/// instance: nowhere when this instance published it (its own devices were
/// served when it was sent), else every local device of the team.
pub fn cross_instance_delivery(
    mgr: &SessionManager,
    from_instance: &str,
    own_instance: &str,
    team_id: &str,
    msg: WsMessage,
) -> (r: Option<Delivery>)
    ensures
        from_instance@ == own_instance@ ==> r is None,
        from_instance@ != own_instance@ ==> (r matches Some(d) && d.msg == msg && lists_recipients(
            d.to@,
            mgr.sessions(),
            team_id@,
            None,
        )),
{
    if str_equal(from_instance, own_instance) {
        None
    } else {
        Some(mgr.broadcast_to_team(team_id, msg, None))
    }
}

/// Law: a device that registers and then disconnects leaves the registry
/// as it was, without that device (whatever session it had before is gone
/// too).
pub proof fn lemma_disconnect_undoes_register(
    before: Map<Seq<char>, Session>,
    registered: Map<Seq<char>, Session>,
    after: Map<Seq<char>, Session>,
    device_code: Seq<char>,
)
    requires
        registered.dom() == before.dom().insert(device_code),
        forall|k: Seq<char>| k != device_code && #[trigger] before.dom().contains(k) ==> registered[k] == before[k],
        after == registered.remove(device_code),
    ensures
        after == before.remove(device_code),
{
    assert(after =~= before.remove(device_code));
}

} // verus!
