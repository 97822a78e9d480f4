//! The messages of the signaling protocol. On the wire each is a JSON
//! object whose `"type"` field names the variant.
use vstd::prelude::*;
use crate::signaling::peers::DeviceInfo;

verus! {

/// An ICE candidate as exchanged between peers.
#[derive(Debug, Clone, PartialEq)]
pub struct IceCandidate {
    pub candidate: String,
    pub sdp_mid: Option<String>,
    pub sdp_m_line_index: Option<u16>,
}

/// A signaling message, in either direction.
#[derive(Debug, Clone, PartialEq)]
pub enum WsMessage {
    Register { device_code: String, platform: String, version: String, team_id: Option<String> },
    Heartbeat { device_code: String, ts: u64 },
    ConnectRequest { from_code: String, to_code: String, session_id: Option<String>, invite_code: Option<String> },
    ConnectResponse { accepted: bool, session_id: String, from_code: String },
    IceOffer { session_id: String, sdp: String, candidates: Vec<IceCandidate> },
    IceAnswer { session_id: String, sdp: String, candidates: Vec<IceCandidate> },
    IceTrickle { session_id: String, candidate: IceCandidate },
    RelayRequest { session_id: String, preferred_region: Option<String> },
    RelayAssigned { session_id: String, relay_addr: String, relay_port: u16, token: String },
    PeerOffline { device_code: String, reason: String },
    NearbyUpdate { devices: Vec<DeviceInfo> },
    GenerateInvite { device_code: String },
    UseInvite { from_code: String, invite_code: String },
    InviteGenerated { invite_code: String },
    InviteResult { session_id: String, to_code: String },
    Error { code: String, message: String },
}

/// The `"type"` tag of a message.
pub open spec fn type_tag(m: WsMessage) -> Seq<char> {
    match m {
        WsMessage::Register { .. } => "register"@,
        WsMessage::Heartbeat { .. } => "heartbeat"@,
        WsMessage::ConnectRequest { .. } => "connect_request"@,
        WsMessage::ConnectResponse { .. } => "connect_response"@,
        WsMessage::IceOffer { .. } => "ice_offer"@,
        WsMessage::IceAnswer { .. } => "ice_answer"@,
        WsMessage::IceTrickle { .. } => "ice_trickle"@,
        WsMessage::RelayRequest { .. } => "relay_request"@,
        WsMessage::RelayAssigned { .. } => "relay_assigned"@,
        WsMessage::PeerOffline { .. } => "peer_offline"@,
        WsMessage::NearbyUpdate { .. } => "nearby_update"@,
        WsMessage::GenerateInvite { .. } => "generate_invite"@,
        WsMessage::UseInvite { .. } => "use_invite"@,
        WsMessage::InviteGenerated { .. } => "invite_generated"@,
        WsMessage::InviteResult { .. } => "invite_result"@,
        WsMessage::Error { .. } => "error"@,
    }
}

/// The `"type"` tag that a message carries on the wire.
pub fn message_claimed_type(msg: &WsMessage) -> (s: &'static str)
    ensures
        s@ == type_tag(*msg),
{
    match msg {
        WsMessage::Register { .. } => "register",
        WsMessage::Heartbeat { .. } => "heartbeat",
        WsMessage::ConnectRequest { .. } => "connect_request",
        WsMessage::ConnectResponse { .. } => "connect_response",
        WsMessage::IceOffer { .. } => "ice_offer",
        WsMessage::IceAnswer { .. } => "ice_answer",
        WsMessage::IceTrickle { .. } => "ice_trickle",
        WsMessage::RelayRequest { .. } => "relay_request",
        WsMessage::RelayAssigned { .. } => "relay_assigned",
        WsMessage::PeerOffline { .. } => "peer_offline",
        WsMessage::NearbyUpdate { .. } => "nearby_update",
        WsMessage::GenerateInvite { .. } => "generate_invite",
        WsMessage::UseInvite { .. } => "use_invite",
        WsMessage::InviteGenerated { .. } => "invite_generated",
        WsMessage::InviteResult { .. } => "invite_result",
        WsMessage::Error { .. } => "error",
    }
}

/// An `Error` message with the given code and message.
pub open spec fn is_error_message(m: WsMessage, code: Seq<char>, message: Seq<char>) -> bool {
    m matches WsMessage::Error { code: c, message: t } && c@ == code && t@ == message
}

/// The error answered to a message that does not parse: code
/// `unknown_type`, naming the type the text claims (or "unknown").
pub fn unknown_type_error(claimed_type: Option<&str>) -> (m: WsMessage)
    ensures
        is_error_message(
            m,
            "unknown_type"@,
            "unknown message type: "@ + match claimed_type {
                Some(t) => t@,
                None => "unknown"@,
            },
        ),
{
    let mut message = String::from_str("unknown message type: ");
    match claimed_type {
        Some(t) => message.append(t),
        None => message.append("unknown"),
    }
    WsMessage::Error { code: String::from_str("unknown_type"), message }
}

/// The message kinds that the server acts on when a client sends them:
/// registration, heartbeats, connection set-up, the ICE exchange, relay
/// requests and invites. The others (the server's own answers and
/// notices) are only logged.
pub open spec fn spec_is_routed(m: WsMessage) -> bool {
    match m {
        WsMessage::Register { .. } | WsMessage::Heartbeat { .. } | WsMessage::ConnectRequest { .. }
        | WsMessage::ConnectResponse { .. } | WsMessage::IceOffer { .. } | WsMessage::IceAnswer { .. }
        | WsMessage::IceTrickle { .. } | WsMessage::RelayRequest { .. } | WsMessage::GenerateInvite { .. }
        | WsMessage::UseInvite { .. } => true,
        _ => false,
    }
}

/// Whether the server acts on this message from a client (see
/// `spec_is_routed`).
pub fn is_routed(msg: &WsMessage) -> (b: bool)
    ensures
        b == spec_is_routed(*msg),
{
    match msg {
        WsMessage::Register { .. } | WsMessage::Heartbeat { .. } | WsMessage::ConnectRequest { .. }
        | WsMessage::ConnectResponse { .. } | WsMessage::IceOffer { .. } | WsMessage::IceAnswer { .. }
        | WsMessage::IceTrickle { .. } | WsMessage::RelayRequest { .. } | WsMessage::GenerateInvite { .. }
        | WsMessage::UseInvite { .. } => true,
        _ => false,
    }
}

} // verus!
