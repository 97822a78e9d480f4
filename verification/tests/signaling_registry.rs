use std::sync::atomic::Ordering;

use rdcs::signaling::handlers::{
    handle_connect_request, handle_connect_request_with, handle_connect_response, handle_disconnect,
    handle_expired_key, handle_generate_invite, handle_ice_answer, handle_ice_offer, handle_ice_trickle,
    handle_register, handle_relay_request, handle_use_invite, heartbeat_reply, relay_assignment, relay_reply_for,
    use_invite_with,
    cross_instance_delivery, invite_error, invite_store_unavailable,
};
use rdcs::signaling::invite::InviteRecord;
use rdcs::signaling::nearby::{nearby_device_fresh, nearby_device_update};
use rdcs::signaling::message::{is_routed, message_claimed_type, unknown_type_error, IceCandidate, WsMessage};
use rdcs::signaling::peers::{ConnectionInfo, DeviceInfo, SessionSendError};
use rdcs::signaling::registry::{Session, SessionManager};
use rdcs::signaling::relay_nodes::{generate_hmac_token, RelayNode};

fn make_session(code: &str) -> Session {
    Session { device_code: code.to_string(), team_id: None }
}

fn make_team_session(code: &str, team: &str) -> Session {
    Session { device_code: code.to_string(), team_id: Some(team.to_string()) }
}

fn sorted(mut v: Vec<String>) -> Vec<String> {
    v.sort();
    v
}

fn make_nodes() -> Vec<RelayNode> {
    vec![
        RelayNode::new("relay-ap.example.com".into(), 4443, "ap-east-1".into(), 100),
        RelayNode::new("relay-us.example.com".into(), 4443, "us-west-2".into(), 100),
        RelayNode::new("relay-eu.example.com".into(), 4443, "eu-west-1".into(), 100),
    ]
}

fn candidate() -> IceCandidate {
    IceCandidate {
        candidate: "candidate:1 1 UDP 2130706431 192.168.1.5 50000 typ host".into(),
        sdp_mid: Some("0".into()),
        sdp_m_line_index: Some(0),
    }
}

// -- registry --------------------------------------------------------------

#[test]
fn insert_and_contains() {
    let mut mgr = SessionManager::new();
    mgr.insert("DEV1".into(), make_session("DEV1"));
    assert!(mgr.contains("DEV1"));
    assert!(!mgr.contains("DEV2"));
}

#[test]
fn remove_returns_session() {
    let mut mgr = SessionManager::new();
    mgr.insert("DEV1".into(), make_session("DEV1"));
    let removed = mgr.remove("DEV1");
    assert!(removed.is_some());
    assert_eq!(removed.unwrap().device_code, "DEV1");
    assert!(!mgr.contains("DEV1"));
}

#[test]
fn remove_nonexistent_returns_none() {
    let mut mgr = SessionManager::new();
    assert!(mgr.remove("NOPE").is_none());
}

#[test]
fn send_to_delivers_message() {
    let mut mgr = SessionManager::new();
    mgr.insert("DEV1".into(), make_session("DEV1"));
    let msg = WsMessage::Heartbeat { device_code: "DEV1".into(), ts: 42 };
    let d = mgr.send_to("DEV1", msg.clone()).unwrap();
    assert_eq!(d.to, vec!["DEV1".to_string()]);
    assert_eq!(d.msg, msg);
}

#[test]
fn send_to_unknown_device_errors() {
    let mgr = SessionManager::new();
    let msg = WsMessage::Heartbeat { device_code: "NOPE".into(), ts: 1 };
    let result = mgr.send_to("NOPE", msg);
    assert!(result.is_err());
    assert!(matches!(result.unwrap_err(), SessionSendError::DeviceNotFound(_)));
}

#[test]
fn len_and_is_empty() {
    let mut mgr = SessionManager::new();
    assert!(mgr.is_empty());
    assert_eq!(mgr.len(), 0);
    mgr.insert("A".into(), make_session("A"));
    mgr.insert("B".into(), make_session("B"));
    assert_eq!(mgr.len(), 2);
    assert!(!mgr.is_empty());
}

#[test]
fn insert_replaces_existing() {
    let mut mgr = SessionManager::new();
    mgr.insert("DEV1".into(), make_session("DEV1"));
    let old = mgr.insert("DEV1".into(), make_session("DEV1"));
    assert!(old.is_some());
    assert_eq!(mgr.len(), 1);
}

#[test]
fn broadcast_to_team_delivers_to_same_team() {
    let mut mgr = SessionManager::new();
    mgr.insert("D1".into(), make_team_session("D1", "team-A"));
    mgr.insert("D2".into(), make_team_session("D2", "team-A"));
    mgr.insert("D3".into(), make_team_session("D3", "team-B"));
    let msg = WsMessage::NearbyUpdate {
        devices: vec![DeviceInfo { code: "D1".into(), name: "D1".into(), platform: "linux".into(), online: true }],
    };
    let d = mgr.broadcast_to_team("team-A", msg.clone(), None);
    assert_eq!(sorted(d.to), vec!["D1".to_string(), "D2".to_string()]);
    assert_eq!(d.msg, msg);
}

#[test]
fn broadcast_to_team_with_skip_device() {
    let mut mgr = SessionManager::new();
    mgr.insert("D1".into(), make_team_session("D1", "team-A"));
    mgr.insert("D2".into(), make_team_session("D2", "team-A"));
    let d = mgr.broadcast_to_team("team-A", WsMessage::NearbyUpdate { devices: vec![] }, Some("D1"));
    assert_eq!(d.to, vec!["D2".to_string()]);
}

#[test]
fn broadcast_to_nonexistent_team_does_nothing() {
    let mut mgr = SessionManager::new();
    mgr.insert("D1".into(), make_team_session("D1", "team-A"));
    let d = mgr.broadcast_to_team("team-nonexistent", WsMessage::NearbyUpdate { devices: vec![] }, None);
    assert!(d.to.is_empty());
}

#[test]
fn broadcast_all_reaches_every_device() {
    let mut mgr = SessionManager::new();
    mgr.insert("D1".into(), make_team_session("D1", "team-A"));
    mgr.insert("D2".into(), make_session("D2"));
    let d = mgr.broadcast_all(WsMessage::NearbyUpdate { devices: vec![] });
    assert_eq!(sorted(d.to), vec!["D1".to_string(), "D2".to_string()]);
}

#[test]
fn get_team_id_returns_team_when_present() {
    let mut mgr = SessionManager::new();
    mgr.insert("D1".into(), make_team_session("D1", "team-A"));
    assert_eq!(mgr.get_team_id("D1").as_deref(), Some("team-A"));
}

#[test]
fn get_team_id_returns_none_for_unknown_device() {
    let mgr = SessionManager::new();
    assert!(mgr.get_team_id("NOPE").is_none());
}

#[test]
fn get_team_id_returns_none_when_no_team() {
    let mut mgr = SessionManager::new();
    mgr.insert("D1".into(), make_session("D1"));
    assert!(mgr.get_team_id("D1").is_none());
}

#[test]
fn add_and_take_pending_connection() {
    let mut mgr = SessionManager::new();
    mgr.add_pending_connection("TARGET", "CTRL");
    let controller = mgr.take_pending_connection("TARGET");
    assert_eq!(controller.as_deref(), Some("CTRL"));
    let again = mgr.take_pending_connection("TARGET");
    assert!(again.is_none());
}

#[test]
fn take_pending_connection_unknown_returns_none() {
    let mut mgr = SessionManager::new();
    assert!(mgr.take_pending_connection("NOPE").is_none());
}

#[test]
fn insert_and_get_other_peer() {
    let mut mgr = SessionManager::new();
    mgr.insert_session_participants("sess-1", "A", "B");
    assert_eq!(mgr.get_other_peer("sess-1", "A").as_deref(), Some("B"));
    assert_eq!(mgr.get_other_peer("sess-1", "B").as_deref(), Some("A"));
}

#[test]
fn get_other_peer_unknown_session() {
    let mgr = SessionManager::new();
    assert!(mgr.get_other_peer("no-such", "A").is_none());
}

#[test]
fn get_other_peer_unknown_device() {
    let mut mgr = SessionManager::new();
    mgr.insert_session_participants("sess-1", "A", "B");
    assert!(mgr.get_other_peer("sess-1", "C").is_none());
}

#[test]
fn remove_session_participants() {
    let mut mgr = SessionManager::new();
    mgr.insert_session_participants("sess-1", "A", "B");
    let removed = mgr.remove_session_participants("sess-1");
    assert!(removed.is_some());
    assert!(mgr.get_other_peer("sess-1", "A").is_none());
}

// -- register / disconnect ---------------------------------------------------

#[test]
fn register_stores_session_and_connection_info() {
    let mut mgr = SessionManager::new();
    let (info, _) = handle_register(&mut mgr, "DEV-001", "linux", Some("team-42"));
    assert!(mgr.contains("DEV-001"));
    assert_eq!(info.device_code, "DEV-001");
    assert_eq!(info.team_id.as_deref(), Some("team-42"));
}

#[test]
fn register_without_team_id_does_not_broadcast() {
    let mut mgr = SessionManager::new();
    mgr.insert("EXISTING".into(), make_team_session("EXISTING", "team-42"));
    let (info, delivery) = handle_register(&mut mgr, "DEV-NEW", "macos", None);
    assert!(mgr.contains("DEV-NEW"));
    assert!(delivery.is_none());
    assert!(info.team_id.is_none());
}

#[test]
fn register_broadcasts_nearby_update_to_same_team() {
    let mut mgr = SessionManager::new();
    mgr.insert("MEMBER-A".into(), make_team_session("MEMBER-A", "team-42"));
    mgr.insert("MEMBER-B".into(), make_team_session("MEMBER-B", "team-42"));
    mgr.insert("OUTSIDER".into(), make_team_session("OUTSIDER", "team-7"));
    let (_, delivery) = handle_register(&mut mgr, "DEV-NEW", "linux", Some("team-42"));
    let d = delivery.unwrap();
    assert_eq!(
        sorted(d.to),
        vec!["DEV-NEW".to_string(), "MEMBER-A".to_string(), "MEMBER-B".to_string()]
    );
    match d.msg {
        WsMessage::NearbyUpdate { devices } => {
            assert_eq!(devices.len(), 1);
            assert_eq!(devices[0].code, "DEV-NEW");
            assert_eq!(devices[0].name, "DEV-NEW");
            assert!(devices[0].online);
            assert_eq!(devices[0].platform, "linux");
        },
        other => panic!("expected NearbyUpdate, got: {other:?}"),
    }
}

#[test]
fn register_replaces_existing_session() {
    let mut mgr = SessionManager::new();
    handle_register(&mut mgr, "DEV-001", "linux", None);
    assert_eq!(mgr.len(), 1);
    handle_register(&mut mgr, "DEV-001", "macos", Some("team-9"));
    assert_eq!(mgr.len(), 1);
    assert_eq!(mgr.get_team_id("DEV-001").as_deref(), Some("team-9"));
}

#[test]
fn disconnect_removes_session_from_manager() {
    let mut mgr = SessionManager::new();
    mgr.insert("DEV-001".into(), make_team_session("DEV-001", "team-42"));
    let info = ConnectionInfo { device_code: "DEV-001".into(), team_id: Some("team-42".into()) };
    handle_disconnect(&mut mgr, &info);
    assert!(!mgr.contains("DEV-001"));
}

#[test]
fn disconnect_broadcasts_offline_to_team() {
    let mut mgr = SessionManager::new();
    mgr.insert("MEMBER-1".into(), make_team_session("MEMBER-1", "team-42"));
    let info = ConnectionInfo { device_code: "DEV-001".into(), team_id: Some("team-42".into()) };
    let d = handle_disconnect(&mut mgr, &info).unwrap();
    assert_eq!(d.to, vec!["MEMBER-1".to_string()]);
    match d.msg {
        WsMessage::NearbyUpdate { devices } => {
            assert_eq!(devices.len(), 1);
            assert_eq!(devices[0].code, "DEV-001");
            assert_eq!(devices[0].platform, "");
            assert!(!devices[0].online);
        },
        other => panic!("expected NearbyUpdate, got: {other:?}"),
    }
}

#[test]
fn disconnect_without_team_does_not_broadcast() {
    let mut mgr = SessionManager::new();
    mgr.insert("OTHER".into(), make_team_session("OTHER", "team-42"));
    let info = ConnectionInfo { device_code: "LONELY-DEV".into(), team_id: None };
    assert!(handle_disconnect(&mut mgr, &info).is_none());
    assert!(mgr.contains("OTHER"));
}

#[test]
fn disconnect_without_redis_still_removes_session() {
    let mut mgr = SessionManager::new();
    mgr.insert("DEV-001".into(), make_session("DEV-001"));
    let info = ConnectionInfo { device_code: "DEV-001".into(), team_id: None };
    handle_disconnect(&mut mgr, &info);
    assert!(!mgr.contains("DEV-001"));
}

#[test]
fn disconnect_broadcasts_to_remaining_members_only() {
    let mut mgr = SessionManager::new();
    mgr.insert("MEMBER-A".into(), make_team_session("MEMBER-A", "team-42"));
    mgr.insert("MEMBER-B".into(), make_team_session("MEMBER-B", "team-42"));
    let info = ConnectionInfo { device_code: "MEMBER-A".into(), team_id: Some("team-42".into()) };
    let d = handle_disconnect(&mut mgr, &info).unwrap();
    assert_eq!(d.to, vec!["MEMBER-B".to_string()]);
    assert!(!mgr.contains("MEMBER-A"));
    assert!(mgr.contains("MEMBER-B"));
}

// -- expired keys and heartbeats ---------------------------------------------

#[test]
fn expired_key_triggers_offline() {
    let mut mgr = SessionManager::new();
    mgr.insert("DEV-001".into(), make_team_session("DEV-001", "team-42"));
    mgr.insert("MEMBER-1".into(), make_team_session("MEMBER-1", "team-42"));
    let (team, delivery) = handle_expired_key(&mut mgr, "device:DEV-001:online").unwrap();
    assert_eq!(team.as_deref(), Some("team-42"));
    let d = delivery.unwrap();
    assert_eq!(sorted(d.to), vec!["DEV-001".to_string(), "MEMBER-1".to_string()]);
    assert_eq!(d.msg, WsMessage::PeerOffline { device_code: "DEV-001".into(), reason: "key_expired".into() });
    assert!(!mgr.contains("DEV-001"));
    assert!(mgr.contains("MEMBER-1"));
}

#[test]
fn pattern_matching_only_device_online_keys() {
    let mut mgr = SessionManager::new();
    mgr.insert("DEV-001".into(), make_team_session("DEV-001", "team-42"));
    assert!(handle_expired_key(&mut mgr, "session:DEV-001").is_none());
    assert!(handle_expired_key(&mut mgr, "device_invite:1234").is_none());
    assert!(mgr.contains("DEV-001"));
}

#[test]
fn expired_key_unknown_device_no_panic() {
    let mut mgr = SessionManager::new();
    let (team, delivery) = handle_expired_key(&mut mgr, "device:GHOST:online").unwrap();
    assert!(team.is_none());
    assert!(delivery.is_none());
}

#[test]
fn expired_key_device_without_team_no_broadcast() {
    let mut mgr = SessionManager::new();
    mgr.insert("SOLO".into(), make_session("SOLO"));
    let (team, delivery) = handle_expired_key(&mut mgr, "device:SOLO:online").unwrap();
    assert!(team.is_none());
    assert!(delivery.is_none());
    assert!(!mgr.contains("SOLO"));
}

#[test]
fn expired_key_does_not_broadcast_to_other_teams() {
    let mut mgr = SessionManager::new();
    mgr.insert("DEV-001".into(), make_team_session("DEV-001", "team-42"));
    mgr.insert("OTHER".into(), make_team_session("OTHER", "team-99"));
    let (_, delivery) = handle_expired_key(&mut mgr, "device:DEV-001:online").unwrap();
    assert_eq!(delivery.unwrap().to, vec!["DEV-001".to_string()]);
}

#[test]
fn heartbeat_without_redis_does_not_send_peer_offline() {
    assert!(heartbeat_reply("DEV-001", true).is_none());
}

#[test]
fn heartbeat_for_missing_key_sends_peer_offline() {
    assert_eq!(
        heartbeat_reply("DEV-001", false),
        Some(WsMessage::PeerOffline { device_code: "DEV-001".into(), reason: "heartbeat_timeout".into() })
    );
}

// -- connection negotiation --------------------------------------------------

#[test]
fn connect_request_forwards_to_target() {
    let mut mgr = SessionManager::new();
    mgr.insert("CTRL".into(), make_session("CTRL"));
    mgr.insert("TARGET".into(), make_session("TARGET"));
    let d = handle_connect_request(&mut mgr, "CTRL", "TARGET", None).unwrap();
    assert_eq!(d.to, vec!["TARGET".to_string()]);
    match d.msg {
        WsMessage::ConnectRequest { from_code, to_code, session_id, invite_code } => {
            assert_eq!(from_code, "CTRL");
            assert_eq!(to_code, "TARGET");
            assert!(session_id.is_some());
            assert!(invite_code.is_none());
        },
        other => panic!("expected ConnectRequest, got: {other:?}"),
    }
}

#[test]
fn connect_request_offline() {
    let mut mgr = SessionManager::new();
    mgr.insert("CTRL".into(), make_session("CTRL"));
    let d = handle_connect_request(&mut mgr, "CTRL", "GHOST", None).unwrap();
    assert_eq!(d.to, vec!["CTRL".to_string()]);
    assert_eq!(
        d.msg,
        WsMessage::Error { code: "device_offline".into(), message: "device GHOST is offline".into() }
    );
    assert!(mgr.take_pending_connection("GHOST").is_none());
}

#[test]
fn connect_request_with_invite_code() {
    let mut mgr = SessionManager::new();
    mgr.insert("TARGET".into(), make_session("TARGET"));
    let d = handle_connect_request_with(&mut mgr, "CTRL", "TARGET", Some("4321"), "sess-xyz".to_string()).unwrap();
    assert_eq!(
        d.msg,
        WsMessage::ConnectRequest {
            from_code: "CTRL".into(),
            to_code: "TARGET".into(),
            session_id: Some("sess-xyz".into()),
            invite_code: Some("4321".into()),
        }
    );
}

#[test]
fn connect_request_records_pending_connection() {
    let mut mgr = SessionManager::new();
    mgr.insert("TARGET".into(), make_session("TARGET"));
    handle_connect_request(&mut mgr, "CTRL", "TARGET", None).unwrap();
    assert_eq!(mgr.take_pending_connection("TARGET").as_deref(), Some("CTRL"));
}

#[test]
fn connect_response_forwards_to_controller_and_records_participants() {
    let mut mgr = SessionManager::new();
    mgr.insert("CTRL".into(), make_session("CTRL"));
    mgr.insert("TARGET".into(), make_session("TARGET"));
    mgr.add_pending_connection("TARGET", "CTRL");
    let (controller, d) = handle_connect_response(&mut mgr, "TARGET", true, "sess-1", "IGNORED");
    assert_eq!(controller, "CTRL");
    let d = d.unwrap();
    assert_eq!(d.to, vec!["CTRL".to_string()]);
    assert_eq!(
        d.msg,
        WsMessage::ConnectResponse { accepted: true, session_id: "sess-1".into(), from_code: "TARGET".into() }
    );
    assert_eq!(mgr.get_other_peer("sess-1", "TARGET").as_deref(), Some("CTRL"));
    assert_eq!(mgr.get_other_peer("sess-1", "CTRL").as_deref(), Some("TARGET"));
    assert!(mgr.take_pending_connection("TARGET").is_none());
}

#[test]
fn connect_response_without_pending_uses_message_sender() {
    let mut mgr = SessionManager::new();
    mgr.insert("CTRL".into(), make_session("CTRL"));
    let (controller, d) = handle_connect_response(&mut mgr, "TARGET", false, "sess-2", "CTRL");
    assert_eq!(controller, "CTRL");
    assert!(d.is_ok());
    assert_eq!(mgr.get_other_peer("sess-2", "CTRL").as_deref(), Some("TARGET"));
}

#[test]
fn ice_offer_forwards_to_peer() {
    let mut mgr = SessionManager::new();
    mgr.insert("A".into(), make_session("A"));
    mgr.insert("B".into(), make_session("B"));
    mgr.insert_session_participants("sess-1", "A", "B");
    let d = handle_ice_offer(&mgr, "A", "sess-1", "v=0 offer", vec![candidate()]).unwrap();
    assert_eq!(d.to, vec!["B".to_string()]);
    assert_eq!(
        d.msg,
        WsMessage::IceOffer { session_id: "sess-1".into(), sdp: "v=0 offer".into(), candidates: vec![candidate()] }
    );
}

#[test]
fn ice_offer_unknown_session_sends_error() {
    let mut mgr = SessionManager::new();
    mgr.insert("A".into(), make_session("A"));
    let d = handle_ice_offer(&mgr, "A", "nope", "v=0", vec![]).unwrap();
    assert_eq!(d.to, vec!["A".to_string()]);
    assert_eq!(d.msg, WsMessage::Error { code: "unknown_session".into(), message: "session nope not found".into() });
}

#[test]
fn ice_answer_forwards_back() {
    let mut mgr = SessionManager::new();
    mgr.insert("A".into(), make_session("A"));
    mgr.insert("B".into(), make_session("B"));
    mgr.insert_session_participants("sess-1", "A", "B");
    let d = handle_ice_answer(&mgr, "B", "sess-1", "v=0 answer", vec![]).unwrap();
    assert_eq!(d.to, vec!["A".to_string()]);
    assert!(matches!(d.msg, WsMessage::IceAnswer { .. }));
}

#[test]
fn ice_answer_unknown_session_sends_error() {
    let mut mgr = SessionManager::new();
    mgr.insert("B".into(), make_session("B"));
    let d = handle_ice_answer(&mgr, "B", "gone", "v=0", vec![]).unwrap();
    assert_eq!(d.msg, WsMessage::Error { code: "unknown_session".into(), message: "session gone not found".into() });
}

#[test]
fn ice_trickle_forwards_candidate() {
    let mut mgr = SessionManager::new();
    mgr.insert("A".into(), make_session("A"));
    mgr.insert("B".into(), make_session("B"));
    mgr.insert_session_participants("sess-1", "A", "B");
    let d = handle_ice_trickle(&mgr, "B", "sess-1", candidate()).unwrap();
    assert_eq!(d.to, vec!["A".to_string()]);
    assert_eq!(d.msg, WsMessage::IceTrickle { session_id: "sess-1".into(), candidate: candidate() });
}

#[test]
fn full_connection_negotiation_flow() {
    let mut mgr = SessionManager::new();
    handle_register(&mut mgr, "CTRL", "macos", None);
    handle_register(&mut mgr, "TARGET", "linux", None);
    let req = handle_connect_request(&mut mgr, "CTRL", "TARGET", None).unwrap();
    let session_id = match req.msg {
        WsMessage::ConnectRequest { session_id, .. } => session_id.unwrap(),
        other => panic!("expected ConnectRequest, got: {other:?}"),
    };
    let (controller, resp) = handle_connect_response(&mut mgr, "TARGET", true, &session_id, "CTRL");
    assert_eq!(controller, "CTRL");
    assert_eq!(resp.unwrap().to, vec!["CTRL".to_string()]);
    let offer = handle_ice_offer(&mgr, "CTRL", &session_id, "offer", vec![]).unwrap();
    assert_eq!(offer.to, vec!["TARGET".to_string()]);
    let answer = handle_ice_answer(&mgr, "TARGET", &session_id, "answer", vec![]).unwrap();
    assert_eq!(answer.to, vec!["CTRL".to_string()]);
}

// -- relay requests ----------------------------------------------------------

#[test]
fn relay_request_assigns_node() {
    let nodes = make_nodes();
    match handle_relay_request("sess-001", None, &nodes, b"test-secret") {
        WsMessage::RelayAssigned { session_id, relay_addr, relay_port, token } => {
            assert_eq!(session_id, "sess-001");
            assert!(!relay_addr.is_empty());
            assert!(relay_port > 0);
            assert_eq!(token.len(), 64);
        },
        other => panic!("expected RelayAssigned, got: {other:?}"),
    }
}

#[test]
fn relay_request_generates_token() {
    let nodes = make_nodes();
    match handle_relay_request("sess-tok", None, &nodes, b"hmac-key-123") {
        WsMessage::RelayAssigned { token, .. } => {
            assert_eq!(token.len(), 64);
            assert!(token.chars().all(|c| c.is_ascii_hexdigit()));
        },
        other => panic!("expected RelayAssigned, got: {other:?}"),
    }
}

#[test]
fn relay_request_selects_region() {
    let nodes = make_nodes();
    match handle_relay_request("sess-region", Some("eu-west-1"), &nodes, b"secret") {
        WsMessage::RelayAssigned { relay_addr, .. } => assert_eq!(relay_addr, "relay-eu.example.com"),
        other => panic!("expected RelayAssigned, got: {other:?}"),
    }
}

#[test]
fn relay_request_lowest_load() {
    let nodes = make_nodes();
    nodes[0].current_sessions.store(80, Ordering::Relaxed);
    nodes[1].current_sessions.store(5, Ordering::Relaxed);
    nodes[2].current_sessions.store(40, Ordering::Relaxed);
    match handle_relay_request("sess-load", None, &nodes, b"secret") {
        WsMessage::RelayAssigned { relay_addr, .. } => assert_eq!(relay_addr, "relay-us.example.com"),
        other => panic!("expected RelayAssigned, got: {other:?}"),
    }
}

#[test]
fn relay_request_no_capacity_sends_error() {
    let nodes = vec![RelayNode::new("full".into(), 4443, "ap-east-1".into(), 1)];
    nodes[0].current_sessions.store(1, Ordering::Relaxed);
    match handle_relay_request("sess-full", None, &nodes, b"secret") {
        WsMessage::Error { code, message } => {
            assert_eq!(code, "no_relay_available");
            assert_eq!(message, "no relay nodes available");
        },
        other => panic!("expected Error, got: {other:?}"),
    }
}

#[test]
fn relay_reply_for_given_loads() {
    let nodes = make_nodes();
    match relay_reply_for("sess-x", None, &nodes, &[7, 3, 3], b"key", "n-1", 5000) {
        WsMessage::RelayAssigned { session_id, relay_addr, relay_port, token } => {
            assert_eq!(session_id, "sess-x");
            assert_eq!(relay_addr, nodes[1].addr);
            assert_eq!(relay_port, nodes[1].port);
            assert_eq!(token, generate_hmac_token(b"key", "sess-x", &nodes[1].addr, "n-1", 5000));
        },
        other => panic!("expected RelayAssigned, got: {other:?}"),
    }
    // The loads are taken as given: the nodes' own counters are not read or changed.
    assert_eq!(nodes[1].load(), 0);
    match relay_reply_for("sess-x", None, &nodes, &[100, 100, 100], b"key", "n-1", 5000) {
        WsMessage::Error { code, message } => {
            assert_eq!(code, "no_relay_available");
            assert_eq!(message, "no relay nodes available");
        },
        other => panic!("expected Error, got: {other:?}"),
    }
    match relay_reply_for("sess-x", Some(&nodes[2].region), &nodes, &[0, 0, 99], b"key", "n-1", 5000) {
        WsMessage::RelayAssigned { relay_addr, .. } => assert_eq!(relay_addr, nodes[2].addr),
        other => panic!("expected RelayAssigned, got: {other:?}"),
    }
}

#[test]
fn relay_assignment_counts_the_assigned_node() {
    let nodes = make_nodes();
    nodes[0].current_sessions.store(4, Ordering::Relaxed);
    match relay_assignment("sess-y", None, &nodes, b"key", "n-2", 77) {
        WsMessage::RelayAssigned { relay_addr, token, .. } => {
            assert_eq!(relay_addr, nodes[1].addr);
            assert_eq!(token, generate_hmac_token(b"key", "sess-y", &nodes[1].addr, "n-2", 77));
        },
        other => panic!("expected RelayAssigned, got: {other:?}"),
    }
    assert_eq!(nodes[1].load(), 1);
    assert_eq!(nodes[0].load(), 4);
}

#[test]
fn relay_request_no_nodes_sends_error() {
    match handle_relay_request("sess-empty", None, &[], b"secret") {
        WsMessage::Error { code, .. } => assert_eq!(code, "no_relay_available"),
        other => panic!("expected Error, got: {other:?}"),
    }
}

#[test]
fn relay_request_increments_session_counter() {
    let nodes = make_nodes();
    let initial = nodes[0].load();
    handle_relay_request("sess-inc", Some("ap-east-1"), &nodes, b"secret");
    assert_eq!(nodes[0].load(), initial + 1);
    assert_eq!(nodes[1].load(), 0);
}

#[test]
fn relay_request_tokens_differ_per_session() {
    let nodes = make_nodes();
    let token_a = match handle_relay_request("sess-a", None, &nodes, b"key") {
        WsMessage::RelayAssigned { token, .. } => token,
        other => panic!("expected RelayAssigned, got: {other:?}"),
    };
    let token_b = match handle_relay_request("sess-b", None, &nodes, b"key") {
        WsMessage::RelayAssigned { token, .. } => token,
        other => panic!("expected RelayAssigned, got: {other:?}"),
    };
    assert_ne!(token_a, token_b);
}

#[test]
fn relay_assignment_token_binds_session_node_nonce_and_expiry() {
    let nodes = make_nodes();
    let m = relay_assignment("sess-9", Some("us-west-2"), &nodes, b"k", "nonce-1", 1030);
    assert_eq!(
        m,
        WsMessage::RelayAssigned {
            session_id: "sess-9".into(),
            relay_addr: "relay-us.example.com".into(),
            relay_port: 4443,
            token: generate_hmac_token(b"k", "sess-9", "relay-us.example.com", "nonce-1", 1030),
        }
    );
    assert_eq!(nodes[1].load(), 1);
}

// -- invites -----------------------------------------------------------------

#[test]
fn generate_invite_returns_code() {
    let inv = handle_generate_invite("DEV-001", Some("team-42"));
    assert_eq!(inv.code.len(), 4);
    let num: u32 = inv.code.parse().unwrap();
    assert!((1000..=9999).contains(&num));
    assert_eq!(inv.key, format!("device_invite:{}", inv.code));
    assert_eq!(inv.record.device_code, "DEV-001");
    assert_eq!(inv.record.team_id.as_deref(), Some("team-42"));
}

#[test]
fn use_invite_connects_devices() {
    let mut mgr = SessionManager::new();
    mgr.insert("TARGET".into(), make_session("TARGET"));
    let record = InviteRecord { device_code: "TARGET".into(), team_id: None };
    let (session_id, to_code, d) = handle_use_invite(&mut mgr, "4821", "CTRL", Some(record)).unwrap();
    assert!(!session_id.is_empty());
    assert_eq!(to_code, "TARGET");
    assert_eq!(d.to, vec!["TARGET".to_string()]);
    assert_eq!(
        d.msg,
        WsMessage::ConnectRequest {
            from_code: "CTRL".into(),
            to_code: "TARGET".into(),
            session_id: None,
            invite_code: Some("4821".into()),
        }
    );
    assert_eq!(mgr.take_pending_connection("TARGET").as_deref(), Some("CTRL"));
}

#[test]
fn expired_invite_rejected() {
    let mut mgr = SessionManager::new();
    let r = handle_use_invite(&mut mgr, "0000", "CTRL", None);
    assert_eq!(r.unwrap_err(), "invite expired or invalid");
}

#[test]
fn use_invite_target_offline_returns_error() {
    let mut mgr = SessionManager::new();
    let record = InviteRecord { device_code: "TARGET".into(), team_id: None };
    let r = use_invite_with(&mut mgr, "4821", "CTRL", Some(record), "sess-1".to_string());
    assert_eq!(r.unwrap_err(), "device TARGET is offline");
    assert!(mgr.take_pending_connection("TARGET").is_none());
}

#[test]
fn use_invite_with_keeps_session_id() {
    let mut mgr = SessionManager::new();
    mgr.insert("TARGET".into(), make_session("TARGET"));
    let record = InviteRecord { device_code: "TARGET".into(), team_id: Some("t".into()) };
    let (session_id, _, _) = use_invite_with(&mut mgr, "4821", "CTRL", Some(record), "sess-7".to_string()).unwrap();
    assert_eq!(session_id, "sess-7");
}

// -- message helpers -----------------------------------------------------------

#[test]
fn message_tags() {
    assert_eq!(message_claimed_type(&WsMessage::Heartbeat { device_code: "D".into(), ts: 1 }), "heartbeat");
    assert_eq!(message_claimed_type(&WsMessage::NearbyUpdate { devices: vec![] }), "nearby_update");
}

#[test]
fn unknown_type_error_names_claimed_type() {
    assert_eq!(
        unknown_type_error(Some("bogus")),
        WsMessage::Error { code: "unknown_type".into(), message: "unknown message type: bogus".into() }
    );
}

#[test]
fn invite_errors_carry_their_message() {
    assert_eq!(
        invite_error("redis unavailable".to_string()),
        WsMessage::Error { code: "invite_error".into(), message: "redis unavailable".into() }
    );
}

#[test]
fn cross_instance_messages_reach_local_team_only_from_other_instances() {
    let mut mgr = SessionManager::new();
    mgr.insert("D1".into(), make_team_session("D1", "team-A"));
    mgr.insert("D2".into(), make_team_session("D2", "team-B"));
    let msg = WsMessage::NearbyUpdate { devices: vec![] };
    assert!(cross_instance_delivery(&mgr, "inst-1", "inst-1", "team-A", msg.clone()).is_none());
    let d = cross_instance_delivery(&mgr, "inst-2", "inst-1", "team-A", msg.clone()).unwrap();
    assert_eq!(d.to, vec!["D1".to_string()]);
    assert_eq!(d.msg, msg);
}

#[test]
fn nearby_devices_expire_after_five_minutes() {
    assert!(nearby_device_fresh(1_000, 1_000));
    assert!(nearby_device_fresh(1_299, 1_000));
    assert!(!nearby_device_fresh(1_300, 1_000));
}

#[test]
fn nearby_device_update_announces_one_online_device() {
    assert_eq!(
        nearby_device_update("654321", "Remote Device"),
        WsMessage::NearbyUpdate {
            devices: vec![DeviceInfo {
                code: "654321".into(),
                name: "Remote Device".into(),
                platform: String::new(),
                online: true,
            }],
        }
    );
}

#[test]
fn invite_requests_without_a_store_are_refused() {
    match invite_store_unavailable() {
        WsMessage::Error { code, message } => {
            assert_eq!(code, "invite_error");
            assert_eq!(message, "redis unavailable");
        },
        other => panic!("expected Error, got: {other:?}"),
    }
}

#[test]
fn only_client_requests_are_routed() {
    assert!(is_routed(&WsMessage::Heartbeat { device_code: "A".into(), ts: 1 }));
    assert!(is_routed(&WsMessage::UseInvite { from_code: "A".into(), invite_code: "1234".into() }));
    assert!(is_routed(&WsMessage::RelayRequest { session_id: "s".into(), preferred_region: None }));
    assert!(!is_routed(&WsMessage::InviteGenerated { invite_code: "1234".into() }));
    assert!(!is_routed(&WsMessage::PeerOffline { device_code: "A".into(), reason: "gone".into() }));
    assert!(!is_routed(&WsMessage::Error { code: "c".into(), message: "m".into() }));
}
