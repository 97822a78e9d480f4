use rdcs::relay::auth::{check_token, decode_token, generate_token, unix_now, AuthError, TokenPayload};
use rdcs::relay::metrics::RelayMetrics;
use rdcs::relay::port_pool::{PortPool, SessionError};
use rdcs::relay::protocol::{encode_data, encode_keepalive};
use rdcs::relay::session::{forward_packet_target, ForwardError, PeerAddr, SessionManager};

const SECRET: &[u8] = b"test-session-secret";

fn valid_token(session_id: u64) -> String {
    let payload = TokenPayload {
        session_id,
        relay_addr: "127.0.0.1:3478".into(),
        nonce: session_id,
        expires_at: 4_102_444_800,
    };
    generate_token(&payload, SECRET)
}

/// Token verification against the manager's secret, the JSON payload read
/// field by field.
fn verify(mgr: &SessionManager, token: &str) -> Result<TokenPayload, AuthError> {
    let (bytes, sig) = decode_token(token)?;
    let v: serde_json::Value = serde_json::from_slice(&bytes).map_err(|e| AuthError::JsonError(e.to_string()))?;
    let num = |k: &str| v.get(k).and_then(|x| x.as_u64()).ok_or_else(|| AuthError::JsonError(k.to_string()));
    let payload = TokenPayload {
        session_id: num("session_id")?,
        relay_addr: v
            .get("relay_addr")
            .and_then(|x| x.as_str())
            .ok_or_else(|| AuthError::JsonError("relay_addr".to_string()))?
            .to_string(),
        nonce: num("nonce")?,
        expires_at: num("expires_at")?,
    };
    check_token(payload, &sig, mgr.hmac_secret(), unix_now())
}

fn allocate(mgr: &mut SessionManager, id: u64, token: &str, addr: PeerAddr) -> Result<(u16, u16), SessionError> {
    let checked = verify(mgr, token);
    mgr.allocate(id, checked, addr)
}

fn peer_addr(port: u16) -> PeerAddr {
    PeerAddr::V4 { ip: u32::from_be_bytes([192, 168, 1, 100]), port }
}

fn test_manager(min: u16, max: u16) -> SessionManager {
    SessionManager::new(min, max, SECRET.to_vec())
}

#[test]
fn port_pool_allocate_pair() {
    let mut pool = PortPool::new(50000, 50009);
    let (a, b) = pool.allocate_pair().unwrap();
    assert_eq!(a, 50000);
    assert_eq!(b, 50001);
    assert_eq!(pool.available_count(), 8);
}

#[test]
fn port_pool_allocate_multiple_pairs() {
    let mut pool = PortPool::new(50000, 50007);
    let (a1, b1) = pool.allocate_pair().unwrap();
    let (a2, b2) = pool.allocate_pair().unwrap();
    let (a3, b3) = pool.allocate_pair().unwrap();
    let (a4, b4) = pool.allocate_pair().unwrap();
    assert_eq!((a1, b1), (50000, 50001));
    assert_eq!((a2, b2), (50002, 50003));
    assert_eq!((a3, b3), (50004, 50005));
    assert_eq!((a4, b4), (50006, 50007));
    assert_eq!(pool.available_count(), 0);
}

#[test]
fn port_pool_exhaustion() {
    let mut pool = PortPool::new(50000, 50001);
    let _ = pool.allocate_pair().unwrap();
    let err = pool.allocate_pair().unwrap_err();
    assert!(matches!(err, SessionError::NoPortsAvailable), "expected NoPortsAvailable, got {err:?}");
}

#[test]
fn port_pool_release_and_reuse() {
    let mut pool = PortPool::new(50000, 50001);
    let (a, b) = pool.allocate_pair().unwrap();
    assert_eq!(pool.available_count(), 0);
    pool.release_pair(a, b);
    assert_eq!(pool.available_count(), 2);
    let (a2, b2) = pool.allocate_pair().unwrap();
    assert_eq!((a2, b2), (50000, 50001));
}

#[test]
fn port_pool_available_count() {
    let pool = PortPool::new(50000, 50009);
    assert_eq!(pool.available_count(), 10);
}

#[test]
fn port_pool_odd_min() {
    let mut pool = PortPool::new(50001, 50010);
    let (a, b) = pool.allocate_pair().unwrap();
    assert_eq!(a, 50002);
    assert_eq!(b, 50003);
}

#[test]
fn allocate_creates_session() {
    let mut mgr = test_manager(50000, 50099);
    let token = valid_token(1);
    let addr = peer_addr(12345);
    let (port_a, port_b) = allocate(&mut mgr, 1, &token, addr).unwrap();
    assert!(port_a >= 50000 && port_b <= 50099);
    assert_eq!(port_b, port_a + 1);
    assert_eq!(mgr.active_count(), 1);
    let session = mgr.get(1).unwrap();
    assert_eq!(session.session_id, 1);
    assert_eq!(session.peer_a.addr, addr);
    assert_eq!(session.peer_a.port, port_a);
    assert_eq!(session.peer_b.port, port_b);
    assert_eq!(session.bytes_forwarded, 0);
}

#[test]
fn allocate_rejects_invalid_token() {
    let mut mgr = test_manager(50000, 50099);
    let err = allocate(&mut mgr, 1, "totally-invalid-token", peer_addr(1000)).unwrap_err();
    assert!(matches!(err, SessionError::InvalidToken(_)), "expected InvalidToken, got {err:?}");
    assert_eq!(mgr.active_count(), 0);
}

#[test]
fn allocate_rejects_wrong_secret() {
    let mut mgr = test_manager(50000, 50099);
    let payload = TokenPayload { session_id: 1, relay_addr: "127.0.0.1:3478".into(), nonce: 1, expires_at: 4_102_444_800 };
    let token = generate_token(&payload, b"wrong-secret");
    let err = allocate(&mut mgr, 1, &token, peer_addr(1000)).unwrap_err();
    assert!(matches!(err, SessionError::InvalidToken(_)), "expected InvalidToken, got {err:?}");
}

#[test]
fn allocate_rejects_mismatched_session_id() {
    let mut mgr = test_manager(50000, 50099);
    let token = valid_token(42);
    let err = allocate(&mut mgr, 99, &token, peer_addr(1000)).unwrap_err();
    assert!(matches!(err, SessionError::InvalidToken(_)), "expected InvalidToken for mismatched session_id, got {err:?}");
}

#[test]
fn allocate_rejects_duplicate_session() {
    let mut mgr = test_manager(50000, 50099);
    let token = valid_token(1);
    allocate(&mut mgr, 1, &token, peer_addr(1000)).unwrap();
    let token2 = valid_token(1);
    let err = allocate(&mut mgr, 1, &token2, peer_addr(2000)).unwrap_err();
    assert!(matches!(err, SessionError::SessionExists(1)), "expected SessionExists(1), got {err:?}");
}

#[test]
fn release_frees_ports() {
    let mut mgr = test_manager(50000, 50001);
    let token = valid_token(1);
    let (port_a, port_b) = allocate(&mut mgr, 1, &token, peer_addr(1000)).unwrap();
    assert_eq!(mgr.active_count(), 1);
    mgr.release(1).unwrap();
    assert_eq!(mgr.active_count(), 0);
    assert!(mgr.get(1).is_none());
    let token2 = valid_token(2);
    let (pa2, pb2) = allocate(&mut mgr, 2, &token2, peer_addr(2000)).unwrap();
    assert_eq!((pa2, pb2), (port_a, port_b));
}

#[test]
fn release_nonexistent_session() {
    let mut mgr = test_manager(50000, 50099);
    let err = mgr.release(999).unwrap_err();
    assert!(matches!(err, SessionError::SessionNotFound(999)), "expected SessionNotFound(999), got {err:?}");
}

#[test]
fn port_exhaustion() {
    let mut mgr = test_manager(50000, 50003);
    allocate(&mut mgr, 1, &valid_token(1), peer_addr(1000)).unwrap();
    allocate(&mut mgr, 2, &valid_token(2), peer_addr(2000)).unwrap();
    let err = allocate(&mut mgr, 3, &valid_token(3), peer_addr(3000)).unwrap_err();
    assert!(matches!(err, SessionError::NoPortsAvailable), "expected NoPortsAvailable, got {err:?}");
    mgr.release(1).unwrap();
    let result = allocate(&mut mgr, 4, &valid_token(4), peer_addr(4000));
    assert!(result.is_ok(), "allocation should succeed after release");
}

#[test]
fn keepalive_resets_timeout() {
    let mut mgr = test_manager(50000, 50099);
    allocate(&mut mgr, 1, &valid_token(1), peer_addr(1000)).unwrap();
    assert!(mgr.keepalive(1), "keepalive for existing session must return true");
    assert!(!mgr.keepalive(999), "keepalive for unknown session must return false");
}

#[test]
fn keepalive_updates_last_activity() {
    let mut mgr = test_manager(50000, 50099);
    allocate(&mut mgr, 1, &valid_token(1), peer_addr(1000)).unwrap();
    let activity_before = mgr.get(1).unwrap().last_activity;
    let t0 = mgr.now();
    while mgr.now() <= t0 + 5_000_000 {}
    assert!(mgr.keepalive(1));
    let activity_after = mgr.get(1).unwrap().last_activity;
    assert!(activity_after > activity_before, "keepalive should advance last_activity");
}

const SECOND: u64 = 1_000_000_000;

#[test]
fn cleanup_removes_expired() {
    let mut mgr = test_manager(50000, 50099);
    let t1 = verify(&mgr, &valid_token(1));
    let t2 = verify(&mgr, &valid_token(2));
    mgr.allocate_at(1, t1, peer_addr(1000), 0).unwrap();
    mgr.allocate_at(2, t2, peer_addr(2000), 60 * SECOND).unwrap();
    assert_eq!(mgr.active_count(), 2);
    let removed = mgr.cleanup_expired_at(60 * SECOND);
    assert_eq!(removed, vec![1], "only session 1 should be expired");
    assert_eq!(mgr.active_count(), 1);
    assert!(mgr.get(1).is_none());
    assert!(mgr.get(2).is_some());
}

#[test]
fn cleanup_releases_ports_of_expired_sessions() {
    let mut mgr = test_manager(50000, 50001);
    let t1 = verify(&mgr, &valid_token(1));
    let (port_a, port_b) = mgr.allocate_at(1, t1, peer_addr(1000), 0).unwrap();
    let removed = mgr.cleanup_expired_at(60 * SECOND);
    assert_eq!(removed.len(), 1);
    let token2 = valid_token(2);
    let (pa2, pb2) = allocate(&mut mgr, 2, &token2, peer_addr(2000)).unwrap();
    assert_eq!((pa2, pb2), (port_a, port_b));
}

#[test]
fn cleanup_no_expired_sessions() {
    let mut mgr = test_manager(50000, 50099);
    allocate(&mut mgr, 1, &valid_token(1), peer_addr(1000)).unwrap();
    let removed = mgr.cleanup_expired();
    assert!(removed.is_empty());
    assert_eq!(mgr.active_count(), 1);
}

#[test]
fn session_error_display() {
    assert_eq!(SessionError::InvalidToken("bad".into()).to_display_string(), "invalid token: bad");
    assert_eq!(SessionError::SessionExists(42).to_display_string(), "session 42 already exists");
    assert_eq!(SessionError::SessionNotFound(7).to_display_string(), "session 7 not found");
    assert_eq!(SessionError::NoPortsAvailable.to_display_string(), "no available port pairs");
}

#[test]
fn manager_active_count_starts_at_zero() {
    let mgr = test_manager(50000, 50099);
    assert_eq!(mgr.active_count(), 0);
}

#[test]
fn manager_get_nonexistent() {
    let mgr = test_manager(50000, 50099);
    assert!(mgr.get(1).is_none());
}

#[test]
fn manager_multiple_sessions() {
    let mut mgr = test_manager(50000, 50099);
    for i in 1..=5 {
        allocate(&mut mgr, i, &valid_token(i), peer_addr(1000 + i as u16)).unwrap();
    }
    assert_eq!(mgr.active_count(), 5);
    for i in 1..=5 {
        assert!(mgr.get(i).is_some());
    }
}

#[test]
fn allocate_updates_metrics() {
    let mut mgr = SessionManager::new(50000, 50099, SECRET.to_vec()).with_metrics(RelayMetrics::new());
    allocate(&mut mgr, 1, &valid_token(1), peer_addr(1000)).unwrap();
    let snap = mgr.metrics().unwrap().snapshot();
    assert_eq!(snap.active_sessions, 1, "allocate should inc_session");
    assert_eq!(snap.slots_allocated, 1, "allocate should inc_slot_alloc");
}

#[test]
fn release_updates_metrics() {
    let mut mgr = SessionManager::new(50000, 50099, SECRET.to_vec()).with_metrics(RelayMetrics::new());
    allocate(&mut mgr, 1, &valid_token(1), peer_addr(1000)).unwrap();
    assert_eq!(mgr.metrics().unwrap().snapshot().active_sessions, 1);
    mgr.release(1).unwrap();
    let snap = mgr.metrics().unwrap().snapshot();
    assert_eq!(snap.active_sessions, 0, "release should dec_session");
    assert_eq!(snap.slots_reclaimed, 1, "release should inc_slot_reclaim");
    assert_eq!(snap.slots_allocated, 1, "slots_allocated unchanged after release");
}

#[test]
fn cleanup_updates_metrics() {
    let mut mgr = SessionManager::new(50000, 50099, SECRET.to_vec()).with_metrics(RelayMetrics::new());
    let t1 = verify(&mgr, &valid_token(1));
    let t2 = verify(&mgr, &valid_token(2));
    mgr.allocate_at(1, t1, peer_addr(1000), 0).unwrap();
    mgr.allocate_at(2, t2, peer_addr(2000), 60 * SECOND).unwrap();
    assert_eq!(mgr.metrics().unwrap().snapshot().active_sessions, 2);
    let removed = mgr.cleanup_expired_at(60 * SECOND);
    assert_eq!(removed.len(), 1);
    let snap = mgr.metrics().unwrap().snapshot();
    assert_eq!(snap.active_sessions, 1, "cleanup should dec_session for expired");
    assert_eq!(snap.slots_reclaimed, 1, "cleanup should inc_slot_reclaim for expired");
}

#[test]
fn metrics_not_required() {
    let mut mgr = test_manager(50000, 50099);
    allocate(&mut mgr, 1, &valid_token(1), peer_addr(1000)).unwrap();
    mgr.release(1).unwrap();
    assert_eq!(mgr.active_count(), 0);
    assert!(mgr.metrics().is_none());
}

#[test]
fn multiple_alloc_release_cycles() {
    let mut mgr = SessionManager::new(50000, 50099, SECRET.to_vec()).with_metrics(RelayMetrics::new());
    for i in 1..=3 {
        allocate(&mut mgr, i, &valid_token(i), peer_addr(1000 + i as u16)).unwrap();
    }
    assert_eq!(mgr.metrics().unwrap().snapshot().active_sessions, 3);
    assert_eq!(mgr.metrics().unwrap().snapshot().slots_allocated, 3);
    mgr.release(1).unwrap();
    mgr.release(2).unwrap();
    assert_eq!(mgr.metrics().unwrap().snapshot().active_sessions, 1);
    assert_eq!(mgr.metrics().unwrap().snapshot().slots_reclaimed, 2);
    allocate(&mut mgr, 4, &valid_token(4), peer_addr(4000)).unwrap();
    assert_eq!(mgr.metrics().unwrap().snapshot().active_sessions, 2);
    assert_eq!(mgr.metrics().unwrap().snapshot().slots_allocated, 4);
}

#[test]
fn mismatched_session_id_message() {
    let mut mgr = test_manager(50000, 50099);
    let err = allocate(&mut mgr, 99, &valid_token(42), peer_addr(1)).unwrap_err();
    match err {
        SessionError::InvalidToken(m) => assert_eq!(m, "token session_id 42 does not match requested 99"),
        other => panic!("expected InvalidToken, got {other:?}"),
    }
}

#[test]
fn invalid_token_message_comes_from_the_check() {
    let mut mgr = test_manager(50000, 50099);
    let err = mgr.allocate(1, Err(AuthError::Expired(5)), peer_addr(1)).unwrap_err();
    match err {
        SessionError::InvalidToken(m) => assert_eq!(m, "token expired at 5"),
        other => panic!("expected InvalidToken, got {other:?}"),
    }
}

#[test]
fn forward_a_to_b_and_back() {
    let mut mgr = test_manager(50000, 50099);
    let a = peer_addr(1000);
    let b = PeerAddr::V4 { ip: u32::from_be_bytes([10, 0, 0, 2]), port: 2000 };
    allocate(&mut mgr, 7, &valid_token(7), a).unwrap();
    assert!(mgr.set_peer_b(7, b));
    let pkt = encode_data(7, b"frame");
    assert_eq!(forward_packet_target(&mut mgr, a, &pkt).unwrap(), b);
    assert_eq!(forward_packet_target(&mut mgr, b, &pkt).unwrap(), a);
    assert_eq!(mgr.get(7).unwrap().bytes_forwarded, 2);
}

#[test]
fn forward_errors() {
    let mut mgr = test_manager(50000, 50099);
    let a = peer_addr(1000);
    allocate(&mut mgr, 7, &valid_token(7), a).unwrap();
    let stranger = peer_addr(9999);
    assert!(matches!(forward_packet_target(&mut mgr, stranger, &encode_data(7, b"x")), Err(ForwardError::UnknownPeer(p)) if p == stranger));
    assert!(matches!(forward_packet_target(&mut mgr, a, &encode_data(8, b"x")), Err(ForwardError::SessionNotFound(8))));
    assert!(matches!(forward_packet_target(&mut mgr, a, &encode_keepalive(7)), Err(ForwardError::SessionNotFound(0))));
    assert!(matches!(forward_packet_target(&mut mgr, a, b"junk"), Err(ForwardError::SessionNotFound(0))));
    assert_eq!(mgr.get(7).unwrap().bytes_forwarded, 0);
}

#[test]
fn set_peer_b_unknown_session() {
    let mut mgr = test_manager(50000, 50099);
    assert!(!mgr.set_peer_b(3, peer_addr(1)));
}

#[test]
fn available_ports_tracks_pool() {
    let mut mgr = test_manager(50000, 50009);
    assert_eq!(mgr.available_ports(), 10);
    allocate(&mut mgr, 1, &valid_token(1), peer_addr(1)).unwrap();
    assert_eq!(mgr.available_ports(), 8);
    mgr.release(1).unwrap();
    assert_eq!(mgr.available_ports(), 10);
}

#[test]
fn port_pool_reaches_top_of_port_range() {
    let mut pool = PortPool::new(65532, 65535);
    assert_eq!(pool.allocate_pair().unwrap(), (65532, 65533));
    assert_eq!(pool.allocate_pair().unwrap(), (65534, 65535));
    assert!(matches!(pool.allocate_pair(), Err(SessionError::NoPortsAvailable)));
    assert_eq!(pool.available_count(), 0);
    pool.release_pair(65532, 65533);
    assert_eq!(pool.allocate_pair().unwrap(), (65532, 65533));
}

#[test]
fn port_pool_single_top_port_has_no_pair() {
    let mut pool = PortPool::new(65535, 65535);
    assert!(matches!(pool.allocate_pair(), Err(SessionError::NoPortsAvailable)));
    let mut odd_start = PortPool::new(65533, 65535);
    assert_eq!(odd_start.allocate_pair().unwrap(), (65534, 65535));
    assert!(matches!(odd_start.allocate_pair(), Err(SessionError::NoPortsAvailable)));
    let mut bounded = PortPool::new(10000, 10001);
    bounded.allocate_pair().unwrap();
    assert!(matches!(bounded.allocate_pair(), Err(SessionError::NoPortsAvailable)));
}

#[test]
fn manager_allocates_at_top_of_port_range() {
    let mut mgr = test_manager(65534, 65535);
    assert_eq!(allocate(&mut mgr, 1, &valid_token(1), peer_addr(1)).unwrap(), (65534, 65535));
    assert!(matches!(allocate(&mut mgr, 2, &valid_token(2), peer_addr(2)), Err(SessionError::NoPortsAvailable)));
    assert_eq!(mgr.active_count(), 1);
}
