use std::sync::atomic::Ordering;

use hmac::{Hmac, Mac};

use rdcs::signaling::config::{AppConfig, ConfigError, RelayNodeConfig};
use rdcs::signaling::ice_config::{region_distance, IceServerConfig};
use rdcs::signaling::invite::{generate_invite_code, invite_code_from_bytes, InviteRecord};
use rdcs::signaling::keys::{
    device_online_key, device_signals_channel, invite_key, lockout_key, relay_token_key, session_key,
    team_events_channel, team_online_key,
};
use rdcs::signaling::offline::extract_device_code;
use rdcs::signaling::peers::{ConnectionInfo, DeviceInfo, SessionSendError};
use rdcs::signaling::relay_nodes::{bytes_to_hex, generate_hmac_token, select_relay_node, RelayNode};
use rdcs::signaling::ttl::{DEVICE_ONLINE_TTL, INVITE_TTL, LOCKOUT_TTL, RELAY_TOKEN_TTL, SESSION_TTL};

#[test]
fn device_online_key_format() {
    assert_eq!(device_online_key("ABC123"), "device:ABC123:online");
}

#[test]
fn device_online_key_empty_code() {
    assert_eq!(device_online_key(""), "device::online");
}

#[test]
fn team_online_key_format() {
    assert_eq!(team_online_key("team-42"), "team:team-42:online_devices");
}

#[test]
fn session_key_format() {
    assert_eq!(session_key("sess-xyz-001"), "session:sess-xyz-001");
}

#[test]
fn invite_key_uses_device_invite_prefix() {
    assert_eq!(invite_key("INV001"), "device_invite:INV001");
    assert!(invite_key("X").starts_with("device_invite:"));
}

#[test]
fn team_events_channel_format() {
    assert_eq!(team_events_channel("team-42"), "team:team-42:events");
}

#[test]
fn device_signals_channel_format() {
    assert_eq!(device_signals_channel("ABC123"), "device:ABC123:signals");
}

#[test]
fn lockout_key_format_ip() {
    assert_eq!(lockout_key("ip", "1.2.3.4"), "lockout:ip:1.2.3.4");
}

#[test]
fn lockout_key_format_user() {
    assert_eq!(lockout_key("user", "u-99"), "lockout:user:u-99");
}

#[test]
fn relay_token_key_format() {
    assert_eq!(relay_token_key("abc123def456"), "relay_token:abc123def456");
}

#[test]
fn relay_token_key_empty() {
    assert_eq!(relay_token_key(""), "relay_token:");
}

#[test]
fn device_online_ttl_is_one_minute() {
    assert_eq!(DEVICE_ONLINE_TTL, 60);
}

#[test]
fn invite_ttl_is_ten_minutes() {
    assert_eq!(INVITE_TTL, 600);
}

#[test]
fn relay_token_ttl_is_thirty_seconds() {
    assert_eq!(RELAY_TOKEN_TTL, 30);
}

#[test]
fn lockout_ttl_is_thirty_minutes() {
    assert_eq!(LOCKOUT_TTL, 1800);
}

#[test]
fn session_ttl_is_one_day() {
    assert_eq!(SESSION_TTL, 86_400);
}

#[test]
fn extract_device_code_valid_key() {
    assert_eq!(extract_device_code("device:ABC123:online"), Some("ABC123"));
}

#[test]
fn extract_device_code_empty_code() {
    assert_eq!(extract_device_code("device::online"), Some(""));
}

#[test]
fn extract_device_code_wrong_prefix() {
    assert_eq!(extract_device_code("session:ABC123:online"), None);
}

#[test]
fn extract_device_code_wrong_suffix() {
    assert_eq!(extract_device_code("device:ABC123:offline"), None);
}

#[test]
fn extract_device_code_unrelated_key() {
    assert_eq!(extract_device_code("device_invite:1234"), None);
}

#[test]
fn extract_device_code_partial_match() {
    assert_eq!(extract_device_code("device:ABC123"), None);
}

#[test]
fn extract_device_code_nested_code() {
    assert_eq!(extract_device_code("device:team-42:DEV-001:online"), Some("team-42:DEV-001"));
}

#[test]
fn extract_device_code_inverts_device_online_key() {
    let key = device_online_key("DEV-7");
    assert_eq!(extract_device_code(&key), Some("DEV-7"));
}

fn make_nodes() -> Vec<RelayNode> {
    vec![
        RelayNode::new("relay-ap.example.com".into(), 4443, "ap-east-1".into(), 100),
        RelayNode::new("relay-us.example.com".into(), 4443, "us-west-2".into(), 100),
        RelayNode::new("relay-eu.example.com".into(), 4443, "eu-west-1".into(), 100),
    ]
}

#[test]
fn select_relay_node_prefers_region() {
    let nodes = make_nodes();
    let selected = select_relay_node(&nodes, Some("us-west-2")).unwrap();
    assert_eq!(selected.region, "us-west-2");
    assert_eq!(selected.addr, "relay-us.example.com");
}

#[test]
fn select_relay_node_prefers_region_ap() {
    let nodes = make_nodes();
    let selected = select_relay_node(&nodes, Some("ap-east-1")).unwrap();
    assert_eq!(selected.region, "ap-east-1");
}

#[test]
fn select_relay_node_falls_back_when_region_not_found() {
    let nodes = make_nodes();
    let selected = select_relay_node(&nodes, Some("mars-1")).unwrap();
    assert!(selected.has_capacity());
}

#[test]
fn select_relay_node_no_preference_picks_lowest_load() {
    let nodes = make_nodes();
    nodes[0].current_sessions.store(50, Ordering::Relaxed);
    nodes[1].current_sessions.store(10, Ordering::Relaxed);
    nodes[2].current_sessions.store(30, Ordering::Relaxed);
    let selected = select_relay_node(&nodes, None).unwrap();
    assert_eq!(selected.addr, "relay-us.example.com");
    assert_eq!(selected.load(), 10);
}

#[test]
fn select_relay_node_region_with_load_picks_lowest_in_region() {
    let nodes = vec![
        RelayNode::new("ap1".into(), 4443, "ap-east-1".into(), 100),
        RelayNode::new("ap2".into(), 4443, "ap-east-1".into(), 100),
        RelayNode::new("us1".into(), 4443, "us-west-2".into(), 100),
    ];
    nodes[0].current_sessions.store(80, Ordering::Relaxed);
    nodes[1].current_sessions.store(20, Ordering::Relaxed);
    let selected = select_relay_node(&nodes, Some("ap-east-1")).unwrap();
    assert_eq!(selected.addr, "ap2");
    assert_eq!(selected.load(), 20);
}

#[test]
fn select_relay_node_skips_full_nodes() {
    let nodes = vec![
        RelayNode::new("full".into(), 4443, "ap-east-1".into(), 10),
        RelayNode::new("free".into(), 4443, "ap-east-1".into(), 10),
    ];
    nodes[0].current_sessions.store(10, Ordering::Relaxed);
    nodes[1].current_sessions.store(3, Ordering::Relaxed);
    let selected = select_relay_node(&nodes, Some("ap-east-1")).unwrap();
    assert_eq!(selected.addr, "free");
}

#[test]
fn select_relay_node_all_full_returns_none() {
    let nodes = vec![
        RelayNode::new("full1".into(), 4443, "ap-east-1".into(), 5),
        RelayNode::new("full2".into(), 4443, "us-west-2".into(), 5),
    ];
    nodes[0].current_sessions.store(5, Ordering::Relaxed);
    nodes[1].current_sessions.store(5, Ordering::Relaxed);
    assert!(select_relay_node(&nodes, None).is_none());
}

#[test]
fn select_relay_node_empty_list_returns_none() {
    let nodes: Vec<RelayNode> = vec![];
    assert!(select_relay_node(&nodes, None).is_none());
    assert!(select_relay_node(&nodes, Some("ap-east-1")).is_none());
}

#[test]
fn select_relay_node_region_full_falls_back_to_other_region() {
    let nodes = vec![
        RelayNode::new("ap-full".into(), 4443, "ap-east-1".into(), 5),
        RelayNode::new("us-free".into(), 4443, "us-west-2".into(), 100),
    ];
    nodes[0].current_sessions.store(5, Ordering::Relaxed);
    let selected = select_relay_node(&nodes, Some("ap-east-1")).unwrap();
    assert_eq!(selected.addr, "us-free");
}

#[test]
fn select_relay_node_ties_go_to_the_first() {
    let nodes = make_nodes();
    let selected = select_relay_node(&nodes, None).unwrap();
    assert_eq!(selected.addr, "relay-ap.example.com");
}

#[test]
fn generate_hmac_token_deterministic() {
    let secret = b"test-secret";
    let token1 = generate_hmac_token(secret, "sess-1", "relay.io", "nonce-1", 1000);
    let token2 = generate_hmac_token(secret, "sess-1", "relay.io", "nonce-1", 1000);
    assert_eq!(token1, token2, "same inputs must produce same HMAC");
}

#[test]
fn generate_hmac_token_different_inputs_differ() {
    let secret = b"test-secret";
    let token1 = generate_hmac_token(secret, "sess-1", "relay.io", "nonce-1", 1000);
    let token2 = generate_hmac_token(secret, "sess-2", "relay.io", "nonce-1", 1000);
    assert_ne!(token1, token2, "different session IDs must produce different tokens");
}

#[test]
fn generate_hmac_token_different_secrets_differ() {
    let token1 = generate_hmac_token(b"secret-a", "sess-1", "relay.io", "nonce-1", 1000);
    let token2 = generate_hmac_token(b"secret-b", "sess-1", "relay.io", "nonce-1", 1000);
    assert_ne!(token1, token2, "different secrets must produce different tokens");
}

#[test]
fn generate_hmac_token_is_64_hex_chars() {
    let token = generate_hmac_token(b"key", "s", "r", "n", 0);
    assert_eq!(token.len(), 64, "SHA-256 HMAC produces 32 bytes = 64 hex chars");
    assert!(token.chars().all(|c| c.is_ascii_hexdigit()));
}

#[test]
fn generate_hmac_token_matches_hmac_sha256_of_the_concatenation() {
    let token = generate_hmac_token(b"key", "sess-1", "relay.io:443", "n-9", 1700000000);
    let mut mac = Hmac::<sha2::Sha256>::new_from_slice(b"key").unwrap();
    mac.update(b"sess-1relay.io:443n-91700000000");
    let expected: String = mac.finalize().into_bytes().iter().map(|b| format!("{b:02x}")).collect();
    assert_eq!(token, expected);
}

#[test]
fn bytes_to_hex_correctness() {
    assert_eq!(bytes_to_hex(&[0x00, 0xFF, 0xAB, 0x01]), "00ffab01");
    assert_eq!(bytes_to_hex(&[]), "");
}

#[test]
fn relay_node_new_has_zero_sessions() {
    let node = RelayNode::new("addr".into(), 4443, "region".into(), 100);
    assert_eq!(node.load(), 0);
    assert!(node.has_capacity());
}

#[test]
fn relay_node_clone_shares_counter() {
    let node = RelayNode::new("addr".into(), 4443, "region".into(), 100);
    let cloned = node.clone();
    node.current_sessions.store(42, Ordering::Relaxed);
    assert_eq!(cloned.load(), 42);
}

#[test]
fn relay_node_add_session_counts() {
    let node = RelayNode::new("addr".into(), 4443, "region".into(), 1);
    node.add_session();
    assert_eq!(node.load(), 1);
    assert!(!node.has_capacity());
}

#[test]
fn test_production_config() {
    let config = IceServerConfig::production_config(None);
    assert!(!config.stun_servers.is_empty());
    assert_eq!(config.turn_servers.len(), 4);
    let regions: Vec<_> = config.turn_servers.iter().map(|s| s.region.as_str()).collect();
    assert!(regions.contains(&"us-west"));
    assert!(regions.contains(&"us-east"));
    assert!(regions.contains(&"eu-central"));
    assert!(regions.contains(&"ap-southeast"));
}

#[test]
fn production_config_credentials() {
    let default = IceServerConfig::production_config(None);
    assert!(default.turn_servers.iter().all(|s| s.credential == "changeme" && s.username == "rdcs-user"));
    let custom = IceServerConfig::production_config(Some("s3cret".to_string()));
    assert!(custom.turn_servers.iter().all(|s| s.credential == "s3cret"));
}

#[test]
fn test_test_config() {
    let config = IceServerConfig::test_config();
    assert!(!config.stun_servers.is_empty());
    assert_eq!(config.turn_servers.len(), 1);
    assert_eq!(config.turn_servers[0].region, "local");
}

#[test]
fn test_select_nearest_servers() {
    let config = IceServerConfig::production_config(None);
    let nearest = config.select_nearest_servers("us-west");
    assert!(nearest.len() <= 3);
    assert_eq!(nearest[0].region, "us-west");
}

#[test]
fn select_nearest_servers_orders_by_distance() {
    let config = IceServerConfig::production_config(None);
    let nearest = config.select_nearest_servers("eu-central");
    let regions: Vec<&str> = nearest.iter().map(|s| s.region.as_str()).collect();
    assert_eq!(regions, vec!["eu-central", "us-west", "us-east"]);
}

#[test]
fn test_region_distance() {
    assert_eq!(region_distance("us-west", "us-west"), 0);
    assert_eq!(region_distance("us-west", "us-east"), 1);
    assert!(region_distance("us-west", "ap-southeast") > 1);
}

#[test]
fn region_distance_unknown_pair_is_ten() {
    assert_eq!(region_distance("mars", "us-west"), 10);
}

#[test]
fn test_get_stun_urls() {
    let config = IceServerConfig::production_config(None);
    let urls = config.get_stun_urls();
    assert!(urls.iter().any(|u| u.contains("stun.rdcs.io")));
}

#[test]
fn test_get_turn_urls() {
    let config = IceServerConfig::production_config(None);
    let all_urls = config.get_turn_urls(None);
    assert!(all_urls.len() >= 4);
    let us_west_urls = config.get_turn_urls(Some("us-west"));
    assert!(us_west_urls.iter().any(|u| u.contains("turn-us-west")));
}

#[test]
fn test_bandwidth_limits() {
    let config = IceServerConfig::production_config(None);
    for server in &config.turn_servers {
        assert!(server.bandwidth_limit.is_some());
        assert_eq!(server.bandwidth_limit.unwrap(), 2_000_000);
    }
}

#[test]
fn generate_invite_code_is_four_digits() {
    for _ in 0..100 {
        let code = generate_invite_code();
        assert_eq!(code.len(), 4, "invite code must be exactly 4 digits: {code}");
        assert!(code.chars().all(|c| c.is_ascii_digit()), "invite code must be all digits: {code}");
    }
}

#[test]
fn generate_invite_code_in_range() {
    for _ in 0..100 {
        let code = generate_invite_code();
        let num: u32 = code.parse().unwrap();
        assert!((1000..=9999).contains(&num), "invite code must be in 1000-9999: {num}");
    }
}

#[test]
fn generate_invite_code_has_variance() {
    let mut codes = std::collections::HashSet::new();
    for _ in 0..50 {
        codes.insert(generate_invite_code());
    }
    assert!(codes.len() > 1, "invite codes should not all be the same");
}

#[test]
fn invite_code_from_bytes_is_little_endian_mod_9000() {
    let mut b = [0u8; 16];
    assert_eq!(invite_code_from_bytes(&b), "1000");
    b[0] = 0x39;
    b[1] = 0x05;
    assert_eq!(invite_code_from_bytes(&b), "2337");
    let b = [0xFFu8; 16];
    assert_eq!(invite_code_from_bytes(&b), format!("{}", 1000 + (u32::MAX % 9000)));
}

#[test]
fn invite_record_holds_its_fields() {
    let record = InviteRecord { device_code: "DEV-001".to_string(), team_id: Some("team-42".to_string()) };
    assert_eq!(record.device_code, "DEV-001");
    assert_eq!(record.team_id.as_deref(), Some("team-42"));
}

#[test]
fn all_fourteen_message_types_have_distinct_type_tags() {
    let types = [
        "register",
        "heartbeat",
        "connect_request",
        "connect_response",
        "ice_offer",
        "ice_answer",
        "ice_trickle",
        "relay_request",
        "relay_assigned",
        "peer_offline",
        "nearby_update",
        "generate_invite",
        "use_invite",
        "invite_generated",
        "invite_result",
    ];
    let unique: std::collections::HashSet<&str> = types.iter().copied().collect();
    assert_eq!(unique.len(), 15, "all 15 message types must have distinct tags");
}

#[test]
fn config_defaults_when_optional_values_missing() {
    let cfg = AppConfig::from_settings(None, None, None, Some("test-secret".into()), vec![]).expect("should succeed");
    assert_eq!(cfg.bind_addr, "0.0.0.0:8443");
    assert_eq!(cfg.redis_url, "redis://127.0.0.1:6379");
    assert_eq!(cfg.log_level, "info");
    assert_eq!(cfg.relay_hmac_secret, "test-secret");
    assert!(cfg.relay_nodes.is_empty());
}

#[test]
fn config_custom_values_override_defaults() {
    let node = RelayNodeConfig { addr: "relay1.example.com".into(), port: 4443, region: "ap-east-1".into(), max_sessions: 1000 };
    let cfg = AppConfig::from_settings(
        Some("127.0.0.1:9000".into()),
        Some("redis://redis.local:6380".into()),
        Some("debug".into()),
        Some("custom-secret".into()),
        vec![node],
    )
    .expect("should succeed");
    assert_eq!(cfg.bind_addr, "127.0.0.1:9000");
    assert_eq!(cfg.redis_url, "redis://redis.local:6380");
    assert_eq!(cfg.log_level, "debug");
    assert_eq!(cfg.relay_hmac_secret, "custom-secret");
    assert_eq!(cfg.relay_nodes.len(), 1);
    assert_eq!(cfg.relay_nodes[0].addr, "relay1.example.com");
    assert_eq!(cfg.relay_nodes[0].port, 4443);
    assert_eq!(cfg.relay_nodes[0].max_sessions, 1000);
}

#[test]
fn config_missing_hmac_secret_returns_error() {
    let err = AppConfig::from_settings(None, None, None, None, vec![]).unwrap_err();
    let msg = err.to_display_string();
    assert!(msg.contains("RDCS_HMAC_SECRET"), "unexpected error: {msg}");
    assert_eq!(msg, "required environment variable `RDCS_HMAC_SECRET` is not set");
}

#[test]
fn config_empty_hmac_secret_returns_error() {
    let err = AppConfig::from_settings(None, None, None, Some(String::new()), vec![]).unwrap_err();
    let msg = err.to_display_string();
    assert!(msg.contains("must not be empty"), "unexpected error: {msg}");
    assert!(matches!(err, ConfigError::InvalidValue { name: "RDCS_HMAC_SECRET", .. }));
}

#[test]
fn session_send_error_display() {
    assert_eq!(
        SessionSendError::DeviceNotFound("NOPE".into()).to_display_string(),
        "device `NOPE` not found in session manager"
    );
    assert_eq!(SessionSendError::ChannelClosed.to_display_string(), "send channel closed (client disconnected)");
}

#[test]
fn device_and_connection_info_fields() {
    let d = DeviceInfo { code: "A".into(), name: "Laptop".into(), platform: "linux".into(), online: true };
    assert_eq!(d.clone(), d);
    let c = ConnectionInfo { device_code: "A".into(), team_id: None };
    assert!(c.clone().team_id.is_none());
}
