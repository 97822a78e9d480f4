use base64::Engine;
use rdcs::relay::auth::{
    check_token, constant_time_eq, decode_token, generate_token, hex_decode, payload_to_json, unix_now,
    AuthError, NonceCache, TokenPayload,
};

const SECRET: &[u8] = b"test-hmac-secret-key";

fn future_payload(session_id: u64, nonce: u64) -> TokenPayload {
    TokenPayload { session_id, relay_addr: "10.0.0.1:3478".into(), nonce, expires_at: 4_102_444_800 }
}

fn expired_payload(session_id: u64, nonce: u64) -> TokenPayload {
    TokenPayload { session_id, relay_addr: "10.0.0.1:3478".into(), nonce, expires_at: 1_577_836_800 }
}

/// The JSON step of token verification, as a serde parse of the payload
/// object would do it.
fn payload_from_json(bytes: &[u8]) -> Result<TokenPayload, AuthError> {
    let v: serde_json::Value = serde_json::from_slice(bytes).map_err(|e| AuthError::JsonError(e.to_string()))?;
    let field_u64 = |name: &str| {
        v.get(name)
            .and_then(|x| x.as_u64())
            .ok_or_else(|| AuthError::JsonError(format!("missing or invalid field `{name}`")))
    };
    let relay_addr = v
        .get("relay_addr")
        .and_then(|x| x.as_str())
        .ok_or_else(|| AuthError::JsonError("missing or invalid field `relay_addr`".to_string()))?
        .to_string();
    Ok(TokenPayload {
        session_id: field_u64("session_id")?,
        relay_addr,
        nonce: field_u64("nonce")?,
        expires_at: field_u64("expires_at")?,
    })
}

/// Full token verification: take the token apart, parse the payload, check
/// the signature and the expiry.
fn verify_token(token: &str, secret: &[u8]) -> Result<TokenPayload, AuthError> {
    let (bytes, sig) = decode_token(token)?;
    let payload = payload_from_json(&bytes)?;
    check_token(payload, &sig, secret, unix_now())
}

#[test]
fn generate_verify_roundtrip() {
    let payload = future_payload(42, 12345);
    let token = generate_token(&payload, SECRET);
    let verified = verify_token(&token, SECRET).expect("verification should succeed");
    assert_eq!(verified, payload);
}

#[test]
fn generate_verify_roundtrip_different_secrets() {
    let payload = future_payload(100, 99999);
    let secret_a = b"secret-alpha";
    let secret_b = b"secret-beta!!";
    let token_a = generate_token(&payload, secret_a);
    let token_b = generate_token(&payload, secret_b);
    assert!(verify_token(&token_a, secret_a).is_ok());
    assert!(verify_token(&token_b, secret_b).is_ok());
    let err = verify_token(&token_a, secret_b).unwrap_err();
    assert!(matches!(err, AuthError::InvalidSignature), "expected InvalidSignature, got {err:?}");
}

#[test]
fn generate_verify_roundtrip_special_addr() {
    let payload = TokenPayload {
        session_id: u64::MAX,
        relay_addr: "2001:db8::1:8443".into(),
        nonce: 0,
        expires_at: 4_102_444_800,
    };
    let token = generate_token(&payload, SECRET);
    let verified = verify_token(&token, SECRET).expect("roundtrip should succeed");
    assert_eq!(verified, payload);
}

#[test]
fn invalid_signature_rejected() {
    let payload = future_payload(1, 1);
    let token = generate_token(&payload, SECRET);
    let err = verify_token(&token, b"wrong-secret").unwrap_err();
    assert!(matches!(err, AuthError::InvalidSignature), "expected InvalidSignature, got {err:?}");
}

#[test]
fn tampered_signature_rejected() {
    let payload = future_payload(7, 42);
    let token = generate_token(&payload, SECRET);
    let (payload_part, sig_hex) = token.split_once('.').unwrap();
    let mut sig_bytes: Vec<char> = sig_hex.chars().collect();
    let last = sig_bytes.last_mut().unwrap();
    *last = if *last == '0' { '1' } else { '0' };
    let tampered = format!("{payload_part}.{}", sig_bytes.iter().collect::<String>());
    let err = verify_token(&tampered, SECRET).unwrap_err();
    assert!(matches!(err, AuthError::InvalidSignature), "expected InvalidSignature, got {err:?}");
}

#[test]
fn tampered_payload_rejected() {
    let payload = future_payload(1, 1);
    let token = generate_token(&payload, SECRET);
    let (_payload_b64, sig_hex) = token.split_once('.').unwrap();
    let mut p = payload.clone();
    p.session_id = 999;
    let tampered_json = payload_to_json(&p);
    let tampered_b64 = base64::engine::general_purpose::STANDARD.encode(tampered_json.as_bytes());
    let tampered = format!("{tampered_b64}.{sig_hex}");
    let (bytes, _) = decode_token(&tampered).unwrap();
    assert_eq!(bytes, tampered_json.as_bytes());
    let err = verify_token(&tampered, SECRET).unwrap_err();
    assert!(matches!(err, AuthError::InvalidSignature), "expected InvalidSignature, got {err:?}");
}

#[test]
fn expired_token_rejected() {
    let payload = expired_payload(5, 777);
    let token = generate_token(&payload, SECRET);
    let err = verify_token(&token, SECRET).unwrap_err();
    assert!(matches!(err, AuthError::Expired(_)), "expected Expired, got {err:?}");
}

#[test]
fn expired_token_carries_timestamp() {
    let payload = expired_payload(5, 777);
    let token = generate_token(&payload, SECRET);
    let err = verify_token(&token, SECRET).unwrap_err();
    match err {
        AuthError::Expired(ts) => assert_eq!(ts, 1_577_836_800),
        other => panic!("expected Expired, got {other:?}"),
    }
}

#[test]
fn nonce_replay_rejected() {
    let mut cache = NonceCache::new(3600);
    cache.check_and_insert(42).expect("first insert should succeed");
    let err = cache.check_and_insert(42).unwrap_err();
    assert!(matches!(err, AuthError::NonceReused(42)), "expected NonceReused(42), got {err:?}");
}

#[test]
fn nonce_cache_accepts_distinct_nonces() {
    let mut cache = NonceCache::new(3600);
    cache.check_and_insert(1).unwrap();
    cache.check_and_insert(2).unwrap();
    cache.check_and_insert(3).unwrap();
    assert_eq!(cache.len(), 3);
}

#[test]
fn nonce_cache_cleanup_removes_expired() {
    let mut cache = NonceCache::new(0);
    cache.check_and_insert(10).unwrap();
    cache.check_and_insert(20).unwrap();
    assert_eq!(cache.len(), 2);
    cache.cleanup_expired();
    assert_eq!(cache.len(), 2);
}

#[test]
fn nonce_cache_cleanup_expired_with_manual_timestamp() {
    let mut cache = NonceCache::new(60);
    let now = unix_now();
    cache.check_and_insert_at(100, now.saturating_sub(120)).unwrap();
    cache.check_and_insert_at(200, now.saturating_sub(10)).unwrap();
    assert_eq!(cache.len(), 2);
    cache.cleanup_expired_at(now);
    assert_eq!(cache.len(), 1, "only the recent entry should survive");
    assert!(matches!(cache.check_and_insert_at(200, now), Err(AuthError::NonceReused(200))));
    assert!(cache.check_and_insert_at(100, now).is_ok());
}

#[test]
fn malformed_token_no_separator() {
    let err = verify_token("noseparator", SECRET).unwrap_err();
    assert!(matches!(err, AuthError::InvalidFormat), "expected InvalidFormat, got {err:?}");
}

#[test]
fn malformed_token_bad_base64() {
    let err = verify_token("!!!invalid-base64!!!.abcd1234", SECRET).unwrap_err();
    assert!(matches!(err, AuthError::Base64Error(_)), "expected Base64Error, got {err:?}");
}

#[test]
fn malformed_token_bad_json() {
    let b64 = base64::engine::general_purpose::STANDARD.encode(b"not-json");
    let (bytes, _) = decode_token(&format!("{b64}.0000")).unwrap();
    assert_eq!(bytes, b"not-json");
    let err = verify_token(&format!("{b64}.0000"), SECRET).unwrap_err();
    assert!(matches!(err, AuthError::JsonError(_)), "expected JsonError, got {err:?}");
}

#[test]
fn malformed_token_bad_hex_signature() {
    let payload = future_payload(1, 1);
    let token = generate_token(&payload, SECRET);
    let (payload_b64, _sig) = token.split_once('.').unwrap();
    let err = verify_token(&format!("{payload_b64}.abc"), SECRET).unwrap_err();
    assert!(matches!(err, AuthError::InvalidFormat), "expected InvalidFormat for odd hex, got {err:?}");
}

#[test]
fn malformed_token_empty_string() {
    let err = verify_token("", SECRET).unwrap_err();
    assert!(matches!(err, AuthError::InvalidFormat), "expected InvalidFormat, got {err:?}");
}

#[test]
fn malformed_token_only_dot() {
    let err = verify_token(".", SECRET).unwrap_err();
    assert!(
        matches!(err, AuthError::Base64Error(_) | AuthError::JsonError(_)),
        "expected Base64Error or JsonError, got {err:?}"
    );
}

#[test]
fn token_format_has_two_parts() {
    let payload = future_payload(1, 1);
    let token = generate_token(&payload, SECRET);
    let parts: Vec<&str> = token.split('.').collect();
    assert_eq!(parts.len(), 2, "token must have exactly two '.'-separated parts");
}

#[test]
fn token_signature_is_hex_sha256() {
    let payload = future_payload(1, 1);
    let token = generate_token(&payload, SECRET);
    let (_payload_b64, sig_hex) = token.split_once('.').unwrap();
    assert_eq!(sig_hex.len(), 64, "HMAC-SHA256 signature must be 64 hex chars");
    assert!(sig_hex.chars().all(|c| c.is_ascii_hexdigit()), "signature must be lowercase hex");
}

#[test]
fn hex_decode_valid() {
    assert_eq!(hex_decode("0123456789abcdef"), Some(vec![0x01, 0x23, 0x45, 0x67, 0x89, 0xab, 0xcd, 0xef]));
}

#[test]
fn hex_decode_empty() {
    assert_eq!(hex_decode(""), Some(vec![]));
}

#[test]
fn hex_decode_odd_length() {
    assert_eq!(hex_decode("abc"), None);
}

#[test]
fn hex_decode_invalid_chars() {
    assert_eq!(hex_decode("zzzz"), None);
}

#[test]
fn constant_time_eq_equal() {
    assert!(constant_time_eq(b"hello", b"hello"));
}

#[test]
fn constant_time_eq_different() {
    assert!(!constant_time_eq(b"hello", b"world"));
}

#[test]
fn constant_time_eq_different_lengths() {
    assert!(!constant_time_eq(b"short", b"longer"));
}

#[test]
fn constant_time_eq_empty() {
    assert!(constant_time_eq(b"", b""));
}

#[test]
fn nonce_cache_new_is_empty() {
    let cache = NonceCache::new(60);
    assert!(cache.is_empty());
    assert_eq!(cache.len(), 0);
}

#[test]
fn auth_error_display() {
    assert_eq!(AuthError::InvalidFormat.to_display_string(), "invalid token format");
    assert_eq!(AuthError::InvalidSignature.to_display_string(), "invalid HMAC signature");
    assert_eq!(AuthError::Expired(1_000_000).to_display_string(), "token expired at 1000000");
    assert_eq!(AuthError::NonceReused(42).to_display_string(), "nonce 42 already used (replay attack)");
    assert_eq!(AuthError::Base64Error("bad".into()).to_display_string(), "base64 decode error: bad");
    assert_eq!(AuthError::JsonError("oops".into()).to_display_string(), "json decode error: oops");
}

#[test]
fn payload_json_is_compact_and_escaped() {
    let p = TokenPayload { session_id: 1, relay_addr: "a\"b\\c\n\u{1}".into(), nonce: 2, expires_at: 3 };
    assert_eq!(
        payload_to_json(&p),
        "{\"session_id\":1,\"relay_addr\":\"a\\\"b\\\\c\\n\\u0001\",\"nonce\":2,\"expires_at\":3}"
    );
    let v: serde_json::Value = serde_json::from_str(&payload_to_json(&p)).unwrap();
    assert_eq!(v["relay_addr"], "a\"b\\c\n\u{1}");
}

#[test]
fn token_payload_part_is_standard_base64_of_json() {
    let p = future_payload(42, 12345);
    let token = generate_token(&p, SECRET);
    let (b64, _) = token.split_once('.').unwrap();
    let json = payload_to_json(&p);
    assert_eq!(json, "{\"session_id\":42,\"relay_addr\":\"10.0.0.1:3478\",\"nonce\":12345,\"expires_at\":4102444800}");
    let (bytes, _) = decode_token(&token).unwrap();
    assert_eq!(bytes, json.as_bytes());
    assert!(b64.len() % 4 == 0);
}

#[test]
fn check_token_accepts_until_expiry() {
    let p = future_payload(9, 9);
    let token = generate_token(&p, SECRET);
    let (_, sig) = decode_token(&token).unwrap();
    assert_eq!(check_token(p.clone(), &sig, SECRET, p.expires_at).unwrap(), p);
    assert!(matches!(check_token(p.clone(), &sig, SECRET, p.expires_at + 1), Err(AuthError::Expired(t)) if t == p.expires_at));
}

#[test]
fn hex_decode_accepts_uppercase_digits() {
    assert_eq!(hex_decode("ABcd"), Some(vec![0xab, 0xcd]));
}

#[test]
fn hex_decode_rejects_sign_and_non_ascii() {
    assert_eq!(hex_decode("+f"), None);
    assert_eq!(hex_decode("-f"), None);
    assert_eq!(hex_decode("a\u{e9}a"), None);
    assert_eq!(hex_decode("\u{e9}\u{e9}"), None);
    assert_eq!(hex_decode("0g"), None);
}

#[test]
fn check_token_rejects_non_hex_signature_as_format() {
    let p = future_payload(9, 9);
    assert!(matches!(check_token(p.clone(), "a\u{e9}a", SECRET, 0), Err(AuthError::InvalidFormat)));
    assert!(matches!(check_token(p, "+f", SECRET, 0), Err(AuthError::InvalidFormat)));
}

#[test]
fn nonce_cache_grows_by_one_per_fresh_nonce() {
    let mut cache = NonceCache::new(3600);
    assert_eq!(cache.len(), 0);
    cache.check_and_insert_at(42, 1000).unwrap();
    assert_eq!(cache.len(), 1);
    assert!(matches!(cache.check_and_insert_at(42, 1001), Err(AuthError::NonceReused(42))));
    assert_eq!(cache.len(), 1);
    cache.check_and_insert_at(43, 1002).unwrap();
    assert_eq!(cache.len(), 2);
}
