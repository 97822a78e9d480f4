//! Token payloads, replay protection and the byte-level helpers of relay
//! allocation tokens.
//!
//! Tokens are issued by the signaling server and verified by relay nodes in
//! the format `base64(json_payload) + "." + hex(hmac_signature)`; the HMAC
//! covers `session_id (u64 LE) || relay_addr (UTF-8) || nonce (u64 LE) ||
//! expires_at (u64 LE)`.
use std::collections::HashMap;
use std::time::SystemTime;
use base64::Engine;
use vstd::prelude::*;
use vstd::std_specs::iter::IteratorSpec;
use vstd::utf8::encode_utf8;
use vstd::string::StringSliceAdditionalSpecFns;
use crate::crypto::{hmac_sha256, hmac_sha256_digest};
use crate::relay::protocol::push_all;
use crate::signaling::relay_nodes::bytes_to_hex;
use crate::text::{decimal, hex_bytes, hex_digit_char, lemma_hex_bytes_index, lemma_hex_bytes_len, push_decimal, str_chars, digit_str};

verus! {

broadcast use vstd::std_specs::hash::group_hash_axioms;

#[verifier::external_type_specification]
#[verifier::external_body]
pub struct ExSystemTime(SystemTime);

/// Token payload embedded in relay allocation tokens.
#[derive(Debug, Clone, PartialEq, Eq)]
pub struct TokenPayload {
    /// Unique session identifier assigned by the signaling server.
    pub session_id: u64,
    /// Address of the relay node this token authorizes (e.g. `"10.0.0.1:3478"`).
    pub relay_addr: String,
    /// Random nonce for replay protection.
    pub nonce: u64,
    /// Token expiration as a Unix timestamp (seconds since epoch).
    pub expires_at: u64,
}

/// Errors that can occur during token verification.
#[derive(Debug)]
pub enum AuthError {
    InvalidFormat,
    InvalidSignature,
    Expired(u64),
    NonceReused(u64),
    Base64Error(String),
    JsonError(String),
}

/// The human-readable message of an authentication error.
pub open spec fn spec_auth_error_message(e: AuthError) -> Seq<char> {
    match e {
        AuthError::InvalidFormat => "invalid token format"@,
        AuthError::InvalidSignature => "invalid HMAC signature"@,
        AuthError::Expired(t) => "token expired at "@ + crate::text::decimal(t as nat),
        AuthError::NonceReused(n) => "nonce "@ + crate::text::decimal(n as nat)
            + " already used (replay attack)"@,
        AuthError::Base64Error(m) => "base64 decode error: "@ + m@,
        AuthError::JsonError(m) => "json decode error: "@ + m@,
    }
}

impl AuthError {
    /// The human-readable message of this error.
    pub fn to_display_string(&self) -> (s: String)
        ensures
            s@ == spec_auth_error_message(*self),
    {
        match self {
            AuthError::InvalidFormat => String::from_str("invalid token format"),
            AuthError::InvalidSignature => String::from_str("invalid HMAC signature"),
            AuthError::Expired(t) => {
                let mut s = String::from_str("token expired at ");
                crate::text::push_decimal(&mut s, *t);
                s
            },
            AuthError::NonceReused(n) => {
                let mut s = String::from_str("nonce ");
                crate::text::push_decimal(&mut s, *n);
                s.append(" already used (replay attack)");
                s
            },
            AuthError::Base64Error(m) => {
                let mut s = String::from_str("base64 decode error: ");
                s.append(m.as_str());
                s
            },
            AuthError::JsonError(m) => {
                let mut s = String::from_str("json decode error: ");
                s.append(m.as_str());
                s
            },
        }
    }
}

/// `std::time::SystemTime::now`: the current wall-clock time. Nothing is
/// stated of the value, which depends on the machine's clock.
#[verifier::external_body]
fn system_time_now() -> SystemTime {
    SystemTime::now()
}

/// `SystemTime::duration_since(UNIX_EPOCH)`, read as whole seconds. The
/// std documentation gives an error, here `None`, when `t` is earlier than
/// the Unix epoch. Nothing is stated of the value, which depends on `t`,
/// a clock reading that Verus cannot see into.
#[verifier::external_body]
fn secs_since_unix_epoch(t: SystemTime) -> Option<u64> {
    match t.duration_since(std::time::UNIX_EPOCH) {
        Ok(d) => Some(d.as_secs()),
        Err(_) => None,
    }
}

/// The current Unix time in seconds, or 0 when the clock reads a time
/// before the Unix epoch.
pub fn unix_now() -> u64 {
    match secs_since_unix_epoch(system_time_now()) {
        Some(secs) => secs,
        None => 0,
    }
}

/// `a - b`, stopping at zero.
pub open spec fn sat_sub_u64(a: u64, b: u64) -> u64 {
    if a >= b {
        (a - b) as u64
    } else {
        0
    }
}

/// An entry inserted at `ts` is still fresh at time `now`.
pub open spec fn is_fresh(now: u64, max_age: u64, ts: u64) -> bool {
    sat_sub_u64(now, ts) <= max_age
}

/// The nonces whose entries are no longer fresh at time `now`.
pub open spec fn stale_nonces(entries: Map<u64, u64>, now: u64, max_age: u64) -> Set<u64> {
    entries.dom().filter(|n: u64| !is_fresh(now, max_age, entries[n]))
}

/// The entries still fresh at time `now`.
pub open spec fn fresh_entries(entries: Map<u64, u64>, now: u64, max_age: u64) -> Map<u64, u64> {
    entries.remove_keys(stale_nonces(entries, now, max_age))
}

/// In-memory nonce cache with age-based expiry, for replay protection.
///
/// Each recorded nonce carries the Unix time at which it was inserted;
/// cleanup removes entries older than `max_age_secs`.
pub struct NonceCache {
    /// Each recorded nonce, with its insertion Unix timestamp.
    seen: HashMap<u64, u64>,
    /// Maximum age (seconds) before an entry is eligible for cleanup.
    max_age_secs: u64,
}

impl NonceCache {
    /// The recorded nonces, each with the Unix time at which it was inserted.
    pub closed spec fn entries(self) -> Map<u64, u64> {
        self.seen@
    }

    /// The maximum age of an entry, in seconds.
    pub closed spec fn max_age(self) -> u64 {
        self.max_age_secs
    }

    /// Create a new cache that retains entries for at most `max_age_secs`.
    pub fn new(max_age_secs: u64) -> (c: Self)
        ensures
            c.entries() == Map::<u64, u64>::empty(),
            c.max_age() == max_age_secs,
            c.entries().dom().finite(),
    {
        NonceCache { seen: HashMap::new(), max_age_secs }
    }

    /// Record `nonce` as used at time `now`, unless it was recorded before, in
    /// which case `NonceReused(nonce)` is returned and nothing changes.
    pub fn check_and_insert_at(&mut self, nonce: u64, now: u64) -> (r: Result<(), AuthError>)
        ensures
            final(self).max_age() == old(self).max_age(),
            old(self).entries().contains_key(nonce) ==> {
                &&& r matches Err(AuthError::NonceReused(n)) && n == nonce
                &&& final(self).entries() == old(self).entries()
            },
            !old(self).entries().contains_key(nonce) ==> {
                &&& r is Ok
                &&& final(self).entries() == old(self).entries().insert(nonce, now)
                &&& final(self).entries().len() == old(self).entries().len() + 1
            },
            final(self).entries().dom().finite(),
    {
        if self.seen.contains_key(&nonce) {
            return Err(AuthError::NonceReused(nonce));
        }
        self.seen.insert(nonce, now);
        Ok(())
    }

    /// Record `nonce` as used now, unless it was recorded before.
    pub fn check_and_insert(&mut self, nonce: u64) -> (r: Result<(), AuthError>)
        ensures
            final(self).max_age() == old(self).max_age(),
            old(self).entries().contains_key(nonce) ==> {
                &&& r matches Err(AuthError::NonceReused(n)) && n == nonce
                &&& final(self).entries() == old(self).entries()
            },
            !old(self).entries().contains_key(nonce) ==> {
                &&& r is Ok
                &&& exists|t: u64| final(self).entries() == old(self).entries().insert(nonce, t)
                &&& final(self).entries().len() == old(self).entries().len() + 1
            },
            final(self).entries().dom().finite(),
    {
        let now = unix_now();
        self.check_and_insert_at(nonce, now)
    }

    /// The nonces whose entries are no longer fresh at time `now`, each once.
    fn stale_at(&self, now: u64) -> (ids: Vec<u64>)
        ensures
            ids@.no_duplicates(),
            ids@.to_set() == stale_nonces(self.entries(), now, self.max_age()),
    {
        let m = &self.seen;
        let max_age = self.max_age_secs;
        let mut ids: Vec<u64> = Vec::new();
        let ghost keys = m.keys().remaining().unref();
        for k in it: m.keys()
            invariant
                it.seq().unref() == keys,
                keys.to_set() == m@.dom(),
                keys.no_duplicates(),
                ids@.no_duplicates(),
                forall|x: u64|
                    #[trigger] ids@.contains(x) <==> (keys.take(it.index() as int).contains(x) && !is_fresh(
                        now,
                        max_age,
                        m@[x],
                    )),
        {
            let ghost i = it.index() as int;
            let ghost kk = *k;
            proof {
                assert(keys[i] == kk);
                assert(!keys.take(i).contains(kk)) by {
                    if keys.take(i).contains(kk) {
                        let j = choose|j: int| 0 <= j < i && #[trigger] keys.take(i)[j] == kk;
                        assert(keys[j] == keys[i]);
                    }
                }
                assert(keys.to_set().contains(kk));
            }
            let ghost before = ids@;
            let ts = *m.get(k).unwrap();
            let stale = now.saturating_sub(ts) > max_age;
            if stale {
                ids.push(*k);
                proof {
                    assert(!before.contains(kk));
                    assert forall|a: int, b: int| 0 <= a < b < ids@.len() implies ids@[a] != ids@[b] by {
                        assert(before[a] == ids@[a]);
                        if b == before.len() {
                            assert(before.contains(before[a]));
                        } else {
                            assert(before[b] == ids@[b]);
                        }
                    }
                }
            }
            proof {
                assert forall|x: u64| #[trigger]
                    ids@.contains(x) <==> (keys.take(i + 1).contains(x) && !is_fresh(now, max_age, m@[x])) by {
                    if keys.take(i + 1).contains(x) && x != kk {
                        let j = choose|j: int| 0 <= j < i + 1 && #[trigger] keys.take(i + 1)[j] == x;
                        assert(keys.take(i)[j] == x);
                    }
                    if keys.take(i).contains(x) {
                        let j = choose|j: int| 0 <= j < i && #[trigger] keys.take(i)[j] == x;
                        assert(keys.take(i + 1)[j] == x);
                    }
                    if x == kk {
                        assert(keys.take(i + 1)[i] == kk);
                        if stale {
                            assert(ids@[before.len() as int] == kk);
                        }
                    }
                    if ids@.contains(x) && x != kk {
                        let j = choose|j: int| 0 <= j < ids@.len() && ids@[j] == x;
                        assert(j < before.len());
                        assert(before[j] == x);
                    }
                    if before.contains(x) {
                        let j = choose|j: int| 0 <= j < before.len() && before[j] == x;
                        assert(ids@[j] == x);
                    }
                }
            }
        }
        proof {
            assert(keys.take(keys.len() as int) =~= keys);
            assert forall|x: u64| #[trigger]
                ids@.to_set().contains(x) <==> stale_nonces(m@, now, max_age).contains(x) by {
                assert(keys.to_set().contains(x) <==> keys.contains(x));
            }
            assert(ids@.to_set() =~= stale_nonces(m@, now, max_age));
        }
        ids
    }

    /// Remove the entries whose age at time `now` exceeds `max_age_secs`.
    pub fn cleanup_expired_at(&mut self, now: u64)
        ensures
            final(self).max_age() == old(self).max_age(),
            final(self).entries() == fresh_entries(old(self).entries(), now, old(self).max_age()),
            final(self).entries().dom().finite(),
    {
        let ghost src = self.seen@;
        let stale = self.stale_at(now);
        let n = stale.len();
        let mut j: usize = 0;
        while j < n
            invariant
                n == stale@.len(),
                stale@.no_duplicates(),
                stale@.to_set() == stale_nonces(src, now, self.max_age_secs),
                self.max_age_secs == old(self).max_age_secs,
                j <= n,
                self.seen@ == src.remove_keys(stale@.take(j as int).to_set()),
            decreases n - j,
        {
            let id = stale[j];
            proof {
                assert(stale@.take(j + 1).to_set() =~= stale@.take(j as int).to_set().insert(id)) by {
                    assert forall|x: u64| #[trigger] stale@.take(j + 1).to_set().contains(x)
                        <==> stale@.take(j as int).to_set().insert(id).contains(x) by {
                        if stale@.take(j + 1).contains(x) && x != id {
                            let k = choose|k: int| 0 <= k < j + 1 && #[trigger] stale@.take(j + 1)[k] == x;
                            assert(stale@.take(j as int)[k] == x);
                        }
                        if stale@.take(j as int).contains(x) {
                            let k = choose|k: int| 0 <= k < j && #[trigger] stale@.take(j as int)[k] == x;
                            assert(stale@.take(j + 1)[k] == x);
                        }
                        if x == id {
                            assert(stale@.take(j + 1)[j as int] == id);
                        }
                    }
                }
                assert(src.remove_keys(stale@.take(j as int).to_set()).remove(id) =~= src.remove_keys(
                    stale@.take(j + 1).to_set(),
                ));
            }
            self.seen.remove(&id);
            j += 1;
        }
        proof {
            assert(stale@.take(n as int) =~= stale@);
            assert(self.seen@ =~= fresh_entries(src, now, self.max_age_secs));
        }
    }

    /// Remove the entries older than `max_age_secs`, measured now.
    pub fn cleanup_expired(&mut self)
        ensures
            final(self).max_age() == old(self).max_age(),
            exists|now: u64|
                final(self).entries() == #[trigger] fresh_entries(old(self).entries(), now, old(self).max_age()),
            final(self).entries().dom().finite(),
    {
        let now = unix_now();
        self.cleanup_expired_at(now);
    }

    /// Number of nonces currently in the cache.
    pub fn len(&self) -> (n: usize)
        ensures
            n == self.entries().len(),
            self.entries().dom().finite(),
    {
        self.seen.len()
    }

    /// Whether the cache is empty.
    pub fn is_empty(&self) -> (b: bool)
        ensures
            b == (self.entries().len() == 0),
    {
        self.seen.len() == 0
    }
}

/// A nonce that was just recorded is refused on its next use.
pub proof fn lemma_recorded_nonce_is_reused(entries: Map<u64, u64>, nonce: u64, now: u64)
    ensures
        entries.insert(nonce, now).contains_key(nonce),
{
}

/// Cleanup keeps every entry that is still fresh, with its timestamp, and
/// drops every entry that is not.
pub proof fn lemma_cleanup_keeps_exactly_fresh(entries: Map<u64, u64>, now: u64, max_age: u64, nonce: u64)
    ensures
        fresh_entries(entries, now, max_age).contains_key(nonce) <==> (entries.contains_key(nonce) && is_fresh(
            now,
            max_age,
            entries[nonce],
        )),
        fresh_entries(entries, now, max_age).contains_key(nonce) ==> fresh_entries(entries, now, max_age)[nonce]
            == entries[nonce],
{
}

/// The value of one hexadecimal digit byte (`0-9`, `a-f`, `A-F`).
pub open spec fn hex_val(b: u8) -> Option<u8> {
    if 0x30 <= b <= 0x39 {
        Some((b - 0x30) as u8)
    } else if 0x61 <= b <= 0x66 {
        Some((b - 0x61 + 10) as u8)
    } else if 0x41 <= b <= 0x46 {
        Some((b - 0x41 + 10) as u8)
    } else {
        None
    }
}

/// The byte that a two-character chunk stands for: both characters must be
/// hexadecimal digits, high digit first.
pub open spec fn hex_pair(b0: u8, b1: u8) -> Option<u8> {
    match (hex_val(b0), hex_val(b1)) {
        (Some(h), Some(l)) => Some((h * 16 + l) as u8),
        _ => None,
    }
}

/// Decode the chunks of `b` starting at byte `i`.
pub open spec fn hex_decode_from(b: Seq<u8>, i: int) -> Option<Seq<u8>>
    decreases b.len() - i,
{
    if i < 0 || i + 2 > b.len() {
        Some(Seq::empty())
    } else {
        match hex_pair(b[i], b[i + 1]) {
            None => None,
            Some(v) => match hex_decode_from(b, i + 2) {
                Some(rest) => Some(seq![v] + rest),
                None => None,
            },
        }
    }
}

/// What `hex_decode` returns for the UTF-8 bytes `b` of its input.
pub open spec fn spec_hex_decode(b: Seq<u8>) -> Option<Seq<u8>> {
    if b.len() % 2 != 0 {
        None
    } else {
        hex_decode_from(b, 0)
    }
}

/// The value of one hexadecimal digit byte.
fn hex_digit_value(b: u8) -> (r: Option<u8>)
    ensures
        r == hex_val(b),
{
    if 0x30 <= b && b <= 0x39 {
        Some(b - 0x30)
    } else if 0x61 <= b && b <= 0x66 {
        Some(b - 0x61 + 10)
    } else if 0x41 <= b && b <= 0x46 {
        Some(b - 0x41 + 10)
    } else {
        None
    }
}

/// Parse one two-byte chunk.
fn parse_hex_pair(b0: u8, b1: u8) -> (r: Option<u8>)
    ensures
        r == hex_pair(b0, b1),
{
    match (hex_digit_value(b0), hex_digit_value(b1)) {
        (Some(h), Some(l)) => Some(h * 16 + l),
        _ => None,
    }
}

/// Decode a hex string into bytes, two characters per byte. Returns `None`
/// for invalid input: an odd number of bytes, or any byte that is not an
/// ASCII hexadecimal digit (a multi-byte character included).
pub fn hex_decode(hex: &str) -> (r: Option<Vec<u8>>)
    ensures
        match r {
            Some(v) => spec_hex_decode(hex.spec_bytes()) == Some(v@),
            None => spec_hex_decode(hex.spec_bytes()) is None,
        },
{
    let b = hex.as_bytes();
    let len = b.len();
    if len % 2 != 0 {
        return None;
    }
    let mut out: Vec<u8> = Vec::with_capacity(len / 2);
    let mut i: usize = 0;
    while i < len
        invariant
            len == b@.len(),
            b@ == hex.spec_bytes(),
            len % 2 == 0,
            i % 2 == 0,
            i <= len,
            hex_decode_from(b@, 0) == match hex_decode_from(b@, i as int) {
                Some(rest) => Some(out@ + rest),
                None => None::<Seq<u8>>,
            },
        decreases len - i,
    {
        match parse_hex_pair(b[i], b[i + 1]) {
            None => {
                return None;
            },
            Some(v) => {
                proof {
                    let rest = hex_decode_from(b@, i + 2);
                    if let Some(r2) = rest {
                        assert(out@ + (seq![v] + r2) =~= out@.push(v) + r2);
                    }
                }
                out.push(v);
            },
        }
        i += 2;
    }
    assert(out@ + Seq::<u8>::empty() =~= out@);
    Some(out)
}

/// Compare two byte slices in time that depends only on their lengths.
pub fn constant_time_eq(a: &[u8], b: &[u8]) -> (r: bool)
    ensures
        r == (a@ == b@),
{
    if a.len() != b.len() {
        return false;
    }
    let n = a.len();
    let mut acc: u8 = 0;
    let mut i: usize = 0;
    while i < n
        invariant
            n == a@.len(),
            n == b@.len(),
            i <= n,
            (acc == 0) == (forall|k: int| 0 <= k < i ==> a@[k] == b@[k]),
        decreases n - i,
    {
        let x = a[i];
        let y = b[i];
        let acc2 = acc | (x ^ y);
        assert((acc2 == 0) == (acc == 0 && x == y)) by (bit_vector)
            requires
                acc2 == acc | (x ^ y),
        ;
        proof {
            if acc2 == 0 {
                assert forall|k: int| 0 <= k < i + 1 implies a@[k] == b@[k] by {
                    if k < i {
                    } else {
                        assert(a@[k] == x && b@[k] == y);
                    }
                }
            }
        }
        acc = acc2;
        i += 1;
    }
    if acc == 0 {
        assert(a@ =~= b@);
        true
    } else {
        false
    }
}

/// The eight little-endian bytes of `n`.
pub open spec fn le64(n: u64) -> Seq<u8> {
    seq![
        (n % 0x100) as u8,
        ((n / 0x100) % 0x100) as u8,
        ((n / 0x1_0000) % 0x100) as u8,
        ((n / 0x100_0000) % 0x100) as u8,
        ((n / 0x1_0000_0000) % 0x100) as u8,
        ((n / 0x100_0000_0000) % 0x100) as u8,
        ((n / 0x1_0000_0000_0000) % 0x100) as u8,
        ((n / 0x100_0000_0000_0000) % 0x100) as u8,
    ]
}

/// The bytes that the HMAC of a token covers:
/// `session_id (8 LE) || relay_addr (UTF-8) || nonce (8 LE) || expires_at (8 LE)`.
pub open spec fn hmac_message(p: TokenPayload) -> Seq<u8> {
    le64(p.session_id) + encode_utf8(p.relay_addr@) + le64(p.nonce) + le64(p.expires_at)
}

/// Append the eight little-endian bytes of `n`.
fn push_le64(out: &mut Vec<u8>, n: u64)
    ensures
        final(out)@ == old(out)@ + le64(n),
{
    out.push((n % 0x100) as u8);
    out.push(((n / 0x100) % 0x100) as u8);
    out.push(((n / 0x1_0000) % 0x100) as u8);
    out.push(((n / 0x100_0000) % 0x100) as u8);
    out.push(((n / 0x1_0000_0000) % 0x100) as u8);
    out.push(((n / 0x100_0000_0000) % 0x100) as u8);
    out.push(((n / 0x1_0000_0000_0000) % 0x100) as u8);
    out.push(((n / 0x100_0000_0000_0000) % 0x100) as u8);
    assert(final(out)@ =~= old(out)@ + le64(n));
}

/// Build the byte sequence that the HMAC covers.
fn hmac_message_bytes(p: &TokenPayload) -> (m: Vec<u8>)
    ensures
        m@ == hmac_message(*p),
{
    let mut buf: Vec<u8> = Vec::new();
    push_le64(&mut buf, p.session_id);
    push_all(&mut buf, p.relay_addr.as_str().as_bytes());
    push_le64(&mut buf, p.nonce);
    push_le64(&mut buf, p.expires_at);
    assert(buf@ =~= hmac_message(*p));
    buf
}

/// The HMAC-SHA256 of the token's message under `secret`.
fn compute_hmac(p: &TokenPayload, secret: &[u8]) -> (tag: Vec<u8>)
    ensures
        tag@ == hmac_sha256(secret@, hmac_message(*p)),
        tag@.len() == 32,
{
    let msg = hmac_message_bytes(p);
    hmac_sha256_digest(secret, msg.as_slice())
}

/// The JSON string-escape of one character, as `serde_json` writes it: `"`
/// and `\` escaped by a backslash, the control characters by their short
/// forms or `\u00XX`, everything else as itself.
pub open spec fn json_escape_char(c: char) -> Seq<char> {
    if c == '"' {
        seq!['\\', '"']
    } else if c == '\\' {
        seq!['\\', '\\']
    } else if c == '\x08' {
        seq!['\\', 'b']
    } else if c == '\t' {
        seq!['\\', 't']
    } else if c == '\n' {
        seq!['\\', 'n']
    } else if c == '\x0c' {
        seq!['\\', 'f']
    } else if c == '\r' {
        seq!['\\', 'r']
    } else if (c as u32) < 0x20 {
        seq!['\\', 'u', '0', '0', hex_digit_char((c as u32 / 16) as nat), hex_digit_char((c as u32 % 16) as nat)]
    } else {
        seq![c]
    }
}

/// The JSON string-escape of every character, concatenated.
pub open spec fn json_escaped(s: Seq<char>) -> Seq<char>
    decreases s.len(),
{
    if s.len() == 0 {
        Seq::empty()
    } else {
        json_escaped(s.drop_last()) + json_escape_char(s.last())
    }
}

/// The compact JSON object of a payload, fields in declaration order, as
/// `serde_json::to_string` writes it.
pub open spec fn payload_json(p: TokenPayload) -> Seq<char> {
    "{\"session_id\":"@ + decimal(p.session_id as nat) + ",\"relay_addr\":\""@ + json_escaped(p.relay_addr@)
        + "\",\"nonce\":"@ + decimal(p.nonce as nat) + ",\"expires_at\":"@ + decimal(p.expires_at as nat) + "}"@
}

/// `String::push`: append one character.
#[verifier::external_body]
fn push_char(out: &mut String, c: char)
    ensures
        final(out)@ == old(out)@.push(c),
{
    out.push(c);
}

/// Append the JSON string-escape of one character.
fn push_json_escaped_char(out: &mut String, c: char)
    ensures
        final(out)@ == old(out)@ + json_escape_char(c),
{
    if c == '"' {
        out.append("\\\"");
    } else if c == '\\' {
        out.append("\\\\");
    } else if c == '\x08' {
        out.append("\\b");
    } else if c == '\t' {
        out.append("\\t");
    } else if c == '\n' {
        out.append("\\n");
    } else if c == '\x0c' {
        out.append("\\f");
    } else if c == '\r' {
        out.append("\\r");
    } else if (c as u32) < 0x20 {
        out.append("\\u00");
        let v = c as u32;
        out.append(digit_str((v / 16) as u8));
        out.append(digit_str((v % 16) as u8));
    } else {
        push_char(out, c);
    }
    proof {
        reveal_strlit("\\\"");
        reveal_strlit("\\\\");
        reveal_strlit("\\b");
        reveal_strlit("\\t");
        reveal_strlit("\\n");
        reveal_strlit("\\f");
        reveal_strlit("\\r");
        reveal_strlit("\\u00");
    }
    assert(final(out)@ =~= old(out)@ + json_escape_char(c));
}

/// Append the JSON string-escape of every character of `s`.
fn push_json_escaped(out: &mut String, s: &str)
    ensures
        final(out)@ == old(out)@ + json_escaped(s@),
{
    let chars = str_chars(s);
    let n = chars.len();
    let ghost start = out@;
    let mut i: usize = 0;
    while i < n
        invariant
            n == chars@.len(),
            chars@ == s@,
            i <= n,
            out@ == start + json_escaped(s@.take(i as int)),
        decreases n - i,
    {
        push_json_escaped_char(out, chars[i]);
        proof {
            assert(s@.take(i + 1).drop_last() =~= s@.take(i as int));
            assert(start + json_escaped(s@.take(i as int)) + json_escape_char(s@[i as int]) =~= start
                + json_escaped(s@.take(i + 1)));
        }
        i += 1;
    }
    assert(s@.take(n as int) =~= s@);
}

/// The compact JSON text of a payload.
pub fn payload_to_json(p: &TokenPayload) -> (json: String)
    ensures
        json@ == payload_json(*p),
{
    let mut s = String::from_str("{\"session_id\":");
    push_decimal(&mut s, p.session_id);
    s.append(",\"relay_addr\":\"");
    push_json_escaped(&mut s, p.relay_addr.as_str());
    s.append("\",\"nonce\":");
    push_decimal(&mut s, p.nonce);
    s.append(",\"expires_at\":");
    push_decimal(&mut s, p.expires_at);
    s.append("}");
    assert(s@ =~= payload_json(*p));
    s
}

/// What `base64::engine::general_purpose::STANDARD.encode` gives for the
/// given bytes.
pub uninterp spec fn base64_standard(bytes: Seq<u8>) -> Seq<char>;

/// What `base64::engine::general_purpose::STANDARD.decode` gives for the
/// given text (`None` for its errors).
pub uninterp spec fn base64_standard_decoded(text: Seq<char>) -> Option<Seq<u8>>;

/// `STANDARD.encode(bytes)`: the padded standard base64 text of the bytes,
/// named `base64_standard`; decoding it gives the bytes back (the crate's
/// round trip), and it holds no `.` (the standard alphabet is `A-Z`, `a-z`,
/// `0-9`, `+`, `/`, with `=` for padding). The encoder panics when the length of the text
/// would not fit in a `usize`; the bound keeps the input below that.
#[verifier::external_body]
fn base64_encode(bytes: &[u8]) -> (text: String)
    requires
        bytes@.len() <= usize::MAX / 2,
    ensures
        text@ == base64_standard(bytes@),
        base64_standard_decoded(text@) == Some(bytes@),
        !text@.contains('.'),
{
    base64::engine::general_purpose::STANDARD.encode(bytes)
}

/// `STANDARD.decode(text)`: the bytes of a padded standard base64 text,
/// named `base64_standard_decoded`, or the text of the `DecodeError`.
/// Nothing is stated of the error's text.
#[verifier::external_body]
fn base64_decode(text: &str) -> (r: Result<Vec<u8>, String>)
    ensures
        r matches Ok(v) ==> base64_standard_decoded(text@) == Some(v@),
        r is Err ==> base64_standard_decoded(text@) is None,
{
    match base64::engine::general_purpose::STANDARD.decode(text) {
        Ok(v) => Ok(v),
        Err(e) => Err(e.to_string()),
    }
}

/// The text of a token: `base64(json_payload) + "." + hex(hmac_signature)`.
pub open spec fn token_text(p: TokenPayload, secret: Seq<u8>) -> Seq<char> {
    base64_standard(encode_utf8(payload_json(p))) + "."@ + hex_bytes(hmac_sha256(secret, hmac_message(p)))
}

/// Generate an HMAC-SHA256 token for relay session allocation:
/// `base64(json_payload) + "." + hex(hmac_signature)`, where the HMAC covers
/// `session_id || relay_addr || nonce || expires_at` (see `hmac_message`).
pub fn generate_token(payload: &TokenPayload, secret: &[u8]) -> (t: String)
    requires
        encode_utf8(payload_json(*payload)).len() <= usize::MAX / 2,
    ensures
        t@ == token_text(*payload, secret@),
        spec_open_token(t@) == Some(
            Ok::<(Seq<u8>, Seq<char>), ()>(
                (encode_utf8(payload_json(*payload)), hex_bytes(hmac_sha256(secret@, hmac_message(*payload)))),
            ),
        ),
{
    let json = payload_to_json(payload);
    let payload_b64 = base64_encode(json.as_str().as_bytes());
    let sig = compute_hmac(payload, secret);
    let sig_hex = bytes_to_hex(sig.as_slice());
    let ghost head = payload_b64@;
    let mut t = payload_b64;
    t.append(".");
    t.append(sig_hex.as_str());
    proof {
        reveal_strlit(".");
        let k = head.len() as int;
        assert(t@[k] == '.');
        assert forall|j: int| 0 <= j < k implies t@[j] != '.' by {
            assert(t@[j] == head[j]);
            if head[j] == '.' {
                assert(head.contains('.'));
            }
        }
        assert(exists|i: int| 0 <= i < t@.len() && t@[i] == '.');
        let c = choose|i: int| 0 <= i < t@.len() && t@[i] == '.' && forall|j: int| 0 <= j < i ==> t@[j] != '.';
        assert(c == k) by {
            if c < k {
                assert(t@[c] != '.');
            } else if c > k {
                assert(t@[k] != '.');
            }
        }
        assert(t@.take(k) =~= head);
        assert(t@.skip(k + 1) =~= sig_hex@);
    }
    t
}

/// The index of the first `.` of `s`, if any.
pub open spec fn first_dot(s: Seq<char>) -> Option<int> {
    if exists|i: int| 0 <= i < s.len() && s[i] == '.' {
        Some(choose|i: int| 0 <= i < s.len() && s[i] == '.' && forall|j: int| 0 <= j < i ==> s[j] != '.')
    } else {
        None
    }
}

/// What taking a token apart gives: the text before the first `.`, base64
/// decoded, and the text after it; `InvalidFormat` without a `.`;
/// `Base64Error` when the first part does not decode.
pub open spec fn spec_open_token(t: Seq<char>) -> Option<Result<(Seq<u8>, Seq<char>), ()>> {
    match first_dot(t) {
        None => None,
        Some(i) => match base64_standard_decoded(t.take(i)) {
            None => Some(Err(())),
            Some(b) => Some(Ok((b, t.skip(i + 1)))),
        },
    }
}

/// Take a token apart at its first `.`: the base64-decoded payload bytes
/// (the JSON text of the payload) and the hexadecimal signature text.
pub fn decode_token(token: &str) -> (r: Result<(Vec<u8>, String), AuthError>)
    ensures
        match spec_open_token(token@) {
            None => r matches Err(AuthError::InvalidFormat),
            Some(Err(_)) => r matches Err(AuthError::Base64Error(_)),
            Some(Ok((b, sig))) => r matches Ok((v, s)) && v@ == b && s@ == sig,
        },
{
    let chars = str_chars(token);
    let n = chars.len();
    let mut i: usize = 0;
    while i < n && chars[i] != '.'
        invariant
            n == chars@.len(),
            chars@ == token@,
            i <= n,
            forall|j: int| 0 <= j < i ==> token@[j] != '.',
        decreases n - i,
    {
        i += 1;
    }
    if i == n {
        proof {
            assert(!(exists|k: int| 0 <= k < token@.len() && token@[k] == '.'));
        }
        return Err(AuthError::InvalidFormat);
    }
    proof {
        assert(chars@[i as int] == '.');
        assert(exists|k: int| 0 <= k < token@.len() && token@[k] == '.');
        let k = choose|k: int| 0 <= k < token@.len() && token@[k] == '.' && forall|j: int| 0 <= j < k ==> token@[j] != '.';
        assert(k == i) by {
            if k < i {
                assert(token@[k] != '.');
            } else if k > i {
                assert(token@[i as int] != '.');
            }
        }
    }
    let head = token.substring_char(0, i);
    let tail = token.substring_char(i + 1, n);
    assert(head@ =~= token@.take(i as int));
    assert(tail@ =~= token@.skip(i + 1));
    match base64_decode(head) {
        Err(m) => Err(AuthError::Base64Error(m)),
        Ok(bytes) => Ok((bytes, tail.to_string())),
    }
}

/// What checking a decoded token gives at time `now`: `InvalidFormat` when
/// the signature is not hexadecimal, `InvalidSignature` when it is not the
/// HMAC of the payload under `secret`, `Expired` when `now` is past the
/// expiry, else the payload.
pub open spec fn spec_check_token(p: TokenPayload, sig: Seq<u8>, secret: Seq<u8>, now: u64) -> Result<(), AuthError> {
    match spec_hex_decode(sig) {
        None => Err(AuthError::InvalidFormat),
        Some(expected) => if hmac_sha256(secret, hmac_message(p)) != expected {
            Err(AuthError::InvalidSignature)
        } else if now > p.expires_at {
            Err(AuthError::Expired(p.expires_at))
        } else {
            Ok(())
        },
    }
}

/// Check a decoded token at time `now`: the signature (hexadecimal) must be
/// the HMAC of the payload under `secret`, compared in constant time, and
/// the token must not have expired.
pub fn check_token(payload: TokenPayload, sig_hex: &str, secret: &[u8], now: u64) -> (r: Result<TokenPayload, AuthError>)
    ensures
        match spec_check_token(payload, sig_hex.spec_bytes(), secret@, now) {
            Ok(()) => r == Ok::<TokenPayload, AuthError>(payload),
            Err(AuthError::InvalidFormat) => r matches Err(AuthError::InvalidFormat),
            Err(AuthError::InvalidSignature) => r matches Err(AuthError::InvalidSignature),
            Err(AuthError::Expired(t)) => r matches Err(AuthError::Expired(u)) && u == t,
            Err(_) => false,
        },
{
    let expected = match hex_decode(sig_hex) {
        None => {
            return Err(AuthError::InvalidFormat);
        },
        Some(v) => v,
    };
    let actual = compute_hmac(&payload, secret);
    if !constant_time_eq(actual.as_slice(), expected.as_slice()) {
        return Err(AuthError::InvalidSignature);
    }
    if now > payload.expires_at {
        return Err(AuthError::Expired(payload.expires_at));
    }
    Ok(payload)
}

/// A hexadecimal digit character, as a byte, parses back to its value.
proof fn lemma_hex_digit_parses(d: nat)
    requires
        d < 16,
    ensures
        '\0' <= hex_digit_char(d) <= '\u{7f}',
        hex_val(hex_digit_char(d) as u8) == Some(d as u8),
{
}

/// The UTF-8 bytes of `hex_bytes(x)` are its characters, each below 0x80.
proof fn lemma_hex_text_bytes(x: Seq<u8>)
    ensures
        encode_utf8(hex_bytes(x)).len() == 2 * x.len(),
        forall|j: int|
            0 <= j < x.len() ==> hex_pair(
                #[trigger] encode_utf8(hex_bytes(x))[2 * j],
                encode_utf8(hex_bytes(x))[2 * j + 1],
            ) == Some(x[j]),
{
    let h = hex_bytes(x);
    lemma_hex_bytes_len(x);
    assert(vstd::utf8::is_ascii_chars(h)) by {
        assert forall|i: int| 0 <= i < h.len() implies '\0' <= #[trigger] h[i] <= '\u{7f}' by {
            let j = i / 2;
            lemma_hex_bytes_index(x, j);
            lemma_hex_digit_parses(x[j] as nat / 16);
            lemma_hex_digit_parses(x[j] as nat % 16);
        }
    }
    vstd::utf8::is_ascii_chars_encode_utf8(h);
    assert forall|j: int| 0 <= j < x.len() implies hex_pair(
        #[trigger] encode_utf8(h)[2 * j],
        encode_utf8(h)[2 * j + 1],
    ) == Some(x[j]) by {
        lemma_hex_bytes_index(x, j);
        lemma_hex_digit_parses(x[j] as nat / 16);
        lemma_hex_digit_parses(x[j] as nat % 16);
        assert(encode_utf8(h)[2 * j] == h[2 * j] as u8);
        assert(encode_utf8(h)[2 * j + 1] == h[2 * j + 1] as u8);
        assert((x[j] as nat / 16) * 16 + x[j] as nat % 16 == x[j]);
    }
}

/// Decoding from chunk `j` on gives the bytes from `j` on.
proof fn lemma_hex_decode_from_text(x: Seq<u8>, j: int)
    requires
        0 <= j <= x.len(),
    ensures
        hex_decode_from(encode_utf8(hex_bytes(x)), 2 * j) == Some(x.skip(j)),
    decreases x.len() - j,
{
    lemma_hex_text_bytes(x);
    let b = encode_utf8(hex_bytes(x));
    if j == x.len() {
        assert(x.skip(j) =~= Seq::<u8>::empty());
    } else {
        lemma_hex_decode_from_text(x, j + 1);
        assert(hex_pair(b[2 * j], b[2 * j + 1]) == Some(x[j]));
        assert(seq![x[j]] + x.skip(j + 1) =~= x.skip(j));
    }
}

/// Law: the hexadecimal text of any bytes decodes back to those bytes.
pub proof fn lemma_hex_roundtrip(x: Seq<u8>)
    ensures
        spec_hex_decode(encode_utf8(hex_bytes(x))) == Some(x),
{
    lemma_hex_text_bytes(x);
    lemma_hex_decode_from_text(x, 0);
    assert(x.skip(0) =~= x);
}

/// Law: a payload signed with a secret passes the signature check with the
/// same secret until it expires, and then fails with `Expired`.
pub proof fn lemma_signed_payload_checks(p: TokenPayload, secret: Seq<u8>, now: u64)
    ensures
        now <= p.expires_at ==> spec_check_token(
            p,
            encode_utf8(hex_bytes(hmac_sha256(secret, hmac_message(p)))),
            secret,
            now,
        ) == Ok::<(), AuthError>(()),
        now > p.expires_at ==> spec_check_token(
            p,
            encode_utf8(hex_bytes(hmac_sha256(secret, hmac_message(p)))),
            secret,
            now,
        ) == Err::<(), AuthError>(AuthError::Expired(p.expires_at)),
{
    lemma_hex_roundtrip(hmac_sha256(secret, hmac_message(p)));
}

} // verus!
