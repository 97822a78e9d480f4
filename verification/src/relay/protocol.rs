//! RDCS relay binary protocol: message types, parser, and encoders.
//!
//! Packet layout (16-byte header):
//!
//! ```text
//! Offset  Size  Field
//! 0..4    4     magic    — must equal MAGIC (b"RDCS")
//! 4       1     version  — protocol version (currently 1)
//! 5       1     msg_type — 0x01=Allocate, 0x02=Release, 0x03=Keepalive, 0x04=Data
//! 6..8    2     reserved — zero
//! 8..16   8     session_id — little-endian u64
//! ```
//!
//! Allocate is followed by `[16..18] token_len (u16 LE)` and the token bytes.
//! Data is followed by the raw payload (the rest of the datagram).
use vstd::prelude::*;
use vstd::bytes::*;
use crate::text::{decimal, hex_min, push_decimal, push_hex_min};

verus! {

/// Magic bytes identifying an RDCS relay packet: ASCII `RDCS`.
pub const MAGIC: [u8; 4] = [0x52, 0x44, 0x43, 0x53];

/// Current protocol version.
pub const VERSION: u8 = 1;

/// Maximum allowed token length in bytes.
pub const MAX_TOKEN_LEN: u16 = 1024;

/// Message type byte of an Allocate packet.
pub const MSG_ALLOCATE: u8 = 0x01;
/// Message type byte of a Release packet.
pub const MSG_RELEASE: u8 = 0x02;
/// Message type byte of a Keepalive packet.
pub const MSG_KEEPALIVE: u8 = 0x03;
/// Message type byte of a Data packet.
pub const MSG_DATA: u8 = 0x04;

/// Header size in bytes.
pub const HEADER_LEN: usize = 16;

/// Messages exchanged over the relay UDP control channel.
#[derive(Debug, Clone, PartialEq)]
pub enum RelayMessage {
    /// Request a relay port allocation, authenticated by an HMAC token.
    Allocate { session_id: u64, token: Vec<u8> },
    /// Release a previously allocated relay port.
    Release { session_id: u64 },
    /// Keep the allocation alive (heartbeat).
    Keepalive { session_id: u64 },
    /// Forward raw data through the relay; the payload follows the header.
    Data { session_id: u64 },
}

/// Mathematical view of a [`RelayMessage`].
pub enum MessageView {
    Allocate { session_id: u64, token: Seq<u8> },
    Release { session_id: u64 },
    Keepalive { session_id: u64 },
    Data { session_id: u64 },
}

impl View for RelayMessage {
    type V = MessageView;

    open spec fn view(&self) -> MessageView {
        match self {
            RelayMessage::Allocate { session_id, token } => MessageView::Allocate {
                session_id: *session_id,
                token: token@,
            },
            RelayMessage::Release { session_id } => MessageView::Release { session_id: *session_id },
            RelayMessage::Keepalive { session_id } => MessageView::Keepalive {
                session_id: *session_id,
            },
            RelayMessage::Data { session_id } => MessageView::Data { session_id: *session_id },
        }
    }
}

/// Errors that can occur while parsing a relay packet.
#[derive(Debug, Clone, Copy, PartialEq, Eq, Structural)]
pub enum ProtocolError {
    InvalidMagic,
    UnknownType(u8),
    TooShort { expected: usize, actual: usize },
    InvalidTokenLength(u16),
}

/// The four magic bytes as a sequence.
pub open spec fn magic_seq() -> Seq<u8> {
    seq![0x52u8, 0x44u8, 0x43u8, 0x53u8]
}

/// The 16-byte header for a message of type `msg_type`.
pub open spec fn spec_header(msg_type: u8, session_id: u64) -> Seq<u8> {
    magic_seq() + seq![VERSION, msg_type, 0u8, 0u8] + spec_u64_to_le_bytes(session_id)
}

/// The packet that `encode_allocate` produces.
pub open spec fn spec_encode_allocate(session_id: u64, token: Seq<u8>) -> Seq<u8> {
    spec_header(MSG_ALLOCATE, session_id) + spec_u16_to_le_bytes(token.len() as u16) + token
}

/// The packet that `encode_data` produces.
pub open spec fn spec_encode_data(session_id: u64, payload: Seq<u8>) -> Seq<u8> {
    spec_header(MSG_DATA, session_id) + payload
}

/// What parsing `buf` yields: the message and the bytes that remain after it,
/// or the error.
pub open spec fn spec_parse(buf: Seq<u8>) -> Result<(MessageView, Seq<u8>), ProtocolError> {
    if buf.len() < HEADER_LEN {
        Err(ProtocolError::TooShort { expected: HEADER_LEN, actual: buf.len() as usize })
    } else if buf.subrange(0, 4) != magic_seq() {
        Err(ProtocolError::InvalidMagic)
    } else {
        let msg_type = buf[5];
        let session_id = spec_u64_from_le_bytes(buf.subrange(8, 16));
        if msg_type == MSG_ALLOCATE {
            if buf.len() < HEADER_LEN + 2 {
                Err(ProtocolError::TooShort { expected: (HEADER_LEN + 2) as usize, actual: buf.len() as usize })
            } else {
                let token_len = spec_u16_from_le_bytes(buf.subrange(16, 18));
                if token_len > MAX_TOKEN_LEN {
                    Err(ProtocolError::InvalidTokenLength(token_len))
                } else if buf.len() < 18 + token_len {
                    Err(ProtocolError::TooShort {
                        expected: (18 + token_len) as usize,
                        actual: buf.len() as usize,
                    })
                } else {
                    Ok((
                        MessageView::Allocate {
                            session_id,
                            token: buf.subrange(18, 18 + token_len),
                        },
                        buf.subrange(18 + token_len, buf.len() as int),
                    ))
                }
            }
        } else if msg_type == MSG_RELEASE {
            Ok((MessageView::Release { session_id }, buf.subrange(16, buf.len() as int)))
        } else if msg_type == MSG_KEEPALIVE {
            Ok((MessageView::Keepalive { session_id }, buf.subrange(16, buf.len() as int)))
        } else if msg_type == MSG_DATA {
            Ok((MessageView::Data { session_id }, Seq::empty()))
        } else {
            Err(ProtocolError::UnknownType(msg_type))
        }
    }
}

/// The view of a parse result.
pub open spec fn parse_result_view(r: Result<(RelayMessage, &[u8]), ProtocolError>) -> Result<
    (MessageView, Seq<u8>),
    ProtocolError,
> {
    match r {
        Ok((m, rest)) => Ok((m@, rest@)),
        Err(e) => Err(e),
    }
}

/// Parse a relay packet from `buf`.
///
/// Returns the parsed message and the bytes after the consumed part. For
/// Data messages the payload is implicit (the bytes after the header), and the
/// returned remainder is empty.
pub fn parse_message(buf: &[u8]) -> (r: Result<(RelayMessage, &[u8]), ProtocolError>)
    ensures
        parse_result_view(r) == spec_parse(buf@),
{
    let len = buf.len();
    if len < HEADER_LEN {
        return Err(ProtocolError::TooShort { expected: HEADER_LEN, actual: len });
    }
    if !(buf[0] == 0x52 && buf[1] == 0x44 && buf[2] == 0x43 && buf[3] == 0x53) {
        proof {
            if buf@.subrange(0, 4) == magic_seq() {
                assert(buf@.subrange(0, 4)[0] == buf@[0]);
                assert(buf@.subrange(0, 4)[1] == buf@[1]);
                assert(buf@.subrange(0, 4)[2] == buf@[2]);
                assert(buf@.subrange(0, 4)[3] == buf@[3]);
            }
        }
        return Err(ProtocolError::InvalidMagic);
    }
    assert(buf@.subrange(0, 4) =~= magic_seq());
    let msg_type = buf[5];
    let session_id = u64_from_le_bytes(&buf[8..16]);
    if msg_type == MSG_ALLOCATE {
        if len < HEADER_LEN + 2 {
            return Err(ProtocolError::TooShort { expected: HEADER_LEN + 2, actual: len });
        }
        let token_len = u16_from_le_bytes(&buf[16..18]);
        if token_len > MAX_TOKEN_LEN {
            return Err(ProtocolError::InvalidTokenLength(token_len));
        }
        let total: usize = HEADER_LEN + 2 + token_len as usize;
        if len < total {
            return Err(ProtocolError::TooShort { expected: total, actual: len });
        }
        let token = slice_to_vec_u8(&buf[18..total]);
        let rest = &buf[total..len];
        Ok((RelayMessage::Allocate { session_id, token }, rest))
    } else if msg_type == MSG_RELEASE {
        Ok((RelayMessage::Release { session_id }, &buf[HEADER_LEN..len]))
    } else if msg_type == MSG_KEEPALIVE {
        Ok((RelayMessage::Keepalive { session_id }, &buf[HEADER_LEN..len]))
    } else if msg_type == MSG_DATA {
        let rest = &buf[len..len];
        assert(rest@ =~= Seq::<u8>::empty());
        Ok((RelayMessage::Data { session_id }, rest))
    } else {
        Err(ProtocolError::UnknownType(msg_type))
    }
}

/// Copy a byte slice into a new vector.
pub fn slice_to_vec_u8(s: &[u8]) -> (v: Vec<u8>)
    ensures
        v@ == s@,
{
    let mut v: Vec<u8> = Vec::with_capacity(s.len());
    push_all(&mut v, s);
    assert(v@ =~= s@);
    v
}

/// Append every byte of `src` to `out`, in order.
pub fn push_all(out: &mut Vec<u8>, src: &[u8])
    ensures
        final(out)@ == old(out)@ + src@,
{
    let n = src.len();
    let mut i: usize = 0;
    while i < n
        invariant
            n == src@.len(),
            i <= n,
            out@ == old(out)@ + src@.subrange(0, i as int),
        decreases n - i,
    {
        out.push(src[i]);
        i += 1;
        assert(out@ =~= old(out)@ + src@.subrange(0, i as int));
    }
    assert(src@.subrange(0, n as int) =~= src@);
}

/// Build the common 16-byte header.
pub fn build_header(msg_type: u8, session_id: u64) -> (hdr: Vec<u8>)
    ensures
        hdr@ == spec_header(msg_type, session_id),
{
    let mut hdr: Vec<u8> = Vec::with_capacity(HEADER_LEN);
    hdr.push(0x52);
    hdr.push(0x44);
    hdr.push(0x43);
    hdr.push(0x53);
    hdr.push(VERSION);
    hdr.push(msg_type);
    hdr.push(0);
    hdr.push(0);
    let sid = u64_to_le_bytes(session_id);
    push_all(&mut hdr, sid.as_slice());
    assert(hdr@ =~= spec_header(msg_type, session_id));
    hdr
}

/// Encode an Allocate packet. The token length field holds the low 16 bits of
/// the token's length.
pub fn encode_allocate(session_id: u64, token: &[u8]) -> (out: Vec<u8>)
    ensures
        out@ == spec_encode_allocate(session_id, token@),
{
    let mut out = build_header(MSG_ALLOCATE, session_id);
    let len_bytes = u16_to_le_bytes(token.len() as u16);
    push_all(&mut out, len_bytes.as_slice());
    push_all(&mut out, token);
    out
}

/// Encode a Release packet.
pub fn encode_release(session_id: u64) -> (out: Vec<u8>)
    ensures
        out@ == spec_header(MSG_RELEASE, session_id),
{
    build_header(MSG_RELEASE, session_id)
}

/// Encode a Keepalive packet.
pub fn encode_keepalive(session_id: u64) -> (out: Vec<u8>)
    ensures
        out@ == spec_header(MSG_KEEPALIVE, session_id),
{
    build_header(MSG_KEEPALIVE, session_id)
}

/// Encode a Data packet.
pub fn encode_data(session_id: u64, payload: &[u8]) -> (out: Vec<u8>)
    ensures
        out@ == spec_encode_data(session_id, payload@),
{
    let mut out = build_header(MSG_DATA, session_id);
    push_all(&mut out, payload);
    out
}

/// The short human-readable tag of a message variant.
pub open spec fn spec_variant_name(m: MessageView) -> Seq<char> {
    match m {
        MessageView::Allocate { .. } => "ALLOCATE"@,
        MessageView::Release { .. } => "RELEASE"@,
        MessageView::Keepalive { .. } => "KEEPALIVE"@,
        MessageView::Data { .. } => "DATA"@,
    }
}

impl RelayMessage {
    /// Short human-readable tag for the message variant (useful in log lines).
    pub fn variant_name(&self) -> (s: &'static str)
        ensures
            s@ == spec_variant_name(self@),
    {
        match self {
            RelayMessage::Allocate { .. } => "ALLOCATE",
            RelayMessage::Release { .. } => "RELEASE",
            RelayMessage::Keepalive { .. } => "KEEPALIVE",
            RelayMessage::Data { .. } => "DATA",
        }
    }

    /// The session id carried by any variant.
    pub fn session_id(&self) -> (id: u64)
        ensures
            id == match self@ {
                MessageView::Allocate { session_id, .. } => session_id,
                MessageView::Release { session_id } => session_id,
                MessageView::Keepalive { session_id } => session_id,
                MessageView::Data { session_id } => session_id,
            },
    {
        match self {
            RelayMessage::Allocate { session_id, .. } => *session_id,
            RelayMessage::Release { session_id } => *session_id,
            RelayMessage::Keepalive { session_id } => *session_id,
            RelayMessage::Data { session_id } => *session_id,
        }
    }
}

/// The human-readable message of a protocol error.
pub open spec fn spec_protocol_error_message(e: ProtocolError) -> Seq<char> {
    match e {
        ProtocolError::InvalidMagic => "invalid magic bytes"@,
        ProtocolError::UnknownType(t) => "unknown message type: 0x"@ + hex_min(t as nat),
        ProtocolError::TooShort { expected, actual } => "packet too short: expected at least "@
            + decimal(expected as nat) + ", got "@ + decimal(actual as nat),
        ProtocolError::InvalidTokenLength(n) => "invalid token length: "@ + decimal(n as nat),
    }
}

impl ProtocolError {
    /// The human-readable message of this error.
    pub fn to_display_string(&self) -> (s: String)
        ensures
            s@ == spec_protocol_error_message(*self),
    {
        match self {
            ProtocolError::InvalidMagic => String::from_str("invalid magic bytes"),
            ProtocolError::UnknownType(t) => {
                let mut s = String::from_str("unknown message type: 0x");
                push_hex_min(&mut s, *t as u64);
                s
            },
            ProtocolError::TooShort { expected, actual } => {
                let mut s = String::from_str("packet too short: expected at least ");
                push_decimal(&mut s, *expected as u64);
                s.append(", got ");
                push_decimal(&mut s, *actual as u64);
                s
            },
            ProtocolError::InvalidTokenLength(n) => {
                let mut s = String::from_str("invalid token length: ");
                push_decimal(&mut s, *n as u64);
                s
            },
        }
    }
}

/// Facts about the header bytes shared by the round-trip laws.
proof fn lemma_header_fields(msg_type: u8, session_id: u64, rest: Seq<u8>)
    ensures
        (spec_header(msg_type, session_id) + rest).len() == 16 + rest.len(),
        (spec_header(msg_type, session_id) + rest).subrange(0, 4) == magic_seq(),
        (spec_header(msg_type, session_id) + rest)[4] == VERSION,
        (spec_header(msg_type, session_id) + rest)[5] == msg_type,
        spec_u64_from_le_bytes((spec_header(msg_type, session_id) + rest).subrange(8, 16))
            == session_id,
        (spec_header(msg_type, session_id) + rest).subrange(16, 16 + rest.len() as int) == rest,
{
    lemma_auto_spec_u64_to_from_le_bytes();
    let h = spec_header(msg_type, session_id);
    let b = h + rest;
    assert(h.len() == 16);
    assert(b.subrange(0, 4) =~= magic_seq());
    assert(b.subrange(8, 16) =~= spec_u64_to_le_bytes(session_id));
    assert(b.subrange(16, 16 + rest.len() as int) =~= rest);
}

/// Round trip of Allocate: parsing an encoded Allocate packet, followed by any
/// bytes, gives back its session id and token and leaves exactly the bytes
/// that followed it, whenever the token is at most `MAX_TOKEN_LEN` bytes long.
pub proof fn lemma_allocate_roundtrip(session_id: u64, token: Seq<u8>, trailing: Seq<u8>)
    requires
        token.len() <= MAX_TOKEN_LEN,
    ensures
        spec_parse(spec_encode_allocate(session_id, token) + trailing) == Ok::<
            (MessageView, Seq<u8>),
            ProtocolError,
        >((MessageView::Allocate { session_id, token }, trailing)),
{
    lemma_auto_spec_u16_to_from_le_bytes();
    let lb = spec_u16_to_le_bytes(token.len() as u16);
    let rest = lb + token + trailing;
    let buf = spec_encode_allocate(session_id, token) + trailing;
    assert(buf =~= spec_header(MSG_ALLOCATE, session_id) + rest);
    lemma_header_fields(MSG_ALLOCATE, session_id, rest);
    assert(buf.subrange(16, 18) =~= lb);
    assert((token.len() as u16) as int == token.len());
    assert(buf.subrange(18, 18 + token.len() as int) =~= token);
    assert(buf.subrange(18 + token.len() as int, buf.len() as int) =~= trailing);
}

/// An Allocate packet whose token is longer than `MAX_TOKEN_LEN` (and short
/// enough for its length to fit the 16-bit field) is refused with
/// `InvalidTokenLength` carrying that length.
pub proof fn lemma_allocate_oversized_token_rejected(session_id: u64, token: Seq<u8>, trailing: Seq<u8>)
    requires
        MAX_TOKEN_LEN < token.len() <= u16::MAX,
    ensures
        spec_parse(spec_encode_allocate(session_id, token) + trailing) == Err::<
            (MessageView, Seq<u8>),
            ProtocolError,
        >(ProtocolError::InvalidTokenLength(token.len() as u16)),
{
    lemma_auto_spec_u16_to_from_le_bytes();
    let lb = spec_u16_to_le_bytes(token.len() as u16);
    let rest = lb + token + trailing;
    let buf = spec_encode_allocate(session_id, token) + trailing;
    assert(buf =~= spec_header(MSG_ALLOCATE, session_id) + rest);
    lemma_header_fields(MSG_ALLOCATE, session_id, rest);
    assert(buf.subrange(16, 18) =~= lb);
}

/// Round trip of Release and Keepalive: parsing the encoded header, followed by
/// any bytes, gives back the message and leaves exactly the bytes that followed.
pub proof fn lemma_control_roundtrip(session_id: u64, trailing: Seq<u8>)
    ensures
        spec_parse(spec_header(MSG_RELEASE, session_id) + trailing) == Ok::<
            (MessageView, Seq<u8>),
            ProtocolError,
        >((MessageView::Release { session_id }, trailing)),
        spec_parse(spec_header(MSG_KEEPALIVE, session_id) + trailing) == Ok::<
            (MessageView, Seq<u8>),
            ProtocolError,
        >((MessageView::Keepalive { session_id }, trailing)),
{
    lemma_header_fields(MSG_RELEASE, session_id, trailing);
    lemma_header_fields(MSG_KEEPALIVE, session_id, trailing);
    let b1 = spec_header(MSG_RELEASE, session_id) + trailing;
    let b2 = spec_header(MSG_KEEPALIVE, session_id) + trailing;
    assert(b1.subrange(16, b1.len() as int) =~= trailing);
    assert(b2.subrange(16, b2.len() as int) =~= trailing);
}

/// Round trip of Data: an encoded Data packet parses as Data with its session
/// id, consumes the whole datagram, and its payload is the bytes after the
/// header.
pub proof fn lemma_data_roundtrip(session_id: u64, payload: Seq<u8>)
    ensures
        spec_parse(spec_encode_data(session_id, payload)) == Ok::<
            (MessageView, Seq<u8>),
            ProtocolError,
        >((MessageView::Data { session_id }, Seq::empty())),
        spec_encode_data(session_id, payload).subrange(
            HEADER_LEN as int,
            spec_encode_data(session_id, payload).len() as int,
        ) == payload,
{
    lemma_header_fields(MSG_DATA, session_id, payload);
}

/// Every packet that parses successfully starts with the magic bytes and is at
/// least a header long, and what remains is a suffix of it.
pub proof fn lemma_parse_ok_shape(buf: Seq<u8>)
    ensures
        spec_parse(buf) is Ok ==> {
            &&& buf.len() >= HEADER_LEN
            &&& buf.subrange(0, 4) == magic_seq()
            &&& buf.subrange(buf.len() - spec_parse(buf)->Ok_0.1.len(), buf.len() as int)
                == spec_parse(buf)->Ok_0.1
        },
{
    if spec_parse(buf) is Ok {
        let rest = spec_parse(buf)->Ok_0.1;
        assert(buf.subrange(buf.len() - rest.len(), buf.len() as int) =~= rest);
    }
}

} // verus!
