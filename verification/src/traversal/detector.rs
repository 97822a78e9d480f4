//! NAT type detection with STUN (RFC 5389/5780): the binding request, the
//! parsing of the binding response, and the classification from the tests'
//! observations.
use std::time::Duration;
use vstd::prelude::*;
use crate::traversal::Endpoint;

verus! {

#[verifier::external_type_specification]
#[verifier::external_body]
pub struct ExIoError(std::io::Error);

/// NAT type classification result.
#[derive(Debug, Clone, Copy, PartialEq, Eq, Structural)]
pub enum NatType {
    /// No NAT (public IP address).
    Open,
    /// Full Cone NAT: any external endpoint may connect.
    FullCone,
    /// Restricted Cone NAT: filters by IP address.
    RestrictedCone,
    /// Port Restricted Cone NAT: filters by IP address and port.
    PortRestrictedCone,
    /// Symmetric NAT: a different mapping for each destination.
    Symmetric,
    /// The NAT type could not be determined.
    Unknown,
}

/// Whether two NAT types can establish a direct P2P connection.
pub open spec fn spec_can_direct_p2p(a: NatType, b: NatType) -> bool {
    ||| a is Open || b is Open
    ||| a is FullCone || b is FullCone
    ||| (a is RestrictedCone && (b is RestrictedCone || b is PortRestrictedCone))
    ||| (a is PortRestrictedCone && b is RestrictedCone)
}

/// Law: direct P2P feasibility does not depend on which peer initiates.
pub proof fn lemma_detected_can_direct_p2p_symmetric(a: NatType, b: NatType)
    ensures
        spec_can_direct_p2p(a, b) == spec_can_direct_p2p(b, a),
{
}

/// Law: who reaches whom directly. A peer without NAT or behind a Full Cone
/// NAT reaches every peer; two peers behind restricted cones reach each
/// other unless both filter by port; a Symmetric NAT, or one of unknown
/// type, reaches only peers without NAT or behind a Full Cone NAT.
pub proof fn lemma_detected_direct_p2p_pairs(a: NatType, b: NatType)
    ensures
        (a is Open || a is FullCone) ==> spec_can_direct_p2p(a, b),
        (a is RestrictedCone || a is PortRestrictedCone) && (b is RestrictedCone || b is PortRestrictedCone) ==> (
        spec_can_direct_p2p(a, b) <==> !(a is PortRestrictedCone && b is PortRestrictedCone)),
        (a is Symmetric || a is Unknown) ==> (spec_can_direct_p2p(a, b) <==> (b is Open || b is FullCone)),
{
}

impl NatType {
    /// Check whether two NAT types can establish a direct P2P connection.
    pub fn can_direct_p2p(&self, remote: &NatType) -> (b: bool)
        ensures
            b == spec_can_direct_p2p(*self, *remote),
    {
        match (self, remote) {
            (NatType::Open, _) | (_, NatType::Open) => true,
            (NatType::FullCone, _) | (_, NatType::FullCone) => true,
            (NatType::RestrictedCone, NatType::RestrictedCone) => true,
            (NatType::RestrictedCone, NatType::PortRestrictedCone) => true,
            (NatType::PortRestrictedCone, NatType::RestrictedCone) => true,
            (NatType::Symmetric, _) | (_, NatType::Symmetric) => false,
            _ => false,
        }
    }
}

/// NAT detection errors.
#[derive(Debug)]
pub enum NatDetectionError {
    /// The UDP socket could not be bound.
    BindError(std::io::Error),
    /// The STUN server could not be reached.
    StunUnreachable(String),
    /// No STUN response arrived in time.
    Timeout,
    /// The STUN response was malformed; the text says how.
    InvalidResponse(String),
}

/// Filtering behavior classification.
#[derive(Debug, Clone, Copy, PartialEq, Eq, Structural)]
pub enum FilteringBehavior {
    /// No filtering (Full Cone).
    Unfiltered,
    /// Filter by source IP address (Restricted Cone).
    Address,
    /// Filter by source IP address and port (Port Restricted Cone).
    AddressAndPort,
}

/// NAT detector using the STUN protocol.
pub struct NatDetector {
    stun_server: String,
    timeout: Duration,
}

/// The duration of `secs` whole seconds, as `Duration::from_secs` makes it.
pub uninterp spec fn secs_duration(secs: u64) -> Duration;

/// `Duration::from_secs`: a duration of whole seconds. Its result is named
/// `secs_duration(secs)`; it depends on `secs` alone.
#[verifier::external_body]
fn duration_from_secs(secs: u64) -> (d: Duration)
    ensures
        d == secs_duration(secs),
{
    Duration::from_secs(secs)
}

/// `rand::random::<[u8; 12]>()`: twelve random bytes. Nothing is stated of
/// their values.
#[verifier::external_body]
fn random_transaction_id() -> [u8; 12] {
    rand::random::<[u8; 12]>()
}

impl NatDetector {
    /// The STUN server this detector asks.
    pub closed spec fn server(&self) -> Seq<char> {
        self.stun_server@
    }

    /// The timeout of STUN requests.
    pub closed spec fn timeout_value(&self) -> Duration {
        self.timeout
    }

    /// A detector asking `stun_server`, with a timeout of five seconds.
    pub fn new(stun_server: String) -> (d: Self)
        ensures
            d.server() == stun_server@,
            d.timeout_value() == secs_duration(5),
    {
        NatDetector { stun_server, timeout: duration_from_secs(5) }
    }

    /// The same detector with another timeout for STUN requests.
    pub fn with_timeout(self, timeout: Duration) -> (d: Self)
        ensures
            d.server() == self.server(),
            d.timeout_value() == timeout,
    {
        NatDetector { stun_server: self.stun_server, timeout }
    }

    /// The STUN server address, as configured.
    pub fn stun_server(&self) -> (s: &str)
        ensures
            s@ == self.server(),
    {
        self.stun_server.as_str()
    }

    /// The timeout of STUN requests.
    pub fn timeout(&self) -> (t: Duration)
        ensures
            t == self.timeout_value(),
    {
        self.timeout
    }

    /// A STUN Binding Request (RFC 5389) with a random transaction id.
    pub fn build_stun_binding_request(&self) -> (r: Vec<u8>)
        ensures
            r@.len() == 20,
            r@.subrange(0, 8) == stun_request_header(),
    {
        let r = build_stun_binding_request_with(random_transaction_id());
        assert(r@.subrange(0, 8) =~= stun_request_header());
        r
    }

    /// Parse a STUN Binding Success Response and extract the mapped address.
    pub fn parse_stun_response(&self, data: &[u8]) -> (r: Result<Endpoint, NatDetectionError>)
        ensures
            response_view(r) == spec_parse_stun_response(data@),
    {
        parse_stun_response(data)
    }
}

/// Message type, length and magic cookie of a Binding Request.
pub open spec fn stun_request_header() -> Seq<u8> {
    seq![0x00u8, 0x01u8, 0x00u8, 0x00u8, 0x21u8, 0x12u8, 0xA4u8, 0x42u8]
}

/// A minimal STUN Binding Request with the given transaction id: the 8-byte
/// header (Binding Request, no attributes, magic cookie) and the id.
pub fn build_stun_binding_request_with(transaction_id: [u8; 12]) -> (r: Vec<u8>)
    ensures
        r@ == stun_request_header() + transaction_id@,
{
    let mut request: Vec<u8> = Vec::with_capacity(20);
    request.push(0x00);
    request.push(0x01);
    request.push(0x00);
    request.push(0x00);
    request.push(0x21);
    request.push(0x12);
    request.push(0xA4);
    request.push(0x42);
    let mut i: usize = 0;
    while i < 12
        invariant
            i <= 12,
            request@ == stun_request_header() + transaction_id@.subrange(0, i as int),
        decreases 12 - i,
    {
        request.push(transaction_id[i]);
        i += 1;
        assert(request@ =~= stun_request_header() + transaction_id@.subrange(0, i as int));
    }
    assert(transaction_id@.subrange(0, 12) =~= transaction_id@);
    request
}

/// A big-endian 16-bit value.
pub open spec fn be16(hi: u8, lo: u8) -> int {
    hi as int * 256 + lo as int
}

/// The mapped address of an XOR-MAPPED-ADDRESS value: the port and the IPv4
/// address XORed with the magic cookie `0x2112A442`.
pub open spec fn xor_mapped(d: Seq<u8>) -> Endpoint {
    Endpoint {
        ip: [d[4] ^ 0x21u8, d[5] ^ 0x12u8, d[6] ^ 0xA4u8, d[7] ^ 0x42u8],
        port: be16(d[2] ^ 0x21u8, d[3] ^ 0x12u8) as u16,
    }
}

/// What parsing an XOR-MAPPED-ADDRESS attribute value yields.
pub open spec fn spec_parse_xor_mapped(d: Seq<u8>) -> Result<Endpoint, Seq<char>> {
    if d.len() < 8 {
        Err("XOR-MAPPED-ADDRESS too short"@)
    } else if d[1] != 0x01 {
        Err("Only IPv4 supported"@)
    } else {
        Ok(xor_mapped(d))
    }
}

/// The outcome of scanning the attributes from `offset` on.
pub enum AttrScan {
    /// An XOR-MAPPED-ADDRESS attribute with its value at `start..start+len`.
    Found { start: int, len: int },
    /// The attributes ended without one.
    NotFound,
    /// An attribute header or value lies beyond the end of the datagram.
    Overrun,
}

/// Scan the attributes, each `type (2) | length (2) | value`, padded to a
/// multiple of four bytes, while an attribute header fits in the message
/// length.
pub open spec fn scan_attributes(d: Seq<u8>, offset: int, end: int) -> AttrScan
    decreases (if offset < end { end - offset } else { 0 }),
{
    if offset < 0 || offset + 4 > end {
        AttrScan::NotFound
    } else if offset + 4 > d.len() {
        AttrScan::Overrun
    } else {
        let attr_type = be16(d[offset], d[offset + 1]);
        let attr_len = be16(d[offset + 2], d[offset + 3]);
        if attr_type == 0x0020 {
            if offset + 4 + attr_len > d.len() {
                AttrScan::Overrun
            } else {
                AttrScan::Found { start: offset + 4, len: attr_len }
            }
        } else {
            let padded = (attr_len + 3) / 4 * 4;
            proof {
                assert(padded >= 0) by (nonlinear_arith)
                    requires
                        attr_len >= 0,
                        padded == (attr_len + 3) / 4 * 4,
                ;
            }
            scan_attributes(d, offset + 4 + padded, end)
        }
    }
}

/// The message length field of a STUN header.
pub open spec fn stun_message_length(d: Seq<u8>) -> int {
    be16(d[2], d[3])
}

/// What parsing a STUN Binding Success Response yields: the mapped address,
/// or the text of the `InvalidResponse` error. A response whose declared
/// attributes run past the end of the datagram is malformed.
pub open spec fn spec_parse_stun_response(d: Seq<u8>) -> Result<Endpoint, Seq<char>> {
    if d.len() < 20 {
        Err("Response too short"@)
    } else if d[0] != 0x01 || d[1] != 0x01 {
        Err("Not a Binding Success Response"@)
    } else {
        match scan_attributes(d, 20, 20 + stun_message_length(d)) {
            AttrScan::Found { start, len } => spec_parse_xor_mapped(d.subrange(start, start + len)),
            AttrScan::NotFound => Err("XOR-MAPPED-ADDRESS not found"@),
            AttrScan::Overrun => Err("Attribute exceeds response length"@),
        }
    }
}

/// The view of a parse result: the address, or the text of an
/// `InvalidResponse` error (other errors view as an empty text).
pub open spec fn response_view(r: Result<Endpoint, NatDetectionError>) -> Result<Endpoint, Seq<char>> {
    match r {
        Ok(e) => Ok(e),
        Err(NatDetectionError::InvalidResponse(m)) => Err(m@),
        Err(_) => Err(Seq::empty()),
    }
}

/// An `InvalidResponse` error with the given text.
fn invalid(msg: &str) -> (e: NatDetectionError)
    ensures
        e matches NatDetectionError::InvalidResponse(m) && m@ == msg@,
{
    NatDetectionError::InvalidResponse(String::from_str(msg))
}

/// Parse an XOR-MAPPED-ADDRESS attribute value (IPv4 only).
pub fn parse_xor_mapped_address(data: &[u8]) -> (r: Result<Endpoint, NatDetectionError>)
    ensures
        response_view(r) == spec_parse_xor_mapped(data@),
{
    if data.len() < 8 {
        return Err(invalid("XOR-MAPPED-ADDRESS too short"));
    }
    if data[1] != 0x01 {
        return Err(invalid("Only IPv4 supported"));
    }
    let hi: u8 = data[2] ^ 0x21;
    let lo: u8 = data[3] ^ 0x12;
    let port: u16 = (hi as u16) * 256 + (lo as u16);
    Ok(Endpoint { ip: [data[4] ^ 0x21, data[5] ^ 0x12, data[6] ^ 0xA4, data[7] ^ 0x42], port })
}

/// Parse a STUN Binding Success Response and extract the XOR-MAPPED-ADDRESS.
pub fn parse_stun_response(data: &[u8]) -> (r: Result<Endpoint, NatDetectionError>)
    ensures
        response_view(r) == spec_parse_stun_response(data@),
{
    let len = data.len();
    if len < 20 {
        return Err(invalid("Response too short"));
    }
    if data[0] != 0x01 || data[1] != 0x01 {
        return Err(invalid("Not a Binding Success Response"));
    }
    let msg_length: usize = (data[2] as usize) * 256 + (data[3] as usize);
    let end: usize = 20 + msg_length;
    let mut offset: usize = 20;
    while offset + 4 <= end
        invariant
            len == data@.len(),
            len >= 20,
            data@[0] == 0x01 && data@[1] == 0x01,
            end == 20 + stun_message_length(data@),
            20 <= offset <= end + 65536,
            scan_attributes(data@, 20, end as int) == scan_attributes(data@, offset as int, end as int),
        decreases end + 65536 - offset,
    {
        if offset + 4 > len {
            return Err(invalid("Attribute exceeds response length"));
        }
        let attr_type: usize = (data[offset] as usize) * 256 + (data[offset + 1] as usize);
        let attr_length: usize = (data[offset + 2] as usize) * 256 + (data[offset + 3] as usize);
        let padded: usize = (attr_length + 3) / 4 * 4;
        if attr_type == 0x0020 {
            if offset + 4 + attr_length > len {
                return Err(invalid("Attribute exceeds response length"));
            }
            let value = &data[offset + 4..offset + 4 + attr_length];
            return parse_xor_mapped_address(value);
        }
        offset = offset + 4 + padded;
    }
    Err(invalid("XOR-MAPPED-ADDRESS not found"))
}

/// The NAT type that the three tests observe: no NAT when the mapped address
/// equals the local one, Symmetric when the mapping depends on the
/// destination, else the type that the filtering behavior names.
pub open spec fn spec_classify(local_ip: [u8; 4], mapped_ip: [u8; 4], symmetric: bool, filtering: FilteringBehavior) -> NatType {
    if local_ip == mapped_ip {
        NatType::Open
    } else if symmetric {
        NatType::Symmetric
    } else {
        match filtering {
            FilteringBehavior::Unfiltered => NatType::FullCone,
            FilteringBehavior::Address => NatType::RestrictedCone,
            FilteringBehavior::AddressAndPort => NatType::PortRestrictedCone,
        }
    }
}

/// Classify the NAT from the observations of Test I (local and mapped
/// address), Test II (mapping behavior) and Test III (filtering behavior).
pub fn classify_nat(local_ip: [u8; 4], mapped_ip: [u8; 4], symmetric: bool, filtering: FilteringBehavior) -> (t: NatType)
    ensures
        t == spec_classify(local_ip, mapped_ip, symmetric, filtering),
{
    if local_ip[0] == mapped_ip[0] && local_ip[1] == mapped_ip[1] && local_ip[2] == mapped_ip[2]
        && local_ip[3] == mapped_ip[3] {
        assert(local_ip =~= mapped_ip);
        return NatType::Open;
    }
    proof {
        if local_ip == mapped_ip {
            assert(local_ip@[0] == mapped_ip@[0]);
        }
    }
    if symmetric {
        return NatType::Symmetric;
    }
    match filtering {
        FilteringBehavior::Unfiltered => NatType::FullCone,
        FilteringBehavior::Address => NatType::RestrictedCone,
        FilteringBehavior::AddressAndPort => NatType::PortRestrictedCone,
    }
}

/// Test II: whether the mapping is symmetric. Comparing the mappings that two
/// STUN servers see is not implemented; the mapping is taken as not symmetric.
pub fn test_mapping_behavior(_local: &Endpoint) -> (r: Result<bool, NatDetectionError>)
    ensures
        r matches Ok(b) && !b,
{
    Ok(false)
}

/// Test III: the filtering behavior. The CHANGE-REQUEST tests are not
/// implemented; the most common behavior, address-and-port filtering, is
/// taken.
pub fn test_filtering_behavior(_local: &Endpoint) -> (r: Result<FilteringBehavior, NatDetectionError>)
    ensures
        r matches Ok(f) && f == FilteringBehavior::AddressAndPort,
{
    Ok(FilteringBehavior::AddressAndPort)
}

} // verus!
