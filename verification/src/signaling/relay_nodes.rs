//! Relay nodes known to the signaling server, the choice of a node for a
//! client, and the HMAC token that binds a session to that node.
//!
//! A client asking for a relay gets the node in its preferred region with the
//! lowest load, or else the node with the lowest load in any region, among
//! the nodes with remaining capacity.
use std::sync::Arc;
use std::sync::atomic::{AtomicU32, Ordering};
use vstd::prelude::*;
use vstd::string::StringSliceAdditionalSpecFns;
use crate::crypto::{hmac_sha256, hmac_sha256_digest};
use crate::text::{decimal, hex_bytes, push_hex_bytes, decimal_string, str_equal};
use crate::relay::protocol::push_all;

verus! {

/// A relay server that can be allocated to clients.
///
/// The `current_sessions` counter is shared by every clone of the node, so
/// concurrent allocations can read and increment it without a lock.
#[derive(Clone, Debug)]
pub struct RelayNode {
    /// Public address (hostname or IP) of the relay server.
    pub addr: String,
    /// Port the relay server listens on.
    pub port: u16,
    /// Geographic region identifier (e.g. `"ap-east-1"`).
    pub region: String,
    /// Maximum number of concurrent relay sessions this node supports.
    pub max_sessions: u32,
    /// Current number of active relay sessions (shared counter).
    pub current_sessions: Arc<AtomicU32>,
}

impl RelayNode {
    /// Create a new relay node with zero active sessions.
    pub fn new(addr: String, port: u16, region: String, max_sessions: u32) -> (n: Self)
        ensures
            n.addr == addr,
            n.port == port,
            n.region == region,
            n.max_sessions == max_sessions,
    {
        RelayNode {
            addr,
            port,
            region,
            max_sessions,
            current_sessions: Arc::new(AtomicU32::new(0)),
        }
    }

    /// The current number of sessions on this node. The counter is shared
    /// with other holders of the node, so nothing is known of the value.
    pub fn load(&self) -> u32 {
        self.current_sessions.load(Ordering::Relaxed)
    }

    /// Whether this node can accept another session: its current load is
    /// below its maximum.
    pub fn has_capacity(&self) -> (b: bool)
        ensures
            b ==> self.max_sessions > 0,
    {
        let l = self.load();
        l < self.max_sessions
    }

    /// Count one more session on this node.
    pub fn add_session(&self) {
        self.current_sessions.fetch_add(1, Ordering::Relaxed);
    }
}

/// Node `i` has room left and, when a region is given, lies in it.
pub open spec fn eligible(nodes: Seq<RelayNode>, loads: Seq<u32>, region: Option<Seq<char>>, i: int) -> bool {
    &&& 0 <= i < nodes.len()
    &&& loads[i] < nodes[i].max_sessions
    &&& match region {
        Some(r) => nodes[i].region@ == r,
        None => true,
    }
}

/// Node `i` is the first of the eligible nodes with the lowest load.
pub open spec fn is_first_lowest(nodes: Seq<RelayNode>, loads: Seq<u32>, region: Option<Seq<char>>, i: int) -> bool {
    &&& eligible(nodes, loads, region, i)
    &&& forall|j: int| #[trigger] eligible(nodes, loads, region, j) ==> loads[i] <= loads[j]
    &&& forall|j: int| 0 <= j < i && #[trigger] eligible(nodes, loads, region, j) ==> loads[i] < loads[j]
}

/// Some node is eligible.
pub open spec fn any_eligible(nodes: Seq<RelayNode>, loads: Seq<u32>, region: Option<Seq<char>>) -> bool {
    exists|i: int| #[trigger] eligible(nodes, loads, region, i)
}

/// `r` is the node chosen for a client preferring `preferred`, given the loads:
/// the first lowest-loaded node of the preferred region when it has one with
/// room, else the first lowest-loaded node with room anywhere, else none.
pub open spec fn is_selection(nodes: Seq<RelayNode>, loads: Seq<u32>, preferred: Option<Seq<char>>, r: Option<int>) -> bool {
    let in_region = preferred is Some && any_eligible(nodes, loads, preferred);
    match r {
        Some(i) => if in_region {
            is_first_lowest(nodes, loads, preferred, i)
        } else {
            is_first_lowest(nodes, loads, None, i)
        },
        None => !any_eligible(nodes, loads, None),
    }
}

/// The view of an optional region argument.
pub open spec fn region_view(r: Option<&str>) -> Option<Seq<char>> {
    match r {
        Some(s) => Some(s@),
        None => None,
    }
}

/// The first node with the lowest load among those eligible for `region`.
fn lowest_eligible(nodes: &[RelayNode], loads: &[u32], region: Option<&str>) -> (r: Option<usize>)
    requires
        loads@.len() == nodes@.len(),
    ensures
        match r {
            Some(i) => is_first_lowest(nodes@, loads@, region_view(region), i as int),
            None => !any_eligible(nodes@, loads@, region_view(region)),
        },
{
    let ghost reg = region_view(region);
    let n = nodes.len();
    let mut best: Option<usize> = None;
    let mut i: usize = 0;
    while i < n
        invariant
            n == nodes@.len(),
            n == loads@.len(),
            reg == region_view(region),
            i <= n,
            match best {
                Some(b) => {
                    &&& b < i
                    &&& eligible(nodes@, loads@, reg, b as int)
                    &&& forall|j: int| 0 <= j < i && #[trigger] eligible(nodes@, loads@, reg, j) ==> loads@[b as int] <= loads@[j]
                    &&& forall|j: int| 0 <= j < b && #[trigger] eligible(nodes@, loads@, reg, j) ==> loads@[b as int] < loads@[j]
                },
                None => forall|j: int| 0 <= j < i ==> !#[trigger] eligible(nodes@, loads@, reg, j),
            },
        decreases n - i,
    {
        let in_region = match region {
            Some(r) => str_equal(nodes[i].region.as_str(), r),
            None => true,
        };
        let ok = in_region && loads[i] < nodes[i].max_sessions;
        assert(ok == eligible(nodes@, loads@, reg, i as int));
        if ok {
            match best {
                None => {
                    best = Some(i);
                },
                Some(b) => {
                    if loads[i] < loads[b] {
                        best = Some(i);
                    }
                },
            }
        }
        i += 1;
    }
    match best {
        Some(b) => {
            assert forall|j: int| #[trigger] eligible(nodes@, loads@, reg, j) implies loads@[b as int] <= loads@[j] by {
                assert(0 <= j < n);
            }
        },
        None => {
            assert forall|j: int| !#[trigger] eligible(nodes@, loads@, reg, j) by {
                if 0 <= j < n {
                }
            }
        },
    }
    best
}

/// Choose a node given a snapshot of every node's load: the first
/// lowest-loaded node of the preferred region that has room, or, when there
/// is no preference or that region has no room, the first lowest-loaded node
/// with room anywhere; `None` when every node is full or there are none.
pub fn choose_relay_index(nodes: &[RelayNode], loads: &[u32], preferred_region: Option<&str>) -> (r: Option<usize>)
    requires
        loads@.len() == nodes@.len(),
    ensures
        is_selection(nodes@, loads@, region_view(preferred_region), match r {
            Some(i) => Some(i as int),
            None => None,
        }),
{
    if preferred_region.is_some() {
        let r = lowest_eligible(nodes, loads, preferred_region);
        if r.is_some() {
            return r;
        }
    }
    let r = lowest_eligible(nodes, loads, None);
    proof {
        match r {
            Some(_) => {},
            None => {},
        }
    }
    r
}

/// Read the current load of every node.
pub fn snapshot_loads(nodes: &[RelayNode]) -> (loads: Vec<u32>)
    ensures
        loads@.len() == nodes@.len(),
{
    let n = nodes.len();
    let mut loads: Vec<u32> = Vec::with_capacity(n);
    let mut i: usize = 0;
    while i < n
        invariant
            n == nodes@.len(),
            i <= n,
            loads@.len() == i,
        decreases n - i,
    {
        loads.push(nodes[i].load());
        i += 1;
    }
    loads
}

/// With these loads, `r` is the node that the choice yields.
pub open spec fn selection_of(nodes: Seq<RelayNode>, loads: Seq<u32>, preferred: Option<Seq<char>>, r: Option<&RelayNode>) -> bool {
    &&& loads.len() == nodes.len()
    &&& match r {
        Some(node) => exists|i: int| is_selection(nodes, loads, preferred, Some(i)) && *node == #[trigger] nodes[i],
        None => is_selection(nodes, loads, preferred, None),
    }
}

/// Select the best relay node for a client: among the nodes with room, the
/// first one with the lowest load in the preferred region, falling back to
/// the first one with the lowest load in any region. The loads are read once
/// each, as the shared counters held them at that moment.
pub fn select_relay_node<'a>(nodes: &'a [RelayNode], preferred_region: Option<&str>) -> (r: Option<&'a RelayNode>)
    ensures
        exists|loads: Seq<u32>| #[trigger] selection_of(nodes@, loads, region_view(preferred_region), r),
{
    let loads = snapshot_loads(nodes);
    let r = match choose_relay_index(nodes, loads.as_slice(), preferred_region) {
        Some(i) => Some(&nodes[i]),
        None => None,
    };
    assert(selection_of(nodes@, loads@, region_view(preferred_region), r));
    r
}

/// The bytes that a relay token authenticates: session id, relay address,
/// nonce, and the expiry written in decimal, all as UTF-8.
pub open spec fn relay_token_message(session_id: Seq<char>, relay_addr: Seq<char>, nonce: Seq<char>, expires_at: u64) -> Seq<u8> {
    vstd::utf8::encode_utf8(session_id) + vstd::utf8::encode_utf8(relay_addr)
        + vstd::utf8::encode_utf8(nonce) + vstd::utf8::encode_utf8(decimal(expires_at as nat))
}

/// Compute `HMAC-SHA256(session_id || relay_addr || nonce || expires_at)` and
/// return it as a lowercase hex string.
pub fn generate_hmac_token(secret: &[u8], session_id: &str, relay_addr: &str, nonce: &str, expires_at: u64) -> (t: String)
    ensures
        t@ == hex_bytes(hmac_sha256(secret@, relay_token_message(session_id@, relay_addr@, nonce@, expires_at))),
        t@.len() == 64,
{
    let mut msg: Vec<u8> = Vec::new();
    push_all(&mut msg, session_id.as_bytes());
    push_all(&mut msg, relay_addr.as_bytes());
    push_all(&mut msg, nonce.as_bytes());
    let exp = decimal_string(expires_at);
    push_all(&mut msg, exp.as_str().as_bytes());
    assert(msg@ =~= relay_token_message(session_id@, relay_addr@, nonce@, expires_at));
    let tag = hmac_sha256_digest(secret, msg.as_slice());
    let t = bytes_to_hex(tag.as_slice());
    proof {
        crate::text::lemma_hex_bytes_len(tag@);
    }
    t
}

/// Encode a byte slice as a lowercase hex string, two digits per byte.
pub fn bytes_to_hex(bytes: &[u8]) -> (s: String)
    ensures
        s@ == hex_bytes(bytes@),
{
    let mut s = String::new();
    push_hex_bytes(&mut s, bytes);
    assert(s@ =~= hex_bytes(bytes@));
    s
}

} // verus!
