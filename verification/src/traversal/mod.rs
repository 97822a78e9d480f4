//! NAT traversal planning: NAT types, ICE candidates and their priorities,
//! the outcome of connectivity checks between two peers, and statistics over
//! a matrix of traversal results.
//!
//! NAT types follow RFC 3489 / RFC 5389: Full Cone is the most permissive and
//! easiest to traverse, Symmetric the most restrictive, typically needing a
//! relay.
pub mod detector;

use vstd::prelude::*;
use crate::text::{decimal, push_decimal};
use crate::relay::session::{duration_nanos, instant_elapsed, instant_now};

verus! {

/// NAT types according to RFC 3489 and RFC 5389.
#[derive(Debug, Clone, Copy, PartialEq, Eq, Hash, Structural)]
pub enum NatType {
    /// Open Internet (no NAT).
    Open,
    /// Full Cone NAT: once mapped, any external host can send to the internal host.
    FullCone,
    /// Restricted Cone NAT: the external host must have received a packet first.
    RestrictedCone,
    /// Port Restricted Cone NAT: the external host must match both IP and port.
    PortRestrictedCone,
    /// Symmetric NAT: a different external port for each destination.
    Symmetric,
}

/// How hard a NAT type is to traverse, from 0 (easiest) to 4 (hardest).
pub open spec fn spec_difficulty(t: NatType) -> u8 {
    match t {
        NatType::Open => 0,
        NatType::FullCone => 1,
        NatType::RestrictedCone => 2,
        NatType::PortRestrictedCone => 3,
        NatType::Symmetric => 4,
    }
}

/// Whether direct peer-to-peer is likely possible between the two NAT types:
/// always when either side has no NAT or a Full Cone NAT, between Restricted
/// Cone and (Port) Restricted Cone, and never otherwise.
pub open spec fn spec_can_direct_p2p(a: NatType, b: NatType) -> bool {
    ||| a is Open || b is Open
    ||| a is FullCone || b is FullCone
    ||| (a is RestrictedCone && (b is RestrictedCone || b is PortRestrictedCone))
    ||| (a is PortRestrictedCone && b is RestrictedCone)
}

impl NatType {
    /// The difficulty level of traversal (0 = easiest, 4 = hardest).
    pub fn traversal_difficulty(&self) -> (d: u8)
        ensures
            d == spec_difficulty(*self),
    {
        match self {
            NatType::Open => 0,
            NatType::FullCone => 1,
            NatType::RestrictedCone => 2,
            NatType::PortRestrictedCone => 3,
            NatType::Symmetric => 4,
        }
    }

    /// Whether direct P2P is likely possible with a peer behind `remote`.
    pub fn can_direct_p2p(&self, remote: &NatType) -> (b: bool)
        ensures
            b == spec_can_direct_p2p(*self, *remote),
    {
        match (self, remote) {
            (NatType::Open, _) | (_, NatType::Open) => true,
            (NatType::FullCone, _) | (_, NatType::FullCone) => true,
            (NatType::RestrictedCone, NatType::RestrictedCone) => true,
            (NatType::RestrictedCone, NatType::PortRestrictedCone) => true,
            (NatType::PortRestrictedCone, NatType::RestrictedCone) => true,
            (NatType::Symmetric, _) | (_, NatType::Symmetric) => false,
            _ => false,
        }
    }
}

/// Direct P2P feasibility does not depend on which peer initiates.
pub proof fn lemma_can_direct_p2p_symmetric(a: NatType, b: NatType)
    ensures
        spec_can_direct_p2p(a, b) == spec_can_direct_p2p(b, a),
{
}

/// A peer behind a Symmetric NAT reaches directly only peers without NAT or
/// behind a Full Cone NAT.
pub proof fn lemma_symmetric_needs_open_peer(b: NatType)
    ensures
        spec_can_direct_p2p(NatType::Symmetric, b) == (b is Open || b is FullCone),
{
}

/// Law: who reaches whom directly. A peer without NAT or behind a Full Cone
/// NAT reaches every peer; two peers behind restricted cones reach each
/// other unless both filter by port.
pub proof fn lemma_direct_p2p_pairs(a: NatType, b: NatType)
    ensures
        (a is Open || a is FullCone) ==> spec_can_direct_p2p(a, b),
        (a is RestrictedCone || a is PortRestrictedCone) && (b is RestrictedCone || b is PortRestrictedCone) ==> (
        spec_can_direct_p2p(a, b) <==> !(a is PortRestrictedCone && b is PortRestrictedCone)),
{
}

/// ICE candidate types.
#[derive(Debug, Clone, Copy, PartialEq, Eq, Structural)]
pub enum CandidateType {
    /// Host candidate (local network interface).
    Host,
    /// Server reflexive candidate (via STUN).
    ServerReflexive,
    /// Relay candidate (via TURN).
    Relay,
}

/// An IPv4 transport address.
#[derive(Debug, Clone, Copy, PartialEq, Eq)]
pub struct Endpoint {
    pub ip: [u8; 4],
    pub port: u16,
}

/// The `a.b.c.d:port` rendering of an endpoint.
pub open spec fn endpoint_text(e: Endpoint) -> Seq<char> {
    decimal(e.ip[0] as nat) + "."@ + decimal(e.ip[1] as nat) + "."@ + decimal(e.ip[2] as nat) + "."@
        + decimal(e.ip[3] as nat) + ":"@ + decimal(e.port as nat)
}

/// Append the `a.b.c.d:port` rendering of an endpoint.
pub fn push_endpoint(out: &mut String, e: &Endpoint)
    ensures
        final(out)@ == old(out)@ + endpoint_text(*e),
{
    push_decimal(out, e.ip[0] as u64);
    out.append(".");
    push_decimal(out, e.ip[1] as u64);
    out.append(".");
    push_decimal(out, e.ip[2] as u64);
    out.append(".");
    push_decimal(out, e.ip[3] as u64);
    out.append(":");
    push_decimal(out, e.port as u64);
    assert(final(out)@ =~= old(out)@ + endpoint_text(*e));
}

/// The name of a candidate type, as its `Debug` rendering spells it.
pub open spec fn candidate_type_name(t: CandidateType) -> Seq<char> {
    match t {
        CandidateType::Host => "Host"@,
        CandidateType::ServerReflexive => "ServerReflexive"@,
        CandidateType::Relay => "Relay"@,
    }
}

/// ICE candidate with priority.
#[derive(Debug, Clone)]
pub struct IceCandidate {
    pub candidate_type: CandidateType,
    pub address: Endpoint,
    pub priority: u32,
    pub foundation: String,
}

/// Simplified RFC 5245 priority: host 126, server reflexive 100, relay 0.
pub open spec fn spec_priority(t: CandidateType) -> u32 {
    match t {
        CandidateType::Host => 126,
        CandidateType::ServerReflexive => 100,
        CandidateType::Relay => 0,
    }
}

impl IceCandidate {
    /// A candidate of the given type and address, with the priority of its
    /// type and the foundation `{type}_{address}`.
    pub fn new(candidate_type: CandidateType, address: Endpoint) -> (c: Self)
        ensures
            c.candidate_type == candidate_type,
            c.address == address,
            c.priority == spec_priority(candidate_type),
            c.foundation@ == candidate_type_name(candidate_type) + "_"@ + endpoint_text(address),
    {
        let priority = Self::calculate_priority(candidate_type);
        let mut foundation = match candidate_type {
            CandidateType::Host => String::from_str("Host"),
            CandidateType::ServerReflexive => String::from_str("ServerReflexive"),
            CandidateType::Relay => String::from_str("Relay"),
        };
        foundation.append("_");
        push_endpoint(&mut foundation, &address);
        assert(foundation@ =~= candidate_type_name(candidate_type) + "_"@ + endpoint_text(address));
        IceCandidate { candidate_type, address, priority, foundation }
    }

    /// The priority of a candidate type (simplified RFC 5245).
    pub fn calculate_priority(candidate_type: CandidateType) -> (p: u32)
        ensures
            p == spec_priority(candidate_type),
    {
        match candidate_type {
            CandidateType::Host => 126,
            CandidateType::ServerReflexive => 100,
            CandidateType::Relay => 0,
        }
    }
}

/// How a traversal attempt connected.
#[derive(Debug, Clone, Copy, PartialEq, Eq, Structural)]
pub enum ConnectionMethod {
    DirectP2P,
    StunAssistedP2P,
    RelayFallback,
    Failed,
}

/// NAT traversal test result.
#[derive(Debug, Clone, Copy)]
pub struct TraversalResult {
    pub local_nat: NatType,
    pub remote_nat: NatType,
    pub success: bool,
    pub connection_method: ConnectionMethod,
    pub time_to_connect_ms: u64,
    pub ice_candidates_gathered: usize,
    pub ice_checks_performed: usize,
}

/// The local host address used for gathered host candidates.
pub open spec fn host_endpoint() -> Endpoint {
    Endpoint { ip: [192, 168, 1, 100], port: 54321 }
}

/// The server reflexive address used for gathered STUN candidates.
pub open spec fn reflexive_endpoint() -> Endpoint {
    Endpoint { ip: [203, 0, 113, 1], port: 54321 }
}

/// The relay address used for gathered TURN candidates.
pub open spec fn relay_endpoint() -> Endpoint {
    Endpoint { ip: [198, 51, 100, 1], port: 54321 }
}

/// The candidate types gathered behind a NAT, highest priority first: a host
/// candidate, a server reflexive one unless the NAT is Symmetric, and a relay
/// candidate.
pub open spec fn gathered_types(nat_type: NatType) -> Seq<CandidateType> {
    if nat_type is Symmetric {
        seq![CandidateType::Host, CandidateType::Relay]
    } else {
        seq![CandidateType::Host, CandidateType::ServerReflexive, CandidateType::Relay]
    }
}

/// The address that a candidate of the given type is gathered at.
pub open spec fn gathered_endpoint(t: CandidateType) -> Endpoint {
    match t {
        CandidateType::Host => host_endpoint(),
        CandidateType::ServerReflexive => reflexive_endpoint(),
        CandidateType::Relay => relay_endpoint(),
    }
}

/// Gather the ICE candidates of a peer behind `nat_type`, sorted by priority
/// (highest first).
pub fn gather_ice_candidates(nat_type: NatType) -> (c: Vec<IceCandidate>)
    ensures
        c@.len() == gathered_types(nat_type).len(),
        forall|i: int| 0 <= i < c@.len() ==> {
            &&& (#[trigger] c@[i]).candidate_type == gathered_types(nat_type)[i]
            &&& c@[i].address == gathered_endpoint(gathered_types(nat_type)[i])
            &&& c@[i].priority == spec_priority(gathered_types(nat_type)[i])
        },
        forall|i: int, j: int| 0 <= i < j < c@.len() ==> c@[i].priority > c@[j].priority,
{
    let mut c: Vec<IceCandidate> = Vec::new();
    c.push(IceCandidate::new(CandidateType::Host, Endpoint { ip: [192, 168, 1, 100], port: 54321 }));
    if !matches!(nat_type, NatType::Symmetric) {
        c.push(
            IceCandidate::new(CandidateType::ServerReflexive, Endpoint { ip: [203, 0, 113, 1], port: 54321 }),
        );
    }
    c.push(IceCandidate::new(CandidateType::Relay, Endpoint { ip: [198, 51, 100, 1], port: 54321 }));
    c
}

/// The number of candidates of type `t`.
pub open spec fn count_type(s: Seq<IceCandidate>, t: CandidateType) -> nat
    decreases s.len(),
{
    if s.len() == 0 {
        0
    } else {
        count_type(s.drop_last(), t) + if s.last().candidate_type == t {
            1nat
        } else {
            0nat
        }
    }
}

/// The outcome of the connectivity checks: success, how, and the number of
/// candidate pairs checked.
///
/// Host pairs are checked first and succeed only when neither peer is behind
/// a NAT (at the first host pair); then server reflexive pairs, which succeed
/// at the first pair when the NAT types allow direct P2P; then relay pairs,
/// the first of which always succeeds. Every pair checked counts, including
/// all pairs of a phase that did not succeed.
pub open spec fn spec_checks(l: Seq<IceCandidate>, r: Seq<IceCandidate>, ln: NatType, rn: NatType) -> (bool, ConnectionMethod, nat) {
    let hl = count_type(l, CandidateType::Host);
    let hr = count_type(r, CandidateType::Host);
    let sl = count_type(l, CandidateType::ServerReflexive);
    let sr = count_type(r, CandidateType::ServerReflexive);
    let rl = count_type(l, CandidateType::Relay);
    let rr = count_type(r, CandidateType::Relay);
    if hl > 0 && hr > 0 && ln is Open && rn is Open {
        (true, ConnectionMethod::DirectP2P, 1)
    } else if sl > 0 && sr > 0 && spec_can_direct_p2p(ln, rn) {
        (true, ConnectionMethod::StunAssistedP2P, hl * hr + 1)
    } else if rl > 0 && rr > 0 {
        (true, ConnectionMethod::RelayFallback, hl * hr + sl * sr + 1)
    } else {
        (false, ConnectionMethod::Failed, hl * hr + sl * sr)
    }
}

proof fn lemma_count_type_take(s: Seq<IceCandidate>, t: CandidateType, i: int)
    requires
        0 <= i < s.len(),
    ensures
        count_type(s.take(i + 1), t) == count_type(s.take(i), t) + if s[i].candidate_type == t {
            1nat
        } else {
            0nat
        },
{
    assert(s.take(i + 1).drop_last() =~= s.take(i));
}

proof fn lemma_count_type_le(s: Seq<IceCandidate>, t: CandidateType)
    ensures
        count_type(s, t) <= s.len(),
    decreases s.len(),
{
    if s.len() > 0 {
        lemma_count_type_le(s.drop_last(), t);
    }
}

/// Count the candidate pairs of type `t` one by one: for every local
/// candidate of type `t`, every remote candidate of type `t`. Stops at the
/// first pair when `stop_at_first` holds.
fn check_phase(local: &[IceCandidate], remote: &[IceCandidate], t: CandidateType, stop_at_first: bool, prior: usize) -> (r: (bool, usize))
    requires
        prior + local@.len() * remote@.len() <= usize::MAX,
    ensures
        count_type(local@, t) > 0 && count_type(remote@, t) > 0 && stop_at_first ==> r.0 && r.1
            == prior + 1,
        !(count_type(local@, t) > 0 && count_type(remote@, t) > 0 && stop_at_first) ==> !r.0 && r.1
            == prior + count_type(local@, t) * count_type(remote@, t),
{
    let ghost hr = count_type(remote@, t);
    proof {
        lemma_count_type_le(local@, t);
        lemma_count_type_le(remote@, t);
    }
    let mut checks = prior;
    let ghost start = prior;
    let nl = local.len();
    let nr = remote.len();
    let mut i: usize = 0;
    while i < nl
        invariant
            nl == local@.len(),
            nr == remote@.len(),
            hr == count_type(remote@, t),
            hr <= nr,
            count_type(local@, t) <= nl,
            i <= nl,
            start == prior,
            start + nl * nr <= usize::MAX,
            !(count_type(local@.take(i as int), t) > 0 && hr > 0 && stop_at_first),
            checks == start + count_type(local@.take(i as int), t) * hr,
            count_type(local@.take(i as int), t) <= i,
        decreases nl - i,
    {
        proof {
            lemma_count_type_take(local@, t, i as int);
        }
        if local[i].candidate_type == t {
            let ghost ci = count_type(local@.take(i as int), t);
            let mut j: usize = 0;
            while j < nr
                invariant
                    nl == local@.len(),
                    nr == remote@.len(),
                    i < nl,
                    j <= nr,
                    local@[i as int].candidate_type == t,
                    count_type(local@.take(i + 1), t) == ci + 1,
                    hr == count_type(remote@, t),
                    hr <= nr,
                    ci <= i,
                    start == prior,
            start + nl * nr <= usize::MAX,
                    !(ci > 0 && hr > 0 && stop_at_first),
                    checks == start + ci * hr + count_type(remote@.take(j as int), t),
                    count_type(remote@.take(j as int), t) <= j,
                    stop_at_first ==> count_type(remote@.take(j as int), t) == 0,
                decreases nr - j,
            {
                proof {
                    lemma_count_type_take(remote@, t, j as int);
                }
                if remote[j].candidate_type == t {
                    proof {
                        assert(ci * hr + count_type(remote@.take(j as int), t) + 1 <= nl * nr) by (nonlinear_arith)
                            requires
                                ci <= i,
                                i < nl,
                                hr <= nr,
                                count_type(remote@.take(j as int), t) < nr,
                        ;
                    }
                    checks += 1;
                    if stop_at_first {
                        proof {
                            assert(count_type(local@, t) > 0) by {
                                lemma_count_type_mono(local@, t, i + 1);
                            }
                            assert(hr > 0) by {
                                lemma_count_type_mono(remote@, t, j + 1);
                            }
                            assert(ci == 0);
                        }
                        return (true, checks);
                    }
                }
                j += 1;
            }
            assert(remote@.take(nr as int) =~= remote@);
            proof {
                assert((ci + 1) * hr == ci * hr + hr) by (nonlinear_arith);
            }
        }
        i += 1;
    }
    assert(local@.take(nl as int) =~= local@);
    (false, checks)
}

/// Counts only grow as more of the sequence is taken.
proof fn lemma_count_type_mono(s: Seq<IceCandidate>, t: CandidateType, k: int)
    requires
        0 <= k <= s.len(),
    ensures
        count_type(s.take(k), t) <= count_type(s, t),
    decreases s.len() - k,
{
    if k < s.len() {
        lemma_count_type_mono(s, t, k + 1);
        lemma_count_type_take(s, t, k);
    } else {
        assert(s.take(k) =~= s);
    }
}

/// Perform connectivity checks between candidate pairs: host pairs (direct
/// P2P, only without NAT on both sides), then server reflexive pairs (STUN
/// assisted, when the NAT types allow direct P2P), then relay pairs (always
/// successful). Returns success, the method, and the number of checks.
pub fn perform_connectivity_checks(local_candidates: &[IceCandidate], remote_candidates: &[IceCandidate], local_nat: NatType, remote_nat: NatType) -> (r: (bool, ConnectionMethod, usize))
    requires
        3 * local_candidates@.len() * remote_candidates@.len() <= usize::MAX,
    ensures
        (r.0, r.1, r.2 as nat) == spec_checks(local_candidates@, remote_candidates@, local_nat, remote_nat),
{
    let l = local_candidates;
    let rm = remote_candidates;
    proof {
        assert(l@.len() * rm@.len() <= 3 * l@.len() * rm@.len()) by (nonlinear_arith);
    }
    let both_open = matches!(local_nat, NatType::Open) && matches!(remote_nat, NatType::Open);
    let (ok, checks) = check_phase(l, rm, CandidateType::Host, both_open, 0);
    if ok {
        return (true, ConnectionMethod::DirectP2P, checks);
    }
    let ghost hl = count_type(l@, CandidateType::Host);
    let ghost hr = count_type(rm@, CandidateType::Host);
    let ghost sl = count_type(l@, CandidateType::ServerReflexive);
    let ghost sr = count_type(rm@, CandidateType::ServerReflexive);
    proof {
        lemma_count_type_le(l@, CandidateType::Host);
        lemma_count_type_le(rm@, CandidateType::Host);
        lemma_count_type_le(l@, CandidateType::ServerReflexive);
        lemma_count_type_le(rm@, CandidateType::ServerReflexive);
        assert(hl * hr <= l@.len() * rm@.len()) by (nonlinear_arith)
            requires
                hl <= l@.len(),
                hr <= rm@.len(),
        ;
        assert(checks + l@.len() * rm@.len() <= usize::MAX) by (nonlinear_arith)
            requires
                checks == hl * hr,
                hl * hr <= l@.len() * rm@.len(),
                3 * l@.len() * rm@.len() <= usize::MAX,
        ;
    }
    let p2p = local_nat.can_direct_p2p(&remote_nat);
    let (ok, checks) = check_phase(l, rm, CandidateType::ServerReflexive, p2p, checks);
    if ok {
        return (true, ConnectionMethod::StunAssistedP2P, checks);
    }
    proof {
        assert(sl * sr <= l@.len() * rm@.len()) by (nonlinear_arith)
            requires
                sl <= l@.len(),
                sr <= rm@.len(),
        ;
        assert(checks + l@.len() * rm@.len() <= usize::MAX) by (nonlinear_arith)
            requires
                checks == hl * hr + sl * sr,
                hl * hr <= l@.len() * rm@.len(),
                sl * sr <= l@.len() * rm@.len(),
                3 * l@.len() * rm@.len() <= usize::MAX,
        ;
    }
    let (ok, checks) = check_phase(l, rm, CandidateType::Relay, true, checks);
    if ok {
        return (true, ConnectionMethod::RelayFallback, checks);
    }
    proof {
        let rl = count_type(l@, CandidateType::Relay);
        let rr = count_type(rm@, CandidateType::Relay);
        assert(rl * rr == 0) by (nonlinear_arith)
            requires
                !(rl > 0 && rr > 0),
        ;
    }
    (false, ConnectionMethod::Failed, checks)
}

/// The statistics of a matrix of traversal results.
pub struct TestMatrixResult {
    results: Vec<TraversalResult>,
}

/// The number of successful results.
pub open spec fn count_success(s: Seq<TraversalResult>) -> nat
    decreases s.len(),
{
    if s.len() == 0 {
        0
    } else {
        count_success(s.drop_last()) + if s.last().success {
            1nat
        } else {
            0nat
        }
    }
}

/// The sum of the connection times.
pub open spec fn total_time(s: Seq<TraversalResult>) -> int
    decreases s.len(),
{
    if s.len() == 0 {
        0
    } else {
        total_time(s.drop_last()) + s.last().time_to_connect_ms
    }
}

proof fn lemma_count_success_le(s: Seq<TraversalResult>)
    ensures
        count_success(s) <= s.len(),
    decreases s.len(),
{
    if s.len() > 0 {
        lemma_count_success_le(s.drop_last());
    }
}

impl TestMatrixResult {
    /// The results recorded so far, in order.
    pub closed spec fn spec_results(&self) -> Seq<TraversalResult> {
        self.results@
    }

    /// An empty result matrix.
    pub fn new() -> (m: Self)
        ensures
            m.spec_results() == Seq::<TraversalResult>::empty(),
    {
        TestMatrixResult { results: Vec::new() }
    }

    /// Record one more result.
    pub fn add_result(&mut self, result: TraversalResult)
        ensures
            final(self).spec_results() == old(self).spec_results().push(result),
    {
        self.results.push(result);
    }

    /// The recorded results, in order.
    pub fn results(&self) -> (r: &[TraversalResult])
        ensures
            r@ == self.spec_results(),
    {
        self.results.as_slice()
    }

    /// The number of recorded results.
    pub fn len(&self) -> (n: usize)
        ensures
            n == self.spec_results().len(),
    {
        self.results.len()
    }

    /// The number of successful results.
    pub fn success_count(&self) -> (n: usize)
        ensures
            n == count_success(self.spec_results()),
    {
        let n = self.results.len();
        let mut c: usize = 0;
        let mut i: usize = 0;
        while i < n
            invariant
                n == self.results@.len(),
                i <= n,
                c == count_success(self.results@.take(i as int)),
                c <= i,
            decreases n - i,
        {
            proof {
                assert(self.results@.take(i + 1).drop_last() =~= self.results@.take(i as int));
            }
            if self.results[i].success {
                c += 1;
            }
            i += 1;
        }
        assert(self.results@.take(n as int) =~= self.results@);
        c
    }

    /// The average connection time in milliseconds, rounded down; 0 when
    /// there are no results.
    pub fn average_connection_time_ms(&self) -> (avg: u64)
        requires
            total_time(self.spec_results()) <= u64::MAX,
        ensures
            self.spec_results().len() == 0 ==> avg == 0,
            self.spec_results().len() > 0 ==> avg == total_time(self.spec_results()) / (self.spec_results().len() as int),
    {
        let n = self.results.len();
        if n == 0 {
            return 0;
        }
        let mut total: u64 = 0;
        let mut i: usize = 0;
        while i < n
            invariant
                n == self.results@.len(),
                i <= n,
                total == total_time(self.results@.take(i as int)),
                total_time(self.results@) <= u64::MAX,
            decreases n - i,
        {
            proof {
                assert(self.results@.take(i + 1).drop_last() =~= self.results@.take(i as int));
                lemma_total_time_mono(self.results@, i + 1);
            }
            total = total + self.results[i].time_to_connect_ms;
            i += 1;
        }
        assert(self.results@.take(n as int) =~= self.results@);
        total / (n as u64)
    }

    /// Whether the connection times add up to no more than `u64::MAX`, as
    /// `average_connection_time_ms` needs: a caller tests this first.
    pub fn connection_time_fits(&self) -> (b: bool)
        ensures
            b == (total_time(self.spec_results()) <= u64::MAX),
    {
        let n = self.results.len();
        let mut total: u64 = 0;
        let mut i: usize = 0;
        while i < n
            invariant
                n == self.results@.len(),
                i <= n,
                total == total_time(self.results@.take(i as int)),
            decreases n - i,
        {
            proof {
                assert(self.results@.take(i + 1).drop_last() =~= self.results@.take(i as int));
            }
            match total.checked_add(self.results[i].time_to_connect_ms) {
                Some(t) => {
                    total = t;
                },
                None => {
                    proof {
                        lemma_total_time_mono(self.results@, i + 1);
                    }
                    return false;
                },
            }
            i += 1;
        }
        assert(self.results@.take(n as int) =~= self.results@);
        true
    }

    /// Whether the product requirement is met: more than 60% of the
    /// traversals succeeded.
    pub fn meets_prd_requirement(&self) -> (b: bool)
        ensures
            b == (5 * count_success(self.spec_results()) > 3 * self.spec_results().len()),
    {
        let s = self.success_count();
        let n = self.results.len();
        proof {
            lemma_count_success_le(self.results@);
        }
        if n == 0 {
            return false;
        }
        (s as u128) * 5 > (n as u128) * 3
    }
}

proof fn lemma_total_time_mono(s: Seq<TraversalResult>, k: int)
    requires
        0 <= k <= s.len(),
    ensures
        total_time(s.take(k)) <= total_time(s),
    decreases s.len() - k,
{
    if k < s.len() {
        lemma_total_time_mono(s, k + 1);
        assert(s.take(k + 1).drop_last() =~= s.take(k));
    } else {
        assert(s.take(k) =~= s);
    }
}

/// A result counted as a peer-to-peer success: it succeeded, directly or
/// with STUN's help.
pub open spec fn is_p2p_success(r: TraversalResult) -> bool {
    r.success && (r.connection_method is DirectP2P || r.connection_method is StunAssistedP2P)
}

/// The number of peer-to-peer successes.
pub open spec fn count_p2p(s: Seq<TraversalResult>) -> nat
    decreases s.len(),
{
    if s.len() == 0 {
        0
    } else {
        count_p2p(s.drop_last()) + if is_p2p_success(s.last()) {
            1nat
        } else {
            0nat
        }
    }
}

/// The number of results that fell back to a relay.
pub open spec fn count_relay(s: Seq<TraversalResult>) -> nat
    decreases s.len(),
{
    if s.len() == 0 {
        0
    } else {
        count_relay(s.drop_last()) + if s.last().connection_method is RelayFallback {
            1nat
        } else {
            0nat
        }
    }
}

/// The result is for the NAT pair `(local, remote)`.
pub open spec fn has_pair(r: TraversalResult, local: NatType, remote: NatType) -> bool {
    r.local_nat == local && r.remote_nat == remote
}

/// The number of results for the NAT pair `(local, remote)`, and how many
/// of them succeeded.
pub open spec fn count_pair(s: Seq<TraversalResult>, local: NatType, remote: NatType) -> (nat, nat)
    decreases s.len(),
{
    if s.len() == 0 {
        (0, 0)
    } else {
        let (t, k) = count_pair(s.drop_last(), local, remote);
        if has_pair(s.last(), local, remote) {
            (t + 1, if s.last().success {
                k + 1
            } else {
                k
            })
        } else {
            (t, k)
        }
    }
}

/// How the results for one pair of NAT types went.
#[derive(Debug, Clone, Copy)]
pub struct NatPairCount {
    pub local_nat: NatType,
    pub remote_nat: NatType,
    /// The number of results for the pair.
    pub total: usize,
    /// The number of them that succeeded.
    pub successful: usize,
}

/// `r` lists each NAT pair that occurs in `s` once, with its counts.
pub open spec fn pair_counts_of(s: Seq<TraversalResult>, r: Seq<NatPairCount>) -> bool {
    &&& forall|i: int|
        0 <= i < r.len() ==> count_pair(s, (#[trigger] r[i]).local_nat, r[i].remote_nat) == (
        r[i].total as nat,
        r[i].successful as nat,
    ) && r[i].total > 0
    &&& forall|i: int, j: int|
        0 <= i < r.len() && 0 <= j < r.len() && i != j ==> !has_pair_key(#[trigger] r[i], #[trigger] r[j])
    &&& forall|k: int| 0 <= k < s.len() ==> exists|i: int| 0 <= i < r.len() && has_pair(#[trigger] s[k], r[i].local_nat, r[i].remote_nat)
}

/// The two counts are for the same NAT pair.
pub open spec fn has_pair_key(a: NatPairCount, b: NatPairCount) -> bool {
    a.local_nat == b.local_nat && a.remote_nat == b.remote_nat
}

proof fn lemma_count_pair_le(s: Seq<TraversalResult>, local: NatType, remote: NatType)
    ensures
        count_pair(s, local, remote).1 <= count_pair(s, local, remote).0 <= s.len(),
    decreases s.len(),
{
    if s.len() > 0 {
        lemma_count_pair_le(s.drop_last(), local, remote);
    }
}

proof fn lemma_count_pair_absent(s: Seq<TraversalResult>, local: NatType, remote: NatType)
    requires
        forall|k: int| 0 <= k < s.len() ==> !has_pair(#[trigger] s[k], local, remote),
    ensures
        count_pair(s, local, remote) == (0nat, 0nat),
    decreases s.len(),
{
    if s.len() > 0 {
        assert(!has_pair(s[s.len() - 1], local, remote));
        lemma_count_pair_absent(s.drop_last(), local, remote);
    }
}

impl TestMatrixResult {
    /// The number of peer-to-peer successes (direct or STUN-assisted).
    pub fn p2p_success_count(&self) -> (n: usize)
        ensures
            n == count_p2p(self.spec_results()),
    {
        let n = self.results.len();
        let mut c: usize = 0;
        let mut i: usize = 0;
        while i < n
            invariant
                n == self.results@.len(),
                i <= n,
                c == count_p2p(self.results@.take(i as int)),
                c <= i,
            decreases n - i,
        {
            proof {
                assert(self.results@.take(i + 1).drop_last() =~= self.results@.take(i as int));
            }
            let r = &self.results[i];
            let direct = match r.connection_method {
                ConnectionMethod::DirectP2P => true,
                ConnectionMethod::StunAssistedP2P => true,
                _ => false,
            };
            if r.success && direct {
                c += 1;
            }
            i += 1;
        }
        assert(self.results@.take(n as int) =~= self.results@);
        c
    }

    /// The number of results that fell back to a relay.
    pub fn relay_count(&self) -> (n: usize)
        ensures
            n == count_relay(self.spec_results()),
    {
        let n = self.results.len();
        let mut c: usize = 0;
        let mut i: usize = 0;
        while i < n
            invariant
                n == self.results@.len(),
                i <= n,
                c == count_relay(self.results@.take(i as int)),
                c <= i,
            decreases n - i,
        {
            proof {
                assert(self.results@.take(i + 1).drop_last() =~= self.results@.take(i as int));
            }
            let relayed = match self.results[i].connection_method {
                ConnectionMethod::RelayFallback => true,
                _ => false,
            };
            if relayed {
                c += 1;
            }
            i += 1;
        }
        assert(self.results@.take(n as int) =~= self.results@);
        c
    }

    /// For each pair of NAT types that occurs, the number of results and of
    /// successes, in the order the pairs first occur.
    pub fn counts_by_nat_combination(&self) -> (r: Vec<NatPairCount>)
        ensures
            pair_counts_of(self.spec_results(), r@),
    {
        let n = self.results.len();
        let mut out: Vec<NatPairCount> = Vec::new();
        let mut i: usize = 0;
        while i < n
            invariant
                n == self.results@.len(),
                i <= n,
                pair_counts_of(self.results@.take(i as int), out@),
            decreases n - i,
        {
            let ghost pre = self.results@.take(i as int);
            let ghost post = self.results@.take(i + 1);
            let ghost before = out@;
            proof {
                assert(post.drop_last() =~= pre);
            }
            let res = self.results[i];
            let m = out.len();
            let mut j: usize = 0;
            while j < m && !(out[j].local_nat == res.local_nat && out[j].remote_nat == res.remote_nat)
                invariant
                    m == out@.len(),
                    j <= m,
                    forall|a: int| 0 <= a < j ==> !has_pair(res, (#[trigger] out@[a]).local_nat, out@[a].remote_nat),
                decreases m - j,
            {
                j += 1;
            }
            if j < m {
                let old_entry = out[j];
                proof {
                    lemma_count_pair_le(pre, old_entry.local_nat, old_entry.remote_nat);
                }
                let entry = NatPairCount {
                    local_nat: old_entry.local_nat,
                    remote_nat: old_entry.remote_nat,
                    total: old_entry.total + 1,
                    successful: if res.success {
                        old_entry.successful + 1
                    } else {
                        old_entry.successful
                    },
                };
                out.set(j, entry);
                proof {
                    assert forall|a: int| 0 <= a < out@.len() implies count_pair(post, (#[trigger] out@[a]).local_nat, out@[a].remote_nat)
                        == (out@[a].total as nat, out@[a].successful as nat) && out@[a].total > 0 by {
                        if a != j {
                            assert(!has_pair_key(before[a], before[j as int]));
                            assert(out@[a] == before[a]);
                        }
                    }
                    assert forall|a: int, b: int| 0 <= a < out@.len() && 0 <= b < out@.len() && a != b implies !has_pair_key(
                        #[trigger] out@[a],
                        #[trigger] out@[b],
                    ) by {
                        assert(!has_pair_key(before[a], before[b]));
                    }
                    assert forall|k: int| 0 <= k < post.len() implies exists|a: int|
                        0 <= a < out@.len() && has_pair(#[trigger] post[k], out@[a].local_nat, out@[a].remote_nat) by {
                        if k < pre.len() {
                            assert(post[k] == pre[k]);
                            let a = choose|a: int| 0 <= a < before.len() && has_pair(pre[k], before[a].local_nat, before[a].remote_nat);
                            assert(has_pair(post[k], out@[a].local_nat, out@[a].remote_nat));
                        } else {
                            assert(has_pair(post[k], out@[j as int].local_nat, out@[j as int].remote_nat));
                        }
                    }
                }
            } else {
                proof {
                    assert forall|k: int| 0 <= k < pre.len() implies !has_pair(#[trigger] pre[k], res.local_nat, res.remote_nat) by {
                        let a = choose|a: int| 0 <= a < before.len() && has_pair(pre[k], before[a].local_nat, before[a].remote_nat);
                        assert(!has_pair(res, before[a].local_nat, before[a].remote_nat));
                    }
                    lemma_count_pair_absent(pre, res.local_nat, res.remote_nat);
                }
                out.push(
                    NatPairCount {
                        local_nat: res.local_nat,
                        remote_nat: res.remote_nat,
                        total: 1,
                        successful: if res.success {
                            1
                        } else {
                            0
                        },
                    },
                );
                proof {
                    assert forall|a: int| 0 <= a < out@.len() implies count_pair(post, (#[trigger] out@[a]).local_nat, out@[a].remote_nat)
                        == (out@[a].total as nat, out@[a].successful as nat) && out@[a].total > 0 by {
                        if a < before.len() {
                            assert(out@[a] == before[a]);
                            assert(!has_pair(res, before[a].local_nat, before[a].remote_nat));
                        }
                    }
                    assert forall|a: int, b: int| 0 <= a < out@.len() && 0 <= b < out@.len() && a != b implies !has_pair_key(
                        #[trigger] out@[a],
                        #[trigger] out@[b],
                    ) by {
                        if a < before.len() && b < before.len() {
                            assert(!has_pair_key(before[a], before[b]));
                        } else if a < before.len() {
                            assert(!has_pair(res, before[a].local_nat, before[a].remote_nat));
                        } else if b < before.len() {
                            assert(!has_pair(res, before[b].local_nat, before[b].remote_nat));
                        }
                    }
                    assert forall|k: int| 0 <= k < post.len() implies exists|a: int|
                        0 <= a < out@.len() && has_pair(#[trigger] post[k], out@[a].local_nat, out@[a].remote_nat) by {
                        if k < pre.len() {
                            assert(post[k] == pre[k]);
                            let a = choose|a: int| 0 <= a < before.len() && has_pair(pre[k], before[a].local_nat, before[a].remote_nat);
                            assert(out@[a] == before[a]);
                            assert(has_pair(post[k], out@[a].local_nat, out@[a].remote_nat));
                        } else {
                            assert(has_pair(post[k], out@[before.len() as int].local_nat, out@[before.len() as int].remote_nat));
                        }
                    }
                }
            }
            i += 1;
        }
        assert(self.results@.take(n as int) =~= self.results@);
        out
    }
}

/// The outcome of a traversal between peers behind `local` and `remote`:
/// success, method and the number of checks, for the candidates each side
/// gathers. Without NAT on either side the first host pair connects; else,
/// when neither side is Symmetric, the reflexive pair connects if the NAT
/// types allow direct P2P and the relay pair after it otherwise; with a
/// Symmetric side there are no reflexive candidates and the relay pair
/// connects after the host pair.
pub open spec fn traversal_outcome(local: NatType, remote: NatType) -> (bool, ConnectionMethod, nat) {
    if local is Open && remote is Open {
        (true, ConnectionMethod::DirectP2P, 1)
    } else if !(local is Symmetric) && !(remote is Symmetric) {
        if spec_can_direct_p2p(local, remote) {
            (true, ConnectionMethod::StunAssistedP2P, 2)
        } else {
            (true, ConnectionMethod::RelayFallback, 3)
        }
    } else {
        (true, ConnectionMethod::RelayFallback, 2)
    }
}

/// The candidates gathered behind `nat_type` hold one host and one relay
/// candidate, and one server reflexive candidate unless it is Symmetric.
proof fn lemma_gathered_counts(nat_type: NatType, c: Seq<IceCandidate>)
    requires
        c.len() == gathered_types(nat_type).len(),
        forall|i: int| 0 <= i < c.len() ==> (#[trigger] c[i]).candidate_type == gathered_types(nat_type)[i],
    ensures
        count_type(c, CandidateType::Host) == 1,
        count_type(c, CandidateType::Relay) == 1,
        count_type(c, CandidateType::ServerReflexive) == if nat_type is Symmetric {
            0nat
        } else {
            1nat
        },
{
    reveal_with_fuel(count_type, 4);
    let c1 = c.drop_last();
    let c2 = c1.drop_last();
    assert(c1.last() == c[c.len() - 2]);
    assert(c2.len() > 0 ==> c2.last() == c[0]);
    if c.len() == 3 {
        assert(c2.drop_last().len() == 0);
    } else {
        assert(c2.len() == 0);
    }
}

/// Simulates NAT traversal between two peers and records the results.
pub struct NatTraversalSimulator {
    stun_server: Endpoint,
    turn_server: Endpoint,
    results: Vec<TraversalResult>,
}

impl NatTraversalSimulator {
    /// The results recorded so far, in order.
    pub closed spec fn spec_results(&self) -> Seq<TraversalResult> {
        self.results@
    }

    /// The STUN server the simulated peers use.
    pub closed spec fn stun_endpoint(&self) -> Endpoint {
        self.stun_server
    }

    /// The TURN server the simulated peers use.
    pub closed spec fn turn_endpoint(&self) -> Endpoint {
        self.turn_server
    }

    /// A simulator with public STUN (8.8.8.8:3478) and TURN (8.8.4.4:3478)
    /// servers and no results yet.
    pub fn new() -> (s: Self)
        ensures
            s.spec_results() == Seq::<TraversalResult>::empty(),
            s.stun_endpoint().ip@ == seq![8u8, 8, 8, 8] && s.stun_endpoint().port == 3478,
            s.turn_endpoint().ip@ == seq![8u8, 8, 4, 4] && s.turn_endpoint().port == 3478,
    {
        NatTraversalSimulator {
            stun_server: Endpoint { ip: [8, 8, 8, 8], port: 3478 },
            turn_server: Endpoint { ip: [8, 8, 4, 4], port: 3478 },
            results: Vec::new(),
        }
    }

    /// Test NAT traversal between two peers: gather each side's
    /// candidates, run the connectivity checks, and record the result with
    /// the time the attempt took, in milliseconds.
    pub fn test_traversal(&mut self, local_nat: NatType, remote_nat: NatType) -> (r: TraversalResult)
        ensures
            r.local_nat == local_nat,
            r.remote_nat == remote_nat,
            (r.success, r.connection_method, r.ice_checks_performed as nat) == traversal_outcome(local_nat, remote_nat),
            r.ice_candidates_gathered == gathered_types(local_nat).len() + gathered_types(remote_nat).len(),
            final(self).spec_results() == old(self).spec_results().push(r),
    {
        let start = instant_now();
        let local_candidates = gather_ice_candidates(local_nat);
        let remote_candidates = gather_ice_candidates(remote_nat);
        proof {
            lemma_gathered_counts(local_nat, local_candidates@);
            lemma_gathered_counts(remote_nat, remote_candidates@);
            assert(3 * local_candidates@.len() * remote_candidates@.len() <= 27) by (nonlinear_arith)
                requires
                    local_candidates@.len() <= 3,
                    remote_candidates@.len() <= 3,
            ;
        }
        let (success, method, checks) = perform_connectivity_checks(
            local_candidates.as_slice(),
            remote_candidates.as_slice(),
            local_nat,
            remote_nat,
        );
        let elapsed = instant_elapsed(&start);
        let result = TraversalResult {
            local_nat,
            remote_nat,
            success,
            connection_method: method,
            time_to_connect_ms: duration_nanos(elapsed) / 1_000_000,
            ice_candidates_gathered: local_candidates.len() + remote_candidates.len(),
            ice_checks_performed: checks,
        };
        self.results.push(result);
        result
    }

    /// Run a traversal for every ordered pair of NAT types (No NAT, Full
    /// Cone, Restricted Cone, Port Restricted Cone, Symmetric, local type
    /// in the outer loop) and collect the results.
    pub fn run_test_matrix(&mut self) -> (m: TestMatrixResult)
        ensures
            m.spec_results().len() == 25,
            forall|i: int|
                0 <= i < 25 ==> {
                    let r = #[trigger] m.spec_results()[i];
                    &&& r.local_nat == matrix_nat(i / 5)
                    &&& r.remote_nat == matrix_nat(i % 5)
                    &&& (r.success, r.connection_method, r.ice_checks_performed as nat) == traversal_outcome(
                        r.local_nat,
                        r.remote_nat,
                    )
                },
            final(self).spec_results() == old(self).spec_results() + m.spec_results(),
    {
        let nat_types: [NatType; 5] = [
            NatType::Open,
            NatType::FullCone,
            NatType::RestrictedCone,
            NatType::PortRestrictedCone,
            NatType::Symmetric,
        ];
        let mut matrix = TestMatrixResult::new();
        let mut a: usize = 0;
        while a < 5
            invariant
                a <= 5,
                forall|k: int| 0 <= k < 5 ==> nat_types@[k] == matrix_nat(k),
                matrix.spec_results().len() == 5 * a,
                forall|i: int|
                    0 <= i < 5 * a ==> {
                        let r = #[trigger] matrix.spec_results()[i];
                        &&& r.local_nat == matrix_nat(i / 5)
                        &&& r.remote_nat == matrix_nat(i % 5)
                        &&& (r.success, r.connection_method, r.ice_checks_performed as nat) == traversal_outcome(
                            r.local_nat,
                            r.remote_nat,
                        )
                    },
                self.spec_results() == old(self).spec_results() + matrix.spec_results(),
            decreases 5 - a,
        {
            let mut b: usize = 0;
            while b < 5
                invariant
                    a < 5,
                    b <= 5,
                    forall|k: int| 0 <= k < 5 ==> nat_types@[k] == matrix_nat(k),
                    matrix.spec_results().len() == 5 * a + b,
                    forall|i: int|
                        0 <= i < 5 * a + b ==> {
                            let r = #[trigger] matrix.spec_results()[i];
                            &&& r.local_nat == matrix_nat(i / 5)
                            &&& r.remote_nat == matrix_nat(i % 5)
                            &&& (r.success, r.connection_method, r.ice_checks_performed as nat) == traversal_outcome(
                                r.local_nat,
                                r.remote_nat,
                            )
                        },
                    self.spec_results() == old(self).spec_results() + matrix.spec_results(),
                decreases 5 - b,
            {
                let r = self.test_traversal(nat_types[a], nat_types[b]);
                let ghost before = matrix.spec_results();
                matrix.add_result(r);
                proof {
                    let n = 5 * a + b;
                    assert(n / 5 == a as int && n % 5 == b as int) by (nonlinear_arith)
                        requires
                            n == 5 * a + b,
                            b < 5,
                    ;
                    assert(self.spec_results() =~= old(self).spec_results() + matrix.spec_results());
                    assert forall|i: int| 0 <= i < n + 1 implies {
                        let r = #[trigger] matrix.spec_results()[i];
                        &&& r.local_nat == matrix_nat(i / 5)
                        &&& r.remote_nat == matrix_nat(i % 5)
                        &&& (r.success, r.connection_method, r.ice_checks_performed as nat) == traversal_outcome(
                            r.local_nat,
                            r.remote_nat,
                        )
                    } by {
                        if i < n {
                            assert(matrix.spec_results()[i] == before[i]);
                        }
                    }
                }
                b += 1;
            }
            a += 1;
        }
        matrix
    }

    /// The results recorded so far, in order.
    pub fn get_results(&self) -> (r: Vec<TraversalResult>)
        ensures
            r@ == self.spec_results(),
    {
        self.results.clone()
    }
}

impl Default for NatTraversalSimulator {
    fn default() -> (s: Self)
        ensures
            s.spec_results() == Seq::<TraversalResult>::empty(),
    {
        NatTraversalSimulator::new()
    }
}

/// The NAT types of the test matrix, in order.
pub open spec fn matrix_nat(k: int) -> NatType {
    if k == 0 {
        NatType::Open
    } else if k == 1 {
        NatType::FullCone
    } else if k == 2 {
        NatType::RestrictedCone
    } else if k == 3 {
        NatType::PortRestrictedCone
    } else {
        NatType::Symmetric
    }
}

impl Default for TestMatrixResult {
    fn default() -> (m: Self)
        ensures
            m.spec_results() == Seq::<TraversalResult>::empty(),
    {
        TestMatrixResult::new()
    }
}

} // verus!
