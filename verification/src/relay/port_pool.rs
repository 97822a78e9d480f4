//! UDP port-pair pool of the relay node.
//!
//! Ports are handed out in aligned (even, odd) pairs from a configured
//! inclusive range, first fit.
use std::collections::HashSet;
use vstd::prelude::*;

verus! {

broadcast use vstd::std_specs::hash::group_hash_axioms;

/// Errors produced by session and port operations.
#[derive(Debug)]
pub enum SessionError {
    /// The allocation token did not verify; the text says why.
    InvalidToken(String),
    /// A session with this id already exists.
    SessionExists(u64),
    /// No session with this id exists.
    SessionNotFound(u64),
    /// Every port pair of the pool is in use.
    NoPortsAvailable,
}

/// The message of a session error.
pub open spec fn session_error_message(e: SessionError) -> Seq<char> {
    match e {
        SessionError::InvalidToken(m) => "invalid token: "@ + m@,
        SessionError::SessionExists(id) => "session "@ + crate::text::decimal(id as nat) + " already exists"@,
        SessionError::SessionNotFound(id) => "session "@ + crate::text::decimal(id as nat) + " not found"@,
        SessionError::NoPortsAvailable => "no available port pairs"@,
    }
}

impl SessionError {
    /// The human-readable message of this error.
    pub fn to_display_string(&self) -> (s: String)
        ensures
            s@ == session_error_message(*self),
    {
        match self {
            SessionError::InvalidToken(m) => {
                let mut s = String::from_str("invalid token: ");
                s.append(m.as_str());
                s
            },
            SessionError::SessionExists(id) => {
                let mut s = String::from_str("session ");
                crate::text::push_decimal(&mut s, *id);
                s.append(" already exists");
                s
            },
            SessionError::SessionNotFound(id) => {
                let mut s = String::from_str("session ");
                crate::text::push_decimal(&mut s, *id);
                s.append(" not found");
                s
            },
            SessionError::NoPortsAvailable => String::from_str("no available port pairs"),
        }
    }
}

/// Mathematical view of a [`PortPool`].
pub struct PortPoolView {
    pub min_port: u16,
    pub max_port: u16,
    pub allocated: Set<u16>,
}

/// Allocates and tracks UDP port pairs from a configured range.
pub struct PortPool {
    min_port: u16,
    max_port: u16,
    allocated: HashSet<u16>,
}

impl View for PortPool {
    type V = PortPoolView;

    closed spec fn view(&self) -> PortPoolView {
        PortPoolView { min_port: self.min_port, max_port: self.max_port, allocated: self.allocated@ }
    }
}

/// The first port the pair scan looks at: `min_port` rounded up to even.
pub open spec fn scan_start(min_port: u16) -> int {
    if min_port % 2 == 0 {
        min_port as int
    } else {
        min_port + 1
    }
}

/// Neither `p` nor `p + 1` is allocated.
pub open spec fn pair_free(allocated: Set<u16>, p: int) -> bool {
    !allocated.contains(p as u16) && !allocated.contains((p + 1) as u16)
}

/// `p` is one of the even ports that the scan looks at.
pub open spec fn is_candidate(v: PortPoolView, p: int) -> bool {
    p % 2 == 0 && scan_start(v.min_port) <= p < v.max_port
}

/// Some candidate pair of the pool is free.
pub open spec fn has_free_pair(v: PortPoolView) -> bool {
    exists|p: int| is_candidate(v, p) && pair_free(v.allocated, p)
}

/// `p` is the first free candidate pair.
pub open spec fn is_first_free_pair(v: PortPoolView, p: int) -> bool {
    &&& is_candidate(v, p)
    &&& pair_free(v.allocated, p)
    &&& forall|q: int| is_candidate(v, q) && q < p ==> !pair_free(v.allocated, q)
}

/// `min(a - b, 0)` on naturals: subtraction that stops at zero.
pub open spec fn sat_sub(a: int, b: int) -> int {
    if a >= b {
        a - b
    } else {
        0
    }
}

/// Number of ports not yet allocated, as `available_count` computes it.
pub open spec fn spec_available(v: PortPoolView) -> int {
    sat_sub(sat_sub(v.max_port as int, v.min_port as int) + 1, v.allocated.len() as int)
}

impl PortPool {
    /// Every allocated port lies in the configured range, and the set is finite.
    #[verifier::type_invariant]
    spec fn inv(self) -> bool {
        &&& self.allocated@.finite()
        &&& forall|p: u16| #[trigger] self.allocated@.contains(p) ==> self.min_port <= p <= self.max_port
    }

    /// Create a pool that allocates ports in `[min_port, max_port]`.
    pub fn new(min_port: u16, max_port: u16) -> (pool: Self)
        ensures
            pool@.min_port == min_port,
            pool@.max_port == max_port,
            pool@.allocated == Set::<u16>::empty(),
    {
        PortPool { min_port, max_port, allocated: HashSet::new() }
    }

    /// Allocate two consecutive (even, odd) ports: the first pair, scanning up
    /// from `min_port` rounded to even, of which neither port is in use.
    /// Returns `NoPortsAvailable` when no pair is free.
    pub fn allocate_pair(&mut self) -> (r: Result<(u16, u16), SessionError>)
        ensures
            final(self)@.min_port == old(self)@.min_port,
            final(self)@.max_port == old(self)@.max_port,
            match r {
                Ok((a, b)) => {
                    &&& is_first_free_pair(old(self)@, a as int)
                    &&& b == a + 1
                    &&& final(self)@.allocated == old(self)@.allocated.insert(a).insert(b)
                },
                Err(e) => {
                    &&& e is NoPortsAvailable
                    &&& !has_free_pair(old(self)@)
                    &&& final(self)@.allocated == old(self)@.allocated
                },
            },
    {
        proof {
            use_type_invariant(&*self);
        }
        // The scan runs in 32 bits, so that stepping past port 65535 is no overflow.
        let min: u32 = self.min_port as u32;
        let max: u32 = self.max_port as u32;
        let start: u32 = if min % 2 == 0 {
            min
        } else {
            min + 1
        };
        let mut port: u32 = start;
        while port < max
            invariant
                self@ == old(self)@,
                max == self@.max_port,
                start as int == scan_start(self@.min_port),
                port % 2 == 0,
                start <= port <= 65537,
                self.inv(),
                forall|q: int| is_candidate(self@, q) && q < port ==> !pair_free(self@.allocated, q),
            decreases 65537 - port,
        {
            let lo: u16 = port as u16;
            let hi: u16 = (port + 1) as u16;
            if !self.allocated.contains(&lo) && !self.allocated.contains(&hi) {
                let ghost old_alloc = self@.allocated;
                let mut set: HashSet<u16> = HashSet::new();
                std::mem::swap(&mut set, &mut self.allocated);
                set.insert(lo);
                set.insert(hi);
                std::mem::swap(&mut set, &mut self.allocated);
                proof {
                    assert(pair_free(old_alloc, port as int));
                }
                return Ok((lo, hi));
            }
            assert(!pair_free(self@.allocated, port as int));
            port = port + 2;
        }
        assert(!has_free_pair(self@)) by {
            assert forall|q: int| is_candidate(self@, q) implies !pair_free(self@.allocated, q) by {
                assert(q < port);
            }
        }
        Err(SessionError::NoPortsAvailable)
    }

    /// Return two ports to the pool.
    pub fn release_pair(&mut self, port_a: u16, port_b: u16)
        ensures
            final(self)@.min_port == old(self)@.min_port,
            final(self)@.max_port == old(self)@.max_port,
            final(self)@.allocated == old(self)@.allocated.remove(port_a).remove(port_b),
    {
        proof {
            use_type_invariant(&*self);
        }
        let mut set: HashSet<u16> = HashSet::new();
        std::mem::swap(&mut set, &mut self.allocated);
        set.remove(&port_a);
        set.remove(&port_b);
        std::mem::swap(&mut set, &mut self.allocated);
    }

    /// Number of ports still available: the size of the range minus the
    /// number allocated, stopping at zero.
    pub fn available_count(&self) -> (n: usize)
        ensures
            n as int == spec_available(self@),
    {
        proof {
            use_type_invariant(self);
        }
        let total: usize = if self.max_port >= self.min_port {
            (self.max_port - self.min_port) as usize + 1
        } else {
            1
        };
        let used = self.allocated.len();
        if total >= used {
            total - used
        } else {
            0
        }
    }
}

/// Releasing the pair that `allocate_pair` handed out returns the pool to the
/// allocations it had before.
pub proof fn lemma_allocate_release_restores(before: Set<u16>, a: u16, b: u16)
    requires
        !before.contains(a),
        !before.contains(b),
    ensures
        before.insert(a).insert(b).remove(a).remove(b) == before,
{
    assert(before.insert(a).insert(b).remove(a).remove(b) =~= before);
}

/// Allocating a pair takes exactly two ports out of the count of available
/// ports, when the allocated ports lie in the range.
pub proof fn lemma_allocate_takes_two(v: PortPoolView, a: u16)
    requires
        v.allocated.finite(),
        forall|p: u16| #[trigger] v.allocated.contains(p) ==> v.min_port <= p <= v.max_port,
        is_candidate(v, a as int),
        pair_free(v.allocated, a as int),
    ensures
        spec_available(PortPoolView { allocated: v.allocated.insert(a).insert((a + 1) as u16), ..v })
            == spec_available(v) - 2,
{
    let b = (a + 1) as u16;
    let s1 = v.allocated.insert(a);
    let s2 = s1.insert(b);
    assert(s1.len() == v.allocated.len() + 1);
    assert(!s1.contains(b));
    assert(s2.len() == v.allocated.len() + 2);
    // The allocated ports lie in the range, so the count stays below its size.
    let range = Set::<u16>::new(|p: u16| v.min_port <= p <= v.max_port);
    assert(s2.subset_of(range));
    lemma_range_len(v.min_port, v.max_port);
    vstd::set_lib::lemma_len_subset(s2, range);
}

/// The number of 16-bit ports in `[lo, hi]`.
proof fn lemma_range_len(lo: u16, hi: u16)
    requires
        lo <= hi,
    ensures
        Set::<u16>::new(|p: u16| lo <= p <= hi).finite(),
        Set::<u16>::new(|p: u16| lo <= p <= hi).len() == hi - lo + 1,
    decreases hi - lo,
{
    let s = Set::<u16>::new(|p: u16| lo <= p <= hi);
    if lo == hi {
        assert(s =~= set![lo]);
    } else {
        let t = Set::<u16>::new(|p: u16| lo <= p <= (hi - 1) as u16);
        lemma_range_len(lo, (hi - 1) as u16);
        assert(s =~= t.insert(hi));
    }
}

} // verus!
