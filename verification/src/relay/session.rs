//! Relay sessions: a session joins two peers through a pair of relay ports
//! taken from the [`PortPool`]. Sessions are created by a verified ALLOCATE,
//! kept alive by traffic and KEEPALIVEs, and reclaimed by RELEASE or after
//! thirty seconds without activity.
//!
//! Times are nanoseconds of a monotonic clock, counted from the creation of
//! the manager.
use std::collections::HashMap;
use std::time::{Duration, Instant};
use vstd::prelude::*;
use vstd::std_specs::iter::IteratorSpec;
use crate::relay::auth::{spec_auth_error_message, AuthError, TokenPayload};
use crate::relay::metrics::{spec_snapshot, wrap_add, wrap_sub, MetricsSnapshot, RelayMetrics};
use crate::relay::port_pool::{
    has_free_pair, is_first_free_pair, PortPool, PortPoolView, SessionError,
};
use crate::text::{decimal, push_decimal};
use crate::relay::protocol::{parse_message, spec_parse, MessageView, RelayMessage};

verus! {

broadcast use vstd::std_specs::hash::group_hash_axioms;

#[verifier::external_type_specification]
#[verifier::external_body]
pub struct ExInstant(Instant);

/// `Instant::now`: a reading of the monotonic clock. Nothing is stated of it.
#[verifier::external_body]
pub(crate) fn instant_now() -> Instant {
    Instant::now()
}

/// `Instant::elapsed`: the time since `origin`. Nothing is stated of it.
#[verifier::external_body]
pub(crate) fn instant_elapsed(origin: &Instant) -> Duration {
    origin.elapsed()
}

/// `Duration::as_nanos`, kept to its low 64 bits (584 years). Nothing is
/// stated of the value.
#[verifier::external_body]
pub(crate) fn duration_nanos(d: Duration) -> u64 {
    d.as_nanos() as u64
}

/// A peer's socket address: an IPv4 address as its 32 bits, or an IPv6
/// address as its 128 bits with the flow label and scope id; then the port.
#[derive(Debug, Clone, Copy, PartialEq, Eq, Structural)]
pub enum PeerAddr {
    V4 { ip: u32, port: u16 },
    V6 { ip: u128, port: u16, flowinfo: u32, scope_id: u32 },
}

/// The unspecified address `0.0.0.0:0`, held by a peer not yet connected.
pub open spec fn spec_unspecified() -> PeerAddr {
    PeerAddr::V4 { ip: 0, port: 0 }
}

/// The unspecified address `0.0.0.0:0`.
pub fn unspecified_addr() -> (a: PeerAddr)
    ensures
        a == spec_unspecified(),
{
    PeerAddr::V4 { ip: 0, port: 0 }
}

/// One side of a relay session.
#[derive(Debug, Clone, Copy, PartialEq, Eq, Structural)]
pub struct PeerInfo {
    /// The peer's socket address (IP + source port seen by the relay).
    pub addr: PeerAddr,
    /// The UDP port allocated on the relay for this peer.
    pub port: u16,
}

/// A relay session mapping two peers through a port pair.
#[derive(Debug, Clone, Copy, PartialEq, Eq, Structural)]
pub struct RelaySession {
    /// Unique session identifier (matches the token / protocol session_id).
    pub session_id: u64,
    /// First peer (the allocator).
    pub peer_a: PeerInfo,
    /// Second peer (unspecified until peer B joins).
    pub peer_b: PeerInfo,
    /// When the session was created (nanoseconds of the manager's clock).
    pub created_at: u64,
    /// Last time activity was observed (allocate, keepalive, data).
    pub last_activity: u64,
    /// Number of packets forwarded through this session.
    pub bytes_forwarded: u64,
}

/// Sessions without activity for longer than this are reclaimed (30 s, in
/// nanoseconds).
pub const SESSION_TIMEOUT_NS: u64 = 30_000_000_000;

/// A session with this id is recorded.
pub open spec fn has_session(s: Map<u64, RelaySession>, id: u64) -> bool {
    s.contains_key(id)
}

/// Every session is recorded under its own id.
pub open spec fn keyed_by_id(s: Map<u64, RelaySession>) -> bool {
    forall|id: u64| #[trigger] s.contains_key(id) ==> s[id].session_id == id
}

/// The session with the given id (meaningful where `has_session` holds).
pub open spec fn session_of(s: Map<u64, RelaySession>, id: u64) -> RelaySession {
    s[id]
}

/// The sessions with the one of the given id left out.
pub open spec fn without_session(s: Map<u64, RelaySession>, id: u64) -> Map<u64, RelaySession> {
    s.remove(id)
}

/// The sessions with `f` applied to the one of the given id, if any.
pub open spec fn update_session(s: Map<u64, RelaySession>, id: u64, f: spec_fn(RelaySession) -> RelaySession) -> Map<
    u64,
    RelaySession,
> {
    if s.contains_key(id) {
        s.insert(id, f(s[id]))
    } else {
        s
    }
}

/// The session that an ALLOCATE at time `now` records: peer A at the
/// even port, peer B unspecified at the odd one.
pub open spec fn new_session(session_id: u64, peer_a_addr: PeerAddr, port_a: u16, now: u64) -> RelaySession {
    RelaySession {
        session_id,
        peer_a: PeerInfo { addr: peer_a_addr, port: port_a },
        peer_b: PeerInfo { addr: spec_unspecified(), port: (port_a + 1) as u16 },
        created_at: now,
        last_activity: now,
        bytes_forwarded: 0,
    }
}

/// The sessions after peer B of `id` is set to `addr` at time `now`.
pub open spec fn sessions_with_peer_b(s: Map<u64, RelaySession>, id: u64, addr: PeerAddr, now: u64) -> Map<
    u64,
    RelaySession,
> {
    update_session(
        s,
        id,
        |x: RelaySession| RelaySession { peer_b: PeerInfo { addr, ..x.peer_b }, last_activity: now, ..x },
    )
}

/// The sessions after a KEEPALIVE of `id` at time `now`.
pub open spec fn sessions_touched(s: Map<u64, RelaySession>, id: u64, now: u64) -> Map<u64, RelaySession> {
    update_session(s, id, |x: RelaySession| RelaySession { last_activity: now, ..x })
}

/// The sessions after a packet of `id` is forwarded.
pub open spec fn sessions_counted(s: Map<u64, RelaySession>, id: u64) -> Map<u64, RelaySession> {
    update_session(s, id, |x: RelaySession| RelaySession { bytes_forwarded: (x.bytes_forwarded + 1) as u64, ..x })
}

/// A session idle for longer than the timeout at time `now`.
pub open spec fn is_expired(now: u64, s: RelaySession) -> bool {
    (if now >= s.last_activity { now - s.last_activity } else { 0 }) > SESSION_TIMEOUT_NS
}

/// The ids of the sessions expired at time `now`.
pub open spec fn expired_ids(s: Map<u64, RelaySession>, now: u64) -> Set<u64> {
    s.dom().filter(|id: u64| is_expired(now, s[id]))
}

/// The sessions still live at time `now`.
pub open spec fn live_sessions(s: Map<u64, RelaySession>, now: u64) -> Map<u64, RelaySession> {
    s.remove_keys(expired_ids(s, now))
}

/// The ports of the sessions with the given ids released from the set, in
/// order.
pub open spec fn release_all(ports: Set<u16>, s: Map<u64, RelaySession>, ids: Seq<u64>) -> Set<u16>
    decreases ids.len(),
{
    if ids.len() == 0 {
        ports
    } else {
        release_all(ports, s, ids.drop_last()).remove(s[ids.last()].peer_a.port).remove(s[ids.last()].peer_b.port)
    }
}

/// The counters after a session is created.
pub open spec fn metrics_on_allocate(m: Option<RelayMetrics>) -> Option<RelayMetrics> {
    match m {
        Some(x) => Some(
            RelayMetrics {
                active_sessions: wrap_add(x.active_sessions, 1),
                slots_allocated: wrap_add(x.slots_allocated, 1),
                ..x
            },
        ),
        None => None,
    }
}

/// The counters after `k` sessions are reclaimed.
pub open spec fn metrics_on_reclaim(m: Option<RelayMetrics>, k: nat) -> Option<RelayMetrics>
    decreases k,
{
    if k == 0 {
        m
    } else {
        match metrics_on_reclaim(m, (k - 1) as nat) {
            Some(x) => Some(
                RelayMetrics {
                    active_sessions: wrap_sub(x.active_sessions, 1),
                    slots_reclaimed: wrap_add(x.slots_reclaimed, 1),
                    ..x
                },
            ),
            None => None,
        }
    }
}

/// The message of the error for a token issued for another session.
pub open spec fn mismatch_message(token_id: u64, requested: u64) -> Seq<char> {
    "token session_id "@ + decimal(token_id as nat) + " does not match requested "@ + decimal(
        requested as nat,
    )
}

/// Mathematical view of a [`SessionManager`].
pub struct SessionManagerView {
    /// The sessions, by id.
    pub sessions: Map<u64, RelaySession>,
    /// The port pool.
    pub pool: PortPoolView,
    /// The shared secret of allocation tokens.
    pub secret: Seq<u8>,
    /// The metrics collector, when one is attached.
    pub metrics: Option<RelayMetrics>,
    /// The clock that session times are measured on.
    pub clock: Instant,
}

/// Manages all active relay sessions and their port allocations.
pub struct SessionManager {
    sessions: HashMap<u64, RelaySession>,
    port_pool: PortPool,
    hmac_secret: Vec<u8>,
    metrics: Option<RelayMetrics>,
    clock: Instant,
}

impl View for SessionManager {
    type V = SessionManagerView;

    closed spec fn view(&self) -> SessionManagerView {
        SessionManagerView {
            sessions: self.sessions@,
            pool: self.port_pool@,
            secret: self.hmac_secret@,
            metrics: self.metrics,
            clock: self.clock,
        }
    }
}

impl SessionManager {
    #[verifier::type_invariant]
    spec fn inv(self) -> bool {
        keyed_by_id(self.sessions@)
    }

    /// Create a new manager for the UDP port range `[min_port, max_port]`,
    /// with the shared secret of allocation tokens.
    pub fn new(min_port: u16, max_port: u16, hmac_secret: Vec<u8>) -> (m: Self)
        ensures
            m@.sessions == Map::<u64, RelaySession>::empty(),
            m@.pool.min_port == min_port && m@.pool.max_port == max_port,
            m@.pool.allocated == Set::<u16>::empty(),
            m@.secret == hmac_secret@,
            m@.metrics is None,
    {
        SessionManager {
            sessions: HashMap::new(),
            port_pool: PortPool::new(min_port, max_port),
            hmac_secret,
            metrics: None,
            clock: instant_now(),
        }
    }

    /// Attach a metrics collector that session operations keep up to date.
    pub fn with_metrics(self, metrics: RelayMetrics) -> (m: Self)
        ensures
            m@ == (SessionManagerView { metrics: Some(metrics), ..self@ }),
    {
        proof {
            use_type_invariant(&self);
        }
        SessionManager {
            sessions: self.sessions,
            port_pool: self.port_pool,
            hmac_secret: self.hmac_secret,
            metrics: Some(metrics),
            clock: self.clock,
        }
    }

    /// The attached metrics collector, if any.
    pub fn metrics(&self) -> (m: Option<&RelayMetrics>)
        ensures
            match m {
                Some(x) => self@.metrics == Some(*x),
                None => self@.metrics is None,
            },
    {
        match &self.metrics {
            Some(x) => Some(x),
            None => None,
        }
    }

    /// The shared secret that allocation tokens are checked against.
    pub fn hmac_secret(&self) -> (s: &[u8])
        ensures
            s@ == self@.secret,
    {
        self.hmac_secret.as_slice()
    }

    /// The current time of the manager's clock, in nanoseconds since its
    /// creation.
    pub fn now(&self) -> u64 {
        duration_nanos(instant_elapsed(&self.clock))
    }

    fn count_allocation(&mut self)
        ensures
            final(self)@ == (SessionManagerView { metrics: metrics_on_allocate(old(self)@.metrics), ..old(self)@ }),
    {
        proof {
            use_type_invariant(&*self);
        }
        let mut slot: Option<RelayMetrics> = None;
        std::mem::swap(&mut slot, &mut self.metrics);
        let mut updated = match slot {
            Some(mut m) => {
                m.inc_session();
                m.inc_slot_alloc();
                Some(m)
            },
            None => None,
        };
        std::mem::swap(&mut updated, &mut self.metrics);
    }

    fn count_reclaim(&mut self)
        ensures
            final(self)@ == (SessionManagerView { metrics: metrics_on_reclaim(old(self)@.metrics, 1), ..old(self)@ }),
    {
        proof {
            reveal_with_fuel(metrics_on_reclaim, 2);
        }
        proof {
            use_type_invariant(&*self);
        }
        let mut slot: Option<RelayMetrics> = None;
        std::mem::swap(&mut slot, &mut self.metrics);
        let mut updated = match slot {
            Some(mut m) => {
                m.dec_session();
                m.inc_slot_reclaim();
                Some(m)
            },
            None => None,
        };
        std::mem::swap(&mut updated, &mut self.metrics);
    }

    /// Handle an ALLOCATE at time `now`, given what checking the token gave:
    /// an error of the check is an `InvalidToken` with its message; a token
    /// issued for another session is an `InvalidToken`; an existing session
    /// is `SessionExists`; otherwise the first free port pair is taken
    /// (`NoPortsAvailable` when none is) and the session is recorded with
    /// peer A at the even port, peer B unspecified at the odd one.
    pub fn allocate_at(
        &mut self,
        session_id: u64,
        verified: Result<TokenPayload, AuthError>,
        peer_a_addr: PeerAddr,
        now: u64,
    ) -> (r: Result<(u16, u16), SessionError>)
        ensures
            match verified {
                Err(e) => r matches Err(SessionError::InvalidToken(m)) && m@ == spec_auth_error_message(e)
                    && final(self)@ == old(self)@,
                Ok(p) => if p.session_id != session_id {
                    r matches Err(SessionError::InvalidToken(m)) && m@ == mismatch_message(p.session_id, session_id)
                        && final(self)@ == old(self)@
                } else if has_session(old(self)@.sessions, session_id) {
                    r matches Err(SessionError::SessionExists(id)) && id == session_id && final(self)@ == old(self)@
                } else if !has_free_pair(old(self)@.pool) {
                    r matches Err(SessionError::NoPortsAvailable) && final(self)@ == old(self)@
                } else {
                    r matches Ok((a, b)) && {
                        &&& is_first_free_pair(old(self)@.pool, a as int)
                        &&& b == a + 1
                        &&& final(self)@.pool == (PortPoolView {
                            allocated: old(self)@.pool.allocated.insert(a).insert(b),
                            ..old(self)@.pool
                        })
                        &&& final(self)@.sessions == old(self)@.sessions.insert(
                            session_id,
                            new_session(session_id, peer_a_addr, a, now),
                        )
                        &&& final(self)@.secret == old(self)@.secret
                        &&& final(self)@.clock == old(self)@.clock
                        &&& final(self)@.metrics == metrics_on_allocate(old(self)@.metrics)
                    }
                },
            },
    {
        proof {
            use_type_invariant(&*self);
        }
        let payload = match verified {
            Err(e) => {
                return Err(SessionError::InvalidToken(e.to_display_string()));
            },
            Ok(p) => p,
        };
        if payload.session_id != session_id {
            let mut m = String::from_str("token session_id ");
            push_decimal(&mut m, payload.session_id);
            m.append(" does not match requested ");
            push_decimal(&mut m, session_id);
            return Err(SessionError::InvalidToken(m));
        }
        if self.sessions.contains_key(&session_id) {
            return Err(SessionError::SessionExists(session_id));
        }
        let mut pool = PortPool::new(0, 0);
        std::mem::swap(&mut pool, &mut self.port_pool);
        let res = pool.allocate_pair();
        std::mem::swap(&mut pool, &mut self.port_pool);
        let (port_a, port_b) = match res {
            Ok(pair) => pair,
            Err(e) => {
                return Err(e);
            },
        };
        let session = RelaySession {
            session_id,
            peer_a: PeerInfo { addr: peer_a_addr, port: port_a },
            peer_b: PeerInfo { addr: unspecified_addr(), port: port_b },
            created_at: now,
            last_activity: now,
            bytes_forwarded: 0,
        };
        let mut map: HashMap<u64, RelaySession> = HashMap::new();
        std::mem::swap(&mut map, &mut self.sessions);
        map.insert(session_id, session);
        std::mem::swap(&mut map, &mut self.sessions);
        self.count_allocation();
        Ok((port_a, port_b))
    }

    /// Handle an ALLOCATE now (see `allocate_at`).
    pub fn allocate(&mut self, session_id: u64, verified: Result<TokenPayload, AuthError>, peer_a_addr: PeerAddr) -> (r: Result<
        (u16, u16),
        SessionError,
    >)
        ensures
            match verified {
                Err(e) => r matches Err(SessionError::InvalidToken(m)) && m@ == spec_auth_error_message(e)
                    && final(self)@ == old(self)@,
                Ok(p) => if p.session_id != session_id {
                    r matches Err(SessionError::InvalidToken(m)) && m@ == mismatch_message(p.session_id, session_id)
                        && final(self)@ == old(self)@
                } else if has_session(old(self)@.sessions, session_id) {
                    r matches Err(SessionError::SessionExists(id)) && id == session_id && final(self)@ == old(self)@
                } else if !has_free_pair(old(self)@.pool) {
                    r matches Err(SessionError::NoPortsAvailable) && final(self)@ == old(self)@
                } else {
                    r matches Ok((a, b)) && {
                        &&& is_first_free_pair(old(self)@.pool, a as int)
                        &&& b == a + 1
                        &&& final(self)@.pool == (PortPoolView {
                            allocated: old(self)@.pool.allocated.insert(a).insert(b),
                            ..old(self)@.pool
                        })
                        &&& exists|now: u64|
                            final(self)@.sessions == old(self)@.sessions.insert(
                                session_id,
                                #[trigger] new_session(session_id, peer_a_addr, a, now),
                            )
                        &&& final(self)@.secret == old(self)@.secret
                        &&& final(self)@.clock == old(self)@.clock
                        &&& final(self)@.metrics == metrics_on_allocate(old(self)@.metrics)
                    }
                },
            },
    {
        let now = self.now();
        self.allocate_at(session_id, verified, peer_a_addr, now)
    }

    /// Handle a RELEASE — tear down the session and free its ports;
    /// `SessionNotFound` when there is no such session.
    pub fn release(&mut self, session_id: u64) -> (r: Result<(), SessionError>)
        ensures
            !has_session(old(self)@.sessions, session_id) ==> (r matches Err(SessionError::SessionNotFound(id))
                && id == session_id && final(self)@ == old(self)@),
            has_session(old(self)@.sessions, session_id) ==> {
                let s = session_of(old(self)@.sessions, session_id);
                &&& r is Ok
                &&& final(self)@.sessions == without_session(old(self)@.sessions, session_id)
                &&& final(self)@.pool == (PortPoolView {
                    allocated: old(self)@.pool.allocated.remove(s.peer_a.port).remove(s.peer_b.port),
                    ..old(self)@.pool
                })
                &&& final(self)@.secret == old(self)@.secret
                &&& final(self)@.clock == old(self)@.clock
                &&& final(self)@.metrics == metrics_on_reclaim(old(self)@.metrics, 1)
            },
    {
        proof {
            use_type_invariant(&*self);
        }
        let mut map: HashMap<u64, RelaySession> = HashMap::new();
        std::mem::swap(&mut map, &mut self.sessions);
        let ghost before = map@;
        let taken = map.remove(&session_id);
        proof {
            if taken is None {
                assert(map@ =~= before);
            }
        }
        std::mem::swap(&mut map, &mut self.sessions);
        let session = match taken {
            None => {
                return Err(SessionError::SessionNotFound(session_id));
            },
            Some(s) => s,
        };
        let mut pool = PortPool::new(0, 0);
        std::mem::swap(&mut pool, &mut self.port_pool);
        pool.release_pair(session.peer_a.port, session.peer_b.port);
        std::mem::swap(&mut pool, &mut self.port_pool);
        self.count_reclaim();
        Ok(())
    }

    /// Register or update peer B's address for an existing session at time
    /// `now`; `false` when there is no such session.
    pub fn set_peer_b_at(&mut self, session_id: u64, addr: PeerAddr, now: u64) -> (b: bool)
        ensures
            b == has_session(old(self)@.sessions, session_id),
            final(self)@ == (SessionManagerView {
                sessions: sessions_with_peer_b(old(self)@.sessions, session_id, addr, now),
                ..old(self)@
            }),
    {
        proof {
            use_type_invariant(&*self);
        }
        let ghost f = |x: RelaySession| RelaySession { peer_b: PeerInfo { addr, ..x.peer_b }, last_activity: now, ..x };
        let s = match self.sessions.get(&session_id) {
            None => {
                return false;
            },
            Some(x) => *x,
        };
        let t = RelaySession { peer_b: PeerInfo { addr, port: s.peer_b.port }, last_activity: now, ..s };
        proof {
            assert(t == f(s));
        }
        self.replace_session(t, session_id, Ghost(f));
        true
    }

    /// Register or update peer B's address for an existing session now.
    pub fn set_peer_b(&mut self, session_id: u64, addr: PeerAddr) -> (b: bool)
        ensures
            b == has_session(old(self)@.sessions, session_id),
            exists|now: u64|
                final(self)@ == (SessionManagerView {
                    sessions: #[trigger] sessions_with_peer_b(old(self)@.sessions, session_id, addr, now),
                    ..old(self)@
                }),
    {
        let now = self.now();
        self.set_peer_b_at(session_id, addr, now)
    }

    /// Replace the session of `session_id` by `t`, which is `f` of it.
    fn replace_session(&mut self, t: RelaySession, session_id: u64, f: Ghost<spec_fn(RelaySession) -> RelaySession>)
        requires
            old(self)@.sessions.contains_key(session_id),
            t == f@(old(self)@.sessions[session_id]),
            t.session_id == session_id,
        ensures
            final(self)@ == (SessionManagerView {
                sessions: update_session(old(self)@.sessions, session_id, f@),
                ..old(self)@
            }),
    {
        proof {
            use_type_invariant(&*self);
        }
        let mut map: HashMap<u64, RelaySession> = HashMap::new();
        std::mem::swap(&mut map, &mut self.sessions);
        map.insert(session_id, t);
        std::mem::swap(&mut map, &mut self.sessions);
    }

    /// Resolve the forwarding target of a DATA packet from `src_addr`: the
    /// other peer of the session. Counts the packet on the session. Fails
    /// with `(session_id, None)` when the session does not exist, and with
    /// `(session_id, Some(src_addr))` when neither peer has that address.
    pub fn forward_target(&mut self, session_id: u64, src_addr: PeerAddr) -> (r: Result<PeerAddr, (u64, Option<PeerAddr>)>)
        requires
            has_session(old(self)@.sessions, session_id) ==> session_of(old(self)@.sessions, session_id).bytes_forwarded
                < u64::MAX,
        ensures
            !has_session(old(self)@.sessions, session_id) ==> r == Err::<PeerAddr, (u64, Option<PeerAddr>)>(
                (session_id, None),
            ) && final(self)@ == old(self)@,
            has_session(old(self)@.sessions, session_id) ==> {
                let s = session_of(old(self)@.sessions, session_id);
                if src_addr == s.peer_a.addr || src_addr == s.peer_b.addr {
                    &&& r == Ok::<PeerAddr, (u64, Option<PeerAddr>)>(
                        if src_addr == s.peer_a.addr {
                            s.peer_b.addr
                        } else {
                            s.peer_a.addr
                        },
                    )
                    &&& final(self)@ == (SessionManagerView {
                        sessions: sessions_counted(old(self)@.sessions, session_id),
                        ..old(self)@
                    })
                } else {
                    r == Err::<PeerAddr, (u64, Option<PeerAddr>)>((session_id, Some(src_addr)))
                        && final(self)@ == old(self)@
                }
            },
    {
        proof {
            use_type_invariant(&*self);
        }
        let s = match self.sessions.get(&session_id) {
            None => {
                return Err((session_id, None));
            },
            Some(x) => *x,
        };
        let target = if src_addr == s.peer_a.addr {
            s.peer_b.addr
        } else if src_addr == s.peer_b.addr {
            s.peer_a.addr
        } else {
            return Err((session_id, Some(src_addr)));
        };
        let ghost f = |x: RelaySession| RelaySession { bytes_forwarded: (x.bytes_forwarded + 1) as u64, ..x };
        let t = RelaySession { bytes_forwarded: s.bytes_forwarded + 1, ..s };
        self.replace_session(t, session_id, Ghost(f));
        Ok(target)
    }

    /// Handle a KEEPALIVE at time `now` — reset the activity timestamp;
    /// `false` when there is no such session.
    pub fn keepalive_at(&mut self, session_id: u64, now: u64) -> (b: bool)
        ensures
            b == has_session(old(self)@.sessions, session_id),
            final(self)@ == (SessionManagerView {
                sessions: sessions_touched(old(self)@.sessions, session_id, now),
                ..old(self)@
            }),
    {
        proof {
            use_type_invariant(&*self);
        }
        let ghost f = |x: RelaySession| RelaySession { last_activity: now, ..x };
        let s = match self.sessions.get(&session_id) {
            None => {
                return false;
            },
            Some(x) => *x,
        };
        let t = RelaySession { last_activity: now, ..s };
        self.replace_session(t, session_id, Ghost(f));
        true
    }

    /// Handle a KEEPALIVE now.
    pub fn keepalive(&mut self, session_id: u64) -> (b: bool)
        ensures
            b == has_session(old(self)@.sessions, session_id),
            exists|now: u64|
                final(self)@ == (SessionManagerView {
                    sessions: #[trigger] sessions_touched(old(self)@.sessions, session_id, now),
                    ..old(self)@
                }),
    {
        let now = self.now();
        self.keepalive_at(session_id, now)
    }

    /// Look up a session by ID.
    pub fn get(&self, session_id: u64) -> (r: Option<&RelaySession>)
        ensures
            match r {
                Some(s) => has_session(self@.sessions, session_id) && *s == session_of(self@.sessions, session_id),
                None => !has_session(self@.sessions, session_id),
            },
    {
        self.sessions.get(&session_id)
    }

    /// The ids of the sessions expired at time `now`, each once.
    fn expired_at(&self, now: u64) -> (ids: Vec<u64>)
        ensures
            ids@.no_duplicates(),
            ids@.to_set() == expired_ids(self@.sessions, now),
    {
        let m = &self.sessions;
        let mut ids: Vec<u64> = Vec::new();
        let ghost keys = m.keys().remaining().unref();
        for k in it: m.keys()
            invariant
                it.seq().unref() == keys,
                keys.to_set() == m@.dom(),
                keys.no_duplicates(),
                ids@.no_duplicates(),
                forall|x: u64|
                    #[trigger] ids@.contains(x) <==> (keys.take(it.index() as int).contains(x) && is_expired(
                        now,
                        m@[x],
                    )),
        {
            let ghost i = it.index() as int;
            let ghost kk = *k;
            proof {
                assert(keys[i] == kk);
                assert(!keys.take(i).contains(kk)) by {
                    if keys.take(i).contains(kk) {
                        let j = choose|j: int| 0 <= j < i && #[trigger] keys.take(i)[j] == kk;
                        assert(keys[j] == keys[i]);
                    }
                }
                assert(keys.to_set().contains(kk));
            }
            let ghost before = ids@;
            let s = *m.get(k).unwrap();
            let expired = now.saturating_sub(s.last_activity) > SESSION_TIMEOUT_NS;
            if expired {
                ids.push(*k);
                proof {
                    assert(!before.contains(kk));
                    assert forall|a: int, b: int| 0 <= a < b < ids@.len() implies ids@[a] != ids@[b] by {
                        assert(before[a] == ids@[a]);
                        if b == before.len() {
                            assert(before.contains(before[a]));
                        } else {
                            assert(before[b] == ids@[b]);
                        }
                    }
                }
            }
            proof {
                assert forall|x: u64| #[trigger]
                    ids@.contains(x) <==> (keys.take(i + 1).contains(x) && is_expired(now, m@[x])) by {
                    if keys.take(i + 1).contains(x) && x != kk {
                        let j = choose|j: int| 0 <= j < i + 1 && #[trigger] keys.take(i + 1)[j] == x;
                        assert(keys.take(i)[j] == x);
                    }
                    if keys.take(i).contains(x) {
                        let j = choose|j: int| 0 <= j < i && #[trigger] keys.take(i)[j] == x;
                        assert(keys.take(i + 1)[j] == x);
                    }
                    if x == kk {
                        assert(keys.take(i + 1)[i] == kk);
                        if expired {
                            assert(ids@[before.len() as int] == kk);
                        }
                    }
                    if ids@.contains(x) && x != kk {
                        let j = choose|j: int| 0 <= j < ids@.len() && ids@[j] == x;
                        assert(j < before.len());
                        assert(before[j] == x);
                    }
                    if before.contains(x) {
                        let j = choose|j: int| 0 <= j < before.len() && before[j] == x;
                        assert(ids@[j] == x);
                    }
                }
            }
        }
        proof {
            assert(keys.take(keys.len() as int) =~= keys);
            assert forall|x: u64| #[trigger] ids@.to_set().contains(x) <==> expired_ids(m@, now).contains(x) by {
                assert(keys.to_set().contains(x) <==> keys.contains(x));
            }
            assert(ids@.to_set() =~= expired_ids(m@, now));
        }
        ids
    }

    /// Remove the sessions idle for more than thirty seconds at time `now`,
    /// freeing their ports. Returns the ids of the removed sessions, each
    /// once, in the order the table gave them.
    pub fn cleanup_expired_at(&mut self, now: u64) -> (removed: Vec<u64>)
        ensures
            final(self)@.sessions == live_sessions(old(self)@.sessions, now),
            removed@.no_duplicates(),
            removed@.to_set() == expired_ids(old(self)@.sessions, now),
            final(self)@.pool == (PortPoolView {
                allocated: release_all(old(self)@.pool.allocated, old(self)@.sessions, removed@),
                ..old(self)@.pool
            }),
            final(self)@.secret == old(self)@.secret,
            final(self)@.clock == old(self)@.clock,
            final(self)@.metrics == metrics_on_reclaim(old(self)@.metrics, removed@.len()),
    {
        proof {
            use_type_invariant(&*self);
        }
        let ghost src = self.sessions@;
        let ghost pool0 = self.port_pool@;
        let ghost metrics0 = self.metrics;
        let removed = self.expired_at(now);
        let mut map: HashMap<u64, RelaySession> = HashMap::new();
        std::mem::swap(&mut map, &mut self.sessions);
        let n = removed.len();
        let mut j: usize = 0;
        while j < n
            invariant
                n == removed@.len(),
                removed@.no_duplicates(),
                removed@.to_set() == expired_ids(src, now),
                keyed_by_id(src),
                self.sessions@ == Map::<u64, RelaySession>::empty(),
                j <= n,
                map@ == src.remove_keys(removed@.take(j as int).to_set()),
                self.port_pool@ == (PortPoolView {
                    allocated: release_all(pool0.allocated, src, removed@.take(j as int)),
                    ..pool0
                }),
                self.metrics == metrics_on_reclaim(metrics0, j as nat),
                self@.secret == old(self)@.secret,
                self@.clock == old(self)@.clock,
            decreases n - j,
        {
            let id = removed[j];
            proof {
                assert(removed@.to_set().contains(id)) by {
                    assert(removed@[j as int] == id);
                }
                assert(src.contains_key(id));
                assert(!removed@.take(j as int).to_set().contains(id)) by {
                    if removed@.take(j as int).contains(id) {
                        let k = choose|k: int| 0 <= k < j && #[trigger] removed@.take(j as int)[k] == id;
                        assert(removed@[k] == removed@[j as int]);
                    }
                }
                assert(map@.contains_key(id));
                assert(removed@.take(j + 1).drop_last() =~= removed@.take(j as int));
                assert(removed@.take(j + 1).last() == id);
                assert(src.remove_keys(removed@.take(j as int).to_set()).remove(id) =~= src.remove_keys(
                    removed@.take(j + 1).to_set(),
                )) by {
                    assert(removed@.take(j + 1).to_set() =~= removed@.take(j as int).to_set().insert(id)) by {
                        assert forall|x: u64| #[trigger] removed@.take(j + 1).to_set().contains(x)
                            <==> removed@.take(j as int).to_set().insert(id).contains(x) by {
                            if removed@.take(j + 1).contains(x) && x != id {
                                let k = choose|k: int| 0 <= k < j + 1 && #[trigger] removed@.take(j + 1)[k] == x;
                                assert(removed@.take(j as int)[k] == x);
                            }
                            if removed@.take(j as int).contains(x) {
                                let k = choose|k: int| 0 <= k < j && #[trigger] removed@.take(j as int)[k] == x;
                                assert(removed@.take(j + 1)[k] == x);
                            }
                            if x == id {
                                assert(removed@.take(j + 1)[j as int] == id);
                            }
                        }
                    }
                }
                reveal_with_fuel(metrics_on_reclaim, 2);
            }
            let gone = map.remove(&id);
            if let Some(s) = gone {
                let mut pool = PortPool::new(0, 0);
                std::mem::swap(&mut pool, &mut self.port_pool);
                pool.release_pair(s.peer_a.port, s.peer_b.port);
                std::mem::swap(&mut pool, &mut self.port_pool);
                self.count_reclaim();
            }
            j += 1;
        }
        proof {
            assert(removed@.take(n as int) =~= removed@);
            assert(map@ =~= live_sessions(src, now));
            assert(keyed_by_id(map@));
        }
        std::mem::swap(&mut map, &mut self.sessions);
        removed
    }

    /// Remove the sessions idle for more than thirty seconds, measured now.
    pub fn cleanup_expired(&mut self) -> (removed: Vec<u64>)
        ensures
            removed@.no_duplicates(),
            exists|now: u64|
                {
                    &&& final(self)@.sessions == #[trigger] live_sessions(old(self)@.sessions, now)
                    &&& removed@.to_set() == expired_ids(old(self)@.sessions, now)
                    &&& final(self)@.pool == (PortPoolView {
                        allocated: release_all(old(self)@.pool.allocated, old(self)@.sessions, removed@),
                        ..old(self)@.pool
                    })
                    &&& final(self)@.secret == old(self)@.secret
                    &&& final(self)@.clock == old(self)@.clock
                    &&& final(self)@.metrics == metrics_on_reclaim(old(self)@.metrics, removed@.len())
                },
    {
        let now = self.now();
        self.cleanup_expired_at(now)
    }

    /// Number of active sessions.
    pub fn active_count(&self) -> (n: usize)
        ensures
            n == self@.sessions.len(),
    {
        self.sessions.len()
    }

    /// Number of ports still available in the pool (not yet allocated).
    pub fn available_ports(&self) -> (n: usize)
        ensures
            n as int == crate::relay::port_pool::spec_available(self@.pool),
    {
        self.port_pool.available_count()
    }
}

/// Law: whether a session has expired depends only on how long it has been
/// idle: two sessions last active at the same time expire together, and a
/// session active at `now` or later has not expired.
pub proof fn lemma_expiry_depends_on_idle_time(now: u64, x: RelaySession, y: RelaySession)
    requires
        x.last_activity == y.last_activity,
    ensures
        is_expired(now, x) == is_expired(now, y),
        now <= x.last_activity ==> !is_expired(now, x),
{
}

/// Law: a keepalive keeps a session alive. After a KEEPALIVE of `id` at
/// time `t`, a cleanup at any `now` no more than the timeout later keeps
/// the session, with everything but its activity time as it was; a session
/// idle for longer than the timeout is removed.
pub proof fn lemma_keepalive_keeps_session_alive(s: Map<u64, RelaySession>, id: u64, t: u64, now: u64)
    requires
        s.contains_key(id),
        t <= now,
    ensures
        now - t <= SESSION_TIMEOUT_NS ==> {
            &&& !expired_ids(sessions_touched(s, id, t), now).contains(id)
            &&& live_sessions(sessions_touched(s, id, t), now).contains_key(id)
            &&& live_sessions(sessions_touched(s, id, t), now)[id] == RelaySession { last_activity: t, ..s[id] }
        },
        now - t > SESSION_TIMEOUT_NS ==> expired_ids(sessions_touched(s, id, t), now).contains(id),
{
    let m = sessions_touched(s, id, t);
    assert(m.contains_key(id));
    assert(m[id] == RelaySession { last_activity: t, ..s[id] });
}

/// Releasing the session that an ALLOCATE just recorded leaves the other
/// sessions as they were.
pub proof fn lemma_release_undoes_allocate(s: Map<u64, RelaySession>, added: RelaySession)
    requires
        !has_session(s, added.session_id),
    ensures
        has_session(s.insert(added.session_id, added), added.session_id),
        session_of(s.insert(added.session_id, added), added.session_id) == added,
        without_session(s.insert(added.session_id, added), added.session_id) == s,
{
    assert(s.insert(added.session_id, added).remove(added.session_id) =~= s);
}

/// Errors of forwarding a data packet.
#[derive(Debug)]
pub enum ForwardError {
    /// The packet is not a DATA packet of a known session (0 when it is not
    /// a DATA packet at all).
    SessionNotFound(u64),
    /// The sender is neither peer of the session.
    UnknownPeer(PeerAddr),
    /// Sending the packet on failed.
    Io(std::io::Error),
}

/// Where a packet from `src_addr` goes: for a DATA packet of a session of
/// which `src_addr` is a peer, the other peer (and the packet is counted on
/// the session). A packet that does not parse, or is not DATA, is
/// `SessionNotFound(0)`; an unknown session is `SessionNotFound(id)`; an
/// unknown sender is `UnknownPeer(src_addr)`.
pub fn forward_packet_target(mgr: &mut SessionManager, src_addr: PeerAddr, data: &[u8]) -> (r: Result<
    PeerAddr,
    ForwardError,
>)
    requires
        match spec_parse(data@) {
            Ok((MessageView::Data { session_id }, _)) => has_session(old(mgr)@.sessions, session_id) ==> session_of(
                old(mgr)@.sessions,
                session_id,
            ).bytes_forwarded < u64::MAX,
            _ => true,
        },
    ensures
        match spec_parse(data@) {
            Ok((MessageView::Data { session_id }, _)) => if !has_session(old(mgr)@.sessions, session_id) {
                r matches Err(ForwardError::SessionNotFound(id)) && id == session_id && final(mgr)@ == old(mgr)@
            } else {
                let s = session_of(old(mgr)@.sessions, session_id);
                if src_addr == s.peer_a.addr || src_addr == s.peer_b.addr {
                    &&& r matches Ok(t) && t == (if src_addr == s.peer_a.addr {
                        s.peer_b.addr
                    } else {
                        s.peer_a.addr
                    })
                    &&& final(mgr)@ == (SessionManagerView {
                        sessions: sessions_counted(old(mgr)@.sessions, session_id),
                        ..old(mgr)@
                    })
                } else {
                    r matches Err(ForwardError::UnknownPeer(p)) && p == src_addr && final(mgr)@ == old(mgr)@
                }
            },
            _ => r matches Err(ForwardError::SessionNotFound(id)) && id == 0 && final(mgr)@ == old(mgr)@,
        },
{
    let session_id = match parse_message(data) {
        Ok((RelayMessage::Data { session_id }, _rest)) => session_id,
        _ => {
            return Err(ForwardError::SessionNotFound(0));
        },
    };
    match mgr.forward_target(session_id, src_addr) {
        Ok(t) => Ok(t),
        Err((sid, None)) => Err(ForwardError::SessionNotFound(sid)),
        Err((_sid, Some(peer))) => Err(ForwardError::UnknownPeer(peer)),
    }
}

} // verus!
