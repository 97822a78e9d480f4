//! The signaling server's registry of connected devices, pending connection
//! requests and negotiating sessions. Sending returns where a message goes;
//! delivering it is left to the caller.
use vstd::prelude::*;
use crate::signaling::keyed::KeyedList;
use crate::signaling::message::WsMessage;
use crate::signaling::peers::SessionSendError;
use crate::text::str_equal;

verus! {

/// A connected device.
#[derive(Debug)]
pub struct Session {
    /// Unique device code reported by the client.
    pub device_code: String,
    /// Optional team/organization this device belongs to.
    pub team_id: Option<String>,
}

/// A message to deliver to each of the listed devices.
#[derive(Debug)]
pub struct Delivery {
    pub to: Vec<String>,
    pub msg: WsMessage,
}

/// The text of an optional string.
pub open spec fn opt_view(o: Option<String>) -> Option<Seq<char>> {
    match o {
        Some(s) => Some(s@),
        None => None,
    }
}

/// The text of an optional string slice.
pub open spec fn opt_str_view(o: Option<&str>) -> Option<Seq<char>> {
    match o {
        Some(s) => Some(s@),
        None => None,
    }
}

/// The team of a registered device.
pub open spec fn team_of(sessions: Map<Seq<char>, Session>, code: Seq<char>) -> Option<Seq<char>> {
    if sessions.dom().contains(code) {
        opt_view(sessions[code].team_id)
    } else {
        None
    }
}

/// `code` is a registered device of team `team`, other than `skip`.
pub open spec fn is_recipient(sessions: Map<Seq<char>, Session>, team: Seq<char>, skip: Option<Seq<char>>, code: Seq<char>) -> bool {
    &&& sessions.dom().contains(code)
    &&& team_of(sessions, code) == Some(team)
    &&& skip != Some(code)
}

/// The list names exactly the devices that meet `is_recipient`, each once.
pub open spec fn lists_recipients(r: Seq<String>, sessions: Map<Seq<char>, Session>, team: Seq<char>, skip: Option<Seq<char>>) -> bool {
    &&& forall|i: int| 0 <= i < r.len() ==> is_recipient(sessions, team, skip, (#[trigger] r[i])@)
    &&& forall|k: Seq<char>| #[trigger] is_recipient(sessions, team, skip, k) ==> exists|i: int| 0 <= i < r.len() && r[i]@ == k
    &&& forall|i: int, j: int| 0 <= i < r.len() && 0 <= j < r.len() && i != j ==> (#[trigger] r[i])@ != (#[trigger] r[j])@
}

/// The delivery goes to the single device `to`.
pub open spec fn to_one(d: Delivery, to: Seq<char>) -> bool {
    d.to@.len() == 1 && d.to@[0]@ == to
}

/// A plain registry (a caller that shares it puts it behind a lock) of the devices
/// connected to this server, the connection requests waiting for an answer
/// (target device to controller device), and the devices negotiating in each
/// signaling session.
pub struct SessionManager {
    sessions: KeyedList<Session>,
    pending_connections: KeyedList<String>,
    session_participants: KeyedList<(String, String)>,
}

impl SessionManager {
    /// The connected devices, by device code.
    pub closed spec fn sessions(&self) -> Map<Seq<char>, Session> {
        self.sessions.map()
    }

    /// The pending connections: target device to controller device.
    pub closed spec fn pending(&self) -> Map<Seq<char>, String> {
        self.pending_connections.map()
    }

    /// The participants of each signaling session.
    pub closed spec fn participants(&self) -> Map<Seq<char>, (String, String)> {
        self.session_participants.map()
    }

    /// Create a new, empty session manager.
    pub fn new() -> (m: Self)
        ensures
            m.sessions() == Map::<Seq<char>, Session>::empty(),
            m.pending() == Map::<Seq<char>, String>::empty(),
            m.participants() == Map::<Seq<char>, (String, String)>::empty(),
    {
        SessionManager {
            sessions: KeyedList::new(),
            pending_connections: KeyedList::new(),
            session_participants: KeyedList::new(),
        }
    }

    /// Register a session for the given device code; an existing session of
    /// that code is replaced and returned.
    pub fn insert(&mut self, device_code: String, session: Session) -> (old_session: Option<Session>)
        ensures
            final(self).sessions() == old(self).sessions().insert(device_code@, session),
            final(self).pending() == old(self).pending(),
            final(self).participants() == old(self).participants(),
            match old_session {
                Some(s) => old(self).sessions().dom().contains(device_code@) && old(self).sessions()[device_code@] == s,
                None => !old(self).sessions().dom().contains(device_code@),
            },
    {
        self.sessions.insert(device_code, session)
    }

    /// Remove the session of `device_code`, returning it if it existed.
    pub fn remove(&mut self, device_code: &str) -> (r: Option<Session>)
        ensures
            final(self).sessions() == old(self).sessions().remove(device_code@),
            final(self).pending() == old(self).pending(),
            final(self).participants() == old(self).participants(),
            match r {
                Some(s) => old(self).sessions().dom().contains(device_code@) && old(self).sessions()[device_code@] == s,
                None => !old(self).sessions().dom().contains(device_code@),
            },
    {
        self.sessions.remove(device_code)
    }

    /// Whether a session exists for the given device code.
    pub fn contains(&self, device_code: &str) -> (b: bool)
        ensures
            b == self.sessions().dom().contains(device_code@),
    {
        self.sessions.contains_key(device_code)
    }

    /// Where a message for `device_code` goes: to that device if it is
    /// registered, else `DeviceNotFound`.
    pub fn send_to(&self, device_code: &str, msg: WsMessage) -> (r: Result<Delivery, SessionSendError>)
        ensures
            self.sessions().dom().contains(device_code@) ==> (r matches Ok(d) && to_one(d, device_code@) && d.msg == msg),
            !self.sessions().dom().contains(device_code@) ==> (r matches Err(SessionSendError::DeviceNotFound(c))
                && c@ == device_code@),
    {
        if self.contains(device_code) {
            let mut to: Vec<String> = Vec::new();
            to.push(device_code.to_string());
            Ok(Delivery { to, msg })
        } else {
            Err(SessionSendError::DeviceNotFound(device_code.to_string()))
        }
    }

    /// The team ID of the session for `device_code`, if it exists and has a
    /// team assigned.
    pub fn get_team_id(&self, device_code: &str) -> (r: Option<String>)
        ensures
            opt_view(r) == team_of(self.sessions(), device_code@),
    {
        match self.sessions.get(device_code) {
            Some(s) => match &s.team_id {
                Some(t) => Some(t.clone()),
                None => None,
            },
            None => None,
        }
    }

    /// Number of currently active sessions.
    pub fn len(&self) -> (n: usize)
        ensures
            n == self.sessions().dom().len(),
            self.sessions().dom().finite(),
    {
        self.sessions.len()
    }

    /// Whether the session registry is empty.
    pub fn is_empty(&self) -> (b: bool)
        ensures
            b == (self.sessions().dom().len() == 0),
    {
        self.sessions.len() == 0
    }

    /// The devices that a broadcast to the whole server reaches: every
    /// registered device, once, in an unspecified order.
    pub fn all_devices(&self) -> (r: Vec<String>)
        ensures
            forall|i: int| 0 <= i < r@.len() ==> self.sessions().dom().contains((#[trigger] r@[i])@),
            forall|k: Seq<char>| #[trigger] self.sessions().dom().contains(k) ==> exists|i: int| 0 <= i < r@.len() && r@[i]@ == k,
            forall|i: int, j: int| 0 <= i < r@.len() && 0 <= j < r@.len() && i != j ==> (#[trigger] r@[i])@ != (#[trigger] r@[j])@,
    {
        self.sessions.keys()
    }

    /// The devices that a broadcast to `team_id` reaches: every registered
    /// device of that team except `skip_device`, once each, in an
    /// unspecified order.
    pub fn team_members(&self, team_id: &str, skip_device: Option<&str>) -> (r: Vec<String>)
        ensures
            lists_recipients(r@, self.sessions(), team_id@, opt_str_view(skip_device)),
    {
        let keys = self.sessions.keys();
        let n = keys.len();
        let mut r: Vec<String> = Vec::new();
        let mut i: usize = 0;
        while i < n
            invariant
                n == keys@.len(),
                i <= n,
                forall|a: int| 0 <= a < n ==> self.sessions().dom().contains((#[trigger] keys@[a])@),
                forall|a: int, b: int| 0 <= a < n && 0 <= b < n && a != b ==> (#[trigger] keys@[a])@ != (#[trigger] keys@[b])@,
                forall|a: int| 0 <= a < r@.len() ==> is_recipient(self.sessions(), team_id@, opt_str_view(skip_device), (#[trigger] r@[a])@),
                forall|a: int| 0 <= a < r@.len() ==> exists|b: int| 0 <= b < i && (#[trigger] r@[a])@ == keys@[b]@,
                forall|b: int| 0 <= b < i && is_recipient(self.sessions(), team_id@, opt_str_view(skip_device), (#[trigger] keys@[b])@)
                    ==> exists|a: int| 0 <= a < r@.len() && r@[a]@ == keys@[b]@,
                forall|a: int, b: int| 0 <= a < r@.len() && 0 <= b < r@.len() && a != b ==> (#[trigger] r@[a])@ != (#[trigger] r@[b])@,
            decreases n - i,
        {
            let k = &keys[i];
            let skipped = match skip_device {
                Some(s) => str_equal(k.as_str(), s),
                None => false,
            };
            let in_team = match self.sessions.get(k.as_str()) {
                Some(s) => match &s.team_id {
                    Some(t) => str_equal(t.as_str(), team_id),
                    None => false,
                },
                None => false,
            };
            if in_team && !skipped {
                let ghost before = r@;
                r.push(k.clone());
                proof {
                    assert(r@[before.len() as int]@ == keys@[i as int]@);
                    assert forall|a: int, b: int| 0 <= a < r@.len() && 0 <= b < r@.len() && a != b implies (
                    #[trigger] r@[a])@ != (#[trigger] r@[b])@ by {
                        if a == before.len() {
                            let c = choose|c: int| 0 <= c < i && (#[trigger] before[b])@ == keys@[c]@;
                            assert(r@[b] == before[b]);
                        } else if b == before.len() {
                            let c = choose|c: int| 0 <= c < i && (#[trigger] before[a])@ == keys@[c]@;
                            assert(r@[a] == before[a]);
                        } else {
                            assert(r@[a] == before[a] && r@[b] == before[b]);
                        }
                    }
                    assert forall|a: int| 0 <= a < r@.len() implies exists|b: int| 0 <= b < i + 1 && (#[trigger] r@[a])@
                        == keys@[b]@ by {
                        if a < before.len() {
                            let c = choose|c: int| 0 <= c < i && (#[trigger] before[a])@ == keys@[c]@;
                            assert(r@[a] == before[a]);
                        } else {
                            assert(r@[a]@ == keys@[i as int]@);
                        }
                    }
                    assert forall|b: int| 0 <= b < i + 1 && is_recipient(self.sessions(), team_id@, opt_str_view(skip_device), (
                    #[trigger] keys@[b])@) implies exists|a: int| 0 <= a < r@.len() && r@[a]@ == keys@[b]@ by {
                        if b < i {
                            let a = choose|a: int| 0 <= a < before.len() && before[a]@ == keys@[b]@;
                            assert(r@[a] == before[a]);
                        } else {
                            assert(r@[before.len() as int]@ == keys@[b]@);
                        }
                    }
                }
            }
            i += 1;
        }
        proof {
            assert forall|k: Seq<char>| #[trigger] is_recipient(self.sessions(), team_id@, opt_str_view(skip_device), k) implies exists|
                a: int,
            | 0 <= a < r@.len() && r@[a]@ == k by {
                let b = choose|b: int| 0 <= b < n && keys@[b]@ == k;
                assert(is_recipient(self.sessions(), team_id@, opt_str_view(skip_device), keys@[b]@));
            }
        }
        r
    }

    /// A message for every registered device.
    pub fn broadcast_all(&self, msg: WsMessage) -> (d: Delivery)
        ensures
            d.msg == msg,
            forall|i: int| 0 <= i < d.to@.len() ==> self.sessions().dom().contains((#[trigger] d.to@[i])@),
            forall|k: Seq<char>| #[trigger] self.sessions().dom().contains(k) ==> exists|i: int| 0 <= i < d.to@.len() && d.to@[i]@ == k,
            forall|i: int, j: int| 0 <= i < d.to@.len() && 0 <= j < d.to@.len() && i != j ==> (#[trigger] d.to@[i])@ != (#[trigger] d.to@[j])@,
    {
        let to = self.all_devices();
        let d = Delivery { to, msg };
        assert(d.to@ == to@);
        d
    }

    /// A message for every registered device of `team_id`, except
    /// `skip_device` when given.
    pub fn broadcast_to_team(&self, team_id: &str, msg: WsMessage, skip_device: Option<&str>) -> (d: Delivery)
        ensures
            d.msg == msg,
            lists_recipients(d.to@, self.sessions(), team_id@, opt_str_view(skip_device)),
    {
        Delivery { to: self.team_members(team_id, skip_device), msg }
    }

    /// Record a pending connection: the controller (`from_code`) wants to
    /// connect to the target (`to_code`).
    pub fn add_pending_connection(&mut self, to_code: &str, from_code: &str)
        ensures
            final(self).sessions() == old(self).sessions(),
            final(self).participants() == old(self).participants(),
            final(self).pending().dom() == old(self).pending().dom().insert(to_code@),
            final(self).pending()[to_code@]@ == from_code@,
            forall|k: Seq<char>| k != to_code@ && #[trigger] old(self).pending().dom().contains(k) ==> final(self).pending()[k]
                == old(self).pending()[k],
    {
        let _ = self.pending_connections.insert(to_code.to_string(), from_code.to_string());
    }

    /// Consume the pending connection for `to_code`, returning the
    /// controller device code if one was recorded.
    pub fn take_pending_connection(&mut self, to_code: &str) -> (r: Option<String>)
        ensures
            final(self).sessions() == old(self).sessions(),
            final(self).participants() == old(self).participants(),
            final(self).pending() == old(self).pending().remove(to_code@),
            match r {
                Some(c) => old(self).pending().dom().contains(to_code@) && old(self).pending()[to_code@] == c,
                None => !old(self).pending().dom().contains(to_code@),
            },
    {
        self.pending_connections.remove(to_code)
    }

    /// Register the two participants of a signaling session: `peer_a` the
    /// controller, `peer_b` the target.
    pub fn insert_session_participants(&mut self, session_id: &str, peer_a: &str, peer_b: &str)
        ensures
            final(self).sessions() == old(self).sessions(),
            final(self).pending() == old(self).pending(),
            final(self).participants().dom() == old(self).participants().dom().insert(session_id@),
            final(self).participants()[session_id@].0@ == peer_a@,
            final(self).participants()[session_id@].1@ == peer_b@,
            forall|k: Seq<char>| k != session_id@ && #[trigger] old(self).participants().dom().contains(k) ==> final(self).participants()[k]
                == old(self).participants()[k],
    {
        let _ = self.session_participants.insert(session_id.to_string(), (peer_a.to_string(), peer_b.to_string()));
    }

    /// Given a session and one participant, the other participant; `None`
    /// when the session is unknown or `from_device` is not a participant.
    pub fn get_other_peer(&self, session_id: &str, from_device: &str) -> (r: Option<String>)
        ensures
            opt_view(r) == other_peer(self.participants(), session_id@, from_device@),
    {
        match self.session_participants.get(session_id) {
            None => None,
            Some(pair) => {
                if str_equal(pair.0.as_str(), from_device) {
                    Some(pair.1.clone())
                } else if str_equal(pair.1.as_str(), from_device) {
                    Some(pair.0.clone())
                } else {
                    None
                }
            },
        }
    }

    /// Remove the participant mapping for a session.
    pub fn remove_session_participants(&mut self, session_id: &str) -> (r: Option<(String, String)>)
        ensures
            final(self).sessions() == old(self).sessions(),
            final(self).pending() == old(self).pending(),
            final(self).participants() == old(self).participants().remove(session_id@),
            match r {
                Some(p) => old(self).participants().dom().contains(session_id@) && old(self).participants()[session_id@] == p,
                None => !old(self).participants().dom().contains(session_id@),
            },
    {
        self.session_participants.remove(session_id)
    }
}

impl Default for SessionManager {
    fn default() -> (m: Self)
        ensures
            m.sessions() == Map::<Seq<char>, Session>::empty(),
            m.pending() == Map::<Seq<char>, String>::empty(),
            m.participants() == Map::<Seq<char>, (String, String)>::empty(),
    {
        Self::new()
    }
}

/// The other participant of a session, seen from `from`.
pub open spec fn other_peer(p: Map<Seq<char>, (String, String)>, session_id: Seq<char>, from: Seq<char>) -> Option<Seq<char>> {
    if !p.dom().contains(session_id) {
        None
    } else if p[session_id].0@ == from {
        Some(p[session_id].1@)
    } else if p[session_id].1@ == from {
        Some(p[session_id].0@)
    } else {
        None
    }
}

/// Law: a pending connection is handed out once. After recording that
/// `from` wants to connect to `to`, taking the pending connection of `to`
/// yields `from`, and taking it again yields nothing.
pub proof fn lemma_pending_taken_once(
    before: Map<Seq<char>, String>,
    added: Map<Seq<char>, String>,
    to: Seq<char>,
    from: Seq<char>,
)
    requires
        added.dom() == before.dom().insert(to),
        added[to]@ == from,
    ensures
        added.dom().contains(to) && added[to]@ == from,
        !added.remove(to).dom().contains(to),
{
}

/// Law: once a session's participants are recorded, each participant's
/// other peer is the other one (for a session whose two sides are the same
/// device, that device).
pub proof fn lemma_other_peer_after_insert(
    before: Map<Seq<char>, (String, String)>,
    after: Map<Seq<char>, (String, String)>,
    session_id: Seq<char>,
    a: Seq<char>,
    b: Seq<char>,
)
    requires
        after.dom() == before.dom().insert(session_id),
        after[session_id].0@ == a,
        after[session_id].1@ == b,
    ensures
        other_peer(after, session_id, a) == Some(b),
        other_peer(after, session_id, b) == Some(a),
{
}

} // verus!
