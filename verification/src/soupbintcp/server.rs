//! The SoupBinTCP server's session bookkeeping: per-session sequenced
//! message stores with login replay, the sessions manager with its "current"
//! session, and case-insensitive credential checking. The accept loop and
//! sockets around it stay outside the library.
use crate::soupbintcp::types::{
    spec_blank_session, LoginReject, Packet, PacketType, Password, Payload, SessionId, Username,
};
use vstd::prelude::*;
use vstd::slice::slice_to_vec;

verus! {

/// How much outbound silence makes the server emit a heartbeat.
pub const SERVER_HEARTBEAT_MS: u64 = 1_000;

/// The ASCII upper-fold of one byte.
pub open spec fn spec_upper(b: u8) -> u8 {
    if 97 <= b <= 122 {
        (b - 32) as u8
    } else {
        b
    }
}

/// The ASCII upper-fold of a byte string.
pub open spec fn spec_upper_seq(s: Seq<u8>) -> Seq<u8> {
    s.map_values(|b: u8| spec_upper(b))
}

/// Whether two byte strings agree up to ASCII case.
pub open spec fn spec_eq_fold(a: Seq<u8>, b: Seq<u8>) -> bool {
    spec_upper_seq(a) == spec_upper_seq(b)
}

/// Compare two byte strings case-insensitively (ASCII upper-fold).
pub fn eq_ignore_ascii_case(a: &[u8], b: &[u8]) -> (r: bool)
    ensures
        r == spec_eq_fold(a@, b@),
{
    if a.len() != b.len() {
        proof {
            assert(spec_upper_seq(a@).len() != spec_upper_seq(b@).len());
        }
        return false;
    }
    let mut i: usize = 0;
    while i < a.len()
        invariant
            a@.len() == b@.len(),
            i <= a@.len(),
            forall|k: int| 0 <= k < i ==> spec_upper(a@[k]) == spec_upper(b@[k]),
        decreases a@.len() - i,
    {
        let x = a[i];
        let y = b[i];
        let xf = if 97 <= x && x <= 122 {
            x - 32
        } else {
            x
        };
        let yf = if 97 <= y && y <= 122 {
            y - 32
        } else {
            y
        };
        if xf != yf {
            proof {
                assert(spec_upper_seq(a@)[i as int] != spec_upper_seq(b@)[i as int]);
            }
            return false;
        }
        i += 1;
    }
    proof {
        assert(spec_upper_seq(a@) =~= spec_upper_seq(b@));
    }
    true
}

/// The byte contents of a run of payloads.
pub open spec fn spec_payload_views(s: Seq<Payload>) -> Seq<Seq<u8>> {
    s.map_values(|p: Payload| p@)
}

/// One session: its id, whether it has ended, and the store of every
/// sequenced payload sent on it, in order. The message with sequence number
/// `n` sits at store index `n - 1`; the next sequence number is one past the
/// store.
pub struct Session {
    id: SessionId,
    ended: bool,
    store: Vec<Payload>,
}

impl Session {
    pub closed spec fn spec_id(&self) -> Seq<u8> {
        self.id@
    }

    pub closed spec fn spec_ended(&self) -> bool {
        self.ended
    }

    pub closed spec fn spec_store(&self) -> Seq<Payload> {
        self.store@
    }

    /// The sequence number of the next sequenced message.
    pub open spec fn spec_next_seq(&self) -> int {
        (self.spec_store().len() + 1) as int
    }

    pub open spec fn wf(&self) -> bool {
        &&& self.spec_id().len() == crate::soupbintcp::types::SESSION_ID_LEN
        &&& forall|k: int| 0 <= k < self.spec_store().len() ==> (#[trigger] self.spec_store()[k]).wf()
    }

    /// A fresh session: nothing sent, next sequence number one.
    pub fn new(id: SessionId) -> (r: Session)
        requires
            id.wf(),
        ensures
            r.spec_id() == id@,
            !r.spec_ended(),
            r.spec_store() == Seq::<Payload>::empty(),
            r.spec_next_seq() == 1,
            r.wf(),
    {
        Session { id, ended: false, store: Vec::new() }
    }

    pub fn id(&self) -> (r: SessionId)
        requires
            self.wf(),
        ensures
            r@ == self.spec_id(),
            r.wf(),
    {
        SessionId::new_trunc(self.id.as_slice())
    }

    pub fn next_sequence_number(&self) -> (r: u64)
        requires
            self.spec_next_seq() <= u64::MAX,
        ensures
            r == self.spec_next_seq(),
    {
        (self.store.len() as u64) + 1
    }

    pub fn is_ended(&self) -> (r: bool)
        ensures
            r == self.spec_ended(),
    {
        self.ended
    }

    /// End the session; it accepts no further messages.
    pub fn end(&mut self)
        ensures
            final(self).spec_ended(),
            final(self).spec_id() == old(self).spec_id(),
            final(self).spec_store() == old(self).spec_store(),
    {
        self.ended = true;
    }

    /// Record one sequenced payload; it takes the next sequence number,
    /// which is handed back. An ended session refuses.
    pub fn send_sequenced(&mut self, payload: Payload) -> (r: Result<u64, ()>)
        requires
            old(self).wf(),
            payload.wf(),
            old(self).spec_next_seq() <= u64::MAX,
        ensures
            old(self).spec_ended() ==> r is Err && *final(self) == *old(self),
            !old(self).spec_ended() ==> (r matches Ok(n) && n == old(self).spec_next_seq()
                && final(self).spec_store() == old(self).spec_store().push(payload)
                && final(self).spec_id() == old(self).spec_id()
                && !final(self).spec_ended() && final(self).wf()),
    {
        if self.ended {
            return Err(());
        }
        let n = (self.store.len() as u64) + 1;
        self.store.push(payload);
        Ok(n)
    }

    /// The payload with sequence number `n`, if it has been sent.
    pub fn get_message(&self, n: u64) -> (r: Option<&Payload>)
        ensures
            1 <= n <= self.spec_store().len() ==> (r matches Some(p) && *p == self.spec_store()[n
                - 1]),
            !(1 <= n <= self.spec_store().len()) ==> r is None,
    {
        if n >= 1 && n <= self.store.len() as u64 {
            Some(&self.store[(n - 1) as usize])
        } else {
            None
        }
    }

    /// The login reply for a request expecting sequence number `req`: a
    /// request for zero — and, by this implementation's choice, one past the
    /// session's counter — subscribes at the live tail with nothing to
    /// replay; otherwise the reply starts at `req` and replays every stored
    /// message from `req` on, in order.
    pub fn login_reply(&self, req: u64) -> (r: (u64, Vec<Payload>))
        requires
            self.wf(),
            self.spec_next_seq() <= u64::MAX,
        ensures
            req == 0 || req > self.spec_store().len() ==> r.0 == self.spec_next_seq()
                && r.1@.len() == 0,
            1 <= req <= self.spec_store().len() ==> r.0 == req && spec_payload_views(r.1@)
                == spec_payload_views(self.spec_store()).subrange(
                req - 1,
                self.spec_store().len() as int,
            ),
            forall|k: int| 0 <= k < r.1@.len() ==> (#[trigger] r.1@[k]).wf(),
    {
        let curr = (self.store.len() as u64) + 1;
        if req == 0 || req > self.store.len() as u64 {
            return (curr, Vec::new());
        }
        let mut replay: Vec<Payload> = Vec::new();
        let mut k: usize = (req - 1) as usize;
        while k < self.store.len()
            invariant
                self.wf(),
                req >= 1,
                req - 1 <= k <= self.spec_store().len(),
                replay@.len() == k - (req - 1),
                forall|m: int|
                    0 <= m < replay@.len() ==> (#[trigger] replay@[m])@ == self.spec_store()[req - 1
                        + m]@,
                forall|m: int| 0 <= m < replay@.len() ==> (#[trigger] replay@[m]).wf(),
            decreases self.spec_store().len() - k,
        {
            let copied = match Payload::new(slice_to_vec(self.store[k].as_slice())) {
                Ok(p) => p,
                Err(_) => {
                    proof {
                        assert(false);
                    }
                    Payload::empty()
                },
            };
            replay.push(copied);
            k += 1;
        }
        proof {
            assert forall|m: int|
                0 <= m < spec_payload_views(replay@).len() implies #[trigger] spec_payload_views(
                replay@,
            )[m] == spec_payload_views(self.spec_store()).subrange(
                req - 1,
                self.spec_store().len() as int,
            )[m] by {
                assert(spec_payload_views(replay@)[m] == replay@[m]@);
                assert(spec_payload_views(self.spec_store()).subrange(
                    req - 1,
                    self.spec_store().len() as int,
                )[m] == self.spec_store()[req - 1 + m]@);
            }
            assert(spec_payload_views(replay@) =~= spec_payload_views(self.spec_store()).subrange(
                req - 1,
                self.spec_store().len() as int,
            ));
        }
        (req, replay)
    }
}

/// Replay from one: a client that logs in expecting sequence number one is
/// handed every sequenced payload of the session, in send order, with no
/// gaps — the replayed contents are exactly the store's contents.
pub proof fn lemma_replay_from_one(s: Session)
    requires
        s.wf(),
        s.spec_store().len() >= 1,
    ensures
        spec_payload_views(s.spec_store()).subrange(0, s.spec_store().len() as int)
            == spec_payload_views(s.spec_store()),
{
    assert(spec_payload_views(s.spec_store()).subrange(0, s.spec_store().len() as int)
        =~= spec_payload_views(s.spec_store()));
}

/// The sessions manager: the live sessions in insertion order, and the index
/// of the "current" session, if one is designated.
pub struct SessionsManager {
    sessions: Vec<Session>,
    current: Option<usize>,
}

impl SessionsManager {
    pub closed spec fn spec_sessions(&self) -> Seq<Session> {
        self.sessions@
    }

    pub closed spec fn spec_current(&self) -> Option<usize> {
        self.current
    }

    /// Ids are unique and the current index is in range.
    pub open spec fn wf(&self) -> bool {
        &&& forall|k: int| 0 <= k < self.spec_sessions().len() ==> (#[trigger] self.spec_sessions()[k]).wf()
        &&& forall|a: int, b: int|
            0 <= a < b < self.spec_sessions().len() ==> self.spec_sessions()[a].spec_id()
                != self.spec_sessions()[b].spec_id()
        &&& match self.spec_current() {
            Some(c) => c < self.spec_sessions().len(),
            None => true,
        }
    }

    /// The index of the session with the given id, or `-1`.
    pub open spec fn spec_index_of(&self, id: Seq<u8>) -> int {
        spec_find_session(self.spec_sessions(), id)
    }

    pub fn new() -> (r: SessionsManager)
        ensures
            r.spec_sessions() == Seq::<Session>::empty(),
            r.spec_current() is None,
            r.wf(),
    {
        SessionsManager { sessions: Vec::new(), current: None }
    }

    /// The session a login names: the current one for the blank id, the one
    /// with that id otherwise.
    pub fn get(&self, id: &SessionId) -> (r: Option<&Session>)
        requires
            self.wf(),
            id.wf(),
        ensures
            id@ == spec_blank_session() ==> (match self.spec_current() {
                Some(c) => r matches Some(s) && *s == self.spec_sessions()[c as int],
                None => r is None,
            }),
            id@ != spec_blank_session() ==> (if self.spec_index_of(id@) >= 0 {
                r matches Some(s) && *s == self.spec_sessions()[self.spec_index_of(id@)]
            } else {
                r is None
            }),
    {
        if id.is_blank() {
            return match self.current {
                Some(c) => Some(&self.sessions[c]),
                None => None,
            };
        }
        let idx = self.find(id);
        match idx {
            Some(k) => {
                proof {
                    assert(k as int == self.spec_index_of(id@));
                }
                Some(&self.sessions[k])
            },
            None => None,
        }
    }

    /// The position of the session with this id.
    fn find(&self, id: &SessionId) -> (r: Option<usize>)
        requires
            self.wf(),
            id.wf(),
        ensures
            r matches Some(k) ==> self.spec_index_of(id@) == k as int && (k as int)
                < self.spec_sessions().len(),
            r is None ==> self.spec_index_of(id@) < 0,
    {
        let mut k: usize = 0;
        while k < self.sessions.len()
            invariant
                self.wf(),
                id.wf(),
                k <= self.spec_sessions().len(),
                forall|m: int| 0 <= m < k ==> (#[trigger] self.spec_sessions()[m]).spec_id() != id@,
            decreases self.spec_sessions().len() - k,
        {
            let sid = self.sessions[k].id();
            if sid.matches(id) {
                proof {
                    lemma_find_session_at(self.spec_sessions(), id@, k as int, true);
                }
                return Some(k);
            }
            k += 1;
        }
        proof {
            lemma_find_session_at(self.spec_sessions(), id@, self.spec_sessions().len() as int, false);
        }
        None
    }

    /// Add a new session and make it current; a session with the same id
    /// already present hands the new one back.
    pub fn try_add_current(&mut self, session: Session) -> (r: Result<(), Session>)
        requires
            old(self).wf(),
            session.wf(),
        ensures
            old(self).spec_index_of(session.spec_id()) >= 0 ==> (r matches Err(s) && s == session
                && *final(self) == *old(self)),
            old(self).spec_index_of(session.spec_id()) < 0 ==> (r is Ok
                && final(self).spec_sessions() == old(self).spec_sessions().push(session)
                && final(self).spec_current() == Some(old(self).spec_sessions().len() as usize)
                && final(self).wf()),
    {
        let id = session.id();
        match self.find(&id) {
            Some(_) => Err(session),
            None => {
                proof {
                    lemma_find_session_none(self.spec_sessions(), session.spec_id());
                    lemma_push_unique(self.spec_sessions(), session);
                }
                let idx = self.sessions.len();
                self.sessions.push(session);
                self.current = Some(idx);
                Ok(())
            },
        }
    }

    /// Add a new session without touching the current one.
    pub fn try_add(&mut self, session: Session) -> (r: Result<(), Session>)
        requires
            old(self).wf(),
            session.wf(),
        ensures
            old(self).spec_index_of(session.spec_id()) >= 0 ==> (r matches Err(s) && s == session
                && *final(self) == *old(self)),
            old(self).spec_index_of(session.spec_id()) < 0 ==> (r is Ok
                && final(self).spec_sessions() == old(self).spec_sessions().push(session)
                && final(self).spec_current() == old(self).spec_current() && final(self).wf()),
    {
        let id = session.id();
        match self.find(&id) {
            Some(_) => Err(session),
            None => {
                proof {
                    lemma_find_session_none(self.spec_sessions(), session.spec_id());
                    lemma_push_unique(self.spec_sessions(), session);
                }
                self.sessions.push(session);
                Ok(())
            },
        }
    }

    /// The current session.
    pub fn current_session(&self) -> (r: Option<&Session>)
        requires
            self.wf(),
        ensures
            match self.spec_current() {
                Some(c) => r matches Some(s) && *s == self.spec_sessions()[c as int],
                None => r is None,
            },
    {
        match self.current {
            Some(c) => Some(&self.sessions[c]),
            None => None,
        }
    }

    /// Designate the session with this id as current; whether it was found.
    pub fn set_current(&mut self, id: &SessionId) -> (r: bool)
        requires
            old(self).wf(),
            id.wf(),
        ensures
            old(self).spec_index_of(id@) >= 0 ==> (r
                && final(self).spec_sessions() == old(self).spec_sessions()
                && final(self).spec_current() == Some(old(self).spec_index_of(id@) as usize)
                && final(self).wf()),
            old(self).spec_index_of(id@) < 0 ==> (!r && *final(self) == *old(self)),
    {
        match self.find(id) {
            Some(k) => {
                self.current = Some(k);
                true
            },
            None => false,
        }
    }

    /// Remove the session with this id, handing it back. When it was the
    /// current session, the replacement policy resolves the new current:
    /// `None` clears it, the blank id designates the most recently inserted
    /// remaining session, and a specific id designates that session if
    /// present, else clears. The flag says whether the removed session was
    /// current and a replacement was designated.
    pub fn remove_session(&mut self, id: &SessionId, replacement: Option<&SessionId>) -> (r: (
        Option<Session>,
        bool,
    ))
        requires
            old(self).wf(),
            id.wf(),
            replacement matches Some(rid) ==> rid.wf(),
        ensures
            old(self).spec_index_of(id@) < 0 ==> r.0 is None && !r.1 && *final(self) == *old(self),
            old(self).spec_index_of(id@) >= 0 ==> ({
                let idx = old(self).spec_index_of(id@);
                let was_curr = old(self).spec_current() == Some(idx as usize);
                &&& final(self).spec_sessions() == old(self).spec_sessions().remove(idx)
                &&& (r.0 matches Some(sess) && sess == old(self).spec_sessions()[idx])
                &&& final(self).wf()
                &&& (!was_curr ==> (match old(self).spec_current() {
                    Some(c) => final(self).spec_current() matches Some(c2)
                        && final(self).spec_sessions()[c2 as int] == old(self).spec_sessions()[c as int],
                    None => final(self).spec_current() is None,
                }) && !r.1)
                &&& (was_curr ==> (match replacement {
                    None => final(self).spec_current() is None && !r.1,
                    Some(rid) => if rid@ == spec_blank_session() {
                        if old(self).spec_sessions().len() > 1 {
                            final(self).spec_current() == Some(
                                (old(self).spec_sessions().len() - 2) as usize,
                            ) && r.1
                        } else {
                            final(self).spec_current() is None && !r.1
                        }
                    } else {
                        if spec_find_session(old(self).spec_sessions().remove(idx), rid@) >= 0 {
                            final(self).spec_current() == Some(
                                spec_find_session(
                                    old(self).spec_sessions().remove(idx),
                                    rid@,
                                ) as usize,
                            ) && r.1
                        } else {
                            final(self).spec_current() is None && !r.1
                        }
                    },
                }))
            }),
    {
        let idx = match self.find(id) {
            Some(k) => k,
            None => {
                return (None, false);
            },
        };
        let was_curr = match self.current {
            Some(c) => c == idx,
            None => false,
        };
        let removed = self.sessions.remove(idx);
        proof {
            lemma_remove_unique(old(self).spec_sessions(), idx as int);
        }
        if !was_curr {
            // keep the same session current; its index may have shifted down
            match self.current {
                Some(c) => {
                    if c > idx {
                        self.current = Some(c - 1);
                        proof {
                            assert(self.spec_sessions()[c - 1] == old(self).spec_sessions()[
                            c as int]);
                        }
                    } else {
                        proof {
                            assert(self.spec_sessions()[c as int] == old(self).spec_sessions()[
                            c as int]);
                        }
                    }
                },
                None => {},
            }
            return (Some(removed), false);
        }
        match replacement {
            None => {
                self.current = None;
                (Some(removed), false)
            },
            Some(rid) => {
                if rid.is_blank() {
                    if self.sessions.len() > 0 {
                        self.current = Some(self.sessions.len() - 1);
                        (Some(removed), true)
                    } else {
                        self.current = None;
                        (Some(removed), false)
                    }
                } else {
                    self.current = None;
                    match self.find(rid) {
                        Some(k) => {
                            self.current = Some(k);
                            (Some(removed), true)
                        },
                        None => {
                            (Some(removed), false)
                        },
                    }
                }
            },
        }
    }

    /// How many sessions are live.
    pub fn len(&self) -> (r: usize)
        ensures
            r == self.spec_sessions().len(),
    {
        self.sessions.len()
    }

    /// End every session, clear the set, and clear the current designation.
    pub fn shutdown(&mut self)
        requires
            old(self).wf(),
        ensures
            final(self).spec_sessions() == Seq::<Session>::empty(),
            final(self).spec_current() is None,
            final(self).wf(),
    {
        let mut k: usize = 0;
        while k < self.sessions.len()
            invariant
                k <= self.spec_sessions().len(),
                forall|m: int|
                    0 <= m < self.spec_sessions().len() ==> (
                    #[trigger] self.spec_sessions()[m]).wf(),
            decreases self.spec_sessions().len() - k,
        {
            let mut s = self.sessions.remove(k);
            s.end();
            self.sessions.insert(k, s);
            proof {
                assert forall|m: int|
                    0 <= m < self.spec_sessions().len() implies (
                #[trigger] self.spec_sessions()[m]).wf() by {}
            }
            k += 1;
        }
        self.current = None;
        self.sessions.clear();
        proof {
            assert(self.spec_sessions() =~= Seq::<Session>::empty());
        }
    }
}

/// The first index holding a session with this id, or `-1`.
pub open spec fn spec_find_session(s: Seq<Session>, id: Seq<u8>) -> int
    decreases s.len(),
{
    if s.len() == 0 {
        -1
    } else if s[0].spec_id() == id {
        0
    } else {
        let r = spec_find_session(s.drop_first(), id);
        if r < 0 {
            -1
        } else {
            1 + r
        }
    }
}

/// A scan agreeing with no prefix entry pins the find result.
proof fn lemma_find_session_at(s: Seq<Session>, id: Seq<u8>, j: int, found: bool)
    requires
        0 <= j <= s.len(),
        forall|m: int| 0 <= m < j ==> (#[trigger] s[m]).spec_id() != id,
        found ==> j < s.len() && s[j].spec_id() == id,
        !found ==> j == s.len(),
    ensures
        found ==> spec_find_session(s, id) == j,
        !found ==> spec_find_session(s, id) < 0,
    decreases s.len(),
{
    if s.len() == 0 {
    } else if s[0].spec_id() == id {
        assert(j == 0 || s[0].spec_id() != id);
    } else {
        assert forall|m: int|
            0 <= m < j - 1 implies (#[trigger] s.drop_first()[m]).spec_id() != id by {
            assert(s.drop_first()[m] == s[m + 1]);
        }
        if found {
            assert(s.drop_first()[j - 1] == s[j]);
        }
        lemma_find_session_at(s.drop_first(), id, j - 1, found);
    }
}

/// Removing an entry keeps ids unique and sessions well formed.
proof fn lemma_remove_unique(s: Seq<Session>, idx: int)
    requires
        0 <= idx < s.len(),
        forall|k: int| 0 <= k < s.len() ==> (#[trigger] s[k]).wf(),
        forall|a: int, b: int| 0 <= a < b < s.len() ==> s[a].spec_id() != s[b].spec_id(),
    ensures
        forall|k: int| 0 <= k < s.remove(idx).len() ==> (#[trigger] s.remove(idx)[k]).wf(),
        forall|a: int, b: int|
            0 <= a < b < s.remove(idx).len() ==> s.remove(idx)[a].spec_id() != s.remove(
                idx,
            )[b].spec_id(),
{
    let s2 = s.remove(idx);
    assert forall|k: int| 0 <= k < s2.len() implies (#[trigger] s2[k]).wf() by {
        if k < idx {
            assert(s2[k] == s[k]);
        } else {
            assert(s2[k] == s[k + 1]);
        }
    }
    assert forall|a: int, b: int|
        0 <= a < b < s2.len() implies s2[a].spec_id() != s2[b].spec_id() by {
        let a0 = if a < idx {
            a
        } else {
            a + 1
        };
        let b0 = if b < idx {
            b
        } else {
            b + 1
        };
        assert(s2[a] == s[a0]);
        assert(s2[b] == s[b0]);
    }
}

/// A non-negative find stays within the sequence.
proof fn lemma_find_session_bound(s: Seq<Session>, id: Seq<u8>)
    ensures
        spec_find_session(s, id) < s.len(),
    decreases s.len(),
{
    if s.len() > 0 && s[0].spec_id() != id {
        lemma_find_session_bound(s.drop_first(), id);
    }
}

/// A negative find means no entry has the id.
proof fn lemma_find_session_none(s: Seq<Session>, id: Seq<u8>)
    requires
        spec_find_session(s, id) < 0,
    ensures
        forall|m: int| 0 <= m < s.len() ==> (#[trigger] s[m]).spec_id() != id,
    decreases s.len(),
{
    if s.len() > 0 {
        if s[0].spec_id() == id {
        } else {
            lemma_find_session_none(s.drop_first(), id);
            assert forall|m: int| 0 <= m < s.len() implies (#[trigger] s[m]).spec_id() != id by {
                if m > 0 {
                    assert(s[m] == s.drop_first()[m - 1]);
                }
            }
        }
    }
}

/// Pushing a session with a fresh id keeps ids unique.
proof fn lemma_push_unique(s: Seq<Session>, session: Session)
    requires
        forall|a: int, b: int| 0 <= a < b < s.len() ==> s[a].spec_id() != s[b].spec_id(),
        forall|m: int| 0 <= m < s.len() ==> (#[trigger] s[m]).spec_id() != session.spec_id(),
    ensures
        forall|a: int, b: int|
            0 <= a < b < s.push(session).len() ==> s.push(session)[a].spec_id() != s.push(
                session,
            )[b].spec_id(),
{
    let s2 = s.push(session);
    assert forall|a: int, b: int|
        0 <= a < b < s2.len() implies s2[a].spec_id() != s2[b].spec_id() by {
        if b < s.len() {
            assert(s2[a] == s[a] && s2[b] == s[b]);
        } else {
            assert(s2[b] == session);
            assert(s2[a] == s[a]);
        }
    }
}

/// What a server is configured with: the shared credentials every login is
/// held against.
#[derive(Clone, Debug)]
pub struct ServerOptions {
    pub username: Username,
    pub password: Password,
}

impl ServerOptions {
    pub open spec fn wf(self) -> bool {
        self.username.wf() && self.password.wf()
    }

    /// Blank credentials.
    pub fn new() -> (r: ServerOptions)
        ensures
            r.wf(),
    {
        ServerOptions { username: Username::blank(), password: Password::blank() }
    }

    pub fn with_username(self, username: Username) -> (r: ServerOptions)
        ensures
            r.username == username,
            r.password == self.password,
    {
        ServerOptions { username, ..self }
    }

    pub fn with_password(self, password: Password) -> (r: ServerOptions)
        ensures
            r.password == password,
            r.username == self.username,
    {
        ServerOptions { password, ..self }
    }
}

/// What a server shutdown covers: every session too, or the server alone.
#[derive(Clone, Copy, Debug, PartialEq, Eq, Structural)]
pub enum Shutdown {
    All,
    Server,
}

/// How the server answers one login request, given its configured
/// credentials and the sessions manager.
#[derive(Clone, Debug, PartialEq, Eq)]
pub enum LoginDecision {
    /// Not a parseable login request: close without replying.
    Drop,
    /// Reply with this reject reason, then close.
    Reject(LoginReject),
    /// Reply login-accepted: the resolved session's id, the starting
    /// sequence number, and the stored payloads to replay before any live
    /// message.
    Accept { session: SessionId, start: u64, replay: Vec<Payload> },
}

/// The index of the session a login's session-id field resolves to: the
/// current one for the blank id, the one with that id otherwise; `-1` where
/// none is live.
pub open spec fn spec_resolved(mgr: SessionsManager, id: Seq<u8>) -> int {
    if id == spec_blank_session() {
        match mgr.spec_current() {
            Some(c) => c as int,
            None => -1,
        }
    } else {
        spec_find_session(mgr.spec_sessions(), id)
    }
}

/// Decide one login request against the configured credentials and the live
/// sessions: a non-login frame is dropped; credentials are compared
/// case-insensitively and a mismatch is rejected as not authorized; a blank
/// or named session id with no live match is rejected as unavailable; an
/// unparseable sequence-number field is dropped; otherwise the resolved
/// session answers with its starting number and replay.
pub fn decide_login(
    username: &Username,
    password: &Password,
    mgr: &SessionsManager,
    packet: &Packet,
) -> (r: LoginDecision)
    requires
        username.wf(),
        password.wf(),
        mgr.wf(),
        packet.wf(),
        forall|k: int|
            0 <= k < mgr.spec_sessions().len() ==> (
            #[trigger] mgr.spec_sessions()[k]).spec_next_seq() <= u64::MAX,
    ensures
        packet.spec_packet_type() != PacketType::LoginRequest ==> r == LoginDecision::Drop,
        packet.spec_packet_type() == PacketType::LoginRequest ==> ({
            let payload = packet.spec_payload();
            let creds_ok = spec_eq_fold(payload.subrange(0, 6), username@) && spec_eq_fold(
                payload.subrange(6, 16),
                password@,
            );
            let resolved = spec_resolved(*mgr, payload.subrange(16, 26));
            &&& (!creds_ok ==> r == LoginDecision::Reject(LoginReject::NotAuthorized))
            &&& (creds_ok && resolved < 0 ==> r == LoginDecision::Reject(
                LoginReject::SessionNotAvail,
            ))
            &&& (creds_ok && resolved >= 0 ==> ({
                let sess = mgr.spec_sessions()[resolved];
                match crate::soupbintcp::types::spec_seq_num_value(payload.subrange(26, 46)) {
                    Some(req) => if req > u64::MAX {
                        r == LoginDecision::Drop
                    } else {
                        r matches LoginDecision::Accept { session, start, replay }
                            && session@ == sess.spec_id() && session.wf() && (forall|k: int|
                            0 <= k < replay@.len() ==> (#[trigger] replay@[k]).wf()) && (((req == 0
                            || req > sess.spec_store().len()) ==> start == sess.spec_next_seq()
                            && replay@.len() == 0) && (1 <= req <= sess.spec_store().len()
                            ==> start == req && spec_payload_views(replay@) == spec_payload_views(
                            sess.spec_store(),
                        ).subrange(req - 1, sess.spec_store().len() as int)))
                    },
                    None => r == LoginDecision::Drop,
                }
            }))
        }),
{
    if packet.packet_type() != PacketType::LoginRequest {
        return LoginDecision::Drop;
    }
    let req_user = match packet.username() {
        Some(u) => u,
        None => {
            proof {
                assert(false);
            }
            return LoginDecision::Drop;
        },
    };
    let req_pass = match packet.password() {
        Some(p) => p,
        None => {
            proof {
                assert(false);
            }
            return LoginDecision::Drop;
        },
    };
    if !(eq_ignore_ascii_case(req_user.as_slice(), username.as_slice()) && eq_ignore_ascii_case(
        req_pass.as_slice(),
        password.as_slice(),
    )) {
        return LoginDecision::Reject(LoginReject::NotAuthorized);
    }
    let session_id = match packet.session() {
        Some(s) => s,
        None => {
            proof {
                assert(false);
            }
            return LoginDecision::Drop;
        },
    };
    let ghost resolved = spec_resolved(*mgr, session_id@);
    let session = match mgr.get(&session_id) {
        Some(s) => s,
        None => {
            return LoginDecision::Reject(LoginReject::SessionNotAvail);
        },
    };
    proof {
        if session_id@ == spec_blank_session() {
            match mgr.spec_current() {
                Some(c) => {
                    assert(resolved == c as int);
                },
                None => {
                    assert(false);
                },
            }
        } else {
            if mgr.spec_index_of(session_id@) < 0 {
                assert(false);
            }
            assert(resolved == mgr.spec_index_of(session_id@));
            lemma_find_session_bound(mgr.spec_sessions(), session_id@);
        }
        assert(0 <= resolved < mgr.spec_sessions().len());
        assert(*session == mgr.spec_sessions()[resolved]);
        assert((#[trigger] mgr.spec_sessions()[resolved]).wf());
        assert(mgr.spec_sessions()[resolved].spec_next_seq() <= u64::MAX);
    }
    let seq_field = match packet.sequence_number() {
        Some(s) => s,
        None => {
            proof {
                assert(false);
            }
            return LoginDecision::Drop;
        },
    };
    let req = match seq_field.to_u64_opt() {
        Some(n) => n,
        None => {
            return LoginDecision::Drop;
        },
    };
    let (start, replay) = session.login_reply(req);
    LoginDecision::Accept { session: session.id(), start, replay }
}

/// The login-accepted frame followed by one sequenced-data frame per
/// replayed payload, in order.
fn accept_packets(session: &SessionId, start: u64, replay: &Vec<Payload>) -> (r: Vec<Packet>)
    requires
        session.wf(),
        forall|k: int| 0 <= k < replay@.len() ==> (#[trigger] replay@[k]).wf(),
    ensures
        r@.len() == 1 + replay@.len(),
        r@[0]@ == crate::soupbintcp::types::spec_frame(
            PacketType::LoginAccepted,
            session@ + spec_seq_num_bytes_of(start),
        ),
        forall|k: int|
            0 <= k < replay@.len() ==> (#[trigger] r@[k + 1])@
                == crate::soupbintcp::types::spec_frame(PacketType::SequencedData, replay@[k]@),
{
    let mut v: Vec<Packet> = Vec::new();
    v.push(
        Packet::login_accepted(
            SessionId::new_trunc(session.as_slice()),
            crate::soupbintcp::types::SequenceNumber::from_u64(start),
        ),
    );
    let mut k: usize = 0;
    while k < replay.len()
        invariant
            session.wf(),
            forall|m: int| 0 <= m < replay@.len() ==> (#[trigger] replay@[m]).wf(),
            v@.len() == 1 + k,
            k <= replay@.len(),
            forall|m: int|
                0 <= m < k ==> (#[trigger] v@[m + 1])@ == crate::soupbintcp::types::spec_frame(
                    PacketType::SequencedData,
                    replay@[m]@,
                ),
            v@[0]@ == crate::soupbintcp::types::spec_frame(
                PacketType::LoginAccepted,
                session@ + spec_seq_num_bytes_of(start),
            ),
        decreases replay@.len() - k,
    {
        let copied = match Payload::new(slice_to_vec(replay[k].as_slice())) {
            Ok(p) => p,
            Err(_) => {
                proof {
                    assert(false);
                }
                Payload::empty()
            },
        };
        v.push(Packet::sequenced_data(copied));
        k += 1;
    }
    v
}

/// The frames a server puts on the wire for each decision: nothing for a
/// drop, the reject frame for a reject, and for an accept the accepted frame
/// followed by one sequenced-data frame per replayed payload, in order.
pub fn reply_packets(decision: &LoginDecision) -> (r: Vec<Packet>)
    requires
        decision matches LoginDecision::Accept { session, start, replay } ==> session.wf() && (
        forall|k: int| 0 <= k < replay@.len() ==> (#[trigger] replay@[k]).wf()),
    ensures
        decision == LoginDecision::Drop ==> r@.len() == 0,
        decision matches LoginDecision::Reject(c) ==> r@.len() == 1 && r@[0]@
            == crate::soupbintcp::types::spec_frame(
            PacketType::LoginReject,
            seq![crate::soupbintcp::types::spec_login_reject_byte(*c)],
        ),
        decision matches LoginDecision::Accept { session, start, replay } ==> r@.len() == 1
            + replay@.len() && r@[0]@ == crate::soupbintcp::types::spec_frame(
            PacketType::LoginAccepted,
            session@ + spec_seq_num_bytes_of(*start),
        ) && forall|k: int|
            0 <= k < replay@.len() ==> (#[trigger] r@[k + 1])@
                == crate::soupbintcp::types::spec_frame(PacketType::SequencedData, replay@[k]@),
{
    match decision {
        LoginDecision::Drop => Vec::new(),
        LoginDecision::Reject(c) => {
            let mut v: Vec<Packet> = Vec::new();
            v.push(Packet::login_reject(*c));
            v
        },
        LoginDecision::Accept { session, start, replay } => accept_packets(session, *start, replay),
    }
}

/// The wire form of a starting sequence number.
pub open spec fn spec_seq_num_bytes_of(n: u64) -> Seq<u8> {
    crate::soupbintcp::types::spec_seq_num_bytes(n as nat)
}

} // verus!
