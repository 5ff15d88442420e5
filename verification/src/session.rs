//! Server-side session store.
//!
//! Sessions are anonymous records keyed by a random, URL-safe identifier
//! that encodes 256 random bits. Each record carries its creation time, a
//! last-access time that drives expiry, the last CSRF token stored for it,
//! and a bag of string key-value data. A session is expired once more than
//! the TTL has passed since its last access; lookups never return expired
//! records, and a cleanup sweep removes exactly the expired ones.
//!
//! Times are plain second counts supplied by the caller, so every operation
//! is a deterministic function of the store and its arguments.

use vstd::prelude::*;

verus! {

use crate::crypto::b64_decode_of;
use crate::crypto::b64_encode;
use crate::crypto::random_bytes;
use crate::text::str_eq;

/// Idle seconds after which a session is expired.
pub const SESSION_TTL_SECS: u64 = 3600;

/// Length in bytes of the randomness behind a session id (256 bits).
pub const SESSION_ID_BYTES: usize = 32;

/// A record last touched at `last_access` is expired at `now` when strictly
/// more than the TTL has elapsed (both in seconds).
pub open spec fn spec_expired(last_access: u64, now: u64) -> bool {
    now - last_access > SESSION_TTL_SECS
}

/// A well-formed session id: URL-safe base64 text that decodes to exactly
/// 32 bytes.
pub open spec fn valid_session_id(id: Seq<char>) -> bool {
    match b64_decode_of(id) {
        Some(bytes) => bytes.len() == SESSION_ID_BYTES,
        None => false,
    }
}

/// Mathematical image of one session record.
pub ghost struct SessionModel {
    pub id: Seq<char>,
    pub csrf_token: Seq<char>,
    pub created_at: u64,
    pub last_access: u64,
    pub data: Seq<(Seq<char>, Seq<char>)>,
}

/// The record a freshly created session holds: empty token and data, both
/// timestamps at the creation instant.
pub open spec fn fresh_session(id: Seq<char>, now: u64) -> SessionModel {
    SessionModel {
        id: id,
        csrf_token: Seq::empty(),
        created_at: now,
        last_access: now,
        data: Seq::empty(),
    }
}

/// The key-value pairs of a session's data bag, as sequences of characters.
pub open spec fn data_view(d: Seq<(String, String)>) -> Seq<(Seq<char>, Seq<char>)> {
    Seq::new(d.len(), |i: int| (d[i].0@, d[i].1@))
}

/// Session data stored server-side.
pub struct Session {
    pub id: String,
    pub csrf_token: String,
    pub created_at: u64,
    pub last_access: u64,
    pub data: Vec<(String, String)>,
}

impl View for Session {
    type V = SessionModel;

    open spec fn view(&self) -> SessionModel {
        SessionModel {
            id: self.id@,
            csrf_token: self.csrf_token@,
            created_at: self.created_at,
            last_access: self.last_access,
            data: data_view(self.data@),
        }
    }
}

impl Session {
    /// Whether this session is expired at time `now`.
    pub fn is_expired(&self, now: u64) -> (expired: bool)
        ensures
            expired == spec_expired(self.last_access, now),
    {
        if now > self.last_access {
            now - self.last_access > SESSION_TTL_SECS
        } else {
            false
        }
    }
}

/// What a lookup yields on the store's map: the record, unless it is absent
/// or expired at `now`.
pub open spec fn spec_get(
    m: Map<Seq<char>, SessionModel>,
    id: Seq<char>,
    now: u64,
) -> Option<SessionModel> {
    if m.dom().contains(id) && !spec_expired(m[id].last_access, now) {
        Some(m[id])
    } else {
        None
    }
}

/// The store's map after a touch: the record's last-access time becomes
/// `now`; an unknown id changes nothing.
pub open spec fn spec_touch(
    m: Map<Seq<char>, SessionModel>,
    id: Seq<char>,
    now: u64,
) -> Map<Seq<char>, SessionModel> {
    if m.dom().contains(id) {
        m.insert(id, SessionModel { last_access: now, ..m[id] })
    } else {
        m
    }
}

/// The store's map after storing a CSRF token on a record; an unknown id
/// changes nothing.
pub open spec fn spec_update_csrf(
    m: Map<Seq<char>, SessionModel>,
    id: Seq<char>,
    token: Seq<char>,
) -> Map<Seq<char>, SessionModel> {
    if m.dom().contains(id) {
        m.insert(id, SessionModel { csrf_token: token, ..m[id] })
    } else {
        m
    }
}

/// Session store interface: creation, expiry-aware lookup, refresh, token
/// update, destruction and bulk expiry cleanup, all specified against an
/// abstract map from id to record.
pub trait SessionStore: Sized {
    /// The store's internal invariant.
    spec fn inv(&self) -> bool;

    /// The sessions physically present, keyed by id (expired ones included
    /// until a cleanup removes them).
    spec fn model(&self) -> Map<Seq<char>, SessionModel>;

    /// Creates a session with a fresh random id, stores it and returns a
    /// copy. The id decodes to exactly 32 random bytes; distinctness from
    /// existing ids holds with overwhelming probability but is not checked,
    /// so the map is updated by insertion.
    fn create(&mut self, now: u64) -> (session: Session)
        requires
            old(self).inv(),
        ensures
            final(self).inv(),
            valid_session_id(session@.id),
            session@ == fresh_session(session@.id, now),
            final(self).model() == old(self).model().insert(session@.id, session@),
    ;

    /// Returns a copy of the session when present and not expired, and
    /// nothing otherwise (unknown and expired ids are indistinguishable).
    /// Never mutates the store.
    fn get(&self, id: &str, now: u64) -> (result: Option<Session>)
        requires
            self.inv(),
        ensures
            match result {
                Some(session) => spec_get(self.model(), id@, now) == Some(session@),
                None => spec_get(self.model(), id@, now) is None,
            },
    ;

    /// Sets the session's last-access time to `now`; a no-op, not an error,
    /// for an unknown id.
    fn touch(&mut self, id: &str, now: u64)
        requires
            old(self).inv(),
        ensures
            final(self).inv(),
            final(self).model() == spec_touch(old(self).model(), id@, now),
    ;

    /// Overwrites the session's stored CSRF token; a no-op for an unknown
    /// id.
    fn update_csrf(&mut self, id: &str, token: &str)
        requires
            old(self).inv(),
        ensures
            final(self).inv(),
            final(self).model() == spec_update_csrf(old(self).model(), id@, token@),
    ;

    /// Removes the session unconditionally; a no-op when absent.
    fn destroy(&mut self, id: &str)
        requires
            old(self).inv(),
        ensures
            final(self).inv(),
            final(self).model() == old(self).model().remove(id@),
    ;

    /// Removes exactly the sessions expired at `now` and leaves every other
    /// record untouched.
    fn cleanup_expired(&mut self, now: u64)
        requires
            old(self).inv(),
        ensures
            final(self).inv(),
            forall|k: Seq<char>|
                final(self).model().dom().contains(k) <==> (old(self).model().dom().contains(k)
                    && !spec_expired(old(self).model()[k].last_access, now)),
            forall|k: Seq<char>| #[trigger]
                final(self).model().dom().contains(k) ==> final(self).model()[k] == old(
                    self,
                ).model()[k],
    ;
}

/// In-memory session store (suitable for single-instance deployments).
pub struct InMemorySessionStore {
    sessions: Vec<Session>,
}

/// No two stored sessions share an id.
pub open spec fn wf_sessions(s: Seq<Session>) -> bool {
    forall|i: int, j: int| 0 <= i < j < s.len() ==> s[i].id@ != s[j].id@
}

/// The map a sequence of records stands for; later entries win, though
/// under `wf_sessions` the ids are distinct.
spec fn map_of(s: Seq<Session>) -> Map<Seq<char>, SessionModel>
    decreases s.len(),
{
    if s.len() == 0 {
        Map::empty()
    } else {
        map_of(s.drop_last()).insert(s.last().id@, s.last()@)
    }
}

proof fn lemma_map_of_absent(s: Seq<Session>, k: Seq<char>)
    requires
        forall|i: int| 0 <= i < s.len() ==> s[i].id@ != k,
    ensures
        !map_of(s).dom().contains(k),
    decreases s.len(),
{
    if s.len() > 0 {
        lemma_map_of_absent(s.drop_last(), k);
    }
}

proof fn lemma_map_of_index(s: Seq<Session>, i: int)
    requires
        wf_sessions(s),
        0 <= i < s.len(),
    ensures
        map_of(s).dom().contains(s[i].id@),
        map_of(s)[s[i].id@] == s[i]@,
    decreases s.len(),
{
    if i < s.len() - 1 {
        assert(wf_sessions(s.drop_last()));
        lemma_map_of_index(s.drop_last(), i);
        assert(s[i].id@ != s.last().id@);
    }
}

proof fn lemma_map_of_contains(s: Seq<Session>, k: Seq<char>)
    requires
        map_of(s).dom().contains(k),
    ensures
        exists|i: int| 0 <= i < s.len() && #[trigger] s[i].id@ == k,
    decreases s.len(),
{
    if s.len() > 0 {
        if s.last().id@ == k {
            assert(s[s.len() - 1].id@ == k);
        } else {
            lemma_map_of_contains(s.drop_last(), k);
            let i = choose|i: int| 0 <= i < s.drop_last().len() && #[trigger] s.drop_last()[i].id@ == k;
            assert(s[i].id@ == k);
        }
    }
}

proof fn lemma_map_of_push(s: Seq<Session>, x: Session)
    ensures
        map_of(s.push(x)) == map_of(s).insert(x.id@, x@),
{
    assert(s.push(x).drop_last() =~= s);
    assert(s.push(x).last() == x);
}

proof fn lemma_map_of_remove(s: Seq<Session>, i: int)
    requires
        wf_sessions(s),
        0 <= i < s.len(),
    ensures
        map_of(s.remove(i)) == map_of(s).remove(s[i].id@),
    decreases s.len(),
{
    let k = s[i].id@;
    if i == s.len() - 1 {
        assert(s.remove(i) =~= s.drop_last());
        assert(forall|j: int| 0 <= j < s.drop_last().len() ==> s.drop_last()[j].id@ != k);
        lemma_map_of_absent(s.drop_last(), k);
        assert(map_of(s.drop_last()).insert(k, s.last()@).remove(k) =~= map_of(s.drop_last()));
    } else {
        let dl = s.drop_last();
        let last = s.last();
        assert(wf_sessions(dl));
        lemma_map_of_remove(dl, i);
        assert(s.remove(i).drop_last() =~= dl.remove(i));
        assert(s.remove(i).last() == last);
        assert(map_of(s.remove(i)) == map_of(dl.remove(i)).insert(last.id@, last@));
        assert(k != last.id@);
        assert(map_of(dl).remove(k).insert(last.id@, last@)
            =~= map_of(dl).insert(last.id@, last@).remove(k));
    }
}

proof fn lemma_wf_remove(s: Seq<Session>, i: int)
    requires
        wf_sessions(s),
        0 <= i < s.len(),
    ensures
        wf_sessions(s.remove(i)),
        forall|j: int| 0 <= j < s.remove(i).len() ==> s.remove(i)[j].id@ != s[i].id@,
{
    assert forall|a: int, b: int| 0 <= a < b < s.remove(i).len() implies s.remove(i)[a].id@ != s.remove(
        i,
    )[b].id@ by {
        let a0 = if a < i { a } else { a + 1 };
        let b0 = if b < i { b } else { b + 1 };
        assert(s.remove(i)[a] == s[a0]);
        assert(s.remove(i)[b] == s[b0]);
    }
    assert forall|j: int| 0 <= j < s.remove(i).len() implies s.remove(i)[j].id@ != s[i].id@ by {
        let j0 = if j < i { j } else { j + 1 };
        assert(s.remove(i)[j] == s[j0]);
    }
}

/// Returns a fresh record equal to `s` field for field.
fn clone_session(s: &Session) -> (r: Session)
    ensures
        r@ == s@,
{
    let mut data: Vec<(String, String)> = Vec::new();
    let mut i: usize = 0;
    while i < s.data.len()
        invariant
            i <= s.data@.len(),
            data_view(data@) == data_view(s.data@).subrange(0, i as int),
        decreases s.data@.len() - i,
    {
        let pair = &s.data[i];
        let key = pair.0.clone();
        let value = pair.1.clone();
        let ghost pre = data@;
        data.push((key, value));
        proof {
            assert(data_view(pre).len() == pre.len());
            assert(data_view(data@)[i as int] == (key@, value@));
            assert(forall|j: int| 0 <= j < i ==> data_view(data@)[j] == data_view(pre)[j]);
            assert(data_view(data@) =~= data_view(s.data@).subrange(0, i as int + 1));
        }
        i = i + 1;
    }
    proof {
        assert(data_view(s.data@).subrange(0, s.data@.len() as int) =~= data_view(s.data@));
    }
    Session {
        id: s.id.clone(),
        csrf_token: s.csrf_token.clone(),
        created_at: s.created_at,
        last_access: s.last_access,
        data,
    }
}

/// Index of the session with this id, if any.
fn find_index(sessions: &Vec<Session>, id: &str) -> (r: Option<usize>)
    ensures
        match r {
            Some(i) => i < sessions@.len() && sessions@[i as int].id@ == id@,
            None => forall|i: int| 0 <= i < sessions@.len() ==> sessions@[i].id@ != id@,
        },
{
    let mut i: usize = 0;
    while i < sessions.len()
        invariant
            i <= sessions@.len(),
            forall|j: int| 0 <= j < i ==> sessions@[j].id@ != id@,
        decreases sessions@.len() - i,
    {
        if str_eq(sessions[i].id.as_str(), id) {
            return Some(i);
        }
        i = i + 1;
    }
    None
}

/// Index of some expired session, if any.
fn find_expired(sessions: &Vec<Session>, now: u64) -> (r: Option<usize>)
    ensures
        match r {
            Some(i) => i < sessions@.len() && spec_expired(sessions@[i as int].last_access, now),
            None => forall|i: int|
                0 <= i < sessions@.len() ==> !spec_expired(sessions@[i].last_access, now),
        },
{
    let mut i: usize = 0;
    while i < sessions.len()
        invariant
            i <= sessions@.len(),
            forall|j: int| 0 <= j < i ==> !spec_expired(sessions@[j].last_access, now),
        decreases sessions@.len() - i,
    {
        if sessions[i].is_expired(now) {
            return Some(i);
        }
        i = i + 1;
    }
    None
}

impl InMemorySessionStore {
    /// An empty store.
    pub fn new() -> (store: Self)
        ensures
            store.inv(),
            store.model() == Map::<Seq<char>, SessionModel>::empty(),
    {
        InMemorySessionStore { sessions: Vec::new() }
    }

    /// A fresh random id: 256 bits from the system rng, URL-safe base64
    /// without padding.
    fn generate_id() -> (id: String)
        ensures
            valid_session_id(id@),
    {
        let bytes = random_bytes(SESSION_ID_BYTES);
        b64_encode(bytes.as_slice())
    }
}

impl Default for InMemorySessionStore {
    fn default() -> (store: Self)
        ensures
            store.inv(),
            store.model() == Map::<Seq<char>, SessionModel>::empty(),
    {
        Self::new()
    }
}

impl SessionStore for InMemorySessionStore {
    closed spec fn inv(&self) -> bool {
        wf_sessions(self.sessions@)
    }

    closed spec fn model(&self) -> Map<Seq<char>, SessionModel> {
        map_of(self.sessions@)
    }

    fn create(&mut self, now: u64) -> (session: Session) {
        let id = Self::generate_id();
        let session = Session {
            id,
            csrf_token: String::new(),
            created_at: now,
            last_access: now,
            data: Vec::new(),
        };
        let stored = clone_session(&session);
        proof {
            assert(session@.data =~= Seq::<(Seq<char>, Seq<char>)>::empty());
            assert(session@ == fresh_session(session@.id, now));
        }
        match find_index(&self.sessions, session.id.as_str()) {
            Some(i) => {
                proof {
                    lemma_map_of_remove(self.sessions@, i as int);
                    lemma_wf_remove(self.sessions@, i as int);
                }
                let ghost mid = self.sessions@.remove(i as int);
                self.sessions.remove(i);
                proof {
                    lemma_map_of_push(mid, stored);
                    assert(map_of(mid.push(stored))
                        =~= map_of(old(self).sessions@).insert(stored.id@, stored@));
                }
                self.sessions.push(stored);
            },
            None => {
                proof {
                    lemma_map_of_push(self.sessions@, stored);
                }
                self.sessions.push(stored);
            },
        }
        session
    }

    fn get(&self, id: &str, now: u64) -> (result: Option<Session>) {
        match find_index(&self.sessions, id) {
            Some(i) => {
                proof {
                    lemma_map_of_index(self.sessions@, i as int);
                }
                let session = &self.sessions[i];
                if session.is_expired(now) {
                    None
                } else {
                    Some(clone_session(session))
                }
            },
            None => {
                proof {
                    lemma_map_of_absent(self.sessions@, id@);
                }
                None
            },
        }
    }

    fn touch(&mut self, id: &str, now: u64) {
        match find_index(&self.sessions, id) {
            Some(i) => {
                proof {
                    lemma_map_of_index(self.sessions@, i as int);
                    lemma_map_of_remove(self.sessions@, i as int);
                    lemma_wf_remove(self.sessions@, i as int);
                }
                let ghost mid = self.sessions@.remove(i as int);
                let mut session = self.sessions.remove(i);
                session.last_access = now;
                proof {
                    lemma_map_of_push(mid, session);
                    assert(map_of(mid.push(session))
                        =~= spec_touch(map_of(old(self).sessions@), id@, now));
                }
                self.sessions.push(session);
            },
            None => {
                proof {
                    lemma_map_of_absent(self.sessions@, id@);
                }
            },
        }
    }

    fn update_csrf(&mut self, id: &str, token: &str) {
        match find_index(&self.sessions, id) {
            Some(i) => {
                proof {
                    lemma_map_of_index(self.sessions@, i as int);
                    lemma_map_of_remove(self.sessions@, i as int);
                    lemma_wf_remove(self.sessions@, i as int);
                }
                let ghost mid = self.sessions@.remove(i as int);
                let mut session = self.sessions.remove(i);
                session.csrf_token = token.to_owned();
                proof {
                    lemma_map_of_push(mid, session);
                    assert(map_of(mid.push(session))
                        =~= spec_update_csrf(map_of(old(self).sessions@), id@, token@));
                }
                self.sessions.push(session);
            },
            None => {
                proof {
                    lemma_map_of_absent(self.sessions@, id@);
                }
            },
        }
    }

    fn destroy(&mut self, id: &str) {
        match find_index(&self.sessions, id) {
            Some(i) => {
                proof {
                    lemma_map_of_remove(self.sessions@, i as int);
                    lemma_wf_remove(self.sessions@, i as int);
                }
                self.sessions.remove(i);
            },
            None => {
                proof {
                    lemma_map_of_absent(self.sessions@, id@);
                    assert(map_of(self.sessions@).remove(id@) =~= map_of(self.sessions@));
                }
            },
        }
    }

    fn cleanup_expired(&mut self, now: u64) {
        let ghost m0 = map_of(old(self).sessions@);
        loop
            invariant
                wf_sessions(self.sessions@),
                forall|k: Seq<char>| #[trigger]
                    map_of(self.sessions@).dom().contains(k) ==> m0.dom().contains(k) && map_of(
                        self.sessions@,
                    )[k] == m0[k],
                forall|k: Seq<char>|
                    m0.dom().contains(k) && !spec_expired(m0[k].last_access, now) ==> #[trigger]
                        map_of(self.sessions@).dom().contains(k),
            ensures
                wf_sessions(self.sessions@),
                forall|k: Seq<char>| #[trigger]
                    map_of(self.sessions@).dom().contains(k) ==> m0.dom().contains(k) && map_of(
                        self.sessions@,
                    )[k] == m0[k],
                forall|k: Seq<char>|
                    m0.dom().contains(k) && !spec_expired(m0[k].last_access, now) ==> #[trigger]
                        map_of(self.sessions@).dom().contains(k),
                forall|i: int|
                    0 <= i < self.sessions@.len() ==> !spec_expired(
                        self.sessions@[i].last_access,
                        now,
                    ),
            decreases self.sessions@.len(),
        {
            match find_expired(&self.sessions, now) {
                None => {
                    break;
                },
                Some(i) => {
                    proof {
                        lemma_map_of_index(self.sessions@, i as int);
                        lemma_map_of_remove(self.sessions@, i as int);
                        lemma_wf_remove(self.sessions@, i as int);
                    }
                    self.sessions.remove(i);
                },
            }
        }
        proof {
            assert forall|k: Seq<char>| #[trigger] map_of(self.sessions@).dom().contains(k)
                implies !spec_expired(map_of(self.sessions@)[k].last_access, now) by {
                lemma_map_of_contains(self.sessions@, k);
                let i = choose|i: int|
                    0 <= i < self.sessions@.len() && #[trigger] self.sessions@[i].id@ == k;
                lemma_map_of_index(self.sessions@, i);
            }
        }
    }
}

/// Looking a session up right after it was created returns it: at the
/// creation instant it is not expired, and its record is the fresh one, with
/// empty data and an empty CSRF token.
pub proof fn lemma_get_after_create(m: Map<Seq<char>, SessionModel>, id: Seq<char>, now: u64)
    ensures
        spec_get(m.insert(id, fresh_session(id, now)), id, now) == Some(fresh_session(id, now)),
        fresh_session(id, now).data.len() == 0,
        fresh_session(id, now).csrf_token.len() == 0,
{
}

/// Touching never moves a session's last-access time backwards, as long as
/// the clock reading is not older than the one already recorded: afterwards
/// the recorded time is `now`, at least its previous value.
pub proof fn lemma_touch_refreshes(m: Map<Seq<char>, SessionModel>, id: Seq<char>, now: u64)
    requires
        m.dom().contains(id) ==> m[id].last_access <= now,
    ensures
        m.dom().contains(id) ==> {
            let touched = spec_touch(m, id, now);
            touched.dom().contains(id) && touched[id].last_access == now && touched[id].last_access
                >= m[id].last_access
        },
        !m.dom().contains(id) ==> spec_touch(m, id, now) == m,
{
}

/// A session whose last access is older than the TTL is not returned by a
/// lookup, even while the record is still physically present.
pub proof fn lemma_expired_not_returned(m: Map<Seq<char>, SessionModel>, id: Seq<char>, now: u64)
    ensures
        (m.dom().contains(id) && spec_expired(m[id].last_access, now)) ==> spec_get(m, id, now)
            is None,
{
}

} // verus!
