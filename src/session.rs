//! The session store: login sessions with a sliding expiry.
//!
//! Every operation takes the time as milliseconds since the Unix epoch; the
//! methods without an `_at` suffix read the system clock themselves. A
//! session is live while less than [`SESSION_EXPIRY_MS`] has passed since it
//! was last used: lookups treat any other session as absent. The sweep
//! removes for good only the sessions idle beyond [`SESSION_EXPIRY_MS`], so a
//! session idle exactly that long is no longer found but not yet evicted.

use vstd::prelude::*;

use crate::clock::{current_millis, fresh_token};

verus! {

/// How long a session may sit unused before it lapses: thirty minutes.
pub const SESSION_EXPIRY_MS: i64 = 30 * 60 * 1000;

/// The name of the cookie that carries the session identifier.
pub const SESSION_COOKIE_NAME: &'static str = "msj_session";

/// How often the background sweep runs, in seconds.
pub const SWEEP_INTERVAL_SECS: u64 = 60;

/// One login session.
pub struct Session {
    /// The opaque token that the session cookie carries.
    pub id: String,
    /// The account the session belongs to, by username.
    pub account_username: String,
    /// When the session was last used, in milliseconds since the epoch.
    pub last_used: i64,
}

/// Whether `s` has not lapsed at time `now`.
pub open spec fn is_live(s: Session, now: int) -> bool {
    now - s.last_used < SESSION_EXPIRY_MS
}

/// Whether the sweep at time `now` keeps `s`: it has not been idle beyond
/// the expiry.
pub open spec fn survives_sweep(s: Session, now: int) -> bool {
    now - s.last_used <= SESSION_EXPIRY_MS
}

/// `s` as it is after being used at time `now`.
pub open spec fn refreshed(s: Session, now: i64) -> Session {
    Session { id: s.id, account_username: s.account_username, last_used: now }
}

/// The first live session with identifier `id`, at or after position `from`.
pub open spec fn first_live(s: Seq<Session>, id: Seq<char>, now: int, from: int) -> Option<int>
    decreases s.len() - from,
{
    if from < 0 || from >= s.len() {
        None
    } else if s[from].id@ == id && is_live(s[from], now) {
        Some(from)
    } else {
        first_live(s, id, now, from + 1)
    }
}

/// The sessions after a lookup of `id` at time `now`, and the username that
/// the lookup gives.
pub open spec fn touched(s: Seq<Session>, id: Seq<char>, now: i64) -> (
    Seq<Session>,
    Option<Seq<char>>,
) {
    match first_live(s, id, now as int, 0) {
        Some(k) => (s.update(k, refreshed(s[k], now)), Some(s[k].account_username@)),
        None => (s, None),
    }
}

/// The sessions without those whose identifier is `id`.
pub open spec fn without_id(s: Seq<Session>, id: Seq<char>) -> Seq<Session> {
    s.filter(id_differs(id))
}

/// Holds of a session whose identifier is not `id`.
pub open spec fn id_differs(id: Seq<char>) -> spec_fn(Session) -> bool {
    |x: Session| x.id@ != id
}

/// The sessions that the sweep at time `now` keeps, in their order.
pub open spec fn swept(s: Seq<Session>, now: int) -> Seq<Session> {
    s.filter(|x: Session| survives_sweep(x, now))
}

pub open spec fn opt_view(o: Option<String>) -> Option<Seq<char>> {
    match o {
        Some(s) => Some(s@),
        None => None,
    }
}

/// What `first_live` reports is a live session with that identifier, and
/// when it reports none there is none.
pub proof fn lemma_first_live(s: Seq<Session>, id: Seq<char>, now: int, from: int)
    requires
        0 <= from,
    ensures
        match first_live(s, id, now, from) {
            Some(k) => from <= k < s.len() && s[k].id@ == id && is_live(s[k], now) && forall|j: int|
                from <= j < k ==> !(s[j].id@ == id && is_live(s[j], now)),
            None => forall|j: int| from <= j < s.len() ==> !(#[trigger] s[j].id@ == id && is_live(s[j], now)),
        },
    decreases s.len() - from,
{
    if from < s.len() {
        lemma_first_live(s, id, now, from + 1);
    }
}

/// Filtering twice by one predicate keeps what filtering once keeps.
proof fn lemma_filter_twice<A>(s: Seq<A>, p: spec_fn(A) -> bool)
    ensures
        s.filter(p).filter(p) == s.filter(p),
    decreases s.len(),
{
    reveal(Seq::filter);
    if s.len() > 0 {
        lemma_filter_twice(s.drop_last(), p);
        let f = s.drop_last().filter(p);
        if p(s.last()) {
            assert(f.push(s.last()).drop_last() =~= f);
        }
    }
}

/// Invalidating an identifier a second time changes nothing: the store after
/// two calls is the store after one.
pub proof fn lemma_invalidate_idempotent(s: Seq<Session>, id: Seq<char>)
    ensures
        without_id(without_id(s, id), id) == without_id(s, id),
{
    lemma_filter_twice(s, id_differs(id));
}

/// A sweep that read the clock at `now` keeps every session last used no
/// earlier than thirty minutes before `now`, however many lookups refreshed
/// it before the sweep ran.
pub proof fn lemma_sweep_keeps_recent(s: Seq<Session>, now: int)
    ensures
        forall|k: int|
            0 <= k < s.len() && s[k].last_used >= now - SESSION_EXPIRY_MS ==> #[trigger] swept(
                s,
                now,
            ).contains(s[k]),
{
    assert forall|k: int| 0 <= k < s.len() && s[k].last_used >= now - SESSION_EXPIRY_MS implies #[trigger] swept(
        s,
        now,
    ).contains(s[k]) by {
        s.lemma_filter_contains(|x: Session| survives_sweep(x, now), k);
    }
}

/// A sweep that read the clock at `now` never loses a session that a lookup
/// refreshed at a time `t` no earlier than `now`, whichever of the two ran
/// first: after the lookup the sweep keeps the refreshed session, and after
/// the sweep the lookup still finds a live session.
pub proof fn lemma_sweep_keeps_refreshed(s: Seq<Session>, id: Seq<char>, t: i64, now: int)
    requires
        touched(s, id, t).1 is Some,
        now <= t,
    ensures
        swept(touched(s, id, t).0, now).contains(refreshed(s[first_live(s, id, t as int, 0)->0], t)),
        touched(swept(s, now), id, t).1 is Some,
{
    lemma_first_live(s, id, t as int, 0);
    let k = first_live(s, id, t as int, 0)->0;
    let p = |x: Session| survives_sweep(x, now);
    let after = touched(s, id, t).0;
    assert(after[k] == refreshed(s[k], t));
    after.lemma_filter_contains(p, k);
    s.lemma_filter_contains(p, k);
    let kept = swept(s, now);
    assert(kept.contains(s[k]));
    let j = choose|j: int| 0 <= j < kept.len() && kept[j] == s[k];
    lemma_first_live(kept, id, t as int, 0);
    assert(kept[j].id@ == id && is_live(kept[j], t as int));
}

/// A lookup of `id` at time `now` gives a username exactly when some session
/// with identifier `id` is live at `now`. Then it gives the username of the
/// first such session and marks that session, and nothing else, as used at
/// `now`; otherwise it changes nothing.
pub proof fn lemma_lookup_validates(s: Seq<Session>, id: Seq<char>, now: i64)
    ensures
        touched(s, id, now).1 is Some <==> exists|k: int|
            0 <= k < s.len() && (#[trigger] s[k]).id@ == id && is_live(s[k], now as int),
        touched(s, id, now).1 is None ==> touched(s, id, now).0 == s,
        touched(s, id, now).1 is Some ==> exists|k: int|
            0 <= k < s.len() && (#[trigger] s[k]).id@ == id && is_live(s[k], now as int) && (forall|j: int|
                0 <= j < k ==> !(s[j].id@ == id && is_live(s[j], now as int)))
                && touched(s, id, now).1 == Some(s[k].account_username@) && touched(s, id, now).0
                == s.update(k, refreshed(s[k], now)),
{
    lemma_first_live(s, id, now as int, 0);
    if let Some(k) = first_live(s, id, now as int, 0) {
        assert(s[k].id@ == id && is_live(s[k], now as int));
    }
}

impl Session {
    /// A session for `account_username`, used at time `now`.
    pub fn new(id: String, account_username: String, now: i64) -> (r: Session)
        ensures
            r.id == id,
            r.account_username == account_username,
            r.last_used == now,
    {
        Session { id, account_username, last_used: now }
    }

    /// Marks the session as used at time `now`.
    pub fn extend(&mut self, now: i64)
        ensures
            *final(self) == refreshed(*old(self), now),
    {
        self.last_used = now;
    }

    /// Whether the sweep at time `now` evicts the session: it has been idle
    /// beyond the expiry.
    pub fn is_stale(&self, now: i64) -> (r: bool)
        ensures
            r == !survives_sweep(*self, now as int),
    {
        (now as i128) - (self.last_used as i128) > SESSION_EXPIRY_MS as i128
    }

    /// Whether the session has lapsed at time `now`.
    pub fn is_expired(&self, now: i64) -> (r: bool)
        ensures
            r == !is_live(*self, now as int),
    {
        (now as i128) - (self.last_used as i128) >= SESSION_EXPIRY_MS as i128
    }
}

/// The set of active sessions, in order of creation.
pub struct SessionStore {
    sessions: Vec<Session>,
}

impl View for SessionStore {
    type V = Seq<Session>;

    closed spec fn view(&self) -> Seq<Session> {
        self.sessions@
    }
}

impl SessionStore {
    /// A store with no sessions.
    pub fn new() -> (r: SessionStore)
        ensures
            r@ == Seq::<Session>::empty(),
    {
        SessionStore { sessions: Vec::new() }
    }

    /// The number of sessions held, live or lapsed.
    pub fn len(&self) -> (r: usize)
        ensures
            r == self@.len(),
    {
        self.sessions.len()
    }

    /// Adds `session` after the others.
    pub fn insert(&mut self, session: Session)
        ensures
            final(self)@ == old(self)@.push(session),
    {
        self.sessions.push(session);
    }

    /// Opens a session for `account_username` under a fresh random
    /// identifier, used now, and returns the identifier.
    pub fn create(&mut self, account_username: String) -> (id: String)
        ensures
            id@.len() == 36,
            final(self)@.len() == old(self)@.len() + 1,
            final(self)@.drop_last() == old(self)@,
            final(self)@.last().id == id,
            final(self)@.last().account_username == account_username,
    {
        let id = fresh_token();
        let now = current_millis();
        self.sessions.push(Session::new(id.clone(), account_username, now));
        id
    }

    /// Looks up the session `id` at time `now`. When a live one is found, it
    /// is marked as used at `now` and its username is returned; otherwise
    /// nothing changes and nothing is returned.
    pub fn touch_and_validate_at(&mut self, id: &str, now: i64) -> (r: Option<String>)
        ensures
            (final(self)@, opt_view(r)) == touched(old(self)@, id@, now),
            r is Some <==> exists|k: int|
                0 <= k < old(self)@.len() && (#[trigger] old(self)@[k]).id@ == id@ && is_live(
                    old(self)@[k],
                    now as int,
                ),
            r matches Some(u) ==> exists|k: int|
                0 <= k < old(self)@.len() && (#[trigger] old(self)@[k]).id@ == id@ && is_live(
                    old(self)@[k],
                    now as int,
                ) && u@ == old(self)@[k].account_username@,
    {
        proof {
            lemma_first_live(self@, id@, now as int, 0);
        }
        let key = id.to_owned();
        let mut k: usize = 0;
        while k < self.sessions.len()
            invariant
                k <= self.sessions.len(),
                self.sessions@ == old(self)@,
                key@ == id@,
                first_live(old(self)@, id@, now as int, 0) == first_live(
                    old(self)@,
                    id@,
                    now as int,
                    k as int,
                ),
            decreases self.sessions.len() - k,
        {
            if self.sessions[k].id == key && !self.sessions[k].is_expired(now) {
                let name = self.sessions[k].account_username.clone();
                self.sessions[k].last_used = now;
                assert(self.sessions@ =~= old(self)@.update(k as int, refreshed(old(self)@[k as int], now)));
                return Some(name);
            }
            k = k + 1;
        }
        None
    }

    /// [`Self::touch_and_validate_at`] at the current time.
    pub fn touch_and_validate(&mut self, id: &str) -> (r: Option<String>)
        ensures
            exists|now: i64| (final(self)@, opt_view(r)) == #[trigger] touched(old(self)@, id@, now),
    {
        let now = current_millis();
        let r = self.touch_and_validate_at(id, now);
        assert((self@, opt_view(r)) == touched(old(self)@, id@, now));
        r
    }

    /// Removes every session whose identifier is `id`; there may be none.
    pub fn invalidate(&mut self, id: &str)
        ensures
            final(self)@ == without_id(old(self)@, id@),
    {
        let key = id.to_owned();
        let mut all: Vec<Session> = Vec::new();
        std::mem::swap(&mut self.sessions, &mut all);
        let ghost orig = all@;
        for s in it: all.into_iter()
            invariant
                key@ == id@,
                it.seq() == orig,
                self.sessions@ == without_id(it.seq().subrange(0, it.index() as int), id@),
        {
            let ghost before = it.seq().subrange(0, it.index() as int);
            let keep = !(s.id == key);
            if keep {
                self.sessions.push(s);
            }
            proof {
                let after = it.seq().subrange(0, it.index() + 1);
                assert(after.drop_last() =~= before);
                reveal(Seq::filter);
            }
        }
        assert(orig.subrange(0, orig.len() as int) =~= orig);
    }

    /// Removes every session idle beyond the expiry at time `now`.
    pub fn sweep_at(&mut self, now: i64)
        ensures
            final(self)@ == swept(old(self)@, now as int),
    {
        let mut all: Vec<Session> = Vec::new();
        std::mem::swap(&mut self.sessions, &mut all);
        let ghost orig = all@;
        for s in it: all.into_iter()
            invariant
                it.seq() == orig,
                self.sessions@ == swept(it.seq().subrange(0, it.index() as int), now as int),
        {
            let ghost before = it.seq().subrange(0, it.index() as int);
            if !s.is_stale(now) {
                self.sessions.push(s);
            }
            proof {
                let after = it.seq().subrange(0, it.index() + 1);
                assert(after.drop_last() =~= before);
                reveal(Seq::filter);
            }
        }
        assert(orig.subrange(0, orig.len() as int) =~= orig);
    }

    /// [`Self::sweep_at`] at the current time.
    pub fn sweep(&mut self)
        ensures
            exists|now: i64| final(self)@ == #[trigger] swept(old(self)@, now as int),
    {
        let now = current_millis();
        self.sweep_at(now);
    }
}

/// The username logged in through the session cookie `cookie`, if any; a
/// live session found is marked as used now.
pub fn get_logged_in(sessions: &mut SessionStore, cookie: Option<&str>) -> (r: Option<String>)
    ensures
        cookie is None ==> r is None && final(sessions)@ == old(sessions)@,
        cookie matches Some(id) ==> exists|now: i64|
            (final(sessions)@, opt_view(r)) == #[trigger] touched(old(sessions)@, id@, now),
{
    match cookie {
        None => None,
        Some(id) => sessions.touch_and_validate(id),
    }
}

/// Ends the session that the cookie `cookie` names: every session with that
/// identifier is removed. Without a cookie nothing changes.
pub fn process_logout(sessions: &mut SessionStore, cookie: Option<&str>)
    ensures
        cookie is None ==> final(sessions)@ == old(sessions)@,
        cookie matches Some(id) ==> final(sessions)@ == without_id(old(sessions)@, id@),
{
    if let Some(id) = cookie {
        sessions.invalidate(id);
    }
}

/// Whether the session cookie `cookie` names a live session; one found is
/// marked as used now.
pub fn is_logged_in(sessions: &mut SessionStore, cookie: Option<&str>) -> (r: bool)
    ensures
        cookie is None ==> !r && final(sessions)@ == old(sessions)@,
        cookie matches Some(id) ==> exists|now: i64|
            final(sessions)@ == (#[trigger] touched(old(sessions)@, id@, now)).0 && r == touched(
                old(sessions)@,
                id@,
                now,
            ).1 is Some,
{
    let u = get_logged_in(sessions, cookie);
    proof {
        if cookie is Some {
            let id = cookie->0;
            let now = choose|now: i64|
                (sessions@, opt_view(u)) == #[trigger] touched(old(sessions)@, id@, now);
            assert(sessions@ == touched(old(sessions)@, id@, now).0 && u.is_some() == touched(
                old(sessions)@,
                id@,
                now,
            ).1 is Some);
        }
    }
    u.is_some()
}

} // verus!
