//! The authorization guard in front of protected handlers.
//!
//! For each request the guard finds who is logged in through the session
//! cookie, looks up that account's level and compares it with the one level
//! that the route requires. On a match the request goes on to the wrapped
//! handler, whose response comes back untouched; otherwise the guard answers
//! at once with a fixed rejection, the same whether no one was logged in or
//! the level was wrong.

use vstd::prelude::*;

use crate::accounts::{has_user, index_of, Account, AccountDirectory};
use crate::perms::Perms;
use crate::session::{get_logged_in, opt_view, touched, Session, SessionStore};

verus! {

/// The two ways a guarded request ends.
pub enum Guarded<Q, R> {
    /// Hand the request to the wrapped handler.
    Forward(Q),
    /// Answer with this response; the handler is never called.
    Respond(R),
}

/// The level of the account that `user` names, if it names one.
pub open spec fn level_of(accounts: Seq<Account>, user: Option<Seq<char>>) -> Option<Perms> {
    match user {
        Some(u) => if has_user(accounts, u) {
            Some(accounts[index_of(accounts, u)].permission)
        } else {
            None
        },
        None => None,
    }
}

/// The level behind the session cookie `cookie` at time `now`: none when
/// there is no cookie, no live session or no such account.
pub open spec fn request_level(
    sessions: Seq<Session>,
    accounts: Seq<Account>,
    cookie: Option<Seq<char>>,
    now: i64,
) -> Option<Perms> {
    match cookie {
        Some(id) => level_of(accounts, touched(sessions, id, now).1),
        None => None,
    }
}

/// What the guard decides for a request whose account has level `level`.
pub open spec fn guard_outcome<Q, R>(required: Perms, level: Option<Perms>, request: Q, rejection: R) -> Guarded<Q, R> {
    if level == Some(required) {
        Guarded::Forward(request)
    } else {
        Guarded::Respond(rejection)
    }
}

/// Forwards `request` when `level` is exactly `required`, and answers with
/// `rejection` otherwise.
pub fn guard<Q, R>(required: Perms, level: Option<Perms>, request: Q, rejection: R) -> (r: Guarded<Q, R>)
    ensures
        r == guard_outcome(required, level, request, rejection),
{
    match level {
        Some(p) => if p == required {
            Guarded::Forward(request)
        } else {
            Guarded::Respond(rejection)
        },
        None => Guarded::Respond(rejection),
    }
}

/// The level of whoever is logged in through the session cookie `cookie`;
/// a live session found is marked as used now.
pub fn session_level(sessions: &mut SessionStore, accounts: &AccountDirectory, cookie: Option<&str>) -> (r: Option<Perms>)
    requires
        accounts.wf(),
    ensures
        cookie is None ==> r is None && final(sessions)@ == old(sessions)@,
        cookie matches Some(id) ==> exists|now: i64|
            final(sessions)@ == (#[trigger] touched(old(sessions)@, id@, now)).0 && r == request_level(
                old(sessions)@,
                accounts@,
                Some(id@),
                now,
            ),
{
    let user = get_logged_in(sessions, cookie);
    let r = match &user {
        Some(name) => accounts.get_perms(name.as_str()),
        None => None,
    };
    proof {
        if cookie is Some {
            let id = cookie->0;
            let now = choose|now: i64|
                (sessions@, opt_view(user)) == #[trigger] touched(old(sessions)@, id@, now);
            if user is Some {
                let u = user->0@;
                if r is Some {
                    let i = choose|i: int|
                        0 <= i < accounts@.len() && (#[trigger] accounts@[i]).username@ == u
                            && accounts@[i].permission == r->0;
                    assert(accounts@[index_of(accounts@, u)].username@ == u);
                }
            }
            assert(sessions@ == touched(old(sessions)@, id@, now).0 && r == request_level(
                old(sessions)@,
                accounts@,
                Some(id@),
                now,
            ));
        }
    }
    r
}

/// Completes a guarded request: a forwarded one is answered by `handler`,
/// whose response is returned as it is; a rejected one by its rejection.
pub fn run_guarded<Q, R, F: FnOnce(Q) -> R>(guarded: Guarded<Q, R>, handler: F) -> (r: R)
    requires
        guarded matches Guarded::Forward(q) ==> handler.requires((q,)),
    ensures
        match guarded {
            Guarded::Forward(q) => handler.ensures((q,), r),
            Guarded::Respond(resp) => r == resp,
        },
{
    match guarded {
        Guarded::Forward(q) => handler(q),
        Guarded::Respond(resp) => resp,
    }
}

/// The guard keeps out a request without a cookie, one without a live
/// session, and one whose account has any level other than `required`; it
/// forwards, unchanged, exactly the requests whose account has level
/// `required`.
pub proof fn lemma_guard_correct<Q, R>(
    required: Perms,
    sessions: Seq<Session>,
    accounts: Seq<Account>,
    cookie: Option<Seq<char>>,
    now: i64,
    request: Q,
    rejection: R,
)
    ensures
        ({
            let level = request_level(sessions, accounts, cookie, now);
            let user = touched(sessions, cookie->0, now).1;
            let decided = guard_outcome(required, level, request, rejection);
            &&& cookie is None ==> decided == Guarded::<Q, R>::Respond(rejection)
            &&& (cookie is Some && user is None) ==> decided == Guarded::<Q, R>::Respond(rejection)
            &&& (cookie is Some && user is Some && level != Some(required)) ==> decided
                == Guarded::<Q, R>::Respond(rejection)
            &&& (cookie is Some && user is Some && level == Some(required)) ==> decided
                == Guarded::<Q, R>::Forward(request)
        }),
{
}

} // verus!
