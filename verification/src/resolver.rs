//! The session resolver: from a credential to the user it stands for.
//!
//! A sound credential names a session. Resolving it marks the session as
//! seen and returns its user in one step, then reads the user's public
//! profile. Every failure leaves the caller unauthenticated.

use vstd::prelude::*;
use crate::account::User;
use crate::identity::Identity;
use crate::store::{
    distinct_sessions, has_session, has_user, refreshed, session_index, touched, user_index,
    CredentialStore, Session,
};
use crate::token::Credential;

verus! {

/// Why a credential resolves to no user.
#[derive(Debug, Clone, Copy, PartialEq, Eq, Structural)]
pub enum AuthFailure {
    /// No credential was presented.
    Unauthorized,
    /// The credential is malformed, expired or forged.
    InvalidCredential,
    /// The credential is sound, but its session does not exist (any more).
    SessionNotFound,
    /// The session exists, but its user does not: the data is inconsistent.
    IntegrityError,
}

/// The status code under which a failure is reported. The first three are
/// told apart by nobody outside; the last is a fault of the server.
pub fn failure_status(failure: AuthFailure) -> (r: u16)
    ensures
        r == if failure == AuthFailure::IntegrityError {
            500u16
        } else {
            401u16
        },
{
    match failure {
        AuthFailure::IntegrityError => 500,
        _ => 401,
    }
}

/// What resolving has to do next.
#[derive(Debug)]
pub enum ResolveStep {
    /// Mark the session with this id as seen, and report its user.
    Refresh(i32),
    /// Read the public profile of the user with this id.
    Fetch(i32),
    /// Nothing: the outcome is known.
    Done(Result<User, AuthFailure>),
}

/// The first step: a credential that is absent or unsound is turned away
/// before the store is asked anything.
pub fn begin(credential: Credential) -> (r: ResolveStep)
    ensures
        r == match credential {
            Credential::Absent => ResolveStep::Done(Err(AuthFailure::Unauthorized)),
            Credential::Invalid => ResolveStep::Done(Err(AuthFailure::InvalidCredential)),
            Credential::Session(id) => ResolveStep::Refresh(id),
        },
{
    match credential {
        Credential::Absent => ResolveStep::Done(Err(AuthFailure::Unauthorized)),
        Credential::Invalid => ResolveStep::Done(Err(AuthFailure::InvalidCredential)),
        Credential::Session(id) => ResolveStep::Refresh(id),
    }
}

/// The step after the session was marked: `owner` is its user, or `None`
/// where no session had the id.
pub fn after_refresh(owner: Option<i32>) -> (r: ResolveStep)
    ensures
        r == match owner {
            Some(user_id) => ResolveStep::Fetch(user_id),
            None => ResolveStep::Done(Err(AuthFailure::SessionNotFound)),
        },
{
    match owner {
        Some(user_id) => ResolveStep::Fetch(user_id),
        None => ResolveStep::Done(Err(AuthFailure::SessionNotFound)),
    }
}

/// The outcome once the profile was read: a session without its user is an
/// inconsistency.
pub fn after_fetch(profile: Option<User>) -> (r: Result<User, AuthFailure>)
    ensures
        r == match profile {
            Some(user) => Ok::<User, AuthFailure>(user),
            None => Err::<User, AuthFailure>(AuthFailure::IntegrityError),
        },
{
    match profile {
        Some(user) => Ok(user),
        None => Err(AuthFailure::IntegrityError),
    }
}

/// The user that the credential stands for in the store, or why there is
/// none.
pub open spec fn resolution(store: CredentialStore, credential: Credential) -> Result<
    User,
    AuthFailure,
> {
    match credential {
        Credential::Absent => Err(AuthFailure::Unauthorized),
        Credential::Invalid => Err(AuthFailure::InvalidCredential),
        Credential::Session(id) => if has_session(store.sessions@, id) {
            let user_id = store.sessions@[session_index(store.sessions@, id)].user_id;
            if has_user(store.users@, user_id) {
                Ok(store.users@[user_index(store.users@, user_id)].user)
            } else {
                Err(AuthFailure::IntegrityError)
            }
        } else {
            Err(AuthFailure::SessionNotFound)
        },
    }
}

/// The sessions after the credential was presented at `now`.
pub open spec fn sessions_after(
    sessions: Seq<Session>,
    credential: Credential,
    identity: Identity,
    now: i64,
) -> Seq<Session> {
    match credential {
        Credential::Session(id) => refreshed(sessions, id, identity, now),
        _ => sessions,
    }
}

/// Resolves a credential. A sound credential for an existing session marks
/// that session as seen at `now` by `identity` and yields its user; nothing
/// else changes, and any other credential changes nothing at all.
pub fn resolve(
    store: &mut CredentialStore,
    credential: Credential,
    identity: &Identity,
    now: i64,
) -> (r: Result<User, AuthFailure>)
    requires
        old(store).wf(),
    ensures
        final(store).wf(),
        r == resolution(*old(store), credential),
        r != Err::<User, AuthFailure>(AuthFailure::IntegrityError),
        final(store).sessions@ == sessions_after(old(store).sessions@, credential, *identity, now),
        final(store).users == old(store).users,
        final(store).next_user == old(store).next_user,
        final(store).next_session == old(store).next_session,
        r.is_err() ==> final(store).sessions@ == old(store).sessions@,
{
    match begin(credential) {
        ResolveStep::Done(outcome) => outcome,
        ResolveStep::Fetch(user_id) => after_fetch(store.lookup_user(user_id)),
        ResolveStep::Refresh(id) => {
            let owner = store.refresh_session(id, identity, now);
            proof {
                if owner.is_none() {
                    assert(store.sessions@ =~= old(store).sessions@);
                }
            }
            match after_refresh(owner) {
                ResolveStep::Done(outcome) => outcome,
                ResolveStep::Refresh(_) => Err(AuthFailure::SessionNotFound),
                ResolveStep::Fetch(user_id) => after_fetch(store.lookup_user(user_id)),
            }
        },
    }
}

/// Presenting a credential twice in a row works both times: the first
/// refresh keeps the session and its user, so the second finds them, and
/// the session then carries the time and the sender of the second request.
/// With a clock that does not run backwards, `last_seen` never decreases.
pub proof fn law_refresh_twice(
    sessions: Seq<Session>,
    id: i32,
    first: Identity,
    now1: i64,
    second: Identity,
    now2: i64,
)
    requires
        distinct_sessions(sessions),
        has_session(sessions, id),
        now1 <= now2,
    ensures
        ({
            let i = session_index(sessions, id);
            let once = refreshed(sessions, id, first, now1);
            let twice = refreshed(once, id, second, now2);
            &&& distinct_sessions(once)
            &&& has_session(once, id)
            &&& session_index(once, id) == i
            &&& once[i].user_id == sessions[i].user_id
            &&& once[i].last_seen == now1
            &&& twice[i].last_seen == now2
            &&& once[i].last_seen <= twice[i].last_seen
            &&& twice == refreshed(sessions, id, second, now2)
            &&& twice[i] == touched(sessions[i], second, now2)
        }),
{
    let i = session_index(sessions, id);
    let once = refreshed(sessions, id, first, now1);
    let twice = refreshed(once, id, second, now2);
    assert(once[i].id == id);
    assert(has_session(once, id));
    assert forall|a: int, b: int| 0 <= a < b < once.len() implies (#[trigger] once[a]).id != (
    #[trigger] once[b]).id by {
        assert(once[a].id == sessions[a].id);
        assert(once[b].id == sessions[b].id);
    }
    let j = session_index(once, id);
    assert(once[j].id == id);
    assert(sessions[j].id == id);
    assert(j == i);
    assert(twice =~= refreshed(sessions, id, second, now2));
}

/// A credential that resolved once resolves again, to the same user: the
/// refresh that the first request made takes nothing from the second.
pub proof fn law_resolve_again(
    before: CredentialStore,
    after: CredentialStore,
    id: i32,
    identity: Identity,
    now: i64,
)
    requires
        before.wf(),
        resolution(before, Credential::Session(id)).is_ok(),
        after.users == before.users,
        after.sessions@ == refreshed(before.sessions@, id, identity, now),
    ensures
        resolution(after, Credential::Session(id)) == resolution(before, Credential::Session(id)),
{
    law_refresh_twice(before.sessions@, id, identity, now, identity, now);
}

} // verus!
