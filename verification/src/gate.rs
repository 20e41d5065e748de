//! The authentication gate: who a request acts for, and the two operations
//! that open and close a session.

use vstd::prelude::*;
use crate::account::User;
use crate::identity::Identity;
use crate::resolver::{resolution, resolve, sessions_after, AuthFailure};
use crate::secrets::{check_password, checked_verdict};
use crate::store::{
    distinct_sessions, fresh_session, has_session, matches_login, session_index, CredentialStore,
    Session, UserRecord,
};
use crate::token::{mint, minted, Credential, Transport};

verus! {

/// Who a request acts for.
#[derive(Debug)]
pub enum Auth {
    /// The user, and the id of the session that the credential named.
    Authenticated(User, i32),
    /// Nobody.
    Anonymous,
}

/// Why a login was turned down.
#[derive(Debug, Clone, Copy, PartialEq, Eq, Structural)]
pub enum LoginError {
    /// The request already carries a sound credential.
    AlreadyAuthenticated,
    /// Unknown user or wrong password; which of the two is not told.
    InvalidCredentials,
    /// Hashing, signing or the store failed.
    Fault,
}

/// Why a logout was turned down.
#[derive(Debug, Clone, Copy, PartialEq, Eq, Structural)]
pub enum LogoutError {
    /// The request carries no sound credential.
    NotAuthenticated,
}

/// A login that succeeded: the new session and the user's public profile.
#[derive(Debug)]
pub struct Granted {
    pub session: i32,
    pub user: User,
}

/// A login that succeeded, with the bearer token for the new session.
#[derive(Debug)]
pub struct LoginResponse {
    pub token: String,
    pub user: User,
}

/// The status code of a failed login.
pub fn login_status(error: LoginError) -> (r: u16)
    ensures
        r == match error {
            LoginError::AlreadyAuthenticated => 400u16,
            LoginError::InvalidCredentials => 403u16,
            LoginError::Fault => 500u16,
        },
{
    match error {
        LoginError::AlreadyAuthenticated => 400,
        LoginError::InvalidCredentials => 403,
        LoginError::Fault => 500,
    }
}

/// The status code of a logout: 204 once the session is gone, 400 for a
/// request that was not authenticated.
pub fn logout_status(outcome: Result<(), LogoutError>) -> (r: u16)
    ensures
        r == if outcome.is_ok() {
            204u16
        } else {
            400u16
        },
{
    match outcome {
        Ok(()) => 204,
        Err(_) => 400,
    }
}

/// What the resolver's outcome makes of a request: the user with the
/// session that the credential named, nobody where the credential did not
/// resolve, and a failure of its own where the store is inconsistent, which
/// is a fault of the server and not of the request.
pub fn attach(outcome: Result<User, AuthFailure>, credential: Credential) -> (r: Result<
    Auth,
    AuthFailure,
>)
    ensures
        r == match (outcome, credential) {
            (Ok(user), Credential::Session(id)) => Ok::<Auth, AuthFailure>(
                Auth::Authenticated(user, id),
            ),
            (Err(AuthFailure::IntegrityError), _) => Err::<Auth, AuthFailure>(
                AuthFailure::IntegrityError,
            ),
            _ => Ok::<Auth, AuthFailure>(Auth::Anonymous),
        },
{
    match outcome {
        Ok(user) => match credential {
            Credential::Session(id) => Ok(Auth::Authenticated(user, id)),
            _ => Ok(Auth::Anonymous),
        },
        Err(AuthFailure::IntegrityError) => Err(AuthFailure::IntegrityError),
        Err(_) => Ok(Auth::Anonymous),
    }
}

/// Whether the client is told to forget its `session` cookie: where
/// sessions travel in a cookie and the one presented names a session that
/// does not exist.
pub fn forgets_cookie(outcome: &Result<User, AuthFailure>, transport: Transport) -> (r: bool)
    ensures
        r == (transport == Transport::Cookie && *outcome == Err::<User, AuthFailure>(
            AuthFailure::SessionNotFound,
        )),
{
    match outcome {
        Err(AuthFailure::SessionNotFound) => match transport {
            Transport::Cookie => true,
            Transport::Bearer => false,
        },
        _ => false,
    }
}

/// The bearer of the credential, or nobody where it does not resolve. A
/// sound credential marks its session as seen, as resolving does.
pub fn authenticate(
    store: &mut CredentialStore,
    credential: Credential,
    identity: &Identity,
    now: i64,
) -> (r: Auth)
    requires
        old(store).wf(),
    ensures
        final(store).wf(),
        r == match (resolution(*old(store), credential), credential) {
            (Ok(user), Credential::Session(id)) => Auth::Authenticated(user, id),
            _ => Auth::Anonymous,
        },
        final(store).sessions@ == sessions_after(old(store).sessions@, credential, *identity, now),
        final(store).users == old(store).users,
        final(store).next_user == old(store).next_user,
        final(store).next_session == old(store).next_session,
{
    let outcome = resolve(store, credential, identity, now);
    match attach(outcome, credential) {
        Ok(auth) => auth,
        Err(_) => Auth::Anonymous,
    }
}

/// The user of an authenticated request; an anonymous one is refused.
pub fn require_user(auth: Auth) -> (r: Result<User, AuthFailure>)
    ensures
        r == match auth {
            Auth::Authenticated(user, _) => Ok::<User, AuthFailure>(user),
            Auth::Anonymous => Err::<User, AuthFailure>(AuthFailure::Unauthorized),
        },
{
    match auth {
        Auth::Authenticated(user, _) => Ok(user),
        Auth::Anonymous => Err(AuthFailure::Unauthorized),
    }
}

/// Whether a login may go on to open a session. `candidate` is `None`
/// where no user has the login name, and else what checking the password
/// against that user's hash gave.
pub open spec fn login_gate(authenticated: bool, candidate: Option<Option<bool>>) -> Result<
    (),
    LoginError,
> {
    if authenticated {
        Err(LoginError::AlreadyAuthenticated)
    } else {
        match candidate {
            None => Err(LoginError::InvalidCredentials),
            Some(None) => Err(LoginError::Fault),
            Some(Some(false)) => Err(LoginError::InvalidCredentials),
            Some(Some(true)) => Ok(()),
        }
    }
}

/// Decides whether a login may go on to open a session.
pub fn decide_login(authenticated: bool, candidate: Option<Option<bool>>) -> (r: Result<
    (),
    LoginError,
>)
    ensures
        r == login_gate(authenticated, candidate),
{
    if authenticated {
        return Err(LoginError::AlreadyAuthenticated);
    }
    match candidate {
        None => Err(LoginError::InvalidCredentials),
        Some(None) => Err(LoginError::Fault),
        Some(Some(false)) => Err(LoginError::InvalidCredentials),
        Some(Some(true)) => Ok(()),
    }
}

/// What is known of the user that a login names: `None` where there is no
/// such user, else the verdict on the password against the stored hash. A
/// stored hash that cannot be handed to the check counts as unreadable.
pub open spec fn candidate_of(password: Seq<char>, hash: Option<Seq<char>>) -> Option<
    Option<bool>,
> {
    match hash {
        None => None,
        Some(h) => Some(checked_verdict(password, h)),
    }
}

/// Decides whether a login may go on to open a session, from the password
/// that was sent and the hash that is stored for the user named, if there
/// is such a user.
pub fn judge_login(authenticated: bool, password: &str, hash: Option<&str>) -> (r: Result<
    (),
    LoginError,
>)
    ensures
        r == login_gate(
            authenticated,
            candidate_of(
                password@,
                match hash {
                    Some(h) => Some(h@),
                    None => None,
                },
            ),
        ),
{
    let candidate = match hash {
        None => None,
        Some(h) => Some(check_password(password, h)),
    };
    decide_login(authenticated, candidate)
}

/// Whether `login` names some user.
pub open spec fn names_user(users: Seq<UserRecord>, login: Seq<char>) -> bool {
    exists|i: int| 0 <= i < users.len() && matches_login(#[trigger] users[i], login)
}

/// The place of the first user that `login` names.
pub open spec fn login_index(users: Seq<UserRecord>, login: Seq<char>) -> int {
    choose|i: int|
        0 <= i < users.len() && matches_login(#[trigger] users[i], login) && forall|k: int|
            0 <= k < i ==> !matches_login(#[trigger] users[k], login)
}

/// Why a login is turned down, or `None` where a session is opened.
/// `verdict` is what checking the password against the hash of the named
/// user gave; without such a user it plays no part.
pub open spec fn login_rejection(
    store: CredentialStore,
    authenticated: bool,
    login: Seq<char>,
    verdict: Option<bool>,
) -> Option<LoginError> {
    let candidate = if names_user(store.users@, login) {
        Some(verdict)
    } else {
        None
    };
    match login_gate(authenticated, candidate) {
        Err(e) => Some(e),
        Ok(()) => if store.next_session < i32::MAX {
            None
        } else {
            Some(LoginError::Fault)
        },
    }
}

/// The verdict on the password for the user that `login` names.
pub open spec fn verdict_for(store: CredentialStore, login: Seq<char>, password: Seq<char>)
    -> Option<bool> {
    checked_verdict(password, store.users@[login_index(store.users@, login)].password@)
}

/// Logs a user in by username or email and password. A request that is
/// authenticated already, an unknown login name and a wrong password are
/// turned down and change nothing. Else a new session is opened for the
/// user, seen at `now` by `identity`; the sessions that exist stay as they
/// are.
pub fn login(
    store: &mut CredentialStore,
    auth: &Auth,
    name: &str,
    password: &str,
    identity: &Identity,
    now: i64,
) -> (r: Result<Granted, LoginError>)
    requires
        old(store).wf(),
    ensures
        final(store).wf(),
        final(store).users == old(store).users,
        final(store).next_user == old(store).next_user,
        match login_rejection(
            *old(store),
            *auth is Authenticated,
            name@,
            verdict_for(*old(store), name@, password@),
        ) {
            Some(e) => r == Err::<Granted, LoginError>(e) && *final(store) == *old(store),
            None => {
                let user = old(store).users@[login_index(old(store).users@, name@)].user;
                &&& 0 <= login_index(old(store).users@, name@) < old(store).users@.len()
                &&& r == Ok::<Granted, LoginError>(
                    (Granted { session: old(store).next_session, user }),
                )
                &&& final(store).next_session == old(store).next_session + 1
                &&& final(store).sessions@ == old(store).sessions@.push(
                    fresh_session(old(store).next_session, user.id, *identity, now),
                )
            },
        },
{
    let authenticated = match auth {
        Auth::Authenticated(_, _) => true,
        Auth::Anonymous => false,
    };
    let found = store.find_login(name);
    let hash = match found {
        None => None,
        Some(i) => {
            proof {
                assert(matches_login(store.users@[i as int], name@));
                assert(login_index(store.users@, name@) == i);
            }
            Some(store.users[i].password.as_str())
        },
    };
    match judge_login(authenticated, password, hash) {
        Err(e) => Err(e),
        Ok(()) => {
            let i = found.unwrap();
            let user = store.users[i].user.clone();
            proof {
                assert(crate::store::has_user(store.users@, user.id));
            }
            match store.open_session(user.id, identity, now) {
                Some(session) => Ok(Granted { session, user }),
                None => Err(LoginError::Fault),
            }
        },
    }
}

/// Logs a user in, as `login` does, and mints the bearer token for the new
/// session. Where the token cannot be minted the login fails, and the
/// session that was opened for it stays behind unused.
pub fn login_with_token(
    store: &mut CredentialStore,
    auth: &Auth,
    name: &str,
    password: &str,
    identity: &Identity,
    now: i64,
    secret: &str,
) -> (r: Result<LoginResponse, LoginError>)
    requires
        old(store).wf(),
    ensures
        final(store).wf(),
        final(store).users == old(store).users,
        final(store).next_user == old(store).next_user,
        match login_rejection(
            *old(store),
            *auth is Authenticated,
            name@,
            verdict_for(*old(store), name@, password@),
        ) {
            Some(e) => r == Err::<LoginResponse, LoginError>(e) && *final(store) == *old(store),
            None => {
                let user = old(store).users@[login_index(old(store).users@, name@)].user;
                &&& 0 <= login_index(old(store).users@, name@) < old(store).users@.len()
                &&& final(store).next_session == old(store).next_session + 1
                &&& final(store).sessions@ == old(store).sessions@.push(
                    fresh_session(old(store).next_session, user.id, *identity, now),
                )
                &&& match minted(old(store).next_session, now, secret@) {
                    Some(text) => r.is_ok() && r.unwrap().token@ == text && r.unwrap().user
                        == user,
                    None => r == Err::<LoginResponse, LoginError>(LoginError::Fault),
                }
            },
        },
{
    match self::login(store, auth, name, password, identity, now) {
        Err(e) => Err(e),
        Ok(granted) => match mint(granted.session, now, secret) {
            Some(token) => Ok(LoginResponse { token, user: granted.user }),
            None => Err(LoginError::Fault),
        },
    }
}

/// Logs out: deletes the session that the request's credential named, and
/// no other. An anonymous request is turned down and changes nothing.
pub fn logout(store: &mut CredentialStore, auth: &Auth) -> (r: Result<(), LogoutError>)
    requires
        old(store).wf(),
    ensures
        final(store).wf(),
        final(store).users == old(store).users,
        final(store).next_user == old(store).next_user,
        final(store).next_session == old(store).next_session,
        match *auth {
            Auth::Anonymous => r == Err::<(), LogoutError>(LogoutError::NotAuthenticated)
                && final(store).sessions == old(store).sessions,
            Auth::Authenticated(_, id) => {
                &&& r == Ok::<(), LogoutError>(())
                &&& !has_session(final(store).sessions@, id)
                &&& has_session(old(store).sessions@, id) ==> final(store).sessions@ == old(
                    store,
                ).sessions@.remove(session_index(old(store).sessions@, id))
                &&& !has_session(old(store).sessions@, id) ==> final(store).sessions == old(
                    store,
                ).sessions
            },
        },
{
    match auth {
        Auth::Anonymous => Err(LogoutError::NotAuthenticated),
        Auth::Authenticated(_, id) => {
            store.close_session(*id);
            Ok(())
        },
    }
}

/// A login name that no user has and a wrong password for a user that
/// exists are turned down with the same error, `InvalidCredentials`.
pub proof fn law_rejections_alike(
    store: CredentialStore,
    unknown: Seq<char>,
    known: Seq<char>,
    verdict: Option<bool>,
)
    requires
        !names_user(store.users@, unknown),
        names_user(store.users@, known),
    ensures
        login_rejection(store, false, unknown, verdict) == Some(LoginError::InvalidCredentials),
        login_rejection(store, false, known, Some(false)) == Some(LoginError::InvalidCredentials),
        login_rejection(store, false, unknown, verdict) == login_rejection(
            store,
            false,
            known,
            Some(false),
        ),
{
}

/// Deleting one session spares every other: each is still there, unchanged,
/// and one session fewer is left.
pub proof fn law_logout_spares_others(sessions: Seq<Session>, id: i32, other: i32)
    requires
        distinct_sessions(sessions),
        has_session(sessions, id),
        has_session(sessions, other),
        other != id,
    ensures
        ({
            let after = sessions.remove(session_index(sessions, id));
            &&& after.len() == sessions.len() - 1
            &&& distinct_sessions(after)
            &&& !has_session(after, id)
            &&& has_session(after, other)
            &&& after[session_index(after, other)] == sessions[session_index(sessions, other)]
        }),
{
    let i = session_index(sessions, id);
    let o = session_index(sessions, other);
    let after = sessions.remove(i);
    assert forall|k: int| 0 <= k < after.len() implies (#[trigger] after[k]) == sessions[if k
        < i {
        k
    } else {
        k + 1
    }] by {}
    assert forall|a: int, b: int| 0 <= a < b < after.len() implies (#[trigger] after[a]).id != (
    #[trigger] after[b]).id by {
        let sa = if a < i { a } else { a + 1 };
        let sb = if b < i { b } else { b + 1 };
        assert(after[a] == sessions[sa]);
        assert(after[b] == sessions[sb]);
    }
    assert forall|k: int| 0 <= k < after.len() implies (#[trigger] after[k]).id != id by {
        let src = if k < i { k } else { k + 1 };
        assert(after[k] == sessions[src]);
    }
    let o2 = if o < i { o } else { o - 1 };
    assert(after[o2] == sessions[o]);
    assert(has_session(after, other));
    let j = session_index(after, other);
    let src = if j < i { j } else { j + 1 };
    assert(after[j] == sessions[src]);
    assert(src == o);
}

/// After a logout every other credential resolves as before: the sessions
/// of the same user, and of all others, stay usable.
pub proof fn law_logout_keeps_other_credentials(
    before: CredentialStore,
    after: CredentialStore,
    id: i32,
    other: i32,
)
    requires
        before.wf(),
        has_session(before.sessions@, id),
        other != id,
        after.users == before.users,
        after.sessions@ == before.sessions@.remove(session_index(before.sessions@, id)),
    ensures
        resolution(after, Credential::Session(other)) == resolution(
            before,
            Credential::Session(other),
        ),
        resolution(after, Credential::Session(id)) == Err::<User, AuthFailure>(
            AuthFailure::SessionNotFound,
        ),
{
    let sessions = before.sessions@;
    let i = session_index(sessions, id);
    let rest = sessions.remove(i);
    assert forall|k: int| 0 <= k < rest.len() implies (#[trigger] rest[k]) == sessions[if k < i {
        k
    } else {
        k + 1
    }] by {}
    assert forall|k: int| 0 <= k < rest.len() implies (#[trigger] rest[k]).id != id by {
        let src = if k < i { k } else { k + 1 };
        assert(rest[k] == sessions[src]);
    }
    if has_session(sessions, other) {
        law_logout_spares_others(sessions, id, other);
    } else {
        if has_session(rest, other) {
            let k = session_index(rest, other);
            let src = if k < i { k } else { k + 1 };
            assert(rest[k] == sessions[src]);
            assert(sessions[src].id == other);
        }
    }
}

/// A session that was just opened for a user resolves to that user: the
/// credential for the session that a login returns is good at once.
pub proof fn law_new_session_resolves(
    before: CredentialStore,
    after: CredentialStore,
    i: int,
    identity: Identity,
    now: i64,
)
    requires
        before.wf(),
        0 <= i < before.users@.len(),
        after.users == before.users,
        after.sessions@ == before.sessions@.push(
            fresh_session(before.next_session, before.users@[i].user.id, identity, now),
        ),
    ensures
        resolution(after, Credential::Session(before.next_session)) == Ok::<User, AuthFailure>(
            before.users@[i].user,
        ),
{
    let id = before.next_session;
    let sessions = after.sessions@;
    let last = before.sessions@.len() as int;
    let user_id = before.users@[i].user.id;
    assert(sessions[last].id == id);
    assert(has_session(sessions, id));
    let j = session_index(sessions, id);
    if j < last {
        assert(sessions[j] == before.sessions@[j]);
    }
    assert(j == last);
    assert(before.users@[i].user.id == user_id);
    assert(crate::store::has_user(after.users@, user_id));
    let k = crate::store::user_index(after.users@, user_id);
    assert(after.users@[k].user.id == user_id);
    assert(k == i);
}

} // verus!
