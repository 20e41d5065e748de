//! The credential store: the users with their password hashes, and the
//! sessions that bind a credential to a user.

use vstd::prelude::*;
use crate::account::{copy_text, AccountType, User};
use crate::identity::Identity;
use crate::resources::{pick, take};

verus! {

/// A session: the record that a credential points to.
#[derive(Debug)]
pub struct Session {
    pub id: i32,
    pub user_id: i32,
    /// When a request last presented this session, in seconds since the epoch.
    pub last_seen: i64,
    pub last_ip: Option<String>,
    pub last_user_agent: Option<String>,
    pub created_at: i64,
}

impl Clone for Session {
    fn clone(&self) -> (r: Self)
        ensures
            r == *self,
    {
        Session {
            id: self.id,
            user_id: self.user_id,
            last_seen: self.last_seen,
            last_ip: copy_text(&self.last_ip),
            last_user_agent: copy_text(&self.last_user_agent),
            created_at: self.created_at,
        }
    }
}

/// A user as stored: the public profile and the password hash.
#[derive(Debug)]
pub struct UserRecord {
    pub user: User,
    pub password: String,
}

/// Why the store refused a change.
#[derive(Debug, Clone, Copy, PartialEq, Eq, Structural)]
pub enum StoreError {
    /// No user has the given id.
    NotFound,
    /// The username or the email belongs to another user.
    Conflict,
    /// No id is left to give out.
    Exhausted,
}

/// Whether some user has the id.
pub open spec fn has_user(users: Seq<UserRecord>, id: i32) -> bool {
    exists|i: int| 0 <= i < users.len() && (#[trigger] users[i]).user.id == id
}

/// Whether some session has the id.
pub open spec fn has_session(sessions: Seq<Session>, id: i32) -> bool {
    exists|i: int| 0 <= i < sessions.len() && (#[trigger] sessions[i]).id == id
}

/// The place of the session with the id, where there is one.
pub open spec fn session_index(sessions: Seq<Session>, id: i32) -> int {
    choose|i: int| 0 <= i < sessions.len() && (#[trigger] sessions[i]).id == id
}

/// The place of the user with the id, where there is one.
pub open spec fn user_index(users: Seq<UserRecord>, id: i32) -> int {
    choose|i: int| 0 <= i < users.len() && (#[trigger] users[i]).user.id == id
}

/// No two sessions share an id.
pub open spec fn distinct_sessions(sessions: Seq<Session>) -> bool {
    forall|i: int, j: int|
        0 <= i < j < sessions.len() ==> (#[trigger] sessions[i]).id != (#[trigger] sessions[j]).id
}

/// A session after a request presented it at `now`.
pub open spec fn touched(session: Session, identity: Identity, now: i64) -> Session {
    Session {
        last_seen: now,
        last_ip: identity.ip,
        last_user_agent: identity.user_agent,
        ..session
    }
}

/// The sessions after the one with the id, if any, was presented at `now`.
pub open spec fn refreshed(sessions: Seq<Session>, id: i32, identity: Identity, now: i64) -> Seq<
    Session,
> {
    Seq::new(
        sessions.len(),
        |i: int|
            if sessions[i].id == id {
                touched(sessions[i], identity, now)
            } else {
                sessions[i]
            },
    )
}

/// The session that a login at `now` creates.
pub open spec fn fresh_session(id: i32, user_id: i32, identity: Identity, now: i64) -> Session {
    Session {
        id,
        user_id,
        last_seen: now,
        last_ip: identity.ip,
        last_user_agent: identity.user_agent,
        created_at: now,
    }
}

/// Whether `login` names the user, by username or by email.
pub open spec fn matches_login(record: UserRecord, login: Seq<char>) -> bool {
    record.user.username@ == login || record.user.email@ == login
}

/// Whether the two texts are the same.
pub fn same_text(a: &str, b: &str) -> (r: bool)
    ensures
        r == (a@ == b@),
{
    a.to_owned() == b.to_owned()
}

/// The fields of a user that the user may change. `password` is the hash
/// of the new password.
#[derive(Debug)]
pub struct ProfilePatch {
    pub username: Option<String>,
    pub name: Option<String>,
    pub email: Option<String>,
    pub password: Option<String>,
}

/// A user after a change of profile. A new password lifts the demand to
/// change it.
pub open spec fn patched_record(record: UserRecord, patch: ProfilePatch) -> UserRecord {
    UserRecord {
        user: User {
            username: pick(patch.username, record.user.username),
            name: pick(patch.name, record.user.name),
            email: pick(patch.email, record.user.email),
            require_password_change: if patch.password.is_some() {
                false
            } else {
                record.user.require_password_change
            },
            ..record.user
        },
        password: pick(patch.password, record.password),
    }
}

/// Whether a user other than `except` has the username.
pub open spec fn username_taken(users: Seq<UserRecord>, name: Seq<char>, except: Option<i32>)
    -> bool {
    exists|i: int|
        0 <= i < users.len() && (#[trigger] users[i]).user.username@ == name && Some(
            users[i].user.id,
        ) != except
}

/// Whether a user other than `except` has the email.
pub open spec fn email_taken(users: Seq<UserRecord>, email: Seq<char>, except: Option<i32>)
    -> bool {
    exists|i: int|
        0 <= i < users.len() && (#[trigger] users[i]).user.email@ == email && Some(
            users[i].user.id,
        ) != except
}

/// Whether the patch asks for a username or an email that another user has.
pub open spec fn patch_conflicts(users: Seq<UserRecord>, id: i32, patch: ProfilePatch) -> bool {
    ||| patch.username.is_some() && username_taken(users, patch.username.unwrap()@, Some(id))
    ||| patch.email.is_some() && email_taken(users, patch.email.unwrap()@, Some(id))
}

/// Where a change of profile applies, or why it is refused.
pub open spec fn amend_verdict(users: Seq<UserRecord>, id: i32, patch: ProfilePatch) -> Result<
    int,
    StoreError,
> {
    if !has_user(users, id) {
        Err(StoreError::NotFound)
    } else if patch_conflicts(users, id, patch) {
        Err(StoreError::Conflict)
    } else {
        Ok(user_index(users, id))
    }
}

/// The test that a session belongs to another user than `user_id`.
pub open spec fn of_other_user(user_id: i32) -> spec_fn(Session) -> bool {
    |s: Session| s.user_id != user_id
}

/// The user that registering creates.
pub open spec fn new_record(
    id: i32,
    username: String,
    name: String,
    email: String,
    password: String,
    account_type: AccountType,
    now: i64,
) -> UserRecord {
    UserRecord {
        user: User {
            id,
            username,
            name,
            email,
            account_type,
            created_at: now,
            require_password_change: false,
        },
        password,
    }
}

/// The users and the sessions.
#[derive(Debug)]
pub struct CredentialStore {
    pub users: Vec<UserRecord>,
    pub sessions: Vec<Session>,
    /// The id that the next user gets.
    pub next_user: i32,
    /// The id that the next session gets.
    pub next_session: i32,
}

impl CredentialStore {
    /// Ids, usernames and emails are unique, every id was given out by this
    /// store, and every session belongs to a user that exists.
    pub open spec fn wf(&self) -> bool {
        &&& forall|i: int, j: int|
            0 <= i < j < self.users@.len() ==> {
                &&& (#[trigger] self.users@[i]).user.id != (#[trigger] self.users@[j]).user.id
                &&& self.users@[i].user.username@ != self.users@[j].user.username@
                &&& self.users@[i].user.email@ != self.users@[j].user.email@
            }
        &&& forall|i: int|
            0 <= i < self.users@.len() ==> (#[trigger] self.users@[i]).user.id < self.next_user
        &&& distinct_sessions(self.sessions@)
        &&& forall|i: int|
            0 <= i < self.sessions@.len() ==> {
                &&& (#[trigger] self.sessions@[i]).id < self.next_session
                &&& has_user(self.users@, self.sessions@[i].user_id)
            }
    }

    /// A store without users or sessions; ids start at 1.
    pub fn new() -> (r: CredentialStore)
        ensures
            r.wf(),
            r.users@.len() == 0,
            r.sessions@.len() == 0,
            r.next_user == 1,
            r.next_session == 1,
    {
        CredentialStore { users: Vec::new(), sessions: Vec::new(), next_user: 1, next_session: 1 }
    }

    /// Where the user with the id stands.
    pub fn position_of_user(&self, id: i32) -> (r: Option<usize>)
        ensures
            match r {
                Some(i) => i < self.users@.len() && self.users@[i as int].user.id == id,
                None => !has_user(self.users@, id),
            },
    {
        let mut i: usize = 0;
        while i < self.users.len()
            invariant
                i <= self.users@.len(),
                forall|k: int| 0 <= k < i ==> (#[trigger] self.users@[k]).user.id != id,
            decreases self.users@.len() - i,
        {
            if self.users[i].user.id == id {
                return Some(i);
            }
            i += 1;
        }
        None
    }

    /// Where the session with the id stands.
    pub fn position_of_session(&self, id: i32) -> (r: Option<usize>)
        ensures
            match r {
                Some(i) => i < self.sessions@.len() && self.sessions@[i as int].id == id,
                None => !has_session(self.sessions@, id),
            },
    {
        let mut i: usize = 0;
        while i < self.sessions.len()
            invariant
                i <= self.sessions@.len(),
                forall|k: int| 0 <= k < i ==> (#[trigger] self.sessions@[k]).id != id,
            decreases self.sessions@.len() - i,
        {
            if self.sessions[i].id == id {
                return Some(i);
            }
            i += 1;
        }
        None
    }

    /// The public profile of the user with the id. The password hash is not
    /// read.
    pub fn lookup_user(&self, id: i32) -> (r: Option<User>)
        requires
            self.wf(),
        ensures
            r.is_some() == has_user(self.users@, id),
            r.is_some() ==> r.unwrap() == self.users@[user_index(self.users@, id)].user,
            r.is_some() ==> r.unwrap().id == id,
    {
        match self.position_of_user(id) {
            Some(i) => {
                proof {
                    let j = user_index(self.users@, id);
                    assert(self.users@[i as int].user.id == id);
                    assert(j == i);
                }
                Some(self.users[i].user.clone())
            },
            None => None,
        }
    }

    /// The first user that `login` names, by username or by email.
    pub fn find_login(&self, login: &str) -> (r: Option<usize>)
        ensures
            match r {
                Some(i) => {
                    &&& i < self.users@.len()
                    &&& matches_login(self.users@[i as int], login@)
                    &&& forall|k: int| 0 <= k < i ==> !matches_login(#[trigger] self.users@[k], login@)
                },
                None => forall|k: int|
                    0 <= k < self.users@.len() ==> !matches_login(#[trigger] self.users@[k], login@),
            },
    {
        let mut i: usize = 0;
        while i < self.users.len()
            invariant
                i <= self.users@.len(),
                forall|k: int| 0 <= k < i ==> !matches_login(#[trigger] self.users@[k], login@),
            decreases self.users@.len() - i,
        {
            let record = &self.users[i];
            if same_text(record.user.username.as_str(), login) || same_text(
                record.user.email.as_str(),
                login,
            ) {
                return Some(i);
            }
            i += 1;
        }
        None
    }

    /// Marks the session with the id as seen at `now` by `identity`, and
    /// returns its user, in one step. Without such a session nothing changes.
    pub fn refresh_session(&mut self, id: i32, identity: &Identity, now: i64) -> (r: Option<i32>)
        requires
            old(self).wf(),
        ensures
            final(self).wf(),
            final(self).users == old(self).users,
            final(self).next_user == old(self).next_user,
            final(self).next_session == old(self).next_session,
            final(self).sessions@ == refreshed(old(self).sessions@, id, *identity, now),
            r.is_some() == has_session(old(self).sessions@, id),
            r.is_some() ==> r.unwrap() == old(self).sessions@[session_index(
                old(self).sessions@,
                id,
            )].user_id,
            r.is_some() ==> has_user(final(self).users@, r.unwrap()),
    {
        match self.position_of_session(id) {
            Some(i) => {
                let current = &self.sessions[i];
                let user_id = current.user_id;
                let next = Session {
                    id: current.id,
                    user_id,
                    last_seen: now,
                    last_ip: identity.ip_string(),
                    last_user_agent: identity.agent_string(),
                    created_at: current.created_at,
                };
                proof {
                    assert(session_index(old(self).sessions@, id) == i);
                }
                self.sessions.set(i, next);
                proof {
                    assert(self.sessions@ =~= refreshed(old(self).sessions@, id, *identity, now));
                    assert forall|k: int| 0 <= k < self.sessions@.len() implies {
                        &&& (#[trigger] self.sessions@[k]).id < self.next_session
                        &&& has_user(self.users@, self.sessions@[k].user_id)
                    } by {
                        assert(self.sessions@[k].id == old(self).sessions@[k].id);
                        assert(self.sessions@[k].user_id == old(self).sessions@[k].user_id);
                    }
                }
                Some(user_id)
            },
            None => {
                proof {
                    assert(self.sessions@ =~= refreshed(old(self).sessions@, id, *identity, now));
                }
                None
            },
        }
    }

    /// Creates a session for the user, first seen at `now` by `identity`,
    /// and returns its id. Nothing is created for a user that does not
    /// exist, nor when no id is left.
    pub fn open_session(&mut self, user_id: i32, identity: &Identity, now: i64) -> (r: Option<i32>)
        requires
            old(self).wf(),
        ensures
            final(self).wf(),
            final(self).users == old(self).users,
            final(self).next_user == old(self).next_user,
            r.is_some() == (has_user(old(self).users@, user_id) && old(self).next_session
                < i32::MAX),
            r.is_none() ==> *final(self) == *old(self),
            r.is_some() ==> {
                &&& r.unwrap() == old(self).next_session
                &&& final(self).next_session == old(self).next_session + 1
                &&& final(self).sessions@ == old(self).sessions@.push(
                    fresh_session(r.unwrap(), user_id, *identity, now),
                )
            },
    {
        if self.next_session == i32::MAX {
            return None;
        }
        match self.position_of_user(user_id) {
            None => None,
            Some(_) => {
                let id = self.next_session;
                let session = Session {
                    id,
                    user_id,
                    last_seen: now,
                    last_ip: identity.ip_string(),
                    last_user_agent: identity.agent_string(),
                    created_at: now,
                };
                self.sessions.push(session);
                self.next_session = id + 1;
                proof {
                    assert forall|k: int| 0 <= k < self.sessions@.len() implies {
                        &&& (#[trigger] self.sessions@[k]).id < self.next_session
                        &&& has_user(self.users@, self.sessions@[k].user_id)
                    } by {
                        if k < old(self).sessions@.len() {
                            assert(self.sessions@[k] == old(self).sessions@[k]);
                        }
                    }
                    assert(distinct_sessions(self.sessions@)) by {
                        assert forall|a: int, b: int| 0 <= a < b < self.sessions@.len() implies (
                        #[trigger] self.sessions@[a]).id != (#[trigger] self.sessions@[b]).id by {
                            assert(self.sessions@[a] == old(self).sessions@[a]);
                            if b < old(self).sessions@.len() {
                                assert(self.sessions@[b] == old(self).sessions@[b]);
                            }
                        }
                    }
                }
                Some(id)
            },
        }
    }

    /// Deletes the session with the id, and says whether there was one. No
    /// other session is touched.
    pub fn close_session(&mut self, id: i32) -> (r: bool)
        requires
            old(self).wf(),
        ensures
            final(self).wf(),
            final(self).users == old(self).users,
            final(self).next_user == old(self).next_user,
            final(self).next_session == old(self).next_session,
            r == has_session(old(self).sessions@, id),
            !has_session(final(self).sessions@, id),
            r ==> final(self).sessions@ == old(self).sessions@.remove(
                session_index(old(self).sessions@, id),
            ),
            !r ==> final(self).sessions == old(self).sessions,
    {
        match self.position_of_session(id) {
            Some(i) => {
                proof {
                    assert(session_index(old(self).sessions@, id) == i);
                }
                self.sessions.remove(i);
                proof {
                    let before = old(self).sessions@;
                    let after = self.sessions@;
                    assert forall|k: int| 0 <= k < after.len() implies (#[trigger] after[k])
                        == before[if k < i { k } else { k + 1 }] by {}
                    assert forall|k: int| 0 <= k < after.len() implies {
                        &&& (#[trigger] after[k]).id < self.next_session
                        &&& has_user(self.users@, after[k].user_id)
                        &&& after[k].id != id
                    } by {
                        let src = if k < i { k } else { k + 1 };
                        assert(after[k] == before[src]);
                    }
                    assert(distinct_sessions(after)) by {
                        assert forall|a: int, b: int| 0 <= a < b < after.len() implies (
                        #[trigger] after[a]).id != (#[trigger] after[b]).id by {
                            let sa = if a < i { a } else { a + 1 };
                            let sb = if b < i { b } else { b + 1 };
                            assert(after[a] == before[sa]);
                            assert(after[b] == before[sb]);
                        }
                    }
                }
                true
            },
            None => false,
        }
    }
    /// Whether a user other than `except` has the username.
    pub fn username_in_use(&self, name: &str, except: Option<i32>) -> (r: bool)
        requires
            self.wf(),
        ensures
            r == username_taken(self.users@, name@, except),
    {
        let mut i: usize = 0;
        while i < self.users.len()
            invariant
                i <= self.users@.len(),
                forall|k: int|
                    0 <= k < i ==> !((#[trigger] self.users@[k]).user.username@ == name@ && Some(
                        self.users@[k].user.id,
                    ) != except),
            decreases self.users@.len() - i,
        {
            let user = &self.users[i].user;
            if same_text(user.username.as_str(), name) && Some(user.id) != except {
                return true;
            }
            i += 1;
        }
        false
    }

    /// Whether a user other than `except` has the email.
    pub fn email_in_use(&self, email: &str, except: Option<i32>) -> (r: bool)
        requires
            self.wf(),
        ensures
            r == email_taken(self.users@, email@, except),
    {
        let mut i: usize = 0;
        while i < self.users.len()
            invariant
                i <= self.users@.len(),
                forall|k: int|
                    0 <= k < i ==> !((#[trigger] self.users@[k]).user.email@ == email@ && Some(
                        self.users@[k].user.id,
                    ) != except),
            decreases self.users@.len() - i,
        {
            let user = &self.users[i].user;
            if same_text(user.email.as_str(), email) && Some(user.id) != except {
                return true;
            }
            i += 1;
        }
        false
    }

    /// Adds a user with the next free id and returns the public profile. A
    /// username or an email that is in use is refused, and so is a new user
    /// when no id is left.
    pub fn register(
        &mut self,
        username: String,
        name: String,
        email: String,
        password: String,
        account_type: AccountType,
        now: i64,
    ) -> (r: Result<User, StoreError>)
        requires
            old(self).wf(),
        ensures
            final(self).wf(),
            final(self).sessions == old(self).sessions,
            final(self).next_session == old(self).next_session,
            r.is_err() ==> *final(self) == *old(self),
            r == if username_taken(old(self).users@, username@, None) || email_taken(
                old(self).users@,
                email@,
                None,
            ) {
                Err::<User, StoreError>(StoreError::Conflict)
            } else if old(self).next_user == i32::MAX {
                Err::<User, StoreError>(StoreError::Exhausted)
            } else {
                Ok::<User, StoreError>(
                    new_record(
                        old(self).next_user,
                        username,
                        name,
                        email,
                        password,
                        account_type,
                        now,
                    ).user,
                )
            },
            r.is_ok() ==> final(self).next_user == old(self).next_user + 1 && final(self).users@
                == old(self).users@.push(
                new_record(old(self).next_user, username, name, email, password, account_type, now),
            ),
    {
        if self.username_in_use(username.as_str(), None) || self.email_in_use(
            email.as_str(),
            None,
        ) {
            return Err(StoreError::Conflict);
        }
        if self.next_user == i32::MAX {
            return Err(StoreError::Exhausted);
        }
        let id = self.next_user;
        let user = User {
            id,
            username,
            name,
            email,
            account_type,
            created_at: now,
            require_password_change: false,
        };
        let profile = user.clone();
        self.users.push(UserRecord { user, password });
        self.next_user = id + 1;
        proof {
            let before = old(self).users@;
            let after = self.users@;
            assert forall|k: int| 0 <= k < before.len() implies (#[trigger] after[k])
                == before[k] by {}
            assert forall|i: int, j: int| 0 <= i < j < after.len() implies {
                &&& (#[trigger] after[i]).user.id != (#[trigger] after[j]).user.id
                &&& after[i].user.username@ != after[j].user.username@
                &&& after[i].user.email@ != after[j].user.email@
            } by {
                assert(after[i] == before[i]);
                if j < before.len() {
                    assert(after[j] == before[j]);
                }
            }
            assert forall|k: int| 0 <= k < after.len() implies (#[trigger] after[k]).user.id
                < self.next_user by {
                if k < before.len() {
                    assert(after[k] == before[k]);
                }
            }
            assert forall|k: int| 0 <= k < self.sessions@.len() implies has_user(
                after,
                (#[trigger] self.sessions@[k]).user_id,
            ) by {
                let uid = self.sessions@[k].user_id;
                assert(has_user(before, uid));
                let w = user_index(before, uid);
                assert(after[w] == before[w]);
            }
        }
        Ok(profile)
    }

    /// Changes the profile of the user with the id and returns it as it
    /// then stands. Fields that the patch does not name stay as they are. A
    /// username or an email of another user is refused, and nothing changes.
    pub fn amend_user(&mut self, id: i32, patch: ProfilePatch) -> (r: Result<User, StoreError>)
        requires
            old(self).wf(),
        ensures
            final(self).wf(),
            final(self).sessions == old(self).sessions,
            final(self).next_session == old(self).next_session,
            final(self).next_user == old(self).next_user,
            match amend_verdict(old(self).users@, id, patch) {
                Err(e) => r == Err::<User, StoreError>(e) && final(self).users == old(self).users,
                Ok(i) => {
                    &&& r == Ok::<User, StoreError>(patched_record(old(self).users@[i], patch).user)
                    &&& final(self).users@ == old(self).users@.update(
                        i,
                        patched_record(old(self).users@[i], patch),
                    )
                },
            },
    {
        let i = match self.position_of_user(id) {
            None => {
                return Err(StoreError::NotFound);
            },
            Some(i) => i,
        };
        proof {
            assert(self.users@[i as int].user.id == id);
            assert(user_index(self.users@, id) == i);
        }
        let name_clash = match &patch.username {
            Some(name) => self.username_in_use(name.as_str(), Some(id)),
            None => false,
        };
        let email_clash = match &patch.email {
            Some(email) => self.email_in_use(email.as_str(), Some(id)),
            None => false,
        };
        if name_clash || email_clash {
            return Err(StoreError::Conflict);
        }
        let current = &self.users[i];
        let fresh_password = patch.password.is_some();
        let next = UserRecord {
            user: User {
                id: current.user.id,
                username: take(patch.username, current.user.username.clone()),
                name: take(patch.name, current.user.name.clone()),
                email: take(patch.email, current.user.email.clone()),
                account_type: current.user.account_type,
                created_at: current.user.created_at,
                require_password_change: if fresh_password {
                    false
                } else {
                    current.user.require_password_change
                },
            },
            password: take(patch.password, current.password.clone()),
        };
        let profile = next.user.clone();
        self.users.set(i, next);
        proof {
            let before = old(self).users@;
            let after = self.users@;
            assert forall|a: int, b: int| 0 <= a < b < after.len() implies {
                &&& (#[trigger] after[a]).user.id != (#[trigger] after[b]).user.id
                &&& after[a].user.username@ != after[b].user.username@
                &&& after[a].user.email@ != after[b].user.email@
            } by {
                assert(after[a].user.id == before[a].user.id);
                assert(after[b].user.id == before[b].user.id);
                if a != i {
                    assert(after[a] == before[a]);
                }
                if b != i {
                    assert(after[b] == before[b]);
                }
            }
            assert forall|k: int| 0 <= k < after.len() implies (#[trigger] after[k]).user.id
                < self.next_user by {
                assert(after[k].user.id == before[k].user.id);
            }
            assert forall|k: int| 0 <= k < self.sessions@.len() implies has_user(
                after,
                (#[trigger] self.sessions@[k]).user_id,
            ) by {
                let uid = self.sessions@[k].user_id;
                assert(has_user(before, uid));
                let w = user_index(before, uid);
                assert(after[w].user.id == before[w].user.id);
            }
        }
        Ok(profile)
    }

    /// Deletes the user with the id together with all sessions of that
    /// user, and says whether there was such a user.
    pub fn remove_user(&mut self, id: i32) -> (r: bool)
        requires
            old(self).wf(),
        ensures
            final(self).wf(),
            final(self).next_session == old(self).next_session,
            final(self).next_user == old(self).next_user,
            r == has_user(old(self).users@, id),
            !has_user(final(self).users@, id),
            !r ==> *final(self) == *old(self),
            r ==> final(self).users@ == old(self).users@.remove(user_index(old(self).users@, id)),
            r ==> final(self).sessions@ == old(self).sessions@.filter(of_other_user(id)),
    {
        let i = match self.position_of_user(id) {
            None => {
                return false;
            },
            Some(i) => i,
        };
        proof {
            assert(self.users@[i as int].user.id == id);
            assert(user_index(self.users@, id) == i);
        }
        let ghost pred = of_other_user(id);
        let mut kept: Vec<Session> = Vec::new();
        let mut j: usize = 0;
        proof {
            reveal(Seq::filter);
            assert(self.sessions@.subrange(0, 0).filter(pred) =~= Seq::<Session>::empty());
        }
        while j < self.sessions.len()
            invariant
                self.wf(),
                *self == *old(self),
                j <= self.sessions@.len(),
                pred == of_other_user(id),
                kept@ == self.sessions@.subrange(0, j as int).filter(pred),
                forall|a: int|
                    0 <= a < kept@.len() ==> session_from(self.sessions@, #[trigger] kept@[a], j as int)
                        && kept@[a].user_id != id,
                distinct_sessions(kept@),
            decreases self.sessions@.len() - j,
        {
            proof {
                crate::table::lemma_filter_step(self.sessions@, j as int, pred);
                assert forall|a: int| 0 <= a < kept@.len() implies session_from(
                    self.sessions@,
                    #[trigger] kept@[a],
                    j + 1,
                ) by {
                    assert(session_from(self.sessions@, kept@[a], j as int));
                    let s = session_source(self.sessions@, kept@[a], j as int);
                    assert(0 <= s < j + 1 && self.sessions@[s] == kept@[a]);
                }
            }
            if self.sessions[j].user_id != id {
                let ghost before = kept@;
                kept.push(self.sessions[j].clone());
                proof {
                    assert forall|a: int| 0 <= a < kept@.len() implies session_from(
                        self.sessions@,
                        #[trigger] kept@[a],
                        j + 1,
                    ) && kept@[a].user_id != id by {
                        if a < before.len() {
                            assert(kept@[a] == before[a]);
                        } else {
                            assert(self.sessions@[j as int] == kept@[a]);
                        }
                    }
                    assert forall|a: int, b: int| 0 <= a < b < kept@.len() implies (
                    #[trigger] kept@[a]).id != (#[trigger] kept@[b]).id by {
                        assert(kept@[a] == before[a]);
                        if b < before.len() {
                            assert(kept@[b] == before[b]);
                        } else {
                            assert(session_from(self.sessions@, before[a], j as int));
                            let s = session_source(self.sessions@, before[a], j as int);
                            assert(self.sessions@[s].id != self.sessions@[j as int].id);
                        }
                    }
                }
            }
            j += 1;
        }
        proof {
            assert(self.sessions@.subrange(0, self.sessions@.len() as int) =~= self.sessions@);
        }
        self.users.remove(i);
        self.sessions = kept;
        proof {
            let before = old(self).users@;
            let after = self.users@;
            assert forall|k: int| 0 <= k < after.len() implies (#[trigger] after[k]) == before[if k
                < i {
                k
            } else {
                k + 1
            }] by {}
            assert forall|a: int, b: int| 0 <= a < b < after.len() implies {
                &&& (#[trigger] after[a]).user.id != (#[trigger] after[b]).user.id
                &&& after[a].user.username@ != after[b].user.username@
                &&& after[a].user.email@ != after[b].user.email@
            } by {
                let sa = if a < i { a } else { a + 1 };
                let sb = if b < i { b } else { b + 1 };
                assert(after[a] == before[sa]);
                assert(after[b] == before[sb]);
            }
            assert forall|k: int| 0 <= k < after.len() implies (#[trigger] after[k]).user.id
                < self.next_user && after[k].user.id != id by {
                let src = if k < i { k } else { k + 1 };
                assert(after[k] == before[src]);
            }
            assert forall|k: int| 0 <= k < self.sessions@.len() implies {
                &&& (#[trigger] self.sessions@[k]).id < self.next_session
                &&& has_user(after, self.sessions@[k].user_id)
            } by {
                let x = self.sessions@[k];
                assert(session_from(old(self).sessions@, x, old(self).sessions@.len() as int));
                let s = session_source(old(self).sessions@, x, old(self).sessions@.len() as int);
                assert(old(self).sessions@[s] == x);
                let uid = x.user_id;
                assert(has_user(before, uid));
                let w = user_index(before, uid);
                assert(w != i);
                let w2 = if w < i { w } else { w - 1 };
                assert(after[w2] == before[w]);
            }
        }
        true
    }
}

/// Whether `x` is one of the first `bound` sessions.
pub open spec fn session_from(sessions: Seq<Session>, x: Session, bound: int) -> bool {
    exists|s: int| 0 <= s < bound && #[trigger] sessions[s] == x
}

/// A place at which `x` stands among the first `bound` sessions.
pub open spec fn session_source(sessions: Seq<Session>, x: Session, bound: int) -> int {
    choose|s: int| 0 <= s < bound && #[trigger] sessions[s] == x
}

} // verus!
