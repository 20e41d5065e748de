//! Self-service changes of a user's own profile.

use vstd::prelude::*;
use vstd::string::StrSliceExecFns;
use crate::account::{email_is_valid, email_wellformed, User};
use crate::secrets::{checked_verdict, hash_password};
use crate::store::{
    amend_verdict, patched_record, CredentialStore, ProfilePatch, StoreError, UserRecord,
};

verus! {

/// The longest username, in characters.
pub const MAX_USERNAME: usize = 16;

/// The longest email address, in characters.
pub const MAX_EMAIL: usize = 255;

/// What a user asks to change of the own profile. `password` is the new
/// password in the clear.
#[derive(Debug)]
pub struct UpdateUser {
    pub username: Option<String>,
    pub name: Option<String>,
    pub email: Option<String>,
    pub password: Option<String>,
}

/// Why a change of profile was turned down.
#[derive(Debug, Clone, Copy, PartialEq, Eq, Structural)]
pub enum UpdateError {
    /// A field is empty, too long, or no email address.
    BadRequest,
    /// The user does not exist.
    NotFound,
    /// The username or the email belongs to another user.
    Conflict,
    /// The password could not be hashed.
    Fault,
}

/// The status code of a change of profile: 204 where it was made, 400 for
/// a request that is refused as it stands, 500 for everything that the
/// store or the hashing refuses.
pub fn update_status(outcome: Result<(), UpdateError>) -> (r: u16)
    ensures
        r == match outcome {
            Ok(()) => 204u16,
            Err(UpdateError::BadRequest) => 400u16,
            Err(_) => 500u16,
        },
{
    match outcome {
        Ok(()) => 204,
        Err(UpdateError::BadRequest) => 400,
        Err(_) => 500,
    }
}

/// Whether the field is there and empty.
pub open spec fn is_empty(field: Option<String>) -> bool {
    field.is_some() && field.unwrap()@.len() == 0
}

/// Whether the field is there and longer than `limit` characters.
pub open spec fn too_long(field: Option<String>, limit: int) -> bool {
    field.is_some() && field.unwrap()@.len() > limit
}

/// Whether the request is refused as it stands: an empty username, name
/// or password, a username or email over its length, or an email that is
/// no email address.
pub open spec fn update_invalid(update: UpdateUser) -> bool {
    ||| is_empty(update.username)
    ||| is_empty(update.name)
    ||| is_empty(update.password)
    ||| too_long(update.username, MAX_USERNAME as int)
    ||| too_long(update.email, MAX_EMAIL as int)
    ||| update.email.is_some() && !email_wellformed(update.email.unwrap()@)
}

fn field_is_empty(field: &Option<String>) -> (r: bool)
    ensures
        r == is_empty(*field),
{
    match field {
        Some(text) => text.as_str().unicode_len() == 0,
        None => false,
    }
}

fn field_too_long(field: &Option<String>, limit: usize) -> (r: bool)
    ensures
        r == too_long(*field, limit as int),
{
    match field {
        Some(text) => text.as_str().unicode_len() > limit,
        None => false,
    }
}

/// Whether the request can be made as it stands.
pub fn check_update(update: &UpdateUser) -> (r: bool)
    ensures
        r == !update_invalid(*update),
{
    if field_is_empty(&update.username) || field_is_empty(&update.name) || field_is_empty(
        &update.password,
    ) {
        return false;
    }
    if field_too_long(&update.username, MAX_USERNAME) || field_too_long(&update.email, MAX_EMAIL) {
        return false;
    }
    match &update.email {
        Some(email) => email_is_valid(email.as_str()),
        None => true,
    }
}

/// The change that the store makes for the request, `hash` being the hash
/// of the new password where there is one.
pub open spec fn patch_of(update: UpdateUser, hash: Option<String>) -> ProfilePatch {
    ProfilePatch { username: update.username, name: update.name, email: update.email, password: hash }
}

/// The error that the store's refusal becomes.
pub open spec fn refusal(error: StoreError) -> UpdateError {
    match error {
        StoreError::NotFound => UpdateError::NotFound,
        StoreError::Conflict => UpdateError::Conflict,
        StoreError::Exhausted => UpdateError::Fault,
    }
}

/// Whether `hash` is what is stored for the password of the request: no
/// hash where no password was sent, else a hash that this password checks
/// against.
pub open spec fn hash_fits(update: UpdateUser, hash: Option<String>) -> bool {
    match update.password {
        None => hash.is_none(),
        Some(password) => hash.is_some() && checked_verdict(password@, hash.unwrap()@) == Some(
            true,
        ),
    }
}

/// Whether `after` and `r` are what the store makes of the users `before`
/// when it is asked for the change `patch` of the user with the id: the
/// fields that the patch names are replaced for that user, every other
/// field and every other user stay, and a refusal changes nothing.
pub open spec fn applied(
    before: Seq<UserRecord>,
    after: Seq<UserRecord>,
    user_id: i32,
    patch: ProfilePatch,
    r: Result<User, UpdateError>,
) -> bool {
    match amend_verdict(before, user_id, patch) {
        Err(e) => r == Err::<User, UpdateError>(refusal(e)) && after == before,
        Ok(i) => {
            &&& r == Ok::<User, UpdateError>(patched_record(before[i], patch).user)
            &&& after == before.update(i, patched_record(before[i], patch))
        },
    }
}

/// Whether `after` and `r` are what a request for a change of profile makes
/// of the users `before`. A request that is invalid as it stands is a
/// `BadRequest`. A valid one is carried out with the new password, if one
/// was sent, replaced by a hash that this password checks against; or it
/// fails with `Fault`, and only where a password was to be hashed. Every
/// failure changes nothing.
pub open spec fn updated(
    before: Seq<UserRecord>,
    after: Seq<UserRecord>,
    user_id: i32,
    update: UpdateUser,
    r: Result<User, UpdateError>,
) -> bool {
    if update_invalid(update) {
        r == Err::<User, UpdateError>(UpdateError::BadRequest) && after == before
    } else {
        ||| r == Err::<User, UpdateError>(UpdateError::Fault) && update.password.is_some()
            && after == before
        ||| exists|hash: Option<String>| #[trigger]
            hash_fits(update, hash) && applied(
                before,
                after,
                user_id,
                patch_of(update, hash),
                r,
            )
    }
}

/// Checks a request and hashes its new password, if any, under a fresh
/// salt. The result is the change to make in the store: the fields as
/// they were sent, and in place of the password a hash that the password
/// checks against. A valid request fails only where a password was to be
/// hashed and could not be.
pub fn prepare_update(update: UpdateUser) -> (r: Result<ProfilePatch, UpdateError>)
    ensures
        update_invalid(update) ==> r == Err::<ProfilePatch, UpdateError>(UpdateError::BadRequest),
        !update_invalid(update) && r.is_err() ==> r == Err::<ProfilePatch, UpdateError>(
            UpdateError::Fault,
        ) && update.password.is_some(),
        r.is_ok() ==> r.unwrap() == patch_of(update, r.unwrap().password) && hash_fits(
            update,
            r.unwrap().password,
        ),
{
    if !check_update(&update) {
        return Err(UpdateError::BadRequest);
    }
    let hash = match &update.password {
        None => None,
        Some(password) => match hash_password(password.as_str()) {
            Some(hash) => Some(hash),
            None => {
                return Err(UpdateError::Fault);
            },
        },
    };
    Ok(ProfilePatch { username: update.username, name: update.name, email: update.email, password: hash })
}

/// The error that the store's refusal becomes.
pub fn refuse(error: StoreError) -> (r: UpdateError)
    ensures
        r == refusal(error),
{
    match error {
        StoreError::NotFound => UpdateError::NotFound,
        StoreError::Conflict => UpdateError::Conflict,
        StoreError::Exhausted => UpdateError::Fault,
    }
}

/// Makes a change of profile whose new password, if any, was hashed to
/// `hash`. A request that is refused changes nothing.
pub fn apply_update(
    store: &mut CredentialStore,
    user_id: i32,
    update: UpdateUser,
    hash: Option<String>,
) -> (r: Result<User, UpdateError>)
    requires
        old(store).wf(),
    ensures
        final(store).wf(),
        final(store).sessions == old(store).sessions,
        final(store).next_user == old(store).next_user,
        final(store).next_session == old(store).next_session,
        if update_invalid(update) {
            r == Err::<User, UpdateError>(UpdateError::BadRequest) && final(store).users@ == old(
                store,
            ).users@
        } else {
            applied(old(store).users@, final(store).users@, user_id, patch_of(update, hash), r)
        },
{
    if !check_update(&update) {
        return Err(UpdateError::BadRequest);
    }
    let patch = ProfilePatch {
        username: update.username,
        name: update.name,
        email: update.email,
        password: hash,
    };
    match store.amend_user(user_id, patch) {
        Ok(user) => Ok(user),
        Err(e) => Err(refuse(e)),
    }
}

/// Changes the profile of a user: username, name, email and password, as
/// far as the request names them; what it does not name stays, and so does
/// every other user. A new password is hashed under a fresh salt before it
/// is stored, and lifts the demand to change the password.
pub fn update_current_user(store: &mut CredentialStore, user_id: i32, update: UpdateUser) -> (r:
    Result<User, UpdateError>)
    requires
        old(store).wf(),
    ensures
        final(store).wf(),
        final(store).sessions == old(store).sessions,
        final(store).next_user == old(store).next_user,
        final(store).next_session == old(store).next_session,
        updated(old(store).users@, final(store).users@, user_id, update, r),
        r.is_ok() ==> r.unwrap().id == user_id,
        r.is_ok() && update.password.is_some() ==> !r.unwrap().require_password_change,
{
    match prepare_update(update) {
        Err(e) => Err(e),
        Ok(patch) => {
            let ghost hash = patch.password;
            proof {
                let verdict = amend_verdict(store.users@, user_id, patch);
                if verdict.is_ok() {
                    assert(crate::store::has_user(store.users@, user_id));
                    assert(store.users@[verdict.unwrap()].user.id == user_id);
                }
            }
            let outcome = match store.amend_user(user_id, patch) {
                Ok(user) => Ok(user),
                Err(e) => Err(refuse(e)),
            };
            proof {
                assert(hash_fits(update, hash));
                assert(applied(
                    old(store).users@,
                    store.users@,
                    user_id,
                    patch_of(update, hash),
                    outcome,
                ));
            }
            outcome
        },
    }
}

} // verus!
