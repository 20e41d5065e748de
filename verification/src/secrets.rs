//! Passwords: checking one against a stored hash, and hashing a new one.

use vstd::prelude::*;
use vstd::string::StrSliceExecFns;
use vstd::utf8::is_ascii_chars;
use crate::token::is_digit;

verus! {

/// What checking the password against the hash gives: `Some(true)` where it
/// is the password that was hashed, `Some(false)` where it is another, and
/// `None` where the hash cannot be read or the check itself fails.
pub uninterp spec fn password_verdict(password: Seq<char>, hash: Seq<char>) -> Option<bool>;

/// Whether the parameter `p=`, the number of lanes, starts at `i`.
pub open spec fn lanes_at(hash: Seq<char>, i: int) -> bool {
    0 <= i && i + 1 < hash.len() && hash[i] == 'p' && hash[i + 1] == '='
}

/// Whether nine decimal digits stand at `at`.
pub open spec fn nine_digits_at(hash: Seq<char>, at: int) -> bool {
    0 <= at && at + 9 <= hash.len() && forall|k: int| at <= k < at + 9 ==> is_digit(#[trigger] hash[k])
}

/// Whether the stored hash can be handed to the check: it is ASCII, and
/// wherever it gives a number of lanes, that number has eight digits at
/// most. Argon2 takes no more than 16777215 lanes, written without leading
/// zeros, so a hash that it can check passes; a greater number would make
/// the check multiply out of range before it tests the number.
pub open spec fn checkable(hash: Seq<char>) -> bool {
    &&& is_ascii_chars(hash)
    &&& forall|i: int| #[trigger] lanes_at(hash, i) ==> !nine_digits_at(hash, i + 2)
}

/// The verdict on the password, where a hash that cannot be handed to the
/// check counts as one that cannot be read.
pub open spec fn checked_verdict(password: Seq<char>, hash: Seq<char>) -> Option<bool> {
    if checkable(hash) {
        password_verdict(password, hash)
    } else {
        None
    }
}

fn nine_digits(hash: &str, n: usize, at: usize) -> (r: bool)
    requires
        hash.is_ascii(),
        n == hash@.len(),
        at <= n,
    ensures
        r == nine_digits_at(hash@, at as int),
{
    if n - at < 9 {
        return false;
    }
    let mut k: usize = 0;
    while k < 9
        invariant
            hash.is_ascii(),
            n == hash@.len(),
            at + 9 <= n,
            k <= 9,
            forall|j: int| at <= j < at + k ==> is_digit(#[trigger] hash@[j]),
        decreases 9 - k,
    {
        let b = hash.get_ascii(at + k);
        if b < 48 || b > 57 {
            proof {
                assert(!is_digit(hash@[at + k]));
            }
            return false;
        }
        k += 1;
    }
    true
}

/// Whether the stored hash can be handed to the check.
pub fn is_checkable(hash: &str) -> (r: bool)
    ensures
        r == checkable(hash@),
{
    if !hash.is_ascii() {
        return false;
    }
    let n = hash.unicode_len();
    let mut i: usize = 0;
    while i < n
        invariant
            hash.is_ascii(),
            n == hash@.len(),
            i <= n,
            forall|k: int| 0 <= k < i && #[trigger] lanes_at(hash@, k) ==> !nine_digits_at(hash@, k + 2),
        decreases n - i,
    {
        if i + 1 < n && hash.get_ascii(i) == 112 && hash.get_ascii(i + 1) == 61 {
            if nine_digits(hash, n, i + 2) {
                proof {
                    assert(lanes_at(hash@, i as int));
                }
                return false;
            }
        }
        i += 1;
    }
    true
}

/// Parses the stored hash with `PasswordHash::new` and checks the password
/// against it with Argon2's `verify_password`. The verdict depends on the
/// two texts alone. A hash that is not `checkable` is left out: on a number
/// of lanes from 536870912 on, `Params::new` multiplies out of range.
#[verifier::external_body]
fn verify_password(password: &str, hash: &str) -> (r: Option<bool>)
    requires
        checkable(hash@),
    ensures
        r == password_verdict(password@, hash@),
{
    let parsed = argon2::PasswordHash::new(hash).ok()?;
    let hasher = argon2::Argon2::default();
    match argon2::PasswordVerifier::verify_password(&hasher, password.as_bytes(), &parsed) {
        Ok(()) => Some(true),
        Err(argon2::password_hash::Error::Password) => Some(false),
        Err(_) => None,
    }
}

/// Hashes a password with Argon2's `hash_password`, under a salt of the
/// recommended length that `OsRng` fills at random and
/// `SaltString::encode_b64` writes down; `None` where the random source or
/// the hashing fails. Two calls differ, so the hash itself has no name; but
/// the password checks against it, as the hash carries the salt and the
/// parameters that it was made with.
#[verifier::external_body]
fn hash_with_fresh_salt(password: &str) -> (r: Option<String>)
    ensures
        r.is_some() ==> password_verdict(password@, r.unwrap()@) == Some(true),
{
    let mut bytes = [0u8; argon2::password_hash::Salt::RECOMMENDED_LENGTH];
    let mut source = argon2::password_hash::rand_core::OsRng;
    argon2::password_hash::rand_core::RngCore::try_fill_bytes(&mut source, &mut bytes).ok()?;
    let salt = argon2::password_hash::SaltString::encode_b64(&bytes).ok()?;
    let hasher = argon2::Argon2::default();
    match argon2::PasswordHasher::hash_password(&hasher, password.as_bytes(), &salt) {
        Ok(hash) => Some(hash.to_string()),
        Err(_) => None,
    }
}

/// Checks a password against a stored hash. A hash that cannot be handed
/// to the check is answered like one that cannot be read.
pub fn check_password(password: &str, hash: &str) -> (r: Option<bool>)
    ensures
        r == checked_verdict(password@, hash@),
{
    if is_checkable(hash) {
        verify_password(password, hash)
    } else {
        None
    }
}

/// Hashes a new password under a fresh salt. The hash that comes back is
/// one that the password checks against; a hash that could not be handed
/// to the check later is withheld.
pub fn hash_password(password: &str) -> (r: Option<String>)
    ensures
        r.is_some() ==> checked_verdict(password@, r.unwrap()@) == Some(true),
{
    match hash_with_fresh_salt(password) {
        Some(hash) => if is_checkable(hash.as_str()) {
            Some(hash)
        } else {
            None
        },
        None => None,
    }
}

} // verus!
