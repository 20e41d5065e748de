//! Accounts: the account type and the public profile of a user.

use vstd::prelude::*;

verus! {

/// The kind of an account, stored as a small integer: 0 for an ordinary
/// user, 1 for an administrator.
#[derive(Debug, Clone, Copy, PartialEq, Eq, Structural)]
pub enum AccountType {
    User,
    Admin,
}

/// The stored number that is no account type.
#[derive(Debug, Clone, Copy, PartialEq, Eq, Structural)]
pub struct InvalidAccountType(pub u8);

impl InvalidAccountType {
    /// The rejected number.
    pub fn value(&self) -> (r: u8)
        ensures
            r == self.0,
    {
        self.0
    }
}

impl AccountType {
    /// The number under which the account type is stored.
    pub open spec fn code(self) -> int {
        match self {
            AccountType::User => 0,
            AccountType::Admin => 1,
        }
    }

    /// The account type stored under `value`, if there is one.
    pub open spec fn decoded(value: int) -> Option<AccountType> {
        if value == 0 {
            Some(AccountType::User)
        } else if value == 1 {
            Some(AccountType::Admin)
        } else {
            None
        }
    }

    /// The number under which the account type is stored.
    pub fn to_u8(self) -> (r: u8)
        ensures
            r == self.code(),
            Self::decoded(r as int) == Some(self),
    {
        match self {
            AccountType::User => 0,
            AccountType::Admin => 1,
        }
    }

    /// Reads a stored number; any number but 0 and 1 is rejected and handed
    /// back in the error.
    pub fn try_from(value: u8) -> (r: Result<AccountType, InvalidAccountType>)
        ensures
            r == match Self::decoded(value as int) {
                Some(t) => Ok::<AccountType, InvalidAccountType>(t),
                None => Err::<AccountType, InvalidAccountType>(InvalidAccountType(value)),
            },
    {
        match value {
            0 => Ok(AccountType::User),
            1 => Ok(AccountType::Admin),
            _ => Err(InvalidAccountType(value)),
        }
    }

    /// Reads a stored number that is known to be an account type.
    pub fn from(value: i32) -> (r: AccountType)
        requires
            Self::decoded(value as int).is_some(),
        ensures
            Some(r) == Self::decoded(value as int),
            r.code() == value,
    {
        if value == 0 {
            AccountType::User
        } else {
            AccountType::Admin
        }
    }

    /// Reads a stored number of any size, or says that it is no account type.
    pub fn checked_from(value: i32) -> (r: Option<AccountType>)
        ensures
            r == Self::decoded(value as int),
    {
        if value == 0 || value == 1 {
            Some(Self::from(value))
        } else {
            None
        }
    }
}

/// The public profile of a user. The password hash is no part of it.
#[derive(Debug)]
pub struct User {
    pub id: i32,
    pub username: String,
    pub name: String,
    pub email: String,
    pub account_type: AccountType,
    /// Seconds since the Unix epoch.
    pub created_at: i64,
    pub require_password_change: bool,
}

impl Clone for User {
    fn clone(&self) -> (r: Self)
        ensures
            r == *self,
    {
        User {
            id: self.id,
            username: self.username.clone(),
            name: self.name.clone(),
            email: self.email.clone(),
            account_type: self.account_type,
            created_at: self.created_at,
            require_password_change: self.require_password_change,
        }
    }
}

impl PartialEq for User {
    /// Two profiles are the same user when their ids agree.
    fn eq(&self, other: &Self) -> (r: bool) {
        self.id == other.id
    }
}

impl Eq for User {}

impl vstd::std_specs::cmp::PartialEqSpecImpl for User {
    open spec fn obeys_eq_spec() -> bool {
        true
    }

    open spec fn eq_spec(&self, other: &Self) -> bool {
        self.id == other.id
    }
}

impl User {
    /// Whether this is the user with the given id.
    pub fn has_id(&self, id: i32) -> (r: bool)
        ensures
            r == (self.id == id),
    {
        self.id == id
    }
}

/// A copy of an optional text.
pub fn copy_text(text: &Option<String>) -> (r: Option<String>)
    ensures
        r == *text,
{
    match text {
        Some(s) => Some(s.clone()),
        None => None,
    }
}

/// Whether the text is an email address, as the `email_address` crate reads
/// one.
pub uninterp spec fn email_wellformed(address: Seq<char>) -> bool;

/// Asks `EmailAddress::is_valid` whether the text parses as an email
/// address. The answer depends on the text alone.
#[verifier::external_body]
pub(crate) fn email_is_valid(address: &str) -> (r: bool)
    ensures
        r == email_wellformed(address@),
{
    email_address::EmailAddress::is_valid(address)
}

} // verus!
