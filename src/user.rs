//! Users as they sign up and as the credential store keeps them.
use vstd::prelude::*;
use crate::email::Email;
use crate::hasher::PasswordHash;
use crate::password::Password;

verus! {

/// A user as submitted at signup: the password is still plain text.
pub struct User {
    pub email: Email,
    pub password: Password,
    pub requires_2fa: bool,
}

impl User {
    pub fn new(email: Email, password: Password, requires_2fa: bool) -> (r: User)
        ensures
            r.email@ == email@,
            r.password@ == password@,
            r.requires_2fa == requires_2fa,
    {
        User { email, password, requires_2fa }
    }
}

/// A user as the credential store keeps it: the password only as its hash.
#[derive(Debug)]
pub struct StoredUser {
    pub email: Email,
    pub password_hash: PasswordHash,
    pub requires_2fa: bool,
}

/// Two stored users with the same fields.
pub open spec fn same_stored_user(a: StoredUser, b: StoredUser) -> bool {
    a.email@ == b.email@ && a.password_hash@ == b.password_hash@ && a.requires_2fa
        == b.requires_2fa
}

impl Clone for StoredUser {
    fn clone(&self) -> (r: Self)
        ensures
            same_stored_user(r, *self),
    {
        StoredUser {
            email: self.email.clone(),
            password_hash: self.password_hash.clone(),
            requires_2fa: self.requires_2fa,
        }
    }
}

} // verus!
