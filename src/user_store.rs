//! The credential store: Email to (password hash, second-factor flag).
use vstd::prelude::*;
use vstd::hash_map::StringHashMap;
use crate::email::{Email, is_valid_email};
use crate::errors::UserStoreError;
use crate::hasher::{
    argon2_accepts, fixed_cost_phc, fresh_salt, hash_password, hashable, verify_password,
};
use crate::password::{Password, password_error};
use crate::user::{StoredUser, User};

verus! {

/// `u` is the user kept under `email` in `m`, named by that Email.
pub open spec fn is_user_of(u: StoredUser, m: Map<Seq<char>, StoredUser>, email: Seq<char>) -> bool {
    m.contains_key(email) && u.email@ == email && u.password_hash@ == m[email].password_hash@
        && u.requires_2fa == m[email].requires_2fa
}

/// Whether `password` is the password of the user kept under `email` in `m`.
pub open spec fn password_matches(
    m: Map<Seq<char>, StoredUser>,
    email: Seq<char>,
    password: Seq<char>,
) -> bool {
    m.contains_key(email) && argon2_accepts(m[email].password_hash@, password)
}

/// A medium that keeps the users. Any operation may fail with
/// `UnexpectedError` when the medium does; a failed operation changes nothing.
pub trait UserStore {
    /// The users, keyed by the text of their Email.
    spec fn users(&self) -> Map<Seq<char>, StoredUser>;

    /// The medium never fails (memory, for one): `UnexpectedError` then comes
    /// only from hashing.
    spec fn infallible(&self) -> bool;

    /// Adds `user` unless its Email is taken; the password is kept only as its
    /// hash. The check and the insert are one step.
    fn add_user(&mut self, user: User) -> (r: Result<(), UserStoreError>)
        ensures
            final(self).infallible() == old(self).infallible(),
            old(self).infallible() && old(self).users().contains_key(user.email@) ==> r
                == Err::<(), UserStoreError>(UserStoreError::UserAlreadyExists),
            old(self).users().contains_key(user.email@) ==> r is Err,
            old(self).infallible() && !old(self).users().contains_key(user.email@) && hashable(
                user.password@,
            ) ==> r is Ok,
            !old(self).users().contains_key(user.email@) ==> r != Err::<(), UserStoreError>(
                UserStoreError::UserAlreadyExists,
            ),
            r matches Err(e) ==> final(self).users() == old(self).users() && (e
                == UserStoreError::UserAlreadyExists || e == UserStoreError::UnexpectedError),
            r is Ok ==> {
                let m = final(self).users();
                &&& m.dom() == old(self).users().dom().insert(user.email@)
                &&& forall|k: Seq<char>| #[trigger]
                    old(self).users().contains_key(k) ==> m[k] == old(self).users()[k]
                &&& m[user.email@].email@ == user.email@
                &&& argon2_accepts(m[user.email@].password_hash@, user.password@)
                &&& fixed_cost_phc(m[user.email@].password_hash@)
                &&& m[user.email@].requires_2fa == user.requires_2fa
            },
    ;

    /// The user kept under `email`.
    fn get_user(&self, email: &Email) -> (r: Result<StoredUser, UserStoreError>)
        ensures
            self.infallible() ==> !(r matches Err(e) && e == UserStoreError::UnexpectedError),
            match r {
                Ok(u) => is_user_of(u, self.users(), email@),
                Err(e) => (e == UserStoreError::UserNotFound && !self.users().contains_key(email@))
                    || e == UserStoreError::UnexpectedError,
            },
    ;

    /// Whether `password` matches the hash kept for `email`.
    fn validate_user(&self, email: &Email, password: &Password) -> (r: Result<(), UserStoreError>)
        ensures
            self.infallible() ==> !(r matches Err(e) && e == UserStoreError::UnexpectedError),
            match r {
                Ok(()) => password_matches(self.users(), email@, password@),
                Err(e) => (e == UserStoreError::UserNotFound && !self.users().contains_key(email@))
                    || (e == UserStoreError::InvalidCredentials && self.users().contains_key(
                    email@,
                ) && !password_matches(self.users(), email@, password@)) || e
                    == UserStoreError::UnexpectedError,
            },
    ;

    /// The user whose Email is `email` and whose password is `password`, from
    /// raw input. Input that is not a well-formed Email or password gives
    /// `InvalidCredentials`; an unknown Email gives `UserNotFound`.
    fn authenticate_user(&self, email: &str, password: &str) -> (r: Result<
        StoredUser,
        UserStoreError,
    >)
        ensures
            self.infallible() ==> !(r matches Err(e) && e == UserStoreError::UnexpectedError),
            match r {
                Ok(u) => {
                    &&& is_valid_email(email@)
                    &&& password_error(password@) is None
                    &&& password_matches(self.users(), email@, password@)
                    &&& is_user_of(u, self.users(), email@)
                },
                Err(e) => {
                    ||| e == UserStoreError::InvalidCredentials && (!is_valid_email(email@)
                        || password_error(password@) is Some || (self.users().contains_key(email@)
                        && !password_matches(self.users(), email@, password@)))
                    ||| e == UserStoreError::UserNotFound && is_valid_email(email@)
                        && password_error(password@) is None && !self.users().contains_key(email@)
                    ||| e == UserStoreError::UnexpectedError
                },
            },
    ;
}

/// Credentials kept in memory, keyed by the text of the Email. Its operations
/// fail only when hashing does.
pub struct HashmapUserStore {
    users: StringHashMap<StoredUser>,
}

impl View for HashmapUserStore {
    type V = Map<Seq<char>, StoredUser>;

    closed spec fn view(&self) -> Map<Seq<char>, StoredUser> {
        self.users@
    }
}

impl HashmapUserStore {
    pub fn new() -> (r: HashmapUserStore)
        ensures
            r@ == Map::<Seq<char>, StoredUser>::empty(),
    {
        HashmapUserStore { users: StringHashMap::new() }
    }
}

impl UserStore for HashmapUserStore {
    open spec fn users(&self) -> Map<Seq<char>, StoredUser> {
        self@
    }

    open spec fn infallible(&self) -> bool {
        true
    }

    fn add_user(&mut self, user: User) -> (r: Result<(), UserStoreError>) {
        let key = user.email.as_str();
        if self.users.contains_key(key) {
            return Err(UserStoreError::UserAlreadyExists);
        }
        let salt = fresh_salt();
        let password_hash = match hash_password(&user.password, salt.as_slice()) {
            Ok(h) => h,
            Err(_) => {
                return Err(UserStoreError::UnexpectedError);
            },
        };
        let key_text = key.to_owned();
        let stored = StoredUser {
            email: user.email,
            password_hash,
            requires_2fa: user.requires_2fa,
        };
        self.users.insert(key_text, stored);
        proof {
            assert(self.users@ == old(self).users@.insert(user.email@, stored));
            assert(self.users@.dom() =~= old(self)@.dom().insert(user.email@));
        }
        Ok(())
    }

    fn get_user(&self, email: &Email) -> (r: Result<StoredUser, UserStoreError>) {
        match self.users.get(email.as_str()) {
            Some(u) => Ok(
                StoredUser {
                    email: email.clone(),
                    password_hash: u.password_hash.clone(),
                    requires_2fa: u.requires_2fa,
                },
            ),
            None => Err(UserStoreError::UserNotFound),
        }
    }

    fn validate_user(&self, email: &Email, password: &Password) -> (r: Result<(), UserStoreError>) {
        match self.users.get(email.as_str()) {
            None => Err(UserStoreError::UserNotFound),
            Some(u) => match verify_password(&u.password_hash, password.expose_secret()) {
                Ok(()) => Ok(()),
                Err(_) => Err(UserStoreError::InvalidCredentials),
            },
        }
    }

    fn authenticate_user(&self, email: &str, password: &str) -> (r: Result<
        StoredUser,
        UserStoreError,
    >) {
        let email = match Email::parse(email.to_owned()) {
            Ok(e) => e,
            Err(_) => {
                return Err(UserStoreError::InvalidCredentials);
            },
        };
        let password = match Password::parse(password.to_owned()) {
            Ok(p) => p,
            Err(_) => {
                return Err(UserStoreError::InvalidCredentials);
            },
        };
        match self.users.get(email.as_str()) {
            None => Err(UserStoreError::UserNotFound),
            Some(u) => match verify_password(&u.password_hash, password.expose_secret()) {
                Ok(()) => Ok(
                    StoredUser {
                        email,
                        password_hash: u.password_hash.clone(),
                        requires_2fa: u.requires_2fa,
                    },
                ),
                Err(_) => Err(UserStoreError::InvalidCredentials),
            },
        }
    }
}

impl Default for HashmapUserStore {
    fn default() -> (r: Self)
        ensures
            r@ == Map::<Seq<char>, StoredUser>::empty(),
    {
        HashmapUserStore::new()
    }
}

} // verus!
