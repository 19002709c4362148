//! The challenge store: at most one pending second-factor challenge per Email.
use vstd::prelude::*;
use vstd::hash_map::StringHashMap;
use crate::email::Email;
use crate::errors::TwoFACodeStoreError;
use crate::two_factor::{LoginAttemptId, TwoFACode};

verus! {

/// How long a challenge stays, in seconds.
pub const CHALLENGE_TTL_SECONDS: u64 = 600;

/// A pending challenge: the expected attempt id and code, until `expires_at`.
#[derive(Debug)]
pub struct Challenge {
    pub login_attempt_id: LoginAttemptId,
    pub code: TwoFACode,
    pub expires_at: u64,
}

/// When a challenge made at `now` expires (the latest time, if that is past the clock's end).
pub open spec fn challenge_expiry(now: u64) -> u64 {
    if now <= u64::MAX - CHALLENGE_TTL_SECONDS {
        (now + CHALLENGE_TTL_SECONDS) as u64
    } else {
        u64::MAX
    }
}

/// Whether `m` holds a challenge for `email` that has not expired at `now`.
pub open spec fn live_challenge(m: Map<Seq<char>, Challenge>, email: Seq<char>, now: u64) -> bool {
    m.contains_key(email) && now < m[email].expires_at
}

/// A medium that keeps pending challenges. Any operation may fail with
/// `UnexpectedError` when the medium does; a failed operation changes nothing.
pub trait TwoFACodeStore {
    /// The challenges, keyed by the text of the Email.
    spec fn challenges(&self) -> Map<Seq<char>, Challenge>;

    /// The medium never fails (memory, for one): the only failure left is
    /// `LoginAttemptIdNotFound`.
    spec fn infallible(&self) -> bool;

    /// Puts a challenge for `email`, made at `now`, in place of any earlier one.
    fn add_code(
        &mut self,
        email: Email,
        login_attempt_id: LoginAttemptId,
        code: TwoFACode,
        now: u64,
    ) -> (r: Result<(), TwoFACodeStoreError>)
        ensures
            final(self).infallible() == old(self).infallible(),
            old(self).infallible() ==> r is Ok,
            r is Err ==> r == Err::<(), TwoFACodeStoreError>(TwoFACodeStoreError::UnexpectedError)
                && final(self).challenges() == old(self).challenges(),
            r is Ok ==> {
                let m = final(self).challenges();
                &&& m.dom() == old(self).challenges().dom().insert(email@)
                &&& forall|k: Seq<char>|
                    k != email@ && #[trigger] old(self).challenges().contains_key(k) ==> m[k]
                        == old(self).challenges()[k]
                &&& m[email@].login_attempt_id@ == login_attempt_id@
                &&& m[email@].code@ == code@
                &&& m[email@].expires_at == challenge_expiry(now)
            },
    ;

    /// Removes the challenge for `email` that is live at `now`; an expired
    /// challenge counts as gone.
    fn remove_code(&mut self, email: &Email, now: u64) -> (r: Result<(), TwoFACodeStoreError>)
        ensures
            final(self).infallible() == old(self).infallible(),
            old(self).infallible() ==> r != Err::<(), TwoFACodeStoreError>(
                TwoFACodeStoreError::UnexpectedError,
            ),
            old(self).infallible() ==> (r is Ok <==> live_challenge(
                old(self).challenges(),
                email@,
                now,
            )),
            r is Ok ==> live_challenge(old(self).challenges(), email@, now) && final(self).challenges() == old(self).challenges().remove(email@),
            r matches Err(e) ==> final(self).challenges() == old(self).challenges() && ((e
                == TwoFACodeStoreError::LoginAttemptIdNotFound && !live_challenge(
                old(self).challenges(),
                email@,
                now,
            )) || e == TwoFACodeStoreError::UnexpectedError),
    ;

    /// The attempt id and code of the live challenge for `email` at `now`.
    fn get_code(&self, email: &Email, now: u64) -> (r: Result<
        (LoginAttemptId, TwoFACode),
        TwoFACodeStoreError,
    >)
        ensures
            self.infallible() ==> !(r matches Err(e) && e == TwoFACodeStoreError::UnexpectedError),
            match r {
                Ok((id, code)) => live_challenge(self.challenges(), email@, now) && id@
                    == self.challenges()[email@].login_attempt_id@ && code@
                    == self.challenges()[email@].code@,
                Err(e) => (e == TwoFACodeStoreError::LoginAttemptIdNotFound && !live_challenge(
                    self.challenges(),
                    email@,
                    now,
                )) || e == TwoFACodeStoreError::UnexpectedError,
            },
    ;
}

/// Pending challenges kept in memory, keyed by the text of the Email; its
/// operations fail only when there is nothing to find.
pub struct HashmapTwoFACodeStore {
    codes: StringHashMap<Challenge>,
}

impl View for HashmapTwoFACodeStore {
    type V = Map<Seq<char>, Challenge>;

    closed spec fn view(&self) -> Map<Seq<char>, Challenge> {
        self.codes@
    }
}

impl HashmapTwoFACodeStore {
    pub fn new() -> (r: HashmapTwoFACodeStore)
        ensures
            r@ == Map::<Seq<char>, Challenge>::empty(),
    {
        HashmapTwoFACodeStore { codes: StringHashMap::new() }
    }
}

impl TwoFACodeStore for HashmapTwoFACodeStore {
    open spec fn challenges(&self) -> Map<Seq<char>, Challenge> {
        self@
    }

    open spec fn infallible(&self) -> bool {
        true
    }

    fn add_code(
        &mut self,
        email: Email,
        login_attempt_id: LoginAttemptId,
        code: TwoFACode,
        now: u64,
    ) -> (r: Result<(), TwoFACodeStoreError>) {
        let expires_at = if now <= u64::MAX - CHALLENGE_TTL_SECONDS {
            now + CHALLENGE_TTL_SECONDS
        } else {
            u64::MAX
        };
        let challenge = Challenge { login_attempt_id, code, expires_at };
        let key = email.as_str().to_owned();
        self.codes.insert(key, challenge);
        proof {
            assert(self.codes@.dom() =~= old(self)@.dom().insert(email@));
        }
        Ok(())
    }

    fn remove_code(&mut self, email: &Email, now: u64) -> (r: Result<(), TwoFACodeStoreError>) {
        let live = match self.codes.get(email.as_str()) {
            Some(c) => now < c.expires_at,
            None => false,
        };
        if live {
            self.codes.remove(email.as_str());
            Ok(())
        } else {
            Err(TwoFACodeStoreError::LoginAttemptIdNotFound)
        }
    }

    fn get_code(&self, email: &Email, now: u64) -> (r: Result<
        (LoginAttemptId, TwoFACode),
        TwoFACodeStoreError,
    >) {
        match self.codes.get(email.as_str()) {
            Some(c) => {
                if now < c.expires_at {
                    Ok((c.login_attempt_id.clone(), c.code.clone()))
                } else {
                    Err(TwoFACodeStoreError::LoginAttemptIdNotFound)
                }
            },
            None => Err(TwoFACodeStoreError::LoginAttemptIdNotFound),
        }
    }
}

/// Once the challenge for `email` is removed, no challenge for it is live at
/// any time: a later `get_code` fails with `LoginAttemptIdNotFound`, and so a
/// second verification with the consumed code cannot succeed.
pub proof fn lemma_removed_challenge_is_gone(
    m: Map<Seq<char>, Challenge>,
    email: Seq<char>,
    now: u64,
)
    ensures
        !live_challenge(m.remove(email), email, now),
{
}


impl Default for HashmapTwoFACodeStore {
    fn default() -> (r: Self)
        ensures
            r@ == Map::<Seq<char>, Challenge>::empty(),
    {
        HashmapTwoFACodeStore::new()
    }
}

} // verus!
