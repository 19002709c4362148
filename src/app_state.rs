//! The session flows: signup, login (with its second-factor branch), second
//! factor verification, logout and token verification, over the three stores.
use vstd::prelude::*;
use crate::banned_store::{BannedTokenStore, ban_if_absent, banned_at};
use crate::code_store::{Challenge, TwoFACodeStore, challenge_expiry, live_challenge};
use crate::email::{Email, is_valid_email};
use crate::errors::{AuthAPIError, TwoFACodeStoreError, UserStoreError};
use crate::hasher::{argon2_accepts, fixed_cost_phc, hashable};
use crate::password::{Password, is_valid_password, password_error};
use crate::token::{
    TokenError, claims_json, decode_claims, generate_auth_token, jwt_signed, token_claims,
    token_expiry, validate_token,
};
use crate::two_factor::{LoginAttemptId, TwoFACode, is_code_text, uuid_text};
use crate::user::{StoredUser, User};
use crate::user_store::{UserStore, password_matches};

verus! {

/// Signup input.
pub struct SignupRequest {
    pub email: String,
    pub password: String,
    pub requires_2fa: bool,
}

pub struct SignupResponse {
    pub message: String,
}

/// Login input.
pub struct LoginRequest {
    pub email: String,
    pub password: String,
}

/// The answer to a login that waits for its second factor.
pub struct TwoFactorAuthResponse {
    pub message: String,
    pub login_attempt_id: String,
}

pub enum LoginResponse {
    /// Logged in: a session token comes with it.
    RegularAuth,
    /// A code is on its way (see `LoginOutcome::code_message`); the session
    /// waits for it.
    TwoFactorAuth(TwoFactorAuthResponse),
}

/// A message for the messaging collaborator to deliver.
pub struct CodeMessage {
    pub recipient: String,
    pub subject: String,
    pub content: String,
}

/// What a successful login yields: the response, the session token to hand to
/// the caller (none while the second factor is pending), and the message that
/// carries the code (only then).
pub struct LoginOutcome {
    pub response: LoginResponse,
    pub session_token: Option<String>,
    pub code_message: Option<CodeMessage>,
}

/// Second factor input.
pub struct Verify2FARequest {
    pub email: String,
    pub login_attempt_id: String,
    pub two_fa_code: String,
}

/// Token verification input.
pub struct VerifyTokenRequest {
    pub token: String,
}

pub open spec fn code_message_subject() -> Seq<char> {
    seq!['Y', 'o', 'u', 'r', ' ', '2', 'F', 'A', ' ', 'C', 'o', 'd', 'e']
}

pub open spec fn code_message_prefix() -> Seq<char> {
    seq![
        'Y', 'o', 'u', 'r', ' ', '2', 'F', 'A', ' ', 'c', 'o', 'd', 'e', ' ', 'i', 's', ':', ' ',
    ]
}

/// Whether the raw credentials are those of a user kept in `users`.
pub open spec fn credentials_match(
    users: Map<Seq<char>, StoredUser>,
    email: Seq<char>,
    password: Seq<char>,
) -> bool {
    is_valid_email(email) && password_error(password) is None && password_matches(
        users,
        email,
        password,
    )
}

/// Whether `request` names the live challenge for its Email at `now`, with
/// both its attempt id and its code.
pub open spec fn challenge_answered(
    challenges: Map<Seq<char>, Challenge>,
    request: Verify2FARequest,
    now: u64,
) -> bool {
    &&& is_valid_email(request.email@)
    &&& live_challenge(challenges, request.email@, now)
    &&& challenges[request.email@].login_attempt_id@ == request.login_attempt_id@
    &&& challenges[request.email@].code@ == request.two_fa_code@
}

/// Once a successful check has consumed the challenge for an Email, no
/// request for that Email answers a challenge at any time: a second attempt
/// with the same attempt id and code fails.
pub proof fn lemma_consumed_challenge_cannot_be_answered(
    challenges: Map<Seq<char>, Challenge>,
    request: Verify2FARequest,
    now: u64,
)
    ensures
        !challenge_answered(challenges.remove(request.email@), request, now),
{
}

/// The three stores and the signing secret.
pub struct AppState<U: UserStore, B: BannedTokenStore, C: TwoFACodeStore> {
    user_store: U,
    banned_token_store: B,
    two_fa_code_store: C,
    jwt_secret: Vec<u8>,
}

impl<U: UserStore, B: BannedTokenStore, C: TwoFACodeStore> AppState<U, B, C> {
    pub fn new(user_store: U, banned_token_store: B, two_fa_code_store: C, jwt_secret: Vec<u8>) -> (r:
        AppState<U, B, C>)
        ensures
            r.users() == user_store.users(),
            r.banned() == banned_token_store.banned(),
            r.challenges() == two_fa_code_store.challenges(),
            r.key() == jwt_secret@,
            r.infallible() == (user_store.infallible() && banned_token_store.infallible()
                && two_fa_code_store.infallible()),
    {
        AppState { user_store, banned_token_store, two_fa_code_store, jwt_secret }
    }

    /// The signing secret.
    pub closed spec fn key(&self) -> Seq<u8> {
        self.jwt_secret@
    }

    /// None of the three stores fails of its own.
    pub closed spec fn infallible(&self) -> bool {
        self.user_store.infallible() && self.banned_token_store.infallible()
            && self.two_fa_code_store.infallible()
    }

    /// The credential store's contents.
    pub closed spec fn users(&self) -> Map<Seq<char>, StoredUser> {
        self.user_store.users()
    }

    /// The revocation store's contents.
    pub closed spec fn banned(&self) -> Map<Seq<char>, u64> {
        self.banned_token_store.banned()
    }

    /// The challenge store's contents.
    pub closed spec fn challenges(&self) -> Map<Seq<char>, Challenge> {
        self.two_fa_code_store.challenges()
    }

    pub fn user_store(&self) -> (r: &U)
        ensures
            r.users() == self.users(),
    {
        &self.user_store
    }

    pub fn banned_token_store(&self) -> (r: &B)
        ensures
            r.banned() == self.banned(),
    {
        &self.banned_token_store
    }

    pub fn two_fa_code_store(&self) -> (r: &C)
        ensures
            r.challenges() == self.challenges(),
    {
        &self.two_fa_code_store
    }

    /// Creates a user from raw input.
    pub fn signup(&mut self, request: SignupRequest) -> (r: Result<SignupResponse, AuthAPIError>)
        ensures
            final(self).key() == old(self).key(),
            final(self).infallible() == old(self).infallible(),
            final(self).banned() == old(self).banned(),
            final(self).challenges() == old(self).challenges(),
            !is_valid_email(request.email@) || !is_valid_password(request.password@) ==> r
                == Err::<SignupResponse, AuthAPIError>(AuthAPIError::InvalidCredentials),
            is_valid_email(request.email@) && is_valid_password(request.password@) ==> ({
                ||| r == Err::<SignupResponse, AuthAPIError>(AuthAPIError::UserAlreadyExists)
                    && old(self).users().contains_key(request.email@)
                ||| r == Err::<SignupResponse, AuthAPIError>(AuthAPIError::UnexpectedError)
                ||| r is Ok && !old(self).users().contains_key(request.email@)
            }),
            old(self).infallible() && is_valid_email(request.email@) && is_valid_password(
                request.password@,
            ) && old(self).users().contains_key(request.email@) ==> r == Err::<
                SignupResponse,
                AuthAPIError,
            >(AuthAPIError::UserAlreadyExists),
            old(self).infallible() && is_valid_email(request.email@) && is_valid_password(
                request.password@,
            ) && !old(self).users().contains_key(request.email@) && hashable(request.password@)
                ==> r is Ok,
            r is Ok ==> {
                let m = final(self).users();
                &&& m.dom() == old(self).users().dom().insert(request.email@)
                &&& forall|k: Seq<char>| #[trigger]
                    old(self).users().contains_key(k) ==> m[k] == old(self).users()[k]
                &&& argon2_accepts(m[request.email@].password_hash@, request.password@)
                &&& fixed_cost_phc(m[request.email@].password_hash@)
                &&& m[request.email@].requires_2fa == request.requires_2fa
            },
            r is Err ==> final(self).users() == old(self).users(),
    {
        let email = match Email::parse(request.email) {
            Ok(e) => e,
            Err(_) => {
                return Err(AuthAPIError::InvalidCredentials);
            },
        };
        let password = match Password::parse(request.password) {
            Ok(p) => p,
            Err(_) => {
                return Err(AuthAPIError::InvalidCredentials);
            },
        };
        match self.user_store.add_user(User::new(email, password, request.requires_2fa)) {
            Ok(()) => {
                let message = "User created successfully!".to_owned();
                Ok(SignupResponse { message })
            },
            Err(UserStoreError::UserAlreadyExists) => Err(AuthAPIError::UserAlreadyExists),
            Err(_) => Err(AuthAPIError::UnexpectedError),
        }
    }

    /// Logs in with raw credentials at time `now`. Without a second factor a
    /// session token is issued; with one, a fresh challenge replaces any
    /// earlier one for the Email and the code goes out in a message. Wrong
    /// credentials and an unknown Email give the same error.
    pub fn login(&mut self, request: LoginRequest, now: u64) -> (r: Result<
        LoginOutcome,
        AuthAPIError,
    >)
        ensures
            final(self).key() == old(self).key(),
            final(self).infallible() == old(self).infallible(),
            final(self).users() == old(self).users(),
            final(self).banned() == old(self).banned(),
            !credentials_match(old(self).users(), request.email@, request.password@) ==> (r
                == Err::<LoginOutcome, AuthAPIError>(AuthAPIError::IncorrectCredentials) || r
                == Err::<LoginOutcome, AuthAPIError>(AuthAPIError::UnexpectedError)),
            r == Err::<LoginOutcome, AuthAPIError>(AuthAPIError::IncorrectCredentials)
                ==> !credentials_match(old(self).users(), request.email@, request.password@),
            old(self).infallible() && !credentials_match(
                old(self).users(),
                request.email@,
                request.password@,
            ) ==> r == Err::<LoginOutcome, AuthAPIError>(AuthAPIError::IncorrectCredentials),
            old(self).infallible() && credentials_match(
                old(self).users(),
                request.email@,
                request.password@,
            ) && (old(self).users()[request.email@].requires_2fa || token_expiry(now) is Some)
                ==> r is Ok,
            r matches Err(e) ==> e == AuthAPIError::IncorrectCredentials || e
                == AuthAPIError::UnexpectedError,
            r is Err ==> final(self).challenges() == old(self).challenges(),
            r is Ok ==> credentials_match(old(self).users(), request.email@, request.password@),
            r matches Ok(out) ==> (out.response is RegularAuth <==> !old(self).users()[request.email@].requires_2fa),
            r matches Ok(out) ==> (out.response is RegularAuth ==> {
                &&& final(self).challenges() == old(self).challenges()
                &&& out.code_message is None
                &&& token_expiry(now) matches Some(exp) && out.session_token matches Some(t) && t@
                    == jwt_signed(claims_json(request.email@, exp), old(self).key()) && token_claims(
                    t@,
                    old(self).key(),
                ) == Some((request.email@, exp))
            }),
            r matches Ok(out) ==> (out.response matches LoginResponse::TwoFactorAuth(resp) ==> {
                let m = final(self).challenges();
                &&& out.session_token is None
                &&& uuid_text(resp.login_attempt_id@) == Some(resp.login_attempt_id@)
                &&& m.dom() == old(self).challenges().dom().insert(request.email@)
                &&& forall|k: Seq<char>|
                    k != request.email@ && #[trigger] old(self).challenges().contains_key(k)
                        ==> m[k] == old(self).challenges()[k]
                &&& m[request.email@].login_attempt_id@ == resp.login_attempt_id@
                &&& is_code_text(m[request.email@].code@)
                &&& m[request.email@].expires_at == challenge_expiry(now)
                &&& out.code_message matches Some(msg) && msg.recipient@ == request.email@
                    && msg.subject@ == code_message_subject() && msg.content@
                    == code_message_prefix() + m[request.email@].code@
            }),
    {
        let user = match self.user_store.authenticate_user(
            request.email.as_str(),
            request.password.as_str(),
        ) {
            Ok(u) => u,
            Err(UserStoreError::UnexpectedError) => {
                return Err(AuthAPIError::UnexpectedError);
            },
            Err(_) => {
                return Err(AuthAPIError::IncorrectCredentials);
            },
        };
        assert(user.email@ == request.email@);
        if !user.requires_2fa {
            let token = match generate_auth_token(&user.email, self.jwt_secret.as_slice(), now) {
                Ok(t) => t,
                Err(_) => {
                    return Err(AuthAPIError::UnexpectedError);
                },
            };
            return Ok(
                LoginOutcome {
                    response: LoginResponse::RegularAuth,
                    session_token: Some(token),
                    code_message: None,
                },
            );
        }
        let login_attempt_id = LoginAttemptId::default();
        let two_fa_code = TwoFACode::default();
        let mut content = "Your 2FA code is: ".to_owned();
        content.append(two_fa_code.as_str());
        let recipient = user.email.as_str().to_owned();
        let id_text = login_attempt_id.as_str().to_owned();
        proof {
            reveal_strlit("Your 2FA code is: ");
            assert("Your 2FA code is: "@ =~= code_message_prefix());
        }
        if self.two_fa_code_store.add_code(user.email, login_attempt_id, two_fa_code, now).is_err() {
            return Err(AuthAPIError::UnexpectedError);
        }
        let subject = "Your 2FA Code".to_owned();
        proof {
            reveal_strlit("Your 2FA Code");
            assert("Your 2FA Code"@ =~= code_message_subject());
        }
        let message = CodeMessage { recipient, subject, content };
        let response = TwoFactorAuthResponse {
            message: "2FA required".to_owned(),
            login_attempt_id: id_text,
        };
        Ok(
            LoginOutcome {
                response: LoginResponse::TwoFactorAuth(response),
                session_token: None,
                code_message: Some(message),
            },
        )
    }

    /// Checks a second factor at time `now`. Only when the live challenge for
    /// the Email has both the submitted attempt id and code is it consumed and
    /// a session token issued; a failed attempt leaves the challenge in place.
    pub fn verify_2fa(&mut self, request: Verify2FARequest, now: u64) -> (r: Result<
        String,
        AuthAPIError,
    >)
        ensures
            final(self).key() == old(self).key(),
            final(self).infallible() == old(self).infallible(),
            final(self).users() == old(self).users(),
            final(self).banned() == old(self).banned(),
            !challenge_answered(old(self).challenges(), request, now) ==> (r
                == Err::<String, AuthAPIError>(AuthAPIError::IncorrectCredentials) || r
                == Err::<String, AuthAPIError>(AuthAPIError::UnexpectedError)),
            r == Err::<String, AuthAPIError>(AuthAPIError::IncorrectCredentials)
                ==> !challenge_answered(old(self).challenges(), request, now) && final(self).challenges() == old(self).challenges(),
            old(self).infallible() && !challenge_answered(old(self).challenges(), request, now)
                ==> r == Err::<String, AuthAPIError>(AuthAPIError::IncorrectCredentials),
            old(self).infallible() && challenge_answered(old(self).challenges(), request, now)
                && token_expiry(now) is Some ==> r is Ok,
            r matches Ok(t) ==> (token_expiry(now) matches Some(exp) && token_claims(
                t@,
                old(self).key(),
            ) == Some((request.email@, exp))),
            r matches Ok(t) ==> challenge_answered(old(self).challenges(), request, now) && final(self).challenges() == old(self).challenges().remove(request.email@) && (token_expiry(now) matches Some(exp)
                && t@ == jwt_signed(claims_json(request.email@, exp), old(self).key())),
    {
        let email = match Email::parse(request.email) {
            Ok(e) => e,
            Err(_) => {
                return Err(AuthAPIError::IncorrectCredentials);
            },
        };
        let (stored_id, stored_code) = match self.two_fa_code_store.get_code(&email, now) {
            Ok(pair) => pair,
            Err(TwoFACodeStoreError::UnexpectedError) => {
                return Err(AuthAPIError::UnexpectedError);
            },
            Err(_) => {
                return Err(AuthAPIError::IncorrectCredentials);
            },
        };
        let id_matches = stored_id.as_str().to_owned() == request.login_attempt_id;
        let code_matches = stored_code.as_str().to_owned() == request.two_fa_code;
        if !id_matches || !code_matches {
            return Err(AuthAPIError::IncorrectCredentials);
        }
        if self.two_fa_code_store.remove_code(&email, now).is_err() {
            return Err(AuthAPIError::UnexpectedError);
        }
        match generate_auth_token(&email, self.jwt_secret.as_slice(), now) {
            Ok(t) => Ok(t),
            Err(_) => Err(AuthAPIError::UnexpectedError),
        }
    }

    /// Ends the session of `token` at time `now`: a token that carries a claim
    /// set and has not expired is banned until its own expiry. Banning is
    /// idempotent: a token already banned gives success as well.
    pub fn logout(&mut self, token: Option<&str>, now: u64) -> (r: Result<(), AuthAPIError>)
        ensures
            final(self).key() == old(self).key(),
            final(self).infallible() == old(self).infallible(),
            final(self).users() == old(self).users(),
            final(self).challenges() == old(self).challenges(),
            r is Err ==> final(self).banned() == old(self).banned(),
            match token {
                None => r == Err::<(), AuthAPIError>(AuthAPIError::MissingToken),
                Some(t) => match token_claims(t@, old(self).key()) {
                    Some((sub, exp)) => if now <= exp {
                        (r is Ok && final(self).banned() == ban_if_absent(
                            old(self).banned(),
                            t@,
                            exp,
                            now,
                        ).0) || (!old(self).infallible() && r == Err::<(), AuthAPIError>(
                            AuthAPIError::UnexpectedError,
                        ))
                    } else {
                        r == Err::<(), AuthAPIError>(AuthAPIError::InvalidToken)
                    },
                    None => r == Err::<(), AuthAPIError>(AuthAPIError::InvalidToken),
                },
            },
    {
        let token = match token {
            Some(t) => t,
            None => {
                return Err(AuthAPIError::MissingToken);
            },
        };
        let claims = match decode_claims(token, self.jwt_secret.as_slice()) {
            Ok(c) => c,
            Err(_) => {
                return Err(AuthAPIError::InvalidToken);
            },
        };
        if claims.exp < now {
            return Err(AuthAPIError::InvalidToken);
        }
        match self.banned_token_store.ban_if_not_present(token, claims.exp, now) {
            Ok(_) => Ok(()),
            Err(_) => Err(AuthAPIError::UnexpectedError),
        }
    }

    /// Whether `request.token` is a valid session token at time `now`: signed
    /// with the secret, not expired and not banned.
    pub fn verify_token(&self, request: &VerifyTokenRequest, now: u64) -> (r: Result<
        (),
        AuthAPIError,
    >)
        ensures
            r != Err::<(), AuthAPIError>(AuthAPIError::UnexpectedError) ==> (r is Ok <==> (
            token_claims(request.token@, self.key()) matches Some((sub, exp)) && now <= exp
                && !banned_at(self.banned(), request.token@, now))),
            r is Err ==> r == Err::<(), AuthAPIError>(AuthAPIError::InvalidToken) || r == Err::<
                (),
                AuthAPIError,
            >(AuthAPIError::UnexpectedError),
            self.infallible() ==> r != Err::<(), AuthAPIError>(AuthAPIError::UnexpectedError),
    {
        match validate_token(
            request.token.as_str(),
            self.jwt_secret.as_slice(),
            &self.banned_token_store,
            now,
        ) {
            Ok(_) => Ok(()),
            Err(TokenError::Unexpected) => Err(AuthAPIError::UnexpectedError),
            Err(_) => Err(AuthAPIError::InvalidToken),
        }
    }
}

} // verus!
