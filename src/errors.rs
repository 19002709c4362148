//! Error kinds shared across the components.
use vstd::prelude::*;

verus! {

/// Caller input that is not a well-formed login attempt id or code. (Emails
/// and passwords report the rule they break: `EmailError`, `PasswordError`.)
#[derive(Debug, Clone, Copy, PartialEq, Eq, Structural)]
pub enum ValidationError {
    LoginAttemptId,
    TwoFACode,
}

} // verus!

verus! {

/// Failures of the credential store.
#[derive(Debug, Clone, Copy, PartialEq, Eq, Structural)]
pub enum UserStoreError {
    UserAlreadyExists,
    UserNotFound,
    InvalidCredentials,
    UnexpectedError,
}

} // verus!

verus! {

/// Failures of the revocation store.
#[derive(Debug, Clone, Copy, PartialEq, Eq, Structural)]
pub enum BannedTokenStoreError {
    UnexpectedError,
}

/// Failures of the challenge store.
#[derive(Debug, Clone, Copy, PartialEq, Eq, Structural)]
pub enum TwoFACodeStoreError {
    LoginAttemptIdNotFound,
    UnexpectedError,
}

} // verus!

verus! {

/// What a flow reports to its caller.
#[derive(Debug, Clone, Copy, PartialEq, Eq, Structural)]
pub enum AuthAPIError {
    UserAlreadyExists,
    InvalidCredentials,
    IncorrectCredentials,
    MissingToken,
    InvalidToken,
    UnexpectedError,
}

} // verus!
