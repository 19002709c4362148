//! Credential and session lifecycle engine of an authentication service:
//! validated domain values, password hashing, credential, revocation and
//! one-time-code stores, session tokens, and the flows that compose them.

pub mod text;
pub mod email;
pub mod password;
pub mod errors;
pub mod two_factor;
pub mod hasher;
pub mod user;
pub mod user_store;
pub mod banned_store;
pub mod code_store;
pub mod token;
pub mod app_state;
pub mod json_text;
