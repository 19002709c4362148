use auth_service::banned_store::{get_key, BannedTokenStore, HashsetBannedTokenStore};
use auth_service::email::Email;
use auth_service::errors::{TwoFACodeStoreError, UserStoreError};
use auth_service::hasher::{fresh_salt, hash_password, verify_password};
use auth_service::password::Password;
use auth_service::two_factor::{LoginAttemptId, TwoFACode};
use auth_service::user::User;
use auth_service::user_store::{HashmapUserStore, UserStore};
use auth_service::code_store::{HashmapTwoFACodeStore, TwoFACodeStore, CHALLENGE_TTL_SECONDS};

const NOW: u64 = 1_700_000_000;

fn email(s: &str) -> Email {
    Email::parse(s.to_string()).unwrap()
}

fn password(s: &str) -> Password {
    Password::parse(s.to_string()).unwrap()
}

#[test]
fn hashmap_user_store_test_add_user() {
    let mut user_store = HashmapUserStore::default();
    let user = User::new(email("test@example.com"), password("Password123!"), true);
    assert!(user_store.add_user(user).is_ok());
}

#[test]
fn hashmap_user_store_test_get_user() {
    let mut user_store = HashmapUserStore::default();
    let user = User::new(email("test@example.com"), password("Password123!"), true);
    user_store.add_user(user).unwrap();
    let stored = user_store.get_user(&email("test@example.com")).unwrap();
    assert_eq!(stored.email.as_str(), "test@example.com");
    assert!(stored.requires_2fa);
    assert!(stored.password_hash.as_str().starts_with("$argon2id$"));
    assert!(!stored.password_hash.as_str().contains("Password123!"));
}

#[test]
fn hashmap_user_store_test_validate_user() {
    let mut user_store = HashmapUserStore::default();
    let user = User::new(email("test@example.com"), password("Password123!"), true);
    user_store.add_user(user).unwrap();
    assert_eq!(
        user_store.validate_user(&email("test@example.com"), &password("Password123!")),
        Ok(())
    );
    assert_eq!(
        user_store.validate_user(&email("test@example.com"), &password("WrongPassword123!")),
        Err(UserStoreError::InvalidCredentials)
    );
}

#[test]
fn hashmap_user_store_test_add_duplicate_user() {
    let mut user_store = HashmapUserStore::default();
    let user = User::new(email("test@example.com"), password("Password123!"), true);
    assert!(user_store.add_user(user).is_ok());
    let again = User::new(email("test@example.com"), password("Password123!"), true);
    assert_eq!(user_store.add_user(again), Err(UserStoreError::UserAlreadyExists));
}

#[test]
fn hashmap_user_store_test_get_nonexistent_user() {
    let user_store = HashmapUserStore::default();
    assert!(matches!(
        user_store.get_user(&email("nonexistent@example.com")),
        Err(UserStoreError::UserNotFound)
    ));
}

#[test]
fn authenticate_user_reports_each_failure() {
    let mut user_store = HashmapUserStore::default();
    let user = User::new(email("test@example.com"), password("Password123!"), false);
    user_store.add_user(user).unwrap();
    let ok = user_store.authenticate_user("test@example.com", "Password123!").unwrap();
    assert_eq!(ok.email.as_str(), "test@example.com");
    assert!(!ok.requires_2fa);
    assert!(matches!(
        user_store.authenticate_user("test@example.com", "!Password123"),
        Err(UserStoreError::InvalidCredentials)
    ));
    assert!(matches!(
        user_store.authenticate_user("other@example.com", "Password123!"),
        Err(UserStoreError::UserNotFound)
    ));
    assert!(matches!(
        user_store.authenticate_user("not-an-email", "Password123!"),
        Err(UserStoreError::InvalidCredentials)
    ));
    assert!(matches!(
        user_store.authenticate_user("test@example.com", "short"),
        Err(UserStoreError::InvalidCredentials)
    ));
}

#[test]
fn hash_then_verify() {
    let hash = hash_password(&password("Password123!"), &fresh_salt()).unwrap();
    let text = hash.as_str();
    let prefix = "$argon2id$v=19$m=15000,t=2,p=1$";
    assert!(text.starts_with(prefix));
    assert_eq!(text.len(), prefix.len() + 22 + 1 + 43);
    assert_eq!(&text[prefix.len() + 22..prefix.len() + 23], "$");
    assert!(verify_password(&hash, "Password123!").is_ok());
    assert!(verify_password(&hash, "Password123?").is_err());
    let other = hash_password(&password("Password123!"), &fresh_salt()).unwrap();
    assert_ne!(hash.as_str(), other.as_str());
}

#[test]
fn hash_records_the_given_salt() {
    let salt = [7u8; 16];
    let h1 = hash_password(&password("Password123!"), &salt).unwrap();
    let h2 = hash_password(&password("Password123!"), &salt).unwrap();
    assert_eq!(h1.as_str(), h2.as_str());
    let mut other = salt;
    other[0] = 8;
    let h3 = hash_password(&password("Password123!"), &other).unwrap();
    assert_ne!(h1.as_str(), h3.as_str());
    assert!(hash_password(&password("Password123!"), &[1u8; 8]).is_err());
}

#[test]
fn verify_against_malformed_hash_is_a_mismatch() {
    let hash = auth_service::hasher::PasswordHash::from_stored("not a hash".to_string());
    assert!(verify_password(&hash, "Password123!").is_err());
}

#[test]
fn test_add_banned_token() {
    let mut store = HashsetBannedTokenStore::default();
    assert!(store.add_banned_token("token123", NOW + 600).is_ok());
}

#[test]
fn test_is_token_banned() {
    let mut store = HashsetBannedTokenStore::default();
    let token = "token123";
    assert!(!store.is_token_banned(token, NOW).unwrap());
    store.add_banned_token(token, NOW + 600).unwrap();
    assert!(store.is_token_banned(token, NOW).unwrap());
}

#[test]
fn test_add_duplicate_token_is_idempotent() {
    let mut store = HashsetBannedTokenStore::default();
    let token = "token123";
    store.add_banned_token(token, NOW + 600).unwrap();
    store.add_banned_token(token, NOW + 600).unwrap();
    assert!(store.is_token_banned(token, NOW).unwrap());
}

#[test]
fn ban_if_not_present_reports_only_the_first_ban() {
    let mut store = HashsetBannedTokenStore::default();
    assert_eq!(store.ban_if_not_present("token123", NOW + 600, NOW), Ok(true));
    assert_eq!(store.ban_if_not_present("token123", NOW + 600, NOW), Ok(false));
    assert_eq!(store.is_token_banned("token123", NOW), Ok(true));
    assert_eq!(store.is_token_banned("token456", NOW), Ok(false));
}

#[test]
fn ban_lapses_with_the_token() {
    let mut store = HashsetBannedTokenStore::default();
    store.add_banned_token("token123", NOW + 600).unwrap();
    assert_eq!(store.is_token_banned("token123", NOW + 600), Ok(true));
    assert_eq!(store.is_token_banned("token123", NOW + 601), Ok(false));
}

#[test]
fn banned_token_key_has_prefix() {
    assert_eq!(get_key("abc"), "banned_token:abc");
}

#[test]
fn add_and_get_code_works() {
    let mut store = HashmapTwoFACodeStore::default();
    let email = email("user@example.com");
    let attempt = LoginAttemptId::default();
    let code = TwoFACode::default();
    store
        .add_code(email.clone(), attempt.clone(), code.clone(), NOW)
        .unwrap();
    let (got_attempt, got_code) = store.get_code(&email, NOW).unwrap();
    assert_eq!(got_attempt, attempt);
    assert_eq!(got_code, code);
}

#[test]
fn remove_code_deletes_entry() {
    let mut store = HashmapTwoFACodeStore::default();
    let email = email("user@example.com");
    store
        .add_code(email.clone(), LoginAttemptId::default(), TwoFACode::default(), NOW)
        .unwrap();
    store.remove_code(&email, NOW).unwrap();
    let err = store.get_code(&email, NOW).unwrap_err();
    assert!(matches!(err, TwoFACodeStoreError::LoginAttemptIdNotFound));
}

#[test]
fn remove_code_missing_returns_not_found() {
    let mut store = HashmapTwoFACodeStore::default();
    let email = email("missing@example.com");
    let err = store.remove_code(&email, NOW).unwrap_err();
    assert!(matches!(err, TwoFACodeStoreError::LoginAttemptIdNotFound));
}

#[test]
fn get_code_missing_returns_not_found() {
    let store = HashmapTwoFACodeStore::default();
    let email = email("missing@example.com");
    let err = store.get_code(&email, NOW).unwrap_err();
    assert!(matches!(err, TwoFACodeStoreError::LoginAttemptIdNotFound));
}

#[test]
fn add_code_overwrites_existing() {
    let mut store = HashmapTwoFACodeStore::default();
    let email = email("user@example.com");
    let attempt1 = LoginAttemptId::default();
    let code1 = TwoFACode::default();
    store
        .add_code(email.clone(), attempt1.clone(), code1.clone(), NOW)
        .unwrap();
    let attempt2 = LoginAttemptId::default();
    let code2 = TwoFACode::default();
    store
        .add_code(email.clone(), attempt2.clone(), code2.clone(), NOW)
        .unwrap();
    let (got_attempt, got_code) = store.get_code(&email, NOW).unwrap();
    assert_eq!(got_attempt, attempt2);
    assert_eq!(got_code, code2);
}

#[test]
fn challenge_expires_after_ttl() {
    let mut store = HashmapTwoFACodeStore::default();
    let email = email("user@example.com");
    store
        .add_code(email.clone(), LoginAttemptId::default(), TwoFACode::default(), NOW)
        .unwrap();
    assert!(store.get_code(&email, NOW + CHALLENGE_TTL_SECONDS - 1).is_ok());
    assert_eq!(
        store.get_code(&email, NOW + CHALLENGE_TTL_SECONDS).err(),
        Some(TwoFACodeStoreError::LoginAttemptIdNotFound)
    );
}

#[test]
fn removing_an_expired_challenge_is_not_found() {
    let mut store = HashmapTwoFACodeStore::default();
    let email = email("user@example.com");
    store
        .add_code(email.clone(), LoginAttemptId::default(), TwoFACode::default(), NOW)
        .unwrap();
    assert_eq!(
        store.remove_code(&email, NOW + CHALLENGE_TTL_SECONDS),
        Err(TwoFACodeStoreError::LoginAttemptIdNotFound)
    );
    assert!(store.remove_code(&email, NOW + 1).is_ok());
    assert!(store.get_code(&email, NOW + 1).is_err());
}
