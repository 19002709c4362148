use auth_service::banned_store::{BannedTokenStore, HashsetBannedTokenStore};
use auth_service::email::Email;
use auth_service::token::{
    claims_text, decode_claims, generate_auth_token, now_seconds, parse_claims_text,
    validate_token, Claims, GenerateTokenError, TokenError, TOKEN_TTL_SECONDS,
};

const KEY: &[u8] = b"test-secret";

fn email(s: &str) -> Email {
    Email::parse(s.to_string()).unwrap()
}

#[test]
fn test_generate_auth_token() {
    let result = generate_auth_token(&email("test@example.com"), KEY, now_seconds()).unwrap();
    assert_eq!(result.split('.').count(), 3);
}

#[test]
fn test_decode_claims_with_valid_token() {
    let now = now_seconds();
    let token = generate_auth_token(&email("test@example.com"), KEY, now).unwrap();
    let claims = decode_claims(&token, KEY).expect("should decode claims");
    assert_eq!(claims.sub, "test@example.com");
    assert!(claims.exp > now);
    assert_eq!(claims.exp, now + TOKEN_TTL_SECONDS);
}

#[test]
fn test_validate_token_with_valid_token() {
    let now = now_seconds();
    let token = generate_auth_token(&email("test@example.com"), KEY, now).unwrap();
    let banned_store = HashsetBannedTokenStore::default();
    let res = validate_token(&token, KEY, &banned_store, now);
    assert!(res.is_ok(), "expected token to validate, got: {:?}", res.as_ref().err());
    let result = res.unwrap();
    assert_eq!(result.sub, "test@example.com");
    assert!(result.exp > now + 9 * 60);
}

#[test]
fn test_validate_token_with_invalid_token() {
    let banned_store = HashsetBannedTokenStore::default();
    let result = validate_token("invalid_token", KEY, &banned_store, now_seconds());
    assert!(result.is_err());
    assert_eq!(result.err(), Some(TokenError::BadSignature));
}

#[test]
fn test_validate_token_with_banned_token() {
    let now = now_seconds();
    let token = generate_auth_token(&email("test@example.com"), KEY, now).unwrap();
    let mut banned_store = HashsetBannedTokenStore::default();
    banned_store.add_banned_token(&token, now + TOKEN_TTL_SECONDS).unwrap();
    let result = validate_token(&token, KEY, &banned_store, now);
    assert!(result.is_err());
    assert_eq!(result.err(), Some(TokenError::Revoked));
}

#[test]
fn test_banned_token_isolation() {
    let now = now_seconds();
    let token1 = generate_auth_token(&email("one@example.com"), KEY, now).unwrap();
    let token2 = generate_auth_token(&email("two@example.com"), KEY, now).unwrap();
    let mut banned_store = HashsetBannedTokenStore::default();
    banned_store.add_banned_token(&token1, now + TOKEN_TTL_SECONDS).unwrap();
    let res1 = validate_token(&token1, KEY, &banned_store, now);
    assert!(res1.is_err(), "banned token should not validate");
    let res2 = validate_token(&token2, KEY, &banned_store, now);
    assert!(res2.is_ok(), "non-banned token should validate");
}

#[test]
fn expired_token_is_refused() {
    let now = 1_700_000_000;
    let token = generate_auth_token(&email("test@example.com"), KEY, now).unwrap();
    let store = HashsetBannedTokenStore::default();
    assert!(validate_token(&token, KEY, &store, now + TOKEN_TTL_SECONDS).is_ok());
    assert_eq!(
        validate_token(&token, KEY, &store, now + TOKEN_TTL_SECONDS + 1).err(),
        Some(TokenError::Expired)
    );
}

#[test]
fn token_signed_with_other_key_is_refused() {
    let now = now_seconds();
    let token = generate_auth_token(&email("test@example.com"), b"other-secret", now).unwrap();
    assert_eq!(decode_claims(&token, KEY).err(), Some(TokenError::BadSignature));
}

#[test]
fn token_issue_at_end_of_clock_fails() {
    let result = generate_auth_token(&email("test@example.com"), KEY, u64::MAX - 10);
    assert!(matches!(result, Err(GenerateTokenError::UnexpectedError)));
}

#[test]
fn claims_text_is_compact_json() {
    assert_eq!(claims_text("a@b.co", 1234), "{\"exp\":1234,\"sub\":\"a@b.co\"}");
    assert_eq!(claims_text("x@y.z", 0), "{\"exp\":0,\"sub\":\"x@y.z\"}");
}

#[test]
fn claims_text_round_trips() {
    let text = claims_text("a@b.co", 18446744073709551615);
    assert_eq!(
        parse_claims_text(&text),
        Some(Claims { sub: "a@b.co".to_string(), exp: 18446744073709551615 })
    );
    assert_eq!(parse_claims_text("{\"exp\":0123,\"sub\":\"a@b.co\"}"), None);
    assert_eq!(parse_claims_text("{\"exp\":18446744073709551616,\"sub\":\"a\"}"), None);
    assert_eq!(parse_claims_text("{\"sub\":\"a@b.co\",\"exp\":12}"), None);
    assert_eq!(parse_claims_text(""), None);
}

#[test]
fn claims_text_escapes_the_subject() {
    assert_eq!(
        claims_text("a\"b\\c\n\u{1}@d.ef", 5),
        "{\"exp\":5,\"sub\":\"a\\\"b\\\\c\\n\\u0001@d.ef\"}"
    );
    let text = claims_text("a\"b\\c\t\u{1f}@d.ef", 7);
    assert_eq!(
        parse_claims_text(&text),
        Some(Claims { sub: "a\"b\\c\t\u{1f}@d.ef".to_string(), exp: 7 })
    );
}

#[test]
fn token_for_email_with_special_characters_round_trips() {
    let now = now_seconds();
    for address in ["a\"b@c.de", "x\\y@c.de", "tab\there@c.de", "a b@c.de"] {
        let token = generate_auth_token(&email(address), KEY, now).unwrap();
        let claims = decode_claims(&token, KEY).unwrap();
        assert_eq!(claims.sub, address);
        assert_eq!(claims.exp, now + TOKEN_TTL_SECONDS);
    }
}
