use auth_service::app_state::{
    AppState, LoginRequest, LoginResponse, SignupRequest, Verify2FARequest, VerifyTokenRequest,
};
use auth_service::banned_store::{BannedTokenStore, HashsetBannedTokenStore};
use auth_service::code_store::{HashmapTwoFACodeStore, TwoFACodeStore};
use auth_service::email::Email;
use auth_service::errors::AuthAPIError;
use auth_service::token::now_seconds;
use auth_service::two_factor::{LoginAttemptId, TwoFACode};
use auth_service::user_store::HashmapUserStore;

type App = AppState<HashmapUserStore, HashsetBannedTokenStore, HashmapTwoFACodeStore>;

fn app() -> App {
    AppState::new(
        HashmapUserStore::default(),
        HashsetBannedTokenStore::default(),
        HashmapTwoFACodeStore::default(),
        b"flow-secret".to_vec(),
    )
}

fn signup(app: &mut App, email: &str, password: &str, requires_2fa: bool) -> Result<String, AuthAPIError> {
    app.signup(SignupRequest {
        email: email.to_string(),
        password: password.to_string(),
        requires_2fa,
    })
    .map(|r| r.message)
}

fn login_token(app: &mut App, email: &str, password: &str) -> String {
    let outcome = app
        .login(
            LoginRequest { email: email.to_string(), password: password.to_string() },
            now_seconds(),
        )
        .unwrap();
    assert!(matches!(outcome.response, LoginResponse::RegularAuth));
    outcome.session_token.expect("No auth cookie found")
}

fn verify(app: &App, token: &str) -> Result<(), AuthAPIError> {
    app.verify_token(&VerifyTokenRequest { token: token.to_string() }, now_seconds())
}

#[test]
fn should_return_201_if_valid_input() {
    let mut app = app();
    assert_eq!(
        signup(&mut app, "new@example.com", "Password123!", true),
        Ok("User created successfully!".to_string())
    );
}

#[test]
fn should_return_400_if_invalid_input() {
    let mut app = app();
    let inputs = [
        ("not-an-email", "Password123!"),
        ("random@example.com", "123"),
        ("", "Password123!"),
        ("random@example.com", ""),
    ];
    for (email, password) in inputs {
        assert_eq!(
            signup(&mut app, email, password, true),
            Err(AuthAPIError::InvalidCredentials),
            "Failed for input: {:?}",
            (email, password)
        );
    }
}

#[test]
fn should_return_409_if_email_already_exists() {
    let mut app = app();
    assert!(signup(&mut app, "taken@example.com", "Password123!", false).is_ok());
    assert_eq!(
        signup(&mut app, "taken@example.com", "Password123!", false),
        Err(AuthAPIError::UserAlreadyExists)
    );
}

#[test]
fn should_return_400_if_user_does_not_exist() {
    let mut app = app();
    let result = app.login(
        LoginRequest {
            email: "nonexistent@example.com".to_string(),
            password: "somepassword".to_string(),
        },
        now_seconds(),
    );
    assert!(matches!(result, Err(AuthAPIError::IncorrectCredentials)));
}

#[test]
fn login_with_unknown_well_formed_credentials_is_incorrect() {
    let mut app = app();
    let result = app.login(
        LoginRequest {
            email: "nobody@example.com".to_string(),
            password: "Password123!".to_string(),
        },
        now_seconds(),
    );
    assert!(matches!(result, Err(AuthAPIError::IncorrectCredentials)));
}

#[test]
fn login_should_return_401_if_incorrect_credentials() {
    let mut app = app();
    signup(&mut app, "test@example.com", "Password123!", false).unwrap();
    let result = app.login(
        LoginRequest {
            email: "test@example.com".to_string(),
            password: "!Password123".to_string(),
        },
        now_seconds(),
    );
    assert!(matches!(result, Err(AuthAPIError::IncorrectCredentials)));
}

#[test]
fn should_return_200_if_valid_credentials_and_2fa_disabled() {
    let mut app = app();
    signup(&mut app, "a@b.co", "Password123!", false).unwrap();
    let token = login_token(&mut app, "a@b.co", "Password123!");
    assert!(!token.is_empty());
}

#[test]
fn session_lifecycle_without_second_factor() {
    let mut app = app();
    signup(&mut app, "a@b.co", "Password123!", false).unwrap();
    let token = login_token(&mut app, "a@b.co", "Password123!");
    assert_eq!(verify(&app, &token), Ok(()));
    assert_eq!(app.logout(Some(&token), now_seconds()), Ok(()));
    assert_eq!(verify(&app, &token), Err(AuthAPIError::InvalidToken));
}

#[test]
fn should_return_200_and_ban_jwt_token_if_valid_jwt_cookie() {
    let mut app = app();
    signup(&mut app, "ban@example.com", "Password123!", false).unwrap();
    let jwt_token = login_token(&mut app, "ban@example.com", "Password123!");
    assert_eq!(app.logout(Some(&jwt_token), now_seconds()), Ok(()));
    let is_banned = app
        .banned_token_store()
        .is_token_banned(&jwt_token, now_seconds())
        .expect("Failed to check banned token");
    assert!(is_banned, "JWT should be banned after logout");
}

#[test]
fn should_return_400_if_logout_called_twice_in_a_row() {
    let mut app = app();
    signup(&mut app, "twice@example.com", "Password123!", false).unwrap();
    let token = login_token(&mut app, "twice@example.com", "Password123!");
    // The credential is cleared on the first logout, so the second call has none.
    let mut credential = Some(token);
    assert_eq!(app.logout(credential.as_deref(), now_seconds()), Ok(()));
    credential = None;
    assert_eq!(
        app.logout(credential.as_deref(), now_seconds()),
        Err(AuthAPIError::MissingToken)
    );
}

#[test]
fn logout_with_same_credential_again_is_idempotent() {
    let mut app = app();
    signup(&mut app, "again@example.com", "Password123!", false).unwrap();
    let token = login_token(&mut app, "again@example.com", "Password123!");
    assert_eq!(app.logout(Some(&token), now_seconds()), Ok(()));
    assert_eq!(app.logout(Some(&token), now_seconds()), Ok(()));
}

#[test]
fn should_return_400_if_jwt_cookie_missing() {
    let mut app = app();
    assert_eq!(app.logout(None, now_seconds()), Err(AuthAPIError::MissingToken));
}

#[test]
fn logout_should_return_401_if_invalid_token() {
    let mut app = app();
    assert_eq!(app.logout(Some("invalid"), now_seconds()), Err(AuthAPIError::InvalidToken));
}

#[test]
fn verify_token_should_return_401_if_invalid_token() {
    let app = app();
    for token in ["invalid_token", "expired.jwt.token", "malformed.jwt"] {
        assert_eq!(verify(&app, token), Err(AuthAPIError::InvalidToken));
    }
}

#[test]
fn should_return_200_valid_token() {
    let mut app = app();
    signup(&mut app, "valid@example.com", "Password123!", false).unwrap();
    let token = login_token(&mut app, "valid@example.com", "Password123!");
    assert_eq!(verify(&app, &token), Ok(()));
}

#[test]
fn should_return_401_if_banned_token() {
    let mut app = app();
    signup(&mut app, "banned@example.com", "Password123!", false).unwrap();
    let token = login_token(&mut app, "banned@example.com", "Password123!");
    app.logout(Some(&token), now_seconds()).unwrap();
    assert_eq!(verify(&app, &token), Err(AuthAPIError::InvalidToken));
}

#[test]
fn verify_2fa_should_return_401_if_incorrect_credentials() {
    let mut app = app();
    let login_attempt_id = LoginAttemptId::default();
    let result = app.verify_2fa(
        Verify2FARequest {
            email: "user@example.com".to_string(),
            login_attempt_id: login_attempt_id.as_str().to_string(),
            two_fa_code: "wrong-code".to_string(),
        },
        now_seconds(),
    );
    assert_eq!(result, Err(AuthAPIError::IncorrectCredentials));
}

#[test]
fn should_return_401_if_user_does_not_exist() {
    let mut app = app();
    let login_attempt_id = LoginAttemptId::default();
    let result = app.verify_2fa(
        Verify2FARequest {
            email: "user@example.com".to_string(),
            login_attempt_id: login_attempt_id.as_str().to_string(),
            two_fa_code: "123456".to_string(),
        },
        now_seconds(),
    );
    assert_eq!(result, Err(AuthAPIError::IncorrectCredentials));
}

#[test]
fn should_return_200_if_correct_code() {
    let now = now_seconds();
    let parsed_email = Email::parse("correct@example.com".to_string()).expect("Invalid email");
    let login_attempt_id = LoginAttemptId::default();
    let two_fa_code = TwoFACode::default();
    let mut codes = HashmapTwoFACodeStore::default();
    codes
        .add_code(parsed_email.clone(), login_attempt_id.clone(), two_fa_code.clone(), now)
        .expect("Failed to store two_fa_code");
    let mut app = AppState::new(
        HashmapUserStore::default(),
        HashsetBannedTokenStore::default(),
        codes,
        b"flow-secret".to_vec(),
    );
    let token = app
        .verify_2fa(
            Verify2FARequest {
                email: parsed_email.as_str().to_string(),
                login_attempt_id: login_attempt_id.as_str().to_string(),
                two_fa_code: two_fa_code.as_str().to_string(),
            },
            now,
        )
        .unwrap();
    assert_eq!(token.split('.').count(), 3);
    assert_eq!(verify(&app, &token), Ok(()));
}

#[test]
fn session_lifecycle_with_second_factor() {
    let mut app = app();
    signup(&mut app, "two@example.com", "Password123!", true).unwrap();
    let now = now_seconds();
    let outcome = app
        .login(
            LoginRequest {
                email: "two@example.com".to_string(),
                password: "Password123!".to_string(),
            },
            now,
        )
        .unwrap();
    assert!(outcome.session_token.is_none());
    let attempt_id = match outcome.response {
        LoginResponse::TwoFactorAuth(resp) => {
            assert_eq!(resp.message, "2FA required");
            resp.login_attempt_id
        }
        LoginResponse::RegularAuth => panic!("expected a second factor"),
    };
    let email = Email::parse("two@example.com".to_string()).unwrap();
    let (stored_id, code) = app.two_fa_code_store().get_code(&email, now).unwrap();
    assert_eq!(stored_id.as_str(), attempt_id);
    let message = outcome.code_message.expect("a code message");
    assert_eq!(message.recipient, "two@example.com");
    assert_eq!(message.subject, "Your 2FA Code");
    assert_eq!(message.content, format!("Your 2FA code is: {}", code.as_str()));

    let wrong = if code.as_str() == "000000" { "000001" } else { "000000" };
    let result = app.verify_2fa(
        Verify2FARequest {
            email: "two@example.com".to_string(),
            login_attempt_id: attempt_id.clone(),
            two_fa_code: wrong.to_string(),
        },
        now,
    );
    assert_eq!(result, Err(AuthAPIError::IncorrectCredentials));
    assert!(app.two_fa_code_store().get_code(&email, now).is_ok());

    let token = app
        .verify_2fa(
            Verify2FARequest {
                email: "two@example.com".to_string(),
                login_attempt_id: attempt_id.clone(),
                two_fa_code: code.as_str().to_string(),
            },
            now,
        )
        .unwrap();
    assert_eq!(verify(&app, &token), Ok(()));
    assert!(app.two_fa_code_store().get_code(&email, now).is_err());

    let replay = app.verify_2fa(
        Verify2FARequest {
            email: "two@example.com".to_string(),
            login_attempt_id: attempt_id,
            two_fa_code: code.as_str().to_string(),
        },
        now,
    );
    assert_eq!(replay, Err(AuthAPIError::IncorrectCredentials));
}

#[test]
fn second_login_replaces_the_challenge() {
    let mut app = app();
    signup(&mut app, "re@example.com", "Password123!", true).unwrap();
    let now = now_seconds();
    let request = || LoginRequest {
        email: "re@example.com".to_string(),
        password: "Password123!".to_string(),
    };
    app.login(request(), now).unwrap();
    let second = app.login(request(), now).unwrap();
    let email = Email::parse("re@example.com".to_string()).unwrap();
    let (stored_id, _) = app.two_fa_code_store().get_code(&email, now).unwrap();
    match second.response {
        LoginResponse::TwoFactorAuth(resp) => assert_eq!(stored_id.as_str(), resp.login_attempt_id),
        LoginResponse::RegularAuth => panic!("expected a second factor"),
    }
}
