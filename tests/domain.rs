use auth_service::email::{Email, EmailError};
use auth_service::errors::ValidationError;
use auth_service::password::{Password, PasswordError};
use auth_service::two_factor::{LoginAttemptId, TwoFACode};

fn next_random(state: &mut u64) -> u64 {
    *state = state.wrapping_mul(6364136223846793005).wrapping_add(1442695040888963407);
    *state >> 33
}

#[test]
fn test_generated_safe_emails_are_valid() {
    let mut state: u64 = 7;
    let domains = ["example.com", "example.org", "example.net"];
    for _ in 0..100 {
        let n = next_random(&mut state);
        let email = format!("user{}@{}", n % 100000, domains[(n % 3) as usize]);
        assert!(
            Email::parse(email.clone()).is_ok(),
            "Generated safe email should be valid: {}",
            email
        );
    }
}

#[test]
fn test_random_strings_mostly_invalid() {
    let mut state: u64 = 11;
    let valid_count = (0..1000)
        .map(|_| {
            let len = 3 + next_random(&mut state) % 8;
            (0..len)
                .map(|_| (b'a' + (next_random(&mut state) % 26) as u8) as char)
                .collect::<String>()
        })
        .filter(|s| Email::parse(s.clone()).is_ok())
        .count();
    assert!(
        valid_count < 100,
        "Too many random strings were valid emails: {}/1000",
        valid_count
    );
}

#[test]
fn test_known_valid_examples() {
    let valid_emails = vec![
        "user@example.com",
        "test.email@domain.org",
        "user123@test-domain.co.uk",
        "a@b.c",
    ];
    for email in valid_emails {
        assert!(
            Email::parse(email.to_string()).is_ok(),
            "Expected {} to be valid",
            email
        );
    }
}

#[test]
fn test_email_access() {
    let email = Email::parse("test@example.com".to_string()).unwrap();
    assert_eq!(email.as_str(), "test@example.com");
}

#[test]
fn email_errors_name_the_broken_rule() {
    let cases = [
        ("", EmailError::Empty),
        ("userexample.com", EmailError::MissingAt),
        ("a@b@c.com", EmailError::MultipleAt),
        ("@example.com", EmailError::EmptyLocalPart),
        ("user@", EmailError::EmptyDomain),
        ("user@localhost", EmailError::DomainWithoutDot),
        (".user@example.com", EmailError::LeadingDot),
        ("user@.example.com", EmailError::LeadingDot),
        ("user.@example.com", EmailError::TrailingDot),
        ("user@example.com.", EmailError::TrailingDot),
        ("us..er@example.com", EmailError::ConsecutiveDots),
        ("user@example..com", EmailError::ConsecutiveDots),
    ];
    for (input, expected) in cases {
        match Email::parse(input.to_string()) {
            Err(e) => assert_eq!(e, expected, "input {:?}", input),
            Ok(_) => panic!("{:?} should be refused", input),
        }
    }
}

#[test]
fn email_rules_do_not_restrict_characters() {
    for input in ["a b@c.de", "a\"b@c.de", "x\\y@exa_mple.com", "tab\there@c.de"] {
        let email = Email::parse(input.to_string()).unwrap();
        assert_eq!(email.as_str(), input);
    }
}

#[test]
fn email_parse_is_idempotent() {
    let email = Email::parse("a@b.co".to_string()).unwrap();
    let again = Email::parse(email.as_str().to_string()).unwrap();
    assert!(email == again);
    assert_eq!(again.as_str(), "a@b.co");
}

#[test]
fn test_fake_short_passwords_fail() {
    let mut state: u64 = 3;
    for _ in 0..50 {
        let len = 1 + next_random(&mut state) % 7;
        let fake_password: String = (0..len)
            .map(|i| match i % 4 {
                0 => 'A',
                1 => 'b',
                2 => '7',
                _ => '!',
            })
            .collect();
        assert!(Password::parse(fake_password).is_err());
    }
}

#[test]
fn test_empty_password_fails() {
    assert!(Password::parse(String::new()).is_err());
}

#[test]
fn test_known_valid_password() {
    assert!(Password::parse("Password123!".to_string()).is_ok());
}

#[test]
fn password_errors_name_the_broken_rule() {
    let cases = [
        ("", PasswordError::Empty),
        ("Pa1!", PasswordError::TooShort),
        ("password123!", PasswordError::MissingUppercase),
        ("PASSWORD123!", PasswordError::MissingLowercase),
        ("Password!!!!", PasswordError::MissingDigit),
        ("Password1234", PasswordError::MissingSymbol),
    ];
    for (input, expected) in cases {
        match Password::parse(input.to_string()) {
            Err(e) => assert_eq!(e, expected, "input {:?}", input),
            Ok(_) => panic!("{:?} should be refused", input),
        }
    }
}

#[test]
fn password_length_counts_bytes() {
    // Seven characters, eight bytes in UTF-8.
    assert!(Password::parse("Éa1!bcd".to_string()).is_ok());
    assert_eq!(
        Password::parse("Ab1!cde".to_string()).err(),
        Some(PasswordError::TooShort)
    );
}

#[test]
fn password_exposes_its_text() {
    let p = Password::parse("Password123!".to_string()).unwrap();
    assert_eq!(p.expose_secret(), "Password123!");
}

#[test]
fn two_fa_code_parse_accepts_six_digits_only() {
    assert_eq!(TwoFACode::parse("123456").unwrap().as_str(), "123456");
    for bad in ["12345", "1234567", "12a456", "", "wrong-code", "１２３４５６"] {
        assert_eq!(TwoFACode::parse(bad).err(), Some(ValidationError::TwoFACode), "{:?}", bad);
    }
}

#[test]
fn two_fa_code_from_number_pads_with_zeros() {
    assert_eq!(TwoFACode::from_number(42).as_str(), "000042");
    assert_eq!(TwoFACode::from_number(0).as_str(), "000000");
    assert_eq!(TwoFACode::from_number(999999).as_str(), "999999");
}

#[test]
fn two_fa_code_default_is_six_digits() {
    for _ in 0..20 {
        let code = TwoFACode::default();
        assert_eq!(code.as_str().len(), 6);
        assert!(code.as_str().chars().all(|c| c.is_ascii_digit()));
    }
}

#[test]
fn login_attempt_id_parse_canonicalizes() {
    let id = LoginAttemptId::parse("67E55044-10B1-426F-9247-BB680E5FE0C8").unwrap();
    assert_eq!(id.as_str(), "67e55044-10b1-426f-9247-bb680e5fe0c8");
    let again = LoginAttemptId::parse(id.as_str()).unwrap();
    assert!(again == id);
    assert_eq!(
        LoginAttemptId::parse("not-a-uuid").err(),
        Some(ValidationError::LoginAttemptId)
    );
}

#[test]
fn login_attempt_ids_are_fresh() {
    let a = LoginAttemptId::default();
    let b = LoginAttemptId::default();
    assert!(a != b);
    assert!(LoginAttemptId::parse(a.as_str()).is_ok());
}
