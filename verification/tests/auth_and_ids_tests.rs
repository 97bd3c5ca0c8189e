use quiz_core::auth::{hash_password, otp_approved, validate_jwt, verify_password};
use quiz_core::errors::{AuthError, QuizError};
use quiz_core::ids::{oid_to_hex, parse_oid, token_to_hex};
use quiz_core::model::Role;
use quiz_core::store::Store;

#[test]
fn parse_oid_accepts_24_hex_digits() {
    assert_eq!(parse_oid("000000000000000000000000"), Ok(0));
    assert_eq!(parse_oid("000000000000000000000001"), Ok(1));
    assert_eq!(parse_oid("0000000000000000000000ff"), Ok(255));
    assert_eq!(parse_oid("0000000000000000000000FF"), Ok(255));
    assert_eq!(
        parse_oid("ffffffffffffffffffffffff"),
        Ok((1u128 << 96) - 1)
    );
    assert_eq!(parse_oid("507f1f77bcf86cd799439011"), Ok(0x507f1f77bcf86cd799439011));
}

#[test]
fn parse_oid_rejects_malformed_input() {
    assert_eq!(parse_oid(""), Err(QuizError::InvalidReference));
    assert_eq!(parse_oid("abc"), Err(QuizError::InvalidReference));
    assert_eq!(
        parse_oid("00000000000000000000000"),
        Err(QuizError::InvalidReference)
    );
    assert_eq!(
        parse_oid("0000000000000000000000000"),
        Err(QuizError::InvalidReference)
    );
    assert_eq!(
        parse_oid("00000000000000000000000g"),
        Err(QuizError::InvalidReference)
    );
    assert_eq!(
        parse_oid("0000000000000000000000 0"),
        Err(QuizError::InvalidReference)
    );
}

#[test]
fn oid_hex_round_trips() {
    for id in [0u128, 1, 42, 0x507f1f77bcf86cd799439011, (1u128 << 96) - 1] {
        let hex = oid_to_hex(id);
        assert_eq!(hex.len(), 24);
        assert_eq!(parse_oid(&hex), Ok(id));
    }
    assert_eq!(oid_to_hex(0x507f1f77bcf86cd799439011), "507f1f77bcf86cd799439011");
}

#[test]
fn token_hex_is_32_lowercase_digits() {
    assert_eq!(token_to_hex(0), "00000000000000000000000000000000");
    assert_eq!(
        token_to_hex(u128::MAX),
        "ffffffffffffffffffffffffffffffff"
    );
    assert_eq!(
        token_to_hex(0xdeadbeef),
        "000000000000000000000000deadbeef"
    );
}

#[test]
fn password_hash_round_trip() {
    let hash = hash_password("password123").expect("hashing should succeed");
    assert!(verify_password(&hash, "password123"));
    assert!(!verify_password(&hash, "password124"));
    assert!(!verify_password("not a phc string", "password123"));
    // a fresh salt gives a different hash for the same password
    let hash2 = hash_password("password123").expect("hashing should succeed");
    assert_ne!(hash, hash2);
    assert!(verify_password(&hash2, "password123"));
}

#[test]
fn registration_rejects_duplicates_and_bad_otp() {
    let mut store = Store::new();
    assert_eq!(
        store.verify_and_register(
            false,
            "+15551112222".to_string(),
            "testuser".to_string(),
            "password123".to_string(),
            Role::User,
        ),
        Err(AuthError::InvalidOtp)
    );
    let hex = store
        .verify_and_register(
            true,
            "+15551112222".to_string(),
            "testuser".to_string(),
            "password123".to_string(),
            Role::User,
        )
        .expect("registration should succeed");
    assert_eq!(hex.len(), 24);
    assert_eq!(
        store.verify_and_register(
            true,
            "+15551112222".to_string(),
            "otheruser".to_string(),
            "password123".to_string(),
            Role::User,
        ),
        Err(AuthError::PhoneNumberInUse)
    );
    assert_eq!(
        store.verify_and_register(
            true,
            "+15559998888".to_string(),
            "testuser".to_string(),
            "password123".to_string(),
            Role::User,
        ),
        Err(AuthError::UsernameInUse)
    );
}

#[test]
fn login_success_issues_a_validating_token() {
    let mut store = Store::new();
    let hex = store
        .verify_and_register(
            true,
            "+15551112222".to_string(),
            "testuser".to_string(),
            "password123".to_string(),
            Role::User,
        )
        .unwrap();
    let (user, token) = store
        .login(
            "+15551112222".to_string(),
            "password123".to_string(),
            "test-signing-secret",
        )
        .expect("login should succeed");
    assert_eq!(user.username, "testuser");

    let claims = validate_jwt(&token, "test-signing-secret").expect("token should validate");
    assert_eq!(claims.sub, hex);
    assert_eq!(claims.role, "User");
    // the wrong secret rejects the token
    assert!(validate_jwt(&token, "other-secret").is_none());
}

#[test]
fn login_failures() {
    let mut store = Store::new();
    store
        .verify_and_register(
            true,
            "+15551112222".to_string(),
            "testuser".to_string(),
            "password123".to_string(),
            Role::User,
        )
        .unwrap();
    assert!(matches!(
        store.login(
            "+15550000000".to_string(),
            "password123".to_string(),
            "s",
        ),
        Err(AuthError::UserNotFound)
    ));
    assert!(matches!(
        store.login(
            "+15551112222".to_string(),
            "wrongpassword".to_string(),
            "s",
        ),
        Err(AuthError::InvalidPassword)
    ));
}

#[test]
fn otp_decision() {
    assert!(otp_approved(Some("approved".to_string()), None));
    assert!(otp_approved(None, Some(true)));
    assert!(otp_approved(Some("pending".to_string()), Some(true)));
    assert!(!otp_approved(Some("pending".to_string()), Some(false)));
    assert!(!otp_approved(None, None));
    assert!(!otp_approved(Some("Approved".to_string()), None));
}
