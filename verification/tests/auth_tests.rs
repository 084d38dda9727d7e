use authcore::api::AuthAPI;
use authcore::errors::AuthError;
use authcore::hashing::get_hash;
use authcore::hashing::match_hash;

fn key() -> [u8; 32] {
    [7u8; 32]
}

#[test]
fn hash_roundtrip() {
    let h = get_hash("pw1").unwrap();
    assert!(match_hash("pw1", &h).is_ok());
}

#[test]
fn hash_rejects_wrong_password() {
    let h = get_hash("pw1").unwrap();
    assert_eq!(match_hash("pw2", &h), Err(AuthError::InvalidCredentials));
}

#[test]
fn hash_rejects_malformed_encoding() {
    assert_eq!(
        match_hash("pw1", "not-a-phc-string"),
        Err(AuthError::InvalidCredentials)
    );
}

#[test]
fn hash_twice_differs() {
    let h1 = get_hash("pw1").unwrap();
    let h2 = get_hash("pw1").unwrap();
    assert_ne!(h1, h2);
}

#[test]
fn otp_issued_code_verifies() {
    let mut api = AuthAPI::new(key());
    let code = api.send_otp("a@x.com".to_string(), 100);
    assert!((1000..=9999).contains(&code));
    assert!(api.otps.verify_otp("a@x.com", code as u32, 100).is_ok());
    assert!(api.otps.verify_otp("a@x.com", code as u32, 399).is_ok());
    assert_eq!(
        api.otps.verify_otp("a@x.com", (code as u32) + 1, 100),
        Err(AuthError::Mismatch)
    );
    assert_eq!(
        api.otps.verify_otp("b@x.com", code as u32, 100),
        Err(AuthError::NoPendingCode)
    );
}

#[test]
fn otp_expires_after_ttl() {
    let mut api = AuthAPI::new(key());
    let code = api.send_otp("a@x.com".to_string(), 100);
    assert_eq!(
        api.otps.verify_otp("a@x.com", code as u32, 400),
        Err(AuthError::NoPendingCode)
    );
    assert_eq!(
        api.otps.verify_otp("a@x.com", code as u32, 1000),
        Err(AuthError::NoPendingCode)
    );
}

#[test]
fn otp_reissue_overwrites() {
    let mut api = AuthAPI::new(key());
    api.otps.set_code("a@x.com".to_string(), 1234, 0);
    api.otps.set_code("a@x.com".to_string(), 5678, 10);
    assert_eq!(
        api.otps.verify_otp("a@x.com", 1234, 20),
        Err(AuthError::Mismatch)
    );
    assert!(api.otps.verify_otp("a@x.com", 5678, 20).is_ok());
}

#[test]
fn register_with_wrong_otp_creates_no_row() {
    let mut api = AuthAPI::new(key());
    let code = api.send_otp("a@x.com".to_string(), 0);
    let r = api.crate_user(
        "Ada".to_string(),
        "a@x.com".to_string(),
        2,
        "pw1",
        (code as u32) + 1,
        0,
    );
    assert_eq!(r, Err(AuthError::Mismatch));
    assert_eq!(api.users.count(), 0);
    assert_eq!(
        api.login_user("a@x.com", "pw1", 0),
        Err(AuthError::InvalidCredentials)
    );
}

#[test]
fn register_without_pending_code_fails() {
    let mut api = AuthAPI::new(key());
    let r = api.crate_user("Ada".to_string(), "a@x.com".to_string(), 1, "pw1", 1234, 0);
    assert_eq!(r, Err(AuthError::NoPendingCode));
    assert_eq!(api.users.count(), 0);
}

#[test]
fn register_duplicate_email_keeps_existing_row() {
    let mut api = AuthAPI::new(key());
    api.otps.set_code("a@x.com".to_string(), 1234, 0);
    assert!(api
        .crate_user("Ada".to_string(), "a@x.com".to_string(), 1, "pw1", 1234, 0)
        .is_ok());
    assert_eq!(api.users.count(), 1);
    let r = api.crate_user("Bob".to_string(), "a@x.com".to_string(), 1, "pw2", 1234, 0);
    assert_eq!(r, Err(AuthError::StoreError));
    assert_eq!(api.users.count(), 1);
    let row = api.users.lookup("a@x.com").unwrap();
    assert_eq!(row.name, "Ada");
    assert!(api.login_user("a@x.com", "pw1", 0).is_ok());
}

#[test]
fn register_ignores_role_hint_and_assigns_ids() {
    let mut api = AuthAPI::new(key());
    api.otps.set_code("a@x.com".to_string(), 1234, 0);
    api.otps.set_code("b@x.com".to_string(), 1234, 0);
    assert!(api
        .crate_user("Ada".to_string(), "a@x.com".to_string(), 9, "pw1", 1234, 0)
        .is_ok());
    assert!(api
        .crate_user("Bob".to_string(), "b@x.com".to_string(), 0, "pw2", 1234, 0)
        .is_ok());
    let a = api.users.lookup("a@x.com").unwrap();
    assert_eq!(a.role_id, 1);
    assert_eq!(a.id, 1);
    let b = api.users.lookup("b@x.com").unwrap();
    assert_eq!(b.role_id, 1);
    assert_eq!(b.id, 2);
}

#[test]
fn login_unknown_email_fails() {
    let api = AuthAPI::new(key());
    assert_eq!(
        api.login_user("a@x.com", "pw1", 0),
        Err(AuthError::InvalidCredentials)
    );
}

#[test]
fn login_wrong_password_returns_no_token() {
    let mut api = AuthAPI::new(key());
    api.otps.set_code("a@x.com".to_string(), 1234, 0);
    assert!(api
        .crate_user("Ada".to_string(), "a@x.com".to_string(), 1, "pw1", 1234, 0)
        .is_ok());
    assert_eq!(
        api.login_user("a@x.com", "wrong", 0),
        Err(AuthError::InvalidCredentials)
    );
}

#[test]
fn end_to_end_flow() {
    let mut api = AuthAPI::new(key());
    api.otps.set_code("a@x.com".to_string(), 1234, 0);
    assert!(api
        .crate_user("Ada".to_string(), "a@x.com".to_string(), 1, "pw1", 1234, 0)
        .is_ok());
    let token = api.login_user("a@x.com", "pw1", 50).unwrap();
    assert!(!token.is_empty());
    assert!(api.login_user("a@x.com", "wrong", 50).is_err());
}

#[test]
fn error_status_codes_stay_opaque() {
    assert_eq!(AuthError::InvalidCredentials.status_code(), 401);
    assert_eq!(AuthError::NoPendingCode.status_code(), 401);
    assert_eq!(AuthError::SigningError.status_code(), 401);
    assert_eq!(AuthError::Mismatch.status_code(), 500);
    assert_eq!(AuthError::StoreError.status_code(), 500);
    assert_eq!(AuthError::InternalError.status_code(), 500);
}
