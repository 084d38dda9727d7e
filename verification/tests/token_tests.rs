use authcore::api::AuthAPI;
use authcore::token::base64url_encode;
use authcore::token::build_claims_json;

fn key() -> [u8; 32] {
    [7u8; 32]
}

#[test]
fn base64url_known_vectors() {
    assert_eq!(base64url_encode(&[]), Vec::<u8>::new());
    assert_eq!(base64url_encode(b"f"), b"Zg".to_vec());
    assert_eq!(base64url_encode(b"fo"), b"Zm8".to_vec());
    assert_eq!(base64url_encode(b"foo"), b"Zm9v".to_vec());
    assert_eq!(base64url_encode(b"foob"), b"Zm9vYg".to_vec());
    assert_eq!(base64url_encode(b"fooba"), b"Zm9vYmE".to_vec());
    assert_eq!(base64url_encode(b"foobar"), b"Zm9vYmFy".to_vec());
}

#[test]
fn base64url_uses_url_safe_symbols() {
    assert_eq!(base64url_encode(&[0xfb, 0xff]), b"-_8".to_vec());
}

#[test]
fn claims_json_plain_email() {
    assert_eq!(
        build_claims_json("a@x.com", 42),
        b"{\"email\":\"a@x.com\",\"exp\":42}".to_vec()
    );
}

#[test]
fn claims_json_escapes_quotes_and_controls() {
    assert_eq!(
        build_claims_json("a\"b\\c\nd", 0),
        b"{\"email\":\"a\\\"b\\\\c\\u000ad\",\"exp\":0}".to_vec()
    );
}

#[test]
fn claims_json_large_expiry_digits() {
    assert_eq!(
        build_claims_json("e", 1234567890),
        b"{\"email\":\"e\",\"exp\":1234567890}".to_vec()
    );
}

#[test]
fn token_has_three_segments() {
    let mut api = AuthAPI::new(key());
    api.otps.set_code("a@x.com".to_string(), 1234, 0);
    api.crate_user("Ada".to_string(), "a@x.com".to_string(), 1, "pw1", 1234, 0)
        .unwrap();
    let token = api.login_user("a@x.com", "pw1", 1000).unwrap();
    assert_eq!(token.split('.').count(), 3);
}

#[test]
fn token_decodes_with_expiry_24h_after_issue() {
    let mut api = AuthAPI::new(key());
    api.otps.set_code("a@x.com".to_string(), 1234, 0);
    api.crate_user("Ada".to_string(), "a@x.com".to_string(), 1, "pw1", 1234, 0)
        .unwrap();
    let issue_time: usize = 1_000_000;
    let token = api.login_user("a@x.com", "pw1", issue_time).unwrap();

    let mut validation = jsonwebtoken::Validation::new(jsonwebtoken::Algorithm::HS256);
    validation.validate_exp = false;
    let decoded = jsonwebtoken::decode::<serde_json::Value>(
        &token,
        &jsonwebtoken::DecodingKey::from_secret(&key()),
        &validation,
    )
    .unwrap();
    assert_eq!(
        decoded.claims.get("exp").unwrap().as_u64().unwrap(),
        issue_time as u64 + 86400
    );
    assert_eq!(
        decoded.claims.get("email").unwrap().as_str().unwrap(),
        "a@x.com"
    );
}

#[test]
fn token_rejected_under_other_key() {
    let mut api = AuthAPI::new(key());
    api.otps.set_code("a@x.com".to_string(), 1234, 0);
    api.crate_user("Ada".to_string(), "a@x.com".to_string(), 1, "pw1", 1234, 0)
        .unwrap();
    let token = api.login_user("a@x.com", "pw1", 1000).unwrap();

    let mut validation = jsonwebtoken::Validation::new(jsonwebtoken::Algorithm::HS256);
    validation.validate_exp = false;
    let other = jsonwebtoken::decode::<serde_json::Value>(
        &token,
        &jsonwebtoken::DecodingKey::from_secret(&[8u8; 32]),
        &validation,
    );
    assert!(other.is_err());
}
