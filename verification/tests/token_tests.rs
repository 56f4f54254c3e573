use base64::Engine;
use license_tokens::crypto::{PublicKey, SecretKey};
use license_tokens::payload::{LicenseError, LicensePayload};
use license_tokens::token::{
    decode_payload, encode_payload, generate_demo_license, issue_license, join, sign_license,
    split_token, verify_license_token,
};

fn ms(s: &str) -> i64 {
    chrono::DateTime::parse_from_rfc3339(s).unwrap().timestamp_millis()
}

fn test_keys() -> (SecretKey, PublicKey) {
    let sk = SecretKey::from_bytes([7u8; 32]);
    let pk = sk.public_key();
    (sk, pk)
}

fn sample_payload(expires_at: Option<&str>) -> LicensePayload {
    LicensePayload {
        email: String::from("a@b.com"),
        product_id: String::from("localendar-mvp"),
        plan: String::from("pro"),
        issued_at: String::from("2024-01-01T00:00:00+00:00"),
        expires_at: expires_at.map(String::from),
    }
}

#[test]
fn round_trip_valid_token() {
    let (sk, pk) = test_keys();
    let payload = sample_payload(Some("2030-01-01T00:00:00+00:00"));
    let token = sign_license(&payload, &sk);
    let status = verify_license_token(&token, &pk, ms("2024-06-01T00:00:00Z"));
    assert!(status.valid);
    assert!(!status.expired);
    assert!(status.error.is_none());
    let got = status.payload.expect("payload present");
    assert_eq!(got.email, payload.email);
    assert_eq!(got.product_id, payload.product_id);
    assert_eq!(got.plan, payload.plan);
    assert_eq!(got.issued_at, payload.issued_at);
    assert_eq!(got.expires_at, payload.expires_at);
    assert_eq!(status.expires_at, payload.expires_at);
}

#[test]
fn tampered_payload_segment_is_rejected() {
    let (sk, pk) = test_keys();
    let token = sign_license(&sample_payload(None), &sk);
    let dot = token.find('.').unwrap();
    // Change one character of the payload segment for another base64
    // character: either decoding breaks or the signature no longer binds.
    let mut chars: Vec<char> = token.chars().collect();
    chars[0] = if chars[0] == 'A' { 'B' } else { 'A' };
    let tampered: String = chars.into_iter().collect();
    assert_ne!(tampered, token);
    assert!(dot > 0);
    let status = verify_license_token(&tampered, &pk, ms("2024-06-01T00:00:00Z"));
    assert!(!status.valid);
    assert!(status.error.is_some());
}

#[test]
fn tampered_signature_segment_is_rejected() {
    let (sk, pk) = test_keys();
    let token = sign_license(&sample_payload(None), &sk);
    let dot = token.find('.').unwrap();
    let mut chars: Vec<char> = token.chars().collect();
    let k = dot + 1;
    chars[k] = if chars[k] == 'A' { 'B' } else { 'A' };
    let tampered: String = chars.into_iter().collect();
    let status = verify_license_token(&tampered, &pk, ms("2024-06-01T00:00:00Z"));
    assert!(!status.valid);
    assert!(status.payload.is_none());
    assert!(status.error.is_some());
}

#[test]
fn wrong_key_is_rejected() {
    let (sk1, _) = test_keys();
    let sk2 = SecretKey::from_bytes([9u8; 32]);
    let pk2 = sk2.public_key();
    let token = sign_license(&sample_payload(None), &sk1);
    let status = verify_license_token(&token, &pk2, ms("2024-06-01T00:00:00Z"));
    assert!(!status.valid);
    assert!(status.payload.is_none());
    assert_eq!(status.error, Some(LicenseError::SignatureInvalid));
    assert_eq!(
        status.error.unwrap().message(),
        "Signature verification failed"
    );
}

#[test]
fn no_expiry_token_never_expires() {
    let (sk, pk) = test_keys();
    let token = sign_license(&sample_payload(None), &sk);
    for now in ["2024-01-01T00:00:00Z", "2999-12-31T23:59:59Z"] {
        let status = verify_license_token(&token, &pk, ms(now));
        assert!(status.valid);
        assert!(!status.expired);
        assert!(status.error.is_none());
    }
}

#[test]
fn expiry_boundary_one_second_each_way() {
    let (sk, pk) = test_keys();
    let now = ms("2024-06-01T12:00:00Z");
    let past = chrono::DateTime::from_timestamp_millis(now - 1000)
        .unwrap()
        .to_rfc3339();
    let future = chrono::DateTime::from_timestamp_millis(now + 1000)
        .unwrap()
        .to_rfc3339();

    let expired_token = sign_license(&sample_payload(Some(&past)), &sk);
    let status = verify_license_token(&expired_token, &pk, now);
    assert!(!status.valid);
    assert!(status.expired);
    assert_eq!(status.error, Some(LicenseError::Expired));
    assert_eq!(status.error.unwrap().message(), "License has expired");
    assert!(status.payload.is_some());

    let live_token = sign_license(&sample_payload(Some(&future)), &sk);
    let status = verify_license_token(&live_token, &pk, now);
    assert!(status.valid);
    assert!(!status.expired);
    assert!(status.error.is_none());
}

#[test]
fn unparseable_expiry_fails_open() {
    let (sk, pk) = test_keys();
    let token = sign_license(&sample_payload(Some("not-a-date")), &sk);
    let status = verify_license_token(&token, &pk, ms("2999-01-01T00:00:00Z"));
    assert!(status.valid);
    assert!(!status.expired);
}

#[test]
fn token_without_dot_is_malformed() {
    let (_, pk) = test_keys();
    let status = verify_license_token("not-a-token", &pk, 0);
    assert!(!status.valid);
    assert_eq!(status.error, Some(LicenseError::MalformedToken));
    assert_eq!(status.error.unwrap().message(), "Invalid token format");
}

#[test]
fn token_with_two_dots_is_malformed() {
    let (_, pk) = test_keys();
    let status = verify_license_token("a.b.c", &pk, 0);
    assert_eq!(status.error, Some(LicenseError::MalformedToken));
}

#[test]
fn short_signature_is_a_length_error() {
    let (_, pk) = test_keys();
    // "ZGVm" is valid base64 for the three bytes of "def": too short.
    let status = verify_license_token("abc.ZGVm", &pk, 0);
    assert!(!status.valid);
    assert_eq!(status.error, Some(LicenseError::SignatureLengthError));
    assert_eq!(status.error.unwrap().message(), "Invalid signature length");
}

#[test]
fn undecodable_signature_is_an_encoding_error() {
    let (_, pk) = test_keys();
    let status = verify_license_token("abc.def", &pk, 0);
    assert!(!status.valid);
    assert_eq!(status.error, Some(LicenseError::EncodingError));
}

#[test]
fn undecodable_payload_is_an_encoding_error() {
    let (sk, pk) = test_keys();
    let token = sign_license(&sample_payload(None), &sk);
    let sig_segment = token.split('.').nth(1).unwrap();
    let bad = format!("{}.{}", "!!!!", sig_segment);
    let status = verify_license_token(&bad, &pk, 0);
    assert_eq!(status.error, Some(LicenseError::EncodingError));
}

#[test]
fn unparseable_payload_is_a_parse_error() {
    let (sk, pk) = test_keys();
    let token = sign_license(&sample_payload(None), &sk);
    let sig_segment = token.split('.').nth(1).unwrap();
    let not_a_payload = base64::engine::general_purpose::STANDARD.encode("{}");
    let bad = format!("{}.{}", not_a_payload, sig_segment);
    let status = verify_license_token(&bad, &pk, 0);
    assert_eq!(status.error, Some(LicenseError::ParseError));
    assert_eq!(status.error.unwrap().message(), "Failed to parse payload");
}

#[test]
fn issue_then_verify_scenario() {
    let (sk, pk) = test_keys();
    let now = ms("2024-01-01T00:00:00Z");
    let (token, payload) = issue_license("a@b.com", "localendar-mvp", "pro", 365, now, &sk);
    assert_eq!(payload.email, "a@b.com");
    assert_eq!(payload.product_id, "localendar-mvp");
    assert_eq!(payload.plan, "pro");
    assert_eq!(payload.issued_at, "2024-01-01T00:00:00+00:00");
    // 365 days across the 2024 leap year land on the last day of 2024.
    assert_eq!(
        payload.expires_at.as_deref(),
        Some("2024-12-31T00:00:00+00:00")
    );

    let mid = verify_license_token(&token, &pk, ms("2024-06-01T00:00:00Z"));
    assert!(mid.valid);
    assert!(!mid.expired);

    let late = verify_license_token(&token, &pk, ms("2026-01-01T00:00:00Z"));
    assert!(!late.valid);
    assert!(late.expired);
    assert_eq!(late.error.unwrap().message(), "License has expired");
}

#[test]
fn issue_without_expiry_days_never_expires() {
    let (sk, pk) = test_keys();
    let now = ms("2024-01-01T00:00:00Z");
    let (token, payload) = issue_license("a@b.com", "localendar-mvp", "basic", 0, now, &sk);
    assert!(payload.expires_at.is_none());
    let status = verify_license_token(&token, &pk, ms("2999-01-01T00:00:00Z"));
    assert!(status.valid);
}

#[test]
fn demo_license_has_dummy_signature() {
    let (_, pk) = test_keys();
    let now = ms("2024-01-01T00:00:00Z");
    let token = generate_demo_license("demo@example.com", now);
    let (pseg, sseg) = (
        token.split('.').next().unwrap(),
        token.split('.').nth(1).unwrap(),
    );
    let sig = base64::engine::general_purpose::STANDARD
        .decode(sseg)
        .unwrap();
    assert_eq!(sig, vec![0u8; 64]);
    let payload = decode_payload(pseg).unwrap();
    assert_eq!(payload.email, "demo@example.com");
    assert_eq!(payload.product_id, "localendar-mvp");
    assert_eq!(payload.plan, "pro");
    // A dummy signature never verifies.
    let status = verify_license_token(&token, &pk, now);
    assert!(!status.valid);
    assert_eq!(status.error, Some(LicenseError::SignatureInvalid));
}

#[test]
fn split_and_join_are_inverse() {
    let joined = join("abc", "xyz");
    assert_eq!(joined, "abc.xyz");
    let (a, b) = split_token(&joined).unwrap();
    assert_eq!(a, "abc");
    assert_eq!(b, "xyz");
    assert!(split_token("abcxyz").is_none());
    assert!(split_token("a.b.c").is_none());
}

#[test]
fn public_key_rejects_bad_material() {
    let (sk, _) = test_keys();
    assert!(PublicKey::from_bytes(&vec![0u8; 31]).is_none());
    let derived = sk.public_key();
    let token = sign_license(&sample_payload(None), &sk);
    // A key rebuilt from its own bytes still verifies the token.
    let sk_alias = SecretKey::from_bytes([7u8; 32]);
    let pk_alias = sk_alias.public_key();
    assert!(verify_license_token(&token, &pk_alias, 0).valid);
    assert!(verify_license_token(&token, &derived, 0).valid);
}
