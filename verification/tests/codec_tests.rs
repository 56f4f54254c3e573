use base64::Engine;
use license_tokens::payload::{default_expires_days, default_plan, LicenseError, LicensePayload};
use license_tokens::timestamp::is_expired;
use license_tokens::token::{decode_payload, encode_payload};

fn payload(email: &str, expires_at: Option<&str>) -> LicensePayload {
    LicensePayload {
        email: String::from(email),
        product_id: String::from("prod-1"),
        plan: String::from("pro"),
        issued_at: String::from("2024-01-01T00:00:00+00:00"),
        expires_at: expires_at.map(String::from),
    }
}

#[test]
fn canonical_form_is_exact() {
    let p = payload("a@b.com", None);
    let expected = "{\"email\":\"a@b.com\",\"product_id\":\"prod-1\",\"plan\":\"pro\",\"issued_at\":\"2024-01-01T00:00:00+00:00\",\"expires_at\":null}";
    let segment = encode_payload(&p);
    assert_eq!(
        segment,
        base64::engine::general_purpose::STANDARD.encode(expected)
    );
}

#[test]
fn canonical_form_with_expiry_is_exact() {
    let p = payload("a@b.com", Some("2025-01-01T00:00:00+00:00"));
    let expected = "{\"email\":\"a@b.com\",\"product_id\":\"prod-1\",\"plan\":\"pro\",\"issued_at\":\"2024-01-01T00:00:00+00:00\",\"expires_at\":\"2025-01-01T00:00:00+00:00\"}";
    let segment = encode_payload(&p);
    assert_eq!(
        segment,
        base64::engine::general_purpose::STANDARD.encode(expected)
    );
}

#[test]
fn codec_round_trips_plain_fields() {
    let p = payload("user@example.org", Some("2030-06-15T12:30:45+00:00"));
    let got = decode_payload(&encode_payload(&p)).unwrap();
    assert_eq!(got.email, p.email);
    assert_eq!(got.product_id, p.product_id);
    assert_eq!(got.plan, p.plan);
    assert_eq!(got.issued_at, p.issued_at);
    assert_eq!(got.expires_at, p.expires_at);
}

#[test]
fn codec_round_trips_escaped_characters() {
    let p = payload("quote\" back\\slash \nnewline \ttab \u{1} bell\u{7}", None);
    let got = decode_payload(&encode_payload(&p)).unwrap();
    assert_eq!(got.email, p.email);
}

#[test]
fn codec_round_trips_unicode() {
    let p = payload("grüße@münchen.de 你好", None);
    let got = decode_payload(&encode_payload(&p)).unwrap();
    assert_eq!(got.email, p.email);
}

#[test]
fn escapes_are_written_as_json() {
    let p = payload("a\"b\\c\nd", None);
    let segment = encode_payload(&p);
    let json =
        String::from_utf8(base64::engine::general_purpose::STANDARD.decode(segment).unwrap())
            .unwrap();
    assert!(json.contains("a\\\"b\\\\c\\u000ad"));
}

#[test]
fn decode_rejects_bad_base64() {
    assert!(matches!(decode_payload("%%%"), Err(LicenseError::EncodingError)));
}

#[test]
fn decode_rejects_bad_utf8() {
    let segment = base64::engine::general_purpose::STANDARD.encode([0xffu8, 0xfe, 0xfd]);
    assert!(matches!(decode_payload(&segment), Err(LicenseError::EncodingError)));
}

#[test]
fn decode_rejects_missing_fields() {
    let segment = base64::engine::general_purpose::STANDARD
        .encode("{\"email\":\"a@b.com\",\"plan\":\"pro\"}");
    assert!(matches!(decode_payload(&segment), Err(LicenseError::ParseError)));
}

#[test]
fn expiry_policy_on_concrete_values() {
    let now = chrono::DateTime::parse_from_rfc3339("2024-06-01T00:00:00Z")
        .unwrap()
        .timestamp_millis();
    assert!(!is_expired(&None, now));
    assert!(is_expired(
        &Some(String::from("2024-05-31T23:59:59+00:00")),
        now
    ));
    assert!(!is_expired(
        &Some(String::from("2024-06-01T00:00:00+00:00")),
        now
    ));
    assert!(!is_expired(
        &Some(String::from("2024-06-01T00:00:01+00:00")),
        now
    ));
    // Fail-open on stamps that do not parse.
    assert!(!is_expired(&Some(String::from("eventually")), now));
}

#[test]
fn defaults_match_the_request_schema() {
    assert_eq!(default_plan(), "pro");
    assert_eq!(default_expires_days(), 365);
}

#[test]
fn error_messages_are_stable() {
    assert_eq!(
        LicenseError::MalformedToken.message(),
        "Invalid token format"
    );
    assert_eq!(
        LicenseError::KeyConfigurationError.message(),
        "Invalid public key"
    );
    assert_eq!(
        LicenseError::EncodingError.message(),
        "Failed to decode token segment"
    );
}
