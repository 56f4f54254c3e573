use vstd::prelude::*;
use vstd::string::StrSliceExecFns;
use vstd::string::StringExecFns;
use vstd::utf8::valid_utf8;
use vstd::utf8::decode_utf8;
use vstd::utf8::encode_utf8;
use crate::b64::b64_of;
use crate::b64::b64_dec;
use crate::b64::b64_decode;
use crate::b64::b64_encode;
use crate::b64::lemma_b64_dec_of_encoding;
use crate::crypto::PublicKey;
use crate::crypto::SecretKey;
use crate::crypto::ed25519_sign;
use crate::crypto::ed25519_verify;
use crate::crypto::pk_of;
use crate::crypto::sig_of;
use crate::crypto::verify_ok;
use crate::json::canonical_json;
use crate::json::encode_payload_json;
use crate::json::lemma_parse_canonical;
use crate::json::parse_payload_chars;
use crate::json::parse_payload_json;
use crate::payload::LicenseError;
use crate::payload::LicensePayload;
use crate::payload::LicenseStatus;
use crate::payload::PayloadView;
use crate::payload::StatusView;
use crate::text::chars_of;
use crate::text::string_from_utf8;
use crate::timestamp::MAX_TIMESTAMP_MS;
use crate::timestamp::MS_PER_DAY;
use crate::timestamp::expired_spec;
use crate::timestamp::format_rfc3339_millis;
use crate::timestamp::rfc3339_of;
use crate::timestamp::rfc3339_ts;
use crate::timestamp::is_expired;

verus! {

/// No dot occurs in the sequence.
pub open spec fn dot_free(s: Seq<char>) -> bool {
    forall|i: int| 0 <= i < s.len() ==> s[i] != '.'
}

/// Position `i` is the single dot that separates the two token segments.
pub open spec fn valid_dot(token: Seq<char>, i: int) -> bool {
    0 <= i < token.len() && token[i] == '.' && dot_free(token.take(i)) && dot_free(
        token.skip(i + 1),
    )
}

/// Split a token on its `.` separator: defined exactly when the token
/// consists of two dot-free segments around a single dot.
pub open spec fn split2(token: Seq<char>) -> Option<(Seq<char>, Seq<char>)> {
    if exists|i: int| valid_dot(token, i) {
        let i = choose|i: int| valid_dot(token, i);
        Some((token.take(i), token.skip(i + 1)))
    } else {
        None
    }
}

/// Only one position can be the separating dot.
proof fn lemma_valid_dot_unique(token: Seq<char>, i: int, j: int)
    requires
        valid_dot(token, i),
        valid_dot(token, j),
    ensures
        i == j,
{
    if i < j {
        assert(token.take(j)[i] == token[i]);
    } else if j < i {
        assert(token.take(i)[j] == token[j]);
    }
}

/// Joining two dot-free segments with a dot splits back to them.
pub proof fn lemma_split2_of_parts(a: Seq<char>, b: Seq<char>)
    requires
        dot_free(a),
        dot_free(b),
    ensures
        split2(a + seq!['.'] + b) == Some((a, b)),
{
    let t = a + seq!['.'] + b;
    let d: int = a.len() as int;
    assert(t[d] == '.');
    assert(t.take(d) =~= a);
    assert(t.skip(d + 1) =~= b);
    assert(valid_dot(t, d));
    let c = choose|i: int| valid_dot(t, i);
    lemma_valid_dot_unique(t, c, d);
}

/// A token with dots at two distinct positions has no valid split.
proof fn lemma_two_dots(t: Seq<char>, d1: int, d2: int)
    requires
        0 <= d1 < d2 < t.len(),
        t[d1] == '.',
        t[d2] == '.',
    ensures
        split2(t) is None,
{
    assert forall|m: int| !valid_dot(t, m) by {
        if valid_dot(t, m) {
            if m < d1 {
                assert(t.skip(m + 1)[d1 - m - 1] == t[d1]);
            } else if m == d1 {
                assert(t.skip(m + 1)[d2 - m - 1] == t[d2]);
            } else {
                assert(t.take(m)[d1] == t[d1]);
            }
        }
    }
}

/// Split a token string on the single `.` separator, or report that the
/// token does not have exactly two segments.
pub fn split_token(token: &str) -> (r: Option<(&str, &str)>)
    ensures
        r matches Some(p) ==> split2(token@) == Some((p.0@, p.1@)),
        r is None ==> split2(token@) is None,
{
    let n: usize = token.unicode_len();
    let mut i: usize = 0;
    let mut dot: Option<usize> = None;
    while i < n
        invariant
            n == token@.len(),
            i <= n,
            (match dot {
                None => dot_free(token@.take(i as int)),
                Some(d) => d < i && token@[d as int] == '.' && dot_free(token@.take(d as int))
                    && dot_free(token@.subrange(d as int + 1, i as int)),
            }),
        decreases n - i,
    {
        let c = token.get_char(i);
        if c == '.' {
            match dot {
                None => {
                    dot = Some(i);
                },
                Some(d) => {
                    proof {
                        lemma_two_dots(token@, d as int, i as int);
                    }
                    return None;
                },
            }
        } else {
            proof {
                match dot {
                    None => {
                        assert(token@.take(i as int + 1) =~= token@.take(i as int) + seq![c]);
                    },
                    Some(d) => {
                        assert(token@.subrange(d as int + 1, i as int + 1) =~= token@.subrange(
                            d as int + 1,
                            i as int,
                        ) + seq![c]);
                    },
                }
            }
        }
        i += 1;
    }
    match dot {
        None => {
            proof {
                assert(token@.take(n as int) =~= token@);
                assert forall|m: int| !valid_dot(token@, m) by {
                    if 0 <= m < token@.len() {
                        assert(token@[m] != '.');
                    }
                }
            }
            None
        },
        Some(d) => {
            let a = token.substring_char(0, d);
            let b = token.substring_char(d + 1, n);
            proof {
                assert(token@.take(d as int) =~= token@.subrange(0, d as int));
                assert(token@.skip(d as int + 1) =~= token@.subrange(d as int + 1, n as int));
                assert(valid_dot(token@, d as int));
                let c = choose|m: int| valid_dot(token@, m);
                lemma_valid_dot_unique(token@, c, d as int);
            }
            Some((a, b))
        },
    }
}

/// The outcome of a verification stage that failed: not valid, no
/// payload, and the failing stage's error.
pub open spec fn fail_status(e: LicenseError) -> StatusView {
    StatusView { valid: false, payload: None, expires_at: None, expired: false, error: Some(e) }
}

/// UTF-8 decoding as a partial function on byte sequences.
pub open spec fn utf8_chars(b: Seq<u8>) -> Option<Seq<char>> {
    if valid_utf8(b) {
        Some(decode_utf8(b))
    } else {
        None
    }
}

/// The outcome of verifying a token that decoded to payload `pv` under a
/// key that accepted the signature: refused exactly when expired.
pub open spec fn granted_status(pv: PayloadView, now_ms: int) -> StatusView {
    StatusView {
        valid: !expired_spec(pv.expires_at, now_ms),
        payload: Some(pv),
        expires_at: pv.expires_at,
        expired: expired_spec(pv.expires_at, now_ms),
        error: if expired_spec(pv.expires_at, now_ms) {
            Some(LicenseError::Expired)
        } else {
            None
        },
    }
}

/// The whole verification state machine: split, decode the signature
/// segment and check its length, decode and parse the payload segment,
/// check the signature over the raw payload segment bytes, then apply
/// the expiry policy. Fail-fast: the first failing stage names the error.
pub open spec fn verify_spec(token: Seq<char>, pk: Seq<u8>, now_ms: int) -> StatusView {
    match split2(token) {
        None => fail_status(LicenseError::MalformedToken),
        Some(parts) => match b64_dec(parts.1) {
            None => fail_status(LicenseError::EncodingError),
            Some(sig) => if sig.len() != 64 {
                fail_status(LicenseError::SignatureLengthError)
            } else {
                match b64_dec(parts.0) {
                    None => fail_status(LicenseError::EncodingError),
                    Some(pb) => match utf8_chars(pb) {
                        None => fail_status(LicenseError::EncodingError),
                        Some(json) => match parse_payload_json(json) {
                            None => fail_status(LicenseError::ParseError),
                            Some(pv) => if !verify_ok(pk, encode_utf8(parts.0), sig) {
                                fail_status(LicenseError::SignatureInvalid)
                            } else {
                                granted_status(pv, now_ms)
                            },
                        },
                    },
                }
            },
        },
    }
}

fn failed(e: LicenseError) -> (r: LicenseStatus)
    ensures
        r@ == fail_status(e),
{
    LicenseStatus { valid: false, payload: None, expires_at: None, expired: false, error: Some(e) }
}

/// Check a license token against a public key at the given current time
/// (milliseconds since the Unix epoch). Pure: the outcome is exactly
/// `verify_spec` of the token, the key and the time.
pub fn verify_license_token(token: &str, key: &PublicKey, now_ms: i64) -> (r: LicenseStatus)
    requires
        key.wf(),
    ensures
        r@ == verify_spec(token@, key@, now_ms as int),
{
    let (pseg, sseg) = match split_token(token) {
        None => {
            return failed(LicenseError::MalformedToken);
        },
        Some(p) => p,
    };
    let sig = match b64_decode(sseg) {
        None => {
            return failed(LicenseError::EncodingError);
        },
        Some(v) => v,
    };
    proof {
        lemma_b64_dec_of_encoding(sseg@, sig@);
    }
    if sig.len() != 64 {
        return failed(LicenseError::SignatureLengthError);
    }
    let pb = match b64_decode(pseg) {
        None => {
            return failed(LicenseError::EncodingError);
        },
        Some(v) => v,
    };
    proof {
        lemma_b64_dec_of_encoding(pseg@, pb@);
    }
    let ghost pbv = pb@;
    let json = match string_from_utf8(pb) {
        None => {
            return failed(LicenseError::EncodingError);
        },
        Some(s) => s,
    };
    let jchars = chars_of(json.as_str());
    let payload = match parse_payload_chars(&jchars) {
        None => {
            return failed(LicenseError::ParseError);
        },
        Some(p) => p,
    };
    let ok = ed25519_verify(key, pseg.as_bytes(), sig.as_slice());
    if !ok {
        return failed(LicenseError::SignatureInvalid);
    }
    let expired = is_expired(&payload.expires_at, now_ms);
    let expires_at = match &payload.expires_at {
        None => None,
        Some(s) => Some(s.clone()),
    };
    LicenseStatus {
        valid: !expired,
        payload: Some(payload),
        expires_at,
        expired,
        error: if expired {
            Some(LicenseError::Expired)
        } else {
            None
        },
    }
}

} // verus!

verus! {

/// The first token segment: the canonical JSON of the payload, UTF-8
/// encoded, base64 encoded. The signature is computed over exactly
/// these characters' bytes.
pub open spec fn signed_segment(p: PayloadView) -> Seq<char> {
    b64_of(encode_utf8(canonical_json(p)))
}

/// The token a secret key issues for a payload.
pub open spec fn token_spec(p: PayloadView, sk: Seq<u8>) -> Seq<char> {
    signed_segment(p) + seq!['.'] + b64_of(sig_of(sk, encode_utf8(signed_segment(p))))
}

/// Serialize the payload canonically and base64-encode it: the first
/// token segment.
pub fn encode_payload(p: &LicensePayload) -> (r: String)
    ensures
        r@ == signed_segment(p@),
        b64_dec(r@) == Some(encode_utf8(canonical_json(p@))),
        dot_free(r@),
        decode_payload_spec(r@) == Ok::<PayloadView, LicenseError>(p@),
{
    let json = encode_payload_json(p);
    let seg = b64_encode(json.as_str().as_bytes());
    proof {
        lemma_b64_dec_of_encoding(seg@, encode_utf8(json@));
        vstd::utf8::encode_utf8_valid_utf8(canonical_json(p@));
        vstd::utf8::encode_utf8_decode_utf8(canonical_json(p@));
        lemma_parse_canonical(p@);
    }
    seg
}

/// Join the two encoded segments with the `.` separator.
pub fn join(encoded_payload: &str, encoded_signature: &str) -> (r: String)
    ensures
        r@ == encoded_payload@ + seq!['.'] + encoded_signature@,
{
    let mut out = String::from_str(encoded_payload);
    proof {
        reveal_strlit(".");
        assert("."@ =~= seq!['.']);
    }
    out.append(".");
    out.append(encoded_signature);
    out
}

/// Sign a payload: encode it canonically, sign the encoded segment's
/// bytes with Ed25519, and join segment and base64 signature. The second
/// ensures clause is the round-trip law: under the signer's own public
/// key, at any time, the token verifies back to exactly this payload,
/// with the expiry policy deciding validity.
pub fn sign_license(payload: &LicensePayload, key: &SecretKey) -> (r: String)
    ensures
        r@ == token_spec(payload@, key@),
        forall|now_ms: int|
            verify_spec(r@, pk_of(key@), now_ms) == granted_status(payload@, now_ms),
{
    let pseg = encode_payload(payload);
    let sig = ed25519_sign(key, pseg.as_str().as_bytes());
    let sseg = b64_encode(sig.as_slice());
    proof {
        lemma_b64_dec_of_encoding(sseg@, sig@);
    }
    let token = join(pseg.as_str(), sseg.as_str());
    proof {
        lemma_split2_of_parts(pseg@, sseg@);
        vstd::utf8::encode_utf8_valid_utf8(canonical_json(payload@));
        vstd::utf8::encode_utf8_decode_utf8(canonical_json(payload@));
        lemma_parse_canonical(payload@);
        assert forall|now_ms: int|
            verify_spec(token@, pk_of(key@), now_ms) == granted_status(payload@, now_ms) by {
            assert(split2(token@) == Some((pseg@, sseg@)));
            assert(b64_dec(sseg@) == Some(sig@));
            assert(b64_dec(pseg@) == Some(encode_utf8(canonical_json(payload@))));
            assert(utf8_chars(encode_utf8(canonical_json(payload@))) == Some(
                canonical_json(payload@),
            ));
            assert(parse_payload_json(canonical_json(payload@)) == Some(payload@));
            assert(verify_ok(pk_of(key@), encode_utf8(pseg@), sig@));
        }
    }
    token
}

} // verus!

verus! {

/// What decoding one payload segment yields: base64 or UTF-8 failures
/// are encoding errors, anything not in canonical form a parse error.
pub open spec fn decode_payload_spec(s: Seq<char>) -> Result<PayloadView, LicenseError> {
    match b64_dec(s) {
        None => Err(LicenseError::EncodingError),
        Some(pb) => match utf8_chars(pb) {
            None => Err(LicenseError::EncodingError),
            Some(json) => match parse_payload_json(json) {
                None => Err(LicenseError::ParseError),
                Some(pv) => Ok(pv),
            },
        },
    }
}

/// Decode one base64 payload segment back to the payload it carries.
pub fn decode_payload(s: &str) -> (r: Result<LicensePayload, LicenseError>)
    ensures
        r matches Ok(p) ==> decode_payload_spec(s@) == Ok::<PayloadView, LicenseError>(p@),
        r matches Err(e) ==> decode_payload_spec(s@) == Err::<PayloadView, LicenseError>(e),
{
    let pb = match b64_decode(s) {
        None => {
            return Err(LicenseError::EncodingError);
        },
        Some(v) => v,
    };
    proof {
        lemma_b64_dec_of_encoding(s@, pb@);
    }
    let json = match string_from_utf8(pb) {
        None => {
            return Err(LicenseError::EncodingError);
        },
        Some(x) => x,
    };
    let jchars = chars_of(json.as_str());
    match parse_payload_chars(&jchars) {
        None => Err(LicenseError::ParseError),
        Some(p) => Ok(p),
    }
}

} // verus!

verus! {

/// The payload `issue_license` constructs: caller-supplied identity
/// fields, issued at `now_ms`, expiring `expires_days` days later, or
/// never when `expires_days` is not positive.
pub open spec fn issue_payload_spec(
    email: Seq<char>,
    product_id: Seq<char>,
    plan: Seq<char>,
    now_ms: int,
    expires_days: int,
) -> PayloadView {
    PayloadView {
        email,
        product_id,
        plan,
        issued_at: rfc3339_of(now_ms),
        expires_at: if expires_days > 0 {
            Some(rfc3339_of(now_ms + expires_days * (MS_PER_DAY as int)))
        } else {
            None
        },
    }
}

/// Issue a license: build the payload with the current time and the
/// requested validity period, and sign it. Returns the token and the
/// payload it certifies; the token verifies back to that payload under
/// the issuer's public key (round-trip law, inherited from
/// `sign_license`).
pub fn issue_license(
    email: &str,
    product_id: &str,
    plan: &str,
    expires_days: i64,
    now_ms: i64,
    key: &SecretKey,
) -> (r: (String, LicensePayload))
    requires
        0 <= now_ms <= MAX_TIMESTAMP_MS,
        expires_days > 0 ==> now_ms + expires_days * (MS_PER_DAY as int) <= MAX_TIMESTAMP_MS,
    ensures
        r.1@ == issue_payload_spec(email@, product_id@, plan@, now_ms as int, expires_days as int),
        r.0@ == token_spec(r.1@, key@),
        forall|t: int| verify_spec(r.0@, pk_of(key@), t) == granted_status(r.1@, t),
{
    let issued_at = format_rfc3339_millis(now_ms).unwrap();
    let expires_at = if expires_days > 0 {
        let exp_ms: i64 = now_ms + expires_days * MS_PER_DAY;
        Some(format_rfc3339_millis(exp_ms).unwrap())
    } else {
        None
    };
    let payload = LicensePayload {
        email: String::from_str(email),
        product_id: String::from_str(product_id),
        plan: String::from_str(plan),
        issued_at,
        expires_at,
    };
    let token = sign_license(&payload, key);
    (token, payload)
}

/// The demo token: a canonical payload for the demo product joined to a
/// base64 all-zero signature, for exercising a client's token handling
/// without a real issuer. It never verifies.
pub open spec fn demo_payload_spec(email: Seq<char>, now_ms: int) -> PayloadView {
    PayloadView {
        email,
        product_id: "localendar-mvp"@,
        plan: "pro"@,
        issued_at: rfc3339_of(now_ms),
        expires_at: Some(rfc3339_of(now_ms + 365 * (MS_PER_DAY as int))),
    }
}

/// Build a demo token for a year-long license issued at `now_ms`: the
/// canonical payload segment joined to an all-zero dummy signature.
pub fn generate_demo_license(email: &str, now_ms: i64) -> (r: String)
    requires
        0 <= now_ms,
        now_ms + 365 * (MS_PER_DAY as int) <= MAX_TIMESTAMP_MS,
    ensures
        r@ == signed_segment(demo_payload_spec(email@, now_ms as int)) + seq!['.'] + b64_of(
            Seq::new(64, |i: int| 0u8),
        ),
{
    let issued_at = format_rfc3339_millis(now_ms).unwrap();
    let exp_ms: i64 = now_ms + 365 * MS_PER_DAY;
    let expires_at = format_rfc3339_millis(exp_ms).unwrap();
    let payload = LicensePayload {
        email: String::from_str(email),
        product_id: String::from_str("localendar-mvp"),
        plan: String::from_str("pro"),
        issued_at,
        expires_at: Some(expires_at),
    };
    let pseg = encode_payload(&payload);
    let dummy: [u8; 64] = [0u8; 64];
    let sseg = b64_encode(dummy.as_slice());
    proof {
        assert(dummy@ =~= Seq::new(64, |i: int| 0u8));
    }
    join(pseg.as_str(), sseg.as_str())
}

/// Shape of every verification outcome: a valid result never carries
/// an error and an invalid one always names its stage; the token is
/// valid exactly when a payload was surfaced and it has not expired;
/// and a payload is surfaced only past signature verification, so an
/// expired result still carries its claim.
pub proof fn lemma_status_shape(token: Seq<char>, pk: Seq<u8>, now_ms: int)
    ensures
        ({
            let st = verify_spec(token, pk, now_ms);
            &&& st.valid ==> st.error is None
            &&& !st.valid ==> st.error is Some
            &&& st.valid == (st.payload is Some && !st.expired)
            &&& st.expired ==> st.payload is Some
        }),
{
}

/// A license without an expiry stamp never expires: whenever
/// verification surfaces a payload with no `expires_at`, the token is
/// not expired and is valid, at every current time.
pub proof fn lemma_no_expiry_never_expires(token: Seq<char>, pk: Seq<u8>, now_ms: int)
    requires
        verify_spec(token, pk, now_ms).payload matches Some(p) && p.expires_at is None,
    ensures
        !verify_spec(token, pk, now_ms).expired,
        verify_spec(token, pk, now_ms).valid,
        verify_spec(token, pk, now_ms).error is None,
{
}

/// The expiry boundary: when verification surfaces a payload whose
/// stamp denotes instant `t`, the token is expired exactly when the
/// current time is strictly past `t`, valid exactly otherwise, and an
/// expired token reports the expiry error.
pub proof fn lemma_expiry_boundary(
    token: Seq<char>,
    pk: Seq<u8>,
    now_ms: int,
    e: Seq<char>,
    t: int,
)
    requires
        verify_spec(token, pk, now_ms).payload matches Some(p) && p.expires_at == Some(e),
        rfc3339_ts(e) == Some(t),
    ensures
        verify_spec(token, pk, now_ms).expired == (now_ms > t),
        verify_spec(token, pk, now_ms).valid == (now_ms <= t),
        now_ms > t ==> verify_spec(token, pk, now_ms).error == Some(LicenseError::Expired),
        now_ms <= t ==> verify_spec(token, pk, now_ms).error is None,
{
}

/// An unparseable expiry stamp is deliberately treated as "not
/// expired": the fail-open policy, stated so it cannot pass unnoticed.
pub proof fn lemma_unparseable_expiry_fails_open(
    token: Seq<char>,
    pk: Seq<u8>,
    now_ms: int,
    e: Seq<char>,
)
    requires
        verify_spec(token, pk, now_ms).payload matches Some(p) && p.expires_at == Some(e),
        rfc3339_ts(e) is None,
    ensures
        !verify_spec(token, pk, now_ms).expired,
        verify_spec(token, pk, now_ms).valid,
{
}

} // verus!
