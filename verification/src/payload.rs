use vstd::prelude::*;
use vstd::string::StringExecFns;

verus! {

/// The signed claim: who is licensed, for what product, on what plan,
/// when it was issued, and when (if ever) it expires. Timestamps are
/// RFC 3339 strings; `expires_at == None` means the license never expires.
#[derive(Debug, Clone)]
pub struct LicensePayload {
    pub email: String,
    pub product_id: String,
    pub plan: String,
    pub issued_at: String,
    pub expires_at: Option<String>,
}

/// The mathematical content of a payload: its five fields as character
/// sequences.
pub struct PayloadView {
    pub email: Seq<char>,
    pub product_id: Seq<char>,
    pub plan: Seq<char>,
    pub issued_at: Seq<char>,
    pub expires_at: Option<Seq<char>>,
}

impl View for LicensePayload {
    type V = PayloadView;

    open spec fn view(&self) -> PayloadView {
        PayloadView {
            email: self.email@,
            product_id: self.product_id@,
            plan: self.plan@,
            issued_at: self.issued_at@,
            expires_at: self.expires_at.deep_view(),
        }
    }
}

/// The closed set of ways issuing or checking a license can fail, one
/// variant per stage.
#[derive(Debug, Clone, Copy, PartialEq, Eq, Structural)]
pub enum LicenseError {
    /// The token does not consist of exactly two `.`-separated segments.
    MalformedToken,
    /// A token segment is not valid base64, or the payload bytes are not
    /// valid UTF-8.
    EncodingError,
    /// The payload is not the canonical JSON form of a license claim.
    ParseError,
    /// The signature segment does not decode to exactly 64 bytes.
    SignatureLengthError,
    /// The signature does not verify under the configured public key.
    SignatureInvalid,
    /// The signature verifies but the license is past its expiry.
    Expired,
    /// Key material handed in at startup is unusable.
    KeyConfigurationError,
}

/// The diagnostic text for each failure, as a character sequence.
pub open spec fn message_spec(e: LicenseError) -> Seq<char> {
    match e {
        LicenseError::MalformedToken => "Invalid token format"@,
        LicenseError::EncodingError => "Failed to decode token segment"@,
        LicenseError::ParseError => "Failed to parse payload"@,
        LicenseError::SignatureLengthError => "Invalid signature length"@,
        LicenseError::SignatureInvalid => "Signature verification failed"@,
        LicenseError::Expired => "License has expired"@,
        LicenseError::KeyConfigurationError => "Invalid public key"@,
    }
}

impl LicenseError {
    /// A short human-readable diagnostic for this failure.
    pub fn message(&self) -> (r: String)
        ensures
            r@ == message_spec(*self),
    {
        match self {
            LicenseError::MalformedToken => String::from_str("Invalid token format"),
            LicenseError::EncodingError => String::from_str("Failed to decode token segment"),
            LicenseError::ParseError => String::from_str("Failed to parse payload"),
            LicenseError::SignatureLengthError => String::from_str("Invalid signature length"),
            LicenseError::SignatureInvalid => String::from_str("Signature verification failed"),
            LicenseError::Expired => String::from_str("License has expired"),
            LicenseError::KeyConfigurationError => String::from_str("Invalid public key"),
        }
    }
}

/// What checking a token yields: whether the license is valid now, the
/// claim it carries (withheld unless the signature verified), its expiry
/// stamp, whether it has expired, and the failure kind if any. `valid`
/// and `error` are never both set.
#[derive(Debug, Clone)]
pub struct LicenseStatus {
    pub valid: bool,
    pub payload: Option<LicensePayload>,
    pub expires_at: Option<String>,
    pub expired: bool,
    pub error: Option<LicenseError>,
}

/// The mathematical content of a verification outcome.
pub struct StatusView {
    pub valid: bool,
    pub payload: Option<PayloadView>,
    pub expires_at: Option<Seq<char>>,
    pub expired: bool,
    pub error: Option<LicenseError>,
}

impl View for LicenseStatus {
    type V = StatusView;

    open spec fn view(&self) -> StatusView {
        StatusView {
            valid: self.valid,
            payload: match self.payload {
                Some(p) => Some(p@),
                None => None,
            },
            expires_at: self.expires_at.deep_view(),
            expired: self.expired,
            error: self.error,
        }
    }
}

/// The plan a license request falls back to when none is named.
pub fn default_plan() -> (r: String)
    ensures
        r@ == "pro"@,
{
    String::from_str("pro")
}

/// The validity period, in days, a license request falls back to.
pub fn default_expires_days() -> (r: i64)
    ensures
        r == 365,
{
    365
}

} // verus!
