use vstd::prelude::*;

verus! {

/// Milliseconds for 9999-12-31T23:59:59.999Z, the last instant the
/// four-digit-year RFC 3339 form can carry; chrono represents far more.
pub const MAX_TIMESTAMP_MS: i64 = 253_402_300_799_999;

pub const MS_PER_DAY: i64 = 86_400_000;

/// The instant, in milliseconds since the Unix epoch, that an RFC 3339
/// string denotes, or `None` where the string does not parse. Named: the
/// RFC 3339 grammar is a function of the string alone.
pub uninterp spec fn rfc3339_ts(s: Seq<char>) -> Option<int>;

/// The RFC 3339 rendering of an instant, milliseconds since the Unix
/// epoch, in UTC with a `+00:00` offset. Named; the formatting wrapper
/// states what the token logic needs of it.
pub uninterp spec fn rfc3339_of(t: int) -> Seq<char>;

/// The expiry policy: absent means never expires; an unparseable stamp
/// is deliberately treated as not expired; otherwise expired once `now`
/// is strictly past the stamp.
pub open spec fn expired_spec(expires_at: Option<Seq<char>>, now_ms: int) -> bool {
    match expires_at {
        None => false,
        Some(s) => match rfc3339_ts(s) {
            Some(t) => now_ms > t,
            None => false,
        },
    }
}

/// Relies on chrono's DateTime::parse_from_rfc3339 and timestamp_millis:
/// parsing succeeds exactly on RFC 3339 strings and yields the absolute
/// instant they denote.
#[verifier::external_body]
pub fn parse_rfc3339_millis(s: &str) -> (r: Option<i64>)
    ensures
        r is Some <==> rfc3339_ts(s@) is Some,
        r matches Some(t) ==> rfc3339_ts(s@) == Some(t as int),
{
    chrono::DateTime::parse_from_rfc3339(s).ok().map(|d| d.timestamp_millis())
}

/// Relies on chrono's DateTime::from_timestamp_millis and to_rfc3339:
/// formatting succeeds on every instant up to year 9999 (chrono's own
/// range is far wider), and the rendered string parses back to the same
/// instant.
#[verifier::external_body]
pub fn format_rfc3339_millis(ms: i64) -> (r: Option<String>)
    ensures
        r matches Some(s) ==> s@ == rfc3339_of(ms as int),
        r matches Some(s) ==> rfc3339_ts(s@) == Some(ms as int),
        0 <= ms <= MAX_TIMESTAMP_MS ==> r is Some,
{
    chrono::DateTime::from_timestamp_millis(ms).map(|d| d.to_rfc3339())
}

/// The expiry policy over concrete values: pure, total, and exactly
/// `expired_spec` of its arguments.
pub fn is_expired(expires_at: &Option<String>, now_ms: i64) -> (r: bool)
    ensures
        r == expired_spec(expires_at.deep_view(), now_ms as int),
{
    match expires_at {
        None => false,
        Some(s) => match parse_rfc3339_millis(s.as_str()) {
            Some(t) => now_ms > t,
            None => false,
        },
    }
}

} // verus!
