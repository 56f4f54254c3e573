use vstd::prelude::*;
use base64::Engine;

verus! {

/// The standard base64 encoding of a byte sequence, with canonical `=`
/// padding. Named rather than spelled out; the wrappers below pin down
/// everything the token logic needs of it.
pub uninterp spec fn b64_of(b: Seq<u8>) -> Seq<char>;

/// The decoding induced by `b64_of`: defined only on canonical encodings,
/// which is exactly where the strict standard engine succeeds.
pub open spec fn b64_dec(s: Seq<char>) -> Option<Seq<u8>> {
    if exists|b: Seq<u8>| s == b64_of(b) {
        Some(choose|b: Seq<u8>| s == b64_of(b))
    } else {
        None
    }
}

/// Relies on base64's STANDARD engine encode: emits the canonical
/// encoding, whose alphabet (A-Z, a-z, 0-9, +, /, =) never contains a
/// dot, and which determines the input bytes uniquely.
#[verifier::external_body]
pub fn b64_encode(b: &[u8]) -> (r: String)
    ensures
        r@ == b64_of(b@),
        forall|i: int| 0 <= i < r@.len() ==> r@[i] != '.',
        forall|w: Seq<u8>| b64_of(w) == r@ ==> w == b@,
{
    base64::engine::general_purpose::STANDARD.encode(b)
}

/// Relies on base64's STANDARD engine decode: it is configured to require
/// canonical padding and reject trailing bits, so it succeeds exactly on
/// canonical encodings and inverts encode.
#[verifier::external_body]
pub fn b64_decode(s: &str) -> (r: Option<Vec<u8>>)
    ensures
        r matches Some(v) ==> s@ == b64_of(v@),
        r matches Some(v) ==> forall|w: Seq<u8>| s@ == b64_of(w) ==> w == v@,
        forall|w: Seq<u8>| s@ == b64_of(w) ==> r is Some,
{
    base64::engine::general_purpose::STANDARD.decode(s).ok()
}

/// What the strict decoder accepts is exactly the canonical encodings,
/// so on those inputs `b64_dec` returns the encoded bytes.
pub proof fn lemma_b64_dec_of_encoding(s: Seq<char>, b: Seq<u8>)
    requires
        s == b64_of(b),
        forall|w: Seq<u8>| s == b64_of(w) ==> w == b,
    ensures
        b64_dec(s) == Some(b),
{
    assert(exists|w: Seq<u8>| s == b64_of(w));
}

} // verus!
