use vstd::prelude::*;
use ed25519_dalek::Signer;
use ed25519_dalek::Verifier;

verus! {

/// The Ed25519 signature (RFC 8032, deterministic) of a message under a
/// 32-byte secret seed. Named: it is a function of seed and message alone.
pub uninterp spec fn sig_of(sk: Seq<u8>, msg: Seq<u8>) -> Seq<u8>;

/// Whether an Ed25519 signature verifies under a public key for a
/// message. Named: dalek's check is a deterministic function of the three.
pub uninterp spec fn verify_ok(pk: Seq<u8>, msg: Seq<u8>, sig: Seq<u8>) -> bool;

/// The public key derived from a 32-byte secret seed.
pub uninterp spec fn pk_of(sk: Seq<u8>) -> Seq<u8>;

/// Whether 32 bytes are a well-formed Ed25519 public key, that is, decode
/// to a curve point.
pub uninterp spec fn pk_valid(pk: Seq<u8>) -> bool;

/// An Ed25519 signing seed. Any 32 bytes are a valid seed.
pub struct SecretKey {
    bytes: [u8; 32],
}

/// An Ed25519 public key whose bytes have been checked to decode to a
/// curve point.
pub struct PublicKey {
    bytes: [u8; 32],
}

impl View for SecretKey {
    type V = Seq<u8>;

    closed spec fn view(&self) -> Seq<u8> {
        self.bytes@
    }
}

impl View for PublicKey {
    type V = Seq<u8>;

    closed spec fn view(&self) -> Seq<u8> {
        self.bytes@
    }
}

impl SecretKey {
    pub fn from_bytes(bytes: [u8; 32]) -> (r: SecretKey)
        ensures
            r@ == bytes@,
    {
        SecretKey { bytes }
    }

    /// The public half of this keypair.
    pub fn public_key(&self) -> (r: PublicKey)
        ensures
            r.wf(),
            r@ == pk_of(self@),
    {
        let bytes = derive_public_key(&self.bytes);
        PublicKey { bytes }
    }
}

impl PublicKey {
    /// Well-formedness: the bytes decode to a curve point. Established by
    /// both constructors and required by the verifier.
    pub closed spec fn wf(&self) -> bool {
        pk_valid(self.bytes@)
    }

    /// Accept key material, of any length, as a public key: exactly the
    /// 32-byte strings that decode to a curve point are accepted.
    pub fn from_bytes(bytes: &Vec<u8>) -> (r: Option<PublicKey>)
        ensures
            r is Some <==> bytes@.len() == 32 && pk_valid(bytes@),
            r matches Some(k) ==> k.wf() && k@ == bytes@,
    {
        if bytes.len() != 32 {
            return None;
        }
        let mut arr: [u8; 32] = [0u8; 32];
        let mut i: usize = 0;
        while i < 32
            invariant
                i <= 32,
                bytes@.len() == 32,
                arr@.len() == 32,
                forall|j: int| 0 <= j < i ==> arr@[j] == bytes@[j],
            decreases 32 - i,
        {
            arr[i] = bytes[i];
            i += 1;
        }
        proof {
            assert(arr@ =~= bytes@);
        }
        if public_key_valid(&arr) {
            Some(PublicKey { bytes: arr })
        } else {
            None
        }
    }
}

/// Relies on dalek's SigningKey::verifying_key: derives the public key of
/// a seed; a derived key always decodes to a curve point.
#[verifier::external_body]
fn derive_public_key(sk: &[u8; 32]) -> (r: [u8; 32])
    ensures
        r@ == pk_of(sk@),
        pk_valid(r@),
{
    ed25519_dalek::SigningKey::from_bytes(sk).verifying_key().to_bytes()
}

/// Relies on dalek's VerifyingKey::from_bytes: succeeds exactly when the
/// bytes decode to a curve point.
#[verifier::external_body]
fn public_key_valid(pk: &[u8; 32]) -> (r: bool)
    ensures
        r == pk_valid(pk@),
{
    ed25519_dalek::VerifyingKey::from_bytes(pk).is_ok()
}

/// Relies on dalek's SigningKey::sign (RFC 8032 Ed25519): deterministic,
/// 64 bytes, and a signature so produced verifies under the seed's own
/// public key.
#[verifier::external_body]
pub fn ed25519_sign(sk: &SecretKey, msg: &[u8]) -> (r: Vec<u8>)
    ensures
        r@ == sig_of(sk@, msg@),
        r@.len() == 64,
        verify_ok(pk_of(sk@), msg@, r@),
{
    let key = ed25519_dalek::SigningKey::from_bytes(&sk.bytes);
    key.sign(msg).to_bytes().to_vec()
}

/// Relies on dalek's VerifyingKey::verify: a deterministic check of the
/// signature equation for this key, message and signature.
#[verifier::external_body]
pub fn ed25519_verify(pk: &PublicKey, msg: &[u8], sig: &[u8]) -> (r: bool)
    requires
        pk.wf(),
        sig@.len() == 64,
    ensures
        r == verify_ok(pk@, msg@, sig@),
{
    let key = match ed25519_dalek::VerifyingKey::from_bytes(&pk.bytes) {
        Ok(k) => k,
        Err(_) => return false,
    };
    let mut arr = [0u8; 64];
    arr.copy_from_slice(sig);
    let signature = ed25519_dalek::Signature::from_bytes(&arr);
    key.verify(msg, &signature).is_ok()
}

} // verus!
