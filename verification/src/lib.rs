//! Offline software license tokens: a payload is serialized to a
//! canonical JSON form, base64-encoded, signed with Ed25519, and joined
//! to the base64 signature by a dot. Verification splits, decodes,
//! checks the signature over the raw encoded segment, and applies the
//! expiry policy; every step is specified and proved here, with the
//! base64, Ed25519 and RFC 3339 primitives called through trusted
//! wrappers.
pub mod b64;
pub mod crypto;
pub mod json;
pub mod payload;
pub mod text;
pub mod timestamp;
pub mod token;
