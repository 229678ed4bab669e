//! Hashes and signatures.

use crate::bignum::from_be;
use vstd::prelude::*;

verus! {

/// The SHA-256 hash of bytes.
pub uninterp spec fn sha256_hash(bytes: Seq<u8>) -> Seq<u8>;

/// Calls `sha2::Sha256::digest`: the hash, which has 32 bytes and depends on the
/// input alone.
#[verifier::external_body]
pub(crate) fn sha256(bytes: &[u8]) -> (hash: Vec<u8>)
    ensures
        hash@ == sha256_hash(bytes@),
        hash@.len() == 32,
{
    <sha2::Sha256 as sha2::Digest>::digest(bytes).to_vec()
}

/// The Keccak-256 hash of bytes.
pub uninterp spec fn keccak256_hash(bytes: Seq<u8>) -> Seq<u8>;

/// Calls `sha3::Keccak256::digest`: the hash, which has 32 bytes and depends on
/// the input alone.
#[verifier::external_body]
pub(crate) fn keccak256(bytes: &[u8]) -> (hash: Vec<u8>)
    ensures
        hash@ == keccak256_hash(bytes@),
        hash@.len() == 32,
{
    <sha3::Keccak256 as sha3::Digest>::digest(bytes).to_vec()
}

/// Whether 32 bytes are a public key of Ed25519.
pub uninterp spec fn is_ed25519_key(key: Seq<u8>) -> bool;

/// Calls `ed25519_dalek::VerifyingKey::from_bytes`: whether it takes the bytes
/// for a key, which depends on the bytes alone.
#[verifier::external_body]
pub(crate) fn ed25519_key_is_valid(key: &[u8]) -> (ok: bool)
    requires
        key@.len() == 32,
    ensures
        ok == is_ed25519_key(key@),
{
    let mut bytes = [0u8; 32];
    bytes.copy_from_slice(key);
    ed25519_dalek::VerifyingKey::from_bytes(&bytes).is_ok()
}

/// Whether a signature of Ed25519 is good for a key and a message.
pub uninterp spec fn ed25519_verifies(key: Seq<u8>, message: Seq<u8>, signature: Seq<u8>) -> bool;

/// Calls `ed25519_dalek::VerifyingKey::verify_strict`: whether it accepts the
/// signature, which depends on the key, the message and the signature alone. Of
/// bytes that are no key the answer is no.
#[verifier::external_body]
pub(crate) fn ed25519_verify(key: &[u8], message: &[u8], signature: &[u8]) -> (ok: bool)
    requires
        key@.len() == 32,
        signature@.len() == 64,
    ensures
        ok == ed25519_verifies(key@, message@, signature@),
        ok ==> is_ed25519_key(key@),
{
    let mut key_bytes = [0u8; 32];
    key_bytes.copy_from_slice(key);
    let mut signature_bytes = [0u8; 64];
    signature_bytes.copy_from_slice(signature);
    match ed25519_dalek::VerifyingKey::from_bytes(&key_bytes) {
        Ok(k) => k.verify_strict(message, &ed25519_dalek::Signature::from_bytes(&signature_bytes)).is_ok(),
        Err(_) => false,
    }
}

/// The order of the secp256k1 curve.
pub open spec fn secp256k1_order() -> int {
    0xFFFFFFFF_FFFFFFFF_FFFFFFFF_FFFFFFFE_BAAEDCE6_AF48A03B_BFD25E8C_D0364141int
}

/// Whether 64 bytes are a signature of ECDSA over secp256k1: two numbers of 32
/// bytes, both above zero and below the order of the curve.
pub open spec fn is_secp256k1_signature(signature: Seq<u8>) -> bool {
    &&& 0 < from_be(signature.subrange(0, 32)) < secp256k1_order()
    &&& 0 < from_be(signature.subrange(32, 64)) < secp256k1_order()
}

/// Calls `k256::ecdsa::Signature::from_slice`: whether it takes the bytes for a
/// signature, which it does where both numbers are in range.
#[verifier::external_body]
pub(crate) fn secp256k1_signature_is_valid(signature: &[u8]) -> (ok: bool)
    requires
        signature@.len() == 64,
    ensures
        ok == is_secp256k1_signature(signature@),
{
    k256::ecdsa::Signature::from_slice(signature).is_ok()
}

/// The uncompressed public key that a signature of a digest was made with, if
/// there is one.
pub uninterp spec fn secp256k1_recovered(digest: Seq<u8>, signature: Seq<u8>, recovery_id: u8) -> Option<Seq<u8>>;

/// Calls `k256::ecdsa::VerifyingKey::recover_from_prehash`: the key, as the 65
/// bytes of its uncompressed point, or nothing; which it is depends on the
/// arguments alone. Of bytes that are no signature the answer is nothing.
#[verifier::external_body]
pub(crate) fn secp256k1_recover(digest: &[u8], signature: &[u8], recovery_id: u8) -> (key: Option<Vec<u8>>)
    requires
        digest@.len() == 32,
        signature@.len() == 64,
        recovery_id < 4,
    ensures
        match (key, secp256k1_recovered(digest@, signature@, recovery_id)) {
            (Some(k), Some(s)) => k@ == s && s.len() == 65 && is_secp256k1_signature(signature@),
            (None, None) => true,
            _ => false,
        },
{
    let parsed = k256::ecdsa::Signature::from_slice(signature).ok()?;
    let id = k256::ecdsa::RecoveryId::from_byte(recovery_id)?;
    let key = k256::ecdsa::VerifyingKey::recover_from_prehash(digest, &parsed, id).ok()?;
    Some(key.to_encoded_point(false).as_bytes().to_vec())
}

} // verus!
