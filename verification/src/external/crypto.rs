//! Keccak-256 and secp256k1, from the `tiny-keccak` and `libsecp256k1` crates.
use crate::bytes::be_value;
use libsecp256k1::{sign, Message, PublicKey, SecretKey};
use tiny_keccak::{Hasher, Keccak};
use vstd::prelude::*;

verus! {

/// The Keccak-256 digest of `data`.
pub uninterp spec fn keccak256_digest(data: Seq<u8>) -> Seq<u8>;

/// The uncompressed secp256k1 public key of `secret`.
pub uninterp spec fn secp256k1_public_key(secret: Seq<u8>) -> Seq<u8>;

/// The deterministic secp256k1 signature of a 32-byte digest, and its recovery
/// id.
pub uninterp spec fn secp256k1_signature(digest: Seq<u8>, secret: Seq<u8>) -> (Seq<u8>, u8);

/// The uncompressed public key that `recover` of `libsecp256k1` finds from a 32-byte
/// digest, a signature of 64 bytes and its recovery id, where it finds one.
pub uninterp spec fn secp256k1_recovered_key(
    digest: Seq<u8>,
    signature: Seq<u8>,
    recovery_id: u8,
) -> Option<Seq<u8>>;

/// The order of the secp256k1 group.
pub open spec fn secp256k1_order() -> nat {
    0xFFFFFFFF_FFFFFFFF_FFFFFFFF_FFFFFFFE_BAAEDCE6_AF48A03B_BFD25E8C_D0364141nat
}

/// A secret key is 32 bytes that spell, most significant byte first, a number
/// above zero and below the group order.
pub open spec fn is_secret_key(bytes: Seq<u8>) -> bool {
    &&& bytes.len() == 32
    &&& 0 < be_value(bytes) < secp256k1_order()
}

/// Calls `Keccak::v256`, `update` and `finalize` of `tiny-keccak` for one run of
/// bytes and a 32-byte digest.
#[verifier::external_body]
pub(crate) fn keccak256(data: &[u8]) -> (digest: [u8; 32])
    ensures
        digest@ == keccak256_digest(data@),
{
    let mut hasher = Keccak::v256();
    hasher.update(data);
    let mut digest = [0u8; 32];
    hasher.finalize(&mut digest);
    digest
}

/// Calls `SecretKey::parse_slice` of `libsecp256k1`, which takes exactly the
/// secret keys and refuses zero, the group order and what lies above it.
#[verifier::external_body]
pub(crate) fn parses_as_secret_key(bytes: &[u8; 32]) -> (valid: bool)
    ensures
        valid == is_secret_key(bytes@),
{
    SecretKey::parse_slice(bytes).is_ok()
}

/// Calls `PublicKey::from_secret_key` and `PublicKey::serialize` of
/// `libsecp256k1`: a tag byte, then the 64 bytes of the point.
#[verifier::external_body]
pub(crate) fn public_key(secret: &[u8; 32]) -> (serialized: [u8; 65])
    requires
        is_secret_key(secret@),
    ensures
        serialized@ == secp256k1_public_key(secret@),
{
    PublicKey::from_secret_key(&SecretKey::parse(secret).unwrap()).serialize()
}

/// Calls `sign` of `libsecp256k1`, whose nonce depends on the key and the digest
/// alone, and serialises the signature and its recovery id, which is below four. What
/// it signs, `recover` of the same crate undoes: from digest, signature and recovery
/// id it finds the public key of `secret`. A signature whose first half is zero would
/// be refused there; `sign` does not rule that half out, so nothing is said of it.
#[verifier::external_body]
pub(crate) fn sign_digest(digest: &[u8; 32], secret: &[u8; 32]) -> (signed: ([u8; 64], u8))
    requires
        is_secret_key(secret@),
    ensures
        (signed.0@, signed.1) == secp256k1_signature(digest@, secret@),
        signed.1 < 4,
        be_value(signed.0@.take(32)) > 0 ==> secp256k1_recovered_key(digest@, signed.0@, signed.1)
            == Some(secp256k1_public_key(secret@)),
{
    let (signature, id) = sign(&Message::parse(digest), &SecretKey::parse(secret).unwrap());
    (signature.serialize(), id.serialize())
}

} // verus!
