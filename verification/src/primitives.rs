//! The cryptographic primitives that the protocol rests on: X25519 key
//! agreement (`x25519_dalek`), keyed BLAKE2b authentication (`orion`) and
//! fresh random bytes (`rand`).

use vstd::prelude::*;

verus! {

/// The X25519 basepoint of RFC 7748 (the u-coordinate 9), as bytes; equal to
/// `x25519_dalek::X25519_BASEPOINT_BYTES`.
pub const BASEPOINT: [u8; 32] = [
    9u8, 0u8, 0u8, 0u8, 0u8, 0u8, 0u8, 0u8, 0u8, 0u8, 0u8, 0u8, 0u8, 0u8, 0u8, 0u8,
    0u8, 0u8, 0u8, 0u8, 0u8, 0u8, 0u8, 0u8, 0u8, 0u8, 0u8, 0u8, 0u8, 0u8, 0u8, 0u8,
];

/// What `x25519_dalek::x25519(k, u)` returns: the X25519 function of RFC 7748
/// applied to the scalar `k` (clamped) and the point `u`.
pub uninterp spec fn spec_x25519(k: [u8; 32], u: [u8; 32]) -> [u8; 32];

/// Calls `x25519_dalek::x25519(k, u)`.
///
/// The contract names the result `spec_x25519(k, u)`, and states the
/// agreement that the crate documents for two parties (its example asserts
/// `alice_shared == bob_shared`): when `u` is the public key of the secret
/// `b`, that is `spec_x25519(b, BASEPOINT)`, the result equals what `b`
/// computes with the public key of `k`.
#[verifier::external_body]
pub(crate) fn x25519(k: [u8; 32], u: [u8; 32]) -> (res: [u8; 32])
    ensures
        res == spec_x25519(k, u),
        forall|b: [u8; 32]|
            u == spec_x25519(b, BASEPOINT) ==> res == spec_x25519(b, spec_x25519(k, BASEPOINT)),
{
    x25519_dalek::x25519(k, u)
}

/// Calls `rand::random::<[u8; 32]>()`: 32 bytes from the thread-local
/// generator, which `rand` seeds from the operating system. Nothing is
/// promised of the bytes, and `rand` panics if the operating system yields no
/// entropy.
#[verifier::external_body]
pub(crate) fn random_bytes() -> (res: [u8; 32]) {
    rand::random::<[u8; 32]>()
}

/// What `orion::auth::authenticate_verify(tag, key, data)` decides: whether
/// `tag` is the keyed BLAKE2b-256 tag of `data` under `key`.
pub uninterp spec fn spec_authenticate_verify(tag: Seq<u8>, key: Seq<u8>, data: Seq<u8>) -> bool;

/// Calls `orion::auth::authenticate_verify`, after converting the bytes to
/// orion's `Tag` and `SecretKey`; `true` when it returns `Ok`.
///
/// The contract names the outcome `spec_authenticate_verify(tag, key, data)`
/// and states what the source shows of tags of the wrong length: orion only
/// accepts a 32-byte tag (a `Tag` conversion that fails is `false` too).
#[verifier::external_body]
pub(crate) fn authenticate_verify(tag: &[u8], key: &[u8; 32], data: &[u8; 32]) -> (res: bool)
    ensures
        res == spec_authenticate_verify(tag@, key@, data@),
        tag@.len() != 32 ==> !res,
{
    match (orion::auth::Tag::try_from(tag), orion::auth::SecretKey::try_from(&key[..])) {
        (Ok(t), Ok(k)) => orion::auth::authenticate_verify(&t, &k, &data[..]).is_ok(),
        _ => false,
    }
}

} // verus!
