//! Ed25519 key material: public keys, signatures and their verification, and
//! the Blake2 digest used to map addresses onto accounts.

use vstd::prelude::*;
use sp_core::Pair;

verus! {

/// The public key of the ed25519 key pair grown from `seed`.
pub uninterp spec fn public_of(seed: Seq<u8>) -> Seq<u8>;

/// The ed25519 signature of `msg` under the key pair grown from `seed`.
pub uninterp spec fn signature_of(seed: Seq<u8>, msg: Seq<u8>) -> Seq<u8>;

/// Whether `sig` is a valid ed25519 signature of `msg` under `public`.
pub uninterp spec fn verifies(sig: Seq<u8>, msg: Seq<u8>, public: Seq<u8>) -> bool;

/// The 32-byte Blake2b digest of `data`.
pub uninterp spec fn blake2_256_of(data: Seq<u8>) -> Seq<u8>;

/// Relies on `sp_core::ed25519::Pair::from_seed` and `public`: the public key
/// is a function of the seed alone.
#[verifier::external_body]
pub(crate) fn ed25519_public(seed: &[u8; 32]) -> (r: [u8; 32])
    ensures
        r@ == public_of(seed@),
{
    sp_core::ed25519::Pair::from_seed(seed).public().0
}

/// Relies on `sp_core::ed25519::Pair::sign`: ed25519 signing is deterministic,
/// and a signature it makes verifies under the pair's public key.
#[verifier::external_body]
pub(crate) fn ed25519_sign(seed: &[u8; 32], msg: &[u8]) -> (r: [u8; 64])
    ensures
        r@ == signature_of(seed@, msg@),
        verifies(r@, msg@, public_of(seed@)),
{
    sp_core::ed25519::Pair::from_seed(seed).sign(msg).0
}

/// Relies on `sp_core::ed25519::Pair::verify`, which answers from its three
/// arguments alone.
#[verifier::external_body]
pub(crate) fn ed25519_verify(sig: &[u8; 64], msg: &[u8], public: &[u8; 32]) -> (r: bool)
    ensures
        r == verifies(sig@, msg@, public@),
{
    let sig = sp_core::ed25519::Signature::from_raw(*sig);
    let public = sp_core::ed25519::Public::from_raw(*public);
    sp_core::ed25519::Pair::verify(&sig, msg, &public)
}

/// Relies on `sp_core::hashing::blake2_256`, a digest of its argument alone.
#[verifier::external_body]
pub(crate) fn blake2_256(data: &[u8]) -> (r: [u8; 32])
    ensures
        r@ == blake2_256_of(data@),
{
    sp_core::hashing::blake2_256(data)
}

/// The public key of the signing pair grown from `seed`.
pub fn signing_public_key(seed: &[u8; 32]) -> (r: [u8; 32])
    ensures
        r@ == public_of(seed@),
{
    ed25519_public(seed)
}

/// Signs `msg` with the pair grown from `seed`.
pub fn sign(seed: &[u8; 32], msg: &[u8]) -> (r: [u8; 64])
    ensures
        r@ == signature_of(seed@, msg@),
        verifies(r@, msg@, public_of(seed@)),
{
    ed25519_sign(seed, msg)
}

} // verus!
