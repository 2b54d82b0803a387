//! Signing and verification of content, as the signing stage of a message
//! does it: the content is hashed with a digest, and the backend signs or
//! verifies the hash value.

use vstd::prelude::*;
use crate::error::Result;
use crate::hash::Digest;
use crate::interface::Asymmetric;
use crate::mem::Protected;

verus! {

/// The hash value of `data` under a fresh accumulator; fails where the
/// accumulator yields none for `data`.
pub fn digest_of<D: Digest>(hasher: D, data: &[u8]) -> (r: Result<Vec<u8>>)
    requires
        hasher.input() == Seq::<u8>::empty(),
    ensures
        match D::hash_of(data@) {
            Some(h) => r is Ok && r->Ok_0@ == h,
            None => r is Err && r->Err_0 is CollisionDetected,
        },
{
    let mut hasher = hasher;
    hasher.update(data);
    assert(hasher.input() =~= data@);
    hasher.into_digest()
}

/// Whether `sig` is a valid Ed25519 signature by `public` over the hash
/// value of `data`.
pub open spec fn ed25519_signed<B: Asymmetric, D: Digest>(
    public: Seq<u8>,
    data: Seq<u8>,
    sig: Seq<u8>,
) -> bool {
    D::hash_of(data) matches Some(h) && B::ed25519_valid(public, h, sig)
}

/// Whether `sig` is a valid ML-DSA-65 signature by `public` over the hash
/// value of `data`.
pub open spec fn mldsa65_signed<B: Asymmetric, D: Digest>(
    public: Seq<u8>,
    data: Seq<u8>,
    sig: Seq<u8>,
) -> bool {
    D::hash_of(data) matches Some(h) && B::mldsa65_valid(public, h, sig)
}

/// Signs `data` with an Ed25519 key pair. Where the two keys form a pair,
/// the signature verifies under `public`. Content that the digest refuses
/// is not signed.
pub fn sign_ed25519<B: Asymmetric, D: Digest>(
    hasher: D,
    data: &[u8],
    secret: &Protected,
    public: &[u8; 32],
) -> (r: Result<[u8; 64]>)
    requires
        hasher.input() == Seq::<u8>::empty(),
    ensures
        D::hash_of(data@) is None ==> r is Err,
        r is Ok && B::ed25519_pair(secret@, public@) ==> ed25519_signed::<B, D>(
            public@,
            data@,
            r->Ok_0@,
        ),
{
    match digest_of(hasher, data) {
        Ok(h) => B::ed25519_sign(secret, public, h.as_slice()),
        Err(e) => Err(e),
    }
}

/// Whether `sig` is a valid Ed25519 signature by `public` over `data`. An
/// invalid signature yields `false`; content that the digest refuses fails.
pub fn verify_ed25519<B: Asymmetric, D: Digest>(
    hasher: D,
    data: &[u8],
    public: &[u8; 32],
    sig: &[u8; 64],
) -> (r: Result<bool>)
    requires
        hasher.input() == Seq::<u8>::empty(),
    ensures
        D::hash_of(data@) is None ==> r is Err,
        r is Ok ==> r->Ok_0 == ed25519_signed::<B, D>(public@, data@, sig@),
{
    match digest_of(hasher, data) {
        Ok(h) => B::ed25519_verify(public, h.as_slice(), sig),
        Err(e) => Err(e),
    }
}

/// Signs `data` with an ML-DSA-65 secret key; the signature verifies under
/// every public key that pairs with `secret`. Content that the digest
/// refuses is not signed.
pub fn sign_mldsa65<B: Asymmetric, D: Digest>(hasher: D, data: &[u8], secret: &Protected) -> (r:
    Result<Box<[u8; 3309]>>)
    requires
        hasher.input() == Seq::<u8>::empty(),
    ensures
        D::hash_of(data@) is None ==> r is Err,
        r is Ok ==> forall|public: Seq<u8>| #[trigger]
            B::mldsa65_pair(secret@, public) ==> mldsa65_signed::<B, D>(public, data@, r->Ok_0@),
{
    match digest_of(hasher, data) {
        Ok(h) => B::mldsa65_sign(secret, h.as_slice()),
        Err(e) => Err(e),
    }
}

/// Whether `sig` is a valid ML-DSA-65 signature by `public` over `data`.
/// An invalid signature yields `false`; content that the digest refuses
/// fails.
pub fn verify_mldsa65<B: Asymmetric, D: Digest>(
    hasher: D,
    data: &[u8],
    public: &[u8; 1952],
    sig: &[u8; 3309],
) -> (r: Result<bool>)
    requires
        hasher.input() == Seq::<u8>::empty(),
    ensures
        D::hash_of(data@) is None ==> r is Err,
        r is Ok ==> r->Ok_0 == mldsa65_signed::<B, D>(public@, data@, sig@),
{
    match digest_of(hasher, data) {
        Ok(h) => B::mldsa65_verify(public, h.as_slice(), sig),
        Err(e) => Err(e),
    }
}

} // verus!
