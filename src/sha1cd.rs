//! SHA-1 with collision detection.

use vstd::prelude::*;
use sha1collisiondetection::{Collision, Sha1CD};
use crate::error::{Error, Result};
use crate::hash::{truncated_into, Digest};

verus! {

#[verifier::external_type_specification]
#[verifier::external_body]
pub struct ExSha1CD(Sha1CD);

#[verifier::external_type_specification]
#[verifier::external_body]
pub struct ExCollision(Collision);

/// The bytes that a collision-detecting SHA-1 state has absorbed since it
/// was created.
pub uninterp spec fn sha1cd_absorbed(h: Sha1CD) -> Seq<u8>;

/// What collision-detecting SHA-1 yields on `input`: the 20-byte digest,
/// or `None` where it detects a collision attack in `input`.
pub uninterp spec fn sha1cd_outcome(input: Seq<u8>) -> Option<Seq<u8>>;

/// Relies on `Sha1CD::default`: a fresh state, configured with collision
/// detection on, that has absorbed nothing.
#[verifier::external_body]
fn sha1cd_new() -> (r: Sha1CD)
    ensures
        sha1cd_absorbed(r) == Seq::<u8>::empty(),
{
    Sha1CD::default()
}

/// Relies on `Sha1CD::update`: appends `data` to the absorbed bytes.
#[verifier::external_body]
fn sha1cd_update(h: &mut Sha1CD, data: &[u8])
    ensures
        sha1cd_absorbed(*final(h)) == sha1cd_absorbed(*old(h)) + data@,
{
    h.update(data);
}

/// Relies on `Sha1CD`'s derived `Clone`: the copy has absorbed the same
/// bytes.
#[verifier::external_body]
fn sha1cd_clone(h: &Sha1CD) -> (r: Sha1CD)
    ensures
        sha1cd_absorbed(r) == sha1cd_absorbed(*h),
{
    h.clone()
}

/// Relies on `Sha1CD::finalize_cd`: the digest of the absorbed bytes, or
/// `Collision` where a collision attack was detected in them.
#[verifier::external_body]
fn sha1cd_finalize(h: Sha1CD) -> (r: std::result::Result<[u8; 20], Collision>)
    ensures
        match r {
            Ok(d) => sha1cd_outcome(sha1cd_absorbed(h)) == Some(d@),
            Err(_) => sha1cd_outcome(sha1cd_absorbed(h)) is None,
        },
{
    match h.finalize_cd() {
        Ok(d) => {
            let mut out = [0u8; 20];
            out.copy_from_slice(d.as_slice());
            Ok(out)
        },
        Err(c) => Err(c),
    }
}

/// SHA-1 with collision detection.
///
/// Where the detection fires on the hashed bytes, no digest is handed out:
/// a collision attack forges signatures over SHA-1, and this refuses them.
pub struct Sha1 {
    hasher: Sha1CD,
}

impl Sha1 {
    /// A hasher that has absorbed nothing.
    pub fn new() -> (r: Sha1)
        ensures
            r.input() == Seq::<u8>::empty(),
    {
        Sha1 { hasher: sha1cd_new() }
    }

    /// Absorbs `data`.
    pub fn update(&mut self, data: &[u8])
        ensures
            final(self).input() == old(self).input() + data@,
    {
        sha1cd_update(&mut self.hasher, data);
    }

    /// The digest of the absorbed bytes, or `CollisionDetected` where the
    /// detection fires on them.
    pub fn finalize(self) -> (r: Result<[u8; 20]>)
        ensures
            r is Ok <==> Self::hash_of(self.input()) is Some,
            r is Ok ==> Self::hash_of(self.input()) == Some(r->Ok_0@),
            r is Err ==> r->Err_0 is CollisionDetected,
    {
        match sha1cd_finalize(self.hasher) {
            Ok(d) => Ok(d),
            Err(_) => Err(Error::CollisionDetected),
        }
    }
}

impl Default for Sha1 {
    fn default() -> (r: Sha1)
        ensures
            r.input() == Seq::<u8>::empty(),
    {
        Sha1::new()
    }
}

impl Clone for Sha1 {
    /// A hasher that has absorbed the same bytes.
    fn clone(&self) -> (r: Sha1)
        ensures
            r.input() == self.input(),
    {
        Sha1 { hasher: sha1cd_clone(&self.hasher) }
    }
}

impl Digest for Sha1 {
    closed spec fn input(&self) -> Seq<u8> {
        sha1cd_absorbed(self.hasher)
    }

    open spec fn hash_of(input: Seq<u8>) -> Option<Seq<u8>> {
        sha1cd_outcome(input)
    }

    open spec fn hash_len() -> nat {
        20
    }

    fn update(&mut self, data: &[u8]) {
        sha1cd_update(&mut self.hasher, data);
    }

    fn digest(&mut self, digest: &mut [u8]) -> (r: Result<()>) {
        let snapshot = sha1cd_clone(&self.hasher);
        match sha1cd_finalize(snapshot) {
            Ok(hash) => {
                let copy_len: usize = if digest.len() < 20 { digest.len() } else { 20 };
                let ghost d0 = digest@;
                let mut i: usize = 0;
                while i < copy_len
                    invariant
                        copy_len <= 20,
                        copy_len <= d0.len(),
                        copy_len == if d0.len() < 20 { d0.len() } else { 20 },
                        i <= copy_len,
                        digest@.len() == d0.len(),
                        forall|j: int| 0 <= j < i ==> digest@[j] == hash@[j],
                        forall|j: int| i <= j < d0.len() ==> digest@[j] == d0[j],
                    decreases copy_len - i,
                {
                    digest[i] = hash[i];
                    i = i + 1;
                }
                assert(digest@ =~= truncated_into(hash@, d0));
                self.hasher = sha1cd_new();
                Ok(())
            },
            Err(_) => Err(Error::CollisionDetected),
        }
    }

    fn into_digest(self) -> (r: Result<Vec<u8>>) {
        match sha1cd_finalize(self.hasher) {
            Ok(d) => {
                let mut v: Vec<u8> = Vec::new();
                let mut i: usize = 0;
                while i < 20
                    invariant
                        i <= 20,
                        v@ == d@.take(i as int),
                    decreases 20 - i,
                {
                    v.push(d[i]);
                    i = i + 1;
                    assert(v@ =~= d@.take(i as int));
                }
                assert(d@.take(20) =~= d@);
                Ok(v)
            },
            Err(_) => Err(Error::CollisionDetected),
        }
    }
}

/// A SHA-1 hasher with collision detection that has absorbed nothing.
pub fn build() -> (r: Box<Sha1>)
    ensures
        r.input() == Seq::<u8>::empty(),
{
    Box::new(Sha1::new())
}

} // verus!
