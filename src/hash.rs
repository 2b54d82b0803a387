//! The capability of a stateful hash accumulator.

use vstd::prelude::*;
use crate::error::Result;

verus! {

/// A hash accumulator: bytes go in with `update`, the hash value comes out
/// with `digest`, which also resets the accumulator for a new message.
pub trait Digest: Sized {
    /// The bytes absorbed since creation or the last reset.
    spec fn input(&self) -> Seq<u8>;

    /// The hash value of `input`, or `None` where the accumulator refuses
    /// to yield one for that input.
    spec fn hash_of(input: Seq<u8>) -> Option<Seq<u8>>;

    /// The length of every hash value, in bytes.
    spec fn hash_len() -> nat;

    /// Absorbs `data`.
    fn update(&mut self, data: &[u8])
        ensures
            final(self).input() == old(self).input() + data@,
    ;

    /// Writes the hash value of the absorbed bytes into `digest`, truncated
    /// to its length (the bytes of `digest` past the hash stay as they
    /// were), and resets the accumulator. Where no hash value is yielded
    /// (a collision attack was detected in the input), fails with
    /// `CollisionDetected` and leaves both the accumulator and `digest`
    /// unchanged.
    fn digest(&mut self, digest: &mut [u8]) -> (r: Result<()>)
        ensures
            final(digest)@.len() == old(digest)@.len(),
            match Self::hash_of(old(self).input()) {
                Some(h) => {
                    &&& r is Ok
                    &&& h.len() == Self::hash_len()
                    &&& final(self).input() == Seq::<u8>::empty()
                    &&& final(digest)@ == truncated_into(h, old(digest)@)
                },
                None => {
                    &&& r is Err
                    &&& r->Err_0 is CollisionDetected
                    &&& final(self).input() == old(self).input()
                    &&& final(digest)@ == old(digest)@
                },
            },
    ;

    /// The hash value of the absorbed bytes, consuming the accumulator;
    /// fails with `CollisionDetected` where no hash value is yielded.
    fn into_digest(self) -> (r: Result<Vec<u8>>)
        ensures
            match Self::hash_of(self.input()) {
                Some(h) => r is Ok && r->Ok_0@ == h && h.len() == Self::hash_len(),
                None => r is Err && r->Err_0 is CollisionDetected,
            },
    ;
}

/// `dst` with its first bytes replaced by those of `h`, as many as both
/// have.
pub open spec fn truncated_into(h: Seq<u8>, dst: Seq<u8>) -> Seq<u8> {
    if h.len() < dst.len() {
        h + dst.skip(h.len() as int)
    } else {
        h.take(dst.len() as int)
    }
}

} // verus!
