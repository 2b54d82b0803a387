//! Streaming block-cipher contexts.

use vstd::prelude::*;
use crate::error::Result;
use crate::types::{BlockCipherMode, SymmetricAlgorithm};

verus! {

/// A stateful cipher bound at creation to one algorithm, mode, key and
/// initialization vector, and to one direction: a context made for
/// encryption never decrypts, and one made for decryption never encrypts.
pub trait Context: Sized {
    /// The cipher the context was created for.
    spec fn algo(&self) -> SymmetricAlgorithm;

    /// The chaining mode the context was created for.
    spec fn mode(&self) -> BlockCipherMode;

    /// The key the context was created with.
    spec fn key(&self) -> Seq<u8>;

    /// The initialization vector the context was created with.
    spec fn iv(&self) -> Seq<u8>;

    /// Whether the context was created for encryption.
    spec fn encrypting(&self) -> bool;

    /// Encrypts `src` into `dst`; the context stays bound to what it was
    /// created for, only its chaining state moves on. Buffers of different lengths are refused.
    fn encrypt(&mut self, dst: &mut [u8], src: &[u8]) -> (r: Result<()>)
        requires
            old(self).encrypting(),
        ensures
            final(dst)@.len() == old(dst)@.len(),
            final(self).algo() == old(self).algo(),
            final(self).mode() == old(self).mode(),
            final(self).key() == old(self).key(),
            final(self).encrypting() == old(self).encrypting(),
            old(dst)@.len() != src@.len() ==> r is Err && r->Err_0 is InvalidArgument,
    ;

    /// Decrypts `src` into `dst`; the context stays bound to what it was
    /// created for, only its chaining state moves on. Buffers of different lengths are refused.
    fn decrypt(&mut self, dst: &mut [u8], src: &[u8]) -> (r: Result<()>)
        requires
            !old(self).encrypting(),
        ensures
            final(dst)@.len() == old(dst)@.len(),
            final(self).algo() == old(self).algo(),
            final(self).mode() == old(self).mode(),
            final(self).key() == old(self).key(),
            final(self).encrypting() == old(self).encrypting(),
            old(dst)@.len() != src@.len() ==> r is Err && r->Err_0 is InvalidArgument,
    ;
}

/// `c` is bound to exactly these parameters and this direction.
pub open spec fn bound_to<C: Context>(
    c: C,
    algo: SymmetricAlgorithm,
    mode: BlockCipherMode,
    key: Seq<u8>,
    iv: Seq<u8>,
    encrypting: bool,
) -> bool {
    &&& c.algo() == algo
    &&& c.mode() == mode
    &&& c.key() == key
    &&& c.iv() == iv
    &&& c.encrypting() == encrypting
}

} // verus!
