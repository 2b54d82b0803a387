//! A byte buffer for secret material that is wiped when it is released.

use vstd::prelude::*;

verus! {

/// Secret bytes (key material, session keys).
///
/// Its owner overwrites it with zeros through `wipe` before releasing it.
/// It is never copied implicitly: a copy is made with `clone`, which yields
/// a fresh buffer of its own.
pub struct Protected {
    bytes: Vec<u8>,
}

impl View for Protected {
    type V = Seq<u8>;

    closed spec fn view(&self) -> Seq<u8> {
        self.bytes@
    }
}

impl Protected {
    /// A buffer of `len` zero bytes.
    pub fn new(len: usize) -> (r: Protected)
        ensures
            r@ == Seq::new(len as nat, |_i: int| 0u8),
    {
        let mut bytes: Vec<u8> = Vec::with_capacity(len);
        let mut i: usize = 0;
        while i < len
            invariant
                i <= len,
                bytes@ == Seq::new(i as nat, |_i: int| 0u8),
            decreases len - i,
        {
            bytes.push(0u8);
            i = i + 1;
        }
        Protected { bytes }
    }

    /// A buffer that takes over `bytes`.
    pub fn from_vec(bytes: Vec<u8>) -> (r: Protected)
        ensures
            r@ == bytes@,
    {
        Protected { bytes }
    }

    /// A buffer holding a copy of `bytes`.
    pub fn from_slice(bytes: &[u8]) -> (r: Protected)
        ensures
            r@ == bytes@,
    {
        let mut v: Vec<u8> = Vec::with_capacity(bytes.len());
        let mut i: usize = 0;
        while i < bytes.len()
            invariant
                i <= bytes@.len(),
                v@ == bytes@.take(i as int),
            decreases bytes@.len() - i,
        {
            v.push(bytes[i]);
            i = i + 1;
            assert(v@ =~= bytes@.take(i as int));
        }
        assert(v@ =~= bytes@);
        Protected { bytes: v }
    }

    /// The number of secret bytes.
    pub fn len(&self) -> (r: usize)
        ensures
            r == self@.len(),
    {
        self.bytes.len()
    }

    /// Whether the buffer holds no bytes.
    pub fn is_empty(&self) -> (r: bool)
        ensures
            r == (self@.len() == 0),
    {
        self.bytes.len() == 0
    }

    /// The secret bytes, borrowed read-only.
    pub fn as_slice(&self) -> (r: &[u8])
        ensures
            r@ == self@,
    {
        self.bytes.as_slice()
    }

    /// Overwrites every byte with zero; the length stays.
    pub fn wipe(&mut self)
        ensures
            final(self)@ == Seq::new(old(self)@.len(), |_i: int| 0u8),
    {
        let n = self.bytes.len();
        let mut i: usize = 0;
        while i < n
            invariant
                i <= n,
                n == self.bytes@.len(),
                n == old(self)@.len(),
                forall|j: int| 0 <= j < i ==> self.bytes@[j] == 0u8,
            decreases n - i,
        {
            self.bytes[i] = 0u8;
            i = i + 1;
        }
        assert(self.bytes@ =~= Seq::new(n as nat, |_i: int| 0u8));
    }
}

impl Clone for Protected {
    /// A fresh buffer with the same bytes.
    fn clone(&self) -> (r: Protected)
        ensures
            r@ == self@,
    {
        Protected::from_slice(self.bytes.as_slice())
    }
}

} // verus!
