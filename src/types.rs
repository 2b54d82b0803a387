//! Algorithm identifiers and the multiprecision integers of key material.

use vstd::prelude::*;
use crate::mem::Protected;

verus! {

/// A public-key algorithm.
#[derive(Clone, Copy, Debug, PartialEq, Eq, Structural, Hash)]
pub enum PublicKeyAlgorithm {
    RSAEncryptSign,
    DSA,
    ElGamalEncrypt,
    ECDH,
    ECDSA,
    EdDSA,
    X25519,
    X448,
    Ed25519,
    Ed448,
    MLDSA65_Ed25519,
    MLDSA87_Ed448,
    SLHDSA128s,
    SLHDSA128f,
    SLHDSA256s,
    MLKEM768_X25519,
    MLKEM1024_X448,
    Private(u8),
    Unknown(u8),
}

/// An elliptic curve.
#[derive(Clone, Debug, PartialEq, Eq, Hash)]
pub enum Curve {
    NistP256,
    NistP384,
    NistP521,
    BrainpoolP256,
    BrainpoolP384,
    BrainpoolP512,
    Ed25519,
    Cv25519,
    /// A curve known only by its object identifier.
    Unknown(Vec<u8>),
}

/// A symmetric block cipher.
#[derive(Clone, Copy, Debug, PartialEq, Eq, Structural, Hash)]
pub enum SymmetricAlgorithm {
    IDEA,
    TripleDES,
    CAST5,
    Blowfish,
    AES128,
    AES192,
    AES256,
    Twofish,
    Camellia128,
    Camellia192,
    Camellia256,
    Private(u8),
    Unknown(u8),
}

/// The key length, in bytes, of a known cipher.
pub open spec fn key_len(algo: SymmetricAlgorithm) -> Option<nat> {
    match algo {
        SymmetricAlgorithm::IDEA => Some(16),
        SymmetricAlgorithm::TripleDES => Some(24),
        SymmetricAlgorithm::CAST5 => Some(16),
        SymmetricAlgorithm::Blowfish => Some(16),
        SymmetricAlgorithm::AES128 => Some(16),
        SymmetricAlgorithm::AES192 => Some(24),
        SymmetricAlgorithm::AES256 => Some(32),
        SymmetricAlgorithm::Twofish => Some(32),
        SymmetricAlgorithm::Camellia128 => Some(16),
        SymmetricAlgorithm::Camellia192 => Some(24),
        SymmetricAlgorithm::Camellia256 => Some(32),
        SymmetricAlgorithm::Private(_) => None,
        SymmetricAlgorithm::Unknown(_) => None,
    }
}

impl SymmetricAlgorithm {
    /// The key length of the cipher in bytes; an unknown or private cipher
    /// has none.
    pub fn key_size(&self) -> (r: Option<usize>)
        ensures
            r matches Some(n) ==> key_len(*self) == Some(n as nat),
            r is None ==> key_len(*self) is None,
    {
        match self {
            SymmetricAlgorithm::IDEA => Some(16),
            SymmetricAlgorithm::TripleDES => Some(24),
            SymmetricAlgorithm::CAST5 => Some(16),
            SymmetricAlgorithm::Blowfish => Some(16),
            SymmetricAlgorithm::AES128 => Some(16),
            SymmetricAlgorithm::AES192 => Some(24),
            SymmetricAlgorithm::AES256 => Some(32),
            SymmetricAlgorithm::Twofish => Some(32),
            SymmetricAlgorithm::Camellia128 => Some(16),
            SymmetricAlgorithm::Camellia192 => Some(24),
            SymmetricAlgorithm::Camellia256 => Some(32),
            SymmetricAlgorithm::Private(_) => None,
            SymmetricAlgorithm::Unknown(_) => None,
        }
    }
}

/// How a block cipher is chained over a message.
#[derive(Clone, Copy, Debug, PartialEq, Eq, Structural, Hash)]
pub enum BlockCipherMode {
    CFB,
    CBC,
    ECB,
}

/// A multiprecision integer: its magnitude as big-endian bytes.
#[derive(Clone, Debug)]
pub struct MPI {
    value: Vec<u8>,
}

impl View for MPI {
    type V = Seq<u8>;

    closed spec fn view(&self) -> Seq<u8> {
        self.value@
    }
}

impl MPI {
    /// The integer whose big-endian magnitude is `value`.
    pub fn new(value: Vec<u8>) -> (r: MPI)
        ensures
            r@ == value@,
    {
        MPI { value }
    }

    /// The big-endian magnitude.
    pub fn value(&self) -> (r: &[u8])
        ensures
            r@ == self@,
    {
        self.value.as_slice()
    }
}

/// A multiprecision integer that is secret key material.
pub struct ProtectedMPI {
    value: Protected,
}

impl View for ProtectedMPI {
    type V = Seq<u8>;

    closed spec fn view(&self) -> Seq<u8> {
        self.value@
    }
}

impl ProtectedMPI {
    /// The secret integer whose big-endian magnitude is `value`.
    pub fn new(value: Protected) -> (r: ProtectedMPI)
        ensures
            r@ == value@,
    {
        ProtectedMPI { value }
    }

    /// The big-endian magnitude, borrowed read-only.
    pub fn value(&self) -> (r: &[u8])
        ensures
            r@ == self@,
    {
        self.value.as_slice()
    }
}

} // verus!
