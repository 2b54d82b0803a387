//! The contracts that a cryptographic backend fulfils.
//!
//! Exactly one backend is linked into a build. It implements the four
//! capability traits below; the protocol layer reaches the cryptographic
//! math only through them. What a backend computes is named by the spec
//! functions of each trait (a public key of a secret, whether a signature
//! is valid, a decapsulated secret), and the contracts of its operations
//! relate their results through those names.

use vstd::prelude::*;
use crate::error::Result;
use crate::mem::Protected;
use crate::symmetric::{bound_to, Context};
use crate::types::{
    key_len, BlockCipherMode, Curve, PublicKeyAlgorithm, SymmetricAlgorithm, MPI, ProtectedMPI,
};

verus! {

/// The secret key of a session, shared by the key wrappings and the
/// cipher of one message.
pub type SessionKey = Protected;

/// Basic operations of a backend.
pub trait Backend {
    /// A description of the backend.
    fn backend() -> String;

    /// Fills `buf` with random bytes.
    fn random(buf: &mut [u8]) -> (r: Result<()>)
        ensures
            final(buf)@.len() == old(buf)@.len(),
    ;
}

/// An X25519 secret after clamping: the three low bits of the first byte
/// cleared, the top bit of the last byte cleared and the bit below it set.
pub open spec fn x25519_clamped(s: Seq<u8>) -> Seq<u8>
    recommends
        s.len() == 32,
{
    s.update(0, s[0] & 0xf8u8).update(31, (s[31] & 0x7fu8) | 0x40u8)
}

/// Asymmetric operations of a backend.
///
/// Every operation on an algorithm that the backend does not support fails
/// with `InvalidArgument`; where an algorithm fixes the length of a secret
/// key, a secret of another length is refused with `InvalidArgument` too.
pub trait Asymmetric {
    /// Whether the backend supports the public-key algorithm `algo`.
    spec fn algo_supported(algo: PublicKeyAlgorithm) -> bool;

    /// Whether the backend supports `curve`.
    spec fn curve_supported(curve: Curve) -> bool;

    /// Whether the backend supports `algo`; never fails.
    fn supports_algo(algo: PublicKeyAlgorithm) -> (r: bool)
        ensures
            r == Self::algo_supported(algo),
    ;

    /// Whether the backend supports `curve`; never fails.
    fn supports_curve(curve: &Curve) -> (r: bool)
        ensures
            r == Self::curve_supported(*curve),
    ;

    /// The X25519 public key of `secret`.
    spec fn x25519_public_of(secret: Seq<u8>) -> Seq<u8>;

    /// The X25519 shared point of `secret` and `public`.
    spec fn x25519_shared(secret: Seq<u8>, public: Seq<u8>) -> Seq<u8>;

    /// A fresh X25519 key pair: a 32-byte secret and its public key.
    fn x25519_generate_key() -> (r: Result<(Protected, [u8; 32])>)
        ensures
            r is Ok ==> r->Ok_0.0@.len() == 32,
            r is Ok ==> r->Ok_0.1@ == Self::x25519_public_of(r->Ok_0.0@),
            !Self::algo_supported(PublicKeyAlgorithm::X25519) ==> r is Err && r->Err_0 is InvalidArgument,
    ;

    /// The public key of `secret`.
    fn x25519_derive_public(secret: &Protected) -> (r: Result<[u8; 32]>)
        ensures
            r is Ok ==> r->Ok_0@ == Self::x25519_public_of(secret@),
            secret@.len() != 32 ==> r is Err && r->Err_0 is InvalidArgument,
            !Self::algo_supported(PublicKeyAlgorithm::X25519) ==> r is Err && r->Err_0 is InvalidArgument,
    ;

    /// The shared point of `secret` and the peer's `public` key.
    fn x25519_shared_point(secret: &Protected, public: &[u8; 32]) -> (r: Result<Protected>)
        ensures
            r is Ok ==> r->Ok_0@ == Self::x25519_shared(secret@, public@),
            secret@.len() != 32 ==> r is Err && r->Err_0 is InvalidArgument,
            !Self::algo_supported(PublicKeyAlgorithm::X25519) ==> r is Err && r->Err_0 is InvalidArgument,
    ;

    /// The X448 public key of `secret`.
    spec fn x448_public_of(secret: Seq<u8>) -> Seq<u8>;

    /// The X448 shared point of `secret` and `public`.
    spec fn x448_shared(secret: Seq<u8>, public: Seq<u8>) -> Seq<u8>;

    /// A fresh X448 key pair: a 56-byte secret and its public key.
    fn x448_generate_key() -> (r: Result<(Protected, [u8; 56])>)
        ensures
            r is Ok ==> r->Ok_0.0@.len() == 56,
            r is Ok ==> r->Ok_0.1@ == Self::x448_public_of(r->Ok_0.0@),
            !Self::algo_supported(PublicKeyAlgorithm::X448) ==> r is Err && r->Err_0 is InvalidArgument,
    ;

    /// The public key of `secret`.
    fn x448_derive_public(secret: &Protected) -> (r: Result<[u8; 56]>)
        ensures
            r is Ok ==> r->Ok_0@ == Self::x448_public_of(secret@),
            secret@.len() != 56 ==> r is Err && r->Err_0 is InvalidArgument,
            !Self::algo_supported(PublicKeyAlgorithm::X448) ==> r is Err && r->Err_0 is InvalidArgument,
    ;

    /// The shared point of `secret` and the peer's `public` key.
    fn x448_shared_point(secret: &Protected, public: &[u8; 56]) -> (r: Result<Protected>)
        ensures
            r is Ok ==> r->Ok_0@ == Self::x448_shared(secret@, public@),
            secret@.len() != 56 ==> r is Err && r->Err_0 is InvalidArgument,
            !Self::algo_supported(PublicKeyAlgorithm::X448) ==> r is Err && r->Err_0 is InvalidArgument,
    ;

    /// Whether `secret` and `public` form a Ed25519 key pair.
    spec fn ed25519_pair(secret: Seq<u8>, public: Seq<u8>) -> bool;

    /// Whether `signature` is a valid Ed25519 signature over `digest` by
    /// `public`.
    spec fn ed25519_valid(public: Seq<u8>, digest: Seq<u8>, signature: Seq<u8>) -> bool;

    /// A fresh Ed25519 key pair.
    fn ed25519_generate_key() -> (r: Result<(Protected, [u8; 32])>)
        ensures
            r is Ok ==> r->Ok_0.0@.len() == 32,
            r is Ok ==> Self::ed25519_pair(r->Ok_0.0@, r->Ok_0.1@),
            !Self::algo_supported(PublicKeyAlgorithm::Ed25519) ==> r is Err && r->Err_0 is InvalidArgument,
    ;

    /// The public key of `secret`.
    fn ed25519_derive_public(secret: &Protected) -> (r: Result<[u8; 32]>)
        ensures
            r is Ok ==> Self::ed25519_pair(secret@, r->Ok_0@),
            secret@.len() != 32 ==> r is Err && r->Err_0 is InvalidArgument,
            !Self::algo_supported(PublicKeyAlgorithm::Ed25519) ==> r is Err && r->Err_0 is InvalidArgument,
    ;

    /// Signs `digest` with `secret`; the signature is valid under `public`
    /// where the two form a key pair.
    fn ed25519_sign(secret: &Protected, public: &[u8; 32], digest: &[u8]) -> (r: Result<[u8; 64]>)
        ensures
            r is Ok && Self::ed25519_pair(secret@, public@) ==> Self::ed25519_valid(public@, digest@, r->Ok_0@),
            secret@.len() != 32 ==> r is Err && r->Err_0 is InvalidArgument,
            !Self::algo_supported(PublicKeyAlgorithm::Ed25519) ==> r is Err && r->Err_0 is InvalidArgument,
    ;

    /// Whether `signature` is valid over `digest` under `public`. An
    /// invalid signature is no error: it yields `false`.
    fn ed25519_verify(public: &[u8; 32], digest: &[u8], signature: &[u8; 64]) -> (r: Result<bool>)
        ensures
            r is Ok ==> r->Ok_0 == Self::ed25519_valid(public@, digest@, signature@),
            !Self::algo_supported(PublicKeyAlgorithm::Ed25519) ==> r is Err && r->Err_0 is InvalidArgument,
    ;

    /// Whether `secret` and `public` form a Ed448 key pair.
    spec fn ed448_pair(secret: Seq<u8>, public: Seq<u8>) -> bool;

    /// Whether `signature` is a valid Ed448 signature over `digest` by
    /// `public`.
    spec fn ed448_valid(public: Seq<u8>, digest: Seq<u8>, signature: Seq<u8>) -> bool;

    /// A fresh Ed448 key pair.
    fn ed448_generate_key() -> (r: Result<(Protected, [u8; 57])>)
        ensures
            r is Ok ==> r->Ok_0.0@.len() == 57,
            r is Ok ==> Self::ed448_pair(r->Ok_0.0@, r->Ok_0.1@),
            !Self::algo_supported(PublicKeyAlgorithm::Ed448) ==> r is Err && r->Err_0 is InvalidArgument,
    ;

    /// The public key of `secret`.
    fn ed448_derive_public(secret: &Protected) -> (r: Result<[u8; 57]>)
        ensures
            r is Ok ==> Self::ed448_pair(secret@, r->Ok_0@),
            secret@.len() != 57 ==> r is Err && r->Err_0 is InvalidArgument,
            !Self::algo_supported(PublicKeyAlgorithm::Ed448) ==> r is Err && r->Err_0 is InvalidArgument,
    ;

    /// Signs `digest` with `secret`; the signature is valid under `public`
    /// where the two form a key pair.
    fn ed448_sign(secret: &Protected, public: &[u8; 57], digest: &[u8]) -> (r: Result<[u8; 114]>)
        ensures
            r is Ok && Self::ed448_pair(secret@, public@) ==> Self::ed448_valid(public@, digest@, r->Ok_0@),
            secret@.len() != 57 ==> r is Err && r->Err_0 is InvalidArgument,
            !Self::algo_supported(PublicKeyAlgorithm::Ed448) ==> r is Err && r->Err_0 is InvalidArgument,
    ;

    /// Whether `signature` is valid over `digest` under `public`. An
    /// invalid signature is no error: it yields `false`.
    fn ed448_verify(public: &[u8; 57], digest: &[u8], signature: &[u8; 114]) -> (r: Result<bool>)
        ensures
            r is Ok ==> r->Ok_0 == Self::ed448_valid(public@, digest@, signature@),
            !Self::algo_supported(PublicKeyAlgorithm::Ed448) ==> r is Err && r->Err_0 is InvalidArgument,
    ;

    /// Whether `secret` and `public` form a ML-DSA-65 key pair.
    spec fn mldsa65_pair(secret: Seq<u8>, public: Seq<u8>) -> bool;

    /// Whether `signature` is a valid ML-DSA-65 signature over `digest` by
    /// `public`.
    spec fn mldsa65_valid(public: Seq<u8>, digest: Seq<u8>, signature: Seq<u8>) -> bool;

    /// A fresh ML-DSA-65 key pair.
    fn mldsa65_generate_key() -> (r: Result<(Protected, Box<[u8; 1952]>)>)
        ensures
            r is Ok ==> Self::mldsa65_pair(r->Ok_0.0@, r->Ok_0.1@),
            !Self::algo_supported(PublicKeyAlgorithm::MLDSA65_Ed25519) ==> r is Err && r->Err_0 is InvalidArgument,
    ;

    /// Signs `digest` with `secret`; the signature is valid under every
    /// public key that forms a key pair with `secret`.
    fn mldsa65_sign(secret: &Protected, digest: &[u8]) -> (r: Result<Box<[u8; 3309]>>)
        ensures
            r is Ok ==> forall|public: Seq<u8>| #[trigger] Self::mldsa65_pair(secret@, public)
                ==> Self::mldsa65_valid(public, digest@, r->Ok_0@),
            !Self::algo_supported(PublicKeyAlgorithm::MLDSA65_Ed25519) ==> r is Err && r->Err_0 is InvalidArgument,
    ;

    /// Whether `signature` is valid over `digest` under `public`. An
    /// invalid signature is no error: it yields `false`.
    fn mldsa65_verify(public: &[u8; 1952], digest: &[u8], signature: &[u8; 3309]) -> (r: Result<bool>)
        ensures
            r is Ok ==> r->Ok_0 == Self::mldsa65_valid(public@, digest@, signature@),
            !Self::algo_supported(PublicKeyAlgorithm::MLDSA65_Ed25519) ==> r is Err && r->Err_0 is InvalidArgument,
    ;

    /// Whether `secret` and `public` form a ML-DSA-87 key pair.
    spec fn mldsa87_pair(secret: Seq<u8>, public: Seq<u8>) -> bool;

    /// Whether `signature` is a valid ML-DSA-87 signature over `digest` by
    /// `public`.
    spec fn mldsa87_valid(public: Seq<u8>, digest: Seq<u8>, signature: Seq<u8>) -> bool;

    /// A fresh ML-DSA-87 key pair.
    fn mldsa87_generate_key() -> (r: Result<(Protected, Box<[u8; 2592]>)>)
        ensures
            r is Ok ==> Self::mldsa87_pair(r->Ok_0.0@, r->Ok_0.1@),
            !Self::algo_supported(PublicKeyAlgorithm::MLDSA87_Ed448) ==> r is Err && r->Err_0 is InvalidArgument,
    ;

    /// Signs `digest` with `secret`; the signature is valid under every
    /// public key that forms a key pair with `secret`.
    fn mldsa87_sign(secret: &Protected, digest: &[u8]) -> (r: Result<Box<[u8; 4627]>>)
        ensures
            r is Ok ==> forall|public: Seq<u8>| #[trigger] Self::mldsa87_pair(secret@, public)
                ==> Self::mldsa87_valid(public, digest@, r->Ok_0@),
            !Self::algo_supported(PublicKeyAlgorithm::MLDSA87_Ed448) ==> r is Err && r->Err_0 is InvalidArgument,
    ;

    /// Whether `signature` is valid over `digest` under `public`. An
    /// invalid signature is no error: it yields `false`.
    fn mldsa87_verify(public: &[u8; 2592], digest: &[u8], signature: &[u8; 4627]) -> (r: Result<bool>)
        ensures
            r is Ok ==> r->Ok_0 == Self::mldsa87_valid(public@, digest@, signature@),
            !Self::algo_supported(PublicKeyAlgorithm::MLDSA87_Ed448) ==> r is Err && r->Err_0 is InvalidArgument,
    ;

    /// Whether `secret` and `public` form a SLH-DSA-SHAKE-128s key pair.
    spec fn slhdsa128s_pair(secret: Seq<u8>, public: Seq<u8>) -> bool;

    /// Whether `signature` is a valid SLH-DSA-SHAKE-128s signature over `digest` by
    /// `public`.
    spec fn slhdsa128s_valid(public: Seq<u8>, digest: Seq<u8>, signature: Seq<u8>) -> bool;

    /// A fresh SLH-DSA-SHAKE-128s key pair.
    fn slhdsa128s_generate_key() -> (r: Result<(Protected, [u8; 32])>)
        ensures
            r is Ok ==> Self::slhdsa128s_pair(r->Ok_0.0@, r->Ok_0.1@),
            !Self::algo_supported(PublicKeyAlgorithm::SLHDSA128s) ==> r is Err && r->Err_0 is InvalidArgument,
    ;

    /// Signs `digest` with `secret`; the signature is valid under every
    /// public key that forms a key pair with `secret`.
    fn slhdsa128s_sign(secret: &Protected, digest: &[u8]) -> (r: Result<Box<[u8; 7856]>>)
        ensures
            r is Ok ==> forall|public: Seq<u8>| #[trigger] Self::slhdsa128s_pair(secret@, public)
                ==> Self::slhdsa128s_valid(public, digest@, r->Ok_0@),
            !Self::algo_supported(PublicKeyAlgorithm::SLHDSA128s) ==> r is Err && r->Err_0 is InvalidArgument,
    ;

    /// Whether `signature` is valid over `digest` under `public`. An
    /// invalid signature is no error: it yields `false`.
    fn slhdsa128s_verify(public: &[u8; 32], digest: &[u8], signature: &[u8; 7856]) -> (r: Result<bool>)
        ensures
            r is Ok ==> r->Ok_0 == Self::slhdsa128s_valid(public@, digest@, signature@),
            !Self::algo_supported(PublicKeyAlgorithm::SLHDSA128s) ==> r is Err && r->Err_0 is InvalidArgument,
    ;

    /// Whether `secret` and `public` form a SLH-DSA-SHAKE-128f key pair.
    spec fn slhdsa128f_pair(secret: Seq<u8>, public: Seq<u8>) -> bool;

    /// Whether `signature` is a valid SLH-DSA-SHAKE-128f signature over `digest` by
    /// `public`.
    spec fn slhdsa128f_valid(public: Seq<u8>, digest: Seq<u8>, signature: Seq<u8>) -> bool;

    /// A fresh SLH-DSA-SHAKE-128f key pair.
    fn slhdsa128f_generate_key() -> (r: Result<(Protected, [u8; 32])>)
        ensures
            r is Ok ==> Self::slhdsa128f_pair(r->Ok_0.0@, r->Ok_0.1@),
            !Self::algo_supported(PublicKeyAlgorithm::SLHDSA128f) ==> r is Err && r->Err_0 is InvalidArgument,
    ;

    /// Signs `digest` with `secret`; the signature is valid under every
    /// public key that forms a key pair with `secret`.
    fn slhdsa128f_sign(secret: &Protected, digest: &[u8]) -> (r: Result<Box<[u8; 17088]>>)
        ensures
            r is Ok ==> forall|public: Seq<u8>| #[trigger] Self::slhdsa128f_pair(secret@, public)
                ==> Self::slhdsa128f_valid(public, digest@, r->Ok_0@),
            !Self::algo_supported(PublicKeyAlgorithm::SLHDSA128f) ==> r is Err && r->Err_0 is InvalidArgument,
    ;

    /// Whether `signature` is valid over `digest` under `public`. An
    /// invalid signature is no error: it yields `false`.
    fn slhdsa128f_verify(public: &[u8; 32], digest: &[u8], signature: &[u8; 17088]) -> (r: Result<bool>)
        ensures
            r is Ok ==> r->Ok_0 == Self::slhdsa128f_valid(public@, digest@, signature@),
            !Self::algo_supported(PublicKeyAlgorithm::SLHDSA128f) ==> r is Err && r->Err_0 is InvalidArgument,
    ;

    /// Whether `secret` and `public` form a SLH-DSA-SHAKE-256s key pair.
    spec fn slhdsa256s_pair(secret: Seq<u8>, public: Seq<u8>) -> bool;

    /// Whether `signature` is a valid SLH-DSA-SHAKE-256s signature over `digest` by
    /// `public`.
    spec fn slhdsa256s_valid(public: Seq<u8>, digest: Seq<u8>, signature: Seq<u8>) -> bool;

    /// A fresh SLH-DSA-SHAKE-256s key pair.
    fn slhdsa256s_generate_key() -> (r: Result<(Protected, Box<[u8; 64]>)>)
        ensures
            r is Ok ==> Self::slhdsa256s_pair(r->Ok_0.0@, r->Ok_0.1@),
            !Self::algo_supported(PublicKeyAlgorithm::SLHDSA256s) ==> r is Err && r->Err_0 is InvalidArgument,
    ;

    /// Signs `digest` with `secret`; the signature is valid under every
    /// public key that forms a key pair with `secret`.
    fn slhdsa256s_sign(secret: &Protected, digest: &[u8]) -> (r: Result<Box<[u8; 29792]>>)
        ensures
            r is Ok ==> forall|public: Seq<u8>| #[trigger] Self::slhdsa256s_pair(secret@, public)
                ==> Self::slhdsa256s_valid(public, digest@, r->Ok_0@),
            !Self::algo_supported(PublicKeyAlgorithm::SLHDSA256s) ==> r is Err && r->Err_0 is InvalidArgument,
    ;

    /// Whether `signature` is valid over `digest` under `public`. An
    /// invalid signature is no error: it yields `false`.
    fn slhdsa256s_verify(public: &[u8; 64], digest: &[u8], signature: &[u8; 29792]) -> (r: Result<bool>)
        ensures
            r is Ok ==> r->Ok_0 == Self::slhdsa256s_valid(public@, digest@, signature@),
            !Self::algo_supported(PublicKeyAlgorithm::SLHDSA256s) ==> r is Err && r->Err_0 is InvalidArgument,
    ;

    /// Whether `secret` and `public` form a ML-KEM-768 key pair.
    spec fn mlkem768_pair(secret: Seq<u8>, public: Seq<u8>) -> bool;

    /// The shared secret that `secret` decapsulates from `ciphertext`.
    spec fn mlkem768_decap(secret: Seq<u8>, ciphertext: Seq<u8>) -> Seq<u8>;

    /// A fresh ML-KEM-768 key pair.
    fn mlkem768_generate_key() -> (r: Result<(Protected, Box<[u8; 1184]>)>)
        ensures
            r is Ok ==> Self::mlkem768_pair(r->Ok_0.0@, r->Ok_0.1@),
            !Self::algo_supported(PublicKeyAlgorithm::MLKEM768_X25519) ==> r is Err && r->Err_0 is InvalidArgument,
    ;

    /// A ciphertext and the shared secret it carries to `public`: every
    /// secret key that pairs with `public` decapsulates that secret from it.
    fn mlkem768_encapsulate(public: &[u8; 1184]) -> (r: Result<(Box<[u8; 1088]>, Protected)>)
        ensures
            r is Ok ==> forall|secret: Seq<u8>| #[trigger] Self::mlkem768_pair(secret, public@)
                ==> Self::mlkem768_decap(secret, r->Ok_0.0@) == r->Ok_0.1@,
            !Self::algo_supported(PublicKeyAlgorithm::MLKEM768_X25519) ==> r is Err && r->Err_0 is InvalidArgument,
    ;

    /// The shared secret that `secret` decapsulates from `ciphertext`.
    fn mlkem768_decapsulate(secret: &Protected, ciphertext: &[u8; 1088]) -> (r: Result<Protected>)
        ensures
            r is Ok ==> r->Ok_0@ == Self::mlkem768_decap(secret@, ciphertext@),
            !Self::algo_supported(PublicKeyAlgorithm::MLKEM768_X25519) ==> r is Err && r->Err_0 is InvalidArgument,
    ;

    /// Whether `secret` and `public` form a ML-KEM-1024 key pair.
    spec fn mlkem1024_pair(secret: Seq<u8>, public: Seq<u8>) -> bool;

    /// The shared secret that `secret` decapsulates from `ciphertext`.
    spec fn mlkem1024_decap(secret: Seq<u8>, ciphertext: Seq<u8>) -> Seq<u8>;

    /// A fresh ML-KEM-1024 key pair.
    fn mlkem1024_generate_key() -> (r: Result<(Protected, Box<[u8; 1568]>)>)
        ensures
            r is Ok ==> Self::mlkem1024_pair(r->Ok_0.0@, r->Ok_0.1@),
            !Self::algo_supported(PublicKeyAlgorithm::MLKEM1024_X448) ==> r is Err && r->Err_0 is InvalidArgument,
    ;

    /// A ciphertext and the shared secret it carries to `public`: every
    /// secret key that pairs with `public` decapsulates that secret from it.
    fn mlkem1024_encapsulate(public: &[u8; 1568]) -> (r: Result<(Box<[u8; 1568]>, Protected)>)
        ensures
            r is Ok ==> forall|secret: Seq<u8>| #[trigger] Self::mlkem1024_pair(secret, public@)
                ==> Self::mlkem1024_decap(secret, r->Ok_0.0@) == r->Ok_0.1@,
            !Self::algo_supported(PublicKeyAlgorithm::MLKEM1024_X448) ==> r is Err && r->Err_0 is InvalidArgument,
    ;

    /// The shared secret that `secret` decapsulates from `ciphertext`.
    fn mlkem1024_decapsulate(secret: &Protected, ciphertext: &[u8; 1568]) -> (r: Result<Protected>)
        ensures
            r is Ok ==> r->Ok_0@ == Self::mlkem1024_decap(secret@, ciphertext@),
            !Self::algo_supported(PublicKeyAlgorithm::MLKEM1024_X448) ==> r is Err && r->Err_0 is InvalidArgument,
    ;

    /// Whether `x` is the secret exponent of the DSA public key
    /// `(p, q, g, y)`.
    spec fn dsa_pair(x: Seq<u8>, p: Seq<u8>, q: Seq<u8>, g: Seq<u8>, y: Seq<u8>) -> bool;

    /// Whether `(r, s)` is a valid DSA signature over `digest` under the
    /// public key `(p, q, g, y)`.
    spec fn dsa_valid(
        p: Seq<u8>,
        q: Seq<u8>,
        g: Seq<u8>,
        y: Seq<u8>,
        digest: Seq<u8>,
        r: Seq<u8>,
        s: Seq<u8>,
    ) -> bool;

    /// A fresh DSA key `(p, q, g, y, x)` whose prime `p` has `p_bits` bits.
    fn dsa_generate_key(p_bits: usize) -> (r: Result<(MPI, MPI, MPI, MPI, ProtectedMPI)>)
        ensures
            r is Ok ==> r->Ok_0.0@.len() == (p_bits + 7) / 8,
            r is Ok ==> Self::dsa_pair(
                r->Ok_0.4@,
                r->Ok_0.0@,
                r->Ok_0.1@,
                r->Ok_0.2@,
                r->Ok_0.3@,
            ),
            !Self::algo_supported(PublicKeyAlgorithm::DSA) ==> r is Err && r->Err_0 is InvalidArgument,
    ;

    /// Signs `digest` with `x`; the signature is valid under `(p, q, g, y)`
    /// where `x` is its secret exponent.
    fn dsa_sign(x: &ProtectedMPI, p: &MPI, q: &MPI, g: &MPI, y: &MPI, digest: &[u8]) -> (r: Result<
        (MPI, MPI),
    >)
        ensures
            r is Ok && Self::dsa_pair(x@, p@, q@, g@, y@) ==> Self::dsa_valid(
                p@,
                q@,
                g@,
                y@,
                digest@,
                r->Ok_0.0@,
                r->Ok_0.1@,
            ),
            !Self::algo_supported(PublicKeyAlgorithm::DSA) ==> r is Err && r->Err_0 is InvalidArgument,
    ;

    /// Whether `(r, s)` is valid over `digest` under `(p, q, g, y)`. An
    /// invalid signature is no error: it yields `false`.
    fn dsa_verify(p: &MPI, q: &MPI, g: &MPI, y: &MPI, digest: &[u8], r: &MPI, s: &MPI) -> (res:
        Result<bool>)
        ensures
            res is Ok ==> res->Ok_0 == Self::dsa_valid(p@, q@, g@, y@, digest@, r@, s@),
            !Self::algo_supported(PublicKeyAlgorithm::DSA) ==> res is Err && res->Err_0 is InvalidArgument,
    ;

    /// A fresh ElGamal key `(p, g, y, x)` whose prime `p` has `p_bits` bits.
    fn elgamal_generate_key(p_bits: usize) -> (r: Result<(MPI, MPI, MPI, ProtectedMPI)>)
        ensures
            r is Ok ==> r->Ok_0.0@.len() == (p_bits + 7) / 8,
            !Self::algo_supported(PublicKeyAlgorithm::ElGamalEncrypt) ==> r is Err && r->Err_0 is InvalidArgument,
    ;

    /// Clamps a 32-byte X25519 secret in place; a secret of another length
    /// is left as it is.
    fn x25519_clamp_secret(secret: &mut [u8])
        ensures
            old(secret)@.len() == 32 ==> final(secret)@ == x25519_clamped(old(secret)@),
            old(secret)@.len() != 32 ==> final(secret)@ == old(secret)@,
    ;
}

/// The initialization vector handed to a cipher: the one given, or none.
pub open spec fn iv_or_empty(iv: Option<&[u8]>) -> Seq<u8> {
    match iv {
        Some(v) => v@,
        None => Seq::<u8>::empty(),
    }
}

/// Symmetric operations of a backend.
pub trait Symmetric {
    /// The cipher contexts that the backend creates.
    type Cipher: Context;

    /// Whether the backend supports the cipher `algo`.
    spec fn cipher_supported(algo: SymmetricAlgorithm) -> bool;

    /// Whether the backend supports `algo`; never fails.
    fn supports_algo(algo: SymmetricAlgorithm) -> (r: bool)
        ensures
            r == Self::cipher_supported(algo),
    ;

    /// A context that encrypts with `algo` in `mode` under `key` and `iv`.
    /// An unsupported cipher, or a key of the wrong length, is refused.
    fn encryptor_impl(
        algo: SymmetricAlgorithm,
        mode: BlockCipherMode,
        key: &Protected,
        iv: &[u8],
    ) -> (r: Result<Self::Cipher>)
        ensures
            r is Ok ==> bound_to(r->Ok_0, algo, mode, key@, iv@, true),
            !Self::cipher_supported(algo) ==> r is Err && r->Err_0 is InvalidArgument,
            key_len(algo) matches Some(n) && key@.len() != n ==> r is Err && r->Err_0 is InvalidArgument,
    ;

    /// A context that decrypts with `algo` in `mode` under `key` and `iv`.
    /// An unsupported cipher, or a key of the wrong length, is refused.
    fn decryptor_impl(
        algo: SymmetricAlgorithm,
        mode: BlockCipherMode,
        key: &Protected,
        iv: &[u8],
    ) -> (r: Result<Self::Cipher>)
        ensures
            r is Ok ==> bound_to(r->Ok_0, algo, mode, key@, iv@, false),
            !Self::cipher_supported(algo) ==> r is Err && r->Err_0 is InvalidArgument,
            key_len(algo) matches Some(n) && key@.len() != n ==> r is Err && r->Err_0 is InvalidArgument,
    ;

    /// A context that encrypts; without an initialization vector it gets
    /// an empty one.
    fn encryptor(
        algo: SymmetricAlgorithm,
        mode: BlockCipherMode,
        key: &Protected,
        iv: Option<&[u8]>,
    ) -> (r: Result<Self::Cipher>)
        ensures
            r is Ok ==> bound_to(r->Ok_0, algo, mode, key@, iv_or_empty(iv), true),
            !Self::cipher_supported(algo) ==> r is Err && r->Err_0 is InvalidArgument,
            key_len(algo) matches Some(n) && key@.len() != n ==> r is Err && r->Err_0 is InvalidArgument,
    {
        let empty: &[u8] = &[];
        let iv = match iv {
            Some(iv) => iv,
            None => {
                assert(empty@ =~= Seq::<u8>::empty());
                empty
            },
        };
        Self::encryptor_impl(algo, mode, key, iv)
    }

    /// A context that decrypts; without an initialization vector it gets
    /// an empty one.
    fn decryptor(
        algo: SymmetricAlgorithm,
        mode: BlockCipherMode,
        key: &Protected,
        iv: Option<&[u8]>,
    ) -> (r: Result<Self::Cipher>)
        ensures
            r is Ok ==> bound_to(r->Ok_0, algo, mode, key@, iv_or_empty(iv), false),
            !Self::cipher_supported(algo) ==> r is Err && r->Err_0 is InvalidArgument,
            key_len(algo) matches Some(n) && key@.len() != n ==> r is Err && r->Err_0 is InvalidArgument,
    {
        let empty: &[u8] = &[];
        let iv = match iv {
            Some(iv) => iv,
            None => {
                assert(empty@ =~= Seq::<u8>::empty());
                empty
            },
        };
        Self::decryptor_impl(algo, mode, key, iv)
    }
}

/// The salt that HKDF uses: the one given, or as many zero bytes as the
/// hash's output is long.
pub open spec fn salt_or_zeros(salt: Option<&[u8]>, hash_len: nat) -> Seq<u8> {
    match salt {
        Some(s) => s@,
        None => Seq::new(hash_len, |_i: int| 0u8),
    }
}

/// Key derivation of a backend.
pub trait Kdf {
    /// The first `len` bytes of HKDF-SHA256 output keyed by `ikm` and
    /// `salt`, for `info`.
    spec fn hkdf_sha256_of(ikm: Seq<u8>, salt: Seq<u8>, info: Seq<u8>, len: nat) -> Seq<u8>;

    /// The first `len` bytes of HKDF-SHA512 output keyed by `ikm` and
    /// `salt`, for `info`.
    spec fn hkdf_sha512_of(ikm: Seq<u8>, salt: Seq<u8>, info: Seq<u8>, len: nat) -> Seq<u8>;

    /// Fills `okm` with HKDF-SHA256 output. HKDF yields at most 255 blocks
    /// of 32 bytes: a longer `okm` is refused.
    fn hkdf_sha256(ikm: &SessionKey, salt: Option<&[u8]>, info: &[u8], okm: &mut SessionKey) -> (r:
        Result<()>)
        ensures
            final(okm)@.len() == old(okm)@.len(),
            r is Ok ==> final(okm)@ == Self::hkdf_sha256_of(
                ikm@,
                salt_or_zeros(salt, 32),
                info@,
                old(okm)@.len(),
            ),
            old(okm)@.len() > 255 * 32 ==> r is Err && r->Err_0 is InvalidArgument,
    ;

    /// Fills `okm` with HKDF-SHA512 output. HKDF yields at most 255 blocks
    /// of 64 bytes: a longer `okm` is refused.
    fn hkdf_sha512(ikm: &SessionKey, salt: Option<&[u8]>, info: &[u8], okm: &mut SessionKey) -> (r:
        Result<()>)
        ensures
            final(okm)@.len() == old(okm)@.len(),
            r is Ok ==> final(okm)@ == Self::hkdf_sha512_of(
                ikm@,
                salt_or_zeros(salt, 64),
                info@,
                old(okm)@.len(),
            ),
            old(okm)@.len() > 255 * 64 ==> r is Err && r->Err_0 is InvalidArgument,
    ;
}

} // verus!
