use openpgp::interface::Asymmetric;
use openpgp::sign::{digest_of, sign_ed25519, verify_ed25519};
use openpgp::types::{Curve, PublicKeyAlgorithm, MPI, ProtectedMPI};
use openpgp::{Error, Protected, Sha1};

/// A stand-in backend: an Ed25519 "signature" is the digest followed by
/// the public key. Only what the signing functions reach is provided; the
/// items that only contracts speak of are never run.
struct Toy;

impl Asymmetric for Toy {
    fn algo_supported(_algo: PublicKeyAlgorithm) -> bool {
        unreachable!()
    }

    fn curve_supported(_curve: Curve) -> bool {
        unreachable!()
    }

    fn x25519_public_of(_secret: vstd::seq::Seq<u8>) -> vstd::seq::Seq<u8> {
        unreachable!()
    }

    fn x25519_shared(_secret: vstd::seq::Seq<u8>, _public: vstd::seq::Seq<u8>) -> vstd::seq::Seq<u8> {
        unreachable!()
    }

    fn x448_public_of(_secret: vstd::seq::Seq<u8>) -> vstd::seq::Seq<u8> {
        unreachable!()
    }

    fn x448_shared(_secret: vstd::seq::Seq<u8>, _public: vstd::seq::Seq<u8>) -> vstd::seq::Seq<u8> {
        unreachable!()
    }

    fn ed25519_pair(_secret: vstd::seq::Seq<u8>, _public: vstd::seq::Seq<u8>) -> bool {
        unreachable!()
    }

    fn ed25519_valid(_public: vstd::seq::Seq<u8>, _digest: vstd::seq::Seq<u8>, _signature: vstd::seq::Seq<u8>) -> bool {
        unreachable!()
    }

    fn ed448_pair(_secret: vstd::seq::Seq<u8>, _public: vstd::seq::Seq<u8>) -> bool {
        unreachable!()
    }

    fn ed448_valid(_public: vstd::seq::Seq<u8>, _digest: vstd::seq::Seq<u8>, _signature: vstd::seq::Seq<u8>) -> bool {
        unreachable!()
    }

    fn mldsa65_pair(_secret: vstd::seq::Seq<u8>, _public: vstd::seq::Seq<u8>) -> bool {
        unreachable!()
    }

    fn mldsa65_valid(_public: vstd::seq::Seq<u8>, _digest: vstd::seq::Seq<u8>, _signature: vstd::seq::Seq<u8>) -> bool {
        unreachable!()
    }

    fn mldsa87_pair(_secret: vstd::seq::Seq<u8>, _public: vstd::seq::Seq<u8>) -> bool {
        unreachable!()
    }

    fn mldsa87_valid(_public: vstd::seq::Seq<u8>, _digest: vstd::seq::Seq<u8>, _signature: vstd::seq::Seq<u8>) -> bool {
        unreachable!()
    }

    fn slhdsa128s_pair(_secret: vstd::seq::Seq<u8>, _public: vstd::seq::Seq<u8>) -> bool {
        unreachable!()
    }

    fn slhdsa128s_valid(_public: vstd::seq::Seq<u8>, _digest: vstd::seq::Seq<u8>, _signature: vstd::seq::Seq<u8>) -> bool {
        unreachable!()
    }

    fn slhdsa128f_pair(_secret: vstd::seq::Seq<u8>, _public: vstd::seq::Seq<u8>) -> bool {
        unreachable!()
    }

    fn slhdsa128f_valid(_public: vstd::seq::Seq<u8>, _digest: vstd::seq::Seq<u8>, _signature: vstd::seq::Seq<u8>) -> bool {
        unreachable!()
    }

    fn slhdsa256s_pair(_secret: vstd::seq::Seq<u8>, _public: vstd::seq::Seq<u8>) -> bool {
        unreachable!()
    }

    fn slhdsa256s_valid(_public: vstd::seq::Seq<u8>, _digest: vstd::seq::Seq<u8>, _signature: vstd::seq::Seq<u8>) -> bool {
        unreachable!()
    }

    fn mlkem768_pair(_secret: vstd::seq::Seq<u8>, _public: vstd::seq::Seq<u8>) -> bool {
        unreachable!()
    }

    fn mlkem768_decap(_secret: vstd::seq::Seq<u8>, _ciphertext: vstd::seq::Seq<u8>) -> vstd::seq::Seq<u8> {
        unreachable!()
    }

    fn mlkem1024_pair(_secret: vstd::seq::Seq<u8>, _public: vstd::seq::Seq<u8>) -> bool {
        unreachable!()
    }

    fn mlkem1024_decap(_secret: vstd::seq::Seq<u8>, _ciphertext: vstd::seq::Seq<u8>) -> vstd::seq::Seq<u8> {
        unreachable!()
    }

    fn dsa_pair(_x: vstd::seq::Seq<u8>, _p: vstd::seq::Seq<u8>, _q: vstd::seq::Seq<u8>, _g: vstd::seq::Seq<u8>, _y: vstd::seq::Seq<u8>) -> bool {
        unreachable!()
    }

    fn dsa_valid(_p: vstd::seq::Seq<u8>, _q: vstd::seq::Seq<u8>, _g: vstd::seq::Seq<u8>, _y: vstd::seq::Seq<u8>, _digest: vstd::seq::Seq<u8>, _r: vstd::seq::Seq<u8>, _s: vstd::seq::Seq<u8>,) -> bool {
        unreachable!()
    }

    fn supports_algo(algo: PublicKeyAlgorithm) -> bool {
        matches!(algo, PublicKeyAlgorithm::Ed25519)
    }

    fn supports_curve(curve: &Curve) -> bool {
        let _ = curve;
        false
    }

    fn x25519_generate_key() -> openpgp::Result<(Protected, [u8; 32])> {
        unreachable!()
    }

    fn x25519_derive_public(_secret: &Protected) -> openpgp::Result<[u8; 32]> {
        unreachable!()
    }

    fn x25519_shared_point(_secret: &Protected, _public: &[u8; 32]) -> openpgp::Result<Protected> {
        unreachable!()
    }

    fn x448_generate_key() -> openpgp::Result<(Protected, [u8; 56])> {
        unreachable!()
    }

    fn x448_derive_public(_secret: &Protected) -> openpgp::Result<[u8; 56]> {
        unreachable!()
    }

    fn x448_shared_point(_secret: &Protected, _public: &[u8; 56]) -> openpgp::Result<Protected> {
        unreachable!()
    }

    fn ed25519_generate_key() -> openpgp::Result<(Protected, [u8; 32])> {
        unreachable!()
    }

    fn ed25519_derive_public(_secret: &Protected) -> openpgp::Result<[u8; 32]> {
        unreachable!()
    }

    fn ed25519_sign(secret: &Protected, public: &[u8; 32], digest: &[u8]) -> openpgp::Result<[u8; 64]> {
        let _ = secret;
        let mut s = [0u8; 64];
        s[..digest.len().min(32)].copy_from_slice(&digest[..digest.len().min(32)]);
        s[32..].copy_from_slice(public);
        Ok(s)
    }

    fn ed25519_verify(public: &[u8; 32], digest: &[u8], signature: &[u8; 64]) -> openpgp::Result<bool> {
        let mut s = [0u8; 64];
        s[..digest.len().min(32)].copy_from_slice(&digest[..digest.len().min(32)]);
        s[32..].copy_from_slice(public);
        Ok(&s == signature)
    }

    fn ed448_generate_key() -> openpgp::Result<(Protected, [u8; 57])> {
        unreachable!()
    }

    fn ed448_derive_public(_secret: &Protected) -> openpgp::Result<[u8; 57]> {
        unreachable!()
    }

    fn ed448_sign(_secret: &Protected, _public: &[u8; 57], _digest: &[u8]) -> openpgp::Result<[u8; 114]> {
        unreachable!()
    }

    fn ed448_verify(_public: &[u8; 57], _digest: &[u8], _signature: &[u8; 114]) -> openpgp::Result<bool> {
        unreachable!()
    }

    fn mldsa65_generate_key() -> openpgp::Result<(Protected, Box<[u8; 1952]>)> {
        unreachable!()
    }

    fn mldsa65_sign(_secret: &Protected, _digest: &[u8]) -> openpgp::Result<Box<[u8; 3309]>> {
        unreachable!()
    }

    fn mldsa65_verify(_public: &[u8; 1952], _digest: &[u8], _signature: &[u8; 3309]) -> openpgp::Result<bool> {
        unreachable!()
    }

    fn mldsa87_generate_key() -> openpgp::Result<(Protected, Box<[u8; 2592]>)> {
        unreachable!()
    }

    fn mldsa87_sign(_secret: &Protected, _digest: &[u8]) -> openpgp::Result<Box<[u8; 4627]>> {
        unreachable!()
    }

    fn mldsa87_verify(_public: &[u8; 2592], _digest: &[u8], _signature: &[u8; 4627]) -> openpgp::Result<bool> {
        unreachable!()
    }

    fn slhdsa128s_generate_key() -> openpgp::Result<(Protected, [u8; 32])> {
        unreachable!()
    }

    fn slhdsa128s_sign(_secret: &Protected, _digest: &[u8]) -> openpgp::Result<Box<[u8; 7856]>> {
        unreachable!()
    }

    fn slhdsa128s_verify(_public: &[u8; 32], _digest: &[u8], _signature: &[u8; 7856]) -> openpgp::Result<bool> {
        unreachable!()
    }

    fn slhdsa128f_generate_key() -> openpgp::Result<(Protected, [u8; 32])> {
        unreachable!()
    }

    fn slhdsa128f_sign(_secret: &Protected, _digest: &[u8]) -> openpgp::Result<Box<[u8; 17088]>> {
        unreachable!()
    }

    fn slhdsa128f_verify(_public: &[u8; 32], _digest: &[u8], _signature: &[u8; 17088]) -> openpgp::Result<bool> {
        unreachable!()
    }

    fn slhdsa256s_generate_key() -> openpgp::Result<(Protected, Box<[u8; 64]>)> {
        unreachable!()
    }

    fn slhdsa256s_sign(_secret: &Protected, _digest: &[u8]) -> openpgp::Result<Box<[u8; 29792]>> {
        unreachable!()
    }

    fn slhdsa256s_verify(_public: &[u8; 64], _digest: &[u8], _signature: &[u8; 29792]) -> openpgp::Result<bool> {
        unreachable!()
    }

    fn mlkem768_generate_key() -> openpgp::Result<(Protected, Box<[u8; 1184]>)> {
        unreachable!()
    }

    fn mlkem768_encapsulate(_public: &[u8; 1184]) -> openpgp::Result<(Box<[u8; 1088]>, Protected)> {
        unreachable!()
    }

    fn mlkem768_decapsulate(_secret: &Protected, _ciphertext: &[u8; 1088]) -> openpgp::Result<Protected> {
        unreachable!()
    }

    fn mlkem1024_generate_key() -> openpgp::Result<(Protected, Box<[u8; 1568]>)> {
        unreachable!()
    }

    fn mlkem1024_encapsulate(_public: &[u8; 1568]) -> openpgp::Result<(Box<[u8; 1568]>, Protected)> {
        unreachable!()
    }

    fn mlkem1024_decapsulate(_secret: &Protected, _ciphertext: &[u8; 1568]) -> openpgp::Result<Protected> {
        unreachable!()
    }

    fn dsa_generate_key(_p_bits: usize) -> openpgp::Result<(MPI, MPI, MPI, MPI, ProtectedMPI)> {
        unreachable!()
    }

    fn dsa_sign(_x: &ProtectedMPI, _p: &MPI, _q: &MPI, _g: &MPI, _y: &MPI, _digest: &[u8]) -> openpgp::Result< (MPI, MPI), > {
        unreachable!()
    }

    fn dsa_verify(_p: &MPI, _q: &MPI, _g: &MPI, _y: &MPI, _digest: &[u8], _r: &MPI, _s: &MPI) -> openpgp::Result<bool> {
        unreachable!()
    }

    fn elgamal_generate_key(_p_bits: usize) -> openpgp::Result<(MPI, MPI, MPI, ProtectedMPI)> {
        unreachable!()
    }

    fn x25519_clamp_secret(_secret: &mut [u8]) {
        unreachable!()
    }
}

fn unhex(s: &str) -> Vec<u8> {
    (0..s.len() / 2)
        .map(|i| u8::from_str_radix(&s[2 * i..2 * i + 2], 16).unwrap())
        .collect()
}

#[test]
fn digest_of_content() {
    let d = digest_of(Sha1::new(), b"abc").unwrap();
    assert_eq!(d, unhex("a9993e364706816aba3e25717850c26c9cd0d89d"));
}

#[test]
fn signature_verifies_over_same_content() {
    let secret = Protected::from_slice(&[5u8; 32]);
    let public = [9u8; 32];
    let data = b"Hello world.";
    let sig = sign_ed25519::<Toy, Sha1>(Sha1::new(), data, &secret, &public).unwrap();
    assert_eq!(sig[..20].to_vec(), digest_of(Sha1::new(), data).unwrap());
    assert!(verify_ed25519::<Toy, Sha1>(Sha1::new(), data, &public, &sig).unwrap());
}

#[test]
fn signature_fails_on_changed_content_or_signature() {
    let secret = Protected::from_slice(&[5u8; 32]);
    let public = [9u8; 32];
    let sig = sign_ed25519::<Toy, Sha1>(Sha1::new(), b"Hello world.", &secret, &public).unwrap();
    assert!(!verify_ed25519::<Toy, Sha1>(Sha1::new(), b"Hello world!", &public, &sig).unwrap());
    let mut bad = sig;
    bad[3] ^= 1;
    assert!(!verify_ed25519::<Toy, Sha1>(Sha1::new(), b"Hello world.", &public, &bad).unwrap());
}

#[test]
fn collision_content_is_not_signed() {
    let prefix = unhex(&SHAMBLES_PREFIX.concat());
    let secret = Protected::from_slice(&[5u8; 32]);
    let public = [9u8; 32];
    assert!(matches!(
        sign_ed25519::<Toy, Sha1>(Sha1::new(), &prefix, &secret, &public),
        Err(Error::CollisionDetected)
    ));
    assert!(matches!(
        verify_ed25519::<Toy, Sha1>(Sha1::new(), &prefix, &public, &[0u8; 64]),
        Err(Error::CollisionDetected)
    ));
}

/// A chosen-prefix collision for SHA-1 (the SHA-mbles pair, first message).
const SHAMBLES_PREFIX: &[&str] = &[
    "99040d047fe81780012000ff4b65792069732070617274206f66206120636f6c6c6973696f6e212049742773206120747261702179c61af0afcc054515d9274e",
    "7307624b1dc7fb23988bb8de8b575dba7b9eab31c1674b6d974378a827732ff5851c76a2e60772b5a47ce1eac40bb993c12d8c70e24a4f8d5fcdedc1b32c9cf1",
    "9e31af2429759d42e4dfdb31719f587623ee552939b6dcdc459fca53553b70f87ede30a247ea3af6c759a2f20b320d760db64ff479084fd3ccb3cdd48362d96a",
    "9c430617caff6c36c637e53fde28417f626fec54ed7943a46e5f5730f2bb38fb1df6e0090010d00e24ad78bf92641993608e8d158a789f34c46fe1e6027f35a4",
    "cbfb827076c50eca0e8b7cca69bb2c2b790259f9bf9570dd8d4437a3115faff7c3cac09ad25266055c27104755178eaeff825a2caa2acfb5de64ce7641dc59a5",
    "41a9fc9c756756e2e23dc713c8c24c9790aa6b0e38a7f55f14452a1ca2850ddd9562fd9a18ad42496aa97008f74672f68ef461eb88b09933d626b4f918749cc0",
    "27fddd6c425fc4216835d0134d15285bab2cb784a4f7cbb4fb514d4bf0f6237cf00a9e9f132b9a066e6fd17f6c42987478586ff651af96747fb426b9872b9a88",
    "e4063f59bb334cc00650f83a80c42751b71974d300fc2819a2e8f1e32c1b51cb18e6bfc4db9baef675d4aaf5b1574a047f8f6dd2ec153a93412293974d928f88",
    "ced9363cfef97ce2e742bf34c96b8ef3875676fea5cca8e5f7dea0bab2413d4de00ee71ee01f162bdb6d1eafd925e6aebaae6a354ef17cf205a404fbdb12fc45",
    "4d41fdd95cf2459664a2ad032d1da60a73264075d7f1e0d6c1403ae7a0d861df3fe5707188dd5e07d1589b9f8b6630553f8fc352b3e0c27da80bddba4c64020d",
];
