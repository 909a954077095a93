//! The cryptographic primitives that the manifest and the images are built
//! from.
//!
//! Nothing in this file is proved.  Each function hands its arguments to a
//! primitive of `ring`, `aes` or `pem` and converts what comes back.  Where
//! the primitive is a function of its arguments alone, its result has a name
//! that contracts elsewhere can speak of; where it draws random numbers,
//! nothing is said about the bytes it returns.

use vstd::prelude::*;

verus! {

/// The SHA-256 digest of `data`, as `ring::digest::digest` computes it.
pub uninterp spec fn sha256_digest(data: Seq<u8>) -> Seq<u8>;

/// The SHA-384 digest of `data`, as `ring::digest::digest` computes it.
pub uninterp spec fn sha384_digest(data: Seq<u8>) -> Seq<u8>;

/// The HMAC-SHA-256 tag of `data` under `key`, as `ring::hmac::sign` computes
/// it.
pub uninterp spec fn hmac_sha256_tag(key: Seq<u8>, data: Seq<u8>) -> Seq<u8>;

/// The 48 bytes that HKDF with SHA-256 derives from `secret` with the given
/// salt and info, as `ring::hkdf` computes them.
pub uninterp spec fn hkdf_sha256_okm48(salt: Seq<u8>, secret: Seq<u8>, info: Seq<u8>) -> Option<
    Seq<u8>,
>;

/// The 64 bytes that HKDF with SHA-256 derives from `secret` with the given
/// salt and info, as `ring::hkdf` computes them.
pub uninterp spec fn hkdf_sha256_okm64(salt: Seq<u8>, secret: Seq<u8>, info: Seq<u8>) -> Option<
    Seq<u8>,
>;

/// `data` combined with the AES-128 key stream in counter mode, as
/// `aes::Aes128Ctr` computes it; `None` where the key or the nonce has a
/// length that the cipher does not take.
pub uninterp spec fn aes128_ctr_stream(key: Seq<u8>, nonce: Seq<u8>, data: Seq<u8>) -> Option<
    Seq<u8>,
>;

/// `data` combined with the AES-256 key stream in counter mode, as
/// `aes::Aes256Ctr` computes it; `None` where the key or the nonce has a
/// length that the cipher does not take.
pub uninterp spec fn aes256_ctr_stream(key: Seq<u8>, nonce: Seq<u8>, data: Seq<u8>) -> Option<
    Seq<u8>,
>;

/// The tag, as the bytes of its text, and the contents that `pem::parse`
/// finds in `input`; `None` where it finds no well-formed block.
pub uninterp spec fn pem_decode(input: Seq<u8>) -> Option<(Seq<u8>, Seq<u8>)>;

/// The Ed25519 signature of `msg` under the key pair made of `seed` and
/// `public_key`, as `ring::signature::Ed25519KeyPair` computes it; `None`
/// where ring rejects the pair.
pub uninterp spec fn ed25519_signature(seed: Seq<u8>, public_key: Seq<u8>, msg: Seq<u8>) -> Option<
    Seq<u8>,
>;

/// The length in bytes of the public modulus of the RSA key pair in `der`,
/// as `ring::signature::RsaKeyPair` gives it; `None` where ring rejects the
/// key.
pub uninterp spec fn rsa_modulus_len(der: Seq<u8>) -> Option<usize>;

/// Calls `ring::digest::digest` with `SHA256`.  The contract names the
/// result, and claims that it is 32 bytes long, the output length that ring
/// declares for the algorithm.
#[verifier::external_body]
pub(crate) fn sha256(data: &[u8]) -> (res: Vec<u8>)
    ensures
        res@ == sha256_digest(data@),
        res@.len() == 32,
{
    ring::digest::digest(&ring::digest::SHA256, data).as_ref().to_vec()
}

/// Calls `ring::digest::digest` with `SHA384`.  The contract names the
/// result, and claims that it is 48 bytes long, the output length that ring
/// declares for the algorithm.
#[verifier::external_body]
pub(crate) fn sha384(data: &[u8]) -> (res: Vec<u8>)
    ensures
        res@ == sha384_digest(data@),
        res@.len() == 48,
{
    ring::digest::digest(&ring::digest::SHA384, data).as_ref().to_vec()
}

/// Calls `ring::hmac::sign` with a key made by `ring::hmac::Key::new` for
/// `HMAC_SHA256`.  The contract names the result.
#[verifier::external_body]
pub(crate) fn hmac_sha256(key: &[u8], data: &[u8]) -> (res: Vec<u8>)
    ensures
        res@ == hmac_sha256_tag(key@, data@),
{
    let key = ring::hmac::Key::new(ring::hmac::HMAC_SHA256, key);
    ring::hmac::sign(&key, data).as_ref().to_vec()
}

/// Runs HKDF with SHA-256 through `ring::hkdf`: `Salt::new`, `extract`,
/// `Prk::expand` and `Okm::fill`, for 48 bytes of output.  The output length
/// is handed to `expand` as `HKDF_SHA384`, whose length as a key type is 48;
/// the derivation itself uses SHA-256.  The contract names the result, and
/// claims the length of the buffer that this function allocates for it.
#[verifier::external_body]
pub(crate) fn hkdf_sha256_48(salt: &[u8], secret: &[u8], info: &[u8]) -> (res: Option<Vec<u8>>)
    ensures
        res matches Some(v) ==> hkdf_sha256_okm48(salt@, secret@, info@) == Some(v@) && v@.len()
            == 48,
        res is None ==> hkdf_sha256_okm48(salt@, secret@, info@) is None,
{
    let prk = ring::hkdf::Salt::new(ring::hkdf::HKDF_SHA256, salt).extract(secret);
    let info = [info];
    let okm = prk.expand(&info, ring::hkdf::HKDF_SHA384).ok()?;
    let mut buf = vec![0u8; 48];
    okm.fill(&mut buf).ok()?;
    Some(buf)
}

/// Runs HKDF with SHA-256 through `ring::hkdf`: `Salt::new`, `extract`,
/// `Prk::expand` and `Okm::fill`, for 64 bytes of output.  The output length
/// is handed to `expand` as `HKDF_SHA512`, whose length as a key type is 64;
/// the derivation itself uses SHA-256.  The contract names the result, and
/// claims the length of the buffer that this function allocates for it.
#[verifier::external_body]
pub(crate) fn hkdf_sha256_64(salt: &[u8], secret: &[u8], info: &[u8]) -> (res: Option<Vec<u8>>)
    ensures
        res matches Some(v) ==> hkdf_sha256_okm64(salt@, secret@, info@) == Some(v@) && v@.len()
            == 64,
        res is None ==> hkdf_sha256_okm64(salt@, secret@, info@) is None,
{
    let prk = ring::hkdf::Salt::new(ring::hkdf::HKDF_SHA256, salt).extract(secret);
    let info = [info];
    let okm = prk.expand(&info, ring::hkdf::HKDF_SHA512).ok()?;
    let mut buf = vec![0u8; 64];
    okm.fill(&mut buf).ok()?;
    Some(buf)
}

/// Applies the key stream of `aes::Aes128Ctr` to a copy of `data`, with
/// `cipher::NewCipher::new_from_slices` and
/// `cipher::StreamCipher::try_apply_keystream`.  The contract names the
/// result, and claims that it is as long as `data`: the stream is applied in
/// place.
#[verifier::external_body]
pub(crate) fn aes128_ctr(key: &[u8], nonce: &[u8], data: &[u8]) -> (res: Option<Vec<u8>>)
    ensures
        res matches Some(v) ==> aes128_ctr_stream(key@, nonce@, data@) == Some(v@) && v@.len()
            == data@.len(),
        res is None ==> aes128_ctr_stream(key@, nonce@, data@) is None,
{
    let mut cipher = <aes::Aes128Ctr as cipher::NewCipher>::new_from_slices(key, nonce).ok()?;
    let mut buf = data.to_vec();
    cipher::StreamCipher::try_apply_keystream(&mut cipher, &mut buf).ok()?;
    Some(buf)
}

/// Applies the key stream of `aes::Aes256Ctr` to a copy of `data`, with
/// `cipher::NewCipher::new_from_slices` and
/// `cipher::StreamCipher::try_apply_keystream`.  The contract names the
/// result, and claims that it is as long as `data`: the stream is applied in
/// place.
#[verifier::external_body]
pub(crate) fn aes256_ctr(key: &[u8], nonce: &[u8], data: &[u8]) -> (res: Option<Vec<u8>>)
    ensures
        res matches Some(v) ==> aes256_ctr_stream(key@, nonce@, data@) == Some(v@) && v@.len()
            == data@.len(),
        res is None ==> aes256_ctr_stream(key@, nonce@, data@) is None,
{
    let mut cipher = <aes::Aes256Ctr as cipher::NewCipher>::new_from_slices(key, nonce).ok()?;
    let mut buf = data.to_vec();
    cipher::StreamCipher::try_apply_keystream(&mut cipher, &mut buf).ok()?;
    Some(buf)
}

/// Calls `pem::parse`, and hands out the tag, as the bytes of its text, and
/// the contents of the block it found.  The contract names the result.
#[verifier::external_body]
pub(crate) fn pem_parse(input: &[u8]) -> (res: Option<(Vec<u8>, Vec<u8>)>)
    ensures
        res matches Some(p) ==> pem_decode(input@) == Some((p.0@, p.1@)),
        res is None ==> pem_decode(input@) is None,
{
    let block = pem::parse(input).ok()?;
    Some((block.tag.into_bytes(), block.contents))
}

/// Signs `msg` with `ring::signature::Ed25519KeyPair`: `from_seed_and_public_key`
/// and `sign`.  Ed25519 draws no random numbers, so the contract names the
/// result.
#[verifier::external_body]
pub(crate) fn ed25519_sign(seed: &[u8], public_key: &[u8], msg: &[u8]) -> (res: Option<Vec<u8>>)
    ensures
        res matches Some(v) ==> ed25519_signature(seed@, public_key@, msg@) == Some(v@),
        res is None ==> ed25519_signature(seed@, public_key@, msg@) is None,
{
    let pair = ring::signature::Ed25519KeyPair::from_seed_and_public_key(seed, public_key).ok()?;
    Some(pair.sign(msg).as_ref().to_vec())
}

/// Signs `msg` with RSA-PSS over SHA-256 through `ring::signature::RsaKeyPair`:
/// `from_der`, `public_modulus_len` and `sign`, with ring's system random
/// generator.  The padding is random, so nothing is claimed of the bytes of
/// the result.  The contract claims its length: the buffer that `sign` fills
/// is allocated here with the length of the modulus of the key.
#[verifier::external_body]
pub(crate) fn rsa_pss_sha256_sign(der: &[u8], msg: &[u8]) -> (res: Option<Vec<u8>>)
    ensures
        res matches Some(v) ==> rsa_modulus_len(der@) == Some(v@.len() as usize),
{
    let pair = ring::signature::RsaKeyPair::from_der(der).ok()?;
    let rng = ring::rand::SystemRandom::new();
    let mut signature = vec![0u8; pair.public_modulus_len()];
    pair.sign(&ring::signature::RSA_PSS_SHA256, &rng, msg, &mut signature).ok()?;
    Some(signature)
}

/// Signs `msg` with ECDSA on P-256 through `ring::signature::EcdsaKeyPair`:
/// `from_pkcs8` and `sign` with `ECDSA_P256_SHA256_ASN1_SIGNING` and ring's
/// system random generator.  The nonce is random, and with it the length of
/// the encoded signature, so nothing is claimed of the result.
#[verifier::external_body]
pub(crate) fn ecdsa_p256_sign(pkcs8: &[u8], msg: &[u8]) -> (res: Option<Vec<u8>>)
{
    let alg = &ring::signature::ECDSA_P256_SHA256_ASN1_SIGNING;
    let pair = ring::signature::EcdsaKeyPair::from_pkcs8(alg, pkcs8).ok()?;
    let rng = ring::rand::SystemRandom::new();
    Some(pair.sign(&rng, msg).ok()?.as_ref().to_vec())
}

/// Signs `msg` with ECDSA on P-384 through `ring::signature::EcdsaKeyPair`:
/// `from_pkcs8` and `sign` with `ECDSA_P384_SHA384_ASN1_SIGNING` and ring's
/// system random generator.  The nonce is random, and with it the length of
/// the encoded signature, so nothing is claimed of the result.
#[verifier::external_body]
pub(crate) fn ecdsa_p384_sign(pkcs8: &[u8], msg: &[u8]) -> (res: Option<Vec<u8>>)
{
    let alg = &ring::signature::ECDSA_P384_SHA384_ASN1_SIGNING;
    let pair = ring::signature::EcdsaKeyPair::from_pkcs8(alg, pkcs8).ok()?;
    let rng = ring::rand::SystemRandom::new();
    Some(pair.sign(&rng, msg).ok()?.as_ref().to_vec())
}

/// Makes a fresh key pair on P-256 and agrees on a secret with the peer,
/// through `ring::agreement`: `EphemeralPrivateKey::generate`,
/// `compute_public_key` and `agree_ephemeral`.  Returns the fresh public key
/// and the raw shared secret.  The key pair is random, so nothing is claimed
/// of the result.
#[verifier::external_body]
pub(crate) fn ecdh_p256_ephemeral(peer_public_key: &[u8]) -> (res: Option<(Vec<u8>, Vec<u8>)>)
{
    let alg = &ring::agreement::ECDH_P256;
    let rng = ring::rand::SystemRandom::new();
    let mine = ring::agreement::EphemeralPrivateKey::generate(alg, &rng).ok()?;
    let public = mine.compute_public_key().ok()?.as_ref().to_vec();
    let peer = ring::agreement::UnparsedPublicKey::new(alg, peer_public_key);
    let failed = ring::error::Unspecified;
    let secret = ring::agreement::agree_ephemeral(mine, &peer, failed, |s| Ok(s.to_vec())).ok()?;
    Some((public, secret))
}

/// Makes a fresh key pair on Curve25519 and agrees on a secret with the
/// peer, through `ring::agreement`: `EphemeralPrivateKey::generate`,
/// `compute_public_key` and `agree_ephemeral`.  Returns the fresh public key
/// and the raw shared secret.  The key pair is random, so nothing is claimed
/// of the result.
#[verifier::external_body]
pub(crate) fn x25519_ephemeral(peer_public_key: &[u8]) -> (res: Option<(Vec<u8>, Vec<u8>)>)
{
    let alg = &ring::agreement::X25519;
    let rng = ring::rand::SystemRandom::new();
    let mine = ring::agreement::EphemeralPrivateKey::generate(alg, &rng).ok()?;
    let public = mine.compute_public_key().ok()?.as_ref().to_vec();
    let peer = ring::agreement::UnparsedPublicKey::new(alg, peer_public_key);
    let failed = ring::error::Unspecified;
    let secret = ring::agreement::agree_ephemeral(mine, &peer, failed, |s| Ok(s.to_vec())).ok()?;
    Some((public, secret))
}

/// Fills a buffer of `len` bytes through `ring::rand::SecureRandom::fill` on
/// ring's system random generator.  The contract claims the length of the
/// buffer, which this function allocates, and nothing of its bytes.
#[verifier::external_body]
pub(crate) fn random_bytes(len: usize) -> (res: Option<Vec<u8>>)
    ensures
        res matches Some(v) ==> v@.len() == len,
{
    let mut buf = vec![0u8; len];
    ring::rand::SecureRandom::fill(&ring::rand::SystemRandom::new(), &mut buf).ok()?;
    Some(buf)
}

/// Parses an RSA private key with `ring::signature::RsaKeyPair::from_der`
/// and asks it for `public_modulus_len`.  The contract names the result.
#[verifier::external_body]
pub(crate) fn rsa_key_len(der: &[u8]) -> (res: Option<usize>)
    ensures
        res == rsa_modulus_len(der@),
{
    Some(ring::signature::RsaKeyPair::from_der(der).ok()?.public_modulus_len())
}

} // verus!
