//! The manifest that follows an image.
//!
//! An image is followed immediately by a list of type-length-value entries
//! that carry integrity information about it.  The size of the list is
//! recorded in the image header, which is itself covered by the hash, so the
//! size has to be known before the list can be built: `estimate_size` gives
//! it, and `make_tlv` builds a list of exactly that size.
//!
//! The list comes in two areas.  The protected area, present only when there
//! is something to put in it, holds the dependencies on other images and the
//! security counter; it is covered by the hash and the signature.  The area
//! after it holds the hash, the signature with the hash of its key, and the
//! wrapped encryption key.

use crate::bytes::{copy_range, flip_first, flipped, le16, le32, push_all, push_u16, push_u32, same_bytes};
use crate::caps::{CapSet, Caps};
use crate::crypto::{
    aes128_ctr,
    aes128_ctr_stream,
    aes256_ctr,
    aes256_ctr_stream,
    ecdh_p256_ephemeral,
    ecdsa_p256_sign,
    ecdsa_p384_sign,
    ed25519_sign,
    ed25519_signature,
    hkdf_sha256_48,
    hkdf_sha256_64,
    hkdf_sha256_okm48,
    hkdf_sha256_okm64,
    hmac_sha256,
    hmac_sha256_tag,
    pem_decode,
    pem_parse,
    random_bytes,
    rsa_pss_sha256_sign,
    sha256,
    sha256_digest,
    sha384,
    sha384_digest,
    x25519_ephemeral,
};
use crate::header::ImageVersion;
use vstd::prelude::*;

verus! {

/// The magic number of an image whose manifest is a list of this kind.
pub const IMAGE_MAGIC: u32 = 0x96f3b83d;

/// The most dependencies a manifest takes: the size of the protected area
/// has to fit the two bytes that record it.
pub const MAX_DEPENDENCIES: usize = 4094;

/// How often an ECDSA signature is made anew before giving up on getting
/// one of the greatest length.
pub const MAX_SIGNING_TRIES: u32 = 100;

/// The kinds of entries in a manifest.
#[derive(Copy, Clone, Debug, PartialEq, Eq, Structural)]
#[allow(non_camel_case_types)]
pub enum TlvKinds {
    KEYHASH,
    SHA256,
    SHA384,
    RSA2048,
    ECDSASIG,
    RSA3072,
    ED25519,
    ENCRSA2048,
    ENCKW,
    ENCEC256,
    ENCX25519,
    DEPENDENCY,
    SECCNT,
}

/// The flags of an image header.
#[derive(Copy, Clone, Debug, PartialEq, Eq, Structural)]
#[allow(non_camel_case_types)]
pub enum TlvFlags {
    PIC,
    NON_BOOTABLE,
    ENCRYPTED_AES128,
    ENCRYPTED_AES256,
    RAM_LOAD,
}

/// Why a manifest could not be built.
#[derive(Copy, Clone, Debug, PartialEq, Eq, Structural)]
pub enum TlvError {
    /// Two RSA signatures, or two key agreements, were asked for at once.
    Unsupported,
    /// The signature is to be corrupted, and there is no byte to corrupt.
    EmptyPayload,
    /// A key is not in the form it has to be in.
    BadKey,
    /// The signing primitive failed.
    SigningFailed,
    /// No signature of the expected length came out.
    SignatureSize,
    /// The encryption key was not generated, or not wrapped, beforehand.
    MissingKey,
    /// The key derivation or the cipher failed.
    KeyDerivation,
    /// The random number generator failed.
    Random,
    /// A part does not have the length that its kind has.
    PartLength,
}

/// A dependency on a version of another image.
#[derive(Copy, Clone, Debug, PartialEq, Eq, Structural)]
pub struct Dependency {
    pub id: u8,
    pub version: ImageVersion,
}

/// The keys that manifests are made with.  The public keys are in the form
/// whose hash identifies them to the bootloader; the private keys and the
/// public keys of the key agreements are PEM files.
pub struct KeyStore {
    pub rsa2048_public: Vec<u8>,
    pub rsa2048_private_pem: Vec<u8>,
    pub rsa3072_public: Vec<u8>,
    pub rsa3072_private_pem: Vec<u8>,
    pub ecdsa_p256_public: Vec<u8>,
    pub ecdsa_p256_private_pem: Vec<u8>,
    pub ecdsa_p384_public: Vec<u8>,
    pub ecdsa_p384_private_pem: Vec<u8>,
    pub ed25519_public: Vec<u8>,
    pub ed25519_private_pem: Vec<u8>,
    pub enc_ec256_public_pem: Vec<u8>,
    pub enc_x25519_public_pem: Vec<u8>,
}

/// The values of the entries of a manifest.  A part whose kind the manifest
/// does not hold is ignored.
pub struct TlvParts {
    pub hash: Vec<u8>,
    pub rsa_keyhash: Vec<u8>,
    pub rsa_sig: Vec<u8>,
    pub ecdsa_keyhash: Vec<u8>,
    pub ecdsa_sig: Vec<u8>,
    pub ed25519_keyhash: Vec<u8>,
    pub ed25519_sig: Vec<u8>,
    pub enc_rsa: Vec<u8>,
    pub enc_kw: Vec<u8>,
    pub ecies: Vec<u8>,
}

/// What to do with a signature that the signing primitive handed back.
#[derive(Copy, Clone, Debug, PartialEq, Eq, Structural)]
pub enum Attempt {
    /// The signature has the expected length.
    Accept,
    /// The signature has another length: sign again.
    Retry,
    /// The primitive failed.
    Fail,
}

impl TlvKinds {
    /// The number that stands for the kind in a manifest.
    pub open spec fn spec_code(self) -> u16 {
        match self {
            TlvKinds::KEYHASH => 0x01,
            TlvKinds::SHA256 => 0x10,
            TlvKinds::SHA384 => 0x11,
            TlvKinds::RSA2048 => 0x20,
            TlvKinds::ECDSASIG => 0x22,
            TlvKinds::RSA3072 => 0x23,
            TlvKinds::ED25519 => 0x24,
            TlvKinds::ENCRSA2048 => 0x30,
            TlvKinds::ENCKW => 0x31,
            TlvKinds::ENCEC256 => 0x32,
            TlvKinds::ENCX25519 => 0x33,
            TlvKinds::DEPENDENCY => 0x40,
            TlvKinds::SECCNT => 0x50,
        }
    }

    /// The number that stands for the kind in a manifest.
    pub fn code(self) -> (res: u16)
        ensures
            res == self.spec_code(),
    {
        match self {
            TlvKinds::KEYHASH => 0x01,
            TlvKinds::SHA256 => 0x10,
            TlvKinds::SHA384 => 0x11,
            TlvKinds::RSA2048 => 0x20,
            TlvKinds::ECDSASIG => 0x22,
            TlvKinds::RSA3072 => 0x23,
            TlvKinds::ED25519 => 0x24,
            TlvKinds::ENCRSA2048 => 0x30,
            TlvKinds::ENCKW => 0x31,
            TlvKinds::ENCEC256 => 0x32,
            TlvKinds::ENCX25519 => 0x33,
            TlvKinds::DEPENDENCY => 0x40,
            TlvKinds::SECCNT => 0x50,
        }
    }
}

impl TlvFlags {
    /// The bit of the flag in the header's word of flags.
    pub open spec fn spec_bits(self) -> u32 {
        match self {
            TlvFlags::PIC => 0x01,
            TlvFlags::NON_BOOTABLE => 0x02,
            TlvFlags::ENCRYPTED_AES128 => 0x04,
            TlvFlags::ENCRYPTED_AES256 => 0x08,
            TlvFlags::RAM_LOAD => 0x20,
        }
    }

    /// The bit of the flag in the header's word of flags.
    pub fn bits(self) -> (res: u32)
        ensures
            res == self.spec_bits(),
    {
        match self {
            TlvFlags::PIC => 0x01,
            TlvFlags::NON_BOOTABLE => 0x02,
            TlvFlags::ENCRYPTED_AES128 => 0x04,
            TlvFlags::ENCRYPTED_AES256 => 0x08,
            TlvFlags::RAM_LOAD => 0x20,
        }
    }
}

/// The flag that an encrypting manifest sets for a key of `aes_key_size`
/// bits: that of AES-256 for 256, that of AES-128 for any other size.
pub open spec fn enc_flag(aes_key_size: u32) -> u32 {
    if aes_key_size == 256 {
        0x08
    } else {
        0x04
    }
}

/// Whether the flags ask for AES-256.
pub open spec fn wants_aes256(flags: u32) -> bool {
    flags & 0x08 == 0x08
}

/// One entry: its kind, the length of its value, and the value.
pub open spec fn entry(kind: TlvKinds, value: Seq<u8>) -> Seq<u8> {
    le16(kind.spec_code()) + le16(value.len() as u16) + value
}

/// The value of the entry that records a dependency.
pub open spec fn dependency_value(d: Dependency) -> Seq<u8> {
    seq![d.id, 0u8] + le16(0) + d.version.spec_bytes()
}

/// The entries that record the dependencies, in order.
pub open spec fn dependency_entries(deps: Seq<Dependency>) -> Seq<u8>
    decreases deps.len(),
{
    if deps.len() == 0 {
        Seq::<u8>::empty()
    } else {
        dependency_entries(deps.drop_last()) + entry(
            TlvKinds::DEPENDENCY,
            dependency_value(deps.last()),
        )
    }
}

/// The size of the protected area for `deps` dependencies: nothing when the
/// area would be empty, else its header, 16 bytes for each dependency and 8
/// for the security counter.
pub open spec fn protected_len(deps: nat, has_counter: bool) -> nat {
    if deps > 0 || has_counter {
        4 + 16 * deps + if has_counter {
            8nat
        } else {
            0nat
        }
    } else {
        0
    }
}

/// The protected area.
pub open spec fn protected_area(deps: Seq<Dependency>, counter: Option<u32>) -> Seq<u8> {
    if deps.len() > 0 || counter is Some {
        seq![0x08u8, 0x69u8] + le16(protected_len(deps.len(), counter is Some) as u16)
            + dependency_entries(deps) + match counter {
            Some(c) => entry(TlvKinds::SECCNT, le32(c)),
            None => Seq::<u8>::empty(),
        }
    } else {
        Seq::<u8>::empty()
    }
}

/// The entry of the image hash.
#[verifier::opaque]
pub open spec fn hash_section(kinds: Seq<TlvKinds>, parts: TlvParts) -> Seq<u8> {
    if kinds.contains(TlvKinds::SHA256) {
        entry(TlvKinds::SHA256, parts.hash@)
    } else if kinds.contains(TlvKinds::SHA384) {
        entry(TlvKinds::SHA384, parts.hash@)
    } else {
        Seq::<u8>::empty()
    }
}

/// The entries of an RSA signature: the hash of the key, then the signature.
#[verifier::opaque]
pub open spec fn rsa_section(kinds: Seq<TlvKinds>, parts: TlvParts) -> Seq<u8> {
    if kinds.contains(TlvKinds::RSA2048) {
        entry(TlvKinds::KEYHASH, parts.rsa_keyhash@) + entry(TlvKinds::RSA2048, parts.rsa_sig@)
    } else if kinds.contains(TlvKinds::RSA3072) {
        entry(TlvKinds::KEYHASH, parts.rsa_keyhash@) + entry(TlvKinds::RSA3072, parts.rsa_sig@)
    } else {
        Seq::<u8>::empty()
    }
}

/// The entries of an ECDSA signature: the hash of the key, then the
/// signature.
#[verifier::opaque]
pub open spec fn ecdsa_section(kinds: Seq<TlvKinds>, parts: TlvParts) -> Seq<u8> {
    if kinds.contains(TlvKinds::ECDSASIG) {
        entry(TlvKinds::KEYHASH, parts.ecdsa_keyhash@) + entry(
            TlvKinds::ECDSASIG,
            parts.ecdsa_sig@,
        )
    } else {
        Seq::<u8>::empty()
    }
}

/// The entries of an Ed25519 signature: the hash of the key, then the
/// signature.
#[verifier::opaque]
pub open spec fn ed25519_section(kinds: Seq<TlvKinds>, parts: TlvParts) -> Seq<u8> {
    if kinds.contains(TlvKinds::ED25519) {
        entry(TlvKinds::KEYHASH, parts.ed25519_keyhash@) + entry(
            TlvKinds::ED25519,
            parts.ed25519_sig@,
        )
    } else {
        Seq::<u8>::empty()
    }
}

/// The entries that carry the wrapped encryption key.
#[verifier::opaque]
pub open spec fn enc_section(kinds: Seq<TlvKinds>, parts: TlvParts) -> Seq<u8> {
    (if kinds.contains(TlvKinds::ENCRSA2048) {
        entry(TlvKinds::ENCRSA2048, parts.enc_rsa@)
    } else {
        Seq::<u8>::empty()
    }) + (if kinds.contains(TlvKinds::ENCKW) {
        entry(TlvKinds::ENCKW, parts.enc_kw@)
    } else {
        Seq::<u8>::empty()
    }) + (if kinds.contains(TlvKinds::ENCEC256) {
        entry(TlvKinds::ENCEC256, parts.ecies@)
    } else if kinds.contains(TlvKinds::ENCX25519) {
        entry(TlvKinds::ENCX25519, parts.ecies@)
    } else {
        Seq::<u8>::empty()
    })
}

/// Every entry after the protected area, in the order of a manifest: hash,
/// RSA, ECDSA, Ed25519, wrapped key.
pub open spec fn sections(kinds: Seq<TlvKinds>, parts: TlvParts) -> Seq<u8> {
    hash_section(kinds, parts) + rsa_section(kinds, parts) + ecdsa_section(kinds, parts)
        + ed25519_section(kinds, parts) + enc_section(kinds, parts)
}

/// The area after the protected one: its header, which records its size, and
/// its entries.
pub open spec fn unprotected_area(kinds: Seq<TlvKinds>, parts: TlvParts) -> Seq<u8> {
    seq![0x07u8, 0x69u8] + le16((4 + sections(kinds, parts).len()) as u16) + sections(kinds, parts)
}

/// Whether every part that the kinds ask for has the length of its kind.
pub open spec fn parts_fit(kinds: Seq<TlvKinds>, aes256: bool, parts: TlvParts) -> bool {
    &&& kinds.contains(TlvKinds::SHA256) ==> parts.hash@.len() == 32
    &&& !kinds.contains(TlvKinds::SHA256) && kinds.contains(TlvKinds::SHA384) ==> parts.hash@.len()
        == 48
    &&& kinds.contains(TlvKinds::RSA2048) ==> parts.rsa_keyhash@.len() == 32
        && parts.rsa_sig@.len() == 256
    &&& !kinds.contains(TlvKinds::RSA2048) && kinds.contains(TlvKinds::RSA3072)
        ==> parts.rsa_keyhash@.len() == 32 && parts.rsa_sig@.len() == 384
    &&& kinds.contains(TlvKinds::ECDSASIG) ==> if kinds.contains(TlvKinds::SHA384) {
        parts.ecdsa_keyhash@.len() == 48 && parts.ecdsa_sig@.len() == 104
    } else {
        parts.ecdsa_keyhash@.len() == 32 && parts.ecdsa_sig@.len() == 72
    }
    &&& kinds.contains(TlvKinds::ED25519) ==> parts.ed25519_keyhash@.len() == 32
        && parts.ed25519_sig@.len() == 64
    &&& kinds.contains(TlvKinds::ENCRSA2048) ==> parts.enc_rsa@.len() == 256
    &&& kinds.contains(TlvKinds::ENCKW) ==> parts.enc_kw@.len() == kw_len(aes256)
    &&& kinds.contains(TlvKinds::ENCEC256) ==> parts.ecies@.len() == ec256_len(aes256)
    &&& !kinds.contains(TlvKinds::ENCEC256) && kinds.contains(TlvKinds::ENCX25519)
        ==> parts.ecies@.len() == x25519_len(aes256)
}

/// The length of a key wrapped with AES key wrap.
pub open spec fn kw_len(aes256: bool) -> nat {
    if aes256 {
        40
    } else {
        24
    }
}

/// The length of a key sealed after a key agreement on P-256: the fresh
/// public key, a tag of 32 bytes and the key.
pub open spec fn ec256_len(aes256: bool) -> nat {
    if aes256 {
        129
    } else {
        113
    }
}

/// The length of a key sealed after a key agreement on Curve25519: the
/// fresh public key, a tag of 32 bytes and the key.
pub open spec fn x25519_len(aes256: bool) -> nat {
    if aes256 {
        96
    } else {
        80
    }
}

/// Whether a manifest of these kinds can be built: it holds at most one RSA
/// signature and at most one key agreement.
pub open spec fn supported(kinds: Seq<TlvKinds>) -> bool {
    &&& !(kinds.contains(TlvKinds::RSA2048) && kinds.contains(TlvKinds::RSA3072))
    &&& !(kinds.contains(TlvKinds::ENCEC256) && kinds.contains(TlvKinds::ENCX25519))
}

/// Whether a manifest of these kinds holds a signature.
pub open spec fn is_signed(kinds: Seq<TlvKinds>) -> bool {
    kinds.contains(TlvKinds::RSA2048) || kinds.contains(TlvKinds::RSA3072) || kinds.contains(
        TlvKinds::ED25519,
    ) || kinds.contains(TlvKinds::ECDSASIG)
}

/// Whether a manifest of these kinds holds an entry that is made with a key.
pub open spec fn needs_keys(kinds: Seq<TlvKinds>) -> bool {
    is_signed(kinds) || kinds.contains(TlvKinds::ENCRSA2048) || kinds.contains(TlvKinds::ENCKW)
        || kinds.contains(TlvKinds::ENCEC256) || kinds.contains(TlvKinds::ENCX25519)
}

/// What the hash entry adds to the size of a manifest.
#[verifier::opaque]
pub open spec fn hash_estimate(kinds: Seq<TlvKinds>) -> nat {
    if kinds.contains(TlvKinds::SHA256) {
        4 + 32
    } else if kinds.contains(TlvKinds::SHA384) {
        4 + 48
    } else {
        0
    }
}

/// What the signatures add to the size of a manifest: for each, the hash of
/// the key and the signature at its greatest length.
#[verifier::opaque]
pub open spec fn signature_estimate(kinds: Seq<TlvKinds>) -> nat {
    (if kinds.contains(TlvKinds::RSA2048) {
        (4 + 32) + (4 + 256nat)
    } else {
        0nat
    }) + (if kinds.contains(TlvKinds::RSA3072) {
        (4 + 32) + (4 + 384nat)
    } else {
        0nat
    }) + (if kinds.contains(TlvKinds::ED25519) {
        (4 + 32) + (4 + 64nat)
    } else {
        0nat
    }) + (if kinds.contains(TlvKinds::ECDSASIG) {
        if kinds.contains(TlvKinds::SHA384) {
            (4 + 48) + (4 + 104nat)
        } else {
            (4 + 32) + (4 + 72nat)
        }
    } else {
        0nat
    })
}

/// What the wrapped encryption key adds to the size of a manifest.
#[verifier::opaque]
pub open spec fn enc_estimate(kinds: Seq<TlvKinds>, aes256: bool) -> nat {
    (if kinds.contains(TlvKinds::ENCRSA2048) {
        4 + 256nat
    } else {
        0nat
    }) + (if kinds.contains(TlvKinds::ENCKW) {
        4 + kw_len(aes256)
    } else {
        0nat
    }) + (if kinds.contains(TlvKinds::ENCEC256) {
        4 + ec256_len(aes256)
    } else {
        0nat
    }) + (if kinds.contains(TlvKinds::ENCX25519) {
        4 + x25519_len(aes256)
    } else {
        0nat
    })
}

/// The size of a manifest, summed up kind by kind: the header of the area,
/// each entry with the four bytes that introduce it, and the protected area.
pub open spec fn estimate(kinds: Seq<TlvKinds>, aes256: bool, protected: nat) -> nat {
    4 + hash_estimate(kinds) + signature_estimate(kinds) + enc_estimate(kinds, aes256) + protected
}

/// The label under which the key that seals the encryption key is derived.
pub open spec fn ecies_info() -> Seq<u8> {
    seq![
        0x4du8,
        0x43u8,
        0x55u8,
        0x42u8,
        0x6fu8,
        0x6fu8,
        0x74u8,
        0x5fu8,
        0x45u8,
        0x43u8,
        0x49u8,
        0x45u8,
        0x53u8,
        0x5fu8,
        0x76u8,
        0x31u8,
    ]
}

/// Sixteen bytes of zero: the nonce of every cipher stream.
pub open spec fn zero_nonce() -> Seq<u8> {
    Seq::new(16, |i: int| 0u8)
}

/// The sealed encryption key after a key agreement: the fresh public key,
/// the tag of the encrypted key, and the encrypted key.  The keys of the
/// cipher and of the tag are the two halves of what is derived from the
/// shared secret under an empty salt.
pub open spec fn ecies_blob(aes256: bool, enc_key: Seq<u8>, public: Seq<u8>, secret: Seq<u8>)
    -> Option<Seq<u8>> {
    if aes256 {
        match hkdf_sha256_okm64(Seq::<u8>::empty(), secret, ecies_info()) {
            Some(d) => match aes256_ctr_stream(d.subrange(0, 32), zero_nonce(), enc_key) {
                Some(c) => Some(public + hmac_sha256_tag(d.subrange(32, 64), c) + c),
                None => None,
            },
            None => None,
        }
    } else {
        match hkdf_sha256_okm48(Seq::<u8>::empty(), secret, ecies_info()) {
            Some(d) => match aes128_ctr_stream(d.subrange(0, 16), zero_nonce(), enc_key) {
                Some(c) => Some(public + hmac_sha256_tag(d.subrange(16, 48), c) + c),
                None => None,
            },
            None => None,
        }
    }
}

/// Whether an error is one of a step that is made with a key: the key is
/// not in its form or not at hand, or the primitive that uses it failed or
/// gave something of another length than its kind has.
pub open spec fn key_error(e: TlvError) -> bool {
    e == TlvError::BadKey || e == TlvError::SigningFailed || e == TlvError::SignatureSize || e
        == TlvError::MissingKey || e == TlvError::KeyDerivation || e == TlvError::PartLength
}

/// Whether `blob` is the encryption key sealed after some key agreement:
/// with some fresh public key and the secret agreed on with it.
pub open spec fn is_sealed(aes256: bool, enc_key: Seq<u8>, blob: Seq<u8>) -> bool {
    exists|public: Seq<u8>, secret: Seq<u8>| #[trigger]
        ecies_blob(aes256, enc_key, public, secret) == Some(blob)
}

/// Every dependency takes 16 bytes.
pub proof fn lemma_dependency_entries_len(deps: Seq<Dependency>)
    ensures
        dependency_entries(deps).len() == 16 * deps.len(),
    decreases deps.len(),
{
    if deps.len() > 0 {
        lemma_dependency_entries_len(deps.drop_last());
    }
}

/// The protected area has the size that `protected_len` gives.
pub proof fn lemma_protected_area_len(deps: Seq<Dependency>, counter: Option<u32>)
    ensures
        protected_area(deps, counter).len() == protected_len(deps.len(), counter is Some),
{
    lemma_dependency_entries_len(deps);
}

/// The hash entry has the length that was summed up for it.
pub proof fn lemma_hash_section_len(kinds: Seq<TlvKinds>, aes256: bool, parts: TlvParts)
    requires
        parts_fit(kinds, aes256, parts),
    ensures
        hash_section(kinds, parts).len() == hash_estimate(kinds),
{
    reveal(hash_section);
    reveal(hash_estimate);
}

/// The signature entries have the length that was summed up for them.
pub proof fn lemma_signature_sections_len(kinds: Seq<TlvKinds>, aes256: bool, parts: TlvParts)
    requires
        supported(kinds),
        parts_fit(kinds, aes256, parts),
    ensures
        rsa_section(kinds, parts).len() + ecdsa_section(kinds, parts).len() + ed25519_section(
            kinds,
            parts,
        ).len() == signature_estimate(kinds),
{
    reveal(rsa_section);
    reveal(ecdsa_section);
    reveal(ed25519_section);
    reveal(signature_estimate);
}

/// The entries of the wrapped key have the length that was summed up for
/// them.
pub proof fn lemma_enc_section_len(kinds: Seq<TlvKinds>, aes256: bool, parts: TlvParts)
    requires
        supported(kinds),
        parts_fit(kinds, aes256, parts),
    ensures
        enc_section(kinds, parts).len() == enc_estimate(kinds, aes256),
{
    reveal(enc_section);
    reveal(enc_estimate);
}

/// The entries of parts that have the lengths of their kinds are short
/// enough for their size to be recorded in two bytes.
pub proof fn lemma_sections_short(kinds: Seq<TlvKinds>, aes256: bool, parts: TlvParts)
    requires
        parts_fit(kinds, aes256, parts),
    ensures
        sections(kinds, parts).len() <= 2000,
{
    assert(hash_section(kinds, parts).len() <= 52) by {
        reveal(hash_section);
    }
    assert(rsa_section(kinds, parts).len() <= 424) by {
        reveal(rsa_section);
    }
    assert(ecdsa_section(kinds, parts).len() <= 160) by {
        reveal(ecdsa_section);
    }
    assert(ed25519_section(kinds, parts).len() <= 104) by {
        reveal(ed25519_section);
    }
    assert(enc_section(kinds, parts).len() <= 260 + 44 + 133) by {
        reveal(enc_section);
    }
}

/// For every supported set of kinds and every set of parts that have the
/// lengths of their kinds, the size summed up beforehand is the length of the
/// manifest that is built: the protected area followed by the area of the
/// entries.  The payload plays no part in either.
pub proof fn lemma_estimate_is_exact(
    kinds: Seq<TlvKinds>,
    aes256: bool,
    deps: Seq<Dependency>,
    counter: Option<u32>,
    parts: TlvParts,
)
    requires
        supported(kinds),
        parts_fit(kinds, aes256, parts),
    ensures
        sections(kinds, parts).len() + 4 + protected_len(deps.len(), counter is Some) == estimate(
            kinds,
            aes256,
            protected_len(deps.len(), counter is Some),
        ),
        (protected_area(deps, counter) + unprotected_area(kinds, parts)).len() == estimate(
            kinds,
            aes256,
            protected_len(deps.len(), counter is Some),
        ),
{
    lemma_protected_area_len(deps, counter);
    lemma_hash_section_len(kinds, aes256, parts);
    lemma_signature_sections_len(kinds, aes256, parts);
    lemma_enc_section_len(kinds, aes256, parts);
    let h = hash_section(kinds, parts);
    let r = rsa_section(kinds, parts);
    let e = ecdsa_section(kinds, parts);
    let d = ed25519_section(kinds, parts);
    let c = enc_section(kinds, parts);
    assert(sections(kinds, parts).len() == h.len() + r.len() + e.len() + d.len() + c.len());
}

/// Appends one entry.
fn push_entry(buf: &mut Vec<u8>, kind: TlvKinds, value: &Vec<u8>)
    requires
        value@.len() <= 0xffff,
    ensures
        final(buf)@ == old(buf)@ + entry(kind, value@),
{
    push_u16(buf, kind.code());
    push_u16(buf, value.len() as u16);
    push_all(buf, value);
    assert(buf@ =~= old(buf)@ + entry(kind, value@));
}

/// Decides what to do with what the signing primitive handed back, when a
/// signature of `want` bytes is wanted.
pub fn judge_signature(outcome: &Option<Vec<u8>>, want: usize) -> (res: Attempt)
    ensures
        res == match outcome {
            Some(sig) => if sig@.len() == want {
                Attempt::Accept
            } else {
                Attempt::Retry
            },
            None => Attempt::Fail,
        },
{
    match outcome {
        Some(sig) => if sig.len() == want {
            Attempt::Accept
        } else {
            Attempt::Retry
        },
        None => Attempt::Fail,
    }
}

/// Signs `msg` with ECDSA until a signature of `want` bytes comes out.  The
/// length of an encoded signature varies with the random nonce; only the
/// greatest length is accepted, so that the manifest has the size that was
/// estimated.  Gives up after `MAX_SIGNING_TRIES` signatures.
pub fn sign_ecdsa(p384: bool, pkcs8: &Vec<u8>, msg: &Vec<u8>, want: usize) -> (res: Result<
    Vec<u8>,
    TlvError,
>)
    ensures
        res matches Ok(sig) ==> sig@.len() == want,
        res matches Err(e) ==> e == TlvError::SigningFailed || e == TlvError::SignatureSize,
{
    let mut tries: u32 = 0;
    while tries < MAX_SIGNING_TRIES
        invariant
            tries <= MAX_SIGNING_TRIES,
        decreases MAX_SIGNING_TRIES - tries,
    {
        let outcome = if p384 {
            ecdsa_p384_sign(pkcs8.as_slice(), msg.as_slice())
        } else {
            ecdsa_p256_sign(pkcs8.as_slice(), msg.as_slice())
        };
        match judge_signature(&outcome, want) {
            Attempt::Accept => {
                return Ok(outcome.unwrap());
            },
            Attempt::Fail => {
                return Err(TlvError::SigningFailed);
            },
            Attempt::Retry => {},
        }
        tries = tries + 1;
    }
    Err(TlvError::SignatureSize)
}

/// Seals the encryption key for the holder of the peer key, given the fresh
/// public key and the secret that the key agreement produced.
pub fn ecies_seal(aes256: bool, enc_key: &Vec<u8>, public: &Vec<u8>, secret: &Vec<u8>) -> (res:
    Option<Vec<u8>>)
    ensures
        res matches Some(v) ==> ecies_blob(aes256, enc_key@, public@, secret@) == Some(v@),
        res is None ==> ecies_blob(aes256, enc_key@, public@, secret@) is None,
{
    let info: Vec<u8> = vec![
        0x4du8,
        0x43u8,
        0x55u8,
        0x42u8,
        0x6fu8,
        0x6fu8,
        0x74u8,
        0x5fu8,
        0x45u8,
        0x43u8,
        0x49u8,
        0x45u8,
        0x53u8,
        0x5fu8,
        0x76u8,
        0x31u8,
    ];
    assert(info@ =~= ecies_info());
    let salt: Vec<u8> = Vec::new();
    assert(salt@ =~= Seq::<u8>::empty());
    let nonce: Vec<u8> = vec![0u8; 16];
    assert(nonce@ =~= zero_nonce());
    let split: usize = if aes256 {
        32
    } else {
        16
    };
    let derived = if aes256 {
        hkdf_sha256_64(salt.as_slice(), secret.as_slice(), info.as_slice())
    } else {
        hkdf_sha256_48(salt.as_slice(), secret.as_slice(), info.as_slice())
    };
    let d: Vec<u8> = match derived {
        Some(d) => d,
        None => {
            return None;
        },
    };
    let cipher_key: Vec<u8> = copy_range(&d, 0, split);
    let tag_key: Vec<u8> = copy_range(&d, split, d.len());
    let sealed = if aes256 {
        aes256_ctr(cipher_key.as_slice(), nonce.as_slice(), enc_key.as_slice())
    } else {
        aes128_ctr(cipher_key.as_slice(), nonce.as_slice(), enc_key.as_slice())
    };
    let c: Vec<u8> = match sealed {
        Some(c) => c,
        None => {
            return None;
        },
    };
    let tag: Vec<u8> = hmac_sha256(tag_key.as_slice(), c.as_slice());
    let mut buf: Vec<u8> = Vec::new();
    push_all(&mut buf, public);
    push_all(&mut buf, &tag);
    push_all(&mut buf, &c);
    assert(buf@ =~= public@ + tag@ + c@);
    Some(buf)
}

/// The tag of a PEM block that holds an RSA private key: `RSA PRIVATE KEY`.
pub open spec fn tag_rsa_private_key() -> Seq<u8> {
    seq![
        0x52u8,
        0x53u8,
        0x41u8,
        0x20u8,
        0x50u8,
        0x52u8,
        0x49u8,
        0x56u8,
        0x41u8,
        0x54u8,
        0x45u8,
        0x20u8,
        0x4bu8,
        0x45u8,
        0x59u8,
    ]
}

/// The tag of a PEM block that holds a private key: `PRIVATE KEY`.
pub open spec fn tag_private_key() -> Seq<u8> {
    seq![
        0x50u8,
        0x52u8,
        0x49u8,
        0x56u8,
        0x41u8,
        0x54u8,
        0x45u8,
        0x20u8,
        0x4bu8,
        0x45u8,
        0x59u8,
    ]
}

/// The tag of a PEM block that holds a public key: `PUBLIC KEY`.
pub open spec fn tag_public_key() -> Seq<u8> {
    seq![0x50u8, 0x55u8, 0x42u8, 0x4cu8, 0x49u8, 0x43u8, 0x20u8, 0x4bu8, 0x45u8, 0x59u8]
}

/// The contents of the PEM block in `pem`, if it is well-formed and has the
/// tag `tag`.
pub open spec fn pem_contents(pem: Seq<u8>, tag: Seq<u8>) -> Option<Seq<u8>> {
    match pem_decode(pem) {
        Some((t, contents)) => if t == tag {
            Some(contents)
        } else {
            None
        },
        None => None,
    }
}

/// The Ed25519 signature of the SHA-256 digest of `msg` under the keys of the
/// store: the seed is bytes 16 to 48 of the private key's block, the public
/// key bytes 12 to 44 of the stored public key.
pub open spec fn ed25519_expected(keys: KeyStore, msg: Seq<u8>) -> Option<Seq<u8>> {
    match pem_contents(keys.ed25519_private_pem@, tag_private_key()) {
        Some(contents) => if contents.len() >= 48 && keys.ed25519_public@.len() >= 44 {
            ed25519_signature(
                contents.subrange(16, 48),
                keys.ed25519_public@.subrange(12, 44),
                sha256_digest(msg),
            )
        } else {
            None
        },
        None => None,
    }
}

/// What can be said of a step in the making of a manifest before it is
/// taken.
pub ghost enum Foreseen {
    /// The step fails, with this error.
    Refused(TlvError),
    /// The step succeeds.
    Made,
    /// The step is left to a primitive that draws random numbers or judges
    /// the key.
    Open,
}

/// What can be said of two steps in a row: the second counts once the first
/// is known to succeed.
pub open spec fn and_then(first: Foreseen, second: Foreseen) -> Foreseen {
    match first {
        Foreseen::Made => second,
        _ => first,
    }
}

/// The RSA signature: its key has to be in a PEM block with the tag
/// `RSA PRIVATE KEY`.
pub open spec fn rsa_foreseen(kinds: Seq<TlvKinds>, keys: KeyStore) -> Foreseen {
    if !(kinds.contains(TlvKinds::RSA2048) || kinds.contains(TlvKinds::RSA3072)) {
        Foreseen::Made
    } else {
        let pem = if kinds.contains(TlvKinds::RSA2048) {
            keys.rsa2048_private_pem@
        } else {
            keys.rsa3072_private_pem@
        };
        if pem_contents(pem, tag_rsa_private_key()) is None {
            Foreseen::Refused(TlvError::BadKey)
        } else {
            Foreseen::Open
        }
    }
}

/// The ECDSA signature: its key has to be in a PEM block.
pub open spec fn ecdsa_foreseen(kinds: Seq<TlvKinds>, keys: KeyStore) -> Foreseen {
    if !kinds.contains(TlvKinds::ECDSASIG) {
        Foreseen::Made
    } else {
        let pem = if kinds.contains(TlvKinds::SHA384) {
            keys.ecdsa_p384_private_pem@
        } else {
            keys.ecdsa_p256_private_pem@
        };
        if pem_decode(pem) is None {
            Foreseen::Refused(TlvError::BadKey)
        } else {
            Foreseen::Open
        }
    }
}

/// The Ed25519 signature of `msg`, which the keys determine: the private
/// key has to be in a PEM block with the tag `PRIVATE KEY` that holds 48
/// bytes at least, the public key has to hold 44 bytes at least, and the
/// signature has to come out with 64 bytes.
pub open spec fn ed25519_foreseen(kinds: Seq<TlvKinds>, keys: KeyStore, msg: Seq<u8>) -> Foreseen {
    if !kinds.contains(TlvKinds::ED25519) {
        Foreseen::Made
    } else {
        match pem_contents(keys.ed25519_private_pem@, tag_private_key()) {
            None => Foreseen::Refused(TlvError::BadKey),
            Some(contents) => if contents.len() < 48 || keys.ed25519_public@.len() < 44 {
                Foreseen::Refused(TlvError::BadKey)
            } else {
                match ed25519_expected(keys, msg) {
                    None => Foreseen::Refused(TlvError::SigningFailed),
                    Some(sig) => if sig.len() == 64 {
                        Foreseen::Made
                    } else {
                        Foreseen::Refused(TlvError::SignatureSize)
                    },
                }
            },
        }
    }
}

/// The wrapped keys: each one that the manifest holds has to be set, with
/// the length of its kind.
pub open spec fn wraps_foreseen(
    kinds: Seq<TlvKinds>,
    aes256: bool,
    rsa_wrap: Seq<u8>,
    kw_wrap: Seq<u8>,
) -> Foreseen {
    if kinds.contains(TlvKinds::ENCRSA2048) && rsa_wrap.len() != 256 {
        Foreseen::Refused(TlvError::MissingKey)
    } else if kinds.contains(TlvKinds::ENCKW) && kw_wrap.len() != (if aes256 {
        40nat
    } else {
        24nat
    }) {
        Foreseen::Refused(TlvError::MissingKey)
    } else {
        Foreseen::Made
    }
}

/// The sealed key: the public key has to be in a PEM block with the tag
/// `PUBLIC KEY`, behind the description of its algorithm, and the
/// encryption key has to be at hand.
pub open spec fn ecies_foreseen(kinds: Seq<TlvKinds>, keys: KeyStore, enc_key: Seq<u8>) -> Foreseen {
    if !(kinds.contains(TlvKinds::ENCEC256) || kinds.contains(TlvKinds::ENCX25519)) {
        Foreseen::Made
    } else {
        let ec256 = kinds.contains(TlvKinds::ENCEC256);
        let pem = if ec256 {
            keys.enc_ec256_public_pem@
        } else {
            keys.enc_x25519_public_pem@
        };
        match pem_contents(pem, tag_public_key()) {
            None => Foreseen::Refused(TlvError::BadKey),
            Some(contents) => if contents.len() < (if ec256 {
                26nat
            } else {
                12nat
            }) {
                Foreseen::Refused(TlvError::BadKey)
            } else if !(enc_key.len() == 16 || enc_key.len() == 32) {
                Foreseen::Refused(TlvError::MissingKey)
            } else {
                Foreseen::Open
            },
        }
    }
}

/// Reads the PEM block in `pem` and hands out its contents, if it has the
/// tag `tag`.
pub fn read_pem(pem: &Vec<u8>, tag: &Vec<u8>) -> (res: Option<Vec<u8>>)
    ensures
        res matches Some(v) ==> pem_contents(pem@, tag@) == Some(v@),
        res is None ==> pem_contents(pem@, tag@) is None,
{
    match pem_parse(pem.as_slice()) {
        Some((t, contents)) => if same_bytes(&t, tag) {
            Some(contents)
        } else {
            None
        },
        None => None,
    }
}

/// A list of one kind.
fn kinds1(a: TlvKinds) -> (res: Vec<TlvKinds>)
    ensures
        res@ == seq![a],
{
    let mut v: Vec<TlvKinds> = Vec::new();
    v.push(a);
    assert(v@ =~= seq![a]);
    v
}

/// A list of two kinds.
fn kinds2(a: TlvKinds, b: TlvKinds) -> (res: Vec<TlvKinds>)
    ensures
        res@ == seq![a, b],
{
    let mut v: Vec<TlvKinds> = Vec::new();
    v.push(a);
    v.push(b);
    assert(v@ =~= seq![a, b]);
    v
}

/// A list of three kinds.
fn kinds3(a: TlvKinds, b: TlvKinds, c: TlvKinds) -> (res: Vec<TlvKinds>)
    ensures
        res@ == seq![a, b, c],
{
    let mut v: Vec<TlvKinds> = Vec::new();
    v.push(a);
    v.push(b);
    v.push(c);
    assert(v@ =~= seq![a, b, c]);
    v
}

/// A generator for manifests: the kinds of entries to emit, and what was
/// gathered for them while the image was put together.
pub struct TlvGen {
    flags: u32,
    kinds: Vec<TlvKinds>,
    payload: Vec<u8>,
    dependencies: Vec<Dependency>,
    enc_key: Vec<u8>,
    rsa_key_wrap: Vec<u8>,
    kw_key_wrap: Vec<u8>,
    /// Should this signature be corrupted.
    gen_corrupted: bool,
    security_cnt: Option<u32>,
    /// Ignore the flag for loading into RAM.
    ignore_ram_load_flag: bool,
    caps: CapSet,
}

impl TlvGen {
    /// The flags that the generator was made with.
    pub closed spec fn spec_flags(&self) -> u32 {
        self.flags
    }

    /// The kinds of entries to emit.
    pub closed spec fn spec_kinds(&self) -> Seq<TlvKinds> {
        self.kinds@
    }

    /// The bytes that the manifest protects.
    pub closed spec fn spec_payload(&self) -> Seq<u8> {
        self.payload@
    }

    /// The dependencies on other images.
    pub closed spec fn spec_dependencies(&self) -> Seq<Dependency> {
        self.dependencies@
    }

    /// The encryption key; empty until one is generated.
    pub closed spec fn spec_enc_key(&self) -> Seq<u8> {
        self.enc_key@
    }

    /// The encryption key as RSA-OAEP wrapped it; empty until it is set.
    pub closed spec fn spec_rsa_key_wrap(&self) -> Seq<u8> {
        self.rsa_key_wrap@
    }

    /// The encryption key as AES key wrap wrapped it; empty until it is set.
    pub closed spec fn spec_kw_key_wrap(&self) -> Seq<u8> {
        self.kw_key_wrap@
    }

    /// Whether the manifest is to fail its check.
    pub closed spec fn spec_corrupted(&self) -> bool {
        self.gen_corrupted
    }

    /// The security counter, if one was set.
    pub closed spec fn spec_security_cnt(&self) -> Option<u32> {
        self.security_cnt
    }

    /// Whether the flag for loading into RAM is left out on purpose.
    pub closed spec fn spec_ignore_ram_load(&self) -> bool {
        self.ignore_ram_load_flag
    }

    /// The capabilities of the bootloader that the manifest is made for.
    pub closed spec fn spec_caps(&self) -> CapSet {
        self.caps
    }

    /// The generator holds no more dependencies than a manifest takes.
    pub open spec fn wf(&self) -> bool {
        self.spec_dependencies().len() <= MAX_DEPENDENCIES
    }

    /// A generator as the constructors make it: nothing gathered yet, and no
    /// capability assumed of the bootloader.
    pub open spec fn fresh(&self, flags: u32, kinds: Seq<TlvKinds>) -> bool {
        &&& self.spec_flags() == flags
        &&& self.spec_kinds() == kinds
        &&& self.spec_payload() == Seq::<u8>::empty()
        &&& self.spec_dependencies() == Seq::<Dependency>::empty()
        &&& self.spec_enc_key() == Seq::<u8>::empty()
        &&& self.spec_rsa_key_wrap() == Seq::<u8>::empty()
        &&& self.spec_kw_key_wrap() == Seq::<u8>::empty()
        &&& !self.spec_corrupted()
        &&& self.spec_security_cnt() is None
        &&& !self.spec_ignore_ram_load()
        &&& self.spec_caps() == (CapSet { bits: 0, num_images: 0 })
    }

    /// True when `other` differs from this generator at most in its payload.
    pub open spec fn same_but_payload(&self, other: TlvGen) -> bool {
        &&& self.spec_flags() == other.spec_flags()
        &&& self.spec_kinds() == other.spec_kinds()
        &&& self.spec_dependencies() == other.spec_dependencies()
        &&& self.spec_enc_key() == other.spec_enc_key()
        &&& self.spec_rsa_key_wrap() == other.spec_rsa_key_wrap()
        &&& self.spec_kw_key_wrap() == other.spec_kw_key_wrap()
        &&& self.spec_corrupted() == other.spec_corrupted()
        &&& self.spec_security_cnt() == other.spec_security_cnt()
        &&& self.spec_ignore_ram_load() == other.spec_ignore_ram_load()
        &&& self.spec_caps() == other.spec_caps()
    }

    /// Whether the image is encrypted with AES-256.
    pub open spec fn aes256(&self) -> bool {
        wants_aes256(self.spec_flags())
    }

    /// The security counter that goes into the manifest: the one that was
    /// set, if the bootloader protects against rollback in hardware.
    pub open spec fn counter(&self) -> Option<u32> {
        if self.spec_caps().has(Caps::HwRollbackProtection) {
            self.spec_security_cnt()
        } else {
            None
        }
    }

    /// The size of the protected area.
    pub open spec fn spec_protect_size(&self) -> nat {
        protected_len(self.spec_dependencies().len(), self.counter() is Some)
    }

    /// The size of the manifest.
    pub open spec fn spec_estimate_size(&self) -> nat {
        estimate(self.spec_kinds(), self.aes256(), self.spec_protect_size())
    }

    /// The flags that go into the image header.
    pub open spec fn spec_get_flags(&self) -> u32 {
        if self.spec_caps().has(Caps::RamLoad) && !self.spec_ignore_ram_load() {
            self.spec_flags() | 0x20
        } else {
            self.spec_flags()
        }
    }

    /// The protected area of the manifest.
    pub open spec fn spec_protected(&self) -> Seq<u8> {
        protected_area(self.spec_dependencies(), self.counter())
    }

    /// What the hash and the signature cover: the payload and the protected
    /// area.
    pub open spec fn covered(&self) -> Seq<u8> {
        self.spec_payload() + self.spec_protected()
    }

    /// What is hashed.  Where the manifest is to fail its check and holds no
    /// signature, the hash is taken of something else than what is covered.
    pub open spec fn hashed(&self) -> Seq<u8> {
        if self.spec_corrupted() && !is_signed(self.spec_kinds()) {
            flip_first(self.covered())
        } else {
            self.covered()
        }
    }

    /// What is signed.  Where the manifest is to fail its check, the
    /// signature is made of something else than what is covered.
    pub open spec fn signed(&self) -> Seq<u8> {
        if self.spec_corrupted() {
            flip_first(self.covered())
        } else {
            self.covered()
        }
    }

    /// The manifest that is built from `parts`.
    pub open spec fn manifest(&self, parts: TlvParts) -> Seq<u8> {
        self.spec_protected() + unprotected_area(self.spec_kinds(), parts)
    }

    /// What can be said of the making of the manifest before its parts are
    /// gathered.  A manifest that cannot be built, and one that is to be
    /// corrupted while nothing is there to corrupt, is refused.  Then the
    /// signature is made, the wrapped keys are taken, and the key is
    /// sealed, in this order.
    pub open spec fn foreseen(&self, keys: KeyStore) -> Foreseen {
        let kinds = self.spec_kinds();
        if !supported(kinds) {
            Foreseen::Refused(TlvError::Unsupported)
        } else if self.spec_corrupted() && self.covered().len() == 0 {
            Foreseen::Refused(TlvError::EmptyPayload)
        } else {
            and_then(
                rsa_foreseen(kinds, keys),
                and_then(
                    ecdsa_foreseen(kinds, keys),
                    and_then(
                        ed25519_foreseen(kinds, keys, self.signed()),
                        and_then(
                            wraps_foreseen(
                                kinds,
                                self.aes256(),
                                self.spec_rsa_key_wrap(),
                                self.spec_kw_key_wrap(),
                            ),
                            ecies_foreseen(kinds, keys, self.spec_enc_key()),
                        ),
                    ),
                ),
            )
        }
    }

    /// What holds of the parts that are gathered for the manifest: each has
    /// the length of its kind; the hash is that of what is hashed; each hash
    /// of a key is that of the key in the store; an Ed25519 signature is the
    /// one that the key in the store gives; the wrapped keys are those that
    /// were set; and a sealed key is the encryption key, sealed after some
    /// key agreement.
    pub open spec fn parts_ok(&self, keys: KeyStore, parts: TlvParts) -> bool {
        let kinds = self.spec_kinds();
        &&& parts_fit(kinds, self.aes256(), parts)
        &&& kinds.contains(TlvKinds::SHA256) ==> parts.hash@ == sha256_digest(self.hashed())
        &&& !kinds.contains(TlvKinds::SHA256) && kinds.contains(TlvKinds::SHA384) ==> parts.hash@
            == sha384_digest(self.hashed())
        &&& kinds.contains(TlvKinds::RSA2048) ==> parts.rsa_keyhash@ == sha256_digest(
            keys.rsa2048_public@,
        )
        &&& !kinds.contains(TlvKinds::RSA2048) && kinds.contains(TlvKinds::RSA3072)
            ==> parts.rsa_keyhash@ == sha256_digest(keys.rsa3072_public@)
        &&& kinds.contains(TlvKinds::ECDSASIG) ==> parts.ecdsa_keyhash@ == if kinds.contains(
            TlvKinds::SHA384,
        ) {
            sha384_digest(keys.ecdsa_p384_public@)
        } else {
            sha256_digest(keys.ecdsa_p256_public@)
        }
        &&& kinds.contains(TlvKinds::ED25519) ==> parts.ed25519_keyhash@ == sha256_digest(
            keys.ed25519_public@,
        ) && ed25519_expected(keys, self.signed()) == Some(parts.ed25519_sig@)
        &&& kinds.contains(TlvKinds::ENCRSA2048) ==> parts.enc_rsa@ == self.spec_rsa_key_wrap()
        &&& kinds.contains(TlvKinds::ENCKW) ==> parts.enc_kw@ == self.spec_kw_key_wrap()
        &&& kinds.contains(TlvKinds::ENCEC256) || kinds.contains(TlvKinds::ENCX25519) ==> is_sealed(
            self.aes256(),
            self.spec_enc_key(),
            parts.ecies@,
        )
    }

    fn make(flags: u32, kinds: Vec<TlvKinds>) -> (res: TlvGen)
        ensures
            res.wf(),
            res.fresh(flags, kinds@),
    {
        TlvGen {
            flags,
            kinds,
            payload: Vec::new(),
            dependencies: Vec::new(),
            enc_key: Vec::new(),
            rsa_key_wrap: Vec::new(),
            kw_key_wrap: Vec::new(),
            gen_corrupted: false,
            security_cnt: None,
            ignore_ram_load_flag: false,
            caps: CapSet { bits: 0, num_images: 0 },
        }
    }

    fn enc_flag_for(aes_key_size: u32) -> (res: u32)
        ensures
            res == enc_flag(aes_key_size),
    {
        if aes_key_size == 256 {
            TlvFlags::ENCRYPTED_AES256.bits()
        } else {
            TlvFlags::ENCRYPTED_AES128.bits()
        }
    }

    /// Construct a new generator that will only contain a hash of the data.
    pub fn new_hash_only() -> (res: TlvGen)
        ensures
            res.wf(),
            res.fresh(0, seq![TlvKinds::SHA256]),
    {
        Self::make(0, kinds1(TlvKinds::SHA256))
    }

    /// A manifest with a hash and an RSA-2048 signature.
    pub fn new_rsa_pss() -> (res: TlvGen)
        ensures
            res.wf(),
            res.fresh(0, seq![TlvKinds::SHA256, TlvKinds::RSA2048]),
    {
        Self::make(0, kinds2(TlvKinds::SHA256, TlvKinds::RSA2048))
    }

    /// A manifest with a hash and an RSA-3072 signature.
    pub fn new_rsa3072_pss() -> (res: TlvGen)
        ensures
            res.wf(),
            res.fresh(0, seq![TlvKinds::SHA256, TlvKinds::RSA3072]),
    {
        Self::make(0, kinds2(TlvKinds::SHA256, TlvKinds::RSA3072))
    }

    /// A manifest with a SHA-256 hash and an ECDSA signature on P-256.
    pub fn new_ecdsa() -> (res: TlvGen)
        ensures
            res.wf(),
            res.fresh(0, seq![TlvKinds::SHA256, TlvKinds::ECDSASIG]),
    {
        Self::make(0, kinds2(TlvKinds::SHA256, TlvKinds::ECDSASIG))
    }

    /// A manifest with a SHA-384 hash and an ECDSA signature on P-384.
    pub fn new_ecdsa_p384() -> (res: TlvGen)
        ensures
            res.wf(),
            res.fresh(0, seq![TlvKinds::SHA384, TlvKinds::ECDSASIG]),
    {
        Self::make(0, kinds2(TlvKinds::SHA384, TlvKinds::ECDSASIG))
    }

    /// A manifest with a hash and an Ed25519 signature.
    pub fn new_ed25519() -> (res: TlvGen)
        ensures
            res.wf(),
            res.fresh(0, seq![TlvKinds::SHA256, TlvKinds::ED25519]),
    {
        Self::make(0, kinds2(TlvKinds::SHA256, TlvKinds::ED25519))
    }

    /// A manifest with a hash and an encryption key wrapped with RSA-OAEP.
    pub fn new_enc_rsa(aes_key_size: u32) -> (res: TlvGen)
        ensures
            res.wf(),
            res.fresh(enc_flag(aes_key_size), seq![TlvKinds::SHA256, TlvKinds::ENCRSA2048]),
    {
        Self::make(Self::enc_flag_for(aes_key_size), kinds2(TlvKinds::SHA256, TlvKinds::ENCRSA2048))
    }

    /// A manifest with a hash, an RSA-2048 signature and an encryption key
    /// wrapped with RSA-OAEP.
    pub fn new_sig_enc_rsa(aes_key_size: u32) -> (res: TlvGen)
        ensures
            res.wf(),
            res.fresh(
                enc_flag(aes_key_size),
                seq![TlvKinds::SHA256, TlvKinds::RSA2048, TlvKinds::ENCRSA2048],
            ),
    {
        Self::make(Self::enc_flag_for(aes_key_size), kinds3(TlvKinds::SHA256, TlvKinds::RSA2048, TlvKinds::ENCRSA2048))
    }

    /// A manifest with a hash and an encryption key wrapped with AES key
    /// wrap.
    pub fn new_enc_kw(aes_key_size: u32) -> (res: TlvGen)
        ensures
            res.wf(),
            res.fresh(enc_flag(aes_key_size), seq![TlvKinds::SHA256, TlvKinds::ENCKW]),
    {
        Self::make(Self::enc_flag_for(aes_key_size), kinds2(TlvKinds::SHA256, TlvKinds::ENCKW))
    }

    /// A manifest with a hash, an RSA-2048 signature and an encryption key
    /// wrapped with AES key wrap.
    pub fn new_rsa_kw(aes_key_size: u32) -> (res: TlvGen)
        ensures
            res.wf(),
            res.fresh(
                enc_flag(aes_key_size),
                seq![TlvKinds::SHA256, TlvKinds::RSA2048, TlvKinds::ENCKW],
            ),
    {
        Self::make(Self::enc_flag_for(aes_key_size), kinds3(TlvKinds::SHA256, TlvKinds::RSA2048, TlvKinds::ENCKW))
    }

    /// A manifest with a hash, an ECDSA signature and an encryption key
    /// wrapped with AES key wrap.
    pub fn new_ecdsa_kw(aes_key_size: u32) -> (res: TlvGen)
        ensures
            res.wf(),
            res.fresh(
                enc_flag(aes_key_size),
                seq![TlvKinds::SHA256, TlvKinds::ECDSASIG, TlvKinds::ENCKW],
            ),
    {
        Self::make(Self::enc_flag_for(aes_key_size), kinds3(TlvKinds::SHA256, TlvKinds::ECDSASIG, TlvKinds::ENCKW))
    }

    /// A manifest with a hash and an encryption key sealed after a key
    /// agreement on P-256.
    pub fn new_ecies_p256(aes_key_size: u32) -> (res: TlvGen)
        ensures
            res.wf(),
            res.fresh(enc_flag(aes_key_size), seq![TlvKinds::SHA256, TlvKinds::ENCEC256]),
    {
        Self::make(Self::enc_flag_for(aes_key_size), kinds2(TlvKinds::SHA256, TlvKinds::ENCEC256))
    }

    /// A manifest with a hash, an ECDSA signature and an encryption key
    /// sealed after a key agreement on P-256.
    pub fn new_ecdsa_ecies_p256(aes_key_size: u32) -> (res: TlvGen)
        ensures
            res.wf(),
            res.fresh(
                enc_flag(aes_key_size),
                seq![TlvKinds::SHA256, TlvKinds::ECDSASIG, TlvKinds::ENCEC256],
            ),
    {
        Self::make(Self::enc_flag_for(aes_key_size), kinds3(TlvKinds::SHA256, TlvKinds::ECDSASIG, TlvKinds::ENCEC256))
    }

    /// A manifest with a hash and an encryption key sealed after a key
    /// agreement on Curve25519.
    pub fn new_ecies_x25519(aes_key_size: u32) -> (res: TlvGen)
        ensures
            res.wf(),
            res.fresh(enc_flag(aes_key_size), seq![TlvKinds::SHA256, TlvKinds::ENCX25519]),
    {
        Self::make(Self::enc_flag_for(aes_key_size), kinds2(TlvKinds::SHA256, TlvKinds::ENCX25519))
    }

    /// A manifest with a hash, an Ed25519 signature and an encryption key
    /// sealed after a key agreement on Curve25519.
    pub fn new_ed25519_ecies_x25519(aes_key_size: u32) -> (res: TlvGen)
        ensures
            res.wf(),
            res.fresh(
                enc_flag(aes_key_size),
                seq![TlvKinds::SHA256, TlvKinds::ED25519, TlvKinds::ENCX25519],
            ),
    {
        Self::make(Self::enc_flag_for(aes_key_size), kinds3(TlvKinds::SHA256, TlvKinds::ED25519, TlvKinds::ENCX25519))
    }

    /// A manifest with a hash and a security counter.
    pub fn new_sec_cnt() -> (res: TlvGen)
        ensures
            res.wf(),
            res.fresh(0, seq![TlvKinds::SHA256, TlvKinds::SECCNT]),
    {
        Self::make(0, kinds2(TlvKinds::SHA256, TlvKinds::SECCNT))
    }

    /// Tells the generator which bootloader the manifest is made for.
    pub fn set_caps(&mut self, caps: CapSet)
        ensures
            final(self).spec_caps() == caps,
            final(self).spec_flags() == old(self).spec_flags(),
            final(self).spec_kinds() == old(self).spec_kinds(),
            final(self).spec_payload() == old(self).spec_payload(),
            final(self).spec_dependencies() == old(self).spec_dependencies(),
            final(self).spec_enc_key() == old(self).spec_enc_key(),
            final(self).spec_rsa_key_wrap() == old(self).spec_rsa_key_wrap(),
            final(self).spec_kw_key_wrap() == old(self).spec_kw_key_wrap(),
            final(self).spec_corrupted() == old(self).spec_corrupted(),
            final(self).spec_security_cnt() == old(self).spec_security_cnt(),
            final(self).spec_ignore_ram_load() == old(self).spec_ignore_ram_load(),
    {
        self.caps = caps;
    }

    /// Whether the manifest holds an entry of the kind.
    pub fn has(&self, kind: TlvKinds) -> (res: bool)
        ensures
            res == self.spec_kinds().contains(kind),
    {
        let mut i: usize = 0;
        while i < self.kinds.len()
            invariant
                i <= self.kinds.len(),
                forall|j: int| 0 <= j < i ==> self.kinds@[j] != kind,
            decreases self.kinds.len() - i,
        {
            if self.kinds[i] == kind {
                return true;
            }
            i = i + 1;
        }
        false
    }

    /// Retrieve the header magic value for this manifest type.
    pub fn get_magic(&self) -> (res: u32)
        ensures
            res == IMAGE_MAGIC,
    {
        IMAGE_MAGIC
    }

    /// Retrieve the header flags for this configuration: the flags that the
    /// generator was made with and, for a bootloader that loads into RAM, the
    /// flag that says so.
    pub fn get_flags(&self) -> (res: u32)
        ensures
            res == self.spec_get_flags(),
    {
        if Caps::RamLoad.present(&self.caps) && !self.ignore_ram_load_flag {
            self.flags | TlvFlags::RAM_LOAD.bits()
        } else {
            self.flags
        }
    }

    /// Whether the image is encrypted with AES-256.
    pub fn is_aes256(&self) -> (res: bool)
        ensures
            res == self.aes256(),
    {
        self.flags & 0x08 == 0x08
    }

    /// Add bytes to the covered hash.
    pub fn add_bytes(&mut self, bytes: &Vec<u8>)
        ensures
            final(self).spec_payload() == old(self).spec_payload() + bytes@,
            final(self).same_but_payload(*old(self)),
            final(self).spec_estimate_size() == old(self).spec_estimate_size(),
    {
        push_all(&mut self.payload, bytes);
    }

    /// Whether the security counter goes into the manifest.
    fn has_counter(&self) -> (res: bool)
        ensures
            res == (self.counter() is Some),
    {
        Caps::HwRollbackProtection.present(&self.caps) && self.security_cnt.is_some()
    }

    /// The number of bytes of this manifest that are protected.  This is
    /// stored in the image header, not in the manifest.
    pub fn protect_size(&self) -> (res: u16)
        requires
            self.wf(),
        ensures
            res == self.spec_protect_size(),
    {
        let n: usize = self.dependencies.len();
        let cnt: bool = self.has_counter();
        if n > 0 || cnt {
            let base: usize = 4 + 16 * n;
            let size: usize = if cnt {
                base + 8
            } else {
                base
            };
            size as u16
        } else {
            0
        }
    }

    /// Add a dependency on another image.
    pub fn add_dependency(&mut self, id: u8, version: &ImageVersion)
        requires
            old(self).spec_dependencies().len() < MAX_DEPENDENCIES,
        ensures
            final(self).wf(),
            final(self).spec_dependencies() == old(self).spec_dependencies().push(
                Dependency { id, version: *version },
            ),
            final(self).spec_flags() == old(self).spec_flags(),
            final(self).spec_kinds() == old(self).spec_kinds(),
            final(self).spec_payload() == old(self).spec_payload(),
            final(self).spec_enc_key() == old(self).spec_enc_key(),
            final(self).spec_rsa_key_wrap() == old(self).spec_rsa_key_wrap(),
            final(self).spec_kw_key_wrap() == old(self).spec_kw_key_wrap(),
            final(self).spec_corrupted() == old(self).spec_corrupted(),
            final(self).spec_security_cnt() == old(self).spec_security_cnt(),
            final(self).spec_ignore_ram_load() == old(self).spec_ignore_ram_load(),
            final(self).spec_caps() == old(self).spec_caps(),
    {
        self.dependencies.push(Dependency { id, version: *version });
    }

    /// Set an internal flag indicating that the next `make_tlv` should
    /// corrupt the signature.
    pub fn corrupt_sig(&mut self)
        ensures
            final(self).spec_corrupted(),
            final(self).spec_flags() == old(self).spec_flags(),
            final(self).spec_kinds() == old(self).spec_kinds(),
            final(self).spec_payload() == old(self).spec_payload(),
            final(self).spec_dependencies() == old(self).spec_dependencies(),
            final(self).spec_enc_key() == old(self).spec_enc_key(),
            final(self).spec_rsa_key_wrap() == old(self).spec_rsa_key_wrap(),
            final(self).spec_kw_key_wrap() == old(self).spec_kw_key_wrap(),
            final(self).spec_security_cnt() == old(self).spec_security_cnt(),
            final(self).spec_ignore_ram_load() == old(self).spec_ignore_ram_load(),
            final(self).spec_caps() == old(self).spec_caps(),
    {
        self.gen_corrupted = true;
    }

    /// Set the security counter to the specified value.
    pub fn set_security_counter(&mut self, security_cnt: Option<u32>)
        ensures
            final(self).spec_security_cnt() == security_cnt,
            final(self).spec_flags() == old(self).spec_flags(),
            final(self).spec_kinds() == old(self).spec_kinds(),
            final(self).spec_payload() == old(self).spec_payload(),
            final(self).spec_dependencies() == old(self).spec_dependencies(),
            final(self).spec_enc_key() == old(self).spec_enc_key(),
            final(self).spec_rsa_key_wrap() == old(self).spec_rsa_key_wrap(),
            final(self).spec_kw_key_wrap() == old(self).spec_kw_key_wrap(),
            final(self).spec_corrupted() == old(self).spec_corrupted(),
            final(self).spec_ignore_ram_load() == old(self).spec_ignore_ram_load(),
            final(self).spec_caps() == old(self).spec_caps(),
    {
        self.security_cnt = security_cnt;
    }

    /// Leaves the flag for loading into RAM out of the header, so that it can
    /// be checked that an image without it is not loaded.
    pub fn set_ignore_ram_load_flag(&mut self)
        ensures
            final(self).spec_ignore_ram_load(),
            final(self).spec_flags() == old(self).spec_flags(),
            final(self).spec_kinds() == old(self).spec_kinds(),
            final(self).spec_payload() == old(self).spec_payload(),
            final(self).spec_dependencies() == old(self).spec_dependencies(),
            final(self).spec_enc_key() == old(self).spec_enc_key(),
            final(self).spec_rsa_key_wrap() == old(self).spec_rsa_key_wrap(),
            final(self).spec_kw_key_wrap() == old(self).spec_kw_key_wrap(),
            final(self).spec_corrupted() == old(self).spec_corrupted(),
            final(self).spec_security_cnt() == old(self).spec_security_cnt(),
            final(self).spec_caps() == old(self).spec_caps(),
    {
        self.ignore_ram_load_flag = true;
    }

    /// Sets the encryption key and what wrapping it gave: with RSA-OAEP in
    /// `rsa_wrap`, with AES key wrap in `kw_wrap`.  A wrap that the manifest
    /// has no entry for may be empty.
    pub fn set_wrapped_key(&mut self, key: Vec<u8>, rsa_wrap: Vec<u8>, kw_wrap: Vec<u8>)
        ensures
            final(self).spec_enc_key() == key@,
            final(self).spec_rsa_key_wrap() == rsa_wrap@,
            final(self).spec_kw_key_wrap() == kw_wrap@,
            final(self).spec_flags() == old(self).spec_flags(),
            final(self).spec_kinds() == old(self).spec_kinds(),
            final(self).spec_payload() == old(self).spec_payload(),
            final(self).spec_dependencies() == old(self).spec_dependencies(),
            final(self).spec_corrupted() == old(self).spec_corrupted(),
            final(self).spec_security_cnt() == old(self).spec_security_cnt(),
            final(self).spec_ignore_ram_load() == old(self).spec_ignore_ram_load(),
            final(self).spec_caps() == old(self).spec_caps(),
    {
        self.enc_key = key;
        self.rsa_key_wrap = rsa_wrap;
        self.kw_key_wrap = kw_wrap;
    }

    /// What the hash entry adds to the size.
    fn hash_size(&self) -> (res: usize)
        ensures
            res == hash_estimate(self.spec_kinds()),
            res <= 52,
    {
        reveal(hash_estimate);
        if self.has(TlvKinds::SHA256) {
            4 + 32
        } else if self.has(TlvKinds::SHA384) {
            4 + 48
        } else {
            0
        }
    }

    /// What the signatures add to the size.
    fn signature_size(&self) -> (res: usize)
        ensures
            res == signature_estimate(self.spec_kinds()),
            res <= 1000,
    {
        reveal(signature_estimate);
        let mut sigs: usize = 0;
        if self.has(TlvKinds::RSA2048) {
            sigs = sigs + (4 + 32) + (4 + 256);
        }
        if self.has(TlvKinds::RSA3072) {
            sigs = sigs + (4 + 32) + (4 + 384);
        }
        if self.has(TlvKinds::ED25519) {
            sigs = sigs + (4 + 32) + (4 + 64);
        }
        if self.has(TlvKinds::ECDSASIG) {
            // An ECDSA signature is encoded as ASN.1, with its two values
            // stored as signed integers, so its size varies.  The greatest
            // size is counted.
            if self.has(TlvKinds::SHA384) {
                sigs = sigs + (4 + 48) + (4 + 104);
            } else {
                sigs = sigs + (4 + 32) + (4 + 72);
            }
        }
        sigs
    }

    /// What the wrapped encryption key adds to the size.
    fn enc_size(&self) -> (res: usize)
        ensures
            res == enc_estimate(self.spec_kinds(), self.aes256()),
            res <= 1000,
    {
        reveal(enc_estimate);
        let aes256: bool = self.is_aes256();
        let mut enc: usize = 0;
        if self.has(TlvKinds::ENCRSA2048) {
            enc = enc + (4 + 256);
        }
        if self.has(TlvKinds::ENCKW) {
            enc = enc + 4 + if aes256 {
                40
            } else {
                24
            };
        }
        if self.has(TlvKinds::ENCEC256) {
            enc = enc + 4 + if aes256 {
                129
            } else {
                113
            };
        }
        if self.has(TlvKinds::ENCX25519) {
            enc = enc + 4 + if aes256 {
                96
            } else {
                80
            };
        }
        enc
    }

    /// The size of the manifest.  This can be called before the payload is
    /// added, but after the dependencies and the security counter are.
    pub fn estimate_size(&self) -> (res: usize)
        requires
            self.wf(),
        ensures
            res == self.spec_estimate_size(),
            res <= 0x1_1000,
    {
        // Begin the estimate with the 4 byte header.
        4 + self.hash_size() + self.signature_size() + self.enc_size()
            + self.protect_size() as usize
    }

    /// Whether an encryption key of 16 or 32 bytes is at hand.
    pub fn has_enc_key(&self) -> (res: bool)
        ensures
            res == (self.spec_enc_key().len() == 16 || self.spec_enc_key().len() == 32),
    {
        self.enc_key.len() == 16 || self.enc_key.len() == 32
    }

    /// Generate a new random encryption key, of 32 bytes for AES-256 and of
    /// 16 otherwise.  Nothing changes if the random generator fails.
    pub fn generate_enc_key(&mut self) -> (res: Result<(), TlvError>)
        ensures
            final(self).spec_flags() == old(self).spec_flags(),
            final(self).spec_kinds() == old(self).spec_kinds(),
            final(self).spec_payload() == old(self).spec_payload(),
            final(self).spec_dependencies() == old(self).spec_dependencies(),
            final(self).spec_rsa_key_wrap() == old(self).spec_rsa_key_wrap(),
            final(self).spec_kw_key_wrap() == old(self).spec_kw_key_wrap(),
            final(self).spec_corrupted() == old(self).spec_corrupted(),
            final(self).spec_security_cnt() == old(self).spec_security_cnt(),
            final(self).spec_ignore_ram_load() == old(self).spec_ignore_ram_load(),
            final(self).spec_caps() == old(self).spec_caps(),
            res is Ok ==> final(self).spec_enc_key().len() == if old(self).aes256() {
                32nat
            } else {
                16nat
            },
            res is Err ==> res == Err::<(), TlvError>(TlvError::Random) && final(self).spec_enc_key() == old(self).spec_enc_key(),
    {
        let len: usize = if self.is_aes256() {
            32
        } else {
            16
        };
        match random_bytes(len) {
            Some(key) => {
                self.enc_key = key;
                Ok(())
            },
            None => Err(TlvError::Random),
        }
    }

    /// Return the current encryption key.
    pub fn get_enc_key(&self) -> (res: Vec<u8>)
        requires
            self.spec_enc_key().len() == 16 || self.spec_enc_key().len() == 32,
        ensures
            res@ == self.spec_enc_key(),
    {
        copy_range(&self.enc_key, 0, self.enc_key.len())
    }

    /// The protected area of the manifest.
    pub fn protected_tlv(&self) -> (res: Vec<u8>)
        requires
            self.wf(),
        ensures
            res@ == self.spec_protected(),
            res@.len() == self.spec_protect_size(),
    {
        let mut buf: Vec<u8> = Vec::new();
        let size: u16 = self.protect_size();
        proof {
            lemma_protected_area_len(self.spec_dependencies(), self.counter());
        }
        if size > 0 {
            buf.push(0x08);
            buf.push(0x69);
            push_u16(&mut buf, size);
            let ghost head = buf@;
            assert(head =~= seq![0x08u8, 0x69u8] + le16(size));
            let mut i: usize = 0;
            while i < self.dependencies.len()
                invariant
                    i <= self.dependencies.len(),
                    buf@ == head + dependency_entries(self.dependencies@.subrange(0, i as int)),
                decreases self.dependencies.len() - i,
            {
                let dep: Dependency = self.dependencies[i];
                let ghost before = buf@;
                push_u16(&mut buf, TlvKinds::DEPENDENCY.code());
                push_u16(&mut buf, 12);
                // The dependency.
                buf.push(dep.id);
                buf.push(0);
                push_u16(&mut buf, 0);
                dep.version.write_to(&mut buf);
                proof {
                    let next = self.dependencies@.subrange(0, i + 1);
                    assert(next.drop_last() =~= self.dependencies@.subrange(0, i as int));
                    assert(next.last() == dep);
                    assert(dependency_value(dep).len() == 12);
                    assert(buf@ =~= before + entry(TlvKinds::DEPENDENCY, dependency_value(dep)));
                }
                i = i + 1;
            }
            assert(self.dependencies@.subrange(0, i as int) =~= self.dependencies@);
            // The security counter has to be in the protected area also.
            if self.has_counter() {
                let ghost before = buf@;
                push_u16(&mut buf, TlvKinds::SECCNT.code());
                push_u16(&mut buf, 4);
                push_u32(&mut buf, self.security_cnt.unwrap());
                assert(buf@ =~= before + entry(TlvKinds::SECCNT, le32(self.security_cnt.unwrap())));
            }
            assert(buf@ =~= self.spec_protected());
        }
        buf
    }

    /// Whether every part that the manifest holds has the length of its
    /// kind.
    pub fn fits(&self, parts: &TlvParts) -> (res: bool)
        ensures
            res == parts_fit(self.spec_kinds(), self.aes256(), *parts),
    {
        let aes256: bool = self.is_aes256();
        let sha256: bool = self.has(TlvKinds::SHA256);
        let sha384: bool = self.has(TlvKinds::SHA384);
        let rsa2048: bool = self.has(TlvKinds::RSA2048);
        let enc_ec256: bool = self.has(TlvKinds::ENCEC256);
        if sha256 && parts.hash.len() != 32 {
            return false;
        }
        if !sha256 && sha384 && parts.hash.len() != 48 {
            return false;
        }
        if rsa2048 && !(parts.rsa_keyhash.len() == 32 && parts.rsa_sig.len() == 256) {
            return false;
        }
        if !rsa2048 && self.has(TlvKinds::RSA3072) && !(parts.rsa_keyhash.len() == 32
            && parts.rsa_sig.len() == 384) {
            return false;
        }
        if self.has(TlvKinds::ECDSASIG) {
            let good: bool = if sha384 {
                parts.ecdsa_keyhash.len() == 48 && parts.ecdsa_sig.len() == 104
            } else {
                parts.ecdsa_keyhash.len() == 32 && parts.ecdsa_sig.len() == 72
            };
            if !good {
                return false;
            }
        }
        if self.has(TlvKinds::ED25519) && !(parts.ed25519_keyhash.len() == 32
            && parts.ed25519_sig.len() == 64) {
            return false;
        }
        if self.has(TlvKinds::ENCRSA2048) && parts.enc_rsa.len() != 256 {
            return false;
        }
        if self.has(TlvKinds::ENCKW) && parts.enc_kw.len() != (if aes256 {
            40
        } else {
            24
        }) {
            return false;
        }
        if enc_ec256 && parts.ecies.len() != (if aes256 {
            129
        } else {
            113
        }) {
            return false;
        }
        if !enc_ec256 && self.has(TlvKinds::ENCX25519) && parts.ecies.len() != (if aes256 {
            96
        } else {
            80
        }) {
            return false;
        }
        true
    }

    fn push_hash_section(&self, body: &mut Vec<u8>, parts: &TlvParts)
        requires
            parts_fit(self.spec_kinds(), self.aes256(), *parts),
        ensures
            final(body)@ == old(body)@ + hash_section(self.spec_kinds(), *parts),
    {
        reveal(hash_section);
        if self.has(TlvKinds::SHA256) {
            push_entry(body, TlvKinds::SHA256, &parts.hash);
        } else if self.has(TlvKinds::SHA384) {
            push_entry(body, TlvKinds::SHA384, &parts.hash);
        }
        assert(body@ =~= old(body)@ + hash_section(self.spec_kinds(), *parts));
    }

    fn push_rsa_section(&self, body: &mut Vec<u8>, parts: &TlvParts)
        requires
            parts_fit(self.spec_kinds(), self.aes256(), *parts),
        ensures
            final(body)@ == old(body)@ + rsa_section(self.spec_kinds(), *parts),
    {
        reveal(rsa_section);
        if self.has(TlvKinds::RSA2048) {
            push_entry(body, TlvKinds::KEYHASH, &parts.rsa_keyhash);
            push_entry(body, TlvKinds::RSA2048, &parts.rsa_sig);
        } else if self.has(TlvKinds::RSA3072) {
            push_entry(body, TlvKinds::KEYHASH, &parts.rsa_keyhash);
            push_entry(body, TlvKinds::RSA3072, &parts.rsa_sig);
        }
        assert(body@ =~= old(body)@ + rsa_section(self.spec_kinds(), *parts));
    }

    fn push_ecdsa_section(&self, body: &mut Vec<u8>, parts: &TlvParts)
        requires
            parts_fit(self.spec_kinds(), self.aes256(), *parts),
        ensures
            final(body)@ == old(body)@ + ecdsa_section(self.spec_kinds(), *parts),
    {
        reveal(ecdsa_section);
        if self.has(TlvKinds::ECDSASIG) {
            push_entry(body, TlvKinds::KEYHASH, &parts.ecdsa_keyhash);
            push_entry(body, TlvKinds::ECDSASIG, &parts.ecdsa_sig);
        }
        assert(body@ =~= old(body)@ + ecdsa_section(self.spec_kinds(), *parts));
    }

    fn push_ed25519_section(&self, body: &mut Vec<u8>, parts: &TlvParts)
        requires
            parts_fit(self.spec_kinds(), self.aes256(), *parts),
        ensures
            final(body)@ == old(body)@ + ed25519_section(self.spec_kinds(), *parts),
    {
        reveal(ed25519_section);
        if self.has(TlvKinds::ED25519) {
            push_entry(body, TlvKinds::KEYHASH, &parts.ed25519_keyhash);
            push_entry(body, TlvKinds::ED25519, &parts.ed25519_sig);
        }
        assert(body@ =~= old(body)@ + ed25519_section(self.spec_kinds(), *parts));
    }

    fn push_enc_section(&self, body: &mut Vec<u8>, parts: &TlvParts)
        requires
            parts_fit(self.spec_kinds(), self.aes256(), *parts),
        ensures
            final(body)@ == old(body)@ + enc_section(self.spec_kinds(), *parts),
    {
        reveal(enc_section);
        if self.has(TlvKinds::ENCRSA2048) {
            push_entry(body, TlvKinds::ENCRSA2048, &parts.enc_rsa);
        }
        if self.has(TlvKinds::ENCKW) {
            push_entry(body, TlvKinds::ENCKW, &parts.enc_kw);
        }
        if self.has(TlvKinds::ENCEC256) {
            push_entry(body, TlvKinds::ENCEC256, &parts.ecies);
        } else if self.has(TlvKinds::ENCX25519) {
            push_entry(body, TlvKinds::ENCX25519, &parts.ecies);
        }
        assert(body@ =~= old(body)@ + enc_section(self.spec_kinds(), *parts));
    }

    /// Puts the manifest together from its parts.  Fails, with `PartLength`,
    /// if and only if a part does not have the length of its kind.
    pub fn assemble(&self, parts: &TlvParts) -> (res: Result<Vec<u8>, TlvError>)
        requires
            self.wf(),
        ensures
            parts_fit(self.spec_kinds(), self.aes256(), *parts) ==> res is Ok,
            res matches Ok(v) ==> v@ == self.manifest(*parts) && parts_fit(
                self.spec_kinds(),
                self.aes256(),
                *parts,
            ),
            res matches Ok(v) ==> supported(self.spec_kinds()) ==> v@.len()
                == self.spec_estimate_size(),
            res is Err ==> res == Err::<Vec<u8>, TlvError>(TlvError::PartLength),
    {
        if !self.fits(parts) {
            return Err(TlvError::PartLength);
        }
        let ghost kinds = self.spec_kinds();
        let mut body: Vec<u8> = Vec::new();
        self.push_hash_section(&mut body, parts);
        self.push_rsa_section(&mut body, parts);
        self.push_ecdsa_section(&mut body, parts);
        self.push_ed25519_section(&mut body, parts);
        self.push_enc_section(&mut body, parts);
        assert(body@ =~= sections(kinds, *parts));
        proof {
            lemma_sections_short(kinds, self.aes256(), *parts);
            if supported(kinds) {
                lemma_estimate_is_exact(
                    kinds,
                    self.aes256(),
                    self.spec_dependencies(),
                    self.counter(),
                    *parts,
                );
            }
        }
        let mut result: Vec<u8> = self.protected_tlv();
        result.push(0x07);
        result.push(0x69);
        push_u16(&mut result, (4 + body.len()) as u16);
        push_all(&mut result, &body);
        assert(result@ =~= self.manifest(*parts));
        Ok(result)
    }

    /// The hash of the key and the signature of `msg` for the RSA entry
    /// that the manifest holds.
    fn rsa_parts(&self, keys: &KeyStore, msg: &Vec<u8>) -> (res: Result<
        (Vec<u8>, Vec<u8>),
        TlvError,
    >)
        requires
            self.spec_kinds().contains(TlvKinds::RSA2048) || self.spec_kinds().contains(
                TlvKinds::RSA3072,
            ),
        ensures
            res matches Err(e) ==> key_error(e),
            rsa_foreseen(self.spec_kinds(), *keys) matches Foreseen::Refused(e) ==> res == Err::<
                (Vec<u8>, Vec<u8>),
                TlvError,
            >(e),
            res matches Ok(p) ==> {
                &&& p.0@ == sha256_digest(
                    if self.spec_kinds().contains(TlvKinds::RSA2048) {
                        keys.rsa2048_public@
                    } else {
                        keys.rsa3072_public@
                    },
                )
                &&& p.0@.len() == 32
                &&& p.1@.len() == if self.spec_kinds().contains(TlvKinds::RSA2048) {
                    256nat
                } else {
                    384nat
                }
            },
    {
        let is_rsa2048: bool = self.has(TlvKinds::RSA2048);
        // Output the hash of the public key.
        let keyhash: Vec<u8> = if is_rsa2048 {
            sha256(keys.rsa2048_public.as_slice())
        } else {
            sha256(keys.rsa3072_public.as_slice())
        };
        let tag: Vec<u8> = vec![
            0x52u8,
            0x53u8,
            0x41u8,
            0x20u8,
            0x50u8,
            0x52u8,
            0x49u8,
            0x56u8,
            0x41u8,
            0x54u8,
            0x45u8,
            0x20u8,
            0x4bu8,
            0x45u8,
            0x59u8,
        ];
        let pem: &Vec<u8> = if is_rsa2048 {
            &keys.rsa2048_private_pem
        } else {
            &keys.rsa3072_private_pem
        };
        assert(tag@ =~= tag_rsa_private_key());
        let der: Vec<u8> = match read_pem(pem, &tag) {
            Some(der) => der,
            None => {
                return Err(TlvError::BadKey);
            },
        };
        let want: usize = if is_rsa2048 {
            256
        } else {
            384
        };
        match rsa_pss_sha256_sign(der.as_slice(), msg.as_slice()) {
            Some(sig) => if sig.len() == want {
                Ok((keyhash, sig))
            } else {
                Err(TlvError::SignatureSize)
            },
            None => Err(TlvError::SigningFailed),
        }
    }

    /// The hash of the key and the signature of `msg` for the ECDSA entry.
    /// The curve goes with the hash of the manifest: P-384 with SHA-384,
    /// P-256 otherwise.
    fn ecdsa_parts(&self, keys: &KeyStore, msg: &Vec<u8>) -> (res: Result<
        (Vec<u8>, Vec<u8>),
        TlvError,
    >)
        requires
            self.spec_kinds().contains(TlvKinds::ECDSASIG),
        ensures
            res matches Err(e) ==> key_error(e),
            ecdsa_foreseen(self.spec_kinds(), *keys) matches Foreseen::Refused(e) ==> res == Err::<
                (Vec<u8>, Vec<u8>),
                TlvError,
            >(e),
            res matches Ok(p) ==> if self.spec_kinds().contains(TlvKinds::SHA384) {
                p.0@ == sha384_digest(keys.ecdsa_p384_public@) && p.0@.len() == 48 && p.1@.len()
                    == 104
            } else {
                p.0@ == sha256_digest(keys.ecdsa_p256_public@) && p.0@.len() == 32 && p.1@.len()
                    == 72
            },
    {
        let p384: bool = self.has(TlvKinds::SHA384);
        let keyhash: Vec<u8> = if p384 {
            sha384(keys.ecdsa_p384_public.as_slice())
        } else {
            sha256(keys.ecdsa_p256_public.as_slice())
        };
        let pem: &Vec<u8> = if p384 {
            &keys.ecdsa_p384_private_pem
        } else {
            &keys.ecdsa_p256_private_pem
        };
        let pkcs8: Vec<u8> = match pem_parse(pem.as_slice()) {
            Some(block) => block.1,
            None => {
                return Err(TlvError::BadKey);
            },
        };
        // The two values of the signature take 96 or 64 bytes, and their
        // encoding at most 8 more.
        let want: usize = if p384 {
            104
        } else {
            72
        };
        let sig: Vec<u8> = sign_ecdsa(p384, &pkcs8, msg, want)?;
        Ok((keyhash, sig))
    }

    /// The hash of the key and the signature of `msg` for the Ed25519 entry.
    fn ed25519_parts(&self, keys: &KeyStore, msg: &Vec<u8>) -> (res: Result<
        (Vec<u8>, Vec<u8>),
        TlvError,
    >)
        requires
            self.spec_kinds().contains(TlvKinds::ED25519),
        ensures
            res matches Err(e) ==> key_error(e),
            match ed25519_foreseen(self.spec_kinds(), *keys, msg@) {
                Foreseen::Refused(e) => res == Err::<(Vec<u8>, Vec<u8>), TlvError>(e),
                Foreseen::Made => res is Ok,
                Foreseen::Open => true,
            },
            res matches Ok(p) ==> {
                &&& p.0@ == sha256_digest(keys.ed25519_public@)
                &&& p.0@.len() == 32
                &&& p.1@.len() == 64
                &&& ed25519_expected(*keys, msg@) == Some(p.1@)
            },
    {
        let keyhash: Vec<u8> = sha256(keys.ed25519_public.as_slice());
        let hash: Vec<u8> = sha256(msg.as_slice());
        let tag: Vec<u8> = vec![
            0x50u8,
            0x52u8,
            0x49u8,
            0x56u8,
            0x41u8,
            0x54u8,
            0x45u8,
            0x20u8,
            0x4bu8,
            0x45u8,
            0x59u8,
        ];
        assert(tag@ =~= tag_private_key());
        let contents: Vec<u8> = match read_pem(&keys.ed25519_private_pem, &tag) {
            Some(contents) => contents,
            None => {
                return Err(TlvError::BadKey);
            },
        };
        if contents.len() < 48 || keys.ed25519_public.len() < 44 {
            return Err(TlvError::BadKey);
        }
        let seed: Vec<u8> = copy_range(&contents, 16, 48);
        let public: Vec<u8> = copy_range(&keys.ed25519_public, 12, 44);
        match ed25519_sign(seed.as_slice(), public.as_slice(), hash.as_slice()) {
            Some(sig) => if sig.len() == 64 {
                Ok((keyhash, sig))
            } else {
                Err(TlvError::SignatureSize)
            },
            None => Err(TlvError::SigningFailed),
        }
    }

    /// The encryption key, sealed after a key agreement with the key of the
    /// store: on P-256 if the manifest asks for it, else on Curve25519.
    fn ecies_part(&self, keys: &KeyStore) -> (res: Result<Vec<u8>, TlvError>)
        requires
            self.spec_kinds().contains(TlvKinds::ENCEC256) || self.spec_kinds().contains(
                TlvKinds::ENCX25519,
            ),
        ensures
            res matches Err(e) ==> key_error(e),
            ecies_foreseen(self.spec_kinds(), *keys, self.spec_enc_key()) matches Foreseen::Refused(
                e,
            ) ==> res == Err::<Vec<u8>, TlvError>(e),
            res matches Ok(v) ==> is_sealed(self.aes256(), self.spec_enc_key(), v@),
            res matches Ok(v) ==> v@.len() == if self.spec_kinds().contains(TlvKinds::ENCEC256) {
                ec256_len(self.aes256())
            } else {
                x25519_len(self.aes256())
            },
    {
        let ec256: bool = self.has(TlvKinds::ENCEC256);
        let aes256: bool = self.is_aes256();
        let tag: Vec<u8> = vec![
            0x50u8,
            0x55u8,
            0x42u8,
            0x4cu8,
            0x49u8,
            0x43u8,
            0x20u8,
            0x4bu8,
            0x45u8,
            0x59u8,
        ];
        let pem: &Vec<u8> = if ec256 {
            &keys.enc_ec256_public_pem
        } else {
            &keys.enc_x25519_public_pem
        };
        assert(tag@ =~= tag_public_key());
        let contents: Vec<u8> = match read_pem(pem, &tag) {
            Some(contents) => contents,
            None => {
                return Err(TlvError::BadKey);
            },
        };
        // The key itself follows the description of its algorithm.
        let skip: usize = if ec256 {
            26
        } else {
            12
        };
        if contents.len() < skip {
            return Err(TlvError::BadKey);
        }
        let peer: Vec<u8> = copy_range(&contents, skip, contents.len());
        if !self.has_enc_key() {
            return Err(TlvError::MissingKey);
        }
        let agreed = if ec256 {
            ecdh_p256_ephemeral(peer.as_slice())
        } else {
            x25519_ephemeral(peer.as_slice())
        };
        let (public, secret) = match agreed {
            Some(pair) => pair,
            None => {
                return Err(TlvError::KeyDerivation);
            },
        };
        let sealed: Vec<u8> = match ecies_seal(aes256, &self.enc_key, &public, &secret) {
            Some(sealed) => sealed,
            None => {
                return Err(TlvError::KeyDerivation);
            },
        };
        let want: usize = if ec256 {
            if aes256 {
                129
            } else {
                113
            }
        } else {
            if aes256 {
                96
            } else {
                80
            }
        };
        if sealed.len() != want {
            return Err(TlvError::PartLength);
        }
        Ok(sealed)
    }

    /// Whether the manifest can be built: see `supported`.
    pub fn is_supported(&self) -> (res: bool)
        ensures
            res == supported(self.spec_kinds()),
    {
        !(self.has(TlvKinds::RSA2048) && self.has(TlvKinds::RSA3072)) && !(self.has(
            TlvKinds::ENCEC256,
        ) && self.has(TlvKinds::ENCX25519))
    }

    /// Whether the manifest holds a signature.
    pub fn has_signature(&self) -> (res: bool)
        ensures
            res == is_signed(self.spec_kinds()),
    {
        self.has(TlvKinds::RSA2048) || self.has(TlvKinds::RSA3072) || self.has(TlvKinds::ED25519)
            || self.has(TlvKinds::ECDSASIG)
    }

    /// Computes the value of every entry of the manifest: the hash of what
    /// was gathered, the signature of it, and the wrapped encryption key.
    ///
    /// A manifest that cannot be built, and one that is to be corrupted
    /// while nothing is there to corrupt, is refused.  A manifest that holds
    /// no entry made with a key is then always computed.  Of any other,
    /// `foreseen` says what the keys decide; the rest is left to the
    /// primitives that use them.
    pub fn gather_parts(&self, keys: &KeyStore) -> (res: Result<TlvParts, TlvError>)
        requires
            self.wf(),
        ensures
            res matches Ok(parts) ==> self.parts_ok(*keys, parts),
            !supported(self.spec_kinds()) ==> res == Err::<TlvParts, TlvError>(TlvError::Unsupported),
            supported(self.spec_kinds()) && self.spec_corrupted() && self.covered().len() == 0
                ==> res == Err::<TlvParts, TlvError>(TlvError::EmptyPayload),
            supported(self.spec_kinds()) && !(self.spec_corrupted() && self.covered().len() == 0)
                && !needs_keys(self.spec_kinds()) ==> res is Ok,
            self.foreseen(*keys) matches Foreseen::Refused(e) ==> res == Err::<TlvParts, TlvError>(
                e,
            ),
            self.foreseen(*keys) is Made ==> res is Ok,
            res == Err::<TlvParts, TlvError>(TlvError::Unsupported) ==> !supported(self.spec_kinds()),
            res == Err::<TlvParts, TlvError>(TlvError::EmptyPayload) ==> supported(self.spec_kinds())
                && self.spec_corrupted() && self.covered().len() == 0,
            res matches Err(e) ==> e == TlvError::Unsupported || e == TlvError::EmptyPayload || (
            key_error(e) && needs_keys(self.spec_kinds())),
    {
        if !self.is_supported() {
            return Err(TlvError::Unsupported);
        }
        // What is hashed and signed: the payload and the protected area.
        let protected: Vec<u8> = self.protected_tlv();
        let mut covered: Vec<u8> = copy_range(&self.payload, 0, self.payload.len());
        assert(covered@ =~= self.payload@);
        push_all(&mut covered, &protected);
        if self.gen_corrupted && covered.len() == 0 {
            return Err(TlvError::EmptyPayload);
        }
        let signed: bool = self.has_signature();
        // If a signature is not requested, corrupt the hash we are
        // generating.  But, if there is a signature, output the correct
        // hash.  We want the hash test to pass so that the signature
        // verification can be validated.
        let hashed: Vec<u8> = if self.gen_corrupted && !signed {
            flipped(&covered)
        } else {
            copy_range(&covered, 0, covered.len())
        };
        assert(hashed@ =~= self.hashed());
        // Corrupt what is signed by modifying the input to the signature
        // code.
        let msg: Vec<u8> = if self.gen_corrupted {
            flipped(&covered)
        } else {
            covered
        };
        assert(msg@ =~= self.signed());
        let mut parts = TlvParts {
            hash: Vec::new(),
            rsa_keyhash: Vec::new(),
            rsa_sig: Vec::new(),
            ecdsa_keyhash: Vec::new(),
            ecdsa_sig: Vec::new(),
            ed25519_keyhash: Vec::new(),
            ed25519_sig: Vec::new(),
            enc_rsa: Vec::new(),
            enc_kw: Vec::new(),
            ecies: Vec::new(),
        };
        if self.has(TlvKinds::SHA256) {
            parts.hash = sha256(hashed.as_slice());
        } else if self.has(TlvKinds::SHA384) {
            parts.hash = sha384(hashed.as_slice());
        }
        if self.has(TlvKinds::RSA2048) || self.has(TlvKinds::RSA3072) {
            let (keyhash, sig) = self.rsa_parts(keys, &msg)?;
            parts.rsa_keyhash = keyhash;
            parts.rsa_sig = sig;
        }
        if self.has(TlvKinds::ECDSASIG) {
            let (keyhash, sig) = self.ecdsa_parts(keys, &msg)?;
            parts.ecdsa_keyhash = keyhash;
            parts.ecdsa_sig = sig;
        }
        if self.has(TlvKinds::ED25519) {
            let (keyhash, sig) = self.ed25519_parts(keys, &msg)?;
            parts.ed25519_keyhash = keyhash;
            parts.ed25519_sig = sig;
        }
        if self.has(TlvKinds::ENCRSA2048) {
            if self.rsa_key_wrap.len() != 256 {
                return Err(TlvError::MissingKey);
            }
            parts.enc_rsa = copy_range(&self.rsa_key_wrap, 0, 256);
            assert(parts.enc_rsa@ =~= self.rsa_key_wrap@);
        }
        if self.has(TlvKinds::ENCKW) {
            let want: usize = if self.is_aes256() {
                40
            } else {
                24
            };
            if self.kw_key_wrap.len() != want {
                return Err(TlvError::MissingKey);
            }
            parts.enc_kw = copy_range(&self.kw_key_wrap, 0, want);
            assert(parts.enc_kw@ =~= self.kw_key_wrap@);
        }
        if self.has(TlvKinds::ENCEC256) || self.has(TlvKinds::ENCX25519) {
            parts.ecies = self.ecies_part(keys)?;
        }
        Ok(parts)
    }

    /// Builds the manifest for what was gathered.
    ///
    /// The manifest is as long as `estimate_size` said, and is made of parts
    /// of which `parts_ok` holds.  When it is refused is said at
    /// `gather_parts`.
    pub fn make_tlv(self, keys: &KeyStore) -> (res: Result<Vec<u8>, TlvError>)
        requires
            self.wf(),
        ensures
            res matches Ok(v) ==> v@.len() == self.spec_estimate_size() && exists|parts: TlvParts|
                self.parts_ok(*keys, parts) && v@ == #[trigger] self.manifest(parts),
            res matches Ok(v) ==> !needs_keys(self.spec_kinds()) ==> v@ == self.unsigned_manifest(),
            !supported(self.spec_kinds()) ==> res == Err::<Vec<u8>, TlvError>(TlvError::Unsupported),
            supported(self.spec_kinds()) && self.spec_corrupted() && self.covered().len() == 0
                ==> res == Err::<Vec<u8>, TlvError>(TlvError::EmptyPayload),
            supported(self.spec_kinds()) && !(self.spec_corrupted() && self.covered().len() == 0)
                && !needs_keys(self.spec_kinds()) ==> res is Ok,
            self.foreseen(*keys) matches Foreseen::Refused(e) ==> res == Err::<Vec<u8>, TlvError>(e),
            self.foreseen(*keys) is Made ==> res is Ok,
            res == Err::<Vec<u8>, TlvError>(TlvError::Unsupported) ==> !supported(self.spec_kinds()),
            res == Err::<Vec<u8>, TlvError>(TlvError::EmptyPayload) ==> supported(self.spec_kinds())
                && self.spec_corrupted() && self.covered().len() == 0,
            res matches Err(e) ==> e == TlvError::Unsupported || e == TlvError::EmptyPayload || (
            key_error(e) && needs_keys(self.spec_kinds())),
    {
        let parts: TlvParts = self.gather_parts(keys)?;
        let res = self.assemble(&parts);
        proof {
            if !needs_keys(self.spec_kinds()) {
                self.lemma_unsigned_manifest(*keys, parts);
            }
        }
        res
    }

    /// The manifest when it holds no entry that is made with a key: the
    /// protected area, and after it the header of the second area and the
    /// hash of what is hashed, if a hash is asked for.
    pub open spec fn unsigned_manifest(&self) -> Seq<u8> {
        let kinds = self.spec_kinds();
        let hash = if kinds.contains(TlvKinds::SHA256) {
            entry(TlvKinds::SHA256, sha256_digest(self.hashed()))
        } else if kinds.contains(TlvKinds::SHA384) {
            entry(TlvKinds::SHA384, sha384_digest(self.hashed()))
        } else {
            Seq::<u8>::empty()
        };
        self.spec_protected() + seq![0x07u8, 0x69u8] + le16((4 + hash.len()) as u16) + hash
    }

    /// A manifest that holds no entry made with a key is the protected area
    /// followed by the hash entry alone.
    pub proof fn lemma_unsigned_manifest(&self, keys: KeyStore, parts: TlvParts)
        requires
            !needs_keys(self.spec_kinds()),
            self.parts_ok(keys, parts),
        ensures
            self.manifest(parts) == self.unsigned_manifest(),
    {
        reveal(hash_section);
        reveal(rsa_section);
        reveal(ecdsa_section);
        reveal(ed25519_section);
        reveal(enc_section);
        let kinds = self.spec_kinds();
        assert(sections(kinds, parts) =~= hash_section(kinds, parts));
        assert(self.manifest(parts) =~= self.unsigned_manifest());
    }
}

/// A generator for manifests.  The image builder gathers what the manifest
/// covers through these methods, whatever the format of the manifest is.
pub trait ManifestGen: Sized {
    /// Whether the generator can take another dependency and build its
    /// manifest.
    spec fn ready(&self) -> bool;

    /// Retrieve the header magic value for this manifest type.
    fn get_magic(&self) -> u32;

    /// Retrieve the flags value for this particular manifest type.
    fn get_flags(&self) -> u32;

    /// Retrieve the number of bytes of this manifest that is "protected".
    /// This field is stored in the outside image header instead of the
    /// manifest header.
    fn protect_size(&self) -> u16
        requires
            self.ready(),
    ;

    /// Add a dependency on another image.
    fn add_dependency(&mut self, id: u8, version: &ImageVersion)
        requires
            old(self).ready(),
    ;

    /// Add a sequence of bytes to the payload that the manifest is
    /// protecting.
    fn add_bytes(&mut self, bytes: &Vec<u8>);

    /// Set an internal flag indicating that the next `make_tlv` should
    /// corrupt the signature.
    fn corrupt_sig(&mut self);

    /// The size of the manifest.  This can be called before the payload is
    /// added, but after other information is added.
    fn estimate_size(&self) -> usize
        requires
            self.ready(),
    ;

    /// Construct the manifest for this payload.
    fn make_tlv(self, keys: &KeyStore) -> Result<Vec<u8>, TlvError>
        requires
            self.ready(),
    ;

    /// Generate a new random encryption key.
    fn generate_enc_key(&mut self) -> Result<(), TlvError>;

    /// The encryption key, once there is one.
    spec fn enc_key(&self) -> Option<Seq<u8>>;

    /// Return the current encryption key, if one was generated.
    fn get_enc_key(&self) -> (res: Option<Vec<u8>>)
        ensures
            match res {
                Some(key) => self.enc_key() == Some(key@),
                None => self.enc_key() is None,
            },
    ;

    /// Set the security counter to the specified value.
    fn set_security_counter(&mut self, security_cnt: Option<u32>);

    /// Leaves the flag for loading into RAM out of the header.
    fn set_ignore_ram_load_flag(&mut self);
}

impl ManifestGen for TlvGen {
    open spec fn ready(&self) -> bool {
        self.spec_dependencies().len() < MAX_DEPENDENCIES
    }

    fn get_magic(&self) -> (res: u32)
        ensures
            res == IMAGE_MAGIC,
    {
        TlvGen::get_magic(self)
    }

    fn get_flags(&self) -> (res: u32)
        ensures
            res == self.spec_get_flags(),
    {
        TlvGen::get_flags(self)
    }

    fn protect_size(&self) -> (res: u16)
        ensures
            res == self.spec_protect_size(),
    {
        TlvGen::protect_size(self)
    }

    fn add_dependency(&mut self, id: u8, version: &ImageVersion)
        ensures
            final(self).wf(),
            final(self).spec_dependencies() == old(self).spec_dependencies().push(
                Dependency { id, version: *version },
            ),
            final(self).spec_flags() == old(self).spec_flags(),
            final(self).spec_kinds() == old(self).spec_kinds(),
            final(self).spec_payload() == old(self).spec_payload(),
            final(self).spec_enc_key() == old(self).spec_enc_key(),
            final(self).spec_rsa_key_wrap() == old(self).spec_rsa_key_wrap(),
            final(self).spec_kw_key_wrap() == old(self).spec_kw_key_wrap(),
            final(self).spec_corrupted() == old(self).spec_corrupted(),
            final(self).spec_security_cnt() == old(self).spec_security_cnt(),
            final(self).spec_ignore_ram_load() == old(self).spec_ignore_ram_load(),
            final(self).spec_caps() == old(self).spec_caps(),
    {
        TlvGen::add_dependency(self, id, version)
    }

    fn add_bytes(&mut self, bytes: &Vec<u8>)
        ensures
            final(self).spec_payload() == old(self).spec_payload() + bytes@,
            final(self).same_but_payload(*old(self)),
            final(self).spec_estimate_size() == old(self).spec_estimate_size(),
    {
        TlvGen::add_bytes(self, bytes)
    }

    fn corrupt_sig(&mut self)
        ensures
            final(self).spec_corrupted(),
            final(self).spec_flags() == old(self).spec_flags(),
            final(self).spec_kinds() == old(self).spec_kinds(),
            final(self).spec_payload() == old(self).spec_payload(),
            final(self).spec_dependencies() == old(self).spec_dependencies(),
            final(self).spec_enc_key() == old(self).spec_enc_key(),
            final(self).spec_rsa_key_wrap() == old(self).spec_rsa_key_wrap(),
            final(self).spec_kw_key_wrap() == old(self).spec_kw_key_wrap(),
            final(self).spec_security_cnt() == old(self).spec_security_cnt(),
            final(self).spec_ignore_ram_load() == old(self).spec_ignore_ram_load(),
            final(self).spec_caps() == old(self).spec_caps(),
    {
        TlvGen::corrupt_sig(self)
    }

    fn estimate_size(&self) -> (res: usize)
        ensures
            res == self.spec_estimate_size(),
            res <= 0x1_1000,
    {
        TlvGen::estimate_size(self)
    }

    fn make_tlv(self, keys: &KeyStore) -> (res: Result<Vec<u8>, TlvError>)
        ensures
            res matches Ok(v) ==> v@.len() == self.spec_estimate_size() && exists|parts: TlvParts|
                self.parts_ok(*keys, parts) && v@ == #[trigger] self.manifest(parts),
            res matches Ok(v) ==> !needs_keys(self.spec_kinds()) ==> v@ == self.unsigned_manifest(),
            !supported(self.spec_kinds()) ==> res == Err::<Vec<u8>, TlvError>(TlvError::Unsupported),
            supported(self.spec_kinds()) && self.spec_corrupted() && self.covered().len() == 0
                ==> res == Err::<Vec<u8>, TlvError>(TlvError::EmptyPayload),
            supported(self.spec_kinds()) && !(self.spec_corrupted() && self.covered().len() == 0)
                && !needs_keys(self.spec_kinds()) ==> res is Ok,
            self.foreseen(*keys) matches Foreseen::Refused(e) ==> res == Err::<Vec<u8>, TlvError>(e),
            self.foreseen(*keys) is Made ==> res is Ok,
            res == Err::<Vec<u8>, TlvError>(TlvError::Unsupported) ==> !supported(self.spec_kinds()),
            res == Err::<Vec<u8>, TlvError>(TlvError::EmptyPayload) ==> supported(self.spec_kinds())
                && self.spec_corrupted() && self.covered().len() == 0,
            res matches Err(e) ==> e == TlvError::Unsupported || e == TlvError::EmptyPayload || (
            key_error(e) && needs_keys(self.spec_kinds())),
    {
        TlvGen::make_tlv(self, keys)
    }

    fn generate_enc_key(&mut self) -> (res: Result<(), TlvError>)
        ensures
            final(self).spec_flags() == old(self).spec_flags(),
            final(self).spec_kinds() == old(self).spec_kinds(),
            final(self).spec_payload() == old(self).spec_payload(),
            final(self).spec_dependencies() == old(self).spec_dependencies(),
            final(self).spec_rsa_key_wrap() == old(self).spec_rsa_key_wrap(),
            final(self).spec_kw_key_wrap() == old(self).spec_kw_key_wrap(),
            final(self).spec_corrupted() == old(self).spec_corrupted(),
            final(self).spec_security_cnt() == old(self).spec_security_cnt(),
            final(self).spec_ignore_ram_load() == old(self).spec_ignore_ram_load(),
            final(self).spec_caps() == old(self).spec_caps(),
            res is Ok ==> final(self).spec_enc_key().len() == if old(self).aes256() {
                32nat
            } else {
                16nat
            },
            res is Err ==> res == Err::<(), TlvError>(TlvError::Random) && final(self).spec_enc_key() == old(self).spec_enc_key(),
    {
        TlvGen::generate_enc_key(self)
    }

    open spec fn enc_key(&self) -> Option<Seq<u8>> {
        if self.spec_enc_key().len() == 16 || self.spec_enc_key().len() == 32 {
            Some(self.spec_enc_key())
        } else {
            None
        }
    }

    fn get_enc_key(&self) -> (res: Option<Vec<u8>>) {
        if self.has_enc_key() {
            Some(TlvGen::get_enc_key(self))
        } else {
            None
        }
    }

    fn set_security_counter(&mut self, security_cnt: Option<u32>)
        ensures
            final(self).spec_security_cnt() == security_cnt,
            final(self).spec_flags() == old(self).spec_flags(),
            final(self).spec_kinds() == old(self).spec_kinds(),
            final(self).spec_payload() == old(self).spec_payload(),
            final(self).spec_dependencies() == old(self).spec_dependencies(),
            final(self).spec_enc_key() == old(self).spec_enc_key(),
            final(self).spec_rsa_key_wrap() == old(self).spec_rsa_key_wrap(),
            final(self).spec_kw_key_wrap() == old(self).spec_kw_key_wrap(),
            final(self).spec_corrupted() == old(self).spec_corrupted(),
            final(self).spec_ignore_ram_load() == old(self).spec_ignore_ram_load(),
            final(self).spec_caps() == old(self).spec_caps(),
    {
        TlvGen::set_security_counter(self, security_cnt)
    }

    fn set_ignore_ram_load_flag(&mut self)
        ensures
            final(self).spec_ignore_ram_load(),
            final(self).spec_flags() == old(self).spec_flags(),
            final(self).spec_kinds() == old(self).spec_kinds(),
            final(self).spec_payload() == old(self).spec_payload(),
            final(self).spec_dependencies() == old(self).spec_dependencies(),
            final(self).spec_enc_key() == old(self).spec_enc_key(),
            final(self).spec_rsa_key_wrap() == old(self).spec_rsa_key_wrap(),
            final(self).spec_kw_key_wrap() == old(self).spec_kw_key_wrap(),
            final(self).spec_corrupted() == old(self).spec_corrupted(),
            final(self).spec_security_cnt() == old(self).spec_security_cnt(),
            final(self).spec_caps() == old(self).spec_caps(),
    {
        TlvGen::set_ignore_ram_load_flag(self)
    }
}

} // verus!
