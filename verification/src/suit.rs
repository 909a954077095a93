//! Manifests in the SUIT format: a signed description of a payload, encoded
//! as CBOR.
//!
//! The manifest proper records a sequence number, the size of the payload
//! and a digest of it.  It is wrapped in an envelope together with a
//! signature over it.

use crate::bytes::{copy_range, push_all, push_u16};
use crate::cbor::{
    Encoder,
    Nested,
    account,
    head,
    lemma_account_innermost,
    lemma_account_settled,
};
use crate::crypto::{rsa_key_len, rsa_modulus_len, rsa_pss_sha256_sign, sha256, sha256_digest};
use crate::tlv::{pem_contents, read_pem, tag_rsa_private_key};
use vstd::pervasive::unreached;
use vstd::prelude::*;
use vstd::string::StringSliceAdditionalSpecFns;

verus! {

/// Why a manifest was not generated.
#[derive(Copy, Clone, Debug, PartialEq, Eq, Structural)]
pub enum SuitError {
    /// No key id was set.
    NoKeyId,
    /// The key is not an RSA private key in a PEM block, or ring rejects it.
    BadKey,
    /// The signer failed, or its signature has the wrong length.
    Signing,
    /// The manifest is too long for its size to be recorded.
    TooLong,
}

/// A signer is something that is able to sign a message (for COSE).
pub trait Signer {
    /// The COSE numeric code for this signature type.
    spec fn code(&self) -> isize;

    /// Return the COSE numeric code for this signature type.
    fn sig_type(&self) -> (res: isize)
        ensures
            res == self.code(),
    ;

    /// Compute a signature for a block of data.  A signer that cannot sign
    /// reports `Signing`; it keeps its type of signature.
    fn gen_signature(&mut self, data: &Vec<u8>) -> (res: Result<Vec<u8>, SuitError>)
        ensures
            res matches Err(e) ==> e == SuitError::Signing,
            final(self).code() == old(self).code(),
    ;
}

/// A signer that signs with an RSA key of 2048 bits.
pub struct RSA2048Signer {
    key: Vec<u8>,
}

/// A builder for a suit manifest.  Create one of these, set the appropriate
/// data, and then generate the signed result with `generate`.
pub struct SuitGenerator<S: Signer> {
    // The payload that the manifest describes.
    payload: Option<Vec<u8>>,
    // The algorithm used to sign the payload.
    signer: Option<S>,
    // The key ID used.
    key_id: Option<Vec<u8>>,
    // The sequence number.
    seq: u32,
}

/// An unsigned integer.
pub open spec fn uint(value: usize) -> Seq<u8> {
    head(0, value as u64)
}

/// A signed integer.
pub open spec fn sint(value: isize) -> Seq<u8> {
    if value < 0 {
        head(1, (-1 - value) as u64)
    } else {
        head(0, value as u64)
    }
}

/// A byte string.
pub open spec fn bstr(data: Seq<u8>) -> Seq<u8> {
    head(2, data.len() as u64) + data
}

/// A string of text, given as its bytes.
pub open spec fn tstr(text: Seq<u8>) -> Seq<u8> {
    head(3, text.len() as u64) + text
}

/// The value null.
pub open spec fn null() -> Seq<u8> {
    head(7, 22)
}

/// The description of the digest algorithm: a map that says SHA-256.
pub open spec fn digest_id() -> Seq<u8> {
    head(5, 1) + uint(1) + uint(41)
}

/// What is hashed for the digest of `data`.
pub open spec fn digest_input(data: Seq<u8>) -> Seq<u8> {
    head(4, 3) + tstr("Digest".spec_bytes()) + bstr(digest_id()) + bstr(data)
}

/// The digest of `data`, as it stands in a manifest: an array of the
/// description of the algorithm, an empty map, null, and the hash.
pub open spec fn digest_item(data: Seq<u8>) -> Seq<u8> {
    head(4, 4) + bstr(digest_id()) + head(5, 0) + null() + bstr(
        sha256_digest(digest_input(data)),
    )
}

/// The manifest proper: its version, its sequence number, and one payload
/// with its designator, its size and its digest.
pub open spec fn manifest_bytes(seq: u32, payload: Seq<u8>) -> Seq<u8> {
    head(5, 3) + uint(1) + uint(1) + uint(2) + uint(seq as usize) + uint(3) + head(4, 1) + head(
        5,
        3,
    ) + uint(1) + head(4, 1) + bstr(seq![0x30u8]) + uint(2) + uint(payload.len() as usize)
        + uint(3) + digest_item(payload)
}

/// The protected header of the envelope.
pub open spec fn body_prot() -> Seq<u8> {
    head(5, 1) + uint(3) + uint(0)
}

/// The protected header of the signature: the kind of signature.
pub open spec fn sig_prot(sig_type: isize) -> Seq<u8> {
    head(5, 1) + uint(1) + sint(sig_type)
}

/// What the signature part of the envelope starts with: the tag, the
/// headers and the key id.
pub open spec fn sig_head(body: Seq<u8>, prot: Seq<u8>, key_id: Seq<u8>) -> Seq<u8> {
    head(6, 98) + head(4, 4) + bstr(body) + head(5, 0) + null() + head(4, 1) + head(4, 3) + bstr(
        prot,
    ) + head(5, 1) + uint(4) + bstr(key_id)
}

/// The signature part of the envelope: the headers, the key id, and the
/// signature, or null where there is no signer.
pub open spec fn signed_part(sig_type: isize, key_id: Seq<u8>, signature: Option<Seq<u8>>) -> Seq<
    u8,
> {
    sig_head(body_prot(), sig_prot(sig_type), key_id) + match signature {
        Some(s) => bstr(s),
        None => null(),
    }
}

/// The envelope: the signature part under key 1, the manifest under key 2.
pub open spec fn envelope(
    seq: u32,
    payload: Seq<u8>,
    sig_type: isize,
    key_id: Seq<u8>,
    signature: Option<Seq<u8>>,
) -> Seq<u8> {
    head(5, 2) + uint(1) + signed_part(sig_type, key_id, signature) + uint(2) + bstr(
        manifest_bytes(seq, payload),
    )
}

/// The description of the digest algorithm.
fn gen_digest_id() -> (res: Result<Vec<u8>, SuitError>)
    ensures
        res matches Ok(v) && v@ == digest_id(),
{
    let ghost none = Seq::<Nested>::empty();
    let mut encoder = Encoder::new();
    proof {
        assert(seq![Nested::Single] =~= none.push(Nested::Single));
        lemma_account_innermost(none, 1);
        lemma_account_innermost(none, 2);
    }
    encoder.add_map(1);
    encoder.add_unsigned(1);
    encoder.add_unsigned(41);
    encoder.assert_complete();
    assert(encoder@ =~= digest_id());
    Ok(encoder.into_inner())
}

/// What is hashed for the digest of `data`.
fn gen_digest_input(id: &Vec<u8>, data: &Vec<u8>) -> (res: Result<Vec<u8>, SuitError>)
    requires
        id@ == digest_id(),
    ensures
        res matches Ok(v) && v@ == digest_input(data@),
{
    let ghost none = Seq::<Nested>::empty();
    let mut inner = Encoder::new();
    proof {
        assert(seq![Nested::Single] =~= none.push(Nested::Single));
        lemma_account_innermost(none, 1);
        lemma_account_innermost(none, 2);
        lemma_account_innermost(none, 3);
    }
    inner.add_array(3);
    inner.add_utf8("Digest");
    inner.add_bytestring(id.as_slice());
    inner.add_bytestring(data.as_slice());
    inner.assert_complete();
    assert(inner@ =~= digest_input(data@));
    Ok(inner.into_inner())
}

/// Generate a COSE Digest containing a SHA-256 signature of the given
/// payload.  Since there isn't a COSE Digest structure, this is based off of
/// the somewhat ambiguous description in the manifest draft.
pub fn gen_digest(encoder: &mut Encoder, data: &Vec<u8>) -> (res: Result<(), SuitError>)
    requires
        old(encoder).expecting(),
    ensures
        res is Ok,
        final(encoder).pushed(*old(encoder), digest_item(data@), None),
{
    proof {
        lemma_account_settled(encoder.spec_nested());
        if let Some(rest) = account(encoder.spec_nested()) {
            lemma_account_innermost(rest, 1);
            lemma_account_innermost(rest, 2);
            lemma_account_innermost(rest, 3);
            lemma_account_innermost(rest, 4);
        }
    }
    encoder.add_array(4);
    let id: Vec<u8> = gen_digest_id()?;
    encoder.add_bytestring(id.as_slice());
    encoder.add_map(0);
    encoder.add_null();
    let input: Vec<u8> = gen_digest_input(&id, data)?;
    let hash: Vec<u8> = sha256(input.as_slice());
    encoder.add_bytestring(hash.as_slice());
    assert(encoder@ =~= old(encoder)@ + digest_item(data@));
    Ok(())
}

/// The protected header of the envelope.
fn gen_body_prot() -> (res: Result<Vec<u8>, SuitError>)
    ensures
        res matches Ok(v) && v@ == body_prot(),
{
    let ghost none = Seq::<Nested>::empty();
    let mut inner = Encoder::new();
    proof {
        assert(seq![Nested::Single] =~= none.push(Nested::Single));
        lemma_account_innermost(none, 1);
        lemma_account_innermost(none, 2);
    }
    inner.add_map(1);
    inner.add_unsigned(3);
    inner.add_unsigned(0);
    inner.assert_complete();
    assert(inner@ =~= body_prot());
    Ok(inner.into_inner())
}

/// The protected header of the signature.
fn gen_sig_prot(sig_type: isize) -> (res: Result<Vec<u8>, SuitError>)
    ensures
        res matches Ok(v) && v@ == sig_prot(sig_type),
{
    let ghost none = Seq::<Nested>::empty();
    let mut inner = Encoder::new();
    proof {
        assert(seq![Nested::Single] =~= none.push(Nested::Single));
        lemma_account_innermost(none, 1);
        lemma_account_innermost(none, 2);
    }
    inner.add_map(1);
    inner.add_unsigned(1);
    inner.add_signed(sig_type);
    inner.assert_complete();
    assert(inner@ =~= sig_prot(sig_type));
    Ok(inner.into_inner())
}

/// The block that is signed: the word `Signature`, the two headers, an
/// empty string and the manifest.
fn gen_sig_block(body: &Vec<u8>, prot: &Vec<u8>, manifest: &Vec<u8>) -> (res: Result<
    Vec<u8>,
    SuitError,
>)
    ensures
        res matches Ok(v) && v@ == head(4, 5) + tstr("Signature".spec_bytes()) + bstr(body@) + bstr(
            prot@,
        ) + bstr(Seq::<u8>::empty()) + bstr(manifest@),
{
    let ghost none = Seq::<Nested>::empty();
    let mut inner = Encoder::new();
    proof {
        assert(seq![Nested::Single] =~= none.push(Nested::Single));
        lemma_account_innermost(none, 1);
        lemma_account_innermost(none, 2);
        lemma_account_innermost(none, 3);
        lemma_account_innermost(none, 4);
        lemma_account_innermost(none, 5);
    }
    inner.add_array(5);
    inner.add_utf8("Signature");
    inner.add_bytestring(body.as_slice());
    inner.add_bytestring(prot.as_slice());
    let empty: Vec<u8> = Vec::new();
    assert(empty@ =~= Seq::<u8>::empty());
    inner.add_bytestring(empty.as_slice());
    inner.add_bytestring(manifest.as_slice());
    inner.assert_complete();
    assert(inner@ =~= head(4, 5) + tstr("Signature".spec_bytes()) + bstr(body@) + bstr(prot@)
        + bstr(Seq::<u8>::empty()) + bstr(manifest@));
    Ok(inner.into_inner())
}

/// Writes what the signature part of the envelope starts with.
fn push_sig_head(encoder: &mut Encoder, body: &Vec<u8>, prot: &Vec<u8>, key_id: &Vec<u8>) -> (res:
    Result<(), SuitError>)
    requires
        old(encoder).spec_nested() == Seq::<Nested>::empty().push(Nested::InMap(3)),
    ensures
        res is Ok,
        final(encoder)@ == old(encoder)@ + sig_head(body@, prot@, key_id@),
        final(encoder).spec_nested() == Seq::<Nested>::empty().push(Nested::InMap(2)).push(
            Nested::InArray(1),
        ),
{
    let ghost none = Seq::<Nested>::empty();
    let ghost map = none.push(Nested::InMap(2));
    let ghost sigs = map.push(Nested::InArray(1));
    proof {
        lemma_account_innermost(none, 3);
        lemma_account_innermost(map, 1);
        lemma_account_innermost(map, 2);
        lemma_account_innermost(map, 3);
        lemma_account_innermost(map, 4);
        lemma_account_innermost(sigs, 1);
        lemma_account_innermost(sigs, 2);
        assert(crate::cbor::settle(map) == map);
        assert(crate::cbor::settle(sigs) == sigs);
    }
    encoder.add_tag(98);
    encoder.add_array(4);
    encoder.add_bytestring(body.as_slice());
    encoder.add_map(0);
    encoder.add_null();
    encoder.add_array(1);
    encoder.add_array(3);
    encoder.add_bytestring(prot.as_slice());
    encoder.add_map(1);
    encoder.add_unsigned(4);
    encoder.add_bytestring(key_id.as_slice());
    assert(encoder@ =~= old(encoder)@ + sig_head(body@, prot@, key_id@));
    Ok(())
}

/// Writes the signature, or null where there is none.
fn push_signature(encoder: &mut Encoder, signature: &Option<Vec<u8>>) -> (res: Result<
    (),
    SuitError,
>)
    requires
        old(encoder).spec_nested() == Seq::<Nested>::empty().push(Nested::InMap(2)).push(
            Nested::InArray(1),
        ),
    ensures
        res is Ok,
        final(encoder)@ == old(encoder)@ + match signature {
            Some(sig) => bstr(sig@),
            None => null(),
        },
        final(encoder).spec_nested() == Seq::<Nested>::empty().push(Nested::InMap(2)),
{
    proof {
        let map = Seq::<Nested>::empty().push(Nested::InMap(2));
        lemma_account_innermost(map, 1);
        assert(crate::cbor::settle(map) == map);
    }
    match signature {
        None => encoder.add_null(),
        Some(sig) => encoder.add_bytestring(sig.as_slice()),
    }
    Ok(())
}

/// What is made of what the signing primitive handed back, when a signature
/// of `want` bytes is wanted: a signature of that length is the signature,
/// anything else is a failure to sign.
pub fn accept_signature(outcome: Option<Vec<u8>>, want: usize) -> (res: Result<Vec<u8>, SuitError>)
    ensures
        match outcome {
            Some(sig) => if sig@.len() == want {
                res == Ok::<Vec<u8>, SuitError>(sig)
            } else {
                res == Err::<Vec<u8>, SuitError>(SuitError::Signing)
            },
            None => res == Err::<Vec<u8>, SuitError>(SuitError::Signing),
        },
{
    match outcome {
        Some(signature) => if signature.len() == want {
            Ok(signature)
        } else {
            Err(SuitError::Signing)
        },
        None => Err(SuitError::Signing),
    }
}

impl RSA2048Signer {
    /// The key, as the contents of its PEM block.
    pub closed spec fn spec_key(&self) -> Seq<u8> {
        self.key@
    }

    /// Reads an RSA private key from a PEM block.  The block has to have
    /// the tag `RSA PRIVATE KEY`, and ring has to accept the key.
    pub fn from_bytes(key_bytes: &Vec<u8>) -> (res: Result<RSA2048Signer, SuitError>)
        ensures
            match pem_contents(key_bytes@, tag_rsa_private_key()) {
                Some(der) => if rsa_modulus_len(der) is Some {
                    res matches Ok(signer) && signer.spec_key() == der
                } else {
                    res matches Err(e) && e == SuitError::BadKey
                },
                None => res matches Err(e) && e == SuitError::BadKey,
            },
    {
        let tag: Vec<u8> = vec![
            0x52u8,
            0x53u8,
            0x41u8,
            0x20u8,
            0x50u8,
            0x52u8,
            0x49u8,
            0x56u8,
            0x41u8,
            0x54u8,
            0x45u8,
            0x20u8,
            0x4bu8,
            0x45u8,
            0x59u8,
        ];
        assert(tag@ =~= tag_rsa_private_key());
        let key: Vec<u8> = match read_pem(key_bytes, &tag) {
            Some(key) => key,
            None => {
                return Err(SuitError::BadKey);
            },
        };
        match rsa_key_len(key.as_slice()) {
            Some(_) => Ok(RSA2048Signer { key }),
            None => Err(SuitError::BadKey),
        }
    }
}

impl Signer for RSA2048Signer {
    open spec fn code(&self) -> isize {
        -37isize
    }

    fn sig_type(&self) -> (res: isize) {
        -37
    }

    fn gen_signature(&mut self, data: &Vec<u8>) -> (res: Result<Vec<u8>, SuitError>)
        ensures
            res matches Ok(sig) ==> sig@.len() == 256,
            final(self).spec_key() == old(self).spec_key(),
    {
        accept_signature(rsa_pss_sha256_sign(self.key.as_slice(), data.as_slice()), 256)
    }
}

impl<S: Signer> SuitGenerator<S> {
    /// The payload, once it is added.
    pub closed spec fn spec_payload(&self) -> Option<Seq<u8>> {
        match self.payload {
            Some(p) => Some(p@),
            None => None,
        }
    }

    /// The key id, once it is set.
    pub closed spec fn spec_key_id(&self) -> Option<Seq<u8>> {
        match self.key_id {
            Some(k) => Some(k@),
            None => None,
        }
    }

    /// The sequence number.
    pub closed spec fn spec_seq(&self) -> u32 {
        self.seq
    }

    /// The signer, once it is set.
    pub closed spec fn spec_signer(&self) -> Option<S> {
        self.signer
    }

    /// Create a new generator: without payload, signer and key id, and with
    /// the sequence number 0.
    pub fn new() -> (res: SuitGenerator<S>)
        ensures
            res.spec_payload() is None,
            res.spec_key_id() is None,
            res.spec_signer() is None,
            res.spec_seq() == 0,
    {
        SuitGenerator { payload: None, signer: None, key_id: None, seq: 0 }
    }

    /// Whether a payload was added.
    pub fn has_payload(&self) -> (res: bool)
        ensures
            res == (self.spec_payload() is Some),
    {
        self.payload.is_some()
    }

    /// Add a primary payload.  There can be one payload only.
    pub fn add_payload(&mut self, data: &Vec<u8>) -> (res: Result<(), SuitError>)
        requires
            old(self).spec_payload() is None,
        ensures
            res is Ok,
            final(self).spec_payload() == Some(data@),
            final(self).spec_key_id() == old(self).spec_key_id(),
            final(self).spec_seq() == old(self).spec_seq(),
            final(self).spec_signer() == old(self).spec_signer(),
    {
        self.payload = Some(copy_range(data, 0, data.len()));
        assert(self.payload->0@ =~= data@);
        Ok(())
    }

    /// Set the sequence number for this manifest.
    pub fn set_sequence(&mut self, seq: u32) -> (res: Result<(), SuitError>)
        ensures
            res is Ok,
            final(self).spec_seq() == seq,
            final(self).spec_payload() == old(self).spec_payload(),
            final(self).spec_key_id() == old(self).spec_key_id(),
            final(self).spec_signer() == old(self).spec_signer(),
    {
        self.seq = seq;
        Ok(())
    }

    /// Set the key ID for this key.
    pub fn set_key_id(&mut self, key_id: Vec<u8>) -> (res: Result<(), SuitError>)
        ensures
            res is Ok,
            final(self).spec_key_id() == Some(key_id@),
            final(self).spec_payload() == old(self).spec_payload(),
            final(self).spec_seq() == old(self).spec_seq(),
            final(self).spec_signer() == old(self).spec_signer(),
    {
        self.key_id = Some(key_id);
        Ok(())
    }

    /// Set the Signer that will be used to sign messages.
    pub fn set_signer(&mut self, signer: S) -> (res: Result<(), SuitError>)
        ensures
            res is Ok,
            final(self).spec_signer() == Some(signer),
            final(self).spec_payload() == old(self).spec_payload(),
            final(self).spec_seq() == old(self).spec_seq(),
            final(self).spec_key_id() == old(self).spec_key_id(),
    {
        self.signer = Some(signer);
        Ok(())
    }

    /// Generate the manifest part of the data, for the payload that was
    /// added.
    pub fn gen_manifest(&self) -> (res: Result<Vec<u8>, SuitError>)
        requires
            self.spec_payload() is Some,
        ensures
            res matches Ok(v) && v@ == manifest_bytes(self.spec_seq(), self.spec_payload()->0),
    {
        let payload: &Vec<u8> = match &self.payload {
            Some(payload) => payload,
            None => unreached(),
        };
        let ghost none = Seq::<Nested>::empty();
        let ghost inner = none.push(Nested::InMap(4));
        let mut encoder = Encoder::new();
        proof {
            assert(seq![Nested::Single] =~= none.push(Nested::Single));
            lemma_account_innermost(none, 1);
            lemma_account_innermost(none, 2);
            lemma_account_innermost(none, 3);
            lemma_account_innermost(none, 4);
            lemma_account_innermost(none, 5);
            lemma_account_innermost(none, 6);
            lemma_account_innermost(inner, 1);
            assert(crate::cbor::settle(inner) == inner);
            assert(inner == none.push(Nested::InMap(4)));
        }
        encoder.add_map(3);
        // 1:1  manifest version.
        encoder.add_unsigned(1);
        encoder.add_unsigned(1);
        // 2:seq  sequence number
        encoder.add_unsigned(2);
        encoder.add_unsigned(self.seq as usize);
        // 3:Payload.
        encoder.add_unsigned(3);
        encoder.add_array(1);
        encoder.add_map(3);
        // Component designator.
        encoder.add_unsigned(1);
        encoder.add_array(1);
        let zero: Vec<u8> = vec![0x30u8];
        assert(zero@ =~= seq![0x30u8]);
        encoder.add_bytestring(zero.as_slice());
        // 2:size
        encoder.add_unsigned(2);
        encoder.add_unsigned(payload.len());
        // 3:digest
        encoder.add_unsigned(3);
        gen_digest(&mut encoder, payload)?;
        encoder.assert_complete();
        assert(encoder@ =~= manifest_bytes(self.seq, payload@));
        Ok(encoder.into_inner())
    }

    /// The code of the signature that the envelope names: that of the
    /// signer, and 0 without one.
    pub open spec fn signature_code(&self) -> isize {
        match self.spec_signer() {
            Some(signer) => signer.code(),
            None => 0,
        }
    }

    /// The signature part of the envelope, for the given manifest.  It takes
    /// a key id; with a signer, it is left to the signer whether there is a
    /// signature.
    fn sign_manifest(&mut self, manifest: &Vec<u8>, encoder: &mut Encoder) -> (res: Result<
        (),
        SuitError,
    >)
        requires
            old(encoder).spec_nested() == Seq::<Nested>::empty().push(Nested::InMap(3)),
        ensures
            final(self).spec_payload() == old(self).spec_payload(),
            final(self).spec_key_id() == old(self).spec_key_id(),
            final(self).spec_seq() == old(self).spec_seq(),
            old(self).spec_key_id() is None ==> res == Err::<(), SuitError>(SuitError::NoKeyId),
            old(self).spec_key_id() is Some && old(self).spec_signer() is None ==> res is Ok
                && final(encoder)@ == old(encoder)@ + signed_part(
                0,
                old(self).spec_key_id()->0,
                None,
            ),
            res matches Err(e) ==> (e == SuitError::NoKeyId && old(self).spec_key_id() is None) || (e
                == SuitError::Signing && old(self).spec_key_id() is Some && old(self).spec_signer() is Some),
            res is Ok ==> final(encoder).spec_nested() == Seq::<Nested>::empty().push(
                Nested::InMap(2),
            ) && old(self).spec_key_id() is Some && exists|signature: Option<Seq<u8>>|
                (signature is Some) == (old(self).spec_signer() is Some) && final(encoder)@ == old(encoder)@ + #[trigger] signed_part(
                    old(self).signature_code(),
                    old(self).spec_key_id()->0,
                    signature,
                ),
    {
        let body: Vec<u8> = gen_body_prot()?;
        let sig_type: isize = match &self.signer {
            Some(signer) => signer.sig_type(),
            None => 0,
        };
        assert(sig_type == old(self).signature_code());
        let prot: Vec<u8> = gen_sig_prot(sig_type)?;
        // Build the block to actually sign.
        let block: Vec<u8> = gen_sig_block(&body, &prot, manifest)?;
        let key_id: &Vec<u8> = match &self.key_id {
            Some(key_id) => key_id,
            None => {
                return Err(SuitError::NoKeyId);
            },
        };
        push_sig_head(encoder, &body, &prot, key_id)?;
        let signature: Option<Vec<u8>> = match &mut self.signer {
            None => None,
            Some(signer) => Some(signer.gen_signature(&block)?),
        };
        push_signature(encoder, &signature)?;
        let ghost found = match signature {
            Some(sig) => Some(sig@),
            None => None,
        };
        assert(encoder@ =~= old(encoder)@ + signed_part(
            old(self).signature_code(),
            old(self).spec_key_id()->0,
            found,
        ));
        assert((found is Some) == (old(self).spec_signer() is Some));
        Ok(())
    }

    /// Take the data we have, and generate a manifest: the envelope with the
    /// signature part and the manifest proper.  It takes a payload and a key
    /// id; with a signer, it is left to the signer whether there is a
    /// signature.
    pub fn generate(self) -> (res: Result<Vec<u8>, SuitError>)
        requires
            self.spec_payload() is Some,
        ensures
            self.spec_payload() is Some && self.spec_key_id() is None ==> res == Err::<
                Vec<u8>,
                SuitError,
            >(SuitError::NoKeyId),
            self.spec_payload() is Some && self.spec_key_id() is Some && self.spec_signer() is None
                ==> (res matches Ok(v) && v@ == envelope(
                self.spec_seq(),
                self.spec_payload()->0,
                0,
                self.spec_key_id()->0,
                None,
            )),
            res matches Err(e) ==> (e == SuitError::NoKeyId && self.spec_key_id() is None) || (e
                == SuitError::Signing && self.spec_key_id() is Some && self.spec_signer() is Some),
            res matches Ok(v) ==> self.spec_key_id() is Some && exists|signature: Option<Seq<u8>>|
                (signature is Some) == (self.spec_signer() is Some) && v@ == #[trigger] envelope(
                    self.spec_seq(),
                    self.spec_payload()->0,
                    self.signature_code(),
                    self.spec_key_id()->0,
                    signature,
                ),
    {
        let mut this = self;
        let manifest: Vec<u8> = this.gen_manifest()?;
        let ghost none = Seq::<Nested>::empty();
        let mut encoder = Encoder::new();
        proof {
            assert(seq![Nested::Single] =~= none.push(Nested::Single));
            lemma_account_innermost(none, 1);
            lemma_account_innermost(none, 2);
            lemma_account_innermost(none, 4);
        }
        encoder.add_map(2);
        encoder.add_unsigned(1);
        let ghost before = encoder@;
        this.sign_manifest(&manifest, &mut encoder)?;
        let ghost sig_type = self.signature_code();
        let ghost signature = choose|signature: Option<Seq<u8>>|
            (signature is Some) == (self.spec_signer() is Some) && encoder@ == before
                + #[trigger] signed_part(sig_type, self.spec_key_id()->0, signature);
        encoder.add_unsigned(2);
        encoder.add_bytestring(manifest.as_slice());
        encoder.assert_complete();
        assert(encoder@ =~= envelope(
            self.spec_seq(),
            self.spec_payload()->0,
            sig_type,
            self.spec_key_id()->0,
            signature,
        ));
        proof {
            if self.spec_signer() is None {
                assert(encoder@ =~= envelope(
                    self.spec_seq(),
                    self.spec_payload()->0,
                    0,
                    self.spec_key_id()->0,
                    None,
                ));
            }
        }
        Ok(encoder.into_inner())
    }
}

/// The magic number of an image whose manifest is in the SUIT format.
pub const SUIT_MAGIC: u32 = 0x96f3b83e;

/// Manifest generation for the suit manifest format: it gathers the payload,
/// and builds a manifest that is signed with the RSA key it is given.
pub struct SuitManifestGenerator {
    seq: u32,
    payload: Vec<u8>,
}

impl SuitManifestGenerator {
    /// The payload gathered so far.
    pub closed spec fn spec_payload(&self) -> Seq<u8> {
        self.payload@
    }

    /// The sequence number of the manifest.
    pub closed spec fn spec_seq(&self) -> u32 {
        self.seq
    }

    /// A generator without payload, with the sequence number 0.
    pub fn new() -> (res: SuitManifestGenerator)
        ensures
            res.spec_payload() == Seq::<u8>::empty(),
            res.spec_seq() == 0,
    {
        SuitManifestGenerator { seq: 0, payload: Vec::new() }
    }

    /// Set the sequence number of the manifest.
    pub fn set_sequence(&mut self, seq: u32)
        ensures
            final(self).spec_seq() == seq,
            final(self).spec_payload() == old(self).spec_payload(),
    {
        self.seq = seq;
    }

    /// Retrieve the header magic value for this manifest type.
    pub fn get_magic(&self) -> (res: u32)
        ensures
            res == SUIT_MAGIC,
    {
        SUIT_MAGIC
    }

    /// Retrieve the flags value for this particular manifest type.
    pub fn get_flags(&self) -> (res: u32)
        ensures
            res == 0,
    {
        0
    }

    /// Add a sequence of bytes to the payload that the manifest is
    /// protecting.
    pub fn add_bytes(&mut self, bytes: &Vec<u8>)
        ensures
            final(self).spec_payload() == old(self).spec_payload() + bytes@,
            final(self).spec_seq() == old(self).spec_seq(),
    {
        push_all(&mut self.payload, bytes);
    }

    /// Whether the key in the PEM block can be read: the block has the tag
    /// `RSA PRIVATE KEY`, and ring accepts the key in it.
    pub open spec fn key_readable(key_pem: Seq<u8>) -> bool {
        match pem_contents(key_pem, tag_rsa_private_key()) {
            Some(der) => rsa_modulus_len(der) is Some,
            None => false,
        }
    }

    /// The manifest behind the header that describes its size: two bytes of
    /// magic and the size of the whole in two bytes.
    pub open spec fn framed(data: Seq<u8>) -> Seq<u8> {
        crate::bytes::le16(0x6917) + crate::bytes::le16((data.len() + 4) as u16) + data
    }

    /// Construct the manifest for the payload, signed with the key in the
    /// PEM block `key_pem` under the key id `key_id`, and put the header in
    /// front that describes its size.  A key that cannot be read is refused,
    /// and so is a manifest that is too long for its header; whether a key
    /// that can be read signs is left to the signer.
    pub fn make_tlv(self, key_pem: &Vec<u8>, key_id: Vec<u8>) -> (res: Result<Vec<u8>, SuitError>)
        ensures
            (res == Err::<Vec<u8>, SuitError>(SuitError::BadKey)) == !Self::key_readable(key_pem@),
            res matches Err(e) ==> e == SuitError::BadKey || e == SuitError::Signing || e
                == SuitError::TooLong,
            res matches Ok(v) ==> exists|signature: Seq<u8>|
                {
                    let data = #[trigger] envelope(
                        self.spec_seq(),
                        self.spec_payload(),
                        -37isize,
                        key_id@,
                        Some(signature),
                    );
                    v@ == Self::framed(data) && data.len() + 4 <= u16::MAX
                },
    {
        let signer: RSA2048Signer = RSA2048Signer::from_bytes(key_pem)?;
        let mut gen: SuitGenerator<RSA2048Signer> = SuitGenerator::new();
        let _ = gen.set_sequence(self.seq);
        let _ = gen.set_signer(signer);
        let ghost id = key_id@;
        let _ = gen.set_key_id(key_id);
        let _ = gen.add_payload(&self.payload);
        let ghost made = gen;
        let data: Vec<u8> = gen.generate()?;
        if data.len() > 0xffff - 4 {
            return Err(SuitError::TooLong);
        }
        // Create the header to describe the size.
        let mut result: Vec<u8> = Vec::new();
        push_u16(&mut result, 0x6917);
        push_u16(&mut result, (data.len() + 4) as u16);
        push_all(&mut result, &data);
        proof {
            let signature = choose|signature: Option<Seq<u8>>|
                (signature is Some) == (made.spec_signer() is Some) && data@ == #[trigger] envelope(
                    made.spec_seq(),
                    made.spec_payload()->0,
                    made.signature_code(),
                    made.spec_key_id()->0,
                    signature,
                );
            assert(data@ == envelope(
                self.spec_seq(),
                self.spec_payload(),
                -37isize,
                id,
                Some(signature->0),
            ));
        }
        Ok(result)
    }
}

} // verus!
