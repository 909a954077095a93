//! Firmware images: how one is put together, how it is written to its slot,
//! and how it is found there again.
//!
//! An image is a header, a payload and a manifest.  The payload is
//! pseudorandom data.  Where the bootloader decrypts images, the image is
//! kept twice: as it is, and with its payload encrypted.

use crate::bytes::{copy_range, le32, pad_to, padded, push_all, push_u32, same_bytes};
use crate::area::{AreaDesc, FlashArea, FlashId};
use crate::caps::{CapSet, Caps};
use crate::crypto::{aes128_ctr, aes128_ctr_stream, aes256_ctr, aes256_ctr_stream};
use crate::depends::Depender;
use crate::entropy::pseudo_random_bytes;
use crate::flash::{Flash, FlashError, blank, fill_spec, refusal_on, splice_spec};
use crate::header::{ImageHeader, ImageVersion, HDR_SIZE};
use crate::multiflash::MultiFlash;
use crate::slots::{BootConfig, RamData, SlotInfo, SlotPlace, RAM_LOAD_ADDR, home_of, key_of};
use crate::tlv::{
    Dependency,
    KeyStore,
    TlvError,
    TlvGen,
    TlvKinds,
    TlvParts,
    enc_flag,
    needs_keys,
    supported,
    zero_nonce,
};
use crate::utils::{align_up, align_up_spec, is_pow2};
use vstd::prelude::*;

verus! {

/// How an image is made to differ from a good one.
#[derive(Copy, Clone, Debug, PartialEq, Eq, Structural)]
pub enum ImageManipulation {
    /// The image is a good one.
    Unmodified,
    BadSignature,
    WrongOffset,
    IgnoreRamLoadFlag,
    /// True to use same address, false to overlap by 1 byte.
    OverlapImages(bool),
    CorruptHigherVersionImage,
}

/// How large the payload of an image is to be.
#[derive(Copy, Clone, Debug, PartialEq, Eq, Structural)]
pub enum ImageSize {
    /// Make the image the specified given size.
    Given(usize),
    /// Make the image as large as it can be for the partition/device.
    Largest,
    /// Make the image quite larger than it can be for the partition/device.
    Oversized,
}

/// Why an image could not be installed.
#[derive(Copy, Clone, Debug, PartialEq, Eq, Structural)]
pub enum InstallError {
    /// The device of the slot is not on the board.
    NoDevice,
    /// The slot has no home in RAM.
    NoRamPlace,
    /// The size of the trailer is not known for this bootloader.
    NoTrailerSize,
    /// The slot is too small for an image of the size asked for.
    TooSmall,
    /// The image is too large for its size to be recorded.
    TooLarge,
    /// The write alignment of the device is not one that sizes can be
    /// rounded to.
    Alignment,
    /// The manifest could not be built.
    Manifest(TlvError),
    /// The payload could not be encrypted.
    Cipher,
    /// The device refused or disturbed an operation.
    Flash(FlashError),
}

/// The key that images are encrypted with, and what wrapping it gave.  A
/// wrap that the manifest has no entry for may be empty.
pub struct SealedKey {
    pub key: Vec<u8>,
    pub rsa_wrap: Vec<u8>,
    pub kw_wrap: Vec<u8>,
}

/// The two forms of an image.  For unencrypted images, there is just the
/// image as it is.  For encrypted images, both the encrypted and the plain
/// form are kept.
pub struct ImageData {
    size: usize,
    plain: Vec<u8>,
    cipher: Option<Vec<u8>>,
}

/// An image as it was put together, before it is written anywhere.
pub struct BuiltImage {
    pub header: ImageHeader,
    pub payload: Vec<u8>,
    pub enc_payload: Option<Vec<u8>>,
    pub tlv: Vec<u8>,
    /// The header, the payload and the manifest, padded to the write
    /// alignment.
    pub plain: Vec<u8>,
    /// The same with the encrypted payload.
    pub cipher: Option<Vec<u8>>,
}

impl ImageData {
    /// The size of the image, without padding.
    pub closed spec fn spec_size(&self) -> usize {
        self.size
    }

    /// The image as it is, padded to the write alignment.
    pub closed spec fn spec_plain(&self) -> Seq<u8> {
        self.plain@
    }

    /// The image with its payload encrypted, if it is kept.
    pub closed spec fn spec_cipher(&self) -> Option<Seq<u8>> {
        match self.cipher {
            Some(c) => Some(c@),
            None => None,
        }
    }

    /// The contents that the slot with the given index is expected to hold:
    /// the plain image, but for the secondary slot of a bootloader that
    /// decrypts images, which holds the encrypted one.  `None` where that
    /// one is not kept, and for a slot that is neither of the two.
    pub open spec fn expected(&self, slot: usize, caps: CapSet) -> Option<Seq<u8>> {
        if !caps.encrypts() || slot == 0 {
            Some(self.spec_plain())
        } else if slot == 1 {
            self.spec_cipher()
        } else {
            None
        }
    }

    /// Puts the two forms of an image together.
    pub fn new(size: usize, plain: Vec<u8>, cipher: Option<Vec<u8>>) -> (res: ImageData)
        ensures
            res.spec_size() == size,
            res.spec_plain() == plain@,
            res.spec_cipher() == match cipher {
                Some(c) => Some(c@),
                None => None,
            },
    {
        ImageData { size, plain, cipher }
    }

    /// Find the image contents for the given slot.  This assumes that slot 0
    /// is unencrypted, and slot 1 is encrypted.
    pub fn find(&self, slot: usize, caps: &CapSet) -> (res: Option<&Vec<u8>>)
        ensures
            match res {
                Some(v) => self.expected(slot, *caps) == Some(v@),
                None => self.expected(slot, *caps) is None,
            },
    {
        let encrypted: bool = Caps::EncRsa.present(caps) || Caps::EncKw.present(caps)
            || Caps::EncEc256.present(caps) || Caps::EncX25519.present(caps);
        if !encrypted || slot == 0 {
            Some(&self.plain)
        } else if slot == 1 {
            match &self.cipher {
                Some(c) => Some(c),
                None => None,
            }
        } else {
            None
        }
    }

    /// The size of the image, without padding.
    pub fn size(&self) -> (res: usize)
        ensures
            res == self.spec_size(),
    {
        self.size
    }

    /// The plain form of the image.
    pub fn plain(&self) -> (res: &Vec<u8>)
        ensures
            res@ == self.spec_plain(),
    {
        &self.plain
    }
}

/// Install no image.  This is used when no upgrade happens.
pub fn install_no_image() -> (res: ImageData)
    ensures
        res.spec_size() == 0,
        res.spec_plain() == Seq::<u8>::empty(),
        res.spec_cipher() is None,
{
    ImageData { size: 0, plain: Vec::new(), cipher: None }
}

/// Whether the slot on the board holds the contents expected of an image:
/// the device of the slot is on the board, the contents lie on the device
/// from the base of the slot on, and every byte is as expected.
pub open spec fn image_present(
    flash: MultiFlash,
    slot: SlotInfo,
    images: ImageData,
    caps: CapSet,
) -> bool {
    match (images.expected(slot.index, caps), flash.place(slot.dev_id)) {
        (Some(want), Some(at)) => {
            let dev = flash.spec_devs()[at];
            slot.base_off + want.len() <= dev@.len() && dev@.subrange(
                slot.base_off as int,
                slot.base_off + want.len(),
            ) == want
        },
        _ => false,
    }
}

/// Verify that given image is present in the flash at the given offset.
pub fn verify_image(flash: &MultiFlash, slot: &SlotInfo, images: &ImageData, caps: &CapSet) -> (res:
    bool)
    requires
        flash.wf(),
    ensures
        res == image_present(*flash, *slot, *images, *caps),
{
    let image: &Vec<u8> = match images.find(slot.index, caps) {
        Some(image) => image,
        None => {
            return false;
        },
    };
    let at: usize = match flash.find(slot.dev_id) {
        Some(at) => at,
        None => {
            return false;
        },
    };
    let mut copy: Vec<u8> = vec![0u8; image.len()];
    match flash.get(at).read(slot.base_off, &mut copy) {
        Ok(()) => same_bytes(image, &copy),
        Err(_) => false,
    }
}

/// The size best tested with: the given size for a bootloader that
/// overwrites or that swaps by moving, else the largest possible one.
pub open spec fn spec_maximal(size: usize, caps: CapSet) -> ImageSize {
    if caps.has(Caps::OverwriteUpgrade) || caps.has(Caps::SwapUsingMove) {
        ImageSize::Given(size)
    } else {
        ImageSize::Largest
    }
}

/// Determine whether it makes sense to test this configuration with a
/// maximally-sized image.  Returns the best size to test, possibly just the
/// given size.
pub fn maximal(size: usize, caps: &CapSet) -> (res: ImageSize)
    ensures
        res == spec_maximal(size, *caps),
{
    if Caps::OverwriteUpgrade.present(caps) || Caps::SwapUsingMove.present(caps) {
        ImageSize::Given(size)
    } else {
        ImageSize::Largest
    }
}

/// The write alignments that boards are tested with.
pub fn test_alignments(max_align_32: bool) -> (res: Vec<usize>)
    ensures
        res@ == if max_align_32 {
            seq![32usize]
        } else {
            seq![1usize, 2usize, 4usize, 8usize]
        },
{
    let res: Vec<usize> = if max_align_32 {
        vec![32usize]
    } else {
        vec![1usize, 2usize, 4usize, 8usize]
    };
    assert(res@ =~= if max_align_32 {
        seq![32usize]
    } else {
        seq![1usize, 2usize, 4usize, 8usize]
    });
    res
}

/// The kinds of entries in the manifest of an image for a bootloader with
/// the given capabilities: a hash, the signature that the bootloader checks
/// and the wrapped key that it unwraps.
pub open spec fn manifest_kinds(caps: CapSet) -> Seq<TlvKinds> {
    if caps.has(Caps::EncKw) {
        if caps.has(Caps::RSA2048) {
            seq![TlvKinds::SHA256, TlvKinds::RSA2048, TlvKinds::ENCKW]
        } else if caps.has(Caps::EcdsaP256) {
            seq![TlvKinds::SHA256, TlvKinds::ECDSASIG, TlvKinds::ENCKW]
        } else {
            seq![TlvKinds::SHA256, TlvKinds::ENCKW]
        }
    } else if caps.has(Caps::EncRsa) {
        if caps.has(Caps::RSA2048) {
            seq![TlvKinds::SHA256, TlvKinds::RSA2048, TlvKinds::ENCRSA2048]
        } else {
            seq![TlvKinds::SHA256, TlvKinds::ENCRSA2048]
        }
    } else if caps.has(Caps::EncEc256) {
        if caps.has(Caps::EcdsaP256) {
            seq![TlvKinds::SHA256, TlvKinds::ECDSASIG, TlvKinds::ENCEC256]
        } else {
            seq![TlvKinds::SHA256, TlvKinds::ENCEC256]
        }
    } else if caps.has(Caps::EncX25519) {
        if caps.has(Caps::Ed25519) {
            seq![TlvKinds::SHA256, TlvKinds::ED25519, TlvKinds::ENCX25519]
        } else {
            seq![TlvKinds::SHA256, TlvKinds::ENCX25519]
        }
    } else if caps.has(Caps::RSA2048) {
        seq![TlvKinds::SHA256, TlvKinds::RSA2048]
    } else if caps.has(Caps::RSA3072) {
        seq![TlvKinds::SHA256, TlvKinds::RSA3072]
    } else if caps.has(Caps::EcdsaP384) {
        if caps.has(Caps::EcdsaP256) {
            seq![TlvKinds::SHA256, TlvKinds::ECDSASIG]
        } else {
            seq![TlvKinds::SHA384, TlvKinds::ECDSASIG]
        }
    } else if caps.has(Caps::EcdsaP256) {
        seq![TlvKinds::SHA256, TlvKinds::ECDSASIG]
    } else if caps.has(Caps::Ed25519) {
        seq![TlvKinds::SHA256, TlvKinds::ED25519]
    } else if caps.has(Caps::HwRollbackProtection) {
        seq![TlvKinds::SHA256, TlvKinds::SECCNT]
    } else {
        seq![TlvKinds::SHA256]
    }
}

/// The flags that the manifest of an image starts from: for a bootloader
/// that decrypts images, the flag of the cipher.
pub open spec fn manifest_flags(caps: CapSet) -> u32 {
    if caps.encrypts() {
        enc_flag(
            if caps.has(Caps::Aes256) {
                256
            } else {
                128
            },
        )
    } else {
        0
    }
}

/// Construct a manifest generator based on how the bootloader is
/// configured.  The generator will generate the appropriate entries based on
/// this configuration.
pub fn make_tlv(caps: &CapSet) -> (res: TlvGen)
    ensures
        res.wf(),
        res.fresh(manifest_flags(*caps), manifest_kinds(*caps)),
{
    let aes_key_size: u32 = if Caps::Aes256.present(caps) {
        256
    } else {
        128
    };
    if Caps::EncKw.present(caps) {
        if Caps::RSA2048.present(caps) {
            TlvGen::new_rsa_kw(aes_key_size)
        } else if Caps::EcdsaP256.present(caps) {
            TlvGen::new_ecdsa_kw(aes_key_size)
        } else {
            TlvGen::new_enc_kw(aes_key_size)
        }
    } else if Caps::EncRsa.present(caps) {
        if Caps::RSA2048.present(caps) {
            TlvGen::new_sig_enc_rsa(aes_key_size)
        } else {
            TlvGen::new_enc_rsa(aes_key_size)
        }
    } else if Caps::EncEc256.present(caps) {
        if Caps::EcdsaP256.present(caps) {
            TlvGen::new_ecdsa_ecies_p256(aes_key_size)
        } else {
            TlvGen::new_ecies_p256(aes_key_size)
        }
    } else if Caps::EncX25519.present(caps) {
        if Caps::Ed25519.present(caps) {
            TlvGen::new_ed25519_ecies_x25519(aes_key_size)
        } else {
            TlvGen::new_ecies_x25519(aes_key_size)
        }
    } else {
        // The non-encrypted configuration.
        if Caps::RSA2048.present(caps) {
            TlvGen::new_rsa_pss()
        } else if Caps::RSA3072.present(caps) {
            TlvGen::new_rsa3072_pss()
        } else if Caps::EcdsaP384.present(caps) {
            if Caps::EcdsaP256.present(caps) {
                TlvGen::new_ecdsa()
            } else {
                TlvGen::new_ecdsa_p384()
            }
        } else if Caps::EcdsaP256.present(caps) {
            TlvGen::new_ecdsa()
        } else if Caps::Ed25519.present(caps) {
            TlvGen::new_ed25519()
        } else if Caps::HwRollbackProtection.present(caps) {
            TlvGen::new_sec_cnt()
        } else {
            TlvGen::new_hash_only()
        }
    }
}

/// The room that the largest image has to leave at the end of its slot.  A
/// bootloader that overwrites needs 16 bytes and four units of the write
/// alignment; one that swaps by moving needs its trailer rounded up to whole
/// sectors of the size of the first; one that swaps through a scratch area
/// needs its trailer.  `None` for a bootloader that does none of these, or
/// whose first sector cannot be rounded to.
pub open spec fn largest_trailer(
    cfg: BootConfig,
    align: usize,
    first_sector: Option<usize>,
) -> Option<int> {
    if cfg.caps.has(Caps::OverwriteUpgrade) {
        Some(16 + 4 * align)
    } else if cfg.caps.has(Caps::SwapUsingMove) {
        match first_sector {
            Some(size) => if size <= u32::MAX && is_pow2(size as u32) && cfg.trailer_sz + size - 1
                <= u32::MAX {
                Some(align_up_spec(cfg.trailer_sz as int, size as int))
            } else {
                None
            },
            None => None,
        }
    } else if cfg.caps.has(Caps::SwapUsingScratch) {
        Some(cfg.trailer_sz as int)
    } else {
        None
    }
}

/// The size of the first sector of a device, if it has one.
pub open spec fn first_sector_of(dev: Flash) -> Option<usize> {
    if dev.spec_sectors().len() > 0 {
        Some(dev.spec_sectors()[0])
    } else {
        None
    }
}

/// Using the trailer size and the sector size, work out the room that the
/// largest image possible has to leave at the end of its slot.
pub fn image_largest_trailer(dev: &Flash, cfg: &BootConfig) -> (res: Option<usize>)
    requires
        dev.wf(),
        cfg.wf(),
        dev.spec_align() <= 0x1000_0000,
    ensures
        match res {
            Some(v) => largest_trailer(*cfg, dev.spec_align(), first_sector_of(*dev)) == Some(
                v as int,
            ),
            None => largest_trailer(*cfg, dev.spec_align(), first_sector_of(*dev)) is None,
        },
{
    if Caps::OverwriteUpgrade.present(&cfg.caps) {
        Some(16 + 4 * dev.align())
    } else if Caps::SwapUsingMove.present(&cfg.caps) {
        let sectors = dev.sectors();
        if sectors.len() == 0 {
            return None;
        }
        let size: usize = sectors[0].size;
        if size == 0 || size > 0xffff_ffff {
            assert(!(size <= u32::MAX && is_pow2(size as u32)));
            return None;
        }
        let sector_size: u32 = size as u32;
        if sector_size & (sector_size - 1) != 0 {
            return None;
        }
        let fits: bool = match cfg.trailer_sz.checked_add(size - 1) {
            Some(last) => last <= 0xffff_ffff,
            None => false,
        };
        if !fits {
            return None;
        }
        Some(align_up(cfg.trailer_sz as u32, sector_size) as usize)
    } else if Caps::SwapUsingScratch.present(&cfg.caps) {
        Some(cfg.trailer_sz)
    } else {
        None
    }
}

/// The address that the header tells the bootloader to load the image to.
/// Only a bootloader that loads into RAM is told one: the home of the slot,
/// or an address chosen to be wrong.
pub open spec fn spec_load_addr(caps: CapSet, manipulation: ImageManipulation, place: SlotPlace)
    -> u32 {
    if caps.has(Caps::RamLoad) {
        match manipulation {
            ImageManipulation::WrongOffset => u32::MAX,
            ImageManipulation::OverlapImages(true) => RAM_LOAD_ADDR,
            ImageManipulation::OverlapImages(false) => if place.offset > 0 {
                (place.offset - 1) as u32
            } else {
                0
            },
            _ => place.offset,
        }
    } else {
        0
    }
}

/// The address that the header tells the bootloader to load the image to.
pub fn load_addr(caps: &CapSet, manipulation: ImageManipulation, place: &SlotPlace) -> (res: u32)
    ensures
        res == spec_load_addr(*caps, manipulation, *place),
{
    if Caps::RamLoad.present(caps) {
        match manipulation {
            ImageManipulation::WrongOffset => u32::MAX,
            ImageManipulation::OverlapImages(true) => RAM_LOAD_ADDR,
            ImageManipulation::OverlapImages(false) => if place.offset > 0 {
                place.offset - 1
            } else {
                0
            },
            _ => place.offset,
        }
    } else {
        0
    }
}

/// The length of the payload that is asked for.  The largest payload fills
/// the slot but for the header, the manifest and the room that has to stay
/// free at the end; an oversized one is four units of the write alignment
/// longer.
pub open spec fn wanted_len(
    size: ImageSize,
    slot_len: usize,
    trailer: Option<int>,
    tlv_len: nat,
    align: usize,
) -> Result<int, InstallError> {
    match size {
        ImageSize::Given(n) => Ok(n as int),
        _ => match trailer {
            None => Err(InstallError::NoTrailerSize),
            Some(t) => if slot_len < HDR_SIZE + t + tlv_len {
                Err(InstallError::TooSmall)
            } else if size == ImageSize::Largest {
                Ok(slot_len - HDR_SIZE - t - tlv_len)
            } else {
                Ok(slot_len - HDR_SIZE - t - tlv_len + align * 4)
            },
        },
    }
}

/// The length of the payload: the one that is asked for, if the header can
/// record it, in 32 bits, and the padded image has a length that can be
/// counted.
pub open spec fn spec_payload_len(
    size: ImageSize,
    slot_len: usize,
    trailer: Option<int>,
    tlv_len: nat,
    align: usize,
) -> Result<int, InstallError> {
    match wanted_len(size, slot_len, trailer, tlv_len, align) {
        Ok(len) => if len > 0xffff_ffff || len + HDR_SIZE + tlv_len + align > usize::MAX {
            Err(InstallError::TooLarge)
        } else {
            Ok(len)
        },
        Err(e) => Err(e),
    }
}

/// The flags of the header of an image.
pub open spec fn spec_header_flags(caps: CapSet, manipulation: ImageManipulation) -> u32 {
    if caps.has(Caps::RamLoad) && manipulation != ImageManipulation::IgnoreRamLoadFlag {
        manifest_flags(caps) | 0x20
    } else {
        manifest_flags(caps)
    }
}

/// Whether an image made with these flags is encrypted.
pub open spec fn is_encrypted(flags: u32) -> bool {
    flags & 0x0c != 0
}

/// The block that seeds the payload of an image of `len` bytes at
/// `offset`: two fixed words, the length and the offset, each in 32 bits
/// with the low byte first, and 16 bytes of zero.
pub open spec fn splat_seed(len: usize, offset: usize) -> Seq<u8> {
    le32(0x135782ea) + le32(0x92184728) + le32((len as int % 0x1_0000_0000) as u32) + le32(
        (offset as int % 0x1_0000_0000) as u32,
    ) + Seq::new(16, |i: int| 0u8)
}

/// The block that seeds the payload of an image.
pub fn seed_block(len: usize, offset: usize) -> (res: Vec<u8>)
    ensures
        res@ == splat_seed(len, offset),
        res@.len() == 32,
{
    let mut block: Vec<u8> = Vec::new();
    push_u32(&mut block, 0x135782ea);
    push_u32(&mut block, 0x92184728);
    push_u32(&mut block, (len as u64 % 0x1_0000_0000) as u32);
    push_u32(&mut block, (offset as u64 % 0x1_0000_0000) as u32);
    let zeros: Vec<u8> = vec![0u8; 16];
    push_all(&mut block, &zeros);
    assert(block@ =~= splat_seed(len, offset));
    block
}

/// Some pseudo-random gibberish to fill an image with: `len` bytes from the
/// generator that starts from `seed_block(len, seed)`.  Which bytes the
/// generator gives is not said.
pub fn splat(len: usize, seed: usize) -> (res: Vec<u8>)
    ensures
        res@.len() == len,
{
    let block: Vec<u8> = seed_block(len, seed);
    pseudo_random_bytes(block.as_slice(), len)
}

/// What a slot holds after an image was stored in it.  An image that is
/// kept in one form is written once.  One that is kept in two forms is
/// written in one form, read back, erased with its whole slot, and written
/// in the other; `plain_last` tells which form stays.
pub open spec fn stored(
    data: Seq<u8>,
    erased: u8,
    slot: SlotInfo,
    plain: Seq<u8>,
    cipher: Option<Seq<u8>>,
    plain_last: bool,
) -> Seq<u8> {
    let off = slot.base_off as int;
    match cipher {
        None => splice_spec(data, off, plain),
        Some(c) => {
            let first = if plain_last {
                c
            } else {
                plain
            };
            let last = if plain_last {
                plain
            } else {
                c
            };
            splice_spec(
                fill_spec(splice_spec(data, off, first), off, slot.len as int, erased),
                off,
                last,
            )
        },
    }
}

/// Whether the device accepts every step of storing an image.
pub open spec fn storable(
    dev: Flash,
    slot: SlotInfo,
    plain: Seq<u8>,
    cipher: Option<Seq<u8>>,
    plain_last: bool,
) -> bool {
    let off = slot.base_off as int;
    let align = dev.spec_align();
    let verify = dev.spec_verify_writes();
    let erased = dev.spec_erased_val();
    match cipher {
        None => refusal_on(dev@, align, verify, erased, off, plain) is None,
        Some(c) => {
            let first = if plain_last {
                c
            } else {
                plain
            };
            let last = if plain_last {
                plain
            } else {
                c
            };
            let written = splice_spec(dev@, off, first);
            &&& refusal_on(dev@, align, verify, erased, off, first) is None
            &&& dev.erase_allowed(slot.base_off, slot.len)
            &&& refusal_on(
                fill_spec(written, off, slot.len as int, erased),
                align,
                verify,
                erased,
                off,
                last,
            ) is None
        },
    }
}

/// Writes one form of an image to its slot and reads it back.
fn write_and_read(flash: &mut MultiFlash, at: usize, offset: usize, buf: &Vec<u8>) -> (res: Result<
    Vec<u8>,
    InstallError,
>)
    requires
        old(flash).wf(),
        at < old(flash).spec_devs().len(),
    ensures
        final(flash).wf(),
        final(flash).same_board(*old(flash)),
        forall|i: int|
            0 <= i < old(flash).spec_devs().len() && i != at ==> final(flash).spec_devs()[i] == old(flash).spec_devs()[i],
        final(flash).spec_devs()[at as int]@ == old(flash).spec_devs()[at as int].write_data(
            offset,
            buf@,
        ),
        res matches Ok(copy) ==> copy@ == buf@ && old(flash).spec_devs()[at as int].write_refusal(
            offset,
            buf@,
        ) is None,
        old(flash).spec_devs()[at as int].write_refusal(offset, buf@) matches Some(e) ==> res
            == Err::<Vec<u8>, InstallError>(InstallError::Flash(e)),
        old(flash).spec_devs()[at as int].write_refusal(offset, buf@) is None && old(flash).spec_devs()[at as int].spec_bad_regions().len() == 0 ==> res is Ok,
{
    match flash.try_write(at, offset, buf.as_slice()) {
        Ok(()) => {},
        Err(e) => {
            return Err(InstallError::Flash(e));
        },
    }
    let mut copy: Vec<u8> = vec![0u8; buf.len()];
    match flash.get(at).read(offset, &mut copy) {
        Ok(()) => {
            assert(copy@ =~= buf@);
            Ok(copy)
        },
        Err(e) => Err(InstallError::Flash(e)),
    }
}

/// Stores an image in its slot on the device at place `at`, and hands out
/// the forms of it that were read back.
///
/// Images are always plain in the primary slot, so there the encrypted form
/// is written first, read back to be kept for comparison, and erased, and
/// the plain form is written last.  In the secondary slot, and in both slots
/// for a bootloader that loads into RAM, the plain form is written first and
/// the encrypted form, if there is one, stays.
pub fn store_image(
    flash: &mut MultiFlash,
    at: usize,
    slot: &SlotInfo,
    size: usize,
    plain: &Vec<u8>,
    cipher: &Option<Vec<u8>>,
    plain_last: bool,
) -> (res: Result<ImageData, InstallError>)
    requires
        old(flash).wf(),
        at < old(flash).spec_devs().len(),
    ensures
        final(flash).wf(),
        final(flash).same_board(*old(flash)),
        forall|i: int|
            0 <= i < old(flash).spec_devs().len() && i != at ==> final(flash).spec_devs()[i] == old(flash).spec_devs()[i],
        res matches Ok(data) ==> {
            let dev = old(flash).spec_devs()[at as int];
            let kept = match cipher {
                Some(c) => Some(c@),
                None => None,
            };
            &&& data.spec_size() == size
            &&& data.spec_plain() == plain@
            &&& data.spec_cipher() == kept
            &&& storable(dev, *slot, plain@, kept, plain_last)
            &&& final(flash).spec_devs()[at as int]@ == stored(
                dev@,
                dev.spec_erased_val(),
                *slot,
                plain@,
                kept,
                plain_last,
            )
        },
        ({
            let dev = old(flash).spec_devs()[at as int];
            let kept = match cipher {
                Some(c) => Some(c@),
                None => None,
            };
            &&& !storable(dev, *slot, plain@, kept, plain_last) ==> res is Err
            &&& storable(dev, *slot, plain@, kept, plain_last) && dev.spec_bad_regions().len() == 0
                ==> res is Ok
            &&& cipher is None ==> (dev.write_refusal(slot.base_off, plain@) matches Some(e)
                ==> res == Err::<ImageData, InstallError>(InstallError::Flash(e)))
        }),
{
    let offset: usize = slot.base_off;
    match cipher {
        None => {
            let copy: Vec<u8> = write_and_read(flash, at, offset, plain)?;
            Ok(ImageData::new(size, copy, None))
        },
        Some(c) => {
            let first: &Vec<u8> = if plain_last {
                c
            } else {
                plain
            };
            let last: &Vec<u8> = if plain_last {
                plain
            } else {
                c
            };
            let first_copy: Vec<u8> = write_and_read(flash, at, offset, first)?;
            match flash.erase(at, offset, slot.len) {
                Ok(()) => {},
                Err(e) => {
                    return Err(InstallError::Flash(e));
                },
            }
            let last_copy: Vec<u8> = write_and_read(flash, at, offset, last)?;
            if plain_last {
                Ok(ImageData::new(size, last_copy, Some(first_copy)))
            } else {
                Ok(ImageData::new(size, first_copy, Some(last_copy)))
            }
        },
    }
}

/// The header of an image, as planned from what the image is made for.
pub open spec fn planned_header(
    slot: SlotInfo,
    len: int,
    place: SlotPlace,
    deps: Depender,
    manipulation: ImageManipulation,
    security_counter: Option<u32>,
    caps: CapSet,
) -> ImageHeader {
    ImageHeader {
        magic: crate::tlv::IMAGE_MAGIC,
        load_addr: spec_load_addr(caps, manipulation, place),
        hdr_size: HDR_SIZE as u16,
        protect_tlv_size: crate::tlv::protected_len(
            deps.spec_deps(slot.index).len(),
            caps.has(Caps::HwRollbackProtection) && security_counter is Some,
        ) as u16,
        img_size: len as u32,
        flags: spec_header_flags(caps, manipulation),
        ver: deps.spec_version(slot.index),
        _pad2: 0,
    }
}

/// The size of the manifest of an image.
pub open spec fn planned_tlv_len(
    slot: SlotInfo,
    deps: Depender,
    security_counter: Option<u32>,
    caps: CapSet,
) -> nat {
    crate::tlv::estimate(
        manifest_kinds(caps),
        crate::tlv::wants_aes256(manifest_flags(caps)),
        crate::tlv::protected_len(
            deps.spec_deps(slot.index).len(),
            caps.has(Caps::HwRollbackProtection) && security_counter is Some,
        ),
    )
}

/// The length of the payload of an image, as planned.
pub open spec fn planned_len(
    dev: Flash,
    slot: SlotInfo,
    size: ImageSize,
    deps: Depender,
    security_counter: Option<u32>,
    cfg: BootConfig,
) -> Result<int, InstallError> {
    spec_payload_len(
        size,
        slot.len,
        largest_trailer(cfg, dev.spec_align(), first_sector_of(dev)),
        planned_tlv_len(slot, deps, security_counter, cfg.caps),
        dev.spec_align(),
    )
}

/// Sets up the manifest generator for an image.
fn plan_manifest(
    slot: &SlotInfo,
    deps: &Depender,
    manipulation: ImageManipulation,
    security_counter: Option<u32>,
    caps: &CapSet,
) -> (res: TlvGen)
    requires
        deps.wf(),
        slot.index <= 1,
    ensures
        res.wf(),
        res.spec_kinds() == manifest_kinds(*caps),
        res.spec_flags() == manifest_flags(*caps),
        res.spec_caps() == *caps,
        res.spec_payload() == Seq::<u8>::empty(),
        res.spec_dependencies().len() == deps.spec_deps(slot.index).len(),
        forall|i: int|
            0 <= i < res.spec_dependencies().len() ==> #[trigger] res.spec_dependencies()[i] == (
            Dependency { id: deps.spec_other_id(), version: deps.spec_deps(slot.index)[i] }),
        res.spec_security_cnt() == security_counter,
        res.spec_ignore_ram_load() == (manipulation == ImageManipulation::IgnoreRamLoadFlag),
        !res.spec_corrupted(),
        res.spec_enc_key() == Seq::<u8>::empty(),
        res.spec_rsa_key_wrap() == Seq::<u8>::empty(),
        res.spec_kw_key_wrap() == Seq::<u8>::empty(),
{
    let mut tlv: TlvGen = make_tlv(caps);
    tlv.set_caps(*caps);
    if manipulation == ImageManipulation::IgnoreRamLoadFlag {
        tlv.set_ignore_ram_load_flag();
    }
    tlv.set_security_counter(security_counter);
    // Add the dependencies early to the manifest.
    let versions: Vec<ImageVersion> = deps.my_deps(slot.base_off, slot.index);
    let other: u8 = deps.other_id();
    let mut i: usize = 0;
    while i < versions.len()
        invariant
            i <= versions.len() <= 1,
            tlv.wf(),
            tlv.spec_kinds() == manifest_kinds(*caps),
            tlv.spec_flags() == manifest_flags(*caps),
            tlv.spec_caps() == *caps,
            tlv.spec_payload() == Seq::<u8>::empty(),
            tlv.spec_dependencies().len() == i,
            forall|k: int|
                0 <= k < i ==> #[trigger] tlv.spec_dependencies()[k] == (Dependency {
                    id: other,
                    version: versions@[k],
                }),
            tlv.spec_security_cnt() == security_counter,
            tlv.spec_ignore_ram_load() == (manipulation == ImageManipulation::IgnoreRamLoadFlag),
            !tlv.spec_corrupted(),
            tlv.spec_enc_key() == Seq::<u8>::empty(),
            tlv.spec_rsa_key_wrap() == Seq::<u8>::empty(),
            tlv.spec_kw_key_wrap() == Seq::<u8>::empty(),
        decreases versions.len() - i,
    {
        tlv.add_dependency(other, &versions[i]);
        i = i + 1;
    }
    tlv
}

/// Encrypts the payload of an image.
fn encrypt_payload(aes256: bool, key: &Vec<u8>, payload: &Vec<u8>) -> (res: Option<Vec<u8>>)
    ensures
        match res {
            Some(e) => e@.len() == payload@.len() && Some(e@) == (if aes256 {
                aes256_ctr_stream(key@, zero_nonce(), payload@)
            } else {
                aes128_ctr_stream(key@, zero_nonce(), payload@)
            }),
            None => (if aes256 {
                aes256_ctr_stream(key@, zero_nonce(), payload@)
            } else {
                aes128_ctr_stream(key@, zero_nonce(), payload@)
            }) is None,
        },
{
    let nonce: Vec<u8> = vec![0u8; 16];
    assert(nonce@ =~= zero_nonce());
    if aes256 {
        aes256_ctr(key.as_slice(), nonce.as_slice(), payload.as_slice())
    } else {
        aes128_ctr(key.as_slice(), nonce.as_slice(), payload.as_slice())
    }
}

/// The header, a payload and the manifest in one piece, padded to a
/// multiple of the write alignment with erased bytes.
pub fn compose(header: &Vec<u8>, payload: &Vec<u8>, tlv: &Vec<u8>, align: usize, erased: u8) -> (res:
    Vec<u8>)
    requires
        align > 0,
        header@.len() + payload@.len() + tlv@.len() + align <= usize::MAX,
    ensures
        res@ == padded(header@ + payload@ + tlv@, align as int, erased),
        res@.len() % (align as nat) == 0,
        header@.len() + payload@.len() + tlv@.len() <= res@.len() < header@.len() + payload@.len()
            + tlv@.len() + align,
{
    let mut buf: Vec<u8> = Vec::new();
    push_all(&mut buf, header);
    push_all(&mut buf, payload);
    push_all(&mut buf, tlv);
    assert(buf@ =~= header@ + payload@ + tlv@);
    pad_to(&mut buf, align, erased);
    buf
}

/// Works out the length of the payload of an image.
fn plan_len(dev: &Flash, slot: &SlotInfo, size: ImageSize, cfg: &BootConfig, tlv_len: usize) -> (res:
    Result<usize, InstallError>)
    requires
        dev.wf(),
        cfg.wf(),
        dev.spec_align() <= 0x1000_0000,
        tlv_len <= 0x1_1000,
    ensures
        match res {
            Ok(len) => spec_payload_len(
                size,
                slot.len,
                largest_trailer(*cfg, dev.spec_align(), first_sector_of(*dev)),
                tlv_len as nat,
                dev.spec_align(),
            ) == Ok::<int, InstallError>(len as int),
            Err(e) => spec_payload_len(
                size,
                slot.len,
                largest_trailer(*cfg, dev.spec_align(), first_sector_of(*dev)),
                tlv_len as nat,
                dev.spec_align(),
            ) == Err::<int, InstallError>(e),
        },
{
    let len: usize = wish_len(dev, slot, size, cfg, tlv_len)?;
    if len > 0xffff_ffff || len > usize::MAX - HDR_SIZE - tlv_len - dev.align() {
        return Err(InstallError::TooLarge);
    }
    Ok(len)
}

/// Works out the length of the payload that is asked for.
fn wish_len(dev: &Flash, slot: &SlotInfo, size: ImageSize, cfg: &BootConfig, tlv_len: usize) -> (res:
    Result<usize, InstallError>)
    requires
        dev.wf(),
        cfg.wf(),
        dev.spec_align() <= 0x1000_0000,
        tlv_len <= 0x1_1000,
    ensures
        match wanted_len(
            size,
            slot.len,
            largest_trailer(*cfg, dev.spec_align(), first_sector_of(*dev)),
            tlv_len as nat,
            dev.spec_align(),
        ) {
            Ok(len) => if len <= usize::MAX {
                res == Ok::<usize, InstallError>(len as usize)
            } else {
                res == Err::<usize, InstallError>(InstallError::TooLarge)
            },
            Err(e) => res == Err::<usize, InstallError>(e),
        },
{
    match size {
        ImageSize::Given(size) => Ok(size),
        _ => {
            let trailer: usize = match image_largest_trailer(dev, cfg) {
                Some(trailer) => trailer,
                None => {
                    return Err(InstallError::NoTrailerSize);
                },
            };
            let needed: usize = match trailer.checked_add(HDR_SIZE + tlv_len) {
                Some(needed) => needed,
                None => {
                    return Err(InstallError::TooSmall);
                },
            };
            if slot.len < needed {
                return Err(InstallError::TooSmall);
            }
            let room: usize = slot.len - needed;
            match size {
                ImageSize::Largest => Ok(room),
                // The overflow is roughly estimated to work for all
                // configurations.
                _ => match room.checked_add(dev.align() * 4) {
                    Some(len) => Ok(len),
                    None => Err(InstallError::TooLarge),
                },
            }
        },
    }
}

/// The payload encrypted with the key: the key has to have 16 or 32 bytes,
/// and the cipher has to take it.
pub open spec fn encrypted_with(aes256: bool, key: Seq<u8>, payload: Seq<u8>) -> Result<
    Seq<u8>,
    InstallError,
> {
    if !(key.len() == 16 || key.len() == 32) {
        Err(InstallError::Manifest(TlvError::MissingKey))
    } else {
        match (if aes256 {
            aes256_ctr_stream(key, zero_nonce(), payload)
        } else {
            aes128_ctr_stream(key, zero_nonce(), payload)
        }) {
            Some(e) => Ok(e),
            None => Err(InstallError::Cipher),
        }
    }
}

/// Gets the key that the image is encrypted with into the generator, from
/// `sealed` or from the random generator, and encrypts the payload with it.
/// With a key in `sealed` the outcome is that of the cipher on that key; a
/// key that is drawn may not come, and has the length that the cipher takes
/// if it does.
fn encrypt_with(tlv: &mut TlvGen, sealed: &Option<SealedKey>, payload: &Vec<u8>) -> (res: Result<
    Vec<u8>,
    InstallError,
>)
    requires
        old(tlv).wf(),
    ensures
        final(tlv).wf(),
        final(tlv).spec_flags() == old(tlv).spec_flags(),
        final(tlv).spec_kinds() == old(tlv).spec_kinds(),
        final(tlv).spec_payload() == old(tlv).spec_payload(),
        final(tlv).spec_dependencies() == old(tlv).spec_dependencies(),
        final(tlv).spec_corrupted() == old(tlv).spec_corrupted(),
        final(tlv).spec_security_cnt() == old(tlv).spec_security_cnt(),
        final(tlv).spec_ignore_ram_load() == old(tlv).spec_ignore_ram_load(),
        final(tlv).spec_caps() == old(tlv).spec_caps(),
        match sealed {
            Some(k) => {
                &&& final(tlv).spec_enc_key() == k.key@
                &&& final(tlv).spec_rsa_key_wrap() == k.rsa_wrap@
                &&& final(tlv).spec_kw_key_wrap() == k.kw_wrap@
                &&& match encrypted_with(old(tlv).aes256(), k.key@, payload@) {
                    Ok(e) => res matches Ok(v) && v@ == e,
                    Err(x) => res == Err::<Vec<u8>, InstallError>(x),
                }
            },
            None => {
                &&& final(tlv).spec_rsa_key_wrap() == old(tlv).spec_rsa_key_wrap()
                &&& final(tlv).spec_kw_key_wrap() == old(tlv).spec_kw_key_wrap()
                &&& res matches Err(x) ==> {
                    ||| x == InstallError::Manifest(TlvError::Random) && final(tlv).spec_enc_key()
                        == old(tlv).spec_enc_key()
                    ||| x == InstallError::Cipher && encrypted_with(
                        old(tlv).aes256(),
                        final(tlv).spec_enc_key(),
                        payload@,
                    ) == Err::<Seq<u8>, InstallError>(InstallError::Cipher)
                }
            },
        },
        res matches Ok(e) ==> {
            &&& e@.len() == payload@.len()
            &&& encrypted_with(old(tlv).aes256(), final(tlv).spec_enc_key(), payload@) == Ok::<
                Seq<u8>,
                InstallError,
            >(e@)
            &&& sealed matches Some(k) ==> Some(e@) == (if old(tlv).aes256() {
                aes256_ctr_stream(k.key@, zero_nonce(), payload@)
            } else {
                aes128_ctr_stream(k.key@, zero_nonce(), payload@)
            })
        },
{
    let aes256: bool = tlv.is_aes256();
    match sealed {
        Some(k) => {
            tlv.set_wrapped_key(
                copy_range(&k.key, 0, k.key.len()),
                copy_range(&k.rsa_wrap, 0, k.rsa_wrap.len()),
                copy_range(&k.kw_wrap, 0, k.kw_wrap.len()),
            );
            assert(tlv.spec_enc_key() =~= k.key@);
        },
        None => {
            match tlv.generate_enc_key() {
                Ok(()) => {},
                Err(e) => {
                    return Err(InstallError::Manifest(e));
                },
            }
        },
    }
    if !tlv.has_enc_key() {
        return Err(InstallError::Manifest(TlvError::MissingKey));
    }
    let enc_key: Vec<u8> = tlv.get_enc_key();
    match encrypt_payload(aes256, &enc_key, payload) {
        Some(e) => Ok(e),
        None => Err(InstallError::Cipher),
    }
}

/// Whether `g` is the generator of the manifest of an image as planned for
/// the slot, when it has gathered `covered`: it has the kinds, the flags and
/// the capabilities of the bootloader, the dependencies of the image on the
/// other one, and the security counter; it leaves the flag for loading into
/// RAM out, and corrupts the manifest, if the image is manipulated so.
pub open spec fn planned_generator(
    g: TlvGen,
    slot: SlotInfo,
    deps: Depender,
    manipulation: ImageManipulation,
    security_counter: Option<u32>,
    caps: CapSet,
    covered: Seq<u8>,
) -> bool {
    &&& g.spec_kinds() == manifest_kinds(caps)
    &&& g.spec_flags() == manifest_flags(caps)
    &&& g.spec_caps() == caps
    &&& g.spec_payload() == covered
    &&& g.spec_dependencies().len() == deps.spec_deps(slot.index).len()
    &&& forall|i: int|
        0 <= i < g.spec_dependencies().len() ==> #[trigger] g.spec_dependencies()[i] == (
        Dependency { id: deps.spec_other_id(), version: deps.spec_deps(slot.index)[i] })
    &&& g.spec_security_cnt() == security_counter
    &&& g.spec_ignore_ram_load() == (manipulation == ImageManipulation::IgnoreRamLoadFlag)
    &&& g.spec_corrupted() == (manipulation == ImageManipulation::BadSignature)
}

/// Whether `tlv` is the manifest of an image as planned for the slot, over
/// the header and the payload in `covered`, made with the keys: the
/// manifest that the planned generator builds from parts of which
/// `parts_ok` holds.
pub open spec fn manifest_made(
    slot: SlotInfo,
    deps: Depender,
    manipulation: ImageManipulation,
    security_counter: Option<u32>,
    caps: CapSet,
    keys: KeyStore,
    covered: Seq<u8>,
    tlv: Seq<u8>,
) -> bool {
    exists|g: TlvGen, parts: TlvParts| #[trigger]
        g.parts_ok(keys, parts) && planned_generator(
            g,
            slot,
            deps,
            manipulation,
            security_counter,
            caps,
            covered,
        ) && tlv == g.manifest(parts)
}

/// The manifest of an image that is made without keys is the protected
/// area and the hash of what is covered.
pub proof fn lemma_keyless_manifest(
    g: TlvGen,
    slot: SlotInfo,
    deps: Depender,
    manipulation: ImageManipulation,
    security_counter: Option<u32>,
    caps: CapSet,
    keys: KeyStore,
    covered: Seq<u8>,
    parts: TlvParts,
)
    requires
        !needs_keys(manifest_kinds(caps)),
        g.parts_ok(keys, parts),
        planned_generator(g, slot, deps, manipulation, security_counter, caps, covered),
    ensures
        g.manifest(parts) == g.unsigned_manifest(),
{
    g.lemma_unsigned_manifest(keys, parts);
}

/// Whether an image for the bootloader is made without keys: its manifest
/// holds no signature and no wrapped key, and its payload is not encrypted.
pub open spec fn keyless(caps: CapSet, manipulation: ImageManipulation) -> bool {
    &&& supported(manifest_kinds(caps))
    &&& !needs_keys(manifest_kinds(caps))
    &&& !is_encrypted(spec_header_flags(caps, manipulation))
}

/// Puts an image together: its header, a pseudorandom payload of the size
/// asked for, the payload encrypted if the bootloader decrypts images, and
/// the manifest over the header and the plain payload.
///
/// The key that the payload is encrypted with is the one in `sealed`, if one
/// is given, and a fresh random one otherwise.
pub fn build_image(
    dev: &Flash,
    slot: &SlotInfo,
    size: ImageSize,
    ram: &RamData,
    deps: &Depender,
    manipulation: ImageManipulation,
    security_counter: Option<u32>,
    cfg: &BootConfig,
    keys: &KeyStore,
    sealed: &Option<SealedKey>,
) -> (res: Result<BuiltImage, InstallError>)
    requires
        dev.wf(),
        cfg.wf(),
        deps.wf(),
        slot.index <= 1,
    ensures
        home_of(ram.spec_places(), key_of(*slot)) is None ==> (res matches Err(e) && e
            == InstallError::NoRamPlace),
        home_of(ram.spec_places(), key_of(*slot)) is Some && dev.spec_align() > 0x1000_0000 ==> (
        res matches Err(e) && e == InstallError::Alignment),
        home_of(ram.spec_places(), key_of(*slot)) is Some && dev.spec_align() <= 0x1000_0000
            ==> (planned_len(*dev, *slot, size, *deps, security_counter, *cfg) matches Err(e)
            ==> res == Err::<BuiltImage, InstallError>(e)),
        home_of(ram.spec_places(), key_of(*slot)) is Some && dev.spec_align() <= 0x1000_0000
            && planned_len(*dev, *slot, size, *deps, security_counter, *cfg) is Ok && keyless(
            cfg.caps,
            manipulation,
        ) ==> res is Ok,
        res matches Ok(built) ==> {
            let place = home_of(ram.spec_places(), key_of(*slot))->0;
            let len = planned_len(*dev, *slot, size, *deps, security_counter, *cfg)->Ok_0;
            let aes256 = crate::tlv::wants_aes256(manifest_flags(cfg.caps));
            &&& planned_len(*dev, *slot, size, *deps, security_counter, *cfg) is Ok
            &&& len <= u32::MAX
            &&& built.header == planned_header(
                *slot,
                len,
                place,
                *deps,
                manipulation,
                security_counter,
                cfg.caps,
            )
            &&& built.payload@.len() == len
            &&& built.tlv@.len() == planned_tlv_len(*slot, *deps, security_counter, cfg.caps)
            &&& manifest_made(
                *slot,
                *deps,
                manipulation,
                security_counter,
                cfg.caps,
                *keys,
                built.header.spec_bytes() + built.payload@,
                built.tlv@,
            )
            &&& HDR_SIZE + len + built.tlv@.len() + dev.spec_align() <= usize::MAX
            &&& built.plain@ == padded(
                built.header.spec_bytes() + built.payload@ + built.tlv@,
                dev.spec_align() as int,
                dev.spec_erased_val(),
            )
            &&& built.plain@.len() % (dev.spec_align() as nat) == 0
            &&& (built.cipher is Some) == is_encrypted(spec_header_flags(cfg.caps, manipulation))
            &&& (built.enc_payload is Some) == (built.cipher is Some)
            &&& built.cipher matches Some(c) ==> {
                let e = built.enc_payload->0;
                &&& e@.len() == len
                &&& c@ == padded(
                    built.header.spec_bytes() + e@ + built.tlv@,
                    dev.spec_align() as int,
                    dev.spec_erased_val(),
                )
                &&& sealed matches Some(k) ==> Some(e@) == (if aes256 {
                    aes256_ctr_stream(k.key@, zero_nonce(), built.payload@)
                } else {
                    aes128_ctr_stream(k.key@, zero_nonce(), built.payload@)
                })
            }
        },
{
    let caps: &CapSet = &cfg.caps;
    let mut tlv: TlvGen = plan_manifest(slot, deps, manipulation, security_counter, caps);
    let place: SlotPlace = match ram.lookup(slot) {
        Some(place) => place,
        None => {
            return Err(InstallError::NoRamPlace);
        },
    };
    let align: usize = dev.align();
    if align > 0x1000_0000 {
        return Err(InstallError::Alignment);
    }
    let tlv_len: usize = tlv.estimate_size();
    let len: usize = plan_len(dev, slot, size, cfg, tlv_len)?;
    // Generate a boot header.  Note that the size doesn't include the
    // header.
    let header = ImageHeader {
        magic: tlv.get_magic(),
        load_addr: load_addr(caps, manipulation, &place),
        hdr_size: HDR_SIZE as u16,
        protect_tlv_size: tlv.protect_size(),
        img_size: len as u32,
        flags: tlv.get_flags(),
        ver: deps.my_version(slot.base_off, slot.index),
        _pad2: 0,
    };
    let b_header: Vec<u8> = header.as_raw();
    tlv.add_bytes(&b_header);
    // The core of the image itself is just pseudorandom data.
    let b_img: Vec<u8> = splat(len, slot.base_off);
    // The manifest works over the plain image.
    tlv.add_bytes(&b_img);
    // Generate the encrypted payload.
    let flags: u32 = tlv.get_flags();
    let encrypted: bool = flags & 0x0c != 0;
    let b_encimg: Option<Vec<u8>> = if encrypted {
        Some(encrypt_with(&mut tlv, sealed, &b_img)?)
    } else {
        None
    };
    // Build the manifest itself.
    if manipulation == ImageManipulation::BadSignature {
        tlv.corrupt_sig();
    }
    let ghost g = tlv;
    let b_tlv: Vec<u8> = match tlv.make_tlv(keys) {
        Ok(b_tlv) => b_tlv,
        Err(e) => {
            return Err(InstallError::Manifest(e));
        },
    };
    proof {
        let covered = header.spec_bytes() + b_img@;
        assert(g.spec_payload() =~= covered);
        let parts = choose|parts: TlvParts|
            g.parts_ok(*keys, parts) && b_tlv@ == #[trigger] g.manifest(parts);
        assert(planned_generator(
            g,
            *slot,
            *deps,
            manipulation,
            security_counter,
            cfg.caps,
            covered,
        ));
        assert(g.parts_ok(*keys, parts));
    }
    let erased: u8 = dev.erased_val();
    let plain: Vec<u8> = compose(&b_header, &b_img, &b_tlv, align, erased);
    let cipher: Option<Vec<u8>> = match &b_encimg {
        Some(e) => Some(compose(&b_header, e, &b_tlv, align, erased)),
        None => None,
    };
    Ok(BuiltImage { header, payload: b_img, enc_payload: b_encimg, tlv: b_tlv, plain, cipher })
}

/// What can keep an image from being installed that is not a matter of keys
/// and primitives: the slot has no device or no home in RAM, or the size
/// asked for cannot be had.
pub open spec fn install_refused(
    flash: MultiFlash,
    slot: SlotInfo,
    size: ImageSize,
    ram: RamData,
    deps: Depender,
    security_counter: Option<u32>,
    cfg: BootConfig,
) -> Option<InstallError> {
    match flash.place(slot.dev_id) {
        None => Some(InstallError::NoDevice),
        Some(at) => {
            let dev = flash.spec_devs()[at];
            if home_of(ram.spec_places(), key_of(slot)) is None {
                Some(InstallError::NoRamPlace)
            } else if dev.spec_align() > 0x1000_0000 {
                Some(InstallError::Alignment)
            } else {
                match planned_len(dev, slot, size, deps, security_counter, cfg) {
                    Err(e) => Some(e),
                    Ok(len) => None,
                }
            }
        },
    }
}

/// The length of an image as it is stored: that of the header, the payload
/// and the manifest, rounded up to the write alignment of the device.
pub open spec fn stored_len(
    dev: Flash,
    slot: SlotInfo,
    size: ImageSize,
    deps: Depender,
    security_counter: Option<u32>,
    cfg: BootConfig,
) -> int {
    align_up_spec(
        HDR_SIZE + planned_len(dev, slot, size, deps, security_counter, cfg)->Ok_0
            + planned_tlv_len(slot, deps, security_counter, cfg.caps),
        dev.spec_align() as int,
    )
}

/// The plain form of an image: the header, the payload and the manifest,
/// padded to the write alignment with erased bytes.
pub open spec fn plain_form(
    header: Seq<u8>,
    payload: Seq<u8>,
    tlv: Seq<u8>,
    align: usize,
    erased: u8,
) -> Seq<u8> {
    padded(header + payload + tlv, align as int, erased)
}

/// Whether the encrypted form of an image, if there is one, is the header,
/// an encrypted payload of `len` bytes and the manifest of the plain form,
/// padded like the plain form.
pub open spec fn cipher_formed(
    header: Seq<u8>,
    len: int,
    tlv: Seq<u8>,
    align: usize,
    erased: u8,
    cipher: Option<Seq<u8>>,
) -> bool {
    match cipher {
        Some(c) => exists|encrypted: Seq<u8>|
            encrypted.len() == len && #[trigger] plain_form(header, encrypted, tlv, align, erased)
                == c,
        None => true,
    }
}

/// Whether `data` is the record of an image that was put together for the
/// slot as planned: it has the size of the header, the payload and the
/// manifest; its plain form is the header, a payload of the planned length
/// and the manifest over the two, made with the keys, padded to the write
/// alignment of the device with erased bytes; and it has an encrypted form
/// if the bootloader decrypts images, which differs from the plain form in
/// its payload alone.
pub open spec fn recorded_as(
    dev: Flash,
    slot: SlotInfo,
    size: ImageSize,
    ram: RamData,
    deps: Depender,
    manipulation: ImageManipulation,
    security_counter: Option<u32>,
    cfg: BootConfig,
    keys: KeyStore,
    data: ImageData,) -> bool {
    let len = planned_len(dev, slot, size, deps, security_counter, cfg)->Ok_0;
    &&& planned_len(dev, slot, size, deps, security_counter, cfg) is Ok
    &&& home_of(ram.spec_places(), key_of(slot)) is Some
    &&& data.spec_size() == HDR_SIZE + len + planned_tlv_len(slot, deps, security_counter, cfg.caps)
    &&& data.spec_plain().len() == align_up_spec(data.spec_size() as int, dev.spec_align() as int)
    &&& data.spec_plain().subrange(0, HDR_SIZE as int) == planned_header(
        slot,
        len,
        home_of(ram.spec_places(), key_of(slot))->0,
        deps,
        manipulation,
        security_counter,
        cfg.caps,
    ).spec_bytes()
    &&& exists|payload: Seq<u8>, tlv: Seq<u8>| #[trigger]
        plain_form(
            planned_header(
                slot,
                len,
                home_of(ram.spec_places(), key_of(slot))->0,
                deps,
                manipulation,
                security_counter,
                cfg.caps,
            ).spec_bytes(),
            payload,
            tlv,
            dev.spec_align(),
            dev.spec_erased_val(),
        ) == data.spec_plain() && payload.len() == len && manifest_made(
            slot,
            deps,
            manipulation,
            security_counter,
            cfg.caps,
            keys,
            planned_header(
                slot,
                len,
                home_of(ram.spec_places(), key_of(slot))->0,
                deps,
                manipulation,
                security_counter,
                cfg.caps,
            ).spec_bytes() + payload,
            tlv,
        ) && cipher_formed(
            planned_header(
                slot,
                len,
                home_of(ram.spec_places(), key_of(slot))->0,
                deps,
                manipulation,
                security_counter,
                cfg.caps,
            ).spec_bytes(),
            len,
            tlv,
            dev.spec_align(),
            dev.spec_erased_val(),
            data.spec_cipher(),
        )
    &&& (data.spec_cipher() is Some) == is_encrypted(spec_header_flags(cfg.caps, manipulation))
}

/// Whether a device refuses a write depends on the payload through its
/// length alone.
pub proof fn lemma_refusal_by_length(dev: Flash, offset: usize, a: Seq<u8>, b: Seq<u8>)
    requires
        a.len() == b.len(),
    ensures
        dev.write_refusal(offset, a) == dev.write_refusal(offset, b),
{
}

/// The record of an image depends on the device through its sectors and
/// its write alignment alone.
pub proof fn lemma_recorded_same_setup(
    a: Flash,
    b: Flash,
    slot: SlotInfo,
    size: ImageSize,
    ram: RamData,
    deps: Depender,
    manipulation: ImageManipulation,
    security_counter: Option<u32>,
    cfg: BootConfig,
    keys: KeyStore,
    data: ImageData,)
    requires
        a.same_setup(b),
    ensures
        recorded_as(a, slot, size, ram, deps, manipulation, security_counter, cfg, keys, data)
            == recorded_as(b, slot, size, ram, deps, manipulation, security_counter, cfg, keys, data),
{
}

/// Whether `after` and `res` are what installing an image in the slot gives
/// on `before`.  What keeps the image from being put together, apart from
/// keys and primitives, is reported, and nothing is written then.  An image
/// that is made without keys is refused only by the device, and is
/// installed if the device has no faults.  Only the device of the slot
/// changes.  An image that was installed is recorded as planned, and the
/// device holds what storing it gives.
pub open spec fn installed(
    before: MultiFlash,
    after: MultiFlash,
    slot: SlotInfo,
    size: ImageSize,
    ram: RamData,
    deps: Depender,
    manipulation: ImageManipulation,
    security_counter: Option<u32>,
    cfg: BootConfig,
    keys: KeyStore,
    res: Result<ImageData, InstallError>,) -> bool {
    &&& after.same_board(before)
    &&& install_refused(before, slot, size, ram, deps, security_counter, cfg) matches Some(e)
        ==> res == Err::<ImageData, InstallError>(e) && after == before
    &&& install_refused(before, slot, size, ram, deps, security_counter, cfg) is None && keyless(
        cfg.caps,
        manipulation,
    ) ==> {
        let dev = before.spec_devs()[before.place(slot.dev_id)->0];
        match dev.write_refusal(
            slot.base_off,
            blank(stored_len(dev, slot, size, deps, security_counter, cfg) as nat, 0),
        ) {
            Some(e) => res == Err::<ImageData, InstallError>(InstallError::Flash(e)),
            None => dev.spec_bad_regions().len() == 0 ==> res is Ok,
        }
    }
    &&& forall|i: int|
        0 <= i < before.spec_devs().len() && before.place(slot.dev_id) != Some(i)
            ==> after.spec_devs()[i] == before.spec_devs()[i]
    &&& res matches Ok(data) ==> {
        let at = before.place(slot.dev_id)->0;
        let dev = before.spec_devs()[at];
        let len = planned_len(dev, slot, size, deps, security_counter, cfg)->Ok_0;
        let plain_last = slot.index == 0 && !cfg.caps.has(Caps::RamLoad);
        &&& install_refused(before, slot, size, ram, deps, security_counter, cfg) is None
        &&& recorded_as(
            dev,
            slot,
            size,
            ram,
            deps,
            manipulation,
            security_counter,
            cfg,
            keys,
            data,)
        &&& storable(dev, slot, data.spec_plain(), data.spec_cipher(), plain_last)
        &&& after.spec_devs()[at]@ == stored(
            dev@,
            dev.spec_erased_val(),
            slot,
            data.spec_plain(),
            data.spec_cipher(),
            plain_last,
        )
    }
}

/// Install a "program" into the given slot.  This fakes the image header, or
/// at least all of the fields used by the bootloader.  Returns a copy of the
/// image that was written.
///
/// The image is put together by `build_image` and written by `store_image`:
/// plain last in the primary slot of a bootloader that does not load into
/// RAM, encrypted last, if at all, everywhere else.  Nothing is written
/// unless the image could be put together.
pub fn install_image(
    flash: &mut MultiFlash,
    slot: &SlotInfo,
    size: ImageSize,
    ram: &RamData,
    deps: &Depender,
    manipulation: ImageManipulation,
    security_counter: Option<u32>,
    cfg: &BootConfig,
    keys: &KeyStore,
    sealed: &Option<SealedKey>,
) -> (res: Result<ImageData, InstallError>)
    requires
        old(flash).wf(),
        cfg.wf(),
        deps.wf(),
        slot.index <= 1,
    ensures
        final(flash).wf(),
        installed(
            *old(flash),
            *final(flash),
            *slot,
            size,
            *ram,
            *deps,
            manipulation,
            security_counter,
            *cfg,
            *keys,
            res,
        ),
{
    let at: usize = match flash.find(slot.dev_id) {
        Some(at) => at,
        None => {
            return Err(InstallError::NoDevice);
        },
    };
    let built: BuiltImage = build_image(
        flash.get(at),
        slot,
        size,
        ram,
        deps,
        manipulation,
        security_counter,
        cfg,
        keys,
        sealed,
    )?;
    let image_sz: usize = HDR_SIZE + built.payload.len() + built.tlv.len();
    proof {
        let dev = flash.spec_devs()[at as int];
        let whole = built.header.spec_bytes() + built.payload@ + built.tlv@;
        assert(built.plain@.subrange(0, HDR_SIZE as int) =~= built.header.spec_bytes());
        crate::utils::lemma_align_up_is_least_multiple(
            image_sz as int,
            dev.spec_align() as int,
            built.plain@.len() as int,
        );
        lemma_padded_len(whole, dev.spec_align() as int, dev.spec_erased_val());
    }
    // Since images are always plain in the primary slot, the encrypted
    // image is written there first, read back to use for verification, and
    // erased before the plain one is written.  In the secondary slot the
    // image is written plain, and if encryption is requested, it is followed
    // by an erase and the encrypted image.
    //
    // A bootloader that loads into RAM expects both slots to be encrypted.
    let plain_last: bool = slot.index == 0 && !Caps::RamLoad.present(&cfg.caps);
    proof {
        let dev = flash.spec_devs()[at as int];
        lemma_refusal_by_length(
            dev,
            slot.base_off,
            built.plain@,
            blank(stored_len(dev, *slot, size, *deps, security_counter, *cfg) as nat, 0),
        );
    }
    let ghost dev = flash.spec_devs()[at as int];
    let res = store_image(flash, at, slot, image_sz, &built.plain, &built.cipher, plain_last);
    proof {
        if res is Ok {
            let data = res->Ok_0;
            let header = built.header.spec_bytes();
            assert(plain_form(
                header,
                built.payload@,
                built.tlv@,
                dev.spec_align(),
                dev.spec_erased_val(),
            ) == data.spec_plain());
            assert(manifest_made(
                *slot,
                *deps,
                manipulation,
                security_counter,
                cfg.caps,
                *keys,
                header + built.payload@,
                built.tlv@,
            ));
            if built.cipher is Some {
                assert(plain_form(
                    header,
                    built.enc_payload->0@,
                    built.tlv@,
                    dev.spec_align(),
                    dev.spec_erased_val(),
                ) == data.spec_cipher()->0);
            }
            assert(cipher_formed(
                header,
                built.payload@.len() as int,
                built.tlv@,
                dev.spec_align(),
                dev.spec_erased_val(),
                data.spec_cipher(),
            ));
        }
    }
    res
}

/// Padding fills up to the next multiple of the alignment.
pub proof fn lemma_padded_len(data: Seq<u8>, align: int, val: u8)
    requires
        align > 0,
    ensures
        padded(data, align, val).len() == align_up_spec(data.len() as int, align),
{
    let n = data.len() as int;
    vstd::arithmetic::div_mod::lemma_fundamental_div_mod(n, align);
    if n % align != 0 {
        vstd::arithmetic::div_mod::lemma_small_mod((align - n % align) as nat, align as nat);
    } else {
        vstd::arithmetic::div_mod::lemma_mod_self_0(align);
    }
}

/// Whether the partition table is left out for a device: some area other
/// than the bootloader's starts at offset 0 of the device, where the table
/// would go.
pub open spec fn skips_ptable(areas: Seq<FlashArea>, id: u8) -> bool {
    exists|i: int|
        0 <= i < areas.len() && (#[trigger] areas[i]).device_id == id && areas[i].off == 0
            && areas[i].flash_id != FlashId::BootLoader
}

/// The entries of the partition table of a device: for each of its areas,
/// in order, four words: the purpose, the offset, the size, and zero.
pub open spec fn ptable_entries(areas: Seq<FlashArea>, id: u8) -> Seq<u8>
    decreases areas.len(),
{
    if areas.len() == 0 {
        Seq::<u8>::empty()
    } else if areas.last().device_id == id {
        ptable_entries(areas.drop_last(), id) + le32(areas.last().flash_id.spec_index() as u32)
            + le32(areas.last().off) + le32(areas.last().size) + le32(0)
    } else {
        ptable_entries(areas.drop_last(), id)
    }
}

/// The number of areas of a device.
pub open spec fn ptable_count(areas: Seq<FlashArea>, id: u8) -> nat
    decreases areas.len(),
{
    if areas.len() == 0 {
        0
    } else if areas.last().device_id == id {
        ptable_count(areas.drop_last(), id) + 1
    } else {
        ptable_count(areas.drop_last(), id)
    }
}

/// The name that starts a partition table: `mcuboot` and a zero byte.
pub open spec fn ptable_name() -> Seq<u8> {
    seq![0x6du8, 0x63u8, 0x75u8, 0x62u8, 0x6fu8, 0x6fu8, 0x74u8, 0u8]
}

/// The partition table of a device: the name, the number of areas of the
/// device, and an entry for each.
pub open spec fn ptable(areas: Seq<FlashArea>, id: u8) -> Seq<u8> {
    ptable_name() + le32(ptable_count(areas, id) as u32) + ptable_entries(areas, id)
}

/// Tells whether the partition table is left out for a device.
pub fn ptable_skipped(areas: &Vec<FlashArea>, id: u8) -> (res: bool)
    ensures
        res == skips_ptable(areas@, id),
{
    let mut i: usize = 0;
    while i < areas.len()
        invariant
            i <= areas.len(),
            forall|j: int|
                0 <= j < i ==> !((#[trigger] areas@[j]).device_id == id && areas@[j].off == 0
                    && areas@[j].flash_id != FlashId::BootLoader),
        decreases areas.len() - i,
    {
        let area: FlashArea = areas[i];
        if area.device_id == id && area.off == 0 && area.flash_id != FlashId::BootLoader {
            return true;
        }
        i = i + 1;
    }
    false
}

/// Builds the partition table of a device.  This is a simplified partition
/// table that is written at the beginning of flash to make it easier for
/// external tools to analyze the images.
pub fn partition_table(areas: &Vec<FlashArea>, id: u8) -> (res: Vec<u8>)
    requires
        areas@.len() <= u32::MAX,
    ensures
        res@ == ptable(areas@, id),
{
    let mut count: u32 = 0;
    let mut entries: Vec<u8> = Vec::new();
    let mut i: usize = 0;
    assert(areas@.subrange(0, 0) =~= Seq::<FlashArea>::empty());
    while i < areas.len()
        invariant
            i <= areas.len() <= u32::MAX,
            count == ptable_count(areas@.subrange(0, i as int), id),
            count <= i,
            entries@ == ptable_entries(areas@.subrange(0, i as int), id),
        decreases areas.len() - i,
    {
        let area: FlashArea = areas[i];
        proof {
            let next = areas@.subrange(0, i + 1);
            assert(next.drop_last() =~= areas@.subrange(0, i as int));
            assert(next.last() == area);
        }
        if area.device_id == id {
            let ghost before = entries@;
            push_u32(&mut entries, area.flash_id.index() as u32);
            push_u32(&mut entries, area.off);
            push_u32(&mut entries, area.size);
            push_u32(&mut entries, 0);
            assert(entries@ =~= before + le32(area.flash_id.spec_index() as u32) + le32(area.off)
                + le32(area.size) + le32(0));
            count = count + 1;
        }
        i = i + 1;
    }
    assert(areas@.subrange(0, i as int) =~= areas@);
    let mut buf: Vec<u8> = vec![0x6du8, 0x63u8, 0x75u8, 0x62u8, 0x6fu8, 0x6fu8, 0x74u8, 0u8];
    assert(buf@ =~= ptable_name());
    push_u32(&mut buf, count);
    push_all(&mut buf, &entries);
    buf
}

/// A partition table takes 12 bytes and 16 for each area.
pub proof fn lemma_ptable_len(areas: Seq<FlashArea>, id: u8)
    ensures
        ptable_entries(areas, id).len() == 16 * ptable_count(areas, id),
        ptable(areas, id).len() == 12 + 16 * ptable_count(areas, id),
    decreases areas.len(),
{
    if areas.len() > 0 {
        lemma_ptable_len(areas.drop_last(), id);
    }
}

/// The partition table of a device as it is written: padded with zero bytes
/// to the write alignment.
pub open spec fn ptable_written(areas: Seq<FlashArea>, id: u8, align: usize) -> Seq<u8> {
    padded(ptable(areas, id), align as int, 0)
}

/// What a device holds once its partition table was written: the table at
/// its start, if the device has an area and accepts the write.
pub open spec fn with_ptable(dev: Flash, areas: Seq<FlashArea>, id: u8) -> Seq<u8> {
    if ptable_count(areas, id) > 0 {
        dev.write_data(0, ptable_written(areas, id, dev.spec_align()))
    } else {
        dev@
    }
}

/// Whether `after` is `before` with the partition tables of its first `k`
/// devices written, none of which leaves its table out.
pub open spec fn ptables_until(
    before: MultiFlash,
    after: MultiFlash,
    areas: Seq<FlashArea>,
    k: int,
) -> bool {
    &&& forall|i: int|
        0 <= i < k && i < before.spec_devs().len() ==> !skips_ptable(areas, before.spec_ids()[i])
            && (#[trigger] after.spec_devs()[i])@ == with_ptable(
            before.spec_devs()[i],
            areas,
            before.spec_ids()[i],
        )
    &&& forall|i: int|
        k <= i < before.spec_devs().len() ==> #[trigger] after.spec_devs()[i]
            == before.spec_devs()[i]
}

/// Whether the work may stop with the error `e` when the tables of the
/// first `k` devices were written, or tried: there are more areas than a
/// table can count; the table of the next device is too long to be padded;
/// or the last device reported `e` of the write.
pub open spec fn ptable_failed(before: MultiFlash, areas: Seq<FlashArea>, k: int, e: FlashError)
    -> bool {
    ||| k == 0 && areas.len() > u32::MAX && e == FlashError::OutOfBounds
    ||| {
        &&& 0 <= k < before.spec_devs().len()
        &&& !skips_ptable(areas, before.spec_ids()[k])
        &&& ptable(areas, before.spec_ids()[k]).len() + before.spec_devs()[k].spec_align()
            > usize::MAX
        &&& e == FlashError::OutOfBounds
    }
    ||| {
        &&& 0 < k <= before.spec_devs().len()
        &&& ptable_count(areas, before.spec_ids()[k - 1]) > 0
        &&& exists|sample: u32|
            sample < crate::flash::RATE_ONE && #[trigger] before.spec_devs()[k - 1].write_result(
                0,
                ptable_written(
                    areas,
                    before.spec_ids()[k - 1],
                    before.spec_devs()[k - 1].spec_align(),
                ),
                sample,
            ) == Err::<(), FlashError>(e)
    }
}

/// The tables of the first `k` devices and the table of the next one are
/// the tables of the first `k + 1` devices.
proof fn lemma_ptables_step(
    start: MultiFlash,
    before: MultiFlash,
    after: MultiFlash,
    areas: Seq<FlashArea>,
    k: int,
)
    requires
        0 <= k < start.spec_devs().len(),
        before.spec_devs().len() == start.spec_devs().len(),
        after.spec_devs().len() == start.spec_devs().len(),
        before.spec_ids() == start.spec_ids(),
        ptables_until(start, before, areas, k),
        !skips_ptable(areas, start.spec_ids()[k]),
        after.spec_devs()[k]@ == with_ptable(before.spec_devs()[k], areas, start.spec_ids()[k]),
        forall|i: int|
            0 <= i < start.spec_devs().len() && i != k ==> #[trigger] after.spec_devs()[i]
                == before.spec_devs()[i],
    ensures
        ptables_until(start, after, areas, k + 1),
{
    assert(before.spec_devs()[k] == start.spec_devs()[k]);
    assert forall|i: int| 0 <= i < k + 1 && i < start.spec_devs().len() implies !skips_ptable(
        areas,
        start.spec_ids()[i],
    ) && (#[trigger] after.spec_devs()[i])@ == with_ptable(
        start.spec_devs()[i],
        areas,
        start.spec_ids()[i],
    ) by {
        if i < k {
            assert(after.spec_devs()[i] == before.spec_devs()[i]);
            assert(before.spec_devs()[i]@ == with_ptable(
                start.spec_devs()[i],
                areas,
                start.spec_ids()[i],
            ));
        }
    }
    assert forall|i: int| k + 1 <= i < start.spec_devs().len() implies #[trigger] after.spec_devs()[i]
        == start.spec_devs()[i] by {
        assert(after.spec_devs()[i] == before.spec_devs()[i]);
        assert(before.spec_devs()[i] == start.spec_devs()[i]);
    }
}

/// Whether `after` and `failed` are what installing the partition tables
/// gives on `before`: the tables of the first devices are written, up to
/// the first device that leaves its table out, or to the one at which the
/// work fails.
pub open spec fn ptables_installed(
    before: MultiFlash,
    after: MultiFlash,
    areas: Seq<FlashArea>,
    failed: Option<FlashError>,
) -> bool {
    exists|k: int|
        0 <= k <= before.spec_devs().len() && #[trigger] ptables_until(before, after, areas, k)
            && match failed {
            None => k == before.spec_devs().len() || skips_ptable(areas, before.spec_ids()[k]),
            Some(e) => ptable_failed(before, areas, k, e),
        }
}

/// Install a partition table on every device of the board that has an area,
/// in the order of the devices.  At the first device for which the table is
/// left out the work stops: writing it would mess up an image already
/// written.  It also stops at the first device that refuses or disturbs the
/// write.  The table is padded with zero bytes to the write alignment.
pub fn install_ptable(flash: &mut MultiFlash, areadesc: &AreaDesc) -> (res: Result<(), FlashError>)
    requires
        old(flash).wf(),
    ensures
        final(flash).wf(),
        final(flash).same_board(*old(flash)),
        ptables_installed(
            *old(flash),
            *final(flash),
            AreaDesc::flat(areadesc.spec_areas()),
            match res {
                Ok(_) => None,
                Err(e) => Some(e),
            },
        ),
{
    let areas: Vec<FlashArea> = areadesc.iter_areas();
    if areas.len() > 0xffff_ffff {
        assert(ptables_until(*old(flash), *flash, areas@, 0));
        assert(ptable_failed(*old(flash), areas@, 0, FlashError::OutOfBounds));
        return Err(FlashError::OutOfBounds);
    }
    let mut at: usize = 0;
    let mut skipped: bool = false;
    while !skipped && at < flash.len()
        invariant
            flash.wf(),
            flash.same_board(*old(flash)),
            areas@.len() <= u32::MAX,
            areas@ == AreaDesc::flat(areadesc.spec_areas()),
            at <= flash.spec_devs().len(),
            ptables_until(*old(flash), *flash, areas@, at as int),
            skipped ==> at < flash.spec_devs().len() && skips_ptable(
                areas@,
                old(flash).spec_ids()[at as int],
            ),
        decreases flash.spec_devs().len() - at + (if skipped { 0int } else { 1int }),
    {
        let id: u8 = flash.id_at(at);
        if ptable_skipped(&areas, id) {
            skipped = true;
        } else {
            let mut buf: Vec<u8> = partition_table(&areas, id);
            let ghost before = *flash;
            proof {
                lemma_ptable_len(areas@, id);
            }
            if buf.len() > 12 {
                let align: usize = flash.get(at).align();
                if buf.len() > usize::MAX - align {
                    assert(ptables_until(*old(flash), *flash, areas@, at as int));
                    assert(before.spec_devs()[at as int] == old(flash).spec_devs()[at as int]);
                    assert(ptable_failed(
                        *old(flash),
                        areas@,
                        at as int,
                        FlashError::OutOfBounds,
                    ));
                    return Err(FlashError::OutOfBounds);
                }
                pad_to(&mut buf, align, 0);
                let written = flash.try_write(at, 0, buf.as_slice());
                proof {
                    assert forall|i: int| 0 <= i < flash.spec_devs().len() implies (
                    #[trigger] flash.spec_devs()[i]).same_setup(old(flash).spec_devs()[i]) by {
                        assert(flash.spec_devs()[i].same_setup(before.spec_devs()[i]));
                        assert(before.spec_devs()[i].same_setup(old(flash).spec_devs()[i]));
                    }
                    assert(buf@ == ptable_written(
                        areas@,
                        id,
                        before.spec_devs()[at as int].spec_align(),
                    ));
                    lemma_ptables_step(*old(flash), before, *flash, areas@, at as int);
                    assert(before.spec_devs()[at as int] == old(flash).spec_devs()[at as int]);
                    if let Err(e) = written {
                        assert(ptable_failed(*old(flash), areas@, at + 1, e));
                    }
                }
                written?;
            } else {
                proof {
                    lemma_ptables_step(*old(flash), before, *flash, areas@, at as int);
                }
            }
            at = at + 1;
        }
    }
    Ok(())
}

} // verus!
