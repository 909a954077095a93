//! The capabilities that a bootloader build was configured with.
//!
//! A build reports its capabilities as a word of bits.  The word is read
//! once, when a run starts, and handed to whatever depends on it.

use vstd::prelude::*;

verus! {

/// One capability of a bootloader build.
#[derive(Copy, Clone, Debug, PartialEq, Eq, Structural)]
#[allow(non_camel_case_types)]
pub enum Caps {
    RSA2048,
    EcdsaP256,
    SwapUsingScratch,
    OverwriteUpgrade,
    EncRsa,
    EncKw,
    ValidatePrimarySlot,
    RSA3072,
    Ed25519,
    EncEc256,
    SwapUsingMove,
    DowngradePrevention,
    EncX25519,
    Bootstrap,
    Aes256,
    RamLoad,
    DirectXip,
    HwRollbackProtection,
    EcdsaP384,
}

/// The capabilities of one build, and the number of images it manages.
#[derive(Copy, Clone, Debug, PartialEq, Eq, Structural)]
pub struct CapSet {
    pub bits: u32,
    pub num_images: usize,
}

impl Caps {
    /// The bit that stands for this capability in the word of a build.
    pub open spec fn spec_mask(self) -> u32 {
        match self {
            Caps::RSA2048 => 0x1,
            Caps::EcdsaP256 => 0x2,
            Caps::SwapUsingScratch => 0x4,
            Caps::OverwriteUpgrade => 0x8,
            Caps::EncRsa => 0x10,
            Caps::EncKw => 0x20,
            Caps::ValidatePrimarySlot => 0x40,
            Caps::RSA3072 => 0x80,
            Caps::Ed25519 => 0x100,
            Caps::EncEc256 => 0x200,
            Caps::SwapUsingMove => 0x400,
            Caps::DowngradePrevention => 0x800,
            Caps::EncX25519 => 0x1000,
            Caps::Bootstrap => 0x2000,
            Caps::Aes256 => 0x4000,
            Caps::RamLoad => 0x8000,
            Caps::DirectXip => 0x1_0000,
            Caps::HwRollbackProtection => 0x2_0000,
            Caps::EcdsaP384 => 0x4_0000,
        }
    }

    /// The bit that stands for this capability in the word of a build.
    pub fn mask(self) -> (res: u32)
        ensures
            res == self.spec_mask(),
    {
        match self {
            Caps::RSA2048 => 0x1,
            Caps::EcdsaP256 => 0x2,
            Caps::SwapUsingScratch => 0x4,
            Caps::OverwriteUpgrade => 0x8,
            Caps::EncRsa => 0x10,
            Caps::EncKw => 0x20,
            Caps::ValidatePrimarySlot => 0x40,
            Caps::RSA3072 => 0x80,
            Caps::Ed25519 => 0x100,
            Caps::EncEc256 => 0x200,
            Caps::SwapUsingMove => 0x400,
            Caps::DowngradePrevention => 0x800,
            Caps::EncX25519 => 0x1000,
            Caps::Bootstrap => 0x2000,
            Caps::Aes256 => 0x4000,
            Caps::RamLoad => 0x8000,
            Caps::DirectXip => 0x1_0000,
            Caps::HwRollbackProtection => 0x2_0000,
            Caps::EcdsaP384 => 0x4_0000,
        }
    }

    /// Whether the build has this capability.
    pub fn present(self, set: &CapSet) -> (res: bool)
        ensures
            res == set.has(self),
    {
        set.bits & self.mask() != 0
    }

    /// Does this build have ECDSA of some type enabled for signatures.
    pub fn has_ecdsa(set: &CapSet) -> (res: bool)
        ensures
            res == set.has(Caps::EcdsaP256),
    {
        Caps::EcdsaP256.present(set)
    }

    /// The number of images that have been configured into this build.
    pub fn get_num_images(set: &CapSet) -> (res: usize)
        ensures
            res == set.num_images,
    {
        set.num_images
    }

    /// Whether this configuration performs some kind of upgrade by writing
    /// to flash: every configuration does, but those that load into RAM or
    /// run an image where it lies.
    pub fn modifies_flash(set: &CapSet) -> (res: bool)
        ensures
            res == set.modifies_flash(),
    {
        !(Caps::RamLoad.present(set) || Caps::DirectXip.present(set))
    }
}

impl CapSet {
    /// A build with the capabilities whose bits are set in `bits`.
    pub fn new(bits: u32, num_images: usize) -> (res: CapSet)
        ensures
            res.bits == bits,
            res.num_images == num_images,
    {
        CapSet { bits, num_images }
    }

    /// Whether the build has the capability.
    pub open spec fn has(&self, cap: Caps) -> bool {
        self.bits & cap.spec_mask() != 0
    }

    /// Whether the build upgrades by writing to flash.
    pub open spec fn modifies_flash(&self) -> bool {
        !(self.has(Caps::RamLoad) || self.has(Caps::DirectXip))
    }

    /// Whether the build upgrades by swapping the contents of the two slots.
    pub open spec fn swaps(&self) -> bool {
        self.has(Caps::SwapUsingScratch) || self.has(Caps::SwapUsingMove)
    }

    /// Whether the build encrypts the image in the secondary slot.
    pub open spec fn encrypts(&self) -> bool {
        self.has(Caps::EncRsa) || self.has(Caps::EncKw) || self.has(Caps::EncEc256) || self.has(
            Caps::EncX25519,
        )
    }

    /// The same build with one more capability.
    pub fn with(self, cap: Caps) -> (res: CapSet)
        ensures
            res.bits == self.bits | cap.spec_mask(),
            res.num_images == self.num_images,
            res.has(cap),
    {
        let m: u32 = cap.mask();
        let b: u32 = self.bits;
        assert(m != 0 ==> (b | m) & m != 0) by (bit_vector);
        CapSet { bits: self.bits | m, num_images: self.num_images }
    }
}

} // verus!
