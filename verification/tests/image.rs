use bootsim::caps::{CapSet, Caps};
use bootsim::depends::{new_synthetic, no_deps, rev_deps, DepTest, DepType, Depender, UpgradeInfo};
use bootsim::flash::Flash;
use bootsim::header::{ImageHeader, ImageVersion};
use bootsim::image::{
    build_image, compose, image_largest_trailer, install_image, install_no_image, load_addr,
    make_tlv, maximal, partition_table, ptable_skipped, splat, store_image, test_alignments,
    verify_image, ImageData, ImageManipulation, ImageSize, InstallError, SealedKey,
};
use bootsim::area::{FlashArea, FlashId};
use bootsim::multiflash::MultiFlash;
use bootsim::slots::{BootConfig, RamData, SlotInfo, SlotPlace};
use bootsim::tlv::{KeyStore, TlvKinds};

fn no_keys() -> KeyStore {
    KeyStore {
        rsa2048_public: vec![],
        rsa2048_private_pem: vec![],
        rsa3072_public: vec![],
        rsa3072_private_pem: vec![],
        ecdsa_p256_public: vec![],
        ecdsa_p256_private_pem: vec![],
        ecdsa_p384_public: vec![],
        ecdsa_p384_private_pem: vec![],
        ed25519_public: vec![],
        ed25519_private_pem: vec![],
        enc_ec256_public_pem: vec![],
        enc_x25519_public_pem: vec![],
    }
}

fn config(caps: &[Caps]) -> BootConfig {
    let mut set = CapSet::new(0, 1);
    for cap in caps {
        set = set.with(*cap);
    }
    BootConfig { caps: set, magic_sz: 16, max_align: 8, trailer_sz: 200, status_sz: 100 }
}

struct Board {
    flash: MultiFlash,
    slots: Vec<[SlotInfo; 2]>,
    ram: RamData,
    cfg: BootConfig,
}

fn board(caps: &[Caps], align: usize) -> Board {
    let cfg = config(caps);
    let mut flash = MultiFlash::new();
    flash.insert(0, Flash::new(vec![1024; 8], align, 0xff));
    let slots = vec![[
        SlotInfo::new(1024, 2048, 0, 0, &cfg).unwrap(),
        SlotInfo::new(4096, 2048, 0, 1, &cfg).unwrap(),
    ]];
    let ram = RamData::new(&slots).unwrap();
    Board { flash, slots, ram, cfg }
}

fn read(flash: &MultiFlash, off: usize, len: usize) -> Vec<u8> {
    let mut buf = vec![0u8; len];
    flash.get(0).read(off, &mut buf).unwrap();
    buf
}

fn boring() -> Depender {
    Depender::boring(0, &no_deps())
}

#[test]
fn header_bytes() {
    let header = ImageHeader {
        magic: 0x96f3b83d,
        load_addr: 0x01020304,
        hdr_size: 32,
        protect_tlv_size: 0x0102,
        img_size: 100,
        flags: 0x28,
        ver: ImageVersion { major: 1, minor: 2, revision: 0x0304, build_num: 0x05060708 },
        _pad2: 0,
    };
    assert_eq!(
        header.as_raw(),
        [
            0x3d, 0xb8, 0xf3, 0x96, 4, 3, 2, 1, 32, 0, 2, 1, 100, 0, 0, 0, 0x28, 0, 0, 0, 1, 2, 4,
            3, 8, 7, 6, 5, 0, 0, 0, 0
        ]
    );
}

#[test]
fn installed_image_is_header_payload_and_manifest() {
    let mut b = board(&[Caps::OverwriteUpgrade], 8);
    let data = install_image(
        &mut b.flash,
        &b.slots[0][0],
        ImageSize::Given(101),
        &b.ram,
        &boring(),
        ImageManipulation::Unmodified,
        Some(0),
        &b.cfg,
        &no_keys(),
        &None,
    )
    .unwrap();
    assert_eq!(data.size(), 32 + 101 + 40);
    // Padded to the write alignment with erased bytes.
    assert_eq!(data.plain().len(), 176);
    assert_eq!(&data.plain()[173..], &[0xff; 3]);
    let want = ImageHeader {
        magic: 0x96f3b83d,
        load_addr: 0,
        hdr_size: 32,
        protect_tlv_size: 0,
        img_size: 101,
        flags: 0,
        ver: ImageVersion { major: 0, minor: 0, revision: 1, build_num: 0 },
        _pad2: 0,
    };
    assert_eq!(&data.plain()[..32], &want.as_raw()[..]);
    // The manifest carries the hash of the header and the payload.
    assert_eq!(&data.plain()[133..141], &[0x07, 0x69, 40, 0, 0x10, 0, 32, 0]);
    assert_eq!(
        &data.plain()[141..173],
        ring::digest::digest(&ring::digest::SHA256, &data.plain()[..133]).as_ref()
    );
    assert_eq!(read(&b.flash, 1024, 176), *data.plain());
    assert_eq!(read(&b.flash, 1024 + 176, 8), [0xff; 8]);
    assert!(verify_image(&b.flash, &b.slots[0][0], &data, &b.cfg.caps));
    assert!(!verify_image(&b.flash, &b.slots[0][1], &data, &b.cfg.caps));
    let nowhere = SlotInfo { dev_id: 4, ..b.slots[0][0] };
    assert!(!verify_image(&b.flash, &nowhere, &data, &b.cfg.caps));
}

#[test]
fn bad_signature_image_does_not_carry_its_hash() {
    let mut b = board(&[Caps::OverwriteUpgrade], 1);
    let data = install_image(
        &mut b.flash,
        &b.slots[0][1],
        ImageSize::Given(64),
        &b.ram,
        &boring(),
        ImageManipulation::BadSignature,
        None,
        &b.cfg,
        &no_keys(),
        &None,
    )
    .unwrap();
    assert_eq!(data.plain().len(), 136);
    assert_ne!(
        &data.plain()[104..136],
        ring::digest::digest(&ring::digest::SHA256, &data.plain()[..96]).as_ref()
    );
    // The version of the upgrade counts its slot.
    assert_eq!(data.plain()[20], 1);
    assert_eq!(&data.plain()[24..28], &[1, 0, 0, 0]);
}

#[test]
fn largest_image_leaves_room_for_the_trailer() {
    for (caps, trailer) in [
        (vec![Caps::SwapUsingScratch], 200),
        (vec![Caps::OverwriteUpgrade], 16 + 4 * 8),
        (vec![Caps::SwapUsingMove], 1024),
    ] {
        let mut b = board(&caps, 8);
        let dev = Flash::new(vec![1024; 8], 8, 0xff);
        assert_eq!(image_largest_trailer(&dev, &b.cfg), Some(trailer));
        for (size, extra) in [(ImageSize::Largest, 0), (ImageSize::Oversized, 32)] {
            let data = install_image(
                &mut b.flash,
                &b.slots[0][0],
                size,
                &b.ram,
                &boring(),
                ImageManipulation::Unmodified,
                None,
                &b.cfg,
                &no_keys(),
                &None,
            )
            .unwrap();
            assert_eq!(data.size(), 2048 - trailer + extra);
            b.flash.erase(0, 1024, 2048).unwrap();
        }
    }
    let dev = Flash::new(vec![1024; 8], 8, 0xff);
    assert_eq!(image_largest_trailer(&dev, &config(&[])), None);
    assert_eq!(image_largest_trailer(&Flash::new(vec![], 8, 0xff), &config(&[Caps::SwapUsingMove])), None);
    assert_eq!(
        image_largest_trailer(&Flash::new(vec![1000], 8, 0xff), &config(&[Caps::SwapUsingMove])),
        None
    );
}

#[test]
fn images_that_cannot_be_installed() {
    let mut b = board(&[], 8);
    let mut install = |slot: &SlotInfo, size: ImageSize, cfg: &BootConfig| {
        install_image(
            &mut b.flash,
            slot,
            size,
            &b.ram,
            &boring(),
            ImageManipulation::Unmodified,
            None,
            cfg,
            &no_keys(),
            &None,
        )
    };
    let slot = b.slots[0][0];
    assert_eq!(install(&slot, ImageSize::Largest, &b.cfg).err(), Some(InstallError::NoTrailerSize));
    let nowhere = SlotInfo { dev_id: 7, ..slot };
    assert_eq!(install(&nowhere, ImageSize::Given(8), &b.cfg).err(), Some(InstallError::NoDevice));
    let homeless = SlotInfo { base_off: 2048, ..slot };
    assert_eq!(
        install(&homeless, ImageSize::Given(8), &b.cfg).err(),
        Some(InstallError::NoRamPlace)
    );
    let tight = BootConfig { trailer_sz: 2000, ..config(&[Caps::SwapUsingScratch]) };
    assert_eq!(install(&slot, ImageSize::Largest, &tight).err(), Some(InstallError::TooSmall));
    // Nothing was written by the attempts.
    assert_eq!(read(&b.flash, 0, 8192), vec![0xff; 8192]);
    // An image that does not fit the device is refused by the device.
    let last = SlotInfo { base_off: 7168, ..slot };
    let ram = RamData::new(&vec![[last, last]]).unwrap();
    let res = install_image(
        &mut b.flash,
        &last,
        ImageSize::Given(2000),
        &ram,
        &boring(),
        ImageManipulation::Unmodified,
        None,
        &b.cfg,
        &no_keys(),
        &None,
    );
    assert_eq!(
        res.err(),
        Some(InstallError::Flash(bootsim::flash::FlashError::OutOfBounds))
    );
}

#[test]
fn encrypted_image_is_kept_in_both_forms() {
    let mut b = board(&[Caps::EncKw, Caps::OverwriteUpgrade], 8);
    let sealed = Some(SealedKey { key: vec![0x11; 16], rsa_wrap: vec![], kw_wrap: vec![0x22; 24] });
    let mut install = |slot: &SlotInfo| {
        install_image(
            &mut b.flash,
            slot,
            ImageSize::Given(64),
            &b.ram,
            &boring(),
            ImageManipulation::Unmodified,
            None,
            &b.cfg,
            &no_keys(),
            &sealed,
        )
        .unwrap()
    };
    let primary = install(&b.slots[0][0]);
    let secondary = install(&b.slots[0][1]);
    let caps = b.cfg.caps;
    for data in [&primary, &secondary] {
        assert_eq!(data.size(), 32 + 64 + 4 + 36 + 28);
        let cipher = data.find(1, &caps).unwrap();
        let plain = data.find(0, &caps).unwrap();
        assert_eq!(plain, data.plain());
        assert_eq!(plain.len(), cipher.len());
        // The header says that the image is encrypted with AES-128.
        assert_eq!(plain[16], 0x04);
        // Header and manifest are the same, the payload is not.
        assert_eq!(&plain[..32], &cipher[..32]);
        assert_eq!(&plain[96..], &cipher[96..]);
        let mut stream =
            <aes::Aes128Ctr as cipher::NewCipher>::new_from_slices(&[0x11; 16], &[0; 16]).unwrap();
        let mut want = plain[32..96].to_vec();
        cipher::StreamCipher::apply_keystream(&mut stream, &mut want);
        assert_ne!(want, &plain[32..96]);
        assert_eq!(&cipher[32..96], &want[..]);
        // The manifest ends with the wrapped key.
        assert_eq!(&plain[136..140], &[0x31, 0, 24, 0]);
        assert_eq!(&plain[140..164], &[0x22; 24]);
        assert_eq!(data.find(2, &caps), None);
    }
    // The primary slot holds the plain image, the secondary the encrypted.
    assert_eq!(read(&b.flash, 1024, 168), *primary.plain());
    assert_eq!(read(&b.flash, 4096, 168), *secondary.find(1, &caps).unwrap());
    assert!(verify_image(&b.flash, &b.slots[0][0], &primary, &caps));
    assert!(verify_image(&b.flash, &b.slots[0][1], &secondary, &caps));
    // The payloads are seeded with the base of the slot.
    assert_ne!(&primary.plain()[32..96], &secondary.plain()[32..96]);
}

#[test]
fn encrypted_image_with_a_fresh_key() {
    let mut b = board(&[Caps::EncKw, Caps::Aes256, Caps::OverwriteUpgrade], 8);
    let dev = Flash::new(vec![1024; 8], 8, 0xff);
    let build = |sealed: &Option<SealedKey>| {
        build_image(
            &dev,
            &b.slots[0][0],
            ImageSize::Given(64),
            &b.ram,
            &boring(),
            ImageManipulation::Unmodified,
            None,
            &b.cfg,
            &no_keys(),
            sealed,
        )
    };
    // The key is generated, but nothing wrapped it.
    assert_eq!(
        build(&None).err(),
        Some(InstallError::Manifest(bootsim::tlv::TlvError::MissingKey))
    );
    let sealed = Some(SealedKey { key: vec![3; 32], rsa_wrap: vec![], kw_wrap: vec![4; 40] });
    let built = build(&sealed).unwrap();
    assert_eq!(built.header.flags, 0x08);
    assert_eq!(built.header.img_size, 64);
    assert_eq!(built.payload.len(), 64);
    assert_eq!(built.tlv.len(), 4 + 36 + 44);
    let enc = built.enc_payload.unwrap();
    let mut stream =
        <aes::Aes256Ctr as cipher::NewCipher>::new_from_slices(&[3; 32], &[0; 16]).unwrap();
    let mut want = built.payload.clone();
    cipher::StreamCipher::apply_keystream(&mut stream, &mut want);
    assert_eq!(enc, want);
    // A key of the wrong size cannot encrypt.
    let short = Some(SealedKey { key: vec![3; 16], rsa_wrap: vec![], kw_wrap: vec![4; 40] });
    assert_eq!(build(&short).err(), Some(InstallError::Cipher));
    let none = Some(SealedKey { key: vec![3; 5], rsa_wrap: vec![], kw_wrap: vec![] });
    assert_eq!(
        build(&none).err(),
        Some(InstallError::Manifest(bootsim::tlv::TlvError::MissingKey))
    );
    let _ = &mut b;
}

#[test]
fn store_keeps_the_form_that_is_written_last() {
    let mut b = board(&[], 1);
    let slot = b.slots[0][0];
    let plain = vec![1u8; 10];
    let cipher = Some(vec![2u8; 10]);
    let data = store_image(&mut b.flash, 0, &slot, 9, &plain, &cipher, true).unwrap();
    assert_eq!(data.size(), 9);
    assert_eq!(read(&b.flash, 1024, 12), [1, 1, 1, 1, 1, 1, 1, 1, 1, 1, 0xff, 0xff]);
    assert_eq!(data.plain(), &plain);
    b.flash.erase(0, 1024, 2048).unwrap();
    store_image(&mut b.flash, 0, &slot, 9, &plain, &cipher, false).unwrap();
    assert_eq!(read(&b.flash, 1024, 10), [2; 10]);
    // A slot that holds something cannot be written to.
    let res = store_image(&mut b.flash, 0, &slot, 9, &plain, &None, true);
    assert_eq!(res.err(), Some(InstallError::Flash(bootsim::flash::FlashError::NotErased)));
    // A slot that is not made of whole sectors cannot be erased.
    let odd = SlotInfo { base_off: 4096, len: 100, ..slot };
    let res = store_image(&mut b.flash, 0, &odd, 9, &plain, &cipher, true);
    assert_eq!(res.err(), Some(InstallError::Flash(bootsim::flash::FlashError::OutOfBounds)));
}

#[test]
fn load_address_for_ram_loading() {
    let place = SlotPlace { offset: 5000, size: 100 };
    let ram = CapSet::new(0, 1).with(Caps::RamLoad);
    let flash = CapSet::new(0, 1);
    assert_eq!(load_addr(&flash, ImageManipulation::Unmodified, &place), 0);
    assert_eq!(load_addr(&flash, ImageManipulation::WrongOffset, &place), 0);
    assert_eq!(load_addr(&ram, ImageManipulation::Unmodified, &place), 5000);
    assert_eq!(load_addr(&ram, ImageManipulation::BadSignature, &place), 5000);
    assert_eq!(load_addr(&ram, ImageManipulation::WrongOffset, &place), u32::MAX);
    assert_eq!(load_addr(&ram, ImageManipulation::OverlapImages(true), &place), 1024);
    assert_eq!(load_addr(&ram, ImageManipulation::OverlapImages(false), &place), 4999);
    let zero = SlotPlace { offset: 0, size: 1 };
    assert_eq!(load_addr(&ram, ImageManipulation::OverlapImages(false), &zero), 0);
}

#[test]
fn manifest_follows_the_capabilities() {
    let kinds = |caps: &[Caps]| -> (u32, Vec<TlvKinds>) {
        let gen = make_tlv(&config(caps).caps);
        let all = [
            TlvKinds::SHA256,
            TlvKinds::SHA384,
            TlvKinds::RSA2048,
            TlvKinds::RSA3072,
            TlvKinds::ECDSASIG,
            TlvKinds::ED25519,
            TlvKinds::ENCRSA2048,
            TlvKinds::ENCKW,
            TlvKinds::ENCEC256,
            TlvKinds::ENCX25519,
            TlvKinds::SECCNT,
        ];
        (gen.get_flags(), all.iter().cloned().filter(|k| gen.has(*k)).collect())
    };
    assert_eq!(kinds(&[]), (0, vec![TlvKinds::SHA256]));
    assert_eq!(kinds(&[Caps::RSA2048]), (0, vec![TlvKinds::SHA256, TlvKinds::RSA2048]));
    assert_eq!(kinds(&[Caps::RSA3072]), (0, vec![TlvKinds::SHA256, TlvKinds::RSA3072]));
    assert_eq!(kinds(&[Caps::EcdsaP256]), (0, vec![TlvKinds::SHA256, TlvKinds::ECDSASIG]));
    assert_eq!(kinds(&[Caps::EcdsaP384]), (0, vec![TlvKinds::SHA384, TlvKinds::ECDSASIG]));
    assert_eq!(kinds(&[Caps::Ed25519]), (0, vec![TlvKinds::SHA256, TlvKinds::ED25519]));
    assert_eq!(
        kinds(&[Caps::HwRollbackProtection]),
        (0, vec![TlvKinds::SHA256, TlvKinds::SECCNT])
    );
    assert_eq!(
        kinds(&[Caps::EncKw, Caps::EcdsaP256]),
        (4, vec![TlvKinds::SHA256, TlvKinds::ECDSASIG, TlvKinds::ENCKW])
    );
    assert_eq!(
        kinds(&[Caps::EncRsa, Caps::RSA2048, Caps::Aes256]),
        (8, vec![TlvKinds::SHA256, TlvKinds::RSA2048, TlvKinds::ENCRSA2048])
    );
    assert_eq!(kinds(&[Caps::EncEc256]), (4, vec![TlvKinds::SHA256, TlvKinds::ENCEC256]));
    assert_eq!(
        kinds(&[Caps::EncX25519, Caps::Ed25519]),
        (4, vec![TlvKinds::SHA256, TlvKinds::ED25519, TlvKinds::ENCX25519])
    );
}

#[test]
fn sizes_to_test_with() {
    assert_eq!(maximal(100, &config(&[]).caps), ImageSize::Largest);
    assert_eq!(maximal(100, &config(&[Caps::SwapUsingScratch]).caps), ImageSize::Largest);
    assert_eq!(maximal(100, &config(&[Caps::SwapUsingMove]).caps), ImageSize::Given(100));
    assert_eq!(maximal(100, &config(&[Caps::OverwriteUpgrade]).caps), ImageSize::Given(100));
    assert_eq!(test_alignments(false), [1, 2, 4, 8]);
    assert_eq!(test_alignments(true), [32]);
}

#[test]
fn payload_is_seeded() {
    assert_eq!(splat(100, 7).len(), 100);
    assert_eq!(splat(100, 7), splat(100, 7));
    assert_ne!(splat(100, 7), splat(100, 8));
    assert_ne!(splat(100, 7)[..50], splat(50, 7)[..]);
    assert_eq!(splat(0, 7), []);
}

#[test]
fn composing_pads_to_the_alignment() {
    assert_eq!(compose(&vec![1, 2], &vec![3], &vec![4, 5], 4, 9), [1, 2, 3, 4, 5, 9, 9, 9]);
    assert_eq!(compose(&vec![1, 2], &vec![], &vec![4, 5], 4, 9), [1, 2, 4, 5]);
    assert_eq!(compose(&vec![], &vec![], &vec![], 4, 9), []);
    assert_eq!(compose(&vec![1], &vec![], &vec![], 1, 9), [1]);
}

#[test]
fn no_image_is_empty() {
    let data: ImageData = install_no_image();
    assert_eq!(data.size(), 0);
    assert_eq!(data.plain().len(), 0);
    let caps = CapSet::new(0, 1).with(Caps::EncKw);
    assert_eq!(data.find(0, &caps), Some(&vec![]));
    assert_eq!(data.find(1, &caps), None);
    assert_eq!(data.find(1, &CapSet::new(0, 1)), Some(&vec![]));
}

#[test]
fn partition_table_lists_the_areas_of_a_device() {
    let area = |id, dev, off, size| FlashArea { flash_id: id, device_id: dev, pad16: 0, off, size };
    let areas = vec![
        area(FlashId::Image0, 0, 0x100, 0x20),
        area(FlashId::Image1, 1, 0, 0x30),
        area(FlashId::ImageScratch, 0, 0x200, 0x40),
    ];
    let mut want = b"mcuboot\0".to_vec();
    want.extend_from_slice(&[2, 0, 0, 0]);
    want.extend_from_slice(&[1, 0, 0, 0, 0, 1, 0, 0, 0x20, 0, 0, 0, 0, 0, 0, 0]);
    want.extend_from_slice(&[3, 0, 0, 0, 0, 2, 0, 0, 0x40, 0, 0, 0, 0, 0, 0, 0]);
    assert_eq!(partition_table(&areas, 0), want);
    assert_eq!(partition_table(&areas, 2), b"mcuboot\0\0\0\0\0");
    assert!(!ptable_skipped(&areas, 0));
    assert!(ptable_skipped(&areas, 1));
    let boot = vec![area(FlashId::BootLoader, 0, 0, 0x100)];
    assert!(!ptable_skipped(&boot, 0));
}

#[test]
fn versions_and_dependencies() {
    assert_eq!(
        new_synthetic(1, 1, 0),
        ImageVersion { major: 21, minor: 0, revision: 1, build_num: 1 }
    );
    let deps = DepTest {
        depends: [DepType::Newer, DepType::OldCorrect],
        upgrades: [UpgradeInfo::Held, UpgradeInfo::Upgraded],
        downgrade: false,
    };
    let first = Depender::pair(2, 0, &deps).unwrap();
    let second = Depender::pair(2, 1, &deps).unwrap();
    assert_eq!(Depender::pair(1, 0, &deps), None);
    assert_eq!(first.other_id(), 1);
    assert_eq!(second.other_id(), 0);
    assert_eq!(first.my_version(0, 0), new_synthetic(0, 0, 0));
    assert_eq!(second.my_version(0, 1), new_synthetic(1, 1, 0));
    assert_eq!(first.my_deps(0, 0), []);
    assert_eq!(first.my_deps(0, 1), [new_synthetic(1, 1, 1)]);
    assert_eq!(second.my_deps(0, 1), [new_synthetic(0, 0, 0)]);
    let lone = Depender::boring(1, &rev_deps());
    assert_eq!(lone.other_id(), 0);
    assert_eq!(lone.my_deps(0, 1), []);
    // A downgrade swaps the versions of the slots.
    assert_eq!(lone.my_version(0, 0), new_synthetic(1, 1, 0));
    assert_eq!(lone.my_version(0, 1), new_synthetic(1, 0, 0));
    assert_eq!(no_deps().upgrades, [UpgradeInfo::Upgraded, UpgradeInfo::Upgraded]);
    assert!(rev_deps().downgrade);
}

#[test]
fn dependency_goes_into_the_header_and_the_manifest() {
    let cfg = config(&[Caps::OverwriteUpgrade]);
    let deps = DepTest {
        depends: [DepType::Correct, DepType::Nothing],
        upgrades: [UpgradeInfo::Upgraded, UpgradeInfo::Upgraded],
        downgrade: false,
    };
    let b = board(&[Caps::OverwriteUpgrade], 8);
    let dev = Flash::new(vec![1024; 8], 8, 0xff);
    let built = build_image(
        &dev,
        &b.slots[0][1],
        ImageSize::Given(16),
        &b.ram,
        &Depender::pair(2, 0, &deps).unwrap(),
        ImageManipulation::Unmodified,
        Some(5),
        &cfg,
        &no_keys(),
        &None,
    )
    .unwrap();
    assert_eq!(built.header.protect_tlv_size, 20);
    assert_eq!(built.tlv.len(), 60);
    assert_eq!(
        &built.tlv[..20],
        &[0x08, 0x69, 20, 0, 0x40, 0, 12, 0, 1, 0, 0, 0, 21, 0, 1, 0, 1, 0, 0, 0]
    );
    let mut covered = built.header.as_raw();
    covered.extend_from_slice(&built.payload);
    covered.extend_from_slice(&built.tlv[..20]);
    assert_eq!(
        &built.tlv[28..],
        ring::digest::digest(&ring::digest::SHA256, &covered).as_ref()
    );
}

#[test]
fn seed_block_holds_length_and_offset() {
    let block = bootsim::image::seed_block(0x0102, 0x0a0b_0c0d);
    assert_eq!(block.len(), 32);
    assert_eq!(
        &block[..16],
        &[0xea, 0x82, 0x57, 0x13, 0x28, 0x47, 0x18, 0x92, 2, 1, 0, 0, 0x0d, 0x0c, 0x0b, 0x0a]
    );
    assert_eq!(&block[16..], &[0u8; 16]);
}
