use bootsim::caps::{CapSet, Caps};
use bootsim::flash::{Flash, FlashError};
use bootsim::multiflash::MultiFlash;
use bootsim::slots::{
    boot_magic, mark_permanent_upgrade, mark_upgrade, verify_trailer, BootConfig, MarkError,
    RamData, SlotInfo, SlotPlace,
};

fn config(caps: u32, max_align: usize) -> BootConfig {
    BootConfig {
        caps: CapSet::new(caps, 1),
        magic_sz: 16,
        max_align,
        trailer_sz: 100,
        status_sz: 50,
    }
}

fn board(align: usize, erased: u8) -> MultiFlash {
    let mut flash = MultiFlash::new();
    flash.insert(3, Flash::new(vec![256, 256], align, erased));
    flash
}

fn byte(flash: &MultiFlash, off: usize) -> u8 {
    let mut buf = vec![0u8; 1];
    flash.get(0).read(off, &mut buf).unwrap();
    buf[0]
}

#[test]
fn trailer_starts_before_magic_and_four_units() {
    let cfg = config(0, 8);
    assert_eq!(cfg.offset_from_end(), 48);
    let slot = SlotInfo::new(256, 256, 3, 1, &cfg).unwrap();
    assert_eq!(
        slot,
        SlotInfo { base_off: 256, trailer_off: 512 - 48, len: 256, index: 1, dev_id: 3 }
    );
    assert_eq!(SlotInfo::new(0, 47, 0, 0, &cfg), None);
    assert!(SlotInfo::new(0, 48, 0, 0, &cfg).is_some());
    assert_eq!(SlotInfo::new(usize::MAX, 48, 0, 0, &cfg), None);
}

#[test]
fn marks_are_found_in_the_trailer() {
    for erased in [0xffu8, 0x00] {
        let cfg = config(0, 8);
        let mut flash = board(8, erased);
        let slot = SlotInfo::new(0, 256, 3, 0, &cfg).unwrap();
        // A fresh slot has nothing set.
        assert!(verify_trailer(&flash, &slot, &cfg, Some(3), Some(3), Some(3)));
        assert!(!verify_trailer(&flash, &slot, &cfg, Some(1), None, None));
        assert!(!verify_trailer(&flash, &slot, &cfg, None, Some(1), None));
        assert!(verify_trailer(&flash, &slot, &cfg, None, None, None));
        // Values other than 1 and 3 expect nothing.
        assert!(verify_trailer(&flash, &slot, &cfg, Some(2), Some(0), Some(7)));

        assert_eq!(mark_upgrade(&mut flash, &slot, &cfg), Ok(()));
        let mut magic = vec![0u8; 16];
        flash.get(0).read(240, &mut magic).unwrap();
        assert_eq!(magic, boot_magic(8));
        assert_eq!(magic[0], 0x77);
        assert!(verify_trailer(&flash, &slot, &cfg, Some(1), Some(3), Some(3)));
        assert!(!verify_trailer(&flash, &slot, &cfg, Some(3), None, None));

        assert_eq!(mark_permanent_upgrade(&mut flash, &slot, &cfg), Ok(()));
        assert_eq!(byte(&flash, 256 - 48 + 24), 1);
        assert_eq!(byte(&flash, 256 - 48 + 25), erased);
        assert!(verify_trailer(&flash, &slot, &cfg, Some(1), Some(1), Some(3)));
        assert!(!verify_trailer(&flash, &slot, &cfg, Some(1), Some(3), None));
        assert!(!verify_trailer(&flash, &slot, &cfg, None, None, Some(1)));
        // The other slot was left alone.
        let other = SlotInfo::new(256, 256, 3, 1, &cfg).unwrap();
        assert!(verify_trailer(&flash, &other, &cfg, Some(3), Some(3), Some(3)));
    }
}

#[test]
fn marking_twice_is_refused_by_the_device() {
    let cfg = config(0, 8);
    let mut flash = board(8, 0xff);
    let slot = SlotInfo::new(0, 256, 3, 0, &cfg).unwrap();
    assert_eq!(mark_upgrade(&mut flash, &slot, &cfg), Ok(()));
    assert_eq!(
        mark_upgrade(&mut flash, &slot, &cfg),
        Err(MarkError::Flash(FlashError::NotErased))
    );
    let nowhere = SlotInfo { dev_id: 9, ..slot };
    assert_eq!(mark_upgrade(&mut flash, &nowhere, &cfg), Err(MarkError::NoDevice));
    assert_eq!(mark_permanent_upgrade(&mut flash, &nowhere, &cfg), Err(MarkError::NoDevice));
    assert!(!verify_trailer(&flash, &nowhere, &cfg, None, None, None));
}

#[test]
fn large_alignment_writes_a_block_that_ends_with_the_magic() {
    let cfg = config(0, 32);
    let mut flash = board(32, 0xff);
    let slot = SlotInfo::new(0, 256, 3, 0, &cfg).unwrap();
    assert_eq!(slot.trailer_off, 256 - 16 - 128);
    // The magic would go to 240, which is no multiple of 32.
    assert_eq!(mark_upgrade(&mut flash, &slot, &cfg), Ok(()));
    let mut block = vec![0u8; 32];
    flash.get(0).read(224, &mut block).unwrap();
    assert_eq!(&block[..16], &[0xff; 16]);
    assert_eq!(&block[16..], &boot_magic(32)[..]);
    assert_eq!(block[16], 0x20);
    assert!(verify_trailer(&flash, &slot, &cfg, Some(1), None, None));
    // With a field for the magic that is larger than the magic, the block
    // cannot end with it.
    let wide = BootConfig { magic_sz: 40, ..cfg };
    let mut flash = board(32, 0xff);
    let slot = SlotInfo::new(0, 256, 3, 0, &wide).unwrap();
    assert_eq!(mark_upgrade(&mut flash, &slot, &wide), Err(MarkError::Layout));
}

#[test]
fn overwriting_bootloader_keeps_no_trailer() {
    let cfg = config(Caps::OverwriteUpgrade.mask(), 8);
    let mut flash = board(8, 0xff);
    let slot = SlotInfo::new(0, 256, 3, 0, &cfg).unwrap();
    assert!(verify_trailer(&flash, &slot, &cfg, Some(1), Some(1), Some(1)));
    assert_eq!(mark_permanent_upgrade(&mut flash, &slot, &cfg), Ok(()));
    assert_eq!(byte(&flash, 256 - 48 + 24), 0xff);
}

#[test]
fn images_follow_one_another_in_ram() {
    let slot = |base, len, index| SlotInfo { base_off: base, trailer_off: 0, len, index, dev_id: 0 };
    let slots = vec![
        [slot(0x1000, 0x300, 0), slot(0x2000, 0x200, 1)],
        [slot(0x3000, 0x500, 0), slot(0x4000, 0x500, 1)],
    ];
    let ram = RamData::new(&slots).unwrap();
    assert_eq!(ram.total(), 1024 + 0x300 + 0x500);
    assert_eq!(ram.lookup(&slots[0][0]), Some(SlotPlace { offset: 1024, size: 0x300 }));
    assert_eq!(ram.lookup(&slots[0][1]), Some(SlotPlace { offset: 1024, size: 0x200 }));
    assert_eq!(ram.lookup(&slots[1][0]), Some(SlotPlace { offset: 1024 + 0x300, size: 0x500 }));
    assert_eq!(ram.lookup(&slots[1][1]), Some(SlotPlace { offset: 1024 + 0x300, size: 0x500 }));
    assert_eq!(ram.lookup(&slot(0x5000, 1, 0)), None);
    assert_eq!(ram.lookup(&SlotInfo { dev_id: 1, ..slots[0][0] }), None);
    // Slots that do not fit 32 bits have no home.
    let huge = vec![[slot(0, 0xffff_fc00, 0), slot(0, 0, 1)]];
    assert!(RamData::new(&huge).is_none());
    let fits = vec![[slot(0, 0xffff_fbff, 0), slot(0, 0, 1)]];
    assert_eq!(RamData::new(&fits).unwrap().total(), u32::MAX);
    assert_eq!(RamData::new(&vec![]).unwrap().total(), 1024);
}
