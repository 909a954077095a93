use bootsim::flash::{Flash, FlashError, Sector, RATE_ONE};

fn test_device(flash: &mut Flash) {
    let sectors: Vec<Sector> = flash.sector_iter().collect();

    flash.erase(0, sectors[0].size).unwrap();
    let flash_size = flash.device_size();
    flash.erase(0, flash_size).unwrap();
    assert!(matches!(
        flash.erase(0, sectors[0].size - 1),
        Err(FlashError::OutOfBounds)
    ));

    // Verify that write and erase do something.
    flash.write(0, &[0]).unwrap();
    let mut buf = vec![0u8; 4];
    flash.read(0, &mut buf).unwrap();
    assert_eq!(buf, [0, 0xff, 0xff, 0xff]);

    flash.erase(0, sectors[0].size).unwrap();
    flash.read(0, &mut buf).unwrap();
    assert_eq!(buf, [0xff; 4]);

    // Program the first and last byte of each sector, verify that has been done, and then
    // erase to verify the erase boundaries.
    for sector in &sectors {
        let byte = [(sector.num & 127) as u8];
        flash.write(sector.base, &byte).unwrap();
        flash.write(sector.base + sector.size - 1, &byte).unwrap();
    }

    // Verify the above
    let mut buf = Vec::new();
    for sector in &sectors {
        let byte = (sector.num & 127) as u8;
        buf.resize(sector.size, 0);
        flash.read(sector.base, &mut buf).unwrap();
        assert_eq!(buf.first(), Some(&byte));
        assert_eq!(buf.last(), Some(&byte));
        assert!(buf[1..buf.len() - 1].iter().all(|&x| x == 0xff));
    }
}

#[test]
fn test_flash() {
    // NXP-style, uniform sectors.
    let mut f1 = Flash::new(vec![4096usize; 256], 1, 0xff);
    test_device(&mut f1);

    // STM style, non-uniform sectors
    let mut f2 = Flash::new(
        vec![16 * 1024, 16 * 1024, 16 * 1024, 64 * 1024, 128 * 1024, 128 * 1024, 128 * 1024],
        1,
        0xff,
    );
    test_device(&mut f2);
}

#[test]
fn erase_of_erased_range_changes_nothing() {
    let mut f = Flash::new(vec![16, 32, 16], 4, 0x00);
    let mut before = vec![1u8; 64];
    f.read(0, &mut before).unwrap();
    assert_eq!(before, vec![0u8; 64]);
    assert_eq!(f.erase(16, 32), Ok(()));
    assert_eq!(f.erase(16, 32), Ok(()));
    let mut after = vec![1u8; 64];
    f.read(0, &mut after).unwrap();
    assert_eq!(after, before);
}

#[test]
fn erase_needs_sector_boundaries() {
    let mut f = Flash::new(vec![16, 32, 16], 1, 0xff);
    f.write(0, &[1, 2, 3]).unwrap();
    assert_eq!(f.erase(8, 8), Err(FlashError::OutOfBounds));
    assert_eq!(f.erase(0, 8), Err(FlashError::OutOfBounds));
    assert_eq!(f.erase(0, 65), Err(FlashError::OutOfBounds));
    assert_eq!(f.erase(1, usize::MAX), Err(FlashError::OutOfBounds));
    let mut buf = vec![0u8; 3];
    f.read(0, &mut buf).unwrap();
    assert_eq!(buf, [1, 2, 3]);
    assert_eq!(f.erase(0, 48), Ok(()));
    f.read(0, &mut buf).unwrap();
    assert_eq!(buf, [0xff; 3]);
    // An empty range on a boundary is a union of no sectors.
    assert_eq!(f.erase(64, 0), Ok(()));
}

#[test]
fn write_over_written_byte_is_refused() {
    let mut f = Flash::new(vec![16, 16], 2, 0xff);
    f.write(4, &[0x12, 0x34]).unwrap();
    assert_eq!(f.write(2, &[1, 2, 3, 4]), Err(FlashError::NotErased));
    let mut buf = vec![0u8; 8];
    f.read(0, &mut buf).unwrap();
    assert_eq!(buf, [0xff, 0xff, 0xff, 0xff, 0x12, 0x34, 0xff, 0xff]);
    f.set_verify_writes(false);
    assert_eq!(f.write(2, &[1, 2, 3, 4]), Ok(()));
    f.read(0, &mut buf).unwrap();
    assert_eq!(buf, [0xff, 0xff, 1, 2, 3, 4, 0xff, 0xff]);
}

#[test]
fn write_errors() {
    let mut f = Flash::new(vec![16, 16], 4, 0xff);
    assert!(!f.fits_write(30, 4));
    assert!(!f.fits_write(usize::MAX, 4));
    assert!(!f.fits_write(2, 4));
    assert!(!f.fits_write(4, 3));
    assert!(f.fits_write(28, 4) && f.fits_write(0, 32) && f.fits_write(32, 0));
    assert_eq!(f.try_write(30, &[0; 4]), Err(FlashError::OutOfBounds));
    assert_eq!(f.try_write(usize::MAX, &[0; 4]), Err(FlashError::OutOfBounds));
    assert_eq!(f.try_write(2, &[0; 4]), Err(FlashError::Misaligned));
    assert_eq!(f.try_write(4, &[0; 3]), Err(FlashError::Misaligned));
    let mut other = Flash::new(vec![16, 16], 4, 0xff);
    assert_eq!(other.try_write(28, &[7; 4]), Ok(()));
    assert_eq!(other.try_write(28, &[7; 4]), Err(FlashError::NotErased));
    assert_eq!(f.write(28, &[7; 4]), Ok(()));
    assert_eq!(f.write(28, &[7; 4]), Err(FlashError::NotErased));
}

#[test]
fn read_outside_device() {
    let f = Flash::new(vec![8], 1, 0xff);
    let mut buf = vec![5u8; 4];
    assert_eq!(f.read(6, &mut buf), Err(FlashError::OutOfBounds));
    assert_eq!(buf, [5; 4]);
    assert_eq!(f.read(4, &mut buf), Ok(()));
    assert_eq!(buf, [0xff; 4]);
}

#[test]
fn bad_region_faults_but_stores() {
    let mut f = Flash::new(vec![16, 16], 1, 0xff);
    assert_eq!(f.add_bad_region(8, 4, RATE_ONE + 1), Err(FlashError::InvalidRate));
    assert_eq!(f.add_bad_region(8, 4, RATE_ONE), Ok(()));
    // A write that touches the region always faults at the full rate, and is stored.
    assert_eq!(f.write(6, &[1, 2, 3]), Err(FlashError::BadRegion));
    let mut buf = vec![0u8; 3];
    f.read(6, &mut buf).unwrap();
    assert_eq!(buf, [1, 2, 3]);
    // A write beside the region does not fault.
    assert_eq!(f.write(12, &[9]), Ok(()));
    assert_eq!(f.write(0, &[9]), Ok(()));
    f.reset_bad_regions();
    assert_eq!(f.write(9, &[4]), Ok(()));
}

#[test]
fn sampled_fault_compares_with_rate() {
    let mut f = Flash::new(vec![16], 1, 0xff);
    f.add_bad_region(0, 16, 500_000).unwrap();
    assert_eq!(f.write_sampled(0, &[1], 499_999), Err(FlashError::BadRegion));
    assert_eq!(f.write_sampled(1, &[1], 500_000), Ok(()));
}

#[test]
fn get_sector_finds_offsets() {
    let f = Flash::new(vec![16, 32, 16], 1, 0xff);
    assert_eq!(f.get_sector(0), Some((0, 0)));
    assert_eq!(f.get_sector(15), Some((0, 15)));
    assert_eq!(f.get_sector(16), Some((1, 0)));
    assert_eq!(f.get_sector(63), Some((2, 15)));
    assert_eq!(f.get_sector(64), None);
    assert!(f.on_sector_boundary(48));
    assert!(f.on_sector_boundary(64));
    assert!(!f.on_sector_boundary(47));
}

#[test]
fn sector_walk() {
    let f = Flash::new(vec![16, 32], 1, 0xff);
    let mut it = f.sector_iter();
    assert_eq!(it.next(), Some(Sector { num: 0, base: 0, size: 16 }));
    assert_eq!(it.next(), Some(Sector { num: 1, base: 16, size: 32 }));
    assert_eq!(it.next(), None);
    assert_eq!(f.sectors().len(), 2);
    assert_eq!(f.device_size(), 48);
}
