use bootsim::area::{AreaDesc, AreaError, FlashArea, FlashId};
use bootsim::device::{make_device, total_size, DeviceName};
use bootsim::flash::Flash;

fn area(id: FlashId, off: u32, size: u32) -> FlashArea {
    FlashArea { flash_id: id, device_id: 0, pad16: 0, off, size }
}

fn desc() -> AreaDesc {
    let flash = Flash::new(vec![16, 16, 32, 64], 1, 0xff);
    let mut desc = AreaDesc::new();
    desc.add_flash_sectors(0, &flash);
    desc
}

#[test]
fn slot_is_described_sector_by_sector() {
    let mut desc = desc();
    assert_eq!(desc.check_image(16, 48, FlashId::Image0, 0), Ok(()));
    desc.add_image(16, 48, FlashId::Image0, 0);
    assert_eq!(desc.find(FlashId::Image0), Some((16, 48, 0)));
    assert_eq!(desc.find(FlashId::Image1), None);
    assert_eq!(
        desc.iter_areas(),
        [area(FlashId::Image0, 16, 16), area(FlashId::Image0, 32, 32)]
    );
    // The place of the bootloader was passed over, and is empty.
    let table = desc.get_c().unwrap();
    assert_eq!(table.num_slots, 2);
    assert_eq!(table.slots.len(), 16);
    assert_eq!(table.slots[0].num_areas, 0);
    assert_eq!(table.slots[0].id, FlashId::BootLoader);
    assert_eq!(table.slots[1].num_areas, 2);
    assert_eq!(table.slots[1].id, FlashId::Image0);
    assert_eq!(table.slots[1].whole, area(FlashId::Image0, 16, 48));
    assert_eq!(table.slots[1].areas[1], area(FlashId::Image0, 32, 32));
    assert_eq!(table.slots[2].num_areas, 0);
}

#[test]
fn slot_has_to_be_made_of_whole_sectors() {
    let mut desc = desc();
    assert_eq!(desc.check_image(8, 24, FlashId::Image0, 0), Err(AreaError::NotWholeSectors));
    assert_eq!(desc.check_image(16, 24, FlashId::Image0, 0), Err(AreaError::NotWholeSectors));
    assert_eq!(desc.check_image(64, 128, FlashId::Image0, 0), Err(AreaError::NotWholeSectors));
    assert_eq!(desc.check_image(128, 16, FlashId::Image0, 0), Err(AreaError::NotWholeSectors));
    assert_eq!(desc.check_image(0, 16, FlashId::Image0, 1), Err(AreaError::UnknownDevice));
    assert_eq!(desc.check_image(usize::MAX, 16, FlashId::Image0, 0), Err(AreaError::TooLarge));
    // Nothing was added by the attempts.
    assert_eq!(desc.iter_areas(), []);
    assert_eq!(desc.check_image(0, 128, FlashId::Image0, 0), Ok(()));
    desc.add_image(0, 128, FlashId::Image0, 0);
    assert_eq!(desc.iter_areas().len(), 4);
    // A slot of no bytes is made of no sectors.
    assert_eq!(desc.check_image(0, 0, FlashId::Image1, 0), Ok(()));
    desc.add_image(0, 0, FlashId::Image1, 0);
    assert_eq!(desc.find(FlashId::Image1), Some((0, 0, 0)));
}

#[test]
fn slots_are_added_in_order() {
    let mut desc = desc();
    assert_eq!(desc.check_image(0, 16, FlashId::Image1, 0), Ok(()));
    desc.add_image(0, 16, FlashId::Image1, 0);
    assert_eq!(desc.check_image(16, 16, FlashId::Image0, 0), Err(AreaError::OutOfOrder));
    assert_eq!(desc.check_image(16, 16, FlashId::Image1, 0), Err(AreaError::OutOfOrder));
    assert_eq!(desc.check_image(16, 16, FlashId::ImageScratch, 0), Ok(()));
    desc.add_image(16, 16, FlashId::ImageScratch, 0);
    assert_eq!(desc.get_c().unwrap().num_slots, 4);
}

#[test]
fn simple_slot_is_one_area() {
    let mut desc = desc();
    assert_eq!(desc.add_simple_image(8, 100, FlashId::Image0, 0), Ok(()));
    assert_eq!(desc.iter_areas(), [area(FlashId::Image0, 8, 100)]);
    assert_eq!(desc.find(FlashId::Image0), Some((8, 100, 0)));
    // It stands at the end of the table, whatever its purpose is.
    assert_eq!(desc.get_c().unwrap().num_slots, 1);
    assert_eq!(
        desc.add_simple_image(usize::MAX, 1, FlashId::Image1, 0),
        Err(AreaError::TooLarge)
    );
}

#[test]
fn last_registration_of_a_device_counts() {
    let mut desc = desc();
    desc.add_flash_sectors(0, &Flash::new(vec![128], 1, 0xff));
    assert_eq!(desc.check_image(0, 16, FlashId::Image0, 0), Err(AreaError::NotWholeSectors));
    assert_eq!(desc.check_image(0, 128, FlashId::Image0, 0), Ok(()));
    desc.add_image(0, 128, FlashId::Image0, 0);
}

#[test]
fn boards_have_their_slots() {
    let (flash, desc, unsupported) = make_device(DeviceName::Stm32f4, 4, 0);
    assert_eq!(flash.len(), 1);
    assert_eq!(flash.get(0).device_size(), 0x80000);
    assert_eq!(flash.get(0).align(), 4);
    assert_eq!(flash.get(0).erased_val(), 0);
    assert_eq!(unsupported, [bootsim::caps::Caps::SwapUsingMove]);
    assert_eq!(desc.find(FlashId::Image0), Some((0x20000, 0x20000, 0)));
    assert_eq!(desc.find(FlashId::Image1), Some((0x40000, 0x20000, 0)));
    assert_eq!(desc.find(FlashId::ImageScratch), Some((0x60000, 0x20000, 0)));
    // The primary slot is made of two sectors of 32K and one of 64K.
    let primary: Vec<u32> = desc
        .iter_areas()
        .iter()
        .filter(|a| a.flash_id == FlashId::Image0)
        .map(|a| a.size)
        .collect();
    assert_eq!(primary, [0x8000, 0x8000, 0x10000]);

    let (flash, desc, _) = make_device(DeviceName::Nrf52840SpiFlash, 1, 0xff);
    assert_eq!(flash.len(), 2);
    assert_eq!(flash.get(1).device_size(), 0x80000);
    assert_eq!(desc.find(FlashId::Image1), Some((0, 0x68000, 1)));
    assert_eq!(desc.find(FlashId::ImageScratch), Some((0x68000, 0x18000, 1)));

    let (_, desc, _) = make_device(DeviceName::K64fBig, 8, 0xff);
    assert_eq!(desc.iter_areas().len(), 3);
    let (_, desc, _) = make_device(DeviceName::K64fMulti, 8, 0xff);
    assert_eq!(desc.find(FlashId::Image3), Some((0xa0000, 0x20000, 0)));
    assert_eq!(DeviceName::K64fBig.name(), "k64fbig");
    assert_eq!(DeviceName::Nrf52840SpiFlash.name(), "Nrf52840SpiFlash");
}

#[test]
fn sector_sizes_are_added_up() {
    assert_eq!(total_size(&vec![4096; 128]), Some(0x80000));
    assert_eq!(total_size(&vec![]), Some(0));
    assert_eq!(total_size(&vec![usize::MAX, 1]), None);
}
