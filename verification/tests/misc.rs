use bootsim::boot::{
    bootsim_get_ram_info, clear_flash, clear_ram_info, get_security_counter, map_err,
    reset_security_counters, set_flash, set_ram_info, set_security_counter,
    sim_get_nv_counter_for_image, sim_set_nv_counter_for_image, BootGoResult, BootRsp,
    BootsimRamInfo, FlashParamsStruct, NvCounterStorage, RamBlock, SimContext,
};
use bootsim::bytes::{copy_range, flipped, pad_to, push_all, push_u16, push_u32, same_bytes};
use bootsim::caps::{CapSet, Caps};
use bootsim::depends::{DepType, UpgradeInfo};
use bootsim::flash::{Flash, FlashError};
use bootsim::multiflash::MultiFlash;
use bootsim::status::{RunStatus, Scenario};
use bootsim::utils::align_up;

#[test]
fn align_up_rounds_to_the_next_multiple() {
    assert_eq!(align_up(0, 8), 0);
    assert_eq!(align_up(1, 8), 8);
    assert_eq!(align_up(8, 8), 8);
    assert_eq!(align_up(9, 8), 16);
    assert_eq!(align_up(3120, 4096), 4096);
    assert_eq!(align_up(5, 1), 5);
    assert_eq!(align_up(u32::MAX - 15, 16), u32::MAX - 15);
}

#[test]
fn capabilities_are_bits() {
    assert_eq!(Caps::RSA2048.mask(), 1);
    assert_eq!(Caps::DirectXip.mask(), 1 << 16);
    assert_eq!(Caps::EcdsaP384.mask(), 1 << 18);
    let set = CapSet::new((1 << 1) | (1 << 15), 2);
    assert!(Caps::EcdsaP256.present(&set));
    assert!(Caps::RamLoad.present(&set));
    assert!(!Caps::RSA2048.present(&set));
    assert!(Caps::has_ecdsa(&set));
    assert!(!Caps::has_ecdsa(&CapSet::new(1, 1)));
    assert_eq!(Caps::get_num_images(&set), 2);
    assert!(!Caps::modifies_flash(&set));
    assert!(!Caps::modifies_flash(&CapSet::new(1 << 16, 1)));
    assert!(Caps::modifies_flash(&CapSet::new(0xffff_ffff & !(3 << 15), 1)));
    assert_eq!(CapSet::new(4, 1).with(Caps::RSA2048).bits, 5);
}

#[test]
fn little_endian_bytes() {
    let mut buf = vec![9];
    push_u16(&mut buf, 0x1234);
    push_u32(&mut buf, 0xdeadbeef);
    push_all(&mut buf, &vec![1, 2]);
    assert_eq!(buf, [9, 0x34, 0x12, 0xef, 0xbe, 0xad, 0xde, 1, 2]);
    assert_eq!(copy_range(&buf, 1, 3), [0x34, 0x12]);
    assert_eq!(copy_range(&buf, 3, 3), []);
    assert!(same_bytes(&vec![1, 2], &vec![1, 2]));
    assert!(!same_bytes(&vec![1, 2], &vec![1, 3]));
    assert!(!same_bytes(&vec![1, 2], &vec![1]));
    assert_eq!(flipped(&vec![6, 7]), [7, 7]);
    assert_eq!(flipped(&vec![]), []);
    pad_to(&mut buf, 4, 0xee);
    assert_eq!(buf.len(), 12);
    assert_eq!(&buf[9..], &[0xee; 3]);
    pad_to(&mut buf, 4, 0xee);
    assert_eq!(buf.len(), 12);
}

#[test]
fn boot_results() {
    let resp = BootRsp { flash_dev_id: 2, image_off: 0x100 };
    let stopped = BootGoResult::from_raw(-0x13579, 3, resp);
    assert_eq!(stopped, BootGoResult::Stopped);
    assert!(stopped.interrupted());
    assert!(!stopped.success());
    assert!(!stopped.success_no_asserts());
    assert_eq!(stopped.asserts(), 0);
    assert_eq!(stopped.resp(), None);
    let good = BootGoResult::from_raw(0, 0, resp);
    assert!(!good.interrupted());
    assert!(good.success());
    assert!(good.success_no_asserts());
    assert_eq!(good.resp(), Some(resp));
    let asserted = BootGoResult::from_raw(0, 2, resp);
    assert!(asserted.success());
    assert!(!asserted.success_no_asserts());
    assert_eq!(asserted.asserts(), 2);
    let bad = BootGoResult::from_raw(-1, 0, resp);
    assert!(!bad.success());
    assert!(!bad.interrupted());
}

#[test]
fn security_counters_do_not_decrease() {
    let mut counters = NvCounterStorage::new(false);
    assert_eq!(counters.storage, [0]);
    assert_eq!(NvCounterStorage::new(true).storage, [0, 0]);
    assert_eq!(sim_set_nv_counter_for_image(&mut counters, 0, 30), 0);
    assert_eq!(sim_set_nv_counter_for_image(&mut counters, 0, 29), -2);
    assert_eq!(sim_set_nv_counter_for_image(&mut counters, 0, 30), 0);
    assert_eq!(sim_set_nv_counter_for_image(&mut counters, 1, 5), -1);
    assert_eq!(sim_get_nv_counter_for_image(&counters, 0), (0, Some(30)));
    assert_eq!(sim_get_nv_counter_for_image(&counters, 1), (-1, None));
    assert_eq!(get_security_counter(&counters, 0), 30);
    assert_eq!(get_security_counter(&counters, 3), 0);
    set_security_counter(&mut counters, 0, 10);
    assert_eq!(get_security_counter(&counters, 0), 30);
    set_security_counter(&mut counters, 0, 31);
    assert_eq!(get_security_counter(&counters, 0), 31);
    reset_security_counters(&mut counters);
    assert_eq!(counters.storage, [0]);
}

#[test]
fn context_of_a_boot() {
    let mut ctx = SimContext::new(true);
    assert_eq!(ctx.counters.storage, [0, 0]);
    assert!(set_flash(&mut ctx, 4, &Flash::new(vec![16], 8, 0x55)));
    assert!(set_flash(&mut ctx, 5, &Flash::new(vec![16], 2, 0xff)));
    assert_eq!(ctx.flash_ids, [4, 5]);
    assert_eq!(ctx.flash_params[0], FlashParamsStruct { align: 8, erased_val: 0x55 });
    clear_flash(&mut ctx, 4);
    assert_eq!(ctx.flash_ids, [5]);
    assert_eq!(ctx.flash_params, [FlashParamsStruct { align: 2, erased_val: 0xff }]);
    clear_flash(&mut ctx, 4);
    assert_eq!(ctx.flash_ids, [5]);

    assert_eq!(bootsim_get_ram_info(&ctx), None);
    let info = BootsimRamInfo { start: 1024, size: 100, base: 0x7000 };
    set_ram_info(&mut ctx, info);
    assert_eq!(bootsim_get_ram_info(&ctx), Some(info));
    clear_ram_info(&mut ctx);
    assert_eq!(bootsim_get_ram_info(&ctx), None);
    assert_eq!(ctx.ram_info.start, 1024);
    assert_eq!(map_err(&Ok(())), 0);
    assert_eq!(map_err(&Err(FlashError::NotErased)), -1);
}

#[test]
fn block_of_ram() {
    let block = RamBlock::new(8, 1024);
    assert_eq!(block.borrow(), &vec![0u8; 8]);
    let block = RamBlock::from_bytes(vec![1, 2, 3, 4, 5], 1024);
    assert_eq!(block.borrow_part(1, 3), [2, 3, 4]);
    assert_eq!(block.borrow_part(5, 0), []);
    assert_eq!(
        block.info(0x9000),
        Some(BootsimRamInfo { start: 1024, size: 5, base: 0x9000 - 1024 })
    );
    assert_eq!(block.info(100), None);
    let mut ctx = SimContext::new(false);
    let seen = block.invoke(&mut ctx, 0x9000, |info| (info, 42));
    // While the action runs the context holds the RAM info of the block.
    assert_eq!(seen, (BootsimRamInfo { start: 1024, size: 5, base: 0x9000 - 1024 }, 42));
    // The block is taken out of the context afterwards.
    assert_eq!(ctx.ram_info.base, 0);
    assert_eq!(ctx.ram_info.size, 5);
}

#[test]
fn tally_of_a_run() {
    let mut status = RunStatus::new();
    assert_eq!(status.failures(), 0);
    assert_eq!(status.exit_code(), 0);
    status.run_single(&vec![false; 9]);
    status.run_single(&vec![]);
    assert_eq!((status.passes(), status.failures()), (2, 0));
    assert_eq!(status.exit_code(), 0);
    status.run_single(&vec![false, false, true, false]);
    status.run_single(&vec![true]);
    assert_eq!((status.passes(), status.failures()), (2, 2));
    assert_eq!(status.exit_code(), 1);
    let plan = RunStatus::plan();
    assert_eq!(plan.len(), 9);
    assert_eq!(plan[0], Scenario::SignfailUpgrade);
    assert_eq!(plan[8], Scenario::WithStatusFailsWithReset);
}

#[test]
fn board_of_devices() {
    let mut flash = MultiFlash::new();
    flash.insert(7, Flash::new(vec![64], 1, 0xff));
    flash.insert(2, Flash::new(vec![32], 1, 0x00));
    assert_eq!(flash.get(0).device_size(), 64);
    flash.insert(7, Flash::new(vec![16], 1, 0xff));
    // A device that is registered again takes the place of the other.
    assert_eq!(flash.len(), 2);
    assert_eq!(flash.get(0).device_size(), 16);
    assert_eq!(flash.find(7), Some(0));
    assert_eq!(flash.find(2), Some(1));
    assert_eq!(flash.find(3), None);
    assert_eq!(flash.id_at(1), 2);
    assert_eq!(flash.write(1, 4, &[9, 9]), Ok(()));
    assert_eq!(flash.write(1, 4, &[9, 9]), Err(FlashError::NotErased));
    let copy = flash.duplicate();
    assert_eq!(flash.erase(1, 0, 32), Ok(()));
    let mut buf = vec![1u8; 2];
    flash.get(1).read(4, &mut buf).unwrap();
    assert_eq!(buf, [0, 0]);
    copy.get(1).read(4, &mut buf).unwrap();
    assert_eq!(buf, [9, 9]);
    assert_eq!(copy.get(0).device_size(), 16);
    // Faults are set up for one device.
    assert_eq!(flash.add_bad_region(1, 0, 8, 1_000_000), Ok(()));
    assert_eq!(flash.write(1, 0, &[1]), Err(FlashError::BadRegion));
    assert_eq!(flash.write(0, 0, &[1]), Ok(()));
    flash.reset_faults(1, false);
    assert_eq!(flash.write(1, 0, &[2]), Ok(()));
}

#[test]
fn dependencies_are_tested_in_eleven_variants() {
    let tests = bootsim::depends::test_deps();
    assert_eq!(tests.len(), 11);
    use_all(&tests);
    assert_eq!(tests[0], bootsim::depends::no_deps());
    assert_eq!(tests[3].depends, [DepType::Newer, DepType::Correct]);
    assert_eq!(tests[3].upgrades, [UpgradeInfo::Held, UpgradeInfo::Held]);
    assert_eq!(tests[6].depends, [DepType::OldCorrect, DepType::NoUpgrade]);
    assert_eq!(tests[6].upgrades, [UpgradeInfo::Upgraded, UpgradeInfo::Held]);
    assert_eq!(tests[10].depends, [DepType::NoUpgrade, DepType::Newer]);
    assert_eq!(tests[10].upgrades, [UpgradeInfo::Held, UpgradeInfo::Held]);
    let made = bootsim::depends::new_test_case(
        DepType::NoUpgrade,
        DepType::OldCorrect,
        UpgradeInfo::Held,
        UpgradeInfo::Upgraded,
    );
    assert_eq!(tests[9], made);
}

/// An image without an upgrade is held, and both are held where one depends
/// on a version that is never there.
fn use_all(tests: &[bootsim::depends::DepTest]) {
    for test in tests {
        assert!(!test.downgrade);
        let newer = test.depends.contains(&DepType::Newer);
        for i in 0..2 {
            let held = newer || test.depends[i] == DepType::NoUpgrade;
            assert_eq!(test.upgrades[i] == UpgradeInfo::Held, held);
        }
    }
}

#[test]
fn a_new_context_has_a_counter_for_each_image() {
    let one = SimContext::new(false);
    assert_eq!(one.counters.storage, vec![0]);
    assert!(one.flash_ids.is_empty() && one.flash_params.is_empty());
    assert_eq!(one.ram_info, BootsimRamInfo { start: 0, size: 0, base: 0 });
    let two = SimContext::new(true);
    assert_eq!(two.counters.storage, vec![0, 0]);
}
