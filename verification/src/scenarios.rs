//! The scenarios that the bootloader is put through.
//!
//! Each scenario is a script for `Trial`.  Which steps a script holds depends
//! on what the bootloader can do: a scenario that means nothing for a
//! bootloader has an empty script, and so is passed.

use crate::caps::{CapSet, Caps};
use crate::depends::DepTest;
use crate::flash::RATE_ONE;
use crate::oracle::{BootRequest, Images, Judge, Trial, TrialState, Step, no_boot};
use crate::slots::{BOOT_FLAG_SET, BOOT_FLAG_UNSET, BOOT_MAGIC_GOOD, BOOT_MAGIC_UNSET};
use vstd::prelude::*;

verus! {

/// The rate at which every second write faults.
pub const HALF_RATE: u32 = 500_000;

/// Half of a number, rounded towards zero.
pub open spec fn spec_half(n: i32) -> i32 {
    if n >= 0 {
        (n / 2) as i32
    } else {
        (-((-n) / 2)) as i32
    }
}

/// Half of a number, rounded towards zero.
#[verifier::when_used_as_spec(spec_half)]
pub fn half(n: i32) -> (res: i32)
    ensures
        res == spec_half(n),
{
    n / 2
}

/// Where a scenario stands before its first step.  `total` is the number of
/// flash operations of an upgrade, for the boots that are interrupted at
/// random.
pub open spec fn start(total: i32) -> TrialState {
    TrialState {
        pc: 0,
        fails: 0,
        aborted: false,
        pending: false,
        count: 0,
        first_interrupted: false,
        remaining: total,
        request: no_boot(),
    }
}

/// The steps of the scenario that `run_basic_upgrade` starts.
pub open spec fn basic_upgrade_script(caps: CapSet, permanent: bool) -> Seq<Step> {
    (if permanent {
        seq![
            Step::MarkPermanent(1),
        ]
    } else {
        Seq::<Step>::empty()
    }) + seq![
        Step::TryUpgrade(None),
        Step::ResumeUpgrade,
        Step::ImagesAre(0, 1, true),
    ]
}

/// The steps of the scenario that `run_bootstrap` starts.
pub open spec fn bootstrap_script(caps: CapSet) -> Seq<Step> {
    (if caps.has(Caps::Bootstrap) {
        seq![
            Step::Boot(BootRequest { counter: None, image_index: None, catch_asserts: false, with_ram: false }, Judge::Success),
            Step::ImagesAre(0, 1, true),
            Step::TrailersAre(0, Some(BOOT_MAGIC_GOOD), Some(BOOT_FLAG_SET), Some(BOOT_FLAG_SET), true),
        ]
    } else {
        Seq::<Step>::empty()
    })
}

/// The steps of the scenario that `run_oversized_bootstrap` starts.
pub open spec fn oversized_bootstrap_script(caps: CapSet) -> Seq<Step> {
    (if caps.has(Caps::Bootstrap) {
        seq![
            Step::Boot(BootRequest { counter: None, image_index: None, catch_asserts: false, with_ram: false }, Judge::NotInterrupted),
            Step::ImagesAre(0, 1, false),
            Step::TrailersAre(0, Some(BOOT_MAGIC_GOOD), Some(BOOT_FLAG_SET), Some(BOOT_FLAG_SET), false),
        ]
    } else {
        Seq::<Step>::empty()
    })
}

/// The steps of the scenario that `run_check_deps` starts.
pub open spec fn check_deps_script(caps: CapSet, deps: DepTest) -> Seq<Step> {
    (if caps.modifies_flash() {
        seq![
            Step::MarkPermanent(1),
            Step::TryUpgrade(None),
            Step::ResumeUpgrade,
            Step::DepImages(deps),
        ]
    } else {
        Seq::<Step>::empty()
    })
}

/// The steps of the scenario that `run_basic_revert` starts.
pub open spec fn basic_revert_script(caps: CapSet, count: usize) -> Seq<Step> {
    (if !caps.has(Caps::OverwriteUpgrade) && caps.modifies_flash() && caps.swaps() {
        Seq::new(count as nat, |i: int| Step::Boot(BootRequest { counter: None, image_index: None, catch_asserts: false, with_ram: false }, Judge::MustSucceedNoAsserts)) + seq![
            Step::ImagesAre(0, 0, true),
        ]
    } else {
        Seq::<Step>::empty()
    })
}

/// The steps of the scenario that `run_perm_with_fails` starts.
pub open spec fn perm_with_fails_script(caps: CapSet, stop: i32) -> Seq<Step> {
    (if caps.modifies_flash() {
        seq![
            Step::MarkPermanent(1),
            Step::TryUpgrade(Some(stop)),
            Step::ResumeUpgrade,
            Step::ImagesAre(0, 1, true),
            Step::TrailersAre(0, Some(BOOT_MAGIC_GOOD), Some(BOOT_FLAG_SET), Some(BOOT_FLAG_SET), true),
            Step::TrailersAre(1, Some(BOOT_MAGIC_UNSET), Some(BOOT_FLAG_UNSET), Some(BOOT_FLAG_UNSET), true),
        ] + (if caps.swaps() {
            seq![
                Step::ImagesAre(1, 0, true),
            ]
        } else {
            Seq::<Step>::empty()
        })
    } else {
        Seq::<Step>::empty()
    })
}

/// The steps of the scenario that `run_perm_with_random_fails` starts.
pub open spec fn perm_with_random_fails_script(caps: CapSet, total_fails: usize, total_flash_ops: i32) -> Seq<Step> {
    (if caps.modifies_flash() {
        seq![
            Step::MarkPermanent(1),
        ] + Seq::new(total_fails as nat, |i: int| Step::RandomReset) + seq![
            Step::Boot(BootRequest { counter: None, image_index: None, catch_asserts: false, with_ram: false }, Judge::MustSucceed),
            Step::ImagesAre(0, 1, true),
        ] + (if caps.swaps() {
            seq![
                Step::ImagesAre(1, 0, true),
            ]
        } else {
            Seq::<Step>::empty()
        }) + seq![
            Step::TrailersAre(0, Some(BOOT_MAGIC_GOOD), Some(BOOT_FLAG_SET), Some(BOOT_FLAG_SET), true),
            Step::TrailersAre(1, Some(BOOT_MAGIC_UNSET), Some(BOOT_FLAG_UNSET), Some(BOOT_FLAG_UNSET), true),
        ]
    } else {
        Seq::<Step>::empty()
    })
}

/// The steps of the scenario that `run_revert_with_fails` starts.
pub open spec fn revert_with_fails_script(caps: CapSet, stop: i32) -> Seq<Step> {
    (if !caps.has(Caps::OverwriteUpgrade) && caps.modifies_flash() && caps.swaps() {
        seq![
            Step::Boot(BootRequest { counter: Some(stop), image_index: None, catch_asserts: false, with_ram: false }, Judge::Interrupted),
            Step::SomeTrailerIs(0, None, None, Some(BOOT_FLAG_UNSET)),
            Step::Boot(BootRequest { counter: None, image_index: None, catch_asserts: false, with_ram: false }, Judge::Success),
            Step::ImagesAre(0, 1, true),
            Step::ImagesAre(1, 0, true),
            Step::TrailersAre(0, Some(BOOT_MAGIC_GOOD), Some(BOOT_FLAG_UNSET), Some(BOOT_FLAG_SET), true),
            Step::TrailersAre(1, Some(BOOT_MAGIC_UNSET), Some(BOOT_FLAG_UNSET), Some(BOOT_FLAG_UNSET), true),
            Step::Boot(BootRequest { counter: Some(stop), image_index: None, catch_asserts: false, with_ram: false }, Judge::Interrupted),
            Step::Boot(BootRequest { counter: None, image_index: None, catch_asserts: false, with_ram: false }, Judge::Success),
            Step::ImagesAre(0, 0, true),
            Step::ImagesAre(1, 1, true),
            Step::TrailersAre(0, Some(BOOT_MAGIC_GOOD), Some(BOOT_FLAG_SET), Some(BOOT_FLAG_SET), true),
            Step::TrailersAre(1, Some(BOOT_MAGIC_UNSET), Some(BOOT_FLAG_UNSET), Some(BOOT_FLAG_UNSET), true),
            Step::Boot(BootRequest { counter: None, image_index: None, catch_asserts: false, with_ram: false }, Judge::Success),
            Step::ImagesAre(0, 0, true),
            Step::ImagesAre(1, 1, true),
        ]
    } else {
        Seq::<Step>::empty()
    })
}

/// The steps of the scenario that `run_norevert` starts.
pub open spec fn norevert_script(caps: CapSet) -> Seq<Step> {
    (if !caps.has(Caps::OverwriteUpgrade) && caps.modifies_flash() {
        seq![
            Step::Boot(BootRequest { counter: None, image_index: None, catch_asserts: false, with_ram: false }, Judge::Success),
            Step::ImagesAre(0, 1, true),
            Step::TrailersAre(0, Some(BOOT_MAGIC_GOOD), Some(BOOT_FLAG_UNSET), Some(BOOT_FLAG_SET), true),
            Step::TrailersAre(1, Some(BOOT_MAGIC_UNSET), Some(BOOT_FLAG_UNSET), Some(BOOT_FLAG_UNSET), true),
            Step::MarkPermanent(0),
            Step::TrailersAre(0, Some(BOOT_MAGIC_GOOD), Some(BOOT_FLAG_SET), Some(BOOT_FLAG_SET), true),
            Step::Boot(BootRequest { counter: None, image_index: None, catch_asserts: false, with_ram: false }, Judge::Success),
            Step::TrailersAre(0, Some(BOOT_MAGIC_GOOD), Some(BOOT_FLAG_SET), Some(BOOT_FLAG_SET), true),
            Step::ImagesAre(0, 1, true),
        ]
    } else {
        Seq::<Step>::empty()
    })
}

/// The steps of the scenario that `run_oversizefail_upgrade` starts.
pub open spec fn oversizefail_upgrade_script(caps: CapSet) -> Seq<Step> {
    (if caps.modifies_flash() {
        seq![
            Step::MarkUpgrades(0),
            Step::MarkPermanent(0),
            Step::MarkUpgrades(1),
            Step::TrailersAre(0, Some(BOOT_MAGIC_GOOD), Some(BOOT_FLAG_SET), Some(BOOT_FLAG_UNSET), true),
            Step::Boot(BootRequest { counter: None, image_index: None, catch_asserts: false, with_ram: false }, Judge::Success),
            Step::ImagesAre(0, 0, true),
            Step::TrailersAre(0, Some(BOOT_MAGIC_GOOD), Some(BOOT_FLAG_SET), Some(BOOT_FLAG_UNSET), true),
        ]
    } else {
        Seq::<Step>::empty()
    })
}

/// The steps of the scenario that `run_nodowngrade` starts.
pub open spec fn nodowngrade_script(caps: CapSet) -> Seq<Step> {
    (if caps.has(Caps::DowngradePrevention) {
        seq![
            Step::Boot(BootRequest { counter: None, image_index: None, catch_asserts: false, with_ram: false }, Judge::Success),
            Step::ImagesAre(0, 0, true),
        ]
    } else {
        Seq::<Step>::empty()
    })
}

/// The steps of the scenario that `run_norevert_newimage` starts.
pub open spec fn norevert_newimage_script(caps: CapSet) -> Seq<Step> {
    (if caps.modifies_flash() {
        seq![
            Step::MarkUpgrades(0),
            Step::TrailersAre(0, Some(BOOT_MAGIC_GOOD), Some(BOOT_FLAG_UNSET), Some(BOOT_FLAG_UNSET), true),
            Step::Boot(BootRequest { counter: None, image_index: None, catch_asserts: false, with_ram: false }, Judge::Success),
            Step::ImagesAre(0, 0, true),
            Step::TrailersAre(0, Some(BOOT_MAGIC_GOOD), Some(BOOT_FLAG_UNSET), Some(BOOT_FLAG_UNSET), true),
            Step::TrailersAre(1, Some(BOOT_MAGIC_UNSET), Some(BOOT_FLAG_UNSET), Some(BOOT_FLAG_UNSET), true),
        ]
    } else {
        Seq::<Step>::empty()
    })
}

/// The steps of the scenario that `run_signfail_upgrade` starts.
pub open spec fn signfail_upgrade_script(caps: CapSet) -> Seq<Step> {
    (if caps.modifies_flash() {
        seq![
            Step::MarkUpgrades(0),
            Step::MarkPermanent(0),
            Step::MarkUpgrades(1),
            Step::MarkPermanent(1),
            Step::TrailersAre(0, Some(BOOT_MAGIC_GOOD), Some(BOOT_FLAG_SET), Some(BOOT_FLAG_UNSET), true),
            Step::Boot(BootRequest { counter: None, image_index: None, catch_asserts: false, with_ram: false }, Judge::Success),
            Step::ImagesAre(0, 0, true),
            Step::TrailersAre(0, Some(BOOT_MAGIC_GOOD), Some(BOOT_FLAG_SET), Some(BOOT_FLAG_UNSET), true),
            Step::TrailersAre(1, None, Some(BOOT_FLAG_UNSET), None, true),
        ]
    } else {
        Seq::<Step>::empty()
    })
}

/// The steps of the scenario that `run_secondary_leftover_trailer` starts.
pub open spec fn secondary_leftover_trailer_script(caps: CapSet) -> Seq<Step> {
    (if caps.modifies_flash() {
        seq![
            Step::MarkPermanent(1),
            Step::MarkUpgrades(1),
            Step::Boot(BootRequest { counter: None, image_index: None, catch_asserts: false, with_ram: false }, Judge::Success),
            Step::ImagesAre(0, 0, true),
            Step::TrailersAre(1, Some(BOOT_MAGIC_UNSET), Some(BOOT_FLAG_UNSET), Some(BOOT_FLAG_UNSET), true),
        ]
    } else {
        Seq::<Step>::empty()
    })
}

/// The steps of the scenario that `run_with_status_fails_complete` starts.
pub open spec fn with_status_fails_complete_script(caps: CapSet) -> Seq<Step> {
    (if caps.has(Caps::ValidatePrimarySlot) && caps.modifies_flash() {
        seq![
            Step::MarkPermanent(1),
            Step::MarkBadStatus(0, RATE_ONE),
            Step::Boot(BootRequest { counter: None, image_index: None, catch_asserts: true, with_ram: false }, Judge::SuccessNoAsserts),
            Step::TrailersAre(0, Some(BOOT_MAGIC_GOOD), Some(BOOT_FLAG_SET), Some(BOOT_FLAG_SET), true),
            Step::ImagesAre(0, 1, true),
            Step::Boot(BootRequest { counter: None, image_index: None, catch_asserts: false, with_ram: false }, Judge::Success),
        ]
    } else {
        Seq::<Step>::empty()
    })
}

/// The steps of the scenario that `run_with_status_fails_with_reset` starts.
pub open spec fn with_status_fails_with_reset_script(caps: CapSet, total_flash_ops: i32) -> Seq<Step> {
    (if !caps.has(Caps::OverwriteUpgrade) && caps.modifies_flash() {
        (if caps.has(Caps::ValidatePrimarySlot) {
            seq![
                Step::MarkPermanent(1),
                Step::MarkBadStatus(0, HALF_RATE),
                Step::Boot(BootRequest { counter: Some(half(total_flash_ops)), image_index: None, catch_asserts: true, with_ram: false }, Judge::NoAsserts),
                Step::ResetBadStatus(0),
                Step::Boot(BootRequest { counter: None, image_index: None, catch_asserts: true, with_ram: false }, Judge::AtMostOneAssert),
            ]
        } else {
            seq![
                Step::MarkPermanent(1),
                Step::MarkBadStatus(0, RATE_ONE),
                Step::Boot(BootRequest { counter: None, image_index: None, catch_asserts: true, with_ram: false }, Judge::SomeAssert),
            ]
        })
    } else {
        Seq::<Step>::empty()
    })
}

/// The steps of the scenario that `run_direct_xip` starts.
pub open spec fn direct_xip_script(caps: CapSet, offset: u32, dev_id: u8) -> Seq<Step> {
    (if caps.has(Caps::DirectXip) {
        seq![
            Step::Boot(BootRequest { counter: None, image_index: None, catch_asserts: true, with_ram: false }, Judge::BootsFrom(offset, dev_id)),
        ]
    } else {
        Seq::<Step>::empty()
    })
}

/// The steps of the scenario that `run_ram_load` starts.
pub open spec fn ram_load_script(caps: CapSet) -> Seq<Step> {
    (if caps.has(Caps::RamLoad) {
        seq![
            Step::Boot(BootRequest { counter: None, image_index: None, catch_asserts: true, with_ram: true }, Judge::MustSucceed),
            Step::RamImages,
        ]
    } else {
        Seq::<Step>::empty()
    })
}

/// The steps of the scenario that `run_split_ram_load` starts.
pub open spec fn split_ram_load_script(caps: CapSet, num_images: usize) -> Seq<Step> {
    (if caps.has(Caps::RamLoad) {
        Seq::new(num_images as nat, |i: int| Step::Boot(BootRequest { counter: None, image_index: Some(i as i32), catch_asserts: true, with_ram: true }, Judge::MustSucceed)) + seq![
            Step::RamImages,
        ]
    } else {
        Seq::<Step>::empty()
    })
}

/// The steps of the scenario that `run_hw_rollback_prot` starts.
pub open spec fn hw_rollback_prot_script(caps: CapSet) -> Seq<Step> {
    (if caps.has(Caps::HwRollbackProtection) {
        seq![
            Step::SetCounter(0, 30),
            Step::Boot(BootRequest { counter: None, image_index: None, catch_asserts: true, with_ram: false }, Judge::Failure),
            Step::CounterIs(0, 30),
        ]
    } else {
        Seq::<Step>::empty()
    })
}

/// The steps of the scenario that `run_ram_load_boot_with_result` starts.
pub open spec fn ram_load_boot_with_result_script(caps: CapSet, expected_result: bool) -> Seq<Step> {
    (if caps.has(Caps::RamLoad) {
        seq![
            Step::Boot(BootRequest { counter: None, image_index: None, catch_asserts: true, with_ram: true }, Judge::SuccessIs(expected_result)),
        ]
    } else {
        Seq::<Step>::empty()
    })
}

impl Images {
    /// A simple upgrade without forced failures, whose flash operations are
    /// counted.  Once the scenario is over, `counted` gives the number of
    /// operations, which can later be used to inject failures at chosen steps, or
    /// `None` if the primary slot does not hold the upgrade.
    pub fn run_basic_upgrade(&self, permanent: bool) -> (res: Trial)
        ensures
            res.spec_script() == basic_upgrade_script(self.spec_cfg().caps, permanent),
            res@ == start(0),
    {
        let caps: &CapSet = &self.cfg().caps;
        let mut script: Vec<Step> = Vec::new();
        if permanent {
            script.push(Step::MarkPermanent(1));
        }
        script.push(Step::TryUpgrade(None));
        script.push(Step::ResumeUpgrade);
        script.push(Step::ImagesAre(0, 1, true));
        assert(script@ =~= basic_upgrade_script(self.spec_cfg().caps, permanent));
        Trial::new(script, 0)
    }

    /// Boots a board whose primary slot is empty: a bootloader that can
    /// bootstrap copies the upgrade there and marks it as permanent.
    pub fn run_bootstrap(&self) -> (res: Trial)
        ensures
            res.spec_script() == bootstrap_script(self.spec_cfg().caps),
            res@ == start(0),
    {
        let caps: &CapSet = &self.cfg().caps;
        let mut script: Vec<Step> = Vec::new();
        if Caps::Bootstrap.present(caps) {
            script.push(Step::Boot(BootRequest { counter: None, image_index: None, catch_asserts: false, with_ram: false }, Judge::Success));
            script.push(Step::ImagesAre(0, 1, true));
            script.push(Step::TrailersAre(0, Some(BOOT_MAGIC_GOOD), Some(BOOT_FLAG_SET), Some(BOOT_FLAG_SET), true));
        }
        assert(script@ =~= bootstrap_script(self.spec_cfg().caps));
        Trial::new(script, 0)
    }

    /// Boots a board whose primary slot is empty and whose upgrade is too
    /// large: the upgrade must not end up in the primary slot.
    pub fn run_oversized_bootstrap(&self) -> (res: Trial)
        ensures
            res.spec_script() == oversized_bootstrap_script(self.spec_cfg().caps),
            res@ == start(0),
    {
        let caps: &CapSet = &self.cfg().caps;
        let mut script: Vec<Step> = Vec::new();
        if Caps::Bootstrap.present(caps) {
            script.push(Step::Boot(BootRequest { counter: None, image_index: None, catch_asserts: false, with_ram: false }, Judge::NotInterrupted));
            script.push(Step::ImagesAre(0, 1, false));
            script.push(Step::TrailersAre(0, Some(BOOT_MAGIC_GOOD), Some(BOOT_FLAG_SET), Some(BOOT_FLAG_SET), false));
        }
        assert(script@ =~= oversized_bootstrap_script(self.spec_cfg().caps));
        Trial::new(script, 0)
    }

    /// Test a simple upgrade, with dependencies given, and verify that the
    /// images do as is described in the test.
    pub fn run_check_deps(&self, deps: DepTest) -> (res: Trial)
        ensures
            res.spec_script() == check_deps_script(self.spec_cfg().caps, deps),
            res@ == start(0),
    {
        let caps: &CapSet = &self.cfg().caps;
        let mut script: Vec<Step> = Vec::new();
        if Caps::modifies_flash(caps) {
            script.push(Step::MarkPermanent(1));
            script.push(Step::TryUpgrade(None));
            script.push(Step::ResumeUpgrade);
            script.push(Step::DepImages(deps));
        }
        assert(script@ =~= check_deps_script(self.spec_cfg().caps, deps));
        Trial::new(script, 0)
    }

    /// Boots an upgrade that was not marked as permanent `count` times: the
    /// second boot reverts it, and the primary slot holds the original image from
    /// then on.  A caller tries this for 2, 3 and 4 boots.
    pub fn run_basic_revert(&self, count: usize) -> (res: Trial)
        ensures
            res.spec_script() == basic_revert_script(self.spec_cfg().caps, count),
            res@ == start(0),
    {
        let caps: &CapSet = &self.cfg().caps;
        let mut script: Vec<Step> = Vec::new();
        if !Caps::OverwriteUpgrade.present(caps) && Caps::modifies_flash(caps) && (Caps::SwapUsingScratch.present(caps) || Caps::SwapUsingMove.present(caps)) {
            let ghost before1 = script@;
            let mut k1: usize = 0;
            while k1 < count
                invariant
                    k1 <= count,
                    script@ == before1 + Seq::new(k1 as nat, |i: int| Step::Boot(BootRequest { counter: None, image_index: None, catch_asserts: false, with_ram: false }, Judge::MustSucceedNoAsserts)),
                decreases count - k1,
            {
                script.push(Step::Boot(BootRequest { counter: None, image_index: None, catch_asserts: false, with_ram: false }, Judge::MustSucceedNoAsserts));
                k1 = k1 + 1;
                assert(script@ =~= before1 + Seq::new(k1 as nat, |i: int| Step::Boot(BootRequest { counter: None, image_index: None, catch_asserts: false, with_ram: false }, Judge::MustSucceedNoAsserts)));
            }
            script.push(Step::ImagesAre(0, 0, true));
        }
        assert(script@ =~= basic_revert_script(self.spec_cfg().caps, count));
        Trial::new(script, 0)
    }

    /// A permanent upgrade that is interrupted after `stop` flash operations and
    /// then resumed: it has to end as an upgrade that was not interrupted does.
    /// A caller tries every `stop` from 1 up to the number of operations of an
    /// upgrade.
    pub fn run_perm_with_fails(&self, stop: i32) -> (res: Trial)
        ensures
            res.spec_script() == perm_with_fails_script(self.spec_cfg().caps, stop),
            res@ == start(0),
    {
        let caps: &CapSet = &self.cfg().caps;
        let mut script: Vec<Step> = Vec::new();
        if Caps::modifies_flash(caps) {
            script.push(Step::MarkPermanent(1));
            script.push(Step::TryUpgrade(Some(stop)));
            script.push(Step::ResumeUpgrade);
            script.push(Step::ImagesAre(0, 1, true));
            script.push(Step::TrailersAre(0, Some(BOOT_MAGIC_GOOD), Some(BOOT_FLAG_SET), Some(BOOT_FLAG_SET), true));
            script.push(Step::TrailersAre(1, Some(BOOT_MAGIC_UNSET), Some(BOOT_FLAG_UNSET), Some(BOOT_FLAG_UNSET), true));
            if (Caps::SwapUsingScratch.present(caps) || Caps::SwapUsingMove.present(caps)) {
                script.push(Step::ImagesAre(1, 0, true));
            }
        }
        assert(script@ =~= perm_with_fails_script(self.spec_cfg().caps, stop));
        Trial::new(script, 0)
    }

    /// A permanent upgrade that is interrupted `total_fails` times in a row, each
    /// time at a point drawn at random from the first half of the operations
    /// that remain, and then left to complete.  `total_flash_ops` is the number
    /// of operations of an upgrade.
    pub fn run_perm_with_random_fails(&self, total_fails: usize, total_flash_ops: i32) -> (res: Trial)
        ensures
            res.spec_script() == perm_with_random_fails_script(self.spec_cfg().caps, total_fails, total_flash_ops),
            res@ == start(total_flash_ops),
    {
        let caps: &CapSet = &self.cfg().caps;
        let mut script: Vec<Step> = Vec::new();
        if Caps::modifies_flash(caps) {
            script.push(Step::MarkPermanent(1));
            let ghost before2 = script@;
            let mut k2: usize = 0;
            while k2 < total_fails
                invariant
                    k2 <= total_fails,
                    script@ == before2 + Seq::new(k2 as nat, |i: int| Step::RandomReset),
                decreases total_fails - k2,
            {
                script.push(Step::RandomReset);
                k2 = k2 + 1;
                assert(script@ =~= before2 + Seq::new(k2 as nat, |i: int| Step::RandomReset));
            }
            script.push(Step::Boot(BootRequest { counter: None, image_index: None, catch_asserts: false, with_ram: false }, Judge::MustSucceed));
            script.push(Step::ImagesAre(0, 1, true));
            if (Caps::SwapUsingScratch.present(caps) || Caps::SwapUsingMove.present(caps)) {
                script.push(Step::ImagesAre(1, 0, true));
            }
            script.push(Step::TrailersAre(0, Some(BOOT_MAGIC_GOOD), Some(BOOT_FLAG_SET), Some(BOOT_FLAG_SET), true));
            script.push(Step::TrailersAre(1, Some(BOOT_MAGIC_UNSET), Some(BOOT_FLAG_UNSET), Some(BOOT_FLAG_UNSET), true));
        }
        assert(script@ =~= perm_with_random_fails_script(self.spec_cfg().caps, total_fails, total_flash_ops));
        Trial::new(script, total_flash_ops)
    }

    /// An upgrade and the revert that follows it, each interrupted after `stop`
    /// flash operations and resumed.  After the upgrade the slots are swapped and
    /// the primary slot is not confirmed; after the revert they are back and
    /// confirmed; a third boot changes nothing.  A caller tries every `stop`
    /// from 1 up to the number of operations of an upgrade.
    pub fn run_revert_with_fails(&self, stop: i32) -> (res: Trial)
        ensures
            res.spec_script() == revert_with_fails_script(self.spec_cfg().caps, stop),
            res@ == start(0),
    {
        let caps: &CapSet = &self.cfg().caps;
        let mut script: Vec<Step> = Vec::new();
        if !Caps::OverwriteUpgrade.present(caps) && Caps::modifies_flash(caps) && (Caps::SwapUsingScratch.present(caps) || Caps::SwapUsingMove.present(caps)) {
            script.push(Step::Boot(BootRequest { counter: Some(stop), image_index: None, catch_asserts: false, with_ram: false }, Judge::Interrupted));
            script.push(Step::SomeTrailerIs(0, None, None, Some(BOOT_FLAG_UNSET)));
            script.push(Step::Boot(BootRequest { counter: None, image_index: None, catch_asserts: false, with_ram: false }, Judge::Success));
            script.push(Step::ImagesAre(0, 1, true));
            script.push(Step::ImagesAre(1, 0, true));
            script.push(Step::TrailersAre(0, Some(BOOT_MAGIC_GOOD), Some(BOOT_FLAG_UNSET), Some(BOOT_FLAG_SET), true));
            script.push(Step::TrailersAre(1, Some(BOOT_MAGIC_UNSET), Some(BOOT_FLAG_UNSET), Some(BOOT_FLAG_UNSET), true));
            script.push(Step::Boot(BootRequest { counter: Some(stop), image_index: None, catch_asserts: false, with_ram: false }, Judge::Interrupted));
            script.push(Step::Boot(BootRequest { counter: None, image_index: None, catch_asserts: false, with_ram: false }, Judge::Success));
            script.push(Step::ImagesAre(0, 0, true));
            script.push(Step::ImagesAre(1, 1, true));
            script.push(Step::TrailersAre(0, Some(BOOT_MAGIC_GOOD), Some(BOOT_FLAG_SET), Some(BOOT_FLAG_SET), true));
            script.push(Step::TrailersAre(1, Some(BOOT_MAGIC_UNSET), Some(BOOT_FLAG_UNSET), Some(BOOT_FLAG_UNSET), true));
            script.push(Step::Boot(BootRequest { counter: None, image_index: None, catch_asserts: false, with_ram: false }, Judge::Success));
            script.push(Step::ImagesAre(0, 0, true));
            script.push(Step::ImagesAre(1, 1, true));
        }
        assert(script@ =~= revert_with_fails_script(self.spec_cfg().caps, stop));
        Trial::new(script, 0)
    }

    /// An upgrade that is confirmed after its first boot: the second boot must
    /// not revert it.
    pub fn run_norevert(&self) -> (res: Trial)
        ensures
            res.spec_script() == norevert_script(self.spec_cfg().caps),
            res@ == start(0),
    {
        let caps: &CapSet = &self.cfg().caps;
        let mut script: Vec<Step> = Vec::new();
        if !Caps::OverwriteUpgrade.present(caps) && Caps::modifies_flash(caps) {
            script.push(Step::Boot(BootRequest { counter: None, image_index: None, catch_asserts: false, with_ram: false }, Judge::Success));
            script.push(Step::ImagesAre(0, 1, true));
            script.push(Step::TrailersAre(0, Some(BOOT_MAGIC_GOOD), Some(BOOT_FLAG_UNSET), Some(BOOT_FLAG_SET), true));
            script.push(Step::TrailersAre(1, Some(BOOT_MAGIC_UNSET), Some(BOOT_FLAG_UNSET), Some(BOOT_FLAG_UNSET), true));
            script.push(Step::MarkPermanent(0));
            script.push(Step::TrailersAre(0, Some(BOOT_MAGIC_GOOD), Some(BOOT_FLAG_SET), Some(BOOT_FLAG_SET), true));
            script.push(Step::Boot(BootRequest { counter: None, image_index: None, catch_asserts: false, with_ram: false }, Judge::Success));
            script.push(Step::TrailersAre(0, Some(BOOT_MAGIC_GOOD), Some(BOOT_FLAG_SET), Some(BOOT_FLAG_SET), true));
            script.push(Step::ImagesAre(0, 1, true));
        }
        assert(script@ =~= norevert_script(self.spec_cfg().caps));
        Trial::new(script, 0)
    }

    /// Test that an upgrade image that is too big is rejected: the primary slot
    /// keeps its image and its trailer.
    pub fn run_oversizefail_upgrade(&self) -> (res: Trial)
        ensures
            res.spec_script() == oversizefail_upgrade_script(self.spec_cfg().caps),
            res@ == start(0),
    {
        let caps: &CapSet = &self.cfg().caps;
        let mut script: Vec<Step> = Vec::new();
        if Caps::modifies_flash(caps) {
            script.push(Step::MarkUpgrades(0));
            script.push(Step::MarkPermanent(0));
            script.push(Step::MarkUpgrades(1));
            script.push(Step::TrailersAre(0, Some(BOOT_MAGIC_GOOD), Some(BOOT_FLAG_SET), Some(BOOT_FLAG_UNSET), true));
            script.push(Step::Boot(BootRequest { counter: None, image_index: None, catch_asserts: false, with_ram: false }, Judge::Success));
            script.push(Step::ImagesAre(0, 0, true));
            script.push(Step::TrailersAre(0, Some(BOOT_MAGIC_GOOD), Some(BOOT_FLAG_SET), Some(BOOT_FLAG_UNSET), true));
        }
        assert(script@ =~= oversizefail_upgrade_script(self.spec_cfg().caps));
        Trial::new(script, 0)
    }

    /// Test that an upgrade is rejected.  Assumes that the image was built such
    /// that the upgrade is instead a downgrade.
    pub fn run_nodowngrade(&self) -> (res: Trial)
        ensures
            res.spec_script() == nodowngrade_script(self.spec_cfg().caps),
            res@ == start(0),
    {
        let caps: &CapSet = &self.cfg().caps;
        let mut script: Vec<Step> = Vec::new();
        if Caps::DowngradePrevention.present(caps) {
            script.push(Step::Boot(BootRequest { counter: None, image_index: None, catch_asserts: false, with_ram: false }, Judge::Success));
            script.push(Step::ImagesAre(0, 0, true));
        }
        assert(script@ =~= nodowngrade_script(self.spec_cfg().caps));
        Trial::new(script, 0)
    }

    /// Tests a new image written to the primary slot that already has the magic
    /// set while there is no image in the secondary slot, so no revert should
    /// ever happen.
    pub fn run_norevert_newimage(&self) -> (res: Trial)
        ensures
            res.spec_script() == norevert_newimage_script(self.spec_cfg().caps),
            res@ == start(0),
    {
        let caps: &CapSet = &self.cfg().caps;
        let mut script: Vec<Step> = Vec::new();
        if Caps::modifies_flash(caps) {
            script.push(Step::MarkUpgrades(0));
            script.push(Step::TrailersAre(0, Some(BOOT_MAGIC_GOOD), Some(BOOT_FLAG_UNSET), Some(BOOT_FLAG_UNSET), true));
            script.push(Step::Boot(BootRequest { counter: None, image_index: None, catch_asserts: false, with_ram: false }, Judge::Success));
            script.push(Step::ImagesAre(0, 0, true));
            script.push(Step::TrailersAre(0, Some(BOOT_MAGIC_GOOD), Some(BOOT_FLAG_UNSET), Some(BOOT_FLAG_UNSET), true));
            script.push(Step::TrailersAre(1, Some(BOOT_MAGIC_UNSET), Some(BOOT_FLAG_UNSET), Some(BOOT_FLAG_UNSET), true));
        }
        assert(script@ =~= norevert_newimage_script(self.spec_cfg().caps));
        Trial::new(script, 0)
    }

    /// Test that an upgrade image with a bad signature is rejected.  The
    /// primary slot is confirmed, and the secondary slot is marked for an
    /// upgrade and as permanent.  After one boot the primary slot has to keep
    /// its image and its trailer, and the trailer of the secondary slot must
    /// not show a confirmed image.
    pub fn run_signfail_upgrade(&self) -> (res: Trial)
        ensures
            res.spec_script() == signfail_upgrade_script(self.spec_cfg().caps),
            res@ == start(0),
    {
        let caps: &CapSet = &self.cfg().caps;
        let mut script: Vec<Step> = Vec::new();
        if Caps::modifies_flash(caps) {
            script.push(Step::MarkUpgrades(0));
            script.push(Step::MarkPermanent(0));
            script.push(Step::MarkUpgrades(1));
            script.push(Step::MarkPermanent(1));
            script.push(Step::TrailersAre(0, Some(BOOT_MAGIC_GOOD), Some(BOOT_FLAG_SET), Some(BOOT_FLAG_UNSET), true));
            script.push(Step::Boot(BootRequest { counter: None, image_index: None, catch_asserts: false, with_ram: false }, Judge::Success));
            script.push(Step::ImagesAre(0, 0, true));
            script.push(Step::TrailersAre(0, Some(BOOT_MAGIC_GOOD), Some(BOOT_FLAG_SET), Some(BOOT_FLAG_UNSET), true));
            script.push(Step::TrailersAre(1, None, Some(BOOT_FLAG_UNSET), None, true));
        }
        assert(script@ =~= signfail_upgrade_script(self.spec_cfg().caps));
        Trial::new(script, 0)
    }

    /// Should detect there is a leftover trailer in an otherwise erased secondary
    /// slot and erase its trailer.
    pub fn run_secondary_leftover_trailer(&self) -> (res: Trial)
        ensures
            res.spec_script() == secondary_leftover_trailer_script(self.spec_cfg().caps),
            res@ == start(0),
    {
        let caps: &CapSet = &self.cfg().caps;
        let mut script: Vec<Step> = Vec::new();
        if Caps::modifies_flash(caps) {
            script.push(Step::MarkPermanent(1));
            script.push(Step::MarkUpgrades(1));
            script.push(Step::Boot(BootRequest { counter: None, image_index: None, catch_asserts: false, with_ram: false }, Judge::Success));
            script.push(Step::ImagesAre(0, 0, true));
            script.push(Step::TrailersAre(1, Some(BOOT_MAGIC_UNSET), Some(BOOT_FLAG_UNSET), Some(BOOT_FLAG_UNSET), true));
        }
        assert(script@ =~= secondary_leftover_trailer_script(self.spec_cfg().caps));
        Trial::new(script, 0)
    }

    /// This test runs a simple upgrade with no fails in the images, but allowing
    /// for fails in the status area.  This should run to the end without raising
    /// an assertion, and a second boot should just work.
    pub fn run_with_status_fails_complete(&self) -> (res: Trial)
        ensures
            res.spec_script() == with_status_fails_complete_script(self.spec_cfg().caps),
            res@ == start(0),
    {
        let caps: &CapSet = &self.cfg().caps;
        let mut script: Vec<Step> = Vec::new();
        if Caps::ValidatePrimarySlot.present(caps) && Caps::modifies_flash(caps) {
            script.push(Step::MarkPermanent(1));
            script.push(Step::MarkBadStatus(0, RATE_ONE));
            script.push(Step::Boot(BootRequest { counter: None, image_index: None, catch_asserts: true, with_ram: false }, Judge::SuccessNoAsserts));
            script.push(Step::TrailersAre(0, Some(BOOT_MAGIC_GOOD), Some(BOOT_FLAG_SET), Some(BOOT_FLAG_SET), true));
            script.push(Step::ImagesAre(0, 1, true));
            script.push(Step::Boot(BootRequest { counter: None, image_index: None, catch_asserts: false, with_ram: false }, Judge::Success));
        }
        assert(script@ =~= with_status_fails_complete_script(self.spec_cfg().caps));
        Trial::new(script, 0)
    }

    /// This test runs an upgrade with fails in the status area.  A bootloader
    /// that validates the primary slot is interrupted after half of the
    /// operations of an upgrade, with every second write to the status area
    /// failing, and must raise no assertion; once the faults are taken away it is
    /// resumed, and may raise one.  Any other bootloader runs with every write to
    /// the status area failing, and must raise an assertion.
    pub fn run_with_status_fails_with_reset(&self, total_flash_ops: i32) -> (res: Trial)
        ensures
            res.spec_script() == with_status_fails_with_reset_script(self.spec_cfg().caps, total_flash_ops),
            res@ == start(0),
    {
        let caps: &CapSet = &self.cfg().caps;
        let mut script: Vec<Step> = Vec::new();
        if !Caps::OverwriteUpgrade.present(caps) && Caps::modifies_flash(caps) {
            if Caps::ValidatePrimarySlot.present(caps) {
                script.push(Step::MarkPermanent(1));
                script.push(Step::MarkBadStatus(0, HALF_RATE));
                script.push(Step::Boot(BootRequest { counter: Some(half(total_flash_ops)), image_index: None, catch_asserts: true, with_ram: false }, Judge::NoAsserts));
                script.push(Step::ResetBadStatus(0));
                script.push(Step::Boot(BootRequest { counter: None, image_index: None, catch_asserts: true, with_ram: false }, Judge::AtMostOneAssert));
            } else {
                script.push(Step::MarkPermanent(1));
                script.push(Step::MarkBadStatus(0, RATE_ONE));
                script.push(Step::Boot(BootRequest { counter: None, image_index: None, catch_asserts: true, with_ram: false }, Judge::SomeAssert));
            }
        }
        assert(script@ =~= with_status_fails_with_reset_script(self.spec_cfg().caps, total_flash_ops));
        Trial::new(script, 0)
    }

    /// Test the direct XIP configuration.  With this mode, flash images are never
    /// moved, and the bootloader merely selects which partition is the proper one
    /// to boot: always the first upgrade slot, at `offset` of device `dev_id`.
    pub fn run_direct_xip(&self, offset: u32, dev_id: u8) -> (res: Trial)
        ensures
            res.spec_script() == direct_xip_script(self.spec_cfg().caps, offset, dev_id),
            res@ == start(0),
    {
        let caps: &CapSet = &self.cfg().caps;
        let mut script: Vec<Step> = Vec::new();
        if Caps::DirectXip.present(caps) {
            script.push(Step::Boot(BootRequest { counter: None, image_index: None, catch_asserts: true, with_ram: false }, Judge::BootsFrom(offset, dev_id)));
        }
        assert(script@ =~= direct_xip_script(self.spec_cfg().caps, offset, dev_id));
        Trial::new(script, 0)
    }

    /// Test the ram-loading: after one boot the upgrade of every image lies at
    /// its home in RAM.
    pub fn run_ram_load(&self) -> (res: Trial)
        ensures
            res.spec_script() == ram_load_script(self.spec_cfg().caps),
            res@ == start(0),
    {
        let caps: &CapSet = &self.cfg().caps;
        let mut script: Vec<Step> = Vec::new();
        if Caps::RamLoad.present(caps) {
            script.push(Step::Boot(BootRequest { counter: None, image_index: None, catch_asserts: true, with_ram: true }, Judge::MustSucceed));
            script.push(Step::RamImages);
        }
        assert(script@ =~= ram_load_script(self.spec_cfg().caps));
        Trial::new(script, 0)
    }

    /// Test the split ram-loading: the images are loaded by one boot each, and
    /// then the upgrade of every image lies at its home in RAM.
    pub fn run_split_ram_load(&self) -> (res: Trial)
        requires
            self.spec_images().len() <= i32::MAX,
        ensures
            res.spec_script() == split_ram_load_script(self.spec_cfg().caps, self.spec_images().len() as usize),
            res@ == start(0),
    {
        let caps: &CapSet = &self.cfg().caps;
        let mut script: Vec<Step> = Vec::new();
        if Caps::RamLoad.present(caps) {
            let ghost before3 = script@;
            let n: usize = self.num_images();
            let mut k3: usize = 0;
            while k3 < n
                invariant
                    k3 <= n,
                    n <= i32::MAX,
                    script@ == before3 + Seq::new(k3 as nat, |i: int| Step::Boot(BootRequest { counter: None, image_index: Some(i as i32), catch_asserts: true, with_ram: true }, Judge::MustSucceed)),
                decreases n - k3,
            {
                script.push(Step::Boot(BootRequest { counter: None, image_index: Some(k3 as i32), catch_asserts: true, with_ram: true }, Judge::MustSucceed));
                k3 = k3 + 1;
                assert(script@ =~= before3 + Seq::new(k3 as nat, |i: int| Step::Boot(BootRequest { counter: None, image_index: Some(i as i32), catch_asserts: true, with_ram: true }, Judge::MustSucceed)));
            }
            script.push(Step::RamImages);
        }
        assert(script@ =~= split_ram_load_script(self.spec_cfg().caps, self.spec_images().len() as usize));
        Trial::new(script, 0)
    }

    /// Pre-seeds the security counter above the one of the image: the boot must
    /// fail, and the stored counter must stay as it is.
    pub fn run_hw_rollback_prot(&self) -> (res: Trial)
        ensures
            res.spec_script() == hw_rollback_prot_script(self.spec_cfg().caps),
            res@ == start(0),
    {
        let caps: &CapSet = &self.cfg().caps;
        let mut script: Vec<Step> = Vec::new();
        if Caps::HwRollbackProtection.present(caps) {
            script.push(Step::SetCounter(0, 30));
            script.push(Step::Boot(BootRequest { counter: None, image_index: None, catch_asserts: true, with_ram: false }, Judge::Failure));
            script.push(Step::CounterIs(0, 30));
        }
        assert(script@ =~= hw_rollback_prot_script(self.spec_cfg().caps));
        Trial::new(script, 0)
    }

    /// Boots into RAM and expects the boot to succeed, or to fail, as
    /// `expected_result` says.
    pub fn run_ram_load_boot_with_result(&self, expected_result: bool) -> (res: Trial)
        ensures
            res.spec_script() == ram_load_boot_with_result_script(self.spec_cfg().caps, expected_result),
            res@ == start(0),
    {
        let caps: &CapSet = &self.cfg().caps;
        let mut script: Vec<Step> = Vec::new();
        if Caps::RamLoad.present(caps) {
            script.push(Step::Boot(BootRequest { counter: None, image_index: None, catch_asserts: true, with_ram: true }, Judge::SuccessIs(expected_result)));
        }
        assert(script@ =~= ram_load_boot_with_result_script(self.spec_cfg().caps, expected_result));
        Trial::new(script, 0)
    }
}

} // verus!
