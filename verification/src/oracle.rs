//! The images of a board and the checks that tell whether a boot left the
//! board as a scenario expects.
//!
//! The bootloader itself runs outside of this library.  A scenario is a
//! script of steps; the steps that prepare the board and those that check it
//! are carried out here, and a step that boots hands out what the bootloader
//! is to be invoked with and afterwards judges what it reported.

use crate::area::AreaDesc;
use crate::boot::{BootGoResult, NvCounterStorage, RamBlock};
use crate::caps::{CapSet, Caps};
use crate::depends::{DepTest, UpgradeInfo};
use crate::entropy::random_below;
use crate::flash::BadRegion;
use crate::image::{ImageData, image_present, verify_image};
use crate::multiflash::MultiFlash;
use crate::slots::{
    BootConfig,
    MarkError,
    RamData,
    SlotInfo,
    permanent_marked,
    upgrade_marked,
    SlotPlace,
    home_of,
    key_of,
    mark_permanent_upgrade,
    mark_upgrade,
    trailer_ok,
    verify_trailer,
    RAM_LOAD_ADDR,
};
use vstd::prelude::*;

verus! {

/// When doing multi-image, there is an instance of this information for
/// each of the images.  Single image there will be one of these.
pub struct OneImage {
    pub slots: [SlotInfo; 2],
    pub primaries: ImageData,
    pub upgrades: ImageData,
}

/// Images represents the state of a simulation for a given set of images.
/// The flash holds the state of the simulated flash, whereas primaries and
/// upgrades hold the expected contents of these images.
pub struct Images {
    flash: MultiFlash,
    areadesc: AreaDesc,
    images: Vec<OneImage>,
    total_count: Option<i32>,
    ram: RamData,
    cfg: BootConfig,
}

/// What the bootloader is to be invoked with.
#[derive(Copy, Clone, Debug, PartialEq, Eq, Structural)]
pub struct BootRequest {
    /// The number of flash operations after which the boot is interrupted;
    /// `None`, and `Some(0)`, for a boot that is not interrupted.
    pub counter: Option<i32>,
    /// The image to boot, where only one is to be.
    pub image_index: Option<i32>,
    pub catch_asserts: bool,
    /// Whether the boot is given a block of RAM to load into.
    pub with_ram: bool,
}

/// What the bootloader reported.
#[derive(Copy, Clone, Debug, PartialEq, Eq, Structural)]
pub struct BootOutcome {
    pub result: BootGoResult,
    /// What is left of the counter that the boot was invoked with; 0 if it
    /// was invoked with none.
    pub counter: i32,
}

/// What is expected of what a boot reports.
#[derive(Copy, Clone, Debug, PartialEq, Eq, Structural)]
pub enum Judge {
    /// The boot ran to completion and reported success.
    Success,
    /// As `Success`, and the scenario cannot go on otherwise.
    MustSucceed,
    /// The boot reported success and no assertion.
    SuccessNoAsserts,
    /// As `SuccessNoAsserts`, and the scenario cannot go on otherwise.
    MustSucceedNoAsserts,
    /// The boot did not report success.
    Failure,
    /// The boot reported success if and only if the flag is set.
    SuccessIs(bool),
    /// The boot was interrupted.
    Interrupted,
    /// As `Interrupted`, and the scenario cannot go on otherwise.
    MustInterrupt,
    /// The boot was not interrupted.
    NotInterrupted,
    /// The boot reported no assertion.
    NoAsserts,
    /// The boot reported one assertion at most.
    AtMostOneAssert,
    /// The boot reported an assertion.
    SomeAssert,
    /// The boot ran to completion and chose the image at the given offset
    /// of the given device; the scenario cannot go on otherwise.
    BootsFrom(u32, u8),
}

/// One step of a scenario.
#[derive(Copy, Clone, Debug, PartialEq, Eq)]
pub enum Step {
    /// Mark the given slot of every image for an upgrade.
    MarkUpgrades(usize),
    /// Mark the image in the given slot of every image as permanent.
    MarkPermanent(usize),
    /// Make writes to the status area of the given slot of every image
    /// fault at the given rate.
    MarkBadStatus(usize, u32),
    /// Take the faults away again.
    ResetBadStatus(usize),
    /// Store a security counter for an image.
    SetCounter(u32, u32),
    /// Boot, and judge what is reported.
    Boot(BootRequest, Judge),
    /// The first boot of an upgrade whose flash operations are counted,
    /// interrupted after the given number of operations if one is given.
    TryUpgrade(Option<i32>),
    /// The boot that completes an upgrade, if the first was interrupted.
    ResumeUpgrade,
    /// A boot that is interrupted at a point drawn at random from the first
    /// half of the operations that remain.
    RandomReset,
    /// The given slot of every image holds the primary image (0) or the
    /// upgrade (1), or, with the flag cleared, some slot does not.
    ImagesAre(usize, usize, bool),
    /// The trailer of the given slot of every image is as expected, or,
    /// with the flag cleared, some trailer is not.
    TrailersAre(usize, Option<u8>, Option<u8>, Option<u8>, bool),
    /// The trailer of the given slot of some image is as expected.
    SomeTrailerIs(usize, Option<u8>, Option<u8>, Option<u8>),
    /// Every image was upgraded or held as the test of dependencies says.
    DepImages(DepTest),
    /// The security counter of an image has the given value.
    CounterIs(u32, u32),
    /// The upgrade of every image was loaded to its home in RAM.
    RamImages,
}

/// What the harness has to do next.
#[derive(Copy, Clone, Debug, PartialEq, Eq, Structural)]
pub enum Action {
    /// Invoke the bootloader, and report with `booted`.
    Boot(BootRequest),
    /// Call `step` again.
    Continue,
    /// The scenario is over.
    Done,
}

/// A scenario as it is being run.
pub struct Trial {
    script: Vec<Step>,
    pc: usize,
    fails: u32,
    aborted: bool,
    pending: bool,
    count: i32,
    first_interrupted: bool,
    remaining: i32,
    request: BootRequest,
}

/// Whether what a boot reported is as expected.
pub open spec fn judged(judge: Judge, result: BootGoResult) -> bool {
    match judge {
        Judge::Success => result.spec_success(),
        Judge::MustSucceed => result.spec_success(),
        Judge::SuccessNoAsserts => result.spec_success() && result.spec_asserts() == 0,
        Judge::MustSucceedNoAsserts => result.spec_success() && result.spec_asserts() == 0,
        Judge::Failure => !result.spec_success(),
        Judge::SuccessIs(want) => result.spec_success() == want,
        Judge::Interrupted => result.spec_interrupted(),
        Judge::MustInterrupt => result.spec_interrupted(),
        Judge::NotInterrupted => !result.spec_interrupted(),
        Judge::NoAsserts => result.spec_asserts() == 0,
        Judge::AtMostOneAssert => result.spec_asserts() <= 1,
        Judge::SomeAssert => result.spec_asserts() != 0,
        Judge::BootsFrom(offset, dev_id) => result matches BootGoResult::Normal { resp, .. }
            && resp.image_off == offset && resp.flash_dev_id == dev_id,
    }
}

/// Whether a scenario cannot go on when the expectation is not met.
pub open spec fn is_fatal(judge: Judge) -> bool {
    judge is MustSucceed || judge is MustSucceedNoAsserts || judge is MustInterrupt
        || judge is BootsFrom
}

/// Tells whether what a boot reported is as expected.
pub fn judge_boot(judge: Judge, result: &BootGoResult) -> (res: bool)
    ensures
        res == judged(judge, *result),
{
    match judge {
        Judge::Success => result.success(),
        Judge::MustSucceed => result.success(),
        Judge::SuccessNoAsserts => result.success_no_asserts(),
        Judge::MustSucceedNoAsserts => result.success_no_asserts(),
        Judge::Failure => !result.success(),
        Judge::SuccessIs(want) => result.success() == want,
        Judge::Interrupted => result.interrupted(),
        Judge::MustInterrupt => result.interrupted(),
        Judge::NotInterrupted => !result.interrupted(),
        Judge::NoAsserts => result.asserts() == 0,
        Judge::AtMostOneAssert => result.asserts() <= 1,
        Judge::SomeAssert => result.asserts() != 0,
        Judge::BootsFrom(offset, dev_id) => match result.resp() {
            Some(resp) => resp.image_off == offset && resp.flash_dev_id == dev_id,
            None => false,
        },
    }
}

/// Tells whether a scenario cannot go on when the expectation is not met.
pub fn judge_is_fatal(judge: Judge) -> (res: bool)
    ensures
        res == is_fatal(judge),
{
    match judge {
        Judge::MustSucceed => true,
        Judge::MustSucceedNoAsserts => true,
        Judge::MustInterrupt => true,
        Judge::BootsFrom(_, _) => true,
        _ => false,
    }
}

/// What the first boot of a counted upgrade tells: whether it was
/// interrupted, and the number of flash operations so far.  An interrupted
/// boot has used up the operations it was given; a boot that ran through has
/// counted its operations down from what it was given.  `None` where the
/// boot failed, where a boot that was given no limit claims to have been
/// interrupted, and where the count cannot be held.
pub open spec fn first_boot(stop: Option<i32>, outcome: BootOutcome) -> Option<(bool, i32)> {
    if outcome.result.spec_interrupted() {
        match stop {
            Some(n) => Some((true, n)),
            None => None,
        }
    } else if outcome.result.spec_success() && outcome.counter != i32::MIN {
        Some((false, (-outcome.counter) as i32))
    } else {
        None
    }
}

/// Judges the first boot of a counted upgrade.
pub fn judge_first_boot(stop: Option<i32>, outcome: &BootOutcome) -> (res: Option<(bool, i32)>)
    ensures
        res == first_boot(stop, *outcome),
{
    if outcome.result.interrupted() {
        match stop {
            Some(n) => Some((true, n)),
            None => None,
        }
    } else if outcome.result.success() && outcome.counter != i32::MIN {
        Some((false, -outcome.counter))
    } else {
        None
    }
}

/// The number of flash operations of a whole upgrade, once the boot that
/// completes it has run: the count so far, and what that boot counted down
/// from zero.  `None` where that boot did not report success, and where the
/// count cannot be held.
pub open spec fn second_boot(count: i32, outcome: BootOutcome) -> Option<i32> {
    if outcome.result.spec_success() && i32::MIN <= count - outcome.counter <= i32::MAX {
        Some((count - outcome.counter) as i32)
    } else {
        None
    }
}

/// Judges the boot that completes a counted upgrade.
pub fn judge_second_boot(count: i32, outcome: &BootOutcome) -> (res: Option<i32>)
    ensures
        res == second_boot(count, *outcome),
{
    if outcome.result.success() {
        count.checked_sub(outcome.counter)
    } else {
        None
    }
}

/// The point at which a boot is interrupted at random: `sample`, a number
/// below half of the operations that remain, counted from 1.
pub open spec fn reset_point(sample: u32) -> i32 {
    (sample + 1) as i32
}

impl OneImage {
    /// The image that a slot is compared against: the primary image for 0,
    /// the upgrade otherwise.
    pub open spec fn against(&self, against: usize) -> ImageData {
        if against == 0 {
            self.primaries
        } else {
            self.upgrades
        }
    }

    /// The image that the primary slot holds after an upgrade that respects
    /// dependencies: the upgrade if the image was to be upgraded, the primary
    /// image if it was to be held.
    pub open spec fn after_upgrade(&self, upgrade: UpgradeInfo) -> ImageData {
        match upgrade {
            UpgradeInfo::Upgraded => self.upgrades,
            UpgradeInfo::Held => self.primaries,
        }
    }

    /// Whether the upgrade lies in the block of RAM at its home: the home
    /// is known and lies in the block, the image fits it, and every byte of
    /// the image, without its padding, is there.
    pub open spec fn ram_loaded(&self, block: Seq<u8>, ram: Seq<(crate::slots::SlotKey, SlotPlace)>)
        -> bool {
        match home_of(ram, key_of(self.slots[0])) {
            None => false,
            Some(place) => {
                let base = place.offset - RAM_LOAD_ADDR;
                let size = self.upgrades.spec_size() as int;
                &&& base >= 0
                &&& base + place.size <= block.len()
                &&& size <= place.size
                &&& size <= self.upgrades.spec_plain().len()
                &&& block.subrange(base, base + size) == self.upgrades.spec_plain().subrange(0, size)
            },
        }
    }
}

/// Whether the given slot of every image holds the image it is compared
/// against.
pub open spec fn images_present(
    images: Seq<OneImage>,
    flash: MultiFlash,
    slot: usize,
    against: usize,
    caps: CapSet,
) -> bool {
    forall|i: int|
        0 <= i < images.len() ==> image_present(
            flash,
            (#[trigger] images[i]).slots[slot as int],
            images[i].against(against),
            caps,
        )
}

/// Whether the primary slot of some image, among those that the test of
/// dependencies speaks of, does not hold what the test expects.
pub open spec fn deps_violated(images: Seq<OneImage>, flash: MultiFlash, deps: DepTest, caps: CapSet)
    -> bool {
    exists|i: int|
        0 <= i < images.len() && i < 2 && !image_present(
            flash,
            (#[trigger] images[i]).slots[0],
            images[i].after_upgrade(deps.upgrades[i]),
            caps,
        )
}

/// Whether the trailer of the given slot of every image is as expected.
pub open spec fn trailers_ok(
    images: Seq<OneImage>,
    flash: MultiFlash,
    slot: usize,
    cfg: BootConfig,
    magic: Option<u8>,
    image_ok: Option<u8>,
    copy_done: Option<u8>,
) -> bool {
    forall|i: int|
        0 <= i < images.len() ==> trailer_ok(
            flash,
            (#[trigger] images[i]).slots[slot as int],
            cfg,
            magic,
            image_ok,
            copy_done,
        )
}

/// Whether the trailer of the given slot of some image is as expected.
pub open spec fn some_trailer_ok(
    images: Seq<OneImage>,
    flash: MultiFlash,
    slot: usize,
    cfg: BootConfig,
    magic: Option<u8>,
    image_ok: Option<u8>,
    copy_done: Option<u8>,
) -> bool {
    exists|i: int|
        0 <= i < images.len() && trailer_ok(
            flash,
            (#[trigger] images[i]).slots[slot as int],
            cfg,
            magic,
            image_ok,
            copy_done,
        )
}

/// Whether the upgrade of every image lies in the block of RAM at its home.
pub open spec fn ram_images_loaded(
    images: Seq<OneImage>,
    block: Seq<u8>,
    ram: Seq<(crate::slots::SlotKey, SlotPlace)>,
) -> bool {
    forall|i: int| 0 <= i < images.len() ==> (#[trigger] images[i]).ram_loaded(block, ram)
}

/// Tells whether the first `len` bytes of two strings are the same.
fn same_prefix(a: &[u8], b: &Vec<u8>, len: usize) -> (res: bool)
    requires
        len <= a@.len(),
        len <= b@.len(),
    ensures
        res == (a@.subrange(0, len as int) == b@.subrange(0, len as int)),
{
    let mut j: usize = 0;
    while j < len
        invariant
            j <= len,
            len <= a@.len(),
            len <= b@.len(),
            forall|k: int| 0 <= k < j ==> a@[k] == b@[k],
        decreases len - j,
    {
        if a[j] != b[j] {
            assert(a@.subrange(0, len as int)[j as int] != b@.subrange(0, len as int)[j as int]);
            return false;
        }
        j = j + 1;
    }
    assert(a@.subrange(0, len as int) =~= b@.subrange(0, len as int));
    true
}

/// Tells whether the upgrade of an image lies in the block of RAM at its
/// home.
pub fn ram_image_loaded(image: &OneImage, block: &RamBlock, ram: &RamData) -> (res: bool)
    ensures
        res == image.ram_loaded(block@, ram.spec_places()),
{
    let place: SlotPlace = match ram.lookup(&image.slots[0]) {
        Some(place) => place,
        None => {
            return false;
        },
    };
    if place.offset < RAM_LOAD_ADDR {
        return false;
    }
    let base: usize = (place.offset - RAM_LOAD_ADDR) as usize;
    let size: usize = place.size as usize;
    let total: usize = block.borrow().len();
    if base > total || size > total - base {
        return false;
    }
    let src_sz: usize = image.upgrades.size();
    let plain: &Vec<u8> = image.upgrades.plain();
    if src_sz > size || src_sz > plain.len() {
        return false;
    }
    let ram_image: &[u8] = block.borrow_part(base, size);
    assert(ram_image@.subrange(0, src_sz as int) =~= block@.subrange(base as int, base + src_sz));
    same_prefix(ram_image, plain, src_sz)
}

impl Images {
    /// The board as it was when the images were installed.
    pub closed spec fn spec_flash(&self) -> MultiFlash {
        self.flash
    }

    /// The images, with their slots.
    pub closed spec fn spec_images(&self) -> Seq<OneImage> {
        self.images@
    }

    /// The number of flash operations of an upgrade, once it was counted.
    pub closed spec fn spec_total_count(&self) -> Option<i32> {
        self.total_count
    }

    /// The homes of the slots in RAM.
    pub closed spec fn spec_ram(&self) -> RamData {
        self.ram
    }

    /// What the bootloader reports of itself.
    pub closed spec fn spec_cfg(&self) -> BootConfig {
        self.cfg
    }

    /// The map of flash areas.
    pub closed spec fn spec_areadesc(&self) -> AreaDesc {
        self.areadesc
    }

    /// The board and the configuration are well-formed, and every slot has
    /// room for its trailer.
    pub open spec fn wf(&self) -> bool {
        &&& self.spec_flash().wf()
        &&& self.spec_cfg().wf()
        &&& forall|i: int, s: int|
            0 <= i < self.spec_images().len() && 0 <= s < 2 ==> (
            #[trigger] self.spec_images()[i].slots[s]).fits(self.spec_cfg())
    }

    /// Puts the images of a board together.
    pub fn new(
        flash: MultiFlash,
        areadesc: AreaDesc,
        images: Vec<OneImage>,
        ram: RamData,
        cfg: BootConfig,
    ) -> (res: Images)
        ensures
            res.spec_flash() == flash,
            res.spec_images() == images@,
            res.spec_total_count() is None,
            res.spec_ram() == ram,
            res.spec_cfg() == cfg,
            res.spec_areadesc() == areadesc,
    {
        Images { flash, areadesc, images, total_count: None, ram, cfg }
    }

    /// The board as it was when the images were installed.
    pub fn flash(&self) -> (res: &MultiFlash)
        ensures
            *res == self.spec_flash(),
    {
        &self.flash
    }

    /// The board as it was when the images were installed, to be changed.
    pub fn flash_mut(&mut self) -> (res: &mut MultiFlash)
        ensures
            *res == old(self).spec_flash(),
            final(self).spec_flash() == *final(res),
            final(self).spec_images() == old(self).spec_images(),
            final(self).spec_total_count() == old(self).spec_total_count(),
            final(self).spec_ram() == old(self).spec_ram(),
            final(self).spec_cfg() == old(self).spec_cfg(),
            final(self).spec_areadesc() == old(self).spec_areadesc(),
    {
        &mut self.flash
    }

    /// The map of flash areas.
    pub fn areadesc(&self) -> (res: &AreaDesc)
        ensures
            *res == self.spec_areadesc(),
    {
        &self.areadesc
    }

    /// What the bootloader reports of itself.
    pub fn cfg(&self) -> (res: &BootConfig)
        ensures
            *res == self.spec_cfg(),
    {
        &self.cfg
    }

    /// The homes of the slots in RAM.
    pub fn ram(&self) -> (res: &RamData)
        ensures
            *res == self.spec_ram(),
    {
        &self.ram
    }

    /// The description of a slot of an image.
    pub fn slot(&self, image: usize, slot: usize) -> (res: SlotInfo)
        requires
            image < self.spec_images().len(),
            slot <= 1,
        ensures
            res == self.spec_images()[image as int].slots[slot as int],
    {
        self.images[image].slots[slot]
    }

    /// The images, with their slots.
    pub fn images(&self) -> (res: &Vec<OneImage>)
        ensures
            res@ == self.spec_images(),
    {
        &self.images
    }

    /// The number of images.
    pub fn num_images(&self) -> (res: usize)
        ensures
            res == self.spec_images().len(),
    {
        self.images.len()
    }

    /// The number of flash operations of an upgrade, once it was counted.
    pub fn total_count(&self) -> (res: Option<i32>)
        ensures
            res == self.spec_total_count(),
    {
        self.total_count
    }

    /// Records the number of flash operations of an upgrade.
    pub fn set_total_count(&mut self, total_count: Option<i32>)
        ensures
            final(self).spec_total_count() == total_count,
            final(self).spec_flash() == old(self).spec_flash(),
            final(self).spec_images() == old(self).spec_images(),
            final(self).spec_ram() == old(self).spec_ram(),
            final(self).spec_cfg() == old(self).spec_cfg(),
            final(self).spec_areadesc() == old(self).spec_areadesc(),
    {
        self.total_count = total_count;
    }

    /// Whether the bootloader upgrades by swapping the slots.
    pub fn is_swap_upgrade(&self) -> (res: bool)
        ensures
            res == self.spec_cfg().caps.swaps(),
    {
        Caps::SwapUsingScratch.present(&self.cfg.caps) || Caps::SwapUsingMove.present(
            &self.cfg.caps,
        )
    }

    /// Verify the image in the given flash device, the specified slot
    /// against the expected image.
    pub fn verify_images(&self, flash: &MultiFlash, slot: usize, against: usize) -> (res: bool)
        requires
            flash.wf(),
            slot <= 1,
            against <= 1,
        ensures
            res == images_present(self.spec_images(), *flash, slot, against, self.spec_cfg().caps),
    {
        let mut i: usize = 0;
        while i < self.images.len()
            invariant
                i <= self.images.len(),
                flash.wf(),
                slot <= 1,
                forall|k: int|
                    0 <= k < i ==> image_present(
                        *flash,
                        (#[trigger] self.images@[k]).slots[slot as int],
                        self.images@[k].against(against),
                        self.cfg.caps,
                    ),
            decreases self.images.len() - i,
        {
            let image: &OneImage = &self.images[i];
            let expected: &ImageData = if against == 0 {
                &image.primaries
            } else {
                &image.upgrades
            };
            if !verify_image(flash, &image.slots[slot], expected, &self.cfg.caps) {
                return false;
            }
            i = i + 1;
        }
        true
    }

    /// Verify the images, according to the dependency test.  Tells whether
    /// some image is not as the test expects.
    pub fn verify_dep_images(&self, flash: &MultiFlash, deps: &DepTest) -> (res: bool)
        requires
            flash.wf(),
        ensures
            res == deps_violated(self.spec_images(), *flash, *deps, self.spec_cfg().caps),
    {
        let mut i: usize = 0;
        while i < self.images.len() && i < 2
            invariant
                i <= self.images.len(),
                i <= 2,
                flash.wf(),
                forall|k: int|
                    0 <= k < i ==> image_present(
                        *flash,
                        (#[trigger] self.images@[k]).slots[0],
                        self.images@[k].after_upgrade(deps.upgrades[k]),
                        self.cfg.caps,
                    ),
            decreases self.images.len() - i,
        {
            let image: &OneImage = &self.images[i];
            let expected: &ImageData = match deps.upgrades[i] {
                UpgradeInfo::Upgraded => &image.upgrades,
                UpgradeInfo::Held => &image.primaries,
            };
            if !verify_image(flash, &image.slots[0], expected, &self.cfg.caps) {
                return true;
            }
            i = i + 1;
        }
        false
    }

    /// Verify that the trailers of the images have the specified values.
    pub fn verify_trailers(
        &self,
        flash: &MultiFlash,
        slot: usize,
        magic: Option<u8>,
        image_ok: Option<u8>,
        copy_done: Option<u8>,
    ) -> (res: bool)
        requires
            flash.wf(),
            self.spec_cfg().wf(),
            slot <= 1,
        ensures
            res == trailers_ok(
                self.spec_images(),
                *flash,
                slot,
                self.spec_cfg(),
                magic,
                image_ok,
                copy_done,
            ),
    {
        let mut i: usize = 0;
        while i < self.images.len()
            invariant
                i <= self.images.len(),
                flash.wf(),
                self.cfg.wf(),
                slot <= 1,
                forall|k: int|
                    0 <= k < i ==> trailer_ok(
                        *flash,
                        (#[trigger] self.images@[k]).slots[slot as int],
                        self.cfg,
                        magic,
                        image_ok,
                        copy_done,
                    ),
            decreases self.images.len() - i,
        {
            if !verify_trailer(
                flash,
                &self.images[i].slots[slot],
                &self.cfg,
                magic,
                image_ok,
                copy_done,
            ) {
                return false;
            }
            i = i + 1;
        }
        true
    }

    /// Verify that at least one of the trailers of the images have the
    /// specified values.
    pub fn verify_trailers_loose(
        &self,
        flash: &MultiFlash,
        slot: usize,
        magic: Option<u8>,
        image_ok: Option<u8>,
        copy_done: Option<u8>,
    ) -> (res: bool)
        requires
            flash.wf(),
            self.spec_cfg().wf(),
            slot <= 1,
        ensures
            res == some_trailer_ok(
                self.spec_images(),
                *flash,
                slot,
                self.spec_cfg(),
                magic,
                image_ok,
                copy_done,
            ),
    {
        let mut i: usize = 0;
        while i < self.images.len()
            invariant
                i <= self.images.len(),
                flash.wf(),
                self.cfg.wf(),
                slot <= 1,
                forall|k: int|
                    0 <= k < i ==> !trailer_ok(
                        *flash,
                        (#[trigger] self.images@[k]).slots[slot as int],
                        self.cfg,
                        magic,
                        image_ok,
                        copy_done,
                    ),
            decreases self.images.len() - i,
        {
            if verify_trailer(
                flash,
                &self.images[i].slots[slot],
                &self.cfg,
                magic,
                image_ok,
                copy_done,
            ) {
                return true;
            }
            i = i + 1;
        }
        false
    }

    /// Verify that the upgrade of every image was loaded to its home in the
    /// block of RAM.
    pub fn verify_ram_images(&self, block: &RamBlock) -> (res: bool)
        ensures
            res == ram_images_loaded(self.spec_images(), block@, self.spec_ram().spec_places()),
    {
        let mut i: usize = 0;
        while i < self.images.len()
            invariant
                i <= self.images.len(),
                forall|k: int|
                    0 <= k < i ==> (#[trigger] self.images@[k]).ram_loaded(
                        block@,
                        self.ram.spec_places(),
                    ),
            decreases self.images.len() - i,
        {
            if !ram_image_loaded(&self.images[i], block, &self.ram) {
                return false;
            }
            i = i + 1;
        }
        true
    }

    /// Whether `after` is `before` with the faults that
    /// `mark_bad_status_with_rate` sets up: the bytes of the board are the
    /// same, and each device has the faults of the status areas on it after
    /// those it had.  Nothing changes for a bootloader that upgrades by
    /// overwriting.
    pub open spec fn status_marked(
        &self,
        before: MultiFlash,
        after: MultiFlash,
        slot: int,
        rate: u32,
    ) -> bool {
        &&& after.same_but_faults(before)
        &&& self.spec_cfg().caps.has(Caps::OverwriteUpgrade) ==> after == before
        &&& !self.spec_cfg().caps.has(Caps::OverwriteUpgrade) ==> forall|d: int|
            0 <= d < before.spec_devs().len() ==> {
                let now = #[trigger] after.spec_devs()[d];
                &&& now.spec_verify_writes() == before.spec_devs()[d].spec_verify_writes()
                &&& now.spec_bad_regions() == before.spec_devs()[d].spec_bad_regions()
                    + status_faults(
                    self.spec_images(),
                    slot,
                    self.spec_cfg(),
                    before.spec_ids(),
                    d,
                    rate,
                    self.spec_images().len() as int,
                )
            }
    }

    /// Whether `after` is `before` as `reset_bad_status` leaves it: the
    /// bytes of the board are the same; each device that holds the slot of
    /// an image is without faults and does not verify its writes; the others
    /// are as they were.  Nothing changes for a bootloader that does not
    /// validate the primary slot.
    pub open spec fn status_reset(&self, before: MultiFlash, after: MultiFlash, slot: int) -> bool {
        &&& after.same_but_faults(before)
        &&& !self.spec_cfg().caps.has(Caps::ValidatePrimarySlot) ==> after == before
        &&& self.spec_cfg().caps.has(Caps::ValidatePrimarySlot) ==> forall|d: int|
            0 <= d < before.spec_devs().len() ==> {
                let now = #[trigger] after.spec_devs()[d];
                if holds_slot(
                    self.spec_images(),
                    slot,
                    before.spec_ids(),
                    d,
                    self.spec_images().len() as int,
                ) {
                    now.spec_bad_regions().len() == 0 && !now.spec_verify_writes()
                } else {
                    now == before.spec_devs()[d]
                }
            }
    }

    /// Mark each of the images for permanent upgrade.  Stops at the first
    /// image whose mark cannot be written.
    pub fn mark_permanent_upgrades(&self, flash: &mut MultiFlash, slot: usize) -> (res: Result<
        (),
        MarkError,
    >)
        requires
            self.wf(),
            old(flash).wf(),
            slot <= 1,
        ensures
            final(flash).wf(),
            final(flash).same_board(*old(flash)),
            all_marked(
                true,
                self.spec_images(),
                slot as int,
                self.spec_cfg(),
                *old(flash),
                *final(flash),
                failure(res),
                0,
            ),
    {
        self.mark_all(true, flash, slot)
    }

    /// Mark each of the images for upgrade.  Stops at the first image whose
    /// mark cannot be written.
    pub fn mark_upgrades(&self, flash: &mut MultiFlash, slot: usize) -> (res: Result<(), MarkError>)
        requires
            self.wf(),
            old(flash).wf(),
            slot <= 1,
        ensures
            final(flash).wf(),
            final(flash).same_board(*old(flash)),
            all_marked(
                false,
                self.spec_images(),
                slot as int,
                self.spec_cfg(),
                *old(flash),
                *final(flash),
                failure(res),
                0,
            ),
    {
        self.mark_all(false, flash, slot)
    }

    /// Mark each of the images for upgrade on the board that the images were
    /// installed on.  Stops at the first image whose mark cannot be written.
    pub fn mark_upgrades_in_place(&mut self, slot: usize) -> (res: Result<(), MarkError>)
        requires
            old(self).wf(),
            slot <= 1,
        ensures
            final(self).wf(),
            final(self).spec_images() == old(self).spec_images(),
            final(self).spec_total_count() == old(self).spec_total_count(),
            final(self).spec_ram() == old(self).spec_ram(),
            final(self).spec_cfg() == old(self).spec_cfg(),
            final(self).spec_areadesc() == old(self).spec_areadesc(),
            final(self).spec_flash().same_board(old(self).spec_flash()),
            all_marked(
                false,
                old(self).spec_images(),
                slot as int,
                old(self).spec_cfg(),
                old(self).spec_flash(),
                final(self).spec_flash(),
                failure(res),
                0,
            ),
    {
        assert forall|k: int, s: int| 0 <= k < self.images@.len() && 0 <= s < 2 implies (
        #[trigger] self.images@[k].slots[s]).fits(self.cfg) by {
            assert(self.spec_images()[k].slots[s].fits(self.spec_cfg()));
        }
        let res = mark_each(false, &self.images, &self.cfg, &mut self.flash, slot);
        assert forall|i: int, s: int|
            0 <= i < self.spec_images().len() && 0 <= s < 2 implies (
        #[trigger] self.spec_images()[i].slots[s]).fits(self.spec_cfg()) by {
            assert(old(self).spec_images()[i].slots[s].fits(old(self).spec_cfg()));
        }
        res
    }

    // Puts a mark on the given slot of each image, one after the other.
    fn mark_all(&self, permanent: bool, flash: &mut MultiFlash, slot: usize) -> (res: Result<
        (),
        MarkError,
    >)
        requires
            self.wf(),
            old(flash).wf(),
            slot <= 1,
        ensures
            final(flash).wf(),
            final(flash).same_board(*old(flash)),
            all_marked(
                permanent,
                self.spec_images(),
                slot as int,
                self.spec_cfg(),
                *old(flash),
                *final(flash),
                failure(res),
                0,
            ),
    {
        assert forall|k: int, s: int| 0 <= k < self.images@.len() && 0 <= s < 2 implies (
        #[trigger] self.images@[k].slots[s]).fits(self.cfg) by {
            assert(self.spec_images()[k].slots[s].fits(self.spec_cfg()));
        }
        mark_each(permanent, &self.images, &self.cfg, flash, slot)
    }

    /// Makes writes to the status area of the given slot of every image
    /// fault at the given rate.  A bootloader that upgrades by overwriting
    /// keeps no status, so nothing is marked for it.  An image whose device
    /// is not on the board, or whose status area cannot be placed, is passed
    /// over.  The bytes of the board stay as they are.
    pub fn mark_bad_status_with_rate(&self, flash: &mut MultiFlash, slot: usize, rate: u32)
        requires
            self.wf(),
            old(flash).wf(),
            slot <= 1,
        ensures
            final(flash).wf(),
            self.status_marked(*old(flash), *final(flash), slot as int, rate),
    {
        if Caps::OverwriteUpgrade.present(&self.cfg.caps) {
            return ;
        }
        // Set this for each image.
        let mut i: usize = 0;
        assert forall|d: int| 0 <= d < flash.spec_devs().len() implies (
        #[trigger] flash.spec_devs()[d]).spec_bad_regions() =~= old(flash).spec_devs()[d].spec_bad_regions()
            + status_faults(
            self.spec_images(),
            slot as int,
            self.spec_cfg(),
            old(flash).spec_ids(),
            d,
            rate,
            0,
        ) by {}
        while i < self.images.len()
            invariant
                i <= self.images.len(),
                self.wf(),
                flash.wf(),
                slot <= 1,
                flash.same_but_faults(*old(flash)),
                forall|d: int|
                    0 <= d < old(flash).spec_devs().len() ==> {
                        let now = #[trigger] flash.spec_devs()[d];
                        &&& now.spec_verify_writes() == old(flash).spec_devs()[d].spec_verify_writes()
                        &&& now.spec_bad_regions() == old(flash).spec_devs()[d].spec_bad_regions()
                            + status_faults(
                            self.spec_images(),
                            slot as int,
                            self.spec_cfg(),
                            old(flash).spec_ids(),
                            d,
                            rate,
                            i as int,
                        )
                    },
            decreases self.images.len() - i,
        {
            let info: SlotInfo = self.images[i].slots[slot];
            assert(self.spec_images()[i as int].slots[slot as int].fits(self.spec_cfg()));
            let ghost before = *flash;
            match flash.find(info.dev_id) {
                Some(at) => {
                    let end: usize = info.base_off + info.len;
                    if self.cfg.trailer_sz <= end {
                        // Mark the status area as a bad area.
                        let status_off: usize = end - self.cfg.trailer_sz;
                        let _ = flash.add_bad_region(at, status_off, self.cfg.status_sz, rate);
                        assert forall|k: int| 0 <= k < flash.spec_devs().len() implies (
                        #[trigger] flash.spec_devs()[k]).same_but_faults(old(flash).spec_devs()[k]) by {
                            assert(flash.spec_devs()[k].same_but_faults(before.spec_devs()[k]));
                            assert(before.spec_devs()[k].same_but_faults(old(flash).spec_devs()[k]));
                        }
                    }
                },
                None => {},
            }
            proof {
                assert forall|d: int| 0 <= d < old(flash).spec_devs().len() implies {
                    let now = #[trigger] flash.spec_devs()[d];
                    &&& now.spec_verify_writes() == old(flash).spec_devs()[d].spec_verify_writes()
                    &&& now.spec_bad_regions() == old(flash).spec_devs()[d].spec_bad_regions()
                        + status_faults(
                        self.spec_images(),
                        slot as int,
                        self.spec_cfg(),
                        old(flash).spec_ids(),
                        d,
                        rate,
                        i + 1,
                    )
                } by {
                    let was = before.spec_devs()[d];
                    let now = flash.spec_devs()[d];
                    let first = old(flash).spec_devs()[d].spec_bad_regions();
                    let sofar = status_faults(
                        self.spec_images(),
                        slot as int,
                        self.spec_cfg(),
                        old(flash).spec_ids(),
                        d,
                        rate,
                        i as int,
                    );
                    assert(was.same_but_faults(old(flash).spec_devs()[d]));
                    assert(now.same_but_faults(before.spec_devs()[d]));
                    assert(was.spec_bad_regions() == first + sofar);
                    assert(before.spec_ids() == old(flash).spec_ids());
                    assert(now.spec_bad_regions() =~= first + status_faults(
                        self.spec_images(),
                        slot as int,
                        self.spec_cfg(),
                        old(flash).spec_ids(),
                        d,
                        rate,
                        i + 1,
                    ));
                }
            }
            i = i + 1;
        }
    }

    /// Takes the faults away from the device of the given slot of every
    /// image, and stops the device from verifying its writes, so that the
    /// only assertion the bootloader can raise is about the integrity of its
    /// status bytes.  Nothing is done for a bootloader that does not validate
    /// the primary slot.  The bytes of the board stay as they are.
    pub fn reset_bad_status(&self, flash: &mut MultiFlash, slot: usize)
        requires
            self.wf(),
            old(flash).wf(),
            slot <= 1,
        ensures
            final(flash).wf(),
            self.status_reset(*old(flash), *final(flash), slot as int),
    {
        if !Caps::ValidatePrimarySlot.present(&self.cfg.caps) {
            return ;
        }
        let mut i: usize = 0;
        while i < self.images.len()
            invariant
                i <= self.images.len(),
                self.wf(),
                flash.wf(),
                slot <= 1,
                flash.same_but_faults(*old(flash)),
                forall|d: int|
                    0 <= d < old(flash).spec_devs().len() ==> {
                        let now = #[trigger] flash.spec_devs()[d];
                        if holds_slot(
                            self.spec_images(),
                            slot as int,
                            old(flash).spec_ids(),
                            d,
                            i as int,
                        ) {
                            now.spec_bad_regions().len() == 0 && !now.spec_verify_writes()
                        } else {
                            now == old(flash).spec_devs()[d]
                        }
                    },
            decreases self.images.len() - i,
        {
            let ghost before = *flash;
            match flash.find(self.images[i].slots[slot].dev_id) {
                Some(at) => {
                    flash.reset_faults(at, false);
                    assert forall|k: int| 0 <= k < flash.spec_devs().len() implies (
                    #[trigger] flash.spec_devs()[k]).same_but_faults(old(flash).spec_devs()[k]) by {
                        assert(flash.spec_devs()[k].same_but_faults(before.spec_devs()[k]));
                        assert(before.spec_devs()[k].same_but_faults(old(flash).spec_devs()[k]));
                    }
                },
                None => {},
            }
            proof {
                assert(before.spec_ids() == old(flash).spec_ids());
                assert forall|d: int| 0 <= d < old(flash).spec_devs().len() implies {
                    let now = #[trigger] flash.spec_devs()[d];
                    if holds_slot(
                        self.spec_images(),
                        slot as int,
                        old(flash).spec_ids(),
                        d,
                        i + 1,
                    ) {
                        now.spec_bad_regions().len() == 0 && !now.spec_verify_writes()
                    } else {
                        now == old(flash).spec_devs()[d]
                    }
                } by {
                    let was = before.spec_devs()[d];
                    assert(if holds_slot(
                        self.spec_images(),
                        slot as int,
                        old(flash).spec_ids(),
                        d,
                        i as int,
                    ) {
                        was.spec_bad_regions().len() == 0 && !was.spec_verify_writes()
                    } else {
                        was == old(flash).spec_devs()[d]
                    });
                }
            }
            i = i + 1;
        }
    }
}

// Puts a mark on the given slot of each image, one after the other.
fn mark_each(
    permanent: bool,
    images: &Vec<OneImage>,
    cfg: &BootConfig,
    flash: &mut MultiFlash,
    slot: usize,
) -> (res: Result<(), MarkError>)
    requires
        cfg.wf(),
        forall|k: int, s: int|
            0 <= k < images@.len() && 0 <= s < 2 ==> (#[trigger] images@[k].slots[s]).fits(*cfg),
        old(flash).wf(),
        slot <= 1,
    ensures
        final(flash).wf(),
        final(flash).same_board(*old(flash)),
        all_marked(
            permanent,
            images@,
            slot as int,
            *cfg,
            *old(flash),
            *final(flash),
            failure(res),
            0,
        ),
{
    let ghost mut states: Seq<MultiFlash> = seq![*flash];
    let mut i: usize = 0;
    while i < images.len()
        invariant
            i <= images.len(),
            cfg.wf(),
            forall|k: int, s: int|
                0 <= k < images@.len() && 0 <= s < 2 ==> (#[trigger] images@[k].slots[s]).fits(
                    *cfg,
                ),
            flash.wf(),
            flash.same_board(*old(flash)),
            slot <= 1,
            states.len() == i + 1,
            states[0] == *old(flash),
            states[i as int] == *flash,
            forall|j: int|
                0 <= j < i ==> one_marked(
                    permanent,
                    #[trigger] states[j],
                    states[j + 1],
                    images@[j].slots[slot as int],
                    *cfg,
                    Ok(()),
                ),
        decreases images.len() - i,
    {
        let ghost before = *flash;
        assert(images@[i as int].slots[slot as int].fits(*cfg));
        let marked = if permanent {
            mark_permanent_upgrade(flash, &images[i].slots[slot], cfg)
        } else {
            mark_upgrade(flash, &images[i].slots[slot], cfg)
        };
        proof {
            lemma_same_board_trans(*flash, before, *old(flash));
        }
        match marked {
            Ok(()) => {},
            Err(e) => {
                proof {
                    lemma_marks_chain(
                        permanent,
                        images@,
                        slot as int,
                        *cfg,
                        states,
                        *flash,
                        marked,
                        0,
                    );
                }
                return Err(e);
            },
        }
        proof {
            let ghost longer = states.push(*flash);
            assert forall|j: int| 0 <= j < i + 1 implies one_marked(
                permanent,
                #[trigger] longer[j],
                longer[j + 1],
                images@[j].slots[slot as int],
                *cfg,
                Ok(()),
            ) by {
                if j < i {
                    assert(longer[j] == states[j] && longer[j + 1] == states[j + 1]);
                }
            }
            states = longer;
        }
        i = i + 1;
    }
    proof {
        lemma_marks_chain(
            permanent,
            images@,
            slot as int,
            *cfg,
            states,
            *flash,
            Ok(()),
            0,
        );
    }
    Ok(())
}

/// Whether `after` and `res` are what putting one mark on the slot gives
/// on `before`: the flag that makes the image permanent, or the magic that
/// asks for an upgrade.
pub open spec fn one_marked(
    permanent: bool,
    before: MultiFlash,
    after: MultiFlash,
    slot: SlotInfo,
    cfg: BootConfig,
    res: Result<(), MarkError>,
) -> bool {
    if permanent {
        permanent_marked(before, after, slot, cfg, res)
    } else {
        upgrade_marked(before, after, slot, cfg, res)
    }
}

/// Why a mark was not reported as written, if it was not.
pub open spec fn failure(res: Result<(), MarkError>) -> Option<MarkError> {
    match res {
        Ok(_) => None,
        Err(e) => Some(e),
    }
}

/// Whether `after` and `failed` are what putting a mark on the given slot
/// of the images from `from` on gives on `before`, one image after the
/// other, up to the first mark that is not reported as written.
pub open spec fn all_marked(
    permanent: bool,
    images: Seq<OneImage>,
    slot: int,
    cfg: BootConfig,
    before: MultiFlash,
    after: MultiFlash,
    failed: Option<MarkError>,
    from: int,
) -> bool
    decreases images.len() - from,
{
    if from < 0 || from >= images.len() {
        after == before && failed is None
    } else {
        exists|mid: MultiFlash, r: Result<(), MarkError>| #[trigger]
            one_marked(permanent, before, mid, images[from].slots[slot], cfg, r) && if r is Err {
                after == mid && failed == failure(r)
            } else {
                all_marked(permanent, images, slot, cfg, mid, after, failed, from + 1)
            }
    }
}

/// Marks that follow one another make up the marks of all.
proof fn lemma_marks_chain(
    permanent: bool,
    images: Seq<OneImage>,
    slot: int,
    cfg: BootConfig,
    states: Seq<MultiFlash>,
    after: MultiFlash,
    res: Result<(), MarkError>,
    from: int,
)
    requires
        0 <= from < states.len() <= images.len() + 1,
        forall|j: int|
            0 <= j < states.len() - 1 ==> one_marked(
                permanent,
                #[trigger] states[j],
                states[j + 1],
                images[j].slots[slot],
                cfg,
                Ok(()),
            ),
        if states.len() == images.len() + 1 {
            after == states.last() && res is Ok
        } else {
            res is Err && one_marked(
                permanent,
                states.last(),
                after,
                images[states.len() - 1].slots[slot],
                cfg,
                res,
            )
        },
    ensures
        all_marked(permanent, images, slot, cfg, states[from], after, failure(res), from),
    decreases states.len() - from,
{
    if from == states.len() - 1 {
        if states.len() != images.len() + 1 {
            assert(one_marked(permanent, states[from], after, images[from].slots[slot], cfg, res));
        }
    } else {
        lemma_marks_chain(permanent, images, slot, cfg, states, after, res, from + 1);
        assert(one_marked(
            permanent,
            states[from],
            states[from + 1],
            images[from].slots[slot],
            cfg,
            Ok(()),
        ));
    }
}

/// The faults that `mark_bad_status_with_rate` sets up on the device at
/// place `d` for the first `n` images: for each image whose slot is on the
/// device and has room for a trailer, the status area of the slot, if the
/// rate is one that a device takes.
pub open spec fn status_faults(
    images: Seq<OneImage>,
    slot: int,
    cfg: BootConfig,
    ids: Seq<u8>,
    d: int,
    rate: u32,
    n: int,
) -> Seq<BadRegion>
    decreases n,
{
    if n <= 0 {
        Seq::<BadRegion>::empty()
    } else {
        let rest = status_faults(images, slot, cfg, ids, d, rate, n - 1);
        let info = images[n - 1].slots[slot];
        let end = info.base_off + info.len;
        if ids.index_of_first(info.dev_id) == Some(d) && cfg.trailer_sz <= end && rate
            <= crate::flash::RATE_ONE {
            rest.push(
                BadRegion {
                    offset: (end - cfg.trailer_sz) as usize,
                    len: cfg.status_sz,
                    rate,
                },
            )
        } else {
            rest
        }
    }
}

/// Whether the device at place `d` holds the given slot of one of the first
/// `n` images.
pub open spec fn holds_slot(images: Seq<OneImage>, slot: int, ids: Seq<u8>, d: int, n: int) -> bool
    decreases n,
{
    if n <= 0 {
        false
    } else {
        ids.index_of_first(images[n - 1].slots[slot].dev_id) == Some(d) || holds_slot(
            images,
            slot,
            ids,
            d,
            n - 1,
        )
    }
}

/// Boards that are set up the same way stay so over several steps.
pub proof fn lemma_same_board_trans(a: MultiFlash, b: MultiFlash, c: MultiFlash)
    requires
        a.same_board(b),
        b.same_board(c),
    ensures
        a.same_board(c),
{
    assert forall|i: int| 0 <= i < a.spec_devs().len() implies (#[trigger] a.spec_devs()[i]).same_setup(
        c.spec_devs()[i],
    ) by {
        assert(a.spec_devs()[i].same_setup(b.spec_devs()[i]));
        assert(b.spec_devs()[i].same_setup(c.spec_devs()[i]));
    }
}

/// Two boards on which the same slot holds the same image hold the same
/// bytes where the image lies.  What is checked of a board after a boot that
/// was interrupted and resumed is what is checked after a boot that ran
/// through: boards that pass both hold identical contents in the slot.
pub proof fn lemma_same_image_same_content(
    a: MultiFlash,
    b: MultiFlash,
    slot: SlotInfo,
    images: ImageData,
    caps: CapSet,
)
    requires
        image_present(a, slot, images, caps),
        image_present(b, slot, images, caps),
    ensures
        a.place(slot.dev_id) is Some,
        b.place(slot.dev_id) is Some,
        ({
            let len = images.expected(slot.index, caps)->0.len();
            a.spec_devs()[a.place(slot.dev_id)->0]@.subrange(
                slot.base_off as int,
                slot.base_off + len,
            ) == b.spec_devs()[b.place(slot.dev_id)->0]@.subrange(
                slot.base_off as int,
                slot.base_off + len,
            )
        }),
{
}

/// Two boards with the same erased value on which the trailer of the same
/// slot is found set, with magic and both flags, hold the same magic and the
/// same flags.
pub proof fn lemma_same_trailer_same_state(
    a: MultiFlash,
    b: MultiFlash,
    slot: SlotInfo,
    cfg: BootConfig,
)
    requires
        !cfg.caps.has(Caps::OverwriteUpgrade),
        trailer_ok(a, slot, cfg, Some(1u8), Some(1u8), Some(1u8)),
        trailer_ok(b, slot, cfg, Some(1u8), Some(1u8), Some(1u8)),
    ensures
        ({
            let da = a.spec_devs()[a.place(slot.dev_id)->0]@;
            let db = b.spec_devs()[b.place(slot.dev_id)->0]@;
            &&& da.subrange(slot.magic_off(cfg), slot.magic_off(cfg) + 16) == db.subrange(
                slot.magic_off(cfg),
                slot.magic_off(cfg) + 16,
            )
            &&& da[slot.image_ok_off(cfg)] == db[slot.image_ok_off(cfg)]
            &&& da[slot.copy_done_off(cfg)] == db[slot.copy_done_off(cfg)]
        }),
{
}

/// Where a scenario stands.
pub struct TrialState {
    /// The step that is carried out next.
    pub pc: int,
    /// How many expectations were not met.
    pub fails: int,
    /// Whether the scenario was given up.
    pub aborted: bool,
    /// Whether a boot was handed out and not reported yet.
    pub pending: bool,
    /// The number of flash operations counted so far.
    pub count: i32,
    /// Whether the first boot of a counted upgrade was interrupted.
    pub first_interrupted: bool,
    /// The number of flash operations that remain for boots interrupted at
    /// random.
    pub remaining: i32,
    /// The boot that was handed out last.
    pub request: BootRequest,
}

/// What a step that prepares the board makes of the board and of the count
/// of expectations that were not met.  A mark that is not reported as
/// written counts, and so does a step that names no slot.  A step that
/// does not touch the board leaves it as it is.
pub open spec fn prepared(
    step: Step,
    images: Images,
    before: MultiFlash,
    after: MultiFlash,
    fails: int,
    now: int,
) -> bool {
    match step {
        Step::MarkUpgrades(slot) => if slot <= 1 {
            exists|failed: Option<MarkError>| #[trigger]
                all_marked(
                    false,
                    images.spec_images(),
                    slot as int,
                    images.spec_cfg(),
                    before,
                    after,
                    failed,
                    0,
                ) && now == (if failed is None {
                    fails
                } else {
                    one_more(fails)
                })
        } else {
            after == before && now == one_more(fails)
        },
        Step::MarkPermanent(slot) => if slot <= 1 {
            exists|failed: Option<MarkError>| #[trigger]
                all_marked(
                    true,
                    images.spec_images(),
                    slot as int,
                    images.spec_cfg(),
                    before,
                    after,
                    failed,
                    0,
                ) && now == (if failed is None {
                    fails
                } else {
                    one_more(fails)
                })
        } else {
            after == before && now == one_more(fails)
        },
        Step::MarkBadStatus(slot, rate) => if slot <= 1 {
            images.status_marked(before, after, slot as int, rate) && now == fails
        } else {
            after == before && now == one_more(fails)
        },
        Step::ResetBadStatus(slot) => if slot <= 1 {
            images.status_reset(before, after, slot as int) && now == fails
        } else {
            after == before && now == one_more(fails)
        },
        // No operation is left to interrupt a boot at.
        Step::RandomReset => after == before && now == one_more(fails),
        _ => after == before && now == fails,
    }
}

/// One more expectation that was not met; the count stops at what 32 bits
/// hold.
pub open spec fn one_more(fails: int) -> int {
    if fails < u32::MAX {
        fails + 1
    } else {
        fails
    }
}

/// Whether a step that checks the board finds what it expects.
pub open spec fn check_passes(
    step: Step,
    images: Images,
    flash: MultiFlash,
    counters: Seq<u32>,
    block: Seq<u8>,
) -> bool {
    let caps = images.spec_cfg().caps;
    match step {
        Step::ImagesAre(slot, against, want) => slot <= 1 && against <= 1 && images_present(
            images.spec_images(),
            flash,
            slot,
            against,
            caps,
        ) == want,
        Step::TrailersAre(slot, magic, image_ok, copy_done, want) => slot <= 1 && trailers_ok(
            images.spec_images(),
            flash,
            slot,
            images.spec_cfg(),
            magic,
            image_ok,
            copy_done,
        ) == want,
        Step::SomeTrailerIs(slot, magic, image_ok, copy_done) => slot <= 1 && some_trailer_ok(
            images.spec_images(),
            flash,
            slot,
            images.spec_cfg(),
            magic,
            image_ok,
            copy_done,
        ),
        Step::DepImages(deps) => !deps_violated(images.spec_images(), flash, deps, caps),
        Step::CounterIs(image_index, value) => image_index < counters.len()
            && counters[image_index as int] == value,
        Step::RamImages => ram_images_loaded(
            images.spec_images(),
            block,
            images.spec_ram().spec_places(),
        ),
        _ => true,
    }
}

/// Whether a step checks the board, and does nothing else.
pub open spec fn is_check(step: Step) -> bool {
    step is ImagesAre || step is TrailersAre || step is SomeTrailerIs || step is DepImages
        || step is CounterIs || step is RamImages
}

/// Whether a step hands out a boot.  The boot that completes a counted
/// upgrade is only handed out if the first boot was interrupted.
pub open spec fn boots(step: Step, state: TrialState) -> bool {
    step is Boot || step is TryUpgrade || (step is ResumeUpgrade && state.first_interrupted) || (
    step is RandomReset && state.remaining >= 2)
}

/// Where a scenario stands after a step that checked the board.
pub open spec fn after_check(state: TrialState, passes: bool) -> TrialState {
    TrialState {
        pc: state.pc + 1,
        fails: if passes {
            state.fails
        } else {
            one_more(state.fails)
        },
        ..state
    }
}

/// Where a scenario stands after a boot was reported.
pub open spec fn after_boot(state: TrialState, step: Step, outcome: BootOutcome) -> TrialState {
    let next = TrialState { pc: state.pc + 1, pending: false, ..state };
    match step {
        Step::Boot(request, judge) => if judged(judge, outcome.result) {
            next
        } else {
            TrialState { fails: one_more(state.fails), aborted: is_fatal(judge), ..next }
        },
        Step::TryUpgrade(stop) => match first_boot(stop, outcome) {
            Some((interrupted, count)) => TrialState {
                first_interrupted: interrupted,
                count,
                ..next
            },
            None => TrialState { fails: one_more(state.fails), aborted: true, ..next },
        },
        Step::ResumeUpgrade => match second_boot(state.count, outcome) {
            Some(count) => TrialState { count, ..next },
            None => TrialState { fails: one_more(state.fails), aborted: true, ..next },
        },
        Step::RandomReset => if outcome.result.spec_interrupted() {
            next
        } else {
            TrialState { fails: one_more(state.fails), aborted: true, ..next }
        },
        _ => next,
    }
}

impl Trial {
    /// Where the scenario stands.
    pub closed spec fn view(&self) -> TrialState {
        TrialState {
            pc: self.pc as int,
            fails: self.fails as int,
            aborted: self.aborted,
            pending: self.pending,
            count: self.count,
            first_interrupted: self.first_interrupted,
            remaining: self.remaining,
            request: self.request,
        }
    }

    /// The steps of the scenario.
    pub closed spec fn spec_script(&self) -> Seq<Step> {
        self.script@
    }

    /// Whether the scenario is over: it was given up, or no step is left.
    pub open spec fn over(&self) -> bool {
        self@.aborted || self@.pc >= self.spec_script().len()
    }

    /// The step that is carried out next.
    pub open spec fn current(&self) -> Step {
        self.spec_script()[self@.pc]
    }

    /// A scenario that is about to start.  `total` is the number of flash
    /// operations of an upgrade, for the boots that are interrupted at
    /// random.
    pub fn new(script: Vec<Step>, total: i32) -> (res: Trial)
        ensures
            res.spec_script() == script@,
            res@ == (TrialState {
                pc: 0,
                fails: 0,
                aborted: false,
                pending: false,
                count: 0,
                first_interrupted: false,
                remaining: total,
                request: no_boot(),
            }),
    {
        Trial {
            script,
            pc: 0,
            fails: 0,
            aborted: false,
            pending: false,
            count: 0,
            first_interrupted: false,
            remaining: total,
            request: BootRequest {
                counter: None,
                image_index: None,
                catch_asserts: false,
                with_ram: false,
            },
        }
    }

    /// Whether an expectation was not met, or the scenario was given up.
    pub fn failed(&self) -> (res: bool)
        ensures
            res == (self@.fails > 0 || self@.aborted),
    {
        self.fails > 0 || self.aborted
    }

    /// Whether the scenario was given up: the bootloader answered in a way
    /// after which the steps that follow mean nothing.
    pub fn aborted(&self) -> (res: bool)
        ensures
            res == self@.aborted,
    {
        self.aborted
    }

    /// The number of flash operations counted so far.
    pub fn count(&self) -> (res: i32)
        ensures
            res == self@.count,
    {
        self.count
    }

    /// The number of flash operations of the upgrade that the scenario
    /// counted, if the scenario met every expectation.
    pub fn counted(&self) -> (res: Option<i32>)
        ensures
            res == if self@.fails > 0 || self@.aborted {
                None
            } else {
                Some(self@.count)
            },
    {
        if self.failed() {
            None
        } else {
            Some(self.count)
        }
    }

    fn fail(&mut self)
        ensures
            final(self)@ == (TrialState { fails: one_more(old(self)@.fails), ..old(self)@ }),
            final(self).spec_script() == old(self).spec_script(),
    {
        if self.fails < u32::MAX {
            self.fails = self.fails + 1;
        }
    }

    /// The boot that a step hands out.
    fn request_of(&self, step: &Step, sample: u32) -> (res: BootRequest)
        ensures
            res == boot_request(*step, sample),
    {
        match step {
            Step::Boot(request, _) => *request,
            Step::TryUpgrade(stop) => BootRequest {
                counter: Some(
                    match stop {
                        Some(n) => *n,
                        None => 0,
                    },
                ),
                image_index: None,
                catch_asserts: false,
                with_ram: false,
            },
            Step::RandomReset => BootRequest {
                counter: Some(
                    if sample < 0x7fff_ffff {
                        (sample + 1) as i32
                    } else {
                        0x7fff_ffff
                    },
                ),
                image_index: None,
                catch_asserts: false,
                with_ram: false,
            },
            _ => BootRequest {
                counter: Some(0),
                image_index: None,
                catch_asserts: false,
                with_ram: false,
            },
        }
    }

    /// Carries out the next step of the scenario on the board.
    ///
    /// A scenario that is over stays as it is.  A step that boots hands out
    /// the boot, again and again until the boot is reported with `booted`.
    /// A step that checks the board counts a failure if it does not find what
    /// it expects, and leaves the board alone.  A step that prepares the
    /// board counts a failure if the board refuses.
    pub fn step(
        &mut self,
        images: &Images,
        flash: &mut MultiFlash,
        counters: &mut NvCounterStorage,
        block: &RamBlock,
    ) -> (res: Action)
        requires
            images.wf(),
            old(flash).wf(),
        ensures
            final(flash).wf(),
            final(self).spec_script() == old(self).spec_script(),
            final(flash).spec_ids() == old(flash).spec_ids(),
            final(flash).spec_devs().len() == old(flash).spec_devs().len(),
            old(self).over() ==> res == Action::Done && final(self)@ == old(self)@ && *final(flash)
                == *old(flash) && *final(counters) == *old(counters),
            !old(self).over() && !old(self)@.pending && is_check(old(self).current()) ==> {
                &&& res == Action::Continue
                &&& *final(flash) == *old(flash)
                &&& *final(counters) == *old(counters)
                &&& final(self)@ == after_check(
                    old(self)@,
                    check_passes(
                        old(self).current(),
                        *images,
                        *old(flash),
                        old(counters).storage@,
                        block@,
                    ),
                )
            },
            !old(self).over() && old(self)@.pending ==> res == Action::Boot(old(self)@.request)
                && final(self)@ == old(self)@ && *final(flash) == *old(flash) && *final(counters)
                == *old(counters),
            !old(self).over() && !old(self)@.pending && boots(old(self).current(), old(self)@) ==> {
                &&& res == Action::Boot(final(self)@.request)
                &&& *final(flash) == *old(flash)
                &&& *final(counters) == *old(counters)
                &&& final(self)@.pc == old(self)@.pc
                &&& final(self)@.pending
                &&& final(self)@.fails == old(self)@.fails
                &&& !final(self)@.aborted
                &&& final(self)@.count == old(self)@.count
                &&& final(self)@.first_interrupted == old(self)@.first_interrupted
                &&& !(old(self).current() is RandomReset) ==> final(self)@.request == boot_request(
                    old(self).current(),
                    0,
                ) && final(self)@.remaining == old(self)@.remaining
                &&& old(self).current() is RandomReset ==> exists|sample: u32|
                    sample < old(self)@.remaining / 2 && final(self)@.request
                        == #[trigger] boot_request(old(self).current(), sample) && final(self)@.remaining == old(self)@.remaining - reset_point(sample)
            },
            !old(self).over() && !old(self)@.pending && !is_check(old(self).current()) && !boots(
                old(self).current(),
                old(self)@,
            ) ==> {
                &&& res == Action::Continue
                &&& final(self)@.pc == old(self)@.pc + 1
                &&& !final(self)@.pending
                &&& final(self)@.count == old(self)@.count
                &&& final(self)@.remaining == old(self)@.remaining
                &&& final(self)@.aborted == old(self)@.aborted
                &&& final(self)@.first_interrupted == old(self)@.first_interrupted
                &&& final(self)@.request == old(self)@.request
                &&& old(self).current() is ResumeUpgrade ==> final(self)@ == (TrialState {
                    pc: old(self)@.pc + 1,
                    ..old(self)@
                })
                &&& old(self).current() is SetCounter ==> final(self)@.fails == old(self)@.fails
                    && final(counters).storage@ == crate::boot::set_counter_storage(
                    old(counters).storage@,
                    old(self).current()->SetCounter_0,
                    old(self).current()->SetCounter_1,
                )
                &&& !(old(self).current() is SetCounter) ==> *final(counters) == *old(counters)
                &&& prepared(
                    old(self).current(),
                    *images,
                    *old(flash),
                    *final(flash),
                    old(self)@.fails,
                    final(self)@.fails,
                )
                &&& forall|i: int|
                    0 <= i < old(flash).spec_devs().len() ==> (
                    #[trigger] final(flash).spec_devs()[i]).spec_sectors() == old(flash).spec_devs()[i].spec_sectors()
            },
    {
        if self.aborted || self.pc >= self.script.len() {
            return Action::Done;
        }
        if self.pending {
            return Action::Boot(self.request);
        }
        let step: Step = self.script[self.pc];
        match step {
            Step::ImagesAre(slot, against, want) => {
                let passes: bool = slot <= 1 && against <= 1 && images.verify_images(
                    flash,
                    slot,
                    against,
                ) == want;
                if !passes {
                    self.fail();
                }
                self.pc = self.pc + 1;
                Action::Continue
            },
            Step::TrailersAre(slot, magic, image_ok, copy_done, want) => {
                let passes: bool = slot <= 1 && images.verify_trailers(
                    flash,
                    slot,
                    magic,
                    image_ok,
                    copy_done,
                ) == want;
                if !passes {
                    self.fail();
                }
                self.pc = self.pc + 1;
                Action::Continue
            },
            Step::SomeTrailerIs(slot, magic, image_ok, copy_done) => {
                let passes: bool = slot <= 1 && images.verify_trailers_loose(
                    flash,
                    slot,
                    magic,
                    image_ok,
                    copy_done,
                );
                if !passes {
                    self.fail();
                }
                self.pc = self.pc + 1;
                Action::Continue
            },
            Step::DepImages(deps) => {
                if images.verify_dep_images(flash, &deps) {
                    self.fail();
                }
                self.pc = self.pc + 1;
                Action::Continue
            },
            Step::CounterIs(image_index, value) => {
                let passes: bool = match crate::boot::sim_get_nv_counter_for_image(
                    counters,
                    image_index,
                ).1 {
                    Some(stored) => stored == value,
                    None => false,
                };
                if !passes {
                    self.fail();
                }
                self.pc = self.pc + 1;
                Action::Continue
            },
            Step::RamImages => {
                if !images.verify_ram_images(block) {
                    self.fail();
                }
                self.pc = self.pc + 1;
                Action::Continue
            },
            Step::MarkUpgrades(slot) => {
                if slot <= 1 {
                    let marked = images.mark_upgrades(flash, slot);
                    if marked.is_err() {
                        self.fail();
                    }
                    assert(all_marked(
                        false,
                        images.spec_images(),
                        slot as int,
                        images.spec_cfg(),
                        *old(flash),
                        *flash,
                        failure(marked),
                        0,
                    ));
                } else {
                    self.fail();
                }
                self.pc = self.pc + 1;
                Action::Continue
            },
            Step::MarkPermanent(slot) => {
                if slot <= 1 {
                    let marked = images.mark_permanent_upgrades(flash, slot);
                    if marked.is_err() {
                        self.fail();
                    }
                    assert(all_marked(
                        true,
                        images.spec_images(),
                        slot as int,
                        images.spec_cfg(),
                        *old(flash),
                        *flash,
                        failure(marked),
                        0,
                    ));
                } else {
                    self.fail();
                }
                self.pc = self.pc + 1;
                Action::Continue
            },
            Step::MarkBadStatus(slot, rate) => {
                if slot <= 1 {
                    images.mark_bad_status_with_rate(flash, slot, rate);
                } else {
                    self.fail();
                }
                self.pc = self.pc + 1;
                Action::Continue
            },
            Step::ResetBadStatus(slot) => {
                if slot <= 1 {
                    images.reset_bad_status(flash, slot);
                } else {
                    self.fail();
                }
                self.pc = self.pc + 1;
                Action::Continue
            },
            Step::SetCounter(image_index, value) => {
                crate::boot::set_security_counter(counters, image_index, value);
                self.pc = self.pc + 1;
                Action::Continue
            },
            Step::Boot(_, _) => {
                self.pending = true;
                self.request = self.request_of(&step, 0);
                Action::Boot(self.request)
            },
            Step::TryUpgrade(_) => {
                self.pending = true;
                self.request = self.request_of(&step, 0);
                Action::Boot(self.request)
            },
            Step::ResumeUpgrade => {
                if self.first_interrupted {
                    self.pending = true;
                    self.request = self.request_of(&step, 0);
                    Action::Boot(self.request)
                } else {
                    self.pc = self.pc + 1;
                    Action::Continue
                }
            },
            Step::RandomReset => {
                if self.remaining < 2 {
                    // No operation is left to interrupt the boot at.
                    self.fail();
                    self.pc = self.pc + 1;
                    return Action::Continue;
                }
                let sample: u32 = random_below((self.remaining / 2) as u32);
                self.remaining = self.remaining - (sample + 1) as i32;
                self.pending = true;
                self.request = self.request_of(&step, sample);
                Action::Boot(self.request)
            },
        }
    }

    /// Takes note of what the boot that was handed out reported, and moves
    /// on to the next step.  Nothing happens if no boot is awaited.
    pub fn booted(&mut self, outcome: &BootOutcome)
        ensures
            final(self).spec_script() == old(self).spec_script(),
            old(self).over() || !old(self)@.pending ==> final(self)@ == old(self)@,
            !old(self).over() && old(self)@.pending ==> final(self)@ == after_boot(
                old(self)@,
                old(self).current(),
                *outcome,
            ),
    {
        if self.aborted || self.pc >= self.script.len() || !self.pending {
            return ;
        }
        let step: Step = self.script[self.pc];
        self.pending = false;
        self.pc = self.pc + 1;
        match step {
            Step::Boot(_, judge) => {
                if !judge_boot(judge, &outcome.result) {
                    self.fail();
                    self.aborted = judge_is_fatal(judge);
                }
            },
            Step::TryUpgrade(stop) => {
                match judge_first_boot(stop, outcome) {
                    Some((interrupted, count)) => {
                        self.first_interrupted = interrupted;
                        self.count = count;
                    },
                    None => {
                        self.fail();
                        self.aborted = true;
                    },
                }
            },
            Step::ResumeUpgrade => {
                match judge_second_boot(self.count, outcome) {
                    Some(count) => {
                        self.count = count;
                    },
                    None => {
                        self.fail();
                        self.aborted = true;
                    },
                }
            },
            Step::RandomReset => {
                if !outcome.result.interrupted() {
                    self.fail();
                    self.aborted = true;
                }
            },
            _ => {},
        }
    }
}

/// The request that stands in for the last boot while none was handed out.
pub open spec fn no_boot() -> BootRequest {
    BootRequest { counter: None, image_index: None, catch_asserts: false, with_ram: false }
}

/// The boot that a step hands out.  A plain boot hands out its own request.
/// The first boot of a counted upgrade is interrupted after the number of
/// operations given, and counts its operations in any case.  A boot that is
/// interrupted at random is interrupted at the point drawn.  The boot that
/// completes a counted upgrade is not interrupted, and counts.
pub open spec fn boot_request(step: Step, sample: u32) -> BootRequest {
    match step {
        Step::Boot(request, judge) => request,
        Step::TryUpgrade(stop) => BootRequest {
            counter: Some(
                match stop {
                    Some(n) => n,
                    None => 0,
                },
            ),
            image_index: None,
            catch_asserts: false,
            with_ram: false,
        },
        Step::RandomReset => BootRequest {
            counter: Some(
                if sample < 0x7fff_ffff {
                    (sample + 1) as i32
                } else {
                    0x7fff_ffffi32
                },
            ),
            image_index: None,
            catch_asserts: false,
            with_ram: false,
        },
        _ => BootRequest {
            counter: Some(0),
            image_index: None,
            catch_asserts: false,
            with_ram: false,
        },
    }
}

/// When a scenario finds the primary images in the primary slots of a
/// board, as it expects after an upgrade that was not confirmed was booted
/// twice and more, every primary slot holds the image that was installed in
/// it: two such boards hold the same bytes there.
pub proof fn lemma_reverted_holds_primaries(
    images: Images,
    a: MultiFlash,
    b: MultiFlash,
    counters: Seq<u32>,
    block: Seq<u8>,
    i: int,
)
    requires
        check_passes(Step::ImagesAre(0, 0, true), images, a, counters, block),
        check_passes(Step::ImagesAre(0, 0, true), images, b, counters, block),
        0 <= i < images.spec_images().len(),
    ensures
        image_present(
            a,
            images.spec_images()[i].slots[0],
            images.spec_images()[i].primaries,
            images.spec_cfg().caps,
        ),
        ({
            let slot = images.spec_images()[i].slots[0];
            let len = images.spec_images()[i].primaries.expected(
                slot.index,
                images.spec_cfg().caps,
            )->0.len();
            a.spec_devs()[a.place(slot.dev_id)->0]@.subrange(
                slot.base_off as int,
                slot.base_off + len,
            ) == b.spec_devs()[b.place(slot.dev_id)->0]@.subrange(
                slot.base_off as int,
                slot.base_off + len,
            )
        }),
{
    let image = images.spec_images()[i];
    assert(image.against(0) == image.primaries);
    lemma_same_image_same_content(a, b, image.slots[0], image.primaries, images.spec_cfg().caps);
}

/// When the check of the dependencies passes on a board, each image that
/// the test speaks of holds in its primary slot what the test declares: its
/// upgrade if it was to be upgraded, its primary image if it was to be held.
pub proof fn lemma_dependency_fidelity(
    images: Images,
    flash: MultiFlash,
    deps: DepTest,
    counters: Seq<u32>,
    block: Seq<u8>,
    i: int,
)
    requires
        check_passes(Step::DepImages(deps), images, flash, counters, block),
        0 <= i < images.spec_images().len(),
        i < 2,
    ensures
        image_present(
            flash,
            images.spec_images()[i].slots[0],
            match deps.upgrades[i] {
                UpgradeInfo::Upgraded => images.spec_images()[i].upgrades,
                UpgradeInfo::Held => images.spec_images()[i].primaries,
            },
            images.spec_cfg().caps,
        ),
{
}

/// A scenario that has met every expectation so far and fails a check has
/// failed, whatever follows; one that passes the check stands as before.
pub proof fn lemma_failed_check_fails(state: TrialState, passes: bool)
    requires
        0 <= state.fails <= u32::MAX,
    ensures
        after_check(state, passes).fails > 0 <==> state.fails > 0 || !passes,
        after_check(state, passes).aborted == state.aborted,
{
}

} // verus!
