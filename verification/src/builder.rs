//! The builder for the images of a board.
//!
//! A builder describes a single run of the simulator: the flash devices of a
//! board, the map of its areas, and the slots of its images.  From it the
//! images of a scenario are made: which slots get an image, of what size,
//! and manipulated in which way.

use crate::area::{AreaDesc, FlashArea, FlashId, first_with};
use crate::caps::{CapSet, Caps};
use crate::depends::{DepTest, DepType, Depender, no_deps, spec_no_deps};
use crate::device::{DeviceName, fresh_board, make_device, table_after};
use crate::image::{
    ImageData,
    ImageManipulation,
    ImageSize,
    InstallError,
    SealedKey,
    install_image,
    install_no_image,
    install_ptable,
    installed,
    lemma_recorded_same_setup,
    maximal,
    ptables_installed,
    recorded_as,
    spec_maximal,
};
use crate::multiflash::MultiFlash;
use crate::oracle::{Images, OneImage, all_marked, lemma_same_board_trans};
use crate::slots::{
    BootConfig,
    MarkError,
    RamData,
    SlotInfo,
    mark_upgrade,
    ram_base,
    ram_fits,
    ram_layout,
};
use crate::tlv::KeyStore;
use vstd::prelude::*;

verus! {

/// Why a board cannot be tested with a bootloader.
#[derive(Copy, Clone, Debug, PartialEq, Eq, Structural)]
pub enum BuildError {
    /// The bootloader has a capability that the board cannot serve.
    Unsupported(Caps),
    /// The bootloader manages more than two images.
    TooManyImages,
    /// The board has no slots for one of the images.
    InsufficientPartitions,
    /// A slot is too small to hold a trailer.
    SlotTooSmall,
    /// The slots have no room in RAM.
    NoRam,
}

/// Why the images of a scenario could not be made.
#[derive(Copy, Clone, Debug, PartialEq, Eq, Structural)]
pub enum MakeError {
    /// An image could not be installed.
    Install(InstallError),
    /// A slot could not be marked.
    Mark(MarkError),
    /// The partition table could not be written.
    Table(crate::flash::FlashError),
}

/// What is installed in a slot.
#[derive(Copy, Clone, Debug, PartialEq, Eq, Structural)]
pub struct ImagePlan {
    pub size: ImageSize,
    pub manipulation: ImageManipulation,
    pub security_counter: Option<u32>,
}

/// A builder for Images.  This describes a single run of the simulator,
/// capturing the configuration of a particular set of devices, including
/// the flash simulator(s) and the information about the slots.
pub struct ImagesBuilder {
    flash: MultiFlash,
    areadesc: AreaDesc,
    slots: Vec<[SlotInfo; 2]>,
    ram: RamData,
    cfg: BootConfig,
}

/// The first of the capabilities from place `from` on that the bootloader
/// has.
pub open spec fn first_present(unsupported: Seq<Caps>, caps: CapSet, from: int) -> Option<Caps>
    decreases unsupported.len() - from,
{
    if from < 0 || from >= unsupported.len() {
        None
    } else if caps.has(unsupported[from]) {
        Some(unsupported[from])
    } else {
        first_present(unsupported, caps, from + 1)
    }
}

/// The description of the slot that an area spans, if the area has room
/// for a trailer and ends within what can be addressed.
pub open spec fn slot_of(area: FlashArea, index: usize, cfg: BootConfig) -> Option<SlotInfo> {
    if area.off + area.size <= usize::MAX && cfg.spec_offset_from_end() <= area.size {
        Some(
            SlotInfo {
                base_off: area.off as usize,
                trailer_off: (area.off + area.size - cfg.spec_offset_from_end()) as usize,
                len: area.size as usize,
                index,
                dev_id: area.device_id,
            },
        )
    } else {
        None
    }
}

/// The two slots of an image, as found in the table of areas: the first
/// areas with the purposes of the image.  The board lacks partitions if one
/// of the two is not there; a slot is too small if it has no room for a
/// trailer.
pub open spec fn image_slots(whole: Seq<FlashArea>, image: usize, cfg: BootConfig) -> Result<
    [SlotInfo; 2],
    BuildError,
> {
    let (id0, id1) = if image == 0 {
        (FlashId::Image0, FlashId::Image1)
    } else {
        (FlashId::Image2, FlashId::Image3)
    };
    match (first_with(whole, id0, 0), first_with(whole, id1, 0)) {
        (Some(primary), Some(secondary)) => match (
            slot_of(primary, 0, cfg),
            slot_of(secondary, 1, cfg),
        ) {
            (Some(p), Some(s)) => Ok([p, s]),
            _ => Err(BuildError::SlotTooSmall),
        },
        _ => Err(BuildError::InsufficientPartitions),
    }
}

/// The slots of the first `n` images, or why the first image that has none
/// has none.
pub open spec fn slots_upto(whole: Seq<FlashArea>, cfg: BootConfig, n: int) -> Result<
    Seq<[SlotInfo; 2]>,
    BuildError,
>
    decreases n,
{
    if n <= 0 {
        Ok(Seq::<[SlotInfo; 2]>::empty())
    } else {
        match slots_upto(whole, cfg, n - 1) {
            Err(e) => Err(e),
            Ok(before) => match image_slots(whole, (n - 1) as usize, cfg) {
                Err(e) => Err(e),
                Ok(pair) => Ok(before.push(pair)),
            },
        }
    }
}

/// What building for a board and a bootloader gives: the slots of the
/// images, or why the board cannot be tested with the bootloader.  The board
/// is refused for the first capability of the bootloader that it does not
/// support, for more than two images, for an image without slots, and for
/// slots that have no room in RAM.
pub open spec fn build_plan(device: DeviceName, cfg: BootConfig) -> Result<
    Seq<[SlotInfo; 2]>,
    BuildError,
> {
    let whole = table_after(device.spec_slots(), device.spec_slots().len() as int);
    match first_present(device.spec_unsupported(), cfg.caps, 0) {
        Some(cap) => Err(BuildError::Unsupported(cap)),
        None => if cfg.caps.num_images > 2 {
            Err(BuildError::TooManyImages)
        } else {
            match slots_upto(whole, cfg, cfg.caps.num_images as int) {
                Err(e) => Err(e),
                Ok(slots) => if ram_fits(slots) {
                    Ok(slots)
                } else {
                    Err(BuildError::NoRam)
                },
            }
        },
    }
}

/// What `make_no_upgrade_image` installs in the primary slot of an image.
/// Where the image with the higher version is to be corrupted, the primary
/// image of the first image stays good.
pub open spec fn primary_plan(image: usize, manipulation: ImageManipulation, caps: CapSet)
    -> ImagePlan {
    ImagePlan {
        size: spec_maximal(42784, caps),
        manipulation: if manipulation == ImageManipulation::CorruptHigherVersionImage && image
            == 0 {
            ImageManipulation::Unmodified
        } else {
            manipulation
        },
        security_counter: Some(0),
    }
}

/// What `make_no_upgrade_image` installs in the secondary slot of an image:
/// nothing where the test of dependencies provides no upgrade.  Where the
/// image with the higher version is to be corrupted, the upgrade of the
/// first image gets a bad signature.
pub open spec fn upgrade_plan(
    image: usize,
    deps: DepTest,
    manipulation: ImageManipulation,
    caps: CapSet,
) -> Option<ImagePlan> {
    if image < 2 && deps.depends[image as int] == DepType::NoUpgrade {
        None
    } else {
        Some(
            ImagePlan {
                size: spec_maximal(46928, caps),
                manipulation: if manipulation == ImageManipulation::CorruptHigherVersionImage
                    && image == 0 {
                    ImageManipulation::BadSignature
                } else {
                    manipulation
                },
                security_counter: Some(0),
            },
        )
    }
}

/// Whether what a slot was given agrees with what was planned for it: a
/// slot that nothing was planned for holds no image, and any other the
/// record of an image as planned, put together for the device of the slot
/// on `board`.
pub open spec fn as_planned(
    plan: Option<ImagePlan>,
    board: MultiFlash,
    slot: SlotInfo,
    ram: RamData,
    deps: Depender,
    cfg: BootConfig,
    keys: KeyStore,
    data: ImageData,) -> bool {
    match plan {
        None => data.spec_size() == 0 && data.spec_plain().len() == 0 && data.spec_cipher()
            is None,
        Some(p) => board.place(slot.dev_id) is Some && recorded_as(
            board.spec_devs()[board.place(slot.dev_id)->0],
            slot,
            p.size,
            ram,
            deps,
            p.manipulation,
            p.security_counter,
            cfg,
            keys,
            data,),
    }
}

/// What was planned for a slot depends on the board through the setup of
/// its devices alone.
pub proof fn lemma_planned_same_board(
    plan: Option<ImagePlan>,
    a: MultiFlash,
    b: MultiFlash,
    slot: SlotInfo,
    ram: RamData,
    deps: Depender,
    cfg: BootConfig,
    keys: KeyStore,
    data: ImageData,)
    requires
        a.wf(),
        a.same_board(b),
        as_planned(plan, a, slot, ram, deps, cfg, keys, data),
    ensures
        as_planned(plan, b, slot, ram, deps, cfg, keys, data),
{
    if let Some(p) = plan {
        a.spec_ids().index_of_first_ensures(slot.dev_id);
        let at = a.place(slot.dev_id)->0;
        assert(a.spec_devs()[at].same_setup(b.spec_devs()[at]));
        lemma_recorded_same_setup(
            a.spec_devs()[at],
            b.spec_devs()[at],
            slot,
            p.size,
            ram,
            deps,
            p.manipulation,
            p.security_counter,
            cfg,
            keys,
            data,);
    }
}

/// The same plan for each of `n` images.
pub open spec fn uniform(n: nat, primary: Option<ImagePlan>, upgrade: Option<ImagePlan>) -> Seq<
    (Option<ImagePlan>, Option<ImagePlan>),
> {
    Seq::new(n, |i: int| (primary, upgrade))
}

/// The plans of `make_no_upgrade_image` for `n` images.
pub open spec fn no_upgrade_plans(
    n: nat,
    deps: DepTest,
    manipulation: ImageManipulation,
    caps: CapSet,
) -> Seq<(Option<ImagePlan>, Option<ImagePlan>)> {
    Seq::new(
        n,
        |i: int|
            (
                Some(primary_plan(i as usize, manipulation, caps)),
                upgrade_plan(i as usize, deps, manipulation, caps),
            ),
    )
}

/// An image of the given size, as it is, with the security counter 0.
pub open spec fn plain_plan(size: ImageSize) -> Option<ImagePlan> {
    Some(ImagePlan { size, manipulation: ImageManipulation::Unmodified, security_counter: Some(0) })
}

/// Whether `after` and `res` are what installing in a slot what is planned
/// for it gives on `before`: nothing changes, and no image is recorded,
/// where nothing is planned; otherwise the image that is planned is
/// installed.
pub open spec fn plan_installed(
    plan: Option<ImagePlan>,
    before: MultiFlash,
    after: MultiFlash,
    slot: SlotInfo,
    ram: RamData,
    dep: Depender,
    cfg: BootConfig,
    keys: KeyStore,
    res: Result<ImageData, MakeError>,) -> bool {
    match plan {
        None => after == before && (res matches Ok(data) && data.spec_size() == 0
            && data.spec_plain() == Seq::<u8>::empty() && data.spec_cipher() is None),
        Some(p) => match res {
            Ok(data) => installed(
                before,
                after,
                slot,
                p.size,
                ram,
                dep,
                p.manipulation,
                p.security_counter,
                cfg,
                keys,
                Ok(data),),
            Err(MakeError::Install(e)) => installed(
                before,
                after,
                slot,
                p.size,
                ram,
                dep,
                p.manipulation,
                p.security_counter,
                cfg,
                keys,
                Err(e),),
            Err(_) => false,
        },
    }
}

/// Installs in a slot what is planned for it.
fn install_planned(
    flash: &mut MultiFlash,
    slot: &SlotInfo,
    plan: Option<ImagePlan>,
    ram: &RamData,
    dep: &Depender,
    cfg: &BootConfig,
    keys: &KeyStore,
    sealed: &Option<SealedKey>,
) -> (res: Result<ImageData, MakeError>)
    requires
        old(flash).wf(),
        cfg.wf(),
        dep.wf(),
        slot.index <= 1,
    ensures
        final(flash).wf(),
        final(flash).same_board(*old(flash)),
        plan_installed(plan, *old(flash), *final(flash), *slot, *ram, *dep, *cfg, *keys, res),
        res matches Ok(data) ==> as_planned(plan, *old(flash), *slot, *ram, *dep, *cfg, *keys, data),
{
    match plan {
        Some(p) => match install_image(
            flash,
            slot,
            p.size,
            ram,
            dep,
            p.manipulation,
            p.security_counter,
            cfg,
            keys,
            sealed,
        ) {
            Ok(data) => Ok(data),
            Err(e) => Err(MakeError::Install(e)),
        },
        None => Ok(install_no_image()),
    }
}

/// Whether `after` and `res` are what installing the two slots of an image
/// gives on `before`: the primary slot first, and the secondary slot if
/// that went well.
pub open spec fn pair_installed(
    plan: (Option<ImagePlan>, Option<ImagePlan>),
    before: MultiFlash,
    after: MultiFlash,
    slots: [SlotInfo; 2],
    ram: RamData,
    dep: Depender,
    cfg: BootConfig,
    keys: KeyStore,
    res: Result<(ImageData, ImageData), MakeError>,) -> bool {
    exists|between: MultiFlash, first: Result<ImageData, MakeError>| #[trigger]
        plan_installed(plan.0, before, between, slots[0], ram, dep, cfg, keys, first) && match first {
            Err(e) => after == between && res == Err::<(ImageData, ImageData), MakeError>(e),
            Ok(primaries) => match res {
                Ok(both) => both.0 == primaries && plan_installed(
                    plan.1,
                    between,
                    after,
                    slots[1],
                    ram,
                    dep,
                    cfg,
                    keys,
                    Ok(both.1),),
                Err(e) => plan_installed(plan.1, between, after, slots[1], ram, dep, cfg, keys, Err(e)),
            },
        }
}

/// Installs in the two slots of an image what is planned for them.
fn install_pair(
    flash: &mut MultiFlash,
    slots: &[SlotInfo; 2],
    plan: (Option<ImagePlan>, Option<ImagePlan>),
    ram: &RamData,
    dep: &Depender,
    cfg: &BootConfig,
    keys: &KeyStore,
    sealed: &Option<SealedKey>,
) -> (res: Result<(ImageData, ImageData), MakeError>)
    requires
        old(flash).wf(),
        cfg.wf(),
        dep.wf(),
        slots[0].index == 0,
        slots[1].index == 1,
    ensures
        final(flash).wf(),
        final(flash).same_board(*old(flash)),
        pair_installed(plan, *old(flash), *final(flash), *slots, *ram, *dep, *cfg, *keys, res),
        res matches Ok(both) ==> as_planned(plan.0, *old(flash), slots[0], *ram, *dep, *cfg, *keys, both.0)
            && as_planned(plan.1, *old(flash), slots[1], *ram, *dep, *cfg, *keys, both.1),
{
    let first = install_planned(flash, &slots[0], plan.0, ram, dep, cfg, keys, sealed);
    let ghost between = *flash;
    let primaries: ImageData = match first {
        Ok(primaries) => primaries,
        Err(e) => {
            assert(plan_installed(
                plan.0,
                *old(flash),
                between,
                slots[0],
                *ram,
                *dep,
                *cfg,
                *keys,
                Err(e),));
            return Err(e);
        },
    };
    assert(plan_installed(
        plan.0,
        *old(flash),
        between,
        slots[0],
        *ram,
        *dep,
        *cfg,
        *keys,
        Ok(primaries),));
    let second = install_planned(flash, &slots[1], plan.1, ram, dep, cfg, keys, sealed);
    proof {
        lemma_same_board_trans(*flash, between, *old(flash));
    }
    match second {
        Ok(upgrades) => {
            proof {
                lemma_planned_same_board(
                    plan.1,
                    between,
                    *old(flash),
                    slots[1],
                    *ram,
                    *dep,
                    *cfg,
                    *keys,
                    upgrades,);
            }
            Ok((primaries, upgrades))
        },
        Err(e) => Err(e),
    }
}

/// Whether `after`, `made` and `failed` are what installing the images from
/// `from` on gives on `before`, one image after the other, up to the first
/// that cannot be installed.  `made` holds the images that were installed.
pub open spec fn images_installed(
    plans: Seq<(Option<ImagePlan>, Option<ImagePlan>)>,
    slots: Seq<[SlotInfo; 2]>,
    ram: RamData,
    deps: DepTest,
    paired: bool,
    cfg: BootConfig,
    keys: KeyStore,
    before: MultiFlash,
    after: MultiFlash,
    made: Seq<OneImage>,
    failed: Option<MakeError>,
    from: int,) -> bool
    decreases slots.len() - from,
{
    if from < 0 || from >= slots.len() {
        after == before && failed is None
    } else {
        exists|then: MultiFlash, res: Result<(ImageData, ImageData), MakeError>| #[trigger]
            pair_installed(
                plans[from],
                before,
                then,
                slots[from],
                ram,
                Depender { number: from as usize, test: deps, paired },
                cfg,
                keys,
                res,) && match res {
                Err(e) => after == then && failed == Some(e),
                Ok(both) => made[from].slots == slots[from] && made[from].primaries == both.0
                    && made[from].upgrades == both.1 && images_installed(
                    plans,
                    slots,
                    ram,
                    deps,
                    paired,
                    cfg,
                    keys,
                    then,
                    after,
                    made,
                    failed,
                    from + 1,),
            }
    }
}

/// Whether image `j` was installed on the board `states[j]`, which gave
/// the board `states[j + 1]` and the image `made[j]`.
pub open spec fn image_made(
    plans: Seq<(Option<ImagePlan>, Option<ImagePlan>)>,
    slots: Seq<[SlotInfo; 2]>,
    ram: RamData,
    deps: DepTest,
    paired: bool,
    cfg: BootConfig,
    keys: KeyStore,
    states: Seq<MultiFlash>,
    made: Seq<OneImage>,
    j: int,) -> bool {
    made[j].slots == slots[j] && pair_installed(
        plans[j],
        states[j],
        states[j + 1],
        slots[j],
        ram,
        Depender { number: j as usize, test: deps, paired },
        cfg,
        keys,
        Ok((made[j].primaries, made[j].upgrades)),)
}

/// Images that are installed one after the other make up the images of
/// all.
proof fn lemma_installs_chain(
    plans: Seq<(Option<ImagePlan>, Option<ImagePlan>)>,
    slots: Seq<[SlotInfo; 2]>,
    ram: RamData,
    deps: DepTest,
    paired: bool,
    cfg: BootConfig,
    keys: KeyStore,
    states: Seq<MultiFlash>,
    made: Seq<OneImage>,
    after: MultiFlash,
    failed: Option<MakeError>,
    from: int,)
    requires
        0 <= from < states.len() <= slots.len() + 1,
        made.len() >= states.len() - 1,
        forall|j: int|
            0 <= j < states.len() - 1 ==> #[trigger] image_made(
                plans,
                slots,
                ram,
                deps,
                paired,
                cfg,
                keys,
                states,
                made,
                j,),
        if states.len() == slots.len() + 1 {
            after == states.last() && failed is None
        } else {
            failed is Some && pair_installed(
                plans[states.len() - 1],
                states.last(),
                after,
                slots[states.len() - 1],
                ram,
                Depender { number: (states.len() - 1) as usize, test: deps, paired },
                cfg,
                keys,
                Err(failed->0),)
        },
    ensures
        images_installed(plans, slots, ram, deps, paired, cfg, keys, states[from], after, made, failed, from),
    decreases states.len() - from,
{
    let dep = Depender { number: from as usize, test: deps, paired };
    if from == states.len() - 1 {
        if states.len() != slots.len() + 1 {
            assert(pair_installed(
                plans[from],
                states[from],
                after,
                slots[from],
                ram,
                dep,
                cfg,
                keys,
                Err(failed->0),));
        }
    } else {
        lemma_installs_chain(plans, slots, ram, deps, paired, cfg, keys, states, made, after, failed, from + 1);
        assert(image_made(plans, slots, ram, deps, paired, cfg, keys, states, made, from));
        assert(pair_installed(
            plans[from],
            states[from],
            states[from + 1],
            slots[from],
            ram,
            dep,
            cfg,
            keys,
            Ok((made[from].primaries, made[from].upgrades)),));
    }
}

impl ImagesBuilder {
    /// The board, still without images.
    pub closed spec fn spec_flash(&self) -> MultiFlash {
        self.flash
    }

    /// The slots of the images.
    pub closed spec fn spec_slots(&self) -> Seq<[SlotInfo; 2]> {
        self.slots@
    }

    /// What the bootloader reports of itself.
    pub closed spec fn spec_cfg(&self) -> BootConfig {
        self.cfg
    }

    /// The homes of the slots in RAM.
    pub closed spec fn spec_ram(&self) -> RamData {
        self.ram
    }

    /// The map of flash areas.
    pub closed spec fn spec_areadesc(&self) -> AreaDesc {
        self.areadesc
    }

    /// The board and the configuration are well-formed; there are two
    /// images at most, and each slot is numbered and has room for its
    /// trailer.
    pub open spec fn wf(&self) -> bool {
        &&& self.spec_flash().wf()
        &&& self.spec_cfg().wf()
        &&& self.spec_slots().len() <= 2
        &&& forall|i: int, s: int|
            0 <= i < self.spec_slots().len() && 0 <= s < 2 ==> {
                let slot = #[trigger] self.spec_slots()[i][s];
                slot.fits(self.spec_cfg()) && slot.index == s
            }
    }

    /// Whether the images that were made are those of this builder: the
    /// same slots, on the same board, for the same bootloader.
    pub open spec fn made(&self, images: Images) -> bool {
        &&& images.wf()
        &&& images.spec_cfg() == self.spec_cfg()
        &&& images.spec_ram() == self.spec_ram()
        &&& images.spec_areadesc() == self.spec_areadesc()
        &&& images.spec_total_count() is None
        &&& images.spec_flash().same_board(self.spec_flash())
        &&& images.spec_images().len() == self.spec_slots().len()
        &&& forall|i: int|
            0 <= i < self.spec_slots().len() ==> (#[trigger] images.spec_images()[i]).slots
                == self.spec_slots()[i]
    }

    /// Whether the images are those of this builder, made to the given
    /// plans, a pair of them for each image: one for the primary slot and
    /// one for the secondary.  `paired` tells whether the images depend on
    /// each other as `deps` says.
    pub open spec fn built(
        &self,
        images: Images,
        deps: DepTest,
        paired: bool,
        plans: Seq<(Option<ImagePlan>, Option<ImagePlan>)>,
        keys: KeyStore,
    ) -> bool {
        &&& self.made(images)
        &&& plans.len() == self.spec_slots().len()
        &&& forall|i: int|
            0 <= i < self.spec_slots().len() ==> {
                let image = #[trigger] images.spec_images()[i];
                let dep = Depender { number: i as usize, test: deps, paired };
                &&& as_planned(
                    plans[i].0,
                    self.spec_flash(),
                    self.spec_slots()[i][0],
                    self.spec_ram(),
                    dep,
                    self.spec_cfg(),
                    keys,
                    image.primaries,)
                &&& as_planned(
                    plans[i].1,
                    self.spec_flash(),
                    self.spec_slots()[i][1],
                    self.spec_ram(),
                    dep,
                    self.spec_cfg(),
                    keys,
                    image.upgrades,)
            }
    }

    /// Construct a new image builder for the given device.  The board is
    /// refused if it cannot serve the bootloader: if the bootloader has a
    /// capability that the board does not support, or if the board lacks the
    /// slots for one of the images.
    pub fn new(device: DeviceName, align: usize, erased_val: u8, cfg: &BootConfig) -> (res: Result<
        ImagesBuilder,
        BuildError,
    >)
        requires
            align > 0,
            align & ((align - 1) as usize) == 0,
            cfg.wf(),
        ensures
            match build_plan(device, *cfg) {
                Ok(slots) => res matches Ok(b) && b.wf() && b.spec_cfg() == *cfg && b.spec_slots()
                    == slots,
                Err(e) => res matches Err(e2) && e2 == e,
            },
            res matches Ok(b) ==> {
                &&& fresh_board(b.spec_flash(), device, align, erased_val)
                &&& b.spec_areadesc().wf()
                &&& b.spec_areadesc().spec_whole() == table_after(
                    device.spec_slots(),
                    device.spec_slots().len() as int,
                )
                &&& b.spec_ram().spec_places() == ram_layout(
                    b.spec_slots(),
                    b.spec_slots().len() as int,
                )
                &&& b.spec_ram().spec_total() == ram_base(
                    b.spec_slots(),
                    b.spec_slots().len() as int,
                )
            },
    {
        let (flash, areadesc, unsupported_caps) = make_device(device, align, erased_val);
        let mut k: usize = 0;
        while k < unsupported_caps.len()
            invariant
                k <= unsupported_caps.len(),
                unsupported_caps@ == device.spec_unsupported(),
                first_present(unsupported_caps@, cfg.caps, 0) == first_present(
                    unsupported_caps@,
                    cfg.caps,
                    k as int,
                ),
            decreases unsupported_caps.len() - k,
        {
            let cap: Caps = unsupported_caps[k];
            if cap.present(&cfg.caps) {
                return Err(BuildError::Unsupported(cap));
            }
            k = k + 1;
        }
        let num_images: usize = Caps::get_num_images(&cfg.caps);
        if num_images > 2 {
            return Err(BuildError::TooManyImages);
        }
        let mut slots: Vec<[SlotInfo; 2]> = Vec::new();
        let mut image: usize = 0;
        while image < num_images
            invariant
                image <= num_images <= 2,
                num_images == cfg.caps.num_images,
                first_present(device.spec_unsupported(), cfg.caps, 0) is None,
                cfg.wf(),
                areadesc.spec_whole() == table_after(
                    device.spec_slots(),
                    device.spec_slots().len() as int,
                ),
                slots_upto(areadesc.spec_whole(), *cfg, image as int) == Ok::<
                    Seq<[SlotInfo; 2]>,
                    BuildError,
                >(slots@),
                slots@.len() == image,
                forall|i: int, s: int|
                    0 <= i < slots@.len() && 0 <= s < 2 ==> {
                        let slot = #[trigger] slots@[i][s];
                        slot.fits(*cfg) && slot.index == s
                    },
            decreases num_images - image,
        {
            proof {
                reveal_with_fuel(slots_upto, 3);
            }
            // This mapping must match that of the bootloader.
            let (id0, id1) = if image == 0 {
                (FlashId::Image0, FlashId::Image1)
            } else {
                (FlashId::Image2, FlashId::Image3)
            };
            let (primary_base, primary_len, primary_dev_id) = match areadesc.find(id0) {
                Some(info) => info,
                None => {
                    return Err(BuildError::InsufficientPartitions);
                },
            };
            let (secondary_base, secondary_len, secondary_dev_id) = match areadesc.find(id1) {
                Some(info) => info,
                None => {
                    return Err(BuildError::InsufficientPartitions);
                },
            };
            // Construct a primary image.
            let primary: SlotInfo = match SlotInfo::new(
                primary_base,
                primary_len,
                primary_dev_id,
                0,
                cfg,
            ) {
                Some(slot) => slot,
                None => {
                    return Err(BuildError::SlotTooSmall);
                },
            };
            // And an upgrade image.
            let secondary: SlotInfo = match SlotInfo::new(
                secondary_base,
                secondary_len,
                secondary_dev_id,
                1,
                cfg,
            ) {
                Some(slot) => slot,
                None => {
                    return Err(BuildError::SlotTooSmall);
                },
            };
            let ghost before = slots@;
            let pair: [SlotInfo; 2] = [primary, secondary];
            assert(image_slots(areadesc.spec_whole(), image, *cfg) == Ok::<
                [SlotInfo; 2],
                BuildError,
            >(pair));
            slots.push(pair);
            assert forall|i: int, s: int| 0 <= i < slots@.len() && 0 <= s < 2 implies {
                let slot = #[trigger] slots@[i][s];
                slot.fits(*cfg) && slot.index == s
            } by {
                if i < before.len() {
                    assert(slots@[i] == before[i]);
                    assert(before[i][s].fits(*cfg));
                } else {
                    assert(slots@[i] == pair);
                }
            }
            image = image + 1;
        }
        let ram: RamData = match RamData::new(&slots) {
            Some(ram) => ram,
            None => {
                return Err(BuildError::NoRam);
            },
        };
        Ok(ImagesBuilder { flash, areadesc, slots, ram, cfg: *cfg })
    }

    /// The number of images of the board.
    pub fn num_images(&self) -> (res: usize)
        ensures
            res == self.spec_slots().len(),
    {
        self.slots.len()
    }

    /// What the bootloader reports of itself.
    pub fn cfg(&self) -> (res: &BootConfig)
        ensures
            *res == self.spec_cfg(),
    {
        &self.cfg
    }

    /// Whether the slot `s` of image `k` was given what was planned for it.
    pub open spec fn slot_planned(
        &self,
        deps: DepTest,
        paired: bool,
        plans: Seq<(Option<ImagePlan>, Option<ImagePlan>)>,
        k: int,
        s: int,
        keys: KeyStore,
        data: ImageData,) -> bool {
        as_planned(
            if s == 0 {
                plans[k].0
            } else {
                plans[k].1
            },
            self.spec_flash(),
            self.spec_slots()[k][s],
            self.spec_ram(),
            Depender { number: k as usize, test: deps, paired },
            self.spec_cfg(),
            keys,
            data,)
    }

    /// Whether the images are handed out as they were made on the board:
    /// with the slots, the map of areas, the homes in RAM and the bootloader
    /// of this builder, and without a count of flash operations.
    pub open spec fn hands_out(&self, images: Images, board: MultiFlash, made: Seq<OneImage>)
        -> bool {
        &&& images.spec_flash() == board
        &&& images.spec_cfg() == self.spec_cfg()
        &&& images.spec_ram() == self.spec_ram()
        &&& images.spec_areadesc() == self.spec_areadesc()
        &&& images.spec_total_count() is None
        &&& images.spec_images().len() == self.spec_slots().len()
        &&& forall|i: int|
            0 <= i < self.spec_slots().len() ==> (#[trigger] images.spec_images()[i]) == made[i]
    }

    /// Whether `res` is what making images to the given plans gives: the
    /// images are installed one after the other on the board of the
    /// builder, then the partition tables are written, if they are asked
    /// for, and the images are handed out with the board.  What fails
    /// first is reported.
    pub open spec fn makes(
        &self,
        deps: DepTest,
        paired: bool,
        plans: Seq<(Option<ImagePlan>, Option<ImagePlan>)>,
        with_ptable: bool,
        keys: KeyStore,
        res: Result<Images, MakeError>,) -> bool {
        exists|board: MultiFlash, made: Seq<OneImage>, failed: Option<MakeError>| #[trigger]
            images_installed(
                plans,
                self.spec_slots(),
                self.spec_ram(),
                deps,
                paired,
                self.spec_cfg(),
                keys,
                self.spec_flash(),
                board,
                made,
                failed,
                0,) && match failed {
                Some(e) => res == Err::<Images, MakeError>(e),
                None => if with_ptable {
                    exists|tabled: MultiFlash, refused: Option<crate::flash::FlashError>| #[trigger]
                        ptables_installed(
                            board,
                            tabled,
                            AreaDesc::flat(self.spec_areadesc().spec_areas()),
                            refused,
                        ) && match refused {
                            Some(e) => res == Err::<Images, MakeError>(MakeError::Table(e)),
                            None => res matches Ok(images) && self.hands_out(images, tabled, made),
                        }
                } else {
                    res matches Ok(images) && self.hands_out(images, board, made)
                },
            }
    }

    /// Installs in each slot of each image what is planned for it, and
    /// hands out the images.
    fn make(
        self,
        deps: &DepTest,
        paired: bool,
        plans: &Vec<(Option<ImagePlan>, Option<ImagePlan>)>,
        with_ptable: bool,
        keys: &KeyStore,
        sealed: &Option<SealedKey>,
    ) -> (res: Result<Images, MakeError>)
        requires
            self.wf(),
            plans@.len() == self.spec_slots().len(),
        ensures
            self.makes(*deps, paired, plans@, with_ptable, *keys, res),
            res matches Ok(images) ==> self.built(images, *deps, paired, plans@, *keys),
    {
        let mut flash: MultiFlash = self.flash;
        let mut images: Vec<OneImage> = Vec::new();
        let num_images: usize = self.slots.len();
        let ghost mut states: Seq<MultiFlash> = seq![flash];
        let mut i: usize = 0;
        while i < num_images
            invariant
                i <= num_images <= 2,
                num_images == self.slots@.len(),
                plans@.len() == num_images,
                self.cfg.wf(),
                flash.wf(),
                flash.same_board(self.flash),
                images@.len() == i,
                states.len() == i + 1,
                states[0] == self.flash,
                states[i as int] == flash,
                forall|k: int|
                    0 <= k < i ==> #[trigger] image_made(
                        plans@,
                        self.slots@,
                        self.ram,
                        *deps,
                        paired,
                        self.cfg,
                        *keys,
                        states,
                        images@,
                        k,),
                forall|k: int, s: int|
                    0 <= k < self.slots@.len() && 0 <= s < 2 ==> {
                        let slot = #[trigger] self.slots@[k][s];
                        slot.fits(self.cfg) && slot.index == s
                    },
                forall|k: int| 0 <= k < i ==> (#[trigger] images@[k]).slots == self.slots@[k],
                forall|k: int|
                    0 <= k < i ==> self.slot_planned(
                        *deps,
                        paired,
                        plans@,
                        k,
                        0,
                        *keys,
                        (#[trigger] images@[k]).primaries,) && self.slot_planned(*deps, paired, plans@, k, 1, *keys, images@[k].upgrades),
            decreases num_images - i,
        {
            let slots: [SlotInfo; 2] = self.slots[i];
            assert(self.slots@[i as int][0].index == 0 && self.slots@[i as int][1].index == 1);
            let dep: Depender = if paired {
                Depender { number: i, test: *deps, paired: true }
            } else {
                Depender::boring(i, deps)
            };
            let plan: (Option<ImagePlan>, Option<ImagePlan>) = plans[i];
            let ghost before = flash;
            let pair = install_pair(
                &mut flash,
                &slots,
                plan,
                &self.ram,
                &dep,
                &self.cfg,
                keys,
                sealed,
            );
            let (primaries, upgrades) = match pair {
                Ok(both) => both,
                Err(e) => {
                    proof {
                        lemma_installs_chain(
                            plans@,
                            self.slots@,
                            self.ram,
                            *deps,
                            paired,
                            self.cfg,
                            *keys,
                            states,
                            images@,
                            flash,
                            Some(e),
                            0,);
                    }
                    return Err(e);
                },
            };
            proof {
                lemma_same_board_trans(flash, before, self.flash);
                lemma_planned_same_board(
                    plan.0,
                    before,
                    self.flash,
                    slots[0],
                    self.ram,
                    dep,
                    self.cfg,
                    *keys,
                    primaries,);
                lemma_planned_same_board(
                    plan.1,
                    before,
                    self.flash,
                    slots[1],
                    self.ram,
                    dep,
                    self.cfg,
                    *keys,
                    upgrades,);
                assert(self.slot_planned(*deps, paired, plans@, i as int, 0, *keys, primaries));
                assert(self.slot_planned(*deps, paired, plans@, i as int, 1, *keys, upgrades));
            }
            let ghost old_images = images@;
            let ghost old_states = states;
            let one = OneImage { slots, primaries, upgrades };
            images.push(one);
            proof {
                states = states.push(flash);
                assert forall|k: int| 0 <= k < i + 1 implies #[trigger] image_made(
                    plans@,
                    self.slots@,
                    self.ram,
                    *deps,
                    paired,
                    self.cfg,
                    *keys,
                    states,
                    images@,
                    k,) by {
                    if k < i {
                        assert(image_made(
                            plans@,
                            self.slots@,
                            self.ram,
                            *deps,
                            paired,
                            self.cfg,
                            *keys,
                            old_states,
                            old_images,
                            k,));
                        assert(images@[k] == old_images[k]);
                        assert(states[k] == old_states[k] && states[k + 1] == old_states[k + 1]);
                    } else {
                        assert(states[k] == before && states[k + 1] == flash);
                        assert(images@[k] == one);
                    }
                }
            }
            assert forall|k: int| 0 <= k < i + 1 implies (#[trigger] images@[k]).slots
                == self.slots@[k] && self.slot_planned(
                *deps,
                paired,
                plans@,
                k,
                0,
                *keys,
                images@[k].primaries,) && self.slot_planned(*deps, paired, plans@, k, 1, *keys, images@[k].upgrades) by {
                if k < i {
                    assert(images@[k] == old_images[k]);
                }
            }
            i = i + 1;
        }
        proof {
            lemma_installs_chain(
                plans@,
                self.slots@,
                self.ram,
                *deps,
                paired,
                self.cfg,
                *keys,
                states,
                images@,
                flash,
                None,
                0,);
        }
        let ghost board = flash;
        let ghost made = images@;
        if with_ptable {
            let tabled = install_ptable(&mut flash, &self.areadesc);
            proof {
                lemma_same_board_trans(flash, board, self.flash);
            }
            match tabled {
                Ok(()) => {},
                Err(e) => {
                    assert(ptables_installed(
                        board,
                        flash,
                        AreaDesc::flat(self.spec_areadesc().spec_areas()),
                        Some(e),
                    ));
                    return Err(MakeError::Table(e));
                },
            }
            assert(ptables_installed(
                board,
                flash,
                AreaDesc::flat(self.spec_areadesc().spec_areas()),
                None,
            ));
        }
        let res = Images::new(flash, self.areadesc, images, self.ram, self.cfg);
        assert forall|k: int, s: int|
            0 <= k < res.spec_images().len() && 0 <= s < 2 implies (
        #[trigger] res.spec_images()[k].slots[s]).fits(res.spec_cfg()) by {
            assert(res.spec_images()[k].slots == self.slots@[k]);
            assert(self.slots@[k][s].fits(self.cfg));
        }
        assert(self.hands_out(res, flash, made));
        Ok(res)
    }

    /// The same plan for every image.
    fn plans(&self, primary: Option<ImagePlan>, upgrade: Option<ImagePlan>) -> (res: Vec<
        (Option<ImagePlan>, Option<ImagePlan>),
    >)
        ensures
            res@ == uniform(self.spec_slots().len(), primary, upgrade),
    {
        let mut res: Vec<(Option<ImagePlan>, Option<ImagePlan>)> = Vec::new();
        let mut i: usize = 0;
        while i < self.slots.len()
            invariant
                i <= self.slots.len(),
                res@.len() == i,
                forall|k: int| 0 <= k < i ==> #[trigger] res@[k] == (primary, upgrade),
            decreases self.slots.len() - i,
        {
            res.push((primary, upgrade));
            i = i + 1;
        }
        assert(res@ =~= uniform(self.spec_slots().len(), primary, upgrade));
        res
    }

    /// Construct an `Images` that doesn't expect an upgrade to happen: with
    /// an image in every primary slot, and one in every secondary slot but
    /// where the test of dependencies provides no upgrade.  The upgrades are
    /// not marked.
    pub fn make_no_upgrade_image(
        self,
        deps: &DepTest,
        img_manipulation: ImageManipulation,
        keys: &KeyStore,
        sealed: &Option<SealedKey>,
    ) -> (res: Result<Images, MakeError>)
        requires
            self.wf(),
        ensures
            self.makes(
                *deps,
                self.spec_slots().len() > 1,
                no_upgrade_plans(
                    self.spec_slots().len(),
                    *deps,
                    img_manipulation,
                    self.spec_cfg().caps,
                ),
                true,
                *keys,
                res,
            ),
            res matches Ok(images) ==> self.built(
                images,
                *deps,
                self.spec_slots().len() > 1,
                no_upgrade_plans(
                    self.spec_slots().len(),
                    *deps,
                    img_manipulation,
                    self.spec_cfg().caps,
                ), *keys,),
    {
        let num_images: usize = self.num_images();
        let mut plans: Vec<(Option<ImagePlan>, Option<ImagePlan>)> = Vec::new();
        let mut i: usize = 0;
        while i < num_images
            invariant
                i <= num_images <= 2,
                plans@.len() == i,
                forall|k: int|
                    0 <= k < i ==> #[trigger] plans@[k] == (
                        Some(primary_plan(k as usize, img_manipulation, self.cfg.caps)),
                        upgrade_plan(k as usize, *deps, img_manipulation, self.cfg.caps),
                    ),
            decreases num_images - i,
        {
            let first_corrupt: bool = img_manipulation
                == ImageManipulation::CorruptHigherVersionImage && i == 0;
            let primary = ImagePlan {
                size: maximal(42784, &self.cfg.caps),
                manipulation: if first_corrupt {
                    ImageManipulation::Unmodified
                } else {
                    img_manipulation
                },
                security_counter: Some(0),
            };
            let upgrade: Option<ImagePlan> = match deps.depends[i] {
                DepType::NoUpgrade => None,
                _ => Some(
                    ImagePlan {
                        size: maximal(46928, &self.cfg.caps),
                        manipulation: if first_corrupt {
                            ImageManipulation::BadSignature
                        } else {
                            img_manipulation
                        },
                        security_counter: Some(0),
                    },
                ),
            };
            plans.push((Some(primary), upgrade));
            i = i + 1;
        }
        assert(plans@ =~= no_upgrade_plans(
            self.spec_slots().len(),
            *deps,
            img_manipulation,
            self.spec_cfg().caps,
        ));
        self.make(deps, num_images > 1, &plans, true, keys, sealed)
    }

    /// Whether `res` is what `make_no_upgrade_image` gives: the images made
    /// to its plans, as a pair if there are two, with the partition tables.
    pub open spec fn makes_unmarked(
        &self,
        deps: DepTest,
        manipulation: ImageManipulation,
        keys: KeyStore,
        res: Result<Images, MakeError>,) -> bool {
        self.makes(
            deps,
            self.spec_slots().len() > 1,
            no_upgrade_plans(self.spec_slots().len(), deps, manipulation, self.spec_cfg().caps),
            true,
            keys,
            res,)
    }

    /// Whether `res` is what `make_image` gives: the images that
    /// `make_no_upgrade_image` makes without manipulation, with the
    /// secondary slot of every image marked for an upgrade on their board.
    /// What fails first is reported.
    pub open spec fn makes_marked(&self, deps: DepTest, keys: KeyStore, res: Result<Images, MakeError>) -> bool {
        exists|first: Result<Images, MakeError>| #[trigger]
            self.makes_unmarked(deps, ImageManipulation::Unmodified, keys, first) && match first {
                Err(e) => res == Err::<Images, MakeError>(e),
                Ok(unmarked) => exists|marked: MultiFlash, failed: Option<MarkError>| #[trigger]
                    all_marked(
                        false,
                        unmarked.spec_images(),
                        1,
                        unmarked.spec_cfg(),
                        unmarked.spec_flash(),
                        marked,
                        failed,
                        0,
                    ) && match failed {
                        Some(e) => res == Err::<Images, MakeError>(MakeError::Mark(e)),
                        None => res matches Ok(images) && {
                            &&& images.spec_flash() == marked
                            &&& images.spec_images() == unmarked.spec_images()
                            &&& images.spec_cfg() == unmarked.spec_cfg()
                            &&& images.spec_ram() == unmarked.spec_ram()
                            &&& images.spec_areadesc() == unmarked.spec_areadesc()
                            &&& images.spec_total_count() is None
                        },
                    },
            }
    }

    /// Construct an `Images` for an upgrade: as `make_no_upgrade_image`
    /// without manipulation, with every secondary slot marked for an
    /// upgrade.  The number of flash operations of the upgrade is counted
    /// afterwards, by the scenario that `run_basic_upgrade` starts.
    pub fn make_image(self, deps: &DepTest, keys: &KeyStore, sealed: &Option<SealedKey>) -> (res:
        Result<Images, MakeError>)
        requires
            self.wf(),
        ensures
            self.makes_marked(*deps, *keys, res),
            res matches Ok(images) ==> {
                &&& self.built(
                    images,
                    *deps,
                    self.spec_slots().len() > 1,
                    no_upgrade_plans(
                        self.spec_slots().len(),
                        *deps,
                        ImageManipulation::Unmodified,
                        self.spec_cfg().caps,
                    ), *keys,)
                &&& exists|unmarked: MultiFlash| #[trigger]
                    all_marked(
                        false,
                        images.spec_images(),
                        1,
                        self.spec_cfg(),
                        unmarked,
                        images.spec_flash(),
                        None,
                        0,
                    )
            },
    {
        let ghost board = self.flash;
        let first = self.make_no_upgrade_image(deps, ImageManipulation::Unmodified, keys, sealed);
        let ghost made = first;
        let mut images: Images = match first {
            Ok(images) => images,
            Err(e) => {
                assert(made == Err::<Images, MakeError>(e));
                assert(self.makes_unmarked(*deps, ImageManipulation::Unmodified, *keys, made));
                return Err(e);
            },
        };
        let ghost before = images;
        let ghost unmarked = images.spec_flash();
        let marked = images.mark_upgrades_in_place(1);
        proof {
            assert(self.makes_unmarked(*deps, ImageManipulation::Unmodified, *keys, made));
            assert(made == Ok::<Images, MakeError>(before));
            assert(all_marked(
                false,
                before.spec_images(),
                1,
                self.spec_cfg(),
                before.spec_flash(),
                images.spec_flash(),
                crate::oracle::failure(marked),
                0,
            ));
        }
        match marked {
            Ok(()) => {
                proof {
                    lemma_same_board_trans(images.spec_flash(), unmarked, board);
                    assert(all_marked(
                        false,
                        images.spec_images(),
                        1,
                        self.spec_cfg(),
                        unmarked,
                        images.spec_flash(),
                        None,
                        0,
                    ));
                }
                Ok(images)
            },
            Err(e) => Err(MakeError::Mark(e)),
        }
    }

    /// Images whose upgrade has a bad signature.
    pub fn make_bad_secondary_slot_image(self, keys: &KeyStore, sealed: &Option<SealedKey>) -> (res:
        Result<Images, MakeError>)
        requires
            self.wf(),
        ensures
            self.makes(
                spec_no_deps(),
                false,
                uniform(
                    self.spec_slots().len(),
                    plain_plan(spec_maximal(32784, self.spec_cfg().caps)),
                    Some(
                        ImagePlan {
                            size: spec_maximal(41928, self.spec_cfg().caps),
                            manipulation: ImageManipulation::BadSignature,
                            security_counter: Some(0),
                        },
                    ),
                ),
                false,
                *keys,
                res,
            ),
            res matches Ok(images) ==> self.built(
                images,
                spec_no_deps(),
                false,
                uniform(
                    self.spec_slots().len(),
                    plain_plan(spec_maximal(32784, self.spec_cfg().caps)),
                    Some(
                        ImagePlan {
                            size: spec_maximal(41928, self.spec_cfg().caps),
                            manipulation: ImageManipulation::BadSignature,
                            security_counter: Some(0),
                        },
                    ),
                ), *keys,),
    {
        let caps: CapSet = self.cfg.caps;
        let plans = self.plans(
            Some(
                ImagePlan {
                    size: maximal(32784, &caps),
                    manipulation: ImageManipulation::Unmodified,
                    security_counter: Some(0),
                },
            ),
            Some(
                ImagePlan {
                    size: maximal(41928, &caps),
                    manipulation: ImageManipulation::BadSignature,
                    security_counter: Some(0),
                },
            ),
        );
        self.make(&no_deps(), false, &plans, false, keys, sealed)
    }

    /// Images whose upgrade is too large for its slot.
    pub fn make_oversized_secondary_slot_image(
        self,
        keys: &KeyStore,
        sealed: &Option<SealedKey>,
    ) -> (res: Result<Images, MakeError>)
        requires
            self.wf(),
        ensures
            self.makes(
                spec_no_deps(),
                false,
                uniform(
                    self.spec_slots().len(),
                    plain_plan(spec_maximal(32784, self.spec_cfg().caps)),
                    plain_plan(ImageSize::Oversized),
                ),
                false,
                *keys,
                res,
            ),
            res matches Ok(images) ==> self.built(
                images,
                spec_no_deps(),
                false,
                uniform(
                    self.spec_slots().len(),
                    plain_plan(spec_maximal(32784, self.spec_cfg().caps)),
                    plain_plan(ImageSize::Oversized),
                ), *keys,),
    {
        let caps: CapSet = self.cfg.caps;
        let plans = self.plans(
            Some(
                ImagePlan {
                    size: maximal(32784, &caps),
                    manipulation: ImageManipulation::Unmodified,
                    security_counter: Some(0),
                },
            ),
            Some(
                ImagePlan {
                    size: ImageSize::Oversized,
                    manipulation: ImageManipulation::Unmodified,
                    security_counter: Some(0),
                },
            ),
        );
        self.make(&no_deps(), false, &plans, false, keys, sealed)
    }

    /// Images without an upgrade: the secondary slots stay erased.
    pub fn make_erased_secondary_image(self, keys: &KeyStore, sealed: &Option<SealedKey>) -> (res:
        Result<Images, MakeError>)
        requires
            self.wf(),
        ensures
            self.makes(
                spec_no_deps(),
                false,
                uniform(
                    self.spec_slots().len(),
                    plain_plan(spec_maximal(32784, self.spec_cfg().caps)),
                    None,
                ),
                false,
                *keys,
                res,
            ),
            res matches Ok(images) ==> self.built(
                images,
                spec_no_deps(),
                false,
                uniform(
                    self.spec_slots().len(),
                    plain_plan(spec_maximal(32784, self.spec_cfg().caps)),
                    None,
                ), *keys,),
    {
        let caps: CapSet = self.cfg.caps;
        let plans = self.plans(
            Some(
                ImagePlan {
                    size: maximal(32784, &caps),
                    manipulation: ImageManipulation::Unmodified,
                    security_counter: Some(0),
                },
            ),
            None,
        );
        self.make(&no_deps(), false, &plans, false, keys, sealed)
    }

    /// Images for a board that is to be bootstrapped: the primary slots stay
    /// erased, and the secondary slots hold an upgrade.
    pub fn make_bootstrap_image(self, keys: &KeyStore, sealed: &Option<SealedKey>) -> (res: Result<
        Images,
        MakeError,
    >)
        requires
            self.wf(),
        ensures
            self.makes(
                spec_no_deps(),
                false,
                uniform(
                    self.spec_slots().len(),
                    None,
                    plain_plan(spec_maximal(32784, self.spec_cfg().caps)),
                ),
                false,
                *keys,
                res,
            ),
            res matches Ok(images) ==> self.built(
                images,
                spec_no_deps(),
                false,
                uniform(
                    self.spec_slots().len(),
                    None,
                    plain_plan(spec_maximal(32784, self.spec_cfg().caps)),
                ), *keys,),
    {
        let caps: CapSet = self.cfg.caps;
        let plans = self.plans(
            None,
            Some(
                ImagePlan {
                    size: maximal(32784, &caps),
                    manipulation: ImageManipulation::Unmodified,
                    security_counter: Some(0),
                },
            ),
        );
        self.make(&no_deps(), false, &plans, false, keys, sealed)
    }

    /// Images for a board that is to be bootstrapped with an upgrade that
    /// is too large.
    pub fn make_oversized_bootstrap_image(self, keys: &KeyStore, sealed: &Option<SealedKey>) -> (res:
        Result<Images, MakeError>)
        requires
            self.wf(),
        ensures
            self.makes(
                spec_no_deps(),
                false,
                uniform(self.spec_slots().len(), None, plain_plan(ImageSize::Oversized)),
                false,
                *keys,
                res,
            ),
            res matches Ok(images) ==> self.built(
                images,
                spec_no_deps(),
                false,
                uniform(self.spec_slots().len(), None, plain_plan(ImageSize::Oversized)), *keys,),
    {
        let plans = self.plans(
            None,
            Some(
                ImagePlan {
                    size: ImageSize::Oversized,
                    manipulation: ImageManipulation::Unmodified,
                    security_counter: Some(0),
                },
            ),
        );
        self.make(&no_deps(), false, &plans, false, keys, sealed)
    }

    /// Images with a security counter.  If `security_cnt` is `None` no
    /// security counter goes into the manifests; otherwise the primary image
    /// gets the value, and the upgrade the next one.
    pub fn make_image_with_security_counter(
        self,
        security_cnt: Option<u32>,
        keys: &KeyStore,
        sealed: &Option<SealedKey>,
    ) -> (res: Result<Images, MakeError>)
        requires
            self.wf(),
            security_cnt matches Some(v) ==> v < u32::MAX,
        ensures
            self.makes(
                spec_no_deps(),
                false,
                uniform(
                    self.spec_slots().len(),
                    Some(
                        ImagePlan {
                            size: spec_maximal(32784, self.spec_cfg().caps),
                            manipulation: ImageManipulation::Unmodified,
                            security_counter: security_cnt,
                        },
                    ),
                    Some(
                        ImagePlan {
                            size: spec_maximal(41928, self.spec_cfg().caps),
                            manipulation: ImageManipulation::Unmodified,
                            security_counter: match security_cnt {
                                Some(v) => Some((v + 1) as u32),
                                None => None,
                            },
                        },
                    ),
                ),
                false,
                *keys,
                res,
            ),
            res matches Ok(images) ==> self.built(
                images,
                spec_no_deps(),
                false,
                uniform(
                    self.spec_slots().len(),
                    Some(
                        ImagePlan {
                            size: spec_maximal(32784, self.spec_cfg().caps),
                            manipulation: ImageManipulation::Unmodified,
                            security_counter: security_cnt,
                        },
                    ),
                    Some(
                        ImagePlan {
                            size: spec_maximal(41928, self.spec_cfg().caps),
                            manipulation: ImageManipulation::Unmodified,
                            security_counter: match security_cnt {
                                Some(v) => Some((v + 1) as u32),
                                None => None,
                            },
                        },
                    ),
                ), *keys,),
    {
        let caps: CapSet = self.cfg.caps;
        let plans = self.plans(
            Some(
                ImagePlan {
                    size: maximal(32784, &caps),
                    manipulation: ImageManipulation::Unmodified,
                    security_counter: security_cnt,
                },
            ),
            Some(
                ImagePlan {
                    size: maximal(41928, &caps),
                    manipulation: ImageManipulation::Unmodified,
                    security_counter: match security_cnt {
                        Some(v) => Some(v + 1),
                        None => None,
                    },
                },
            ),
        );
        self.make(&no_deps(), false, &plans, false, keys, sealed)
    }
}

} // verus!
