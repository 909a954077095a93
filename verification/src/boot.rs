//! What passes between the harness and the bootloader under test: the
//! outcome of a boot, the block of RAM that images are loaded into, the
//! counters that protect against rollback, and the context that the
//! bootloader's callbacks are answered from.

use crate::flash::Flash;
use vstd::prelude::*;

verus! {

/// What a boot reports of the image it chose.
#[derive(Copy, Clone, Debug, PartialEq, Eq, Structural)]
pub struct BootRsp {
    /// The device that holds the image.
    pub flash_dev_id: u8,
    /// The offset of the image on its device.
    pub image_off: u32,
}

/// The result of an invocation of the bootloader.
#[derive(Copy, Clone, Debug, PartialEq, Eq, Structural)]
pub enum BootGoResult {
    /// This run was stopped by the flash simulation mechanism.
    Stopped,
    /// The bootloader ran to completion with the following data.
    Normal { result: i32, asserts: u8, resp: BootRsp },
}

/// The result code with which the bootloader reports that it was stopped.
pub const STOPPED_CODE: i32 = -0x13579;

impl BootGoResult {
    /// Sorts a raw result code: the code that reports a stop gives
    /// `Stopped`, any other a run to completion.
    pub fn from_raw(result: i32, asserts: u8, resp: BootRsp) -> (res: BootGoResult)
        ensures
            res == if result == STOPPED_CODE {
                BootGoResult::Stopped
            } else {
                BootGoResult::Normal { result, asserts, resp }
            },
    {
        if result == STOPPED_CODE {
            BootGoResult::Stopped
        } else {
            BootGoResult::Normal { result, asserts, resp }
        }
    }

    /// Was this run interrupted.
    pub open spec fn spec_interrupted(&self) -> bool {
        *self is Stopped
    }

    /// Was this boot run successful (returned 0).
    pub open spec fn spec_success(&self) -> bool {
        *self matches BootGoResult::Normal { result, .. } && result == 0
    }

    /// The asserts count.  An interrupted run counts as having none.
    pub open spec fn spec_asserts(&self) -> u8 {
        match *self {
            BootGoResult::Normal { asserts, .. } => asserts,
            BootGoResult::Stopped => 0,
        }
    }

    /// Was this run interrupted.
    pub fn interrupted(&self) -> (res: bool)
        ensures
            res == self.spec_interrupted(),
    {
        match self {
            BootGoResult::Stopped => true,
            _ => false,
        }
    }

    /// Was this boot run successful (returned 0).
    pub fn success(&self) -> (res: bool)
        ensures
            res == self.spec_success(),
    {
        match self {
            BootGoResult::Normal { result, .. } => *result == 0,
            _ => false,
        }
    }

    /// Success, but also no asserts.
    pub fn success_no_asserts(&self) -> (res: bool)
        ensures
            res == (self.spec_success() && self.spec_asserts() == 0),
    {
        match self {
            BootGoResult::Normal { result, asserts, .. } => *result == 0 && *asserts == 0,
            _ => false,
        }
    }

    /// Get the asserts count.  An interrupted run will be considered to have
    /// no asserts.
    pub fn asserts(&self) -> (res: u8)
        ensures
            res == self.spec_asserts(),
    {
        match self {
            BootGoResult::Normal { asserts, .. } => *asserts,
            _ => 0,
        }
    }

    /// Retrieve the 'resp' field that is filled in.
    pub fn resp(&self) -> (res: Option<BootRsp>)
        ensures
            res == match *self {
                BootGoResult::Normal { resp, .. } => Some(resp),
                BootGoResult::Stopped => None,
            },
    {
        match self {
            BootGoResult::Normal { resp, .. } => Some(*resp),
            _ => None,
        }
    }
}

/// What the bootloader is told of a flash device.
#[derive(Copy, Clone, Debug, PartialEq, Eq, Structural)]
pub struct FlashParamsStruct {
    pub align: u32,
    pub erased_val: u8,
}

/// This struct describes the RAM layout of the current device.  A base of
/// zero says that no RAM is set up.
#[derive(Copy, Clone, Debug, PartialEq, Eq, Structural)]
pub struct BootsimRamInfo {
    pub start: u32,
    pub size: u32,
    pub base: usize,
}

/// This struct stores the non-volatile security counter per image.
#[derive(Clone, Debug)]
pub struct NvCounterStorage {
    pub storage: Vec<u32>,
}

/// What the callbacks of the bootloader are answered from while it runs:
/// the parameters of the flash devices it was given, the RAM it may load
/// into, and its security counters.
pub struct SimContext {
    pub flash_ids: Vec<u8>,
    pub flash_params: Vec<FlashParamsStruct>,
    pub ram_info: BootsimRamInfo,
    pub counters: NvCounterStorage,
}

impl NvCounterStorage {
    /// One counter at zero for each image: two for a bootloader that
    /// manages several images, one otherwise.
    pub fn new(multiimage: bool) -> (res: NvCounterStorage)
        ensures
            res.storage@ == if multiimage {
                seq![0u32, 0u32]
            } else {
                seq![0u32]
            },
    {
        let mut storage: Vec<u32> = Vec::new();
        storage.push(0);
        if multiimage {
            storage.push(0);
        }
        assert(storage@ =~= if multiimage {
            seq![0u32, 0u32]
        } else {
            seq![0u32]
        });
        NvCounterStorage { storage }
    }
}

/// What setting a counter answers: -1 for an image that has no counter, -2
/// for a value below the one stored, 0 otherwise.
pub open spec fn set_counter_code(storage: Seq<u32>, image_index: u32, value: u32) -> i32 {
    if image_index >= storage.len() {
        -1i32
    } else if storage[image_index as int] > value {
        -2i32
    } else {
        0i32
    }
}

/// The counters after setting one: the value is stored unless it is refused.
pub open spec fn set_counter_storage(storage: Seq<u32>, image_index: u32, value: u32) -> Seq<u32> {
    if set_counter_code(storage, image_index, value) == 0 {
        storage.update(image_index as int, value)
    } else {
        storage
    }
}

/// Setting a counter takes no counter away, and none of the counters is
/// lower afterwards than it was.
pub proof fn lemma_counters_never_decrease(storage: Seq<u32>, image_index: u32, value: u32)
    ensures
        set_counter_storage(storage, image_index, value).len() == storage.len(),
        forall|i: int|
            0 <= i < storage.len() ==> storage[i] <= #[trigger] set_counter_storage(
                storage,
                image_index,
                value,
            )[i],
{
}

/// Stores the security counter of an image.  A counter never decreases: a
/// value below the one stored is refused, and nothing changes.
pub fn sim_set_nv_counter_for_image(
    counters: &mut NvCounterStorage,
    image_index: u32,
    security_counter_value: u32,
) -> (res: i32)
    ensures
        res == set_counter_code(old(counters).storage@, image_index, security_counter_value),
        final(counters).storage@ == set_counter_storage(
            old(counters).storage@,
            image_index,
            security_counter_value,
        ),
{
    if image_index as usize >= counters.storage.len() {
        return -1;
    }
    if counters.storage[image_index as usize] > security_counter_value {
        return -2;
    }
    counters.storage[image_index as usize] = security_counter_value;
    0
}

/// Reads the security counter of an image.  Answers -1, and no value, for
/// an image that has no counter.
pub fn sim_get_nv_counter_for_image(counters: &NvCounterStorage, image_index: u32) -> (res: (
    i32,
    Option<u32>,
))
    ensures
        image_index < counters.storage@.len() ==> res == (
            0i32,
            Some(counters.storage@[image_index as int]),
        ),
        image_index >= counters.storage@.len() ==> res == (-1i32, None::<u32>),
{
    if image_index as usize >= counters.storage.len() {
        return (-1, None);
    }
    (0, Some(counters.storage[image_index as usize]))
}

/// Sets the stored security counter of an image; see
/// `sim_set_nv_counter_for_image` for when the value is refused.
pub fn set_security_counter(
    counters: &mut NvCounterStorage,
    image_index: u32,
    security_counter_value: u32,
)
    ensures
        final(counters).storage@ == set_counter_storage(
            old(counters).storage@,
            image_index,
            security_counter_value,
        ),
{
    let _ = sim_set_nv_counter_for_image(counters, image_index, security_counter_value);
}

/// The stored security counter of an image; 0 for an image that has none.
pub fn get_security_counter(counters: &NvCounterStorage, image_index: u32) -> (res: u32)
    ensures
        res == if image_index < counters.storage@.len() {
            counters.storage@[image_index as int]
        } else {
            0
        },
{
    match sim_get_nv_counter_for_image(counters, image_index).1 {
        Some(value) => value,
        None => 0,
    }
}

/// Puts every security counter back to zero.
pub fn reset_security_counters(counters: &mut NvCounterStorage)
    ensures
        final(counters).storage@ == Seq::new(old(counters).storage@.len(), |i: int| 0u32),
{
    let mut i: usize = 0;
    while i < counters.storage.len()
        invariant
            i <= counters.storage.len(),
            counters.storage@.len() == old(counters).storage@.len(),
            forall|j: int| 0 <= j < i ==> counters.storage@[j] == 0,
        decreases counters.storage.len() - i,
    {
        counters.storage[i] = 0;
        i = i + 1;
    }
    assert(counters.storage@ =~= Seq::new(old(counters).storage@.len(), |i: int| 0u32));
}

impl SimContext {
    /// Every device that is registered has its parameters.
    pub open spec fn wf(&self) -> bool {
        self.flash_ids@.len() == self.flash_params@.len()
    }

    /// A context with no device, no RAM, and counters at zero.
    pub fn new(multiimage: bool) -> (res: SimContext)
        ensures
            res.wf(),
            res.flash_ids@.len() == 0,
            res.flash_params@.len() == 0,
            res.ram_info == (BootsimRamInfo { start: 0, size: 0, base: 0 }),
            res.counters.storage@ == if multiimage {
                seq![0u32, 0u32]
            } else {
                seq![0u32]
            },
    {
        SimContext {
            flash_ids: Vec::new(),
            flash_params: Vec::new(),
            ram_info: BootsimRamInfo { start: 0, size: 0, base: 0 },
            counters: NvCounterStorage::new(multiimage),
        }
    }
}

/// Registers the flash device that the bootloader is to find under
/// `dev_id`: its write alignment and its erased value.  A device whose write
/// alignment does not fit 32 bits is not registered.
pub fn set_flash(ctx: &mut SimContext, dev_id: u8, dev: &Flash) -> (res: bool)
    requires
        old(ctx).wf(),
        dev.wf(),
    ensures
        final(ctx).wf(),
        res == (dev.spec_align() <= u32::MAX),
        res ==> final(ctx).flash_ids@ == old(ctx).flash_ids@.push(dev_id) && final(ctx).flash_params@ == old(ctx).flash_params@.push(
            FlashParamsStruct { align: dev.spec_align() as u32, erased_val: dev.spec_erased_val() },
        ),
        !res ==> final(ctx).flash_ids@ == old(ctx).flash_ids@ && final(ctx).flash_params@ == old(ctx).flash_params@,
        final(ctx).ram_info == old(ctx).ram_info,
        final(ctx).counters == old(ctx).counters,
{
    let align: usize = dev.align();
    if align > 0xffff_ffff {
        return false;
    }
    ctx.flash_ids.push(dev_id);
    ctx.flash_params.push(FlashParamsStruct { align: align as u32, erased_val: dev.erased_val() });
    true
}

/// Takes every registration of a device out of the context.
pub fn clear_flash(ctx: &mut SimContext, dev_id: u8)
    requires
        old(ctx).wf(),
    ensures
        final(ctx).wf(),
        forall|i: int| 0 <= i < final(ctx).flash_ids@.len() ==> final(ctx).flash_ids@[i] != dev_id,
        final(ctx).flash_ids@.len() <= old(ctx).flash_ids@.len(),
        final(ctx).ram_info == old(ctx).ram_info,
        final(ctx).counters == old(ctx).counters,
{
    let mut ids: Vec<u8> = Vec::new();
    let mut params: Vec<FlashParamsStruct> = Vec::new();
    let mut i: usize = 0;
    while i < ctx.flash_ids.len()
        invariant
            ctx.wf(),
            i <= ctx.flash_ids.len(),
            ids@.len() == params@.len(),
            ids@.len() <= i,
            forall|j: int| 0 <= j < ids@.len() ==> ids@[j] != dev_id,
        decreases ctx.flash_ids.len() - i,
    {
        if ctx.flash_ids[i] != dev_id {
            ids.push(ctx.flash_ids[i]);
            params.push(ctx.flash_params[i]);
        }
        i = i + 1;
    }
    ctx.flash_ids = ids;
    ctx.flash_params = params;
}

/// Store a copy of this RAM info.
pub fn set_ram_info(ctx: &mut SimContext, info: BootsimRamInfo)
    ensures
        final(ctx).ram_info == info,
        final(ctx).flash_ids == old(ctx).flash_ids,
        final(ctx).flash_params == old(ctx).flash_params,
        final(ctx).counters == old(ctx).counters,
{
    ctx.ram_info = info;
}

/// Clear out the ram info.
pub fn clear_ram_info(ctx: &mut SimContext)
    ensures
        final(ctx).ram_info == (BootsimRamInfo { base: 0, ..old(ctx).ram_info }),
        final(ctx).flash_ids == old(ctx).flash_ids,
        final(ctx).flash_params == old(ctx).flash_params,
        final(ctx).counters == old(ctx).counters,
{
    ctx.ram_info.base = 0;
}

/// The RAM info that the bootloader asks for.  `None` while no RAM is set
/// up.
pub fn bootsim_get_ram_info(ctx: &SimContext) -> (res: Option<BootsimRamInfo>)
    ensures
        res == if ctx.ram_info.base == 0 {
            None
        } else {
            Some(ctx.ram_info)
        },
{
    if ctx.ram_info.base == 0 {
        None
    } else {
        Some(ctx.ram_info)
    }
}

/// The result code that the bootloader gets for a flash operation: 0 when
/// it went well, -1 otherwise.
pub fn map_err(res: &Result<(), crate::flash::FlashError>) -> (rc: i32)
    ensures
        rc == if res is Ok {
            0i32
        } else {
            -1i32
        },
{
    match res {
        Ok(()) => 0,
        Err(_) => -1,
    }
}

/// For testing the loading into RAM, a block of RAM is emulated and handed
/// down to the bootloader.  `offset` is the address of the first byte of the
/// block.
pub struct RamBlock {
    ram: Vec<u8>,
    offset: u32,
}

impl RamBlock {
    /// The bytes of the block.
    pub closed spec fn view(&self) -> Seq<u8> {
        self.ram@
    }

    /// The address of the first byte of the block.
    pub closed spec fn spec_offset(&self) -> u32 {
        self.offset
    }

    /// A block of `size` zero bytes at address `offset`.
    pub fn new(size: u32, offset: u32) -> (res: RamBlock)
        ensures
            res@ == Seq::new(size as nat, |i: int| 0u8),
            res.spec_offset() == offset,
    {
        let ram: Vec<u8> = vec![0u8; size as usize];
        assert(ram@ =~= Seq::new(size as nat, |i: int| 0u8));
        RamBlock { ram, offset }
    }

    /// A block that holds the given bytes at address `offset`: what the
    /// bootloader left in the block it was handed.
    pub fn from_bytes(ram: Vec<u8>, offset: u32) -> (res: RamBlock)
        ensures
            res@ == ram@,
            res.spec_offset() == offset,
    {
        RamBlock { ram, offset }
    }

    /// Borrow the RAM buffer, with 'offset' being the beginning of the
    /// buffer.
    pub fn borrow(&self) -> (res: &Vec<u8>)
        ensures
            res@ == self@,
    {
        &self.ram
    }

    /// Borrow a piece of the ram, with 'offset' being the beginning of the
    /// buffer.
    pub fn borrow_part(&self, base: usize, size: usize) -> (res: &[u8])
        requires
            base + size <= self@.len(),
        ensures
            res@ == self@.subrange(base as int, base + size),
    {
        let len: usize = self.ram.len();
        vstd::slice::slice_subrange(self.ram.as_slice(), base, base + size)
    }

    /// What the bootloader is told of the block, given the address of its
    /// first byte in the memory of the harness; nothing for a block that is
    /// too long to be described, or that lies below its offset.
    pub open spec fn spec_info(&self, address: usize) -> Option<BootsimRamInfo> {
        if self@.len() <= u32::MAX && address >= self.spec_offset() {
            Some(
                BootsimRamInfo {
                    start: self.spec_offset(),
                    size: self@.len() as u32,
                    base: (address - self.spec_offset()) as usize,
                },
            )
        } else {
            None
        }
    }

    /// What the bootloader is told of the block, given the address of its
    /// first byte in the memory of the harness.
    pub fn info(&self, address: usize) -> (res: Option<BootsimRamInfo>)
        ensures
            res == self.spec_info(address),
    {
        if self.ram.len() > 0xffff_ffff || address < self.offset as usize {
            return None;
        }
        Some(
            BootsimRamInfo {
                start: self.offset,
                size: self.ram.len() as u32,
                base: address - self.offset as usize,
            },
        )
    }

    /// The RAM info that the context holds while `invoke` runs its action:
    /// that of the block, or what the context held before where the block
    /// cannot be described.
    pub open spec fn published(&self, before: BootsimRamInfo, address: usize) -> BootsimRamInfo {
        match self.spec_info(address) {
            Some(info) => info,
            None => before,
        }
    }

    /// Runs `act` with the block set up as the RAM of the bootloader, and
    /// takes the block out of the context afterwards.  `address` is where
    /// the first byte of the block lies in the memory of the harness.  The
    /// action is handed the RAM info that the context holds while it runs.
    pub fn invoke<F: FnOnce(BootsimRamInfo) -> R, R>(
        &self,
        ctx: &mut SimContext,
        address: usize,
        act: F,
    ) -> (res: R)
        requires
            act.requires((self.published(old(ctx).ram_info, address),)),
        ensures
            act.ensures((self.published(old(ctx).ram_info, address),), res),
            final(ctx).ram_info == (BootsimRamInfo {
                base: 0,
                ..self.published(old(ctx).ram_info, address)
            }),
            final(ctx).flash_ids == old(ctx).flash_ids,
            final(ctx).flash_params == old(ctx).flash_params,
            final(ctx).counters == old(ctx).counters,
    {
        match self.info(address) {
            Some(info) => set_ram_info(ctx, info),
            None => {},
        }
        let result = act(ctx.ram_info);
        clear_ram_info(ctx);
        result
    }
}

} // verus!
