//! The slots of a board, the trailer at the end of each slot, and the place of
//! each slot in RAM.
//!
//! The trailer of a slot records the progress of an upgrade.  It starts
//! `magic_sz + 4 * max_align` bytes before the end of the slot.  Counted in
//! units of `max_align` from its start, the flag `copy_done` lies at 2, the
//! flag `image_ok` at 3, and the magic fills the last 16 bytes, from 4 on.

use crate::caps::{CapSet, Caps};
use crate::flash::{Flash, FlashError};
use crate::multiflash::MultiFlash;
use vstd::prelude::*;

verus! {

/// For RAM loading, a non-zero offset is used, to make sure the offset is
/// getting used properly; the value is not really that important.
pub const RAM_LOAD_ADDR: u32 = 1024;

/// The length of the magic that marks a slot for an upgrade.
pub const MAGIC_LEN: usize = 16;

/// What is expected of the magic of a trailer: that it is there.
pub const BOOT_MAGIC_GOOD: u8 = 1;

/// What is expected of the magic of a trailer: that it is erased.
pub const BOOT_MAGIC_UNSET: u8 = 3;

/// What is expected of a flag of a trailer: that it is set.
pub const BOOT_FLAG_SET: u8 = 1;

/// What is expected of a flag of a trailer: that it is erased.
pub const BOOT_FLAG_UNSET: u8 = 3;

/// What the bootloader under test reports of its layout and of its
/// capabilities.  It is asked once, and the answers are handed on.
#[derive(Copy, Clone, Debug, PartialEq, Eq, Structural)]
pub struct BootConfig {
    pub caps: CapSet,
    /// The size of the magic field of a trailer.
    pub magic_sz: usize,
    /// The greatest write alignment the bootloader supports.
    pub max_align: usize,
    /// The size of the trailer for the write alignment in use.
    pub trailer_sz: usize,
    /// The size of the status area for the write alignment in use.
    pub status_sz: usize,
}

/// One slot of an image: where it lies, and where its trailer starts.
#[derive(Copy, Clone, Debug, PartialEq, Eq, Structural)]
pub struct SlotInfo {
    pub base_off: usize,
    pub trailer_off: usize,
    pub len: usize,
    /// Which slot within this device.
    pub index: usize,
    pub dev_id: u8,
}

/// Every slot is indexed by this key.
#[derive(Copy, Clone, Debug, PartialEq, Eq, Structural)]
pub struct SlotKey {
    pub dev_id: u8,
    pub base_off: usize,
}

/// The home of a slot in RAM.
#[derive(Copy, Clone, Debug, PartialEq, Eq, Structural)]
pub struct SlotPlace {
    pub offset: u32,
    pub size: u32,
}

/// For the RAM loading tests, the images are loaded into one contiguous area
/// of RAM.  Where each goes has to be computed early, before the images are
/// built, because each image holds its load address in its header, which the
/// signature covers.
pub struct RamData {
    places: Vec<(SlotKey, SlotPlace)>,
    total: u32,
}

impl BootConfig {
    /// The sizes are those of a layout: the magic field holds the magic,
    /// the write alignment is not zero, and the distance of the trailer from
    /// the end of its slot can be counted.
    pub open spec fn wf(&self) -> bool {
        &&& MAGIC_LEN <= self.magic_sz
        &&& 1 <= self.max_align
        &&& self.magic_sz + self.max_align * 4 <= usize::MAX
    }

    /// How far before the end of a slot its trailer starts.
    pub open spec fn spec_offset_from_end(&self) -> int {
        self.magic_sz + self.max_align * 4
    }

    /// How far before the end of a slot its trailer starts.
    pub fn offset_from_end(&self) -> (res: usize)
        requires
            self.wf(),
        ensures
            res == self.spec_offset_from_end(),
    {
        self.magic_sz + self.max_align * 4
    }
}

/// The magic that marks a slot for an upgrade.  The layout for write
/// alignments above 8 has a magic of its own.
pub open spec fn magic(max_align: usize) -> Seq<u8> {
    if max_align > 8 {
        seq![
            0x20u8,
            0x00u8,
            0x2du8,
            0xe1u8,
            0x5du8,
            0x29u8,
            0x41u8,
            0x0bu8,
            0x8du8,
            0x77u8,
            0x67u8,
            0x9cu8,
            0x11u8,
            0x0fu8,
            0x1fu8,
            0x8au8,
        ]
    } else {
        seq![
            0x77u8,
            0xc2u8,
            0x95u8,
            0xf3u8,
            0x60u8,
            0xd2u8,
            0xefu8,
            0x7fu8,
            0x35u8,
            0x52u8,
            0x50u8,
            0x0fu8,
            0x2cu8,
            0xb6u8,
            0x79u8,
            0x80u8,
        ]
    }
}

/// The magic that marks a slot for an upgrade.
pub fn boot_magic(max_align: usize) -> (res: Vec<u8>)
    ensures
        res@ == magic(max_align),
        res@.len() == MAGIC_LEN,
{
    let res: Vec<u8> = if max_align > 8 {
        vec![
            0x20u8,
            0x00u8,
            0x2du8,
            0xe1u8,
            0x5du8,
            0x29u8,
            0x41u8,
            0x0bu8,
            0x8du8,
            0x77u8,
            0x67u8,
            0x9cu8,
            0x11u8,
            0x0fu8,
            0x1fu8,
            0x8au8,
        ]
    } else {
        vec![
            0x77u8,
            0xc2u8,
            0x95u8,
            0xf3u8,
            0x60u8,
            0xd2u8,
            0xefu8,
            0x7fu8,
            0x35u8,
            0x52u8,
            0x50u8,
            0x0fu8,
            0x2cu8,
            0xb6u8,
            0x79u8,
            0x80u8,
        ]
    };
    assert(res@ =~= magic(max_align));
    res
}

/// Whether a flag of a trailer is as expected: 1 expects the flag to be set,
/// that is to hold 1; 3 expects it to be unset, that is erased; anything else
/// expects nothing.
pub open spec fn flag_matches(expect: Option<u8>, val: u8, erased: u8) -> bool {
    match expect {
        Some(v) => !((v == 1 && val != 1) || (v == 3 && val != erased)),
        None => true,
    }
}

/// Whether the magic of a trailer is as expected: 1 expects the magic, 3
/// expects 16 erased bytes, anything else expects nothing.
pub open spec fn magic_matches(expect: Option<u8>, got: Seq<u8>, erased: u8, max_align: usize)
    -> bool {
    match expect {
        Some(v) => !((v == 1 && got != magic(max_align)) || (v == 3 && got != Seq::new(
            MAGIC_LEN as nat,
            |i: int| erased,
        ))),
        None => true,
    }
}

impl SlotInfo {
    /// The slot and its trailer lie within what can be addressed, the
    /// trailer within the slot.
    pub open spec fn fits(&self, cfg: BootConfig) -> bool {
        &&& self.base_off + self.len <= usize::MAX
        &&& self.base_off <= self.trailer_off
        &&& self.trailer_off + cfg.spec_offset_from_end() <= self.base_off + self.len
    }

    /// Where the flag `copy_done` lies.
    pub open spec fn copy_done_off(&self, cfg: BootConfig) -> int {
        self.trailer_off + cfg.max_align * 2
    }

    /// Where the flag `image_ok` lies.
    pub open spec fn image_ok_off(&self, cfg: BootConfig) -> int {
        self.trailer_off + cfg.max_align * 3
    }

    /// Where the magic lies.
    pub open spec fn magic_off(&self, cfg: BootConfig) -> int {
        self.trailer_off + cfg.max_align * 4 + (cfg.magic_sz - MAGIC_LEN)
    }

    /// Whether the trailer of the slot, in the bytes `data` of its device,
    /// holds what is expected.
    pub open spec fn trailer_matches(
        &self,
        cfg: BootConfig,
        data: Seq<u8>,
        erased: u8,
        magic: Option<u8>,
        image_ok: Option<u8>,
        copy_done: Option<u8>,
    ) -> bool {
        &&& magic_matches(
            magic,
            data.subrange(self.magic_off(cfg), self.magic_off(cfg) + MAGIC_LEN),
            erased,
            cfg.max_align,
        )
        &&& flag_matches(image_ok, data[self.image_ok_off(cfg)], erased)
        &&& flag_matches(copy_done, data[self.copy_done_off(cfg)], erased)
    }

    /// Makes the description of a slot of `len` bytes at `base`.  The trailer
    /// has to fit the slot, and the slot what can be addressed.
    pub fn new(base: usize, len: usize, dev_id: u8, index: usize, cfg: &BootConfig) -> (res:
        Option<SlotInfo>)
        requires
            cfg.wf(),
        ensures
            res is Some <==> base + len <= usize::MAX && cfg.spec_offset_from_end() <= len,
            res matches Some(slot) ==> slot == (SlotInfo {
                base_off: base,
                trailer_off: (base + len - cfg.spec_offset_from_end()) as usize,
                len,
                index,
                dev_id,
            }) && slot.fits(*cfg),
    {
        let from_end: usize = cfg.offset_from_end();
        let end: usize = match base.checked_add(len) {
            Some(end) => end,
            None => {
                return None;
            },
        };
        if from_end > len {
            return None;
        }
        Some(SlotInfo { base_off: base, trailer_off: end - from_end, len, index, dev_id })
    }
}

/// Whether two flags and the magic, as read from a trailer, are as
/// expected.
fn fields_match(
    magic: Option<u8>,
    image_ok: Option<u8>,
    copy_done: Option<u8>,
    got_magic: &Vec<u8>,
    got_image_ok: u8,
    got_copy_done: u8,
    erased: u8,
    max_align: usize,
) -> (res: bool)
    requires
        got_magic@.len() == MAGIC_LEN,
    ensures
        res == (magic_matches(magic, got_magic@, erased, max_align) && flag_matches(
            image_ok,
            got_image_ok,
            erased,
        ) && flag_matches(copy_done, got_copy_done, erased)),
{
    let mut failed: bool = false;
    match magic {
        Some(v) => {
            if v == 1 {
                let want: Vec<u8> = boot_magic(max_align);
                if !crate::bytes::same_bytes(got_magic, &want) {
                    failed = true;
                }
            } else if v == 3 {
                let want: Vec<u8> = vec![erased; MAGIC_LEN];
                assert(want@ =~= Seq::new(MAGIC_LEN as nat, |i: int| erased));
                if !crate::bytes::same_bytes(got_magic, &want) {
                    failed = true;
                }
            }
        },
        None => {},
    }
    match image_ok {
        Some(v) => {
            if (v == 1 && got_image_ok != v) || (v == 3 && got_image_ok != erased) {
                failed = true;
            }
        },
        None => {},
    }
    match copy_done {
        Some(v) => {
            if (v == 1 && got_copy_done != v) || (v == 3 && got_copy_done != erased) {
                failed = true;
            }
        },
        None => {},
    }
    !failed
}

/// Whether the trailer of `slot` on the board holds what is expected.  A
/// bootloader that upgrades by overwriting keeps no trailer, so every
/// expectation is met.  A slot whose device is not on the board, or whose
/// trailer does not lie on its device, meets none.
pub open spec fn trailer_ok(
    flash: MultiFlash,
    slot: SlotInfo,
    cfg: BootConfig,
    magic: Option<u8>,
    image_ok: Option<u8>,
    copy_done: Option<u8>,
) -> bool {
    if cfg.caps.has(Caps::OverwriteUpgrade) {
        true
    } else {
        match flash.place(slot.dev_id) {
            None => false,
            Some(at) => {
                let dev = flash.spec_devs()[at];
                slot.trailer_off + cfg.spec_offset_from_end() <= dev@.len() && slot.trailer_matches(
                    cfg,
                    dev@,
                    dev.spec_erased_val(),
                    magic,
                    image_ok,
                    copy_done,
                )
            },
        }
    }
}

/// Checks the trailer of a slot against what is expected of its magic and of
/// its two flags.
pub fn verify_trailer(
    flash: &MultiFlash,
    slot: &SlotInfo,
    cfg: &BootConfig,
    magic: Option<u8>,
    image_ok: Option<u8>,
    copy_done: Option<u8>,
) -> (res: bool)
    requires
        flash.wf(),
        cfg.wf(),
    ensures
        res == trailer_ok(*flash, *slot, *cfg, magic, image_ok, copy_done),
{
    if Caps::OverwriteUpgrade.present(&cfg.caps) {
        return true;
    }
    let at: usize = match flash.find(slot.dev_id) {
        Some(at) => at,
        None => {
            return false;
        },
    };
    let dev: &Flash = flash.get(at);
    let erased: u8 = dev.erased_val();
    let size: usize = dev.device_size();
    let from_end: usize = cfg.offset_from_end();
    let fits: bool = match slot.trailer_off.checked_add(from_end) {
        Some(end) => end <= size,
        None => false,
    };
    if !fits {
        return false;
    }
    let offset: usize = slot.trailer_off + cfg.max_align;
    let mut copy: Vec<u8> = vec![0u8; cfg.magic_sz + cfg.max_align * 3];
    match dev.read(offset, &mut copy) {
        Ok(()) => {},
        Err(_) => {
            return false;
        },
    }
    let magic_off: usize = cfg.max_align * 3 + (cfg.magic_sz - MAGIC_LEN);
    let got_magic: Vec<u8> = crate::bytes::copy_range(&copy, magic_off, magic_off + MAGIC_LEN);
    assert(got_magic@ =~= dev@.subrange(slot.magic_off(*cfg), slot.magic_off(*cfg) + MAGIC_LEN));
    fields_match(
        magic,
        image_ok,
        copy_done,
        &got_magic,
        copy[cfg.max_align * 2],
        copy[cfg.max_align],
        erased,
        cfg.max_align,
    )
}

/// What `mark_upgrade` writes, and where: the magic alone at its place when
/// the place and the magic suit the write alignment, else a block of
/// `max_align` erased bytes that ends with the magic, at the aligned offset
/// before the place.  `None` where the block cannot hold the magic.
pub open spec fn upgrade_mark(slot: SlotInfo, cfg: BootConfig, align: usize, erased: u8) -> Option<
    (int, Seq<u8>),
> {
    let offset = slot.trailer_off + cfg.max_align * 4;
    if offset % (align as int) != 0 || MAGIC_LEN as int % (align as int) != 0 {
        let magic_off = offset % (align as int) + (cfg.magic_sz - MAGIC_LEN);
        if magic_off + MAGIC_LEN == cfg.max_align {
            Some(
                (
                    offset - offset % (align as int),
                    Seq::new(magic_off as nat, |i: int| erased) + magic(cfg.max_align),
                ),
            )
        } else {
            None
        }
    } else {
        Some((offset as int, magic(cfg.max_align)))
    }
}

/// Why a mark could not be put on a slot.
#[derive(Copy, Clone, Debug, PartialEq, Eq, Structural)]
pub enum MarkError {
    /// The device of the slot is not on the board.
    NoDevice,
    /// The magic does not fit the block that has to be written.
    Layout,
    /// The device refused or disturbed the write.
    Flash(FlashError),
}

/// What a write of a mark may report: what the device reports of the write
/// for one of the samples that it may draw for a fault.
pub open spec fn write_reports(dev: Flash, off: usize, bytes: Seq<u8>, res: Result<(), MarkError>)
    -> bool {
    exists|sample: u32|
        sample < crate::flash::RATE_ONE && match #[trigger] dev.write_result(off, bytes, sample) {
            Ok(_) => res is Ok,
            Err(e) => res == Err::<(), MarkError>(MarkError::Flash(e)),
        }
}

/// Whether `after` and `res` are what marking the slot for an upgrade
/// gives on `before`: the mark is written to the device of the slot, and
/// nothing else changes.  Without the device, and where the mark cannot be
/// laid out, nothing is written.
pub open spec fn upgrade_marked(
    before: MultiFlash,
    after: MultiFlash,
    slot: SlotInfo,
    cfg: BootConfig,
    res: Result<(), MarkError>,
) -> bool {
    &&& after.same_board(before)
    &&& match before.place(slot.dev_id) {
        None => res == Err::<(), MarkError>(MarkError::NoDevice) && after == before,
        Some(at) => {
            let dev = before.spec_devs()[at];
            let now = after.spec_devs()[at];
            &&& forall|i: int|
                0 <= i < before.spec_devs().len() && i != at ==> after.spec_devs()[i]
                    == before.spec_devs()[i]
            &&& match upgrade_mark(slot, cfg, dev.spec_align(), dev.spec_erased_val()) {
                None => res == Err::<(), MarkError>(MarkError::Layout) && now == dev,
                Some((off, bytes)) => now@ == dev.write_data(off as usize, bytes) && write_reports(
                    dev,
                    off as usize,
                    bytes,
                    res,
                ),
            }
        },
    }
}

/// Write out the magic so that the loader tries doing an upgrade.
pub fn mark_upgrade(flash: &mut MultiFlash, slot: &SlotInfo, cfg: &BootConfig) -> (res: Result<
    (),
    MarkError,
>)
    requires
        old(flash).wf(),
        cfg.wf(),
        slot.fits(*cfg),
    ensures
        final(flash).wf(),
        upgrade_marked(*old(flash), *final(flash), *slot, *cfg, res),
{
    let at: usize = match flash.find(slot.dev_id) {
        Some(at) => at,
        None => {
            return Err(MarkError::NoDevice);
        },
    };
    let align: usize = flash.get(at).align();
    let erased: u8 = flash.get(at).erased_val();
    let offset: usize = slot.trailer_off + cfg.max_align * 4;
    let magic: Vec<u8> = boot_magic(cfg.max_align);
    if offset % align != 0 || MAGIC_LEN % align != 0 {
        // The write size is larger than the magic value.  Fill a buffer
        // with the erased value, put the magic at its end, and write it in
        // its entirety.
        proof {
            vstd::arithmetic::div_mod::lemma_mod_decreases(offset as nat, align as nat);
        }
        let magic_off: usize = (offset % align) + (cfg.magic_sz - MAGIC_LEN);
        if magic_off + MAGIC_LEN != cfg.max_align {
            return Err(MarkError::Layout);
        }
        let mut buf: Vec<u8> = vec![erased; magic_off];
        assert(buf@ =~= Seq::new(magic_off as nat, |i: int| erased));
        crate::bytes::push_all(&mut buf, &magic);
        match flash.try_write(at, offset - (offset % align), buf.as_slice()) {
            Ok(()) => Ok(()),
            Err(e) => Err(MarkError::Flash(e)),
        }
    } else {
        match flash.try_write(at, offset, magic.as_slice()) {
            Ok(()) => Ok(()),
            Err(e) => Err(MarkError::Flash(e)),
        }
    }
}

/// What `mark_permanent_upgrade` writes at the place of the flag
/// `image_ok`: a block of the write alignment that starts with 1 and is
/// erased after it.
pub open spec fn permanent_mark(align: usize, erased: u8) -> Seq<u8> {
    Seq::new(align as nat, |i: int| erased).update(0, 1u8)
}

/// Whether `after` and `res` are what marking the image in the slot as
/// permanent gives on `before`: the flag is written to the device of the
/// slot, and nothing else changes.  Nothing is written for a bootloader
/// that upgrades by overwriting, nor without the device.
pub open spec fn permanent_marked(
    before: MultiFlash,
    after: MultiFlash,
    slot: SlotInfo,
    cfg: BootConfig,
    res: Result<(), MarkError>,
) -> bool {
    &&& after.same_board(before)
    &&& if cfg.caps.has(Caps::OverwriteUpgrade) {
        res is Ok && after == before
    } else {
        match before.place(slot.dev_id) {
            None => res == Err::<(), MarkError>(MarkError::NoDevice) && after == before,
            Some(at) => {
                let dev = before.spec_devs()[at];
                let bytes = permanent_mark(dev.spec_align(), dev.spec_erased_val());
                &&& forall|i: int|
                    0 <= i < before.spec_devs().len() && i != at ==> after.spec_devs()[i]
                        == before.spec_devs()[i]
                &&& after.spec_devs()[at]@ == dev.write_data(
                    slot.image_ok_off(cfg) as usize,
                    bytes,
                )
                &&& write_reports(dev, slot.image_ok_off(cfg) as usize, bytes, res)
            },
        }
    }
}

/// Writes the flag `image_ok`, which tells the bootloader that this image
/// is ok: not a test, and no revert is to be performed.  A bootloader that
/// upgrades by overwriting is always permanent, and only uses the magic of
/// the trailer, so nothing is written for it.
pub fn mark_permanent_upgrade(flash: &mut MultiFlash, slot: &SlotInfo, cfg: &BootConfig) -> (res:
    Result<(), MarkError>)
    requires
        old(flash).wf(),
        cfg.wf(),
        slot.fits(*cfg),
    ensures
        final(flash).wf(),
        permanent_marked(*old(flash), *final(flash), *slot, *cfg, res),
{
    if Caps::OverwriteUpgrade.present(&cfg.caps) {
        return Ok(());
    }
    let at: usize = match flash.find(slot.dev_id) {
        Some(at) => at,
        None => {
            return Err(MarkError::NoDevice);
        },
    };
    let align: usize = flash.get(at).align();
    let erased: u8 = flash.get(at).erased_val();
    let mut ok: Vec<u8> = vec![erased; align];
    ok[0] = 1u8;
    assert(ok@ =~= permanent_mark(align, erased));
    let off: usize = slot.trailer_off + cfg.max_align * 3;
    match flash.try_write(at, off, ok.as_slice()) {
        Ok(()) => Ok(()),
        Err(e) => Err(MarkError::Flash(e)),
    }
}

/// The key under which the home of a slot is kept.
pub open spec fn key_of(slot: SlotInfo) -> SlotKey {
    SlotKey { dev_id: slot.dev_id, base_off: slot.base_off }
}

/// Where in RAM the images from image `k` on are loaded: the images before
/// it follow one another from `RAM_LOAD_ADDR` on, each taking the length of
/// its primary slot.
pub open spec fn ram_base(slots: Seq<[SlotInfo; 2]>, k: int) -> int
    decreases k,
{
    if k <= 0 {
        RAM_LOAD_ADDR as int
    } else {
        ram_base(slots, k - 1) + slots[k - 1][0].len
    }
}

/// The homes of the slots of the first `k` images.  Both slots of an image
/// are loaded to the same address.
pub open spec fn ram_layout(slots: Seq<[SlotInfo; 2]>, k: int) -> Seq<(SlotKey, SlotPlace)>
    decreases k,
{
    if k <= 0 {
        Seq::<(SlotKey, SlotPlace)>::empty()
    } else {
        ram_layout(slots, k - 1) + seq![
            (
                key_of(slots[k - 1][0]),
                SlotPlace {
                    offset: ram_base(slots, k - 1) as u32,
                    size: slots[k - 1][0].len as u32,
                },
            ),
            (
                key_of(slots[k - 1][1]),
                SlotPlace {
                    offset: ram_base(slots, k - 1) as u32,
                    size: slots[k - 1][1].len as u32,
                },
            ),
        ]
    }
}

/// Whether the homes of the images can be laid out: every slot, and the
/// whole of RAM, has to fit what 32 bits can address.
pub open spec fn ram_fits(slots: Seq<[SlotInfo; 2]>) -> bool {
    &&& ram_base(slots, slots.len() as int) <= u32::MAX
    &&& forall|i: int| 0 <= i < slots.len() ==> (#[trigger] slots[i])[1].len <= u32::MAX
}

/// The home kept under a key: the one that was entered last.
pub open spec fn home_of(places: Seq<(SlotKey, SlotPlace)>, key: SlotKey) -> Option<SlotPlace>
    decreases places.len(),
{
    if places.len() == 0 {
        None
    } else if places.last().0 == key {
        Some(places.last().1)
    } else {
        home_of(places.drop_last(), key)
    }
}

/// The starts of the images in RAM do not decrease.
pub proof fn lemma_ram_base_monotonic(slots: Seq<[SlotInfo; 2]>, i: int, j: int)
    requires
        0 <= i <= j,
    ensures
        RAM_LOAD_ADDR <= ram_base(slots, i) <= ram_base(slots, j),
    decreases j,
{
    if i < j {
        lemma_ram_base_monotonic(slots, i, j - 1);
    } else if j > 0 {
        lemma_ram_base_monotonic(slots, 0, j - 1);
    }
}

/// The primary slots of two different images have homes in RAM that do not
/// overlap: the home of the earlier image ends where that of the next one
/// starts, or before.
pub proof fn lemma_ram_homes_disjoint(slots: Seq<[SlotInfo; 2]>, i: int, j: int)
    requires
        0 <= i < j < slots.len(),
    ensures
        ram_base(slots, i) + slots[i][0].len <= ram_base(slots, j),
{
    lemma_ram_base_monotonic(slots, i + 1, j);
}

impl RamData {
    /// The homes, in the order in which they were entered.
    pub closed spec fn spec_places(&self) -> Seq<(SlotKey, SlotPlace)> {
        self.places@
    }

    /// The end of the last home.
    pub closed spec fn spec_total(&self) -> u32 {
        self.total
    }

    /// Lays out the homes of the slots of every image.  `None` if they do
    /// not fit what 32 bits can address.
    pub fn new(slots: &Vec<[SlotInfo; 2]>) -> (res: Option<RamData>)
        ensures
            res is Some <==> ram_fits(slots@),
            res matches Some(ram) ==> ram.spec_places() == ram_layout(slots@, slots@.len() as int)
                && ram.spec_total() == ram_base(slots@, slots@.len() as int),
    {
        let mut addr: u32 = RAM_LOAD_ADDR;
        let mut places: Vec<(SlotKey, SlotPlace)> = Vec::new();
        let mut k: usize = 0;
        while k < slots.len()
            invariant
                k <= slots.len(),
                addr == ram_base(slots@, k as int),
                places@ == ram_layout(slots@, k as int),
                forall|i: int| 0 <= i < k ==> (#[trigger] slots@[i])[1].len <= u32::MAX,
            decreases slots.len() - k,
        {
            let imgs: &[SlotInfo; 2] = &slots[k];
            let primary: SlotInfo = imgs[0];
            let secondary: SlotInfo = imgs[1];
            let fits: bool = secondary.len <= 0xffff_ffff && primary.len <= 0xffff_ffff
                && primary.len as u64 + addr as u64 <= 0xffff_ffff;
            if !fits {
                proof {
                    if primary.len + addr > u32::MAX {
                        lemma_ram_base_monotonic(slots@, k + 1, slots@.len() as int);
                    } else {
                        assert((slots@[k as int])[1].len > u32::MAX);
                    }
                }
                return None;
            }
            let offset: u32 = addr;
            places.push(
                (
                    SlotKey { dev_id: primary.dev_id, base_off: primary.base_off },
                    SlotPlace { offset, size: primary.len as u32 },
                ),
            );
            places.push(
                (
                    SlotKey { dev_id: secondary.dev_id, base_off: secondary.base_off },
                    SlotPlace { offset, size: secondary.len as u32 },
                ),
            );
            assert(places@ =~= ram_layout(slots@, k + 1));
            addr = addr + primary.len as u32;
            k = k + 1;
        }
        Some(RamData { places, total: addr })
    }

    /// The end of the last home: the size that RAM has to have, counted
    /// from address 0.
    pub fn total(&self) -> (res: u32)
        ensures
            res == self.spec_total(),
    {
        self.total
    }

    /// Lookup the home in RAM that goes with a given slot.
    pub fn lookup(&self, slot: &SlotInfo) -> (res: Option<SlotPlace>)
        ensures
            res == home_of(self.spec_places(), key_of(*slot)),
    {
        let mut i: usize = self.places.len();
        assert(self.places@.subrange(0, i as int) =~= self.places@);
        while i > 0
            invariant
                i <= self.places.len(),
                home_of(self.places@, key_of(*slot)) == home_of(
                    self.places@.subrange(0, i as int),
                    key_of(*slot),
                ),
            decreases i,
        {
            let ghost front = self.places@.subrange(0, i as int);
            assert(front.drop_last() =~= self.places@.subrange(0, i - 1));
            let entry: (SlotKey, SlotPlace) = self.places[i - 1];
            if entry.0.dev_id == slot.dev_id && entry.0.base_off == slot.base_off {
                return Some(entry.1);
            }
            i = i - 1;
        }
        None
    }
}

} // verus!
