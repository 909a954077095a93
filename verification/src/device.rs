//! The boards that the bootloader is tested on: for each, its flash
//! devices, where its slots lie, and which bootloaders it cannot serve.

use crate::area::{
    AreaDesc,
    DeviceSectors,
    FlashArea,
    FlashId,
    lemma_tiling_between,
    no_areas,
    sectors_desc,
    sectors_of,
    tiling,
};
use crate::caps::Caps;
use crate::flash::{Flash, blank, device_len, lemma_sector_base_monotonic, sector_base};
use crate::multiflash::MultiFlash;
use vstd::prelude::*;

verus! {

/// The boards that can be simulated.
#[derive(Copy, Clone, Debug, PartialEq, Eq, Structural)]
pub enum DeviceName {
    Stm32f4,
    K64f,
    K64fBig,
    K64fMulti,
    Nrf52840,
    Nrf52840SpiFlash,
    Nrf52840UnequalSlots,
}

/// Where a slot of a board lies.
#[derive(Copy, Clone, Debug, PartialEq, Eq, Structural)]
pub struct SlotSpec {
    pub base: usize,
    pub len: usize,
    pub id: FlashId,
    pub dev_id: u8,
    /// Whether the slot is described as a single unit, whatever the sectors
    /// of the device are.
    pub simple: bool,
}

impl DeviceName {
    /// The name of the board as it is written on the command line.
    pub fn name(self) -> (res: &'static str)
        ensures
            res@ == match self {
                DeviceName::Stm32f4 => "stm32f4"@,
                DeviceName::K64f => "k64f"@,
                DeviceName::K64fBig => "k64fbig"@,
                DeviceName::K64fMulti => "k64fmulti"@,
                DeviceName::Nrf52840 => "nrf52840"@,
                DeviceName::Nrf52840SpiFlash => "Nrf52840SpiFlash"@,
                DeviceName::Nrf52840UnequalSlots => "Nrf52840UnequalSlots"@,
            },
    {
        match self {
            DeviceName::Stm32f4 => "stm32f4",
            DeviceName::K64f => "k64f",
            DeviceName::K64fBig => "k64fbig",
            DeviceName::K64fMulti => "k64fmulti",
            DeviceName::Nrf52840 => "nrf52840",
            DeviceName::Nrf52840SpiFlash => "Nrf52840SpiFlash",
            DeviceName::Nrf52840UnequalSlots => "Nrf52840UnequalSlots",
        }
    }

    /// The sizes of the sectors of the devices of the board, device by
    /// device.
    pub open spec fn spec_sectors(self) -> Seq<Seq<usize>> {
        match self {
            // STM style flash.  Large sectors, with a large scratch area.
            DeviceName::Stm32f4 => seq![
                seq![
                    0x4000usize,
                    0x4000usize,
                    0x4000usize,
                    0x4000usize,
                    0x1_0000usize,
                    0x8000usize,
                    0x8000usize,
                    0x1_0000usize,
                    0x8000usize,
                    0x8000usize,
                    0x1_0000usize,
                    0x2_0000usize,
                ],
            ],
            // NXP style flash, but larger, to support multiple images.
            DeviceName::K64fMulti => seq![Seq::new(256, |i: int| 4096usize)],
            // The board with external flash has a second device with larger
            // sectors.
            DeviceName::Nrf52840SpiFlash => seq![
                Seq::new(128, |i: int| 4096usize),
                Seq::new(64, |i: int| 8192usize),
            ],
            // NXP style flash.  Small sectors.
            _ => seq![Seq::new(128, |i: int| 4096usize)],
        }
    }

    /// The slots of the board, in the order in which they are added to the
    /// map of areas.
    pub open spec fn spec_slots(self) -> Seq<SlotSpec> {
        match self {
            DeviceName::Stm32f4 => seq![
                slot(0x020000, 0x020000, FlashId::Image0, 0, false),
                slot(0x040000, 0x020000, FlashId::Image1, 0, false),
                slot(0x060000, 0x020000, FlashId::ImageScratch, 0, false),
            ],
            // One small sector for scratch.
            DeviceName::K64f => seq![
                slot(0x020000, 0x020000, FlashId::Image0, 0, false),
                slot(0x040000, 0x020000, FlashId::Image1, 0, false),
                slot(0x060000, 0x001000, FlashId::ImageScratch, 0, false),
            ],
            // Simulating an STM style flash on top of an NXP style flash.
            // The underlying flash device uses small sectors, but the
            // bootloader is told that they are large.
            DeviceName::K64fBig => seq![
                slot(0x020000, 0x020000, FlashId::Image0, 0, true),
                slot(0x040000, 0x020000, FlashId::Image1, 0, true),
                slot(0x060000, 0x020000, FlashId::ImageScratch, 0, true),
            ],
            DeviceName::K64fMulti => seq![
                slot(0x020000, 0x020000, FlashId::Image0, 0, false),
                slot(0x040000, 0x020000, FlashId::Image1, 0, false),
                slot(0x060000, 0x001000, FlashId::ImageScratch, 0, false),
                slot(0x080000, 0x020000, FlashId::Image2, 0, false),
                slot(0x0a0000, 0x020000, FlashId::Image3, 0, false),
            ],
            // The partitions are set up so that the scratch size does not
            // divide into the image size.
            DeviceName::Nrf52840 => seq![
                slot(0x008000, 0x034000, FlashId::Image0, 0, false),
                slot(0x03c000, 0x034000, FlashId::Image1, 0, false),
                slot(0x070000, 0x00d000, FlashId::ImageScratch, 0, false),
            ],
            // The external flash has a larger sector size, so the scratch
            // is kept there.
            DeviceName::Nrf52840SpiFlash => seq![
                slot(0x008000, 0x068000, FlashId::Image0, 0, false),
                slot(0x000000, 0x068000, FlashId::Image1, 1, false),
                slot(0x068000, 0x018000, FlashId::ImageScratch, 1, false),
            ],
            DeviceName::Nrf52840UnequalSlots => seq![
                slot(0x008000, 0x03c000, FlashId::Image0, 0, false),
                slot(0x044000, 0x03b000, FlashId::Image1, 0, false),
            ],
        }
    }

    /// The capabilities of a bootloader that the board cannot serve.
    pub open spec fn spec_unsupported(self) -> Seq<Caps> {
        match self {
            DeviceName::Stm32f4 => seq![Caps::SwapUsingMove],
            DeviceName::K64fBig => seq![Caps::SwapUsingMove],
            DeviceName::Nrf52840SpiFlash => seq![Caps::SwapUsingMove],
            DeviceName::Nrf52840UnequalSlots => seq![
                Caps::SwapUsingScratch,
                Caps::OverwriteUpgrade,
            ],
            _ => Seq::<Caps>::empty(),
        }
    }

    /// The sizes of the sectors of the devices of the board.
    pub fn sectors(self) -> (res: Vec<Vec<usize>>)
        ensures
            res@.len() == self.spec_sectors().len(),
            forall|i: int| 0 <= i < res@.len() ==> (#[trigger] res@[i])@ == self.spec_sectors()[i],
    {
        let mut res: Vec<Vec<usize>> = Vec::new();
        match self {
            DeviceName::Stm32f4 => {
                let dev: Vec<usize> = vec![
                    0x4000usize,
                    0x4000usize,
                    0x4000usize,
                    0x4000usize,
                    0x1_0000usize,
                    0x8000usize,
                    0x8000usize,
                    0x1_0000usize,
                    0x8000usize,
                    0x8000usize,
                    0x1_0000usize,
                    0x2_0000usize,
                ];
                assert(dev@ =~= self.spec_sectors()[0]);
                res.push(dev);
            },
            DeviceName::K64fMulti => {
                let dev: Vec<usize> = vec![4096usize; 256];
                assert(dev@ =~= self.spec_sectors()[0]);
                res.push(dev);
            },
            DeviceName::Nrf52840SpiFlash => {
                let dev0: Vec<usize> = vec![4096usize; 128];
                let dev1: Vec<usize> = vec![8192usize; 64];
                assert(dev0@ =~= self.spec_sectors()[0]);
                assert(dev1@ =~= self.spec_sectors()[1]);
                res.push(dev0);
                res.push(dev1);
            },
            _ => {
                let dev: Vec<usize> = vec![4096usize; 128];
                assert(dev@ =~= self.spec_sectors()[0]);
                res.push(dev);
            },
        }
        res
    }

    /// The slots of the board.
    pub fn slots(self) -> (res: Vec<SlotSpec>)
        ensures
            res@ == self.spec_slots(),
    {
        let res: Vec<SlotSpec> = match self {
            DeviceName::Stm32f4 => vec![
                make_slot(0x020000, 0x020000, FlashId::Image0, 0, false),
                make_slot(0x040000, 0x020000, FlashId::Image1, 0, false),
                make_slot(0x060000, 0x020000, FlashId::ImageScratch, 0, false),
            ],
            DeviceName::K64f => vec![
                make_slot(0x020000, 0x020000, FlashId::Image0, 0, false),
                make_slot(0x040000, 0x020000, FlashId::Image1, 0, false),
                make_slot(0x060000, 0x001000, FlashId::ImageScratch, 0, false),
            ],
            DeviceName::K64fBig => vec![
                make_slot(0x020000, 0x020000, FlashId::Image0, 0, true),
                make_slot(0x040000, 0x020000, FlashId::Image1, 0, true),
                make_slot(0x060000, 0x020000, FlashId::ImageScratch, 0, true),
            ],
            DeviceName::K64fMulti => vec![
                make_slot(0x020000, 0x020000, FlashId::Image0, 0, false),
                make_slot(0x040000, 0x020000, FlashId::Image1, 0, false),
                make_slot(0x060000, 0x001000, FlashId::ImageScratch, 0, false),
                make_slot(0x080000, 0x020000, FlashId::Image2, 0, false),
                make_slot(0x0a0000, 0x020000, FlashId::Image3, 0, false),
            ],
            DeviceName::Nrf52840 => vec![
                make_slot(0x008000, 0x034000, FlashId::Image0, 0, false),
                make_slot(0x03c000, 0x034000, FlashId::Image1, 0, false),
                make_slot(0x070000, 0x00d000, FlashId::ImageScratch, 0, false),
            ],
            DeviceName::Nrf52840SpiFlash => vec![
                make_slot(0x008000, 0x068000, FlashId::Image0, 0, false),
                make_slot(0x000000, 0x068000, FlashId::Image1, 1, false),
                make_slot(0x068000, 0x018000, FlashId::ImageScratch, 1, false),
            ],
            DeviceName::Nrf52840UnequalSlots => vec![
                make_slot(0x008000, 0x03c000, FlashId::Image0, 0, false),
                make_slot(0x044000, 0x03b000, FlashId::Image1, 0, false),
            ],
        };
        assert(res@ =~= self.spec_slots());
        res
    }

    /// The capabilities of a bootloader that the board cannot serve.
    pub fn unsupported(self) -> (res: Vec<Caps>)
        ensures
            res@ == self.spec_unsupported(),
    {
        let res: Vec<Caps> = match self {
            DeviceName::Stm32f4 => vec![Caps::SwapUsingMove],
            DeviceName::K64fBig => vec![Caps::SwapUsingMove],
            DeviceName::Nrf52840SpiFlash => vec![Caps::SwapUsingMove],
            DeviceName::Nrf52840UnequalSlots => vec![Caps::SwapUsingScratch, Caps::OverwriteUpgrade],
            _ => Vec::new(),
        };
        assert(res@ =~= self.spec_unsupported());
        res
    }
}

/// A slot of a board.
pub open spec fn slot(base: usize, len: usize, id: FlashId, dev_id: u8, simple: bool) -> SlotSpec {
    SlotSpec { base, len, id, dev_id, simple }
}

fn make_slot(base: usize, len: usize, id: FlashId, dev_id: u8, simple: bool) -> (res: SlotSpec)
    ensures
        res == slot(base, len, id, dev_id, simple),
{
    SlotSpec { base, len, id, dev_id, simple }
}

/// Every board that can be simulated.
pub fn all_devices() -> (res: Vec<DeviceName>)
    ensures
        res@ == seq![
            DeviceName::Stm32f4,
            DeviceName::K64f,
            DeviceName::K64fBig,
            DeviceName::K64fMulti,
            DeviceName::Nrf52840,
            DeviceName::Nrf52840SpiFlash,
            DeviceName::Nrf52840UnequalSlots,
        ],
{
    let res: Vec<DeviceName> = vec![
        DeviceName::Stm32f4,
        DeviceName::K64f,
        DeviceName::K64fBig,
        DeviceName::K64fMulti,
        DeviceName::Nrf52840,
        DeviceName::Nrf52840SpiFlash,
        DeviceName::Nrf52840UnequalSlots,
    ];
    assert(res@ =~= seq![
        DeviceName::Stm32f4,
        DeviceName::K64f,
        DeviceName::K64fBig,
        DeviceName::K64fMulti,
        DeviceName::Nrf52840,
        DeviceName::Nrf52840SpiFlash,
        DeviceName::Nrf52840UnequalSlots,
    ]);
    res
}

/// Adds up the sizes of the sectors of a device.  `None` if they add up to
/// more than can be addressed.
pub fn total_size(sectors: &Vec<usize>) -> (res: Option<usize>)
    ensures
        match res {
            Some(n) => n == device_len(sectors@),
            None => device_len(sectors@) > usize::MAX,
        },
{
    let mut total: usize = 0;
    let mut k: usize = 0;
    while k < sectors.len()
        invariant
            k <= sectors.len(),
            total == sector_base(sectors@, k as int),
        decreases sectors.len() - k,
    {
        total = match total.checked_add(sectors[k]) {
            Some(total) => total,
            None => {
                proof {
                    lemma_sector_base_monotonic(sectors@, k + 1, sectors@.len() as int);
                }
                return None;
            },
        };
        k = k + 1;
    }
    Some(total)
}

/// The area that spans a slot.
pub open spec fn whole_of(s: SlotSpec) -> FlashArea {
    FlashArea {
        flash_id: s.id,
        device_id: s.dev_id,
        pad16: 0,
        off: s.base as u32,
        size: s.len as u32,
    }
}

/// The table of spanning areas after the first `k` slots were added.  A
/// slot that is added sector by sector goes to the place of its purpose, and
/// the places before it that nothing was added for stay empty.  A simple
/// slot goes to the end.
pub open spec fn table_after(layout: Seq<SlotSpec>, k: int) -> Seq<FlashArea>
    decreases k,
{
    if k <= 0 {
        Seq::<FlashArea>::empty()
    } else {
        let before = table_after(layout, k - 1);
        let s = layout[k - 1];
        if s.simple {
            before.push(whole_of(s))
        } else {
            before + no_areas((s.id.spec_index() - before.len()) as nat) + seq![whole_of(s)]
        }
    }
}

/// Whether slot `k` can be added once the slots before it are: it ends
/// within what 32 bits can address, and unless it is simple, its place in the
/// table is still free and it is made of whole sectors of its device.
pub open spec fn addable(devices: Seq<DeviceSectors>, layout: Seq<SlotSpec>, k: int) -> bool {
    let s = layout[k];
    &&& s.base + s.len <= u32::MAX
    &&& !s.simple ==> {
        &&& s.id.spec_index() >= table_after(layout, k).len()
        &&& sectors_of(devices, s.dev_id) matches Some(sectors) && tiling(
            sectors,
            0,
            s.base as int,
            s.len as int,
        ) is Some
    }
}

/// Whether the sectors of the devices of a board are registered, each
/// device under its place.
pub open spec fn registered(devices: Seq<DeviceSectors>, sizes: Seq<Seq<usize>>) -> bool {
    &&& devices.len() == sizes.len()
    &&& forall|i: int|
        0 <= i < devices.len() ==> (#[trigger] devices[i]).device_id == i && devices[i].sectors@
            == sectors_desc(sizes[i])
}

/// Sector `k` of a device whose sectors all have `size` bytes starts at `k`
/// times `size`.
pub proof fn lemma_uniform_base(sizes: Seq<usize>, size: usize, k: int)
    requires
        0 <= k <= sizes.len(),
        forall|t: int| 0 <= t < sizes.len() ==> #[trigger] sizes[t] == size,
    ensures
        sector_base(sizes, k) == k * size,
    decreases k,
{
    if k > 0 {
        lemma_uniform_base(sizes, size, k - 1);
        assert(sizes[k - 1] == size);
        assert(sector_base(sizes, k) == sector_base(sizes, k - 1) + sizes[k - 1]);
        assert((k - 1) * size + size == k * size) by (nonlinear_arith);
    } else {
        assert(sector_base(sizes, 0) == 0);
        assert(0 * size == 0);
    }
}

/// On a device of `count` sectors of `size` bytes, the range from sector
/// `i` to sector `j` is made of whole sectors.
proof fn lemma_uniform_tiles(count: nat, size: usize, i: int, j: int)
    requires
        0 <= i <= j <= count,
        size > 0,
        count * size <= usize::MAX,
    ensures
        tiling(sectors_desc(Seq::new(count, |k: int| size)), 0, i * size, (j - i) * size) is Some,
{
    let sizes = Seq::new(count, |k: int| size);
    lemma_uniform_base(sizes, size, i);
    lemma_uniform_base(sizes, size, j);
    lemma_uniform_base(sizes, size, count as int);
    assert(j * size - i * size == (j - i) * size) by (nonlinear_arith);
    lemma_tiling_between(sizes, 0, i, j);
}

/// The sectors registered for device 0 and for device 1 of a board.
proof fn lemma_registered_lookup(devices: Seq<DeviceSectors>, sizes: Seq<Seq<usize>>)
    requires
        registered(devices, sizes),
        1 <= sizes.len() <= 2,
    ensures
        sectors_of(devices, 0) == Some(sectors_desc(sizes[0])),
        sizes.len() == 2 ==> sectors_of(devices, 1) == Some(sectors_desc(sizes[1])),
{
    assert(devices[0].device_id == 0);
    if devices.len() == 2 {
        assert(devices[1].device_id == 1);
        assert(devices.drop_last().last() == devices[0]);
        assert(devices.drop_last().len() == 1);
    }
    reveal_with_fuel(sectors_of, 3);
}

/// Every slot of every board can be added to the map of areas of the board.
pub proof fn lemma_slots_addable(device: DeviceName, devices: Seq<DeviceSectors>)
    requires
        registered(devices, device.spec_sectors()),
    ensures
        forall|k: int|
            0 <= k < device.spec_slots().len() ==> addable(devices, device.spec_slots(), k),
{
    let layout = device.spec_slots();
    let sizes = device.spec_sectors();
    lemma_registered_lookup(devices, sizes);
    reveal_with_fuel(table_after, 6);
    match device {
        DeviceName::Stm32f4 => {
            let s = sizes[0];
            reveal_with_fuel(sector_base, 13);
            assert(sector_base(s, 5) == 0x20000);
            assert(sector_base(s, 8) == 0x40000);
            assert(sector_base(s, 11) == 0x60000);
            assert(sector_base(s, 12) == 0x80000);
            lemma_tiling_between(s, 0, 5, 8);
            lemma_tiling_between(s, 0, 8, 11);
            lemma_tiling_between(s, 0, 11, 12);
        },
        DeviceName::K64f => {
            lemma_uniform_tiles(128, 4096, 32, 64);
            lemma_uniform_tiles(128, 4096, 64, 96);
            lemma_uniform_tiles(128, 4096, 96, 97);
        },
        DeviceName::K64fBig => {},
        DeviceName::K64fMulti => {
            lemma_uniform_tiles(256, 4096, 32, 64);
            lemma_uniform_tiles(256, 4096, 64, 96);
            lemma_uniform_tiles(256, 4096, 96, 97);
            lemma_uniform_tiles(256, 4096, 128, 160);
            lemma_uniform_tiles(256, 4096, 160, 192);
        },
        DeviceName::Nrf52840 => {
            lemma_uniform_tiles(128, 4096, 8, 60);
            lemma_uniform_tiles(128, 4096, 60, 112);
            lemma_uniform_tiles(128, 4096, 112, 125);
        },
        DeviceName::Nrf52840SpiFlash => {
            lemma_uniform_tiles(128, 4096, 8, 112);
            lemma_uniform_tiles(64, 8192, 0, 52);
            lemma_uniform_tiles(64, 8192, 52, 64);
        },
        DeviceName::Nrf52840UnequalSlots => {
            lemma_uniform_tiles(128, 4096, 8, 68);
            lemma_uniform_tiles(128, 4096, 68, 127);
        },
    }
    assert forall|k: int| 0 <= k < layout.len() implies addable(devices, layout, k) by {
        // The slots of a board are few: each is looked at in turn.
        assert(k == 0 || k == 1 || k == 2 || k == 3 || k == 4);
    }
}

/// The sectors of every device of every board add up to what can be
/// addressed.
pub proof fn lemma_devices_fit(device: DeviceName, i: int)
    requires
        0 <= i < device.spec_sectors().len(),
    ensures
        device_len(device.spec_sectors()[i]) <= 0x10_0000,
{
    match device {
        DeviceName::Stm32f4 => {
            reveal_with_fuel(sector_base, 13);
        },
        DeviceName::K64fMulti => {
            lemma_uniform_base(device.spec_sectors()[0], 4096, 256);
        },
        DeviceName::Nrf52840SpiFlash => {
            lemma_uniform_base(device.spec_sectors()[0], 4096, 128);
            lemma_uniform_base(device.spec_sectors()[1], 8192, 64);
        },
        _ => {
            lemma_uniform_base(device.spec_sectors()[0], 4096, 128);
        },
    }
}

/// Whether `flash` holds the devices of the board as they are made: each
/// under its place in the list of the board, with the sectors of the board,
/// erased, without faults, and verifying its writes.
pub open spec fn fresh_board(flash: MultiFlash, device: DeviceName, align: usize, erased_val: u8)
    -> bool {
    &&& flash.spec_devs().len() == device.spec_sectors().len()
    &&& flash.spec_ids().len() == device.spec_sectors().len()
    &&& forall|i: int| 0 <= i < flash.spec_devs().len() ==> #[trigger] flash.spec_ids()[i] == i
    &&& forall|i: int|
        0 <= i < flash.spec_devs().len() ==> {
            let d = #[trigger] flash.spec_devs()[i];
            &&& d.spec_sectors() == device.spec_sectors()[i]
            &&& d.spec_align() == align
            &&& d.spec_erased_val() == erased_val
            &&& d.spec_verify_writes()
            &&& d.spec_bad_regions() == Seq::<crate::flash::BadRegion>::empty()
            &&& d@ == blank(device_len(device.spec_sectors()[i]) as nat, erased_val)
        }
}

/// Build the flash devices and the map of areas for a given board, and tell
/// which bootloaders the board cannot serve.  The devices are registered
/// under their place in the list of the board: 0, then 1.
pub fn make_device(device: DeviceName, align: usize, erased_val: u8) -> (board: (
    MultiFlash,
    AreaDesc,
    Vec<Caps>,
))
    requires
        align > 0,
        align & ((align - 1) as usize) == 0,
    ensures
        board.0.wf(),
        board.1.wf(),
        board.1.spec_whole() == table_after(device.spec_slots(), device.spec_slots().len() as int),
        board.2@ == device.spec_unsupported(),
        fresh_board(board.0, device, align, erased_val),
{
    let sectors: Vec<Vec<usize>> = device.sectors();
    let layout: Vec<SlotSpec> = device.slots();
    let mut flash: MultiFlash = MultiFlash::new();
    let mut areadesc: AreaDesc = AreaDesc::new();
    let mut i: usize = 0;
    while i < sectors.len()
        invariant
            i <= sectors.len() <= 2,
            align > 0,
            align & ((align - 1) as usize) == 0,
            sectors@.len() == device.spec_sectors().len(),
            forall|k: int|
                0 <= k < sectors@.len() ==> (#[trigger] sectors@[k])@ == device.spec_sectors()[k],
            flash.wf(),
            areadesc.wf(),
            areadesc.spec_areas().len() == 0,
            areadesc.spec_whole().len() == 0,
            areadesc.spec_devices().len() == i,
            forall|k: int|
                0 <= k < i ==> (#[trigger] areadesc.spec_devices()[k]).device_id == k
                    && areadesc.spec_devices()[k].sectors@ == sectors_desc(
                    device.spec_sectors()[k],
                ),
            flash.spec_devs().len() == i,
            forall|k: int| 0 <= k < i ==> #[trigger] flash.spec_ids()[k] == k,
            forall|k: int|
                0 <= k < i ==> {
                    let d = #[trigger] flash.spec_devs()[k];
                    &&& d.spec_sectors() == device.spec_sectors()[k]
                    &&& d.spec_align() == align
                    &&& d.spec_erased_val() == erased_val
                    &&& d.spec_verify_writes()
                    &&& d.spec_bad_regions() == Seq::<crate::flash::BadRegion>::empty()
                    &&& d@ == blank(device_len(device.spec_sectors()[k]) as nat, erased_val)
                },
        decreases sectors.len() - i,
    {
        let sizes: &Vec<usize> = &sectors[i];
        proof {
            lemma_devices_fit(device, i as int);
            assert(sizes@ == device.spec_sectors()[i as int]);
        }
        let fits: Option<usize> = total_size(sizes);
        assert(fits is Some);
        let mut copy: Vec<usize> = Vec::new();
        let mut j: usize = 0;
        while j < sizes.len()
            invariant
                j <= sizes.len(),
                copy@ == sizes@.subrange(0, j as int),
            decreases sizes.len() - j,
        {
            copy.push(sizes[j]);
            assert(sizes@.subrange(0, j + 1) =~= sizes@.subrange(0, j as int).push(sizes@[j as int]));
            j = j + 1;
        }
        assert(sizes@.subrange(0, sizes@.len() as int) =~= sizes@);
        assert(copy@ == device.spec_sectors()[i as int]) by {
            assert(sectors@[i as int]@ == device.spec_sectors()[i as int]);
        }
        let dev: Flash = Flash::new(copy, align, erased_val);
        let ghost registered_before = areadesc.spec_devices();
        areadesc.add_flash_sectors(i as u8, &dev);
        proof {
            let now = areadesc.spec_devices();
            assert(now.last().sectors@ =~= sectors_desc(device.spec_sectors()[i as int]));
            assert forall|k: int| 0 <= k < i + 1 implies (#[trigger] now[k]).device_id == k
                && now[k].sectors@ == sectors_desc(device.spec_sectors()[k]) by {
                if k < i {
                    assert(now[k] == now.drop_last()[k]);
                    assert(registered_before[k].device_id == k);
                }
            }
        }
        let ghost before = flash;
        proof {
            flash.spec_ids().index_of_first_ensures(i as u8);
            assert(flash.place(i as u8) is None);
        }
        flash.insert(i as u8, dev);
        assert forall|k: int| 0 <= k < i + 1 implies {
            let d = #[trigger] flash.spec_devs()[k];
            &&& d.spec_sectors() == device.spec_sectors()[k]
            &&& d.spec_align() == align
            &&& d.spec_erased_val() == erased_val
            &&& d@ == blank(device_len(device.spec_sectors()[k]) as nat, erased_val)
        } by {
            if k < i {
                assert(flash.spec_devs()[k] == before.spec_devs()[k]);
            }
        }
        i = i + 1;
    }
    let ghost devices = areadesc.spec_devices();
    proof {
        lemma_slots_addable(device, devices);
    }
    let mut k: usize = 0;
    while k < layout.len()
        invariant
            k <= layout.len(),
            layout@ == device.spec_slots(),
            areadesc.wf(),
            flash.wf(),
            fresh_board(flash, device, align, erased_val),
            areadesc.spec_devices() == devices,
            areadesc.spec_whole() == table_after(layout@, k as int),
            forall|j: int| 0 <= j < layout@.len() ==> addable(devices, layout@, j),
        decreases layout.len() - k,
    {
        let s: SlotSpec = layout[k];
        assert(addable(devices, layout@, k as int));
        // Every slot of every board can be added.
        if s.simple {
            let added = areadesc.add_simple_image(s.base, s.len, s.id, s.dev_id);
            assert(added is Ok);
        } else {
            areadesc.add_image(s.base, s.len, s.id, s.dev_id);
        }
        assert(areadesc.spec_whole() =~= table_after(layout@, k + 1));
        k = k + 1;
    }
    (flash, areadesc, device.unsupported())
}

} // verus!
