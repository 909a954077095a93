//! The map of flash areas.
//!
//! The bootloader is told where its slots lie through a table of areas.  A
//! slot is normally described sector by sector, so that the bootloader sees
//! the erasable units of the device; a slot can also be described as a single
//! unit, for layouts where the table uses larger sectors than the device
//! has.

use crate::flash::{Flash, Sector};
use vstd::pervasive::unreached;
use vstd::prelude::*;

verus! {

/// The most slots that the table handed to the bootloader holds.
pub const MAX_SLOTS: usize = 16;

/// The purposes a flash area can serve.
#[derive(Copy, Clone, Debug, PartialEq, Eq, Structural)]
pub enum FlashId {
    BootLoader,
    Image0,
    Image1,
    ImageScratch,
    Image2,
    Image3,
}

/// One area of the table: a range of a device, and what it is for.
#[derive(Copy, Clone, Debug, PartialEq, Eq, Structural)]
pub struct FlashArea {
    pub flash_id: FlashId,
    pub device_id: u8,
    pub pad16: u16,
    pub off: u32,
    pub size: u32,
}

/// Why an area could not be added to the map.
#[derive(Copy, Clone, Debug, PartialEq, Eq, Structural)]
pub enum AreaError {
    /// An area with this purpose, or a later one, was added already.
    OutOfOrder,
    /// No sectors were registered for the device.
    UnknownDevice,
    /// The area does not end within what 32 bits can address.
    TooLarge,
    /// The area is not made of whole sectors of the device.
    NotWholeSectors,
    /// The map holds more slots than the table takes.
    TooManySlots,
}

/// The sectors of one device.
pub struct DeviceSectors {
    pub device_id: u8,
    pub sectors: Vec<Sector>,
}

/// One slot of the table handed to the bootloader.
pub struct CArea {
    pub whole: FlashArea,
    pub areas: Vec<FlashArea>,
    pub num_areas: usize,
    pub id: FlashId,
}

/// The table handed to the bootloader.
pub struct CAreaDesc {
    pub slots: Vec<CArea>,
    pub num_slots: u32,
}

impl FlashId {
    /// The place of the purpose in the table.
    pub open spec fn spec_index(self) -> nat {
        match self {
            FlashId::BootLoader => 0,
            FlashId::Image0 => 1,
            FlashId::Image1 => 2,
            FlashId::ImageScratch => 3,
            FlashId::Image2 => 4,
            FlashId::Image3 => 5,
        }
    }

    /// The place of the purpose in the table.
    pub fn index(self) -> (res: usize)
        ensures
            res == self.spec_index(),
    {
        match self {
            FlashId::BootLoader => 0,
            FlashId::Image0 => 1,
            FlashId::Image1 => 2,
            FlashId::ImageScratch => 3,
            FlashId::Image2 => 4,
            FlashId::Image3 => 5,
        }
    }
}

/// The area that stands in a place of the table that nothing was added for.
pub open spec fn no_area() -> FlashArea {
    FlashArea { flash_id: FlashId::BootLoader, device_id: 0, pad16: 0, off: 0, size: 0 }
}

impl Default for FlashId {
    fn default() -> (res: FlashId)
        ensures
            res == FlashId::BootLoader,
    {
        FlashId::BootLoader
    }
}

impl Default for FlashArea {
    fn default() -> (res: FlashArea)
        ensures
            res == no_area(),
    {
        FlashArea { flash_id: FlashId::BootLoader, device_id: 0, pad16: 0, off: 0, size: 0 }
    }
}

/// The sectors registered for a device; where a device was registered more
/// than once, the last registration counts.
pub open spec fn sectors_of(devices: Seq<DeviceSectors>, id: u8) -> Option<Seq<Sector>>
    decreases devices.len(),
{
    if devices.len() == 0 {
        None
    } else if devices.last().device_id == id {
        Some(devices.last().sectors@)
    } else {
        sectors_of(devices.drop_last(), id)
    }
}

/// The sectors, from the one at index `k` on, that make up the range of
/// `len` bytes at `base`: sectors that end before the range are passed over,
/// and then each sector has to start where the last one ended and lie within
/// the range.  `None` if the range is not made of whole sectors.
pub open spec fn tiling(sectors: Seq<Sector>, k: int, base: int, len: int) -> Option<Seq<Sector>>
    decreases sectors.len() - k,
{
    if len == 0 {
        Some(Seq::<Sector>::empty())
    } else if k < 0 || k >= sectors.len() {
        None
    } else if sectors[k].base + sectors[k].size <= base {
        tiling(sectors, k + 1, base, len)
    } else if sectors[k].base != base || sectors[k].size > len {
        None
    } else {
        match tiling(sectors, k + 1, base + sectors[k].size, len - sectors[k].size) {
            Some(rest) => Some(seq![sectors[k]] + rest),
            None => None,
        }
    }
}

/// The first of the areas from place `from` on that has the given purpose.
pub open spec fn first_with(whole: Seq<FlashArea>, id: FlashId, from: int) -> Option<FlashArea>
    decreases whole.len() - from,
{
    if from < 0 || from >= whole.len() {
        None
    } else if whole[from].flash_id == id {
        Some(whole[from])
    } else {
        first_with(whole, id, from + 1)
    }
}

/// The area that describes a sector that is part of a slot.
pub open spec fn area_of(id: FlashId, dev_id: u8, sector: Sector) -> FlashArea {
    FlashArea {
        flash_id: id,
        device_id: dev_id,
        pad16: 0,
        off: sector.base as u32,
        size: sector.size as u32,
    }
}

/// The areas that describe the sectors of a slot.
pub open spec fn areas_of(id: FlashId, dev_id: u8, sectors: Seq<Sector>) -> Seq<FlashArea> {
    Seq::new(sectors.len(), |i: int| area_of(id, dev_id, sectors[i]))
}

/// `count` places of the table that nothing was added for.
pub open spec fn no_areas(count: nat) -> Seq<FlashArea> {
    Seq::new(count, |i: int| no_area())
}

/// `count` empty lists of areas.
pub open spec fn no_lists(count: nat) -> Seq<Seq<FlashArea>> {
    Seq::new(count, |i: int| Seq::<FlashArea>::empty())
}

/// The map of flash areas, as it is built up slot by slot.
pub struct AreaDesc {
    areas: Vec<Vec<FlashArea>>,
    whole: Vec<FlashArea>,
    sectors: Vec<DeviceSectors>,
}

impl AreaDesc {
    /// For each slot, the areas it is made of.
    pub closed spec fn spec_areas(&self) -> Seq<Seq<FlashArea>> {
        Seq::new(self.areas@.len(), |i: int| self.areas@[i]@)
    }

    /// For each slot, the area that spans it.
    pub closed spec fn spec_whole(&self) -> Seq<FlashArea> {
        self.whole@
    }

    /// The devices whose sectors were registered.
    pub closed spec fn spec_devices(&self) -> Seq<DeviceSectors> {
        self.sectors@
    }

    /// Every slot has its list of areas and its spanning area.
    pub open spec fn wf(&self) -> bool {
        self.spec_areas().len() == self.spec_whole().len()
    }

    /// What `add_image` answers.
    pub open spec fn add_image_result(&self, base: usize, len: usize, id: FlashId, dev_id: u8)
        -> Result<(), AreaError> {
        if id.spec_index() < self.spec_areas().len() {
            Err(AreaError::OutOfOrder)
        } else {
            match sectors_of(self.spec_devices(), dev_id) {
                None => Err(AreaError::UnknownDevice),
                Some(sectors) => if base + len > u32::MAX {
                    Err(AreaError::TooLarge)
                } else if tiling(sectors, 0, base as int, len as int) is None {
                    Err(AreaError::NotWholeSectors)
                } else {
                    Ok(())
                },
            }
        }
    }

    /// An empty map.
    pub fn new() -> (res: AreaDesc)
        ensures
            res.wf(),
            res.spec_areas() == Seq::<Seq<FlashArea>>::empty(),
            res.spec_whole() == Seq::<FlashArea>::empty(),
            res.spec_devices() == Seq::<DeviceSectors>::empty(),
    {
        let res = AreaDesc { areas: Vec::new(), whole: Vec::new(), sectors: Vec::new() };
        assert(res.spec_areas() =~= Seq::<Seq<FlashArea>>::empty());
        res
    }

    /// Registers the sectors of a device.
    pub fn add_flash_sectors(&mut self, id: u8, flash: &Flash)
        requires
            old(self).wf(),
            flash.wf(),
        ensures
            final(self).wf(),
            final(self).spec_areas() == old(self).spec_areas(),
            final(self).spec_whole() == old(self).spec_whole(),
            final(self).spec_devices().len() == old(self).spec_devices().len() + 1,
            final(self).spec_devices().drop_last() == old(self).spec_devices(),
            final(self).spec_devices().last().device_id == id,
            final(self).spec_devices().last().sectors@.len() == flash.spec_sectors().len(),
            forall|k: int|
                0 <= k < flash.spec_sectors().len() ==> #[trigger] final(self).spec_devices().last().sectors@[k] == crate::flash::sector_at(
                    flash.spec_sectors(),
                    k,
                ),
            sectors_of(final(self).spec_devices(), id) == Some(
                final(self).spec_devices().last().sectors@,
            ),
    {
        self.sectors.push(DeviceSectors { device_id: id, sectors: flash.sectors() });
        assert(self.sectors@.drop_last() =~= old(self).sectors@);
        assert(self.spec_areas() =~~= old(self).spec_areas());
    }

    /// Looks up the sectors registered for a device.
    fn find_sectors(&self, dev_id: u8) -> (res: Option<usize>)
        ensures
            res matches Some(i) ==> i < self.sectors@.len() && sectors_of(self.sectors@, dev_id)
                == Some(self.sectors@[i as int].sectors@),
            res is None ==> sectors_of(self.sectors@, dev_id) is None,
    {
        let mut i: usize = self.sectors.len();
        assert(self.sectors@.subrange(0, i as int) =~= self.sectors@);
        while i > 0
            invariant
                i <= self.sectors.len(),
                sectors_of(self.sectors@, dev_id) == sectors_of(
                    self.sectors@.subrange(0, i as int),
                    dev_id,
                ),
            decreases i,
        {
            let ghost front = self.sectors@.subrange(0, i as int);
            assert(front.drop_last() =~= self.sectors@.subrange(0, i - 1));
            if self.sectors[i - 1].device_id == dev_id {
                return Some(i - 1);
            }
            i = i - 1;
        }
        assert(self.sectors@.subrange(0, 0) =~= Seq::<DeviceSectors>::empty());
        None
    }

    /// Works out the areas of the sectors that make up a range.
    fn tile(sectors: &Vec<Sector>, base: usize, len: usize, id: FlashId, dev_id: u8) -> (res:
        Option<Vec<FlashArea>>)
        requires
            base + len <= u32::MAX,
        ensures
            res matches Some(v) ==> tiling(sectors@, 0, base as int, len as int) matches Some(t)
                && v@ == areas_of(id, dev_id, t),
            res is None ==> tiling(sectors@, 0, base as int, len as int) is None,
    {
        let mut area: Vec<FlashArea> = Vec::new();
        let ghost mut taken: Seq<Sector> = Seq::empty();
        let mut at: usize = base;
        let mut rest: usize = len;
        let mut k: usize = 0;
        while k < sectors.len() && rest != 0
            invariant
                k <= sectors.len(),
                at + rest == base + len,
                base + len <= u32::MAX,
                area@ == areas_of(id, dev_id, taken),
                tiling(sectors@, 0, base as int, len as int) == match tiling(
                    sectors@,
                    k as int,
                    at as int,
                    rest as int,
                ) {
                    Some(more) => Some(taken + more),
                    None => None,
                },
            decreases sectors.len() - k,
        {
            let sector: Sector = sectors[k];
            let before: bool = match sector.base.checked_add(sector.size) {
                Some(end) => end <= at,
                None => false,
            };
            if before {
                k = k + 1;
                continue ;
            }
            if sector.base != at || sector.size > rest {
                return None;
            }
            area.push(
                FlashArea {
                    flash_id: id,
                    device_id: dev_id,
                    pad16: 0,
                    off: sector.base as u32,
                    size: sector.size as u32,
                },
            );
            proof {
                let more = tiling(
                    sectors@,
                    k + 1,
                    at as int + sector.size as int,
                    rest as int - sector.size as int,
                );
                if more is Some {
                    assert(taken + (seq![sector] + more->0) =~= taken.push(sector) + more->0);
                }
                assert(area@ =~= areas_of(id, dev_id, taken.push(sector)));
                taken = taken.push(sector);
            }
            at = at + sector.size;
            rest = rest - sector.size;
            k = k + 1;
        }
        if rest != 0 {
            return None;
        }
        proof {
            assert(taken + Seq::<Sector>::empty() =~= taken);
        }
        Some(area)
    }

    /// Tells whether a slot can be added to the map, and why not if it
    /// cannot: slots have to be added in the order of their purposes, on a
    /// device that is registered, and be made of whole sectors of it.
    pub fn check_image(&self, base: usize, len: usize, id: FlashId, dev_id: u8) -> (res: Result<
        (),
        AreaError,
    >)
        requires
            self.wf(),
        ensures
            res == self.add_image_result(base, len, id, dev_id),
    {
        let nid: usize = id.index();
        if nid < self.areas.len() {
            return Err(AreaError::OutOfOrder);
        }
        let at: usize = match self.find_sectors(dev_id) {
            Some(at) => at,
            None => {
                return Err(AreaError::UnknownDevice);
            },
        };
        let fits: bool = match base.checked_add(len) {
            Some(end) => end <= 0xffff_ffff,
            None => false,
        };
        if !fits {
            return Err(AreaError::TooLarge);
        }
        match Self::tile(&self.sectors[at].sectors, base, len, id, dev_id) {
            Some(_) => Ok(()),
            None => Err(AreaError::NotWholeSectors),
        }
    }

    /// Add a slot to the map.  The slot must be made of whole sectors of the
    /// device, and slots have to be added in the order of their purposes:
    /// `check_image` tells whether that is so.  Places of the table that are
    /// passed over are left empty.
    pub fn add_image(&mut self, base: usize, len: usize, id: FlashId, dev_id: u8)
        requires
            old(self).wf(),
            old(self).add_image_result(base, len, id, dev_id) is Ok,
        ensures
            final(self).wf(),
            final(self).spec_devices() == old(self).spec_devices(),
            ({
                let gap = (id.spec_index() - old(self).spec_areas().len()) as nat;
                let tiles = tiling(
                    sectors_of(old(self).spec_devices(), dev_id)->0,
                    0,
                    base as int,
                    len as int,
                )->0;
                &&& final(self).spec_areas() == old(self).spec_areas() + no_lists(gap) + seq![
                    areas_of(id, dev_id, tiles),
                ]
                &&& final(self).spec_whole() == old(self).spec_whole() + no_areas(gap) + seq![
                    FlashArea {
                        flash_id: id,
                        device_id: dev_id,
                        pad16: 0,
                        off: base as u32,
                        size: len as u32,
                    },
                ]
            }),
    {
        let nid: usize = id.index();
        let at: usize = match self.find_sectors(dev_id) {
            Some(at) => at,
            None => unreached(),
        };
        let area: Vec<FlashArea> = match Self::tile(&self.sectors[at].sectors, base, len, id, dev_id) {
            Some(area) => area,
            None => unreached(),
        };
        self.pad_to(nid);
        self.areas.push(area);
        self.whole.push(
            FlashArea {
                flash_id: id,
                device_id: dev_id,
                pad16: 0,
                off: base as u32,
                size: len as u32,
            },
        );
        proof {
            let gap = (id.spec_index() - old(self).spec_areas().len()) as nat;
            let tiles = tiling(
                sectors_of(old(self).spec_devices(), dev_id)->0,
                0,
                base as int,
                len as int,
            )->0;
            assert(self.spec_areas() =~~= old(self).spec_areas() + no_lists(gap) + seq![
                areas_of(id, dev_id, tiles),
            ]);
            assert(self.spec_whole() =~= old(self).spec_whole() + no_areas(gap) + seq![
                FlashArea {
                    flash_id: id,
                    device_id: dev_id,
                    pad16: 0,
                    off: base as u32,
                    size: len as u32,
                },
            ]);
        }
    }

    /// Leaves places of the table empty until it holds `count` slots.
    fn pad_to(&mut self, count: usize)
        requires
            old(self).wf(),
            old(self).areas@.len() <= count,
        ensures
            final(self).wf(),
            final(self).sectors@ == old(self).sectors@,
            final(self).areas@.len() == count,
            final(self).spec_areas() == old(self).spec_areas() + no_lists(
                (count - old(self).areas@.len()) as nat,
            ),
            final(self).whole@ == old(self).whole@ + no_areas(
                (count - old(self).areas@.len()) as nat,
            ),
    {
        while self.areas.len() < count
            invariant
                self.wf(),
                self.sectors@ == old(self).sectors@,
                old(self).areas@.len() <= self.areas@.len() <= count,
                self.spec_areas() == old(self).spec_areas() + no_lists(
                    (self.areas@.len() - old(self).areas@.len()) as nat,
                ),
                self.whole@ == old(self).whole@ + no_areas(
                    (self.areas@.len() - old(self).areas@.len()) as nat,
                ),
            decreases count - self.areas.len(),
        {
            let ghost before = *self;
            self.areas.push(Vec::new());
            self.whole.push(FlashArea::default());
            proof {
                let n = (before.areas@.len() - old(self).areas@.len()) as nat;
                let want = old(self).spec_areas() + no_lists(n + 1);
                assert forall|i: int| 0 <= i < self.spec_areas().len() implies self.spec_areas()[i]
                    =~= want[i] by {
                    if i < before.areas@.len() {
                        assert(self.spec_areas()[i] == before.spec_areas()[i]);
                        assert(before.spec_areas()[i] == (old(self).spec_areas() + no_lists(n))[i]);
                    }
                }
                assert(self.spec_areas() =~= want);
                assert(self.whole@ =~= old(self).whole@ + no_areas(n + 1));
            }
        }
    }

    /// Add a simple slot to the map.  This ignores the device layout, and
    /// just adds the slot as a single unit, at the end of the table.  It is
    /// for configurations where the table uses larger sectors than the
    /// underlying flash device.  A slot that does not end within what 32 bits
    /// can address is refused, and the map stays as it was.
    pub fn add_simple_image(&mut self, base: usize, len: usize, id: FlashId, dev_id: u8) -> (res:
        Result<(), AreaError>)
        requires
            old(self).wf(),
        ensures
            final(self).wf(),
            final(self).spec_devices() == old(self).spec_devices(),
            base + len > u32::MAX ==> res == Err::<(), AreaError>(AreaError::TooLarge) && final(self).spec_areas() == old(self).spec_areas() && final(self).spec_whole() == old(self).spec_whole(),
            base + len <= u32::MAX ==> {
                let area = FlashArea {
                    flash_id: id,
                    device_id: dev_id,
                    pad16: 0,
                    off: base as u32,
                    size: len as u32,
                };
                &&& res is Ok
                &&& final(self).spec_areas() == old(self).spec_areas().push(seq![area])
                &&& final(self).spec_whole() == old(self).spec_whole().push(area)
            },
    {
        let fits: bool = match base.checked_add(len) {
            Some(end) => end <= 0xffff_ffff,
            None => false,
        };
        if !fits {
            return Err(AreaError::TooLarge);
        }
        let whole = FlashArea {
            flash_id: id,
            device_id: dev_id,
            pad16: 0,
            off: base as u32,
            size: len as u32,
        };
        let mut area: Vec<FlashArea> = Vec::new();
        area.push(whole);
        self.areas.push(area);
        self.whole.push(whole);
        assert(self.spec_areas() =~~= old(self).spec_areas().push(seq![whole]));
        Ok(())
    }

    /// Look for the slot with the given purpose, and return its base, its
    /// size and its device: those of the first slot that has the purpose.
    pub fn find(&self, id: FlashId) -> (res: Option<(usize, usize, u8)>)
        ensures
            res == match first_with(self.spec_whole(), id, 0) {
                Some(area) => Some((area.off as usize, area.size as usize, area.device_id)),
                None => None,
            },
    {
        let mut i: usize = 0;
        while i < self.whole.len()
            invariant
                i <= self.whole.len(),
                first_with(self.whole@, id, 0) == first_with(self.whole@, id, i as int),
            decreases self.whole.len() - i,
        {
            let area: FlashArea = self.whole[i];
            if area.flash_id == id {
                return Some((area.off as usize, area.size as usize, area.device_id));
            }
            i = i + 1;
        }
        None
    }

    /// Every area of every slot, slot by slot.
    pub open spec fn flat(lists: Seq<Seq<FlashArea>>) -> Seq<FlashArea>
        decreases lists.len(),
    {
        if lists.len() == 0 {
            Seq::<FlashArea>::empty()
        } else {
            Self::flat(lists.drop_last()) + lists.last()
        }
    }

    /// Every area of every slot, slot by slot.
    pub fn iter_areas(&self) -> (res: Vec<FlashArea>)
        ensures
            res@ == Self::flat(self.spec_areas()),
    {
        let mut res: Vec<FlashArea> = Vec::new();
        let mut i: usize = 0;
        assert(self.spec_areas().subrange(0, 0) =~= Seq::<Seq<FlashArea>>::empty());
        while i < self.areas.len()
            invariant
                i <= self.areas.len(),
                res@ == Self::flat(self.spec_areas().subrange(0, i as int)),
            decreases self.areas.len() - i,
        {
            let ghost start = res@;
            let list = &self.areas[i];
            let mut j: usize = 0;
            while j < list.len()
                invariant
                    j <= list.len(),
                    res@ == start + list@.subrange(0, j as int),
                decreases list.len() - j,
            {
                res.push(list[j]);
                assert(list@.subrange(0, j + 1) =~= list@.subrange(0, j as int).push(list@[j as int]));
                j = j + 1;
            }
            proof {
                assert(list@.subrange(0, list@.len() as int) =~= list@);
                let next = self.spec_areas().subrange(0, i + 1);
                assert(next.drop_last() =~= self.spec_areas().subrange(0, i as int));
                assert(next.last() == list@);
            }
            i = i + 1;
        }
        assert(self.spec_areas().subrange(0, i as int) =~= self.spec_areas());
        res
    }

    /// The slot of the table for place `i` of the map: that of the slot
    /// added there, or an empty one where nothing was added.
    pub open spec fn c_slot(&self, i: int) -> (FlashArea, Seq<FlashArea>, FlashId) {
        if 0 <= i < self.spec_areas().len() && self.spec_areas()[i].len() > 0 {
            (self.spec_whole()[i], self.spec_areas()[i], self.spec_areas()[i][0].flash_id)
        } else {
            (no_area(), Seq::<FlashArea>::empty(), FlashId::BootLoader)
        }
    }

    /// The table as it is handed to the bootloader: `MAX_SLOTS` slots, of
    /// which the first ones are those of the map.  A map with more slots than
    /// that has no table.
    pub fn get_c(&self) -> (res: Result<CAreaDesc, AreaError>)
        requires
            self.wf(),
        ensures
            self.spec_areas().len() > MAX_SLOTS ==> res == Err::<CAreaDesc, AreaError>(
                AreaError::TooManySlots,
            ),
            self.spec_areas().len() <= MAX_SLOTS ==> res is Ok,
            res matches Ok(table) ==> {
                &&& table.num_slots == self.spec_areas().len()
                &&& table.slots@.len() == MAX_SLOTS
                &&& forall|i: int|
                    0 <= i < MAX_SLOTS ==> {
                        let slot = #[trigger] table.slots@[i];
                        &&& (slot.whole, slot.areas@, slot.id) == self.c_slot(i)
                        &&& slot.num_areas == slot.areas@.len()
                    }
            },
    {
        if self.areas.len() > MAX_SLOTS {
            return Err(AreaError::TooManySlots);
        }
        let mut slots: Vec<CArea> = Vec::new();
        let mut i: usize = 0;
        while i < MAX_SLOTS
            invariant
                i <= MAX_SLOTS,
                self.wf(),
                self.areas@.len() <= MAX_SLOTS,
                slots@.len() == i,
                forall|k: int|
                    0 <= k < i ==> {
                        let slot = #[trigger] slots@[k];
                        &&& (slot.whole, slot.areas@, slot.id) == self.c_slot(k)
                        &&& slot.num_areas == slot.areas@.len()
                    },
            decreases MAX_SLOTS - i,
        {
            let mut slot = CArea {
                whole: FlashArea::default(),
                areas: Vec::new(),
                num_areas: 0,
                id: FlashId::BootLoader,
            };
            if i < self.areas.len() && self.areas[i].len() > 0 {
                let list = &self.areas[i];
                let mut copy: Vec<FlashArea> = Vec::new();
                let mut j: usize = 0;
                while j < list.len()
                    invariant
                        j <= list.len(),
                        copy@ == list@.subrange(0, j as int),
                    decreases list.len() - j,
                {
                    copy.push(list[j]);
                    assert(list@.subrange(0, j + 1) =~= list@.subrange(0, j as int).push(
                        list@[j as int],
                    ));
                    j = j + 1;
                }
                assert(list@.subrange(0, list@.len() as int) =~= list@);
                slot = CArea {
                    whole: self.whole[i],
                    num_areas: list.len(),
                    id: list[0].flash_id,
                    areas: copy,
                };
            }
            slots.push(slot);
            i = i + 1;
        }
        Ok(CAreaDesc { slots, num_slots: self.areas.len() as u32 })
    }
}

/// The descriptions of the sectors of a device with the given sector
/// sizes.
pub open spec fn sectors_desc(sizes: Seq<usize>) -> Seq<Sector> {
    Seq::new(sizes.len(), |k: int| crate::flash::sector_at(sizes, k))
}

/// On a device without empty sectors, a range that starts where a sector
/// starts and ends where a sector ends is made of the whole sectors between
/// the two.
pub proof fn lemma_tiling_between(sizes: Seq<usize>, k: int, i: int, j: int)
    requires
        0 <= k <= i <= j <= sizes.len(),
        forall|t: int| 0 <= t < sizes.len() ==> #[trigger] sizes[t] > 0,
        crate::flash::device_len(sizes) <= usize::MAX,
    ensures
        tiling(
            sectors_desc(sizes),
            k,
            crate::flash::sector_base(sizes, i),
            crate::flash::sector_base(sizes, j) - crate::flash::sector_base(sizes, i),
        ) == Some(sectors_desc(sizes).subrange(i, j)),
    decreases sizes.len() - k,
{
    let sectors = sectors_desc(sizes);
    let base = crate::flash::sector_base(sizes, i);
    let len = crate::flash::sector_base(sizes, j) - base;
    crate::flash::lemma_sector_base_monotonic(sizes, i, j);
    if i == j {
        assert(sectors.subrange(i, j) =~= Seq::<Sector>::empty());
    } else {
        crate::flash::lemma_sector_base_monotonic(sizes, k + 1, sizes.len() as int);
        crate::flash::lemma_sector_base_monotonic(sizes, k, k + 1);
        assert(sectors[k].base == crate::flash::sector_base(sizes, k));
        assert(sectors[k].size == sizes[k]);
        if k < i {
            crate::flash::lemma_sector_base_monotonic(sizes, k + 1, i);
            lemma_tiling_between(sizes, k + 1, i, j);
        } else {
            crate::flash::lemma_sector_base_monotonic(sizes, i + 1, j);
            lemma_tiling_between(sizes, k + 1, i + 1, j);
            assert(seq![sectors[k]] + sectors.subrange(i + 1, j) =~= sectors.subrange(i, j));
        }
    }
}

} // verus!
