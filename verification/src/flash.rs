//! A simulated NOR flash device.
//!
//! The device is a block of bytes divided into sectors.  Bytes can be written
//! in units of the write alignment, and only where the device still holds the
//! erased value; they return to the erased value a whole sector at a time.
//! Ranges of the device can be marked as bad, so that writes touching them
//! report a fault with a chosen probability.

use vstd::prelude::*;

verus! {

/// Fault rates are counted in parts of `RATE_ONE`: a bad region with this
/// rate faults on every write that touches it.
pub const RATE_ONE: u32 = 1_000_000;

/// Why an operation on the device was refused or disturbed.
#[derive(Clone, Copy, Debug, PartialEq, Eq, Structural)]
pub enum FlashError {
    /// The range is not on the device, or does not start and end on a sector
    /// boundary where that is asked.
    OutOfBounds,
    /// The offset or the length of a write is not a multiple of the write
    /// alignment.
    Misaligned,
    /// The write covers a byte that does not hold the erased value.
    NotErased,
    /// The write was carried out, and touched a bad region that faulted.
    BadRegion,
    /// The fault rate of a bad region is above `RATE_ONE`.
    InvalidRate,
}

/// A range of the device on which writes fault with probability
/// `rate / RATE_ONE`.
#[derive(Clone, Copy, Debug, PartialEq, Eq, Structural)]
pub struct BadRegion {
    pub offset: usize,
    pub len: usize,
    pub rate: u32,
}

/// One sector of the device.
#[derive(Clone, Copy, Debug, PartialEq, Eq, Structural)]
pub struct Sector {
    /// Which sector this is, counting from 0.
    pub num: usize,
    /// The offset, in bytes, of the start of this sector.
    pub base: usize,
    /// The length, in bytes, of this sector.
    pub size: usize,
}

/// The offset at which sector `k` starts: the sum of the sizes before it.
pub open spec fn sector_base(sectors: Seq<usize>, k: int) -> int
    decreases k,
{
    if k <= 0 {
        0
    } else {
        sector_base(sectors, k - 1) + sectors[k - 1]
    }
}

/// The size of a device with these sectors.
pub open spec fn device_len(sectors: Seq<usize>) -> int {
    sector_base(sectors, sectors.len() as int)
}

/// True when `off` is where a sector starts, or the end of the device.
pub open spec fn is_sector_boundary(sectors: Seq<usize>, off: int) -> bool {
    exists|k: int| 0 <= k <= sectors.len() && #[trigger] sector_base(sectors, k) == off
}

/// The description of sector `k` of a device with these sectors.
pub open spec fn sector_at(sectors: Seq<usize>, k: int) -> Sector {
    Sector { num: k as usize, base: sector_base(sectors, k) as usize, size: sectors[k] }
}

/// `len` bytes that all hold `val`: what a device holds when it is new.
pub open spec fn blank(len: nat, val: u8) -> Seq<u8> {
    Seq::new(len, |i: int| val)
}

/// `data` with `len` bytes from `off` on replaced by `val`.
pub open spec fn fill_spec(data: Seq<u8>, off: int, len: int, val: u8) -> Seq<u8> {
    Seq::new(
        data.len(),
        |i: int|
            if off <= i < off + len {
                val
            } else {
                data[i]
            },
    )
}

/// `data` with the bytes from `off` on replaced by `src`.
pub open spec fn splice_spec(data: Seq<u8>, off: int, src: Seq<u8>) -> Seq<u8> {
    Seq::new(
        data.len(),
        |i: int|
            if off <= i < off + src.len() {
                src[i - off]
            } else {
                data[i]
            },
    )
}

/// True when every byte of `data` in the range holds `val`.
pub open spec fn all_hold(data: Seq<u8>, off: int, len: int, val: u8) -> bool {
    forall|i: int| off <= i < off + len ==> #[trigger] data[i] == val
}

/// Why a write of `payload` at `offset` is refused by a device that holds
/// `data`, if it is: because it does not lie on the device, because its
/// offset or its length is not a multiple of the write alignment, or, on a
/// device that verifies its writes, because it covers a byte that is not
/// erased.
pub open spec fn refusal_on(
    data: Seq<u8>,
    align: usize,
    verify: bool,
    erased: u8,
    offset: int,
    payload: Seq<u8>,
) -> Option<FlashError> {
    if offset + payload.len() > data.len() {
        Some(FlashError::OutOfBounds)
    } else if offset % (align as int) != 0 || payload.len() as int % (align as int) != 0 {
        Some(FlashError::Misaligned)
    } else if verify && !all_hold(data, offset, payload.len() as int, erased) {
        Some(FlashError::NotErased)
    } else {
        None
    }
}

/// True when the range of `len` bytes from `off` shares a byte with `region`.
pub open spec fn touches(region: BadRegion, off: int, len: int) -> bool {
    off < region.offset + region.len && region.offset < off + len
}

/// True when a write of `len` bytes at `off` that drew `sample` faults: some
/// bad region shares a byte with it and has a rate above the sample.
pub open spec fn faults(regions: Seq<BadRegion>, off: int, len: int, sample: u32) -> bool {
    exists|j: int|
        0 <= j < regions.len() && touches(#[trigger] regions[j], off, len) && sample
            < regions[j].rate
}

/// Sector starts do not decrease.
pub proof fn lemma_sector_base_monotonic(sectors: Seq<usize>, i: int, j: int)
    requires
        0 <= i <= j,
    ensures
        0 <= sector_base(sectors, i) <= sector_base(sectors, j),
    decreases j,
{
    if i < j {
        lemma_sector_base_monotonic(sectors, i, j - 1);
    } else if j > 0 {
        lemma_sector_base_monotonic(sectors, 0, j - 1);
    }
}

/// An emulated flash device: a block of bytes and the map of its sectors.
pub struct Flash {
    data: Vec<u8>,
    sectors: Vec<usize>,
    bad_regions: Vec<BadRegion>,
    /// Alignment required for writes.
    align: usize,
    verify_writes: bool,
    erased_val: u8,
}

fn fill(data: &mut Vec<u8>, off: usize, len: usize, val: u8)
    requires
        off + len <= old(data).len(),
    ensures
        final(data)@ == fill_spec(old(data)@, off as int, len as int, val),
{
    let mut i: usize = 0;
    while i < len
        invariant
            i <= len,
            off + len <= data.len(),
            data@.len() == old(data)@.len(),
            data@ == fill_spec(old(data)@, off as int, i as int, val),
        decreases len - i,
    {
        data[off + i] = val;
        i = i + 1;
    }
}

fn splice(data: &mut Vec<u8>, off: usize, src: &[u8])
    requires
        off + src.len() <= old(data).len(),
    ensures
        final(data)@ == splice_spec(old(data)@, off as int, src@),
{
    let n: usize = src.len();
    let mut i: usize = 0;
    while i < n
        invariant
            i <= n,
            n == src@.len(),
            off + n <= data.len(),
            data@.len() == old(data)@.len(),
            data@ == splice_spec(old(data)@, off as int, src@.subrange(0, i as int)),
        decreases n - i,
    {
        data[off + i] = src[i];
        i = i + 1;
    }
    assert(src@.subrange(0, n as int) == src@);
}

fn holds_everywhere(data: &Vec<u8>, off: usize, len: usize, val: u8) -> (res: bool)
    requires
        off + len <= data.len(),
    ensures
        res == all_hold(data@, off as int, len as int, val),
{
    let mut i: usize = 0;
    while i < len
        invariant
            i <= len,
            off + len <= data.len(),
            all_hold(data@, off as int, i as int, val),
        decreases len - i,
    {
        if data[off + i] != val {
            return false;
        }
        i = i + 1;
    }
    true
}

fn any_fault(regions: &Vec<BadRegion>, off: usize, len: usize, sample: u32) -> (res: bool)
    requires
        off + len <= usize::MAX,
    ensures
        res == faults(regions@, off as int, len as int, sample),
{
    let mut j: usize = 0;
    while j < regions.len()
        invariant
            j <= regions.len(),
            off + len <= usize::MAX,
            forall|k: int|
                0 <= k < j ==> !(touches(#[trigger] regions@[k], off as int, len as int) && sample
                    < regions@[k].rate),
        decreases regions.len() - j,
    {
        let r = regions[j];
        // The end of a region may lie beyond what `usize` holds.
        let ends_after: bool = match r.offset.checked_add(r.len) {
            Some(end) => off < end,
            None => true,
        };
        if ends_after && r.offset < off + len && sample < r.rate {
            return true;
        }
        j = j + 1;
    }
    false
}

impl Flash {
    /// The bytes the device holds.
    pub closed spec fn view(&self) -> Seq<u8> {
        self.data@
    }

    /// The sizes of the sectors, in order.
    pub closed spec fn spec_sectors(&self) -> Seq<usize> {
        self.sectors@
    }

    /// The write alignment.
    pub closed spec fn spec_align(&self) -> usize {
        self.align
    }

    /// The value a byte holds after an erase.
    pub closed spec fn spec_erased_val(&self) -> u8 {
        self.erased_val
    }

    /// Whether writes over bytes that are not erased are refused.
    pub closed spec fn spec_verify_writes(&self) -> bool {
        self.verify_writes
    }

    /// The bad regions, in the order they were added.
    pub closed spec fn spec_bad_regions(&self) -> Seq<BadRegion> {
        self.bad_regions@
    }

    /// The device holds as many bytes as its sectors have, and its write
    /// alignment is positive.
    pub open spec fn wf(&self) -> bool {
        &&& self@.len() == device_len(self.spec_sectors())
        &&& self.spec_align() > 0
    }

    /// True when `other` is the same device but for the bytes it holds.
    pub open spec fn same_setup(&self, other: Flash) -> bool {
        &&& self.spec_sectors() == other.spec_sectors()
        &&& self.spec_align() == other.spec_align()
        &&& self.spec_erased_val() == other.spec_erased_val()
        &&& self.spec_verify_writes() == other.spec_verify_writes()
        &&& self.spec_bad_regions() == other.spec_bad_regions()
    }

    /// True when `other` is the same device and holds the same bytes, but
    /// may differ in the faults that were set up for it.
    pub open spec fn same_but_faults(&self, other: Flash) -> bool {
        &&& self@ == other@
        &&& self.spec_sectors() == other.spec_sectors()
        &&& self.spec_align() == other.spec_align()
        &&& self.spec_erased_val() == other.spec_erased_val()
    }

    /// True when the range can be erased: it starts and ends on a sector
    /// boundary.
    pub open spec fn erase_allowed(&self, offset: usize, len: usize) -> bool {
        &&& is_sector_boundary(self.spec_sectors(), offset as int)
        &&& is_sector_boundary(self.spec_sectors(), offset + len)
    }

    /// Why a write is refused, if it is.
    pub open spec fn write_refusal(&self, offset: usize, payload: Seq<u8>) -> Option<FlashError> {
        refusal_on(
            self@,
            self.spec_align(),
            self.spec_verify_writes(),
            self.spec_erased_val(),
            offset as int,
            payload,
        )
    }

    /// What a write that drew `sample` for its fault reports.  A refused
    /// write reports why.  An accepted one reports a fault when a bad region
    /// it touches has a rate above the sample.
    pub open spec fn write_result(&self, offset: usize, payload: Seq<u8>, sample: u32) -> Result<
        (),
        FlashError,
    > {
        match self.write_refusal(offset, payload) {
            Some(e) => Err(e),
            None => if faults(
                self.spec_bad_regions(),
                offset as int,
                payload.len() as int,
                sample,
            ) {
                Err(FlashError::BadRegion)
            } else {
                Ok(())
            },
        }
    }

    /// What the device holds after a write.  A refused write leaves the
    /// device as it was; an accepted one stores the payload, whether or not
    /// a fault is reported.
    pub open spec fn write_data(&self, offset: usize, payload: Seq<u8>) -> Seq<u8> {
        match self.write_refusal(offset, payload) {
            Some(e) => self@,
            None => splice_spec(self@, offset as int, payload),
        }
    }

    /// What an erase reports.
    pub open spec fn erase_result(&self, offset: usize, len: usize) -> Result<(), FlashError> {
        if self.erase_allowed(offset, len) {
            Ok(())
        } else {
            Err(FlashError::OutOfBounds)
        }
    }

    /// What the device holds after an erase.
    pub open spec fn erase_data(&self, offset: usize, len: usize) -> Seq<u8> {
        if self.erase_allowed(offset, len) {
            fill_spec(self@, offset as int, len as int, self.spec_erased_val())
        } else {
            self@
        }
    }

    /// Constructs a fully erased device with the given sector sizes.
    pub fn new(sectors: Vec<usize>, align: usize, erased_val: u8) -> (res: Flash)
        requires
            align > 0,
            align & ((align - 1) as usize) == 0,
            device_len(sectors@) <= usize::MAX,
        ensures
            res.wf(),
            res.spec_sectors() == sectors@,
            res.spec_align() == align,
            res.spec_erased_val() == erased_val,
            res.spec_verify_writes(),
            res.spec_bad_regions() == Seq::<BadRegion>::empty(),
            res@ == blank(device_len(sectors@) as nat, erased_val),
    {
        let mut total: usize = 0;
        let mut k: usize = 0;
        while k < sectors.len()
            invariant
                k <= sectors.len(),
                total == sector_base(sectors@, k as int),
                device_len(sectors@) <= usize::MAX,
            decreases sectors.len() - k,
        {
            proof {
                lemma_sector_base_monotonic(sectors@, k + 1, sectors.len() as int);
            }
            total = total + sectors[k];
            k = k + 1;
        }
        let data: Vec<u8> = vec![erased_val; total];
        assert(data@ =~= blank(device_len(sectors@) as nat, erased_val));
        Flash { data, sectors, bad_regions: Vec::new(), align, verify_writes: true, erased_val }
    }

    /// The number of bytes on the device.
    pub fn device_size(&self) -> (res: usize)
        requires
            self.wf(),
        ensures
            res == self@.len(),
            res == device_len(self.spec_sectors()),
    {
        self.data.len()
    }

    /// The write alignment.
    pub fn align(&self) -> (res: usize)
        requires
            self.wf(),
        ensures
            res == self.spec_align(),
            res > 0,
    {
        self.align
    }

    /// The value a byte holds after an erase.
    pub fn erased_val(&self) -> (res: u8)
        requires
            self.wf(),
        ensures
            res == self.spec_erased_val(),
    {
        self.erased_val
    }

    /// The number of sectors.
    pub fn sector_count(&self) -> (res: usize)
        requires
            self.wf(),
        ensures
            res == self.spec_sectors().len(),
    {
        self.sectors.len()
    }

    /// Finds the sector that holds the byte at `offset`, and how far into the
    /// sector the byte lies.  Returns `None` if the byte is not on the device.
    pub fn get_sector(&self, offset: usize) -> (res: Option<(usize, usize)>)
        requires
            self.wf(),
        ensures
            res is None <==> offset >= self@.len(),
            res matches Some((k, within)) ==> {
                &&& k < self.spec_sectors().len()
                &&& within < self.spec_sectors()[k as int]
                &&& sector_base(self.spec_sectors(), k as int) + within == offset
            },
    {
        let mut rest: usize = offset;
        let mut k: usize = 0;
        while k < self.sectors.len()
            invariant
                self.wf(),
                k <= self.sectors.len(),
                sector_base(self.sectors@, k as int) + rest == offset,
            decreases self.sectors.len() - k,
        {
            let size: usize = self.sectors[k];
            if rest < size {
                proof {
                    lemma_sector_base_monotonic(self.sectors@, k + 1, self.sectors.len() as int);
                    assert(sector_base(self.sectors@, k + 1) == sector_base(self.sectors@, k as int)
                        + self.sectors@[k as int]);
                }
                return Some((k, rest));
            }
            rest = rest - size;
            k = k + 1;
        }
        None
    }

    /// Tells whether `offset` is where a sector starts, or the end of the
    /// device.
    pub fn on_sector_boundary(&self, offset: usize) -> (res: bool)
        requires
            self.wf(),
        ensures
            res == is_sector_boundary(self.spec_sectors(), offset as int),
    {
        let size: usize = self.data.len();
        let mut base: usize = 0;
        let mut k: usize = 0;
        while k < self.sectors.len()
            invariant
                k <= self.sectors.len(),
                base == sector_base(self.sectors@, k as int),
                device_len(self.sectors@) == size,
                forall|j: int| 0 <= j < k ==> #[trigger] sector_base(self.sectors@, j) != offset,
            decreases self.sectors.len() - k,
        {
            if base == offset {
                return true;
            }
            proof {
                lemma_sector_base_monotonic(self.sectors@, k + 1, self.sectors.len() as int);
            }
            base = base + self.sectors[k];
            k = k + 1;
        }
        base == offset
    }

    /// Erases a range of the device.  The range has to start and end exactly
    /// on a sector boundary; any other range is refused and nothing changes.
    pub fn erase(&mut self, offset: usize, len: usize) -> (res: Result<(), FlashError>)
        requires
            old(self).wf(),
        ensures
            final(self).wf(),
            final(self).same_setup(*old(self)),
            res == old(self).erase_result(offset, len),
            final(self)@ == old(self).erase_data(offset, len),
    {
        let size: usize = self.data.len();
        let end: usize = match offset.checked_add(len) {
            Some(end) => end,
            None => {
                proof {
                    let s = self.sectors@;
                    assert forall|k: int| 0 <= k <= s.len() implies #[trigger] sector_base(s, k)
                        != offset + len by {
                        lemma_sector_base_monotonic(s, k, s.len() as int);
                    }
                }
                return Err(FlashError::OutOfBounds);
            },
        };
        if !self.on_sector_boundary(offset) || !self.on_sector_boundary(end) {
            return Err(FlashError::OutOfBounds);
        }
        proof {
            let s = self.sectors@;
            let k = choose|k: int| 0 <= k <= s.len() && #[trigger] sector_base(s, k) == end as int;
            lemma_sector_base_monotonic(s, k, s.len() as int);
        }
        let val: u8 = self.erased_val;
        fill(&mut self.data, offset, len, val);
        Ok(())
    }

    /// Writes `payload` at `offset`, with `sample` standing for the number
    /// drawn to decide whether a bad region faults.
    pub fn write_sampled(&mut self, offset: usize, payload: &[u8], sample: u32) -> (res: Result<
        (),
        FlashError,
    >)
        requires
            old(self).wf(),
        ensures
            final(self).wf(),
            final(self).same_setup(*old(self)),
            res == old(self).write_result(offset, payload@, sample),
            final(self)@ == old(self).write_data(offset, payload@),
    {
        let len: usize = payload.len();
        let size: usize = self.data.len();
        let fits: bool = match offset.checked_add(len) {
            Some(end) => end <= size,
            None => false,
        };
        if !fits {
            return Err(FlashError::OutOfBounds);
        }
        if offset % self.align != 0 || len % self.align != 0 {
            return Err(FlashError::Misaligned);
        }
        if self.verify_writes && !holds_everywhere(&self.data, offset, len, self.erased_val) {
            return Err(FlashError::NotErased);
        }
        splice(&mut self.data, offset, payload);
        if any_fault(&self.bad_regions, offset, len, sample) {
            Err(FlashError::BadRegion)
        } else {
            Ok(())
        }
    }

    /// Reads `data.len()` bytes from `offset` into `data`.  A range that is
    /// not on the device is refused, and `data` is left as it was.
    pub fn read(&self, offset: usize, data: &mut Vec<u8>) -> (res: Result<(), FlashError>)
        requires
            self.wf(),
        ensures
            final(data)@.len() == old(data)@.len(),
            offset + old(data)@.len() <= self@.len() ==> res is Ok && final(data)@
                == self@.subrange(offset as int, offset + old(data)@.len()),
            offset + old(data)@.len() > self@.len() ==> res == Err::<(), FlashError>(
                FlashError::OutOfBounds,
            ) && final(data)@ == old(data)@,
    {
        let len: usize = data.len();
        let size: usize = self.data.len();
        let fits: bool = match offset.checked_add(len) {
            Some(end) => end <= size,
            None => false,
        };
        if !fits {
            return Err(FlashError::OutOfBounds);
        }
        let mut i: usize = 0;
        while i < len
            invariant
                i <= len,
                len == data@.len(),
                offset + len <= size,
                size == self.data@.len(),
                forall|j: int| 0 <= j < i ==> data@[j] == self.data@[offset + j],
            decreases len - i,
        {
            data[i] = self.data[offset + i];
            i = i + 1;
        }
        assert(data@ =~= self@.subrange(offset as int, offset + len));
        Ok(())
    }

    /// Marks a range on which writes fault with probability
    /// `rate / RATE_ONE`.  A rate above `RATE_ONE` is refused.
    pub fn add_bad_region(&mut self, offset: usize, len: usize, rate: u32) -> (res: Result<
        (),
        FlashError,
    >)
        requires
            old(self).wf(),
        ensures
            final(self).wf(),
            final(self)@ == old(self)@,
            final(self).spec_sectors() == old(self).spec_sectors(),
            final(self).spec_align() == old(self).spec_align(),
            final(self).spec_erased_val() == old(self).spec_erased_val(),
            final(self).spec_verify_writes() == old(self).spec_verify_writes(),
            rate <= RATE_ONE ==> res is Ok && final(self).spec_bad_regions() == old(self).spec_bad_regions().push(BadRegion { offset, len, rate }),
            rate > RATE_ONE ==> res == Err::<(), FlashError>(FlashError::InvalidRate) && final(self).spec_bad_regions() == old(self).spec_bad_regions(),
    {
        if rate > RATE_ONE {
            return Err(FlashError::InvalidRate);
        }
        self.bad_regions.push(BadRegion { offset, len, rate });
        Ok(())
    }

    /// Forgets every bad region.
    pub fn reset_bad_regions(&mut self)
        requires
            old(self).wf(),
        ensures
            final(self).wf(),
            final(self)@ == old(self)@,
            final(self).spec_sectors() == old(self).spec_sectors(),
            final(self).spec_align() == old(self).spec_align(),
            final(self).spec_erased_val() == old(self).spec_erased_val(),
            final(self).spec_verify_writes() == old(self).spec_verify_writes(),
            final(self).spec_bad_regions() == Seq::<BadRegion>::empty(),
    {
        self.bad_regions = Vec::new();
    }

    /// Chooses whether writes over bytes that are not erased are refused.
    pub fn set_verify_writes(&mut self, enable: bool)
        requires
            old(self).wf(),
        ensures
            final(self).wf(),
            final(self)@ == old(self)@,
            final(self).spec_sectors() == old(self).spec_sectors(),
            final(self).spec_align() == old(self).spec_align(),
            final(self).spec_erased_val() == old(self).spec_erased_val(),
            final(self).spec_bad_regions() == old(self).spec_bad_regions(),
            final(self).spec_verify_writes() == enable,
    {
        self.verify_writes = enable;
    }

    /// Whether a write of `len` bytes at `offset` lies on the device and
    /// suits its write alignment.
    pub open spec fn write_fits(&self, offset: usize, len: nat) -> bool {
        &&& offset + len <= self@.len()
        &&& offset as int % (self.spec_align() as int) == 0
        &&& len as int % (self.spec_align() as int) == 0
    }

    /// Tells whether a write of `len` bytes at `offset` lies on the device
    /// and suits its write alignment.
    pub fn fits_write(&self, offset: usize, len: usize) -> (res: bool)
        requires
            self.wf(),
        ensures
            res == self.write_fits(offset, len as nat),
    {
        let size: usize = self.data.len();
        let fits: bool = match offset.checked_add(len) {
            Some(end) => end <= size,
            None => false,
        };
        if !fits {
            return false;
        }
        let align: usize = self.align;
        assert(self@.len() == size && self.spec_align() == align);
        offset % align == 0 && len % align == 0
    }

    /// Writes `payload` at `offset`.  The write has to lie on the device,
    /// and its offset and its length have to be multiples of the write
    /// alignment: `fits_write` tells.  The write is refused, and nothing
    /// changes, when it covers a byte that is not erased.  An accepted write
    /// stores the payload; it reports a fault when a bad region that it
    /// touches faults.
    pub fn write(&mut self, offset: usize, payload: &[u8]) -> (res: Result<(), FlashError>)
        requires
            old(self).wf(),
            old(self).write_fits(offset, payload@.len()),
        ensures
            final(self).wf(),
            final(self).same_setup(*old(self)),
            final(self)@ == old(self).write_data(offset, payload@),
            exists|sample: u32|
                sample < RATE_ONE && res == #[trigger] old(self).write_result(
                    offset,
                    payload@,
                    sample,
                ),
            res matches Err(e) ==> e == FlashError::NotErased || e == FlashError::BadRegion,
    {
        self.try_write(offset, payload)
    }

    /// Writes `payload` at `offset`, if the write lies on the device and
    /// suits its write alignment, and tells why not otherwise; then as
    /// `write`.
    pub fn try_write(&mut self, offset: usize, payload: &[u8]) -> (res: Result<(), FlashError>)
        requires
            old(self).wf(),
        ensures
            final(self).wf(),
            final(self).same_setup(*old(self)),
            final(self)@ == old(self).write_data(offset, payload@),
            exists|sample: u32|
                sample < RATE_ONE && res == #[trigger] old(self).write_result(
                    offset,
                    payload@,
                    sample,
                ),
    {
        let sample: u32 = if self.bad_regions.len() > 0 {
            crate::entropy::random_below(RATE_ONE)
        } else {
            0
        };
        self.write_sampled(offset, payload, sample)
    }

    /// The sectors of the device, in order.
    pub fn sectors(&self) -> (res: Vec<Sector>)
        requires
            self.wf(),
        ensures
            res@.len() == self.spec_sectors().len(),
            forall|k: int|
                0 <= k < res@.len() ==> #[trigger] res@[k] == sector_at(self.spec_sectors(), k),
    {
        let size: usize = self.data.len();
        let mut res: Vec<Sector> = Vec::new();
        let mut base: usize = 0;
        let mut k: usize = 0;
        while k < self.sectors.len()
            invariant
                k <= self.sectors.len(),
                base == sector_base(self.sectors@, k as int),
                device_len(self.sectors@) == size,
                res@.len() == k,
                forall|j: int| 0 <= j < k ==> #[trigger] res@[j] == sector_at(self.sectors@, j),
            decreases self.sectors.len() - k,
        {
            proof {
                lemma_sector_base_monotonic(self.sectors@, k + 1, self.sectors.len() as int);
            }
            res.push(Sector { num: k, base, size: self.sectors[k] });
            base = base + self.sectors[k];
            k = k + 1;
        }
        res
    }

    /// A walk over the sectors of the device, from the first.
    pub fn sector_iter(&self) -> (res: SectorIter)
        requires
            self.wf(),
        ensures
            res.spec_pos() == 0,
            res.spec_items().len() == self.spec_sectors().len(),
            forall|k: int|
                0 <= k < res.spec_items().len() ==> #[trigger] res.spec_items()[k] == sector_at(
                    self.spec_sectors(),
                    k,
                ),
    {
        SectorIter { items: self.sectors(), pos: 0 }
    }

    /// A copy of the device as it is now.
    pub fn duplicate(&self) -> (res: Flash)
        requires
            self.wf(),
        ensures
            res.wf(),
            res@ == self@,
            res.same_setup(*self),
    {
        let res = Flash {
            data: self.data.clone(),
            sectors: self.sectors.clone(),
            bad_regions: self.bad_regions.clone(),
            align: self.align,
            verify_writes: self.verify_writes,
            erased_val: self.erased_val,
        };
        assert(res.data@ =~= self.data@);
        assert(res.sectors@ =~= self.sectors@);
        assert(res.bad_regions@ =~= self.bad_regions@);
        res
    }
}

/// A walk over the sectors of a device.
pub struct SectorIter {
    items: Vec<Sector>,
    pos: usize,
}

impl SectorIter {
    /// Every sector of the walk, those handed out and those to come.
    pub closed spec fn spec_items(&self) -> Seq<Sector> {
        self.items@
    }

    /// How many sectors have been handed out.
    pub closed spec fn spec_pos(&self) -> int {
        self.pos as int
    }

    /// Hands out the next sector, or `None` when none is left.
    pub fn next(&mut self) -> (res: Option<Sector>)
        ensures
            final(self).spec_items() == old(self).spec_items(),
            0 <= old(self).spec_pos() < old(self).spec_items().len() ==> res == Some(
                old(self).spec_items()[old(self).spec_pos()],
            ) && final(self).spec_pos() == old(self).spec_pos() + 1,
            old(self).spec_pos() >= old(self).spec_items().len() ==> res is None && final(self).spec_pos() == old(self).spec_pos(),
    {
        if self.pos < self.items.len() {
            let sector = self.items[self.pos];
            self.pos = self.pos + 1;
            Some(sector)
        } else {
            None
        }
    }

    /// The sectors that have not been handed out yet, in order.
    pub fn collect(self) -> (res: Vec<Sector>)
        ensures
            self.spec_pos() <= self.spec_items().len() ==> res@ == self.spec_items().subrange(
                self.spec_pos(),
                self.spec_items().len() as int,
            ),
            self.spec_pos() > self.spec_items().len() ==> res@.len() == 0,
    {
        let mut res: Vec<Sector> = Vec::new();
        if self.pos > self.items.len() {
            return res;
        }
        let mut k: usize = self.pos;
        while k < self.items.len()
            invariant
                self.pos <= k <= self.items.len(),
                res@ == self.items@.subrange(self.pos as int, k as int),
            decreases self.items.len() - k,
        {
            res.push(self.items[k]);
            k = k + 1;
        }
        res
    }
}

/// Erasing a range that starts and ends on sector boundaries, and that holds
/// the erased value in every byte, succeeds and leaves every byte of the
/// device as it was.
pub proof fn lemma_erase_idempotent(f: Flash, offset: usize, len: usize)
    requires
        f.wf(),
        f.erase_allowed(offset, len),
        all_hold(f@, offset as int, len as int, f.spec_erased_val()),
    ensures
        f.erase_result(offset, len) is Ok,
        f.erase_data(offset, len) == f@,
{
    assert(f.erase_data(offset, len) =~= f@);
}

/// On a device that verifies its writes, a write that covers a byte of the
/// device that is not erased fails, whatever its offset, length and fault
/// sample are, and leaves every byte of the device as it was.
pub proof fn lemma_write_only_to_erased(
    f: Flash,
    offset: usize,
    payload: Seq<u8>,
    sample: u32,
    at: int,
)
    requires
        f.wf(),
        f.spec_verify_writes(),
        offset <= at < offset + payload.len(),
        0 <= at < f@.len(),
        f@[at] != f.spec_erased_val(),
    ensures
        f.write_result(offset, payload, sample) is Err,
        f.write_data(offset, payload) == f@,
{
}

} // verus!
