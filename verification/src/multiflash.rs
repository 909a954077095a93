//! The flash devices of one simulated board, each under a small number.

use crate::flash::{Flash, FlashError};
use vstd::prelude::*;

verus! {

/// The flash devices of a board.  A device is registered under an id; one
/// that is registered under an id that is taken replaces the other.
pub struct MultiFlash {
    ids: Vec<u8>,
    devs: Vec<Flash>,
}

impl MultiFlash {
    /// The ids of the devices, in the order of registration.
    pub closed spec fn spec_ids(&self) -> Seq<u8> {
        self.ids@
    }

    /// The devices, in the order of registration.
    pub closed spec fn spec_devs(&self) -> Seq<Flash> {
        self.devs@
    }

    /// Every device has an id and is itself well-formed.
    pub open spec fn wf(&self) -> bool {
        &&& self.spec_ids().len() == self.spec_devs().len()
        &&& forall|i: int| 0 <= i < self.spec_devs().len() ==> (#[trigger] self.spec_devs()[i]).wf()
    }

    /// The place of the device with the id, if there is one.
    pub open spec fn place(&self, id: u8) -> Option<int> {
        self.spec_ids().index_of_first(id)
    }

    /// True when `other` has the same devices, set up the same way, whatever
    /// bytes they hold.
    pub open spec fn same_board(&self, other: MultiFlash) -> bool {
        &&& self.spec_ids() == other.spec_ids()
        &&& self.spec_devs().len() == other.spec_devs().len()
        &&& forall|i: int|
            0 <= i < self.spec_devs().len() ==> (#[trigger] self.spec_devs()[i]).same_setup(
                other.spec_devs()[i],
            )
    }

    /// True when `other` has the same devices with the same bytes, whatever
    /// faults are set up for them.
    pub open spec fn same_but_faults(&self, other: MultiFlash) -> bool {
        &&& self.spec_ids() == other.spec_ids()
        &&& self.spec_devs().len() == other.spec_devs().len()
        &&& forall|i: int|
            0 <= i < self.spec_devs().len() ==> (#[trigger] self.spec_devs()[i]).same_but_faults(
                other.spec_devs()[i],
            )
    }

    /// A board without devices.
    pub fn new() -> (res: MultiFlash)
        ensures
            res.wf(),
            res.spec_ids() == Seq::<u8>::empty(),
            res.spec_devs() == Seq::<Flash>::empty(),
    {
        MultiFlash { ids: Vec::new(), devs: Vec::new() }
    }

    /// Registers a device under an id.  A device that is registered under
    /// an id that is taken takes the place of the one that was there.
    pub fn insert(&mut self, id: u8, dev: Flash)
        requires
            old(self).wf(),
            dev.wf(),
        ensures
            final(self).wf(),
            match old(self).place(id) {
                Some(at) => final(self).spec_ids() == old(self).spec_ids() && final(self).spec_devs() == old(self).spec_devs().update(at, dev),
                None => final(self).spec_ids() == old(self).spec_ids().push(id) && final(self).spec_devs() == old(self).spec_devs().push(dev),
            },
            final(self).place(id) matches Some(at) && final(self).spec_devs()[at] == dev,
    {
        proof {
            self.spec_ids().index_of_first_ensures(id);
        }
        match self.find(id) {
            Some(at) => {
                self.devs.set(at, dev);
            },
            None => {
                self.append(id, dev);
                proof {
                    self.spec_ids().index_of_first_ensures(id);
                    assert(self.spec_ids()[old(self).spec_ids().len() as int] == id);
                }
            },
        }
    }

    // Adds a device at the end.
    fn append(&mut self, id: u8, dev: Flash)
        requires
            old(self).wf(),
            dev.wf(),
        ensures
            final(self).wf(),
            final(self).spec_ids() == old(self).spec_ids().push(id),
            final(self).spec_devs() == old(self).spec_devs().push(dev),
    {
        self.ids.push(id);
        self.devs.push(dev);
    }

    /// The number of devices.
    pub fn len(&self) -> (res: usize)
        requires
            self.wf(),
        ensures
            res == self.spec_devs().len(),
    {
        self.devs.len()
    }

    /// The place of the device with the id, if there is one.
    pub fn find(&self, id: u8) -> (res: Option<usize>)
        requires
            self.wf(),
        ensures
            res matches Some(i) ==> self.place(id) == Some(i as int) && i < self.spec_devs().len(),
            res is None ==> self.place(id) is None,
    {
        let mut i: usize = 0;
        while i < self.ids.len()
            invariant
                self.wf(),
                i <= self.ids.len(),
                forall|j: int| 0 <= j < i ==> self.ids@[j] != id,
            decreases self.ids.len() - i,
        {
            if self.ids[i] == id {
                proof {
                    self.ids@.index_of_first_ensures(id);
                    assert(self.ids@.contains(id));
                }
                return Some(i);
            }
            i = i + 1;
        }
        proof {
            self.ids@.index_of_first_ensures(id);
        }
        None
    }

    /// The device at a place.
    pub fn get(&self, at: usize) -> (res: &Flash)
        requires
            self.wf(),
            at < self.spec_devs().len(),
        ensures
            *res == self.spec_devs()[at as int],
            res.wf(),
    {
        &self.devs[at]
    }

    /// The id of the device at a place.
    pub fn id_at(&self, at: usize) -> (res: u8)
        requires
            self.wf(),
            at < self.spec_devs().len(),
        ensures
            res == self.spec_ids()[at as int],
    {
        self.ids[at]
    }

    /// Writes to the device at a place: see `Flash::write`.
    pub fn write(&mut self, at: usize, offset: usize, payload: &[u8]) -> (res: Result<
        (),
        FlashError,
    >)
        requires
            old(self).wf(),
            at < old(self).spec_devs().len(),
            old(self).spec_devs()[at as int].write_fits(offset, payload@.len()),
        ensures
            final(self).wf(),
            final(self).same_board(*old(self)),
            forall|i: int|
                0 <= i < old(self).spec_devs().len() && i != at ==> final(self).spec_devs()[i]
                    == old(self).spec_devs()[i],
            final(self).spec_devs()[at as int]@ == old(self).spec_devs()[at as int].write_data(
                offset,
                payload@,
            ),
            exists|sample: u32|
                sample < crate::flash::RATE_ONE && res == #[trigger] old(self).spec_devs()[at as int].write_result(offset, payload@, sample),
    {
        self.devs[at].write(offset, payload)
    }

    /// Writes to the device at a place: see `Flash::try_write`.
    pub fn try_write(&mut self, at: usize, offset: usize, payload: &[u8]) -> (res: Result<
        (),
        FlashError,
    >)
        requires
            old(self).wf(),
            at < old(self).spec_devs().len(),
        ensures
            final(self).wf(),
            final(self).same_board(*old(self)),
            forall|i: int|
                0 <= i < old(self).spec_devs().len() && i != at ==> final(self).spec_devs()[i]
                    == old(self).spec_devs()[i],
            final(self).spec_devs()[at as int]@ == old(self).spec_devs()[at as int].write_data(
                offset,
                payload@,
            ),
            exists|sample: u32|
                sample < crate::flash::RATE_ONE && res == #[trigger] old(self).spec_devs()[at as int].write_result(offset, payload@, sample),
    {
        self.devs[at].try_write(offset, payload)
    }

    /// Erases a range of the device at a place: see `Flash::erase`.
    pub fn erase(&mut self, at: usize, offset: usize, len: usize) -> (res: Result<(), FlashError>)
        requires
            old(self).wf(),
            at < old(self).spec_devs().len(),
        ensures
            final(self).wf(),
            final(self).same_board(*old(self)),
            forall|i: int|
                0 <= i < old(self).spec_devs().len() && i != at ==> final(self).spec_devs()[i]
                    == old(self).spec_devs()[i],
            res == old(self).spec_devs()[at as int].erase_result(offset, len),
            final(self).spec_devs()[at as int]@ == old(self).spec_devs()[at as int].erase_data(
                offset,
                len,
            ),
    {
        self.devs[at].erase(offset, len)
    }

    /// Marks a bad region on the device at a place: see
    /// `Flash::add_bad_region`.
    pub fn add_bad_region(&mut self, at: usize, offset: usize, len: usize, rate: u32) -> (res:
        Result<(), FlashError>)
        requires
            old(self).wf(),
            at < old(self).spec_devs().len(),
        ensures
            final(self).wf(),
            final(self).spec_ids() == old(self).spec_ids(),
            final(self).spec_devs().len() == old(self).spec_devs().len(),
            forall|i: int|
                0 <= i < old(self).spec_devs().len() && i != at ==> final(self).spec_devs()[i]
                    == old(self).spec_devs()[i],
            final(self).same_but_faults(*old(self)),
            final(self).spec_devs()[at as int].spec_verify_writes() == old(self).spec_devs()[at as int].spec_verify_writes(),
            rate <= crate::flash::RATE_ONE ==> res is Ok && final(self).spec_devs()[at as int].spec_bad_regions() == old(self).spec_devs()[at as int].spec_bad_regions().push(
                crate::flash::BadRegion { offset, len, rate },
            ),
            rate > crate::flash::RATE_ONE ==> res is Err && final(self).spec_devs()[at as int].spec_bad_regions() == old(self).spec_devs()[at as int].spec_bad_regions(),
    {
        self.devs[at].add_bad_region(offset, len, rate)
    }

    /// Forgets the bad regions of the device at a place, and chooses
    /// whether it verifies its writes.
    pub fn reset_faults(&mut self, at: usize, verify_writes: bool)
        requires
            old(self).wf(),
            at < old(self).spec_devs().len(),
        ensures
            final(self).wf(),
            final(self).spec_ids() == old(self).spec_ids(),
            final(self).spec_devs().len() == old(self).spec_devs().len(),
            forall|i: int|
                0 <= i < old(self).spec_devs().len() && i != at ==> final(self).spec_devs()[i]
                    == old(self).spec_devs()[i],
            final(self).same_but_faults(*old(self)),
            final(self).spec_devs()[at as int].spec_bad_regions().len() == 0,
            final(self).spec_devs()[at as int].spec_verify_writes() == verify_writes,
    {
        self.devs[at].reset_bad_regions();
        self.devs[at].set_verify_writes(verify_writes);
    }

    /// A copy of the board as it is now.
    pub fn duplicate(&self) -> (res: MultiFlash)
        requires
            self.wf(),
        ensures
            res.wf(),
            res.same_board(*self),
            res.spec_devs().len() == self.spec_devs().len(),
            forall|i: int|
                0 <= i < self.spec_devs().len() ==> (#[trigger] res.spec_devs()[i])@
                    == self.spec_devs()[i]@,
    {
        let mut res = MultiFlash::new();
        let mut i: usize = 0;
        while i < self.devs.len()
            invariant
                self.wf(),
                i <= self.devs.len(),
                res.wf(),
                res.spec_devs().len() == i,
                res.spec_ids() == self.spec_ids().subrange(0, i as int),
                forall|k: int|
                    0 <= k < i ==> (#[trigger] res.spec_devs()[k]).same_setup(self.spec_devs()[k]),
                forall|k: int|
                    0 <= k < i ==> (#[trigger] res.spec_devs()[k])@ == self.spec_devs()[k]@,
            decreases self.devs.len() - i,
        {
            let ghost before = res;
            let copy: Flash = self.devs[i].duplicate();
            res.append(self.ids[i], copy);
            assert(res.spec_ids() =~= self.spec_ids().subrange(0, i + 1));
            assert forall|k: int| 0 <= k < i + 1 implies (#[trigger] res.spec_devs()[k]).same_setup(
                self.spec_devs()[k],
            ) && res.spec_devs()[k]@ == self.spec_devs()[k]@ by {
                if k < i {
                    assert(res.spec_devs()[k] == before.spec_devs()[k]);
                }
            }
            i = i + 1;
        }
        assert(res.spec_ids() =~= self.spec_ids());
        res
    }
}

} // verus!
