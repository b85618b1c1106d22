//! Descriptor rings: a DMA-resident array of descriptor slots, and beside it the
//! bus address of the packet buffer that each slot refers to.

use crate::descriptor::fresh_slot;
use crate::descriptor::Descriptor;
use crate::dma::alloc_buffer;
use crate::dma::alloc_slots;
use crate::dma::buffer_bus_addr;
use crate::dma::buffer_bus_of;
use crate::dma::slots_bus_addr;
use crate::dma::slots_bus_of;
use crate::dma::slot_count;
use crate::dma::slot_get;
use crate::dma::slot_set;
use crate::dma::slots_of;
use crate::dma::zeroed_slots;
use crate::err::IgbError;
use core::marker::PhantomData;
use dma_api::DVec;
use vstd::prelude::*;

verus! {

/// Slots in each of the driver's rings, and in a ring's table of buffer addresses.
pub const DEFAULT_RING_SIZE: usize = 64;

/// Alignment of a ring's descriptor array.
pub const RING_ALIGN: usize = 4096;

/// Size and alignment of a packet buffer.
pub const PACKET_BUFFER_SIZE: usize = 1024;

/// A descriptor ring for descriptors of kind `D`.
pub struct Ring<D: Descriptor> {
    /// The slots, in memory that the device reads and writes.
    pub descriptors: DVec<[u8; 16]>,
    /// For each slot, the bus address of its packet buffer.
    pub buf_addr: [u64; 64],
    buffers: Vec<DVec<[u8; 1024]>>,
    kind: PhantomData<D>,
}

impl<D: Descriptor> Ring<D> {
    /// What the driver has last stored in each slot.
    pub closed spec fn slots(&self) -> Seq<Seq<u8>> {
        slots_of(self.descriptors)
    }

    /// The table of buffer addresses, one entry per possible slot.
    pub closed spec fn table(&self) -> Seq<u64> {
        self.buf_addr@
    }

    /// Bus address of the slot array.
    pub closed spec fn base(&self) -> u64 {
        slots_bus_of(self.descriptors)
    }

    /// Bus addresses of the packet buffers that the ring keeps allocated, in the
    /// order in which it took them.
    pub closed spec fn held(&self) -> Seq<u64> {
        self.buffers@.map_values(|b: DVec<[u8; 1024]>| buffer_bus_of(b))
    }

    /// Whether slot `i` holds a fresh read-form descriptor for the buffer that the
    /// table gives for it.
    pub open spec fn posted(&self, i: int) -> bool {
        self.slots()[i] == fresh_slot(self.table()[i])
    }

    /// Whether every slot is posted.
    pub open spec fn populated(&self) -> bool {
        self.posted_below(self.slots().len() as int)
    }

    /// Whether every slot before slot `k` is posted.
    pub open spec fn posted_below(&self, k: int) -> bool {
        forall|i: int| 0 <= i < k ==> self.posted(i)
    }

    /// Whether, from slot `k` on, every slot and table entry is as in `before`.
    pub open spec fn untouched_from(&self, before: Self, k: int) -> bool {
        &&& forall|i: int| k <= i < self.slots().len() ==> self.slots()[i] == before.slots()[i]
        &&& forall|i: int| k <= i < self.table().len() ==> self.table()[i] == before.table()[i]
    }

    /// The table has an entry for each slot of a ring of the default size.
    pub proof fn lemma_table_len(&self)
        ensures
            self.table().len() == DEFAULT_RING_SIZE,
    {
    }

    /// A ring of `size` zeroed slots with no packet buffers yet, or `NoMemory` when
    /// the slots cannot be allocated.
    pub fn new(size: usize) -> (r: Result<Self, IgbError>)
        requires
            0 < size,
            size * 16 + 4095 <= isize::MAX,
        ensures
            r matches Ok(ring) ==> (ring.slots() == zeroed_slots(size as nat) && ring.table()
                == Seq::new(64, |i: int| 0u64) && ring.held() == Seq::<u64>::empty()),
            r matches Err(e) ==> e == IgbError::NoMemory,
    {
        Self::from_storage(alloc_slots(size, RING_ALIGN))
    }

    /// The ring over the outcome of allocating its slots: `NoMemory` when there
    /// are none, else a ring of those slots with an all-zero table.
    pub fn from_storage(storage: Option<DVec<[u8; 16]>>) -> (r: Result<Self, IgbError>)
        ensures
            storage is None ==> (r matches Err(e) && e == IgbError::NoMemory),
            storage matches Some(slots) ==> (r matches Ok(ring) && ring.slots() == slots_of(slots)
                && ring.base() == slots_bus_of(slots) && ring.table() == Seq::new(
                64,
                |i: int| 0u64,
            ) && ring.held() == Seq::<u64>::empty()),
    {
        match storage {
            None => Err(IgbError::NoMemory),
            Some(descriptors) => {
                let buf_addr = [0u64;64];
                assert(buf_addr@ =~= Seq::new(64, |i: int| 0u64));
                let ring = Ring { descriptors, buf_addr, buffers: Vec::new(), kind: PhantomData };
                assert(ring.held() =~= Seq::<u64>::empty());
                Ok(ring)
            },
        }
    }

    /// Number of slots.
    pub fn len(&self) -> (n: usize)
        ensures
            n == self.slots().len(),
    {
        slot_count(&self.descriptors)
    }

    /// Bus address of the slot array, as the host's mapping gave it when the
    /// array was made.
    pub fn bus_addr(&self) -> (addr: u64)
        ensures
            addr == self.base(),
    {
        slots_bus_addr(&self.descriptors)
    }

    /// The bytes now in slot `index`, or `None` past the end of the ring. The
    /// device writes to the slots, so the bytes need not be those last stored.
    pub fn get(&self, index: usize) -> (r: Option<[u8; 16]>)
        ensures
            r is Some <==> index < self.slots().len(),
    {
        slot_get(&self.descriptors, index)
    }

    /// Stores `descriptor` in slot `index`.
    pub fn set(&mut self, index: usize, descriptor: &D)
        requires
            index < old(self).slots().len(),
        ensures
            final(self).slots() == old(self).slots().update(index as int, descriptor.slot()),
            final(self).table() == old(self).table(),
            final(self).held() == old(self).held(),
            final(self).base() == old(self).base(),
    {
        slot_set(&mut self.descriptors, index, descriptor.to_bytes());
    }

    /// The table's entry for slot `index`.
    pub fn buffer_addr(&self, index: usize) -> (addr: u64)
        requires
            index < DEFAULT_RING_SIZE,
        ensures
            addr == self.table()[index as int],
    {
        self.buf_addr[index]
    }

    /// Gives every slot a packet buffer of its own: allocates one per slot, in
    /// slot order, records its bus address in the table and stores a fresh
    /// descriptor for it in the slot. Stops with `NoMemory` at the first buffer
    /// that cannot be allocated; the slots before it are then posted, the others
    /// are as they were. Every buffer taken is kept, after those of an earlier
    /// call, which are neither reused nor freed; the slot array stays where it is.
    pub fn init(&mut self) -> (r: Result<(), IgbError>)
        requires
            old(self).slots().len() <= DEFAULT_RING_SIZE,
        ensures
            final(self).slots().len() == old(self).slots().len(),
            final(self).table().len() == old(self).table().len(),
            final(self).base() == old(self).base(),
            r is Ok ==> final(self).populated(),
            r is Ok ==> final(self).untouched_from(*old(self), final(self).slots().len() as int),
            r is Ok ==> final(self).held() == old(self).held() + final(self).table().subrange(
                0,
                final(self).slots().len() as int,
            ),
            r matches Err(e) ==> e == IgbError::NoMemory,
            r is Err ==> exists|k: int|
                0 <= k < final(self).slots().len() && final(self).posted_below(k)
                    && #[trigger] final(self).untouched_from(*old(self), k) && final(self).held()
                    == old(self).held() + final(self).table().subrange(0, k),
    {
        let n: usize = self.len();
        let mut i: usize = 0;
        while i < n
            invariant
                i <= n,
                n == self.slots().len(),
                n <= DEFAULT_RING_SIZE,
                self.slots().len() == old(self).slots().len(),
                self.table().len() == old(self).table().len(),
                self.table().len() == 64,
                self.base() == old(self).base(),
                self.posted_below(i as int),
                self.untouched_from(*old(self), i as int),
                self.held() == old(self).held() + self.table().subrange(0, i as int),
            decreases n - i,
        {
            let ghost before = *self;
            let buffer = alloc_buffer(PACKET_BUFFER_SIZE);
            let r = self.install(i, buffer);
            if let Err(e) = r {
                proof {
                    assert forall|k: int| 0 <= k < i implies self.posted(k) by {
                        assert(before.posted(k));
                    }
                    assert(self.untouched_from(*old(self), i as int));
                }
                return Err(e);
            }
            assert forall|k: int| 0 <= k < i + 1 implies self.posted(k) by {
                if k < i {
                    assert(before.posted(k));
                }
            }
            assert(self.table().subrange(0, i + 1) =~= before.table().subrange(0, i as int).push(
                self.table()[i as int],
            ));
            i += 1;
        }
        Ok(())
    }

    /// Gives slot `index` the packet buffer `buffer`, the outcome of an
    /// allocation. Without a buffer the ring is left as it is and the answer is
    /// `NoMemory`. With one, the ring keeps the buffer, the table records the
    /// buffer's bus address for the slot, the slot holds a fresh descriptor for
    /// that address, and no other slot or table entry changes.
    pub fn install(&mut self, index: usize, buffer: Option<DVec<[u8; 1024]>>) -> (r: Result<
        (),
        IgbError,
    >)
        requires
            index < old(self).slots().len(),
            index < DEFAULT_RING_SIZE,
        ensures
            final(self).table().len() == old(self).table().len(),
            final(self).base() == old(self).base(),
            buffer is None ==> (r == Err::<(), IgbError>(IgbError::NoMemory) && final(self).slots()
                == old(self).slots() && final(self).table() == old(self).table()),
            buffer is None ==> final(self).held() == old(self).held(),
            buffer matches Some(b) ==> final(self).table()[index as int] == buffer_bus_of(b),
            buffer matches Some(b) ==> final(self).held() == old(self).held().push(
                buffer_bus_of(b),
            ),
            buffer is Some ==> (r is Ok && final(self).slots() == old(self).slots().update(
                index as int,
                fresh_slot(final(self).table()[index as int]),
            ) && forall|k: int|
                0 <= k < 64 && k != index ==> final(self).table()[k] == old(self).table()[k]),
    {
        match buffer {
            None => Err(IgbError::NoMemory),
            Some(packet_buffer) => {
                let addr: u64 = buffer_bus_addr(&packet_buffer);
                self.buf_addr[index] = addr;
                let fresh = D::new(addr);
                slot_set(&mut self.descriptors, index, fresh.to_bytes());
                self.buffers.push(packet_buffer);
                assert(self.held() =~= old(self).held().push(addr));
                Ok(())
            },
        }
    }
}

} // verus!
