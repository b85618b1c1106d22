//! DMA-resident storage, as provided by the `dma_api` crate.
//!
//! Nothing here is proved: each item states what `dma_api` does, and the rest of
//! the driver is verified against these statements. Memory behind a `DVec` is
//! shared with the device, so what is read from it is never promised to be what
//! the driver stored.

use dma_api::DVec;
use dma_api::Direction;
use vstd::prelude::*;

verus! {

/// `dma_api::DVec`: a fixed-length array in DMA-visible memory.
#[verifier::external_type_specification]
#[verifier::external_body]
#[verifier::reject_recursive_types(T)]
pub struct ExDVec<T>(DVec<T>);

/// What the driver has last stored in each slot of a descriptor array; the slots
/// of a new array are all zero. The device may since have written over them.
pub uninterp spec fn slots_of(ring: DVec<[u8; 16]>) -> Seq<Seq<u8>>;

/// The bus address of a descriptor array: where the device sees its first
/// slot. It is part of the array from its making, and no call changes it.
pub uninterp spec fn slots_bus_of(ring: DVec<[u8; 16]>) -> u64;

/// The bus address of a packet buffer: where the device sees its first byte.
/// It is part of the buffer from its making, and no call changes it.
pub uninterp spec fn buffer_bus_of(buffer: DVec<[u8; 1024]>) -> u64;

/// `len` slots of sixteen zero bytes.
pub open spec fn zeroed_slots(len: nat) -> Seq<Seq<u8>> {
    Seq::new(len, |i: int| Seq::new(16, |j: int| 0u8))
}

/// `DVec::zeros` for descriptor slots: `len` zeroed 16-byte elements, aligned to
/// `align`, readable and writable by host and device. `None` when the allocator
/// has no memory. The call would fail on a zero length, on an alignment that is
/// no power of two, or on a size beyond `isize::MAX`; the `requires` leave these out.
#[verifier::external_body]
pub(crate) fn alloc_slots(len: usize, align: usize) -> (r: Option<DVec<[u8; 16]>>)
    requires
        0 < len,
        align == 4096,
        len * 16 + 4095 <= isize::MAX,
    ensures
        r matches Some(v) ==> slots_of(v) == zeroed_slots(len as nat),
{
    DVec::zeros(len, align, Direction::Bidirectional)
}

/// `DVec::zeros` for a packet buffer: one zeroed 1024-byte element, aligned to
/// `align`, readable and writable by host and device. `None` when the allocator
/// has no memory.
#[verifier::external_body]
pub(crate) fn alloc_buffer(align: usize) -> (r: Option<DVec<[u8; 1024]>>)
    requires
        align == 1024,
{
    DVec::zeros(1, align, Direction::Bidirectional)
}

/// `DVec::len`: the number of slots the array was made with.
#[verifier::external_body]
pub(crate) fn slot_count(ring: &DVec<[u8; 16]>) -> (n: usize)
    ensures
        n == slots_of(*ring).len(),
{
    ring.len()
}

/// `DVec::bus_addr` of a descriptor array: reads the address that the array
/// has held since it was made. Which address the host's mapping gave then is
/// not stated.
#[verifier::external_body]
pub(crate) fn slots_bus_addr(ring: &DVec<[u8; 16]>) -> (addr: u64)
    ensures
        addr == slots_bus_of(*ring),
{
    ring.bus_addr()
}

/// `DVec::bus_addr` of a packet buffer: reads the address that the buffer has
/// held since it was made. Which address the host's mapping gave then is not
/// stated.
#[verifier::external_body]
pub(crate) fn buffer_bus_addr(buffer: &DVec<[u8; 1024]>) -> (addr: u64)
    ensures
        addr == buffer_bus_of(*buffer),
{
    buffer.bus_addr()
}

/// `DVec::get`: the bytes now in slot `index`, or `None` past the end. The
/// device writes to this memory, so the bytes are not promised to be those stored.
#[verifier::external_body]
pub(crate) fn slot_get(ring: &DVec<[u8; 16]>, index: usize) -> (r: Option<[u8; 16]>)
    ensures
        r is Some <==> index < slots_of(*ring).len(),
{
    ring.get(index)
}

/// `DVec::set`: stores `value` in slot `index` and leaves the others alone, as
/// it leaves the array where it is. The call would fail past the end; the
/// `requires` leaves that out.
#[verifier::external_body]
pub(crate) fn slot_set(ring: &mut DVec<[u8; 16]>, index: usize, value: [u8; 16])
    requires
        index < slots_of(*old(ring)).len(),
    ensures
        slots_of(*final(ring)) == slots_of(*old(ring)).update(index as int, value@),
        slots_bus_of(*final(ring)) == slots_bus_of(*old(ring)),
{
    ring.set(index, value)
}

} // verus!
