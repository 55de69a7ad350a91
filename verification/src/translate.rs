//! Address translation between host-native pointers and guest-relative
//! 32-bit offsets.
//!
//! Only the host translates; the guest only ever sees offsets it produced
//! itself.  A translation is valid only against the region the guest's
//! linear memory currently occupies: after the memory is grown or moved,
//! earlier results are stale and must not be reused.

use vstd::prelude::*;

use crate::ProtocolError;

verus! {

/// Where the guest's linear memory currently sits in the host's address
/// space: the first byte's native address and the byte size of the region.
#[derive(Clone, Copy, Debug, PartialEq, Eq, Structural)]
pub struct MemoryRegion {
    /// Native address of offset zero.
    pub base: usize,
    /// Size of the region in bytes.
    pub size: u32,
}

impl MemoryRegion {
    /// The region fits in the host's address space.
    pub open spec fn wf(&self) -> bool {
        self.base + self.size <= usize::MAX
    }

    /// Whether a native pointer lies inside the region.
    pub open spec fn contains_native(&self, p: usize) -> bool {
        self.base <= p < self.base + self.size
    }
}

/// What translating a native pointer yields: its offset from the region's
/// base, defined exactly for pointers inside the region.
pub open spec fn spec_to_guest_offset(p: usize, region: MemoryRegion) -> Option<u32> {
    if region.contains_native(p) {
        Some((p - region.base) as u32)
    } else {
        None
    }
}

/// What translating an offset yields: the native address of that offset,
/// defined exactly for offsets inside the region.
pub open spec fn spec_to_native_ptr(off: u32, region: MemoryRegion) -> Option<usize> {
    if off < region.size {
        Some((region.base + off) as usize)
    } else {
        None
    }
}

/// Translates a native pointer into a guest-relative offset, rejecting any
/// pointer outside the region rather than producing a dangling offset.
pub fn to_guest_offset(p: usize, region: &MemoryRegion) -> (r: Result<u32, ProtocolError>)
    requires
        region.wf(),
    ensures
        match r {
            Ok(off) => spec_to_guest_offset(p, *region) == Some(off),
            Err(e) => {
                &&& e == ProtocolError::AddressOutOfRange
                &&& spec_to_guest_offset(p, *region) is None
            },
        },
{
    if p >= region.base && p - region.base < region.size as usize {
        Ok((p - region.base) as u32)
    } else {
        Err(ProtocolError::AddressOutOfRange)
    }
}

/// Translates a guest-relative offset into a native pointer, rejecting any
/// offset outside the region rather than producing a dangling pointer.
pub fn to_native_ptr(off: u32, region: &MemoryRegion) -> (r: Result<usize, ProtocolError>)
    requires
        region.wf(),
    ensures
        match r {
            Ok(p) => spec_to_native_ptr(off, *region) == Some(p),
            Err(e) => {
                &&& e == ProtocolError::AddressOutOfRange
                &&& spec_to_native_ptr(off, *region) is None
            },
        },
{
    if off < region.size {
        Ok(region.base + off as usize)
    } else {
        Err(ProtocolError::AddressOutOfRange)
    }
}

/// Translation is a bijection within bounds: a native pointer inside the
/// region survives the round trip through its offset unchanged.
pub proof fn lemma_translation_round_trip_native(p: usize, region: MemoryRegion)
    requires
        region.wf(),
        region.contains_native(p),
    ensures
        spec_to_guest_offset(p, region) matches Some(off) && spec_to_native_ptr(off, region)
            == Some(p),
{
}

/// Translation is a bijection within bounds: an offset inside the region
/// survives the round trip through its native pointer unchanged.
pub proof fn lemma_translation_round_trip_offset(off: u32, region: MemoryRegion)
    requires
        region.wf(),
        off < region.size,
    ensures
        spec_to_native_ptr(off, region) matches Some(p) && spec_to_guest_offset(p, region)
            == Some(off),
{
}

} // verus!
