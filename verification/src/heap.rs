//! A model of the guest's linear memory and allocator, as the protocol sees
//! them: a flat byte array addressed by 32-bit offsets, plus the set of live
//! allocations with the exact (pointer, size, align) each was made with.
//!
//! The guest's real allocator is outside the boundary; this model is what
//! the free protocol is proved against.  Deallocation succeeds exactly when
//! the (pointer, size, align) triple matches a live allocation, as the
//! host-exported free requires.

use vstd::prelude::*;

use crate::ProtocolError;

verus! {

/// One live allocation: the offset it starts at and the exact size and
/// alignment it was requested with.  Freeing must present the same triple.
#[derive(Clone, Copy, Debug, PartialEq, Eq, Structural)]
pub struct Alloc {
    /// Offset of the first byte.
    pub ptr: u32,
    /// Requested size in bytes (may be zero).
    pub size: u32,
    /// Requested alignment, at least 1.
    pub align: u32,
}

/// The padding a bump allocator inserts before `base` to reach a multiple of
/// `align`.
pub open spec fn spec_pad(base: int, align: int) -> int {
    (align - base % align) % align
}

/// The bytes the cursor advances by for one allocation: the padding plus the
/// size, where zero-sized allocations still advance by one byte so that
/// every allocation has a distinct address.
pub open spec fn spec_advance(base: int, size: int, align: int) -> int {
    spec_pad(base, align) + if size == 0 {
        1int
    } else {
        size
    }
}

/// Whether `a` is a power of two: the alignments the real allocator's
/// layouts admit, and the only ones this model accepts.
pub open spec fn spec_is_pow2(a: int) -> bool
    decreases a,
{
    if a <= 0 {
        false
    } else if a == 1 {
        true
    } else {
        a % 2 == 0 && spec_is_pow2(a / 2)
    }
}

/// The cursor never advances by more than the requested size plus the
/// requested alignment.
pub proof fn lemma_advance_bound(base: int, size: int, align: int)
    requires
        align >= 1,
        size >= 0,
    ensures
        0 <= spec_advance(base, size, align) <= size + align,
{
    assert(0 <= (align - base % align) % align < align) by (nonlinear_arith)
        requires
            align >= 1,
    ;
}

/// No two allocations of the sequence start at the same address.
pub open spec fn distinct_ptrs(live: Seq<Alloc>) -> bool {
    forall|i: int, j: int|
        0 <= i < j < live.len() ==> (#[trigger] live[i]).ptr != (#[trigger] live[j]).ptr
}

/// Every allocation of the sequence lies between `lo` and `hi`, and each
/// one ends at or before the next begins, so the byte ranges are pairwise
/// disjoint: what a bump allocator guarantees for allocations made in this
/// order while the cursor moved from `lo` to `hi`.
pub open spec fn allocs_fresh_and_disjoint(targets: Seq<Alloc>, lo: int, hi: int) -> bool {
    &&& forall|i: int|
        0 <= i < targets.len() ==> (#[trigger] targets[i]).ptr >= lo && targets[i].ptr
            + targets[i].size <= hi
    &&& forall|i: int, j: int|
        0 <= i < j < targets.len() ==> (#[trigger] targets[i]).ptr + targets[i].size <= (
        #[trigger] targets[j]).ptr
}

/// A well-formed heap's live allocations have distinct addresses.
pub proof fn lemma_wf_distinct(h: &GuestHeap)
    requires
        h.wf(),
    ensures
        distinct_ptrs(h.live@),
{
}

/// The guest heap model: linear memory contents and the live allocations.
/// Allocation is a bump allocator whose cursor is the current memory length.
pub struct GuestHeap {
    /// The linear memory bytes; its length is the allocation cursor.
    pub mem: Vec<u8>,
    /// The live allocations, oldest first.
    pub live: Vec<Alloc>,
}

impl GuestHeap {
    /// Well-formedness: memory is addressable by 32-bit offsets, every live
    /// allocation lies inside memory, is aligned, and starts at a distinct
    /// address.
    pub open spec fn wf(&self) -> bool {
        &&& self.mem@.len() <= u32::MAX
        &&& forall|i: int|
            0 <= i < self.live@.len() ==> {
                &&& (#[trigger] self.live@[i]).align >= 1
                &&& self.live@[i].ptr + self.live@[i].size <= self.mem@.len()
                &&& self.live@[i].ptr < self.mem@.len()
                &&& self.live@[i].ptr % self.live@[i].align == 0
            }
        &&& forall|i: int, j: int|
            0 <= i < j < self.live@.len() ==> (#[trigger] self.live@[i]).ptr != (
            #[trigger] self.live@[j]).ptr
    }

    /// An empty guest heap.
    pub fn new() -> (h: GuestHeap)
        ensures
            h.wf(),
            h.mem@.len() == 0,
            h.live@.len() == 0,
    {
        GuestHeap { mem: Vec::new(), live: Vec::new() }
    }

    /// Allocates `size` bytes aligned to `align` — a power of two, as the
    /// real allocator's layouts require — zero-filled, and records the
    /// allocation.  Fails exactly when the heap would outgrow the 32-bit
    /// address space.  Existing memory contents and allocations are
    /// untouched; the new block starts at or after the old end of memory.
    pub fn allocate(&mut self, size: u32, align: u32) -> (r: Option<u32>)
        requires
            old(self).wf(),
            align >= 1,
            spec_is_pow2(align as int),
        ensures
            final(self).wf(),
            match r {
                Some(p) => {
                    &&& old(self).mem@.len() + spec_advance(
                        old(self).mem@.len() as int,
                        size as int,
                        align as int,
                    ) <= u32::MAX
                    &&& p == old(self).mem@.len() + spec_pad(
                        old(self).mem@.len() as int,
                        align as int,
                    )
                    &&& p % align == 0
                    &&& p + size <= final(self).mem@.len()
                    &&& final(self).mem@.len() == old(self).mem@.len() + spec_advance(
                        old(self).mem@.len() as int,
                        size as int,
                        align as int,
                    )
                    &&& final(self).mem@.subrange(0, old(self).mem@.len() as int) == old(self).mem@
                    &&& final(self).live@ == old(self).live@.push(
                        (Alloc { ptr: p, size, align }),
                    )
                },
                None => {
                    &&& old(self).mem@.len() + spec_advance(
                        old(self).mem@.len() as int,
                        size as int,
                        align as int,
                    ) > u32::MAX
                    &&& *final(self) == *old(self)
                },
            },
    {
        let base: u32 = self.mem.len() as u32;
        let pad: u32 = (align - base % align) % align;
        let bump: u32 = if size == 0 {
            1
        } else {
            size
        };
        let needed: u64 = base as u64 + pad as u64 + bump as u64;
        if needed > u32::MAX as u64 {
            return None;
        }
        let p: u32 = base + pad;
        let target: u32 = p + bump;
        while self.mem.len() < target as usize
            invariant
                self.mem@.len() <= target,
                target <= u32::MAX,
                self.mem@.subrange(0, old(self).mem@.len() as int) == old(self).mem@,
                old(self).mem@.len() <= self.mem@.len(),
                self.live@ == old(self).live@,
            decreases target as int - self.mem@.len(),
        {
            self.mem.push(0);
            proof {
                assert(self.mem@.subrange(0, old(self).mem@.len() as int) =~= old(self).mem@);
            }
        }
        self.live.push(Alloc { ptr: p, size, align });
        proof {
            let b = base as int;
            let al = align as int;
            let pd = pad as int;
            assert((b + pd) % al == 0) by (nonlinear_arith)
                requires
                    al >= 1,
                    pd == (al - b % al) % al,
            ;
        }
        Some(p)
    }

    /// Overwrites `data.len()` bytes starting at `ptr`.  Everything outside
    /// the written range, and the allocation list, stay as they were.
    pub fn write_bytes(&mut self, ptr: u32, data: &Vec<u8>)
        requires
            old(self).wf(),
            ptr + data@.len() <= old(self).mem@.len(),
        ensures
            final(self).wf(),
            final(self).live@ == old(self).live@,
            final(self).mem@.len() == old(self).mem@.len(),
            final(self).mem@ == old(self).mem@.subrange(0, ptr as int) + data@ + old(
                self,
            ).mem@.subrange(ptr + data@.len(), old(self).mem@.len() as int),
    {
        let mut i: usize = 0;
        while i < data.len()
            invariant
                i <= data@.len(),
                ptr + data@.len() <= self.mem@.len(),
                self.live@ == old(self).live@,
                self.mem@.len() == old(self).mem@.len(),
                forall|k: int|
                    0 <= k < self.mem@.len() && !(ptr <= k < ptr + i) ==> self.mem@[k] == old(
                        self,
                    ).mem@[k],
                forall|k: int| 0 <= k < i ==> self.mem@[ptr + k] == data@[k],
            decreases data@.len() - i,
        {
            let mlen: usize = self.mem.len();
            assert(ptr + i < mlen);
            let idx: usize = ptr as usize + i;
            self.mem.set(idx, data[i]);
            i = i + 1;
        }
        proof {
            assert(final(self).mem@ =~= old(self).mem@.subrange(0, ptr as int) + data@ + old(
                self,
            ).mem@.subrange(ptr + data@.len(), old(self).mem@.len() as int));
        }
    }

    /// Reads `len` bytes starting at `ptr`, or `None` if the range is not in
    /// memory.
    pub fn read_bytes(&self, ptr: u32, len: u32) -> (r: Option<Vec<u8>>)
        ensures
            match r {
                Some(v) => {
                    &&& ptr + len <= self.mem@.len()
                    &&& v@ == self.mem@.subrange(ptr as int, ptr + len)
                },
                None => ptr + len > self.mem@.len(),
            },
    {
        if self.mem.len() < len as usize || ptr as usize > self.mem.len() - len as usize {
            return None;
        }
        let mut v: Vec<u8> = Vec::new();
        let mut i: usize = 0;
        while i < len as usize
            invariant
                i <= len,
                ptr + len <= self.mem@.len(),
                v@ == self.mem@.subrange(ptr as int, ptr + i),
            decreases len as int - i,
        {
            let mlen: usize = self.mem.len();
            assert(ptr + i < mlen);
            v.push(self.mem[ptr as usize + i]);
            proof {
                assert(v@ =~= self.mem@.subrange(ptr as int, ptr + i + 1));
            }
            i = i + 1;
        }
        Some(v)
    }

    /// Releases the allocation that starts at `ptr`, provided `size` and
    /// `align` are exactly what it was allocated with; the model of the
    /// guest's exported free.  Fails with `LayoutMismatch` when the triple
    /// does not correspond to a live allocation.  Memory contents are not
    /// erased; only the allocation list changes.
    pub fn free(&mut self, ptr: u32, size: u32, align: u32) -> (r: Result<(), ProtocolError>)
        requires
            old(self).wf(),
        ensures
            final(self).wf(),
            final(self).mem@ == old(self).mem@,
            match r {
                Ok(()) => exists|i: int|
                    {
                        &&& 0 <= i < old(self).live@.len()
                        &&& (#[trigger] old(self).live@[i]) == (Alloc { ptr, size, align })
                        &&& final(self).live@ == old(self).live@.remove(i)
                    },
                Err(e) => {
                    &&& e == ProtocolError::LayoutMismatch
                    &&& final(self).live@ == old(self).live@
                    &&& forall|i: int|
                        0 <= i < old(self).live@.len() ==> (#[trigger] old(self).live@[i]) != (
                        Alloc { ptr, size, align })
                },
            },
    {
        let mut i: usize = 0;
        while i < self.live.len()
            invariant
                old(self).wf(),
                *self == *old(self),
                i <= self.live@.len(),
                forall|j: int| 0 <= j < i ==> (#[trigger] self.live@[j]).ptr != ptr,
            decreases self.live@.len() - i,
        {
            let a = self.live[i];
            if a.ptr == ptr {
                if a.size == size && a.align == align {
                    self.live.remove(i);
                    proof {
                        let gi = i as int;
                        assert(old(self).live@[gi] == (Alloc { ptr, size, align }));
                        assert(final(self).live@ == old(self).live@.remove(gi));
                    }
                    return Ok(());
                } else {
                    proof {
                        let gi = i as int;
                        assert(forall|j: int|
                            0 <= j < old(self).live@.len() && j != gi ==> (#[trigger] old(
                                self,
                            ).live@[j]).ptr != ptr);
                    }
                    return Err(ProtocolError::LayoutMismatch);
                }
            }
            i = i + 1;
        }
        Err(ProtocolError::LayoutMismatch)
    }
}

} // verus!
