//! Guest-side construction: allocating wire values in the guest heap.
//!
//! Each constructor makes exactly one allocation, copies the encoded bytes
//! into it, and returns an owned, guest-tagged wire value whose recorded
//! length is the exact byte or element count.  Reading the allocation back
//! yields the bytes that went in, which is the round-trip guarantee.

use vstd::prelude::*;

use crate::codec::{enc_register, enc_systems, encode_register, encode_systems, string_bytes};
use crate::decode::{
    lemma_register_round_trip, spec_decode_register, spec_decode_systems, systems_decodable,
};
use crate::freeing::{plan_all_guest, plan_of, plan_targets, root_alloc, slice_alloc, string_alloc};
use crate::heap::{
    Alloc, GuestHeap, allocs_fresh_and_disjoint, lemma_advance_bound, spec_advance, spec_is_pow2,
};
use crate::wire::{
    Owner, PluginBox, PluginRegister, PluginSlice, PluginString, PluginSystem, REGISTER_ALIGN,
    REGISTER_SIZE, STRING_ALIGN, SYSTEM_ALIGN, SYSTEM_SIZE, SystemStage,
};

verus! {

/// What a plugin asks to be registered: one declared callback, by stage and
/// exported name.
#[derive(Debug)]
pub struct SystemDef {
    /// When the callback should run.
    pub stage: SystemStage,
    /// The exported name, as plain bytes.
    pub name: Vec<u8>,
}

/// Allocates a block of `data.len()` bytes with the given alignment and
/// copies `data` into it.  Fails exactly when the heap would outgrow the
/// 32-bit address space; nothing already allocated moves or changes.
pub fn alloc_block(heap: &mut GuestHeap, data: &Vec<u8>, align: u32) -> (r: Option<u32>)
    requires
        old(heap).wf(),
        align >= 1,
        spec_is_pow2(align as int),
        data@.len() <= u32::MAX,
    ensures
        final(heap).wf(),
        match r {
            Some(p) => {
                &&& p >= old(heap).mem@.len()
                &&& p % align == 0
                &&& p + data@.len() <= final(heap).mem@.len()
                &&& final(heap).mem@.len() == old(heap).mem@.len() + spec_advance(
                    old(heap).mem@.len() as int,
                    data@.len() as int,
                    align as int,
                )
                &&& final(heap).mem@.subrange(p as int, p + data@.len()) == data@
                &&& final(heap).mem@.subrange(0, old(heap).mem@.len() as int) == old(heap).mem@
                &&& final(heap).live@ == old(heap).live@.push(
                    (Alloc { ptr: p, size: data@.len() as u32, align }),
                )
            },
            None => {
                &&& *final(heap) == *old(heap)
                &&& old(heap).mem@.len() + spec_advance(
                    old(heap).mem@.len() as int,
                    data@.len() as int,
                    align as int,
                ) > u32::MAX
            },
        },
{
    let len: u32 = data.len() as u32;
    match heap.allocate(len, align) {
        None => None,
        Some(p) => {
            heap.write_bytes(p, data);
            proof {
                assert(heap.mem@.subrange(p as int, p + data@.len()) =~= data@);
                assert(heap.mem@.subrange(0, old(heap).mem@.len() as int) =~= old(heap).mem@);
            }
            Some(p)
        },
    }
}

/// Allocates a guest-owned wire string holding exactly `bytes`.
pub fn alloc_string(heap: &mut GuestHeap, bytes: &Vec<u8>) -> (r: Option<PluginBox<PluginString>>)
    requires
        old(heap).wf(),
        bytes@.len() <= u32::MAX,
    ensures
        final(heap).wf(),
        match r {
            Some(b) => {
                &&& b.owner == Owner::Guest
                &&& b.value.len == bytes@.len()
                &&& b.value.ptr >= old(heap).mem@.len()
                &&& b.value.ptr + b.value.len <= final(heap).mem@.len()
                &&& string_bytes(final(heap).mem@, b.value) == bytes@
                &&& final(heap).mem@.subrange(0, old(heap).mem@.len() as int) == old(heap).mem@
                &&& final(heap).live@ == old(heap).live@.push(string_alloc(b.value))
                &&& final(heap).mem@.len() == old(heap).mem@.len() + spec_advance(
                    old(heap).mem@.len() as int,
                    bytes@.len() as int,
                    STRING_ALIGN as int,
                )
            },
            None => {
                &&& *final(heap) == *old(heap)
                &&& old(heap).mem@.len() + spec_advance(
                    old(heap).mem@.len() as int,
                    bytes@.len() as int,
                    STRING_ALIGN as int,
                ) > u32::MAX
            },
        },
{
    proof {
        reveal_with_fuel(spec_is_pow2, 2);
    }
    match alloc_block(heap, bytes, STRING_ALIGN) {
        None => None,
        Some(p) => Some(
            PluginBox { owner: Owner::Guest, value: PluginString { ptr: p, len: bytes.len() as u32 } },
        ),
    }
}

/// Allocates a guest-owned slice buffer holding the encodings of the given
/// systems, in order.
pub fn alloc_systems(heap: &mut GuestHeap, systems: &Vec<PluginSystem>) -> (r: Option<
    PluginBox<PluginSlice>,
>)
    requires
        old(heap).wf(),
        SYSTEM_SIZE * systems@.len() <= u32::MAX,
    ensures
        final(heap).wf(),
        match r {
            Some(b) => {
                &&& b.owner == Owner::Guest
                &&& b.value.len == systems@.len()
                &&& b.value.elements >= old(heap).mem@.len()
                &&& b.value.elements + SYSTEM_SIZE * systems@.len() <= final(heap).mem@.len()
                &&& final(heap).mem@.subrange(
                    b.value.elements as int,
                    b.value.elements + SYSTEM_SIZE * systems@.len(),
                ) == enc_systems(systems@)
                &&& final(heap).mem@.subrange(0, old(heap).mem@.len() as int) == old(heap).mem@
                &&& final(heap).live@ == old(heap).live@.push(slice_alloc(b.value))
                &&& final(heap).mem@.len() == old(heap).mem@.len() + spec_advance(
                    old(heap).mem@.len() as int,
                    SYSTEM_SIZE * systems@.len(),
                    SYSTEM_ALIGN as int,
                )
            },
            None => {
                &&& *final(heap) == *old(heap)
                &&& old(heap).mem@.len() + spec_advance(
                    old(heap).mem@.len() as int,
                    SYSTEM_SIZE * systems@.len(),
                    SYSTEM_ALIGN as int,
                ) > u32::MAX
            },
        },
{
    let buf = encode_systems(systems);
    proof {
        reveal_with_fuel(spec_is_pow2, 4);
    }
    match alloc_block(heap, &buf, SYSTEM_ALIGN) {
        None => None,
        Some(p) => {
            let b = PluginBox {
                owner: Owner::Guest,
                value: PluginSlice { len: systems.len() as u32, elements: p },
            };
            proof {
                assert(slice_alloc(b.value) == (Alloc {
                    ptr: p,
                    size: buf@.len() as u32,
                    align: SYSTEM_ALIGN,
                }));
            }
            Some(b)
        },
    }
}

/// An upper bound on the heap bytes the system-name strings of `defs` can
/// consume: each string's length plus one byte of cursor slack.
pub open spec fn names_space(defs: Seq<SystemDef>) -> int
    decreases defs.len(),
{
    if defs.len() == 0 {
        0
    } else {
        defs[0].name@.len() + 1 + names_space(defs.skip(1))
    }
}

/// The bound is additive over concatenation.
pub proof fn lemma_names_space_concat(a: Seq<SystemDef>, b: Seq<SystemDef>)
    ensures
        names_space(a + b) == names_space(a) + names_space(b),
    decreases a.len(),
{
    if a.len() == 0 {
        assert(a + b =~= b);
    } else {
        assert((a + b)[0] == a[0]);
        assert((a + b).skip(1) =~= a.skip(1) + b);
        lemma_names_space_concat(a.skip(1), b);
    }
}

/// The bound is never negative.
pub proof fn lemma_names_space_nonneg(defs: Seq<SystemDef>)
    ensures
        names_space(defs) >= 0,
    decreases defs.len(),
{
    if defs.len() > 0 {
        lemma_names_space_nonneg(defs.skip(1));
    }
}

/// One more system extends the bound by that system's share.
pub proof fn lemma_names_space_snoc(defs: Seq<SystemDef>, i: int)
    requires
        0 <= i < defs.len(),
    ensures
        names_space(defs.take(i + 1)) == names_space(defs.take(i)) + defs[i].name@.len() + 1,
{
    let one = seq![defs[i]];
    assert(defs.take(i + 1) =~= defs.take(i) + one);
    lemma_names_space_concat(defs.take(i), one);
    assert(one.skip(1) =~= Seq::<SystemDef>::empty());
    assert(names_space(one.skip(1)) == 0);
    assert(names_space(one) == defs[i].name@.len() + 1);
}

/// A prefix's share plus the next system's share never exceeds the whole.
pub proof fn lemma_names_space_prefix(defs: Seq<SystemDef>, i: int)
    requires
        0 <= i <= defs.len(),
    ensures
        names_space(defs.take(i)) <= names_space(defs),
        i < defs.len() ==> names_space(defs.take(i)) + defs[i].name@.len() + 1 <= names_space(
            defs,
        ),
{
    assert(defs =~= defs.take(i) + defs.skip(i));
    lemma_names_space_concat(defs.take(i), defs.skip(i));
    lemma_names_space_nonneg(defs.skip(i));
    if i < defs.len() {
        assert(defs.skip(i)[0] == defs[i]);
        lemma_names_space_nonneg(defs.skip(i).skip(1));
        assert(names_space(defs.skip(i)) >= defs[i].name@.len() + 1);
    }
}

/// An upper bound on the total heap bytes one registration consumes: both
/// header strings, every system name, the slice buffer, the root block, and
/// the alignment and cursor slack of each allocation.
pub open spec fn encode_space(name_len: int, version_len: int, defs: Seq<SystemDef>) -> int {
    name_len + 1 + version_len + 1 + names_space(defs) + SYSTEM_SIZE * defs.len() + SYSTEM_ALIGN
        + REGISTER_SIZE + REGISTER_ALIGN
}

/// A registration tree laid out by a bump allocator in plan order has
/// fresh, pairwise disjoint allocations: each stage's block starts at or
/// after the boundary below which the previous stage ended.  `a1` to `a4`
/// are the cursor positions after the name string, the version string, the
/// last system-name string, and the slice buffer.
proof fn lemma_plan_targets_fresh_disjoint(
    rt: PluginBox<PluginRegister>,
    ws: Seq<PluginSystem>,
    rp: u32,
    lo: int,
    a1: int,
    a2: int,
    a3: int,
    a4: int,
    hi: int,
)
    requires
        rt.value.systems.value.len == ws.len(),
        SYSTEM_SIZE * ws.len() <= u32::MAX,
        lo <= a1 <= a2 <= a3 <= a4 <= hi,
        rt.value.name.value.ptr >= lo,
        rt.value.name.value.ptr + rt.value.name.value.len <= a1,
        rt.value.version.value.ptr >= a1,
        rt.value.version.value.ptr + rt.value.version.value.len <= a2,
        forall|m: int|
            0 <= m < ws.len() ==> (#[trigger] ws[m]).name.value.ptr >= a2 && ws[m].name.value.ptr
                + ws[m].name.value.len <= a3,
        forall|m: int, k: int|
            0 <= m < k < ws.len() ==> (#[trigger] ws[m]).name.value.ptr + ws[m].name.value.len <= (
            #[trigger] ws[k]).name.value.ptr,
        rt.value.systems.value.elements >= a3,
        rt.value.systems.value.elements + SYSTEM_SIZE * ws.len() <= a4,
        rp >= a4,
        rp + REGISTER_SIZE <= hi,
    ensures
        allocs_fresh_and_disjoint(plan_targets(plan_of(rt, ws, rp)), lo, hi),
{
    let plan = plan_of(rt, ws, rp);
    let t = plan_targets(plan);
    let n = ws.len() as int;
    assert(t.len() == n + 4);
    assert(slice_alloc(rt.value.systems.value).size == SYSTEM_SIZE * ws.len());
    assert forall|k: int| 0 <= k < t.len() implies (#[trigger] t[k]).ptr >= lo && t[k].ptr
        + t[k].size <= hi by {
        assert(t[k] == plan[k].target);
        if k == 0 {
            assert(plan[k].target == string_alloc(rt.value.name.value));
        } else if k == 1 {
            assert(plan[k].target == string_alloc(rt.value.version.value));
        } else if k < 2 + n {
            assert(plan[k].target == string_alloc(ws[k - 2].name.value));
        } else if k == n + 2 {
            assert(plan[k].target == slice_alloc(rt.value.systems.value));
        } else {
            assert(k == n + 3);
            assert(plan[k].target == root_alloc(rp));
        }
    }
    assert forall|i: int, j: int| 0 <= i < j < t.len() implies (#[trigger] t[i]).ptr + t[i].size
        <= (#[trigger] t[j]).ptr by {
        assert(t[i] == plan[i].target);
        assert(t[j] == plan[j].target);
        if i == 0 {
            assert(plan[i].target == string_alloc(rt.value.name.value));
        } else if i == 1 {
            assert(plan[i].target == string_alloc(rt.value.version.value));
        } else if i < 2 + n {
            assert(plan[i].target == string_alloc(ws[i - 2].name.value));
        } else if i == n + 2 {
            assert(plan[i].target == slice_alloc(rt.value.systems.value));
        }
        if j == 1 {
            assert(plan[j].target == string_alloc(rt.value.version.value));
        } else if j < 2 + n {
            assert(plan[j].target == string_alloc(ws[j - 2].name.value));
        } else if j == n + 2 {
            assert(plan[j].target == slice_alloc(rt.value.systems.value));
        } else {
            assert(j == n + 3);
            assert(plan[j].target == root_alloc(rp));
        }
    }
}

/// Allocates one guest-owned name string per system definition, in order,
/// pairing each with its declared stage.  The new allocations are fresh —
/// at or beyond the old end of memory — laid out in order without overlap,
/// and each reads back as the bytes that went in.  Fails only when the
/// heap runs out of 32-bit address space.
#[verifier::loop_isolation(false)]
fn alloc_system_names(heap: &mut GuestHeap, systems: &Vec<SystemDef>) -> (r: Option<
    Vec<PluginSystem>,
>)
    requires
        old(heap).wf(),
        forall|i: int| 0 <= i < systems@.len() ==> (#[trigger] systems@[i]).name@.len() <= u32::MAX,
    ensures
        final(heap).wf(),
        final(heap).mem@.subrange(0, old(heap).mem@.len() as int) == old(heap).mem@,
        old(heap).mem@.len() <= final(heap).mem@.len(),
        match r {
            Some(ws) => {
                &&& ws@.len() == systems@.len()
                &&& final(heap).live@ == old(heap).live@ + Seq::new(
                    ws@.len(),
                    |j: int| string_alloc(ws@[j].name.value),
                )
                &&& final(heap).mem@.len() <= old(heap).mem@.len() + names_space(systems@)
                &&& forall|j: int|
                    0 <= j < ws@.len() ==> {
                        &&& (#[trigger] ws@[j]).stage == systems@[j].stage
                        &&& ws@[j].name.owner == Owner::Guest
                        &&& ws@[j].name.value.len == systems@[j].name@.len()
                        &&& ws@[j].name.value.ptr >= old(heap).mem@.len()
                        &&& ws@[j].name.value.ptr + ws@[j].name.value.len <= final(heap).mem@.len()
                        &&& string_bytes(final(heap).mem@, ws@[j].name.value) == systems@[j].name@
                    }
                &&& forall|j: int, k: int|
                    0 <= j < k < ws@.len() ==> (#[trigger] ws@[j]).name.value.ptr
                        + ws@[j].name.value.len <= (#[trigger] ws@[k]).name.value.ptr
            },
            None => {
                &&& old(heap).live@.is_prefix_of(final(heap).live@)
                &&& old(heap).mem@.len() + names_space(systems@) > u32::MAX
            },
        },
{
    let mut ws: Vec<PluginSystem> = Vec::new();
    let mut i: usize = 0;
    while i < systems.len()
        invariant
            heap.wf(),
            i <= systems@.len(),
            ws@.len() == i,
            heap.mem@.len() <= old(heap).mem@.len() + names_space(systems@.take(i as int)),
            old(heap).mem@.len() <= heap.mem@.len(),
            heap.mem@.subrange(0, old(heap).mem@.len() as int) == old(heap).mem@,
            heap.live@ == old(heap).live@ + Seq::new(
                i as nat,
                |j: int| string_alloc(ws@[j].name.value),
            ),
            forall|j: int|
                0 <= j < i ==> {
                    &&& (#[trigger] ws@[j]).stage == systems@[j].stage
                    &&& ws@[j].name.owner == Owner::Guest
                    &&& ws@[j].name.value.len == systems@[j].name@.len()
                    &&& ws@[j].name.value.ptr >= old(heap).mem@.len()
                    &&& ws@[j].name.value.ptr + ws@[j].name.value.len <= heap.mem@.len()
                    &&& string_bytes(heap.mem@, ws@[j].name.value) == systems@[j].name@
                },
            forall|j: int, k: int|
                0 <= j < k < i ==> (#[trigger] ws@[j]).name.value.ptr + ws@[j].name.value.len <= (
                #[trigger] ws@[k]).name.value.ptr,
        decreases systems@.len() - i,
    {
        let ghost mem_before = heap.mem@;
        let sd = &systems[i];
        let b = match alloc_string(heap, &sd.name) {
            None => {
                proof {
                    lemma_advance_bound(mem_before.len() as int, sd.name@.len() as int, 1);
                    lemma_names_space_prefix(systems@, i as int);
                    assert(heap.mem@.subrange(0, old(heap).mem@.len() as int) =~= old(heap).mem@);
                    assert(old(heap).live@.is_prefix_of(heap.live@));
                }
                return None;
            },
            Some(b) => b,
        };
        ws.push(PluginSystem { stage: sd.stage, name: b });
        proof {
            lemma_names_space_snoc(systems@, i as int);
            lemma_advance_bound(mem_before.len() as int, sd.name@.len() as int, 1);
            assert(heap.mem@.subrange(0, old(heap).mem@.len() as int) =~= old(heap).mem@);
            assert(heap.live@ =~= old(heap).live@ + Seq::new(
                (i + 1) as nat,
                |j: int| string_alloc(ws@[j].name.value),
            ));
            assert(string_bytes(heap.mem@, b.value) == sd.name@);
            assert(b.value.ptr >= mem_before.len());
            assert forall|j: int| 0 <= j < i implies (#[trigger] ws@[j]).name.value.ptr
                + ws@[j].name.value.len <= b.value.ptr by {
                assert(ws@[j].name.value.ptr + ws@[j].name.value.len <= mem_before.len());
            }
            assert forall|j: int| 0 <= j < i implies string_bytes(
                heap.mem@,
                (#[trigger] ws@[j]).name.value,
            ) == systems@[j].name@ by {
                assert(ws@[j].name.value.ptr + ws@[j].name.value.len <= mem_before.len());
                assert(string_bytes(heap.mem@, ws@[j].name.value) =~= string_bytes(
                    mem_before,
                    ws@[j].name.value,
                ));
            }
        }
        i = i + 1;
    }
    proof {
        assert(systems@.take(systems@.len() as int) =~= systems@);
    }
    Some(ws)
}

/// Builds a complete guest-owned registration in the guest heap: the name
/// and version strings, one string per system name, the encoded systems
/// slice buffer, and the encoded root block, in exactly the order the free
/// plan will later release them.  Returns the tagged root, the root's
/// offset, and the wire systems, whose encodings fill the slice buffer.
///
/// Fails only when the heap runs out of 32-bit address space; whenever
/// [`encode_space`] more bytes are still free, it succeeds.  On success the
/// heap's live allocations are extended by exactly the free plan of the
/// returned tree, so the free protocol releases precisely what was
/// allocated here; the new allocations are fresh — at or beyond the old end
/// of memory — and pairwise disjoint.
#[verifier::loop_isolation(false)]
#[verifier::rlimit(100)]
pub fn encode_registration(
    heap: &mut GuestHeap,
    name: &Vec<u8>,
    version: &Vec<u8>,
    systems: &Vec<SystemDef>,
) -> (r: Option<(PluginBox<PluginRegister>, u32, Vec<PluginSystem>)>)
    requires
        old(heap).wf(),
        name@.len() <= u32::MAX,
        version@.len() <= u32::MAX,
        SYSTEM_SIZE * systems@.len() <= u32::MAX,
        forall|i: int| 0 <= i < systems@.len() ==> (#[trigger] systems@[i]).name@.len() <= u32::MAX,
    ensures
        final(heap).wf(),
        final(heap).mem@.subrange(0, old(heap).mem@.len() as int) == old(heap).mem@,
        old(heap).mem@.len() + encode_space(name@.len() as int, version@.len() as int, systems@)
            <= u32::MAX ==> r is Some,
        match r {
            Some((rt, rp, ws)) => {
                &&& rt.owner == Owner::Guest
                &&& rt.value.name.owner == Owner::Guest
                &&& rt.value.version.owner == Owner::Guest
                &&& rt.value.systems.owner == Owner::Guest
                &&& ws@.len() == systems@.len()
                &&& rt.value.systems.value.len == systems@.len()
                &&& rt.value.name.value.len == name@.len()
                &&& rt.value.version.value.len == version@.len()
                &&& rt.value.name.value.ptr + rt.value.name.value.len <= final(heap).mem@.len()
                &&& rt.value.version.value.ptr + rt.value.version.value.len <= final(heap).mem@.len()
                &&& string_bytes(final(heap).mem@, rt.value.name.value) == name@
                &&& string_bytes(final(heap).mem@, rt.value.version.value) == version@
                &&& forall|i: int|
                    0 <= i < ws@.len() ==> {
                        &&& (#[trigger] ws@[i]).stage == systems@[i].stage
                        &&& ws@[i].name.owner == Owner::Guest
                        &&& ws@[i].name.value.len == systems@[i].name@.len()
                        &&& ws@[i].name.value.ptr + ws@[i].name.value.len <= final(heap).mem@.len()
                        &&& string_bytes(final(heap).mem@, ws@[i].name.value) == systems@[i].name@
                    }
                &&& rt.value.systems.value.elements + SYSTEM_SIZE * ws@.len() <= final(heap).mem@.len()
                &&& final(heap).mem@.subrange(
                    rt.value.systems.value.elements as int,
                    rt.value.systems.value.elements + SYSTEM_SIZE * ws@.len(),
                ) == enc_systems(ws@)
                &&& rp + REGISTER_SIZE <= final(heap).mem@.len()
                &&& final(heap).mem@.subrange(rp as int, rp + REGISTER_SIZE) == enc_register(
                    rt.value,
                )
                &&& final(heap).live@ == old(heap).live@ + plan_targets(plan_of(rt, ws@, rp))
                &&& plan_all_guest(plan_of(rt, ws@, rp))
                &&& allocs_fresh_and_disjoint(
                    plan_targets(plan_of(rt, ws@, rp)),
                    old(heap).mem@.len() as int,
                    final(heap).mem@.len() as int,
                )
                &&& spec_decode_register(final(heap).mem@, rp as int) == Some(rt.value)
                &&& systems_decodable(
                    final(heap).mem@,
                    rt.value.systems.value.elements as int,
                    ws@.len() as int,
                )
                &&& spec_decode_systems(
                    final(heap).mem@,
                    rt.value.systems.value.elements as int,
                    ws@.len() as int,
                ) == ws@
            },
            None => old(heap).live@.is_prefix_of(final(heap).live@),
        },
{
    let ghost base = old(heap).mem@.len() as int;
    let nb = match alloc_string(heap, name) {
        None => {
            proof {
                lemma_advance_bound(base, name@.len() as int, 1);
                lemma_names_space_nonneg(systems@);
                assert(final(heap).mem@.subrange(0, old(heap).mem@.len() as int) =~= old(heap).mem@);
                assert(old(heap).live@.is_prefix_of(final(heap).live@));
            }
            return None;
        },
        Some(b) => b,
    };
    let ghost after_nb = heap.mem@.len() as int;
    let vb = match alloc_string(heap, version) {
        None => {
            proof {
                lemma_advance_bound(base, name@.len() as int, 1);
                lemma_advance_bound(after_nb, version@.len() as int, 1);
                lemma_names_space_nonneg(systems@);
                assert(heap.mem@.subrange(0, old(heap).mem@.len() as int) =~= old(heap).mem@);
                assert(old(heap).live@.is_prefix_of(heap.live@));
            }
            return None;
        },
        Some(b) => b,
    };
    let ghost after_vb = heap.mem@.len() as int;
    proof {
        lemma_advance_bound(base, name@.len() as int, 1);
        lemma_advance_bound(after_nb, version@.len() as int, 1);
        assert(heap.mem@.subrange(0, old(heap).mem@.len() as int) =~= old(heap).mem@);
        assert(string_bytes(heap.mem@, nb.value) =~= name@);
        assert(nb.value.ptr >= base && nb.value.ptr + nb.value.len <= after_nb);
        assert(vb.value.ptr >= after_nb && vb.value.ptr + vb.value.len <= after_vb);
        assert(after_vb <= base + name@.len() + 1 + version@.len() + 1);
    }
    let ws = match alloc_system_names(heap, systems) {
        None => {
            proof {
                assert(heap.mem@.subrange(0, old(heap).mem@.len() as int) =~= old(heap).mem@);
                assert(old(heap).live@ =~= heap.live@.subrange(0, old(heap).live@.len() as int));
                assert(old(heap).live@.is_prefix_of(heap.live@));
            }
            return None;
        },
        Some(ws) => ws,
    };
    let ghost after_names = heap.mem@.len() as int;
    proof {
        assert(string_bytes(heap.mem@, nb.value) =~= name@);
        assert(string_bytes(heap.mem@, vb.value) =~= version@);
    }
    let ghost mem_before_slice = heap.mem@;
    let sb = match alloc_systems(heap, &ws) {
        None => {
            proof {
                lemma_advance_bound(
                    mem_before_slice.len() as int,
                    SYSTEM_SIZE * ws@.len(),
                    SYSTEM_ALIGN as int,
                );
                assert(heap.mem@.subrange(0, old(heap).mem@.len() as int) =~= old(heap).mem@);
                assert(old(heap).live@ =~= heap.live@.subrange(0, old(heap).live@.len() as int));
                assert(old(heap).live@.is_prefix_of(heap.live@));
            }
            return None;
        },
        Some(b) => b,
    };
    let ghost after_slice = heap.mem@.len() as int;
    proof {
        assert(heap.mem@.subrange(0, old(heap).mem@.len() as int) =~= old(heap).mem@);
        assert(string_bytes(heap.mem@, nb.value) =~= name@);
        assert(string_bytes(heap.mem@, vb.value) =~= version@);
        assert(sb.value.elements >= after_names);
        assert(sb.value.elements + SYSTEM_SIZE * ws@.len() <= after_slice);
        assert forall|j: int| 0 <= j < ws@.len() implies string_bytes(
            heap.mem@,
            (#[trigger] ws@[j]).name.value,
        ) == systems@[j].name@ by {
            assert(string_bytes(heap.mem@, ws@[j].name.value) =~= string_bytes(
                mem_before_slice,
                ws@[j].name.value,
            ));
        }
    }
    let reg = PluginRegister { name: nb, version: vb, systems: sb };
    let root_bytes = encode_register(&reg);
    let ghost mem_before_root = heap.mem@;
    proof {
        reveal_with_fuel(spec_is_pow2, 4);
    }
    match alloc_block(heap, &root_bytes, REGISTER_ALIGN) {
        None => {
            proof {
                lemma_advance_bound(mem_before_root.len() as int, 24, REGISTER_ALIGN as int);
                assert(heap.mem@.subrange(0, old(heap).mem@.len() as int) =~= old(heap).mem@);
                assert(old(heap).live@ =~= heap.live@.subrange(0, old(heap).live@.len() as int));
                assert(old(heap).live@.is_prefix_of(heap.live@));
            }
            None
        },
        Some(rp) => {
            let rt = PluginBox { owner: Owner::Guest, value: reg };
            proof {
                assert(heap.mem@.subrange(0, old(heap).mem@.len() as int) =~= old(heap).mem@);
                assert(string_bytes(heap.mem@, nb.value) =~= string_bytes(
                    mem_before_root,
                    nb.value,
                ));
                assert(string_bytes(heap.mem@, vb.value) =~= string_bytes(
                    mem_before_root,
                    vb.value,
                ));
                assert forall|j: int| 0 <= j < ws@.len() implies string_bytes(
                    heap.mem@,
                    (#[trigger] ws@[j]).name.value,
                ) == systems@[j].name@ by {
                    assert(string_bytes(heap.mem@, ws@[j].name.value) =~= string_bytes(
                        mem_before_root,
                        ws@[j].name.value,
                    ));
                }
                assert(heap.mem@.subrange(
                    sb.value.elements as int,
                    sb.value.elements + SYSTEM_SIZE * ws@.len(),
                ) =~= mem_before_root.subrange(
                    sb.value.elements as int,
                    sb.value.elements + SYSTEM_SIZE * ws@.len(),
                ));
                assert(heap.live@ =~= old(heap).live@ + plan_targets(plan_of(rt, ws@, rp)));
                lemma_register_round_trip(heap.mem@, rt, ws@, rp);
                assert(rp >= after_slice && rp + REGISTER_SIZE <= heap.mem@.len());
                lemma_plan_targets_fresh_disjoint(
                    rt,
                    ws@,
                    rp,
                    base,
                    after_nb,
                    after_vb,
                    after_names,
                    after_slice,
                    heap.mem@.len() as int,
                );
            }
            Some((rt, rp, ws))
        },
    }
}

} // verus!
