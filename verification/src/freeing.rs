//! The recursive free protocol.
//!
//! Given an owned registration tree, the protocol issues one deallocation
//! call per owned allocation, children strictly before the allocation that
//! holds them: the two name strings and every system's name string first,
//! then the systems slice buffer, then the root.  The plan of calls is
//! computed first; applying it against a heap frees every allocation exactly
//! once and stops at the first failure.
//!
//! Because the plan carries every (pointer, size, align) triple before the
//! first call is issued, no allocation's pointer, length or contents are
//! read after the call that releases it: applying a plan reads only the
//! plan itself, and the model heap's free leaves memory contents untouched.

use vstd::prelude::*;

use crate::ProtocolError;
use crate::heap::{Alloc, GuestHeap, distinct_ptrs, lemma_wf_distinct};
use crate::wire::{
    Owner, PluginBox, PluginRegister, PluginSlice, PluginString, PluginSystem, REGISTER_ALIGN,
    REGISTER_SIZE, STRING_ALIGN, SYSTEM_ALIGN, SYSTEM_SIZE,
};

verus! {

/// One deallocation call of the free protocol: which allocator must perform
/// it, and the exact (pointer, size, align) triple to present.
#[derive(Clone, Copy, Debug, PartialEq, Eq, Structural)]
pub struct FreeCall {
    /// The allocator responsible for this allocation.
    pub owner: Owner,
    /// The allocation to release.
    pub target: Alloc,
}

/// The backing allocation of a wire string: its bytes, alignment 1.
pub open spec fn string_alloc(s: PluginString) -> Alloc {
    Alloc { ptr: s.ptr, size: s.len, align: STRING_ALIGN }
}

/// The backing allocation of a systems slice buffer: twelve bytes per
/// element, aligned like an element.
pub open spec fn slice_alloc(s: PluginSlice) -> Alloc {
    Alloc { ptr: s.elements, size: (SYSTEM_SIZE * s.len) as u32, align: SYSTEM_ALIGN }
}

/// The backing allocation of an encoded registration root.
pub open spec fn root_alloc(root_ptr: u32) -> Alloc {
    Alloc { ptr: root_ptr, size: REGISTER_SIZE, align: REGISTER_ALIGN }
}

/// The free plan of a registration tree: every owned allocation exactly
/// once, children before the allocation that holds them.  `ws` is the
/// decoded contents of the systems slice.
pub open spec fn plan_of(
    root: PluginBox<PluginRegister>,
    ws: Seq<PluginSystem>,
    root_ptr: u32,
) -> Seq<FreeCall> {
    seq![
        (FreeCall { owner: root.value.name.owner, target: string_alloc(root.value.name.value) }),
        (FreeCall {
            owner: root.value.version.owner,
            target: string_alloc(root.value.version.value),
        }),
    ] + Seq::new(ws.len(), |i: int| FreeCall {
        owner: ws[i].name.owner,
        target: string_alloc(ws[i].name.value),
    }) + seq![
        (FreeCall { owner: root.value.systems.owner, target: slice_alloc(root.value.systems.value) }),
        (FreeCall { owner: root.owner, target: root_alloc(root_ptr) }),
    ]
}

/// The allocations a plan releases, in order.
pub open spec fn plan_targets(plan: Seq<FreeCall>) -> Seq<Alloc> {
    Seq::new(plan.len(), |i: int| plan[i].target)
}

/// Every call of the plan is owed to the guest's allocator.
pub open spec fn plan_all_guest(plan: Seq<FreeCall>) -> bool {
    forall|i: int| 0 <= i < plan.len() ==> (#[trigger] plan[i]).owner == Owner::Guest
}

/// Computes the free plan of a registration tree.  `systems` must be the
/// decoded contents of the tree's systems slice.
pub fn free_plan(
    root: &PluginBox<PluginRegister>,
    systems: &Vec<PluginSystem>,
    root_ptr: u32,
) -> (plan: Vec<FreeCall>)
    requires
        systems@.len() == root.value.systems.value.len,
        SYSTEM_SIZE * root.value.systems.value.len <= u32::MAX,
    ensures
        plan@ == plan_of(*root, systems@, root_ptr),
{
    let mut plan: Vec<FreeCall> = Vec::new();
    plan.push(
        FreeCall {
            owner: root.value.name.owner,
            target: Alloc {
                ptr: root.value.name.value.ptr,
                size: root.value.name.value.len,
                align: STRING_ALIGN,
            },
        },
    );
    plan.push(
        FreeCall {
            owner: root.value.version.owner,
            target: Alloc {
                ptr: root.value.version.value.ptr,
                size: root.value.version.value.len,
                align: STRING_ALIGN,
            },
        },
    );
    let mut i: usize = 0;
    while i < systems.len()
        invariant
            i <= systems@.len(),
            plan@.len() == 2 + i,
            forall|j: int|
                0 <= j < i ==> plan@[2 + j] == (FreeCall {
                    owner: systems@[j].name.owner,
                    target: string_alloc(systems@[j].name.value),
                }),
            plan@[0] == (FreeCall {
                owner: root.value.name.owner,
                target: string_alloc(root.value.name.value),
            }),
            plan@[1] == (FreeCall {
                owner: root.value.version.owner,
                target: string_alloc(root.value.version.value),
            }),
        decreases systems@.len() - i,
    {
        let s = systems[i];
        plan.push(
            FreeCall {
                owner: s.name.owner,
                target: Alloc { ptr: s.name.value.ptr, size: s.name.value.len, align: STRING_ALIGN },
            },
        );
        i = i + 1;
    }
    plan.push(
        FreeCall {
            owner: root.value.systems.owner,
            target: Alloc {
                ptr: root.value.systems.value.elements,
                size: SYSTEM_SIZE * root.value.systems.value.len,
                align: SYSTEM_ALIGN,
            },
        },
    );
    plan.push(
        FreeCall {
            owner: root.owner,
            target: Alloc { ptr: root_ptr, size: REGISTER_SIZE, align: REGISTER_ALIGN },
        },
    );
    proof {
        assert(plan@ =~= plan_of(*root, systems@, root_ptr));
    }
    plan
}

/// The free plan issues one call per owned allocation: the two strings, one
/// per system name, the slice buffer, and the root.
pub proof fn lemma_plan_len(root: PluginBox<PluginRegister>, ws: Seq<PluginSystem>, root_ptr: u32)
    ensures
        plan_of(root, ws, root_ptr).len() == ws.len() + 4,
{
}

/// Order invariant of the free protocol: every child allocation is released
/// strictly before the allocation that holds it.  The name and version
/// strings and the slice buffer come before the root that references them,
/// and every system's name string comes before the slice buffer that holds
/// its header.
pub proof fn lemma_plan_children_before_parents(
    root: PluginBox<PluginRegister>,
    ws: Seq<PluginSystem>,
    root_ptr: u32,
)
    ensures
        ({
            let plan = plan_of(root, ws, root_ptr);
            let root_at = plan.len() - 1;
            let slice_at = plan.len() - 2;
            &&& plan[root_at] == (FreeCall { owner: root.owner, target: root_alloc(root_ptr) })
            &&& plan[slice_at] == (FreeCall {
                owner: root.value.systems.owner,
                target: slice_alloc(root.value.systems.value),
            })
            &&& plan[0] == (FreeCall {
                owner: root.value.name.owner,
                target: string_alloc(root.value.name.value),
            })
            &&& plan[1] == (FreeCall {
                owner: root.value.version.owner,
                target: string_alloc(root.value.version.value),
            })
            &&& 0 < root_at && 1 < root_at && slice_at < root_at
            &&& forall|i: int|
                0 <= i < ws.len() ==> plan[2 + i] == (FreeCall {
                    owner: ws[i].name.owner,
                    target: string_alloc(ws[i].name.value),
                }) && 2 + i < slice_at
        }),
{
}

/// The first index whose allocation starts at `ptr`, or `live.len()` if
/// none does.
pub open spec fn find_ptr(live: Seq<Alloc>, ptr: u32) -> int
    decreases live.len(),
{
    if live.len() == 0 {
        0
    } else if live[0].ptr == ptr {
        0
    } else {
        1 + find_ptr(live.skip(1), ptr)
    }
}

/// `find_ptr` returns an index in range exactly when a match exists, that
/// index matches, and nothing before it does.
pub proof fn lemma_find_ptr(live: Seq<Alloc>, ptr: u32)
    ensures
        0 <= find_ptr(live, ptr) <= live.len(),
        find_ptr(live, ptr) < live.len() ==> live[find_ptr(live, ptr)].ptr == ptr,
        forall|j: int| 0 <= j < find_ptr(live, ptr) ==> (#[trigger] live[j]).ptr != ptr,
        (exists|j: int| 0 <= j < live.len() && (#[trigger] live[j]).ptr == ptr) ==> find_ptr(
            live,
            ptr,
        ) < live.len(),
    decreases live.len(),
{
    if live.len() == 0 {
    } else if live[0].ptr == ptr {
    } else {
        lemma_find_ptr(live.skip(1), ptr);
        assert(forall|j: int|
            1 <= j < live.len() ==> (#[trigger] live[j]) == live.skip(1)[j - 1]);
    }
}

/// With distinct addresses, `find_ptr` finds exactly the index that holds
/// the address.
pub proof fn lemma_find_ptr_unique(live: Seq<Alloc>, j: int)
    requires
        distinct_ptrs(live),
        0 <= j < live.len(),
    ensures
        find_ptr(live, live[j].ptr) == j,
{
    let ptr = live[j].ptr;
    lemma_find_ptr(live, ptr);
    let f = find_ptr(live, ptr);
    if f < j {
        assert(live[f].ptr == live[j].ptr);
        assert(false);
    } else if f > j {
        assert(live[j].ptr != ptr);
        assert(false);
    }
}

/// What applying a free plan to a live set does, one call at a time: the
/// remaining live set, and the position of the first failing call if any.
/// A call succeeds exactly when its (pointer, size, align) triple matches a
/// live allocation; the first failure stops the protocol.
pub open spec fn spec_apply(live: Seq<Alloc>, plan: Seq<FreeCall>) -> (Seq<Alloc>, Option<int>)
    decreases plan.len(),
{
    if plan.len() == 0 {
        (live, None::<int>)
    } else {
        let a = plan[0].target;
        let i = find_ptr(live, a.ptr);
        if i < live.len() && live[i] == a {
            let rec = spec_apply(live.remove(i), plan.skip(1));
            (
                rec.0,
                match rec.1 {
                    None => None::<int>,
                    Some(k) => Some(k + 1),
                },
            )
        } else {
            (live, Some(0int))
        }
    }
}

/// Removing an element keeps the remaining addresses distinct.
pub proof fn lemma_remove_distinct(live: Seq<Alloc>, i: int)
    requires
        distinct_ptrs(live),
        0 <= i < live.len(),
    ensures
        distinct_ptrs(live.remove(i)),
{
    let r = live.remove(i);
    assert forall|a: int, b: int| 0 <= a < b < r.len() implies (#[trigger] r[a]).ptr != (
    #[trigger] r[b]).ptr by {
        let a0 = if a < i {
            a
        } else {
            a + 1
        };
        let b0 = if b < i {
            b
        } else {
            b + 1
        };
        assert(r[a] == live[a0]);
        assert(r[b] == live[b0]);
    }
}

/// Exactly-once free: if the live set consists of `rest` followed by
/// precisely the plan's allocations, applying the plan succeeds, issues one
/// call per allocation, and leaves exactly `rest` live.
pub proof fn lemma_apply_plan_exact(rest: Seq<Alloc>, live: Seq<Alloc>, plan: Seq<FreeCall>)
    requires
        distinct_ptrs(live),
        live == rest + plan_targets(plan),
    ensures
        spec_apply(live, plan) == (rest, None::<int>),
    decreases plan.len(),
{
    if plan.len() == 0 {
        assert(live =~= rest);
    } else {
        let a = plan[0].target;
        let at = rest.len() as int;
        assert(live[at] == plan_targets(plan)[0]);
        assert(live[at] == a);
        lemma_find_ptr_unique(live, at);
        assert(find_ptr(live, a.ptr) == at);
        lemma_remove_distinct(live, at);
        let live2 = live.remove(at);
        assert(live2 =~= rest + plan_targets(plan.skip(1))) by {
            assert(plan_targets(plan.skip(1)).len() == plan.len() - 1);
            assert forall|k: int| 0 <= k < live2.len() implies live2[k] == (rest + plan_targets(
                plan.skip(1),
            ))[k] by {
                if k < at {
                    assert(live2[k] == live[k]);
                } else {
                    assert(live2[k] == live[k + 1]);
                    assert(live[k + 1] == plan_targets(plan)[k + 1 - at]);
                    assert(plan_targets(plan.skip(1))[k - at] == plan.skip(1)[k - at].target);
                }
            }
        }
        lemma_apply_plan_exact(rest, live2, plan.skip(1));
    }
}

/// Exactly-once free at the protocol level: when a well-formed heap's live
/// allocations are `rest` followed by precisely the allocations of a
/// registration tree's plan — exactly how building the tree leaves the heap
/// — applying the plan succeeds, issues one call per owned allocation
/// (`ws.len() + 4` of them), each with the allocation's original (pointer,
/// size, align), and leaves exactly `rest` live: nothing freed twice,
/// nothing leaked.
pub proof fn lemma_registration_freed_exactly_once(
    h: GuestHeap,
    rest: Seq<Alloc>,
    root: PluginBox<PluginRegister>,
    ws: Seq<PluginSystem>,
    root_ptr: u32,
)
    requires
        h.wf(),
        h.live@ == rest + plan_targets(plan_of(root, ws, root_ptr)),
    ensures
        spec_apply(h.live@, plan_of(root, ws, root_ptr)) == (rest, None::<int>),
        plan_of(root, ws, root_ptr).len() == ws.len() + 4,
{
    lemma_wf_distinct(&h);
    lemma_apply_plan_exact(rest, h.live@, plan_of(root, ws, root_ptr));
}

/// Applies a free plan against the guest heap, stopping at the first
/// failure and reporting its position.  The plan must consist of guest-side
/// calls; host-owned allocations are not released through the guest's free
/// export.
pub fn apply_free_plan(heap: &mut GuestHeap, plan: &Vec<FreeCall>) -> (r: Result<
    (),
    ProtocolError,
>)
    requires
        old(heap).wf(),
        plan_all_guest(plan@),
    ensures
        final(heap).wf(),
        final(heap).mem@ == old(heap).mem@,
        ({
            let outcome = spec_apply(old(heap).live@, plan@);
            &&& final(heap).live@ == outcome.0
            &&& match outcome.1 {
                None => r == Ok::<(), ProtocolError>(()),
                Some(k) => r == Err::<(), ProtocolError>(
                    ProtocolError::DeallocationFailed { index: k as usize },
                ),
            }
        }),
{
    let mut i: usize = 0;
    proof {
        assert(plan@.skip(0) =~= plan@);
    }
    while i < plan.len()
        invariant
            old(heap).wf(),
            heap.wf(),
            heap.mem@ == old(heap).mem@,
            i <= plan@.len(),
            ({
                let now = spec_apply(heap.live@, plan@.skip(i as int));
                let start = spec_apply(old(heap).live@, plan@);
                &&& start.0 == now.0
                &&& match now.1 {
                    None => start.1 == None::<int>,
                    Some(k) => start.1 == Some(k + i),
                }
            }),
        decreases plan@.len() - i,
    {
        let c = plan[i];
        let ghost live_before = heap.live@;
        let res = heap.free(c.target.ptr, c.target.size, c.target.align);
        proof {
            assert(plan@.skip(i as int)[0] == plan@[i as int]);
            assert(plan@.skip(i as int).skip(1) =~= plan@.skip(i + 1));
        }
        match res {
            Ok(()) => {
                proof {
                    let a = c.target;
                    let w = choose|w: int|
                        0 <= w < live_before.len() && live_before[w] == (Alloc {
                            ptr: a.ptr,
                            size: a.size,
                            align: a.align,
                        }) && heap.live@ == live_before.remove(w);
                    assert(live_before[w] == a);
                    assert(distinct_ptrs(live_before));
                    lemma_find_ptr_unique(live_before, w);
                    assert(find_ptr(live_before, a.ptr) == w);
                }
                i = i + 1;
            },
            Err(_) => {
                proof {
                    let a = c.target;
                    lemma_find_ptr(live_before, a.ptr);
                    let f = find_ptr(live_before, a.ptr);
                    if f < live_before.len() && live_before[f] == a {
                        assert(false);
                    }
                }
                return Err(ProtocolError::DeallocationFailed { index: i });
            },
        }
    }
    proof {
        assert(plan@.skip(plan@.len() as int) =~= Seq::<FreeCall>::empty());
    }
    Ok(())
}

} // verus!
