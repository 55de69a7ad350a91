//! The free protocol: exactly one deallocation call per owned allocation,
//! each with the original (pointer, size, align), children strictly before
//! parents, and the first failure stopping the run.

use feather_api_ffi::ProtocolError;
use feather_api_ffi::encode::{SystemDef, encode_registration};
use feather_api_ffi::freeing::{FreeCall, apply_free_plan, free_plan};
use feather_api_ffi::heap::{Alloc, GuestHeap};
use feather_api_ffi::wire::{Owner, SystemStage};

fn call(ptr: u32, size: u32, align: u32) -> FreeCall {
    FreeCall { owner: Owner::Guest, target: Alloc { ptr, size, align } }
}

#[test]
fn one_system_frees_five_allocations_children_first() {
    // Registration with name "Testing Plugin", version "1.0.0" and one
    // system {Tick, "test_system"}: three leaf strings, then the slice
    // buffer, then the root - five calls in dependency order.
    let mut heap = GuestHeap::new();
    let defs = vec![SystemDef { stage: SystemStage::Tick, name: b"test_system".to_vec() }];
    let (root, root_ptr, ws) = encode_registration(
        &mut heap,
        &b"Testing Plugin".to_vec(),
        &b"1.0.0".to_vec(),
        &defs,
    )
    .unwrap();

    let plan = free_plan(&root, &ws, root_ptr);
    assert_eq!(
        plan,
        vec![
            call(0, 14, 1),   // name bytes
            call(14, 5, 1),   // version bytes
            call(19, 11, 1),  // the system's name bytes
            call(32, 12, 4),  // the slice buffer, after its element's child
            call(44, 24, 4),  // the root block, last
        ]
    );

    assert_eq!(apply_free_plan(&mut heap, &plan), Ok(()));
    assert!(heap.live.is_empty());
}

#[test]
fn no_systems_frees_four_allocations_and_touches_no_element() {
    // Registration with an empty systems slice: the two header strings, the
    // empty slice buffer (size 0), and the root - four calls, none for any
    // element.
    let mut heap = GuestHeap::new();
    let (root, root_ptr, ws) = encode_registration(
        &mut heap,
        &b"Testing Plugin".to_vec(),
        &b"1.0.0".to_vec(),
        &Vec::new(),
    )
    .unwrap();

    let plan = free_plan(&root, &ws, root_ptr);
    assert_eq!(
        plan,
        vec![
            call(0, 14, 1),  // name bytes
            call(14, 5, 1),  // version bytes
            call(20, 0, 4),  // the empty slice buffer, size 0
            call(24, 24, 4), // the root block, last
        ]
    );

    assert_eq!(apply_free_plan(&mut heap, &plan), Ok(()));
    assert!(heap.live.is_empty());
}

#[test]
fn plan_length_is_systems_plus_four() {
    let mut heap = GuestHeap::new();
    let defs = vec![
        SystemDef { stage: SystemStage::Pre, name: b"a".to_vec() },
        SystemDef { stage: SystemStage::Tick, name: b"b".to_vec() },
        SystemDef { stage: SystemStage::CleanUp, name: b"c".to_vec() },
    ];
    let (root, root_ptr, ws) =
        encode_registration(&mut heap, &b"N".to_vec(), &b"V".to_vec(), &defs).unwrap();
    let plan = free_plan(&root, &ws, root_ptr);
    assert_eq!(plan.len(), defs.len() + 4);
    // Exactly-once: the plan releases every live allocation, and no more.
    assert_eq!(plan.len(), heap.live.len());
    assert_eq!(apply_free_plan(&mut heap, &plan), Ok(()));
    assert!(heap.live.is_empty());
}

#[test]
fn freeing_twice_fails_at_the_first_call() {
    let mut heap = GuestHeap::new();
    let (root, root_ptr, ws) =
        encode_registration(&mut heap, &b"N".to_vec(), &b"V".to_vec(), &Vec::new()).unwrap();
    let plan = free_plan(&root, &ws, root_ptr);
    assert_eq!(apply_free_plan(&mut heap, &plan), Ok(()));
    assert_eq!(
        apply_free_plan(&mut heap, &plan),
        Err(ProtocolError::DeallocationFailed { index: 0 })
    );
}

#[test]
fn failure_stops_the_run_and_reports_the_position() {
    let mut heap = GuestHeap::new();
    let (root, root_ptr, ws) =
        encode_registration(&mut heap, &b"N".to_vec(), &b"V".to_vec(), &Vec::new()).unwrap();
    let mut plan = free_plan(&root, &ws, root_ptr);
    // Corrupt the second call's size: its allocation no longer matches.
    plan[1].target.size += 1;
    let live_before = heap.live.len();
    assert_eq!(
        apply_free_plan(&mut heap, &plan),
        Err(ProtocolError::DeallocationFailed { index: 1 })
    );
    // The first call went through, nothing after the failure was freed.
    assert_eq!(heap.live.len(), live_before - 1);
}

#[test]
fn plan_calls_are_all_guest_owned() {
    let mut heap = GuestHeap::new();
    let defs = vec![SystemDef { stage: SystemStage::SendPackets, name: b"s".to_vec() }];
    let (root, root_ptr, ws) =
        encode_registration(&mut heap, &b"N".to_vec(), &b"V".to_vec(), &defs).unwrap();
    let plan = free_plan(&root, &ws, root_ptr);
    for c in &plan {
        assert_eq!(c.owner, Owner::Guest);
    }
}
