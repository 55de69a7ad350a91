//! Round trips: encoding a string, a slice, or a whole registration into
//! its wire form and decoding it back yields the original bytes and
//! elements, for all lengths including zero.

use feather_api_ffi::decode::{decode_registration, decode_system, read_string};
use feather_api_ffi::encode::{SystemDef, alloc_string, alloc_systems, encode_registration};
use feather_api_ffi::heap::GuestHeap;
use feather_api_ffi::wire::{Owner, PluginBox, PluginString, PluginSystem, SystemStage};

#[test]
fn string_round_trip() {
    let mut heap = GuestHeap::new();
    let bytes: Vec<u8> = b"hello across the boundary".to_vec();
    let b = alloc_string(&mut heap, &bytes).unwrap();
    assert_eq!(b.owner, Owner::Guest);
    assert_eq!(b.value.len as usize, bytes.len());
    assert_eq!(read_string(&heap.mem, &b.value), Some(bytes));
}

#[test]
fn empty_string_round_trip() {
    let mut heap = GuestHeap::new();
    let bytes: Vec<u8> = Vec::new();
    let b = alloc_string(&mut heap, &bytes).unwrap();
    assert_eq!(b.value.len, 0);
    assert_eq!(read_string(&heap.mem, &b.value), Some(Vec::new()));
}

#[test]
fn two_strings_do_not_disturb_each_other() {
    let mut heap = GuestHeap::new();
    let first: Vec<u8> = b"first".to_vec();
    let second: Vec<u8> = b"second".to_vec();
    let a = alloc_string(&mut heap, &first).unwrap();
    let b = alloc_string(&mut heap, &second).unwrap();
    assert_eq!(read_string(&heap.mem, &a.value), Some(first));
    assert_eq!(read_string(&heap.mem, &b.value), Some(second));
}

#[test]
fn systems_slice_round_trip() {
    let mut heap = GuestHeap::new();
    let name = alloc_string(&mut heap, &b"on_tick".to_vec()).unwrap();
    let systems = vec![PluginSystem { stage: SystemStage::Tick, name }];
    let slice = alloc_systems(&mut heap, &systems).unwrap();
    assert_eq!(slice.value.len, 1);
    let decoded = decode_system(&heap.mem, slice.value.elements).unwrap();
    assert_eq!(decoded, systems[0]);
    assert_eq!(
        read_string(&heap.mem, &decoded.name.value),
        Some(b"on_tick".to_vec())
    );
}

#[test]
fn registration_round_trip() {
    let mut heap = GuestHeap::new();
    let defs = vec![
        SystemDef { stage: SystemStage::Pre, name: b"warm_up".to_vec() },
        SystemDef { stage: SystemStage::CleanUp, name: b"tear_down".to_vec() },
    ];
    let (root, root_ptr, ws) = encode_registration(
        &mut heap,
        &b"Round Trip Plugin".to_vec(),
        &b"2.4.1".to_vec(),
        &defs,
    )
    .unwrap();

    let (decoded_root, decoded_ws) = decode_registration(&heap.mem, root_ptr).unwrap();
    assert_eq!(decoded_root, root);
    assert_eq!(decoded_ws, ws);
    assert_eq!(
        read_string(&heap.mem, &decoded_root.value.name.value),
        Some(b"Round Trip Plugin".to_vec())
    );
    assert_eq!(
        read_string(&heap.mem, &decoded_root.value.version.value),
        Some(b"2.4.1".to_vec())
    );
    assert_eq!(decoded_ws.len(), 2);
    assert_eq!(decoded_ws[0].stage, SystemStage::Pre);
    assert_eq!(
        read_string(&heap.mem, &decoded_ws[0].name.value),
        Some(b"warm_up".to_vec())
    );
    assert_eq!(decoded_ws[1].stage, SystemStage::CleanUp);
    assert_eq!(
        read_string(&heap.mem, &decoded_ws[1].name.value),
        Some(b"tear_down".to_vec())
    );
}

#[test]
fn registration_round_trip_with_no_systems() {
    let mut heap = GuestHeap::new();
    let (root, root_ptr, ws) =
        encode_registration(&mut heap, &b"Empty".to_vec(), &b"0.0.0".to_vec(), &Vec::new())
            .unwrap();
    assert!(ws.is_empty());
    let (decoded_root, decoded_ws) = decode_registration(&heap.mem, root_ptr).unwrap();
    assert_eq!(decoded_root, root);
    assert!(decoded_ws.is_empty());
}

#[test]
fn registration_with_empty_names_round_trips() {
    let mut heap = GuestHeap::new();
    let defs = vec![SystemDef { stage: SystemStage::Tick, name: Vec::new() }];
    let (root, root_ptr, ws) =
        encode_registration(&mut heap, &Vec::new(), &Vec::new(), &defs).unwrap();
    assert_eq!(root.value.name.value.len, 0);
    let (decoded_root, decoded_ws) = decode_registration(&heap.mem, root_ptr).unwrap();
    assert_eq!(decoded_root, root);
    assert_eq!(decoded_ws, ws);
    assert_eq!(read_string(&heap.mem, &decoded_ws[0].name.value), Some(Vec::new()));
}

#[test]
fn decode_rejects_header_out_of_range() {
    let mem: Vec<u8> = vec![0; 16];
    assert!(decode_registration(&mem, 0).is_none());
}

#[test]
fn decode_rejects_invalid_stage_byte() {
    // A system element whose stage byte is 9 must not decode.
    let mut mem: Vec<u8> = vec![0; 12];
    mem[0] = 9;
    assert_eq!(decode_system(&mem, 0), None);
}

#[test]
fn decoded_values_are_guest_owned_at_every_level() {
    let mut heap = GuestHeap::new();
    let defs = vec![SystemDef { stage: SystemStage::SendPackets, name: b"send".to_vec() }];
    let (_, root_ptr, _) =
        encode_registration(&mut heap, &b"P".to_vec(), &b"1".to_vec(), &defs).unwrap();
    let (root, ws) = decode_registration(&heap.mem, root_ptr).unwrap();
    assert_eq!(root.owner, Owner::Guest);
    assert_eq!(root.value.name.owner, Owner::Guest);
    assert_eq!(root.value.version.owner, Owner::Guest);
    assert_eq!(root.value.systems.owner, Owner::Guest);
    assert_eq!(ws[0].name.owner, Owner::Guest);
}

#[test]
fn borrowed_strings_read_like_owned_ones() {
    let mut heap = GuestHeap::new();
    let owned: PluginBox<PluginString> = alloc_string(&mut heap, &b"shared".to_vec()).unwrap();
    let borrowed = PluginString::from_borrow(owned.value.ptr, owned.value.len);
    assert_eq!(read_string(&heap.mem, &borrowed.value), Some(b"shared".to_vec()));
}
