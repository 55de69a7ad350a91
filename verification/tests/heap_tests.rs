use feather_api_ffi::ProtocolError;
use feather_api_ffi::heap::{Alloc, GuestHeap};

#[test]
fn allocate_records_the_exact_triple() {
    let mut heap = GuestHeap::new();
    let p = heap.allocate(10, 1).unwrap();
    assert_eq!(p, 0);
    assert_eq!(heap.live, vec![Alloc { ptr: 0, size: 10, align: 1 }]);
    assert_eq!(heap.mem.len(), 10);
}

#[test]
fn allocate_respects_alignment() {
    let mut heap = GuestHeap::new();
    heap.allocate(3, 1).unwrap();
    let p = heap.allocate(8, 4).unwrap();
    assert_eq!(p % 4, 0);
    assert_eq!(p, 4);
}

#[test]
fn zero_sized_allocations_get_distinct_addresses() {
    let mut heap = GuestHeap::new();
    let a = heap.allocate(0, 1).unwrap();
    let b = heap.allocate(0, 1).unwrap();
    assert_ne!(a, b);
    assert_eq!(heap.live.len(), 2);
}

#[test]
fn written_bytes_read_back() {
    let mut heap = GuestHeap::new();
    let p = heap.allocate(5, 1).unwrap();
    let data: Vec<u8> = vec![10, 20, 30, 40, 50];
    heap.write_bytes(p, &data);
    assert_eq!(heap.read_bytes(p, 5), Some(data));
}

#[test]
fn out_of_range_read_is_rejected() {
    let heap = GuestHeap::new();
    assert_eq!(heap.read_bytes(0, 1), None);
}

#[test]
fn free_with_matching_triple_succeeds_once() {
    let mut heap = GuestHeap::new();
    let p = heap.allocate(10, 1).unwrap();
    assert_eq!(heap.free(p, 10, 1), Ok(()));
    assert!(heap.live.is_empty());
    // The allocation is gone: presenting the same triple again fails.
    assert_eq!(heap.free(p, 10, 1), Err(ProtocolError::LayoutMismatch));
}

#[test]
fn free_with_wrong_size_is_layout_mismatch() {
    let mut heap = GuestHeap::new();
    let p = heap.allocate(10, 1).unwrap();
    assert_eq!(heap.free(p, 9, 1), Err(ProtocolError::LayoutMismatch));
    assert_eq!(heap.live.len(), 1);
}

#[test]
fn free_with_wrong_align_is_layout_mismatch() {
    let mut heap = GuestHeap::new();
    let p = heap.allocate(8, 4).unwrap();
    assert_eq!(heap.free(p, 8, 1), Err(ProtocolError::LayoutMismatch));
}

#[test]
fn free_of_unknown_pointer_is_layout_mismatch() {
    let mut heap = GuestHeap::new();
    heap.allocate(8, 1).unwrap();
    assert_eq!(heap.free(1000, 8, 1), Err(ProtocolError::LayoutMismatch));
}
