//! Address translation: a bijection between native pointers and guest
//! offsets inside the region, and a rejection outside it.

use feather_api_ffi::ProtocolError;
use feather_api_ffi::translate::{MemoryRegion, to_guest_offset, to_native_ptr};

#[test]
fn native_pointer_round_trips_through_its_offset() {
    let region = MemoryRegion { base: 0x1000, size: 0x400 };
    let p: usize = 0x1234;
    let off = to_guest_offset(p, &region).unwrap();
    assert_eq!(off, 0x234);
    assert_eq!(to_native_ptr(off, &region), Ok(p));
}

#[test]
fn offset_round_trips_through_its_native_pointer() {
    let region = MemoryRegion { base: 0x8000, size: 0x100 };
    let off: u32 = 0xFF;
    let p = to_native_ptr(off, &region).unwrap();
    assert_eq!(p, 0x80FF);
    assert_eq!(to_guest_offset(p, &region), Ok(off));
}

#[test]
fn base_translates_to_offset_zero() {
    let region = MemoryRegion { base: 0x4000, size: 16 };
    assert_eq!(to_guest_offset(0x4000, &region), Ok(0));
    assert_eq!(to_native_ptr(0, &region), Ok(0x4000));
}

#[test]
fn pointer_below_the_region_is_out_of_range() {
    let region = MemoryRegion { base: 0x1000, size: 0x400 };
    assert_eq!(
        to_guest_offset(0xFFF, &region),
        Err(ProtocolError::AddressOutOfRange)
    );
}

#[test]
fn pointer_at_the_region_end_is_out_of_range() {
    let region = MemoryRegion { base: 0x1000, size: 0x400 };
    assert_eq!(
        to_guest_offset(0x1400, &region),
        Err(ProtocolError::AddressOutOfRange)
    );
}

#[test]
fn offset_at_the_region_size_is_out_of_range() {
    let region = MemoryRegion { base: 0x1000, size: 0x400 };
    assert_eq!(
        to_native_ptr(0x400, &region),
        Err(ProtocolError::AddressOutOfRange)
    );
}

#[test]
fn empty_region_rejects_everything() {
    let region = MemoryRegion { base: 0x1000, size: 0 };
    assert_eq!(
        to_guest_offset(0x1000, &region),
        Err(ProtocolError::AddressOutOfRange)
    );
    assert_eq!(to_native_ptr(0, &region), Err(ProtocolError::AddressOutOfRange));
}
