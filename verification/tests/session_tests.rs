//! The per-module lifecycle: setup installs exactly one registration, a
//! second setup is rejected while one is live, and freeing goes through
//! taking the registration out of the session first.

use feather_api_ffi::ProtocolError;
use feather_api_ffi::encode::{SystemDef, encode_registration};
use feather_api_ffi::heap::GuestHeap;
use feather_api_ffi::session::{ModuleSession, Registration, free_registration};
use feather_api_ffi::wire::SystemStage;

fn fresh_registration(heap: &mut GuestHeap) -> Registration {
    let defs = vec![SystemDef { stage: SystemStage::Tick, name: b"tick".to_vec() }];
    let (root, root_ptr, systems) =
        encode_registration(heap, &b"Plugin".to_vec(), &b"1.0".to_vec(), &defs).unwrap();
    Registration { root, root_ptr, systems }
}

#[test]
fn install_registers_and_second_setup_is_rejected() {
    let mut heap = GuestHeap::new();
    let mut session = ModuleSession::new();
    assert!(!session.registered());
    assert_eq!(session.begin_setup(), Ok(()));

    let reg = fresh_registration(&mut heap);
    assert!(session.install(reg).is_ok());
    assert!(session.registered());

    assert_eq!(session.begin_setup(), Err(ProtocolError::DoubleSetup));
}

#[test]
fn install_while_registered_hands_the_registration_back() {
    let mut heap = GuestHeap::new();
    let mut session = ModuleSession::new();
    let first = fresh_registration(&mut heap);
    let first_root_ptr = first.root_ptr;
    assert!(session.install(first).is_ok());

    let second = fresh_registration(&mut heap);
    let second_root_ptr = second.root_ptr;
    match session.install(second) {
        Err((e, back)) => {
            assert_eq!(e, ProtocolError::DoubleSetup);
            assert_eq!(back.root_ptr, second_root_ptr);
        },
        Ok(()) => panic!("second install must be rejected"),
    }
    // The first registration is still the live one.
    assert!(session.registered());
    let taken = session.take_registration().unwrap();
    assert_eq!(taken.root_ptr, first_root_ptr);
}

#[test]
fn full_lifecycle_frees_exactly_what_setup_allocated() {
    let mut heap = GuestHeap::new();
    let mut session = ModuleSession::new();

    let reg = fresh_registration(&mut heap);
    let allocated = heap.live.len();
    assert_eq!(allocated, 5);
    assert!(session.install(reg).is_ok());

    // Teardown: remove from dispatch first, then free; ownership of the
    // tree moves into free_registration, so it cannot be freed again.
    let taken = session.take_registration().unwrap();
    assert!(!session.registered());
    assert_eq!(free_registration(&mut heap, taken), Ok(()));
    assert!(heap.live.is_empty());

    // The session is back to Unregistered: setup is allowed again.
    assert_eq!(session.begin_setup(), Ok(()));
    let again = fresh_registration(&mut heap);
    assert!(session.install(again).is_ok());
}

#[test]
fn take_on_unregistered_yields_nothing() {
    let mut session = ModuleSession::new();
    assert!(session.take_registration().is_none());
    assert!(!session.registered());
}

#[test]
fn systems_at_filters_by_stage_in_order() {
    let mut heap = GuestHeap::new();
    let defs = vec![
        SystemDef { stage: SystemStage::Tick, name: b"first_tick".to_vec() },
        SystemDef { stage: SystemStage::Pre, name: b"warm_up".to_vec() },
        SystemDef { stage: SystemStage::Tick, name: b"second_tick".to_vec() },
    ];
    let (root, root_ptr, systems) =
        encode_registration(&mut heap, &b"P".to_vec(), &b"1".to_vec(), &defs).unwrap();
    let reg = Registration { root, root_ptr, systems: systems.clone() };

    let ticks = reg.systems_at(SystemStage::Tick);
    assert_eq!(ticks.len(), 2);
    assert_eq!(ticks[0], systems[0]);
    assert_eq!(ticks[1], systems[2]);

    let pre = reg.systems_at(SystemStage::Pre);
    assert_eq!(pre.len(), 1);
    assert_eq!(pre[0], systems[1]);

    assert!(reg.systems_at(SystemStage::CleanUp).is_empty());
}
