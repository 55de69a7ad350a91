//! The host side of a live guest instance: reading wire values out of the
//! guest's linear memory and releasing guest-owned allocations through its
//! exported free function.
//!
//! The guest runtime is an outside collaborator.  Each call into it sits in
//! one small trusted wrapper; everything around the calls — decoding, the
//! free plan, the session gating — is the verified logic of this crate.
//! The guest's exports are used with plain 32-bit arguments: `setup` takes
//! nothing and returns the root offset, `free` takes (pointer, size,
//! align).

use vstd::prelude::*;

use crate::ProtocolError;
use crate::decode::{decode_register, decode_systems};
use crate::freeing::{FreeCall, free_plan, plan_all_guest, plan_of};
use crate::session::{ModuleSession, Registration};
use crate::wire::{
    Owner, PluginBox, PluginRegister, PluginString, PluginSystem, REGISTER_ALIGN, REGISTER_SIZE,
    SYSTEM_SIZE,
};

verus! {

#[verifier::external_type_specification]
#[verifier::external_body]
/// The guest's linear memory, as wasmer exposes it.
pub struct ExMemory(wasmer::Memory);

#[verifier::external_type_specification]
#[verifier::external_body]
#[verifier::reject_recursive_types(Args)]
#[verifier::reject_recursive_types(Rets)]
/// A typed handle to a function the guest exports.
pub struct ExNativeFunc<Args, Rets>(wasmer::NativeFunc<Args, Rets>);

#[verifier::external_type_specification]
#[verifier::external_body]
/// The error a trapping guest call reports.
pub struct ExRuntimeError(wasmer::RuntimeError);

/// Relies on wasmer::WasmPtr::<u8, Array>::deref: a bounds-checked view of
/// `len` bytes of guest memory starting at `ptr`, `None` when the range is
/// outside the memory; each cell is read into a plain byte.
#[verifier::external_body]
fn read_guest_bytes(mem: &wasmer::Memory, ptr: u32, len: u32) -> (r: Option<Vec<u8>>)
    ensures
        r matches Some(v) ==> v@.len() == len,
{
    let cells = wasmer::WasmPtr::<u8, wasmer::Array>::new(ptr).deref(mem, 0, len)?;
    Some(cells.iter().map(|c| c.get()).collect())
}

/// Relies on wasmer::NativeFunc::call: invokes the guest's exported free
/// with (pointer, size, align); the guest may trap.
#[verifier::external_body]
fn call_guest_free(
    free_func: &wasmer::NativeFunc<(u32, u32, u32), ()>,
    ptr: u32,
    size: u32,
    align: u32,
) -> (r: Result<(), wasmer::RuntimeError>) {
    free_func.call(ptr, size, align)
}

/// Relies on wasmer::NativeFunc::call: invokes the guest's exported setup,
/// which returns the offset of the registration it allocated; the guest may
/// trap.
#[verifier::external_body]
fn call_guest_setup(setup_func: &wasmer::NativeFunc<(), u32>) -> (r: Result<
    u32,
    wasmer::RuntimeError,
>) {
    setup_func.call()
}

impl PluginString {
    /// The string's bytes read out of guest memory and validated as UTF-8.
    ///
    /// Relies on wasmer::WasmPtr::<u8, Array>::get_utf8_string: a
    /// bounds-checked read of `len` bytes, `None` when the range is outside
    /// the memory or the bytes are not valid UTF-8.
    #[verifier::external_body]
    pub fn to_string(&self, memory: &wasmer::Memory) -> (r: Option<String>) {
        wasmer::WasmPtr::<u8, wasmer::Array>::new(self.ptr).get_utf8_string(memory, self.len)
    }
}

/// Reads a complete registration tree out of guest memory: the root header
/// at `root_ptr`, then every element of its systems slice.  `None` when a
/// range falls outside the memory, a stage byte is invalid, or the slice
/// byte size would not fit the 32-bit address space.  Everything read is
/// guest-owned: the guest allocated the whole tree at setup.
pub fn read_registration(mem: &wasmer::Memory, root_ptr: u32) -> (r: Option<
    (PluginBox<PluginRegister>, Vec<PluginSystem>),
>)
    ensures
        match r {
            Some((rt, ws)) => {
                &&& rt.owner == Owner::Guest
                &&& ws@.len() == rt.value.systems.value.len
                &&& SYSTEM_SIZE * rt.value.systems.value.len <= u32::MAX
                &&& plan_all_guest(plan_of(rt, ws@, root_ptr))
            },
            None => true,
        },
{
    let hdr = match read_guest_bytes(mem, root_ptr, REGISTER_SIZE) {
        None => {
            return None;
        },
        Some(v) => v,
    };
    let reg = match decode_register(&hdr, 0) {
        None => {
            return None;
        },
        Some(reg) => reg,
    };
    let n = reg.systems.value.len;
    if n > u32::MAX / SYSTEM_SIZE {
        return None;
    }
    let buf = match read_guest_bytes(mem, reg.systems.value.elements, SYSTEM_SIZE * n) {
        None => {
            return None;
        },
        Some(v) => v,
    };
    let ws = match decode_systems(&buf, 0, n) {
        None => {
            return None;
        },
        Some(ws) => ws,
    };
    let rt = PluginBox { owner: Owner::Guest, value: reg };
    proof {
        let plan = plan_of(rt, ws@, root_ptr);
        assert forall|i: int| 0 <= i < plan.len() implies (#[trigger] plan[i]).owner
            == Owner::Guest by {}
    }
    Some((rt, ws))
}

/// Issues every call of a free plan through the guest's exported free, in
/// plan order — children strictly before parents — stopping at the first
/// call the guest fails and reporting its position.
pub fn run_free_plan(
    free_func: &wasmer::NativeFunc<(u32, u32, u32), ()>,
    plan: &Vec<FreeCall>,
) -> (r: Result<(), ProtocolError>)
    requires
        plan_all_guest(plan@),
    ensures
        match r {
            Ok(()) => true,
            Err(e) => {
                &&& e matches ProtocolError::DeallocationFailed { index }
                &&& index < plan@.len()
            },
        },
{
    let mut i: usize = 0;
    while i < plan.len()
        invariant
            i <= plan@.len(),
        decreases plan@.len() - i,
    {
        let c = plan[i];
        match call_guest_free(free_func, c.target.ptr, c.target.size, c.target.align) {
            Ok(()) => {
                i = i + 1;
            },
            Err(_) => {
                return Err(ProtocolError::DeallocationFailed { index: i });
            },
        }
    }
    Ok(())
}

/// Frees a complete registration tree through the guest's exported free:
/// computes the plan and issues it children-first.  Consumes the
/// registration, so the same tree can never be freed twice.
pub fn free_registration_via_guest(
    reg: Registration,
    free_func: &wasmer::NativeFunc<(u32, u32, u32), ()>,
) -> (r: Result<(), ProtocolError>)
    requires
        reg.wf(),
        plan_all_guest(reg.plan()),
    ensures
        match r {
            Ok(()) => true,
            Err(e) => {
                &&& e matches ProtocolError::DeallocationFailed { index }
                &&& index < reg.plan().len()
            },
        },
{
    let plan = free_plan(&reg.root, &reg.systems, reg.root_ptr);
    run_free_plan(free_func, &plan)
}

impl PluginBox<PluginRegister> {
    /// Frees only the root block of an encoded registration through the
    /// guest's exported free, presenting the root's exact layout.
    pub fn free_ptr_to(
        root_ptr: u32,
        free_func: &wasmer::NativeFunc<(u32, u32, u32), ()>,
    ) -> (r: Result<(), ProtocolError>)
        ensures
            match r {
                Ok(()) => true,
                Err(e) => e == (ProtocolError::DeallocationFailed { index: 0 }),
            },
    {
        match call_guest_free(free_func, root_ptr, REGISTER_SIZE, REGISTER_ALIGN) {
            Ok(()) => Ok(()),
            Err(_) => Err(ProtocolError::DeallocationFailed { index: 0 }),
        }
    }
}

/// Performs one setup against a live guest instance.  While a registration
/// is already live this fails with `DoubleSetup` before any guest call is
/// made; otherwise it invokes the guest's setup export, reads the
/// registration tree back out of guest memory, and installs it.  On any
/// failure the session is left exactly as it was.
pub fn setup_module(
    session: &mut ModuleSession,
    setup_func: &wasmer::NativeFunc<(), u32>,
    mem: &wasmer::Memory,
) -> (r: Result<(), ProtocolError>)
    requires
        old(session).wf(),
    ensures
        final(session).wf(),
        *old(session) is Registered ==> r == Err::<(), ProtocolError>(ProtocolError::DoubleSetup)
            && *final(session) == *old(session),
        r == Err::<(), ProtocolError>(ProtocolError::DoubleSetup) ==> *old(session) is Registered,
        r is Ok ==> *final(session) is Registered,
        r is Err ==> *final(session) == *old(session),
{
    match session.begin_setup() {
        Err(e) => {
            return Err(e);
        },
        Ok(()) => {},
    }
    let root_ptr = match call_guest_setup(setup_func) {
        Err(_) => {
            return Err(ProtocolError::InstanceFaulted);
        },
        Ok(p) => p,
    };
    let (rt, ws) = match read_registration(mem, root_ptr) {
        None => {
            return Err(ProtocolError::AddressOutOfRange);
        },
        Some(x) => x,
    };
    let reg = Registration { root: rt, root_ptr, systems: ws };
    match session.install(reg) {
        Ok(()) => Ok(()),
        Err((_, _)) => {
            proof {
                assert(false);
            }
            Err(ProtocolError::DoubleSetup)
        },
    }
}

/// Tears down the live registration, if any: takes it out of the session —
/// so no dispatch can still reach it — and then frees the whole tree
/// through the guest's exported free, children strictly before parents.
/// With nothing registered there is nothing to free.
pub fn teardown_module(
    session: &mut ModuleSession,
    free_func: &wasmer::NativeFunc<(u32, u32, u32), ()>,
) -> (r: Result<(), ProtocolError>)
    requires
        old(session).wf(),
    ensures
        final(session).wf(),
        *final(session) is Unregistered,
        *old(session) is Unregistered ==> r is Ok,
        match r {
            Ok(()) => true,
            Err(e) => e matches ProtocolError::DeallocationFailed { .. },
        },
{
    match session.take_registration() {
        None => Ok(()),
        Some(reg) => free_registration_via_guest(reg, free_func),
    }
}

} // verus!
