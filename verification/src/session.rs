//! The per-module lifecycle: *Unregistered* → setup → *Registered* → free →
//! *Unregistered*.
//!
//! The session owns the live registration.  A second setup while one is
//! live is rejected before any guest call is made, and freeing consumes the
//! registration value, so a freed tree cannot be referenced — or freed —
//! again.  The host must take the registration out of the session (removing
//! it from dispatch) before applying the free protocol, so no callback can
//! race the teardown.

use vstd::prelude::*;

use crate::ProtocolError;
use crate::freeing::{
    FreeCall, apply_free_plan, free_plan, plan_all_guest, plan_of, spec_apply,
};
use crate::heap::GuestHeap;
use crate::wire::{PluginBox, PluginRegister, PluginSystem, SYSTEM_SIZE, SystemStage};

verus! {

/// A live registration as the host tracks it: the tagged root, the offset
/// of its encoded block in guest memory, and the decoded systems slice.
pub struct Registration {
    /// The owned root of the tree.
    pub root: PluginBox<PluginRegister>,
    /// Offset of the encoded root block.
    pub root_ptr: u32,
    /// The decoded contents of the systems slice.
    pub systems: Vec<PluginSystem>,
}

impl Registration {
    /// The decoded systems match the slice header, and the slice buffer's
    /// byte size fits the 32-bit address space.
    pub open spec fn wf(&self) -> bool {
        &&& self.systems@.len() == self.root.value.systems.value.len
        &&& SYSTEM_SIZE * self.root.value.systems.value.len <= u32::MAX
    }

    /// The free plan of this registration's tree.
    pub open spec fn plan(&self) -> Seq<FreeCall> {
        plan_of(self.root, self.systems@, self.root_ptr)
    }

    /// The systems declared for one stage, in declaration order: what the
    /// scheduler dispatches at that stage.
    pub fn systems_at(&self, stage: SystemStage) -> (r: Vec<PluginSystem>)
        ensures
            r@ == self.systems@.filter(|s: PluginSystem| s.stage == stage),
    {
        let mut r: Vec<PluginSystem> = Vec::new();
        let mut i: usize = 0;
        proof {
            assert(self.systems@.take(0).filter(|s: PluginSystem| s.stage == stage) =~= Seq::<
                PluginSystem,
            >::empty());
        }
        while i < self.systems.len()
            invariant
                i <= self.systems@.len(),
                r@ == self.systems@.take(i as int).filter(|s: PluginSystem| s.stage == stage),
            decreases self.systems@.len() - i,
        {
            let s = self.systems[i];
            if s.stage.code() == stage.code() {
                proof {
                    assert(s.stage == stage);
                }
                r.push(s);
            }
            proof {
                assert(self.systems@.take(i + 1).drop_last() =~= self.systems@.take(i as int));
                assert(self.systems@.take(i + 1).last() == self.systems@[i as int]);
                reveal_with_fuel(Seq::filter, 2);
            }
            i = i + 1;
        }
        proof {
            assert(self.systems@.take(self.systems@.len() as int) =~= self.systems@);
        }
        r
    }
}

/// The host-side state of one guest module: either no registration is live,
/// or exactly one is.
pub enum ModuleSession {
    /// No registration is live; setup is allowed.
    Unregistered,
    /// A registration is live; setup is rejected until it is freed.
    Registered(Registration),
}

impl ModuleSession {
    /// Every live registration the session holds is well formed and
    /// entirely guest-owned.
    pub open spec fn wf(&self) -> bool {
        match self {
            ModuleSession::Unregistered => true,
            ModuleSession::Registered(reg) => reg.wf() && plan_all_guest(reg.plan()),
        }
    }

    /// A fresh session with nothing registered.
    pub fn new() -> (s: ModuleSession)
        ensures
            s is Unregistered,
            s.wf(),
    {
        ModuleSession::Unregistered
    }

    /// Whether a registration is currently live.
    pub fn registered(&self) -> (r: bool)
        ensures
            r == (self is Registered),
    {
        match self {
            ModuleSession::Unregistered => false,
            ModuleSession::Registered(_) => true,
        }
    }

    /// The re-entrancy gate: the host must pass this before invoking the
    /// guest's setup export.  While a registration is live it fails with
    /// `DoubleSetup`, so the guest is never called in that state.
    pub fn begin_setup(&self) -> (r: Result<(), ProtocolError>)
        ensures
            match r {
                Ok(()) => self is Unregistered,
                Err(e) => {
                    &&& e == ProtocolError::DoubleSetup
                    &&& self is Registered
                },
            },
    {
        match self {
            ModuleSession::Unregistered => Ok(()),
            ModuleSession::Registered(_) => Err(ProtocolError::DoubleSetup),
        }
    }

    /// Installs the registration a setup call produced.  Rejected with
    /// `DoubleSetup` — handing the registration back untouched — while one
    /// is already live.
    pub fn install(&mut self, reg: Registration) -> (r: Result<(), (ProtocolError, Registration)>)
        requires
            old(self).wf(),
            reg.wf(),
            plan_all_guest(reg.plan()),
        ensures
            final(self).wf(),
            match r {
                Ok(()) => {
                    &&& *old(self) is Unregistered
                    &&& *final(self) == ModuleSession::Registered(reg)
                },
                Err((e, back)) => {
                    &&& e == ProtocolError::DoubleSetup
                    &&& back == reg
                    &&& *old(self) is Registered
                    &&& *final(self) == *old(self)
                },
            },
    {
        match self {
            ModuleSession::Unregistered => {
                *self = ModuleSession::Registered(reg);
                Ok(())
            },
            ModuleSession::Registered(_) => Err((ProtocolError::DoubleSetup, reg)),
        }
    }

    /// Takes the live registration out of the session, leaving it
    /// unregistered.  The host frees a registration only after taking it
    /// out here, so no dispatch can still reach it while it is freed.
    pub fn take_registration(&mut self) -> (r: Option<Registration>)
        requires
            old(self).wf(),
        ensures
            final(self).wf(),
            *final(self) is Unregistered,
            match r {
                Some(reg) => {
                    &&& *old(self) == ModuleSession::Registered(reg)
                    &&& reg.wf()
                    &&& plan_all_guest(reg.plan())
                },
                None => *old(self) == ModuleSession::Unregistered,
            },
    {
        let mut taken = ModuleSession::Unregistered;
        core::mem::swap(self, &mut taken);
        match taken {
            ModuleSession::Unregistered => None,
            ModuleSession::Registered(reg) => Some(reg),
        }
    }
}

/// Applies the free protocol to a registration against the guest heap:
/// computes the plan — children strictly before parents — and issues the
/// calls in order, stopping at the first failure.  Consumes the
/// registration, so the same tree can never be freed twice.
pub fn free_registration(heap: &mut GuestHeap, reg: Registration) -> (r: Result<(), ProtocolError>)
    requires
        old(heap).wf(),
        reg.wf(),
        plan_all_guest(reg.plan()),
    ensures
        final(heap).wf(),
        final(heap).mem@ == old(heap).mem@,
        ({
            let outcome = spec_apply(old(heap).live@, reg.plan());
            &&& final(heap).live@ == outcome.0
            &&& match outcome.1 {
                None => r == Ok::<(), ProtocolError>(()),
                Some(k) => r == Err::<(), ProtocolError>(
                    ProtocolError::DeallocationFailed { index: k as usize },
                ),
            }
        }),
{
    let plan = free_plan(&reg.root, &reg.systems, reg.root_ptr);
    apply_free_plan(heap, &plan)
}

} // verus!
