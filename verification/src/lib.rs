//! Cross-boundary memory-ownership protocol for a plugin ABI.
//!
//! A host process and a sandboxed guest module exchange strings, slices and a
//! plugin registration descriptor through a fixed wire layout addressed by
//! 32-bit offsets into the guest's linear memory.  Every allocation that
//! crosses the boundary carries an ownership tag saying which allocator must
//! release it, and the recursive free protocol releases every owned
//! allocation exactly once, children before parents.

use vstd::prelude::*;

pub mod codec;
pub mod decode;
pub mod encode;
pub mod freeing;
pub mod heap;
pub mod host;
pub mod session;
pub mod translate;
pub mod wire;

verus! {

/// The error conditions of the protocol.
#[derive(Clone, Copy, Debug, PartialEq, Eq, Structural)]
pub enum ProtocolError {
    /// The (pointer, size, align) triple handed to a deallocator does not
    /// correspond to a live allocation.
    LayoutMismatch,
    /// A pointer or offset translation fell outside the guest's current
    /// linear-memory region.
    AddressOutOfRange,
    /// The guest-side free export failed; `index` is the position in the
    /// free plan of the call that failed.
    DeallocationFailed { index: usize },
    /// A second setup was attempted while a registration was still live.
    DoubleSetup,
    /// A guest call trapped before producing a value; the instance must be
    /// torn down and not reused.
    InstanceFaulted,
}

} // verus!
