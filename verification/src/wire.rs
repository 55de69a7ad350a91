//! Wire types: the fixed-layout descriptors that cross the host/guest
//! boundary, and the ownership tags that record which allocator must
//! eventually release each of them.
//!
//! All pointer fields are 32-bit offsets into the guest's linear memory;
//! translation to host-native addresses is a separate, explicit step.

use vstd::prelude::*;

verus! {

/// The pipeline stage at which a declared system callback runs.
#[derive(Clone, Copy, Debug, PartialEq, Eq, Structural)]
pub enum SystemStage {
    Pre,
    Tick,
    SendPackets,
    CleanUp,
}

/// The wire encoding of a stage is a single byte: `Pre` is 0, `Tick` is 1,
/// `SendPackets` is 2, `CleanUp` is 3.
pub open spec fn spec_stage_code(s: SystemStage) -> u8 {
    match s {
        SystemStage::Pre => 0,
        SystemStage::Tick => 1,
        SystemStage::SendPackets => 2,
        SystemStage::CleanUp => 3,
    }
}

/// The stage denoted by a wire byte, if any.
pub open spec fn spec_stage_of_code(c: u8) -> Option<SystemStage> {
    if c == 0 {
        Some(SystemStage::Pre)
    } else if c == 1 {
        Some(SystemStage::Tick)
    } else if c == 2 {
        Some(SystemStage::SendPackets)
    } else if c == 3 {
        Some(SystemStage::CleanUp)
    } else {
        None
    }
}

/// Decoding the byte a stage was encoded as yields the stage back.
pub proof fn lemma_stage_code_round_trip(s: SystemStage)
    ensures
        spec_stage_of_code(spec_stage_code(s)) == Some(s),
{
}

impl SystemStage {
    /// The byte this stage is encoded as on the wire.
    pub fn code(self) -> (c: u8)
        ensures
            c == spec_stage_code(self),
    {
        match self {
            SystemStage::Pre => 0,
            SystemStage::Tick => 1,
            SystemStage::SendPackets => 2,
            SystemStage::CleanUp => 3,
        }
    }

    /// The stage a wire byte denotes; `None` for a byte outside 0..=3.
    pub fn of_code(c: u8) -> (r: Option<SystemStage>)
        ensures
            r == spec_stage_of_code(c),
    {
        if c == 0 {
            Some(SystemStage::Pre)
        } else if c == 1 {
            Some(SystemStage::Tick)
        } else if c == 2 {
            Some(SystemStage::SendPackets)
        } else if c == 3 {
            Some(SystemStage::CleanUp)
        } else {
            None
        }
    }
}

/// Which allocator is responsible for releasing an owned allocation.
#[derive(Clone, Copy, Debug, PartialEq, Eq, Structural)]
pub enum Owner {
    /// Allocated by the host's allocator; the host frees it directly.
    Host,
    /// Allocated by the guest's allocator; the host must release it through
    /// the guest's exported free function.
    Guest,
}

/// An owned value: whoever holds it must eventually release its backing
/// allocation with the allocator named by `owner`, and with the exact
/// (size, align) it was allocated with.  The free protocol is defined only
/// for this wrapper, never for [`PluginRef`].
#[derive(Clone, Copy, Debug, PartialEq, Eq, Structural)]
pub struct PluginBox<T> {
    /// The allocator that must release the allocation.
    pub owner: Owner,
    /// The wrapped wire value.
    pub value: T,
}

/// A borrowed value: no ownership transfer, the consumer must not free it.
/// No free operation exists for this wrapper, so passing a borrowed value to
/// the free protocol is impossible by construction.
#[derive(Clone, Copy, Debug, PartialEq, Eq, Structural)]
pub struct PluginRef<T> {
    /// The wrapped wire value.
    pub value: T,
}

/// A process-lifetime constant: never freed by either side.  As with
/// [`PluginRef`], no free operation exists for this wrapper.
#[derive(Clone, Copy, Debug, PartialEq, Eq, Structural)]
pub struct PluginStatic<T> {
    /// The wrapped wire value.
    pub value: T,
}

/// A UTF-8 byte range in guest memory: offset of the first byte and exact
/// byte count (never a capacity).  Its backing buffer has alignment 1.
#[derive(Clone, Copy, Debug, PartialEq, Eq, Structural)]
pub struct PluginString {
    /// Offset of the first byte in guest linear memory.
    pub ptr: u32,
    /// Exact length in bytes.
    pub len: u32,
}

impl PluginString {
    /// A borrowed wire string over bytes that already live in guest memory.
    /// The caller keeps ownership of the bytes; the result can never be
    /// handed to the free protocol.
    pub fn from_borrow(ptr: u32, len: u32) -> (r: PluginRef<PluginString>)
        ensures
            r.value.ptr == ptr,
            r.value.len == len,
    {
        PluginRef { value: PluginString { ptr, len } }
    }
}

/// A homogeneous, contiguous slice in guest memory: element count and offset
/// of the first element.  The element type is fixed by context; the systems
/// slice of a [`PluginRegister`] holds [`PluginSystem`] elements of
/// [`SYSTEM_SIZE`] bytes each.
#[derive(Clone, Copy, Debug, PartialEq, Eq, Structural)]
pub struct PluginSlice {
    /// Number of elements (not bytes).
    pub len: u32,
    /// Offset of the first element in guest linear memory.
    pub elements: u32,
}

/// One declared guest callback: the stage at which the scheduler must invoke
/// it, and the owned name under which the guest exports it.
#[derive(Clone, Copy, Debug, PartialEq, Eq, Structural)]
pub struct PluginSystem {
    /// When the callback runs.
    pub stage: SystemStage,
    /// The exported callback name; owned, freed before the slice buffer that
    /// holds this element.
    pub name: PluginBox<PluginString>,
}

/// The registration descriptor a guest produces at setup: the root of the
/// ownership tree that the free protocol must eventually release exactly
/// once.
#[derive(Clone, Copy, Debug, PartialEq, Eq, Structural)]
pub struct PluginRegister {
    /// The plugin's display name; owned.
    pub name: PluginBox<PluginString>,
    /// The plugin's version string; owned.
    pub version: PluginBox<PluginString>,
    /// The declared systems; the slice buffer is owned, and each element's
    /// name is owned in turn.
    pub systems: PluginBox<PluginSlice>,
}

/// Byte size of one encoded [`PluginSystem`] element in guest memory:
/// a stage byte, three bytes of padding, then the name's offset and length.
pub const SYSTEM_SIZE: u32 = 12;

/// Alignment of an encoded [`PluginSystem`] element.
pub const SYSTEM_ALIGN: u32 = 4;

/// Byte size of an encoded [`PluginRegister`] root: three (offset, length)
/// header pairs of four bytes each.
pub const REGISTER_SIZE: u32 = 24;

/// Alignment of an encoded [`PluginRegister`] root.
pub const REGISTER_ALIGN: u32 = 4;

/// Alignment of a string's backing byte buffer.
pub const STRING_ALIGN: u32 = 1;

} // verus!
