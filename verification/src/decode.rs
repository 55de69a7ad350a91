//! Host-side reading: decoding the wire types back out of a guest-memory
//! image.
//!
//! The spec functions here are the exact mirror of the encoders in
//! [`crate::codec`]; the round-trip lemma at the bottom proves that decoding
//! an encoded registration tree yields the tree that was encoded.  Values
//! decoded from guest memory are tagged guest-owned, since everything the
//! guest hands across at setup was allocated by the guest.

use vstd::prelude::*;

use crate::codec::{
    enc_register, enc_system, enc_systems, lemma_enc_systems_index, lemma_enc_systems_len,
    lemma_subrange_of_subrange, lemma_u32_le_round_trip, read_bytes_at, read_u32_le,
    string_bytes, u32_le, u32_of_le,
};
use crate::wire::{
    Owner, PluginBox, PluginRegister, PluginSlice, PluginString, PluginSystem, REGISTER_SIZE,
    SYSTEM_SIZE, SystemStage, lemma_stage_code_round_trip, spec_stage_code, spec_stage_of_code,
};

verus! {

/// The bytes a wire string refers to, read out of a memory image; the
/// decode direction of the string round trip.
pub fn read_string(mem: &Vec<u8>, s: &PluginString) -> (r: Option<Vec<u8>>)
    ensures
        match r {
            Some(v) => {
                &&& s.ptr + s.len <= mem@.len()
                &&& v@ == string_bytes(mem@, *s)
            },
            None => s.ptr + s.len > mem@.len(),
        },
{
    read_bytes_at(mem, s.ptr, s.len)
}

/// What decoding a registration header at `at` yields: the six header
/// fields read back little-endian, every level tagged guest-owned, or
/// `None` when the twenty-four bytes are not in the image.
pub open spec fn spec_decode_register(mem: Seq<u8>, at: int) -> Option<PluginRegister> {
    if 0 <= at && at + 24 <= mem.len() {
        Some(
            PluginRegister {
                name: PluginBox {
                    owner: Owner::Guest,
                    value: PluginString {
                        ptr: u32_of_le(mem.subrange(at, at + 4)) as u32,
                        len: u32_of_le(mem.subrange(at + 4, at + 8)) as u32,
                    },
                },
                version: PluginBox {
                    owner: Owner::Guest,
                    value: PluginString {
                        ptr: u32_of_le(mem.subrange(at + 8, at + 12)) as u32,
                        len: u32_of_le(mem.subrange(at + 12, at + 16)) as u32,
                    },
                },
                systems: PluginBox {
                    owner: Owner::Guest,
                    value: PluginSlice {
                        len: u32_of_le(mem.subrange(at + 16, at + 20)) as u32,
                        elements: u32_of_le(mem.subrange(at + 20, at + 24)) as u32,
                    },
                },
            },
        )
    } else {
        None
    }
}

/// Decodes a registration header at `at`.
pub fn decode_register(mem: &Vec<u8>, at: u32) -> (r: Option<PluginRegister>)
    requires
        mem@.len() <= u32::MAX,
    ensures
        r == spec_decode_register(mem@, at as int),
{
    let n = mem.len();
    if (at as u64) + 24 > (n as u64) {
        return None;
    }
    let name_ptr = read_u32_le(mem, at).unwrap();
    let name_len = read_u32_le(mem, at + 4).unwrap();
    let version_ptr = read_u32_le(mem, at + 8).unwrap();
    let version_len = read_u32_le(mem, at + 12).unwrap();
    let systems_len = read_u32_le(mem, at + 16).unwrap();
    let systems_ptr = read_u32_le(mem, at + 20).unwrap();
    Some(
        PluginRegister {
            name: PluginBox {
                owner: Owner::Guest,
                value: PluginString { ptr: name_ptr, len: name_len },
            },
            version: PluginBox {
                owner: Owner::Guest,
                value: PluginString { ptr: version_ptr, len: version_len },
            },
            systems: PluginBox {
                owner: Owner::Guest,
                value: PluginSlice { len: systems_len, elements: systems_ptr },
            },
        },
    )
}

/// What decoding one system element at `at` yields: the stage byte, which
/// must denote a stage, and the name header, or `None` when the twelve
/// bytes are not in the image or the stage byte is invalid.
pub open spec fn spec_decode_system(mem: Seq<u8>, at: int) -> Option<PluginSystem> {
    if 0 <= at && at + 12 <= mem.len() {
        match spec_stage_of_code(mem[at]) {
            Some(st) => Some(
                PluginSystem {
                    stage: st,
                    name: PluginBox {
                        owner: Owner::Guest,
                        value: PluginString {
                            ptr: u32_of_le(mem.subrange(at + 4, at + 8)) as u32,
                            len: u32_of_le(mem.subrange(at + 8, at + 12)) as u32,
                        },
                    },
                },
            ),
            None => None,
        }
    } else {
        None
    }
}

/// Decodes one system element at `at`.
pub fn decode_system(mem: &Vec<u8>, at: u32) -> (r: Option<PluginSystem>)
    requires
        mem@.len() <= u32::MAX,
    ensures
        r == spec_decode_system(mem@, at as int),
{
    let n = mem.len();
    if (at as u64) + 12 > (n as u64) {
        return None;
    }
    let stage = match SystemStage::of_code(mem[at as usize]) {
        None => {
            return None;
        },
        Some(st) => st,
    };
    let name_ptr = read_u32_le(mem, at + 4).unwrap();
    let name_len = read_u32_le(mem, at + 8).unwrap();
    Some(
        PluginSystem {
            stage,
            name: PluginBox {
                owner: Owner::Guest,
                value: PluginString { ptr: name_ptr, len: name_len },
            },
        },
    )
}

/// Every one of the `n` elements starting at `at` decodes.
pub open spec fn systems_decodable(mem: Seq<u8>, at: int, n: int) -> bool {
    forall|i: int| 0 <= i < n ==> (#[trigger] spec_decode_system(mem, at + SYSTEM_SIZE * i)) is Some
}

/// The `n` decoded elements starting at `at`.
pub open spec fn spec_decode_systems(mem: Seq<u8>, at: int, n: int) -> Seq<PluginSystem> {
    Seq::new(n as nat, |i: int| spec_decode_system(mem, at + SYSTEM_SIZE * i).unwrap())
}

/// Decodes the `n` consecutive system elements starting at `at`, or `None`
/// as soon as one of them does not decode.
pub fn decode_systems(mem: &Vec<u8>, at: u32, n: u32) -> (r: Option<Vec<PluginSystem>>)
    requires
        mem@.len() <= u32::MAX,
    ensures
        match r {
            Some(v) => {
                &&& systems_decodable(mem@, at as int, n as int)
                &&& v@ == spec_decode_systems(mem@, at as int, n as int)
            },
            None => !systems_decodable(mem@, at as int, n as int),
        },
{
    let mut v: Vec<PluginSystem> = Vec::new();
    let mut i: u32 = 0;
    while i < n
        invariant
            mem@.len() <= u32::MAX,
            i <= n,
            v@.len() == i,
            forall|j: int|
                0 <= j < i ==> (#[trigger] spec_decode_system(
                    mem@,
                    at + SYSTEM_SIZE * j,
                )) is Some,
            forall|j: int|
                0 <= j < i ==> v@[j] == spec_decode_system(mem@, at + SYSTEM_SIZE * j).unwrap(),
        decreases n - i,
    {
        let off64: u64 = (at as u64) + 12 * (i as u64);
        if off64 + 12 > (mem.len() as u64) {
            proof {
                assert(at + SYSTEM_SIZE * (i as int) + 12 > mem@.len());
                assert(spec_decode_system(mem@, at + SYSTEM_SIZE * (i as int)) is None);
            }
            return None;
        }
        let off: u32 = off64 as u32;
        match decode_system(mem, off) {
            None => {
                proof {
                    assert(spec_decode_system(mem@, at + SYSTEM_SIZE * (i as int)) is None);
                }
                return None;
            },
            Some(s) => {
                v.push(s);
            },
        }
        i = i + 1;
    }
    proof {
        assert(v@ =~= spec_decode_systems(mem@, at as int, n as int));
    }
    Some(v)
}

/// Decodes a full registration tree: the root header at `root_ptr`, then
/// every system element of its slice.  Succeeds exactly when the header is
/// in the image and every element decodes.
pub fn decode_registration(mem: &Vec<u8>, root_ptr: u32) -> (r: Option<
    (PluginBox<PluginRegister>, Vec<PluginSystem>),
>)
    requires
        mem@.len() <= u32::MAX,
    ensures
        match r {
            Some((rt, ws)) => {
                &&& rt.owner == Owner::Guest
                &&& spec_decode_register(mem@, root_ptr as int) == Some(rt.value)
                &&& systems_decodable(
                    mem@,
                    rt.value.systems.value.elements as int,
                    rt.value.systems.value.len as int,
                )
                &&& ws@ == spec_decode_systems(
                    mem@,
                    rt.value.systems.value.elements as int,
                    rt.value.systems.value.len as int,
                )
                &&& ws@.len() == rt.value.systems.value.len
            },
            None => match spec_decode_register(mem@, root_ptr as int) {
                Some(reg) => !systems_decodable(
                    mem@,
                    reg.systems.value.elements as int,
                    reg.systems.value.len as int,
                ),
                None => true,
            },
        },
{
    let reg = match decode_register(mem, root_ptr) {
        None => {
            return None;
        },
        Some(reg) => reg,
    };
    let ws = match decode_systems(mem, reg.systems.value.elements, reg.systems.value.len) {
        None => {
            return None;
        },
        Some(ws) => ws,
    };
    Some((PluginBox { owner: Owner::Guest, value: reg }, ws))
}


/// Round trip of the registration encoding: decoding an image that holds an
/// encoded registration tree yields exactly the tree that was encoded, for
/// any number of systems including zero.
pub proof fn lemma_register_round_trip(
    mem: Seq<u8>,
    rt: PluginBox<PluginRegister>,
    ws: Seq<PluginSystem>,
    root_ptr: u32,
)
    requires
        rt.owner == Owner::Guest,
        rt.value.name.owner == Owner::Guest,
        rt.value.version.owner == Owner::Guest,
        rt.value.systems.owner == Owner::Guest,
        forall|i: int| 0 <= i < ws.len() ==> (#[trigger] ws[i]).name.owner == Owner::Guest,
        rt.value.systems.value.len == ws.len(),
        root_ptr + REGISTER_SIZE <= mem.len(),
        mem.subrange(root_ptr as int, root_ptr + REGISTER_SIZE) == enc_register(rt.value),
        rt.value.systems.value.elements + SYSTEM_SIZE * ws.len() <= mem.len(),
        mem.subrange(
            rt.value.systems.value.elements as int,
            rt.value.systems.value.elements + SYSTEM_SIZE * ws.len(),
        ) == enc_systems(ws),
    ensures
        spec_decode_register(mem, root_ptr as int) == Some(rt.value),
        systems_decodable(mem, rt.value.systems.value.elements as int, ws.len() as int),
        spec_decode_systems(mem, rt.value.systems.value.elements as int, ws.len() as int) == ws,
{
    let at = root_ptr as int;
    let v = rt.value;
    let e = enc_register(v);
    assert forall|a0: int, b0: int| 0 <= a0 <= b0 <= 24 implies #[trigger] mem.subrange(
        at + a0,
        at + b0,
    ) == e.subrange(a0, b0) by {
        lemma_subrange_of_subrange(mem, at, 24, a0, b0);
    }
    assert(mem.subrange(at + 0, at + 4) == e.subrange(0, 4));
    assert(e.subrange(0, 4) =~= u32_le(v.name.value.ptr));
    assert(e.subrange(4, 8) =~= u32_le(v.name.value.len));
    assert(e.subrange(8, 12) =~= u32_le(v.version.value.ptr));
    assert(e.subrange(12, 16) =~= u32_le(v.version.value.len));
    assert(e.subrange(16, 20) =~= u32_le(v.systems.value.len));
    assert(e.subrange(20, 24) =~= u32_le(v.systems.value.elements));
    lemma_u32_le_round_trip(v.name.value.ptr);
    lemma_u32_le_round_trip(v.name.value.len);
    lemma_u32_le_round_trip(v.version.value.ptr);
    lemma_u32_le_round_trip(v.version.value.len);
    lemma_u32_le_round_trip(v.systems.value.len);
    lemma_u32_le_round_trip(v.systems.value.elements);
    assert(mem.subrange(at, at + 4) == mem.subrange(at + 0, at + 4));
    assert(spec_decode_register(mem, at) == Some(v));
    let els = v.systems.value.elements as int;
    lemma_enc_systems_len(ws);
    assert forall|i: int| 0 <= i < ws.len() implies #[trigger] spec_decode_system(
        mem,
        els + SYSTEM_SIZE * i,
    ) == Some(ws[i]) by {
        lemma_enc_systems_index(ws, i);
        let a = els + 12 * i;
        let e2 = enc_system(ws[i]);
        lemma_subrange_of_subrange(mem, els, 12 * ws.len() as int, 12 * i, 12 * i + 12);
        assert(mem.subrange(a, a + 12) == enc_systems(ws).subrange(12 * i, 12 * i + 12));
        assert(mem.subrange(a, a + 12) == e2);
        assert(mem[a] == mem.subrange(a, a + 12)[0]);
        assert(mem[a] == spec_stage_code(ws[i].stage));
        lemma_stage_code_round_trip(ws[i].stage);
        lemma_subrange_of_subrange(mem, a, 12, 4, 8);
        lemma_subrange_of_subrange(mem, a, 12, 8, 12);
        assert(e2.subrange(4, 8) =~= u32_le(ws[i].name.value.ptr));
        assert(e2.subrange(8, 12) =~= u32_le(ws[i].name.value.len));
        lemma_u32_le_round_trip(ws[i].name.value.ptr);
        lemma_u32_le_round_trip(ws[i].name.value.len);
        assert(spec_decode_system(mem, a) == Some(ws[i]));
    }
    assert(spec_decode_systems(mem, els, ws.len() as int) =~= ws);
}

} // verus!
