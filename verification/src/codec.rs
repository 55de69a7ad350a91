//! Byte-level encoding of the wire types.
//!
//! Guest memory is little-endian, so every 32-bit header field is written as
//! four bytes, least significant first.  The spec functions here are the
//! single definition of the wire layout; the executable writers and readers
//! are proved against them.

use vstd::prelude::*;

use crate::wire::{
    PluginBox, PluginRegister, PluginSlice, PluginString, PluginSystem, spec_stage_code,
};

verus! {

/// The four little-endian bytes of a 32-bit value.
pub open spec fn u32_le(x: u32) -> Seq<u8> {
    seq![
        (x % 256) as u8,
        ((x / 256) % 256) as u8,
        ((x / 65536) % 256) as u8,
        ((x / 16777216) % 256) as u8,
    ]
}

/// The 32-bit value denoted by four little-endian bytes.
pub open spec fn u32_of_le(b: Seq<u8>) -> int {
    b[0] + 256 * b[1] + 65536 * b[2] + 16777216 * b[3]
}

/// Reading back the four little-endian bytes of `x` yields `x`.
pub proof fn lemma_u32_le_round_trip(x: u32)
    ensures
        u32_of_le(u32_le(x)) == x,
{
    let b = u32_le(x);
    assert(x == (x % 256) + 256 * ((x / 256) % 256) + 65536 * ((x / 65536) % 256) + 16777216 * ((x
        / 16777216) % 256)) by (nonlinear_arith);
    assert(b[0] == (x % 256) as u8);
}

/// Appends the four little-endian bytes of `x`.
pub fn push_u32_le(out: &mut Vec<u8>, x: u32)
    ensures
        final(out)@ == old(out)@ + u32_le(x),
{
    out.push((x % 256) as u8);
    out.push(((x / 256) % 256) as u8);
    out.push(((x / 65536) % 256) as u8);
    out.push(((x / 16777216) % 256) as u8);
    assert(out@ =~= old(out)@ + u32_le(x));
}

/// Reads the 32-bit value whose little-endian bytes sit at `off`, or `None`
/// if the four bytes are not in range.
pub fn read_u32_le(mem: &Vec<u8>, off: u32) -> (r: Option<u32>)
    ensures
        match r {
            Some(x) => {
                &&& off + 4 <= mem@.len()
                &&& x == u32_of_le(mem@.subrange(off as int, off + 4))
            },
            None => off + 4 > mem@.len(),
        },
{
    if mem.len() < 4 || off as usize > mem.len() - 4 {
        return None;
    }
    let b0 = mem[off as usize] as u32;
    let b1 = mem[off as usize + 1] as u32;
    let b2 = mem[off as usize + 2] as u32;
    let b3 = mem[off as usize + 3] as u32;
    let x = b0 + 256 * b1 + 65536 * b2 + 16777216 * b3;
    proof {
        let s = mem@.subrange(off as int, off + 4);
        assert(s[0] == mem@[off as int]);
        assert(s[1] == mem@[off + 1]);
        assert(s[2] == mem@[off + 2]);
        assert(s[3] == mem@[off + 3]);
    }
    Some(x)
}

/// The twelve bytes of one encoded system element: the stage byte, three
/// padding bytes, then the name's offset and length.
pub open spec fn enc_system(s: PluginSystem) -> Seq<u8> {
    seq![spec_stage_code(s.stage), 0u8, 0u8, 0u8] + u32_le(s.name.value.ptr) + u32_le(
        s.name.value.len,
    )
}

/// The concatenated encodings of a sequence of system elements.
pub open spec fn enc_systems(ss: Seq<PluginSystem>) -> Seq<u8>
    decreases ss.len(),
{
    if ss.len() == 0 {
        Seq::empty()
    } else {
        enc_system(ss[0]) + enc_systems(ss.skip(1))
    }
}

/// Each element's encoding is twelve bytes, so the buffer is `12 * len`.
pub proof fn lemma_enc_systems_len(ss: Seq<PluginSystem>)
    ensures
        enc_systems(ss).len() == 12 * ss.len(),
    decreases ss.len(),
{
    if ss.len() > 0 {
        lemma_enc_systems_len(ss.skip(1));
    }
}

/// The encoding of a concatenation is the concatenation of the encodings.
pub proof fn lemma_enc_systems_concat(a: Seq<PluginSystem>, b: Seq<PluginSystem>)
    ensures
        enc_systems(a + b) == enc_systems(a) + enc_systems(b),
    decreases a.len(),
{
    if a.len() == 0 {
        assert(a + b =~= b);
        assert(enc_systems(a) =~= Seq::<u8>::empty());
        assert(enc_systems(a) + enc_systems(b) =~= enc_systems(b));
    } else {
        assert((a + b).len() > 0);
        assert((a + b)[0] == a[0]);
        assert((a + b).skip(1) =~= a.skip(1) + b);
        lemma_enc_systems_concat(a.skip(1), b);
        assert(enc_systems(a + b) == enc_system(a[0]) + enc_systems(a.skip(1) + b));
        assert(enc_systems(a) == enc_system(a[0]) + enc_systems(a.skip(1)));
        assert(enc_system(a[0]) + (enc_systems(a.skip(1)) + enc_systems(b)) =~= (enc_system(a[0])
            + enc_systems(a.skip(1))) + enc_systems(b));
    }
}

/// A single element encodes to exactly its twelve bytes.
pub proof fn lemma_enc_systems_one(x: PluginSystem)
    ensures
        enc_systems(seq![x]) == enc_system(x),
{
    let t = seq![x];
    assert(t.skip(1) =~= Seq::<PluginSystem>::empty());
    assert(enc_systems(t.skip(1)) =~= Seq::<u8>::empty());
    assert(enc_systems(t) == enc_system(t[0]) + enc_systems(t.skip(1)));
    assert(enc_system(x) + Seq::<u8>::empty() =~= enc_system(x));
}

/// Extending the encoded prefix by one element appends that element's bytes.
pub proof fn lemma_enc_systems_snoc(ss: Seq<PluginSystem>, i: int)
    requires
        0 <= i < ss.len(),
    ensures
        enc_systems(ss.take(i + 1)) == enc_systems(ss.take(i)) + enc_system(ss[i]),
{
    assert(ss.take(i + 1) =~= ss.take(i) + seq![ss[i]]);
    lemma_enc_systems_concat(ss.take(i), seq![ss[i]]);
    lemma_enc_systems_one(ss[i]);
}

/// A slice of a slice of a memory image is the inner slice taken directly.
pub proof fn lemma_subrange_of_subrange(mem: Seq<u8>, base: int, len: int, a: int, b: int)
    requires
        0 <= base,
        base + len <= mem.len(),
        0 <= a <= b <= len,
    ensures
        mem.subrange(base + a, base + b) == mem.subrange(base, base + len).subrange(a, b),
{
    assert forall|k: int| 0 <= k < b - a implies #[trigger] mem.subrange(base + a, base + b)[k]
        == mem.subrange(base, base + len).subrange(a, b)[k] by {
        assert(mem.subrange(base + a, base + b)[k] == mem[base + a + k]);
        assert(mem.subrange(base, base + len)[a + k] == mem[base + (a + k)]);
    }
    assert(mem.subrange(base + a, base + b) =~= mem.subrange(base, base + len).subrange(a, b));
}

/// The bytes a wire string refers to within a memory image.
pub open spec fn string_bytes(mem: Seq<u8>, s: PluginString) -> Seq<u8> {
    mem.subrange(s.ptr as int, s.ptr + s.len)
}

/// Within the concatenated encoding, element `i` occupies bytes
/// `12 * i ..< 12 * i + 12`.
pub proof fn lemma_enc_systems_index(ss: Seq<PluginSystem>, i: int)
    requires
        0 <= i < ss.len(),
    ensures
        enc_systems(ss).subrange(12 * i, 12 * i + 12) == enc_system(ss[i]),
    decreases i,
{
    lemma_enc_systems_len(ss);
    if i == 0 {
        lemma_enc_systems_len(ss.skip(1));
        assert(enc_systems(ss) == enc_system(ss[0]) + enc_systems(ss.skip(1)));
        assert(enc_systems(ss).subrange(0, 12) =~= enc_system(ss[0]));
    } else {
        lemma_enc_systems_index(ss.skip(1), i - 1);
        lemma_enc_systems_len(ss.skip(1));
        assert(enc_systems(ss) == enc_system(ss[0]) + enc_systems(ss.skip(1)));
        assert(ss.skip(1)[i - 1] == ss[i]);
        assert(enc_systems(ss).subrange(12 * i, 12 * i + 12) =~= enc_systems(ss.skip(1)).subrange(
            12 * (i - 1),
            12 * (i - 1) + 12,
        ));
    }
}

/// Reads `len` bytes starting at `ptr` from a memory image, or `None` if
/// the range is not inside it.
pub fn read_bytes_at(mem: &Vec<u8>, ptr: u32, len: u32) -> (r: Option<Vec<u8>>)
    ensures
        match r {
            Some(v) => {
                &&& ptr + len <= mem@.len()
                &&& v@ == mem@.subrange(ptr as int, ptr + len)
            },
            None => ptr + len > mem@.len(),
        },
{
    if mem.len() < len as usize || ptr as usize > mem.len() - len as usize {
        return None;
    }
    let mut v: Vec<u8> = Vec::new();
    let mut i: usize = 0;
    while i < len as usize
        invariant
            i <= len,
            ptr + len <= mem@.len(),
            v@ == mem@.subrange(ptr as int, ptr + i),
        decreases len as int - i,
    {
        let mlen: usize = mem.len();
        assert(ptr + i < mlen);
        v.push(mem[ptr as usize + i]);
        proof {
            assert(v@ =~= mem@.subrange(ptr as int, ptr + i + 1));
        }
        i = i + 1;
    }
    Some(v)
}

/// The twenty-four bytes of an encoded registration root: the name header,
/// the version header, then the systems slice header (count, then offset).
pub open spec fn enc_register(r: PluginRegister) -> Seq<u8> {
    u32_le(r.name.value.ptr) + u32_le(r.name.value.len) + u32_le(r.version.value.ptr) + u32_le(
        r.version.value.len,
    ) + u32_le(r.systems.value.len) + u32_le(r.systems.value.elements)
}

/// Builds the byte encoding of a sequence of system elements.
pub fn encode_systems(systems: &Vec<PluginSystem>) -> (out: Vec<u8>)
    ensures
        out@ == enc_systems(systems@),
        out@.len() == 12 * systems@.len(),
{
    let mut out: Vec<u8> = Vec::new();
    let mut i: usize = 0;
    proof {
        assert(systems@.take(0) =~= Seq::<PluginSystem>::empty());
    }
    while i < systems.len()
        invariant
            i <= systems@.len(),
            out@ == enc_systems(systems@.take(i as int)),
            out@.len() == 12 * i,
        decreases systems@.len() - i,
    {
        let s = systems[i];
        out.push(s.stage.code());
        out.push(0);
        out.push(0);
        out.push(0);
        push_u32_le(&mut out, s.name.value.ptr);
        push_u32_le(&mut out, s.name.value.len);
        proof {
            lemma_enc_systems_snoc(systems@, i as int);
            assert(out@ =~= enc_systems(systems@.take(i as int)) + enc_system(systems@[i as int]));
        }
        i = i + 1;
    }
    proof {
        assert(systems@.take(systems@.len() as int) =~= systems@);
    }
    out
}

/// Builds the twenty-four byte encoding of a registration root.
pub fn encode_register(r: &PluginRegister) -> (out: Vec<u8>)
    ensures
        out@ == enc_register(*r),
        out@.len() == 24,
{
    let mut out: Vec<u8> = Vec::new();
    push_u32_le(&mut out, r.name.value.ptr);
    push_u32_le(&mut out, r.name.value.len);
    push_u32_le(&mut out, r.version.value.ptr);
    push_u32_le(&mut out, r.version.value.len);
    push_u32_le(&mut out, r.systems.value.len);
    push_u32_le(&mut out, r.systems.value.elements);
    proof {
        assert(out@ =~= enc_register(*r));
    }
    out
}

} // verus!
