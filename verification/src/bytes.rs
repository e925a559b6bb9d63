//! Byte-string helpers: concatenation and big-endian integers.

use vstd::prelude::*;

verus! {

/// The big-endian value of four bytes.
pub open spec fn be_u32(b: Seq<u8>) -> int {
    b[0] as int * 0x1000000 + b[1] as int * 0x10000 + b[2] as int * 0x100 + b[3] as int
}

/// The four big-endian bytes of a value below 2^32.
pub open spec fn be_bytes(v: int) -> Seq<u8> {
    seq![(v / 0x1000000) as u8, (v / 0x10000 % 0x100) as u8, (v / 0x100 % 0x100) as u8, (v % 0x100) as u8]
}

/// Reading back the big-endian bytes of a 32-bit value gives the value.
pub proof fn lemma_be_roundtrip(v: int)
    requires
        0 <= v < 0x1_0000_0000,
    ensures
        be_bytes(v).len() == 4,
        be_u32(be_bytes(v)) == v,
{
    assert(be_u32(be_bytes(v)) == v) by (nonlinear_arith)
        requires
            0 <= v < 0x1_0000_0000,
    {
    }
}

/// Appends `data` to `out`.
pub fn append_bytes(out: &mut Vec<u8>, data: &[u8])
    ensures
        final(out)@ == old(out)@ + data@,
{
    let ghost start = out@;
    let mut i: usize = 0;
    while i < data.len()
        invariant
            i <= data@.len(),
            out@ == start + data@.take(i as int),
        decreases data@.len() - i,
    {
        out.push(data[i]);
        assert(start + data@.take(i + 1) =~= (start + data@.take(i as int)).push(data@[i as int]));
        i = i + 1;
    }
    assert(data@.take(data@.len() as int) =~= data@);
}

/// A copy of `data`.
pub fn to_vec(data: &[u8]) -> (v: Vec<u8>)
    ensures
        v@ == data@,
{
    let mut v: Vec<u8> = Vec::new();
    append_bytes(&mut v, data);
    assert(Seq::<u8>::empty() + data@ =~= data@);
    v
}

/// The bytes of `data` from `start` (inclusive) to `end` (exclusive).
pub fn sub_bytes(data: &[u8], start: usize, end: usize) -> (v: Vec<u8>)
    requires
        start <= end <= data@.len(),
    ensures
        v@ == data@.subrange(start as int, end as int),
{
    to_vec(vstd::slice::slice_subrange(data, start, end))
}

} // verus!
