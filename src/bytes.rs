//! Small byte-buffer helpers.
use vstd::prelude::*;

verus! {

/// Appends the bytes of `s` to `v`.
pub fn append_bytes(v: &mut Vec<u8>, s: &[u8])
    ensures
        final(v)@ == old(v)@ + s@,
{
    let mut i: usize = 0;
    while i < s.len()
        invariant
            0 <= i <= s@.len(),
            v@ == old(v)@ + s@.subrange(0, i as int),
        decreases s@.len() - i,
    {
        v.push(s[i]);
        i = i + 1;
        assert(s@.subrange(0, i as int) == s@.subrange(0, i - 1) + seq![s@[i - 1]]);
    }
    assert(s@.subrange(0, s@.len() as int) == s@);
}

/// A new vector holding the bytes of `s`.
pub fn bytes_of(s: &[u8]) -> (r: Vec<u8>)
    ensures
        r@ == s@,
{
    let mut r: Vec<u8> = Vec::new();
    append_bytes(&mut r, s);
    r
}

/// The bytes `start..end` of `s`, copied.
pub fn bytes_range(s: &[u8], start: usize, end: usize) -> (r: Vec<u8>)
    requires
        start <= end <= s@.len(),
    ensures
        r@ == s@.subrange(start as int, end as int),
{
    bytes_of(&s[start..end])
}

/// The big-endian unsigned integer held in four bytes.
pub open spec fn be_u32(b: Seq<u8>) -> int {
    b[0] as int * 0x1000000 + b[1] as int * 0x10000 + b[2] as int * 0x100 + b[3] as int
}

/// Reads a big-endian `u32` from the first four bytes of `b`.
pub fn read_u32_be(b: &[u8]) -> (r: u32)
    requires
        b@.len() >= 4,
    ensures
        r as int == be_u32(b@),
{
    let v: u32 = (b[0] as u32) * 0x1000000 + (b[1] as u32) * 0x10000 + (b[2] as u32) * 0x100
        + (b[3] as u32);
    v
}

} // verus!
