//! Big-endian byte images of fixed-width integers.
use vstd::prelude::*;

verus! {

/// The four big-endian bytes of `v`.
pub open spec fn u32_be_bytes(v: u32) -> Seq<u8> {
    seq![
        (v / 0x100_0000) as u8,
        ((v / 0x1_0000) % 256) as u8,
        ((v / 256) % 256) as u8,
        (v % 256) as u8,
    ]
}

/// The two big-endian bytes of `v`.
pub open spec fn u16_be_bytes(v: u16) -> Seq<u8> {
    seq![(v / 256) as u8, (v % 256) as u8]
}

/// The `u32` that the four bytes of `s` from `i` stand for, big-endian.
pub open spec fn be_u32_at(s: Seq<u8>, i: int) -> u32 {
    (s[i] * 0x100_0000 + s[i + 1] * 0x1_0000 + s[i + 2] * 256 + s[i + 3]) as u32
}

/// The `u16` that the two bytes of `s` from `i` stand for, big-endian.
pub open spec fn be_u16_at(s: Seq<u8>, i: int) -> u16 {
    (s[i] * 256 + s[i + 1]) as u16
}

/// `u32::from_be_bytes` on four bytes of `buf` from `i`.
pub fn read_be_u32(buf: &[u8], i: usize) -> (r: u32)
    requires
        i + 4 <= buf@.len(),
    ensures
        r == be_u32_at(buf@, i as int),
{
    (buf[i] as u32) * 0x100_0000 + (buf[i + 1] as u32) * 0x1_0000 + (buf[i + 2] as u32) * 256
        + (buf[i + 3] as u32)
}

/// `u16::from_be_bytes` on two bytes of `buf` from `i`.
pub fn read_be_u16(buf: &[u8], i: usize) -> (r: u16)
    requires
        i + 2 <= buf@.len(),
    ensures
        r == be_u16_at(buf@, i as int),
{
    (buf[i] as u16) * 256 + (buf[i + 1] as u16)
}

/// Appends `v.to_be_bytes()`.
pub fn push_be_u32(out: &mut Vec<u8>, v: u32)
    ensures
        final(out)@ == old(out)@ + u32_be_bytes(v),
{
    out.push((v / 0x100_0000) as u8);
    out.push(((v / 0x1_0000) % 256) as u8);
    out.push(((v / 256) % 256) as u8);
    out.push((v % 256) as u8);
    assert(final(out)@ =~= old(out)@ + u32_be_bytes(v));
}

/// Appends `v.to_be_bytes()`.
pub fn push_be_u16(out: &mut Vec<u8>, v: u16)
    ensures
        final(out)@ == old(out)@ + u16_be_bytes(v),
{
    out.push((v / 256) as u8);
    out.push((v % 256) as u8);
    assert(final(out)@ =~= old(out)@ + u16_be_bytes(v));
}

/// Reading back the bytes of a value gives the value.
pub proof fn lemma_be_roundtrip(pre: Seq<u8>, v32: u32, v16: u16, post: Seq<u8>)
    ensures
        be_u32_at(pre + u32_be_bytes(v32) + post, pre.len() as int) == v32,
        be_u16_at(pre + u16_be_bytes(v16) + post, pre.len() as int) == v16,
{
    let s = pre + u32_be_bytes(v32) + post;
    let n = pre.len() as int;
    assert(s[n] == (v32 / 0x100_0000) as u8);
    assert(s[n + 1] == ((v32 / 0x1_0000) % 256) as u8);
    assert(s[n + 2] == ((v32 / 256) % 256) as u8);
    assert(s[n + 3] == (v32 % 256) as u8);
    let t = pre + u16_be_bytes(v16) + post;
    assert(t[n] == (v16 / 256) as u8);
    assert(t[n + 1] == (v16 % 256) as u8);
}

} // verus!
