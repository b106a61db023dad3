//! Little-endian integer encodings used on the wire.
use vstd::prelude::*;

verus! {

/// The integer that the two bytes `lo`, `hi` encode in little-endian order.
pub open spec fn le16(lo: u8, hi: u8) -> u16 {
    (lo as int + 256 * (hi as int)) as u16
}

/// The two bytes of `x` in little-endian order.
pub open spec fn u16_le_bytes(x: u16) -> Seq<u8> {
    seq![(x % 256) as u8, (x / 256) as u8]
}

/// The four bytes of `x` in little-endian order.
pub open spec fn u32_le_bytes(x: u32) -> Seq<u8> {
    seq![
        (x % 256) as u8,
        ((x / 256) % 256) as u8,
        ((x / 0x1_0000) % 256) as u8,
        (x / 0x100_0000) as u8,
    ]
}

/// The integer that four little-endian bytes starting at `i` encode.
pub open spec fn le32_at(b: Seq<u8>, i: int) -> u32 {
    (b[i] as int + 0x100 * (b[i + 1] as int) + 0x1_0000 * (b[i + 2] as int) + 0x100_0000 * (
    b[i + 3] as int)) as u32
}

/// The two's complement bit pattern of `x`, as an unsigned integer.
pub open spec fn i32_bits(x: i32) -> u32 {
    if x >= 0 {
        x as u32
    } else {
        (x + 0x1_0000_0000) as u32
    }
}

/// The four bytes of `x` in little-endian two's complement.
pub open spec fn i32_le_bytes(x: i32) -> Seq<u8> {
    u32_le_bytes(i32_bits(x))
}

/// Each `u16` of `s` as two little-endian bytes, in order.
pub open spec fn u16s_le_bytes(s: Seq<u16>) -> Seq<u8> {
    Seq::new(2 * s.len(), |i: int| u16_le_bytes(s[i / 2])[i % 2])
}

/// Each `i32` of `s` as four little-endian bytes, in order.
pub open spec fn i32s_le_bytes(s: Seq<i32>) -> Seq<u8> {
    Seq::new(4 * s.len(), |i: int| i32_le_bytes(s[i / 4])[i % 4])
}

/// The `u16`s that consecutive byte pairs of `b` encode; an odd last byte is left out.
pub open spec fn le16_units(b: Seq<u8>) -> Seq<u16> {
    Seq::new(b.len() / 2, |j: int| le16(b[2 * j], b[2 * j + 1]))
}

/// A `u16` laid out little-endian reads back as itself.
pub proof fn law_le16_roundtrip(x: u16)
    ensures
        le16(u16_le_bytes(x)[0], u16_le_bytes(x)[1]) == x,
        u16_le_bytes(x).len() == 2,
{
}

/// A `u32` laid out little-endian reads back as itself.
pub proof fn law_le32_roundtrip(x: u32)
    ensures
        le32_at(u32_le_bytes(x), 0) == x,
        u32_le_bytes(x).len() == 4,
{
    let b = u32_le_bytes(x);
    let v = x as int;
    assert(v == v % 256 + 256 * ((v / 256) % 256) + 0x1_0000 * ((v / 0x1_0000) % 256) + 0x100_0000
        * (v / 0x100_0000)) by (nonlinear_arith)
        requires
            0 <= v < 0x1_0000_0000,
    ;
}

/// Reads a little-endian `u16` from two bytes.
pub fn read_le16(lo: u8, hi: u8) -> (r: u16)
    ensures
        r == le16(lo, hi),
{
    lo as u16 + (hi as u16) * 256
}

/// Appends the two little-endian bytes of `x`.
pub fn push_le16(out: &mut Vec<u8>, x: u16)
    ensures
        final(out)@ == old(out)@ + u16_le_bytes(x),
{
    out.push((x % 256) as u8);
    out.push((x / 256) as u8);
    assert(out@ =~= old(out)@ + u16_le_bytes(x));
}

/// Appends the four little-endian bytes of `x`.
pub fn push_le32(out: &mut Vec<u8>, x: u32)
    ensures
        final(out)@ == old(out)@ + u32_le_bytes(x),
{
    out.push((x % 256) as u8);
    out.push(((x / 256) % 256) as u8);
    out.push(((x / 0x1_0000) % 256) as u8);
    out.push((x / 0x100_0000) as u8);
    assert(out@ =~= old(out)@ + u32_le_bytes(x));
}

/// The bit pattern of `x`, as the conversion `as u32` gives it.
pub fn i32_to_bits(x: i32) -> (r: u32)
    ensures
        r == i32_bits(x),
{
    let r = x as u32;
    assert(x >= 0 ==> r == x) by (bit_vector)
        requires
            r == x as u32,
    ;
    assert(x < 0 ==> r == x + 0x1_0000_0000) by (bit_vector)
        requires
            r == x as u32,
    ;
    r
}

/// Appends the four little-endian two's complement bytes of `x`.
pub fn push_i32_le(out: &mut Vec<u8>, x: i32)
    ensures
        final(out)@ == old(out)@ + i32_le_bytes(x),
{
    let bits = i32_to_bits(x);
    push_le32(out, bits);
}

/// Appends the little-endian bytes of every `u16` of `s`, in order.
pub fn push_u16s_le(out: &mut Vec<u8>, s: &[u16])
    ensures
        final(out)@ == old(out)@ + u16s_le_bytes(s@),
{
    let ghost start = out@;
    let mut i: usize = 0;
    while i < s.len()
        invariant
            i <= s@.len(),
            out@ == start + u16s_le_bytes(s@.take(i as int)),
        decreases s@.len() - i,
    {
        push_le16(out, s[i]);
        i = i + 1;
        assert(u16s_le_bytes(s@.take(i as int)) =~= u16s_le_bytes(s@.take(i - 1)) + u16_le_bytes(
            s@[i - 1],
        ));
    }
    assert(s@.take(i as int) =~= s@);
}

/// Appends the little-endian bytes of every `i32` of `s`, in order.
pub fn push_i32s_le(out: &mut Vec<u8>, s: &[i32])
    ensures
        final(out)@ == old(out)@ + i32s_le_bytes(s@),
{
    let ghost start = out@;
    let mut i: usize = 0;
    while i < s.len()
        invariant
            i <= s@.len(),
            out@ == start + i32s_le_bytes(s@.take(i as int)),
        decreases s@.len() - i,
    {
        push_i32_le(out, s[i]);
        i = i + 1;
        assert(i32s_le_bytes(s@.take(i as int)) =~= i32s_le_bytes(s@.take(i - 1)) + i32_le_bytes(
            s@[i - 1],
        ));
    }
    assert(s@.take(i as int) =~= s@);
}

} // verus!
