//! Little-endian integers on the wire.

use vstd::prelude::*;

verus! {

/// The two bytes of `x`, least significant first.
pub open spec fn spec_u16_le(x: u16) -> Seq<u8> {
    seq![(x % 256) as u8, (x / 256) as u8]
}

/// The number whose little-endian bytes are the first two of `s`.
pub open spec fn spec_u16_from_le(s: Seq<u8>) -> u16
    recommends
        s.len() >= 2,
{
    (s[0] + 256 * s[1]) as u16
}

/// The four bytes of `x`, least significant first.
pub open spec fn spec_u32_le(x: u32) -> Seq<u8> {
    seq![
        (x % 256) as u8,
        (x / 256 % 256) as u8,
        (x / 65536 % 256) as u8,
        (x / 16777216) as u8,
    ]
}

/// The number whose little-endian bytes are the first four of `s`.
pub open spec fn spec_u32_from_le(s: Seq<u8>) -> u32
    recommends
        s.len() >= 4,
{
    (s[0] + 256 * s[1] + 65536 * s[2] + 16777216 * s[3]) as u32
}

/// A 16-bit number takes two bytes, and decoding them gives the number back.
pub proof fn lemma_u16_decode_encode(x: u16)
    ensures
        spec_u16_le(x).len() == 2,
        spec_u16_from_le(spec_u16_le(x)) == x,
{
}

/// Any two bytes are the encoding of the number they decode to.
pub proof fn lemma_u16_encode_decode(s: Seq<u8>)
    requires
        s.len() == 2,
    ensures
        spec_u16_le(spec_u16_from_le(s)) == s,
{
    assert(spec_u16_le(spec_u16_from_le(s)) =~= s);
}

proof fn lemma_u32_split(x: u32)
    by (bit_vector)
    ensures
        x % 256 + 256 * (x / 256 % 256) + 65536 * (x / 65536 % 256) + 16777216 * (x / 16777216)
            == x,
        x / 16777216 < 256,
{
}

proof fn lemma_u32_join(b0: u8, b1: u8, b2: u8, b3: u8)
    by (bit_vector)
    ensures
        b0 + 256 * b1 + 65536 * b2 + 16777216 * b3 <= 0xFFFF_FFFF,
        ({
            let v = (b0 + 256 * b1 + 65536 * b2 + 16777216 * b3) as u32;
            v % 256 == b0 && v / 256 % 256 == b1 && v / 65536 % 256 == b2 && v / 16777216 == b3
        }),
{
}

/// A 32-bit number takes four bytes, and decoding them gives the number back.
pub proof fn lemma_u32_decode_encode(x: u32)
    ensures
        spec_u32_le(x).len() == 4,
        spec_u32_from_le(spec_u32_le(x)) == x,
{
    lemma_u32_split(x);
}

/// Any four bytes are the encoding of the number they decode to.
pub proof fn lemma_u32_encode_decode(s: Seq<u8>)
    requires
        s.len() == 4,
    ensures
        spec_u32_le(spec_u32_from_le(s)) == s,
{
    lemma_u32_join(s[0], s[1], s[2], s[3]);
    assert(spec_u32_le(spec_u32_from_le(s)) =~= s);
}

/// Appends the little-endian bytes of `x` to `out`.
pub fn put_u16_le(out: &mut Vec<u8>, x: u16)
    ensures
        final(out)@ == old(out)@ + spec_u16_le(x),
{
    out.push((x % 256) as u8);
    out.push((x / 256) as u8);
    assert(out@ =~= old(out)@ + spec_u16_le(x));
}

/// Appends the little-endian bytes of `x` to `out`.
pub fn put_u32_le(out: &mut Vec<u8>, x: u32)
    ensures
        final(out)@ == old(out)@ + spec_u32_le(x),
{
    out.push((x % 256) as u8);
    out.push((x / 256 % 256) as u8);
    out.push((x / 65536 % 256) as u8);
    out.push((x / 16777216) as u8);
    assert(out@ =~= old(out)@ + spec_u32_le(x));
}

/// Reads a little-endian 16-bit number at `at`.
pub(crate) fn get_u16_le(bytes: &[u8], at: usize) -> (x: u16)
    requires
        at + 2 <= bytes@.len(),
    ensures
        x == spec_u16_from_le(bytes@.subrange(at as int, at + 2)),
{
    let lo: u16 = bytes[at] as u16;
    let hi: u16 = bytes[at + 1] as u16;
    lo + 256 * hi
}

/// Reads a little-endian 32-bit number at `at`.
pub(crate) fn get_u32_le(bytes: &[u8], at: usize) -> (x: u32)
    requires
        at + 4 <= bytes@.len(),
    ensures
        x == spec_u32_from_le(bytes@.subrange(at as int, at + 4)),
{
    let b0: u32 = bytes[at] as u32;
    let b1: u32 = bytes[at + 1] as u32;
    let b2: u32 = bytes[at + 2] as u32;
    let b3: u32 = bytes[at + 3] as u32;
    b0 + 256 * b1 + 65536 * b2 + 16777216 * b3
}

} // verus!
