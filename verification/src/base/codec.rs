//! Big-endian integers in byte sequences.
use vstd::prelude::*;

verus! {

/// The eight bytes of `x`, most significant first.
pub open spec fn be_u64(x: u64) -> Seq<u8> {
    seq![
        (x >> 56) as u8,
        (x >> 48) as u8,
        (x >> 40) as u8,
        (x >> 32) as u8,
        (x >> 24) as u8,
        (x >> 16) as u8,
        (x >> 8) as u8,
        x as u8,
    ]
}

/// The number whose bytes, most significant first, are the first eight of `s`.
pub open spec fn be_u64_value(s: Seq<u8>) -> u64 {
    ((s[0] as u64) << 56) | ((s[1] as u64) << 48) | ((s[2] as u64) << 40) | ((s[3] as u64) << 32)
        | ((s[4] as u64) << 24) | ((s[5] as u64) << 16) | ((s[6] as u64) << 8) | (s[7] as u64)
}

/// The four bytes of `x`, most significant first.
pub open spec fn be_u32(x: u32) -> Seq<u8> {
    seq![(x >> 24) as u8, (x >> 16) as u8, (x >> 8) as u8, x as u8]
}

/// The number whose bytes, most significant first, are the first four of `s`.
pub open spec fn be_u32_value(s: Seq<u8>) -> u32 {
    ((s[0] as u32) << 24) | ((s[1] as u32) << 16) | ((s[2] as u32) << 8) | (s[3] as u32)
}

/// Reading the eight bytes of a number gives the number back.
pub proof fn be_u64_round_trip(x: u64)
    ensures
        be_u64(x).len() == 8,
        be_u64_value(be_u64(x)) == x,
{
    assert(x == (((x >> 56) as u8) as u64) << 56 | (((x >> 48) as u8) as u64) << 48 | (((x
        >> 40) as u8) as u64) << 40 | (((x >> 32) as u8) as u64) << 32 | (((x >> 24) as u8) as u64)
        << 24 | (((x >> 16) as u8) as u64) << 16 | (((x >> 8) as u8) as u64) << 8 | ((
    x as u8) as u64)) by (bit_vector);
}

/// Reading the four bytes of a number gives the number back.
pub proof fn be_u32_round_trip(x: u32)
    ensures
        be_u32(x).len() == 4,
        be_u32_value(be_u32(x)) == x,
{
    assert(x == (((x >> 24) as u8) as u32) << 24 | (((x >> 16) as u8) as u32) << 16 | (((x
        >> 8) as u8) as u32) << 8 | ((x as u8) as u32)) by (bit_vector);
}

/// The eight bytes of a number are its digits to the base 256, the most significant first.
pub proof fn be_u64_is_positional(x: u64)
    ensures
        be_u64(x).len() == 8,
        be_u64(x)[0] * 0x100_0000_0000_0000 + be_u64(x)[1] * 0x1_0000_0000_0000 + be_u64(x)[2]
            * 0x100_0000_0000 + be_u64(x)[3] * 0x1_0000_0000 + be_u64(x)[4] * 0x100_0000 + be_u64(
            x,
        )[5] * 0x1_0000 + be_u64(x)[6] * 0x100 + be_u64(x)[7] == x,
{
    assert((x >> 56) as u8 * 0x100_0000_0000_0000 + (x >> 48) as u8 * 0x1_0000_0000_0000 + (x
        >> 40) as u8 * 0x100_0000_0000 + (x >> 32) as u8 * 0x1_0000_0000 + (x >> 24) as u8
        * 0x100_0000 + (x >> 16) as u8 * 0x1_0000 + (x >> 8) as u8 * 0x100 + x as u8 == x)
        by (bit_vector);
}

/// The four bytes of a number are its digits to the base 256, the most significant first.
pub proof fn be_u32_is_positional(x: u32)
    ensures
        be_u32(x).len() == 4,
        be_u32(x)[0] * 0x100_0000 + be_u32(x)[1] * 0x1_0000 + be_u32(x)[2] * 0x100 + be_u32(x)[3]
            == x,
{
    assert((x >> 24) as u8 * 0x100_0000 + (x >> 16) as u8 * 0x1_0000 + (x >> 8) as u8 * 0x100
        + x as u8 == x) by (bit_vector);
}

/// Encodes `x` as eight bytes, most significant first.
pub fn u64_to_be_bytes(x: u64) -> (r: Vec<u8>)
    ensures
        r@ == be_u64(x),
{
    let mut r: Vec<u8> = Vec::new();
    r.push((x >> 56) as u8);
    r.push((x >> 48) as u8);
    r.push((x >> 40) as u8);
    r.push((x >> 32) as u8);
    r.push((x >> 24) as u8);
    r.push((x >> 16) as u8);
    r.push((x >> 8) as u8);
    r.push(x as u8);
    assert(r@ =~= be_u64(x));
    r
}

/// Decodes the eight bytes of `s` that start at `at`.
pub fn u64_from_be_bytes(s: &[u8], at: usize) -> (r: u64)
    requires
        at + 8 <= s@.len(),
    ensures
        r == be_u64_value(s@.subrange(at as int, at + 8)),
{
    ((s[at] as u64) << 56) | ((s[at + 1] as u64) << 48) | ((s[at + 2] as u64) << 40) | ((s[at
        + 3] as u64) << 32) | ((s[at + 4] as u64) << 24) | ((s[at + 5] as u64) << 16) | ((s[at
        + 6] as u64) << 8) | (s[at + 7] as u64)
}

/// Encodes `x` as four bytes, most significant first.
pub fn u32_to_be_bytes(x: u32) -> (r: Vec<u8>)
    ensures
        r@ == be_u32(x),
{
    let mut r: Vec<u8> = Vec::new();
    r.push((x >> 24) as u8);
    r.push((x >> 16) as u8);
    r.push((x >> 8) as u8);
    r.push(x as u8);
    assert(r@ =~= be_u32(x));
    r
}

/// Decodes the four bytes of `s` that start at `at`.
pub fn u32_from_be_bytes(s: &[u8], at: usize) -> (r: u32)
    requires
        at + 4 <= s@.len(),
    ensures
        r == be_u32_value(s@.subrange(at as int, at + 4)),
{
    ((s[at] as u32) << 24) | ((s[at + 1] as u32) << 16) | ((s[at + 2] as u32) << 8) | (s[at
        + 3] as u32)
}

} // verus!
