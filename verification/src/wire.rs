//! Fixed-width integers on the wire: little-endian for packet fields,
//! big-endian for the stream length prefix and for STUN.

use vstd::prelude::*;

verus! {

/// The two bytes of `x`, least significant first.
pub open spec fn u16_le(x: u16) -> Seq<u8> {
    seq![(x % 256) as u8, (x / 256) as u8]
}

/// The four bytes of `x`, least significant first.
pub open spec fn u32_le(x: u32) -> Seq<u8> {
    seq![
        (x % 256) as u8,
        (x / 0x100 % 256) as u8,
        (x / 0x1_0000 % 256) as u8,
        (x / 0x100_0000) as u8,
    ]
}

/// The eight bytes of `x`, least significant first.
pub open spec fn u64_le(x: u64) -> Seq<u8> {
    seq![
        (x % 256) as u8,
        (x / 0x100 % 256) as u8,
        (x / 0x1_0000 % 256) as u8,
        (x / 0x100_0000 % 256) as u8,
        (x / 0x1_0000_0000 % 256) as u8,
        (x / 0x100_0000_0000 % 256) as u8,
        (x / 0x1_0000_0000_0000 % 256) as u8,
        (x / 0x100_0000_0000_0000) as u8,
    ]
}

/// The four bytes of `x`, most significant first.
pub open spec fn u32_be(x: u32) -> Seq<u8> {
    seq![
        (x / 0x100_0000) as u8,
        (x / 0x1_0000 % 256) as u8,
        (x / 0x100 % 256) as u8,
        (x % 256) as u8,
    ]
}

/// The number that the two bytes at `at` spell, least significant first.
pub open spec fn u16_le_at(b: Seq<u8>, at: int) -> int {
    b[at] + 0x100 * b[at + 1]
}

/// The number that the four bytes at `at` spell, least significant first.
pub open spec fn u32_le_at(b: Seq<u8>, at: int) -> int {
    b[at] + 0x100 * b[at + 1] + 0x1_0000 * b[at + 2] + 0x100_0000 * b[at + 3]
}

/// The number that the eight bytes at `at` spell, least significant first.
pub open spec fn u64_le_at(b: Seq<u8>, at: int) -> int {
    b[at] + 0x100 * b[at + 1] + 0x1_0000 * b[at + 2] + 0x100_0000 * b[at + 3] + 0x1_0000_0000
        * b[at + 4] + 0x100_0000_0000 * b[at + 5] + 0x1_0000_0000_0000 * b[at + 6]
        + 0x100_0000_0000_0000 * b[at + 7]
}

/// The number that the two bytes at `at` spell, most significant first.
pub open spec fn u16_be_at(b: Seq<u8>, at: int) -> int {
    0x100 * b[at] + b[at + 1]
}

/// The number that the four bytes at `at` spell, most significant first.
pub open spec fn u32_be_at(b: Seq<u8>, at: int) -> int {
    0x100_0000 * b[at] + 0x1_0000 * b[at + 1] + 0x100 * b[at + 2] + b[at + 3]
}

/// Appends the little-endian bytes of `x` to `out`.
pub fn push_u16_le(out: &mut Vec<u8>, x: u16)
    ensures
        final(out)@ == old(out)@ + u16_le(x),
{
    out.push((x % 256) as u8);
    out.push((x / 256) as u8);
    assert(out@ =~= old(out)@ + u16_le(x));
}

/// Appends the little-endian bytes of `x` to `out`.
pub fn push_u32_le(out: &mut Vec<u8>, x: u32)
    ensures
        final(out)@ == old(out)@ + u32_le(x),
{
    out.push((x % 256) as u8);
    out.push((x / 0x100 % 256) as u8);
    out.push((x / 0x1_0000 % 256) as u8);
    out.push((x / 0x100_0000) as u8);
    assert(out@ =~= old(out)@ + u32_le(x));
}

/// Appends the little-endian bytes of `x` to `out`.
pub fn push_u64_le(out: &mut Vec<u8>, x: u64)
    ensures
        final(out)@ == old(out)@ + u64_le(x),
{
    out.push((x % 256) as u8);
    out.push((x / 0x100 % 256) as u8);
    out.push((x / 0x1_0000 % 256) as u8);
    out.push((x / 0x100_0000 % 256) as u8);
    out.push((x / 0x1_0000_0000 % 256) as u8);
    out.push((x / 0x100_0000_0000 % 256) as u8);
    out.push((x / 0x1_0000_0000_0000 % 256) as u8);
    out.push((x / 0x100_0000_0000_0000) as u8);
    assert(out@ =~= old(out)@ + u64_le(x));
}

/// Appends the big-endian bytes of `x` to `out`.
pub fn push_u32_be(out: &mut Vec<u8>, x: u32)
    ensures
        final(out)@ == old(out)@ + u32_be(x),
{
    out.push((x / 0x100_0000) as u8);
    out.push((x / 0x1_0000 % 256) as u8);
    out.push((x / 0x100 % 256) as u8);
    out.push((x % 256) as u8);
    assert(out@ =~= old(out)@ + u32_be(x));
}

/// Reads a little-endian `u16` at `at`.
pub fn read_u16_le(b: &[u8], at: usize) -> (x: u16)
    requires
        at + 2 <= b@.len(),
    ensures
        x == u16_le_at(b@, at as int),
{
    b[at] as u16 + 0x100 * (b[at + 1] as u16)
}

/// Reads a little-endian `u32` at `at`.
pub fn read_u32_le(b: &[u8], at: usize) -> (x: u32)
    requires
        at + 4 <= b@.len(),
    ensures
        x == u32_le_at(b@, at as int),
{
    b[at] as u32 + 0x100 * (b[at + 1] as u32) + 0x1_0000 * (b[at + 2] as u32) + 0x100_0000 * (b[at
        + 3] as u32)
}

/// Reads a little-endian `u64` at `at`.
pub fn read_u64_le(b: &[u8], at: usize) -> (x: u64)
    requires
        at + 8 <= b@.len(),
    ensures
        x == u64_le_at(b@, at as int),
{
    b[at] as u64 + 0x100 * (b[at + 1] as u64) + 0x1_0000 * (b[at + 2] as u64) + 0x100_0000 * (b[at
        + 3] as u64) + 0x1_0000_0000 * (b[at + 4] as u64) + 0x100_0000_0000 * (b[at + 5] as u64)
        + 0x1_0000_0000_0000 * (b[at + 6] as u64) + 0x100_0000_0000_0000 * (b[at + 7] as u64)
}

/// Reads a big-endian `u16` at `at`.
pub fn read_u16_be(b: &[u8], at: usize) -> (x: u16)
    requires
        at + 2 <= b@.len(),
    ensures
        x == u16_be_at(b@, at as int),
{
    0x100 * (b[at] as u16) + b[at + 1] as u16
}

/// Reads a big-endian `u32` at `at`.
pub fn read_u32_be(b: &[u8], at: usize) -> (x: u32)
    requires
        at + 4 <= b@.len(),
    ensures
        x == u32_be_at(b@, at as int),
{
    0x100_0000 * (b[at] as u32) + 0x1_0000 * (b[at + 1] as u32) + 0x100 * (b[at + 2] as u32) + b[at
        + 3] as u32
}

/// Reading back what was written gives the number again.
pub proof fn lemma_u16_le_round_trip(x: u16)
    ensures
        u16_le(x).len() == 2,
        u16_le_at(u16_le(x), 0) == x,
{
}

/// Reading back what was written gives the number again.
pub proof fn lemma_u32_le_round_trip(x: u32)
    ensures
        u32_le(x).len() == 4,
        u32_le_at(u32_le(x), 0) == x,
{
}

/// Reading back what was written gives the number again.
pub proof fn lemma_u64_le_round_trip(x: u64)
    ensures
        u64_le(x).len() == 8,
        u64_le_at(u64_le(x), 0) == x,
{
    assert(x == (x % 256) + 0x100 * (x / 0x100 % 256) + 0x1_0000 * (x / 0x1_0000 % 256)
        + 0x100_0000 * (x / 0x100_0000 % 256) + 0x1_0000_0000 * (x / 0x1_0000_0000 % 256)
        + 0x100_0000_0000 * (x / 0x100_0000_0000 % 256) + 0x1_0000_0000_0000 * (x
        / 0x1_0000_0000_0000 % 256) + 0x100_0000_0000_0000 * (x / 0x100_0000_0000_0000))
        by (bit_vector);
}

/// Reading back what was written gives the number again.
pub proof fn lemma_u32_be_round_trip(x: u32)
    ensures
        u32_be(x).len() == 4,
        u32_be_at(u32_be(x), 0) == x,
{
}

/// Writing what was read gives the two bytes again.
pub proof fn lemma_u16_le_read_back(b: Seq<u8>, at: int)
    requires
        0 <= at,
        at + 2 <= b.len(),
    ensures
        0 <= u16_le_at(b, at) <= u16::MAX,
        u16_le(u16_le_at(b, at) as u16) == b.subrange(at, at + 2),
{
    assert(u16_le(u16_le_at(b, at) as u16) =~= b.subrange(at, at + 2));
}

/// Writing what was read gives the four bytes again.
pub proof fn lemma_u32_le_read_back(b: Seq<u8>, at: int)
    requires
        0 <= at,
        at + 4 <= b.len(),
    ensures
        0 <= u32_le_at(b, at) <= u32::MAX,
        u32_le(u32_le_at(b, at) as u32) == b.subrange(at, at + 4),
{
    let (b0, b1, b2, b3) = (b[at], b[at + 1], b[at + 2], b[at + 3]);
    let x = u32_le_at(b, at) as u32;
    assert(x % 256 == b0 && x / 0x100 % 256 == b1 && x / 0x1_0000 % 256 == b2 && x / 0x100_0000
        == b3) by (bit_vector)
        requires
            x == b0 as u32 + 0x100 * (b1 as u32) + 0x1_0000 * (b2 as u32) + 0x100_0000 * (
            b3 as u32),
    ;
    assert(u32_le(x) =~= b.subrange(at, at + 4));
}

/// Writing what was read gives the eight bytes again.
pub proof fn lemma_u64_le_read_back(b: Seq<u8>, at: int)
    requires
        0 <= at,
        at + 8 <= b.len(),
    ensures
        0 <= u64_le_at(b, at) <= u64::MAX,
        u64_le(u64_le_at(b, at) as u64) == b.subrange(at, at + 8),
{
    let (b0, b1, b2, b3) = (b[at], b[at + 1], b[at + 2], b[at + 3]);
    let (b4, b5, b6, b7) = (b[at + 4], b[at + 5], b[at + 6], b[at + 7]);
    let x = u64_le_at(b, at) as u64;
    assert(x == b0 as u64 + 0x100 * (b1 as u64) + 0x1_0000 * (b2 as u64) + 0x100_0000 * (b3 as u64)
        + 0x1_0000_0000 * (b4 as u64) + 0x100_0000_0000 * (b5 as u64) + 0x1_0000_0000_0000 * (
    b6 as u64) + 0x100_0000_0000_0000 * (b7 as u64));
    assert(x % 256 == b0 && x / 0x100 % 256 == b1 && x / 0x1_0000 % 256 == b2 && x / 0x100_0000
        % 256 == b3 && x / 0x1_0000_0000 % 256 == b4 && x / 0x100_0000_0000 % 256 == b5 && x
        / 0x1_0000_0000_0000 % 256 == b6 && x / 0x100_0000_0000_0000 == b7) by (bit_vector)
        requires
            x == b0 as u64 + 0x100 * (b1 as u64) + 0x1_0000 * (b2 as u64) + 0x100_0000 * (
            b3 as u64) + 0x1_0000_0000 * (b4 as u64) + 0x100_0000_0000 * (b5 as u64)
                + 0x1_0000_0000_0000 * (b6 as u64) + 0x100_0000_0000_0000 * (b7 as u64),
    ;
    assert(u64_le(x) =~= b.subrange(at, at + 8));
}

/// Writing what was read gives the four bytes again.
pub proof fn lemma_u32_be_read_back(b: Seq<u8>, at: int)
    requires
        0 <= at,
        at + 4 <= b.len(),
    ensures
        0 <= u32_be_at(b, at) <= u32::MAX,
        u32_be(u32_be_at(b, at) as u32) == b.subrange(at, at + 4),
{
    let (b0, b1, b2, b3) = (b[at], b[at + 1], b[at + 2], b[at + 3]);
    let x = u32_be_at(b, at) as u32;
    assert(x % 256 == b3 && x / 0x100 % 256 == b2 && x / 0x1_0000 % 256 == b1 && x / 0x100_0000
        == b0) by (bit_vector)
        requires
            x == b3 as u32 + 0x100 * (b2 as u32) + 0x1_0000 * (b1 as u32) + 0x100_0000 * (
            b0 as u32),
    ;
    assert(u32_be(x) =~= b.subrange(at, at + 4));
}

} // verus!
