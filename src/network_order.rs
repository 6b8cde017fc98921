//! Big-endian (network byte order) integers read from and written to bytes.

use vstd::prelude::*;

verus! {

/// The big-endian `u16` at `b[i..i + 2]`.
pub open spec fn be16(b: Seq<u8>, i: int) -> int {
    b[i] * 256 + b[i + 1]
}

/// The big-endian 24-bit integer at `b[i..i + 3]`.
pub open spec fn be24(b: Seq<u8>, i: int) -> int {
    b[i] * 65536 + b[i + 1] * 256 + b[i + 2]
}

/// The big-endian `u32` at `b[i..i + 4]`.
pub open spec fn be32(b: Seq<u8>, i: int) -> int {
    b[i] * 16777216 + b[i + 1] * 65536 + b[i + 2] * 256 + b[i + 3]
}

/// The big-endian `u64` at `b[i..i + 8]`.
pub open spec fn be64(b: Seq<u8>, i: int) -> int {
    be32(b, i) * 4294967296 + be32(b, i + 4)
}

/// The two bytes of `x`, most significant first.
pub open spec fn be16_bytes(x: u16) -> Seq<u8> {
    seq![(x / 256) as u8, (x % 256) as u8]
}

/// The four bytes of `x`, most significant first.
pub open spec fn be32_bytes(x: u32) -> Seq<u8> {
    seq![(x / 16777216) as u8, ((x / 65536) % 256) as u8, ((x / 256) % 256) as u8, (x % 256) as u8]
}

pub fn read_u16_be(b: &[u8], i: usize) -> (r: u16)
    requires
        i + 2 <= b@.len(),
    ensures
        r == be16(b@, i as int),
{
    (b[i] as u16) * 256 + (b[i + 1] as u16)
}

pub fn read_u24_be(b: &[u8], i: usize) -> (r: u32)
    requires
        i + 3 <= b@.len(),
    ensures
        r == be24(b@, i as int),
{
    (b[i] as u32) * 65536 + (b[i + 1] as u32) * 256 + (b[i + 2] as u32)
}

pub fn read_u32_be(b: &[u8], i: usize) -> (r: u32)
    requires
        i + 4 <= b@.len(),
    ensures
        r == be32(b@, i as int),
{
    (b[i] as u32) * 16777216 + (b[i + 1] as u32) * 65536 + (b[i + 2] as u32) * 256 + (b[i + 3] as u32)
}

pub fn read_u64_be(b: &[u8], i: usize) -> (r: u64)
    requires
        i + 8 <= b@.len(),
    ensures
        r == be64(b@, i as int),
{
    assert(b@.len() == b.len());
    let hi = read_u32_be(b, i) as u64;
    let lo = read_u32_be(b, i + 4) as u64;
    hi * 4294967296 + lo
}

/// Reading back the bytes of a `u16` gives the `u16`.
pub proof fn lemma_be16_round_trip(x: u16, b: Seq<u8>, i: int)
    requires
        0 <= i,
        i + 2 <= b.len(),
        b.subrange(i, i + 2) == be16_bytes(x),
    ensures
        be16(b, i) == x,
{
    assert(b[i] == be16_bytes(x)[0]);
    assert(b[i + 1] == be16_bytes(x)[1]);
}

/// Reading back the bytes of a `u32` gives the `u32`.
pub proof fn lemma_be32_round_trip(x: u32, b: Seq<u8>, i: int)
    requires
        0 <= i,
        i + 4 <= b.len(),
        b.subrange(i, i + 4) == be32_bytes(x),
    ensures
        be32(b, i) == x,
{
    assert(b[i] == be32_bytes(x)[0]);
    assert(b[i + 1] == be32_bytes(x)[1]);
    assert(b[i + 2] == be32_bytes(x)[2]);
    assert(b[i + 3] == be32_bytes(x)[3]);
}

} // verus!
