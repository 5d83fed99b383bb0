//! Big-endian byte-order conversions shared by the stream reader and the
//! packet codec, with round-trip lemmas between the encode and decode
//! directions.

use vstd::prelude::*;

verus! {

/// The unsigned 16-bit value of two big-endian bytes.
pub open spec fn be16(b0: u8, b1: u8) -> u16 {
    ((b0 as u16) << 8 | (b1 as u16)) as u16
}

/// The unsigned 32-bit value of four big-endian bytes.
pub open spec fn be32(b0: u8, b1: u8, b2: u8, b3: u8) -> u32 {
    ((b0 as u32) << 24 | (b1 as u32) << 16 | (b2 as u32) << 8 | (b3 as u32)) as u32
}

/// The unsigned 64-bit value of eight big-endian bytes.
pub open spec fn be64(b0: u8, b1: u8, b2: u8, b3: u8, b4: u8, b5: u8, b6: u8, b7: u8) -> u64 {
    ((b0 as u64) << 56 | (b1 as u64) << 48 | (b2 as u64) << 40 | (b3 as u64) << 32
        | (b4 as u64) << 24 | (b5 as u64) << 16 | (b6 as u64) << 8 | (b7 as u64)) as u64
}

/// The unsigned 16-bit value of a two-byte big-endian sequence.
pub open spec fn be16_seq(s: Seq<u8>) -> u16
    recommends
        s.len() == 2,
{
    be16(s[0], s[1])
}

/// The unsigned 32-bit value of a four-byte big-endian sequence.
pub open spec fn be32_seq(s: Seq<u8>) -> u32
    recommends
        s.len() == 4,
{
    be32(s[0], s[1], s[2], s[3])
}

/// The unsigned 64-bit value of an eight-byte big-endian sequence.
pub open spec fn be64_seq(s: Seq<u8>) -> u64
    recommends
        s.len() == 8,
{
    be64(s[0], s[1], s[2], s[3], s[4], s[5], s[6], s[7])
}

/// The two big-endian bytes of an unsigned 16-bit value.
pub open spec fn be16_bytes(v: u16) -> Seq<u8> {
    seq![(v >> 8) as u8, v as u8]
}

/// The four big-endian bytes of an unsigned 32-bit value.
pub open spec fn be32_bytes(v: u32) -> Seq<u8> {
    seq![(v >> 24) as u8, (v >> 16) as u8, (v >> 8) as u8, v as u8]
}

/// The eight big-endian bytes of an unsigned 64-bit value.
pub open spec fn be64_bytes(v: u64) -> Seq<u8> {
    seq![
        (v >> 56) as u8,
        (v >> 48) as u8,
        (v >> 40) as u8,
        (v >> 32) as u8,
        (v >> 24) as u8,
        (v >> 16) as u8,
        (v >> 8) as u8,
        v as u8,
    ]
}

/// Reading back the bytes of a 16-bit value gives the value again.
pub proof fn lemma_be16_round_trip(v: u16)
    ensures
        be16_seq(be16_bytes(v)) == v,
{
    assert(be16((v >> 8) as u8, v as u8) == v) by (bit_vector);
}

/// Reading back the bytes of a 32-bit value gives the value again.
pub proof fn lemma_be32_round_trip(v: u32)
    ensures
        be32_seq(be32_bytes(v)) == v,
{
    assert(be32((v >> 24) as u8, (v >> 16) as u8, (v >> 8) as u8, v as u8) == v)
        by (bit_vector);
}

/// Reading back the bytes of a 64-bit value gives the value again.
pub proof fn lemma_be64_round_trip(v: u64)
    ensures
        be64_seq(be64_bytes(v)) == v,
{
    assert(be64(
        (v >> 56) as u8,
        (v >> 48) as u8,
        (v >> 40) as u8,
        (v >> 32) as u8,
        (v >> 24) as u8,
        (v >> 16) as u8,
        (v >> 8) as u8,
        v as u8,
    ) == v) by (bit_vector);
}

/// The signed reading of an unsigned 16-bit wire value (two's complement).
pub open spec fn as_i16(v: u16) -> i16 {
    v as i16
}

/// The signed reading of an unsigned 32-bit wire value (two's complement).
pub open spec fn as_i32(v: u32) -> i32 {
    v as i32
}

/// The signed reading of an unsigned 64-bit wire value (two's complement).
pub open spec fn as_i64(v: u64) -> i64 {
    v as i64
}

/// The signed reading of an unsigned byte (two's complement).
pub open spec fn as_i8(v: u8) -> i8 {
    v as i8
}

/// The unsigned 16-bit value of two big-endian bytes taken from a slice.
pub fn to_ushort(data: &[u8]) -> (r: u16)
    requires
        data@.len() == 2,
    ensures
        r == be16_seq(data@),
{
    (data[0] as u16) << 8 | (data[1] as u16)
}

} // verus!
