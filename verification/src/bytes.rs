//! Big-endian views of fixed-width integers, as the wire format uses them.

use vstd::prelude::*;

verus! {

/// The big-endian `u16` held by a two-byte sequence.
pub open spec fn spec_be_u16(s: Seq<u8>) -> u16
    recommends
        s.len() == 2,
{
    ((s[0] as u16) << 8) | (s[1] as u16)
}

/// The big-endian `u32` held by a four-byte sequence.
pub open spec fn spec_be_u32(s: Seq<u8>) -> u32
    recommends
        s.len() == 4,
{
    ((s[0] as u32) << 24) | ((s[1] as u32) << 16) | ((s[2] as u32) << 8) | (s[3] as u32)
}

/// The big-endian `i16` held by a two-byte sequence.
pub open spec fn spec_be_i16(s: Seq<u8>) -> i16
    recommends
        s.len() == 2,
{
    spec_be_u16(s) as i16
}

/// The big-endian `i32` held by a four-byte sequence.
pub open spec fn spec_be_i32(s: Seq<u8>) -> i32
    recommends
        s.len() == 4,
{
    spec_be_u32(s) as i32
}

/// The four bytes that encode `v` in big-endian order.
pub open spec fn spec_u32_to_be(v: u32) -> Seq<u8> {
    seq![(v >> 24) as u8, (v >> 16) as u8, (v >> 8) as u8, v as u8]
}

/// The four bytes that encode `v` in big-endian order.
pub open spec fn spec_i32_to_be(v: i32) -> Seq<u8> {
    spec_u32_to_be(v as u32)
}

/// Reading back the four bytes written for a `u32` restores the value.
pub proof fn lemma_be_u32_round_trip(v: u32)
    ensures
        spec_be_u32(spec_u32_to_be(v)) == v,
{
    assert((((v >> 24) as u8 as u32) << 24) | (((v >> 16) as u8 as u32) << 16) | (((v
        >> 8) as u8 as u32) << 8) | (v as u8 as u32) == v) by (bit_vector);
}

/// Reading back the four bytes written for an `i32` restores the value.
pub proof fn lemma_be_i32_round_trip(v: i32)
    ensures
        spec_be_i32(spec_i32_to_be(v)) == v,
{
    lemma_be_u32_round_trip(v as u32);
    assert(v as u32 as i32 == v) by (bit_vector);
}

} // verus!
