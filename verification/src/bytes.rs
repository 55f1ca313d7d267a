//! Words as bytes, least significant byte first.

use vstd::prelude::*;

verus! {

/// The value of two bytes read as a little-endian `u16`.
pub open spec fn spec_u16_from_le(lo: u8, hi: u8) -> u16 {
    (lo as int + 256 * hi as int) as u16
}

/// The value of four bytes read as a little-endian `u32`.
pub open spec fn spec_u32_from_le(b0: u8, b1: u8, b2: u8, b3: u8) -> u32 {
    (b0 as int + 256 * b1 as int + 65536 * b2 as int + 16777216 * b3 as int) as u32
}

/// The two bytes of a `u16`, least significant first.
pub open spec fn spec_u16_to_le(value: u16) -> Seq<u8> {
    seq![(value % 256) as u8, (value / 256) as u8]
}

/// The four bytes of a `u32`, least significant first.
pub open spec fn spec_u32_to_le(value: u32) -> Seq<u8> {
    seq![
        (value % 256) as u8,
        (value / 256 % 256) as u8,
        (value / 65536 % 256) as u8,
        (value / 16777216) as u8,
    ]
}

#[verifier::when_used_as_spec(spec_u16_from_le)]
pub fn u16_from_le(lo: u8, hi: u8) -> (value: u16)
    ensures
        value == spec_u16_from_le(lo, hi),
{
    lo as u16 + 256 * (hi as u16)
}

#[verifier::when_used_as_spec(spec_u32_from_le)]
pub fn u32_from_le(b0: u8, b1: u8, b2: u8, b3: u8) -> (value: u32)
    ensures
        value == spec_u32_from_le(b0, b1, b2, b3),
{
    b0 as u32 + 256 * (b1 as u32) + 65536 * (b2 as u32) + 16777216 * (b3 as u32)
}

/// The two bytes of a `u16`, least significant first.
pub fn u16_to_le(value: u16) -> (bytes: [u8; 2])
    ensures
        bytes@ == spec_u16_to_le(value),
{
    let bytes: [u8; 2] = [(value % 256) as u8, (value / 256) as u8];
    assert(bytes@ =~= spec_u16_to_le(value));
    bytes
}

/// The four bytes of a `u32`, least significant first.
pub fn u32_to_le(value: u32) -> (bytes: [u8; 4])
    ensures
        bytes@ == spec_u32_to_le(value),
{
    let bytes: [u8; 4] = [
        (value % 256) as u8,
        (value / 256 % 256) as u8,
        (value / 65536 % 256) as u8,
        (value / 16777216) as u8,
    ];
    assert(bytes@ =~= spec_u32_to_le(value));
    bytes
}

/// Two bytes written from a `u16` read back as the same `u16`.
pub proof fn lemma_u16_le_round_trip(value: u16)
    ensures
        spec_u16_to_le(value).len() == 2,
        spec_u16_from_le(spec_u16_to_le(value)[0], spec_u16_to_le(value)[1]) == value,
{
}

/// Four bytes written from a `u32` read back as the same `u32`.
pub proof fn lemma_u32_le_round_trip(value: u32)
    ensures
        spec_u32_to_le(value).len() == 4,
        spec_u32_from_le(
            spec_u32_to_le(value)[0],
            spec_u32_to_le(value)[1],
            spec_u32_to_le(value)[2],
            spec_u32_to_le(value)[3],
        ) == value,
{
}

} // verus!
