//! The two bytes that open the payload of every EtherCAT frame.

use vstd::prelude::*;
use crate::bytes::{spec_u16_from_le, spec_u16_to_le, u16_from_le, u16_to_le};
use crate::error::PduError;

verus! {

/// Number of bytes a frame header takes on the wire.
pub const FRAME_HEADER_LEN: usize = 2;

/// Largest payload length a frame header can declare: eleven bits.
pub const LEN_MASK: u16 = 0x07FF;

/// Protocol type of a frame that carries PDUs.
pub const PROTOCOL_TYPE_PDU: u16 = 1;

/// An EtherCAT frame header: a little-endian word whose bits 0 to 10 hold
/// the payload length in bytes, bits 11 to 13 are reserved, and bits 14 and
/// 15 hold the protocol type.
#[derive(Debug, Clone, Copy, PartialEq, Eq, Structural)]
pub struct FrameHeader(pub u16);

impl FrameHeader {
    /// The declared payload length: bits 0 to 10.
    pub open spec fn spec_payload_len(self) -> u16 {
        self.0 % 0x0800
    }

    /// The reserved field: bits 11 to 13.
    pub open spec fn spec_reserved(self) -> u16 {
        self.0 / 0x0800 % 8
    }

    /// The protocol type: bits 14 and 15.
    pub open spec fn spec_protocol_type(self) -> u16 {
        self.0 / 0x4000
    }

    /// The header of a frame that carries `len` bytes of PDUs.
    pub open spec fn spec_pdu(len: u16) -> FrameHeader {
        FrameHeader((len + 0x4000) as u16)
    }

    /// The two bytes of the header as they stand on the wire.
    pub open spec fn spec_bytes(self) -> Seq<u8> {
        spec_u16_to_le(self.0)
    }

    /// Header of a frame that carries `len` bytes of PDUs, with the reserved
    /// bits clear.
    pub fn pdu(len: u16) -> (header: FrameHeader)
        requires
            len <= LEN_MASK,
        ensures
            header == Self::spec_pdu(len),
            header.spec_payload_len() == len,
            header.spec_reserved() == 0,
            header.spec_protocol_type() == PROTOCOL_TYPE_PDU,
    {
        assert(len <= 0x07FF ==> (len | (1u16 << 14)) == len + 0x4000) by (bit_vector);
        FrameHeader(len | (PROTOCOL_TYPE_PDU << 14))
    }

    /// Reads a header off the front of `i` and hands back what follows it.
    pub fn parse(i: &[u8]) -> (result: Result<(&[u8], FrameHeader), PduError>)
        ensures
            i@.len() < FRAME_HEADER_LEN ==> result == Err::<(&[u8], FrameHeader), PduError>(
                PduError::Decode,
            ),
            i@.len() >= FRAME_HEADER_LEN ==> result is Ok && result->Ok_0.0@ == i@.skip(2)
                && result->Ok_0.1 == FrameHeader(spec_u16_from_le(i@[0], i@[1])),
    {
        if i.len() < FRAME_HEADER_LEN {
            return Err(PduError::Decode);
        }
        let raw: u16 = u16_from_le(i[0], i[1]);
        let rest: &[u8] = vstd::slice::slice_subrange(i, FRAME_HEADER_LEN, i.len());
        assert(rest@ =~= i@.skip(2));
        Ok((rest, FrameHeader(raw)))
    }

    #[verifier::when_used_as_spec(spec_payload_len)]
    pub fn payload_len(self) -> (len: u16)
        ensures
            len == self.spec_payload_len(),
            len <= LEN_MASK,
    {
        let raw: u16 = self.0;
        assert(raw & 0x07FF == raw % 0x0800) by (bit_vector);
        raw & LEN_MASK
    }

    #[verifier::when_used_as_spec(spec_protocol_type)]
    pub fn protocol_type(self) -> (ty: u16)
        ensures
            ty == self.spec_protocol_type(),
    {
        let raw: u16 = self.0;
        assert(raw >> 14 == raw / 0x4000) by (bit_vector);
        raw >> 14
    }

    /// The two bytes of the header, least significant first.
    pub fn to_bytes(self) -> (bytes: [u8; 2])
        ensures
            bytes@ == self.spec_bytes(),
    {
        u16_to_le(self.0)
    }
}

/// A header written out and read back is the same header, and what followed
/// it is handed back untouched.
pub proof fn lemma_frame_header_round_trip(header: FrameHeader, rest: Seq<u8>)
    ensures
        (header.spec_bytes() + rest).len() == FRAME_HEADER_LEN + rest.len(),
        FrameHeader(
            spec_u16_from_le((header.spec_bytes() + rest)[0], (header.spec_bytes() + rest)[1]),
        ) == header,
        (header.spec_bytes() + rest).skip(2) == rest,
{
    crate::bytes::lemma_u16_le_round_trip(header.0);
    assert((header.spec_bytes() + rest).skip(2) =~= rest);
}

} // verus!
