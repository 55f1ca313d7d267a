//! One PDU as it stands on the wire, and the codec that reads and writes it.
//!
//! A PDU is a command byte, an index byte, four address bytes, a flags word,
//! an interrupt-request word, the data, and a working counter; every word is
//! little-endian. Inside an EtherCAT frame it follows a two-byte frame header
//! that declares how many bytes the PDU takes.

use vstd::prelude::*;
use crate::bytes::{
    lemma_u16_le_round_trip, lemma_u32_le_round_trip, spec_u16_from_le, spec_u16_to_le,
    u16_from_le, u16_to_le,
};
use crate::command::{Command, CommandCode};
use crate::error::{PduError, PduValidationError};
use crate::ethernet::{
    lemma_ethernet_round_trip, spec_ethernet_frame, write_ethernet_header, ETHERNET_HEADER_LEN,
};
use crate::frame_header::{FrameHeader, FRAME_HEADER_LEN, LEN_MASK};
use crate::{BROADCAST_ADDR, ETHERCAT_ETHERTYPE, MASTER_ADDR};

verus! {

/// Bytes of a PDU besides its data: command, index, address, flags,
/// interrupt request and working counter.
pub const PDU_OVERHEAD: usize = 12;

/// Most data bytes one PDU can carry, so that its length still fits the
/// eleven bits of the frame header.
pub const MAX_DATA_LEN: u16 = 2035;

/// The flags word of a PDU: bits 0 to 10 hold the length of the data, bits
/// 11 to 14 are reserved, bit 15 says that another PDU follows.
#[derive(Debug, Clone, Copy, PartialEq, Eq, Structural)]
pub struct PduFlags {
    /// Number of data bytes.
    pub length: u16,
    /// Whether another PDU follows this one in the frame.
    pub is_not_last: bool,
}

impl PduFlags {
    /// The length fits its eleven bits.
    pub open spec fn wf(self) -> bool {
        self.length <= LEN_MASK
    }

    /// The word that stands for these flags, reserved bits clear.
    pub open spec fn spec_pack(self) -> u16 {
        (self.length + if self.is_not_last { 0x8000int } else { 0int }) as u16
    }

    /// The flags a word stands for; the reserved bits are not looked at.
    pub open spec fn spec_unpack(raw: u16) -> PduFlags {
        PduFlags { length: raw % 0x0800, is_not_last: raw >= 0x8000 }
    }

    /// Flags of a single PDU with `len` bytes of data.
    pub fn with_len(len: u16) -> (flags: PduFlags)
        ensures
            flags == (PduFlags { length: len, is_not_last: false }),
    {
        PduFlags { length: len, is_not_last: false }
    }

    /// Number of data bytes.
    pub fn len(self) -> (len: u16)
        ensures
            len == self.length,
    {
        self.length
    }

    /// The two bytes of the flags word, least significant first.
    pub fn pack(self) -> (bytes: [u8; 2])
        requires
            self.wf(),
        ensures
            bytes@ == spec_u16_to_le(self.spec_pack()),
    {
        let len: u16 = self.length;
        let high: u16 = if self.is_not_last { 0x8000 } else { 0 };
        assert(len <= 0x07FF ==> (len | 0x8000u16) == len + 0x8000 && (len | 0u16) == len)
            by (bit_vector);
        u16_to_le(len | high)
    }

    /// Reads the flags from a slice of exactly two bytes.
    pub fn unpack_from_slice(i: &[u8]) -> (result: Result<PduFlags, PduError>)
        ensures
            i@.len() != 2 ==> result == Err::<PduFlags, PduError>(PduError::Decode),
            i@.len() == 2 ==> result == Ok::<PduFlags, PduError>(
                Self::spec_unpack(spec_u16_from_le(i@[0], i@[1])),
            ),
            result matches Ok(flags) ==> flags.wf(),
    {
        if i.len() != 2 {
            return Err(PduError::Decode);
        }
        let raw: u16 = u16_from_le(i[0], i[1]);
        assert(raw & 0x07FF == raw % 0x0800 && ((raw & 0x8000) != 0 <==> raw >= 0x8000))
            by (bit_vector);
        Ok(PduFlags { length: raw & LEN_MASK, is_not_last: (raw & 0x8000) != 0 })
    }
}

/// Flags packed into a word and read back are the same flags.
pub proof fn lemma_flags_round_trip(flags: PduFlags)
    requires
        flags.wf(),
    ensures
        PduFlags::spec_unpack(flags.spec_pack()) == flags,
{
}

/// A PDU whose data is borrowed from the bytes it was read from.
#[derive(Debug, Clone, Copy, PartialEq, Eq)]
pub struct Pdu<'a> {
    pub command: Command,
    pub index: u8,
    pub flags: PduFlags,
    pub irq: u16,
    pub data: &'a [u8],
    pub working_counter: u16,
}

/// What a PDU says, with its data as a sequence of bytes.
pub struct PduView {
    pub command: Command,
    pub index: u8,
    pub flags: PduFlags,
    pub irq: u16,
    pub data: Seq<u8>,
    pub working_counter: u16,
}

impl<'a> View for Pdu<'a> {
    type V = PduView;

    open spec fn view(&self) -> PduView {
        PduView {
            command: self.command,
            index: self.index,
            flags: self.flags,
            irq: self.irq,
            data: self.data@,
            working_counter: self.working_counter,
        }
    }
}

impl PduView {
    /// The flags declare exactly the data that is there, and the whole PDU
    /// fits the length field of a frame header.
    pub open spec fn wf(self) -> bool {
        &&& self.data.len() == self.flags.length
        &&& self.flags.length <= MAX_DATA_LEN
    }

    /// The bytes of the PDU.
    pub open spec fn spec_bytes(self) -> Seq<u8> {
        seq![self.command.spec_code().spec_to_byte(), self.index]
            + self.command.spec_address()
            + spec_u16_to_le(self.flags.spec_pack())
            + spec_u16_to_le(self.irq)
            + self.data
            + spec_u16_to_le(self.working_counter)
    }

    /// The payload of the EtherCAT frame that carries just this PDU: the
    /// frame header, then the PDU.
    pub open spec fn spec_frame_bytes(self) -> Seq<u8> {
        FrameHeader::spec_pdu((PDU_OVERHEAD + self.flags.length) as u16).spec_bytes()
            + self.spec_bytes()
    }
}

/// `data` cut or filled with zeros to exactly `len` bytes.
pub open spec fn spec_padded(data: Seq<u8>, len: nat) -> Seq<u8> {
    Seq::new(len, |i: int| if i < data.len() { data[i] } else { 0u8 })
}

/// What `bytes` say when they are read as exactly one PDU.
pub open spec fn spec_parse_pdu(bytes: Seq<u8>) -> Result<PduView, PduError> {
    if bytes.len() < PDU_OVERHEAD {
        Err(PduError::Decode)
    } else {
        match CommandCode::spec_from_byte(bytes[0]) {
            None => Err(PduError::Decode),
            Some(code) => {
                let flags = PduFlags::spec_unpack(spec_u16_from_le(bytes[6], bytes[7]));
                let len = flags.length as int;
                if bytes.len() < PDU_OVERHEAD + len {
                    Err(PduError::Decode)
                } else if bytes.len() > PDU_OVERHEAD + len {
                    Err(PduError::Validation(PduValidationError::TrailingBytes))
                } else {
                    Ok(
                        PduView {
                            command: Command::spec_from_wire(code, bytes.subrange(2, 6)),
                            index: bytes[1],
                            flags,
                            irq: spec_u16_from_le(bytes[8], bytes[9]),
                            data: bytes.subrange(10, 10 + len),
                            working_counter: spec_u16_from_le(bytes[10 + len], bytes[11 + len]),
                        },
                    )
                }
            },
        }
    }
}

/// What the payload of an EtherCAT frame says: the frame header declares how
/// many of the bytes after it count, and those are read as exactly one PDU.
/// Bytes beyond the declared length are padding and are not looked at.
pub open spec fn spec_parse_frame(bytes: Seq<u8>) -> Result<PduView, PduError> {
    if bytes.len() < FRAME_HEADER_LEN {
        Err(PduError::Decode)
    } else {
        let header = FrameHeader(spec_u16_from_le(bytes[0], bytes[1]));
        let len = header.spec_payload_len() as int;
        if bytes.len() < FRAME_HEADER_LEN + len {
            Err(PduError::Decode)
        } else {
            spec_parse_pdu(bytes.subrange(2, 2 + len))
        }
    }
}

/// Hands back the first `count` bytes of `i` and what follows them.
pub fn take(count: usize, i: &[u8]) -> (result: Result<(&[u8], &[u8]), PduError>)
    ensures
        i@.len() < count ==> result == Err::<(&[u8], &[u8]), PduError>(PduError::Decode),
        i@.len() >= count ==> result is Ok && result->Ok_0.0@ == i@.skip(count as int)
            && result->Ok_0.1@ == i@.take(count as int),
{
    if i.len() < count {
        return Err(PduError::Decode);
    }
    let taken: &[u8] = vstd::slice::slice_subrange(i, 0, count);
    let rest: &[u8] = vstd::slice::slice_subrange(i, count, i.len());
    assert(taken@ =~= i@.take(count as int));
    assert(rest@ =~= i@.skip(count as int));
    Ok((rest, taken))
}

/// Reads one byte off the front of `i`.
pub fn byte(i: &[u8]) -> (result: Result<(&[u8], u8), PduError>)
    ensures
        i@.len() < 1 ==> result == Err::<(&[u8], u8), PduError>(PduError::Decode),
        i@.len() >= 1 ==> result is Ok && result->Ok_0.0@ == i@.skip(1) && result->Ok_0.1
            == i@[0],
{
    let (rest, taken) = take(1, i)?;
    Ok((rest, taken[0]))
}

/// Reads a little-endian `u16` off the front of `i`.
pub fn le_u16(i: &[u8]) -> (result: Result<(&[u8], u16), PduError>)
    ensures
        i@.len() < 2 ==> result == Err::<(&[u8], u16), PduError>(PduError::Decode),
        i@.len() >= 2 ==> result is Ok && result->Ok_0.0@ == i@.skip(2) && result->Ok_0.1
            == spec_u16_from_le(i@[0], i@[1]),
{
    let (rest, taken) = take(2, i)?;
    Ok((rest, u16_from_le(taken[0], taken[1])))
}

impl CommandCode {
    /// Reads the four address bytes that follow the index and builds the
    /// command they stand for.
    pub fn parse_address(self, i: &[u8]) -> (result: Result<(&[u8], Command), PduError>)
        ensures
            i@.len() < 4 ==> result == Err::<(&[u8], Command), PduError>(PduError::Decode),
            i@.len() >= 4 ==> result is Ok && result->Ok_0.0@ == i@.skip(4) && result->Ok_0.1
                == Command::spec_from_wire(self, i@.take(4)),
    {
        let (rest, taken) = take(4, i)?;
        let bytes: [u8; 4] = [taken[0], taken[1], taken[2], taken[3]];
        assert(bytes@ =~= i@.take(4));
        Ok((rest, self.with_address(bytes)))
    }
}

impl<'a> Pdu<'a> {
    /// Reads `i` as exactly one PDU.
    pub fn parse(i: &'a [u8]) -> (result: Result<Pdu<'a>, PduError>)
        ensures
            match result {
                Ok(pdu) => spec_parse_pdu(i@) == Ok::<PduView, PduError>(pdu@) && pdu@.data.len()
                    == pdu.flags.length && pdu.flags.wf(),
                Err(e) => spec_parse_pdu(i@) == Err::<PduView, PduError>(e),
            },
    {
        if i.len() < PDU_OVERHEAD {
            return Err(PduError::Decode);
        }
        let (rest, code_byte) = byte(i)?;
        let code: CommandCode = match CommandCode::try_from(code_byte) {
            Ok(code) => code,
            Err(e) => {
                return Err(PduError::Decode);
            },
        };
        let (rest, index) = byte(rest)?;
        let (rest, command) = code.parse_address(rest)?;
        assert(i@.skip(1).skip(1).take(4) =~= i@.subrange(2, 6));
        let (rest, flag_bytes) = take(2, rest)?;
        let flags: PduFlags = PduFlags::unpack_from_slice(flag_bytes)?;
        let (rest, irq) = le_u16(rest)?;
        assert(rest@ =~= i@.skip(10));
        let (rest, data) = take(flags.length as usize, rest)?;
        let (rest, working_counter) = le_u16(rest)?;
        if rest.len() != 0 {
            return Err(PduError::Validation(PduValidationError::TrailingBytes));
        }
        assert(data@ =~= i@.subrange(10, 10 + flags.length));
        Ok(Pdu { command, index, flags, irq, data, working_counter })
    }

    /// Reads the payload of an EtherCAT frame: the frame header, then exactly
    /// one PDU in the bytes the header declares.
    pub fn parse_frame(i: &'a [u8]) -> (result: Result<Pdu<'a>, PduError>)
        ensures
            match result {
                Ok(pdu) => spec_parse_frame(i@) == Ok::<PduView, PduError>(pdu@) && pdu@.data.len()
                    == pdu.flags.length && pdu.flags.wf(),
                Err(e) => spec_parse_frame(i@) == Err::<PduView, PduError>(e),
            },
    {
        let (rest, header) = FrameHeader::parse(i)?;
        let (_padding, window) = take(header.payload_len() as usize, rest)?;
        assert(window@ =~= i@.subrange(2, 2 + header.spec_payload_len()));
        Pdu::parse(window)
    }
}

/// Copies `bytes` into `buffer` from position `at` on and hands back the
/// position after the last byte written.
pub fn put(buffer: &mut [u8], at: usize, bytes: &[u8]) -> (end: usize)
    requires
        at + bytes@.len() <= old(buffer)@.len(),
    ensures
        end == at + bytes@.len(),
        final(buffer)@ == old(buffer)@.take(at as int) + bytes@ + old(buffer)@.skip(end as int),
{
    let ghost before = buffer@;
    let size: usize = buffer.len();
    let mut k: usize = 0;
    while k < bytes.len()
        invariant
            k <= bytes@.len(),
            before.len() == size,
            at + bytes@.len() <= before.len(),
            buffer@.len() == before.len(),
            forall|j: int| 0 <= j < at ==> buffer@[j] == before[j],
            forall|j: int| at <= j < at + k ==> buffer@[j] == bytes@[j - at],
            forall|j: int| at + k <= j < before.len() ==> buffer@[j] == before[j],
        decreases bytes@.len() - k,
    {
        buffer[at + k] = bytes[k];
        k += 1;
    }
    assert(buffer@ =~= before.take(at as int) + bytes@ + before.skip(at + bytes@.len()));
    at + bytes.len()
}

/// Writes exactly `len` bytes into `buffer` from position `at` on: the bytes
/// of `data` as far as they go, then zeros.
pub fn put_padded(buffer: &mut [u8], at: usize, data: &[u8], len: usize) -> (end: usize)
    requires
        at + len <= old(buffer)@.len(),
    ensures
        end == at + len,
        final(buffer)@ == old(buffer)@.take(at as int) + spec_padded(data@, len as nat)
            + old(buffer)@.skip(end as int),
{
    let ghost before = buffer@;
    let size: usize = buffer.len();
    let mut k: usize = 0;
    while k < len
        invariant
            k <= len,
            before.len() == size,
            at + len <= before.len(),
            buffer@.len() == before.len(),
            forall|j: int| 0 <= j < at ==> buffer@[j] == before[j],
            forall|j: int| at <= j < at + k ==> buffer@[j] == spec_padded(data@, len as nat)[j - at],
            forall|j: int| at + k <= j < before.len() ==> buffer@[j] == before[j],
        decreases len - k,
    {
        let value: u8 = if k < data.len() { data[k] } else { 0 };
        buffer[at + k] = value;
        k += 1;
    }
    assert(buffer@ =~= before.take(at as int) + spec_padded(data@, len as nat) + before.skip(
        at + len,
    ));
    at + len
}

impl<'a> Pdu<'a> {
    /// What this PDU says once its data is cut or filled to the length its
    /// flags declare.
    pub open spec fn spec_padded_view(&self) -> PduView {
        PduView {
            command: self.command,
            index: self.index,
            flags: self.flags,
            irq: self.irq,
            data: spec_padded(self.data@, self.flags.length as nat),
            working_counter: self.working_counter,
        }
    }

    /// Number of bytes the Ethernet frame of this PDU takes.
    pub open spec fn spec_ethernet_len(&self) -> int {
        ETHERNET_HEADER_LEN + FRAME_HEADER_LEN + PDU_OVERHEAD + self.flags.length
    }

    /// Writes the Ethernet frame that carries this PDU from the master to
    /// all stations into the front of `buffer` and hands back its length.
    /// The data is cut or filled with zeros to the length the flags declare.
    /// Fails, and leaves `buffer` as it is, if the data is longer than a
    /// frame can declare or the buffer is too short.
    pub fn to_ethernet_frame(&self, buffer: &mut [u8]) -> (result: Result<usize, PduError>)
        ensures
            final(buffer)@.len() == old(buffer)@.len(),
            match result {
                Ok(len) => {
                    &&& self.flags.length <= MAX_DATA_LEN
                    &&& len == self.spec_ethernet_len()
                    &&& len <= old(buffer)@.len()
                    &&& final(buffer)@.take(len as int) == spec_ethercat_frame(
                        self.spec_padded_view(),
                    )
                    &&& final(buffer)@.skip(len as int) == old(buffer)@.skip(len as int)
                },
                Err(e) => {
                    &&& e == PduError::TooLong
                    &&& (self.flags.length > MAX_DATA_LEN || old(buffer)@.len()
                        < self.spec_ethernet_len())
                    &&& final(buffer)@ == old(buffer)@
                },
            },
    {
        if self.flags.length > MAX_DATA_LEN {
            return Err(PduError::TooLong);
        }
        let data_len: usize = self.flags.length as usize;
        let total: usize = ETHERNET_HEADER_LEN + FRAME_HEADER_LEN + PDU_OVERHEAD + data_len;
        if buffer.len() < total {
            return Err(PduError::TooLong);
        }
        let ghost before = buffer@;
        let ghost view = self.spec_padded_view();
        write_ethernet_header(buffer, BROADCAST_ADDR, MASTER_ADDR, ETHERCAT_ETHERTYPE);
        let ghost framed = buffer@;
        let header: [u8; 2] = FrameHeader::pdu((PDU_OVERHEAD + data_len) as u16).to_bytes();
        let address: [u8; 4] = self.command.address();
        let flags: [u8; 2] = self.flags.pack();
        let irq: [u8; 2] = u16_to_le(self.irq);
        let working_counter: [u8; 2] = u16_to_le(self.working_counter);
        let head: [u8; 12] = [
            header[0],
            header[1],
            self.command.code().to_byte(),
            self.index,
            address[0],
            address[1],
            address[2],
            address[3],
            flags[0],
            flags[1],
            irq[0],
            irq[1],
        ];
        assert(head@ =~= spec_frame_head(view));
        let at: usize = put(buffer, ETHERNET_HEADER_LEN, head.as_slice());
        let ghost headed = buffer@;
        let end: usize = put_padded(buffer, at, self.data, data_len);
        let ghost filled = buffer@;
        let _: usize = put(buffer, end, working_counter.as_slice());
        proof {
            lemma_frame_bytes_split(view);
            let expected = spec_ethercat_frame(view);
            assert(expected.len() == total);
            assert forall|j: int| 0 <= j < total implies buffer@[j] == expected[j] by {
                if j < 14 {
                    assert(buffer@[j] == framed[j]);
                } else if j < 26 {
                    assert(buffer@[j] == headed[j]);
                } else if j < 26 + data_len {
                    assert(buffer@[j] == filled[j]);
                }
            }
            assert(buffer@.take(total as int) =~= expected);
            assert(buffer@.skip(total as int) =~= before.skip(total as int));
        }
        Ok(total)
    }
}

/// The first twelve bytes of the payload of the frame that carries `pdu`:
/// the frame header and everything of the PDU that stands before its data.
pub open spec fn spec_frame_head(pdu: PduView) -> Seq<u8> {
    FrameHeader::spec_pdu((PDU_OVERHEAD + pdu.flags.length) as u16).spec_bytes()
        + seq![pdu.command.spec_code().spec_to_byte(), pdu.index]
        + pdu.command.spec_address()
        + spec_u16_to_le(pdu.flags.spec_pack())
        + spec_u16_to_le(pdu.irq)
}

/// The payload of a frame is its first twelve bytes, the data, and the
/// working counter.
pub proof fn lemma_frame_bytes_split(pdu: PduView)
    ensures
        spec_frame_head(pdu).len() == 12,
        pdu.spec_frame_bytes() == spec_frame_head(pdu) + pdu.data + spec_u16_to_le(
            pdu.working_counter,
        ),
{
    lemma_command_round_trip(pdu.command);
    assert(pdu.spec_frame_bytes() =~= spec_frame_head(pdu) + pdu.data + spec_u16_to_le(
        pdu.working_counter,
    ));
}

/// The bytes of the Ethernet frame that carries `pdu` from the master to all
/// stations.
pub open spec fn spec_ethercat_frame(pdu: PduView) -> Seq<u8> {
    spec_ethernet_frame(BROADCAST_ADDR@, MASTER_ADDR@, ETHERCAT_ETHERTYPE, pdu.spec_frame_bytes())
}

/// A code written as a byte reads back as the same code.
pub proof fn lemma_command_code_round_trip(code: CommandCode)
    ensures
        CommandCode::spec_from_byte(code.spec_to_byte()) == Some(code),
{
}

/// A command written as four address bytes reads back as the same command.
pub proof fn lemma_command_round_trip(command: Command)
    ensures
        command.spec_address().len() == 4,
        Command::spec_from_wire(command.spec_code(), command.spec_address()) == command,
{
    match command {
        Command::Lrd { address } | Command::Lwr { address } | Command::Lrw { address } => {
            lemma_u32_le_round_trip(address);
        },
        Command::Aprd { address, register }
        | Command::Apwr { address, register }
        | Command::Fprd { address, register }
        | Command::Fpwr { address, register }
        | Command::Brd { address, register }
        | Command::Bwr { address, register }
        | Command::Frmw { address, register } => {
            lemma_u16_le_round_trip(address);
            lemma_u16_le_round_trip(register);
        },
    }
}

/// A well-formed PDU written as bytes reads back as the same PDU, and its
/// bytes are the twelve bytes around the data, and the data.
pub proof fn lemma_pdu_round_trip(pdu: PduView)
    requires
        pdu.wf(),
    ensures
        pdu.spec_bytes().len() == PDU_OVERHEAD + pdu.flags.length,
        spec_parse_pdu(pdu.spec_bytes()) == Ok::<PduView, PduError>(pdu),
{
    let bytes = pdu.spec_bytes();
    let len = pdu.flags.length as int;
    lemma_command_code_round_trip(pdu.command.spec_code());
    lemma_command_round_trip(pdu.command);
    lemma_flags_round_trip(pdu.flags);
    lemma_u16_le_round_trip(pdu.flags.spec_pack());
    lemma_u16_le_round_trip(pdu.irq);
    lemma_u16_le_round_trip(pdu.working_counter);
    assert(bytes.len() == PDU_OVERHEAD + len);
    assert(bytes.subrange(2, 6) =~= pdu.command.spec_address());
    assert(bytes.subrange(10, 10 + len) =~= pdu.data);
    assert(bytes[6] == spec_u16_to_le(pdu.flags.spec_pack())[0]);
    assert(bytes[7] == spec_u16_to_le(pdu.flags.spec_pack())[1]);
    assert(bytes[8] == spec_u16_to_le(pdu.irq)[0]);
    assert(bytes[9] == spec_u16_to_le(pdu.irq)[1]);
    assert(bytes[10 + len] == spec_u16_to_le(pdu.working_counter)[0]);
    assert(bytes[11 + len] == spec_u16_to_le(pdu.working_counter)[1]);
}

/// The payload of a frame built from a well-formed PDU reads back as the
/// same PDU, whatever padding follows it, and is as long as its header
/// declares plus the header itself.
pub proof fn lemma_frame_round_trip(pdu: PduView, padding: Seq<u8>)
    requires
        pdu.wf(),
    ensures
        pdu.spec_frame_bytes().len() == FRAME_HEADER_LEN + PDU_OVERHEAD + pdu.flags.length,
        FrameHeader(
            spec_u16_from_le(pdu.spec_frame_bytes()[0], pdu.spec_frame_bytes()[1]),
        ).spec_payload_len() == PDU_OVERHEAD + pdu.flags.length,
        spec_parse_frame(pdu.spec_frame_bytes() + padding) == Ok::<PduView, PduError>(pdu),
{
    let len = (PDU_OVERHEAD + pdu.flags.length) as u16;
    let header = FrameHeader::spec_pdu(len);
    let bytes = pdu.spec_frame_bytes() + padding;
    lemma_pdu_round_trip(pdu);
    lemma_u16_le_round_trip(header.0);
    assert(bytes[0] == header.spec_bytes()[0]);
    assert(bytes[1] == header.spec_bytes()[1]);
    assert(pdu.spec_frame_bytes()[0] == header.spec_bytes()[0]);
    assert(pdu.spec_frame_bytes()[1] == header.spec_bytes()[1]);
    assert(header.spec_payload_len() == len);
    assert(bytes.subrange(2, 2 + len) =~= pdu.spec_bytes());
}

/// The Ethernet frame of a well-formed PDU is as long as its frame header
/// declares plus the sixteen bytes of Ethernet and frame header; its
/// EtherType and source are those of the master; its payload reads back as
/// the same PDU; and the index of the PDU stands in byte 17.
pub proof fn lemma_ethercat_frame_round_trip(pdu: PduView)
    requires
        pdu.wf(),
    ensures
        ({
            let bytes = spec_ethercat_frame(pdu);
            let payload = bytes.skip(ETHERNET_HEADER_LEN as int);
            &&& bytes.len() == ETHERNET_HEADER_LEN + FRAME_HEADER_LEN + FrameHeader(
                spec_u16_from_le(payload[0], payload[1]),
            ).spec_payload_len()
            &&& crate::ethernet::spec_u16_from_be(bytes[12], bytes[13]) == ETHERCAT_ETHERTYPE
            &&& bytes.subrange(6, 12) == MASTER_ADDR@
            &&& spec_parse_frame(payload) == Ok::<PduView, PduError>(pdu)
            &&& bytes[17] == pdu.index
        }),
{
    let bytes = spec_ethercat_frame(pdu);
    lemma_ethernet_round_trip(
        BROADCAST_ADDR@,
        MASTER_ADDR@,
        ETHERCAT_ETHERTYPE,
        pdu.spec_frame_bytes(),
    );
    lemma_frame_round_trip(pdu, Seq::empty());
    assert(pdu.spec_frame_bytes() + Seq::<u8>::empty() =~= pdu.spec_frame_bytes());
    assert(bytes[17] == bytes.skip(ETHERNET_HEADER_LEN as int)[3]);
    assert(pdu.spec_frame_bytes()[3] == pdu.spec_bytes()[1]);
}

} // verus!
