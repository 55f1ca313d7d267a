use pdu_loop::bytes::{u16_from_le, u16_to_le, u32_from_le, u32_to_le};
use pdu_loop::command::{Command, CommandCode};
use pdu_loop::error::{PduError, PduValidationError};
use pdu_loop::ethernet::write_ethernet_header;
use pdu_loop::frame_header::FrameHeader;
use pdu_loop::pdu::{byte, le_u16, put, put_padded, take, Pdu, PduFlags};

#[test]
fn little_endian_words() {
    assert_eq!(u16_from_le(0x34, 0x12), 0x1234);
    assert_eq!(u16_to_le(0x1234), [0x34, 0x12]);
    assert_eq!(u16_to_le(0xffff), [0xff, 0xff]);
    assert_eq!(u32_from_le(0x78, 0x56, 0x34, 0x12), 0x1234_5678);
    assert_eq!(u32_to_le(0x1234_5678), [0x78, 0x56, 0x34, 0x12]);
    assert_eq!(u32_to_le(0xffff_ffff), [0xff; 4]);
    for value in [0u16, 1, 255, 256, 0x7fff, 0x8000, 0xffff] {
        let bytes = u16_to_le(value);
        assert_eq!(bytes, value.to_le_bytes());
        assert_eq!(u16_from_le(bytes[0], bytes[1]), value);
    }
}

#[test]
fn frame_header_fields() {
    let header = FrameHeader::pdu(14);
    assert_eq!(header, FrameHeader(0x400E));
    assert_eq!(header.payload_len(), 14);
    assert_eq!(header.protocol_type(), 1);
    assert_eq!(header.to_bytes(), [0x0E, 0x40]);
    let largest = FrameHeader::pdu(0x07FF);
    assert_eq!(largest.payload_len(), 0x07FF);
    assert_eq!(largest.protocol_type(), 1);
    // The reserved bits are no part of the length.
    assert_eq!(FrameHeader(0xFFFF).payload_len(), 0x07FF);
    assert_eq!(FrameHeader(0xFFFF).protocol_type(), 3);
    assert_eq!(FrameHeader(0x3800).payload_len(), 0);
    assert_eq!(FrameHeader(0x3800).protocol_type(), 0);
}

#[test]
fn frame_header_parse() {
    assert_eq!(FrameHeader::parse(&[]), Err(PduError::Decode));
    assert_eq!(FrameHeader::parse(&[0x0E]), Err(PduError::Decode));
    assert_eq!(
        FrameHeader::parse(&[0x0E, 0x40, 7, 8]),
        Ok((&[7u8, 8][..], FrameHeader(0x400E)))
    );
    let header = FrameHeader::pdu(1234);
    let bytes = header.to_bytes();
    assert_eq!(FrameHeader::parse(&bytes), Ok((&[][..], header)));
}

#[test]
fn flags_pack_and_unpack() {
    let flags = PduFlags::with_len(2);
    assert_eq!(flags, PduFlags { length: 2, is_not_last: false });
    assert_eq!(flags.len(), 2);
    assert_eq!(flags.pack(), [0x02, 0x00]);
    let more = PduFlags { length: 0x07FF, is_not_last: true };
    assert_eq!(more.pack(), [0xFF, 0x87]);
    assert_eq!(PduFlags::unpack_from_slice(&[0xFF, 0x87]), Ok(more));
    assert_eq!(PduFlags::unpack_from_slice(&[0x02, 0x00]), Ok(flags));
    // Reserved bits are passed over.
    assert_eq!(
        PduFlags::unpack_from_slice(&[0x02, 0x78]),
        Ok(PduFlags { length: 2, is_not_last: false })
    );
    assert_eq!(PduFlags::unpack_from_slice(&[0x02]), Err(PduError::Decode));
    assert_eq!(PduFlags::unpack_from_slice(&[0, 0, 0]), Err(PduError::Decode));
}

#[test]
fn byte_readers() {
    assert_eq!(take(2, &[1, 2, 3]), Ok((&[3u8][..], &[1u8, 2][..])));
    assert_eq!(take(0, &[1]), Ok((&[1u8][..], &[][..])));
    assert_eq!(take(4, &[1, 2, 3]), Err(PduError::Decode));
    assert_eq!(byte(&[9, 8]), Ok((&[8u8][..], 9)));
    assert_eq!(byte(&[]), Err(PduError::Decode));
    assert_eq!(le_u16(&[0x34, 0x12, 5]), Ok((&[5u8][..], 0x1234)));
    assert_eq!(le_u16(&[0x34]), Err(PduError::Decode));
}

#[test]
fn byte_writers() {
    let mut buf = [7u8; 6];
    assert_eq!(put(&mut buf, 1, &[1, 2, 3]), 4);
    assert_eq!(buf, [7, 1, 2, 3, 7, 7]);
    assert_eq!(put(&mut buf, 6, &[]), 6);
    assert_eq!(buf, [7, 1, 2, 3, 7, 7]);
    assert_eq!(put_padded(&mut buf, 2, &[9], 3), 5);
    assert_eq!(buf, [7, 1, 9, 0, 0, 7]);
    assert_eq!(put_padded(&mut buf, 0, &[4, 5, 6], 2), 2);
    assert_eq!(buf, [4, 5, 9, 0, 0, 7]);
}

#[test]
fn parse_address_by_command() {
    assert_eq!(
        CommandCode::Brd.parse_address(&[0x01, 0x10, 0x30, 0x01, 0xAA]),
        Ok((&[0xAAu8][..], Command::Brd { address: 0x1001, register: 0x0130 }))
    );
    assert_eq!(
        CommandCode::Lrd.parse_address(&[0x78, 0x56, 0x34, 0x12]),
        Ok((&[][..], Command::Lrd { address: 0x1234_5678 }))
    );
    assert_eq!(
        CommandCode::Lrd.parse_address(&[0x78, 0x56, 0x34]),
        Err(PduError::Decode)
    );
}

#[test]
fn pdu_round_trip() {
    let commands = [
        Command::Aprd { address: 0xffff, register: 0x0000 },
        Command::Apwr { address: 1, register: 2 },
        Command::Fprd { address: 0x1000, register: 0x0130 },
        Command::Fpwr { address: 0x1001, register: 0x0120 },
        Command::Brd { address: 0, register: 0 },
        Command::Bwr { address: 0, register: 0x0101 },
        Command::Lrd { address: 0 },
        Command::Lwr { address: 0xffff_ffff },
        Command::Lrw { address: 0x0001_0000 },
        Command::Frmw { address: 0x1000, register: 0x0910 },
    ];
    for (n, command) in commands.into_iter().enumerate() {
        let data: Vec<u8> = (0..n as u8 * 3).collect();
        let pdu = Pdu {
            command,
            index: n as u8 + 100,
            flags: PduFlags::with_len(data.len() as u16),
            irq: 0x1234,
            data: &data,
            working_counter: 0xBEEF,
        };
        let mut buf = [0xEEu8; 128];
        let len = pdu.to_ethernet_frame(&mut buf).unwrap();
        assert_eq!(len, 14 + 2 + 12 + data.len());
        assert_eq!(buf[17], pdu.index);
        let header = FrameHeader(u16::from_le_bytes([buf[14], buf[15]]));
        assert_eq!(len, 14 + 2 + header.payload_len() as usize);
        assert_eq!(&buf[len..], &vec![0xEE; 128 - len][..]);
        assert_eq!(Pdu::parse_frame(&buf[14..len]), Ok(pdu));
        // Padding behind the declared length does not matter.
        assert_eq!(Pdu::parse_frame(&buf[14..]), Ok(pdu));
        assert_eq!(Pdu::parse(&buf[16..len]), Ok(pdu));
    }
}

#[test]
fn serialized_bytes_of_a_write() {
    let pdu = Pdu {
        command: Command::Fpwr { address: 0x1001, register: 0x0120 },
        index: 3,
        flags: PduFlags::with_len(2),
        irq: 0,
        data: &[0xAA, 0xBB],
        working_counter: 0,
    };
    let mut buf = [0u8; 30];
    assert_eq!(pdu.to_ethernet_frame(&mut buf), Ok(30));
    assert_eq!(
        buf,
        [
            0xff, 0xff, 0xff, 0xff, 0xff, 0xff, 0x10, 0x10, 0x10, 0x10, 0x10, 0x10, 0x88, 0xA4,
            0x0E, 0x40, 0x05, 0x03, 0x01, 0x10, 0x20, 0x01, 0x02, 0x00, 0x00, 0x00, 0xAA, 0xBB,
            0x00, 0x00,
        ]
    );
}

#[test]
fn data_is_cut_or_filled_to_the_declared_length() {
    let short = Pdu {
        command: Command::Brd { address: 0, register: 0 },
        index: 0,
        flags: PduFlags::with_len(4),
        irq: 0,
        data: &[1],
        working_counter: 0,
    };
    let mut buf = [0x55u8; 40];
    assert_eq!(short.to_ethernet_frame(&mut buf), Ok(32));
    assert_eq!(&buf[26..32], &[1, 0, 0, 0, 0, 0]);
    let long = Pdu { data: &[1, 2, 3, 4, 5, 6], ..short };
    let mut buf = [0x55u8; 40];
    assert_eq!(long.to_ethernet_frame(&mut buf), Ok(32));
    assert_eq!(&buf[26..32], &[1, 2, 3, 4, 0, 0]);
}

#[test]
fn frame_that_does_not_fit_is_too_long() {
    let pdu = Pdu {
        command: Command::Brd { address: 0, register: 0 },
        index: 0,
        flags: PduFlags::with_len(2),
        irq: 0,
        data: &[],
        working_counter: 0,
    };
    let mut buf = [0x55u8; 29];
    assert_eq!(pdu.to_ethernet_frame(&mut buf), Err(PduError::TooLong));
    assert_eq!(buf, [0x55u8; 29]);
    let mut none: [u8; 0] = [];
    assert_eq!(pdu.to_ethernet_frame(&mut none), Err(PduError::TooLong));
    let huge = Pdu { flags: PduFlags::with_len(2036), ..pdu };
    let mut buf = vec![0u8; 4096];
    assert_eq!(huge.to_ethernet_frame(&mut buf), Err(PduError::TooLong));
    let largest = Pdu { flags: PduFlags::with_len(2035), ..pdu };
    assert_eq!(largest.to_ethernet_frame(&mut buf), Ok(14 + 2 + 12 + 2035));
    assert_eq!(&buf[14..16], &[0xFF, 0x47]);
}

#[test]
fn parse_rejects_what_is_not_exactly_one_pdu() {
    let good = [0x07, 0x00, 0, 0, 0, 0, 0x02, 0x00, 0, 0, 0xAB, 0xCD, 0x01, 0x00];
    let pdu = Pdu::parse(&good).unwrap();
    assert_eq!(pdu.command, Command::Brd { address: 0, register: 0 });
    assert_eq!(pdu.index, 0);
    assert_eq!(pdu.flags, PduFlags::with_len(2));
    assert_eq!(pdu.irq, 0);
    assert_eq!(pdu.data, &[0xAB, 0xCD]);
    assert_eq!(pdu.working_counter, 1);

    assert_eq!(Pdu::parse(&[]), Err(PduError::Decode));
    assert_eq!(Pdu::parse(&good[..13]), Err(PduError::Decode));
    assert_eq!(Pdu::parse(&good[..11]), Err(PduError::Decode));
    let mut longer = good.to_vec();
    longer.push(0);
    assert_eq!(
        Pdu::parse(&longer),
        Err(PduError::Validation(PduValidationError::TrailingBytes))
    );
    let mut unknown = good;
    unknown[0] = 0x0D;
    assert_eq!(Pdu::parse(&unknown), Err(PduError::Decode));
}

#[test]
fn parse_frame_takes_what_the_header_declares() {
    let good = [
        0x0E, 0x40, 0x07, 0x00, 0, 0, 0, 0, 0x02, 0x00, 0, 0, 0xAB, 0xCD, 0x01, 0x00,
    ];
    assert!(Pdu::parse_frame(&good).is_ok());
    assert_eq!(Pdu::parse_frame(&good[..1]), Err(PduError::Decode));
    assert_eq!(Pdu::parse_frame(&good[..15]), Err(PduError::Decode));
    // The header declares less than the PDU needs.
    let mut short = good;
    short[0] = 0x0D;
    assert_eq!(Pdu::parse_frame(&short), Err(PduError::Decode));
    // The header declares more than the PDU takes.
    let mut long = good.to_vec();
    long[0] = 0x0F;
    long.push(0);
    assert_eq!(
        Pdu::parse_frame(&long),
        Err(PduError::Validation(PduValidationError::TrailingBytes))
    );
}

#[test]
fn ethernet_header_is_written_over_the_first_fourteen_bytes() {
    let mut buf = [0x55u8; 16];
    write_ethernet_header(&mut buf, [1, 2, 3, 4, 5, 6], [7, 8, 9, 10, 11, 12], 0x88A4);
    assert_eq!(
        buf,
        [1, 2, 3, 4, 5, 6, 7, 8, 9, 10, 11, 12, 0x88, 0xA4, 0x55, 0x55]
    );
}
