use pdu_loop::command::{Command, CommandCode};
use pdu_loop::error::PduError;

#[test]
fn command_code_bytes_round_trip() {
    let codes = [
        (CommandCode::Aprd, 0x01u8),
        (CommandCode::Apwr, 0x02),
        (CommandCode::Fprd, 0x04),
        (CommandCode::Fpwr, 0x05),
        (CommandCode::Brd, 0x07),
        (CommandCode::Bwr, 0x08),
        (CommandCode::Lrd, 0x0A),
        (CommandCode::Lwr, 0x0B),
        (CommandCode::Lrw, 0x0C),
        (CommandCode::Frmw, 0x0E),
    ];
    for (code, byte) in codes {
        assert_eq!(code.to_byte(), byte);
        assert_eq!(CommandCode::try_from(byte), Ok(code));
    }
}

#[test]
fn unknown_command_code_is_rejected() {
    assert_eq!(CommandCode::try_from(0x00), Err(PduError::Decode));
    assert_eq!(CommandCode::try_from(0x03), Err(PduError::Decode));
    assert_eq!(CommandCode::try_from(0xff), Err(PduError::Decode));
}

#[test]
fn command_address_bytes() {
    let fprd = Command::Fprd { address: 0x1001, register: 0x0130 };
    assert_eq!(fprd.address(), [0x01, 0x10, 0x30, 0x01]);
    assert_eq!(fprd.code(), CommandCode::Fprd);
    let lrw = Command::Lrw { address: 0x1234_5678 };
    assert_eq!(lrw.address(), [0x78, 0x56, 0x34, 0x12]);
    assert_eq!(CommandCode::Lrw.with_address([0x78, 0x56, 0x34, 0x12]), lrw);
    assert_eq!(CommandCode::Fprd.with_address([0x01, 0x10, 0x30, 0x01]), fprd);
}
