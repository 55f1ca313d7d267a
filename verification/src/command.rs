//! EtherCAT commands and their four address bytes.

use vstd::prelude::*;
use crate::bytes::{
    spec_u16_from_le, spec_u16_to_le, spec_u32_from_le, spec_u32_to_le, u16_from_le, u16_to_le,
    u32_from_le, u32_to_le,
};
use crate::error::PduError;

verus! {

/// Operation code of a PDU: the first byte on the wire.
#[derive(Debug, Clone, Copy, PartialEq, Eq, Structural)]
pub enum CommandCode {
    /// Auto-increment physical read.
    Aprd,
    /// Auto-increment physical write.
    Apwr,
    /// Configured-address physical read.
    Fprd,
    /// Configured-address physical write.
    Fpwr,
    /// Broadcast read.
    Brd,
    /// Broadcast write.
    Bwr,
    /// Logical memory read.
    Lrd,
    /// Logical memory write.
    Lwr,
    /// Logical memory read and write.
    Lrw,
    /// Configured-address read, multiple write.
    Frmw,
}

impl CommandCode {
    /// The byte that stands for this code on the wire.
    pub open spec fn spec_to_byte(self) -> u8 {
        match self {
            CommandCode::Aprd => 0x01,
            CommandCode::Apwr => 0x02,
            CommandCode::Fprd => 0x04,
            CommandCode::Fpwr => 0x05,
            CommandCode::Brd => 0x07,
            CommandCode::Bwr => 0x08,
            CommandCode::Lrd => 0x0A,
            CommandCode::Lwr => 0x0B,
            CommandCode::Lrw => 0x0C,
            CommandCode::Frmw => 0x0E,
        }
    }

    /// The code a wire byte stands for, if any.
    pub open spec fn spec_from_byte(byte: u8) -> Option<CommandCode> {
        if byte == 0x01 {
            Some(CommandCode::Aprd)
        } else if byte == 0x02 {
            Some(CommandCode::Apwr)
        } else if byte == 0x04 {
            Some(CommandCode::Fprd)
        } else if byte == 0x05 {
            Some(CommandCode::Fpwr)
        } else if byte == 0x07 {
            Some(CommandCode::Brd)
        } else if byte == 0x08 {
            Some(CommandCode::Bwr)
        } else if byte == 0x0A {
            Some(CommandCode::Lrd)
        } else if byte == 0x0B {
            Some(CommandCode::Lwr)
        } else if byte == 0x0C {
            Some(CommandCode::Lrw)
        } else if byte == 0x0E {
            Some(CommandCode::Frmw)
        } else {
            None
        }
    }

    /// Whether the four address bytes of this command are one 32-bit logical address.
    pub open spec fn spec_is_logical(self) -> bool {
        self is Lrd || self is Lwr || self is Lrw
    }

    #[verifier::when_used_as_spec(spec_to_byte)]
    pub fn to_byte(self) -> (byte: u8)
        ensures
            byte == self.spec_to_byte(),
    {
        match self {
            CommandCode::Aprd => 0x01,
            CommandCode::Apwr => 0x02,
            CommandCode::Fprd => 0x04,
            CommandCode::Fpwr => 0x05,
            CommandCode::Brd => 0x07,
            CommandCode::Bwr => 0x08,
            CommandCode::Lrd => 0x0A,
            CommandCode::Lwr => 0x0B,
            CommandCode::Lrw => 0x0C,
            CommandCode::Frmw => 0x0E,
        }
    }

    /// Builds the command that this code and four address bytes stand for.
    pub fn with_address(self, bytes: [u8; 4]) -> (command: Command)
        ensures
            command == Command::spec_from_wire(self, bytes@),
    {
        let address: u16 = u16_from_le(bytes[0], bytes[1]);
        let register: u16 = u16_from_le(bytes[2], bytes[3]);
        let logical: u32 = u32_from_le(bytes[0], bytes[1], bytes[2], bytes[3]);
        match self {
            CommandCode::Aprd => Command::Aprd { address, register },
            CommandCode::Apwr => Command::Apwr { address, register },
            CommandCode::Fprd => Command::Fprd { address, register },
            CommandCode::Fpwr => Command::Fpwr { address, register },
            CommandCode::Brd => Command::Brd { address, register },
            CommandCode::Bwr => Command::Bwr { address, register },
            CommandCode::Lrd => Command::Lrd { address: logical },
            CommandCode::Lwr => Command::Lwr { address: logical },
            CommandCode::Lrw => Command::Lrw { address: logical },
            CommandCode::Frmw => Command::Frmw { address, register },
        }
    }
}

impl TryFrom<u8> for CommandCode {
    type Error = PduError;

    fn try_from(byte: u8) -> (code: Result<CommandCode, PduError>)
    {
        match byte {
            0x01 => Ok(CommandCode::Aprd),
            0x02 => Ok(CommandCode::Apwr),
            0x04 => Ok(CommandCode::Fprd),
            0x05 => Ok(CommandCode::Fpwr),
            0x07 => Ok(CommandCode::Brd),
            0x08 => Ok(CommandCode::Bwr),
            0x0A => Ok(CommandCode::Lrd),
            0x0B => Ok(CommandCode::Lwr),
            0x0C => Ok(CommandCode::Lrw),
            0x0E => Ok(CommandCode::Frmw),
            _ => Err(PduError::Decode),
        }
    }
}

impl vstd::std_specs::convert::TryFromSpecImpl<u8> for CommandCode {
    open spec fn obeys_try_from_spec() -> bool {
        true
    }

    open spec fn try_from_spec(byte: u8) -> Result<CommandCode, PduError> {
        match CommandCode::spec_from_byte(byte) {
            Some(code) => Ok(code),
            None => Err(PduError::Decode),
        }
    }
}

/// A command together with the address it is aimed at.
#[derive(Debug, Clone, Copy, PartialEq, Eq, Structural)]
#[allow(inconsistent_fields)]
pub enum Command {
    /// Read from the station at a position in the ring.
    Aprd { address: u16, register: u16 },
    /// Write to the station at a position in the ring.
    Apwr { address: u16, register: u16 },
    /// Read from the station with a configured address.
    Fprd { address: u16, register: u16 },
    /// Write to the station with a configured address.
    Fpwr { address: u16, register: u16 },
    /// Read from every station.
    Brd { address: u16, register: u16 },
    /// Write to every station.
    Bwr { address: u16, register: u16 },
    /// Read from logical memory.
    Lrd { address: u32 },
    /// Write to logical memory.
    Lwr { address: u32 },
    /// Read from and write to logical memory.
    Lrw { address: u32 },
    /// Read from the station with a configured address and write what was
    /// read to all others.
    Frmw { address: u16, register: u16 },
}

impl Command {
    /// The operation code of this command.
    pub open spec fn spec_code(self) -> CommandCode {
        match self {
            Command::Aprd { .. } => CommandCode::Aprd,
            Command::Apwr { .. } => CommandCode::Apwr,
            Command::Fprd { .. } => CommandCode::Fprd,
            Command::Fpwr { .. } => CommandCode::Fpwr,
            Command::Brd { .. } => CommandCode::Brd,
            Command::Bwr { .. } => CommandCode::Bwr,
            Command::Lrd { .. } => CommandCode::Lrd,
            Command::Lwr { .. } => CommandCode::Lwr,
            Command::Lrw { .. } => CommandCode::Lrw,
            Command::Frmw { .. } => CommandCode::Frmw,
        }
    }

    /// The four address bytes of this command as they stand on the wire:
    /// station address then register, or one logical address, least
    /// significant byte first.
    pub open spec fn spec_address(self) -> Seq<u8> {
        match self {
            Command::Aprd { address, register }
            | Command::Apwr { address, register }
            | Command::Fprd { address, register }
            | Command::Fpwr { address, register }
            | Command::Brd { address, register }
            | Command::Bwr { address, register }
            | Command::Frmw { address, register } => spec_u16_to_le(address) + spec_u16_to_le(register),
            Command::Lrd { address } | Command::Lwr { address } | Command::Lrw { address } => {
                spec_u32_to_le(address)
            },
        }
    }

    /// The command that a code and four address bytes stand for.
    pub open spec fn spec_from_wire(code: CommandCode, bytes: Seq<u8>) -> Command {
        let address = spec_u16_from_le(bytes[0], bytes[1]);
        let register = spec_u16_from_le(bytes[2], bytes[3]);
        let logical = spec_u32_from_le(bytes[0], bytes[1], bytes[2], bytes[3]);
        match code {
            CommandCode::Aprd => Command::Aprd { address, register },
            CommandCode::Apwr => Command::Apwr { address, register },
            CommandCode::Fprd => Command::Fprd { address, register },
            CommandCode::Fpwr => Command::Fpwr { address, register },
            CommandCode::Brd => Command::Brd { address, register },
            CommandCode::Bwr => Command::Bwr { address, register },
            CommandCode::Lrd => Command::Lrd { address: logical },
            CommandCode::Lwr => Command::Lwr { address: logical },
            CommandCode::Lrw => Command::Lrw { address: logical },
            CommandCode::Frmw => Command::Frmw { address, register },
        }
    }

    #[verifier::when_used_as_spec(spec_code)]
    pub fn code(self) -> (code: CommandCode)
        ensures
            code == self.spec_code(),
    {
        match self {
            Command::Aprd { .. } => CommandCode::Aprd,
            Command::Apwr { .. } => CommandCode::Apwr,
            Command::Fprd { .. } => CommandCode::Fprd,
            Command::Fpwr { .. } => CommandCode::Fpwr,
            Command::Brd { .. } => CommandCode::Brd,
            Command::Bwr { .. } => CommandCode::Bwr,
            Command::Lrd { .. } => CommandCode::Lrd,
            Command::Lwr { .. } => CommandCode::Lwr,
            Command::Lrw { .. } => CommandCode::Lrw,
            Command::Frmw { .. } => CommandCode::Frmw,
        }
    }

    pub fn address(self) -> (bytes: [u8; 4])
        ensures
            bytes@ == self.spec_address(),
    {
        match self {
            Command::Aprd { address, register }
            | Command::Apwr { address, register }
            | Command::Fprd { address, register }
            | Command::Fpwr { address, register }
            | Command::Brd { address, register }
            | Command::Bwr { address, register }
            | Command::Frmw { address, register } => {
                let a: [u8; 2] = u16_to_le(address);
                let r: [u8; 2] = u16_to_le(register);
                let bytes: [u8; 4] = [a[0], a[1], r[0], r[1]];
                assert(bytes@ =~= self.spec_address());
                bytes
            },
            Command::Lrd { address } | Command::Lwr { address } | Command::Lrw { address } => {
                u32_to_le(address)
            },
        }
    }
}

} // verus!
