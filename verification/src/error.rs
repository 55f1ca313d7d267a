//! Failure kinds of the PDU loop.

use vstd::prelude::*;
use crate::command::Command;

verus! {

/// Terminal outcome of a request, or of one step of the pump.
#[derive(Debug, Clone, Copy, PartialEq, Eq)]
pub enum Error {
    /// A PDU could not be framed, parsed, stored or matched.
    Pdu(PduError),
    /// The responders touched the PDU a different number of times than expected.
    WorkingCounter { expected: u16, received: u16, context: Option<&'static str> },
    /// The deadline of a request passed before its response arrived.
    Timeout,
    /// The socket accepted only part of a frame.
    PartialSend { len: usize, sent: usize },
    /// The socket refused a frame.
    SendFrame,
    /// A frame could not be read from the socket, or could not be handled.
    ReceiveFrame,
}

/// Failure while framing, parsing, storing or matching a PDU.
#[derive(Debug, Clone, Copy, PartialEq, Eq)]
pub enum PduError {
    /// The bytes end early or name a command that does not exist.
    Decode,
    /// The buffer is too short to be an Ethernet II frame.
    Ethernet,
    /// The payload does not fit where it has to go.
    TooLong,
    /// No slot has this index.
    InvalidIndex(u8),
    /// The response contradicts the request or its own header.
    Validation(PduValidationError),
    /// The slot picked for a new request is still busy.
    SwapState,
    /// The slot is in no state in which the operation makes sense.
    InvalidFrameState,
}

/// What was wrong with a response.
#[derive(Debug, Clone, Copy, PartialEq, Eq)]
pub enum PduValidationError {
    /// The response carries another command than the request it answers.
    CommandMismatch { sent: Command, received: Command },
    /// Bytes are left inside the declared payload after the PDU ended.
    TrailingBytes,
}

} // verus!
