//! What the pump does with the outcome of a call on the socket. The pump
//! itself, which makes the calls, is not part of this library.

use vstd::prelude::*;
use crate::error::Error;
use crate::pdu_frame::{FrameState, FrameView, SendableFrame};
use crate::{PduLoop, PduLoopView};

verus! {

/// How a non-blocking call on the socket ended.
#[derive(Debug, Clone, Copy, PartialEq, Eq, Structural)]
pub enum SocketPoll {
    /// The call went through and moved this many bytes.
    Ready(usize),
    /// The socket reported an error.
    Failed,
    /// The socket is not ready; nothing was moved.
    Pending,
}

/// What the pump does after a call on the socket that did not end it.
#[derive(Debug, Clone, Copy, PartialEq, Eq, Structural)]
pub enum PumpStep {
    /// The transfer went through: go on with the next frame.
    Next,
    /// The socket was not ready: stop for now and wait to be woken.
    Wait,
}

/// What the pump does after it tried to write a frame of `len` bytes: it
/// goes on after a whole frame, waits when the socket was not ready, and
/// ends on a short write or an error.
pub open spec fn spec_write_done(len: usize, outcome: SocketPoll) -> Result<PumpStep, Error> {
    match outcome {
        SocketPoll::Ready(sent) => if sent == len {
            Ok(PumpStep::Next)
        } else {
            Err(Error::PartialSend { len, sent })
        },
        SocketPoll::Failed => Err(Error::SendFrame),
        SocketPoll::Pending => Ok(PumpStep::Wait),
    }
}

impl<'a> SendableFrame<'a> {
    /// Settles a slot after the pump tried to write its frame of `len`
    /// bytes to the socket. Only a frame that went out whole is marked as
    /// sent. After a short write, an error, or a socket that was not ready,
    /// the slot stays as being sent and comes up again in the next round; a
    /// short write and an error end the pump.
    pub fn write_done(self, len: usize, outcome: SocketPoll) -> (result: Result<PumpStep, Error>)
        ensures
            result == spec_write_done(len, outcome),
            outcome == SocketPoll::Ready(len) && old(self.frame)@.state is Sending
                ==> final(self.frame)@ == (FrameView {
                state: FrameState::Sent,
                ..old(self.frame)@
            }),
            !(outcome == SocketPoll::Ready(len) && old(self.frame)@.state is Sending)
                ==> final(self.frame)@ == old(self.frame)@,
    {
        match outcome {
            SocketPoll::Ready(sent) => {
                if sent != len {
                    return Err(Error::PartialSend { len, sent });
                }
                self.mark_sent();
                Ok(PumpStep::Next)
            },
            SocketPoll::Failed => Err(Error::SendFrame),
            SocketPoll::Pending => Ok(PumpStep::Wait),
        }
    }
}

impl PduLoopView {
    /// What the outcome of a read into a buffer that now holds `buffer`
    /// does to the pool, and what the pump does next. The bytes that were
    /// read are taken in as one frame, and the pump goes on; whatever goes
    /// wrong with them, or with the read itself, ends the pump with
    /// `ReceiveFrame`. A socket that was not ready changes nothing, and the
    /// pump waits.
    pub open spec fn spec_read_done(self, max_pdu_data: int, buffer: Seq<u8>, outcome: SocketPoll) -> (
        PduLoopView,
        Result<PumpStep, Error>,
    ) {
        match outcome {
            SocketPoll::Ready(count) => if count > buffer.len() {
                (self, Err(Error::ReceiveFrame))
            } else {
                let (pool, taken) = self.spec_pdu_rx(max_pdu_data, buffer.take(count as int));
                (
                    pool,
                    match taken {
                        Ok(()) => Ok(PumpStep::Next),
                        Err(_) => Err(Error::ReceiveFrame),
                    },
                )
            },
            SocketPoll::Failed => (self, Err(Error::ReceiveFrame)),
            SocketPoll::Pending => (self, Ok(PumpStep::Wait)),
        }
    }
}

impl<const MAX_FRAMES: usize, const MAX_PDU_DATA: usize> PduLoop<MAX_FRAMES, MAX_PDU_DATA> {
    /// Settles a read from the socket into `buffer`: see
    /// [`PduLoopView::spec_read_done`].
    pub fn read_done(&mut self, buffer: &[u8], outcome: SocketPoll) -> (result: Result<
        PumpStep,
        Error,
    >)
        requires
            old(self).wf(),
        ensures
            final(self).wf(),
            (final(self)@, result) == old(self)@.spec_read_done(
                MAX_PDU_DATA as int,
                buffer@,
                outcome,
            ),
    {
        match outcome {
            SocketPoll::Ready(count) => {
                if count > buffer.len() {
                    return Err(Error::ReceiveFrame);
                }
                let packet: &[u8] = vstd::slice::slice_subrange(buffer, 0, count);
                assert(packet@ =~= buffer@.take(count as int));
                match self.pdu_rx(packet) {
                    Ok(()) => Ok(PumpStep::Next),
                    Err(_) => Err(Error::ReceiveFrame),
                }
            },
            SocketPoll::Failed => Err(Error::ReceiveFrame),
            SocketPoll::Pending => Ok(PumpStep::Wait),
        }
    }
}

} // verus!
