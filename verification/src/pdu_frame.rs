//! One slot of the pool: the state of a single PDU in flight, from the
//! moment a request claims the slot until its response has been taken.

use vstd::prelude::*;
use core::task::Waker;
use crate::command::Command;
use crate::error::{Error, PduError, PduValidationError};
use crate::pdu::{
    lemma_ethercat_frame_round_trip, put, spec_ethercat_frame, spec_padded, Pdu, PduFlags, PduView,
    MAX_DATA_LEN,
};
use crate::waker::{clone_waker, wake};

verus! {

/// Where a slot stands in the life of a request.
#[derive(Debug, Clone, Copy, PartialEq, Eq, Structural)]
pub enum FrameState {
    /// Free to be claimed.
    Idle,
    /// Filled by a request, not yet handed to the pump.
    Created,
    /// Handed to the pump, being written to the socket.
    Sending,
    /// On the wire, waiting for the response.
    Sent,
    /// The response is in; the requester may take it.
    Done,
}

impl FrameState {
    /// The state that follows this one in the life of a request.
    pub open spec fn spec_next(self) -> FrameState {
        match self {
            FrameState::Idle => FrameState::Created,
            FrameState::Created => FrameState::Sending,
            FrameState::Sending => FrameState::Sent,
            FrameState::Sent => FrameState::Done,
            FrameState::Done => FrameState::Idle,
        }
    }

    /// Whether a slot in this state may be in state `to` after one
    /// operation: it stays, it takes the one next step, or it is given up
    /// and goes back to idle.
    pub open spec fn spec_may_become(self, to: FrameState) -> bool {
        to == self || to == self.spec_next() || to == FrameState::Idle
    }

    /// Whether a request is on its way in this state, so that somebody
    /// waits for the slot to be done.
    pub open spec fn spec_in_flight(self) -> bool {
        self is Created || self is Sending || self is Sent
    }
}

/// What a slot holds.
pub struct FrameView {
    pub state: FrameState,
    /// Index of the PDU on the wire.
    pub index: u8,
    /// Command of the request, while there is one.
    pub command: Option<Command>,
    /// Number of payload bytes of the request.
    pub data_length: u16,
    /// Whether a wake handle of the requester is stored.
    pub has_waker: bool,
    /// Flags of the last response.
    pub flags: PduFlags,
    /// Interrupt-request word of the last response.
    pub irq: u16,
    /// Working counter of the last response.
    pub working_counter: u16,
    /// Command that a refused response echoed in place of the one that was
    /// sent, while the slot goes on waiting.
    pub mismatch: Option<Command>,
}

impl FrameView {
    /// An idle slot holds no command, no payload length and no wake handle;
    /// a slot that is not idle holds the command it was claimed with; only a
    /// slot that waits for its response holds a refused command; and the
    /// payload is never longer than a frame can carry.
    pub open spec fn wf(self) -> bool {
        &&& self.state is Idle ==> self.command is None && self.data_length == 0
            && !self.has_waker
        &&& !(self.state is Idle) ==> self.command is Some
        &&& self.mismatch is Some ==> self.state is Sent
        &&& self.data_length <= MAX_DATA_LEN
    }

    /// A slot as it is after it was given up: idle, with the command, the
    /// payload length, the wake handle and any refused command cleared.
    /// What the last response left behind stays.
    pub open spec fn spec_released(self) -> FrameView {
        FrameView {
            state: FrameState::Idle,
            command: None,
            data_length: 0,
            has_waker: false,
            mismatch: None,
            ..self
        }
    }

    /// What the requester is told when its deadline passes while the
    /// request is on its way: the command mismatch, if a response was
    /// refused for one, and otherwise that time ran out.
    pub open spec fn spec_deadline_error(self) -> Error {
        match (self.mismatch, self.command) {
            (Some(received), Some(sent)) => Error::Pdu(
                PduError::Validation(PduValidationError::CommandMismatch { sent, received }),
            ),
            _ => Error::Timeout,
        }
    }

    /// The slot after a response was refused because it echoed `command`:
    /// it goes on waiting and keeps the command it was refused for.
    pub open spec fn spec_refused(self, command: Command) -> FrameView {
        FrameView { mismatch: Some(command), ..self }
    }

    /// A slot freshly claimed by a request.
    pub open spec fn spec_created(command: Command, data_length: u16, index: u8) -> FrameView {
        FrameView {
            state: FrameState::Created,
            index,
            command: Some(command),
            data_length,
            has_waker: false,
            flags: PduFlags { length: data_length, is_not_last: false },
            irq: 0,
            working_counter: 0,
            mismatch: None,
        }
    }

    /// The PDU that goes on the wire for this slot when `payload` is what
    /// its range of the arena holds.
    pub open spec fn spec_request(self, payload: Seq<u8>) -> PduView {
        PduView {
            command: self.command->0,
            index: self.index,
            flags: PduFlags { length: self.data_length, is_not_last: false },
            irq: 0,
            data: spec_padded(payload, self.data_length as nat),
            working_counter: 0,
        }
    }

    /// Whether a response that echoes `command` answers the request of this
    /// slot: the operation codes are the same.
    pub open spec fn spec_answers(self, command: Command) -> bool {
        self.command is Some && self.command->0.spec_code() == command.spec_code()
    }

    /// The slot after a matching response came in.
    pub open spec fn spec_done(self, flags: PduFlags, irq: u16, working_counter: u16) -> FrameView {
        FrameView {
            state: FrameState::Done,
            has_waker: false,
            flags,
            irq,
            working_counter,
            mismatch: None,
            ..self
        }
    }
}

/// One reusable slot.
pub struct Frame {
    state: FrameState,
    index: u8,
    command: Option<Command>,
    data_length: u16,
    waker: Option<Waker>,
    flags: PduFlags,
    irq: u16,
    working_counter: u16,
    mismatch: Option<Command>,
}

impl View for Frame {
    type V = FrameView;

    closed spec fn view(&self) -> FrameView {
        FrameView {
            state: self.state,
            index: self.index,
            command: self.command,
            data_length: self.data_length,
            has_waker: self.waker is Some,
            flags: self.flags,
            irq: self.irq,
            working_counter: self.working_counter,
            mismatch: self.mismatch,
        }
    }
}

/// What one step of waiting for a response found.
#[derive(Debug, Clone, Copy, PartialEq, Eq, Structural)]
pub enum FramePoll {
    /// The response is not in yet; the wake handle was stored.
    Pending,
    /// The response is in, with this working counter.
    Ready(u16),
}

impl Frame {
    /// An idle slot that never held a request.
    pub open spec fn spec_new() -> FrameView {
        FrameView {
            state: FrameState::Idle,
            index: 0,
            command: None,
            data_length: 0,
            has_waker: false,
            flags: PduFlags { length: 0, is_not_last: false },
            irq: 0,
            working_counter: 0,
            mismatch: None,
        }
    }

    pub fn new() -> (frame: Frame)
        ensures
            frame@ == Self::spec_new(),
            frame@.wf(),
    {
        Frame {
            state: FrameState::Idle,
            index: 0,
            command: None,
            data_length: 0,
            waker: None,
            flags: PduFlags { length: 0, is_not_last: false },
            irq: 0,
            working_counter: 0,
            mismatch: None,
        }
    }

    pub fn state(&self) -> (state: FrameState)
        ensures
            state == self@.state,
    {
        self.state
    }

    pub fn index(&self) -> (index: u8)
        ensures
            index == self@.index,
    {
        self.index
    }

    pub fn command(&self) -> (command: Option<Command>)
        ensures
            command == self@.command,
    {
        self.command
    }

    pub fn data_length(&self) -> (data_length: u16)
        ensures
            data_length == self@.data_length,
    {
        self.data_length
    }

    pub fn flags(&self) -> (flags: PduFlags)
        ensures
            flags == self@.flags,
    {
        self.flags
    }

    pub fn irq(&self) -> (irq: u16)
        ensures
            irq == self@.irq,
    {
        self.irq
    }

    pub fn working_counter(&self) -> (working_counter: u16)
        ensures
            working_counter == self@.working_counter,
    {
        self.working_counter
    }

    pub fn mismatch(&self) -> (mismatch: Option<Command>)
        ensures
            mismatch == self@.mismatch,
    {
        self.mismatch
    }

    /// Claims the slot for a request. Only an idle slot can be claimed:
    /// a busy one is refused with `SwapState`. An idle slot cannot be claimed
    /// for a payload longer than a frame can carry: that is `TooLong`. Where
    /// the claim is refused the slot stays as it is.
    pub fn replace(&mut self, command: Command, data_length: u16, index: u8) -> (result: Result<
        (),
        PduError,
    >)
        requires
            old(self)@.wf(),
        ensures
            final(self)@.wf(),
            match result {
                Ok(()) => {
                    &&& old(self)@.state is Idle
                    &&& data_length <= MAX_DATA_LEN
                    &&& final(self)@ == FrameView::spec_created(command, data_length, index)
                },
                Err(e) => {
                    &&& final(self)@ == old(self)@
                    &&& !(old(self)@.state is Idle) ==> e == PduError::SwapState
                    &&& old(self)@.state is Idle ==> e == PduError::TooLong && data_length
                        > MAX_DATA_LEN
                },
            },
    {
        if self.state != FrameState::Idle {
            return Err(PduError::SwapState);
        }
        if data_length > MAX_DATA_LEN {
            return Err(PduError::TooLong);
        }
        self.state = FrameState::Created;
        self.index = index;
        self.command = Some(command);
        self.data_length = data_length;
        self.waker = None;
        self.flags = PduFlags::with_len(data_length);
        self.irq = 0;
        self.working_counter = 0;
        self.mismatch = None;
        Ok(())
    }

    /// Gives the slot up: whatever state it was in, it is idle afterwards,
    /// and the command, the payload length and the wake handle are cleared.
    pub fn release(&mut self)
        ensures
            final(self)@ == old(self)@.spec_released(),
            final(self)@.wf(),
    {
        self.state = FrameState::Idle;
        self.command = None;
        self.data_length = 0;
        self.waker = None;
        self.mismatch = None;
    }

    /// Gives the slot up because the deadline of its request has passed,
    /// and hands back what the requester is told: the command mismatch, if
    /// a response was refused for one, and otherwise `Timeout`.
    pub fn give_up(&mut self) -> (error: Error)
        ensures
            final(self)@ == old(self)@.spec_released(),
            final(self)@.wf(),
            error == old(self)@.spec_deadline_error(),
    {
        let error: Error = match (self.mismatch, self.command) {
            (Some(received), Some(sent)) => Error::Pdu(
                PduError::Validation(PduValidationError::CommandMismatch { sent, received }),
            ),
            _ => Error::Timeout,
        };
        self.release();
        error
    }

    /// Stores a copy of the requester's wake handle in place of any earlier
    /// one, if a request is on its way in this slot.
    pub fn register(&mut self, waker: &Waker)
        ensures
            old(self)@.state.spec_in_flight() ==> final(self)@ == (FrameView {
                has_waker: true,
                ..old(self)@
            }),
            !old(self)@.state.spec_in_flight() ==> final(self)@ == old(self)@,
    {
        match self.state {
            FrameState::Created | FrameState::Sending | FrameState::Sent => {
                self.waker = Some(clone_waker(waker));
            },
            _ => {},
        }
    }

    /// One step of waiting for the response. While the request is on its
    /// way, the wake handle is stored and nothing else changes. Once the
    /// response is in, its working counter is handed out and the slot is
    /// given up. A slot that holds no request cannot be waited for.
    pub fn poll_response(&mut self, waker: &Waker) -> (result: Result<FramePoll, PduError>)
        requires
            old(self)@.wf(),
        ensures
            final(self)@.wf(),
            old(self)@.state is Idle ==> result == Err::<FramePoll, PduError>(
                PduError::InvalidFrameState,
            ) && final(self)@ == old(self)@,
            old(self)@.state.spec_in_flight() ==> result == Ok::<FramePoll, PduError>(
                FramePoll::Pending,
            ) && final(self)@ == (FrameView { has_waker: true, ..old(self)@ }),
            old(self)@.state is Done ==> result == Ok::<FramePoll, PduError>(
                FramePoll::Ready(old(self)@.working_counter),
            ) && final(self)@ == old(self)@.spec_released(),
    {
        match self.state {
            FrameState::Idle => Err(PduError::InvalidFrameState),
            FrameState::Created | FrameState::Sending | FrameState::Sent => {
                self.register(waker);
                Ok(FramePoll::Pending)
            },
            FrameState::Done => {
                let working_counter: u16 = self.working_counter;
                self.release();
                Ok(FramePoll::Ready(working_counter))
            },
        }
    }

    /// Takes in a response. `payload` is the range of the arena that belongs
    /// to this slot.
    ///
    /// A slot that is not waiting for a response drops it: nothing changes.
    /// A response that echoes a command with another operation code than the
    /// one that was sent is refused: the slot goes on waiting and keeps the
    /// echoed command for the requester to be told of. A response whose data
    /// is longer than `payload` is refused and changes nothing. Otherwise the
    /// data is copied to the front of `payload`, flags, interrupt request and
    /// working counter are stored, the slot is done, and the requester is
    /// woken.
    pub fn wake_done(
        &mut self,
        command: Command,
        flags: PduFlags,
        irq: u16,
        data: &[u8],
        working_counter: u16,
        payload: &mut [u8],
    ) -> (result: Result<(), PduError>)
        requires
            old(self)@.wf(),
        ensures
            final(self)@.wf(),
            final(self)@ == spec_wake_done(
                old(self)@,
                command,
                flags,
                irq,
                data@.len(),
                working_counter,
                old(payload)@.len(),
            ).0,
            result == spec_wake_done(
                old(self)@,
                command,
                flags,
                irq,
                data@.len(),
                working_counter,
                old(payload)@.len(),
            ).1,
            final(self)@.state is Done && !(old(self)@.state is Done) ==> final(payload)@
                == data@ + old(payload)@.skip(data@.len() as int),
            !(final(self)@.state is Done && !(old(self)@.state is Done)) ==> final(payload)@
                == old(payload)@,
    {
        if self.state != FrameState::Sent {
            return Ok(());
        }
        let sent: Command = match self.command {
            Some(sent) => sent,
            None => {
                return Ok(());
            },
        };
        if sent.code() != command.code() {
            self.mismatch = Some(command);
            return Err(
                PduError::Validation(PduValidationError::CommandMismatch { sent, received: command }),
            );
        }
        if data.len() > payload.len() {
            return Err(PduError::TooLong);
        }
        let ghost before = payload@;
        let _: usize = put(payload, 0, data);
        assert(payload@ =~= data@ + before.skip(data@.len() as int));
        self.flags = flags;
        self.irq = irq;
        self.working_counter = working_counter;
        self.mismatch = None;
        self.state = FrameState::Done;
        match self.waker.take() {
            Some(waker) => wake(waker),
            None => {},
        }
        Ok(())
    }
}

/// What taking in a response does to a slot, and what the receiver is told.
pub open spec fn spec_wake_done(
    slot: FrameView,
    command: Command,
    flags: PduFlags,
    irq: u16,
    data_len: nat,
    working_counter: u16,
    payload_len: nat,
) -> (FrameView, Result<(), PduError>) {
    if !(slot.state is Sent) {
        (slot, Ok(()))
    } else if !slot.spec_answers(command) {
        (
            slot.spec_refused(command),
            Err(
                PduError::Validation(
                    PduValidationError::CommandMismatch { sent: slot.command->0, received: command },
                ),
            ),
        )
    } else if data_len > payload_len {
        (slot, Err(PduError::TooLong))
    } else {
        (slot.spec_done(flags, irq, working_counter), Ok(()))
    }
}

/// In a buffer that starts with the Ethernet frame of a PDU, byte 17 is the
/// index of that PDU.
proof fn lemma_index_on_wire(pdu: PduView, buffer: Seq<u8>, len: int)
    requires
        pdu.wf(),
        0 <= len <= buffer.len(),
        buffer.take(len) == spec_ethercat_frame(pdu),
    ensures
        17 < len,
        buffer[17] == pdu.index,
{
    lemma_ethercat_frame_round_trip(pdu);
    assert(buffer[17] == buffer.take(len)[17]);
}

/// A slot on its way to the wire, together with the payload it sends.
/// The pump writes it out and then marks it as sent.
pub struct SendableFrame<'a> {
    pub frame: &'a mut Frame,
    pub data: &'a [u8],
}

impl Frame {
    /// A view for sending this slot with `payload`, if the slot was filled
    /// by a request and not yet handed out.
    pub fn sendable<'a>(&'a mut self, payload: &'a [u8]) -> (view: Option<SendableFrame<'a>>)
        ensures
            view is Some <==> old(self)@.state is Created,
            view matches Some(v) ==> *v.frame == *old(self) && v.data@ == payload@ && *final(self)
                == *final(v.frame),
            view is None ==> *final(self) == *old(self),
    {
        if self.state == FrameState::Created {
            Some(SendableFrame { frame: self, data: payload })
        } else {
            None
        }
    }
}

impl<'a> SendableFrame<'a> {
    /// Index of the PDU on the wire.
    pub fn index(&self) -> (index: u8)
        ensures
            index == old(self.frame)@.index,
    {
        self.frame.index
    }

    /// Command of the request.
    pub fn command(&self) -> (command: Option<Command>)
        ensures
            command == old(self.frame)@.command,
    {
        self.frame.command
    }

    /// Number of payload bytes of the request.
    pub fn data_len(&self) -> (len: usize)
        ensures
            len == old(self.frame)@.data_length,
    {
        self.frame.data_length as usize
    }

    /// Notes that the slot was handed to the pump: a slot that was filled
    /// by a request is now being sent. Any other slot stays as it is.
    pub fn mark_sending(&mut self)
        ensures
            old(self).frame@.state is Created ==> final(self).frame@ == (FrameView {
                state: FrameState::Sending,
                ..old(self).frame@
            }),
            !(old(self).frame@.state is Created) ==> final(self).frame@ == old(self).frame@,
            final(self).data@ == old(self).data@,
            *final(final(self).frame) == *final(old(self).frame),
    {
        if self.frame.state == FrameState::Created {
            self.frame.state = FrameState::Sending;
        }
    }

    /// Notes that the frame went out whole: a slot that was being sent now
    /// waits for its response. Any other slot stays as it is.
    pub fn mark_sent(self)
        ensures
            old(self.frame)@.state is Sending ==> final(self.frame)@ == (FrameView {
                state: FrameState::Sent,
                ..old(self.frame)@
            }),
            !(old(self.frame)@.state is Sending) ==> final(self.frame)@ == old(self.frame)@,
    {
        if self.frame.state == FrameState::Sending {
            self.frame.state = FrameState::Sent;
        }
    }

    /// Settles the slot after the caller's own sender was handed its frame:
    /// a slot whose frame was accepted waits for its response from then on;
    /// one whose frame was refused stays as being sent. Hands back what the
    /// sender said.
    pub fn send_done(self, accepted: Result<(), ()>) -> (result: Result<(), ()>)
        ensures
            result is Ok <==> accepted is Ok,
            accepted is Ok && old(self.frame)@.state is Sending ==> final(self.frame)@
                == (FrameView { state: FrameState::Sent, ..old(self.frame)@ }),
            !(accepted is Ok && old(self.frame)@.state is Sending) ==> final(self.frame)@
                == old(self.frame)@,
    {
        match accepted {
            Ok(()) => {
                self.mark_sent();
                Ok(())
            },
            Err(()) => Err(()),
        }
    }

    /// Writes the Ethernet frame of this request into the front of `buffer`
    /// and hands back its length. The PDU carries the index of the slot, a
    /// zero interrupt request and a zero working counter; its data is the
    /// payload, cut or filled with zeros to the payload length of the
    /// request. Fails, and leaves `buffer` as it is, if the slot holds no
    /// request or the buffer is too short.
    pub fn write_ethernet_packet(&self, buffer: &mut [u8]) -> (result: Result<usize, PduError>)
        ensures
            final(buffer)@.len() == old(buffer)@.len(),
            match result {
                Ok(len) => {
                    &&& old(self.frame)@.command is Some
                    &&& len == 28 + old(self.frame)@.data_length
                    &&& len <= old(buffer)@.len()
                    &&& final(buffer)@.take(len as int) == spec_ethercat_frame(
                        old(self.frame)@.spec_request(self.data@),
                    )
                    &&& final(buffer)@.skip(len as int) == old(buffer)@.skip(len as int)
                    &&& final(buffer)@[17] == old(self.frame)@.index
                },
                Err(e) => {
                    &&& final(buffer)@ == old(buffer)@
                    &&& old(self.frame)@.command is None ==> e == PduError::InvalidFrameState
                    &&& old(self.frame)@.command is Some ==> e == PduError::TooLong && (
                    old(self.frame)@.data_length > MAX_DATA_LEN || old(buffer)@.len() < 28
                        + old(self.frame)@.data_length)
                },
            },
    {
        let command: Command = match self.frame.command {
            Some(command) => command,
            None => {
                return Err(PduError::InvalidFrameState);
            },
        };
        let pdu = Pdu {
            command,
            index: self.frame.index,
            flags: PduFlags::with_len(self.frame.data_length),
            irq: 0,
            data: self.data,
            working_counter: 0,
        };
        let result = pdu.to_ethernet_frame(buffer);
        proof {
            if result is Ok {
                let view = self.frame@.spec_request(self.data@);
                assert(pdu.spec_padded_view() == view);
                lemma_index_on_wire(view, buffer@, result->Ok_0 as int);
            }
        }
        result
    }
}

} // verus!
