//! Transport core of an EtherCAT master: a fixed pool of frame slots, the wire
//! codec for EtherCAT PDUs, and the state machine that pairs every response
//! with the request that caused it.

use vstd::prelude::*;
use core::task::Waker;
use crate::command::Command;
use crate::error::{Error, PduError};
use crate::ethernet::{
    frame_ethertype, frame_is_checked, frame_payload, frame_src_addr, spec_u16_from_be,
    ETHERNET_HEADER_LEN,
};
use crate::pdu::{put_padded, spec_padded, spec_parse_frame, Pdu, MAX_DATA_LEN};
use crate::pdu_frame::{spec_wake_done, Frame, FramePoll, FrameState, FrameView, SendableFrame};
use crate::waker::{clone_waker, wake_by_ref};

pub mod bytes;
pub mod command;
pub mod error;
pub mod ethernet;
pub mod frame_header;
pub mod laws;
pub mod pdu;
pub mod pdu_frame;
pub mod pump;
pub mod waker;

verus! {

/// EtherType of an EtherCAT frame.
pub const ETHERCAT_ETHERTYPE: u16 = 0x88A4;

/// Source MAC address the master stamps on every frame it sends.
pub const MASTER_ADDR: [u8; 6] = [0x10, 0x10, 0x10, 0x10, 0x10, 0x10];

/// Destination MAC address of every frame the master sends.
pub const BROADCAST_ADDR: [u8; 6] = [0xff, 0xff, 0xff, 0xff, 0xff, 0xff];

/// What a request yields: the payload and the working counter of its response.
pub type PduResponse<T> = (T, u16);

/// A response whose working counter can be held against the expected one.
pub trait CheckWorkingCounter<T>: Sized {
    /// The payload of the response.
    spec fn spec_payload(self) -> T;

    /// The working counter of the response.
    spec fn spec_working_counter(self) -> u16;

    /// Hands out the payload if the working counter is `expected`, and
    /// otherwise reports both counters together with `context`.
    fn wkc(self, expected: u16, context: &'static str) -> (result: Result<T, Error>)
        ensures
            self.spec_working_counter() == expected ==> result == Ok::<T, Error>(
                self.spec_payload(),
            ),
            self.spec_working_counter() != expected ==> result == Err::<T, Error>(
                Error::WorkingCounter {
                    expected,
                    received: self.spec_working_counter(),
                    context: Some(context),
                },
            ),
    ;
}

impl<T> CheckWorkingCounter<T> for PduResponse<T> {
    open spec fn spec_payload(self) -> T {
        self.0
    }

    open spec fn spec_working_counter(self) -> u16 {
        self.1
    }

    fn wkc(self, expected: u16, context: &'static str) -> (result: Result<T, Error>) {
        if self.1 == expected {
            Ok(self.0)
        } else {
            Err(Error::WorkingCounter { expected, received: self.1, context: Some(context) })
        }
    }
}

/// What a pool holds: its slots, the payload range of each slot, the
/// counter that picks the slot of the next request, and whether the pump
/// left a wake handle.
pub struct PduLoopView {
    pub frames: Seq<FrameView>,
    pub payloads: Seq<Seq<u8>>,
    pub idx: u8,
    pub has_tx_waker: bool,
}

impl PduLoopView {
    /// Slot `i` is sound: it is well formed, its payload fits its range of
    /// `max_pdu_data` bytes, its wire index is its place in the pool while
    /// it holds a request, and while that request is on its way the
    /// requester has left a wake handle.
    pub open spec fn slot_wf(self, i: int, max_pdu_data: int) -> bool {
        let slot = self.frames[i];
        &&& slot.wf()
        &&& slot.data_length <= max_pdu_data
        &&& !(slot.state is Idle) ==> slot.index == i
        &&& slot.state.spec_in_flight() ==> slot.has_waker
        &&& self.payloads[i].len() == max_pdu_data
    }

    /// The pool has between 1 and 256 slots, each with a range of
    /// `max_pdu_data` bytes, and every slot is sound.
    pub open spec fn wf(self, max_frames: int, max_pdu_data: int) -> bool {
        &&& 1 <= max_frames <= 256
        &&& 0 <= max_pdu_data
        &&& self.frames.len() == max_frames
        &&& self.payloads.len() == max_frames
        &&& forall|i: int| 0 <= i < max_frames ==> #[trigger] self.slot_wf(i, max_pdu_data)
    }

    /// A fresh pool: every slot idle, every range zero, the counter at zero,
    /// and no wake handle of the pump.
    pub open spec fn spec_new(max_frames: int, max_pdu_data: int) -> PduLoopView {
        PduLoopView {
            frames: Seq::new(max_frames as nat, |i: int| Frame::spec_new()),
            payloads: Seq::new(
                max_frames as nat,
                |i: int| Seq::new(max_pdu_data as nat, |k: int| 0u8),
            ),
            idx: 0,
            has_tx_waker: false,
        }
    }

    /// The slot that the next request gets: the counter modulo the number
    /// of slots.
    pub open spec fn spec_next_slot(self) -> int {
        self.idx as int % self.frames.len() as int
    }

    /// Whether a request with this payload can be stored in a range of
    /// `max_pdu_data` bytes.
    pub open spec fn spec_fits(max_pdu_data: int, data: Seq<u8>, data_length: u16) -> bool {
        data_length <= max_pdu_data && data.len() <= max_pdu_data
    }

    /// What a slot's range holds once a request was stored in it: the first
    /// `data_length` bytes of `data`, as far as there are any, then zeros.
    pub open spec fn spec_stored(max_pdu_data: int, data: Seq<u8>, data_length: u16) -> Seq<u8> {
        let count = if data_length <= data.len() { data_length as int } else { data.len() as int };
        spec_padded(data.take(count), max_pdu_data as nat)
    }

    /// The counter after one more request.
    pub open spec fn spec_next_idx(self) -> u8 {
        if self.idx == 255 {
            0u8
        } else {
            (self.idx + 1) as u8
        }
    }

    /// What a new request does to the pool, and what the requester is told.
    ///
    /// A request that does not fit a range is turned away with `TooLong`
    /// and leaves the pool as it is. Any other request advances the counter.
    /// If the slot the counter picked is busy, the request is turned away
    /// with `SwapState`: that is back-pressure. If the slot is idle but the
    /// payload is longer than a frame can carry, the request is turned away
    /// with `TooLong`. Otherwise the slot is claimed under its own index,
    /// the requester's wake handle is stored, the slot's range is filled,
    /// and the requester gets the index.
    pub open spec fn spec_pdu_tx(
        self,
        max_pdu_data: int,
        command: Command,
        data: Seq<u8>,
        data_length: u16,
    ) -> (PduLoopView, Result<u8, Error>) {
        if !Self::spec_fits(max_pdu_data, data, data_length) {
            (self, Err(Error::Pdu(PduError::TooLong)))
        } else {
            let i = self.spec_next_slot();
            let idx = self.spec_next_idx();
            if !(self.frames[i].state is Idle) {
                (PduLoopView { idx, ..self }, Err(Error::Pdu(PduError::SwapState)))
            } else if data_length > MAX_DATA_LEN {
                (PduLoopView { idx, ..self }, Err(Error::Pdu(PduError::TooLong)))
            } else {
                (
                    PduLoopView {
                        frames: self.frames.update(
                            i,
                            FrameView {
                                has_waker: true,
                                ..FrameView::spec_created(command, data_length, i as u8)
                            },
                        ),
                        payloads: self.payloads.update(
                            i,
                            Self::spec_stored(max_pdu_data, data, data_length),
                        ),
                        idx,
                        ..self
                    },
                    Ok(i as u8),
                )
            }
        }
    }

    /// What one step of waiting for the response of slot `idx` does to the
    /// pool, and what the requester is told.
    ///
    /// A response that is in is handed out, as the first bytes of the slot's
    /// range up to the payload length of the request, with its working
    /// counter, and the slot is given up. A request that is still on its way
    /// is given up if its deadline has passed: with the command mismatch, if
    /// a response was refused for one in the meantime, and otherwise with
    /// `Timeout`. Before the deadline the wake handle is stored and the
    /// requester waits on. A slot that holds no request, or that does not
    /// exist, is an error.
    pub open spec fn spec_poll_response(self, idx: u8, timed_out: bool) -> (
        PduLoopView,
        Result<Option<(Seq<u8>, u16)>, Error>,
    ) {
        let i = idx as int;
        if i >= self.frames.len() {
            (self, Err(Error::Pdu(PduError::InvalidIndex(idx))))
        } else {
            let slot = self.frames[i];
            let released = PduLoopView {
                frames: self.frames.update(i, slot.spec_released()),
                ..self
            };
            if slot.state is Done {
                (
                    released,
                    Ok(Some((self.payloads[i].take(slot.data_length as int), slot.working_counter))),
                )
            } else if slot.state is Idle {
                (self, Err(Error::Pdu(PduError::InvalidFrameState)))
            } else if timed_out {
                (released, Err(slot.spec_deadline_error()))
            } else {
                (
                    PduLoopView {
                        frames: self.frames.update(i, FrameView { has_waker: true, ..slot }),
                        ..self
                    },
                    Ok(None),
                )
            }
        }
    }

    /// Whether the pump has to send this slot: a request filled it, and it
    /// is not on the wire yet.
    pub open spec fn spec_is_sendable(slot: FrameView) -> bool {
        slot.state is Created || slot.state is Sending
    }

    /// Whether `frame` with `data` is what the pump hands out for a slot of
    /// this pool: the slot that `frame` names has to be sent, `frame` is
    /// that slot as being sent, and `data` is the first bytes of the slot's
    /// range, up to the payload length of the request.
    pub open spec fn spec_hands_out(self, frame: FrameView, data: Seq<u8>) -> bool {
        let i = frame.index as int;
        &&& i < self.frames.len()
        &&& Self::spec_is_sendable(self.frames[i])
        &&& frame == (FrameView { state: FrameState::Sending, ..self.frames[i] })
        &&& data == self.payloads[i].take(frame.data_length as int)
    }

    /// The slot after the pump has sent it, if it had to.
    pub open spec fn spec_sent(slot: FrameView) -> FrameView {
        if Self::spec_is_sendable(slot) {
            FrameView { state: FrameState::Sent, ..slot }
        } else {
            slot
        }
    }

    /// Whether a frame that got through the Ethernet check is looked at:
    /// it is an EtherCAT frame and does not come from the master itself.
    pub open spec fn spec_is_response(bytes: Seq<u8>) -> bool {
        spec_u16_from_be(bytes[12], bytes[13]) == ETHERCAT_ETHERTYPE && bytes.subrange(6, 12)
            != MASTER_ADDR@
    }

    /// What a frame from the socket does to the pool, and what the pump is
    /// told.
    ///
    /// A buffer too short for an Ethernet header is an error. A frame of
    /// another EtherType, or one that the master sent itself, is passed
    /// over. Otherwise the payload has to read as a frame header and exactly
    /// one PDU, and the index of the PDU has to name a slot. What the slot
    /// makes of the response, and what becomes of the slot, is said by
    /// [`spec_wake_done`]; only where the slot takes the response is its data
    /// copied to the front of the slot's range.
    pub open spec fn spec_pdu_rx(self, max_pdu_data: int, bytes: Seq<u8>) -> (
        PduLoopView,
        Result<(), Error>,
    ) {
        if bytes.len() < ETHERNET_HEADER_LEN {
            (self, Err(Error::Pdu(PduError::Ethernet)))
        } else if !Self::spec_is_response(bytes) {
            (self, Ok(()))
        } else {
            match spec_parse_frame(bytes.skip(ETHERNET_HEADER_LEN as int)) {
                Err(e) => (self, Err(Error::Pdu(e))),
                Ok(pdu) => {
                    let i = pdu.index as int;
                    if i >= self.frames.len() {
                        (self, Err(Error::Pdu(PduError::InvalidIndex(pdu.index))))
                    } else {
                        let (slot, result) = spec_wake_done(
                            self.frames[i],
                            pdu.command,
                            pdu.flags,
                            pdu.irq,
                            pdu.data.len(),
                            pdu.working_counter,
                            max_pdu_data as nat,
                        );
                        match result {
                            Err(e) => (
                                PduLoopView { frames: self.frames.update(i, slot), ..self },
                                Err(Error::Pdu(e)),
                            ),
                            Ok(()) => if slot.state is Done && self.frames[i].state is Sent {
                                (
                                    PduLoopView {
                                        frames: self.frames.update(i, slot),
                                        payloads: self.payloads.update(
                                            i,
                                            pdu.data + self.payloads[i].skip(pdu.data.len() as int),
                                        ),
                                        ..self
                                    },
                                    Ok(()),
                                )
                            } else {
                                (self, Ok(()))
                            },
                        }
                    }
                },
            }
        }
    }
}

/// The pool: a fixed number of slots, one contiguous arena with a range of
/// `MAX_PDU_DATA` bytes for each slot, the counter that picks the slot of
/// the next request, and the wake handle of the pump.
pub struct PduLoop<const MAX_FRAMES: usize, const MAX_PDU_DATA: usize> {
    frames: Vec<Frame>,
    frame_data: Vec<u8>,
    tx_waker: Option<Waker>,
    idx: u8,
}

/// Range `i` of an arena cut into ranges of `size` bytes.
pub open spec fn spec_range(arena: Seq<u8>, i: int, size: int) -> Seq<u8> {
    arena.subrange(i * size, i * size + size)
}

proof fn lemma_range_bounds(i: int, j: int, size: int)
    by (nonlinear_arith)
    requires
        0 <= i < j,
        0 <= size,
    ensures
        0 <= i * size,
        i * size + size <= j * size,
{
}

/// A sound pool stays sound when at most slot `i` and its range change and
/// that slot is sound afterwards.
pub proof fn lemma_pool_stays_sound(
    before: PduLoopView,
    after: PduLoopView,
    max_frames: int,
    max_pdu_data: int,
    i: int,
)
    requires
        before.wf(max_frames, max_pdu_data),
        after.frames.len() == max_frames,
        after.payloads.len() == max_frames,
        forall|j: int|
            0 <= j < max_frames && j != i ==> #[trigger] after.frames[j] == before.frames[j]
                && after.payloads[j] == before.payloads[j],
        0 <= i < max_frames ==> after.slot_wf(i, max_pdu_data),
    ensures
        after.wf(max_frames, max_pdu_data),
{
    assert forall|j: int| 0 <= j < max_frames implies #[trigger] after.slot_wf(
        j,
        max_pdu_data,
    ) by {
        assert(before.slot_wf(j, max_pdu_data));
        if j != i {
            assert(after.frames[j] == before.frames[j]);
        }
    }
}

/// Writing one range of an arena changes that range and no other.
proof fn lemma_range_written(
    before: Seq<u8>,
    after: Seq<u8>,
    i: int,
    count: int,
    size: int,
    range: Seq<u8>,
)
    requires
        0 <= i < count,
        0 <= size,
        before.len() == count * size,
        range.len() == size,
        after == before.take(i * size) + range + before.skip(i * size + size),
    ensures
        after.len() == count * size,
        spec_range(after, i, size) == range,
        forall|j: int| 0 <= j < count && j != i ==> #[trigger] spec_range(after, j, size)
            == spec_range(before, j, size),
{
    lemma_range_bounds(i, count, size);
    assert(spec_range(after, i, size) =~= range);
    assert forall|j: int| 0 <= j < count && j != i implies #[trigger] spec_range(after, j, size)
        == spec_range(before, j, size) by {
        lemma_range_bounds(j, count, size);
        if j < i {
            lemma_range_bounds(j, i, size);
        } else {
            lemma_range_bounds(i, j, size);
        }
        assert(spec_range(after, j, size) =~= spec_range(before, j, size));
    }
}

impl<const MAX_FRAMES: usize, const MAX_PDU_DATA: usize> View for PduLoop<
    MAX_FRAMES,
    MAX_PDU_DATA,
> {
    type V = PduLoopView;

    closed spec fn view(&self) -> PduLoopView {
        PduLoopView {
            frames: Seq::new(self.frames@.len(), |i: int| self.frames@[i]@),
            payloads: Seq::new(
                MAX_FRAMES as nat,
                |i: int| spec_range(self.frame_data@, i, MAX_PDU_DATA as int),
            ),
            idx: self.idx,
            has_tx_waker: self.tx_waker is Some,
        }
    }
}

impl<const MAX_FRAMES: usize, const MAX_PDU_DATA: usize> PduLoop<MAX_FRAMES, MAX_PDU_DATA> {
    /// The arena is exactly as long as its ranges together.
    pub closed spec fn arena_wf(&self) -> bool {
        self.frame_data@.len() == MAX_FRAMES * MAX_PDU_DATA
    }

    /// The storage has its size and what it holds is sound.
    pub open spec fn wf(&self) -> bool {
        self.arena_wf() && self@.wf(MAX_FRAMES as int, MAX_PDU_DATA as int)
    }

    /// A fresh pool of `MAX_FRAMES` slots with `MAX_PDU_DATA` bytes each.
    pub fn new() -> (pdu_loop: Self)
        requires
            1 <= MAX_FRAMES <= 256,
            MAX_FRAMES * MAX_PDU_DATA <= usize::MAX,
        ensures
            pdu_loop.wf(),
            pdu_loop@ == PduLoopView::spec_new(MAX_FRAMES as int, MAX_PDU_DATA as int),
    {
        let mut frames: Vec<Frame> = Vec::new();
        let mut frame_data: Vec<u8> = Vec::new();
        let mut i: usize = 0;
        while i < MAX_FRAMES
            invariant
                i <= MAX_FRAMES,
                MAX_FRAMES * MAX_PDU_DATA <= usize::MAX,
                frames@.len() == i,
                frame_data@.len() == i * MAX_PDU_DATA,
                forall|j: int| 0 <= j < i ==> (#[trigger] frames@[j])@ == Frame::spec_new(),
                forall|k: int| 0 <= k < frame_data@.len() ==> frame_data@[k] == 0,
            decreases MAX_FRAMES - i,
        {
            frames.push(Frame::new());
            let mut k: usize = 0;
            proof {
                lemma_range_bounds(i as int, MAX_FRAMES as int, MAX_PDU_DATA as int);
            }
            while k < MAX_PDU_DATA
                invariant
                    k <= MAX_PDU_DATA,
                    i * MAX_PDU_DATA + MAX_PDU_DATA <= usize::MAX,
                    frame_data@.len() == i * MAX_PDU_DATA + k,
                    forall|k: int| 0 <= k < frame_data@.len() ==> frame_data@[k] == 0,
                decreases MAX_PDU_DATA - k,
            {
                frame_data.push(0);
                k += 1;
            }
            assert((i + 1) * MAX_PDU_DATA == i * MAX_PDU_DATA + MAX_PDU_DATA)
                by (nonlinear_arith);
            i += 1;
        }
        let pdu_loop = PduLoop { frames, frame_data, tx_waker: None, idx: 0 };
        proof {
            assert forall|i: int| 0 <= i < MAX_FRAMES implies #[trigger] pdu_loop@.frames[i]
                == Frame::spec_new() && pdu_loop@.payloads[i] == Seq::new(
                MAX_PDU_DATA as nat,
                |k: int| 0u8,
            ) by {
                lemma_range_bounds(i, MAX_FRAMES as int, MAX_PDU_DATA as int);
                assert(pdu_loop@.frames[i] == pdu_loop.frames@[i]@);
                assert(pdu_loop@.payloads[i] =~= Seq::new(MAX_PDU_DATA as nat, |k: int| 0u8));
            }
            assert forall|i: int| 0 <= i < MAX_FRAMES implies #[trigger] pdu_loop@.slot_wf(
                i,
                MAX_PDU_DATA as int,
            ) by {
                assert(pdu_loop@.frames[i] == Frame::spec_new());
            }
            let fresh = PduLoopView::spec_new(MAX_FRAMES as int, MAX_PDU_DATA as int);
            assert(pdu_loop@.frames =~= fresh.frames);
            assert forall|i: int| 0 <= i < MAX_FRAMES implies pdu_loop@.payloads[i]
                == fresh.payloads[i] by {
                assert(pdu_loop@.frames[i] == Frame::spec_new());
            }
            assert(pdu_loop@.payloads =~= fresh.payloads);
        }
        pdu_loop
    }
}

impl<const MAX_FRAMES: usize, const MAX_PDU_DATA: usize> PduLoop<MAX_FRAMES, MAX_PDU_DATA> {
    /// Slot `idx`, if there is one.
    pub fn frame(&self, idx: u8) -> (result: Result<&Frame, Error>)
        requires
            self.wf(),
        ensures
            idx < MAX_FRAMES ==> result is Ok && result->Ok_0@ == self@.frames[idx as int],
            idx >= MAX_FRAMES ==> result == Err::<&Frame, Error>(
                Error::Pdu(PduError::InvalidIndex(idx)),
            ),
    {
        if idx as usize >= MAX_FRAMES {
            return Err(Error::Pdu(PduError::InvalidIndex(idx)));
        }
        Ok(&self.frames[idx as usize])
    }

    /// The range of the arena that belongs to slot `idx`, if there is one.
    pub fn frame_data(&self, idx: u8) -> (result: Result<&[u8], Error>)
        requires
            self.wf(),
        ensures
            idx < MAX_FRAMES ==> result is Ok && result->Ok_0@ == self@.payloads[idx as int],
            idx >= MAX_FRAMES ==> result == Err::<&[u8], Error>(
                Error::Pdu(PduError::InvalidIndex(idx)),
            ),
    {
        if idx as usize >= MAX_FRAMES {
            return Err(Error::Pdu(PduError::InvalidIndex(idx)));
        }
        proof {
            lemma_range_bounds(idx as int, MAX_FRAMES as int, MAX_PDU_DATA as int);
            assert(self.frame_data.len() == MAX_FRAMES * MAX_PDU_DATA);
        }
        let start: usize = idx as usize * MAX_PDU_DATA;
        Ok(vstd::slice::slice_subrange(self.frame_data.as_slice(), start, start + MAX_PDU_DATA))
    }

    /// Stores a copy of the pump's wake handle, in place of any earlier one.
    pub fn set_send_waker(&mut self, waker: &Waker)
        requires
            old(self).wf(),
        ensures
            final(self).wf(),
            final(self)@ == (PduLoopView { has_tx_waker: true, ..old(self)@ }),
    {
        self.tx_waker = Some(clone_waker(waker));
        proof {
            assert(self@.frames =~= old(self)@.frames);
            assert(self@.payloads =~= old(self)@.payloads);
            lemma_pool_stays_sound(
                old(self)@,
                self@,
                MAX_FRAMES as int,
                MAX_PDU_DATA as int,
                -1,
            );
        }
    }

    /// Takes in a new request: see [`PduLoopView::spec_pdu_tx`]. The pump is
    /// woken if it left a wake handle.
    fn request(&mut self, command: Command, data: &[u8], data_length: u16, waker: &Waker) -> (result:
        Result<u8, Error>)
        requires
            old(self).wf(),
        ensures
            final(self).wf(),
            (final(self)@, result) == old(self)@.spec_pdu_tx(
                MAX_PDU_DATA as int,
                command,
                data@,
                data_length,
            ),
    {
        if data_length as usize > MAX_PDU_DATA || data.len() > MAX_PDU_DATA {
            return Err(Error::Pdu(PduError::TooLong));
        }
        let i: usize = self.idx as usize % MAX_FRAMES;
        self.idx = if self.idx == 255 { 0 } else { self.idx + 1 };
        proof {
            assert(self@.frames =~= old(self)@.frames);
            assert(self@.payloads =~= old(self)@.payloads);
            assert(old(self)@.slot_wf(i as int, MAX_PDU_DATA as int));
            assert(self@.frames[i as int] == self.frames@[i as int]@);
        }
        match self.frames[i].replace(command, data_length, i as u8) {
            Ok(()) => {},
            Err(e) => {
                proof {
                    assert(self@.frames =~= old(self)@.frames);
                    assert(self@.payloads =~= old(self)@.payloads);
                    lemma_pool_stays_sound(
                old(self)@,
                self@,
                MAX_FRAMES as int,
                MAX_PDU_DATA as int,
                -1,
            );
                }
                return Err(Error::Pdu(e));
            },
        }
        self.frames[i].register(waker);
        let count: usize = if (data_length as usize) <= data.len() {
            data_length as usize
        } else {
            data.len()
        };
        let prefix: &[u8] = vstd::slice::slice_subrange(data, 0, count);
        proof {
            lemma_range_bounds(i as int, MAX_FRAMES as int, MAX_PDU_DATA as int);
            assert(self.frame_data.len() == MAX_FRAMES * MAX_PDU_DATA);
        }
        let ghost arena = self.frame_data@;
        let start: usize = i * MAX_PDU_DATA;
        let _: usize = put_padded(self.frame_data.as_mut_slice(), start, prefix, MAX_PDU_DATA);
        match &self.tx_waker {
            Some(tx_waker) => wake_by_ref(tx_waker),
            None => {},
        }
        proof {
            let stored = PduLoopView::spec_stored(MAX_PDU_DATA as int, data@, data_length);
            assert(prefix@ =~= data@.take(count as int));
            lemma_range_written(
                arena,
                self.frame_data@,
                i as int,
                MAX_FRAMES as int,
                MAX_PDU_DATA as int,
                stored,
            );
            let expected = old(self)@.spec_pdu_tx(MAX_PDU_DATA as int, command, data@, data_length).0;
            assert(self@.frames =~= expected.frames);
            assert(self@.payloads =~= expected.payloads) by {
                assert forall|j: int| 0 <= j < MAX_FRAMES implies self@.payloads[j]
                    == expected.payloads[j] by {
                    assert(self@.payloads[j] == spec_range(
                        self.frame_data@,
                        j,
                        MAX_PDU_DATA as int,
                    ));
                    assert(old(self)@.payloads[j] == spec_range(arena, j, MAX_PDU_DATA as int));
                }
            }
            lemma_pool_stays_sound(
                old(self)@,
                self@,
                MAX_FRAMES as int,
                MAX_PDU_DATA as int,
                i as int,
            );
        }
        Ok(i as u8)
    }
}

/// Whether `addr` is the address the master sends from.
fn is_master_addr(addr: [u8; 6]) -> (yes: bool)
    ensures
        yes == (addr@ == MASTER_ADDR@),
{
    let yes: bool = addr[0] == MASTER_ADDR[0] && addr[1] == MASTER_ADDR[1] && addr[2]
        == MASTER_ADDR[2] && addr[3] == MASTER_ADDR[3] && addr[4] == MASTER_ADDR[4] && addr[5]
        == MASTER_ADDR[5];
    proof {
        if yes {
            assert(addr@ =~= MASTER_ADDR@);
        }
    }
    yes
}

/// What a step of waiting found, with the payload as a sequence of bytes.
pub open spec fn spec_response_view(result: Result<Option<PduResponse<&[u8]>>, Error>) -> Result<
    Option<(Seq<u8>, u16)>,
    Error,
> {
    match result {
        Ok(Some((data, working_counter))) => Ok(Some((data@, working_counter))),
        Ok(None) => Ok(None),
        Err(e) => Err(e),
    }
}

impl<const MAX_FRAMES: usize, const MAX_PDU_DATA: usize> PduLoop<MAX_FRAMES, MAX_PDU_DATA> {
    /// One step of waiting for the response of slot `idx`: see
    /// [`PduLoopView::spec_poll_response`].
    fn response(&mut self, idx: u8, timed_out: bool, waker: &Waker) -> (result: Result<
        Option<PduResponse<&[u8]>>,
        Error,
    >)
        requires
            old(self).wf(),
        ensures
            final(self).wf(),
            final(self)@ == old(self)@.spec_poll_response(idx, timed_out).0,
            spec_response_view(result) == old(self)@.spec_poll_response(idx, timed_out).1,
    {
        if idx as usize >= MAX_FRAMES {
            return Err(Error::Pdu(PduError::InvalidIndex(idx)));
        }
        let i: usize = idx as usize;
        proof {
            assert(old(self)@.slot_wf(i as int, MAX_PDU_DATA as int));
            assert(self@.frames[i as int] == self.frames@[i as int]@);
            lemma_range_bounds(i as int, MAX_FRAMES as int, MAX_PDU_DATA as int);
            assert(self.frame_data.len() == MAX_FRAMES * MAX_PDU_DATA);
        }
        let state: FrameState = self.frames[i].state();
        let data_length: usize = self.frames[i].data_length() as usize;
        let in_flight: bool = match state {
            FrameState::Created | FrameState::Sending | FrameState::Sent => true,
            _ => false,
        };
        let polled: Result<FramePoll, Error> = if in_flight && timed_out {
            Err(self.frames[i].give_up())
        } else {
            match self.frames[i].poll_response(waker) {
                Ok(found) => Ok(found),
                Err(e) => Err(Error::Pdu(e)),
            }
        };
        proof {
            let expected = old(self)@.spec_poll_response(idx, timed_out).0;
            assert(self@.frames =~= expected.frames);
            assert(self@.payloads =~= expected.payloads);
            lemma_pool_stays_sound(
                old(self)@,
                self@,
                MAX_FRAMES as int,
                MAX_PDU_DATA as int,
                i as int,
            );
        }
        match polled {
            Err(e) => Err(e),
            Ok(FramePoll::Pending) => Ok(None),
            Ok(FramePoll::Ready(working_counter)) => {
                let start: usize = i * MAX_PDU_DATA;
                let data: &[u8] = vstd::slice::slice_subrange(
                    self.frame_data.as_slice(),
                    start,
                    start + data_length,
                );
                assert(data@ =~= old(self)@.payloads[i as int].take(data_length as int));
                Ok(Some((data, working_counter)))
            },
        }
    }

    /// Takes in one frame from the socket: see [`PduLoopView::spec_pdu_rx`].
    /// The requester whose response came in is woken.
    pub fn pdu_rx(&mut self, ethernet_frame: &[u8]) -> (result: Result<(), Error>)
        requires
            old(self).wf(),
        ensures
            final(self).wf(),
            (final(self)@, result) == old(self)@.spec_pdu_rx(
                MAX_PDU_DATA as int,
                ethernet_frame@,
            ),
    {
        if !frame_is_checked(ethernet_frame) {
            return Err(Error::Pdu(PduError::Ethernet));
        }
        if frame_ethertype(ethernet_frame) != ETHERCAT_ETHERTYPE || is_master_addr(
            frame_src_addr(ethernet_frame),
        ) {
            return Ok(());
        }
        let pdu: Pdu<'_> = match Pdu::parse_frame(frame_payload(ethernet_frame)) {
            Ok(pdu) => pdu,
            Err(e) => {
                return Err(Error::Pdu(e));
            },
        };
        if pdu.index as usize >= MAX_FRAMES {
            return Err(Error::Pdu(PduError::InvalidIndex(pdu.index)));
        }
        let i: usize = pdu.index as usize;
        proof {
            assert(old(self)@.slot_wf(i as int, MAX_PDU_DATA as int));
            assert(self@.frames[i as int] == self.frames@[i as int]@);
            lemma_range_bounds(i as int, MAX_FRAMES as int, MAX_PDU_DATA as int);
            assert(self.frame_data.len() == MAX_FRAMES * MAX_PDU_DATA);
        }
        let ghost arena = self.frame_data@;
        let start: usize = i * MAX_PDU_DATA;
        let (_, tail) = self.frame_data.as_mut_slice().split_at_mut(start);
        let (range, _) = tail.split_at_mut(MAX_PDU_DATA);
        let ghost before = range@;
        let taken = self.frames[i].wake_done(
            pdu.command,
            pdu.flags,
            pdu.irq,
            pdu.data,
            pdu.working_counter,
            range,
        );
        proof {
            let after = if self.frames@[i as int]@.state is Done && old(self)@.frames[i as int].state
                is Sent {
                pdu.data@ + before.skip(pdu.data@.len() as int)
            } else {
                before
            };
            assert(before =~= spec_range(arena, i as int, MAX_PDU_DATA as int));
            assert(self.frame_data@ =~= arena.take(start as int) + after + arena.skip(
                start + MAX_PDU_DATA,
            ));
            lemma_range_written(
                arena,
                self.frame_data@,
                i as int,
                MAX_FRAMES as int,
                MAX_PDU_DATA as int,
                after,
            );
            let expected = old(self)@.spec_pdu_rx(MAX_PDU_DATA as int, ethernet_frame@).0;
            assert(self@.frames =~= expected.frames);
            assert(self@.payloads =~= expected.payloads) by {
                assert forall|j: int| 0 <= j < MAX_FRAMES implies self@.payloads[j]
                    == expected.payloads[j] by {
                    assert(self@.payloads[j] == spec_range(
                        self.frame_data@,
                        j,
                        MAX_PDU_DATA as int,
                    ));
                    assert(old(self)@.payloads[j] == spec_range(arena, j, MAX_PDU_DATA as int));
                }
            }
            lemma_pool_stays_sound(
                old(self)@,
                self@,
                MAX_FRAMES as int,
                MAX_PDU_DATA as int,
                i as int,
            );
        }
        match taken {
            Ok(()) => Ok(()),
            Err(e) => Err(Error::Pdu(e)),
        }
    }
}

impl<const MAX_FRAMES: usize, const MAX_PDU_DATA: usize> PduLoop<MAX_FRAMES, MAX_PDU_DATA> {
    /// A view for sending slot `i`, if the pump has to send it. The slot is
    /// being sent from then on; the view holds the first bytes of the slot's
    /// range, up to the payload length of the request.
    fn sendable_at(&mut self, i: usize) -> (view: Option<SendableFrame<'_>>)
        requires
            old(self).wf(),
            i < MAX_FRAMES,
        ensures
            view is Some <==> PduLoopView::spec_is_sendable(old(self)@.frames[i as int]),
            view matches Some(v) ==> {
                &&& v.frame@ == (FrameView {
                    state: FrameState::Sending,
                    ..old(self)@.frames[i as int]
                })
                &&& v.data@ == old(self)@.payloads[i as int].take(v.frame@.data_length as int)
                &&& final(self)@.frames == old(self)@.frames.update(i as int, final(v.frame)@)
                &&& final(self)@.payloads == old(self)@.payloads
                &&& final(self)@.idx == old(self)@.idx
                &&& final(self)@.has_tx_waker == old(self)@.has_tx_waker
                &&& final(self).arena_wf()
            },
            view is None ==> *final(self) == *old(self),
    {
        proof {
            assert(old(self)@.slot_wf(i as int, MAX_PDU_DATA as int));
            assert(self@.frames[i as int] == self.frames@[i as int]@);
            lemma_range_bounds(i as int, MAX_FRAMES as int, MAX_PDU_DATA as int);
            assert(self.frame_data.len() == MAX_FRAMES * MAX_PDU_DATA);
        }
        let state: FrameState = self.frames[i].state();
        match state {
            FrameState::Created | FrameState::Sending => {},
            _ => {
                return None;
            },
        }
        let len: usize = self.frames[i].data_length() as usize;
        let start: usize = i * MAX_PDU_DATA;
        let data: &[u8] = vstd::slice::slice_subrange(
            self.frame_data.as_slice(),
            start,
            start + len,
        );
        assert(data@ =~= old(self)@.payloads[i as int].take(len as int));
        let mut view = SendableFrame { frame: &mut self.frames[i], data };
        view.mark_sending();
        Some(view)
    }

    /// The first slot, in the order of the pool, that the pump has to send:
    /// one that a request filled, or one that was handed out before and never
    /// marked as sent. It is being sent from then on. The view holds the
    /// first bytes of the slot's range, up to the payload length of the
    /// request; what becomes of the slot is up to the view. A view that
    /// leaves the slot as being sent, or marks it as sent, leaves the pool
    /// sound: see [`laws::lemma_sent_slot_keeps_pool_sound`].
    pub fn next_sendable_frame(&mut self) -> (view: Option<SendableFrame<'_>>)
        requires
            old(self).wf(),
        ensures
            match view {
                Some(v) => {
                    let i = v.frame@.index as int;
                    &&& 0 <= i < MAX_FRAMES
                    &&& PduLoopView::spec_is_sendable(old(self)@.frames[i])
                    &&& forall|j: int|
                        0 <= j < i ==> !PduLoopView::spec_is_sendable(
                            #[trigger] old(self)@.frames[j],
                        )
                    &&& v.frame@ == (FrameView {
                        state: FrameState::Sending,
                        ..old(self)@.frames[i]
                    })
                    &&& v.data@ == old(self)@.payloads[i].take(v.frame@.data_length as int)
                    &&& final(self)@.frames == old(self)@.frames.update(i, final(v.frame)@)
                    &&& final(self)@.payloads == old(self)@.payloads
                    &&& final(self)@.idx == old(self)@.idx
                    &&& final(self)@.has_tx_waker == old(self)@.has_tx_waker
                    &&& final(self).arena_wf()
                },
                None => {
                    &&& forall|j: int|
                        0 <= j < MAX_FRAMES ==> !PduLoopView::spec_is_sendable(
                            #[trigger] old(self)@.frames[j],
                        )
                    &&& *final(self) == *old(self)
                },
            },
    {
        let mut i: usize = 0;
        while i < MAX_FRAMES
            invariant
                i <= MAX_FRAMES,
                *self == *old(self),
                self.wf(),
                forall|j: int|
                    0 <= j < i ==> !PduLoopView::spec_is_sendable(#[trigger] self@.frames[j]),
            ensures
                i < MAX_FRAMES ==> PduLoopView::spec_is_sendable(self@.frames[i as int]),
            decreases MAX_FRAMES - i,
        {
            proof {
                assert(self@.frames[i as int] == self.frames@[i as int]@);
            }
            let state: FrameState = self.frames[i].state();
            match state {
                FrameState::Created | FrameState::Sending => {
                    break ;
                },
                _ => {},
            }
            i += 1;
        }
        if i >= MAX_FRAMES {
            return None;
        }
        proof {
            assert(self@.slot_wf(i as int, MAX_PDU_DATA as int));
        }
        self.sendable_at(i)
    }
}

/// Whether `send` took the frame that `pool` hands out for slot `i`: some
/// call of it with that frame and its data can end in `Ok`.
pub open spec fn spec_send_took<F: FnMut(&SendableFrame, &[u8]) -> Result<(), ()>>(
    send: F,
    pool: PduLoopView,
    i: int,
) -> bool {
    exists|frame: &SendableFrame, data: &[u8], told: Result<(), ()>|
        {
            &&& frame.frame@.index == i
            &&& pool.spec_hands_out(frame.frame@, data@)
            &&& frame.data@ == data@
            &&& told is Ok
            &&& call_ensures(send, (frame, data), told)
        }
}

/// Whether `send` refused the frame that `pool` hands out for slot `i`:
/// some call of it with that frame and its data can end in `Err`.
pub open spec fn spec_send_refused<F: FnMut(&SendableFrame, &[u8]) -> Result<(), ()>>(
    send: F,
    pool: PduLoopView,
    i: int,
) -> bool {
    exists|frame: &SendableFrame, data: &[u8], told: Result<(), ()>|
        {
            &&& frame.frame@.index == i
            &&& pool.spec_hands_out(frame.frame@, data@)
            &&& frame.data@ == data@
            &&& told is Err
            &&& call_ensures(send, (frame, data), told)
        }
}

impl<const MAX_FRAMES: usize, const MAX_PDU_DATA: usize> PduLoop<MAX_FRAMES, MAX_PDU_DATA> {
    /// Hands every slot that the pump has to send to `send`, in the order of
    /// the pool: a view of the slot as being sent, which carries the index,
    /// the command and the payload length of the request, and the payload
    /// that goes on the wire. `send` has to be callable with just those.
    ///
    /// A slot that `send` accepted waits for its response from then on. The
    /// first slot that `send` refuses ends the round with `Err`: it stays as
    /// being sent, the slots after it are not touched, and the wake handle
    /// is not stored. A round in which `send` refused nothing ends with
    /// `Ok`, and a copy of `waker` is stored for the requesters to wake the
    /// pump with.
    pub fn send_frames_blocking<F>(&mut self, waker: &Waker, mut send: F) -> (result: Result<
        (),
        (),
    >) where F: FnMut(&SendableFrame, &[u8]) -> Result<(), ()>
        requires
            old(self).wf(),
            forall|frame: &SendableFrame, data: &[u8]|
                old(self)@.spec_hands_out(frame.frame@, data@) && frame.data@ == data@
                    ==> call_requires(send, (frame, data)),
        ensures
            final(self).wf(),
            final(self)@.payloads == old(self)@.payloads,
            final(self)@.idx == old(self)@.idx,
            final(self)@.frames.len() == old(self)@.frames.len(),
            match result {
                Ok(()) => {
                    &&& final(self)@.has_tx_waker
                    &&& forall|j: int|
                        0 <= j < MAX_FRAMES ==> #[trigger] final(self)@.frames[j]
                            == PduLoopView::spec_sent(old(self)@.frames[j])
                    &&& forall|j: int|
                        0 <= j < MAX_FRAMES && PduLoopView::spec_is_sendable(
                            old(self)@.frames[j],
                        ) ==> #[trigger] spec_send_took(send, old(self)@, j)
                },
                Err(()) => {
                    &&& final(self)@.has_tx_waker == old(self)@.has_tx_waker
                    &&& exists|k: int|
                        {
                            &&& 0 <= k < MAX_FRAMES
                            &&& PduLoopView::spec_is_sendable(old(self)@.frames[k])
                            &&& #[trigger] spec_send_refused(send, old(self)@, k)
                            &&& final(self)@.frames[k] == (FrameView {
                                state: FrameState::Sending,
                                ..old(self)@.frames[k]
                            })
                            &&& forall|j: int|
                                0 <= j < k ==> #[trigger] final(self)@.frames[j]
                                    == PduLoopView::spec_sent(old(self)@.frames[j])
                            &&& forall|j: int|
                                0 <= j < k && PduLoopView::spec_is_sendable(
                                    old(self)@.frames[j],
                                ) ==> #[trigger] spec_send_took(send, old(self)@, j)
                            &&& forall|j: int|
                                k < j < MAX_FRAMES ==> #[trigger] final(self)@.frames[j] == old(
                                    self,
                                )@.frames[j]
                        }
                },
            },
    {
        let ghost sender = send;
        let mut i: usize = 0;
        let mut refused: bool = false;
        while !refused && i < MAX_FRAMES
            invariant
                send == sender,
                i <= MAX_FRAMES,
                self.wf(),
                old(self).wf(),
                self@.payloads == old(self)@.payloads,
                self@.idx == old(self)@.idx,
                self@.has_tx_waker == old(self)@.has_tx_waker,
                forall|frame: &SendableFrame, data: &[u8]|
                    old(self)@.spec_hands_out(frame.frame@, data@) && frame.data@ == data@
                        ==> call_requires(send, (frame, data)),
                forall|j: int|
                    0 <= j < i && !(refused && j == i - 1) ==> #[trigger] self@.frames[j]
                        == PduLoopView::spec_sent(old(self)@.frames[j]),
                forall|j: int|
                    0 <= j < i && !(refused && j == i - 1) && PduLoopView::spec_is_sendable(
                        old(self)@.frames[j],
                    ) ==> #[trigger] spec_send_took(send, old(self)@, j),
                refused ==> {
                    &&& 0 < i
                    &&& PduLoopView::spec_is_sendable(old(self)@.frames[i - 1])
                    &&& spec_send_refused(send, old(self)@, i - 1)
                    &&& self@.frames[i - 1] == (FrameView {
                        state: FrameState::Sending,
                        ..old(self)@.frames[i - 1]
                    })
                },
                forall|j: int|
                    i <= j < MAX_FRAMES ==> #[trigger] self@.frames[j] == old(self)@.frames[j],
            decreases MAX_FRAMES - i,
        {
            let ghost before = self@;
            proof {
                assert(before.slot_wf(i as int, MAX_PDU_DATA as int));
                assert(before.frames[i as int] == old(self)@.frames[i as int]);
                assert(old(self)@.slot_wf(i as int, MAX_PDU_DATA as int));
            }
            match self.sendable_at(i) {
                Some(view) => {
                    proof {
                        assert(view.frame@.index == i);
                        assert(old(self)@.spec_hands_out(view.frame@, view.data@));
                    }
                    let told: Result<(), ()> = send(&view, view.data);
                    proof {
                        if told is Ok {
                            assert(spec_send_took(send, old(self)@, i as int));
                        } else {
                            assert(spec_send_refused(send, old(self)@, i as int));
                        }
                    }
                    match view.send_done(told) {
                        Ok(()) => {},
                        Err(()) => {
                            refused = true;
                        },
                    }
                },
                None => {},
            }
            proof {
                lemma_pool_stays_sound(
                    before,
                    self@,
                    MAX_FRAMES as int,
                    MAX_PDU_DATA as int,
                    i as int,
                );
            }
            i += 1;
        }
        if refused {
            Err(())
        } else {
            self.set_send_waker(waker);
            Ok(())
        }
    }
}

/// The request side of a pool: what a task uses to send a PDU and to wait
/// for its response.
pub struct PduLoopRef<'a, const MAX_FRAMES: usize, const MAX_PDU_DATA: usize> {
    pub pdu_loop: &'a mut PduLoop<MAX_FRAMES, MAX_PDU_DATA>,
}

impl<const MAX_FRAMES: usize, const MAX_PDU_DATA: usize> PduLoop<MAX_FRAMES, MAX_PDU_DATA> {
    /// The request side of this pool.
    pub fn as_ref(&mut self) -> (handle: PduLoopRef<'_, MAX_FRAMES, MAX_PDU_DATA>)
        ensures
            *handle.pdu_loop == *old(self),
            *final(self) == *final(handle.pdu_loop),
    {
        PduLoopRef { pdu_loop: self }
    }
}

impl<'a, const MAX_FRAMES: usize, const MAX_PDU_DATA: usize> PduLoopRef<
    'a,
    MAX_FRAMES,
    MAX_PDU_DATA,
> {
    /// Sends a request: claims the slot that the counter picks, stores
    /// `waker` for the response to wake the requester with, fills the slot's
    /// range with the first `data_length` bytes of `data` and zeros, and
    /// wakes the pump. Hands back the index of the slot, which is the index
    /// the PDU carries on the wire and the one to wait for with
    /// [`Self::poll_response`]. What becomes of the pool is said by
    /// [`PduLoopView::spec_pdu_tx`].
    pub fn pdu_tx(&mut self, command: Command, data: &[u8], data_length: u16, waker: &Waker) -> (result:
        Result<u8, Error>)
        requires
            old(self).pdu_loop.wf(),
        ensures
            final(self).pdu_loop.wf(),
            (final(self).pdu_loop@, result) == old(self).pdu_loop@.spec_pdu_tx(
                MAX_PDU_DATA as int,
                command,
                data@,
                data_length,
            ),
            *final(final(self).pdu_loop) == *final(old(self).pdu_loop),
    {
        self.pdu_loop.request(command, data, data_length, waker)
    }

    /// One step of waiting for the response to the request in slot `idx`.
    /// `timed_out` says whether the deadline of the request has passed. Hands
    /// back the payload and the working counter once the response is in,
    /// `None` while it is not, and `Timeout` when the deadline passed first.
    /// What becomes of the pool is said by
    /// [`PduLoopView::spec_poll_response`].
    pub fn poll_response(&mut self, idx: u8, timed_out: bool, waker: &Waker) -> (result: Result<
        Option<PduResponse<&[u8]>>,
        Error,
    >)
        requires
            old(self).pdu_loop.wf(),
        ensures
            final(self).pdu_loop.wf(),
            final(self).pdu_loop@ == old(self).pdu_loop@.spec_poll_response(idx, timed_out).0,
            spec_response_view(result) == old(self).pdu_loop@.spec_poll_response(
                idx,
                timed_out,
            ).1,
            *final(final(self).pdu_loop) == *final(old(self).pdu_loop),
    {
        self.pdu_loop.response(idx, timed_out, waker)
    }
}

} // verus!
