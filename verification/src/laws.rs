//! What holds of the pool whatever is done with it, stated over the model
//! that the contracts of the operations speak of.

use vstd::prelude::*;
use crate::command::Command;
use crate::error::{Error, PduError, PduValidationError};
use crate::pdu::{
    lemma_ethercat_frame_round_trip, spec_ethercat_frame, spec_parse_frame, PduFlags, MAX_DATA_LEN,
};
use crate::pdu_frame::{spec_wake_done, FrameState, FrameView};
use crate::pump::SocketPoll;
use crate::PduLoopView;

verus! {

/// Number of slots that are not idle.
pub open spec fn spec_busy(frames: Seq<FrameView>) -> nat
    decreases frames.len(),
{
    if frames.len() == 0 {
        0
    } else {
        spec_busy(frames.drop_last()) + if frames.last().state is Idle { 0nat } else { 1nat }
    }
}

/// A request: command, data, and the payload length to reserve.
pub type Request = (Command, Seq<u8>, u16);

impl PduLoopView {
    /// The pool after `requests` came in one after another and nothing else
    /// happened.
    pub open spec fn spec_after_requests(self, max_pdu_data: int, requests: Seq<Request>) -> PduLoopView
        decreases requests.len(),
    {
        if requests.len() == 0 {
            self
        } else {
            let last = requests.last();
            self.spec_after_requests(max_pdu_data, requests.drop_last()).spec_pdu_tx(
                max_pdu_data,
                last.0,
                last.1,
                last.2,
            ).0
        }
    }

    /// Whether every one of `requests`, coming in one after another, got a
    /// slot.
    pub open spec fn spec_all_accepted(self, max_pdu_data: int, requests: Seq<Request>) -> bool
        decreases requests.len(),
    {
        requests.len() == 0 || {
            let last = requests.last();
            &&& self.spec_all_accepted(max_pdu_data, requests.drop_last())
            &&& self.spec_after_requests(max_pdu_data, requests.drop_last()).spec_pdu_tx(
                max_pdu_data,
                last.0,
                last.1,
                last.2,
            ).1 is Ok
        }
    }

    /// Every slot is in a state that it may have come to from its state in
    /// `before` in one operation: none has skipped a state.
    pub open spec fn spec_stepped_from(self, before: PduLoopView) -> bool {
        &&& self.frames.len() == before.frames.len()
        &&& forall|i: int|
            0 <= i < self.frames.len() ==> (#[trigger] before.frames[i]).state.spec_may_become(
                self.frames[i].state,
            )
    }
}

/// An idle slot of a sound pool holds no payload length, no command and no
/// wake handle.
pub proof fn lemma_idle_slot_is_clear(pool: PduLoopView, max_frames: int, max_pdu_data: int, i: int)
    requires
        pool.wf(max_frames, max_pdu_data),
        0 <= i < max_frames,
        pool.frames[i].state is Idle,
    ensures
        pool.frames[i].data_length == 0,
        pool.frames[i].command is None,
        !pool.frames[i].has_waker,
{
    assert(pool.slot_wf(i, max_pdu_data));
}

/// A slot that is given up is idle and holds no payload length, no command
/// and no wake handle, whatever it held before.
pub proof fn lemma_released_slot_is_clear(slot: FrameView)
    ensures
        slot.spec_released().state is Idle,
        slot.spec_released().data_length == 0,
        slot.spec_released().command is None,
        !slot.spec_released().has_waker,
        slot.spec_released().wf(),
        slot.state.spec_may_become(slot.spec_released().state),
{
}

/// A request leaves a sound pool sound, and moves no slot but the one it
/// claims, which goes from idle to created.
pub proof fn lemma_pdu_tx_steps(
    pool: PduLoopView,
    max_frames: int,
    max_pdu_data: int,
    command: Command,
    data: Seq<u8>,
    data_length: u16,
)
    requires
        pool.wf(max_frames, max_pdu_data),
    ensures
        ({
            let (next, result) = pool.spec_pdu_tx(max_pdu_data, command, data, data_length);
            &&& next.wf(max_frames, max_pdu_data)
            &&& next.spec_stepped_from(pool)
            &&& result matches Ok(idx) ==> idx < max_frames && pool.frames[idx as int].state
                is Idle && next.frames[idx as int].state is Created && next.frames[idx as int].index
                == idx
        }),
{
    let (next, result) = pool.spec_pdu_tx(max_pdu_data, command, data, data_length);
    assert forall|i: int| 0 <= i < max_frames implies #[trigger] next.slot_wf(i, max_pdu_data) by {
        assert(pool.slot_wf(i, max_pdu_data));
    }
}

/// A step of waiting leaves a sound pool sound and makes no slot skip a
/// state; the slot it gives up, after a response or at the deadline, ends
/// idle and clear; and `Timeout` is only what a requester is told whose
/// slot refused no response.
pub proof fn lemma_poll_response_steps(
    pool: PduLoopView,
    max_frames: int,
    max_pdu_data: int,
    idx: u8,
    timed_out: bool,
)
    requires
        pool.wf(max_frames, max_pdu_data),
    ensures
        ({
            let (next, result) = pool.spec_poll_response(idx, timed_out);
            &&& next.wf(max_frames, max_pdu_data)
            &&& next.spec_stepped_from(pool)
            &&& (result matches Ok(Some(_)) || (timed_out && idx < max_frames
                && pool.frames[idx as int].state.spec_in_flight())) ==> idx < max_frames
                && next.frames[idx as int] == pool.frames[idx as int].spec_released()
            &&& result == Err::<Option<(Seq<u8>, u16)>, Error>(Error::Timeout) ==> timed_out
                && pool.frames[idx as int].mismatch is None
        }),
{
    if idx < max_frames {
        assert(pool.slot_wf(idx as int, max_pdu_data));
    }
    let (next, result) = pool.spec_poll_response(idx, timed_out);
    assert forall|i: int| 0 <= i < max_frames implies #[trigger] next.slot_wf(i, max_pdu_data) by {
        assert(pool.slot_wf(i, max_pdu_data));
    }
}

/// A frame from the socket leaves a sound pool sound, and the only move it
/// can make is that of one slot from sent to done. A frame that is reported
/// as an error moves no slot and changes no payload.
pub proof fn lemma_pdu_rx_steps(pool: PduLoopView, max_frames: int, max_pdu_data: int, bytes: Seq<u8>)
    requires
        pool.wf(max_frames, max_pdu_data),
    ensures
        ({
            let (next, result) = pool.spec_pdu_rx(max_pdu_data, bytes);
            &&& next.wf(max_frames, max_pdu_data)
            &&& next.spec_stepped_from(pool)
            &&& forall|i: int|
                0 <= i < max_frames && (#[trigger] next.frames[i]).state != pool.frames[i].state
                    ==> pool.frames[i].state is Sent && next.frames[i].state is Done
            &&& result is Err ==> next.payloads == pool.payloads && forall|i: int|
                0 <= i < max_frames ==> (#[trigger] next.frames[i]).state == pool.frames[i].state
        }),
{
    let (next, result) = pool.spec_pdu_rx(max_pdu_data, bytes);
    assert forall|i: int| 0 <= i < max_frames implies #[trigger] next.slot_wf(i, max_pdu_data) by {
        assert(pool.slot_wf(i, max_pdu_data));
    }
}

/// Whatever a read from the socket brought, it leaves a sound pool sound
/// and makes no slot skip a state.
pub proof fn lemma_read_done_steps(
    pool: PduLoopView,
    max_frames: int,
    max_pdu_data: int,
    buffer: Seq<u8>,
    outcome: SocketPoll,
)
    requires
        pool.wf(max_frames, max_pdu_data),
    ensures
        pool.spec_read_done(max_pdu_data, buffer, outcome).0.wf(max_frames, max_pdu_data),
        pool.spec_read_done(max_pdu_data, buffer, outcome).0.spec_stepped_from(pool),
{
    match outcome {
        SocketPoll::Ready(count) => {
            if count <= buffer.len() {
                lemma_pdu_rx_steps(pool, max_frames, max_pdu_data, buffer.take(count as int));
            }
        },
        _ => {},
    }
}

/// Sending a slot moves it from created to sending and on to sent, one step
/// at a time, or leaves it where it is.
pub proof fn lemma_sent_steps(slot: FrameView)
    ensures
        PduLoopView::spec_is_sendable(slot) ==> slot.state.spec_may_become(FrameState::Sending)
            && FrameState::Sending.spec_may_become(PduLoopView::spec_sent(slot).state),
        !PduLoopView::spec_is_sendable(slot) ==> PduLoopView::spec_sent(slot) == slot,
{
}

/// A response that echoes a command with another operation code than the
/// one a waiting slot sent is refused with `CommandMismatch`. The slot goes
/// on waiting: it is as it was, but for the echoed command that it keeps.
pub proof fn lemma_command_mismatch_keeps_sent(
    slot: FrameView,
    command: Command,
    flags: PduFlags,
    irq: u16,
    data_len: nat,
    working_counter: u16,
    payload_len: nat,
)
    requires
        slot.wf(),
        slot.state is Sent,
        command.spec_code() != slot.command->0.spec_code(),
    ensures
        ({
            let (after, told) = spec_wake_done(
                slot,
                command,
                flags,
                irq,
                data_len,
                working_counter,
                payload_len,
            );
            &&& told == Err::<(), PduError>(
                PduError::Validation(
                    PduValidationError::CommandMismatch { sent: slot.command->0, received: command },
                ),
            )
            &&& after.state is Sent
            &&& after == (FrameView { mismatch: Some(command), ..slot })
            &&& after.wf()
        }),
{
}

/// A frame whose PDU echoes another operation code than the one its slot
/// sent is reported as `CommandMismatch`. No slot moves and no payload
/// changes; the slot keeps the echoed command.
pub proof fn lemma_pdu_rx_command_mismatch(
    pool: PduLoopView,
    max_frames: int,
    max_pdu_data: int,
    bytes: Seq<u8>,
)
    requires
        pool.wf(max_frames, max_pdu_data),
        bytes.len() >= 14,
        PduLoopView::spec_is_response(bytes),
        spec_parse_frame(bytes.skip(14)) is Ok,
        ({
            let pdu = spec_parse_frame(bytes.skip(14))->Ok_0;
            &&& pdu.index < max_frames
            &&& pool.frames[pdu.index as int].state is Sent
            &&& pdu.command.spec_code() != pool.frames[pdu.index as int].command->0.spec_code()
        }),
    ensures
        ({
            let pdu = spec_parse_frame(bytes.skip(14))->Ok_0;
            let slot = pool.frames[pdu.index as int];
            pool.spec_pdu_rx(max_pdu_data, bytes) == (
                PduLoopView {
                    frames: pool.frames.update(
                        pdu.index as int,
                        FrameView { mismatch: Some(pdu.command), ..slot },
                    ),
                    ..pool
                },
                Err::<(), Error>(
                    Error::Pdu(
                        PduError::Validation(
                            PduValidationError::CommandMismatch {
                                sent: slot.command->0,
                                received: pdu.command,
                            },
                        ),
                    ),
                ),
            )
        }),
{
    let pdu = spec_parse_frame(bytes.skip(14))->Ok_0;
    assert(pool.slot_wf(pdu.index as int, max_pdu_data));
}

/// The requester of a slot that refused a response for its command is told
/// so: it waits on until its deadline, and is then given the command
/// mismatch in place of `Timeout`, with the command it sent and the one that
/// was echoed. The slot is given up. No data of the refused response is ever
/// handed out.
pub proof fn lemma_command_mismatch_reaches_requester(
    pool: PduLoopView,
    max_frames: int,
    max_pdu_data: int,
    idx: u8,
    received: Command,
)
    requires
        pool.wf(max_frames, max_pdu_data),
        idx < max_frames,
        pool.frames[idx as int].state is Sent,
        pool.frames[idx as int].mismatch == Some(received),
    ensures
        ({
            let slot = pool.frames[idx as int];
            let (waiting, early) = pool.spec_poll_response(idx, false);
            let (given_up, late) = waiting.spec_poll_response(idx, true);
            &&& early == Ok::<Option<(Seq<u8>, u16)>, Error>(None)
            &&& waiting.frames[idx as int].state is Sent
            &&& waiting.frames[idx as int].mismatch == Some(received)
            &&& late == Err::<Option<(Seq<u8>, u16)>, Error>(
                Error::Pdu(
                    PduError::Validation(
                        PduValidationError::CommandMismatch { sent: slot.command->0, received },
                    ),
                ),
            )
            &&& given_up.frames[idx as int].state is Idle
            &&& given_up.frames[idx as int].mismatch is None
        }),
{
    assert(pool.slot_wf(idx as int, max_pdu_data));
}

/// The index a request is given is the index of the slot it claimed, and
/// is the index that stands in the PDU header of the frame that slot sends.
pub proof fn lemma_index_on_wire_is_slot(
    pool: PduLoopView,
    max_frames: int,
    max_pdu_data: int,
    command: Command,
    data: Seq<u8>,
    data_length: u16,
)
    requires
        pool.wf(max_frames, max_pdu_data),
        pool.spec_pdu_tx(max_pdu_data, command, data, data_length).1 is Ok,
    ensures
        ({
            let (next, result) = pool.spec_pdu_tx(max_pdu_data, command, data, data_length);
            let idx = result->Ok_0;
            let slot = next.frames[idx as int];
            let request = slot.spec_request(next.payloads[idx as int].take(data_length as int));
            &&& idx == pool.spec_next_slot()
            &&& slot.index == idx
            &&& spec_ethercat_frame(request)[17] == idx
            &&& spec_parse_frame(spec_ethercat_frame(request).skip(14)) matches Ok(pdu) && pdu.index
                == idx && pdu.command == command && pdu.flags.length == data_length
        }),
{
    let (next, result) = pool.spec_pdu_tx(max_pdu_data, command, data, data_length);
    let idx = result->Ok_0;
    let slot = next.frames[idx as int];
    let request = slot.spec_request(next.payloads[idx as int].take(data_length as int));
    lemma_ethercat_frame_round_trip(request);
}

/// No more slots are busy than there are slots; and where all are counted
/// busy, none is idle.
pub proof fn lemma_busy_bound(frames: Seq<FrameView>)
    ensures
        spec_busy(frames) <= frames.len(),
        spec_busy(frames) == frames.len() ==> forall|i: int|
            0 <= i < frames.len() ==> !((#[trigger] frames[i]).state is Idle),
    decreases frames.len(),
{
    if frames.len() > 0 {
        lemma_busy_bound(frames.drop_last());
        if spec_busy(frames) == frames.len() {
            assert forall|i: int| 0 <= i < frames.len() implies !((#[trigger] frames[i]).state
                is Idle) by {
                if i < frames.len() - 1 {
                    assert(frames.drop_last()[i] == frames[i]);
                }
            }
        }
    }
}

/// Claiming an idle slot makes one more slot busy.
pub proof fn lemma_busy_claimed(frames: Seq<FrameView>, i: int, slot: FrameView)
    requires
        0 <= i < frames.len(),
        frames[i].state is Idle,
        !(slot.state is Idle),
    ensures
        spec_busy(frames.update(i, slot)) == spec_busy(frames) + 1,
    decreases frames.len(),
{
    let updated = frames.update(i, slot);
    if i == frames.len() - 1 {
        assert(updated.drop_last() =~= frames.drop_last());
    } else {
        lemma_busy_claimed(frames.drop_last(), i, slot);
        assert(updated.drop_last() =~= frames.drop_last().update(i, slot));
    }
}

/// After requests that all got a slot, the pool is sound and as many more
/// slots are busy as there were requests.
pub proof fn lemma_accepted_requests_fill_slots(
    pool: PduLoopView,
    max_frames: int,
    max_pdu_data: int,
    requests: Seq<Request>,
)
    requires
        pool.wf(max_frames, max_pdu_data),
        pool.spec_all_accepted(max_pdu_data, requests),
    ensures
        pool.spec_after_requests(max_pdu_data, requests).wf(max_frames, max_pdu_data),
        spec_busy(pool.spec_after_requests(max_pdu_data, requests).frames) == spec_busy(pool.frames)
            + requests.len(),
    decreases requests.len(),
{
    if requests.len() > 0 {
        let last = requests.last();
        let before = pool.spec_after_requests(max_pdu_data, requests.drop_last());
        lemma_accepted_requests_fill_slots(pool, max_frames, max_pdu_data, requests.drop_last());
        lemma_pdu_tx_steps(before, max_frames, max_pdu_data, last.0, last.1, last.2);
        let (next, result) = before.spec_pdu_tx(max_pdu_data, last.0, last.1, last.2);
        lemma_busy_claimed(before.frames, result->Ok_0 as int, next.frames[result->Ok_0 as int]);
    }
}

/// A slot that the pump handed out for sending, and that is still being
/// sent or was marked as sent when the view of it ended, leaves the pool
/// sound.
pub proof fn lemma_sent_slot_keeps_pool_sound(
    before: PduLoopView,
    after: PduLoopView,
    max_frames: int,
    max_pdu_data: int,
    i: int,
)
    requires
        before.wf(max_frames, max_pdu_data),
        0 <= i < max_frames,
        PduLoopView::spec_is_sendable(before.frames[i]),
        after.frames == before.frames.update(i, after.frames[i]),
        after.payloads == before.payloads,
        after.frames[i] == (FrameView { state: FrameState::Sending, ..before.frames[i] })
            || after.frames[i] == (FrameView { state: FrameState::Sent, ..before.frames[i] }),
    ensures
        after.wf(max_frames, max_pdu_data),
{
    assert(before.slot_wf(i, max_pdu_data));
    crate::lemma_pool_stays_sound(before, after, max_frames, max_pdu_data, i);
}

/// An idle slot that the counter picks is claimed by the next request that
/// fits a range and a frame, with the command and the payload length of
/// that request.
pub proof fn lemma_idle_slot_is_claimed(
    pool: PduLoopView,
    max_frames: int,
    max_pdu_data: int,
    command: Command,
    data: Seq<u8>,
    data_length: u16,
)
    requires
        pool.wf(max_frames, max_pdu_data),
        pool.frames[pool.spec_next_slot()].state is Idle,
        PduLoopView::spec_fits(max_pdu_data, data, data_length),
        data_length <= MAX_DATA_LEN,
    ensures
        ({
            let i = pool.spec_next_slot();
            let (next, result) = pool.spec_pdu_tx(max_pdu_data, command, data, data_length);
            &&& 0 <= i < max_frames
            &&& result == Ok::<u8, Error>(i as u8)
            &&& next.frames[i].state is Created
            &&& next.frames[i].command == Some(command)
            &&& next.frames[i].data_length == data_length
            &&& next.frames[i].index == i
        }),
{
}

/// A slot whose request was given up at its deadline is free again: the
/// next time the counter picks it, with whatever happened to the other
/// slots in between, a request that fits a range and a frame claims it.
pub proof fn lemma_slot_is_reused_after_deadline(
    pool: PduLoopView,
    later: PduLoopView,
    max_frames: int,
    max_pdu_data: int,
    idx: u8,
    command: Command,
    data: Seq<u8>,
    data_length: u16,
)
    requires
        pool.wf(max_frames, max_pdu_data),
        idx < max_frames,
        pool.frames[idx as int].state.spec_in_flight(),
        later.wf(max_frames, max_pdu_data),
        later.frames[idx as int] == pool.spec_poll_response(idx, true).0.frames[idx as int],
        later.spec_next_slot() == idx,
        PduLoopView::spec_fits(max_pdu_data, data, data_length),
        data_length <= MAX_DATA_LEN,
    ensures
        pool.spec_poll_response(idx, true).1 is Err,
        pool.spec_poll_response(idx, true).0.frames[idx as int].state is Idle,
        ({
            let (next, result) = later.spec_pdu_tx(max_pdu_data, command, data, data_length);
            &&& result == Ok::<u8, Error>(idx)
            &&& next.frames[idx as int].state is Created
            &&& next.frames[idx as int].command == Some(command)
            &&& next.frames[idx as int].data_length == data_length
        }),
{
    lemma_idle_slot_is_claimed(later, max_frames, max_pdu_data, command, data, data_length);
}

/// One complete round trip. A request that finds its slot idle is given the
/// index of that slot; once the pump has sent the slot, a response with that
/// index and the same operation code is taken in; and the requester is then
/// handed the data of that response, up to the payload length it asked for,
/// with its working counter. Afterwards the slot is idle again, no other
/// slot or range has changed, and the counter has moved on by one. So where
/// every slot was idle before, every slot is idle after, and the next round
/// trip goes the same way, however often the index comes round.
pub proof fn lemma_round_trip(
    pool: PduLoopView,
    max_frames: int,
    max_pdu_data: int,
    command: Command,
    data: Seq<u8>,
    data_length: u16,
    bytes: Seq<u8>,
)
    requires
        pool.wf(max_frames, max_pdu_data),
        pool.frames[pool.spec_next_slot()].state is Idle,
        PduLoopView::spec_fits(max_pdu_data, data, data_length),
        data_length <= MAX_DATA_LEN,
        bytes.len() >= 14,
        PduLoopView::spec_is_response(bytes),
        spec_parse_frame(bytes.skip(14)) is Ok,
        ({
            let pdu = spec_parse_frame(bytes.skip(14))->Ok_0;
            &&& pdu.index == pool.spec_next_slot()
            &&& pdu.command.spec_code() == command.spec_code()
            &&& pdu.data.len() <= max_pdu_data
        }),
    ensures
        ({
            let i = pool.spec_next_slot();
            let pdu = spec_parse_frame(bytes.skip(14))->Ok_0;
            let (claimed, told) = pool.spec_pdu_tx(max_pdu_data, command, data, data_length);
            let sent = PduLoopView {
                frames: claimed.frames.update(i, PduLoopView::spec_sent(claimed.frames[i])),
                ..claimed
            };
            let (answered, taken) = sent.spec_pdu_rx(max_pdu_data, bytes);
            let (idle, answer) = answered.spec_poll_response(i as u8, false);
            let stored = PduLoopView::spec_stored(max_pdu_data, data, data_length);
            &&& told == Ok::<u8, Error>(i as u8)
            &&& sent.wf(max_frames, max_pdu_data)
            &&& taken == Ok::<(), Error>(())
            &&& answer == Ok::<Option<(Seq<u8>, u16)>, Error>(
                Some(
                    (
                        (pdu.data + stored.skip(pdu.data.len() as int)).take(data_length as int),
                        pdu.working_counter,
                    ),
                ),
            )
            &&& idle.wf(max_frames, max_pdu_data)
            &&& idle.frames[i].state is Idle
            &&& idle.idx == pool.spec_next_idx()
            &&& forall|j: int|
                0 <= j < max_frames && j != i ==> #[trigger] idle.frames[j] == pool.frames[j]
                    && idle.payloads[j] == pool.payloads[j]
            &&& (forall|j: int| 0 <= j < max_frames ==> (#[trigger] pool.frames[j]).state is Idle)
                ==> (forall|j: int|
                0 <= j < max_frames ==> (#[trigger] idle.frames[j]).state is Idle)
        }),
{
    let i = pool.spec_next_slot();
    let (claimed, told) = pool.spec_pdu_tx(max_pdu_data, command, data, data_length);
    let sent = PduLoopView {
        frames: claimed.frames.update(i, PduLoopView::spec_sent(claimed.frames[i])),
        ..claimed
    };
    let (answered, taken) = sent.spec_pdu_rx(max_pdu_data, bytes);
    let (idle, answer) = answered.spec_poll_response(i as u8, false);
    lemma_pdu_tx_steps(pool, max_frames, max_pdu_data, command, data, data_length);
    lemma_sent_slot_keeps_pool_sound(claimed, sent, max_frames, max_pdu_data, i);
    lemma_pdu_rx_steps(sent, max_frames, max_pdu_data, bytes);
    lemma_poll_response_steps(answered, max_frames, max_pdu_data, i as u8, false);
    assert forall|j: int| 0 <= j < max_frames && j != i implies #[trigger] idle.frames[j]
        == pool.frames[j] && idle.payloads[j] == pool.payloads[j] by {}
    if forall|j: int| 0 <= j < max_frames ==> (#[trigger] pool.frames[j]).state is Idle {
        assert forall|j: int| 0 <= j < max_frames implies (#[trigger] idle.frames[j]).state
            is Idle by {
            if j != i {
                assert(idle.frames[j] == pool.frames[j]);
            }
        }
    }
}

/// Back-pressure: in a pool whose slots are all busy, a request is turned
/// away with `SwapState`.
pub proof fn lemma_full_pool_turns_away(
    pool: PduLoopView,
    max_frames: int,
    max_pdu_data: int,
    command: Command,
    data: Seq<u8>,
    data_length: u16,
)
    requires
        pool.wf(max_frames, max_pdu_data),
        forall|i: int| 0 <= i < max_frames ==> !((#[trigger] pool.frames[i]).state is Idle),
        PduLoopView::spec_fits(max_pdu_data, data, data_length),
    ensures
        pool.spec_pdu_tx(max_pdu_data, command, data, data_length).1 == Err::<u8, Error>(
            Error::Pdu(PduError::SwapState),
        ),
{
    let i = pool.spec_next_slot();
    assert(!(pool.frames[i].state is Idle));
}

/// Back-pressure: after as many requests in a row as the pool has slots,
/// all of which got one, and with no response taken and no request given up
/// in between, the next request is turned away with `SwapState`.
pub proof fn lemma_back_pressure(
    pool: PduLoopView,
    max_frames: int,
    max_pdu_data: int,
    requests: Seq<Request>,
    command: Command,
    data: Seq<u8>,
    data_length: u16,
)
    requires
        pool.wf(max_frames, max_pdu_data),
        requests.len() == max_frames,
        pool.spec_all_accepted(max_pdu_data, requests),
        PduLoopView::spec_fits(max_pdu_data, data, data_length),
    ensures
        pool.spec_after_requests(max_pdu_data, requests).spec_pdu_tx(
            max_pdu_data,
            command,
            data,
            data_length,
        ).1 == Err::<u8, Error>(Error::Pdu(PduError::SwapState)),
{
    let full = pool.spec_after_requests(max_pdu_data, requests);
    lemma_accepted_requests_fill_slots(pool, max_frames, max_pdu_data, requests);
    lemma_busy_bound(full.frames);
    lemma_full_pool_turns_away(full, max_frames, max_pdu_data, command, data, data_length);
}

} // verus!
