use pdu_loop::command::Command;
use pdu_loop::error::{Error, PduError, PduValidationError};
use pdu_loop::pdu::PduFlags;
use pdu_loop::pdu_frame::{Frame, FramePoll, FrameState};
use pdu_loop::{CheckWorkingCounter, PduResponse};
use std::sync::atomic::{AtomicUsize, Ordering};
use std::sync::Arc;
use std::task::{Wake, Waker};

struct Flag(AtomicUsize);

impl Wake for Flag {
    fn wake(self: Arc<Self>) {
        self.0.fetch_add(1, Ordering::SeqCst);
    }
}

fn flag_waker() -> (Arc<Flag>, Waker) {
    let flag = Arc::new(Flag(AtomicUsize::new(0)));
    (flag.clone(), Waker::from(flag))
}

const BRD: Command = Command::Brd { address: 0, register: 0 };

#[test]
fn working_counter_matches() {
    let response: PduResponse<u32> = (42, 3);
    assert_eq!(response.wkc(3, "read"), Ok(42));
    let bytes: PduResponse<&[u8]> = (&[1, 2], 0);
    assert_eq!(bytes.wkc(0, "read"), Ok(&[1u8, 2][..]));
}

#[test]
fn working_counter_differs() {
    let response: PduResponse<u32> = (42, 3);
    assert_eq!(
        response.wkc(1, "init"),
        Err(Error::WorkingCounter { expected: 1, received: 3, context: Some("init") })
    );
    let none: PduResponse<()> = ((), 0);
    assert_eq!(
        none.wkc(0xffff, "all"),
        Err(Error::WorkingCounter { expected: 0xffff, received: 0, context: Some("all") })
    );
}

#[test]
fn new_slot_is_idle_and_clear() {
    let slot = Frame::new();
    assert_eq!(slot.state(), FrameState::Idle);
    assert_eq!(slot.command(), None);
    assert_eq!(slot.data_length(), 0);
    assert_eq!(slot.index(), 0);
    assert_eq!(slot.working_counter(), 0);
    assert_eq!(slot.irq(), 0);
    assert_eq!(slot.flags(), PduFlags { length: 0, is_not_last: false });
}

#[test]
fn slot_goes_through_every_state_in_turn() {
    let (flag, waker) = flag_waker();
    let mut range = [0u8; 4];
    let mut slot = Frame::new();
    assert_eq!(slot.replace(BRD, 2, 7), Ok(()));
    assert_eq!(slot.state(), FrameState::Created);
    assert_eq!(slot.index(), 7);
    assert_eq!(slot.command(), Some(BRD));
    assert_eq!(slot.data_length(), 2);
    assert_eq!(slot.poll_response(&waker), Ok(FramePoll::Pending));
    assert_eq!(slot.state(), FrameState::Created);
    {
        let mut view = slot.sendable(&[0, 0]).unwrap();
        assert_eq!(view.index(), 7);
        assert_eq!(view.command(), Some(BRD));
        assert_eq!(view.data_len(), 2);
        view.mark_sending();
    }
    assert_eq!(slot.state(), FrameState::Sending);
    assert!(slot.sendable(&[0, 0]).is_none());
    assert_eq!(slot.poll_response(&waker), Ok(FramePoll::Pending));
    assert_eq!(flag.0.load(Ordering::SeqCst), 0);
    // Not sent yet: a response is dropped.
    assert_eq!(
        slot.wake_done(BRD, PduFlags::with_len(2), 0, &[1, 2], 1, &mut range),
        Ok(())
    );
    assert_eq!(slot.state(), FrameState::Sending);
    assert_eq!(range, [0; 4]);
    slot.release();
    assert_eq!(slot.state(), FrameState::Idle);
    assert_eq!(slot.command(), None);
    assert_eq!(slot.data_length(), 0);
}

#[test]
fn busy_slot_cannot_be_claimed() {
    let mut slot = Frame::new();
    assert_eq!(slot.replace(BRD, 2, 1), Ok(()));
    assert_eq!(
        slot.replace(Command::Lrw { address: 9 }, 4, 2),
        Err(PduError::SwapState)
    );
    assert_eq!(slot.index(), 1);
    assert_eq!(slot.command(), Some(BRD));
    assert_eq!(slot.data_length(), 2);
}

#[test]
fn payload_longer_than_a_frame_cannot_be_claimed_for() {
    let mut slot = Frame::new();
    assert_eq!(slot.replace(BRD, 2036, 0), Err(PduError::TooLong));
    assert_eq!(slot.state(), FrameState::Idle);
    assert_eq!(slot.replace(BRD, 2035, 0), Ok(()));
    // A busy slot is busy first of all.
    assert_eq!(slot.replace(BRD, 0xffff, 0), Err(PduError::SwapState));
}

#[test]
fn waiting_on_an_idle_slot_fails() {
    let (_, waker) = flag_waker();
    let mut slot = Frame::new();
    assert_eq!(slot.poll_response(&waker), Err(PduError::InvalidFrameState));
    assert_eq!(slot.state(), FrameState::Idle);
}

#[test]
fn idle_slot_keeps_no_wake_handle() {
    let (flag, waker) = flag_waker();
    let mut slot = Frame::new();
    slot.register(&waker);
    // Only the test holds the handle: the slot did not keep a copy.
    assert_eq!(Arc::strong_count(&flag), 2);
    assert_eq!(slot.replace(BRD, 1, 0), Ok(()));
    slot.register(&waker);
    assert_eq!(Arc::strong_count(&flag), 3);
    slot.release();
    assert_eq!(Arc::strong_count(&flag), 2);
}

fn sent_slot(command: Command, data_length: u16, index: u8, waker: &Waker) -> Frame {
    let mut slot = Frame::new();
    slot.replace(command, data_length, index).unwrap();
    slot.register(waker);
    let mut view = slot.sendable(&[]).unwrap();
    view.mark_sending();
    view.mark_sent();
    slot
}

#[test]
fn response_is_taken_and_handed_out_once() {
    let (flag, waker) = flag_waker();
    let mut range = [9u8; 4];
    let mut slot = sent_slot(BRD, 2, 0, &waker);
    assert_eq!(slot.state(), FrameState::Sent);
    let flags = PduFlags { length: 2, is_not_last: false };
    assert_eq!(
        slot.wake_done(Command::Brd { address: 5, register: 0 }, flags, 0x0102, &[1, 2], 3, &mut range),
        Ok(())
    );
    assert_eq!(slot.state(), FrameState::Done);
    assert_eq!(range, [1, 2, 9, 9]);
    assert_eq!(slot.working_counter(), 3);
    assert_eq!(slot.irq(), 0x0102);
    assert_eq!(slot.flags(), flags);
    assert_eq!(flag.0.load(Ordering::SeqCst), 1);
    // Done is no state to send from or to take another response in.
    assert!(slot.sendable(&[]).is_none());
    assert_eq!(slot.wake_done(BRD, flags, 0, &[7, 7], 8, &mut range), Ok(()));
    assert_eq!(range, [1, 2, 9, 9]);
    assert_eq!(slot.working_counter(), 3);

    assert_eq!(slot.poll_response(&waker), Ok(FramePoll::Ready(3)));
    assert_eq!(slot.state(), FrameState::Idle);
    assert_eq!(slot.command(), None);
    assert_eq!(slot.data_length(), 0);
    assert_eq!(slot.poll_response(&waker), Err(PduError::InvalidFrameState));
}

#[test]
fn mismatched_command_leaves_the_slot_waiting() {
    let (flag, waker) = flag_waker();
    let mut range = [0u8; 4];
    let sent = Command::Fprd { address: 0x1000, register: 0x0130 };
    let received = Command::Bwr { address: 0x1000, register: 0x0130 };
    let mut slot = sent_slot(sent, 2, 5, &waker);
    assert_eq!(
        slot.wake_done(received, PduFlags::with_len(2), 0, &[1, 2], 1, &mut range),
        Err(PduError::Validation(PduValidationError::CommandMismatch { sent, received }))
    );
    assert_eq!(slot.state(), FrameState::Sent);
    assert_eq!(slot.index(), 5);
    assert_eq!(slot.command(), Some(sent));
    assert_eq!(slot.mismatch(), Some(received));
    assert_eq!(slot.working_counter(), 0);
    assert_eq!(range, [0; 4]);
    assert_eq!(flag.0.load(Ordering::SeqCst), 0);
    assert_eq!(slot.poll_response(&waker), Ok(FramePoll::Pending));
    // The right response still gets through afterwards.
    assert_eq!(
        slot.wake_done(sent, PduFlags::with_len(2), 0, &[1, 2], 1, &mut range),
        Ok(())
    );
    assert_eq!(slot.state(), FrameState::Done);
    assert_eq!(slot.mismatch(), None);
    assert_eq!(flag.0.load(Ordering::SeqCst), 1);
}

#[test]
fn giving_up_tells_of_a_mismatch_or_of_the_time() {
    let (_, waker) = flag_waker();
    let mut range = [0u8; 4];
    let sent = Command::Fprd { address: 0x1000, register: 0x0130 };
    let received = Command::Bwr { address: 1, register: 2 };
    let mut slot = sent_slot(sent, 2, 5, &waker);
    assert!(slot
        .wake_done(received, PduFlags::with_len(2), 0, &[1, 2], 1, &mut range)
        .is_err());
    assert_eq!(
        slot.give_up(),
        Error::Pdu(PduError::Validation(PduValidationError::CommandMismatch { sent, received }))
    );
    assert_eq!(slot.state(), FrameState::Idle);
    assert_eq!(slot.command(), None);
    assert_eq!(slot.mismatch(), None);

    let mut slot = sent_slot(sent, 2, 5, &waker);
    assert_eq!(slot.give_up(), Error::Timeout);
    assert_eq!(slot.state(), FrameState::Idle);
    // A slot claimed anew knows nothing of an earlier mismatch.
    assert_eq!(slot.replace(sent, 2, 5), Ok(()));
    assert_eq!(slot.mismatch(), None);
}

#[test]
fn send_done_marks_only_what_was_accepted() {
    let mut slot = Frame::new();
    slot.replace(BRD, 0, 0).unwrap();
    {
        let mut view = slot.sendable(&[]).unwrap();
        view.mark_sending();
        assert_eq!(view.send_done(Err(())), Err(()));
    }
    assert_eq!(slot.state(), FrameState::Sending);
    {
        let view = pdu_loop::pdu_frame::SendableFrame { frame: &mut slot, data: &[] };
        assert_eq!(view.send_done(Ok(())), Ok(()));
    }
    assert_eq!(slot.state(), FrameState::Sent);
}

#[test]
fn response_longer_than_the_payload_range_is_refused() {
    let (_, waker) = flag_waker();
    let mut range = [0u8; 2];
    let mut slot = sent_slot(BRD, 2, 0, &waker);
    assert_eq!(
        slot.wake_done(BRD, PduFlags::with_len(3), 0, &[1, 2, 3], 1, &mut range),
        Err(PduError::TooLong)
    );
    assert_eq!(slot.state(), FrameState::Sent);
    assert_eq!(range, [0, 0]);
}

#[test]
fn slot_without_a_waiting_requester_is_done_all_the_same() {
    let mut range = [0u8; 2];
    let mut slot = Frame::new();
    slot.replace(BRD, 2, 0).unwrap();
    let mut view = slot.sendable(&[]).unwrap();
    view.mark_sending();
    view.mark_sent();
    assert_eq!(
        slot.wake_done(BRD, PduFlags::with_len(2), 0, &[1, 2], 1, &mut range),
        Ok(())
    );
    assert_eq!(slot.state(), FrameState::Done);
}

#[test]
fn marks_only_take_the_next_step() {
    let mut slot = Frame::new();
    slot.replace(BRD, 0, 0).unwrap();
    {
        let view = slot.sendable(&[]).unwrap();
        // Not handed to the pump yet: cannot be sent.
        view.mark_sent();
    }
    assert_eq!(slot.state(), FrameState::Created);
    {
        let mut view = slot.sendable(&[]).unwrap();
        view.mark_sending();
        view.mark_sending();
        view.mark_sent();
    }
    assert_eq!(slot.state(), FrameState::Sent);
}

#[test]
fn view_writes_the_frame_of_its_slot() {
    let mut slot = Frame::new();
    slot.replace(Command::Lwr { address: 0x0001_0000 }, 3, 9).unwrap();
    let view = slot.sendable(&[1, 2, 3]).unwrap();
    let mut buf = [0u8; 31];
    assert_eq!(view.write_ethernet_packet(&mut buf), Ok(31));
    assert_eq!(buf[17], 9);
    assert_eq!(
        &buf[14..],
        &[0x0F, 0x40, 0x0B, 0x09, 0x00, 0x00, 0x01, 0x00, 0x03, 0x00, 0, 0, 1, 2, 3, 0, 0]
    );
    let mut small = [0u8; 30];
    assert_eq!(view.write_ethernet_packet(&mut small), Err(PduError::TooLong));
    assert_eq!(small, [0u8; 30]);
}
