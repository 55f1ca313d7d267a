//! Wake handles. A `Waker` is opaque here: the slots and the pump only keep
//! one, copy one, and call it.

use vstd::prelude::*;
use core::task::Waker;

verus! {

/// `core::task::Waker`: carried around, never looked into.
#[verifier::external_type_specification]
#[verifier::external_body]
pub struct ExWaker(Waker);

/// Calls `Waker::clone`. Nothing is claimed of the copy.
#[verifier::external_body]
pub(crate) fn clone_waker(waker: &Waker) -> (copy: Waker) {
    waker.clone()
}

/// Calls `Waker::wake`, which tells the executor to poll the task again.
/// It hands nothing back.
#[verifier::external_body]
pub(crate) fn wake(waker: Waker) {
    waker.wake()
}

/// Calls `Waker::wake_by_ref`, which tells the executor to poll the task
/// again and leaves the handle with its owner. It hands nothing back.
#[verifier::external_body]
pub(crate) fn wake_by_ref(waker: &Waker) {
    waker.wake_by_ref()
}

} // verus!
