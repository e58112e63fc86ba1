//! Messages from work running on another thread, and the clock that the
//! progress screens show.

use vstd::prelude::*;

verus! {

/// `std::sync::mpsc::Receiver`, the receiving end of a channel (opaque).
#[verifier::external_type_specification]
#[verifier::external_body]
#[verifier::reject_recursive_types(T)]
pub struct ExReceiver<T>(std::sync::mpsc::Receiver<T>);

/// `std::time::Instant`, a moment of the clock (opaque).
#[verifier::external_type_specification]
#[verifier::external_body]
pub struct ExInstant(std::time::Instant);

/// `Receiver::try_recv`: the next message already waiting on the channel,
/// or `None` where none is waiting (or the sending side is gone). Which of
/// these comes back depends on the other thread; nothing is stated of it.
#[verifier::external_body]
pub(crate) fn try_next<T>(rx: &std::sync::mpsc::Receiver<T>) -> Option<T> {
    rx.try_recv().ok()
}

} // verus!
