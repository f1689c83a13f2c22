//! The two channels of a live channel: the broadcast bus that carries its
//! chunks to the sessions, and the stop signal that ends its upstream task.
//!
//! Every function here is a thin call into `tokio::sync`. What the other end
//! of a channel sees, and when, depends on the tasks that hold it, so these
//! functions promise nothing of their results; the decisions of this crate
//! are stated over what it records in the shared state.

use bytes::Bytes;
use tokio::sync::{broadcast, watch};
use vstd::prelude::*;

verus! {

#[verifier::external_type_specification]
#[verifier::external_body]
#[verifier::reject_recursive_types(T)]
pub struct ExBroadcastSender<T>(broadcast::Sender<T>);

#[verifier::external_type_specification]
#[verifier::external_body]
#[verifier::reject_recursive_types(T)]
pub struct ExWatchSender<T>(watch::Sender<T>);

#[verifier::external_type_specification]
#[verifier::external_body]
#[verifier::reject_recursive_types(T)]
pub struct ExWatchReceiver<T>(watch::Receiver<T>);

/// `broadcast::Sender::clone`: one more handle on the same bus.
pub assume_specification<T>[ <broadcast::Sender<T> as Clone>::clone ](
    bus: &broadcast::Sender<T>,
) -> (handle: broadcast::Sender<T>)
;

/// `watch::Sender::clone`: one more handle on the same signal.
pub assume_specification<T>[ <watch::Sender<T> as Clone>::clone ](stop: &watch::Sender<T>) -> (handle:
    watch::Sender<T>)
;

/// `broadcast::channel`: a bus of `capacity` slots, of which the sending
/// end is kept. The outside function panics on a capacity of zero or of
/// more than half of `usize::MAX`.
#[verifier::external_body]
pub(crate) fn bus_open(capacity: usize) -> (bus: broadcast::Sender<Bytes>)
    requires
        0 < capacity <= usize::MAX / 2,
{
    broadcast::channel(capacity).0
}

/// `broadcast::Sender::send`: hands `chunk` to every subscriber there is at
/// this moment; with none, the chunk is discarded.
#[verifier::external_body]
pub(crate) fn bus_send(bus: &broadcast::Sender<Bytes>, chunk: Bytes) {
    let _ = bus.send(chunk);
}

/// `watch::channel`: a signal that holds `initial`, with both its ends.
#[verifier::external_body]
pub(crate) fn stop_open(initial: bool) -> (ends: (watch::Sender<bool>, watch::Receiver<bool>)) {
    watch::channel(initial)
}

/// `watch::Sender::send`: sets the signal to `value` and wakes its
/// receivers; without a receiver the signal keeps its value.
#[verifier::external_body]
pub(crate) fn stop_send(stop: &watch::Sender<bool>, value: bool) {
    let _ = stop.send(value);
}

/// `watch::Receiver::borrow`: the value that the signal holds at this
/// moment.
#[verifier::external_body]
pub(crate) fn stop_read(stop: &watch::Receiver<bool>) -> (value: bool) {
    *stop.borrow()
}

} // verus!
