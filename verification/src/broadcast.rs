//! The fan-out side of the pub/sub engine: a bounded multi-subscriber
//! broadcast channel from tokio, declared opaquely and reached only through
//! the wrappers below. Publishing to a channel nobody subscribes to is not an
//! error; the value merely comes back.

use vstd::prelude::*;

verus! {

#[verifier::external_type_specification]
#[verifier::external_body]
#[verifier::reject_recursive_types(T)]
pub struct ExSender<T>(tokio::sync::broadcast::Sender<T>);

/// How many items a room's channel buffers before slow subscribers lag.
pub const CHANNEL_CAPACITY: usize = 100;

/// Relies on tokio::sync::broadcast::channel: a fresh channel with the given
/// buffer capacity; the function panics on a zero capacity, which the
/// precondition rules out.
#[verifier::external_body]
pub fn new_channel<T: Clone>(capacity: usize) -> tokio::sync::broadcast::Sender<T>
    requires
        1 <= capacity <= 100000,
{
    tokio::sync::broadcast::channel(capacity).0
}

/// Relies on tokio::sync::broadcast::Sender::send: the value goes to every
/// current subscriber, each of which observes one channel's values in publish
/// order; with no subscriber the value comes back as the error. A success
/// reports how many subscribers were reached, never zero.
#[verifier::external_body]
pub fn publish<T: Clone>(tx: &tokio::sync::broadcast::Sender<T>, value: T) -> (r: Result<
    usize,
    T,
>)
    ensures
        r matches Ok(n) ==> n >= 1,
        r matches Err(v) ==> v == value,
{
    match tx.send(value) {
        Ok(n) => Ok(n),
        Err(e) => Err(e.0),
    }
}

/// Relies on tokio::sync::broadcast::Sender::clone: a new handle to the same
/// channel.
#[verifier::external_body]
pub fn clone_sender<T>(tx: &tokio::sync::broadcast::Sender<T>) -> tokio::sync::broadcast::Sender<
    T,
> {
    tx.clone()
}

} // verus!
