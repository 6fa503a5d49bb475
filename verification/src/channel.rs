use vstd::prelude::*;

use crate::message::AsyncMessage;

verus! {

/// The sending half of a bounded FIFO channel of `futures::channel::mpsc`.
/// Opaque here: the scheduler only allocates, stores and clones senders; all
/// sending and receiving happens inside the spawned tasks and in callers.
#[verifier::external_type_specification]
#[verifier::external_body]
#[verifier::reject_recursive_types(T)]
pub struct ExSender<T>(futures::channel::mpsc::Sender<T>);

/// The receiving half of a bounded FIFO channel of
/// `futures::channel::mpsc`, opaque for the same reason.
#[verifier::external_type_specification]
#[verifier::external_body]
#[verifier::reject_recursive_types(T)]
pub struct ExReceiver<T>(futures::channel::mpsc::Receiver<T>);

/// The buffer bound a sender's channel was created with: the argument that
/// `futures::channel::mpsc::channel` received. (The channel itself admits one
/// further in-flight message per sender beyond this bound.)
pub uninterp spec fn sender_capacity(s: futures::channel::mpsc::Sender<AsyncMessage>) -> nat;

/// Relies on `futures::channel::mpsc::channel`: returns the two halves of a
/// fresh bounded FIFO channel whose buffer bound is `queue_size`. The
/// function panics for bounds of at least `usize::MAX / 4`, which the
/// precondition rules out.
#[verifier::external_body]
pub(crate) fn new_inbox(queue_size: usize) -> (r: (
    futures::channel::mpsc::Sender<AsyncMessage>,
    futures::channel::mpsc::Receiver<AsyncMessage>,
))
    requires
        queue_size < usize::MAX / 4,
    ensures
        sender_capacity(r.0) == queue_size,
{
    futures::channel::mpsc::channel(queue_size)
}

} // verus!
