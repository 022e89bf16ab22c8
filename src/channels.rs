use vstd::prelude::*;
use futures::channel::mpsc;
use futures::channel::oneshot;

verus! {

/// The sending half of `futures::channel::mpsc`'s bounded channel, carried opaquely.
#[verifier::external_type_specification]
#[verifier::external_body]
#[verifier::reject_recursive_types(T)]
pub struct ExStreamSender<T>(mpsc::Sender<T>);

/// The receiving half of `futures::channel::mpsc`'s bounded channel, carried opaquely.
#[verifier::external_type_specification]
#[verifier::external_body]
#[verifier::reject_recursive_types(T)]
pub struct ExStreamReceiver<T>(mpsc::Receiver<T>);

/// The sending half of `futures::channel::oneshot`, carried opaquely.
#[verifier::external_type_specification]
#[verifier::external_body]
#[verifier::reject_recursive_types(T)]
pub struct ExOutcomeSender<T>(oneshot::Sender<T>);

/// The receiving half of `futures::channel::oneshot`, carried opaquely.
#[verifier::external_type_specification]
#[verifier::external_body]
#[verifier::reject_recursive_types(T)]
pub struct ExOutcomeReceiver<T>(oneshot::Receiver<T>);

/// The error of `futures::channel::oneshot::Receiver` when its sender is gone,
/// carried opaquely. Declared because the receiver's `Future` impl names it:
/// without it the receiver cannot stand in a signature.
#[verifier::external_type_specification]
#[verifier::external_body]
pub struct ExCanceled(oneshot::Canceled);

/// Relies on `futures::channel::mpsc::channel`, which opens a bounded channel
/// and panics only on a capacity near `usize::MAX / 4`.
#[verifier::external_body]
pub(crate) fn bounded_channel(capacity: usize) -> (r: (mpsc::Sender<Vec<u8>>, mpsc::Receiver<Vec<u8>>))
    requires
        capacity <= 0xffff,
{
    mpsc::channel(capacity)
}

/// Relies on `futures::channel::mpsc::Sender::try_send`, which never blocks:
/// `true` when the value was queued, `false` when the channel is full or its
/// receiver is gone. Which one comes back depends on the consumer.
#[verifier::external_body]
pub(crate) fn try_send(tx: &mut mpsc::Sender<Vec<u8>>, value: Vec<u8>) -> (r: bool) {
    tx.try_send(value).is_ok()
}

/// Relies on `futures::channel::oneshot::channel`, which opens a one-shot channel.
#[verifier::external_body]
pub(crate) fn outcome_channel() -> (r: (oneshot::Sender<bool>, oneshot::Receiver<bool>)) {
    oneshot::channel()
}

/// Relies on `futures::channel::oneshot::Sender::send`: consumes the sender and
/// hands the value to the receiver if it is still there; a receiver that is gone
/// is no error.
#[verifier::external_body]
pub(crate) fn send_outcome(tx: oneshot::Sender<bool>, value: bool) {
    let _ = tx.send(value);
}

} // verus!
