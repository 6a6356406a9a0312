//! What the library takes on trust about the channels it sends and
//! receives on. Nothing is claimed of what a call returns: whether a message
//! is waiting, and whether the other end is still there, is up to the other
//! thread.

use vstd::prelude::*;

verus! {

/// `crossbeam_channel::Sender`, the sending end of a channel. Opaque to the
/// verifier.
#[verifier::external_type_specification]
#[verifier::external_body]
#[verifier::reject_recursive_types(T)]
pub struct ExSender<T>(crossbeam_channel::Sender<T>);

/// `crossbeam_channel::Receiver`, the receiving end of a channel. Opaque to
/// the verifier.
#[verifier::external_type_specification]
#[verifier::external_body]
#[verifier::reject_recursive_types(T)]
pub struct ExReceiver<T>(crossbeam_channel::Receiver<T>);

/// `crossbeam_channel::TryRecvError`: why nothing was received. Opaque to
/// the verifier.
#[verifier::external_type_specification]
#[verifier::external_body]
pub struct ExTryRecvError(crossbeam_channel::TryRecvError);

/// `crossbeam_channel::TrySendError`: why a message was not sent; it holds
/// the message. Opaque to the verifier.
#[verifier::external_type_specification]
#[verifier::external_body]
#[verifier::reject_recursive_types(T)]
pub struct ExTrySendError<T>(crossbeam_channel::TrySendError<T>);

/// `crossbeam_channel::unbounded` makes a channel that holds any number of
/// messages. Nothing is claimed of the two ends.
pub assume_specification<T>[ crossbeam_channel::unbounded::<T> ]() -> (ends: (
    crossbeam_channel::Sender<T>,
    crossbeam_channel::Receiver<T>,
));

/// `Receiver::try_recv` takes a waiting message, if there is one, and
/// returns at once either way. Nothing is claimed of which it is.
pub assume_specification<T>[ crossbeam_channel::Receiver::<T>::try_recv ](
    receiver: &crossbeam_channel::Receiver<T>,
) -> (received: Result<T, crossbeam_channel::TryRecvError>);

/// `Receiver::len` counts the messages waiting in the channel at the moment
/// of the call. Nothing is claimed of the number.
pub assume_specification<T>[ crossbeam_channel::Receiver::<T>::len ](
    receiver: &crossbeam_channel::Receiver<T>,
) -> (waiting: usize);

/// `Sender::try_send` hands a message to the channel unless the channel is
/// full or the receiving end is gone, and returns at once either way.
/// Nothing is claimed of which it is.
pub assume_specification<T>[ crossbeam_channel::Sender::<T>::try_send ](
    sender: &crossbeam_channel::Sender<T>,
    message: T,
) -> (sent: Result<(), crossbeam_channel::TrySendError<T>>);

} // verus!
