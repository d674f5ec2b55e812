//! Handles of the channels that bytes and announcements travel through: `flume` for bytes,
//! `tokio::sync::watch` for the operation that is being carried out.
use crate::protocol::Operation;
use vstd::prelude::*;

verus! {

/// `flume::Sender`, the handle that values are put into a channel with.
#[verifier::external_type_specification]
#[verifier::external_body]
#[verifier::reject_recursive_types(T)]
pub struct ExFlumeSender<T>(flume::Sender<T>);

/// `flume::Receiver`, the handle that values are taken out of a channel with.
#[verifier::external_type_specification]
#[verifier::external_body]
#[verifier::reject_recursive_types(T)]
pub struct ExFlumeReceiver<T>(flume::Receiver<T>);

/// `flume::RecvError`: every sender of the channel is gone and it is empty.
#[verifier::external_type_specification]
#[verifier::external_body]
pub struct ExFlumeRecvError(flume::RecvError);

/// `tokio::sync::watch::Sender`, the handle that a watched value is replaced with.
#[verifier::external_type_specification]
#[verifier::external_body]
#[verifier::reject_recursive_types(T)]
pub struct ExWatchSender<T>(tokio::sync::watch::Sender<T>);

/// `tokio::sync::watch::Receiver`, the handle that a value is watched with.
#[verifier::external_type_specification]
#[verifier::external_body]
#[verifier::reject_recursive_types(T)]
pub struct ExWatchReceiver<T>(tokio::sync::watch::Receiver<T>);

/// How many values fit into the channel that both handles belong to, `None` inside where there is no
/// limit; `None` where they do not belong to one channel.
pub uninterp spec fn byte_channel(tx: flume::Sender<Vec<u8>>, rx: flume::Receiver<Vec<u8>>) -> Option<
    Option<usize>,
>;

/// The value that the watch channel which both handles belong to was made with; `None` where they do
/// not belong to one channel.
pub uninterp spec fn watch_channel(
    tx: tokio::sync::watch::Sender<Operation>,
    rx: tokio::sync::watch::Receiver<Operation>,
) -> Option<Operation>;

/// Specifies `clone` of `flume::Sender`: a handle holds nothing but its channel, and the clone is a
/// handle of the same one.
pub assume_specification<T>[ <flume::Sender<T> as Clone>::clone ](tx: &flume::Sender<T>) -> (copy:
    flume::Sender<T>)
    ensures
        copy == *tx,
;

/// Specifies `clone` of `flume::Receiver`: a handle holds nothing but its channel, and the clone is a
/// handle of the same one.
pub assume_specification<T>[ <flume::Receiver<T> as Clone>::clone ](
    rx: &flume::Receiver<T>,
) -> (copy: flume::Receiver<T>)
    ensures
        copy == *rx,
;

/// Specifies `clone` of `tokio::sync::watch::Receiver`: the clone watches the same channel and has
/// seen the same values.
pub assume_specification<T>[ <tokio::sync::watch::Receiver<T> as Clone>::clone ](
    rx: &tokio::sync::watch::Receiver<T>,
) -> (copy: tokio::sync::watch::Receiver<T>)
    ensures
        copy == *rx,
;

/// Calls `flume::bounded`: the two ends of a channel that holds at most `cap` values.
#[verifier::external_body]
pub(crate) fn bounded_channel(cap: usize) -> (ends: (flume::Sender<Vec<u8>>, flume::Receiver<Vec<u8>>))
    ensures
        byte_channel(ends.0, ends.1) == Some(Some(cap)),
{
    flume::bounded(cap)
}

/// Calls `flume::unbounded`: the two ends of a channel without a limit.
#[verifier::external_body]
pub(crate) fn unbounded_channel() -> (ends: (flume::Sender<Vec<u8>>, flume::Receiver<Vec<u8>>))
    ensures
        byte_channel(ends.0, ends.1) == Some(None::<usize>),
{
    flume::unbounded()
}

/// Calls `tokio::sync::watch::channel`: the two ends of a channel in which `first` can be seen.
#[verifier::external_body]
pub(crate) fn operation_channel(first: Operation) -> (ends: (
    tokio::sync::watch::Sender<Operation>,
    tokio::sync::watch::Receiver<Operation>,
))
    ensures
        watch_channel(ends.0, ends.1) == Some(first),
{
    tokio::sync::watch::channel(first)
}

} // verus!
