//! The bounded hand-off queue between event producers and the writer.
//!
//! Producers enqueue without ever blocking: when the queue is full the
//! record is dropped and the caller told so, preserving the calling
//! thread's availability. The single consumer blocks for the first record
//! of a batch and then drains whatever else is already queued.

use vstd::prelude::*;

verus! {

/// The standard bounded channel's receiving half, opaque to the verifier.
#[verifier::external_type_specification]
#[verifier::external_body]
#[verifier::reject_recursive_types(T)]
pub struct ExReceiver<T>(std::sync::mpsc::Receiver<T>);

/// The standard bounded channel's sending half, opaque to the verifier.
#[verifier::external_type_specification]
#[verifier::external_body]
#[verifier::reject_recursive_types(T)]
pub struct ExSyncSender<T>(std::sync::mpsc::SyncSender<T>);

/// Outcome of one bounded enqueue attempt.
#[derive(Clone, Copy, Debug, PartialEq, Eq, Structural)]
pub enum EnqueueOutcome {
    /// The record was queued.
    Accepted,
    /// The queue held its configured bound of records; the record was
    /// dropped. Never fatal: the caller logs a warning and goes on.
    DroppedFull,
    /// The consumer is gone; the record was dropped.
    Disconnected,
}

/// Relies on `SyncSender::try_send`: never blocks; fails with `Full` while
/// the queue holds its configured bound of records, and with
/// `Disconnected` once the receiving half is dropped.
#[verifier::external_body]
pub fn enqueue_record(tx: &std::sync::mpsc::SyncSender<String>, rec: String) -> EnqueueOutcome {
    match tx.try_send(rec) {
        Ok(()) => EnqueueOutcome::Accepted,
        Err(std::sync::mpsc::TrySendError::Full(_)) => EnqueueOutcome::DroppedFull,
        Err(std::sync::mpsc::TrySendError::Disconnected(_)) => EnqueueOutcome::Disconnected,
    }
}

/// Relies on `Receiver::recv`: blocks until a record is available, and
/// fails only once the channel is empty and every sending half is gone.
#[verifier::external_body]
pub(crate) fn recv_record(rx: &std::sync::mpsc::Receiver<String>) -> Option<String> {
    rx.recv().ok()
}

/// Relies on `Receiver::try_recv`: returns at once, with a record if one
/// was queued and nothing when the channel is momentarily empty or closed.
#[verifier::external_body]
pub(crate) fn try_recv_record(rx: &std::sync::mpsc::Receiver<String>) -> Option<String> {
    rx.try_recv().ok()
}

} // verus!
