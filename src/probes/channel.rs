//! The single-use stop signal between the orchestrator and a probe task.
use vstd::prelude::*;

verus! {

#[verifier::external_type_specification]
#[verifier::external_body]
#[verifier::reject_recursive_types(T)]
pub struct ExSender<T>(tokio::sync::oneshot::Sender<T>);

#[verifier::external_type_specification]
#[verifier::external_body]
#[verifier::reject_recursive_types(T)]
pub struct ExReceiver<T>(tokio::sync::oneshot::Receiver<T>);

#[verifier::external_type_specification]
#[verifier::external_body]
pub struct ExRecvError(tokio::sync::oneshot::error::RecvError);

/// What a probe task finds when it looks for a stop request.
#[derive(Debug, PartialEq, Eq, Clone, Copy, Structural)]
pub enum StopSignal {
    /// A stop was requested.
    Received,
    /// Nothing yet.
    Empty,
    /// The orchestrator dropped its end, or the signal was already taken.
    Closed,
}

/// Relies on `tokio::sync::oneshot::channel`: a fresh sender and receiver pair.
#[verifier::external_body]
pub fn stop_channel() -> (r: (tokio::sync::oneshot::Sender<u8>, tokio::sync::oneshot::Receiver<u8>)) {
    tokio::sync::oneshot::channel()
}

/// Relies on `tokio::sync::oneshot::Sender::send`: hands the stop request over
/// without waiting. A receiver already gone makes it fail, which is of no
/// concern to the sender.
#[verifier::external_body]
pub fn send_stop(tx: tokio::sync::oneshot::Sender<u8>) {
    let _ = tx.send(1);
}

/// Relies on `tokio::sync::oneshot::Receiver::try_recv`: looks for the stop
/// request without waiting.
#[verifier::external_body]
pub fn poll_stop(rx: &mut tokio::sync::oneshot::Receiver<u8>) -> (r: StopSignal) {
    match rx.try_recv() {
        Ok(_) => StopSignal::Received,
        Err(tokio::sync::oneshot::error::TryRecvError::Empty) => StopSignal::Empty,
        Err(tokio::sync::oneshot::error::TryRecvError::Closed) => StopSignal::Closed,
    }
}

} // verus!
