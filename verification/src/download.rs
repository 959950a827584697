//! Decisions of the single media download worker: when a cancellation or a
//! closed channel stops it, and what a receive attempt leads to.
use vstd::prelude::*;

use std::sync::mpsc::Receiver;

verus! {

/// How long the worker waits for a request before it checks for a
/// cancellation again, in milliseconds.
pub const POLL_INTERVAL_MS: u64 = 50;

/// The result of polling the cancellation channel without waiting.
#[derive(Clone, Copy, Debug, Eq, PartialEq, Structural)]
pub enum CancelPoll {
    /// Nothing was sent.
    Empty,
    /// A cancellation was sent.
    Cancelled,
    /// Every sender is gone.
    Disconnected,
}

/// The result of waiting a short while for a download request.
#[derive(Clone, Copy, Debug, Eq, PartialEq)]
pub enum DownloadPoll<T> {
    Received(T),
    Timeout,
    Disconnected,
}

/// What the worker does next.
#[derive(Clone, Copy, Debug, Eq, PartialEq)]
pub enum DownloadStep<T> {
    /// Stop the worker.
    Stop,
    /// Wait for a request again.
    Retry,
    /// Run this request, after checking for cancellation once more.
    Deliver(T),
}

/// A sent cancellation stops the worker, and so does a cancellation channel
/// whose senders are gone; only an empty channel lets it go on. The worker
/// checks this before waiting and again before running a received request,
/// so a cancellation wins over a request that is already queued.
pub fn cancellation_requested(poll: CancelPoll) -> (b: bool)
    ensures
        b == !(poll is Empty),
{
    !matches!(poll, CancelPoll::Empty)
}

/// A timeout waits again, a closed request channel stops the worker, and a
/// received request is delivered.
pub fn receive_step<T>(poll: DownloadPoll<T>) -> (s: DownloadStep<T>)
    ensures
        poll is Timeout ==> s is Retry,
        poll is Disconnected ==> s is Stop,
        poll matches DownloadPoll::Received(r) ==> s == DownloadStep::Deliver(r),
{
    match poll {
        DownloadPoll::Received(request) => DownloadStep::Deliver(request),
        DownloadPoll::Timeout => DownloadStep::Retry,
        DownloadPoll::Disconnected => DownloadStep::Stop,
    }
}

#[verifier::external_type_specification]
#[verifier::external_body]
#[verifier::reject_recursive_types(T)]
pub struct ExReceiver<T>(std::sync::mpsc::Receiver<T>);

/// Calls `Receiver::try_recv` on the cancellation channel: a sent value is
/// a cancellation, an empty channel is `Empty`. What comes back depends on
/// the other threads; nothing is claimed of it.
#[verifier::external_body]
fn poll_cancel(cancel_rx: &Receiver<()>) -> (p: CancelPoll) {
    match cancel_rx.try_recv() {
        Ok(()) => CancelPoll::Cancelled,
        Err(std::sync::mpsc::TryRecvError::Empty) => CancelPoll::Empty,
        Err(std::sync::mpsc::TryRecvError::Disconnected) => CancelPoll::Disconnected,
    }
}

/// Calls `Receiver::recv_timeout` on the request channel, waiting at most
/// `timeout_ms` milliseconds. What comes back depends on the other threads
/// and the time; nothing is claimed of it.
#[verifier::external_body]
fn poll_download<T>(download_rx: &Receiver<T>, timeout_ms: u64) -> (p: DownloadPoll<T>) {
    match download_rx.recv_timeout(std::time::Duration::from_millis(timeout_ms)) {
        Ok(request) => DownloadPoll::Received(request),
        Err(std::sync::mpsc::RecvTimeoutError::Timeout) => DownloadPoll::Timeout,
        Err(std::sync::mpsc::RecvTimeoutError::Disconnected) => DownloadPoll::Disconnected,
    }
}

/// What one wait for a request leads to, from the cancellation poll before
/// waiting, the wait (`None` where none was made) and the cancellation poll
/// after a request arrived (`None` where none was made).
pub open spec fn request_step<T>(before: CancelPoll, poll: Option<DownloadPoll<T>>, after: Option<CancelPoll>) -> DownloadStep<T> {
    if !(before is Empty) {
        DownloadStep::Stop
    } else {
        match poll {
            Some(DownloadPoll::Timeout) => DownloadStep::Retry,
            Some(DownloadPoll::Received(r)) => if after == Some(CancelPoll::Empty) {
                DownloadStep::Deliver(r)
            } else {
                DownloadStep::Stop
            },
            _ => DownloadStep::Stop,
        }
    }
}

/// Decides what one wait for a request leads to from what the polls gave.
pub fn decide_request<T>(before: CancelPoll, poll: Option<DownloadPoll<T>>, after: Option<CancelPoll>) -> (s:
    DownloadStep<T>)
    ensures
        s == request_step(before, poll, after),
{
    if cancellation_requested(before) {
        return DownloadStep::Stop;
    }
    match poll {
        Some(p) => match receive_step(p) {
            DownloadStep::Deliver(r) => match after {
                Some(a) => if cancellation_requested(a) {
                    DownloadStep::Stop
                } else {
                    DownloadStep::Deliver(r)
                },
                None => DownloadStep::Stop,
            },
            other => other,
        },
        None => DownloadStep::Stop,
    }
}

/// One wait for the next download request: stops where a cancellation was
/// sent or a channel closed, before waiting or once a request arrived, so
/// a cancellation wins over a request already queued; retries after a
/// timeout. The caller repeats it while it says `Retry`. What the channels
/// give depends on other threads, so what comes back is decided by
/// `decide_request` from whatever the polls gave.
pub fn next_request_once<T>(cancel_rx: &Receiver<()>, download_rx: &Receiver<T>) -> DownloadStep<T> {
    let before = poll_cancel(cancel_rx);
    if cancellation_requested(before) {
        return decide_request(before, None, None);
    }
    let poll = poll_download(download_rx, POLL_INTERVAL_MS);
    match poll {
        DownloadPoll::Received(request) => {
            let after = poll_cancel(cancel_rx);
            decide_request(before, Some(DownloadPoll::Received(request)), Some(after))
        },
        other => decide_request(before, Some(other), None),
    }
}

} // verus!
