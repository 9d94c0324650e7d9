//! The channels of `tokio::sync` that the executor and the local spawner use.
//!
//! Everything in this file is trusted: the types are tokio's, and each
//! wrapper's contract restates what tokio's documentation and source show.
use vstd::prelude::*;

verus! {

/// Sending half of tokio's bounded multi-producer channel.
#[verifier::external_type_specification]
#[verifier::external_body]
#[verifier::reject_recursive_types(T)]
pub struct ExMpscSender<T>(tokio::sync::mpsc::Sender<T>);

/// Receiving half of tokio's bounded multi-producer channel.
#[verifier::external_type_specification]
#[verifier::external_body]
#[verifier::reject_recursive_types(T)]
pub struct ExMpscReceiver<T>(tokio::sync::mpsc::Receiver<T>);

/// Sending half of tokio's one-shot channel.
#[verifier::external_type_specification]
#[verifier::external_body]
#[verifier::reject_recursive_types(T)]
pub struct ExOneshotSender<T>(tokio::sync::oneshot::Sender<T>);

/// Why a task id could not be put on the schedule queue.
#[derive(Debug, Clone, Copy, PartialEq, Eq)]
pub enum ScheduleError {
    /// The queue holds as many ids as its capacity allows.
    Full(usize),
    /// The receiving half was closed or dropped.
    Closed(usize),
}

impl ScheduleError {
    /// The task id that was handed back unsent.
    pub open spec fn task_id(self) -> usize {
        match self {
            ScheduleError::Full(id) => id,
            ScheduleError::Closed(id) => id,
        }
    }

    /// The task id that was handed back unsent.
    pub fn id(&self) -> (r: usize)
        ensures
            r == self.task_id(),
    {
        match self {
            ScheduleError::Full(id) => *id,
            ScheduleError::Closed(id) => *id,
        }
    }
}

/// The buffer capacity that the channel behind a sending handle was made
/// with: what `tokio::sync::mpsc::Sender::max_capacity` reports.
pub uninterp spec fn queue_capacity(tx: tokio::sync::mpsc::Sender<usize>) -> nat;

/// Calls `tokio::sync::mpsc::channel(buffer)`. tokio asserts that the buffer
/// is positive and at most its semaphore's `MAX_PERMITS`, which is
/// `usize::MAX >> 3`, that is `usize::MAX / 8`; within those bounds it returns a
/// fresh channel whose sender reports `buffer` as its maximum capacity (tokio
/// stores the buffer as the semaphore's bound). Nothing else is claimed.
#[verifier::external_body]
pub(crate) fn schedule_channel(buffer: usize) -> (r: (
    tokio::sync::mpsc::Sender<usize>,
    tokio::sync::mpsc::Receiver<usize>,
))
    requires
        0 < buffer <= usize::MAX / 8,
    ensures
        queue_capacity(r.0) == buffer,
{
    tokio::sync::mpsc::channel(buffer)
}

/// Evidence of one offer of a task id to a schedule queue: the handle it
/// went through, the id, and whether the queue took it. Only `try_schedule`
/// makes one, so a receipt always stands for an offer that was made.
pub struct ScheduleReceipt {
    record: Ghost<(tokio::sync::mpsc::Sender<usize>, usize, bool)>,
}

impl ScheduleReceipt {
    /// The handle the id was offered through.
    pub closed spec fn sender(self) -> tokio::sync::mpsc::Sender<usize> {
        self.record@.0
    }

    /// The id that was offered.
    pub closed spec fn id(self) -> usize {
        self.record@.1
    }

    /// Whether the queue took the id.
    pub closed spec fn accepted(self) -> bool {
        self.record@.2
    }
}

/// Calls `tokio::sync::mpsc::Sender::try_send`. Whether the id is queued
/// depends on the channel's state, which other handles share; either way
/// the result carries the id that was handed to the call (on failure tokio
/// hands the message back, on success the id sent is returned), and the
/// receipt records the handle, the id and the outcome of this call.
#[verifier::external_body]
pub(crate) fn try_schedule(tx: &tokio::sync::mpsc::Sender<usize>, id: usize) -> (r: (
    Result<usize, ScheduleError>,
    ScheduleReceipt,
))
    ensures
        r.0 matches Ok(v) ==> v == id,
        r.0 matches Err(e) ==> e.task_id() == id,
        r.1.sender() == *tx,
        r.1.id() == id,
        r.1.accepted() == r.0 is Ok,
{
    let sent = match tx.try_send(id) {
        Ok(()) => Ok(id),
        Err(tokio::sync::mpsc::error::TrySendError::Full(v)) => Err(ScheduleError::Full(v)),
        Err(tokio::sync::mpsc::error::TrySendError::Closed(v)) => Err(ScheduleError::Closed(v)),
    };
    let receipt = ScheduleReceipt { record: Ghost((*tx, id, sent.is_ok())) };
    (sent, receipt)
}

/// Calls `Clone::clone` on a `tokio::sync::mpsc::Sender`: another handle to
/// the same channel (tokio clones the shared channel pointer), so it reports
/// the same maximum capacity. Nothing else about the handle is claimed.
#[verifier::external_body]
pub(crate) fn clone_sender(tx: &tokio::sync::mpsc::Sender<usize>) -> (r:
    tokio::sync::mpsc::Sender<usize>)
    ensures
        queue_capacity(r) == queue_capacity(*tx),
{
    tx.clone()
}

/// Evidence of one one-shot send: the sender that was consumed and the value
/// handed to it. Only `send_reply` makes one, so a receipt always stands for
/// a send that was made.
pub struct SendReceipt {
    record: Ghost<(tokio::sync::oneshot::Sender<i32>, i32)>,
}

impl SendReceipt {
    /// The sender and the value of the send.
    pub closed spec fn sent(self) -> (tokio::sync::oneshot::Sender<i32>, i32) {
        self.record@
    }
}

/// Calls `tokio::sync::oneshot::Sender::send`. It succeeds unless the
/// receiving half was dropped, which this library cannot see; on failure the
/// value is handed back unchanged. The receipt records the sender and the
/// value that were handed to the call.
#[verifier::external_body]
pub(crate) fn send_reply(tx: tokio::sync::oneshot::Sender<i32>, value: i32) -> (r: (
    Result<(), i32>,
    SendReceipt,
))
    ensures
        r.0 matches Err(v) ==> v == value,
        r.1.sent() == (tx, value),
{
    let receipt = SendReceipt { record: Ghost((tx, value)) };
    (tx.send(value), receipt)
}

} // verus!
