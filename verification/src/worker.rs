//! What the background threads of the store are asked to do: computing
//! manifests and freeing large objects off the hot path.

use crate::state_manager::ManifestJob;
use crossbeam_channel::Sender;
use vstd::prelude::*;

verus! {

/// The sending side of a channel to another thread.
#[verifier::external_type_specification]
#[verifier::external_body]
#[verifier::reject_recursive_types(T)]
pub struct ExSender<T>(crossbeam_channel::Sender<T>);

/// The deallocation thread is not used while this many objects or more are
/// waiting for it.
pub const DEALLOCATION_BACKLOG_THRESHOLD: usize = 500;

/// A request to the thread that computes manifests.
pub enum ComputeManifestRequest {
    /// Compute the manifest of a checkpoint and store it.
    Compute(ManifestJob),
    /// When the request gets through the queue, notify by sending `()` into
    /// the provided channel. All requests that were queued before it have
    /// been handled by then.
    Wait { sender: Sender<()> },
}

/// What the manifest thread has to do for a request.
#[derive(Debug, PartialEq, Eq)]
pub enum ManifestWork {
    /// Compute the manifest of this checkpoint.
    Compute(ManifestJob),
    /// The request was a barrier, and whoever waits at it was notified.
    Notified,
    /// The request was a barrier, and nobody waits at it any more.
    WaiterGone,
}

/// When a large object is handed to the deallocation thread.
#[derive(Clone, Copy, Debug, PartialEq, Eq, Structural)]
pub enum OffloadPolicy {
    /// In any case.
    Always,
    /// Unless too many objects are waiting for the thread already.
    UnlessBacklogged,
}

/// What became of an object that was to be freed.
#[derive(Debug, PartialEq, Eq)]
pub enum Deallocation<T> {
    /// It was handed to the deallocation thread.
    Offloaded,
    /// It was freed on the spot, because too many objects are waiting for
    /// the deallocation thread.
    DroppedInline,
    /// The deallocation thread is gone. The object is handed back.
    Disconnected(T),
}

/// The number of messages that wait in the channel.
///
/// Calls `Sender::len`. Other threads send and receive at the same time, so
/// nothing is claimed of the number.
#[verifier::external_body]
fn channel_len<T>(sender: &Sender<T>) -> (len: usize) {
    sender.len()
}

/// Sends `msg` into the channel.
///
/// Calls `Sender::send`, which fails only where the channel is disconnected
/// and then hands the message back in its error. On a channel without a
/// bound, as the store uses them, the call does not wait; on a bounded
/// channel it waits while the channel is full.
#[verifier::external_body]
fn channel_send<T>(sender: &Sender<T>, msg: T) -> (r: Result<(), T>)
    ensures
        r matches Err(returned) ==> returned == msg,
{
    sender.send(msg).map_err(|e| e.0)
}

/// Whether an object is handed to the deallocation thread when `backlog`
/// objects are waiting for it.
pub fn should_offload(policy: OffloadPolicy, backlog: usize) -> (offload: bool)
    ensures
        offload == (policy == OffloadPolicy::Always || backlog < DEALLOCATION_BACKLOG_THRESHOLD),
{
    match policy {
        OffloadPolicy::Always => true,
        OffloadPolicy::UnlessBacklogged => backlog < DEALLOCATION_BACKLOG_THRESHOLD,
    }
}

/// What became of an object that was sent to the deallocation thread, given
/// what sending returned: the thread has it, or it is gone and the object
/// came back.
pub fn deallocation_after_send<T>(sent: Result<(), T>) -> (outcome: Deallocation<T>)
    ensures
        outcome == (match sent {
            Ok(()) => Deallocation::Offloaded,
            Err(returned) => Deallocation::Disconnected(returned),
        }),
{
    match sent {
        Ok(()) => Deallocation::Offloaded,
        Err(returned) => Deallocation::Disconnected(returned),
    }
}

/// Frees `object`: hands it to the deallocation thread behind `sender`, or
/// drops it on the spot where the policy says so. Freeing large object graphs
/// on another thread spreads the cost over time and avoids long pauses.
///
/// Which of the outcomes it is depends on the other side of the channel: on
/// how many objects wait there (see `should_offload`) and on whether the
/// thread is still there (see `deallocation_after_send`).
pub fn deallocate<T>(sender: &Sender<T>, object: T, policy: OffloadPolicy) -> (outcome: Deallocation<
    T,
>)
    ensures
        outcome matches Deallocation::Disconnected(returned) ==> returned == object,
        policy == OffloadPolicy::Always ==> !(outcome is DroppedInline),
{
    let offload = match policy {
        OffloadPolicy::Always => true,
        OffloadPolicy::UnlessBacklogged => should_offload(policy, channel_len(sender)),
    };
    if offload {
        deallocation_after_send(channel_send(sender, object))
    } else {
        Deallocation::DroppedInline
    }
}

/// Handles one request of the manifest thread's queue: a barrier is answered
/// at once, a job is handed on to be computed.
pub fn handle_compute_manifest_request(req: ComputeManifestRequest) -> (work: ManifestWork)
    ensures
        match req {
            ComputeManifestRequest::Compute(job) => work == ManifestWork::Compute(job),
            ComputeManifestRequest::Wait { .. } => work == ManifestWork::Notified || work
                == ManifestWork::WaiterGone,
        },
{
    match req {
        ComputeManifestRequest::Wait { sender } => match channel_send(&sender, ()) {
            Ok(()) => ManifestWork::Notified,
            Err(_) => ManifestWork::WaiterGone,
        },
        ComputeManifestRequest::Compute(job) => ManifestWork::Compute(job),
    }
}

} // verus!
