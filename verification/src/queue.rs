//! The bounded queue of `crossbeam_queue` through which finished frames reach
//! the audio device.
//!
//! The queue is shared with the side that takes frames out, so nothing is said
//! here of what it holds at any time.

use crate::sample::StereoSample;
use crossbeam_queue::ArrayQueue;
use std::sync::Arc;
use vstd::prelude::*;

verus! {

/// The type `crossbeam_queue::ArrayQueue`, made known so that it can stand in
/// signatures and fields. Nothing is known of what is inside a queue.
#[verifier::external_type_specification]
#[verifier::external_body]
#[verifier::reject_recursive_types(T)]
pub struct ExArrayQueue<T>(ArrayQueue<T>);

/// The queue that the engine fills and the audio device empties.
pub type AudioQueue = Arc<ArrayQueue<StereoSample>>;

/// `ArrayQueue::force_push`: puts `frame` at the back of the queue; where the
/// queue is full the oldest frame makes room and is handed back. Whether the
/// queue is full at that moment is for the other side to decide too, so
/// nothing is claimed of the result.
#[verifier::external_body]
pub(crate) fn force_push(queue: &ArrayQueue<StereoSample>, frame: StereoSample) -> (displaced:
    Option<StereoSample>) {
    queue.force_push(frame)
}

/// Puts every frame of `frames` into the queue, in order, and counts the
/// frames that had to make room.
pub fn push_frames(queue: &AudioQueue, frames: &Vec<StereoSample>) -> (displaced: usize)
    ensures
        displaced <= frames@.len(),
{
    let mut displaced: usize = 0;
    let mut i: usize = 0;
    while i < frames.len()
        invariant
            i <= frames.len(),
            displaced <= i,
        decreases frames.len() - i,
    {
        if force_push(queue, frames[i]).is_some() {
            displaced += 1;
        }
        i += 1;
    }
    displaced
}

} // verus!
