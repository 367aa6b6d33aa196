//! What every actor offers to those that hold a handle on it.

use crate::channel::try_send;
use crossbeam_channel::Sender;
use vstd::prelude::*;

verus! {

/// An actor that takes requests of type `R` through a channel and answers with
/// actions of type `A`.
pub trait ProvidesActorService<R, A> {
    /// The sending side of the channel for requests.
    fn sender(&self) -> &Sender<R>;

    /// Puts `request` on the actor's channel. A request that the channel
    /// refuses is dropped.
    fn send_request(&self, request: R) {
        let _ = try_send(self.sender(), request);
    }
}

} // verus!
