//! The sending half of a `crossbeam_channel` channel, as far as the engine uses it.
//!
//! In specifications a sender stands for the channel it belongs to: two senders
//! are equal there exactly when they feed the same channel.

use crossbeam_channel::Sender;
use vstd::prelude::*;

verus! {

/// The type `crossbeam_channel::Sender`, made known so that it can stand in
/// signatures and fields. Nothing is known of what is inside a sender.
#[verifier::external_type_specification]
#[verifier::external_body]
#[verifier::reject_recursive_types(T)]
pub struct ExSender<T>(Sender<T>);

/// `Sender::clone`: a further handle on the same channel. The claim is that the
/// new handle belongs to the channel of the one it was made from.
pub assume_specification<T>[ <Sender<T> as Clone>::clone ](sender: &Sender<T>) -> (handle: Sender<
    T,
>)
    ensures
        handle == *sender,
;

/// `Sender::same_channel`: whether two handles feed the same channel. The claim
/// is that this is what equality of senders means in specifications.
#[verifier::external_body]
pub(crate) fn same_channel<T>(a: &Sender<T>, b: &Sender<T>) -> (same: bool)
    ensures
        same == (*a == *b),
{
    a.same_channel(b)
}

/// `Sender::try_send`: hands `message` to the channel without blocking and
/// reports whether the channel took it. A full or disconnected channel refuses;
/// nothing is claimed about which case occurs.
#[verifier::external_body]
pub(crate) fn try_send<T>(sender: &Sender<T>, message: T) -> (accepted: bool) {
    sender.try_send(message).is_ok()
}

} // verus!
