//! Fan-out of one kind of message to any number of subscribed channels.

use crate::channel::{same_channel, try_send};
use crossbeam_channel::Sender;
use vstd::prelude::*;

verus! {

/// The subscribers after `sender` has subscribed: unchanged if its channel is
/// among them already, else with it at the end.
pub open spec fn subscribed<A>(subscribers: Seq<Sender<A>>, sender: Sender<A>) -> Seq<Sender<A>> {
    if subscribers.contains(sender) {
        subscribers
    } else {
        subscribers.push(sender)
    }
}

/// The subscribers after `sender` has unsubscribed: every entry for its
/// channel is gone, the others keep their order.
pub open spec fn unsubscribed<A>(subscribers: Seq<Sender<A>>, sender: Sender<A>) -> Seq<
    Sender<A>,
> {
    subscribers.filter(is_other(sender))
}

/// The test that a sender feeds another channel than `sender` does.
pub open spec fn is_other<A>(sender: Sender<A>) -> spec_fn(Sender<A>) -> bool {
    |s: Sender<A>| s != sender
}

/// The subscribers that stay after a round of deliveries of which `accepted`
/// tells the outcome, place by place: one whose channel refused is gone, the
/// others keep their order. A subscriber without a recorded outcome stays.
pub open spec fn kept<A>(subscribers: Seq<Sender<A>>, accepted: Seq<bool>) -> Seq<Sender<A>>
    decreases subscribers.len(),
{
    if subscribers.len() == 0 {
        subscribers
    } else {
        let last = subscribers.len() - 1;
        let before = kept(subscribers.drop_last(), accepted);
        if last < accepted.len() && !accepted[last] {
            before
        } else {
            before.push(subscribers.last())
        }
    }
}

/// The subscribers that stay after several rounds of deliveries, one after the
/// other: each round drops those whose channel refused in it.
pub open spec fn kept_through<A>(subscribers: Seq<Sender<A>>, rounds: Seq<Seq<bool>>) -> Seq<
    Sender<A>,
>
    decreases rounds.len(),
{
    if rounds.len() == 0 {
        subscribers
    } else {
        kept(kept_through(subscribers, rounds.drop_last()), rounds.last())
    }
}

/// Whether each round of `rounds` tells one outcome for every subscriber that
/// the rounds before it have left.
pub open spec fn rounds_fit<A>(subscribers: Seq<Sender<A>>, rounds: Seq<Seq<bool>>) -> bool
    decreases rounds.len(),
{
    rounds.len() > 0 ==> rounds_fit(subscribers, rounds.drop_last()) && rounds.last().len()
        == kept_through(subscribers, rounds.drop_last()).len()
}

/// One more round after several.
pub proof fn lemma_kept_through_push<A>(
    subscribers: Seq<Sender<A>>,
    rounds: Seq<Seq<bool>>,
    accepted: Seq<bool>,
)
    ensures
        kept_through(subscribers, rounds.push(accepted)) == kept(
            kept_through(subscribers, rounds),
            accepted,
        ),
        rounds_fit(subscribers, rounds.push(accepted)) == (rounds_fit(subscribers, rounds)
            && accepted.len() == kept_through(subscribers, rounds).len()),
{
    assert(rounds.push(accepted).drop_last() =~= rounds);
}

/// Several rounds after several others.
pub proof fn lemma_kept_through_add<A>(
    subscribers: Seq<Sender<A>>,
    first: Seq<Seq<bool>>,
    second: Seq<Seq<bool>>,
)
    ensures
        kept_through(subscribers, first + second) == kept_through(
            kept_through(subscribers, first),
            second,
        ),
        rounds_fit(subscribers, first + second) == (rounds_fit(subscribers, first) && rounds_fit(
            kept_through(subscribers, first),
            second,
        )),
    decreases second.len(),
{
    if second.len() > 0 {
        lemma_kept_through_add(subscribers, first, second.drop_last());
        assert((first + second).drop_last() =~= first + second.drop_last());
    }
}

/// Rounds of deliveries leave only channels that were subscribed, in the order
/// they had, and none of them twice if none was there twice.
pub proof fn lemma_kept_through_is_within<A>(subscribers: Seq<Sender<A>>, rounds: Seq<Seq<bool>>)
    ensures
        kept_through(subscribers, rounds).len() <= subscribers.len(),
        forall|s: Sender<A>| #[trigger]
            kept_through(subscribers, rounds).contains(s) ==> subscribers.contains(s),
        subscribers.no_duplicates() ==> kept_through(subscribers, rounds).no_duplicates(),
    decreases rounds.len(),
{
    if rounds.len() > 0 {
        lemma_kept_through_is_within(subscribers, rounds.drop_last());
        lemma_kept_is_within(kept_through(subscribers, rounds.drop_last()), rounds.last());
    }
}

/// What `unsubscribed` makes of a list that is one entry longer.
pub proof fn lemma_unsubscribed_push<A>(
    subscribers: Seq<Sender<A>>,
    entry: Sender<A>,
    sender: Sender<A>,
)
    ensures
        unsubscribed(subscribers.push(entry), sender) == if entry != sender {
            unsubscribed(subscribers, sender).push(entry)
        } else {
            unsubscribed(subscribers, sender)
        },
{
    crate::seqs::lemma_filter_push(subscribers, entry, is_other(sender));
}

/// Unsubscribing leaves only channels that were subscribed, none of them the
/// one that left, and none of them twice if none was there twice.
pub proof fn lemma_unsubscribed_is_within<A>(subscribers: Seq<Sender<A>>, sender: Sender<A>)
    ensures
        !unsubscribed(subscribers, sender).contains(sender),
        forall|s: Sender<A>| #[trigger]
            unsubscribed(subscribers, sender).contains(s) ==> subscribers.contains(s),
        forall|s: Sender<A>|
            subscribers.contains(s) && s != sender ==> #[trigger] unsubscribed(
                subscribers,
                sender,
            ).contains(s),
        subscribers.no_duplicates() ==> unsubscribed(subscribers, sender).no_duplicates(),
{
    crate::seqs::lemma_filter_is_within(subscribers, is_other(sender));
}

/// A round of deliveries leaves only channels that were subscribed, and none of
/// them twice if none was there twice.
pub proof fn lemma_kept_is_within<A>(subscribers: Seq<Sender<A>>, accepted: Seq<bool>)
    ensures
        kept(subscribers, accepted).len() <= subscribers.len(),
        forall|s: Sender<A>| #[trigger]
            kept(subscribers, accepted).contains(s) ==> subscribers.contains(s),
        subscribers.no_duplicates() ==> kept(subscribers, accepted).no_duplicates(),
    decreases subscribers.len(),
{
    if subscribers.len() > 0 {
        let before = subscribers.drop_last();
        let last = subscribers.last();
        lemma_kept_is_within(before, accepted);
        let rest = kept(before, accepted);
        assert forall|s: Sender<A>| #[trigger]
            kept(subscribers, accepted).contains(s) implies subscribers.contains(s) by {
            let out = kept(subscribers, accepted);
            let i = choose|i: int| 0 <= i < out.len() && out[i] == s;
            if i < rest.len() {
                assert(rest.contains(s));
            }
        }
        if subscribers.no_duplicates() {
            assert(!rest.contains(last));
        }
    }
}

/// When every delivery is accepted, every subscriber stays.
pub proof fn lemma_kept_all<A>(subscribers: Seq<Sender<A>>, accepted: Seq<bool>)
    requires
        forall|i: int| 0 <= i < accepted.len() ==> accepted[i],
    ensures
        kept(subscribers, accepted) == subscribers,
    decreases subscribers.len(),
{
    if subscribers.len() > 0 {
        lemma_kept_all(subscribers.drop_last(), accepted);
    }
}

/// Subscribing a channel a second time changes nothing.
pub proof fn lemma_subscribe_is_idempotent<A>(subscribers: Seq<Sender<A>>, sender: Sender<A>)
    ensures
        subscribed(subscribed(subscribers, sender), sender) == subscribed(subscribers, sender),
        subscribers.no_duplicates() ==> subscribed(subscribers, sender).no_duplicates(),
{
    if !subscribers.contains(sender) {
        assert(subscribers.push(sender)[subscribers.len() as int] == sender);
    }
}

/// After a channel has subscribed twice and unsubscribed once it is not
/// subscribed any more, and every other subscription stands as before.
pub proof fn lemma_subscribe_twice_unsubscribe_once<A>(
    subscribers: Seq<Sender<A>>,
    sender: Sender<A>,
)
    requires
        subscribers.no_duplicates(),
    ensures
        !unsubscribed(subscribed(subscribed(subscribers, sender), sender), sender).contains(
            sender,
        ),
        unsubscribed(subscribed(subscribed(subscribers, sender), sender), sender).no_duplicates(),
        unsubscribed(subscribed(subscribed(subscribers, sender), sender), sender) == unsubscribed(
            subscribers,
            sender,
        ),
{
    lemma_subscribe_is_idempotent(subscribers, sender);
    let once = subscribed(subscribers, sender);
    lemma_unsubscribed_is_within(once, sender);
    if !subscribers.contains(sender) {
        lemma_unsubscribed_push(subscribers, sender, sender);
    }
}

/// The channels that receive one kind of message. No channel is held twice, so
/// a broadcast reaches each subscriber once.
#[verifier::reject_recursive_types(A)]
#[derive(Debug)]
pub struct Subscription<A> {
    subscribers: Vec<Sender<A>>,
}

impl<A> View for Subscription<A> {
    type V = Seq<Sender<A>>;

    closed spec fn view(&self) -> Seq<Sender<A>> {
        self.subscribers@
    }
}

impl<A: Clone> Default for Subscription<A> {
    fn default() -> (subscription: Self)
        ensures
            subscription@ == Seq::<Sender<A>>::empty(),
            subscription.wf(),
    {
        Subscription { subscribers: Vec::new() }
    }
}

impl<A: Clone> Subscription<A> {
    /// No channel is subscribed twice.
    pub open spec fn wf(&self) -> bool {
        self@.no_duplicates()
    }

    /// The number of subscribers.
    pub fn len(&self) -> (len: usize)
        ensures
            len == self@.len(),
    {
        self.subscribers.len()
    }

    /// Adds the channel of `sender` to the subscribers, unless it is one
    /// already.
    pub fn subscribe(&mut self, sender: &Sender<A>)
        requires
            old(self).wf(),
        ensures
            final(self)@ == subscribed(old(self)@, *sender),
            final(self).wf(),
    {
        let mut i: usize = 0;
        while i < self.subscribers.len()
            invariant
                i <= self.subscribers.len(),
                *self == *old(self),
                self.wf(),
                forall|j: int| 0 <= j < i ==> self.subscribers@[j] != *sender,
            decreases self.subscribers.len() - i,
        {
            if same_channel(&self.subscribers[i], sender) {
                return ;
            }
            i += 1;
        }
        self.subscribers.push(sender.clone());
    }

    /// Removes the channel of `sender` from the subscribers.
    pub fn unsubscribe(&mut self, sender: &Sender<A>)
        requires
            old(self).wf(),
        ensures
            final(self)@ == unsubscribed(old(self)@, *sender),
            final(self).wf(),
    {
        let mut staying: Vec<Sender<A>> = Vec::new();
        let mut i: usize = 0;
        while i < self.subscribers.len()
            invariant
                i <= self.subscribers.len(),
                *self == *old(self),
                staying@ == unsubscribed(self.subscribers@.take(i as int), *sender),
            decreases self.subscribers.len() - i,
        {
            proof {
                lemma_unsubscribed_push(
                    self.subscribers@.take(i as int),
                    self.subscribers@[i as int],
                    *sender,
                );
                assert(self.subscribers@.take(i as int).push(self.subscribers@[i as int])
                    =~= self.subscribers@.take(i as int + 1));
            }
            if !same_channel(&self.subscribers[i], sender) {
                staying.push(self.subscribers[i].clone());
            }
            i += 1;
        }
        proof {
            assert(self.subscribers@.take(i as int) =~= self.subscribers@);
            lemma_unsubscribed_is_within(self@, *sender);
        }
        self.subscribers = staying;
    }

    /// Offers a copy of `action` to every subscriber in turn and tells, place
    /// by place, whether the channel took it. What a channel answers is its
    /// own affair: nothing is said of the outcomes but their number.
    pub fn offer(&self, action: &A) -> (accepted: Vec<bool>)
        ensures
            accepted@.len() == self@.len(),
    {
        let mut accepted: Vec<bool> = Vec::new();
        let mut i: usize = 0;
        while i < self.subscribers.len()
            invariant
                i <= self.subscribers.len(),
                accepted@.len() == i,
            decreases self.subscribers.len() - i,
        {
            let taken = try_send(&self.subscribers[i], action.clone());
            accepted.push(taken);
            i += 1;
        }
        accepted
    }

    /// Drops the subscribers whose channel refused in the round of deliveries
    /// that `accepted` reports.
    pub fn prune(&mut self, accepted: &Vec<bool>)
        requires
            old(self).wf(),
        ensures
            final(self)@ == kept(old(self)@, accepted@),
            final(self).wf(),
    {
        let mut staying: Vec<Sender<A>> = Vec::new();
        let mut i: usize = 0;
        while i < self.subscribers.len()
            invariant
                i <= self.subscribers.len(),
                *self == *old(self),
                staying@ == kept(self.subscribers@.take(i as int), accepted@),
            decreases self.subscribers.len() - i,
        {
            proof {
                assert(self.subscribers@.take(i as int + 1).drop_last()
                    =~= self.subscribers@.take(i as int));
            }
            if !(i < accepted.len() && !accepted[i]) {
                staying.push(self.subscribers[i].clone());
            }
            i += 1;
        }
        proof {
            assert(self.subscribers@.take(i as int) =~= self.subscribers@);
            lemma_kept_is_within(self@, accepted@);
        }
        self.subscribers = staying;
    }

    /// Offers `action` to every subscriber and ignores refusals.
    pub fn broadcast(&self, action: A) {
        let _ = self.offer(&action);
    }

    /// Offers `action` to every subscriber and drops those whose channel
    /// refused it. Which channels refuse is not for this side to say; whatever
    /// they answer, the subscribers that stay are those that `kept` names for
    /// the answers given.
    pub fn broadcast_mut(&mut self, action: A)
        requires
            old(self).wf(),
        ensures
            final(self).wf(),
            exists|accepted: Seq<bool>|
                accepted.len() == old(self)@.len() && final(self)@ == #[trigger] kept(
                    old(self)@,
                    accepted,
                ),
    {
        let accepted = self.offer(&action);
        self.prune(&accepted);
    }
}

} // verus!
