use actor_system::subscription::Subscription;
use crossbeam_channel::{bounded, unbounded};

#[test]
fn new_subscription_is_empty() {
    let subscription: Subscription<u32> = Subscription::default();
    assert_eq!(subscription.len(), 0);
}

#[test]
fn broadcast_reaches_every_subscriber_once() {
    let mut subscription: Subscription<u32> = Subscription::default();
    let (s1, r1) = unbounded();
    let (s2, r2) = unbounded();
    subscription.subscribe(&s1);
    subscription.subscribe(&s2);
    assert_eq!(subscription.len(), 2);
    subscription.broadcast(17);
    assert_eq!(r1.try_recv(), Ok(17));
    assert!(r1.try_recv().is_err());
    assert_eq!(r2.try_recv(), Ok(17));
    assert!(r2.try_recv().is_err());
}

#[test]
fn subscribing_twice_is_subscribing_once() {
    let mut subscription: Subscription<u32> = Subscription::default();
    let (s1, r1) = unbounded();
    subscription.subscribe(&s1);
    subscription.subscribe(&s1);
    subscription.subscribe(&s1.clone());
    assert_eq!(subscription.len(), 1);
    subscription.broadcast(5);
    assert_eq!(r1.try_recv(), Ok(5));
    assert!(r1.try_recv().is_err());
}

#[test]
fn subscribe_twice_then_unsubscribe_once_leaves_no_subscription() {
    let mut subscription: Subscription<u32> = Subscription::default();
    let (s1, r1) = unbounded();
    let (s2, r2) = unbounded();
    subscription.subscribe(&s2);
    subscription.subscribe(&s1);
    subscription.subscribe(&s1);
    subscription.unsubscribe(&s1);
    assert_eq!(subscription.len(), 1);
    subscription.broadcast(9);
    assert!(r1.try_recv().is_err());
    assert_eq!(r2.try_recv(), Ok(9));
    assert!(r2.try_recv().is_err());
}

#[test]
fn unsubscribe_goes_by_channel_not_by_handle() {
    let mut subscription: Subscription<u32> = Subscription::default();
    let (s1, r1) = unbounded();
    let (s2, r2) = unbounded();
    subscription.subscribe(&s1);
    subscription.subscribe(&s2);
    let other_handle = s1.clone();
    subscription.unsubscribe(&other_handle);
    assert_eq!(subscription.len(), 1);
    subscription.broadcast(3);
    assert!(r1.try_recv().is_err());
    assert_eq!(r2.try_recv(), Ok(3));
}

#[test]
fn unsubscribing_a_stranger_changes_nothing() {
    let mut subscription: Subscription<u32> = Subscription::default();
    let (s1, r1) = unbounded();
    let (stranger, _r) = unbounded::<u32>();
    subscription.subscribe(&s1);
    subscription.unsubscribe(&stranger);
    assert_eq!(subscription.len(), 1);
    subscription.broadcast(4);
    assert_eq!(r1.try_recv(), Ok(4));
}

#[test]
fn broadcast_keeps_subscribers_that_refuse() {
    let mut subscription: Subscription<u32> = Subscription::default();
    let (s1, r1) = unbounded();
    let (s2, r2) = unbounded();
    subscription.subscribe(&s1);
    subscription.subscribe(&s2);
    drop(r1);
    subscription.broadcast(1);
    assert_eq!(subscription.len(), 2);
    assert_eq!(r2.try_recv(), Ok(1));
}

#[test]
fn broadcast_mut_drops_subscribers_whose_channel_is_closed() {
    let mut subscription: Subscription<u32> = Subscription::default();
    let (s1, r1) = unbounded();
    let (s2, r2) = unbounded();
    let (s3, r3) = unbounded();
    subscription.subscribe(&s1);
    subscription.subscribe(&s2);
    subscription.subscribe(&s3);
    drop(r2);
    subscription.broadcast_mut(8);
    assert_eq!(subscription.len(), 2);
    assert_eq!(r1.try_recv(), Ok(8));
    assert_eq!(r3.try_recv(), Ok(8));
    subscription.broadcast_mut(9);
    assert_eq!(subscription.len(), 2);
    assert_eq!(r1.try_recv(), Ok(9));
    assert_eq!(r3.try_recv(), Ok(9));
}

#[test]
fn broadcast_mut_drops_subscribers_whose_channel_is_full() {
    let mut subscription: Subscription<u32> = Subscription::default();
    let (s1, r1) = bounded(1);
    let (s2, r2) = unbounded();
    subscription.subscribe(&s1);
    subscription.subscribe(&s2);
    subscription.broadcast_mut(1);
    assert_eq!(subscription.len(), 2);
    subscription.broadcast_mut(2);
    assert_eq!(subscription.len(), 1);
    assert_eq!(r1.try_recv(), Ok(1));
    assert!(r1.try_recv().is_err());
    assert_eq!(r2.try_recv(), Ok(1));
    assert_eq!(r2.try_recv(), Ok(2));
}

#[test]
fn offer_reports_each_outcome_in_order() {
    let mut subscription: Subscription<u32> = Subscription::default();
    let (s1, r1) = unbounded();
    let (s2, r2) = unbounded();
    let (s3, _r3) = unbounded();
    subscription.subscribe(&s1);
    subscription.subscribe(&s2);
    subscription.subscribe(&s3);
    drop(r2);
    assert_eq!(subscription.offer(&6), vec![true, false, true]);
    assert_eq!(subscription.len(), 3);
    assert_eq!(r1.try_recv(), Ok(6));
}

#[test]
fn prune_drops_exactly_those_that_refused() {
    let mut subscription: Subscription<u32> = Subscription::default();
    let (s1, r1) = unbounded();
    let (s2, r2) = unbounded();
    let (s3, r3) = unbounded();
    subscription.subscribe(&s1);
    subscription.subscribe(&s2);
    subscription.subscribe(&s3);
    subscription.prune(&vec![true, false, true]);
    assert_eq!(subscription.len(), 2);
    subscription.broadcast(2);
    assert_eq!(r1.try_recv(), Ok(2));
    assert!(r2.try_recv().is_err());
    assert_eq!(r3.try_recv(), Ok(2));
}

#[test]
fn prune_keeps_subscribers_without_an_outcome() {
    let mut subscription: Subscription<u32> = Subscription::default();
    let (s1, _r1) = unbounded();
    let (s2, _r2) = unbounded();
    subscription.subscribe(&s1);
    subscription.subscribe(&s2);
    subscription.prune(&vec![false]);
    assert_eq!(subscription.len(), 1);
    subscription.prune(&vec![]);
    assert_eq!(subscription.len(), 1);
    subscription.prune(&vec![true, false, false]);
    assert_eq!(subscription.len(), 1);
}
