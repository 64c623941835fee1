use core::marker::PhantomData;

use rxrust::notification::Notification;
use rxrust::observable::from_fn::create;
use rxrust::observable::range::RangeObservable;
use rxrust::ops::switch_on_next::SwitchOnNextOp;
use rxrust::ops::take_until::{TakeUntil, TakeUntilOp};
use rxrust::observable::range::range;
use rxrust::observable::{IntoShared, Observable};
use rxrust::observer::{EventRecorder, Observer};
use rxrust::ops::switch_on_next::SwitchOnNextObserver;
use rxrust::ops::take_last::{TakeLastObserver, TakeLastOp};
use rxrust::ops::take_until::{TakeUntilObserver, TakeUntilTriggerObserver};
use rxrust::subscriber::Subscriber;
use rxrust::subscription::{LocalSubscription, SubscriptionLike, SubscriptionTree};

use Notification::{Complete, Error, Next};

fn recorder_subscriber<Item, E>() -> Subscriber<EventRecorder<Item, E>, LocalSubscription> {
    Subscriber::new(EventRecorder::new(), LocalSubscription::new())
}

#[test]
fn empty_range_completes() {
    let bound = range(5, 5).actual_subscribe(recorder_subscriber::<i32, ()>());
    assert_eq!(bound.observer.events, vec![Complete]);
}

#[test]
fn take_last_zero_count() {
    let bound = TakeLastOp { source: range(0, 10), count: 0, _p: PhantomData }
        .actual_subscribe(recorder_subscriber::<i32, ()>());
    assert_eq!(bound.observer.observer.events, vec![Complete]);
}

#[test]
fn take_last_source_shorter_than_count() {
    let bound = TakeLastOp { source: range(0, 3), count: 5, _p: PhantomData }
        .actual_subscribe(recorder_subscriber::<i32, ()>());
    assert_eq!(bound.observer.observer.events, vec![Next(0), Next(1), Next(2), Complete]);
}

#[test]
fn take_last_discards_buffer_on_error() {
    let mut s: TakeLastObserver<EventRecorder<i32, &'static str>, LocalSubscription, i32> =
        TakeLastObserver {
            observer: EventRecorder::new(),
            subscription: LocalSubscription::new(),
            count: 5,
            queue: Vec::new(),
            stopped: false,
        };
    s.next(1);
    s.next(2);
    s.error("boom");
    s.next(3);
    s.complete();
    // the error is forwarded at once; buffered values are never flushed
    assert_eq!(s.observer.events, vec![Error("boom")]);
}

#[test]
fn promotion_delivers_same_sequence() {
    let exclusive = range(3, 7).actual_subscribe(recorder_subscriber::<i32, ()>());
    let shared = range(3, 7).to_shared().actual_subscribe(recorder_subscriber::<i32, ()>());
    assert_eq!(exclusive.observer.events, shared.observer.events);
    assert_eq!(shared.observer.events, vec![Next(3), Next(4), Next(5), Next(6), Complete]);
}

fn take_until_subject<Item, E>(
) -> TakeUntilTriggerObserver<EventRecorder<Item, E>, LocalSubscription, Item> {
    TakeUntilTriggerObserver {
        observer: TakeUntilObserver { observer: EventRecorder::new(), stopped: false },
        subscription: LocalSubscription::new(),
        done: false,
        _p: PhantomData,
    }
}

#[test]
fn take_until_trigger_error_is_forwarded() {
    let mut t = take_until_subject::<i32, &'static str>();
    t.observer.next(1);
    <TakeUntilTriggerObserver<EventRecorder<i32, &'static str>, LocalSubscription, i32> as Observer<
        bool,
        &'static str,
    >>::error(&mut t, "boom");
    t.observer.next(2);
    assert_eq!(t.observer.observer.events, vec![Next(1), Error("boom")]);
}

#[test]
fn take_until_trigger_completion_is_ignored() {
    let mut t = take_until_subject::<i32, ()>();
    t.observer.next(1);
    <TakeUntilTriggerObserver<EventRecorder<i32, ()>, LocalSubscription, i32> as Observer<
        bool,
        (),
    >>::complete(&mut t);
    t.observer.next(2);
    t.observer.complete();
    assert_eq!(t.observer.observer.events, vec![Next(1), Next(2), Complete]);
}

#[test]
fn switch_stale_inner_never_delivers() {
    let mut switch: SwitchOnNextObserver<EventRecorder<i32, ()>, i32> =
        SwitchOnNextObserver::new(EventRecorder::new());
    let first = switch.attach_inner();
    switch.inner_next(first, 1);
    let second = switch.attach_inner();
    switch.inner_next(first, 2);
    switch.inner_next(second, 3);
    switch.inner_complete(first);
    switch.outer_complete();
    switch.inner_complete(second);
    assert_eq!(switch.observer.events, vec![Next(1), Next(3), Complete]);
}

#[test]
fn subscription_tree_cascades_and_is_idempotent() {
    let mut tree = SubscriptionTree::new();
    let root = tree.fresh();
    let child = tree.fresh();
    let grandchild = tree.fresh();
    let sibling = tree.fresh();
    tree.add(root, child);
    tree.add(child, grandchild);
    // identity-checked insertion: a second registration is a no-op
    tree.add(root, child);
    tree.unsubscribe(child);
    assert!(!tree.is_closed(root));
    assert!(tree.is_closed(child));
    assert!(tree.is_closed(grandchild));
    assert!(!tree.is_closed(sibling));
    // closing a node twice changes nothing
    tree.unsubscribe(child);
    assert!(!tree.is_closed(root));
    assert!(tree.is_closed(grandchild));
    // registering under a closed parent closes the fresh child at once
    let late = tree.fresh();
    tree.add(child, late);
    assert!(tree.is_closed(late));
}

#[test]
fn local_subscription_is_idempotent() {
    let mut s = LocalSubscription::new();
    assert!(!s.is_closed());
    s.unsubscribe();
    assert!(s.is_closed());
    s.unsubscribe();
    assert!(s.is_closed());
}

#[test]
fn take_until_composed_with_silent_trigger() {
    let trigger = create::<_, bool, (), _, _>(
        |mut s: Subscriber<
            TakeUntilTriggerObserver<EventRecorder<i32, ()>, LocalSubscription, i32>,
            LocalSubscription,
        >| {
            <Subscriber<
                TakeUntilTriggerObserver<EventRecorder<i32, ()>, LocalSubscription, i32>,
                LocalSubscription,
            > as Observer<bool, ()>>::complete(&mut s);
            s
        },
    );
    let bound = range(0, 3)
        .take_until(trigger)
        .actual_subscribe(recorder_subscriber::<i32, ()>());
    // a trigger that completes without firing leaves the main stream whole
    assert_eq!(
        bound.observer.observer.events,
        vec![Next(0), Next(1), Next(2), Complete],
    );
}

#[test]
fn take_until_composed_with_firing_trigger() {
    let trigger = create(
        |mut s: Subscriber<
            TakeUntilTriggerObserver<EventRecorder<i32, ()>, LocalSubscription, i32>,
            LocalSubscription,
        >| {
            s.next(true);
            s
        },
    );
    let bound = TakeUntilOp { source: range(0, 3), trigger, _p: PhantomData::<bool> }
        .actual_subscribe(recorder_subscriber::<i32, ()>());
    // the trigger fired before any main value: only the completion arrives
    assert_eq!(bound.observer.observer.events, vec![Complete]);
}

#[test]
fn switch_composed_over_ranges() {
    let outer = create(
        |mut s: Subscriber<
            SwitchOnNextObserver<EventRecorder<i32, ()>, i32>,
            LocalSubscription,
        >| {
            s.next(range(0, 3));
            s.next(range(10, 13));
            s.next(range(100, 103));
            <Subscriber<
                SwitchOnNextObserver<EventRecorder<i32, ()>, i32>,
                LocalSubscription,
            > as Observer<RangeObservable, ()>>::complete(&mut s);
            s
        },
    );
    let bound = SwitchOnNextOp::<_, i32, RangeObservable>::new(outer)
        .actual_subscribe(recorder_subscriber::<i32, ()>());
    assert_eq!(
        bound.observer.observer.events,
        vec![
            Next(0),
            Next(1),
            Next(2),
            Next(10),
            Next(11),
            Next(12),
            Next(100),
            Next(101),
            Next(102),
            Complete,
        ],
    );
}

#[test]
fn take_last_composed_with_trait_method() {
    let op = Observable::<
        i32,
        (),
        TakeLastObserver<EventRecorder<i32, ()>, LocalSubscription, i32>,
        LocalSubscription,
    >::take_last(range(0, 10), 3);
    let bound = op.actual_subscribe(recorder_subscriber::<i32, ()>());
    assert_eq!(bound.observer.observer.events, vec![Next(7), Next(8), Next(9), Complete]);
}

#[test]
fn subscriber_swallows_after_terminal() {
    let mut s = recorder_subscriber::<i32, ()>();
    s.next(1);
    s.error(());
    s.next(2);
    s.complete();
    assert_eq!(s.observer.events, vec![Next(1), Error(())]);
}
