use std::cell::Cell;
use std::rc::Rc;

use rxrust::notification::Notification;
use rxrust::observable::from_fn::create;
use rxrust::observable::IntoShared;
use rxrust::observable::Observable;
use rxrust::observer::{EventRecorder, Observer};
use rxrust::subscribable_err::SubscribableErr;
use rxrust::subscriber::Subscriber;
use rxrust::subscription::LocalSubscription;

fn recorder_subscriber<Item, E>() -> Subscriber<EventRecorder<Item, E>, LocalSubscription> {
    Subscriber::new(EventRecorder::new(), LocalSubscription::new())
}

fn sum_into(cell: Rc<Cell<i32>>) -> impl Fn(&i32) {
    move |v: &i32| cell.set(cell.get() + *v)
}

fn ignore_unit_err(_: &()) {}

#[test]
fn sandbox() {
    let o = create(|mut subscriber: Subscriber<EventRecorder<i32, ()>, LocalSubscription>| {
        subscriber.next(1);
        subscriber.next(2);
        subscriber.complete();
        subscriber
    });
    let bound = o.actual_subscribe(recorder_subscriber());
    for event in bound.observer.events.iter() {
        if let Notification::Next(i) = event {
            println!("{}", i);
        }
    }
}

#[test]
fn proxy_call() {
    let o = create(
        |mut subscriber: Subscriber<EventRecorder<i32, &'static str>, LocalSubscription>| {
            subscriber.next(1);
            subscriber.next(2);
            subscriber.next(3);
            subscriber.complete();
            subscriber.next(3);
            subscriber.error("never dispatch error");
            subscriber
        },
    );
    let bound = o.to_shared().actual_subscribe(recorder_subscriber());
    let mut next = 0;
    let mut err = 0;
    let mut complete = 0;
    for event in bound.observer.events.iter() {
        match event {
            Notification::Next(_) => next += 1,
            Notification::Error(_) => err += 1,
            Notification::Complete => complete += 1,
        }
    }
    assert_eq!(next, 3);
    assert_eq!(complete, 1);
    assert_eq!(err, 0);
}

#[test]
fn support_fork() {
    let o = create(|mut subscriber| {
        subscriber.next(1);
        subscriber.next(2);
        subscriber.next(3);
        subscriber.next(4);
        subscriber
    });
    let sum1 = Rc::new(Cell::new(0));
    let sum2 = Rc::new(Cell::new(0));
    o.fork().subscribe_err(sum_into(sum1.clone()), ignore_unit_err);
    o.fork().subscribe_err(sum_into(sum2.clone()), ignore_unit_err);

    assert_eq!(sum1.get(), 10);
    assert_eq!(sum2.get(), 10);
}

fn ignore_unit(_: &()) {}

#[test]
fn fork_and_share() {
    let observable = create(|mut subscriber| {
        subscriber.complete();
        subscriber
    });
    // shared after fork
    observable
        .fork()
        .to_shared()
        .subscribe_err(ignore_unit, ignore_unit_err);
    observable
        .fork()
        .to_shared()
        .subscribe_err(ignore_unit, ignore_unit_err);

    // shared before fork
    let observable = create(|mut subscriber| {
        subscriber.complete();
        subscriber
    })
    .to_shared();
    observable.fork().subscribe_err(ignore_unit, ignore_unit_err);
    observable.fork().subscribe_err(ignore_unit, ignore_unit_err);
}
