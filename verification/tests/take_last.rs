use core::marker::PhantomData;
use std::cell::Cell;
use std::rc::Rc;

use rxrust::notification::Notification;
use rxrust::observable::range::range;
use rxrust::observable::{IntoShared, Observable};
use rxrust::observer::EventRecorder;
use rxrust::ops::take_last::TakeLastOp;
use rxrust::subscribable_err::SubscribableErr;
use rxrust::subscriber::Subscriber;
use rxrust::subscription::LocalSubscription;

fn count_into(cell: Rc<Cell<i32>>) -> impl Fn(&i32) {
    move |_: &i32| cell.set(cell.get() + 1)
}

fn ignore_unit_err(_: &()) {}

#[test]
fn take_last_base_function() {
    let mut completed = false;
    let mut ticks: Vec<i32> = vec![];

    let bound = TakeLastOp { source: range(0, 100), count: 5, _p: PhantomData }
        .actual_subscribe(Subscriber::new(
            EventRecorder::<i32, ()>::new(),
            LocalSubscription::new(),
        ));
    for event in bound.observer.observer.events.iter() {
        match event {
            Notification::Next(v) => ticks.push(*v),
            Notification::Complete => completed = true,
            Notification::Error(_) => {},
        }
    }

    assert_eq!(ticks, vec![95, 96, 97, 98, 99]);
    assert_eq!(completed, true);
}

#[test]
fn take_last_support_fork() {
    let nc1 = Rc::new(Cell::new(0));
    let nc2 = Rc::new(Cell::new(0));
    {
        let take_last5 = TakeLastOp { source: range(0, 100), count: 5, _p: PhantomData };
        let f1 = take_last5.fork();
        let f2 = take_last5.fork();

        TakeLastOp { source: f1, count: 5, _p: PhantomData }
            .fork()
            .subscribe_err(count_into(nc1.clone()), ignore_unit_err);
        TakeLastOp { source: f2, count: 5, _p: PhantomData }
            .fork()
            .subscribe_err(count_into(nc2.clone()), ignore_unit_err);
    }
    assert_eq!(nc1.get(), 5);
    assert_eq!(nc2.get(), 5);
}

fn ignore_i32(_: &i32) {}

#[test]
fn take_last_into_shared() {
    let inner = TakeLastOp { source: range(0, 100), count: 5, _p: PhantomData };
    TakeLastOp { source: inner, count: 5, _p: PhantomData }
        .to_shared()
        .subscribe_err(ignore_i32, ignore_unit_err);
}
