use std::cell::Cell;
use std::rc::Rc;

use rxrust::notification::Notification;
use rxrust::observable::range::range;
use rxrust::observable::{IntoShared, Observable};
use rxrust::observer::EventRecorder;
use rxrust::ops::take_while::TakeWhileOp;
use rxrust::subscribable_err::SubscribableErr;
use rxrust::subscriber::Subscriber;
use rxrust::subscription::LocalSubscription;

fn below_five(v: &i32) -> bool {
    v < &5
}

fn count_into(cell: Rc<Cell<i32>>) -> impl Fn(&i32) {
    move |_: &i32| cell.set(cell.get() + 1)
}

fn ignore_unit_err(_: &()) {}

#[test]
fn take_while_base_function() {
    let mut completed = false;
    let mut next_count = 0;

    let bound = TakeWhileOp { source: range(0, 100), callback: below_five }.actual_subscribe(
        Subscriber::new(EventRecorder::<i32, ()>::new(), LocalSubscription::new()),
    );
    for event in bound.observer.observer.events.iter() {
        match event {
            Notification::Next(_) => next_count += 1,
            Notification::Complete => completed = true,
            Notification::Error(_) => {},
        }
    }

    assert_eq!(next_count, 5);
    assert_eq!(completed, true);
}

#[test]
fn take_while_support_fork() {
    let nc1 = Rc::new(Cell::new(0));
    let nc2 = Rc::new(Cell::new(0));
    {
        let take_while5 = TakeWhileOp { source: range(0, 100), callback: below_five };
        let f1 = take_while5.fork();
        let f2 = take_while5;

        TakeWhileOp { source: f1, callback: below_five }
            .subscribe_err(count_into(nc1.clone()), ignore_unit_err);
        TakeWhileOp { source: f2, callback: below_five }
            .subscribe_err(count_into(nc2.clone()), ignore_unit_err);
    }
    assert_eq!(nc1.get(), 5);
    assert_eq!(nc2.get(), 5);
}

fn ignore_i32(_: &i32) {}

#[test]
fn take_while_into_shared() {
    let inner = TakeWhileOp { source: range(0, 100), callback: below_five };
    TakeWhileOp { source: inner, callback: below_five }
        .to_shared()
        .subscribe_err(ignore_i32, ignore_unit_err);
}
