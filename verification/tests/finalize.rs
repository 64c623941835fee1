use std::cell::Cell;
use std::rc::Rc;

use rxrust::observable::from_fn::create;
use rxrust::observable::Observable;
use rxrust::observer::Observer;
use rxrust::ops::finalize::{FinalizeObserver, FinalizeOp, Finalizer};
use rxrust::subscribable_err::{SubscribableErr, SubscribeErr};
use rxrust::subscriber::Subscriber;
use rxrust::subscription::{LocalSubscription, SubscriptionLike};

fn set_flag(cell: Rc<Cell<bool>>) -> impl Fn(&i32) {
    move |_: &i32| cell.set(true)
}

fn set_err_flag(cell: Rc<Cell<bool>>) -> impl Fn(&&'static str) {
    move |_: &&'static str| cell.set(true)
}

fn ignore_unit_err(_: &()) {}

#[test]
fn finalize_on_complete_simple() {
    // Given
    let finalized = Rc::new(Cell::new(false));
    let nexted = Rc::new(Cell::new(false));
    let o = create(|mut subscriber| {
        subscriber.next(1);
        subscriber.complete();
        subscriber
    });
    // When
    let finalized_clone = finalized.clone();
    FinalizeOp { source: o, func: move || finalized_clone.set(true) }
        .subscribe_err(set_flag(nexted.clone()), ignore_unit_err);
    // Then
    assert!(finalized.get());
    assert!(nexted.get());
}

fn finalize_subject<N, E, F>(
    next: N,
    error: E,
    func: F,
) -> Subscriber<FinalizeObserver<SubscribeErr<N, E>, F>, LocalSubscription> {
    Subscriber::new(
        FinalizeObserver {
            observer: SubscribeErr { next, error, stopped: false },
            func: Some(func),
            stopped: false,
        },
        LocalSubscription::new(),
    )
}

#[test]
fn finalize_on_complete_subject() {
    // Given
    let finalized = Rc::new(Cell::new(false));
    let nexted = Rc::new(Cell::new(false));
    // When
    let finalized_clone = finalized.clone();
    let mut s = finalize_subject(set_flag(nexted.clone()), ignore_unit_err, move || {
        finalized_clone.set(true)
    });
    s.next(1);
    s.next(2);
    s.complete();
    // Then
    assert!(finalized.get());
    assert!(nexted.get());
}

#[test]
fn finalize_on_unsubscribe() {
    // Given
    let finalized = Rc::new(Cell::new(false));
    let nexted = Rc::new(Cell::new(false));
    // When
    let finalized_clone = finalized.clone();
    let mut subscription = finalize_subject(set_flag(nexted.clone()), ignore_unit_err, move || {
        finalized_clone.set(true)
    });
    subscription.next(1);
    subscription.next(2);
    subscription.unsubscribe();
    // Then
    assert!(finalized.get());
    assert!(nexted.get());
}

#[test]
fn finalize_on_error() {
    // Given
    let finalized = Rc::new(Cell::new(false));
    let nexted = Rc::new(Cell::new(false));
    let errored = Rc::new(Cell::new(false));
    // When
    let finalized_clone = finalized.clone();
    let mut s = finalize_subject(
        set_flag(nexted.clone()),
        set_err_flag(errored.clone()),
        move || finalized_clone.set(true),
    );
    s.next(1);
    s.next(2);
    s.error("oops");
    // Then
    assert!(finalized.get());
    assert!(errored.get());
    assert!(nexted.get());
}

#[test]
fn finalizer_handle_fires_exactly_once() {
    let count = Rc::new(Cell::new(0));
    let count_clone = count.clone();
    let mut handle = Finalizer {
        s: LocalSubscription::new(),
        f: Some(move || count_clone.set(count_clone.get() + 1)),
    };
    assert!(!handle.is_closed());
    handle.unsubscribe();
    handle.unsubscribe();
    assert!(handle.is_closed());
    assert_eq!(count.get(), 1);
}

fn count_next(_: &i32) {}

fn count_err(_: &&'static str) {}

#[test]
fn finalize_only_once() {
    // Given
    let finalize_count = Rc::new(Cell::new(0));
    // When
    let finalized_clone = finalize_count.clone();
    let mut subscription = finalize_subject(count_next, count_err, move || {
        finalized_clone.set(finalized_clone.get() + 1)
    });
    subscription.next(1);
    subscription.next(2);
    subscription.error("oops");
    subscription.complete();
    subscription.unsubscribe();
    // Then
    assert_eq!(finalize_count.get(), 1);
}
