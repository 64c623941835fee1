use rxrust::notification::Notification;
use rxrust::observable::range::{range, RangeObservable};
use rxrust::observer::{EventRecorder, Observer};
use rxrust::ops::switch_on_next::SwitchOnNextObserver;
use rxrust::subscriber::Subscriber;
use rxrust::subscription::LocalSubscription;

use Notification::{Complete, Next};

fn switch_subject<InnerItem>(
) -> Subscriber<SwitchOnNextObserver<EventRecorder<InnerItem, ()>, InnerItem>, LocalSubscription> {
    Subscriber::new(SwitchOnNextObserver::new(EventRecorder::new()), LocalSubscription::new())
}

#[test]
fn switch_on_next_base_function() {
    // Given
    let mut s = switch_subject::<i32>();
    // When, Then: ranges built as i..(i + 3) for outer values 0, 10, 100
    s.next(range(0, 0 + 3));
    assert_eq!(s.observer.observer.pop(), vec![Next(0), Next(1), Next(2)]);
    s.next(range(10, 10 + 3));
    assert_eq!(s.observer.observer.pop(), vec![Next(10), Next(11), Next(12)]);
    s.next(range(100, 100 + 3));
    assert_eq!(s.observer.observer.pop(), vec![Next(100), Next(101), Next(102)]);
    <Subscriber<
        SwitchOnNextObserver<EventRecorder<i32, ()>, i32>,
        LocalSubscription,
    > as Observer<RangeObservable, ()>>::complete(&mut s);
    assert_eq!(s.observer.observer.pop(), vec![Complete]);
}

#[test]
fn completion_details() {
    // Given
    let mut s = switch_subject::<i32>();
    // When, Then
    s.next(range(0, 0 + 3));
    assert_eq!(s.observer.observer.pop(), vec![Next(0), Next(1), Next(2)]);
    s.next(range(10, 10 + 3));
    assert_eq!(s.observer.observer.pop(), vec![Next(10), Next(11), Next(12)]);
    s.next(range(100, 100 + 3));
    assert_eq!(s.observer.observer.pop(), vec![Next(100), Next(101), Next(102)]);
    <Subscriber<
        SwitchOnNextObserver<EventRecorder<i32, ()>, i32>,
        LocalSubscription,
    > as Observer<RangeObservable, ()>>::complete(&mut s);
    assert_eq!(s.observer.observer.pop(), vec![Complete]);
}

#[test]
fn completion_details_old() {
    let mut switch: SwitchOnNextObserver<EventRecorder<&'static str, ()>, &'static str> =
        SwitchOnNextObserver::new(EventRecorder::new());
    // a
    let subject_a = switch.attach_inner();
    switch.inner_next(subject_a, "a1");
    switch.inner_next(subject_a, "a2");
    // b
    let subject_b = switch.attach_inner();
    switch.inner_next(subject_a, "a3");
    switch.inner_complete(subject_a);
    switch.inner_next(subject_b, "b1");
    switch.inner_next(subject_b, "b2");
    switch.inner_complete(subject_b);
    // c1 arrives before any switch to c: it reaches no one
    // c
    let subject_c = switch.attach_inner();
    switch.inner_next(subject_c, "c2");
    switch.outer_complete();
    switch.inner_next(subject_c, "c3");
    switch.inner_complete(subject_c);
    for event in switch.observer.events.iter() {
        match event {
            Notification::Next(i) => println!("{}", i),
            Notification::Complete => println!("complete"),
            Notification::Error(_) => {},
        }
    }
    assert_eq!(
        switch.observer.events,
        vec![Next("a1"), Next("a2"), Next("b1"), Next("b2"), Next("c2"), Next("c3"), Complete],
    );
}

#[test]
fn unsubscribe_details() {
    let mut switch: SwitchOnNextObserver<EventRecorder<&'static str, ()>, &'static str> =
        SwitchOnNextObserver::new(EventRecorder::new());
    // a
    let subject_a = switch.attach_inner();
    switch.inner_next(subject_a, "a1");
    switch.inner_next(subject_a, "a2");
    // b
    let subject_b = switch.attach_inner();
    switch.inner_next(subject_a, "a3");
    switch.inner_complete(subject_a);
    switch.inner_next(subject_b, "b1");
    switch.outer_unsubscribe();
    switch.inner_next(subject_b, "b2");
    switch.inner_complete(subject_b);
    // c
    let subject_c = switch.attach_inner();
    switch.inner_next(subject_c, "c2");
    switch.outer_complete();
    switch.inner_next(subject_c, "c3");
    switch.inner_complete(subject_c);
    for event in switch.observer.events.iter() {
        match event {
            Notification::Next(i) => println!("{}", i),
            Notification::Complete => println!("complete"),
            Notification::Error(_) => {},
        }
    }
    // nothing after the unsubscribe is observed, and no completion either
    assert_eq!(switch.observer.events, vec![Next("a1"), Next("a2"), Next("b1")]);
}
