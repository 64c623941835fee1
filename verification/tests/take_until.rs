use core::marker::PhantomData;

use rxrust::notification::Notification;
use rxrust::observer::{EventRecorder, Observer};
use rxrust::ops::take_until::{TakeUntilObserver, TakeUntilTriggerObserver};
use rxrust::subscription::LocalSubscription;

#[test]
fn take_until_base_function() {
    // main and trigger share one downstream handle
    let mut trigger: TakeUntilTriggerObserver<EventRecorder<f64, ()>, LocalSubscription, f64> =
        TakeUntilTriggerObserver {
            observer: TakeUntilObserver { observer: EventRecorder::new(), stopped: false },
            subscription: LocalSubscription::new(),
            done: false,
            _p: PhantomData,
        };
    trigger.observer.next(5.0);
    trigger.next(true);
    trigger.observer.next(6.0);
    for event in trigger.observer.observer.events.iter() {
        match event {
            Notification::Next(i) => println!("Got {:?}", i),
            Notification::Error(_) => println!("Error"),
            Notification::Complete => println!("Complete"),
        }
    }
    // 5.0 passes through, the trigger forces completion, 6.0 is never seen
    assert_eq!(
        trigger.observer.observer.events,
        vec![Notification::Next(5.0), Notification::Complete],
    );
}
