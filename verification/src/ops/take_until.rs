//! Cancel-on-trigger: pass the main stream through until a second stream,
//! the trigger, first emits; then complete the downstream and cancel both
//! branches.

use core::marker::PhantomData;
use vstd::prelude::*;
use crate::notification::Notification;
use crate::observable::Observable;
use crate::observer::{obs_unsub, Observer};
use crate::subscriber::Subscriber;
use crate::subscription::{unsub_step, SubscriptionLike};

verus! {

/// Offers `take_until`: emit the source's values until `trigger` emits its
/// first value or error, then end the stream.
pub trait TakeUntil: Sized {
    /// Pass values through until the first delivery of `trigger`.
    fn take_until<T, TItem>(self, trigger: T) -> (r: TakeUntilOp<Self, T, TItem>)
        ensures
            r.source == self,
            r.trigger == trigger,
    {
        TakeUntilOp { source: self, trigger, _p: PhantomData }
    }
}

impl<O> TakeUntil for O {

}

/// Emits the values of `source` until `trigger` emits a first value (then
/// the downstream is completed) or a first error (then it is forwarded);
/// either ends both branches. A trigger that completes without ever firing
/// changes nothing.
#[derive(Clone, Copy)]
pub struct TakeUntilOp<S, T, TItem> {
    pub source: S,
    pub trigger: T,
    pub _p: PhantomData<TItem>,
}

/// The single downstream handle both branches share: the main branch
/// delivers through it unchanged, the trigger branch forces its completion.
/// Once it is stopped — by either branch — neither branch can deliver any
/// more, the subscription-closed check made structural.
pub struct TakeUntilObserver<O> {
    pub observer: O,
    pub stopped: bool,
}

impl<Item, E, O: Observer<Item, E>> Observer<Item, E> for TakeUntilObserver<O> {
    open spec fn inv(&self) -> bool {
        self.observer.inv()
    }

    open spec fn terminated(&self) -> bool {
        self.stopped
    }

    open spec fn step(&self, event: Notification<Item, E>, post: &Self) -> bool {
        if self.stopped {
            *post == *self
        } else {
            &&& self.observer.step(event, &post.observer)
            &&& post.stopped == event.is_terminal()
        }
    }

    open spec fn unsub_ens(&self, post: &Self) -> bool {
        if self.stopped {
            *post == *self
        } else {
            obs_unsub(self.observer, post.observer) && post.stopped
        }
    }

    fn next(&mut self, value: Item) {
        if !self.stopped {
            self.observer.next(value);
        }
    }

    fn error(&mut self, err: E) {
        if !self.stopped {
            self.stopped = true;
            self.observer.error(err);
        }
    }

    fn complete(&mut self) {
        if !self.stopped {
            self.stopped = true;
            self.observer.complete();
        }
    }

    fn unsubscribe(&mut self) {
        if !self.stopped {
            self.stopped = true;
            self.observer.unsubscribe();
        }
    }
}

/// The trigger branch's consumer. It holds the shared downstream handle in
/// order to force `complete` on it as soon as the trigger fires, and the
/// shared subscription in order to cancel everything then. The trigger's
/// own completion is ignored: a trigger that completes without firing must
/// not end the main stream.
pub struct TakeUntilTriggerObserver<O, U, Item> {
    pub observer: TakeUntilObserver<O>,
    pub subscription: U,
    /// Latched on the trigger branch's first delivery or teardown.
    pub done: bool,
    pub _p: PhantomData<Item>,
}

impl<TItem, Item, E, O, U> Observer<TItem, E> for TakeUntilTriggerObserver<O, U, Item> where
    O: Observer<Item, E>,
    U: SubscriptionLike,
 {
    open spec fn inv(&self) -> bool {
        self.observer.inv() && self.subscription.sub_inv()
    }

    open spec fn terminated(&self) -> bool {
        self.done || self.observer.stopped
    }

    open spec fn step(&self, event: Notification<TItem, E>, post: &Self) -> bool {
        if self.done || self.observer.stopped {
            *post == *self
        } else {
            post.done && match event {
                Notification::Next(v) => {
                    &&& self.observer.step(Notification::<Item, E>::Complete, &post.observer)
                    &&& unsub_step(self.subscription, post.subscription)
                },
                Notification::Error(e) => {
                    &&& self.observer.step(Notification::Error(e), &post.observer)
                    &&& unsub_step(self.subscription, post.subscription)
                },
                Notification::Complete => {
                    &&& post.observer == self.observer
                    &&& post.subscription == self.subscription
                },
            }
        }
    }

    open spec fn unsub_ens(&self, post: &Self) -> bool {
        if self.done || self.observer.stopped {
            *post == *self
        } else {
            &&& obs_unsub::<Item, E, TakeUntilObserver<O>>(self.observer, post.observer)
            &&& unsub_step(self.subscription, post.subscription)
            &&& post.done
        }
    }

    fn next(&mut self, value: TItem) {
        if !self.done && !self.observer.stopped {
            self.done = true;
            self.observer.complete();
            self.subscription.unsubscribe();
        }
    }

    fn error(&mut self, err: E) {
        if !self.done && !self.observer.stopped {
            self.done = true;
            self.observer.error(err);
            self.subscription.unsubscribe();
        }
    }

    fn complete(&mut self) {
        if !self.done && !self.observer.stopped {
            self.done = true;
        }
    }

    fn unsubscribe(&mut self) {
        if !self.done && !self.observer.stopped {
            self.done = true;
            self.observer.unsubscribe();
            self.subscription.unsubscribe();
        }
    }
}

/// How `TakeUntilOp` first binds the trigger: the downstream observer moves
/// into the shared handle, held by the trigger branch's consumer.
pub open spec fn take_until_trigger_wraps<Item, E, O: Observer<Item, E>, U: SubscriptionLike>(
    s: Subscriber<O, U>,
    w: Subscriber<TakeUntilTriggerObserver<O, U, Item>, U>,
) -> bool {
    &&& w.observer.observer.observer == s.observer
    &&& w.observer.observer.stopped == s.stopped
    &&& w.observer.subscription == s.subscription
    &&& w.observer.done == s.stopped
    &&& w.subscription == s.subscription
    &&& w.stopped == s.stopped
}

/// How `TakeUntilOp` then binds the main branch: it takes the shared handle
/// back from the trigger branch — in whatever state the trigger left it —
/// and delivers the main stream through it.
pub open spec fn take_until_main_wraps<Item, E, O: Observer<Item, E>, U: SubscriptionLike>(
    tr: Subscriber<TakeUntilTriggerObserver<O, U, Item>, U>,
    m: Subscriber<TakeUntilObserver<O>, U>,
) -> bool {
    &&& m.observer == tr.observer.observer
    &&& m.subscription == tr.subscription
    &&& m.stopped == tr.observer.observer.stopped
}

impl<Item, E, TItem, O, U, S, T> Observable<Item, E, O, U> for TakeUntilOp<S, T, TItem> where
    O: Observer<Item, E>,
    U: SubscriptionLike + Copy,
    T: Observable<
        TItem,
        E,
        TakeUntilTriggerObserver<O, U, Item>,
        U,
        Unsub = Subscriber<TakeUntilTriggerObserver<O, U, Item>, U>,
    >,
    S: Observable<Item, E, TakeUntilObserver<O>, U>,
 {
    type Unsub = S::Unsub;

    open spec fn ready(&self) -> bool {
        self.trigger.ready() && self.source.ready()
    }

    /// The downstream observer is shared: the trigger branch is bound
    /// first, then the main branch delivers through whatever the trigger
    /// left of the shared handle.
    open spec fn sub_ens(&self, s: Subscriber<O, U>, r: S::Unsub) -> bool {
        exists|
            t0: Subscriber<TakeUntilTriggerObserver<O, U, Item>, U>,
            tr: Subscriber<TakeUntilTriggerObserver<O, U, Item>, U>,
            m0: Subscriber<TakeUntilObserver<O>, U>,
        |
            {
                &&& take_until_trigger_wraps(s, t0)
                &&& #[trigger] self.trigger.sub_ens(t0, tr)
                &&& take_until_main_wraps(tr, m0)
                &&& #[trigger] self.source.sub_ens(m0, r)
            }
    }

    fn actual_subscribe(self, subscriber: Subscriber<O, U>) -> (r: S::Unsub) {
        let stopped = subscriber.stopped;
        let shared = TakeUntilObserver { observer: subscriber.observer, stopped };
        let trigger_subscriber = Subscriber {
            observer: TakeUntilTriggerObserver {
                observer: shared,
                subscription: subscriber.subscription,
                done: stopped,
                _p: PhantomData,
            },
            subscription: subscriber.subscription,
            stopped,
        };
        let ghost t0 = trigger_subscriber;
        let tr = self.trigger.actual_subscribe(trigger_subscriber);
        let main_stopped = tr.observer.observer.stopped;
        let main_subscriber = Subscriber {
            observer: tr.observer.observer,
            subscription: tr.subscription,
            stopped: main_stopped,
        };
        let ghost trg = tr;
        let ghost m0 = main_subscriber;
        let r = self.source.actual_subscribe(main_subscriber);
        proof {
            assert(take_until_trigger_wraps::<Item, E, O, U>(subscriber, t0));
            assert(take_until_main_wraps::<Item, E, O, U>(trg, m0));
        }
        r
    }
}

} // verus!
