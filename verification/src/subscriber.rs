//! The bound pair a producer delivers into: one observer plus one
//! cancellation handle.

use vstd::prelude::*;
use crate::notification::Notification;
use crate::observer::{obs_unsub, Observer};
use crate::subscription::{unsub_step, SubscriptionLike};

verus! {

/// An observer bound to a subscription, created fresh for each subscribe
/// call. The producer pushes into it; the `stopped` flag is the structural
/// terminal-once guard: after a terminal event has been forwarded, or after
/// the subscriber was cancelled, every further delivery is swallowed here
/// and never reaches the observer.
pub struct Subscriber<O, U> {
    pub observer: O,
    pub subscription: U,
    pub stopped: bool,
}

impl<O, U> Subscriber<O, U> {
    pub fn new(observer: O, subscription: U) -> (r: Subscriber<O, U>)
        ensures
            r.observer == observer,
            r.subscription == subscription,
            !r.stopped,
    {
        Subscriber { observer, subscription, stopped: false }
    }

    /// Whether this subscriber still forwards deliveries.
    pub fn is_stopped(&self) -> (r: bool)
        ensures
            r == self.stopped,
    {
        self.stopped
    }
}

impl<Item, E, O: Observer<Item, E>, U: SubscriptionLike> Observer<Item, E> for Subscriber<O, U> {
    open spec fn inv(&self) -> bool {
        self.observer.inv() && self.subscription.sub_inv()
    }

    open spec fn terminated(&self) -> bool {
        self.stopped
    }

    /// Deliveries pass through unchanged while the guard is open. The first
    /// terminal event is forwarded, closes the guard and cancels the bound
    /// subscription; everything after that is swallowed.
    open spec fn step(&self, event: Notification<Item, E>, post: &Self) -> bool {
        if self.stopped {
            *post == *self
        } else if event.is_terminal() {
            &&& self.observer.step(event, &post.observer)
            &&& post.stopped
            &&& unsub_step(self.subscription, post.subscription)
        } else {
            &&& self.observer.step(event, &post.observer)
            &&& !post.stopped
            &&& post.subscription == self.subscription
        }
    }

    open spec fn unsub_ens(&self, post: &Self) -> bool {
        if self.stopped {
            *post == *self
        } else {
            &&& obs_unsub(self.observer, post.observer)
            &&& post.stopped
            &&& unsub_step(self.subscription, post.subscription)
        }
    }

    fn next(&mut self, value: Item) {
        if !self.stopped {
            self.observer.next(value);
        }
    }

    fn error(&mut self, err: E) {
        if !self.stopped {
            self.stopped = true;
            self.observer.error(err);
            self.subscription.unsubscribe();
        }
    }

    fn complete(&mut self) {
        if !self.stopped {
            self.stopped = true;
            self.observer.complete();
            self.subscription.unsubscribe();
        }
    }

    fn unsubscribe(&mut self) {
        if !self.stopped {
            self.stopped = true;
            self.observer.unsubscribe();
            self.subscription.unsubscribe();
        }
    }
}

} // verus!
