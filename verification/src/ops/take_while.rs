//! Pass values through while a predicate holds; complete the downstream on
//! the first value that fails it.

use vstd::prelude::*;
use crate::notification::Notification;
use crate::observable::{IntoShared, Observable};
use crate::ops::SharedOp;
use crate::observer::{obs_unsub, Observer};
use crate::subscriber::Subscriber;
use crate::subscription::{unsub_step, SubscriptionLike};

verus! {

/// Emits values emitted by the source so long as each value satisfies the
/// predicate; on the first value that does not, it completes the downstream
/// observer and cancels the subscription.
#[derive(Clone, Copy)]
pub struct TakeWhileOp<S, F> {
    pub source: S,
    pub callback: F,
}

impl<S, F> TakeWhileOp<S, F> {
    /// An independent handle to the same definition.
    pub fn fork(&self) -> (r: TakeWhileOp<S, F>) where S: Copy, F: Copy
        ensures
            r.source == self.source,
            r.callback == self.callback,
    {
        TakeWhileOp { source: self.source, callback: self.callback }
    }
}

impl<S, F> IntoShared for TakeWhileOp<S, F> where
    S: IntoShared,
    F: Send + Sync + 'static,
 {
    type Shared = SharedOp<TakeWhileOp<S::Shared, F>>;

    open spec fn into_shared_ens(&self, r: &Self::Shared) -> bool {
        self.source.into_shared_ens(&r.0.source) && r.0.callback == self.callback
    }

    fn to_shared(self) -> Self::Shared {
        SharedOp(TakeWhileOp { source: self.source.to_shared(), callback: self.callback })
    }
}

/// The proxy consumer `TakeWhileOp` binds between source and downstream: a
/// predicate-based cutoff. A value that satisfies the predicate passes
/// through; the first that does not makes the proxy complete the inner
/// observer, cancel the subscription and swallow everything after.
pub struct TakeWhileObserver<O, U, F> {
    pub observer: O,
    pub subscription: U,
    pub callback: F,
    /// The structural terminal-once guard, set by the cutoff as well.
    pub stopped: bool,
}

impl<Item, E, O, U, F> Observer<Item, E> for TakeWhileObserver<O, U, F> where
    O: Observer<Item, E>,
    U: SubscriptionLike,
    F: Fn(&Item) -> bool,
 {
    open spec fn inv(&self) -> bool {
        &&& self.observer.inv()
        &&& self.subscription.sub_inv()
        &&& forall|v: Item| #[trigger] call_requires(self.callback, (&v,))
    }

    open spec fn terminated(&self) -> bool {
        self.stopped
    }

    open spec fn step(&self, event: Notification<Item, E>, post: &Self) -> bool {
        if self.stopped {
            *post == *self
        } else {
            post.callback == self.callback && match event {
                Notification::Next(v) => {
                    ||| {
                        &&& call_ensures(self.callback, (&v,), true)
                        &&& self.observer.step(Notification::Next(v), &post.observer)
                        &&& post.subscription == self.subscription
                        &&& !post.stopped
                    }
                    ||| {
                        &&& call_ensures(self.callback, (&v,), false)
                        &&& self.observer.step(Notification::Complete, &post.observer)
                        &&& unsub_step(self.subscription, post.subscription)
                        &&& post.stopped
                    }
                },
                Notification::Error(e) => {
                    &&& self.observer.step(Notification::Error(e), &post.observer)
                    &&& post.subscription == self.subscription
                    &&& post.stopped
                },
                Notification::Complete => {
                    &&& self.observer.step(Notification::Complete, &post.observer)
                    &&& post.subscription == self.subscription
                    &&& post.stopped
                },
            }
        }
    }

    open spec fn unsub_ens(&self, post: &Self) -> bool {
        if self.stopped {
            *post == *self
        } else {
            &&& obs_unsub(self.observer, post.observer)
            &&& unsub_step(self.subscription, post.subscription)
            &&& post.callback == self.callback
            &&& post.stopped
        }
    }

    fn next(&mut self, value: Item) {
        if !self.stopped {
            let cond = (self.callback)(&value);
            if cond {
                self.observer.next(value);
            } else {
                self.stopped = true;
                self.observer.complete();
                self.subscription.unsubscribe();
            }
            proof {
                assert(call_ensures(old(self).callback, (&value,), cond));
            }
        }
    }

    fn error(&mut self, err: E) {
        if !self.stopped {
            self.stopped = true;
            self.observer.error(err);
        }
    }

    fn complete(&mut self) {
        if !self.stopped {
            self.stopped = true;
            self.observer.complete();
        }
    }

    fn unsubscribe(&mut self) {
        if !self.stopped {
            self.stopped = true;
            self.observer.unsubscribe();
            self.subscription.unsubscribe();
        }
    }
}

/// How `TakeWhileOp` wraps an incoming subscriber: the downstream observer
/// moves behind the predicate proxy, bound to the same subscription.
pub open spec fn take_while_wraps<Item, E, O: Observer<Item, E>, U: SubscriptionLike, F: Fn(
    &Item,
) -> bool>(s: Subscriber<O, U>, callback: F, w: Subscriber<TakeWhileObserver<O, U, F>, U>) -> bool {
    &&& w.observer.observer == s.observer
    &&& w.observer.subscription == s.subscription
    &&& w.observer.callback == callback
    &&& w.observer.stopped == s.stopped
    &&& w.subscription == s.subscription
    &&& w.stopped == s.stopped
}

impl<Item, E, O, U, S, F> Observable<Item, E, O, U> for TakeWhileOp<S, F> where
    O: Observer<Item, E>,
    U: SubscriptionLike + Copy,
    F: Fn(&Item) -> bool,
    S: Observable<Item, E, TakeWhileObserver<O, U, F>, U>,
 {
    type Unsub = S::Unsub;

    open spec fn ready(&self) -> bool {
        &&& self.source.ready()
        &&& forall|v: Item| #[trigger] call_requires(self.callback, (&v,))
    }

    open spec fn sub_ens(&self, s: Subscriber<O, U>, r: S::Unsub) -> bool {
        exists|w0: Subscriber<TakeWhileObserver<O, U, F>, U>|
            take_while_wraps(s, self.callback, w0) && #[trigger] self.source.sub_ens(w0, r)
    }

    fn actual_subscribe(self, subscriber: Subscriber<O, U>) -> (r: S::Unsub) {
        let stopped = subscriber.stopped;
        let wrapped = Subscriber {
            observer: TakeWhileObserver {
                observer: subscriber.observer,
                subscription: subscriber.subscription,
                callback: self.callback,
                stopped,
            },
            subscription: subscriber.subscription,
            stopped,
        };
        let ghost w0 = wrapped;
        let r = self.source.actual_subscribe(wrapped);
        proof {
            assert(take_while_wraps::<Item, E, O, U, F>(subscriber, self.callback, w0));
        }
        r
    }
}

} // verus!
