//! A convenience subscribe entry point taking a value callback and an
//! error callback.

use vstd::prelude::*;
use crate::notification::Notification;
use crate::observable::{IntoShared, Observable};
use crate::observer::Observer;
use crate::subscriber::Subscriber;
use crate::subscription::{LocalSubscription, SubscriptionLike};

verus! {

/// An observer built from two caller-supplied callbacks: one per value, one
/// for the terminal error. Completion invokes nothing.
pub struct SubscribeErr<N, E> {
    pub next: N,
    pub error: E,
    /// The structural terminal-once guard.
    pub stopped: bool,
}

impl<Item, Ev, N, E> Observer<Item, Ev> for SubscribeErr<N, E> where
    N: Fn(&Item),
    E: Fn(&Ev),
 {
    open spec fn inv(&self) -> bool {
        &&& forall|v: Item| #[trigger] call_requires(self.next, (&v,))
        &&& forall|e: Ev| #[trigger] call_requires(self.error, (&e,))
    }

    open spec fn terminated(&self) -> bool {
        self.stopped
    }

    open spec fn step(&self, event: Notification<Item, Ev>, post: &Self) -> bool {
        if self.stopped {
            *post == *self
        } else {
            post.next == self.next && post.error == self.error && match event {
                Notification::Next(v) => call_ensures(self.next, (&v,), ()) && !post.stopped,
                Notification::Error(e) => call_ensures(self.error, (&e,), ()) && post.stopped,
                Notification::Complete => post.stopped,
            }
        }
    }

    open spec fn unsub_ens(&self, post: &Self) -> bool {
        post.next == self.next && post.error == self.error && post.stopped
    }

    fn next(&mut self, value: Item) {
        if !self.stopped {
            (self.next)(&value);
        }
    }

    fn error(&mut self, err: Ev) {
        if !self.stopped {
            self.stopped = true;
            (self.error)(&err);
        }
    }

    fn complete(&mut self) {
        if !self.stopped {
            self.stopped = true;
        }
    }

    fn unsubscribe(&mut self) {
        self.stopped = true;
    }
}

impl<N, E> IntoShared for SubscribeErr<N, E> where Self: Send + Sync + 'static {
    type Shared = SubscribeErr<N, E>;

    open spec fn into_shared_ens(&self, r: &Self::Shared) -> bool {
        *r == *self
    }

    fn to_shared(self) -> Self::Shared {
        self
    }
}

/// How `subscribe_err` builds its subscriber: the two callbacks, an open
/// guard, a fresh subscription.
pub open spec fn subscribe_err_starts<N, E>(
    next: N,
    error: E,
    s0: Subscriber<SubscribeErr<N, E>, LocalSubscription>,
) -> bool {
    &&& s0.observer.next == next
    &&& s0.observer.error == error
    &&& !s0.observer.stopped
    &&& !s0.subscription.stopped
    &&& !s0.stopped
}

/// Offers `subscribe_err`: invoke an execution of an observable and
/// register handlers for the values and for a terminal error.
pub trait SubscribableErr<Item, Ev, N, E>: Sized {
    /// The bound pipeline handed back.
    type Unsub;

    /// What must hold of the definition and the handlers before binding.
    spec fn sub_err_req(&self, next: N, error: E) -> bool;

    /// The exact effect of the binding.
    spec fn sub_err_ens(&self, next: N, error: E, r: Self::Unsub) -> bool;

    /// Invokes an execution of an Observable and registers Observer
    /// handlers for the notifications it will emit.
    ///
    /// * `error`: a handler for a terminal event resulting from an error.
    fn subscribe_err(self, next: N, error: E) -> (r: Self::Unsub)
        requires
            self.sub_err_req(next, error),
        ensures
            self.sub_err_ens(next, error, r),
    ;
}

impl<Item, Ev, N, E, S> SubscribableErr<Item, Ev, N, E> for S where
    N: Fn(&Item),
    E: Fn(&Ev),
    S: Observable<Item, Ev, SubscribeErr<N, E>, LocalSubscription>,
 {
    type Unsub = S::Unsub;

    open spec fn sub_err_req(&self, next: N, error: E) -> bool {
        &&& self.ready()
        &&& forall|v: Item| #[trigger] call_requires(next, (&v,))
        &&& forall|e: Ev| #[trigger] call_requires(error, (&e,))
    }

    open spec fn sub_err_ens(&self, next: N, error: E, r: S::Unsub) -> bool {
        exists|s0: Subscriber<SubscribeErr<N, E>, LocalSubscription>|
            subscribe_err_starts(next, error, s0) && #[trigger] self.sub_ens(s0, r)
    }

    fn subscribe_err(self, next: N, error: E) -> (r: S::Unsub) {
        let s0 = Subscriber::new(
            SubscribeErr { next, error, stopped: false },
            LocalSubscription::new(),
        );
        let ghost s0g = s0;
        let r = self.actual_subscribe(s0);
        proof {
            assert(subscribe_err_starts(next, error, s0g));
        }
        r
    }
}

} // verus!
