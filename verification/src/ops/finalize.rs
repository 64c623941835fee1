//! Attach a cleanup action that runs exactly once, on whichever exit path
//! comes first: completion, error, or external unsubscribe.

use vstd::prelude::*;
use crate::notification::Notification;
use crate::observable::Observable;
use crate::observer::{obs_unsub, Observer};
use crate::subscriber::Subscriber;
use crate::subscription::{LocalSubscription, SubscriptionLike};

verus! {

/// Whether the cleanup action held in `func` has been invoked (it is
/// consumed by the call, so a fired action leaves `None` behind).
pub open spec fn cleanup_fired<F: FnOnce()>(func: Option<F>) -> bool {
    match func {
        Option::Some(f) => call_ensures(f, (), ()),
        Option::None => false,
    }
}

/// Runs a cleanup action when the source completes, errors, or the
/// subscriber is unsubscribed, whichever happens first — and never a second
/// time.
#[derive(Clone, Copy)]
pub struct FinalizeOp<S, F> {
    pub source: S,
    pub func: F,
}

impl<S, F> FinalizeOp<S, F> {
    /// An independent handle to the same definition.
    pub fn fork(&self) -> (r: FinalizeOp<S, F>) where S: Copy, F: Copy
        ensures
            r.source == self.source,
            r.func == self.func,
    {
        FinalizeOp { source: self.source, func: self.func }
    }
}

/// The consumer `FinalizeOp` binds in front of the downstream observer. It
/// owns the cleanup action; delivering a terminal event or cancelling fires
/// the action exactly once, by consuming it.
pub struct FinalizeObserver<O, F> {
    pub observer: O,
    pub func: Option<F>,
    /// The structural terminal-once guard.
    pub stopped: bool,
}

impl<Item, E, O, F> Observer<Item, E> for FinalizeObserver<O, F> where
    O: Observer<Item, E>,
    F: FnOnce(),
 {
    open spec fn inv(&self) -> bool {
        &&& self.observer.inv()
        &&& (!self.stopped ==> self.func is Some)
        &&& (match self.func {
            Option::Some(f) => call_requires(f, ()),
            Option::None => true,
        })
    }

    open spec fn terminated(&self) -> bool {
        self.stopped
    }

    open spec fn step(&self, event: Notification<Item, E>, post: &Self) -> bool {
        if self.stopped {
            *post == *self
        } else {
            match event {
                Notification::Next(v) => {
                    &&& self.observer.step(Notification::Next(v), &post.observer)
                    &&& post.func == self.func
                    &&& !post.stopped
                },
                _ => {
                    &&& self.observer.step(event, &post.observer)
                    &&& post.func is None
                    &&& cleanup_fired(self.func)
                    &&& post.stopped
                },
            }
        }
    }

    open spec fn unsub_ens(&self, post: &Self) -> bool {
        if self.stopped {
            *post == *self
        } else {
            &&& obs_unsub(self.observer, post.observer)
            &&& post.func is None
            &&& cleanup_fired(self.func)
            &&& post.stopped
        }
    }

    fn next(&mut self, value: Item) {
        if !self.stopped {
            self.observer.next(value);
        }
    }

    fn error(&mut self, err: E) {
        if !self.stopped {
            self.stopped = true;
            self.observer.error(err);
            let mut fired: Option<F> = None;
            core::mem::swap(&mut fired, &mut self.func);
            match fired {
                Some(f) => f(),
                None => {},
            }
        }
    }

    fn complete(&mut self) {
        if !self.stopped {
            self.stopped = true;
            self.observer.complete();
            let mut fired: Option<F> = None;
            core::mem::swap(&mut fired, &mut self.func);
            match fired {
                Some(f) => f(),
                None => {},
            }
        }
    }

    fn unsubscribe(&mut self) {
        if !self.stopped {
            self.stopped = true;
            self.observer.unsubscribe();
            let mut fired: Option<F> = None;
            core::mem::swap(&mut fired, &mut self.func);
            match fired {
                Some(f) => f(),
                None => {},
            }
        }
    }
}

/// How `FinalizeOp` wraps an incoming subscriber: the downstream observer
/// moves behind the cleanup holder.
pub open spec fn finalize_wraps<Item, E, O: Observer<Item, E>, U: SubscriptionLike, F: FnOnce()>(
    s: Subscriber<O, U>,
    func: F,
    w: Subscriber<FinalizeObserver<O, F>, U>,
) -> bool {
    &&& w.observer.observer == s.observer
    &&& w.observer.func == Some(func)
    &&& w.observer.stopped == s.stopped
    &&& w.subscription == s.subscription
    &&& w.stopped == s.stopped
}

impl<Item, E, O, U, S, F> Observable<Item, E, O, U> for FinalizeOp<S, F> where
    O: Observer<Item, E>,
    U: SubscriptionLike + Copy,
    F: FnOnce(),
    S: Observable<Item, E, FinalizeObserver<O, F>, U>,
 {
    type Unsub = S::Unsub;

    open spec fn ready(&self) -> bool {
        &&& self.source.ready()
        &&& call_requires(self.func, ())
    }

    open spec fn sub_ens(&self, s: Subscriber<O, U>, r: S::Unsub) -> bool {
        exists|w0: Subscriber<FinalizeObserver<O, F>, U>|
            finalize_wraps(s, self.func, w0) && #[trigger] self.source.sub_ens(w0, r)
    }

    fn actual_subscribe(self, subscriber: Subscriber<O, U>) -> (r: S::Unsub) {
        let stopped = subscriber.stopped;
        let wrapped = Subscriber {
            observer: FinalizeObserver {
                observer: subscriber.observer,
                func: Some(self.func),
                stopped,
            },
            subscription: subscriber.subscription,
            stopped,
        };
        let ghost w0 = wrapped;
        let r = self.source.actual_subscribe(wrapped);
        proof {
            assert(finalize_wraps::<Item, E, O, U, F>(subscriber, self.func, w0));
        }
        r
    }
}

/// A cancellation handle carrying a cleanup action: cancelling it the first
/// time fires the action, by consuming it; any later call finds the handle
/// closed and does nothing.
pub struct Finalizer<F> {
    pub s: LocalSubscription,
    pub f: Option<F>,
}

impl<F: FnOnce()> SubscriptionLike for Finalizer<F> {
    open spec fn sub_inv(&self) -> bool {
        &&& (!self.s.stopped ==> self.f is Some)
        &&& (match self.f {
            Option::Some(f) => call_requires(f, ()),
            Option::None => true,
        })
    }

    open spec fn closed(&self) -> bool {
        self.s.stopped
    }

    open spec fn unsub_ens(&self, post: &Self) -> bool {
        self.closed() || (post.f is None && cleanup_fired(self.f))
    }

    fn unsubscribe(&mut self) {
        if !self.s.stopped {
            self.s.unsubscribe();
            let mut fired: Option<F> = None;
            core::mem::swap(&mut fired, &mut self.f);
            match fired {
                Some(f) => f(),
                None => {},
            }
        }
    }

    fn is_closed(&self) -> (r: bool) {
        self.s.is_closed()
    }
}

} // verus!
