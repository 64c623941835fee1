//! The bounded trailing buffer: emit only the last `count` values of the
//! source, after the source has completed.

use core::marker::PhantomData;
use vstd::prelude::*;
use crate::notification::{nexts_of, Notification};
use crate::observable::{IntoShared, Observable};
use crate::ops::SharedOp;
use crate::observer::{lemma_obs_steps_push, obs_steps, obs_unsub, Observer};
use crate::subscriber::Subscriber;
use crate::subscription::{unsub_step, SubscriptionLike};

verus! {

/// The last `n` elements of `s` (all of them when there are fewer).
pub open spec fn last_n<T>(s: Seq<T>, n: nat) -> Seq<T> {
    if s.len() <= n {
        s
    } else {
        s.skip(s.len() - n)
    }
}

/// Emits only the last `count` values emitted by the source. If the source
/// emits fewer than `count` values then all of its values are emitted.
/// Nothing is emitted until the source completes.
#[derive(Clone, Copy)]
pub struct TakeLastOp<S, Item> {
    pub source: S,
    pub count: usize,
    pub _p: PhantomData<Item>,
}

impl<S, Item> TakeLastOp<S, Item> {
    /// An independent handle to the same definition: same source definition,
    /// same bound, fresh buffer state on every binding.
    pub fn fork(&self) -> (r: TakeLastOp<S, Item>) where S: Copy
        ensures
            r.source == self.source,
            r.count == self.count,
    {
        TakeLastOp { source: self.source, count: self.count, _p: PhantomData }
    }
}

impl<S, Item> IntoShared for TakeLastOp<S, Item> where
    S: IntoShared,
    Item: Send + Sync + 'static,
 {
    type Shared = SharedOp<TakeLastOp<S::Shared, Item>>;

    open spec fn into_shared_ens(&self, r: &Self::Shared) -> bool {
        self.source.into_shared_ens(&r.0.source) && r.0.count == self.count
    }

    fn to_shared(self) -> Self::Shared {
        SharedOp(TakeLastOp { source: self.source.to_shared(), count: self.count, _p: PhantomData })
    }
}

/// The buffering consumer `TakeLastOp` binds between the source and the
/// downstream observer: a bounded queue of the last `count` values seen.
/// On `next` it pushes and evicts from the front down to the bound; on
/// source completion it drains the queue, oldest first, into the downstream
/// observer and completes it; on error it forwards at once and the buffered
/// values are discarded, never flushed.
pub struct TakeLastObserver<O, U, Item> {
    pub observer: O,
    pub subscription: U,
    pub count: usize,
    pub queue: Vec<Item>,
    /// The structural terminal-once guard.
    pub stopped: bool,
}

impl<Item, E, O: Observer<Item, E>, U: SubscriptionLike> Observer<Item, E> for TakeLastObserver<
    O,
    U,
    Item,
> {
    open spec fn inv(&self) -> bool {
        &&& self.observer.inv()
        &&& self.subscription.sub_inv()
        &&& self.queue@.len() <= self.count
    }

    open spec fn terminated(&self) -> bool {
        self.stopped
    }

    open spec fn step(&self, event: Notification<Item, E>, post: &Self) -> bool {
        if self.stopped {
            *post == *self
        } else {
            match event {
                Notification::Next(v) => {
                    &&& post.observer == self.observer
                    &&& post.queue@ == last_n(self.queue@.push(v), self.count as nat)
                    &&& post.count == self.count
                    &&& post.subscription == self.subscription
                    &&& !post.stopped
                },
                Notification::Error(e) => {
                    &&& self.observer.step(Notification::Error(e), &post.observer)
                    &&& post.queue@ == self.queue@
                    &&& post.count == self.count
                    &&& post.subscription == self.subscription
                    &&& post.stopped
                },
                Notification::Complete => {
                    &&& obs_steps(
                        self.observer,
                        nexts_of::<Item, E>(self.queue@).push(Notification::Complete),
                        post.observer,
                    )
                    &&& post.queue@.len() == 0
                    &&& post.count == self.count
                    &&& post.subscription == self.subscription
                    &&& post.stopped
                },
            }
        }
    }

    open spec fn unsub_ens(&self, post: &Self) -> bool {
        if self.stopped {
            *post == *self
        } else {
            &&& obs_unsub(self.observer, post.observer)
            &&& unsub_step(self.subscription, post.subscription)
            &&& post.queue@ == self.queue@
            &&& post.count == self.count
            &&& post.stopped
        }
    }

    fn next(&mut self, value: Item) {
        if !self.stopped {
            self.queue.push(value);
            if self.queue.len() > self.count {
                self.queue.remove(0);
                proof {
                    assert(self.queue@ =~= last_n(
                        old(self).queue@.push(value),
                        self.count as nat,
                    ));
                }
            }
        }
    }

    fn error(&mut self, err: E) {
        if !self.stopped {
            self.stopped = true;
            self.observer.error(err);
        }
    }

    #[verifier::loop_isolation(false)]
    fn complete(&mut self) {
        if !self.stopped {
            self.stopped = true;
            let ghost obs0 = self.observer;
            let mut q: Vec<Item> = Vec::new();
            core::mem::swap(&mut q, &mut self.queue);
            let ghost vals = q@;
            while q.len() > 0
                invariant
                    self.observer.inv(),
                    self.stopped,
                    self.queue@.len() == 0,
                    self.count == old(self).count,
                    self.subscription == old(self).subscription,
                    q@.len() <= vals.len(),
                    q@ == vals.skip(vals.len() - q@.len()),
                    obs_steps(
                        obs0,
                        nexts_of::<Item, E>(vals.take(vals.len() - q@.len())),
                        self.observer,
                    ),
                decreases q@.len(),
            {
                let ghost m = vals.len() - q@.len();
                let ghost fed = vals.take(m as int);
                let ghost q0 = q@;
                let ghost pre = self.observer;
                let v = q.remove(0);
                self.observer.next(v);
                proof {
                    assert(0 <= m < vals.len());
                    assert(q0 == vals.skip(m as int));
                    assert(q0[0] == vals.skip(m as int)[0]);
                    assert(vals.skip(m as int)[0] == vals[m as int]);
                    assert(v == q0[0]);
                    lemma_obs_steps_push(
                        obs0,
                        nexts_of::<Item, E>(fed),
                        pre,
                        Notification::Next(v),
                        self.observer,
                    );
                    assert(fed.push(v) =~= vals.take(m + 1));
                    assert(nexts_of::<Item, E>(fed).push(Notification::Next(v)) =~= nexts_of::<
                        Item,
                        E,
                    >(vals.take(m + 1)));
                    assert(q@ == q0.remove(0));
                    assert(q@ =~= vals.skip(m + 1));
                    assert(vals.len() - q@.len() == m + 1);
                }
            }
            let ghost pre = self.observer;
            self.observer.complete();
            proof {
                assert(vals.take(vals.len() as int) =~= vals);
                lemma_obs_steps_push(
                    obs0,
                    nexts_of::<Item, E>(vals),
                    pre,
                    Notification::Complete,
                    self.observer,
                );
            }
        }
    }

    fn unsubscribe(&mut self) {
        if !self.stopped {
            self.stopped = true;
            self.observer.unsubscribe();
            self.subscription.unsubscribe();
        }
    }
}

impl<O, U, Item> IntoShared for TakeLastObserver<O, U, Item> where
    O: IntoShared,
    U: IntoShared,
    Item: Send + Sync + 'static,
 {
    type Shared = TakeLastObserver<O::Shared, U::Shared, Item>;

    open spec fn into_shared_ens(&self, r: &Self::Shared) -> bool {
        &&& self.observer.into_shared_ens(&r.observer)
        &&& self.subscription.into_shared_ens(&r.subscription)
        &&& r.count == self.count
        &&& r.queue@ == Seq::<Item>::empty()
        &&& r.stopped == self.stopped
    }

    fn to_shared(self) -> Self::Shared {
        TakeLastObserver {
            observer: self.observer.to_shared(),
            subscription: self.subscription.to_shared(),
            count: self.count,
            queue: Vec::new(),
            stopped: self.stopped,
        }
    }
}

/// How `TakeLastOp` wraps an incoming subscriber before handing it to its
/// source: the downstream observer moves behind a fresh, empty bounded
/// buffer bound to the same subscription.
pub open spec fn take_last_wraps<Item, E, O: Observer<Item, E>, U: SubscriptionLike>(
    s: Subscriber<O, U>,
    count: usize,
    w: Subscriber<TakeLastObserver<O, U, Item>, U>,
) -> bool {
    &&& w.observer.observer == s.observer
    &&& w.observer.subscription == s.subscription
    &&& w.observer.count == count
    &&& w.observer.queue@ == Seq::<Item>::empty()
    &&& w.observer.stopped == s.stopped
    &&& w.subscription == s.subscription
    &&& w.stopped == s.stopped
}

impl<Item, E, O, U, S> Observable<Item, E, O, U> for TakeLastOp<S, Item> where
    O: Observer<Item, E>,
    U: SubscriptionLike + Copy,
    S: Observable<Item, E, TakeLastObserver<O, U, Item>, U>,
 {
    type Unsub = S::Unsub;

    open spec fn ready(&self) -> bool {
        self.source.ready()
    }

    /// Binding wraps the subscriber's observer in a fresh bounded buffer and
    /// binds the source to that.
    open spec fn sub_ens(&self, s: Subscriber<O, U>, r: S::Unsub) -> bool {
        exists|w0: Subscriber<TakeLastObserver<O, U, Item>, U>|
            take_last_wraps(s, self.count, w0) && #[trigger] self.source.sub_ens(w0, r)
    }

    fn actual_subscribe(self, subscriber: Subscriber<O, U>) -> (r: S::Unsub) {
        let stopped = subscriber.stopped;
        let wrapped = Subscriber {
            observer: TakeLastObserver {
                observer: subscriber.observer,
                subscription: subscriber.subscription,
                count: self.count,
                queue: Vec::new(),
                stopped,
            },
            subscription: subscriber.subscription,
            stopped,
        };
        let ghost w0 = wrapped;
        let r = self.source.actual_subscribe(wrapped);
        proof {
            assert(take_last_wraps::<Item, E, O, U>(subscriber, self.count, w0));
        }
        r
    }
}

} // verus!
