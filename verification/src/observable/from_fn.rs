//! Producers defined by a caller-supplied production function.

use core::marker::PhantomData;
use vstd::prelude::*;
use crate::observable::{IntoShared, Observable};
use crate::observer::Observer;
use crate::ops::SharedOp;
use crate::subscriber::Subscriber;
use crate::subscription::SubscriptionLike;

verus! {

/// What a caller-supplied production function must satisfy so that binding
/// it is sound: it accepts every well-formed subscriber, and it hands a
/// well-formed subscriber back. Everything a production function does goes
/// through the subscriber's own guarded methods, so this is no more than
/// the obligation those methods already carry.
pub open spec fn production_ready<Item, E, O: Observer<Item, E>, U: SubscriptionLike, F: FnOnce(
    Subscriber<O, U>,
) -> Subscriber<O, U>>(f: F) -> bool {
    &&& forall|s: Subscriber<O, U>| s.inv() ==> #[trigger] call_requires(f, (s,))
    &&& forall|s: Subscriber<O, U>, r: Subscriber<O, U>|
        #[trigger] call_ensures(f, (s,), r) ==> r.inv()
}

/// A representation of any set of values over any amount of time, produced
/// by the function it holds: the most basic building block here.
#[derive(Clone, Copy)]
pub struct ObservableFromFn<F, Item, E>(pub F, pub PhantomData<(Item, E)>);

/// Compose a producer from `subscribe`: the function that is called when
/// the definition is bound. It is handed the subscriber, delivers into it
/// by calling `next`, `error` and `complete`, and hands it back.
pub fn create<F, Item, E, O, U>(subscribe: F) -> (r: ObservableFromFn<F, Item, E>) where
    O: Observer<Item, E>,
    U: SubscriptionLike,
    F: FnOnce(Subscriber<O, U>) -> Subscriber<O, U>,

    ensures
        r.0 == subscribe,
{
    ObservableFromFn(subscribe, PhantomData)
}

impl<F, Item, E> ObservableFromFn<F, Item, E> {
    /// An independent, replayable handle to the same production definition,
    /// with fully isolated subscription state.
    pub fn fork(&self) -> (r: ForkObservable<F, Item, E>) where F: Copy
        ensures
            r.0 == self.0,
    {
        ForkObservable(self.0, PhantomData)
    }
}

impl<F, Item, E, O, U> Observable<Item, E, O, U> for ObservableFromFn<F, Item, E> where
    O: Observer<Item, E>,
    U: SubscriptionLike,
    F: FnOnce(Subscriber<O, U>) -> Subscriber<O, U>,
 {
    type Unsub = Subscriber<O, U>;

    open spec fn ready(&self) -> bool {
        production_ready(self.0)
    }

    open spec fn sub_ens(&self, s: Subscriber<O, U>, r: Subscriber<O, U>) -> bool {
        call_ensures(self.0, (s,), r)
    }

    fn actual_subscribe(self, subscriber: Subscriber<O, U>) -> (r: Subscriber<O, U>) {
        (self.0)(subscriber)
    }
}

impl<F, Item, E> IntoShared for ObservableFromFn<F, Item, E> where
    F: Send + Sync + 'static,
    Item: Send + Sync + 'static,
    E: Send + Sync + 'static,
 {
    type Shared = SharedOp<ObservableFromFn<F, Item, E>>;

    open spec fn into_shared_ens(&self, r: &Self::Shared) -> bool {
        r.0.0 == self.0
    }

    fn to_shared(self) -> Self::Shared {
        SharedOp(self)
    }
}

/// An independent handle to a production definition, made by `fork`. Each
/// binding runs the definition with its own state; forking again just
/// copies the handle.
#[derive(Clone, Copy)]
pub struct ForkObservable<F, Item, E>(pub F, pub PhantomData<(Item, E)>);

impl<F, Item, E> ForkObservable<F, Item, E> {
    pub fn fork(&self) -> (r: ForkObservable<F, Item, E>) where F: Copy
        ensures
            r.0 == self.0,
    {
        ForkObservable(self.0, PhantomData)
    }
}

impl<F, Item, E, O, U> Observable<Item, E, O, U> for ForkObservable<F, Item, E> where
    O: Observer<Item, E>,
    U: SubscriptionLike,
    F: FnOnce(Subscriber<O, U>) -> Subscriber<O, U>,
 {
    type Unsub = Subscriber<O, U>;

    open spec fn ready(&self) -> bool {
        production_ready(self.0)
    }

    open spec fn sub_ens(&self, s: Subscriber<O, U>, r: Subscriber<O, U>) -> bool {
        call_ensures(self.0, (s,), r)
    }

    fn actual_subscribe(self, subscriber: Subscriber<O, U>) -> (r: Subscriber<O, U>) {
        (self.0)(subscriber)
    }
}

impl<F, Item, E> IntoShared for ForkObservable<F, Item, E> where
    F: Send + Sync + 'static,
    Item: Send + Sync + 'static,
    E: Send + Sync + 'static,
 {
    type Shared = SharedForkObservable<F, Item, E>;

    open spec fn into_shared_ens(&self, r: &Self::Shared) -> bool {
        r.0 == self.0
    }

    fn to_shared(self) -> Self::Shared {
        SharedForkObservable(self.0, PhantomData)
    }
}

/// The thread-safe counterpart of a forked handle. Forking after promotion
/// yields shared forks; promoting it again is the identity.
#[derive(Clone, Copy)]
pub struct SharedForkObservable<F, Item, E>(pub F, pub PhantomData<(Item, E)>);

impl<F, Item, E> SharedForkObservable<F, Item, E> {
    pub fn fork(&self) -> (r: SharedForkObservable<F, Item, E>) where F: Copy
        ensures
            r.0 == self.0,
    {
        SharedForkObservable(self.0, PhantomData)
    }
}

impl<F, Item, E, O, U> Observable<Item, E, O, U> for SharedForkObservable<F, Item, E> where
    O: Observer<Item, E>,
    U: SubscriptionLike,
    F: FnOnce(Subscriber<O, U>) -> Subscriber<O, U>,
 {
    type Unsub = Subscriber<O, U>;

    open spec fn ready(&self) -> bool {
        production_ready(self.0)
    }

    open spec fn sub_ens(&self, s: Subscriber<O, U>, r: Subscriber<O, U>) -> bool {
        call_ensures(self.0, (s,), r)
    }

    fn actual_subscribe(self, subscriber: Subscriber<O, U>) -> (r: Subscriber<O, U>) {
        (self.0)(subscriber)
    }
}

impl<F, Item, E> IntoShared for SharedForkObservable<F, Item, E> where
    F: Send + Sync + 'static,
    Item: Send + Sync + 'static,
    E: Send + Sync + 'static,
 {
    type Shared = SharedForkObservable<F, Item, E>;

    open spec fn into_shared_ens(&self, r: &Self::Shared) -> bool {
        r.0 == self.0
    }

    fn to_shared(self) -> Self::Shared {
        self
    }
}

/// Mode-preserving promotion, for a forked handle: binding the promoted
/// (shared) form of a definition has exactly the effect binding its
/// exclusive form has, so both produce the same ordered sequence of
/// deliveries.
pub proof fn lemma_promotion_preserves_behavior<F, Item, E, O, U>(
    x: ForkObservable<F, Item, E>,
    y: SharedForkObservable<F, Item, E>,
    s: Subscriber<O, U>,
    r: Subscriber<O, U>,
) where
    O: Observer<Item, E>,
    U: SubscriptionLike,
    F: FnOnce(Subscriber<O, U>) -> Subscriber<O, U>,
    F: Send + Sync + 'static,
    Item: Send + Sync + 'static,
    E: Send + Sync + 'static,

    requires
        x.into_shared_ens(&y),
    ensures
        y.sub_ens(s, r) == x.sub_ens(s, r),
        y.ready() == x.ready(),
{
}

} // verus!
