//! Lazy production definitions, and the one-way promotion from the
//! exclusive to the shared execution mode.

pub mod from_fn;
pub mod range;

use core::marker::PhantomData;
use vstd::prelude::*;
use crate::observer::Observer;
use crate::ops::take_last::TakeLastOp;
use crate::subscriber::Subscriber;
use crate::subscription::SubscriptionLike;

verus! {

/// Promotion from the exclusive, single-owner realization of a pipeline
/// value to its thread-safe counterpart. One-way: there is no conversion
/// back.
///
/// Thread scheduling itself lies outside what is verified here; what the
/// contracts pin down is that promotion keeps the production definition, so
/// the promoted form delivers the same notifications in the same order as
/// the exclusive form (mode-preserving promotion).
pub trait IntoShared: Sized {
    /// The thread-safe counterpart.
    type Shared: Send + Sync + 'static;

    /// The exact relation between a value and its promoted form.
    spec fn into_shared_ens(&self, r: &Self::Shared) -> bool;

    fn to_shared(self) -> (r: Self::Shared)
        ensures
            self.into_shared_ens(&r),
    ;
}

/// A lazy description of how to produce notifications. Composing one is
/// pure; only binding it to a subscriber (`actual_subscribe`) has effects.
///
/// Each implementation states what one binding delivers with its own
/// `sub_ens` relation over the subscriber handed in and the subscriber
/// handed back.
pub trait Observable<Item, E, O: Observer<Item, E>, U: SubscriptionLike>: Sized {
    /// The bound pipeline handed back by one binding: the subscriber,
    /// behind whatever consumers the operator put in front of it. It is
    /// itself an observer (and cancellation handle): cancelling it tears
    /// the whole bound chain down.
    type Unsub: Observer<Item, E>;

    /// The conditions under which this definition can be bound (for a
    /// caller-supplied production function: that it can be invoked, and
    /// that it hands back a well-formed subscriber).
    spec fn ready(&self) -> bool;

    /// The exact effect one binding has: how the handle handed back relates
    /// to the subscriber handed in.
    spec fn sub_ens(&self, s: Subscriber<O, U>, r: Self::Unsub) -> bool;

    /// Bind this definition to a subscriber: run the production, delivering
    /// into the subscriber, and hand back the bound pipeline with
    /// everything it observed.
    fn actual_subscribe(self, subscriber: Subscriber<O, U>) -> (r: Self::Unsub)
        requires
            subscriber.inv(),
            self.ready(),
        ensures
            r.inv(),
            self.sub_ens(subscriber, r),
    ;

    /// Emits only the last `count` values emitted by the source Observable.
    ///
    /// `take_last` returns an Observable that emits only the last `count`
    /// values emitted by the source Observable. If the source emits fewer
    /// than `count` values then all of its values are emitted. It will not
    /// emit values until the source Observable completes.
    fn take_last(self, count: usize) -> (r: TakeLastOp<Self, Item>)
        ensures
            r.source == self,
            r.count == count,
    {
        TakeLastOp { source: self, count, _p: PhantomData }
    }
}

} // verus!
