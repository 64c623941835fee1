//! A push-based event composition core.
//!
//! Independent producers push timed sequences of values into composed
//! consumers. The pieces are:
//!
//! - [`notification::Notification`]: one delivered event (`Next`, `Error`,
//!   or `Complete`).
//! - [`observer::Observer`]: a terminal-once notification sink. After an
//!   `Error` or `Complete` has been absorbed, nothing is delivered any more;
//!   every implementation guards this by construction.
//! - `Subscription`s: cancellation handles, composable into a tree.
//! - `Observable`s: lazy production definitions; binding one to a
//!   `Subscriber` starts delivery.
//!
//! Delivery is synchronous: a producer's call runs the whole consumer chain
//! on its own stack. Consumer chains are owned values threaded through the
//! calls, so cancellation state lives in each node rather than behind shared
//! references; multicast coordination (switch-to-latest, cancel-on-trigger)
//! keeps the single downstream consumer inside one coordinating node that
//! every branch reaches through its own entry point.

pub mod laws;
pub mod notification;
pub mod observable;
pub mod observer;
pub mod ops;
pub mod subscribable_err;
pub mod subscriber;
pub mod subscription;

use vstd::prelude::*;

verus! {

/// Relies on `core::marker::PhantomData::clone`: a `PhantomData<T>` is a
/// zero-sized marker with a single value, so its clone is that same value.
/// (Needed so the derived `Clone` impls of the marker-carrying definition
/// types verify.)
pub assume_specification<
    T: core::marker::PointeeSized,
>[ <core::marker::PhantomData<T> as core::clone::Clone>::clone ](
    v: &core::marker::PhantomData<T>,
) -> (r: core::marker::PhantomData<T>)
    ensures
        r == *v,
;

} // verus!
