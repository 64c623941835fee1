//! Operators: observables built by wrapping another one with transform or
//! coordination state.

pub mod finalize;
pub mod switch_on_next;
pub mod take_last;
pub mod take_until;
pub mod take_while;

use vstd::prelude::*;
use crate::observable::{IntoShared, Observable};
use crate::observer::Observer;
use crate::subscriber::Subscriber;
use crate::subscription::SubscriptionLike;

verus! {

/// The shared (thread-safe) execution mode of an operator chain, produced
/// by promotion. What it delivers is exactly what the wrapped definition
/// delivers; the synchronization a shared realization adds around delivery
/// lies outside what is verified here.
#[derive(Clone, Copy)]
pub struct SharedOp<T>(pub T);

impl<Item, E, O, U, OP> Observable<Item, E, O, U> for SharedOp<OP> where
    O: Observer<Item, E>,
    U: SubscriptionLike,
    OP: Observable<Item, E, O, U>,
 {
    type Unsub = OP::Unsub;

    open spec fn ready(&self) -> bool {
        self.0.ready()
    }

    open spec fn sub_ens(&self, s: Subscriber<O, U>, r: OP::Unsub) -> bool {
        self.0.sub_ens(s, r)
    }

    fn actual_subscribe(self, subscriber: Subscriber<O, U>) -> (r: OP::Unsub) {
        self.0.actual_subscribe(subscriber)
    }
}

impl<OP> SharedOp<OP> {
    /// An independent handle to the same shared definition.
    pub fn fork(&self) -> (r: SharedOp<OP>) where OP: Copy
        ensures
            r.0 == self.0,
    {
        SharedOp(self.0)
    }
}

impl<S> IntoShared for SharedOp<S> where S: IntoShared + Send + Sync + 'static {
    type Shared = SharedOp<S::Shared>;

    open spec fn into_shared_ens(&self, r: &Self::Shared) -> bool {
        self.0.into_shared_ens(&r.0)
    }

    fn to_shared(self) -> Self::Shared {
        SharedOp(self.0.to_shared())
    }
}

/// Mode-preserving promotion: binding the promoted (shared) form of a
/// definition has exactly the effect binding the definition itself has,
/// so both produce the same ordered sequence of deliveries.
pub proof fn lemma_shared_op_preserves_behavior<Item, E, O, U, OP>(
    x: OP,
    y: SharedOp<OP>,
    s: Subscriber<O, U>,
    r: OP::Unsub,
) where O: Observer<Item, E>, U: SubscriptionLike, OP: Observable<Item, E, O, U>
    requires
        y.0 == x,
    ensures
        y.sub_ens(s, r) == x.sub_ens(s, r),
        y.ready() == x.ready(),
{
}

} // verus!
