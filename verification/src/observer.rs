//! The consumer side: terminal-once notification sinks.

use vstd::prelude::*;
use crate::notification::{Notification, ends_terminated, lemma_terminal_once_push, terminal_once};
use crate::observable::IntoShared;

verus! {

/// A notification sink with the capability set `{next, error, complete}`.
///
/// Every implementation is terminal-once *by construction*: once the sink is
/// `terminated` (it has absorbed an `Error` or a `Complete`, or its
/// subscription was cancelled), any further call leaves it untouched. That
/// guarantee is part of this trait's contract, not caller discipline.
///
/// Each implementation describes its exact reaction to one event with its
/// own `step` relation, so code that is generic over an observer still
/// learns precisely what one delivery did once the implementing type is
/// known.
pub trait Observer<Item, E>: Sized {
    /// The implementation's internal well-formedness.
    spec fn inv(&self) -> bool;

    /// Whether this sink has absorbed a terminal event or was cancelled;
    /// nothing reaches it any more.
    spec fn terminated(&self) -> bool;

    /// The exact state transition one delivered event causes.
    spec fn step(&self, event: Notification<Item, E>, post: &Self) -> bool;

    /// Deliver one value.
    fn next(&mut self, value: Item)
        requires
            old(self).inv(),
        ensures
            final(self).inv(),
            old(self).step(Notification::Next(value), final(self)),
            old(self).terminated() ==> *final(self) == *old(self) && final(self).terminated(),
    ;

    /// Deliver the terminal error event.
    fn error(&mut self, err: E)
        requires
            old(self).inv(),
        ensures
            final(self).inv(),
            old(self).step(Notification::Error(err), final(self)),
            old(self).terminated() ==> *final(self) == *old(self),
            final(self).terminated(),
    ;

    /// Deliver the terminal completion event.
    fn complete(&mut self)
        requires
            old(self).inv(),
        ensures
            final(self).inv(),
            old(self).step(Notification::Complete, final(self)),
            old(self).terminated() ==> *final(self) == *old(self),
            final(self).terminated(),
    ;

    /// The exact teardown effect of the first cancellation (cleanup actions
    /// fired, inner sinks cascaded into).
    spec fn unsub_ens(&self, post: &Self) -> bool;

    /// Cancel this sink without delivering an event: it stops observing, and
    /// any cleanup attached along the chain runs now if it has not run yet.
    /// Each implementation's `unsub_ens` makes this idempotent: a repeated
    /// cancellation changes nothing.
    fn unsubscribe(&mut self)
        requires
            old(self).inv(),
        ensures
            final(self).inv(),
            final(self).terminated(),
            old(self).unsub_ens(final(self)),
    ;
}

/// One cancellation of an observer, as the trait contract describes it.
pub open spec fn obs_unsub<Item, E, O: Observer<Item, E>>(pre: O, post: O) -> bool {
    &&& post.inv()
    &&& post.terminated()
    &&& pre.unsub_ens(&post)
}

/// One delivery to an observer, as the trait contract describes it: the
/// implementation's own `step` relation, the terminal-once guard, and
/// preservation of the invariant.
pub open spec fn obs_step<Item, E, O: Observer<Item, E>>(
    pre: O,
    event: Notification<Item, E>,
    post: O,
) -> bool {
    &&& pre.step(event, &post)
    &&& post.inv()
    &&& (pre.terminated() ==> post == pre && post.terminated())
    &&& (event.is_terminal() ==> post.terminated())
}

/// A whole sequence of deliveries, one `obs_step` per event.
pub open spec fn obs_steps<Item, E, O: Observer<Item, E>>(
    pre: O,
    events: Seq<Notification<Item, E>>,
    post: O,
) -> bool
    decreases events.len(),
{
    if events.len() == 0 {
        post == pre
    } else {
        exists|mid: O|
            #[trigger] obs_step(pre, events.first(), mid) && obs_steps(
                mid,
                events.drop_first(),
                post,
            )
    }
}

/// A delivery appended after a sequence of deliveries extends the sequence.
pub proof fn lemma_obs_steps_push<Item, E, O: Observer<Item, E>>(
    pre: O,
    events: Seq<Notification<Item, E>>,
    mid: O,
    e: Notification<Item, E>,
    post: O,
)
    requires
        obs_steps(pre, events, mid),
        obs_step(mid, e, post),
    ensures
        obs_steps(pre, events.push(e), post),
    decreases events.len(),
{
    let evs = events.push(e);
    assert(evs.len() > 0);
    if events.len() == 0 {
        assert(evs.first() == e);
        assert(evs.drop_first() =~= Seq::<Notification<Item, E>>::empty());
        assert(mid == pre);
        assert(obs_step(pre, evs.first(), post) && obs_steps(post, evs.drop_first(), post));
    } else {
        let m1 = choose|m1: O|
            #[trigger] obs_step(pre, events.first(), m1) && obs_steps(
                m1,
                events.drop_first(),
                mid,
            );
        lemma_obs_steps_push(m1, events.drop_first(), mid, e, post);
        assert(evs.first() == events.first());
        assert(evs.drop_first() =~= events.drop_first().push(e));
        assert(obs_step(pre, evs.first(), m1) && obs_steps(m1, evs.drop_first(), post));
    }
}

/// Terminal-once, stated for every observer: after the sink has absorbed a
/// terminal event, no delivery whatsoever — in particular no `next` — changes
/// it in any way.
pub proof fn lemma_terminal_once_observer<Item, E, O: Observer<Item, E>>(
    pre: O,
    events: Seq<Notification<Item, E>>,
    post: O,
)
    requires
        obs_steps(pre, events, post),
        pre.terminated(),
    ensures
        post == pre,
    decreases events.len(),
{
    if events.len() > 0 {
        let mid = choose|mid: O|
            #[trigger] obs_step(pre, events.first(), mid) && obs_steps(
                mid,
                events.drop_first(),
                post,
            );
        assert(mid == pre && mid.terminated());
        lemma_terminal_once_observer(mid, events.drop_first(), post);
    }
}

/// A sink that records every event it observes, in order, and guards
/// terminal-once with its `done` flag.
pub struct EventRecorder<Item, E> {
    /// Everything delivered so far, oldest first.
    pub events: Vec<Notification<Item, E>>,
    /// Set when a terminal event arrived or the recorder was cancelled.
    pub done: bool,
}

impl<Item, E> EventRecorder<Item, E> {
    /// What this recorder has observed.
    pub open spec fn log(&self) -> Seq<Notification<Item, E>> {
        self.events@
    }

    pub fn new() -> (r: EventRecorder<Item, E>)
        ensures
            r.inv(),
            r.log() == Seq::<Notification<Item, E>>::empty(),
            !r.done,
    {
        EventRecorder { events: Vec::new(), done: false }
    }

    /// Hand out the recorded events and reset the record (the terminal
    /// guard stays as it is).
    pub fn pop(&mut self) -> (r: Vec<Notification<Item, E>>)
        requires
            old(self).inv(),
        ensures
            final(self).inv(),
            r@ == old(self).log(),
            final(self).log() == Seq::<Notification<Item, E>>::empty(),
            final(self).done == old(self).done,
    {
        let mut taken: Vec<Notification<Item, E>> = Vec::new();
        core::mem::swap(&mut taken, &mut self.events);
        proof {
            assert(self.log() =~= Seq::<Notification<Item, E>>::empty());
        }
        taken
    }
}

impl<Item, E> IntoShared for EventRecorder<Item, E> where
    Item: Send + Sync + 'static,
    E: Send + Sync + 'static,
 {
    type Shared = EventRecorder<Item, E>;

    open spec fn into_shared_ens(&self, r: &Self::Shared) -> bool {
        *r == *self
    }

    fn to_shared(self) -> Self::Shared {
        self
    }
}

impl<Item, E> Observer<Item, E> for EventRecorder<Item, E> {
    /// A terminal event can only stand last in the record, and only with the
    /// guard set.
    open spec fn inv(&self) -> bool {
        &&& terminal_once(self.log())
        &&& (ends_terminated(self.log()) ==> self.done)
    }

    open spec fn terminated(&self) -> bool {
        self.done
    }

    open spec fn step(&self, event: Notification<Item, E>, post: &Self) -> bool {
        if self.done {
            *post == *self
        } else {
            post.log() == self.log().push(event) && post.done == event.is_terminal()
        }
    }

    open spec fn unsub_ens(&self, post: &Self) -> bool {
        post.log() == self.log() && post.done
    }

    fn next(&mut self, value: Item) {
        if !self.done {
            proof {
                lemma_terminal_once_push(self.log(), Notification::Next(value));
            }
            self.events.push(Notification::Next(value));
        }
    }

    fn error(&mut self, err: E) {
        if !self.done {
            proof {
                lemma_terminal_once_push(self.log(), Notification::Error(err));
            }
            self.events.push(Notification::Error(err));
            self.done = true;
        }
    }

    fn complete(&mut self) {
        if !self.done {
            proof {
                lemma_terminal_once_push(self.log(), Notification::Complete);
            }
            self.events.push(Notification::Complete);
            self.done = true;
        }
    }

    fn unsubscribe(&mut self) {
        self.done = true;
    }
}

} // verus!
