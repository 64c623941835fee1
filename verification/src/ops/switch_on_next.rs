//! Switch-to-latest-inner: the source emits inner observables; each new
//! inner replaces the one before it, and only the latest inner's values
//! reach the single shared downstream consumer.

use core::marker::PhantomData;
use vstd::prelude::*;
use crate::notification::Notification;
use crate::observable::Observable;
use crate::observer::{lemma_obs_steps_push, obs_step, obs_steps, obs_unsub, EventRecorder, Observer};
use crate::subscriber::Subscriber;
use crate::subscription::{in_subtree, node_wf, LocalSubscription, SubscriptionTree, SubscriptionLike};

verus! {

/// Flattens a source of inner observables by always switching to the most
/// recently emitted inner one. The downstream completes exactly once, after
/// both the source and the then-active inner have completed; a source error
/// is forwarded at once.
#[derive(Clone, Copy)]
pub struct SwitchOnNextOp<S, InnerItem, InnerObs> {
    pub source: S,
    pub p: PhantomData<(InnerItem, InnerObs)>,
}

impl<S, InnerItem, InnerObs> SwitchOnNextOp<S, InnerItem, InnerObs> {
    /// Compose: flatten `source`, a producer of inner observables, to the
    /// latest inner's values.
    pub fn new(source: S) -> (r: SwitchOnNextOp<S, InnerItem, InnerObs>)
        ensures
            r.source == source,
    {
        SwitchOnNextOp { source, p: PhantomData }
    }

    /// An independent handle to the same definition.
    pub fn fork(&self) -> (r: SwitchOnNextOp<S, InnerItem, InnerObs>) where S: Copy
        ensures
            r.source == self.source,
    {
        SwitchOnNextOp { source: self.source, p: PhantomData }
    }
}

/// The coordinator that owns the single downstream consumer for all inner
/// branches over time.
///
/// Inner branches are indexed by generations: nodes of a cancellation tree,
/// registered under the root (node 0, the outer subscription). Exactly the
/// generation in `current` may deliver; emitting a new inner closes the old
/// generation's node *before* the new one is registered, so a superseded
/// inner finds its node closed and can never reach the consumer again.
/// Cancelling the root tears every generation down with it.
pub struct SwitchOnNextObserver<O, InnerItem> {
    /// The shared downstream consumer.
    pub observer: O,
    /// Whether one of the two sides — source, or the active inner — has
    /// already completed; the second one to complete fires the downstream
    /// completion.
    pub one_is_complete: bool,
    /// Whether the source side has seen its terminal event.
    pub outer_done: bool,
    /// Whether the downstream is closed: terminal delivered or cancelled.
    pub stopped: bool,
    /// The cancellation tree: node 0 is the outer subscription, every inner
    /// generation is a child of it.
    pub tree: SubscriptionTree,
    /// The active generation; 0 (the root itself) when no inner is active.
    pub current: usize,
    pub _p: PhantomData<InnerItem>,
}

/// Well-formedness of the coordinator.
pub open spec fn switch_wf<InnerItem, E, O: Observer<InnerItem, E>>(
    s: SwitchOnNextObserver<O, InnerItem>,
) -> bool {
    &&& s.observer.inv()
    &&& s.tree.wf()
    &&& s.tree.len() >= 1
    &&& s.current < s.tree.len()
    &&& (s.stopped <==> s.tree.node_closed(0))
}

/// Whether generation `gen` is the one whose deliveries reach the consumer.
pub open spec fn inner_active<InnerItem, O>(
    s: SwitchOnNextObserver<O, InnerItem>,
    gen: int,
) -> bool {
    &&& !s.stopped
    &&& gen == s.current
    &&& gen != 0
    &&& 0 <= gen < s.tree.len()
    &&& !s.tree.node_closed(gen)
}

/// The exact effect of replacing the active inner branch: the old
/// generation's subtree is closed first, then a fresh open generation is
/// registered under the root and becomes current, and the completion flag
/// is reset for the new pair of sides. Nothing reaches the consumer.
pub open spec fn switch_attach_rel<InnerItem, E, O: Observer<InnerItem, E>>(
    pre: SwitchOnNextObserver<O, InnerItem>,
    post: SwitchOnNextObserver<O, InnerItem>,
    gen: int,
) -> bool {
    &&& post.observer == pre.observer
    &&& !post.one_is_complete
    &&& post.outer_done == pre.outer_done
    &&& post.stopped == pre.stopped
    &&& gen == pre.tree.len()
    &&& post.tree.len() == pre.tree.len() + 1
    &&& post.current == gen
    &&& (post.tree.node_closed(gen) <==> pre.stopped)
    &&& forall|j: int|
        0 <= j < pre.tree.len() ==> (post.tree.node_closed(j) <==> (pre.tree.node_closed(j)
            || in_subtree(pre.tree.nodes@, pre.current as int, j) && pre.current != 0))
}

/// The exact effect of one value delivered by generation `gen`: it reaches
/// the consumer exactly when `gen` is the active generation, and the
/// coordination state does not move.
pub open spec fn switch_next_rel<InnerItem, E, O: Observer<InnerItem, E>>(
    pre: SwitchOnNextObserver<O, InnerItem>,
    gen: int,
    v: InnerItem,
    post: SwitchOnNextObserver<O, InnerItem>,
) -> bool {
    if inner_active(pre, gen) {
        &&& pre.observer.step(Notification::Next(v), &post.observer)
        &&& post == (SwitchOnNextObserver { observer: post.observer, ..pre })
    } else {
        post == pre
    }
}

/// The exact effect of an error on generation `gen`: forwarded at once,
/// everything torn down.
pub open spec fn switch_inner_error_rel<InnerItem, E, O: Observer<InnerItem, E>>(
    pre: SwitchOnNextObserver<O, InnerItem>,
    gen: int,
    e: E,
    post: SwitchOnNextObserver<O, InnerItem>,
) -> bool {
    if inner_active(pre, gen) {
        &&& pre.observer.step(Notification::Error(e), &post.observer)
        &&& post.stopped
        &&& post.current == 0
        &&& post.one_is_complete == pre.one_is_complete
        &&& post.outer_done == pre.outer_done
        &&& post.tree.len() == pre.tree.len()
        &&& forall|j: int|
            0 <= j < pre.tree.len() && pre.tree.node_closed(j) ==> post.tree.node_closed(j)
    } else {
        post == pre
    }
}

/// The exact effect of cancelling the inner branch `gen` alone: its subtree
/// closes, no inner is active any more, and nothing reaches the consumer.
pub open spec fn switch_inner_unsub_rel<InnerItem, E, O: Observer<InnerItem, E>>(
    pre: SwitchOnNextObserver<O, InnerItem>,
    gen: int,
    post: SwitchOnNextObserver<O, InnerItem>,
) -> bool {
    if inner_active(pre, gen) {
        &&& post.observer == pre.observer
        &&& post.one_is_complete == pre.one_is_complete
        &&& post.outer_done == pre.outer_done
        &&& post.stopped == pre.stopped
        &&& post.current == 0
        &&& post.tree.len() == pre.tree.len()
        &&& forall|j: int|
            0 <= j < pre.tree.len() ==> (post.tree.node_closed(j) <==> (pre.tree.node_closed(j)
                || in_subtree(pre.tree.nodes@, gen, j)))
    } else {
        post == pre
    }
}

/// The exact effect of generation `gen` completing: its node closes and no
/// inner is active any more; if the source had already completed, this was
/// the second side, and the downstream completion fires now — otherwise
/// only the flag is set.
pub open spec fn switch_inner_complete_rel<InnerItem, E, O: Observer<InnerItem, E>>(
    pre: SwitchOnNextObserver<O, InnerItem>,
    gen: int,
    post: SwitchOnNextObserver<O, InnerItem>,
) -> bool {
    if inner_active(pre, gen) {
        &&& post.current == 0
        &&& post.outer_done == pre.outer_done
        &&& post.tree.len() == pre.tree.len()
        &&& if pre.one_is_complete {
            &&& pre.observer.step(Notification::<InnerItem, E>::Complete, &post.observer)
            &&& post.stopped
            &&& post.one_is_complete
            &&& forall|j: int|
                0 <= j < pre.tree.len() && pre.tree.node_closed(j) ==> post.tree.node_closed(j)
        } else {
            &&& post.observer == pre.observer
            &&& !post.stopped
            &&& post.one_is_complete
            &&& forall|j: int|
                0 <= j < pre.tree.len() ==> (post.tree.node_closed(j) <==> (pre.tree.node_closed(
                    j,
                ) || in_subtree(pre.tree.nodes@, gen, j)))
        }
    } else {
        post == pre
    }
}

/// The exact effect of the source erroring: the error is forwarded at
/// once, and everything is torn down.
pub open spec fn switch_outer_error_rel<InnerItem, E, O: Observer<InnerItem, E>>(
    pre: SwitchOnNextObserver<O, InnerItem>,
    e: E,
    post: SwitchOnNextObserver<O, InnerItem>,
) -> bool {
    if pre.stopped || pre.outer_done {
        post == pre
    } else {
        &&& pre.observer.step(Notification::<InnerItem, E>::Error(e), &post.observer)
        &&& post.stopped
        &&& post.outer_done
        &&& post.current == 0
        &&& post.one_is_complete == pre.one_is_complete
        &&& post.tree.len() == pre.tree.len()
        &&& forall|j: int|
            0 <= j < pre.tree.len() && pre.tree.node_closed(j) ==> post.tree.node_closed(j)
    }
}

/// The exact effect of the source completing: the downstream completion
/// fires now if the active inner had already completed, and otherwise the
/// inner side is left to fire it.
pub open spec fn switch_outer_complete_rel<InnerItem, E, O: Observer<InnerItem, E>>(
    pre: SwitchOnNextObserver<O, InnerItem>,
    post: SwitchOnNextObserver<O, InnerItem>,
) -> bool {
    if pre.stopped || pre.outer_done {
        post == pre
    } else {
        &&& post.outer_done
        &&& if pre.one_is_complete {
            &&& pre.observer.step(Notification::<InnerItem, E>::Complete, &post.observer)
            &&& post.stopped
            &&& post.one_is_complete
            &&& post.current == 0
            &&& post.tree.len() == pre.tree.len()
            &&& forall|j: int|
                0 <= j < pre.tree.len() && pre.tree.node_closed(j) ==> post.tree.node_closed(j)
        } else {
            &&& post.observer == pre.observer
            &&& !post.stopped
            &&& post.one_is_complete
            &&& post.current == pre.current
            &&& post.tree == pre.tree
        }
    }
}

/// The exact effect of cancelling the whole pipeline from outside: nothing
/// more is delivered, and the whole cancellation tree closes.
pub open spec fn switch_outer_unsub_rel<InnerItem, E, O: Observer<InnerItem, E>>(
    pre: SwitchOnNextObserver<O, InnerItem>,
    post: SwitchOnNextObserver<O, InnerItem>,
) -> bool {
    if pre.stopped {
        post == pre
    } else {
        &&& obs_unsub::<InnerItem, E, O>(pre.observer, post.observer)
        &&& post.stopped
        &&& post.current == 0
        &&& post.outer_done == pre.outer_done
        &&& post.one_is_complete == pre.one_is_complete
        &&& post.tree.len() == pre.tree.len()
        &&& forall|j: int|
            0 <= j < pre.tree.len() && pre.tree.node_closed(j) ==> post.tree.node_closed(j)
    }
}

impl<O, InnerItem> SwitchOnNextObserver<O, InnerItem> {
    /// Start a coordinator around the downstream consumer: a fresh
    /// cancellation tree whose root stands for the outer subscription, no
    /// inner active.
    pub fn new<E>(observer: O) -> (r: SwitchOnNextObserver<O, InnerItem>) where
        O: Observer<InnerItem, E>,

        requires
            observer.inv(),
        ensures
            switch_wf::<InnerItem, E, O>(r),
            r.observer == observer,
            !r.one_is_complete,
            !r.outer_done,
            !r.stopped,
            r.current == 0,
            r.tree.len() == 1,
            !r.tree.node_closed(0),
    {
        let mut tree = SubscriptionTree::new();
        let root = tree.fresh();
        SwitchOnNextObserver {
            observer,
            one_is_complete: false,
            outer_done: false,
            stopped: false,
            tree,
            current: root,
            _p: PhantomData,
        }
    }

    /// Replace the active inner branch: close it — before anything else, so
    /// a superseded inner can never emit into the consumer — then register
    /// and activate a fresh generation.
    pub fn attach_inner<E>(&mut self) -> (gen: usize) where O: Observer<InnerItem, E>
        requires
            switch_wf::<InnerItem, E, O>(*old(self)),
        ensures
            switch_wf::<InnerItem, E, O>(*final(self)),
            switch_attach_rel::<InnerItem, E, O>(*old(self), *final(self), gen as int),
    {
        if self.current != 0 {
            self.tree.unsubscribe(self.current);
            proof {
                if in_subtree(old(self).tree.nodes@, old(self).current as int, 0int) {
                    crate::subscription::lemma_subtree_ge(
                        old(self).tree.nodes@,
                        old(self).current as int,
                        0int,
                    );
                }
            }
        }
        let ghost mid = *self;
        let gen = self.tree.fresh();
        let ghost fresh_tree = self.tree;
        proof {
            assert(node_wf(fresh_tree.nodes@, 0int));
            assert forall|k: int|
                0 <= k < fresh_tree.nodes@[0].children@.len() implies #[trigger] fresh_tree.nodes@[0].children@[k]
                != gen by {
                assert(fresh_tree.nodes@[0].children == mid.tree.nodes@[0].children);
                assert(node_wf(mid.tree.nodes@, 0int));
            }
            assert(!fresh_tree.nodes@[0].children@.contains(gen));
        }
        self.tree.add(0, gen);
        proof {
            if fresh_tree.node_closed(0) {
                assert(in_subtree(fresh_tree.nodes@, gen as int, gen as int));
            }
        }
        self.current = gen;
        self.one_is_complete = false;
        proof {
            let pre = *old(self);
            let post = *self;
            assert(post.observer == pre.observer);
            assert(gen == pre.tree.len());
            assert(post.tree.len() == pre.tree.len() + 1);
            assert(post.current == gen as int);
            assert(post.tree.node_closed(gen as int) <==> pre.stopped);
            assert forall|j: int| 0 <= j < pre.tree.len() implies (post.tree.node_closed(j) <==> (
            pre.tree.node_closed(j) || in_subtree(pre.tree.nodes@, pre.current as int, j)
                && pre.current != 0)) by {
                if pre.current != 0 {
                    assert(mid.tree.node_closed(j) <==> (pre.tree.node_closed(j) || in_subtree(
                        pre.tree.nodes@,
                        pre.current as int,
                        j,
                    )));
                } else {
                    assert(mid.tree.node_closed(j) == pre.tree.node_closed(j));
                }
                assert(fresh_tree.nodes@[j] == mid.tree.nodes@[j]);
                if fresh_tree.node_closed(0) {
                    assert(fresh_tree.nodes@[gen as int].children@.len() == 0);
                    assert(j != gen as int);
                    assert(!in_subtree(fresh_tree.nodes@, gen as int, j));
                    assert(post.tree.node_closed(j) == fresh_tree.node_closed(j));
                } else {
                    assert(post.tree.node_closed(j) == fresh_tree.node_closed(j));
                }
            }
        }
        gen
    }

    /// One value from generation `gen`: delivered to the consumer exactly
    /// when `gen` is the active generation, swallowed otherwise.
    pub fn inner_next<E>(&mut self, gen: usize, value: InnerItem) where O: Observer<InnerItem, E>
        requires
            switch_wf::<InnerItem, E, O>(*old(self)),
        ensures
            switch_wf::<InnerItem, E, O>(*final(self)),
            switch_next_rel::<InnerItem, E, O>(*old(self), gen as int, value, *final(self)),
    {
        if !self.stopped && gen != 0 && gen == self.current {
            if !self.tree.is_closed(gen) {
                self.observer.next(value);
            }
        }
    }

    /// An error from generation `gen`: forwarded downstream at once (never
    /// deferred by the both-sides rule), and the whole tree is torn down.
    pub fn inner_error<E>(&mut self, gen: usize, err: E) where O: Observer<InnerItem, E>
        requires
            switch_wf::<InnerItem, E, O>(*old(self)),
        ensures
            switch_wf::<InnerItem, E, O>(*final(self)),
            switch_inner_error_rel::<InnerItem, E, O>(*old(self), gen as int, err, *final(self)),
    {
        if !self.stopped && gen != 0 && gen == self.current {
            if !self.tree.is_closed(gen) {
                self.stopped = true;
                self.observer.error(err);
                self.tree.unsubscribe(0);
                self.current = 0;
                proof {
                    assert(in_subtree(old(self).tree.nodes@, 0int, 0int));
                }
            }
        }
    }

    /// Generation `gen` completed: close it; fire the downstream completion
    /// if the source side had already completed, otherwise record that one
    /// side is done.
    pub fn inner_complete<E>(&mut self, gen: usize) where O: Observer<InnerItem, E>
        requires
            switch_wf::<InnerItem, E, O>(*old(self)),
        ensures
            switch_wf::<InnerItem, E, O>(*final(self)),
            switch_inner_complete_rel::<InnerItem, E, O>(*old(self), gen as int, *final(self)),
    {
        if !self.stopped && gen != 0 && gen == self.current {
            if !self.tree.is_closed(gen) {
                if self.one_is_complete {
                    self.stopped = true;
                    self.observer.complete();
                    self.tree.unsubscribe(0);
                    self.current = 0;
                    proof {
                        assert(in_subtree(old(self).tree.nodes@, 0int, 0int));
                    }
                } else {
                    self.one_is_complete = true;
                    self.tree.unsubscribe(gen);
                    self.current = 0;
                    proof {
                        if in_subtree(old(self).tree.nodes@, gen as int, 0int) {
                            crate::subscription::lemma_subtree_ge(
                                old(self).tree.nodes@,
                                gen as int,
                                0int,
                            );
                        }
                    }
                }
            }
        }
    }

    /// Cancel the inner branch `gen` alone, without delivering anything:
    /// its generation closes and no inner is active any more.
    pub fn inner_unsubscribe<E>(&mut self, gen: usize) where O: Observer<InnerItem, E>
        requires
            switch_wf::<InnerItem, E, O>(*old(self)),
        ensures
            switch_wf::<InnerItem, E, O>(*final(self)),
            switch_inner_unsub_rel::<InnerItem, E, O>(*old(self), gen as int, *final(self)),
    {
        if !self.stopped && gen != 0 && gen == self.current {
            if !self.tree.is_closed(gen) {
                self.tree.unsubscribe(gen);
                self.current = 0;
                proof {
                    if in_subtree(old(self).tree.nodes@, gen as int, 0int) {
                        crate::subscription::lemma_subtree_ge(
                            old(self).tree.nodes@,
                            gen as int,
                            0int,
                        );
                    }
                }
            }
        }
    }

    /// The source erred: forward the error downstream at once (never
    /// deferred by the both-sides rule) and tear everything down.
    pub fn outer_error<E>(&mut self, err: E) where O: Observer<InnerItem, E>
        requires
            switch_wf::<InnerItem, E, O>(*old(self)),
        ensures
            switch_wf::<InnerItem, E, O>(*final(self)),
            switch_outer_error_rel::<InnerItem, E, O>(*old(self), err, *final(self)),
    {
        if !self.stopped && !self.outer_done {
            self.stopped = true;
            self.outer_done = true;
            self.observer.error(err);
            self.tree.unsubscribe(0);
            self.current = 0;
            proof {
                assert(in_subtree(old(self).tree.nodes@, 0int, 0int));
            }
        }
    }

    /// The source completed: if the active inner had already completed,
    /// both sides are done and the downstream completion fires now;
    /// otherwise only record that one side is done.
    pub fn outer_complete<E>(&mut self) where O: Observer<InnerItem, E>
        requires
            switch_wf::<InnerItem, E, O>(*old(self)),
        ensures
            switch_wf::<InnerItem, E, O>(*final(self)),
            switch_outer_complete_rel::<InnerItem, E, O>(*old(self), *final(self)),
    {
        if !self.stopped && !self.outer_done {
            self.outer_done = true;
            if self.one_is_complete {
                self.stopped = true;
                self.observer.complete();
                self.tree.unsubscribe(0);
                self.current = 0;
                proof {
                    assert(in_subtree(old(self).tree.nodes@, 0int, 0int));
                }
            } else {
                self.one_is_complete = true;
            }
        }
    }

    /// Cancel the whole pipeline from outside: the downstream chain is
    /// torn down and every generation closes with the root.
    pub fn outer_unsubscribe<E>(&mut self) where O: Observer<InnerItem, E>
        requires
            switch_wf::<InnerItem, E, O>(*old(self)),
        ensures
            switch_wf::<InnerItem, E, O>(*final(self)),
            switch_outer_unsub_rel::<InnerItem, E, O>(*old(self), *final(self)),
    {
        if !self.stopped {
            self.stopped = true;
            self.observer.unsubscribe();
            self.tree.unsubscribe(0);
            self.current = 0;
            proof {
                assert(in_subtree(old(self).tree.nodes@, 0int, 0int));
            }
        }
    }
}

/// A fresh, open recording subscriber, as handed to a newly attached inner
/// production.
pub open spec fn recorder_fresh<InnerItem, E>(
    s: Subscriber<EventRecorder<InnerItem, E>, LocalSubscription>,
) -> bool {
    &&& s.observer.log() == Seq::<Notification<InnerItem, E>>::empty()
    &&& !s.observer.done
    &&& !s.subscription.stopped
    &&& !s.stopped
}

/// The inner branch's consumer: deliveries of generation `gen`, entering
/// the shared coordinator. Stale generations — anything but the open,
/// active one — are swallowed here.
pub struct InnerObserver<O, InnerItem> {
    pub switch: SwitchOnNextObserver<O, InnerItem>,
    pub gen: usize,
}

impl<InnerItem, E, O> Observer<InnerItem, E> for InnerObserver<O, InnerItem> where
    O: Observer<InnerItem, E>,
 {
    open spec fn inv(&self) -> bool {
        switch_wf::<InnerItem, E, O>(self.switch)
    }

    open spec fn terminated(&self) -> bool {
        !inner_active(self.switch, self.gen as int)
    }

    open spec fn step(&self, event: Notification<InnerItem, E>, post: &Self) -> bool {
        post.gen == self.gen && match event {
            Notification::Next(v) => switch_next_rel::<InnerItem, E, O>(
                self.switch,
                self.gen as int,
                v,
                post.switch,
            ),
            Notification::Error(e) => switch_inner_error_rel::<InnerItem, E, O>(
                self.switch,
                self.gen as int,
                e,
                post.switch,
            ),
            Notification::Complete => switch_inner_complete_rel::<InnerItem, E, O>(
                self.switch,
                self.gen as int,
                post.switch,
            ),
        }
    }

    open spec fn unsub_ens(&self, post: &Self) -> bool {
        post.gen == self.gen && switch_inner_unsub_rel::<InnerItem, E, O>(
            self.switch,
            self.gen as int,
            post.switch,
        )
    }

    fn next(&mut self, value: InnerItem) {
        self.switch.inner_next(self.gen, value);
    }

    fn error(&mut self, err: E) {
        self.switch.inner_error(self.gen, err);
    }

    fn complete(&mut self) {
        self.switch.inner_complete(self.gen);
    }

    fn unsubscribe(&mut self) {
        self.switch.inner_unsubscribe(self.gen);
    }
}

impl<O, InnerItem> SwitchOnNextObserver<O, InnerItem> {
    /// Deliver a recorded inner production to the consumer, one event at a
    /// time, through the inner branch `gen`.
    #[verifier::loop_isolation(false)]
    fn feed_inner<E>(&mut self, gen: usize, evs: Vec<Notification<InnerItem, E>>) where
        O: Observer<InnerItem, E>,

        requires
            switch_wf::<InnerItem, E, O>(*old(self)),
        ensures
            switch_wf::<InnerItem, E, O>(*final(self)),
            obs_steps(
                InnerObserver { switch: *old(self), gen },
                evs@,
                InnerObserver { switch: *final(self), gen },
            ),
    {
        let ghost start = InnerObserver { switch: *old(self), gen };
        let ghost vals = evs@;
        let mut evs = evs;
        while evs.len() > 0
            invariant
                switch_wf::<InnerItem, E, O>(*self),
                evs@.len() <= vals.len(),
                evs@ == vals.skip(vals.len() - evs@.len()),
                obs_steps(
                    start,
                    vals.take(vals.len() - evs@.len()),
                    InnerObserver { switch: *self, gen },
                ),
            decreases evs@.len(),
        {
            let ghost m = vals.len() - evs@.len();
            let ghost fed = vals.take(m as int);
            let ghost q0 = evs@;
            let ghost cur = InnerObserver { switch: *self, gen };
            let e = evs.remove(0);
            let ghost ev = e;
            match e {
                Notification::Next(v) => self.inner_next(gen, v),
                Notification::Error(er) => self.inner_error(gen, er),
                Notification::Complete => self.inner_complete(gen),
            }
            proof {
                assert(0 <= m < vals.len());
                assert(q0[0] == vals.skip(m as int)[0]);
                assert(ev == vals[m as int]);
                let newo = InnerObserver { switch: *self, gen };
                assert(cur.step(ev, &newo));
                if cur.terminated() {
                    assert(newo.switch == cur.switch);
                    assert(newo == cur);
                }
                assert(obs_step(cur, ev, newo));
                lemma_obs_steps_push(start, fed, cur, ev, newo);
                assert(fed.push(ev) =~= vals.take(m + 1));
                assert(evs@ == q0.remove(0));
                assert(evs@ =~= vals.skip(m + 1));
            }
        }
        proof {
            assert(vals.take(vals.len() as int) =~= vals);
        }
    }
}

/// The exact effect of the source emitting the inner observable `iobs`:
/// some fresh recording subscriber was bound to `iobs`, and what it
/// recorded ran through a freshly attached generation into the consumer.
pub open spec fn switch_outer_next_ens<Item, InnerItem, E, O>(
    pre: SwitchOnNextObserver<O, InnerItem>,
    iobs: Item,
    post: SwitchOnNextObserver<O, InnerItem>,
) -> bool where
    O: Observer<InnerItem, E>,
    Item: Observable<
        InnerItem,
        E,
        EventRecorder<InnerItem, E>,
        LocalSubscription,
        Unsub = Subscriber<EventRecorder<InnerItem, E>, LocalSubscription>,
    >,
 {
    exists|
        rec0: Subscriber<EventRecorder<InnerItem, E>, LocalSubscription>,
        recr: Subscriber<EventRecorder<InnerItem, E>, LocalSubscription>,
    |
        {
            &&& recorder_fresh(rec0)
            &&& #[trigger] iobs.sub_ens(rec0, recr)
            &&& switch_runs_inner(pre, recr.observer.log(), post)
        }
}

impl<Item, InnerItem, E, O> Observer<Item, E> for SwitchOnNextObserver<O, InnerItem> where
    O: Observer<InnerItem, E>,
    Item: Observable<
        InnerItem,
        E,
        EventRecorder<InnerItem, E>,
        LocalSubscription,
        Unsub = Subscriber<EventRecorder<InnerItem, E>, LocalSubscription>,
    >,
 {
    open spec fn inv(&self) -> bool {
        &&& switch_wf::<InnerItem, E, O>(*self)
        &&& forall|x: Item| #[trigger] x.ready()
    }

    open spec fn terminated(&self) -> bool {
        self.stopped || self.outer_done
    }

    /// A new inner production replaces the active one — which is closed
    /// first — and everything the new inner delivers runs through its own
    /// generation into the shared consumer. A source error tears everything
    /// down at once; source completion fires the downstream completion only
    /// if the active inner has already completed, and otherwise leaves the
    /// inner side to fire it.
    open spec fn step(&self, event: Notification<Item, E>, post: &Self) -> bool {
        if self.stopped || self.outer_done {
            *post == *self
        } else {
            match event {
                Notification::Next(iobs) => switch_outer_next_ens(*self, iobs, *post),
                Notification::Error(e) => switch_outer_error_rel::<InnerItem, E, O>(
                    *self,
                    e,
                    *post,
                ),
                Notification::Complete => switch_outer_complete_rel::<InnerItem, E, O>(
                    *self,
                    *post,
                ),
            }
        }
    }

    open spec fn unsub_ens(&self, post: &Self) -> bool {
        switch_outer_unsub_rel::<InnerItem, E, O>(*self, *post)
    }

    fn next(&mut self, inner: Item) {
        if !self.stopped && !self.outer_done {
            proof {
                assert(inner.ready());
            }
            let gen = self.attach_inner();
            let ghost mid = *self;
            let rec0 = Subscriber::new(EventRecorder::new(), LocalSubscription::new());
            let ghost rec0g = rec0;
            let recr = inner.actual_subscribe(rec0);
            let ghost recrg = recr;
            let evs = recr.observer.events;
            self.feed_inner(gen, evs);
            proof {
                assert(recorder_fresh(rec0g));
                assert(gen == mid.current);
                assert(evs@ == recrg.observer.log());
                assert(switch_attach_rel::<InnerItem, E, O>(
                    *old(self),
                    mid,
                    old(self).tree.len() as int,
                ));
                assert(obs_steps(
                    InnerObserver { switch: mid, gen: mid.current },
                    recrg.observer.log(),
                    InnerObserver { switch: *self, gen: mid.current },
                ));
                assert(inner.sub_ens(rec0g, recrg));
                assert(switch_runs_inner(*old(self), recrg.observer.log(), *self));
                assert(switch_outer_next_ens(*old(self), inner, *self));
            }
        }
    }

    fn error(&mut self, err: E) {
        self.outer_error(err);
    }

    fn complete(&mut self) {
        self.outer_complete();
    }

    fn unsubscribe(&mut self) {
        self.outer_unsubscribe();
    }
}

/// One freshly attached generation, run on a recorded inner production:
/// there is a replacement step (`switch_attach_rel`) after which the run of
/// `log` through the new generation's branch leads from `pre` to `post`.
pub open spec fn switch_runs_inner<InnerItem, E, O>(
    pre: SwitchOnNextObserver<O, InnerItem>,
    log: Seq<Notification<InnerItem, E>>,
    post: SwitchOnNextObserver<O, InnerItem>,
) -> bool where O: Observer<InnerItem, E> {
    exists|mid: SwitchOnNextObserver<O, InnerItem>|
        #[trigger] switch_attach_rel::<InnerItem, E, O>(pre, mid, pre.tree.len() as int)
            && obs_steps(
            InnerObserver { switch: mid, gen: mid.current },
            log,
            InnerObserver { switch: post, gen: mid.current },
        )
}

/// How `SwitchOnNextOp` wraps an incoming subscriber: the downstream
/// observer moves into a fresh coordinator — no inner active, a fresh
/// cancellation tree — behind the subscriber's own guard.
pub open spec fn switch_wraps<Item, InnerItem, E, O: Observer<InnerItem, E>, U: SubscriptionLike>(
    s: Subscriber<O, U>,
    w: Subscriber<SwitchOnNextObserver<O, InnerItem>, U>,
) -> bool {
    &&& w.observer.observer == s.observer
    &&& !w.observer.one_is_complete
    &&& !w.observer.outer_done
    &&& !w.observer.stopped
    &&& w.observer.current == 0
    &&& w.observer.tree.len() == 1
    &&& !w.observer.tree.node_closed(0)
    &&& w.subscription == s.subscription
    &&& w.stopped == s.stopped
}

/// The conditions under which a switch definition can be bound: its source
/// can be, and every inner observable the source may hand over can be.
pub open spec fn switch_op_ready<Item, InnerItem, E, O, U, S>(
    op: SwitchOnNextOp<S, InnerItem, Item>,
) -> bool where
    O: Observer<InnerItem, E>,
    U: SubscriptionLike,
    Item: Observable<
        InnerItem,
        E,
        EventRecorder<InnerItem, E>,
        LocalSubscription,
        Unsub = Subscriber<EventRecorder<InnerItem, E>, LocalSubscription>,
    >,
    S: Observable<Item, E, SwitchOnNextObserver<O, InnerItem>, U>,
 {
    &&& op.source.ready()
    &&& forall|x: Item| #[trigger] x.ready()
}

/// The exact effect of binding a switch definition: the source is bound to
/// a fresh coordinator around the downstream observer.
pub open spec fn switch_op_sub_ens<Item, InnerItem, E, O, U, S>(
    op: SwitchOnNextOp<S, InnerItem, Item>,
    s: Subscriber<O, U>,
    r: S::Unsub,
) -> bool where
    O: Observer<InnerItem, E>,
    U: SubscriptionLike,
    Item: Observable<
        InnerItem,
        E,
        EventRecorder<InnerItem, E>,
        LocalSubscription,
        Unsub = Subscriber<EventRecorder<InnerItem, E>, LocalSubscription>,
    >,
    S: Observable<Item, E, SwitchOnNextObserver<O, InnerItem>, U>,
 {
    exists|w0: Subscriber<SwitchOnNextObserver<O, InnerItem>, U>|
        switch_wraps::<Item, InnerItem, E, O, U>(s, w0) && #[trigger] op.source.sub_ens(w0, r)
}

impl<S, InnerItem, Item> SwitchOnNextOp<S, InnerItem, Item> {
    /// Bind this definition: the downstream observer moves into a fresh
    /// coordinator, and the source delivers its inner observables into it.
    ///
    /// The handle handed back observes the *outer* item type, so this
    /// cannot stand behind the `Observable` trait, whose handle observes
    /// what the downstream observer consumes.
    pub fn actual_subscribe<InnerE, O, U>(self, subscriber: Subscriber<O, U>) -> (r: S::Unsub) where
        O: Observer<InnerItem, InnerE>,
        U: SubscriptionLike + Copy,
        Item: Observable<
            InnerItem,
            InnerE,
            EventRecorder<InnerItem, InnerE>,
            LocalSubscription,
            Unsub = Subscriber<EventRecorder<InnerItem, InnerE>, LocalSubscription>,
        >,
        S: Observable<Item, InnerE, SwitchOnNextObserver<O, InnerItem>, U>,

        requires
            subscriber.inv(),
            switch_op_ready::<Item, InnerItem, InnerE, O, U, S>(self),
        ensures
            r.inv(),
            switch_op_sub_ens::<Item, InnerItem, InnerE, O, U, S>(self, subscriber, r),
    {
        let stopped = subscriber.stopped;
        let wrapped = Subscriber {
            observer: SwitchOnNextObserver::new(subscriber.observer),
            subscription: subscriber.subscription,
            stopped,
        };
        let ghost w0 = wrapped;
        let r = self.source.actual_subscribe(wrapped);
        proof {
            assert(switch_wraps::<Item, InnerItem, InnerE, O, U>(subscriber, w0));
        }
        r
    }
}

} // verus!
