//! The laws that relate the pieces: proved here, over the same relations
//! the execution contracts state.

use vstd::prelude::*;
use crate::notification::{ends_terminated, nexts_of, terminal_once, Notification};
use crate::observable::range::{range_events, RangeObservable};
use crate::observable::Observable;
use crate::observer::{obs_step, obs_steps, EventRecorder, Observer};
use crate::ops::switch_on_next::{
    inner_active, switch_attach_rel, switch_inner_complete_rel, switch_outer_complete_rel,
    switch_outer_next_ens, switch_runs_inner, recorder_fresh, InnerObserver, SwitchOnNextObserver,
};
use crate::ops::take_last::{last_n, take_last_wraps, TakeLastObserver, TakeLastOp};
use crate::subscriber::Subscriber;
use crate::subscription::LocalSubscription;

verus! {

/// A run of deliveries ending in one event splits into the run of the rest
/// and that one last delivery.
pub proof fn lemma_obs_steps_unsnoc<Item, E, O: Observer<Item, E>>(
    pre: O,
    events: Seq<Notification<Item, E>>,
    e: Notification<Item, E>,
    post: O,
)
    requires
        obs_steps(pre, events.push(e), post),
    ensures
        exists|mid: O| #[trigger] obs_steps(pre, events, mid) && obs_step(mid, e, post),
    decreases events.len(),
{
    let evs = events.push(e);
    let m1 = choose|m1: O|
        #[trigger] obs_step(pre, evs.first(), m1) && obs_steps(m1, evs.drop_first(), post);
    if events.len() == 0 {
        assert(evs.first() == e);
        assert(evs.drop_first() =~= Seq::<Notification<Item, E>>::empty());
        assert(post == m1);
        assert(obs_steps(pre, events, pre));
    } else {
        assert(evs.first() == events.first());
        assert(evs.drop_first() =~= events.drop_first().push(e));
        lemma_obs_steps_unsnoc(m1, events.drop_first(), e, post);
        let mid = choose|mid: O|
            #[trigger] obs_steps(m1, events.drop_first(), mid) && obs_step(mid, e, post);
        assert(obs_step(pre, events.first(), m1) && obs_steps(m1, events.drop_first(), mid));
        assert(obs_steps(pre, events, mid));
    }
}

/// An open recorder absorbs a run of deliveries verbatim, as long as only
/// the last of them can be terminal.
pub proof fn lemma_recorder_absorbs<Item, E>(
    pre: EventRecorder<Item, E>,
    events: Seq<Notification<Item, E>>,
    post: EventRecorder<Item, E>,
)
    requires
        obs_steps(pre, events, post),
        !pre.done,
        terminal_once(events),
    ensures
        post.log() == pre.log() + events,
        post.done == ends_terminated(events),
    decreases events.len(),
{
    if events.len() == 0 {
        assert(pre.log() + events =~= pre.log());
    } else {
        let mid = choose|mid: EventRecorder<Item, E>|
            #[trigger] obs_step(pre, events.first(), mid) && obs_steps(
                mid,
                events.drop_first(),
                post,
            );
        if events.len() == 1 {
            assert(events.drop_first() =~= Seq::<Notification<Item, E>>::empty());
            assert(post == mid);
            assert(post.log() =~= pre.log() + events);
        } else {
            assert(!events.first().is_terminal());
            assert(!mid.done);
            assert forall|i: int|
                0 <= i < events.drop_first().len() && #[trigger] events.drop_first()[i].is_terminal()
                implies i == events.drop_first().len() - 1 by {
                assert(events[i + 1].is_terminal());
            }
            lemma_recorder_absorbs(mid, events.drop_first(), post);
            assert(post.log() =~= pre.log() + events);
            assert(ends_terminated(events.drop_first()) == ends_terminated(events));
        }
    }
}

/// What can be observed of a recorder-backed subscriber: the record, the
/// terminal guard, and the subscription state.
pub open spec fn same_observation<Item, E>(
    a: Subscriber<EventRecorder<Item, E>, LocalSubscription>,
    b: Subscriber<EventRecorder<Item, E>, LocalSubscription>,
) -> bool {
    &&& a.observer.log() == b.observer.log()
    &&& a.observer.done == b.observer.done
    &&& a.stopped == b.stopped
    &&& a.subscription == b.subscription
}

/// Deliveries to a recorder-backed subscriber are deterministic: two equal
/// runs of events from states that look alike end in states that look
/// alike.
pub proof fn lemma_recorder_subscriber_deterministic<Item, E>(
    pre1: Subscriber<EventRecorder<Item, E>, LocalSubscription>,
    pre2: Subscriber<EventRecorder<Item, E>, LocalSubscription>,
    events: Seq<Notification<Item, E>>,
    r1: Subscriber<EventRecorder<Item, E>, LocalSubscription>,
    r2: Subscriber<EventRecorder<Item, E>, LocalSubscription>,
)
    requires
        same_observation(pre1, pre2),
        obs_steps(pre1, events, r1),
        obs_steps(pre2, events, r2),
    ensures
        same_observation(r1, r2),
    decreases events.len(),
{
    if events.len() > 0 {
        let m1 = choose|m: Subscriber<EventRecorder<Item, E>, LocalSubscription>|
            #[trigger] obs_step(pre1, events.first(), m) && obs_steps(m, events.drop_first(), r1);
        let m2 = choose|m: Subscriber<EventRecorder<Item, E>, LocalSubscription>|
            #[trigger] obs_step(pre2, events.first(), m) && obs_steps(m, events.drop_first(), r2);
        assert(same_observation(m1, m2));
        lemma_recorder_subscriber_deterministic(m1, m2, events.drop_first(), r1, r2);
    }
}

/// Fork independence: two handles to the same finite production definition,
/// each bound to its own fresh consumer, observe exactly the same events —
/// and neither binding can touch the other's state, which is owned by its
/// own subscriber alone.
///
/// (For a definition given as a caller-supplied production function this
/// holds as far as that function is deterministic, which nothing can
/// promise of it; it is therefore stated of the library's own producer.)
pub proof fn lemma_fork_independence<E>(
    source: crate::observable::range::RangeObservable,
    fork1: crate::observable::range::RangeObservable,
    fork2: crate::observable::range::RangeObservable,
    s1: Subscriber<EventRecorder<i32, E>, LocalSubscription>,
    s2: Subscriber<EventRecorder<i32, E>, LocalSubscription>,
    r1: Subscriber<EventRecorder<i32, E>, LocalSubscription>,
    r2: Subscriber<EventRecorder<i32, E>, LocalSubscription>,
)
    requires
        fork1 == source,
        fork2 == source,
        same_observation(s1, s2),
        crate::observable::Observable::<i32, E, EventRecorder<i32, E>, LocalSubscription>::sub_ens(
            &fork1,
            s1,
            r1,
        ),
        crate::observable::Observable::<i32, E, EventRecorder<i32, E>, LocalSubscription>::sub_ens(
            &fork2,
            s2,
            r2,
        ),
    ensures
        same_observation(r1, r2),
{
    lemma_recorder_subscriber_deterministic(
        s1,
        s2,
        crate::observable::range::range_events::<E>(source.start as int, source.end as int),
        r1,
        r2,
    );
}

/// Feeding only values into a bounded trailing buffer changes nothing
/// downstream — it emits nothing before the source completes — and leaves
/// exactly the last `count` of everything seen in its buffer.
pub proof fn lemma_take_last_absorbs_quietly<Item, E>(
    pre: Subscriber<
        TakeLastObserver<EventRecorder<Item, E>, LocalSubscription, Item>,
        LocalSubscription,
    >,
    vals: Seq<Item>,
    post: Subscriber<
        TakeLastObserver<EventRecorder<Item, E>, LocalSubscription, Item>,
        LocalSubscription,
    >,
)
    requires
        pre.inv(),
        obs_steps(pre, nexts_of::<Item, E>(vals), post),
        !pre.stopped,
        !pre.observer.stopped,
    ensures
        post.observer.observer == pre.observer.observer,
        post.observer.queue@ == last_n(pre.observer.queue@ + vals, pre.observer.count as nat),
        post.observer.count == pre.observer.count,
        post.observer.subscription == pre.observer.subscription,
        post.subscription == pre.subscription,
        !post.stopped,
        !post.observer.stopped,
    decreases vals.len(),
{
    let evs = nexts_of::<Item, E>(vals);
    if vals.len() == 0 {
        assert(post == pre);
        assert(pre.observer.queue@ + vals =~= pre.observer.queue@);
        assert(last_n(pre.observer.queue@, pre.observer.count as nat) =~= pre.observer.queue@);
    } else {
        let mid = choose|
            mid: Subscriber<
                TakeLastObserver<EventRecorder<Item, E>, LocalSubscription, Item>,
                LocalSubscription,
            >,
        |
            #[trigger] obs_step(pre, evs.first(), mid) && obs_steps(mid, evs.drop_first(), post);
        assert(evs.first() == Notification::<Item, E>::Next(vals.first()));
        assert(evs.drop_first() =~= nexts_of::<Item, E>(vals.drop_first()));
        lemma_take_last_absorbs_quietly(mid, vals.drop_first(), post);
        assert(mid.observer.queue@ == last_n(
            pre.observer.queue@.push(vals.first()),
            pre.observer.count as nat,
        ));
        assert(post.observer.queue@ == last_n(
            last_n(pre.observer.queue@.push(vals.first()), pre.observer.count as nat)
                + vals.drop_first(),
            pre.observer.count as nat,
        ));
        lemma_last_n_concat(pre.observer.queue@.push(vals.first()), vals.drop_first(), pre.observer.count as nat);
        assert(pre.observer.queue@.push(vals.first()) + vals.drop_first() =~= pre.observer.queue@
            + vals);
    }
}

/// The bounded trailing buffer, end to end: binding the last-5 form of the
/// producer of `0..100` delivers exactly `95, 96, 97, 98, 99` to the
/// consumer, in order, then one completion — and nothing at all before the
/// source completed.
pub proof fn lemma_bounded_trailing_buffer<E>(
    op: TakeLastOp<RangeObservable, i32>,
    s: Subscriber<EventRecorder<i32, E>, LocalSubscription>,
    r: Subscriber<
        TakeLastObserver<EventRecorder<i32, E>, LocalSubscription, i32>,
        LocalSubscription,
    >,
)
    requires
        op.source == (RangeObservable { start: 0, end: 100 }),
        op.count == 5,
        s.observer.log() == Seq::<Notification<i32, E>>::empty(),
        !s.observer.done,
        !s.stopped,
        Observable::<i32, E, EventRecorder<i32, E>, LocalSubscription>::sub_ens(&op, s, r),
    ensures
        r.observer.observer.log() == seq![
            Notification::<i32, E>::Next(95),
            Notification::Next(96),
            Notification::Next(97),
            Notification::Next(98),
            Notification::Next(99),
            Notification::Complete,
        ],
        r.observer.observer.done,
{
    let w0 = choose|
        w0: Subscriber<TakeLastObserver<EventRecorder<i32, E>, LocalSubscription, i32>,
        LocalSubscription>,
    |
        take_last_wraps::<i32, E, EventRecorder<i32, E>, LocalSubscription>(s, op.count, w0)
            && #[trigger] op.source.sub_ens(w0, r);
    let vals = Seq::new(100nat, |i: int| (0 + i) as i32);
    assert(range_events::<E>(0, 100) =~= nexts_of::<i32, E>(vals).push(
        Notification::Complete,
    ));
    assert(obs_steps(w0, nexts_of::<i32, E>(vals).push(Notification::Complete), r));
    lemma_obs_steps_unsnoc(w0, nexts_of::<i32, E>(vals), Notification::Complete, r);
    let mid = choose|
        m: Subscriber<TakeLastObserver<EventRecorder<i32, E>, LocalSubscription, i32>,
        LocalSubscription>,
    |
        #[trigger] obs_steps(w0, nexts_of::<i32, E>(vals), m) && obs_step(
            m,
            Notification::Complete,
            r,
        );
    assert(w0.inv());
    lemma_take_last_absorbs_quietly(w0, vals, mid);
    assert(Seq::<i32>::empty() + vals =~= vals);
    assert(mid.observer.queue@ == last_n(vals, 5nat));
    assert(last_n(vals, 5nat) =~= vals.skip(95));
    // the completion flushes the buffer, oldest first, then completes
    let flush = nexts_of::<i32, E>(mid.observer.queue@).push(Notification::Complete);
    assert(terminal_once(flush)) by {
        assert forall|i: int| 0 <= i < flush.len() && #[trigger] flush[i].is_terminal() implies i
            == flush.len() - 1 by {
            if i < flush.len() - 1 {
                assert(flush[i] == Notification::<i32, E>::Next(mid.observer.queue@[i]));
            }
        }
    }
    assert(mid.observer.step(Notification::Complete, &r.observer));
    assert(obs_steps(mid.observer.observer, flush, r.observer.observer));
    lemma_recorder_absorbs(mid.observer.observer, flush, r.observer.observer);
    assert(mid.observer.observer.log() + flush =~= flush);
    assert(r.observer.observer.log() =~= seq![
        Notification::<i32, E>::Next(95),
        Notification::Next(96),
        Notification::Next(97),
        Notification::Next(98),
        Notification::Next(99),
        Notification::Complete,
    ]) by {
        assert(flush.len() == 6);
        assert(vals.skip(95)[0] == 95 && vals.skip(95)[1] == 96 && vals.skip(95)[2] == 97
            && vals.skip(95)[3] == 98 && vals.skip(95)[4] == 99);
        assert(flush[0] == Notification::<i32, E>::Next(95));
        assert(flush[1] == Notification::<i32, E>::Next(96));
        assert(flush[2] == Notification::<i32, E>::Next(97));
        assert(flush[3] == Notification::<i32, E>::Next(98));
        assert(flush[4] == Notification::<i32, E>::Next(99));
        assert(flush[5] == Notification::<i32, E>::Complete);
    }
    assert(ends_terminated(flush));
}

/// Switch-to-latest completion coordination, source side first: the source
/// completing delivers nothing by itself; when the still-active inner then
/// completes, the one downstream completion fires, and the downstream is
/// closed for good.
pub proof fn lemma_switch_completes_only_after_both<InnerItem, E, O: Observer<InnerItem, E>>(
    s0: SwitchOnNextObserver<O, InnerItem>,
    s1: SwitchOnNextObserver<O, InnerItem>,
    s2: SwitchOnNextObserver<O, InnerItem>,
    gen: int,
)
    requires
        !s0.stopped,
        !s0.outer_done,
        !s0.one_is_complete,
        inner_active(s0, gen),
        switch_outer_complete_rel::<InnerItem, E, O>(s0, s1),
        switch_inner_complete_rel::<InnerItem, E, O>(s1, gen, s2),
    ensures
        s1.observer == s0.observer,
        s0.observer.step(Notification::<InnerItem, E>::Complete, &s2.observer),
        s2.stopped,
{
}

/// Switch-to-latest completion coordination, inner side first: the active
/// inner completing delivers nothing by itself while the source is still
/// going; when the source then completes, the one downstream completion
/// fires, and the downstream is closed for good.
pub proof fn lemma_switch_completes_only_after_both_inner_first<
    InnerItem,
    E,
    O: Observer<InnerItem, E>,
>(
    s0: SwitchOnNextObserver<O, InnerItem>,
    s1: SwitchOnNextObserver<O, InnerItem>,
    s2: SwitchOnNextObserver<O, InnerItem>,
    gen: int,
)
    requires
        !s0.stopped,
        !s0.outer_done,
        !s0.one_is_complete,
        inner_active(s0, gen),
        switch_inner_complete_rel::<InnerItem, E, O>(s0, gen, s1),
        switch_outer_complete_rel::<InnerItem, E, O>(s1, s2),
    ensures
        s1.observer == s0.observer,
        s0.observer.step(Notification::<InnerItem, E>::Complete, &s2.observer),
        s2.stopped,
{
}

/// An open recorder behind its subscriber guard absorbs a terminal-once run
/// of deliveries verbatim.
pub proof fn lemma_guarded_recorder_absorbs<Item, E>(
    pre: Subscriber<EventRecorder<Item, E>, LocalSubscription>,
    events: Seq<Notification<Item, E>>,
    post: Subscriber<EventRecorder<Item, E>, LocalSubscription>,
)
    requires
        obs_steps(pre, events, post),
        !pre.stopped,
        !pre.observer.done,
        terminal_once(events),
    ensures
        post.observer.log() == pre.observer.log() + events,
    decreases events.len(),
{
    if events.len() == 0 {
        assert(pre.observer.log() + events =~= pre.observer.log());
    } else {
        let mid = choose|m: Subscriber<EventRecorder<Item, E>, LocalSubscription>|
            #[trigger] obs_step(pre, events.first(), m) && obs_steps(m, events.drop_first(), post);
        if events.len() == 1 {
            assert(events.drop_first() =~= Seq::<Notification<Item, E>>::empty());
            assert(post == mid);
            assert(post.observer.log() =~= pre.observer.log() + events);
        } else {
            assert(!events.first().is_terminal());
            assert forall|i: int|
                0 <= i < events.drop_first().len() && #[trigger] events.drop_first()[i].is_terminal()
                implies i == events.drop_first().len() - 1 by {
                assert(events[i + 1].is_terminal());
            }
            lemma_guarded_recorder_absorbs(mid, events.drop_first(), post);
            assert(post.observer.log() =~= pre.observer.log() + events);
        }
    }
}

/// An active, fresh inner generation runs a finite production to completion:
/// every value reaches the consumer in order, nothing terminal does, and
/// afterwards the inner side counts as the one completed side.
pub proof fn lemma_switch_active_inner_run<InnerItem, E>(
    pre: InnerObserver<EventRecorder<InnerItem, E>, InnerItem>,
    vals: Seq<InnerItem>,
    post: InnerObserver<EventRecorder<InnerItem, E>, InnerItem>,
)
    requires
        obs_steps(pre, nexts_of::<InnerItem, E>(vals).push(Notification::Complete), post),
        inner_active(pre.switch, pre.gen as int),
        !pre.switch.one_is_complete,
        !pre.switch.observer.done,
    ensures
        post.switch.observer.log() == pre.switch.observer.log() + nexts_of::<InnerItem, E>(vals),
        !post.switch.observer.done,
        post.switch.one_is_complete,
        !post.switch.stopped,
        post.switch.outer_done == pre.switch.outer_done,
        post.switch.current == 0,
    decreases vals.len(),
{
    let evs = nexts_of::<InnerItem, E>(vals).push(Notification::Complete);
    let mid = choose|m: InnerObserver<EventRecorder<InnerItem, E>, InnerItem>|
        #[trigger] obs_step(pre, evs.first(), m) && obs_steps(m, evs.drop_first(), post);
    if vals.len() == 0 {
        assert(evs.first() == Notification::<InnerItem, E>::Complete);
        assert(evs.drop_first() =~= Seq::<Notification<InnerItem, E>>::empty());
        assert(post == mid);
        assert(pre.switch.observer.log() + nexts_of::<InnerItem, E>(vals) =~= pre.switch.observer.log());
    } else {
        assert(evs.first() == Notification::<InnerItem, E>::Next(vals.first()));
        assert(evs.drop_first() =~= nexts_of::<InnerItem, E>(vals.drop_first()).push(
            Notification::Complete,
        ));
        assert(mid.switch.observer.log() == pre.switch.observer.log().push(
            Notification::Next(vals.first()),
        ));
        lemma_switch_active_inner_run(mid, vals.drop_first(), post);
        assert(post.switch.observer.log() =~= pre.switch.observer.log() + nexts_of::<
            InnerItem,
            E,
        >(vals));
    }
}

/// The values of the half-open range, as a sequence.
pub open spec fn range_values(start: int, end: int) -> Seq<i32> {
    Seq::new(
        (if end >= start {
            end - start
        } else {
            0
        }) as nat,
        |i: int| (start + i) as i32,
    )
}

/// One inner range emitted by the source of a switch: it replaces the
/// active branch, delivers all its values in order to the consumer, and
/// leaves its side completed.
pub proof fn lemma_switch_outer_next_range<E>(
    pre: SwitchOnNextObserver<EventRecorder<i32, E>, i32>,
    rng: RangeObservable,
    post: SwitchOnNextObserver<EventRecorder<i32, E>, i32>,
)
    requires
        crate::ops::switch_on_next::switch_wf::<i32, E, EventRecorder<i32, E>>(pre),
        switch_outer_next_ens::<RangeObservable, i32, E, EventRecorder<i32, E>>(pre, rng, post),
        !pre.stopped,
        !pre.outer_done,
        !pre.observer.done,
    ensures
        post.observer.log() == pre.observer.log() + nexts_of::<i32, E>(
            range_values(rng.start as int, rng.end as int),
        ),
        !post.observer.done,
        post.one_is_complete,
        !post.stopped,
        post.outer_done == pre.outer_done,
{
    let (rec0, recr) = choose|
        rec0: Subscriber<EventRecorder<i32, E>, LocalSubscription>,
        recr: Subscriber<EventRecorder<i32, E>, LocalSubscription>,
    |
        recorder_fresh(rec0) && #[trigger] rng.sub_ens(rec0, recr) && switch_runs_inner(
            pre,
            recr.observer.log(),
            post,
        );
    let revs = range_events::<E>(rng.start as int, rng.end as int);
    let vals = range_values(rng.start as int, rng.end as int);
    assert(terminal_once(revs)) by {
        assert forall|i: int| 0 <= i < revs.len() && #[trigger] revs[i].is_terminal() implies i
            == revs.len() - 1 by {
            if i < revs.len() - 1 {
                assert(revs[i] == Notification::<i32, E>::Next((rng.start + i) as i32));
            }
        }
    }
    lemma_guarded_recorder_absorbs(rec0, revs, recr);
    assert(recr.observer.log() =~= revs);
    let mid = choose|mid: SwitchOnNextObserver<EventRecorder<i32, E>, i32>|
        #[trigger] switch_attach_rel::<i32, E, EventRecorder<i32, E>>(
            pre,
            mid,
            pre.tree.len() as int,
        ) && obs_steps(
            InnerObserver { switch: mid, gen: mid.current },
            recr.observer.log(),
            InnerObserver { switch: post, gen: mid.current },
        );
    assert(inner_active(mid, mid.current as int));
    assert(revs =~= nexts_of::<i32, E>(vals).push(Notification::Complete));
    lemma_switch_active_inner_run(
        InnerObserver { switch: mid, gen: mid.current },
        vals,
        InnerObserver { switch: post, gen: mid.current },
    );
}

/// Switch-to-latest-inner, end to end: the source emitting the inner ranges
/// `0..3`, `10..13` and `100..103` and then completing delivers exactly
/// `0, 1, 2, 10, 11, 12, 100, 101, 102` to the consumer, followed by one
/// completion.
pub proof fn lemma_switch_to_latest_inner<E>(
    s: Subscriber<SwitchOnNextObserver<EventRecorder<i32, E>, i32>, LocalSubscription>,
    r: Subscriber<SwitchOnNextObserver<EventRecorder<i32, E>, i32>, LocalSubscription>,
)
    requires
        <Subscriber<
            SwitchOnNextObserver<EventRecorder<i32, E>, i32>,
            LocalSubscription,
        > as Observer<RangeObservable, E>>::inv(&s),
        s.observer.observer.log() == Seq::<Notification<i32, E>>::empty(),
        !s.observer.observer.done,
        !s.observer.one_is_complete,
        !s.observer.outer_done,
        !s.observer.stopped,
        !s.stopped,
        obs_steps(
            s,
            seq![
                Notification::Next(RangeObservable { start: 0, end: 3 }),
                Notification::Next(RangeObservable { start: 10, end: 13 }),
                Notification::Next(RangeObservable { start: 100, end: 103 }),
                Notification::<RangeObservable, E>::Complete,
            ],
            r,
        ),
    ensures
        r.observer.observer.log() == seq![
            Notification::<i32, E>::Next(0),
            Notification::Next(1),
            Notification::Next(2),
            Notification::Next(10),
            Notification::Next(11),
            Notification::Next(12),
            Notification::Next(100),
            Notification::Next(101),
            Notification::Next(102),
            Notification::Complete,
        ],
{
    let evs = seq![
        Notification::Next(RangeObservable { start: 0, end: 3 }),
        Notification::Next(RangeObservable { start: 10, end: 13 }),
        Notification::Next(RangeObservable { start: 100, end: 103 }),
        Notification::<RangeObservable, E>::Complete,
    ];
    let m1 = choose|m: Subscriber<SwitchOnNextObserver<EventRecorder<i32, E>, i32>, LocalSubscription>|
        #[trigger] obs_step(s, evs.first(), m) && obs_steps(m, evs.drop_first(), r);
    lemma_switch_outer_next_range(s.observer, RangeObservable { start: 0, end: 3 }, m1.observer);
    let evs1 = evs.drop_first();
    let m2 = choose|m: Subscriber<SwitchOnNextObserver<EventRecorder<i32, E>, i32>, LocalSubscription>|
        #[trigger] obs_step(m1, evs1.first(), m) && obs_steps(m, evs1.drop_first(), r);
    lemma_switch_outer_next_range(
        m1.observer,
        RangeObservable { start: 10, end: 13 },
        m2.observer,
    );
    let evs2 = evs1.drop_first();
    let m3 = choose|m: Subscriber<SwitchOnNextObserver<EventRecorder<i32, E>, i32>, LocalSubscription>|
        #[trigger] obs_step(m2, evs2.first(), m) && obs_steps(m, evs2.drop_first(), r);
    lemma_switch_outer_next_range(
        m2.observer,
        RangeObservable { start: 100, end: 103 },
        m3.observer,
    );
    let evs3 = evs2.drop_first();
    assert(evs3.first() == Notification::<RangeObservable, E>::Complete);
    let m4 = choose|m: Subscriber<SwitchOnNextObserver<EventRecorder<i32, E>, i32>, LocalSubscription>|
        #[trigger] obs_step(m3, evs3.first(), m) && obs_steps(m, evs3.drop_first(), r);
    assert(evs3.drop_first() =~= Seq::<Notification<RangeObservable, E>>::empty());
    assert(r == m4);
    assert(switch_outer_complete_rel::<i32, E, EventRecorder<i32, E>>(m3.observer, m4.observer));
    assert(m3.observer.observer.step(Notification::<i32, E>::Complete, &m4.observer.observer));
    let log = r.observer.observer.log();
    assert(log == m3.observer.observer.log().push(Notification::<i32, E>::Complete));
    assert(log =~= seq![
        Notification::<i32, E>::Next(0),
        Notification::Next(1),
        Notification::Next(2),
        Notification::Next(10),
        Notification::Next(11),
        Notification::Next(12),
        Notification::Next(100),
        Notification::Next(101),
        Notification::Next(102),
        Notification::Complete,
    ]) by {
        let v1 = range_values(0, 3);
        let v2 = range_values(10, 13);
        let v3 = range_values(100, 103);
        assert(v1 =~= seq![0i32, 1i32, 2i32]);
        assert(v2 =~= seq![10i32, 11i32, 12i32]);
        assert(v3 =~= seq![100i32, 101i32, 102i32]);
        assert(m1.observer.observer.log() =~= nexts_of::<i32, E>(v1));
        assert(m2.observer.observer.log() =~= nexts_of::<i32, E>(v1) + nexts_of::<i32, E>(v2));
        assert(m3.observer.observer.log() =~= nexts_of::<i32, E>(v1) + nexts_of::<i32, E>(v2)
            + nexts_of::<i32, E>(v3));
    }
}

/// Cancel-on-trigger: the main branch delivers a value through the shared
/// handle; the trigger then fires, forcing exactly one completion on the
/// consumer and cancelling the shared subscription; a later main value
/// leaves the consumer untouched.
pub proof fn lemma_cancel_on_trigger<Item, TItem, E, O, U>(
    t0: crate::ops::take_until::TakeUntilTriggerObserver<O, U, Item>,
    t1: crate::ops::take_until::TakeUntilTriggerObserver<O, U, Item>,
    t2: crate::ops::take_until::TakeUntilTriggerObserver<O, U, Item>,
    t3: crate::ops::take_until::TakeUntilTriggerObserver<O, U, Item>,
    a: Item,
    v: TItem,
    b: Item,
) where O: Observer<Item, E>, U: crate::subscription::SubscriptionLike
    requires
        !t0.done,
        !t0.observer.stopped,
        // the main branch delivers `a` through the shared handle
        t0.observer.step(Notification::<Item, E>::Next(a), &t1.observer),
        t1.done == t0.done,
        t1.subscription == t0.subscription,
        // the trigger branch then fires with `v`
        crate::ops::take_until::TakeUntilTriggerObserver::step(
            &t1,
            Notification::<TItem, E>::Next(v),
            &t2,
        ),
        // the main branch then delivers `b` through the shared handle
        t2.observer.step(Notification::<Item, E>::Next(b), &t3.observer),
        t3.done == t2.done,
        t3.subscription == t2.subscription,
    ensures
        // `a` reached the consumer
        t0.observer.observer.step(Notification::<Item, E>::Next(a), &t1.observer.observer),
        // the trigger forced the one completion, and cancelled the shared
        // subscription
        t1.observer.observer.step(Notification::<Item, E>::Complete, &t2.observer.observer),
        t2.observer.stopped,
        t2.subscription.closed(),
        // `b` never reached the consumer
        t3.observer.observer == t2.observer.observer,
{
}

/// Keeping only the last `n` before appending more makes no difference to
/// the last `n` of the whole.
pub proof fn lemma_last_n_concat<T>(a: Seq<T>, b: Seq<T>, n: nat)
    ensures
        last_n(last_n(a, n) + b, n) =~= last_n(a + b, n),
{
    let la = last_n(a, n);
    let l1 = la + b;
    let l2 = a + b;
    if a.len() <= n {
        assert(l1 =~= l2);
    } else {
        assert(la =~= a.skip(a.len() - n));
        assert(l1.len() == n + b.len());
        if b.len() == 0 {
            assert(l1 =~= la);
            assert(l2 =~= a);
            assert(last_n(l1, n) =~= la);
            assert(last_n(l2, n) =~= la);
        } else {
            assert(l1.len() > n);
            assert(l2.len() > n);
            assert(last_n(l1, n).len() == n && last_n(l2, n).len() == n);
            assert forall|i: int| 0 <= i < n implies last_n(l1, n)[i] == last_n(l2, n)[i] by {
                assert(last_n(l1, n)[i] == l1[b.len() + i]);
                assert(last_n(l2, n)[i] == l2[a.len() + b.len() - n + i]);
                if b.len() + i < n {
                    assert(l1[b.len() + i] == la[b.len() + i]);
                    assert(la[b.len() + i] == a[a.len() - n + b.len() + i]);
                    assert(l2[a.len() + b.len() - n + i] == a[a.len() + b.len() - n + i]);
                } else {
                    assert(l1[b.len() + i] == b[b.len() + i - n]);
                    assert(l2[a.len() + b.len() - n + i] == b[b.len() - n + i]);
                }
            }
        }
    }
}

} // verus!
