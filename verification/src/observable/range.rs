//! A finite, self-driving producer: the integers of a half-open range,
//! then completion. The concrete source the verified laws and the tests
//! drive pipelines with.

use vstd::prelude::*;
use crate::notification::Notification;
use crate::observable::{IntoShared, Observable};
use crate::ops::SharedOp;
use crate::observer::{lemma_obs_steps_push, obs_step, obs_steps, Observer};
use crate::subscriber::Subscriber;
use crate::subscription::SubscriptionLike;

verus! {

/// What `RangeObservable { start, end }` delivers: one `Next` per integer
/// of `start..end` in ascending order, then `Complete`.
pub open spec fn range_events<E>(start: int, end: int) -> Seq<Notification<i32, E>> {
    Seq::new(
        (if end >= start {
            end - start
        } else {
            0
        }) as nat,
        |i: int| Notification::Next((start + i) as i32),
    ).push(Notification::Complete)
}

/// The values `start..end`, delivered in order, then completion.
#[derive(Clone, Copy)]
pub struct RangeObservable {
    pub start: i32,
    pub end: i32,
}

/// Compose a producer for the values `start..end` (empty when
/// `end <= start`), completing after the last one.
pub fn range(start: i32, end: i32) -> (r: RangeObservable)
    ensures
        r.start == start,
        r.end == end,
{
    RangeObservable { start, end }
}

impl RangeObservable {
    /// An independent handle to the same production definition; each
    /// binding of either handle runs with its own state.
    pub fn fork(&self) -> (r: RangeObservable)
        ensures
            r == *self,
    {
        *self
    }
}

impl IntoShared for RangeObservable {
    type Shared = SharedOp<RangeObservable>;

    open spec fn into_shared_ens(&self, r: &Self::Shared) -> bool {
        r.0 == *self
    }

    fn to_shared(self) -> Self::Shared {
        SharedOp(self)
    }
}

impl<E, O: Observer<i32, E>, U: SubscriptionLike> Observable<i32, E, O, U> for RangeObservable {
    type Unsub = Subscriber<O, U>;

    open spec fn ready(&self) -> bool {
        true
    }

    open spec fn sub_ens(&self, s: Subscriber<O, U>, r: Subscriber<O, U>) -> bool {
        obs_steps(s, range_events::<E>(self.start as int, self.end as int), r)
    }

    #[verifier::loop_isolation(false)]
    fn actual_subscribe(self, subscriber: Subscriber<O, U>) -> (r: Subscriber<O, U>) {
        let ghost s0 = subscriber;
        let mut subscriber = subscriber;
        let n: i64 = if self.end >= self.start {
            self.end as i64 - self.start as i64
        } else {
            0
        };
        let mut k: i64 = 0;
        while k < n
            invariant
                0 <= k <= n,
                subscriber.inv(),
                obs_steps(
                    s0,
                    Seq::new(k as nat, |i: int| Notification::Next((self.start + i) as i32)),
                    subscriber,
                ),
            decreases n - k,
        {
            let ghost pre = subscriber;
            let value: i32 = (self.start as i64 + k) as i32;
            subscriber.next(value);
            proof {
                let evs = Seq::new(k as nat, |i: int| Notification::Next((self.start + i) as i32));
                lemma_obs_steps_push(s0, evs, pre, Notification::Next(value), subscriber);
                assert(evs.push(Notification::Next(value)) =~= Seq::new(
                    (k + 1) as nat,
                    |i: int| Notification::Next((self.start + i) as i32),
                ));
            }
            k = k + 1;
        }
        let ghost pre = subscriber;
        subscriber.complete();
        proof {
            let evs = Seq::new(n as nat, |i: int| Notification::Next((self.start + i) as i32));
            lemma_obs_steps_push(s0, evs, pre, Notification::Complete, subscriber);
            assert(evs.push(Notification::Complete) =~= range_events::<E>(
                self.start as int,
                self.end as int,
            ));
        }
        subscriber
    }
}

} // verus!
