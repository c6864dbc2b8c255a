use vstd::prelude::*;
use crate::actor::{Actor, ActorError};
use crate::message::{Msg, MsgData, Price, PriceUpdated, Timestamp};

verus! {

/// A price observed at a time.
#[derive(Debug, PartialEq, Eq, Structural, Clone, Copy)]
pub struct TimePricePoint {
    pub datetime: Timestamp,
    pub price: Price,
}

/// The sum of the prices of `s`.
pub open spec fn price_sum(s: Seq<TimePricePoint>) -> int
    decreases s.len(),
{
    if s.len() == 0 {
        0
    } else {
        price_sum(s.drop_last()) + s.last().price
    }
}

/// A point is no older than `window` before `now`.
pub open spec fn recent(now: Timestamp, window: u128) -> spec_fn(TimePricePoint) -> bool {
    |x: TimePricePoint| x.datetime >= now - window
}

/// The points of `s` no older than `window` before `now`.
pub open spec fn in_window(s: Seq<TimePricePoint>, now: Timestamp, window: u128) -> Seq<TimePricePoint> {
    s.filter(recent(now, window))
}

/// Reports the arithmetic mean of the live prices within a sliding time
/// window, as soon as the window holds more than one of them.
pub struct SlidingAverageAggregator {
    pub window_millis: u128,
    pub events: Vec<TimePricePoint>,
}

impl SlidingAverageAggregator {
    /// The window after observing price `p` at time `t`.
    pub open spec fn window_after(self, t: Timestamp, p: Price) -> Seq<TimePricePoint> {
        in_window(self.events@.push(TimePricePoint { datetime: t, price: p }), t, self.window_millis)
    }

    /// What the aggregator answers to `msg`: the mean of the window, rounded
    /// down, when it holds more than one price.
    pub open spec fn answer(self, msg: Msg) -> Seq<MsgData> {
        match msg.data {
            MsgData::LivePriceUpdated(e) => {
                let w = self.window_after(e.datetime, e.price);
                if w.len() > 1 {
                    seq![
                        MsgData::AveragePriceUpdated(
                            PriceUpdated {
                                pair_id: e.pair_id,
                                datetime: e.datetime,
                                price: (price_sum(w) / (w.len() as int)) as Price,
                            },
                        ),
                    ]
                } else {
                    Seq::empty()
                }
            },
            _ => Seq::empty(),
        }
    }

    pub fn new(window_millis: u128) -> (r: SlidingAverageAggregator)
        ensures
            r.window_millis == window_millis,
            r.events@ == Seq::<TimePricePoint>::empty(),
    {
        SlidingAverageAggregator { window_millis, events: Vec::new() }
    }
}

/// A sum of `n` prices is at most `n` times the largest price.
proof fn lemma_sum_bounded(s: Seq<TimePricePoint>)
    ensures
        0 <= price_sum(s) <= s.len() * (u64::MAX as int),
    decreases s.len(),
{
    if s.len() > 0 {
        lemma_sum_bounded(s.drop_last());
    }
}

/// The mean of a sum over a positive count is at most the largest price.
proof fn lemma_mean_bounded(sum: int, n: int)
    requires
        n > 0,
        0 <= sum <= n * (u64::MAX as int),
    ensures
        0 <= sum / n <= u64::MAX,
{
    vstd::arithmetic::div_mod::lemma_div_is_ordered(sum, n * (u64::MAX as int), n);
    vstd::arithmetic::div_mod::lemma_div_multiples_vanish(u64::MAX as int, n);
    vstd::arithmetic::div_mod::lemma_div_pos_is_pos(sum, n);
}

impl Actor for SlidingAverageAggregator {
    open spec fn reacts(
        &self,
        msg: Msg,
        next: SlidingAverageAggregator,
        r: Result<Seq<MsgData>, ActorError>,
    ) -> bool {
        &&& r == Ok::<Seq<MsgData>, ActorError>(self.answer(msg))
        &&& next.window_millis == self.window_millis
        &&& match msg.data {
            MsgData::LivePriceUpdated(e) => next.events@ == self.window_after(e.datetime, e.price),
            _ => next.events@ == self.events@,
        }
    }

    fn act(&mut self, msg: &Msg) -> (r: Result<Vec<MsgData>, ActorError>) {
        match &msg.data {
            MsgData::LivePriceUpdated(e) => {
                let now = e.datetime;
                let window = self.window_millis;
                let ghost all = old(self).events@.push(TimePricePoint { datetime: now, price: e.price });
                self.events.push(TimePricePoint { datetime: now, price: e.price });
                assert(self.events@ == all);
                let mut kept: Vec<TimePricePoint> = Vec::new();
                let mut sum: u128 = 0;
                let mut k: usize = 0;
                let n = self.events.len();
                while k < n
                    invariant
                        n == self.events@.len(),
                        self.events@ == all,
                        k <= n,
                        kept@ == in_window(all.take(k as int), now, window),
                        sum == price_sum(kept@),
                        kept.len() <= k,
                    decreases n - k,
                {
                    let x = self.events[k];
                    assert(all.take(k + 1).drop_last() =~= all.take(k as int));
                    assert(all.take(k + 1).last() == x);
                    let ghost t = all.take(k + 1);
                    assert(t.len() > 0);
                    proof {
                        reveal(Seq::filter);
                    }
                    assert(recent(now, window)(x) == (x.datetime >= now - window));
                    assert(t.filter(recent(now, window)) == if recent(now, window)(t.last()) {
                        t.drop_last().filter(recent(now, window)).push(t.last())
                    } else {
                        t.drop_last().filter(recent(now, window))
                    });
                    if now <= window || x.datetime >= now - window {
                        proof {
                            lemma_sum_bounded(kept@);
                            assert((kept.len() as int) * (u64::MAX as int) + (u64::MAX as int) <= u128::MAX) by (nonlinear_arith)
                                requires
                                    kept.len() <= usize::MAX,
                                    usize::MAX <= u64::MAX,
                            ;
                        }
                        let ghost before = kept@;
                        kept.push(x);
                        assert(kept@.drop_last() =~= before);
                        sum = sum + x.price as u128;
                    }
                    k = k + 1;
                }
                assert(all.take(n as int) =~= all);
                self.events = kept;
                let out = if self.events.len() > 1 {
                    let count = self.events.len() as u128;
                    proof {
                        lemma_sum_bounded(self.events@);
                        lemma_mean_bounded(sum as int, count as int);
                    }
                    vec![
                        MsgData::AveragePriceUpdated(
                            PriceUpdated {
                                pair_id: e.pair_id.clone(),
                                datetime: now,
                                price: (sum / count) as u64,
                            },
                        ),
                    ]
                } else {
                    Vec::new()
                };
                assert(out@ =~= old(self).answer(*msg));
                Ok(out)
            },
            _ => {
                let out: Vec<MsgData> = Vec::new();
                assert(out@ =~= old(self).answer(*msg));
                Ok(out)
            },
        }
    }
}

} // verus!
