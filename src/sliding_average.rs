use vstd::prelude::*;
use crate::actor::{Actor, ActorError};
use crate::message::{Msg, MsgData, Price, PriceUpdated};

verus! {

/// One step of an exponential moving average with smoothing factor
/// `2 / (n + 1)`: `prev` moves towards `p` by that fraction of the distance,
/// the step rounded towards `prev`.
pub open spec fn ema(prev: Price, p: Price, n: nat) -> int {
    if p >= prev {
        prev + (p - prev) * 2 / ((n + 1) as int)
    } else {
        prev - (prev - p) * 2 / ((n + 1) as int)
    }
}

/// Smooths live prices into an exponential moving average and reports it
/// once more than `min_price_points` live prices have been seen.
pub struct SlidingAverage {
    pub window_millis: u128,
    pub latest_average: Option<Price>,
    /// Live prices seen, counted up to `min_price_points`.
    pub counted_price_points: u128,
    /// The window length over the reporting interval.
    pub min_price_points: u128,
}

impl SlidingAverage {
    pub open spec fn wf(self) -> bool {
        self.counted_price_points <= self.min_price_points
    }

    /// The average after seeing live price `p` is a price. Always so once
    /// `min_price_points >= 1`; a zero-length window smooths by a factor of
    /// two and may overshoot.
    pub open spec fn in_range(self, p: Price) -> bool {
        match self.latest_average {
            Some(prev) => 0 <= ema(prev, p, self.min_price_points as nat) <= u64::MAX,
            None => true,
        }
    }

    /// The average after seeing live price `p`.
    pub open spec fn next_average(self, p: Price) -> Price {
        match self.latest_average {
            Some(prev) => ema(prev, p, self.min_price_points as nat) as Price,
            None => p,
        }
    }

    /// What the actor answers to `msg`.
    pub open spec fn answer(self, msg: Msg) -> Seq<MsgData> {
        match msg.data {
            MsgData::LivePriceUpdated(e) => if self.counted_price_points >= self.min_price_points {
                seq![
                    MsgData::AveragePriceUpdated(
                        PriceUpdated {
                            pair_id: e.pair_id,
                            datetime: e.datetime,
                            price: self.next_average(e.price),
                        },
                    ),
                ]
            } else {
                Seq::empty()
            },
            _ => Seq::empty(),
        }
    }

    /// The actor after handling `msg`.
    pub open spec fn after(self, msg: Msg) -> SlidingAverage {
        match msg.data {
            MsgData::LivePriceUpdated(e) => SlidingAverage {
                latest_average: Some(self.next_average(e.price)),
                counted_price_points: if self.counted_price_points >= self.min_price_points {
                    self.counted_price_points
                } else {
                    (self.counted_price_points + 1) as u128
                },
                ..self
            },
            _ => self,
        }
    }

    /// An aggregator reporting every `interval_millis` over a window of
    /// `window_millis`; it stays silent for the first `window_millis /
    /// interval_millis` live prices.
    pub fn new(interval_millis: u128, window_millis: u128) -> (r: SlidingAverage)
        requires
            interval_millis > 0,
        ensures
            r.wf(),
            r.window_millis == window_millis,
            r.latest_average is None,
            r.counted_price_points == 0,
            r.min_price_points == window_millis / interval_millis,
    {
        SlidingAverage {
            window_millis,
            latest_average: None,
            counted_price_points: 0,
            min_price_points: window_millis / interval_millis,
        }
    }

    /// One step of the moving average from `prev` towards `p`; `None` when
    /// it leaves the range of a price.
    fn smooth(&self, prev: Price, p: Price) -> (r: Option<Price>)
        ensures
            match r {
                Some(v) => v == ema(prev, p, self.min_price_points as nat),
                None => !(0 <= ema(prev, p, self.min_price_points as nat) <= u64::MAX),
            },
    {
        let n = self.min_price_points;
        let d: u128 = if p >= prev {
            (p - prev) as u128
        } else {
            (prev - p) as u128
        };
        let step = if n < u128::MAX {
            d * 2 / (n + 1)
        } else {
            0
        };
        proof {
            lemma_step_vanishes(d as nat, n as nat);
        }
        if p >= prev {
            let total = prev as u128 + step;
            if total <= u64::MAX as u128 {
                Some(total as u64)
            } else {
                None
            }
        } else {
            if step <= prev as u128 {
                Some((prev as u128 - step) as u64)
            } else {
                None
            }
        }
    }
}

/// For the largest `n` a step is zero.
proof fn lemma_step_vanishes(d: nat, n: nat)
    requires
        d <= u64::MAX,
    ensures
        d * 2 / (n + 1) <= d * 2,
        n >= u128::MAX ==> d * 2 / (n + 1) == 0,
{
    vstd::arithmetic::div_mod::lemma_div_is_ordered_by_denominator((d * 2) as int, 1, (n + 1) as int);
    if n >= u128::MAX {
        vstd::arithmetic::div_mod::lemma_basic_div((d * 2) as int, (n + 1) as int);
    }
}

impl Actor for SlidingAverage {
    open spec fn reacts(
        &self,
        msg: Msg,
        next: SlidingAverage,
        r: Result<Seq<MsgData>, ActorError>,
    ) -> bool {
        self.wf() ==> match msg.data {
            MsgData::LivePriceUpdated(e) if !self.in_range(e.price) => r == Err::<
                Seq<MsgData>,
                ActorError,
            >(ActorError::AverageOutOfRange) && next == *self,
            _ => r == Ok::<Seq<MsgData>, ActorError>(self.answer(msg)) && next == self.after(msg)
                && next.wf(),
        }
    }

    fn act(&mut self, msg: &Msg) -> (r: Result<Vec<MsgData>, ActorError>) {
        if !self.wf_exec() {
            return Ok(Vec::new());
        }
        let res = match &msg.data {
            MsgData::LivePriceUpdated(e) => {
                let current = match self.latest_average {
                    Some(prev) => match self.smooth(prev, e.price) {
                        Some(v) => v,
                        None => {
                            return Err(ActorError::AverageOutOfRange);
                        },
                    },
                    None => e.price,
                };
                self.latest_average = Some(current);
                if self.counted_price_points >= self.min_price_points {
                    let out = vec![
                        MsgData::AveragePriceUpdated(
                            PriceUpdated {
                                pair_id: e.pair_id.clone(),
                                datetime: e.datetime,
                                price: current,
                            },
                        ),
                    ];
                    assert(out@ =~= old(self).answer(*msg));
                    out
                } else {
                    self.counted_price_points = self.counted_price_points + 1;
                    let out: Vec<MsgData> = Vec::new();
                    assert(out@ =~= old(self).answer(*msg));
                    out
                }
            },
            _ => Vec::new(),
        };
        proof {
            assert(res@ =~= old(self).answer(*msg));
        }
        Ok(res)
    }
}

impl SlidingAverage {
    /// Whether the configuration is well formed.
    fn wf_exec(&self) -> (r: bool)
        ensures
            r == self.wf(),
    {
        self.counted_price_points <= self.min_price_points
    }
}

/// How many live price updates `msgs` holds.
pub open spec fn live_count(msgs: Seq<Msg>) -> nat
    decreases msgs.len(),
{
    if msgs.len() == 0 {
        0
    } else {
        (if msgs[0].data is LivePriceUpdated {
            1nat
        } else {
            0nat
        }) + live_count(msgs.drop_first())
    }
}

/// What the aggregator `a` answers to each message of `msgs`, fed in order.
pub open spec fn answers_to(a: SlidingAverage, msgs: Seq<Msg>) -> Seq<Seq<MsgData>>
    decreases msgs.len(),
{
    if msgs.len() == 0 {
        Seq::empty()
    } else {
        seq![a.answer(msgs[0])] + answers_to(a.after(msgs[0]), msgs.drop_first())
    }
}

proof fn lemma_silent_while_counting(a: SlidingAverage, msgs: Seq<Msg>)
    requires
        a.wf(),
        live_count(msgs) <= a.min_price_points - a.counted_price_points,
    ensures
        answers_to(a, msgs).len() == msgs.len(),
        forall|i: int| 0 <= i < msgs.len() ==> #[trigger] answers_to(a, msgs)[i] == Seq::<MsgData>::empty(),
    decreases msgs.len(),
{
    if msgs.len() > 0 {
        let next = a.after(msgs[0]);
        lemma_silent_while_counting(next, msgs.drop_first());
        let rest = answers_to(next, msgs.drop_first());
        assert(answers_to(a, msgs) == seq![a.answer(msgs[0])] + rest);
        assert forall|i: int| 0 <= i < msgs.len() implies #[trigger] answers_to(a, msgs)[i]
            == Seq::<MsgData>::empty() by {
            if i > 0 {
                assert(answers_to(a, msgs)[i] == rest[i - 1]);
            } else {
                assert(a.answer(msgs[0]) =~= Seq::<MsgData>::empty());
            }
        }
    }
}

/// Warm-up: a fresh aggregator answers nothing at all while it has seen at
/// most `min_price_points` (the window over the interval) live prices.
pub proof fn lemma_warm_up(a: SlidingAverage, msgs: Seq<Msg>)
    requires
        a.wf(),
        a.counted_price_points == 0,
        a.latest_average is None,
        live_count(msgs) <= a.min_price_points,
    ensures
        answers_to(a, msgs).len() == msgs.len(),
        forall|i: int| 0 <= i < msgs.len() ==> #[trigger] answers_to(a, msgs)[i] == Seq::<MsgData>::empty(),
{
    lemma_silent_while_counting(a, msgs);
}

} // verus!
