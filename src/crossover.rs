use vstd::prelude::*;
use crate::actor::{Actor, ActorError};
use crate::message::{Msg, MsgData, Price, Rate, UNIT};

verus! {

/// The upper edge of the band around `avg`, scaled by `UNIT`:
/// `avg * (1 + offset)`.
pub open spec fn upper_band(avg: Price, offset: Rate) -> int {
    avg * (UNIT + offset)
}

/// The lower edge of the band around `avg`, scaled by `UNIT`:
/// `avg * (1 - offset)`.
pub open spec fn lower_band(avg: Price, offset: Rate) -> int {
    avg * (UNIT - offset)
}

/// The price carried by a live price update.
pub open spec fn live_price(m: Msg) -> Price {
    match m.data {
        MsgData::LivePriceUpdated(e) => e.price,
        _ => 0,
    }
}

/// Emits `Buy` when the live price leaves the band around the latest average
/// upwards and `Sell` when it leaves it downwards, once per excursion.
pub struct SimpleCrossover {
    pub offset: Rate,
    pub latest_average: Option<Price>,
    pub latest_live: Option<Price>,
}

impl SimpleCrossover {
    pub open spec fn wf(self) -> bool {
        self.offset < UNIT
    }

    /// The decision on live price `p`.
    pub open spec fn signal(self, p: Price) -> Seq<MsgData> {
        match self.latest_average {
            None => Seq::empty(),
            Some(avg) => {
                let up = upper_band(avg, self.offset);
                let low = lower_band(avg, self.offset);
                if p * UNIT > up && (self.latest_live is None || self.latest_live.unwrap() * UNIT
                    < up) {
                    seq![MsgData::Buy]
                } else if p * UNIT < low && (self.latest_live is None
                    || self.latest_live.unwrap() * UNIT > low) {
                    seq![MsgData::Sell]
                } else {
                    Seq::empty()
                }
            },
        }
    }

    /// What the actor answers to `msg`.
    pub open spec fn answer(self, msg: Msg) -> Seq<MsgData> {
        match msg.data {
            MsgData::LivePriceUpdated(e) => self.signal(e.price),
            _ => Seq::empty(),
        }
    }

    /// The actor after handling `msg`: a live price is remembered only once
    /// an average is known.
    pub open spec fn after(self, msg: Msg) -> SimpleCrossover {
        match msg.data {
            MsgData::LivePriceUpdated(e) => if self.latest_average is Some {
                SimpleCrossover { latest_live: Some(e.price), ..self }
            } else {
                self
            },
            MsgData::AveragePriceUpdated(e) => SimpleCrossover {
                latest_average: Some(e.price),
                ..self
            },
            _ => self,
        }
    }

    /// A crossover with hysteresis `offset` (a fraction below one), knowing
    /// neither an average nor a live price yet.
    pub fn new(offset: Rate) -> (r: SimpleCrossover)
        requires
            offset < UNIT,
        ensures
            r.wf(),
            r.offset == offset,
            r.latest_average is None,
            r.latest_live is None,
    {
        SimpleCrossover { offset, latest_average: None, latest_live: None }
    }

    /// The decision on live price `p`.
    fn decide(&self, p: Price) -> (r: Vec<MsgData>)
        requires
            self.wf(),
        ensures
            r@ == self.signal(p),
    {
        match self.latest_average {
            None => Vec::new(),
            Some(avg) => {
                let up = scaled(avg, UNIT + self.offset);
                let low = scaled(avg, UNIT - self.offset);
                let now = scaled(p, UNIT);
                let prior = match self.latest_live {
                    Some(l) => Some(scaled(l, UNIT)),
                    None => None,
                };
                let r = if now > up && match prior {
                    None => true,
                    Some(l) => l < up,
                } {
                    vec![MsgData::Buy]
                } else if now < low && match prior {
                    None => true,
                    Some(l) => l > low,
                } {
                    vec![MsgData::Sell]
                } else {
                    Vec::new()
                };
                assert(r@ =~= self.signal(p));
                r
            },
        }
    }
}

/// `x * f` without overflow, for a factor of at most two units.
fn scaled(x: u64, f: u64) -> (r: u128)
    requires
        f <= 2 * UNIT,
    ensures
        r == x * f,
{
    assert((x as int) * (f as int) <= (u64::MAX as int) * (2 * UNIT as int)) by (nonlinear_arith)
        requires
            f <= 2 * UNIT,
            x <= u64::MAX,
    ;
    (x as u128) * (f as u128)
}

impl Actor for SimpleCrossover {
    open spec fn reacts(
        &self,
        msg: Msg,
        next: SimpleCrossover,
        r: Result<Seq<MsgData>, ActorError>,
    ) -> bool {
        self.wf() ==> r == Ok::<Seq<MsgData>, ActorError>(self.answer(msg)) && next == self.after(
            msg,
        ) && next.wf()
    }

    fn act(&mut self, msg: &Msg) -> (r: Result<Vec<MsgData>, ActorError>) {
        if self.offset >= UNIT {
            return Ok(Vec::new());
        }
        let res = match &msg.data {
            MsgData::LivePriceUpdated(e) => {
                let out = self.decide(e.price);
                if self.latest_average.is_some() {
                    self.latest_live = Some(e.price);
                }
                out
            },
            MsgData::AveragePriceUpdated(e) => {
                self.latest_average = Some(e.price);
                Vec::new()
            },
            _ => Vec::new(),
        };
        proof {
            assert(res@ =~= old(self).answer(*msg));
        }
        Ok(res)
    }
}

/// What the crossover `c` answers to each message of `msgs`, fed in order.
pub open spec fn signals(c: SimpleCrossover, msgs: Seq<Msg>) -> Seq<Seq<MsgData>>
    decreases msgs.len(),
{
    if msgs.len() == 0 {
        Seq::empty()
    } else {
        seq![c.answer(msgs[0])] + signals(c.after(msgs[0]), msgs.drop_first())
    }
}

/// Every message of `msgs` is a live price update.
pub open spec fn all_live(msgs: Seq<Msg>) -> bool {
    forall|k: int| 0 <= k < msgs.len() ==> (#[trigger] msgs[k]).data is LivePriceUpdated
}

/// With the average fixed at `avg`: a `Buy` answers a price above the upper
/// band, and a later `Buy` comes only after a price strictly under it; a
/// `Sell` answers a price below the lower band, and a later `Sell` comes only
/// after a price strictly over it.
pub proof fn lemma_signal_sides(c: SimpleCrossover, avg: Price, msgs: Seq<Msg>)
    requires
        c.wf(),
        c.latest_average == Some(avg),
        all_live(msgs),
    ensures
        signals(c, msgs).len() == msgs.len(),
        forall|i: int|
            0 <= i < msgs.len() && #[trigger] signals(c, msgs)[i] == seq![MsgData::Buy] ==> live_price(
                msgs[i],
            ) * UNIT > upper_band(avg, c.offset) && (i > 0 ==> live_price(msgs[i - 1]) * UNIT
                < upper_band(avg, c.offset)),
        forall|i: int|
            0 <= i < msgs.len() && #[trigger] signals(c, msgs)[i] == seq![MsgData::Sell]
                ==> live_price(msgs[i]) * UNIT < lower_band(avg, c.offset) && (i > 0
                ==> live_price(msgs[i - 1]) * UNIT > lower_band(avg, c.offset)),
    decreases msgs.len(),
{
    if msgs.len() > 0 {
        let next = c.after(msgs[0]);
        let tail = msgs.drop_first();
        assert(all_live(tail)) by {
            assert forall|k: int| 0 <= k < tail.len() implies (#[trigger] tail[k]).data is LivePriceUpdated by {
                assert(tail[k] == msgs[k + 1]);
            }
        }
        assert(msgs[0].data is LivePriceUpdated);
        lemma_signal_sides(next, avg, tail);
        let rest = signals(next, tail);
        assert(signals(c, msgs) == seq![c.answer(msgs[0])] + rest);
        assert(next.latest_live == Some(live_price(msgs[0])));
        assert forall|i: int|
            0 <= i < msgs.len() && #[trigger] signals(c, msgs)[i] == seq![MsgData::Buy] implies live_price(
                msgs[i],
            ) * UNIT > upper_band(avg, c.offset) && (i > 0 ==> live_price(msgs[i - 1]) * UNIT
                < upper_band(avg, c.offset)) by {
            if i == 0 {
                assert(seq![MsgData::Buy][0] == MsgData::Buy);
            } else {
                assert(signals(c, msgs)[i] == rest[i - 1]);
                assert(tail[i - 1] == msgs[i]);
                if i > 1 {
                    assert(tail[i - 2] == msgs[i - 1]);
                } else {
                    assert(tail[0] == msgs[1]);
                    assert(seq![MsgData::Buy][0] == MsgData::Buy);
                }
            }
        }
        assert forall|i: int|
            0 <= i < msgs.len() && #[trigger] signals(c, msgs)[i] == seq![MsgData::Sell] implies live_price(
                msgs[i],
            ) * UNIT < lower_band(avg, c.offset) && (i > 0 ==> live_price(msgs[i - 1]) * UNIT
                > lower_band(avg, c.offset)) by {
            if i == 0 {
                assert(seq![MsgData::Sell][0] == MsgData::Sell);
            } else {
                assert(signals(c, msgs)[i] == rest[i - 1]);
                assert(tail[i - 1] == msgs[i]);
                if i > 1 {
                    assert(tail[i - 2] == msgs[i - 1]);
                } else {
                    assert(tail[0] == msgs[1]);
                    assert(seq![MsgData::Sell][0] == MsgData::Sell);
                }
            }
        }
    }
}

/// No repeated signal while the price stays on one side: with the average
/// fixed, between two `Buy`s the live price returned strictly under the upper
/// band, and between two `Sell`s strictly over the lower band.
pub proof fn lemma_no_repeat_signal(c: SimpleCrossover, avg: Price, msgs: Seq<Msg>, i: int, j: int)
    requires
        c.wf(),
        c.latest_average == Some(avg),
        all_live(msgs),
        0 <= i < j < msgs.len(),
    ensures
        signals(c, msgs)[i] == seq![MsgData::Buy] && signals(c, msgs)[j] == seq![MsgData::Buy]
            ==> exists|k: int| i < k < j && #[trigger] live_price(msgs[k]) * UNIT < upper_band(avg, c.offset),
        signals(c, msgs)[i] == seq![MsgData::Sell] && signals(c, msgs)[j] == seq![MsgData::Sell]
            ==> exists|k: int| i < k < j && #[trigger] live_price(msgs[k]) * UNIT > lower_band(avg, c.offset),
{
    lemma_signal_sides(c, avg, msgs);
    if signals(c, msgs)[i] == seq![MsgData::Buy] && signals(c, msgs)[j] == seq![MsgData::Buy] {
        assert(live_price(msgs[j - 1]) * UNIT < upper_band(avg, c.offset));
    }
    if signals(c, msgs)[i] == seq![MsgData::Sell] && signals(c, msgs)[j] == seq![MsgData::Sell] {
        assert(live_price(msgs[j - 1]) * UNIT > lower_band(avg, c.offset));
    }
}

/// Hysteresis: with the average fixed and no live price inside the band,
/// two `Buy`s are separated by a price below the lower band, and two `Sell`s
/// by a price above the upper band.
pub proof fn lemma_hysteresis(c: SimpleCrossover, avg: Price, msgs: Seq<Msg>, i: int, j: int)
    requires
        c.wf(),
        c.latest_average == Some(avg),
        all_live(msgs),
        forall|k: int|
            0 <= k < msgs.len() ==> #[trigger] live_price(msgs[k]) * UNIT > upper_band(avg, c.offset)
                || live_price(msgs[k]) * UNIT < lower_band(avg, c.offset),
        0 <= i < j < msgs.len(),
    ensures
        signals(c, msgs)[i] == seq![MsgData::Buy] && signals(c, msgs)[j] == seq![MsgData::Buy]
            ==> exists|k: int| i < k < j && #[trigger] live_price(msgs[k]) * UNIT < lower_band(avg, c.offset),
        signals(c, msgs)[i] == seq![MsgData::Sell] && signals(c, msgs)[j] == seq![MsgData::Sell]
            ==> exists|k: int| i < k < j && #[trigger] live_price(msgs[k]) * UNIT > upper_band(avg, c.offset),
{
    lemma_signal_sides(c, avg, msgs);
    assert(lower_band(avg, c.offset) <= upper_band(avg, c.offset)) by (nonlinear_arith)
        requires
            c.offset < UNIT,
    ;
    if signals(c, msgs)[i] == seq![MsgData::Buy] && signals(c, msgs)[j] == seq![MsgData::Buy] {
        assert(live_price(msgs[j - 1]) * UNIT < lower_band(avg, c.offset));
    }
    if signals(c, msgs)[i] == seq![MsgData::Sell] && signals(c, msgs)[j] == seq![MsgData::Sell] {
        assert(live_price(msgs[j - 1]) * UNIT > upper_band(avg, c.offset));
    }
}

} // verus!
