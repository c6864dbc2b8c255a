use vstd::prelude::*;
use std::collections::HashMap;
use crate::exchange::{Asset, Assets, Exchange, ExchangeError, ExchangeOptions, MarketOrder};
use crate::id::IdProvider;
use crate::message::{Amount, MessageId, Msg, MsgData, MsgMetaData, OrderType, Price, PriceUpdated, Rate, Timestamp, UNIT};

verus! {

broadcast use vstd::std_specs::hash::group_hash_axioms;

/// Prices by correlation id of the live price updates in `events`; a later
/// update of the same id replaces an earlier one.
pub open spec fn price_index(events: Seq<Msg>) -> Map<MessageId, Price>
    decreases events.len(),
{
    if events.len() == 0 {
        Map::empty()
    } else {
        let rest = price_index(events.drop_last());
        match events.last().data {
            MsgData::LivePriceUpdated(e) => rest.insert(events.last().metadata.correlation_id, e.price),
            _ => rest,
        }
    }
}

/// The share of an order's amount left after the fee; a fee above one takes all.
pub open spec fn kept_rate(fee: Rate) -> int {
    if fee <= UNIT {
        UNIT - fee
    } else {
        0
    }
}

/// What an order of `side` over `amount` acquires at `price` after `fee`:
/// `amount * (1 - fee) / price` of the base currency for a buy (nothing at a
/// zero price), `amount * (1 - fee) * price` of the quote currency for a sell.
pub open spec fn acquired(side: OrderType, amount: Amount, price: Price, fee: Rate) -> int {
    let net = amount * kept_rate(fee) / (UNIT as int);
    match side {
        OrderType::Buy => if price == 0 {
            0
        } else {
            net * UNIT / (price as int)
        },
        OrderType::Sell => net * price / (UNIT as int),
    }
}

/// A candle of recorded market data: the close price at a time.
#[derive(Debug, PartialEq, Eq, Structural, Clone, Copy)]
pub struct Candle {
    pub time: Timestamp,
    pub close: Price,
}

/// The envelope announcing candle `c` under id `id`: it is its own cause and
/// correlation, and its correlation time and price are the candle's.
pub open spec fn candle_event(pair_id: String, c: Candle, id: MessageId) -> Msg {
    Msg {
        data: MsgData::LivePriceUpdated(PriceUpdated { pair_id, datetime: c.time, price: c.close }),
        metadata: MsgMetaData {
            id,
            correlation_time: c.time,
            creation_time: 0,
            correlation_id: id,
            correlation_price: c.close,
            causation_id: id,
        },
    }
}

/// Turns recorded candles into a source stream: one self-rooted live price
/// update per candle, in order, under fresh ids, then the shutdown sentinel.
pub fn candle_events<I: IdProvider>(pair_id: &String, candles: &Vec<Candle>, ids: &mut I) -> (r: Vec<Msg>)
    ensures
        r@.len() == candles@.len() + 1,
        forall|k: int|
            0 <= k < candles@.len() ==> #[trigger] r@[k] == candle_event(
                *pair_id,
                candles@[k],
                r@[k].metadata.id,
            ),
        r@.last().data is Shutdown,
{
    let mut r: Vec<Msg> = Vec::new();
    let mut k: usize = 0;
    while k < candles.len()
        invariant
            k <= candles@.len(),
            r@.len() == k,
            forall|j: int|
                0 <= j < k ==> #[trigger] r@[j] == candle_event(*pair_id, candles@[j], r@[j].metadata.id),
        decreases candles@.len() - k,
    {
        let c = candles[k];
        let id = ids.new_random();
        r.push(
            Msg {
                data: MsgData::LivePriceUpdated(
                    PriceUpdated { pair_id: pair_id.clone(), datetime: c.time, price: c.close },
                ),
                metadata: MsgMetaData {
                    id,
                    correlation_time: c.time,
                    creation_time: 0,
                    correlation_id: id,
                    correlation_price: c.close,
                    causation_id: id,
                },
            },
        );
        k = k + 1;
    }
    r.push(Msg::with_data(MsgData::Shutdown));
    r
}

/// A deterministic exchange over a recorded event stream. Orders execute at
/// the price of the live update their correlation id names.
pub struct SimulatedExchange {
    pub event_stream: Vec<Msg>,
    pub assets: Assets,
    pub prices: HashMap<MessageId, Price>,
    pub options: ExchangeOptions,
}

impl SimulatedExchange {
    pub fn new(event_stream: Vec<Msg>, assets: Assets, options: ExchangeOptions) -> (r: SimulatedExchange)
        ensures
            r.event_stream@ == event_stream@,
            r.assets == assets,
            r.prices@ == price_index(event_stream@),
            r.options == options,
    {
        let mut prices: HashMap<MessageId, Price> = HashMap::new();
        let mut k: usize = 0;
        while k < event_stream.len()
            invariant
                k <= event_stream@.len(),
                prices@ == price_index(event_stream@.take(k as int)),
            decreases event_stream@.len() - k,
        {
            let event = &event_stream[k];
            assert(event_stream@.take(k + 1).drop_last() =~= event_stream@.take(k as int));
            if let MsgData::LivePriceUpdated(e) = &event.data {
                prices.insert(event.metadata.correlation_id, e.price);
            }
            k = k + 1;
        }
        assert(event_stream@.take(k as int) =~= event_stream@);
        SimulatedExchange { event_stream, assets, prices, options }
    }

    /// `got` of the currency acquired and nothing left of the one given up.
    fn settle(&mut self, order: &MarketOrder, got: Amount)
        ensures
            final(self).event_stream == old(self).event_stream,
            final(self).prices == old(self).prices,
            final(self).options == old(self).options,
            final(self).assets == settled(*order, got),
    {
        match order.order_type {
            OrderType::Buy => {
                self.assets.quote = Some(Asset { name: order.quote.clone(), amount: 0 });
                self.assets.base = Some(Asset { name: order.base.clone(), amount: got });
            },
            OrderType::Sell => {
                self.assets.quote = Some(Asset { name: order.quote.clone(), amount: got });
                self.assets.base = Some(Asset { name: order.base.clone(), amount: 0 });
            },
        }
    }
}

/// The holdings after `order` acquired `got`.
pub open spec fn settled(order: MarketOrder, got: Amount) -> Assets {
    match order.order_type {
        OrderType::Buy => Assets {
            quote: Some(Asset { name: order.quote, amount: 0 }),
            base: Some(Asset { name: order.base, amount: got }),
        },
        OrderType::Sell => Assets {
            quote: Some(Asset { name: order.quote, amount: got }),
            base: Some(Asset { name: order.base, amount: 0 }),
        },
    }
}

/// `acquired` in exact integer arithmetic.
fn compute_acquired(side: OrderType, amount: Amount, price: Price, fee: Rate) -> (r: Option<Amount>)
    ensures
        match r {
            Some(got) => got == acquired(side, amount, price, fee),
            None => acquired(side, amount, price, fee) > u64::MAX,
        },
{
    let kept: u128 = if fee <= UNIT {
        (UNIT - fee) as u128
    } else {
        0
    };
    assert((amount as int) * (kept as int) <= (u64::MAX as int) * (UNIT as int)) by (nonlinear_arith)
        requires
            kept <= UNIT,
            amount <= u64::MAX,
    ;
    let net = (amount as u128) * kept / (UNIT as u128);
    assert(net <= amount) by {
        assert((amount as int) * (kept as int) <= (amount as int) * (UNIT as int)) by (nonlinear_arith)
            requires
                kept <= UNIT,
        ;
        vstd::arithmetic::div_mod::lemma_div_is_ordered(
            (amount as int) * (kept as int),
            (amount as int) * (UNIT as int),
            UNIT as int,
        );
        vstd::arithmetic::div_mod::lemma_div_multiples_vanish(amount as int, UNIT as int);
    }
    assert((net as int) * (UNIT as int) <= (u64::MAX as int) * (UNIT as int)) by (nonlinear_arith)
        requires
            net <= u64::MAX,
    ;
    assert((net as int) * (price as int) <= (u64::MAX as int) * (u64::MAX as int)) by (nonlinear_arith)
        requires
            net <= u64::MAX,
            price <= u64::MAX,
    ;
    let got: u128 = match side {
        OrderType::Buy => if price == 0 {
            0
        } else {
            net * (UNIT as u128) / (price as u128)
        },
        OrderType::Sell => net * (price as u128) / (UNIT as u128),
    };
    if got <= u64::MAX as u128 {
        Some(got as u64)
    } else {
        None
    }
}

impl Exchange for SimulatedExchange {
    open spec fn fetched(&self) -> Result<Assets, ExchangeError> {
        Ok(self.assets)
    }

    open spec fn events(&self) -> Seq<Msg> {
        self.event_stream@
    }

    open spec fn fills(&self, order: MarketOrder, next: SimulatedExchange, r: Result<Amount, ExchangeError>) -> bool {
        if !self.prices@.contains_key(order.correlation_id) {
            r == Err::<Amount, ExchangeError>(ExchangeError::UnknownCorrelationId(order.correlation_id))
                && next == *self
        } else {
            let got = acquired(
                order.order_type,
                order.amount,
                self.prices@[order.correlation_id],
                self.options.fee,
            );
            if got > u64::MAX {
                r == Err::<Amount, ExchangeError>(ExchangeError::AmountOverflow) && next == *self
            } else {
                &&& r == Ok::<Amount, ExchangeError>(got as Amount)
                &&& next == SimulatedExchange { assets: settled(order, got as Amount), ..*self }
            }
        }
    }

    fn event_stream(&self) -> (r: Vec<Msg>) {
        let mut r: Vec<Msg> = Vec::new();
        let mut k: usize = 0;
        while k < self.event_stream.len()
            invariant
                k <= self.event_stream@.len(),
                r@ == self.event_stream@.take(k as int),
            decreases self.event_stream@.len() - k,
        {
            r.push(self.event_stream[k].copy());
            k = k + 1;
            assert(r@ =~= self.event_stream@.take(k as int));
        }
        assert(self.event_stream@.take(k as int) =~= self.event_stream@);
        r
    }

    fn place_market_order(&mut self, order: &MarketOrder) -> (r: Result<Amount, ExchangeError>) {
        let price = match self.prices.get(&order.correlation_id) {
            Some(p) => *p,
            None => {
                return Err(ExchangeError::UnknownCorrelationId(order.correlation_id));
            },
        };
        match compute_acquired(order.order_type, order.amount, price, self.options.fee) {
            Some(got) => {
                self.settle(order, got);
                Ok(got)
            },
            None => Err(ExchangeError::AmountOverflow),
        }
    }

    fn fetch_assets(&self) -> (r: Result<Assets, ExchangeError>) {
        Ok(self.assets.copy())
    }
}

} // verus!
