use vstd::prelude::*;
use crate::actor::{Actor, ActorError};
use crate::exchange::{copy_asset, Asset, Assets, Exchange, MarketOrder};
use crate::message::{Amount, MessageId, Msg, MsgData, Order, OrderType};

verus! {

/// The order side a decision payload asks for.
pub open spec fn side_of(d: MsgData) -> Option<OrderType> {
    match d {
        MsgData::Buy => Some(OrderType::Buy),
        MsgData::Sell => Some(OrderType::Sell),
        _ => None,
    }
}

/// The asset an order of `side` spends: the quote currency for a buy, the
/// base currency for a sell.
pub open spec fn spent(assets: Assets, side: OrderType) -> Option<Asset> {
    match side {
        OrderType::Buy => assets.quote,
        OrderType::Sell => assets.base,
    }
}

/// The order that spends all of `asset`, if there is a positive amount of it.
pub open spec fn planned_order(
    base: String,
    quote: String,
    asset: Option<Asset>,
    side: OrderType,
    correlation_id: MessageId,
) -> Option<MarketOrder> {
    match asset {
        Some(a) => if a.amount > 0 {
            Some(MarketOrder { correlation_id, base, quote, order_type: side, amount: a.amount })
        } else {
            None
        },
        None => None,
    }
}

/// The payload announcing that `order` was filled with `amount` acquired.
pub open spec fn filled(order: MarketOrder, amount: Amount) -> MsgData {
    let o = Order { base: order.base, quote: order.quote, amount };
    match order.order_type {
        OrderType::Buy => MsgData::Bought(o),
        OrderType::Sell => MsgData::Sold(o),
    }
}

/// The order that spends all of `asset`, if there is a positive amount of it.
pub fn plan_order(
    base: &String,
    quote: &String,
    asset: &Option<Asset>,
    side: OrderType,
    correlation_id: MessageId,
) -> (r: Option<MarketOrder>)
    ensures
        r == planned_order(*base, *quote, *asset, side, correlation_id),
{
    match asset {
        Some(a) => if a.amount > 0 {
            Some(
                MarketOrder {
                    correlation_id,
                    base: base.clone(),
                    quote: quote.clone(),
                    order_type: side,
                    amount: a.amount,
                },
            )
        } else {
            None
        },
        None => None,
    }
}

/// The payload announcing that `order` was filled with `amount` acquired.
pub fn fill_message(order: MarketOrder, amount: Amount) -> (r: MsgData)
    ensures
        r == filled(order, amount),
{
    let side = order.order_type;
    let o = Order { base: order.base, quote: order.quote, amount };
    match side {
        OrderType::Buy => MsgData::Bought(o),
        OrderType::Sell => MsgData::Sold(o),
    }
}

/// Turns `Buy` and `Sell` decisions into market orders that spend the whole
/// balance of the currency given up, and reports each filled order.
pub struct Trader<E> {
    pub exchange: E,
    pub base: String,
    pub quote: String,
}

impl<E: Exchange> Trader<E> {
    /// A trader of BTC against USDT.
    pub fn new(exchange: E) -> (r: Trader<E>)
        ensures
            r.exchange == exchange,
            r.base@ == "BTC"@,
            r.quote@ == "USDT"@,
    {
        Trader { exchange, base: "BTC".to_owned(), quote: "USDT".to_owned() }
    }

    /// Places the order planned for `side` out of `asset`, if any, and
    /// reports it.
    fn execute(&mut self, asset: &Option<Asset>, side: OrderType, correlation_id: MessageId) -> (r:
        Result<Vec<MsgData>, ActorError>)
        ensures
            final(self).base == old(self).base,
            final(self).quote == old(self).quote,
            match planned_order(old(self).base, old(self).quote, *asset, side, correlation_id) {
                None => r matches Ok(v) && v@ == Seq::<MsgData>::empty() && *final(self) == *old(
                    self,
                ),
                Some(order) => match r {
                    Ok(v) => exists|got: Amount|
                        v@ == seq![filled(order, got)] && old(self).exchange.fills(
                            order,
                            final(self).exchange,
                            Ok(got),
                        ),
                    Err(ActorError::Exchange(e)) => old(self).exchange.fills(
                        order,
                        final(self).exchange,
                        Err(e),
                    ),
                    Err(_) => false,
                },
            },
    {
        match plan_order(&self.base, &self.quote, asset, side, correlation_id) {
            None => Ok(Vec::new()),
            Some(order) => match self.exchange.place_market_order(&order) {
                Ok(got) => Ok(vec![fill_message(order, got)]),
                Err(e) => Err(ActorError::Exchange(e)),
            },
        }
    }
}

impl<E: Exchange> Actor for Trader<E> {
    open spec fn reacts(&self, msg: Msg, next: Trader<E>, r: Result<Seq<MsgData>, ActorError>) -> bool {
        match side_of(msg.data) {
            None => r == Ok::<Seq<MsgData>, ActorError>(Seq::empty()) && next == *self,
            Some(side) => match self.exchange.fetched() {
                Err(e) => r == Err::<Seq<MsgData>, ActorError>(ActorError::Exchange(e)) && next == *self,
                Ok(assets) => match planned_order(
                    self.base,
                    self.quote,
                    spent(assets, side),
                    side,
                    msg.metadata.correlation_id,
                ) {
                    None => r == Ok::<Seq<MsgData>, ActorError>(Seq::empty()) && next == *self,
                    Some(order) => {
                        &&& next.base == self.base
                        &&& next.quote == self.quote
                        &&& match r {
                            Ok(out) => exists|got: Amount|
                                out == seq![filled(order, got)] && self.exchange.fills(
                                    order,
                                    next.exchange,
                                    Ok(got),
                                ),
                            Err(ActorError::Exchange(e)) => self.exchange.fills(
                                order,
                                next.exchange,
                                Err(e),
                            ),
                            Err(_) => false,
                        }
                    },
                }
            },
        }
    }

    fn act(&mut self, msg: &Msg) -> (r: Result<Vec<MsgData>, ActorError>) {
        let side = match &msg.data {
            MsgData::Buy => OrderType::Buy,
            MsgData::Sell => OrderType::Sell,
            _ => {
                return Ok(Vec::new());
            },
        };
        let assets = match self.exchange.fetch_assets() {
            Ok(a) => a,
            Err(e) => {
                return Err(ActorError::Exchange(e));
            },
        };
        let asset = match side {
            OrderType::Buy => copy_asset(&assets.quote),
            OrderType::Sell => copy_asset(&assets.base),
        };
        let r = self.execute(&asset, side, msg.metadata.correlation_id);
        proof {
            if r is Ok {
                let v = r->Ok_0;
                let planned = planned_order(old(self).base, old(self).quote, asset, side, msg.metadata.correlation_id);
                assert forall|k: int| 0 <= k < v@.len() implies !(#[trigger] v@[k] is Shutdown) by {
                    if planned is Some {
                        let order = planned.unwrap();
                        let got = choose|got: Amount| v@ == seq![filled(order, got)] && old(self).exchange.fills(order, final(self).exchange, Ok(got));
                        assert(v@[k] == filled(order, got));
                    }
                }
            }
        }
        r
    }
}

} // verus!
