use vstd::prelude::*;
use crate::message::{Amount, MessageId, Msg, OrderType, Price, Rate};

verus! {

/// Failures of an exchange collaborator.
#[derive(Debug, PartialEq, Eq, Structural, Clone, Copy)]
pub enum ExchangeError {
    /// No price is known for the correlation id an order refers to.
    UnknownCorrelationId(MessageId),
    /// The acquired amount does not fit an `Amount`.
    AmountOverflow,
}

/// Settings of an exchange: the fee rate taken from every order.
#[derive(Debug, PartialEq, Eq, Structural, Clone, Copy, Default)]
pub struct ExchangeOptions {
    pub fee: Rate,
}

/// A price level of an order book: the amount offered at a price.
#[derive(Debug, PartialEq, Eq, Structural, Clone, Copy, Default)]
pub struct Order {
    pub price: Price,
    pub amount: Amount,
}

/// The order book of one instrument: bids by falling price, asks by rising price.
#[derive(Debug, PartialEq, Clone, Default)]
pub struct Pair {
    pub id: MessageId,
    pub bid_orders: Vec<Order>,
    pub ask_orders: Vec<Order>,
}

/// A confirmed subscription to an instrument's book.
#[derive(Debug, PartialEq, Eq, Hash, Clone, Default)]
pub struct Subscription {
    pub id: MessageId,
    pub bid_currency: String,
    pub ask_currency: String,
}

/// What a live venue streams.
#[derive(Debug, Clone)]
pub enum ExchangeStreamEvent {
    Subscription(Subscription),
    Pair(Pair),
}

/// An amount of one currency.
#[derive(Debug, PartialEq, Clone, Default)]
pub struct Asset {
    pub name: String,
    pub amount: Amount,
}

/// What an account holds of the two currencies of the traded pair.
#[derive(Debug, PartialEq, Clone, Default)]
pub struct Assets {
    pub base: Option<Asset>,
    pub quote: Option<Asset>,
}

/// An order at market price. For a buy, `amount` is spent of the quote
/// currency; for a sell, of the base currency.
#[derive(Debug, PartialEq, Clone)]
pub struct MarketOrder {
    pub correlation_id: MessageId,
    pub base: String,
    pub quote: String,
    pub order_type: OrderType,
    pub amount: Amount,
}

impl Asset {
    pub fn copy(&self) -> (r: Asset)
        ensures
            r == *self,
    {
        Asset { name: self.name.clone(), amount: self.amount }
    }
}

/// A copy of an optional asset.
pub fn copy_asset(a: &Option<Asset>) -> (r: Option<Asset>)
    ensures
        r == *a,
{
    match a {
        Some(x) => Some(x.copy()),
        None => None,
    }
}

impl Assets {
    pub fn copy(&self) -> (r: Assets)
        ensures
            r == *self,
    {
        Assets { base: copy_asset(&self.base), quote: copy_asset(&self.quote) }
    }
}

impl MarketOrder {
    pub fn copy(&self) -> (r: MarketOrder)
        ensures
            r == *self,
    {
        MarketOrder {
            correlation_id: self.correlation_id,
            base: self.base.clone(),
            quote: self.quote.clone(),
            order_type: self.order_type,
            amount: self.amount,
        }
    }
}

/// The capabilities a trading pipeline needs from an exchange.
pub trait Exchange: Sized {
    /// What `fetch_assets` answers: the assets this exchange reports, or why
    /// it cannot report them.
    spec fn fetched(&self) -> Result<Assets, ExchangeError>;

    /// The envelopes this exchange streams.
    spec fn events(&self) -> Seq<Msg>;

    /// `next` is this exchange after handling `order`, and `r` what it answered.
    spec fn fills(&self, order: MarketOrder, next: Self, r: Result<Amount, ExchangeError>) -> bool;

    fn event_stream(&self) -> (r: Vec<Msg>)
        ensures
            r@ == self.events(),
    ;

    /// Places `order`; answers the amount acquired after fees.
    fn place_market_order(&mut self, order: &MarketOrder) -> (r: Result<Amount, ExchangeError>)
        ensures
            old(self).fills(*order, *final(self), r),
    ;

    fn fetch_assets(&self) -> (r: Result<Assets, ExchangeError>)
        ensures
            r == self.fetched(),
    ;
}

/// An exchange that holds fixed assets, fills every order with exactly the
/// amount offered, and records the orders it was given.
pub struct MockExchange {
    pub assets: Assets,
    pub recorded_orders: Vec<MarketOrder>,
}

impl MockExchange {
    pub fn new(assets: Assets) -> (r: MockExchange)
        ensures
            r.assets == assets,
            r.recorded_orders@ == Seq::<MarketOrder>::empty(),
    {
        MockExchange { assets, recorded_orders: Vec::new() }
    }
}

impl Exchange for MockExchange {
    open spec fn fetched(&self) -> Result<Assets, ExchangeError> {
        Ok(self.assets)
    }

    open spec fn events(&self) -> Seq<Msg> {
        Seq::empty()
    }

    open spec fn fills(&self, order: MarketOrder, next: MockExchange, r: Result<Amount, ExchangeError>) -> bool {
        &&& r == Ok::<Amount, ExchangeError>(order.amount)
        &&& next.assets == self.assets
        &&& next.recorded_orders@ == self.recorded_orders@.push(order)
    }

    fn event_stream(&self) -> (r: Vec<Msg>) {
        let r: Vec<Msg> = Vec::new();
        assert(r@ =~= self.events());
        r
    }

    fn place_market_order(&mut self, order: &MarketOrder) -> (r: Result<Amount, ExchangeError>) {
        self.recorded_orders.push(order.copy());
        Ok(order.amount)
    }

    fn fetch_assets(&self) -> (r: Result<Assets, ExchangeError>) {
        Ok(self.assets.copy())
    }
}

} // verus!
