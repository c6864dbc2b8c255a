use vstd::prelude::*;

verus! {

/// Milliseconds since an agreed epoch; the time of an external event.
pub type Timestamp = u128;

/// Microseconds from a wall clock; the time an envelope was stamped.
pub type AccurateTimestamp = u128;

/// A 128-bit message identifier.
pub type MessageId = u128;

/// A price in fixed-point units of `1 / UNIT`.
pub type Price = u64;

/// An asset amount in fixed-point units of `1 / UNIT`.
pub type Amount = u64;

/// A fraction (hysteresis offset, fee rate) in fixed-point units of `1 / UNIT`.
pub type Rate = u64;

/// The fixed-point scale shared by prices, amounts and rates: eight decimals.
pub const UNIT: u64 = 100_000_000;

/// A fresh observation or a smoothed average of a pair's price.
#[derive(Debug, PartialEq, Clone, Default)]
pub struct PriceUpdated {
    pub pair_id: String,
    pub datetime: Timestamp,
    pub price: Price,
}

/// The side of a market order.
#[derive(Debug, PartialEq, Eq, Structural, Copy, Clone)]
pub enum OrderType {
    Buy,
    Sell,
}

impl Default for OrderType {
    fn default() -> (r: OrderType)
        ensures
            r == OrderType::Buy,
    {
        OrderType::Buy
    }
}

/// The result of a filled order: `amount` is the amount of the asset acquired.
#[derive(Debug, PartialEq, Clone, Default)]
pub struct Order {
    pub base: String,
    pub quote: String,
    pub amount: Amount,
}

/// The payload of an envelope.
#[derive(Debug, PartialEq, Clone)]
pub enum MsgData {
    LivePriceUpdated(PriceUpdated),
    AveragePriceUpdated(PriceUpdated),
    Bought(Order),
    Sold(Order),
    Buy,
    Sell,
    Shutdown,
}

/// Causal metadata of an envelope.
#[derive(Debug, Default, PartialEq, Clone, Copy)]
pub struct MsgMetaData {
    pub id: MessageId,
    pub correlation_time: Timestamp,
    pub creation_time: AccurateTimestamp,
    pub correlation_id: MessageId,
    pub correlation_price: Price,
    pub causation_id: MessageId,
}

/// A causal envelope: a payload with its metadata.
#[derive(Debug, PartialEq, Clone)]
pub struct Msg {
    pub data: MsgData,
    pub metadata: MsgMetaData,
}

/// Metadata with every field zero.
pub open spec fn zero_metadata() -> MsgMetaData {
    MsgMetaData {
        id: 0,
        correlation_time: 0,
        creation_time: 0,
        correlation_id: 0,
        correlation_price: 0,
        causation_id: 0,
    }
}

pub open spec fn is_shutdown(m: Msg) -> bool {
    m.data is Shutdown
}

/// `a` and `b` trace back to the same external event.
pub open spec fn same_correlation(a: Msg, b: Msg) -> bool {
    &&& a.metadata.correlation_id == b.metadata.correlation_id
    &&& a.metadata.correlation_time == b.metadata.correlation_time
    &&& a.metadata.correlation_price == b.metadata.correlation_price
}

/// `o` is an envelope minted for payload `p` in reaction to `cause`: it
/// points back at `cause` and carries its correlation unchanged.
pub open spec fn stamped_from(o: Msg, cause: Msg, p: MsgData) -> bool {
    &&& o.data == p
    &&& o.metadata.causation_id == cause.metadata.id
    &&& same_correlation(o, cause)
}

impl PriceUpdated {
    pub fn copy(&self) -> (r: PriceUpdated)
        ensures
            r == *self,
    {
        PriceUpdated { pair_id: self.pair_id.clone(), datetime: self.datetime, price: self.price }
    }
}

impl Order {
    pub fn copy(&self) -> (r: Order)
        ensures
            r == *self,
    {
        Order { base: self.base.clone(), quote: self.quote.clone(), amount: self.amount }
    }
}

impl MsgData {
    pub fn copy(&self) -> (r: MsgData)
        ensures
            r == *self,
    {
        match self {
            MsgData::LivePriceUpdated(e) => MsgData::LivePriceUpdated(e.copy()),
            MsgData::AveragePriceUpdated(e) => MsgData::AveragePriceUpdated(e.copy()),
            MsgData::Bought(o) => MsgData::Bought(o.copy()),
            MsgData::Sold(o) => MsgData::Sold(o.copy()),
            MsgData::Buy => MsgData::Buy,
            MsgData::Sell => MsgData::Sell,
            MsgData::Shutdown => MsgData::Shutdown,
        }
    }
}

impl Msg {
    pub fn copy(&self) -> (r: Msg)
        ensures
            r == *self,
    {
        Msg { data: self.data.copy(), metadata: self.metadata }
    }

    /// An envelope holding `data` with zeroed metadata.
    pub fn with_data(data: MsgData) -> (r: Msg)
        ensures
            r.data == data,
            r.metadata == zero_metadata(),
    {
        Msg {
            data,
            metadata: MsgMetaData {
                id: 0,
                correlation_time: 0,
                creation_time: 0,
                correlation_id: 0,
                correlation_price: 0,
                causation_id: 0,
            },
        }
    }
}

} // verus!
