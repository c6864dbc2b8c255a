use trade_pipeline::actor::Actor;
use trade_pipeline::exchange::{Asset, Assets, MarketOrder, MockExchange};
use trade_pipeline::message::{Msg, MsgData, MsgMetaData, Order, OrderType, UNIT};
use trade_pipeline::trade::{fill_message, plan_order, Trader};

fn units(x: f64) -> u64 {
    (x * UNIT as f64).round() as u64
}

fn asset(name: &str, amount: f64) -> Option<Asset> {
    Some(Asset { name: name.into(), amount: units(amount) })
}

fn order(amount: f64, order_type: OrderType, correlation_id: u128) -> MarketOrder {
    MarketOrder { correlation_id, base: "BTC".into(), quote: "USDT".into(), order_type, amount: units(amount) }
}

#[test]
fn should_buy_max_amount_of_quote() {
    let mut trader = Trader::new(MockExchange::new(Assets { quote: asset("USDT", 40.0), base: None }));
    trader.act(&Msg::with_data(MsgData::Buy)).unwrap();
    assert_eq!(vec![order(40.0, OrderType::Buy, 0)], trader.exchange.recorded_orders);
}

#[test]
fn should_buy_different_max_amount_of_quote() {
    let mut trader = Trader::new(MockExchange::new(Assets { quote: asset("USDT", 50.0), base: None }));
    trader.act(&Msg::with_data(MsgData::Buy)).unwrap();
    assert_eq!(vec![order(50.0, OrderType::Buy, 0)], trader.exchange.recorded_orders);
}

#[test]
fn should_not_buy_quote_when_no_assets() {
    let mut trader = Trader::new(MockExchange::new(Assets::default()));
    trader.act(&Msg::with_data(MsgData::Buy)).unwrap();
    assert_eq!(Vec::<MarketOrder>::new(), trader.exchange.recorded_orders);
}

#[test]
fn should_not_buy_quote_when_zero() {
    let mut trader = Trader::new(MockExchange::new(Assets { quote: asset("USDT", 0.0), base: None }));
    trader.act(&Msg::with_data(MsgData::Buy)).unwrap();
    assert_eq!(Vec::<MarketOrder>::new(), trader.exchange.recorded_orders);
}

#[test]
fn should_sell_max_amount_of_base() {
    let mut trader = Trader::new(MockExchange::new(Assets { quote: None, base: asset("BTC", 0.0000001) }));
    trader.act(&Msg::with_data(MsgData::Sell)).unwrap();
    assert_eq!(vec![order(0.0000001, OrderType::Sell, 0)], trader.exchange.recorded_orders);
}

#[test]
fn should_sell_different_max_amount_of_base() {
    let mut trader = Trader::new(MockExchange::new(Assets { quote: None, base: asset("BTC", 0.0002) }));
    trader.act(&Msg::with_data(MsgData::Sell)).unwrap();
    assert_eq!(vec![order(0.0002, OrderType::Sell, 0)], trader.exchange.recorded_orders);
}

#[test]
fn should_not_sell_when_no_assets() {
    let mut trader = Trader::new(MockExchange::new(Assets::default()));
    trader.act(&Msg::with_data(MsgData::Sell)).unwrap();
    assert_eq!(Vec::<MarketOrder>::new(), trader.exchange.recorded_orders);
}

#[test]
fn should_not_sell_when_base_zero() {
    let mut trader = Trader::new(MockExchange::new(Assets { quote: None, base: asset("BTC", 0.0) }));
    trader.act(&Msg::with_data(MsgData::Sell)).unwrap();
    assert_eq!(Vec::<MarketOrder>::new(), trader.exchange.recorded_orders);
}

fn sell_with_correlation(id: u128) -> Msg {
    Msg { data: MsgData::Sell, metadata: MsgMetaData { correlation_id: id, ..Default::default() } }
}

#[test]
fn should_set_correlation_id() {
    let mut trader = Trader::new(MockExchange::new(Assets { quote: None, base: asset("BTC", 0.0002) }));
    trader.act(&sell_with_correlation(0)).unwrap();
    assert_eq!(vec![order(0.0002, OrderType::Sell, 0)], trader.exchange.recorded_orders);
}

#[test]
fn should_set_different_correlation_id() {
    let mut trader = Trader::new(MockExchange::new(Assets { quote: None, base: asset("BTC", 0.0002) }));
    trader.act(&sell_with_correlation(1)).unwrap();
    assert_eq!(vec![order(0.0002, OrderType::Sell, 1)], trader.exchange.recorded_orders);
}

#[test]
fn trader_emits_bought_with_returned_amount() {
    let mut trader = Trader::new(MockExchange::new(Assets { quote: asset("USDT", 40.0), base: None }));
    let mut buy = Msg::with_data(MsgData::Buy);
    buy.metadata.correlation_id = 5;
    let out = trader.act(&buy).unwrap();
    let expected = MsgData::Bought(Order { base: "BTC".into(), quote: "USDT".into(), amount: units(40.0) });
    assert_eq!(vec![expected], out);
    assert_eq!(vec![order(40.0, OrderType::Buy, 5)], trader.exchange.recorded_orders);
}

#[test]
fn trader_emits_sold_with_returned_amount() {
    let mut trader = Trader::new(MockExchange::new(Assets { quote: None, base: asset("BTC", 20.0) }));
    let out = trader.act(&Msg::with_data(MsgData::Sell)).unwrap();
    let expected = MsgData::Sold(Order { base: "BTC".into(), quote: "USDT".into(), amount: units(20.0) });
    assert_eq!(vec![expected], out);
}

#[test]
fn trader_ignores_prices() {
    let mut trader = Trader::new(MockExchange::new(Assets { quote: asset("USDT", 40.0), base: None }));
    let out = trader.act(&Msg::with_data(MsgData::Shutdown)).unwrap();
    assert_eq!(Vec::<MsgData>::new(), out);
    assert_eq!(Vec::<MarketOrder>::new(), trader.exchange.recorded_orders);
}

#[test]
fn plan_order_spends_whole_balance() {
    let planned = plan_order(&"BTC".to_string(), &"USDT".to_string(), &asset("USDT", 12.5), OrderType::Buy, 9);
    assert_eq!(Some(order(12.5, OrderType::Buy, 9)), planned);
    let none = plan_order(&"BTC".to_string(), &"USDT".to_string(), &asset("USDT", 0.0), OrderType::Buy, 9);
    assert_eq!(None, none);
}

#[test]
fn fill_message_names_side() {
    assert_eq!(
        MsgData::Sold(Order { base: "BTC".into(), quote: "USDT".into(), amount: 7 }),
        fill_message(order(1.0, OrderType::Sell, 0), 7)
    );
    assert_eq!(
        MsgData::Bought(Order { base: "BTC".into(), quote: "USDT".into(), amount: 3 }),
        fill_message(order(1.0, OrderType::Buy, 0), 3)
    );
}
