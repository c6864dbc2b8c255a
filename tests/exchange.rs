use trade_pipeline::exchange::{Asset, Assets, Exchange, ExchangeError, ExchangeOptions, MarketOrder, MockExchange};
use trade_pipeline::id::MockUuidProvider;
use trade_pipeline::message::{Msg, MsgData, MsgMetaData, OrderType, PriceUpdated, UNIT};
use trade_pipeline::simulation::{candle_events, Candle, SimulatedExchange};

fn units(x: f64) -> u64 {
    (x * UNIT as f64).round() as u64
}

fn asset(name: &str, amount: f64) -> Option<Asset> {
    Some(Asset { name: name.into(), amount: units(amount) })
}

fn price_event(correlation_id: u128, price: f64) -> Msg {
    Msg {
        data: MsgData::LivePriceUpdated(PriceUpdated { pair_id: "BTC/USDT".into(), datetime: 0, price: units(price) }),
        metadata: MsgMetaData { correlation_id, ..Default::default() },
    }
}

fn order(amount: f64, order_type: OrderType, correlation_id: u128) -> MarketOrder {
    MarketOrder { correlation_id, base: "BTC".into(), quote: "USDT".into(), order_type, amount: units(amount) }
}

fn exchange(prices: Vec<Msg>, assets: Assets, fee: f64) -> SimulatedExchange {
    SimulatedExchange::new(prices, assets, ExchangeOptions { fee: units(fee) })
}

#[test]
fn mock_should_fetch_provided_assets() {
    let given_assets = Assets { quote: asset("USD", 50.0), base: None };
    let exchange = MockExchange::new(given_assets.clone());
    assert_eq!(given_assets, exchange.fetch_assets().unwrap());
}

#[test]
fn mock_should_fetch_different_assets() {
    let given_assets = Assets { quote: None, base: asset("BTW", 0.01) };
    let exchange = MockExchange::new(given_assets.clone());
    assert_eq!(given_assets, exchange.fetch_assets().unwrap());
}

#[test]
fn mock_should_record_placed_marked_orders() {
    let mut exchange = MockExchange::new(Assets::default());
    let expected_order = MarketOrder { correlation_id: 0, base: "EUR".into(), quote: "BTC".into(), order_type: OrderType::Buy, amount: units(50.0) };
    exchange.place_market_order(&expected_order).unwrap();
    assert_eq!(vec![expected_order], exchange.recorded_orders);
}

#[test]
fn mock_should_record_different_placed_marked_orders() {
    let mut exchange = MockExchange::new(Assets::default());
    let expected_order = MarketOrder { correlation_id: 0, base: "BTC".into(), quote: "EUR".into(), order_type: OrderType::Sell, amount: units(40.0) };
    exchange.place_market_order(&expected_order).unwrap();
    assert_eq!(vec![expected_order], exchange.recorded_orders);
}

#[test]
fn event_stream_should_return_given_events() {
    let expected_stream = vec![price_event(0, 1.0), Msg::with_data(MsgData::Shutdown)];
    let exchange = exchange(expected_stream.clone(), Assets::default(), 0.0);
    assert_eq!(expected_stream, exchange.event_stream());
}

#[test]
fn event_stream_should_return_different_given_events() {
    let expected_stream = vec![price_event(3, 2.0), price_event(4, 3.0)];
    let exchange = exchange(expected_stream.clone(), Assets::default(), 0.0);
    assert_eq!(expected_stream, exchange.event_stream());
}

#[test]
fn fetch_assets_should_return_given_assets() {
    let assets = Assets { quote: asset("USDT", 40.0), base: None };
    let exchange = exchange(vec![], assets.clone(), 0.0);
    assert_eq!(assets, exchange.fetch_assets().unwrap());
}

#[test]
fn fetch_assets_should_return_different_given_assets() {
    let assets = Assets { quote: None, base: asset("BTC", 1.0) };
    let exchange = exchange(vec![], assets.clone(), 0.0);
    assert_eq!(assets, exchange.fetch_assets().unwrap());
}

#[test]
fn place_market_order_should_return_bought_amount() {
    let mut exchange = exchange(vec![price_event(0, 1.0)], Assets { quote: asset("USDT", 40.0), base: None }, 0.0);
    assert_eq!(units(40.0), exchange.place_market_order(&order(40.0, OrderType::Buy, 0)).unwrap());
}

#[test]
fn place_market_order_should_return_different_bought_amount() {
    // A buy acquires amount / price of the base currency.
    let mut exchange = exchange(vec![price_event(0, 0.5)], Assets { quote: asset("USDT", 40.0), base: None }, 0.0);
    assert_eq!(units(80.0), exchange.place_market_order(&order(40.0, OrderType::Buy, 0)).unwrap());
}

#[test]
fn place_market_order_should_return_sold_amount() {
    // A sell acquires amount * price of the quote currency.
    let mut exchange = exchange(vec![price_event(0, 0.5)], Assets { quote: None, base: asset("BTC", 40.0) }, 0.0);
    assert_eq!(units(20.0), exchange.place_market_order(&order(40.0, OrderType::Sell, 0)).unwrap());
}

#[test]
fn place_market_order_should_return_sold_amount_deducting_fees() {
    let mut exchange = exchange(vec![price_event(0, 1.0)], Assets { quote: None, base: asset("BTC", 40.0) }, 0.1);
    assert_eq!(units(36.0), exchange.place_market_order(&order(40.0, OrderType::Sell, 0)).unwrap());
}

#[test]
fn place_market_order_should_return_different_sold_amount_deducting_fees() {
    let mut exchange = exchange(vec![price_event(0, 0.5)], Assets { quote: None, base: asset("BTC", 40.0) }, 0.2);
    assert_eq!(units(16.0), exchange.place_market_order(&order(40.0, OrderType::Sell, 0)).unwrap());
}

#[test]
fn place_market_order_should_return_bought_amount_with_multiple_prices() {
    // 40 / 0.7, rounded down to the eighth decimal.
    let prices = vec![price_event(0, 0.7), price_event(1, 1.0)];
    let mut exchange = exchange(prices, Assets { quote: asset("USDT", 40.0), base: None }, 0.0);
    assert_eq!(5_714_285_714, exchange.place_market_order(&order(40.0, OrderType::Buy, 0)).unwrap());
}

#[test]
fn place_market_order_should_update_assets_after_buying() {
    let mut exchange = exchange(vec![price_event(0, 0.5)], Assets { quote: asset("USDT", 40.0), base: None }, 0.0);
    exchange.place_market_order(&order(40.0, OrderType::Buy, 0)).unwrap();
    assert_eq!(Assets { quote: asset("USDT", 0.0), base: asset("BTC", 80.0) }, exchange.fetch_assets().unwrap());
}

#[test]
fn place_market_order_should_update_different_assets_after_buying() {
    let mut exchange = exchange(vec![price_event(0, 1.0)], Assets { quote: asset("USDT", 40.0), base: None }, 0.0);
    exchange.place_market_order(&order(40.0, OrderType::Buy, 0)).unwrap();
    assert_eq!(Assets { quote: asset("USDT", 0.0), base: asset("BTC", 40.0) }, exchange.fetch_assets().unwrap());
}

#[test]
fn place_market_order_should_update_assets_after_selling() {
    let mut exchange = exchange(vec![price_event(0, 0.5)], Assets { quote: None, base: asset("BTC", 40.0) }, 0.0);
    exchange.place_market_order(&order(40.0, OrderType::Sell, 0)).unwrap();
    assert_eq!(Assets { quote: asset("USDT", 20.0), base: asset("BTC", 0.0) }, exchange.fetch_assets().unwrap());
}

#[test]
fn place_market_order_should_update_different_assets_after_selling() {
    let mut exchange = exchange(vec![price_event(0, 1.0)], Assets { quote: None, base: asset("BTC", 40.0) }, 0.0);
    exchange.place_market_order(&order(40.0, OrderType::Sell, 0)).unwrap();
    assert_eq!(Assets { quote: asset("USDT", 40.0), base: asset("BTC", 0.0) }, exchange.fetch_assets().unwrap());
}

#[test]
fn place_market_order_should_handle_zero_price_for_selling() {
    let mut exchange = exchange(vec![price_event(0, 0.0)], Assets { quote: asset("USDT", 0.0), base: None }, 0.0);
    assert_eq!(0, exchange.place_market_order(&order(40.0, OrderType::Sell, 0)).unwrap());
}

#[test]
fn simulated_buy_at_zero_price_acquires_nothing() {
    let mut exchange = exchange(vec![price_event(0, 0.0)], Assets { quote: asset("USDT", 40.0), base: None }, 0.0);
    assert_eq!(0, exchange.place_market_order(&order(40.0, OrderType::Buy, 0)).unwrap());
}

#[test]
fn simulated_exchange_rejects_unknown_correlation_id() {
    let mut exchange = exchange(vec![price_event(0, 1.0)], Assets { quote: asset("USDT", 40.0), base: None }, 0.0);
    assert_eq!(Err(ExchangeError::UnknownCorrelationId(7)), exchange.place_market_order(&order(40.0, OrderType::Buy, 7)));
    assert_eq!(Assets { quote: asset("USDT", 40.0), base: None }, exchange.fetch_assets().unwrap());
}

#[test]
fn simulated_exchange_reports_overflow() {
    let mut exchange = SimulatedExchange::new(vec![price_event(0, 0.0)], Assets::default(), ExchangeOptions { fee: 0 });
    let mut e = exchange.event_stream();
    e[0] = Msg {
        data: MsgData::LivePriceUpdated(PriceUpdated { pair_id: String::new(), datetime: 0, price: 1 }),
        metadata: MsgMetaData::default(),
    };
    exchange = SimulatedExchange::new(e, Assets::default(), ExchangeOptions { fee: 0 });
    let big = MarketOrder { correlation_id: 0, base: "BTC".into(), quote: "USDT".into(), order_type: OrderType::Buy, amount: u64::MAX };
    assert_eq!(Err(ExchangeError::AmountOverflow), exchange.place_market_order(&big));
}

#[test]
fn simulated_exchange_uses_latest_price_of_repeated_id() {
    let prices = vec![price_event(0, 2.0), price_event(0, 0.5)];
    let mut exchange = exchange(prices, Assets::default(), 0.0);
    assert_eq!(units(80.0), exchange.place_market_order(&order(40.0, OrderType::Buy, 0)).unwrap());
}

#[test]
fn simulated_fee_over_one_takes_everything() {
    let mut exchange = exchange(vec![price_event(0, 1.0)], Assets::default(), 2.0);
    assert_eq!(0, exchange.place_market_order(&order(40.0, OrderType::Sell, 0)).unwrap());
}

#[test]
fn candle_events_are_self_rooted_and_end_with_shutdown() {
    let candles = vec![Candle { time: 5, close: units(1.5) }, Candle { time: 9, close: units(2.0) }];
    let mut ids = MockUuidProvider::new();
    let events = candle_events(&"BTC/USDT".to_string(), &candles, &mut ids);
    assert_eq!(3, events.len());
    assert_eq!(
        Msg {
            data: MsgData::LivePriceUpdated(PriceUpdated { pair_id: "BTC/USDT".into(), datetime: 9, price: units(2.0) }),
            metadata: MsgMetaData { id: 1, correlation_time: 9, creation_time: 0, correlation_id: 1, correlation_price: units(2.0), causation_id: 1 },
        },
        events[1]
    );
    assert_eq!(Msg::with_data(MsgData::Shutdown), events[2]);
}
