use trade_pipeline::actor::Actor;
use trade_pipeline::message::{Msg, MsgData, PriceUpdated, UNIT};
use trade_pipeline::window_average::SlidingAverageAggregator;

const SECOND: u128 = 1_000;

fn units(x: f64) -> u64 {
    (x * UNIT as f64).round() as u64
}

fn live(pair_id: &str, datetime: u128, price: f64) -> Msg {
    Msg::with_data(MsgData::LivePriceUpdated(PriceUpdated { pair_id: pair_id.into(), datetime, price: units(price) }))
}

fn average(pair_id: &str, datetime: u128, price: f64) -> MsgData {
    MsgData::AveragePriceUpdated(PriceUpdated { pair_id: pair_id.into(), datetime, price: units(price) })
}

#[test]
fn aggr_should_emit_average_price_update() {
    let mut aggregator = SlidingAverageAggregator::new(SECOND);
    assert_eq!(Vec::<MsgData>::new(), aggregator.act(&live("pair_id", 0, 1.0)).unwrap());
    let actual_e = aggregator.act(&live("pair_id", SECOND, 2.0)).unwrap();
    assert_eq!(vec![average("pair_id", SECOND, 1.5)], actual_e);
}

#[test]
fn aggr_should_calculate_prices_from_given_sliding_window() {
    let mut aggregator = SlidingAverageAggregator::new(SECOND);
    aggregator.act(&live("", 0, 1.0)).unwrap();
    let actual_e1 = aggregator.act(&live("", SECOND, 2.0)).unwrap();
    let actual_e2 = aggregator.act(&live("", SECOND * 2, 3.0)).unwrap();
    assert_eq!(vec![average("", SECOND, 1.5)], actual_e1);
    assert_eq!(vec![average("", SECOND * 2, 2.5)], actual_e2);
}

#[test]
fn window_drops_old_points_and_goes_quiet() {
    let mut aggregator = SlidingAverageAggregator::new(SECOND);
    aggregator.act(&live("", 0, 1.0)).unwrap();
    aggregator.act(&live("", 500, 2.0)).unwrap();
    assert_eq!(2, aggregator.events.len());
    let out = aggregator.act(&live("", 5 * SECOND, 4.0)).unwrap();
    assert_eq!(Vec::<MsgData>::new(), out);
    assert_eq!(1, aggregator.events.len());
}

#[test]
fn window_mean_rounds_down() {
    let mut aggregator = SlidingAverageAggregator::new(SECOND);
    let price = |t: u128, p: u64| Msg::with_data(MsgData::LivePriceUpdated(PriceUpdated { pair_id: String::new(), datetime: t, price: p }));
    aggregator.act(&price(0, 1)).unwrap();
    let out = aggregator.act(&price(1, 2)).unwrap();
    assert_eq!(vec![MsgData::AveragePriceUpdated(PriceUpdated { pair_id: String::new(), datetime: 1, price: 1 })], out);
}
