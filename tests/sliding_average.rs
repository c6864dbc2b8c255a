use trade_pipeline::actor::Actor;
use trade_pipeline::message::{Msg, MsgData, PriceUpdated, UNIT};
use trade_pipeline::sliding_average::SlidingAverage;

const SECOND: u128 = 1_000;

fn units(x: f64) -> u64 {
    (x * UNIT as f64).round() as u64
}

fn live(pair_id: &str, datetime: u128, price: f64) -> Msg {
    Msg::with_data(MsgData::LivePriceUpdated(PriceUpdated {
        pair_id: pair_id.to_string(),
        datetime,
        price: units(price),
    }))
}

fn average(pair_id: &str, datetime: u128, price: f64) -> MsgData {
    MsgData::AveragePriceUpdated(PriceUpdated {
        pair_id: pair_id.to_string(),
        datetime,
        price: units(price),
    })
}

#[test]
fn actor_should_emit_average_price_update() {
    let mut actor = SlidingAverage::new(SECOND, SECOND);
    actor.act(&live("pair_id", 0, 1.0)).unwrap();
    let actual_e = actor.act(&live("pair_id", SECOND + 1, 2.0)).unwrap();
    assert_eq!(vec![average("pair_id", SECOND + 1, 2.0)], actual_e);
}

#[test]
fn actor_should_calculate_prices_from_given_sliding_window() {
    let mut actor = SlidingAverage::new(SECOND, SECOND * 2);
    actor.act(&live("", 0, 1.0)).unwrap();
    actor.act(&live("", SECOND, 2.2)).unwrap();
    let actual = actor.act(&live("", SECOND * 2, 4.5)).unwrap();
    assert_eq!(vec![average("", SECOND * 2, 3.6)], actual);
}

#[test]
fn actor_should_not_emit_average_price_update_if_window_not_full() {
    let mut actor = SlidingAverage::new(SECOND, SECOND * 2);
    actor.act(&live("pair_id", 0, 1.0)).unwrap();
    let actual_e = actor.act(&live("pair_id", SECOND, 2.0)).unwrap();
    assert_eq!(Vec::<MsgData>::new(), actual_e);
}

#[test]
fn sliding_average_counts_window_points() {
    let actor = SlidingAverage::new(300_000, 1140 * 60 * 1000);
    assert_eq!(228, actor.min_price_points);
    assert_eq!(0, actor.counted_price_points);
}

#[test]
fn sliding_average_silent_for_first_n_points() {
    let mut actor = SlidingAverage::new(SECOND, SECOND * 3);
    for k in 0..3u128 {
        assert_eq!(Vec::<MsgData>::new(), actor.act(&live("p", k, 1.0 + k as f64)).unwrap());
    }
    let out = actor.act(&live("p", 3, 5.0)).unwrap();
    assert_eq!(1, out.len());
}

#[test]
fn sliding_average_smooths_with_factor_two_over_n_plus_one() {
    // N = 3: factor 1/2. 1.0 -> 1.5 -> 2.25 -> 3.125, then 4.0625 is reported.
    let mut actor = SlidingAverage::new(SECOND, SECOND * 3);
    actor.act(&live("p", 0, 1.0)).unwrap();
    actor.act(&live("p", 1, 2.0)).unwrap();
    actor.act(&live("p", 2, 3.0)).unwrap();
    actor.act(&live("p", 3, 4.0)).unwrap();
    let out = actor.act(&live("p", 4, 5.0)).unwrap();
    assert_eq!(vec![average("p", 4, 4.0625)], out);
}

fn live_units(datetime: u128, price: u64) -> Msg {
    Msg::with_data(MsgData::LivePriceUpdated(PriceUpdated { pair_id: String::new(), datetime, price }))
}

#[test]
fn sliding_average_rounds_step_towards_previous() {
    // N = 2, factor 2/3: 10 -> 12 (step 2), then towards 4 a step of 16/3 rounds to 5.
    let mut actor = SlidingAverage::new(SECOND, SECOND * 2);
    actor.act(&live_units(0, 10)).unwrap();
    actor.act(&live_units(1, 13)).unwrap();
    let out = actor.act(&live_units(2, 4)).unwrap();
    let expected = MsgData::AveragePriceUpdated(PriceUpdated { pair_id: String::new(), datetime: 2, price: 7 });
    assert_eq!(vec![expected], out);
}

#[test]
fn sliding_average_passes_over_other_payloads() {
    let mut actor = SlidingAverage::new(SECOND, SECOND);
    assert_eq!(Vec::<MsgData>::new(), actor.act(&Msg::with_data(MsgData::Buy)).unwrap());
    assert_eq!(0, actor.counted_price_points);
}

#[test]
fn sliding_average_without_warm_up_can_overshoot() {
    // A window shorter than the interval gives N = 0 and a factor of two.
    let mut actor = SlidingAverage::new(SECOND, SECOND / 2);
    assert_eq!(0, actor.min_price_points);
    assert_eq!(vec![average("p", 0, 1.0)], actor.act(&live("p", 0, 1.0)).unwrap());
    assert_eq!(vec![average("p", 1, 1.5)], actor.act(&live("p", 1, 1.25)).unwrap());
    assert_eq!(
        Err(trade_pipeline::actor::ActorError::AverageOutOfRange),
        actor.act(&live("p", 2, 0.2))
    );
}
