use trade_pipeline::crossover::SimpleCrossover;
use trade_pipeline::exchange::{Asset, Assets, MockExchange};
use trade_pipeline::id::MockUuidProvider;
use trade_pipeline::message::{Msg, MsgData, MsgMetaData, Order, PriceUpdated, UNIT};
use trade_pipeline::processor::ActorChain;
use trade_pipeline::sliding_average::SlidingAverage;
use trade_pipeline::strategy::StrategyActor;
use trade_pipeline::time::MockTimeProvider;
use trade_pipeline::trade::Trader;

fn live(id: u128, t: u128, price: u64) -> Msg {
    Msg {
        data: MsgData::LivePriceUpdated(PriceUpdated { pair_id: "BTC/USDT".into(), datetime: t, price }),
        metadata: MsgMetaData { id, correlation_id: id, causation_id: id, correlation_time: t, correlation_price: price, creation_time: 0 },
    }
}

#[test]
fn strategy_pipeline_buys_on_upward_cross() {
    let exchange = MockExchange::new(Assets { base: None, quote: Some(Asset { name: "USDT".into(), amount: 40 * UNIT }) });
    let mut chain = ActorChain::new(MockTimeProvider::new(), MockUuidProvider::new())
        .add(StrategyActor::SlidingAverage(SlidingAverage::new(1000, 1000)))
        .add(StrategyActor::Crossover(SimpleCrossover::new(0)))
        .add(StrategyActor::Trader(Trader::new(exchange)));
    let out = chain.run(vec![live(1, 0, UNIT), live(2, 1000, UNIT), live(3, 2000, 2 * UNIT), Msg::with_data(MsgData::Shutdown)]);
    let bought: Vec<&Msg> = out.iter().filter(|m| matches!(m.data, MsgData::Bought(_))).collect();
    assert_eq!(1, bought.len());
    assert_eq!(MsgData::Bought(Order { base: "BTC".into(), quote: "USDT".into(), amount: 40 * UNIT }), bought[0].data);
    assert_eq!(3, bought[0].metadata.correlation_id);
    assert_eq!(MsgData::Shutdown, out.last().unwrap().data);
    match &chain.processors[2].actor {
        StrategyActor::Trader(t) => assert_eq!(3, t.exchange.recorded_orders[0].correlation_id),
        _ => panic!("trader expected"),
    }
}
