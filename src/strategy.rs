use vstd::prelude::*;
use crate::actor::{Actor, ActorError};
use crate::crossover::SimpleCrossover;
use crate::exchange::Exchange;
use crate::message::{Msg, MsgData};
use crate::sliding_average::SlidingAverage;
use crate::trade::Trader;

verus! {

/// The actors of a trading pipeline, so that one chain can hold all of them.
pub enum StrategyActor<E> {
    SlidingAverage(SlidingAverage),
    Crossover(SimpleCrossover),
    Trader(Trader<E>),
}

impl<E: Exchange> Actor for StrategyActor<E> {
    /// Each variant reacts as the actor it holds, and stays that variant.
    open spec fn reacts(&self, msg: Msg, next: StrategyActor<E>, r: Result<Seq<MsgData>, ActorError>) -> bool {
        match (*self, next) {
            (StrategyActor::SlidingAverage(a), StrategyActor::SlidingAverage(b)) => a.reacts(msg, b, r),
            (StrategyActor::Crossover(a), StrategyActor::Crossover(b)) => a.reacts(msg, b, r),
            (StrategyActor::Trader(a), StrategyActor::Trader(b)) => a.reacts(msg, b, r),
            _ => false,
        }
    }

    fn act(&mut self, msg: &Msg) -> (r: Result<Vec<MsgData>, ActorError>) {
        match self {
            StrategyActor::SlidingAverage(a) => a.act(msg),
            StrategyActor::Crossover(a) => a.act(msg),
            StrategyActor::Trader(a) => a.act(msg),
        }
    }
}

} // verus!
