//! An event-driven trading pipeline: causal message envelopes flowing through
//! a linear chain of actor stages, with a sliding-average aggregator, a
//! crossover decision actor and a trader actor on top of an exchange interface.
//!
//! - `message`: envelopes, payloads and causal metadata.
//! - `actor`, `processor`: the actor contract, the stage that stamps metadata
//!   and forwards the shutdown sentinel, and the chain of stages, with the
//!   laws on ordering, causality, correlation and shutdown.
//! - `sliding_average`, `window_average`, `crossover`, `trade`, `strategy`:
//!   the actors.
//! - `exchange`, `simulation`: the exchange interface, a recording mock and a
//!   deterministic simulator over recorded candles.
//! - `id`, `time`: identifier and clock sources.
//! - `okex`, `order_book`, `networking`: venue subscription messages, order
//!   book upkeep and the HTTP capability.
//!
//! Prices, amounts and fractional rates are fixed-point numbers with eight
//! decimals (see `message::UNIT`).

pub mod actor;
pub mod crossover;
pub mod exchange;
pub mod id;
pub mod message;
pub mod networking;
pub mod okex;
pub mod order_book;
pub mod processor;
pub mod simulation;
pub mod sliding_average;
pub mod strategy;
pub mod time;
pub mod trade;
pub mod window_average;
