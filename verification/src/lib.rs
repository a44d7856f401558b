//! Position bookkeeping and exit-condition evaluation for always-in-market
//! trading bots, over exact fixed-point arithmetic.
//!
//! Every market quantity — prices, sizes, fractions, fees — is an integer
//! count of millionths (`fixed`). Around that sit the position data model
//! (`position`), the exit-condition evaluator (`evaluator`), realized
//! profit-and-loss and per-account lifecycle (`lifecycle`), the simulated
//! dual-channel manager (`framework`), the volume-weighted average price
//! and its rolling candle windows (`vwap`), the crossover bot (`orderflow`),
//! aggregate statistics (`stats`), the flat-file cache line format
//! (`caching`), and the feed-recording decisions (`market_data`). The
//! exchange connectivity itself — subscriptions, order submission,
//! websocket sessions — is a collaborator outside this crate: callers hand
//! in plain values and carry the returned decisions back to their gateway.

pub mod caching;
pub mod clock;
pub mod evaluator;
pub mod fixed;
pub mod framework;
pub mod lifecycle;
pub mod market_data;
pub mod orderflow;
pub mod position;
pub mod stats;
pub mod vwap;
