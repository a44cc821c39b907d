//! A market-making bot library for a perpetual-futures exchange.
//!
//! The library holds the bot's decision logic: the three order-placement
//! strategies (best-bid-offer quoting, laddered spread quoting, randomized
//! taker flow), the strategy lifecycle (account binding and initialization),
//! and the orchestrator's single-flight execution gating. Everything here
//! works on plain snapshot values; the surrounding process feeds it decoded
//! exchange state and submits the order batches it returns.

pub mod entropy;
pub mod error;
pub mod orchestrator;
pub mod snapshot;
pub mod strategies;
pub mod types;
