//! An in-memory limit order book: price levels updated by deltas, best-level queries,
//! and a one-pass validity check, with each behaviour stated in its contract.

pub mod levels;
pub mod market;
pub mod misc;
pub mod order;
pub mod utils;
