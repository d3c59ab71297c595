//! A market-making engine for a peer-to-peer item marketplace.
//!
//! The library holds the engine's decision logic: historical-price
//! aggregation and overlap analytics, the per-item buy/sell order policy,
//! a capital-constrained order selector, the scheduler's state machine,
//! and the incremental log-tail watcher.  All marketplace I/O (HTTP calls,
//! the persistent store, notification delivery) is left to the caller:
//! every function here maps plain input values to plain decisions.

use vstd::prelude::*;

pub mod analytics;
pub mod budget;
pub mod engine;
pub mod orderings;
pub mod pass;
pub mod records;
pub mod scheduler;
pub mod selector;
pub mod types;
pub mod watcher;

verus! {

/// Upper bound on any single price, volume or threshold the engine
/// handles, in whole currency units.  Keeps every sum and difference the
/// engine forms comfortably inside `i64`.
pub const PRICE_LIMIT: i64 = 1_000_000_000;

} // verus!
