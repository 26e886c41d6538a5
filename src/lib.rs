//! Limit-order-book matching engine with a lot-based margin ledger.
//!
//! The order book matches incoming orders against resting liquidity in
//! price-time priority and consults an execution policy at every mutation
//! point; the margin ledger is the execution policy that tracks each
//! participant's promised, locked and committed quantities per asset.

pub mod error;
pub mod execution_policy;
pub mod margin;
pub mod market_data_policy;
pub mod order;
pub mod order_book;
pub mod order_manager;
