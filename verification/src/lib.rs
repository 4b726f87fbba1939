//! A verified trading-journal engine: a trade ledger with validation and fee
//! derivation, wallet and user stores, and analytics (daily profit/loss,
//! cumulative fees, slippage) over date ranges.

pub mod analytics;
pub mod clock;
pub mod forms;
pub mod hashing;
pub mod idgen;
pub mod password;
pub mod ledger;
pub mod money;
pub mod text;
pub mod trade;
pub mod user;
pub mod wallet;
