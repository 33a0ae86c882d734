//! A prediction-market ledger: markets with discrete outcome options, stake
//! placed on options, resolution by the market's creator, and idempotent
//! application of bets that arrive from another execution domain.
pub mod types;
pub mod ids;
pub mod pool;
pub mod factory;
pub mod odds;
pub mod contract;
pub mod query;
pub mod guarantees;
