//! A pooled, multi-asset staking ledger.
//!
//! Depositors lock whitelisted assets into per-asset pools; harvested rewards
//! are fanned back to depositors proportionally through a lazy reward-per-share
//! accumulator, net of a continuously accruing protocol fee (the take rate).
//! The ledger tracks per-asset balances and shares, per-user share balances,
//! fee accrual state, validator bookkeeping for the delegated derivative
//! token, and the two-phase asynchronous harvest protocol.

pub mod contract;
pub mod fee;
pub mod laws;
pub mod math;
pub mod query;
pub mod rewards;
pub mod state;
pub mod table;
pub mod types;
pub mod vault;
