//! Accounting engine of a liquidity-pool staking ledger: LP share pricing,
//! a fixed-point reward accumulator with two emission policies, and the
//! state transitions of deposit, withdraw, stake, unstake and claim, with
//! the conservation laws they keep. A small counter whose changes are
//! announced as base64-encoded events sits beside it.
pub mod error;
pub mod state;
pub mod reward_calculator;
pub mod ledger;
pub mod invariants;
pub mod counter;
