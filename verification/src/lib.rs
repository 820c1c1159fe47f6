//! Accounting and pricing core of a constant-product automated market maker.
//!
//! The library turns a pool's live state (token reserves and liquidity-share
//! supply, read from the ledger by the caller) plus a request into the exact
//! amounts to move, mint, or burn, using only integer arithmetic with explicit
//! overflow and rounding rules. Execution of the resulting transfers is the
//! caller's concern; every function here is a pure computation.

pub mod add_liquidity;
pub mod create_amm;
pub mod create_pool;
pub mod errors;
pub mod math;
pub mod states;
pub mod swap;
pub mod withdraw_liquidity;
