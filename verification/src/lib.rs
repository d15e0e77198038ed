//! Core accounting and risk engine of a pooled money market.
//!
//! Markets hold a lending pool per asset; suppliers mint share tokens,
//! borrowers draw against collateral, and undercollateralized positions
//! can be liquidated. This crate holds the verified numerical and policy
//! core: fixed-point arithmetic on 256-bit integers, interest accrual,
//! exchange-rate and redemption math, the liquidation seize split, the
//! per-account risk evaluation, and the controller's policy hooks.

pub mod assoc;
pub mod controller;
pub mod fixed_point;
pub mod pool;
pub mod price_oracle;
pub mod risk;
pub mod types;
pub mod u256;
