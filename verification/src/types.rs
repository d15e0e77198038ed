//! Shared identifiers, balances and the error taxonomy of the engine.

use vstd::prelude::*;

verus! {

/// Identity of an account, pool or asset. The engine never inspects an
/// identity beyond equality, so a plain integer stands for it; `0` is the
/// reserved zero address.
pub type AccountId = u128;

/// A balance in underlying units.
pub type Balance = u128;

/// A clock value in milliseconds.
pub type Timestamp = u64;

/// The reserved zero address: an identity that no real market uses.
pub const ZERO_ADDRESS: AccountId = 0;

/// Every failure the engine reports. Each kind is independently
/// observable so callers can tell policy failures from arithmetic faults.
#[derive(Clone, Copy, PartialEq, Eq, Structural, Debug)]
pub enum Error {
    /// Mint guardian active, or the market has no pause entry.
    MintIsPaused,
    /// Borrow guardian active, or the market has no pause entry.
    BorrowIsPaused,
    /// A required market is not in the registry.
    MarketNotListed,
    /// `support_market` was called for a market already in the registry.
    MarketAlreadyListed,
    /// Cross-market seize between pools of different controllers.
    ControllerMismatch,
    /// A liquidation repays more than the close factor allows.
    TooMuchRepay,
    /// The position is, or would become, unhealthy.
    InsufficientLiquidity,
    /// The borrow rate exceeds the protocol ceiling.
    BorrowRateIsAbsurdlyHigh,
    /// The oracle returned no price, or a zero price, where one is required.
    PriceUnavailable,
    /// A new borrow would push total borrows past the market's cap.
    BorrowCapExceeded,
    /// Checked overflow, underflow or division by zero in fixed-point math.
    Arithmetic,
}

} // verus!
