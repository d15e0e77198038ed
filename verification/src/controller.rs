//! The controller: market registry, pause guardians, close factor,
//! liquidation incentive, and the policy hooks that gate every pool
//! operation.
//!
//! Each user operation has an `*_allowed` hook, run before the ledger
//! change, and an `*_verify` hook, run after it. The verify hooks are
//! deliberately empty but stay part of the surface: pools call them
//! unconditionally. State that lives outside the controller — pool
//! snapshots, oracle prices, a user's entered assets — reaches the hooks
//! as plain values gathered by the caller.

use crate::assoc::{assoc_lookup, assoc_set, spec_assoc_lookup};
use crate::fixed_point::{exp_scale, exp_scale_int, spec_mul_scalar_truncate, Exp};
use crate::pool::HEALTH_FACTOR_LIQUIDATION_THRESHOLD;
use crate::risk::{
    balance_decrease_allowed, calculate_health_factor_from_balances, calculate_user_account_data,
    contains_account, spec_account_data_ok, spec_amount_eth, spec_avg_threshold,
    spec_balance_decrease_allowed, spec_health_factor, spec_health_fits, spec_total_collateral,
    spec_total_debt, MarketData,
};
use crate::types::{AccountId, Balance, Error, ZERO_ADDRESS};
use crate::u256::{p128, p256, U256};
use vstd::prelude::*;

verus! {

/// The controller's persisted state.
pub struct Data {
    /// Listed markets, in listing order, without duplicates.
    pub markets: Vec<AccountId>,
    /// Mint pause state per market; a missing entry counts as paused.
    pub mint_guardian_paused: Vec<(AccountId, bool)>,
    /// Borrow pause state per market; a missing entry counts as paused.
    pub borrow_guardian_paused: Vec<(AccountId, bool)>,
    /// The price oracle's identity.
    pub oracle: AccountId,
    /// Largest fraction of a debt one liquidation may repay, as an `Exp`
    /// mantissa in `[0, 10^18]`.
    pub close_factor_mantissa: U256,
    /// Collateral bonus paid to a liquidator, as an `Exp` mantissa.
    pub liquidation_incentive_mantissa: U256,
}

impl Data {
    /// The registry's invariant: no market is listed twice, every listed
    /// market has an entry in both pause maps, and the close factor is a
    /// fraction of at most one.
    pub open spec fn wf(&self) -> bool {
        &&& self.close_factor_mantissa@ <= exp_scale_int()
        &&& forall|i: int, j: int|
            0 <= i < j < self.markets@.len() ==> self.markets@[i] != self.markets@[j]
        &&& forall|i: int|
            0 <= i < self.markets@.len() ==> spec_assoc_lookup(
                self.mint_guardian_paused@,
                #[trigger] self.markets@[i],
            ) is Some
        &&& forall|i: int|
            0 <= i < self.markets@.len() ==> spec_assoc_lookup(
                self.borrow_guardian_paused@,
                #[trigger] self.markets@[i],
            ) is Some
    }

    /// An empty registry: no markets, everything unset.
    pub fn new() -> (r: Data)
        ensures
            r.wf(),
            r.markets@.len() == 0,
            r.mint_guardian_paused@.len() == 0,
            r.borrow_guardian_paused@.len() == 0,
            r.oracle == ZERO_ADDRESS,
            r.close_factor_mantissa@ == 0,
            r.liquidation_incentive_mantissa@ == 0,
    {
        Data {
            markets: Vec::new(),
            mint_guardian_paused: Vec::new(),
            borrow_guardian_paused: Vec::new(),
            oracle: ZERO_ADDRESS,
            close_factor_mantissa: U256::zero(),
            liquidation_incentive_mantissa: U256::zero(),
        }
    }

    /// The listed markets, in listing order.
    pub fn markets(&self) -> (r: Vec<AccountId>)
        ensures
            r@ == self.markets@,
    {
        let mut out: Vec<AccountId> = Vec::new();
        let mut k: usize = 0;
        while k < self.markets.len()
            invariant
                k <= self.markets@.len(),
                out@ == self.markets@.subrange(0, k as int),
            decreases self.markets@.len() - k,
        {
            out.push(self.markets[k]);
            k = k + 1;
        }
        proof {
            assert(out@ =~= self.markets@);
        }
        out
    }

    /// Whether a pool is in the registry.
    pub fn is_listed_market(&self, pool: AccountId) -> (r: bool)
        ensures
            r == self.markets@.contains(pool),
    {
        contains_account(&self.markets, pool)
    }

    /// The mint pause entry of a market, if it has one.
    pub fn mint_guardian_paused(&self, pool: AccountId) -> (r: Option<bool>)
        ensures
            r == spec_assoc_lookup(self.mint_guardian_paused@, pool),
    {
        assoc_lookup(&self.mint_guardian_paused, pool)
    }

    /// The borrow pause entry of a market, if it has one.
    pub fn borrow_guardian_paused(&self, pool: AccountId) -> (r: Option<bool>)
        ensures
            r == spec_assoc_lookup(self.borrow_guardian_paused@, pool),
    {
        assoc_lookup(&self.borrow_guardian_paused, pool)
    }

    /// The close factor as an `Exp`.
    pub fn close_factor_mantissa(&self) -> (r: Exp)
        ensures
            r.mantissa == self.close_factor_mantissa,
    {
        Exp { mantissa: self.close_factor_mantissa }
    }

    /// The liquidation incentive as an `Exp`.
    pub fn liquidation_incentive_mantissa(&self) -> (r: Exp)
        ensures
            r.mantissa == self.liquidation_incentive_mantissa,
    {
        Exp { mantissa: self.liquidation_incentive_mantissa }
    }

    /// Lists a market: appends it to the registry and unpauses both
    /// guardians. A market can be listed only once.
    pub fn support_market(&mut self, pool: &AccountId) -> (r: Result<(), Error>)
        requires
            old(self).wf(),
        ensures
            final (self).wf(),
            r is Ok <==> !old(self).markets@.contains(*pool),
            r is Err ==> r->Err_0 == Error::MarketAlreadyListed && *final (self) == *old(self),
            r is Ok ==> final (self).markets@ == old(self).markets@.push(*pool),
            r is Ok ==> forall|k: AccountId| #![auto]
                spec_assoc_lookup(final (self).mint_guardian_paused@, k) == (if k == *pool {
                    Some(false)
                } else {
                    spec_assoc_lookup(old(self).mint_guardian_paused@, k)
                }),
            r is Ok ==> forall|k: AccountId| #![auto]
                spec_assoc_lookup(final (self).borrow_guardian_paused@, k) == (if k == *pool {
                    Some(false)
                } else {
                    spec_assoc_lookup(old(self).borrow_guardian_paused@, k)
                }),
            final (self).oracle == old(self).oracle,
            final (self).close_factor_mantissa == old(self).close_factor_mantissa,
            final (self).liquidation_incentive_mantissa == old(
                self,
            ).liquidation_incentive_mantissa,
    {
        if contains_account(&self.markets, *pool) {
            return Err(Error::MarketAlreadyListed);
        }
        self.markets.push(*pool);
        assoc_set(&mut self.mint_guardian_paused, *pool, false);
        assoc_set(&mut self.borrow_guardian_paused, *pool, false);
        proof {
            assert(forall|i: int|
                0 <= i < self.markets@.len() - 1 ==> self.markets@[i] == old(self).markets@[i]);
            assert forall|i: int| 0 <= i < self.markets@.len() implies spec_assoc_lookup(
                self.mint_guardian_paused@,
                #[trigger] self.markets@[i],
            ) is Some by {
                if i < self.markets@.len() - 1 {
                    assert(old(self).wf());
                }
            }
            assert forall|i: int| 0 <= i < self.markets@.len() implies spec_assoc_lookup(
                self.borrow_guardian_paused@,
                #[trigger] self.markets@[i],
            ) is Some by {
                if i < self.markets@.len() - 1 {
                    assert(old(self).wf());
                }
            }
        }
        Ok(())
    }

    /// Stores a new oracle identity.
    pub fn set_price_oracle(&mut self, new_oracle: AccountId) -> (r: Result<(), Error>)
        ensures
            r is Ok,
            *final (self) == (Data { oracle: new_oracle, ..*old(self) }),
    {
        self.oracle = new_oracle;
        Ok(())
    }

    /// Sets a market's mint pause entry.
    pub fn set_mint_guardian_paused(&mut self, pool: &AccountId, paused: bool) -> (r: Result<
        (),
        Error,
    >)
        requires
            old(self).wf(),
        ensures
            r is Ok,
            final (self).wf(),
            forall|k: AccountId| #![auto]
                spec_assoc_lookup(final (self).mint_guardian_paused@, k) == (if k == *pool {
                    Some(paused)
                } else {
                    spec_assoc_lookup(old(self).mint_guardian_paused@, k)
                }),
            final (self).markets@ == old(self).markets@,
            final (self).borrow_guardian_paused == old(self).borrow_guardian_paused,
            final (self).oracle == old(self).oracle,
            final (self).close_factor_mantissa == old(self).close_factor_mantissa,
            final (self).liquidation_incentive_mantissa == old(
                self,
            ).liquidation_incentive_mantissa,
    {
        assoc_set(&mut self.mint_guardian_paused, *pool, paused);
        Ok(())
    }

    /// Sets a market's borrow pause entry.
    pub fn set_borrow_guardian_paused(&mut self, pool: &AccountId, paused: bool) -> (r: Result<
        (),
        Error,
    >)
        requires
            old(self).wf(),
        ensures
            r is Ok,
            final (self).wf(),
            forall|k: AccountId| #![auto]
                spec_assoc_lookup(final (self).borrow_guardian_paused@, k) == (if k == *pool {
                    Some(paused)
                } else {
                    spec_assoc_lookup(old(self).borrow_guardian_paused@, k)
                }),
            final (self).markets@ == old(self).markets@,
            final (self).mint_guardian_paused == old(self).mint_guardian_paused,
            final (self).oracle == old(self).oracle,
            final (self).close_factor_mantissa == old(self).close_factor_mantissa,
            final (self).liquidation_incentive_mantissa == old(
                self,
            ).liquidation_incentive_mantissa,
    {
        assoc_set(&mut self.borrow_guardian_paused, *pool, paused);
        Ok(())
    }

    /// Stores a new close factor: a fraction of at most one.
    pub fn set_close_factor(&mut self, new_close_factor_mantissa: &U256) -> (r: Result<(), Error>)
        requires
            new_close_factor_mantissa@ <= exp_scale_int(),
        ensures
            r is Ok,
            old(self).wf() ==> final (self).wf(),
            *final (self) == (Data { close_factor_mantissa: *new_close_factor_mantissa, ..*old(self) }),
    {
        self.close_factor_mantissa = *new_close_factor_mantissa;
        Ok(())
    }

    /// Stores a new liquidation incentive.
    pub fn set_liquidation_incentive(&mut self, new_liquidation_incentive_mantissa: &U256) -> (r:
        Result<(), Error>)
        ensures
            r is Ok,
            *final (self) == (Data {
                liquidation_incentive_mantissa: *new_liquidation_incentive_mantissa,
                ..*old(self)
            }),
    {
        self.liquidation_incentive_mantissa = *new_liquidation_incentive_mantissa;
        Ok(())
    }
}

impl Default for Data {
    /// An empty registry, as `new` builds it.
    fn default() -> (r: Data)
        ensures
            r.wf(),
            r.markets@.len() == 0,
            r.mint_guardian_paused@.len() == 0,
            r.borrow_guardian_paused@.len() == 0,
            r.oracle == ZERO_ADDRESS,
            r.close_factor_mantissa@ == 0,
            r.liquidation_incentive_mantissa@ == 0,
    {
        Data::new()
    }
}

/// The mint gate: minting is allowed exactly when the market's mint
/// pause entry exists and is `false`.
pub open spec fn spec_mint_allowed(d: Data, pool: AccountId) -> Result<(), Error> {
    if spec_assoc_lookup(d.mint_guardian_paused@, pool) == Some(false) {
        Ok(())
    } else {
        Err(Error::MintIsPaused)
    }
}

/// The redeem gate: a redemption is allowed exactly when the
/// balance-decrease guard passes on the redeemed amount.
pub open spec fn spec_redeem_allowed(
    liquidation_threshold: int,
    decimals: int,
    redeem_amount: int,
    asset_price: Option<u128>,
    assets: Seq<AccountId>,
    markets: Seq<MarketData>,
) -> Result<(), Error> {
    match spec_balance_decrease_allowed(
        liquidation_threshold,
        decimals,
        redeem_amount,
        asset_price,
        assets,
        markets,
    ) {
        None => Err(Error::Arithmetic),
        Some(true) => Ok(()),
        Some(false) => Err(Error::InsufficientLiquidity),
    }
}

/// The borrow gate: pause entry `Some(false)`, a usable oracle price, the
/// borrow cap respected, and a position that stays healthy with the new
/// borrow added to its debt.
pub open spec fn spec_borrow_allowed(
    d: Data,
    pool: AccountId,
    borrow_amount: int,
    price: Option<u128>,
    decimals: int,
    pool_total_borrows: int,
    borrow_cap: Option<Balance>,
    assets: Seq<AccountId>,
    markets: Seq<MarketData>,
) -> Result<(), Error> {
    if spec_assoc_lookup(d.borrow_guardian_paused@, pool) != Some(false) {
        Err(Error::BorrowIsPaused)
    } else if price is None || price->0 == 0 {
        Err(Error::PriceUnavailable)
    } else if borrow_cap is Some && pool_total_borrows + borrow_amount > borrow_cap->0 {
        Err(Error::BorrowCapExceeded)
    } else if !spec_account_data_ok(assets, markets) {
        Err(Error::Arithmetic)
    } else {
        let collateral = spec_total_collateral(assets, markets);
        let debt = spec_total_debt(assets, markets);
        let threshold = spec_avg_threshold(assets, markets);
        let amount_eth = spec_amount_eth(price->0 as int, borrow_amount, decimals);
        if debt + amount_eth >= p256() {
            Err(Error::Arithmetic)
        } else if !spec_health_fits(collateral, debt + amount_eth, threshold) {
            Err(Error::Arithmetic)
        } else if spec_health_factor(collateral, debt + amount_eth, threshold)
            >= HEALTH_FACTOR_LIQUIDATION_THRESHOLD {
            Ok(())
        } else {
            Err(Error::InsufficientLiquidity)
        }
    }
}

/// The liquidation gate: both markets listed, the borrower in shortfall,
/// and the repayment within the close factor's share of the debt.
pub open spec fn spec_liquidate_borrow_allowed(
    d: Data,
    pool_borrowed: AccountId,
    pool_collateral: AccountId,
    repay_amount: int,
    borrow_balance: int,
    assets: Seq<AccountId>,
    markets: Seq<MarketData>,
) -> Result<(), Error> {
    if !d.markets@.contains(pool_borrowed) || !d.markets@.contains(pool_collateral) {
        Err(Error::MarketNotListed)
    } else if !spec_account_data_ok(assets, markets) {
        Err(Error::Arithmetic)
    } else if spec_health_factor(
        spec_total_collateral(assets, markets),
        spec_total_debt(assets, markets),
        spec_avg_threshold(assets, markets),
    ) >= HEALTH_FACTOR_LIQUIDATION_THRESHOLD {
        Err(Error::InsufficientLiquidity)
    } else if d.close_factor_mantissa@ * borrow_balance >= p256() {
        Err(Error::Arithmetic)
    } else if repay_amount > spec_mul_scalar_truncate(d.close_factor_mantissa@, borrow_balance) {
        Err(Error::TooMuchRepay)
    } else {
        Ok(())
    }
}

/// The seize gate: both markets listed and one controller over both pools.
pub open spec fn spec_seize_allowed(
    d: Data,
    pool_collateral: AccountId,
    pool_borrowed: AccountId,
    collateral_pool_controller: AccountId,
    borrowed_pool_controller: AccountId,
) -> Result<(), Error> {
    if !d.markets@.contains(pool_collateral) || !d.markets@.contains(pool_borrowed) {
        Err(Error::MarketNotListed)
    } else if collateral_pool_controller != borrowed_pool_controller {
        Err(Error::ControllerMismatch)
    } else {
        Ok(())
    }
}

/// How many share tokens a liquidation seizes for a given repayment:
/// `repay * incentive * price_borrowed / (price_collateral * exchange_rate)`,
/// computed as a truncated `Exp` ratio applied to the repayment.
pub open spec fn spec_seize_ratio(
    incentive: int,
    price_borrowed: int,
    price_collateral: int,
    exchange_rate: int,
) -> int {
    (incentive * price_borrowed) * exp_scale_int() / (price_collateral * exchange_rate)
}

impl Data {
    /// Gate for minting share tokens.
    pub fn mint_allowed(&self, pool: AccountId, _minter: AccountId, _mint_amount: Balance) -> (r:
        Result<(), Error>)
        ensures
            r == spec_mint_allowed(*self, pool),
    {
        match assoc_lookup(&self.mint_guardian_paused, pool) {
            Some(false) => Ok(()),
            _ => Err(Error::MintIsPaused),
        }
    }

    /// After-mint hook: nothing to check, kept for the hook pair.
    pub fn mint_verify(
        &self,
        _pool: AccountId,
        _minter: AccountId,
        _mint_amount: Balance,
        _mint_tokens: Balance,
    ) -> (r: Result<(), Error>)
        ensures
            r == Result::<(), Error>::Ok(()),
    {
        Ok(())
    }

    /// Gate for redeeming share tokens: the redeemed amount must not
    /// drive the redeemer's position into shortfall.
    pub fn redeem_allowed(
        &self,
        _pool: AccountId,
        _redeemer: AccountId,
        redeem_amount: Balance,
        liquidation_threshold: &U256,
        decimals: u8,
        asset_price: Option<u128>,
        account_assets: &Vec<AccountId>,
        markets_data: &Vec<MarketData>,
    ) -> (r: Result<(), Error>)
        requires
            decimals <= 38,
            forall|i: int|
                0 <= i < markets_data@.len() ==> (#[trigger] markets_data@[i]).decimals <= 38,
        ensures
            r == spec_redeem_allowed(
                liquidation_threshold@,
                decimals as int,
                redeem_amount as int,
                asset_price,
                account_assets@,
                markets_data@,
            ),
    {
        let verdict = match balance_decrease_allowed(
            liquidation_threshold,
            decimals,
            redeem_amount,
            asset_price,
            account_assets,
            markets_data,
        ) {
            Ok(v) => v,
            Err(e) => {
                return Err(e);
            },
        };
        if verdict {
            Ok(())
        } else {
            Err(Error::InsufficientLiquidity)
        }
    }

    /// After-redeem hook: nothing to check, kept for the hook pair.
    pub fn redeem_verify(
        &self,
        _pool: AccountId,
        _redeemer: AccountId,
        _redeem_amount: Balance,
        _redeem_tokens: Balance,
    ) -> (r: Result<(), Error>)
        ensures
            r == Result::<(), Error>::Ok(()),
    {
        Ok(())
    }

    /// Gate for borrowing: the market must be unpaused, priced, under its
    /// borrow cap, and the borrower's position must stay healthy with the
    /// new borrow counted as debt.
    pub fn borrow_allowed(
        &self,
        pool: AccountId,
        _borrower: AccountId,
        borrow_amount: Balance,
        price: Option<u128>,
        decimals: u8,
        pool_total_borrows: Balance,
        borrow_cap: Option<Balance>,
        account_assets: &Vec<AccountId>,
        markets_data: &Vec<MarketData>,
    ) -> (r: Result<(), Error>)
        requires
            decimals <= 38,
            forall|i: int|
                0 <= i < markets_data@.len() ==> (#[trigger] markets_data@[i]).decimals <= 38,
        ensures
            r == spec_borrow_allowed(
                *self,
                pool,
                borrow_amount as int,
                price,
                decimals as int,
                pool_total_borrows as int,
                borrow_cap,
                account_assets@,
                markets_data@,
            ),
    {
        match assoc_lookup(&self.borrow_guardian_paused, pool) {
            Some(false) => (),
            _ => {
                return Err(Error::BorrowIsPaused);
            },
        }
        let price_value: u128 = match price {
            Some(p) => p,
            None => {
                return Err(Error::PriceUnavailable);
            },
        };
        if price_value == 0 {
            return Err(Error::PriceUnavailable);
        }
        match borrow_cap {
            Some(cap) => {
                if borrow_amount > cap || pool_total_borrows > cap - borrow_amount {
                    return Err(Error::BorrowCapExceeded);
                }
            },
            None => (),
        }
        let data = match calculate_user_account_data(account_assets, markets_data) {
            Ok(v) => v,
            Err(e) => {
                return Err(e);
            },
        };
        let (collateral, debt, _avg_ltv, threshold, _health) = data;
        proof {
            if account_assets@.len() == 0 {
                crate::risk::lemma_account_acc_empty_assets(
                    account_assets@,
                    markets_data@,
                    markets_data@.len() as int,
                );
            }
        }
        let unit = crate::risk::token_unit(decimals);
        let unit_wide = U256::from_u128(unit);
        let price_wide = U256::from_u128(price_value);
        let amount_wide = U256::from_u128(borrow_amount);
        proof {
            vstd::arithmetic::mul::lemma_mul_upper_bound(
                price_value as int,
                0xffffffffffffffffffffffffffffffffint,
                borrow_amount as int,
                0xffffffffffffffffffffffffffffffffint,
            );
        }
        let value = match price_wide.checked_mul(&amount_wide) {
            Some(v) => v,
            None => {
                return Err(Error::Arithmetic);
            },
        };
        let amount_eth = value.div_rem(&unit_wide).0;
        let new_debt = match debt.checked_add(&amount_eth) {
            Some(v) => v,
            None => {
                return Err(Error::Arithmetic);
            },
        };
        let health_after = match calculate_health_factor_from_balances(
            &collateral,
            &new_debt,
            &threshold,
        ) {
            Ok(v) => v,
            Err(e) => {
                return Err(e);
            },
        };
        let limit = U256::from_u128(HEALTH_FACTOR_LIQUIDATION_THRESHOLD);
        if health_after.ge(&limit) {
            Ok(())
        } else {
            Err(Error::InsufficientLiquidity)
        }
    }

    /// After-borrow hook: nothing to check, kept for the hook pair.
    pub fn borrow_verify(
        &self,
        _pool: AccountId,
        _borrower: AccountId,
        _borrow_amount: Balance,
    ) -> (r: Result<(), Error>)
        ensures
            r == Result::<(), Error>::Ok(()),
    {
        Ok(())
    }

    /// Gate for repaying a borrow: always allowed.
    pub fn repay_borrow_allowed(
        &self,
        _pool: AccountId,
        _payer: AccountId,
        _borrower: AccountId,
        _repay_amount: Balance,
    ) -> (r: Result<(), Error>)
        ensures
            r == Result::<(), Error>::Ok(()),
    {
        Ok(())
    }

    /// After-repay hook: nothing to check, kept for the hook pair.
    pub fn repay_borrow_verify(
        &self,
        _pool: AccountId,
        _payer: AccountId,
        _borrower: AccountId,
        _repay_amount: Balance,
        _borrower_index: u128,
    ) -> (r: Result<(), Error>)
        ensures
            r == Result::<(), Error>::Ok(()),
    {
        Ok(())
    }

    /// Gate for liquidating a borrow: both markets must be listed, the
    /// borrower must be in shortfall, and the repayment must stay within
    /// the close factor's share of the stored borrow balance.
    pub fn liquidate_borrow_allowed(
        &self,
        pool_borrowed: AccountId,
        pool_collateral: AccountId,
        _liquidator: AccountId,
        _borrower: AccountId,
        repay_amount: Balance,
        borrow_balance_stored: Balance,
        account_assets: &Vec<AccountId>,
        markets_data: &Vec<MarketData>,
    ) -> (r: Result<(), Error>)
        requires
            forall|i: int|
                0 <= i < markets_data@.len() ==> (#[trigger] markets_data@[i]).decimals <= 38,
        ensures
            r == spec_liquidate_borrow_allowed(
                *self,
                pool_borrowed,
                pool_collateral,
                repay_amount as int,
                borrow_balance_stored as int,
                account_assets@,
                markets_data@,
            ),
    {
        let borrowed_listed = contains_account(&self.markets, pool_borrowed);
        let collateral_listed = contains_account(&self.markets, pool_collateral);
        if !borrowed_listed || !collateral_listed {
            return Err(Error::MarketNotListed);
        }
        let data = match calculate_user_account_data(account_assets, markets_data) {
            Ok(v) => v,
            Err(e) => {
                return Err(e);
            },
        };
        proof {
            if account_assets@.len() == 0 {
                crate::risk::lemma_account_acc_empty_assets(
                    account_assets@,
                    markets_data@,
                    markets_data@.len() as int,
                );
            }
        }
        let limit = U256::from_u128(HEALTH_FACTOR_LIQUIDATION_THRESHOLD);
        if data.4.ge(&limit) {
            return Err(Error::InsufficientLiquidity);
        }
        let balance_wide = U256::from_u128(borrow_balance_stored);
        let close_factor = Exp { mantissa: self.close_factor_mantissa };
        let max_close = match close_factor.mul_scalar_truncate(&balance_wide) {
            Ok(v) => v,
            Err(e) => {
                return Err(e);
            },
        };
        let repay_wide = U256::from_u128(repay_amount);
        if repay_wide.gt(&max_close) {
            return Err(Error::TooMuchRepay);
        }
        Ok(())
    }

    /// After-liquidation hook: nothing to check, kept for the hook pair.
    pub fn liquidate_borrow_verify(
        &self,
        _pool_borrowed: AccountId,
        _pool_collateral: AccountId,
        _liquidator: AccountId,
        _borrower: AccountId,
        _repay_amount: Balance,
        _seize_tokens: Balance,
    ) -> (r: Result<(), Error>)
        ensures
            r == Result::<(), Error>::Ok(()),
    {
        Ok(())
    }

    /// Gate for seizing collateral: both markets must be listed and the
    /// two pools must answer to the same controller.
    pub fn seize_allowed(
        &self,
        pool_collateral: AccountId,
        pool_borrowed: AccountId,
        _liquidator: AccountId,
        _borrower: AccountId,
        _seize_tokens: Balance,
        collateral_pool_controller: AccountId,
        borrowed_pool_controller: AccountId,
    ) -> (r: Result<(), Error>)
        ensures
            r == spec_seize_allowed(
                *self,
                pool_collateral,
                pool_borrowed,
                collateral_pool_controller,
                borrowed_pool_controller,
            ),
    {
        let collateral_listed = contains_account(&self.markets, pool_collateral);
        let borrowed_listed = contains_account(&self.markets, pool_borrowed);
        if !collateral_listed || !borrowed_listed {
            return Err(Error::MarketNotListed);
        }
        if collateral_pool_controller != borrowed_pool_controller {
            return Err(Error::ControllerMismatch);
        }
        Ok(())
    }

    /// After-seize hook: nothing to check, kept for the hook pair.
    pub fn seize_verify(
        &self,
        _pool_collateral: AccountId,
        _pool_borrowed: AccountId,
        _liquidator: AccountId,
        _borrower: AccountId,
        _seize_tokens: Balance,
    ) -> (r: Result<(), Error>)
        ensures
            r == Result::<(), Error>::Ok(()),
    {
        Ok(())
    }

    /// Gate for transferring share tokens: a transfer is a redemption by
    /// the sender, so it runs the same guard.
    pub fn transfer_allowed(
        &self,
        pool: AccountId,
        src: AccountId,
        _dst: AccountId,
        transfer_tokens: Balance,
        liquidation_threshold: &U256,
        decimals: u8,
        asset_price: Option<u128>,
        account_assets: &Vec<AccountId>,
        markets_data: &Vec<MarketData>,
    ) -> (r: Result<(), Error>)
        requires
            decimals <= 38,
            forall|i: int|
                0 <= i < markets_data@.len() ==> (#[trigger] markets_data@[i]).decimals <= 38,
        ensures
            r == spec_redeem_allowed(
                liquidation_threshold@,
                decimals as int,
                transfer_tokens as int,
                asset_price,
                account_assets@,
                markets_data@,
            ),
    {
        self.redeem_allowed(
            pool,
            src,
            transfer_tokens,
            liquidation_threshold,
            decimals,
            asset_price,
            account_assets,
            markets_data,
        )
    }

    /// After-transfer hook: nothing to check, kept for the hook pair.
    pub fn transfer_verify(
        &self,
        _pool: AccountId,
        _src: AccountId,
        _dst: AccountId,
        _transfer_tokens: Balance,
    ) -> (r: Result<(), Error>)
        ensures
            r == Result::<(), Error>::Ok(()),
    {
        Ok(())
    }

    /// Values a repayment in seized share tokens: the repayment times the
    /// liquidation incentive and the borrowed asset's price, divided by
    /// the collateral's price and its pool's exchange rate.
    pub fn liquidate_calculate_seize_tokens(
        &self,
        _pool_borrowed: AccountId,
        _pool_collateral: AccountId,
        repay_amount: Balance,
        price_borrowed: u128,
        price_collateral: u128,
        exchange_rate_mantissa: &U256,
    ) -> (r: Result<Balance, Error>)
        ensures
            r is Ok <==> ({
                let numerator = self.liquidation_incentive_mantissa@ * price_borrowed;
                let denominator = price_collateral * exchange_rate_mantissa@;
                let ratio = spec_seize_ratio(
                    self.liquidation_incentive_mantissa@,
                    price_borrowed as int,
                    price_collateral as int,
                    exchange_rate_mantissa@,
                );
                &&& numerator < p256()
                &&& denominator < p256()
                &&& denominator > 0
                &&& numerator * exp_scale_int() < p256()
                &&& ratio * repay_amount < p256()
                &&& spec_mul_scalar_truncate(ratio, repay_amount as int) < p128()
            }),
            r is Ok ==> r->Ok_0 == spec_mul_scalar_truncate(
                spec_seize_ratio(
                    self.liquidation_incentive_mantissa@,
                    price_borrowed as int,
                    price_collateral as int,
                    exchange_rate_mantissa@,
                ),
                repay_amount as int,
            ),
            r is Err ==> r->Err_0 == Error::Arithmetic,
    {
        let price_borrowed_wide = U256::from_u128(price_borrowed);
        let price_collateral_wide = U256::from_u128(price_collateral);
        let numerator = match self.liquidation_incentive_mantissa.checked_mul(
            &price_borrowed_wide,
        ) {
            Some(v) => v,
            None => {
                return Err(Error::Arithmetic);
            },
        };
        proof {
            vstd::arithmetic::mul::lemma_mul_upper_bound(
                price_collateral as int,
                p128() - 1,
                exchange_rate_mantissa@,
                p256() - 1,
            );
        }
        let denominator = match price_collateral_wide.checked_mul(exchange_rate_mantissa) {
            Some(v) => v,
            None => {
                return Err(Error::Arithmetic);
            },
        };
        if denominator.is_zero() {
            return Err(Error::Arithmetic);
        }
        let scale = exp_scale();
        let scaled = match numerator.checked_mul(&scale) {
            Some(v) => v,
            None => {
                return Err(Error::Arithmetic);
            },
        };
        let ratio = scaled.div_rem(&denominator).0;
        let repay_wide = U256::from_u128(repay_amount);
        let seize_wide = match (Exp { mantissa: ratio }).mul_scalar_truncate(&repay_wide) {
            Ok(v) => v,
            Err(e) => {
                return Err(e);
            },
        };
        match seize_wide.to_u128() {
            Some(v) => Ok(v),
            None => Err(Error::Arithmetic),
        }
    }
}

} // verus!
