//! Per-account risk evaluation across markets.
//!
//! The risk engine works on plain per-market snapshots that the caller
//! gathers from the pools, the controller's registry and the price
//! oracle: prices at the `10^18` scale, collateral factors and
//! liquidation thresholds in basis points, and balances in the market's
//! own token units.

use crate::fixed_point::{
    spec_percent_mul, spec_percent_mul_fits, spec_wad_div, spec_wad_div_fits,
};
use crate::pool::HEALTH_FACTOR_LIQUIDATION_THRESHOLD;
use crate::types::{AccountId, Balance, Error};
use crate::u256::{p128, p256, U256};
use vstd::arithmetic::mul::lemma_mul_upper_bound;
use vstd::prelude::*;

verus! {

/// `10^n` as a mathematical integer.
pub open spec fn pow10(n: nat) -> int
    decreases n,
{
    if n == 0 {
        1
    } else {
        10 * pow10((n - 1) as nat)
    }
}

/// Powers of ten are at least one.
proof fn lemma_pow10_pos(n: nat)
    ensures
        pow10(n) >= 1,
    decreases n,
{
    if n > 0 {
        lemma_pow10_pos((n - 1) as nat);
    }
}

/// Powers of ten grow with the exponent.
proof fn lemma_pow10_mono(a: nat, b: nat)
    requires
        a <= b,
    ensures
        pow10(a) <= pow10(b),
    decreases b,
{
    lemma_pow10_pos(a);
    if a < b {
        lemma_pow10_mono(a, (b - 1) as nat);
        lemma_pow10_pos((b - 1) as nat);
    }
}

/// The top of the exponent range a `u128` token unit can hold.
proof fn lemma_pow10_37()
    ensures
        pow10(37) == 10000000000000000000000000000000000000int,
{
    assert(pow10(0) == 1);
    assert(pow10(1) == 10);
    assert(pow10(2) == 100);
    assert(pow10(3) == 1000);
    assert(pow10(4) == 10000);
    assert(pow10(5) == 100000);
    assert(pow10(6) == 1000000);
    assert(pow10(7) == 10000000);
    assert(pow10(8) == 100000000);
    assert(pow10(9) == 1000000000);
    assert(pow10(10) == 10000000000);
    assert(pow10(11) == 100000000000);
    assert(pow10(12) == 1000000000000);
    assert(pow10(13) == 10000000000000);
    assert(pow10(14) == 100000000000000);
    assert(pow10(15) == 1000000000000000);
    assert(pow10(16) == 10000000000000000);
    assert(pow10(17) == 100000000000000000);
    assert(pow10(18) == 1000000000000000000);
    assert(pow10(19) == 10000000000000000000);
    assert(pow10(20) == 100000000000000000000);
    assert(pow10(21) == 1000000000000000000000);
    assert(pow10(22) == 10000000000000000000000);
    assert(pow10(23) == 100000000000000000000000);
    assert(pow10(24) == 1000000000000000000000000);
    assert(pow10(25) == 10000000000000000000000000);
    assert(pow10(26) == 100000000000000000000000000);
    assert(pow10(27) == 1000000000000000000000000000);
    assert(pow10(28) == 10000000000000000000000000000);
    assert(pow10(29) == 100000000000000000000000000000);
    assert(pow10(30) == 1000000000000000000000000000000);
    assert(pow10(31) == 10000000000000000000000000000000);
    assert(pow10(32) == 100000000000000000000000000000000);
    assert(pow10(33) == 1000000000000000000000000000000000);
    assert(pow10(34) == 10000000000000000000000000000000000);
    assert(pow10(35) == 100000000000000000000000000000000000);
    assert(pow10(36) == 1000000000000000000000000000000000000);
    assert(pow10(37) == 10000000000000000000000000000000000000);
}

/// `10^decimals` as a `u128`: the unit of one whole token.
pub fn token_unit(decimals: u8) -> (r: u128)
    requires
        decimals <= 38,
    ensures
        r == pow10(decimals as nat),
        r >= 1,
{
    let mut result: u128 = 1;
    let mut i: u8 = 0;
    while i < decimals
        invariant
            i <= decimals,
            decimals <= 38,
            result == pow10(i as nat),
            result >= 1,
        decreases decimals - i,
    {
        proof {
            lemma_pow10_37();
            lemma_pow10_mono(i as nat, 37);
        }
        result = result * 10;
        i = i + 1;
        proof {
            assert(pow10(i as nat) == 10 * pow10((i - 1) as nat));
        }
    }
    result
}

/// Everything the risk engine reads of one market for one user.
#[derive(Clone, Copy, PartialEq, Eq, Structural, Debug)]
pub struct MarketData {
    /// The market's asset identity.
    pub asset: AccountId,
    /// Collateral factor in basis points.
    pub ltv: U256,
    /// Liquidation threshold in basis points.
    pub liquidation_threshold: U256,
    /// Decimals of the market's token; its unit is `10^decimals`.
    pub decimals: u8,
    /// Oracle price of one token unit, scaled by `10^18`.
    pub unit_price: u128,
    /// The user's supplied balance, interest included.
    pub compounded_liquidity_balance: Balance,
    /// The user's stored borrow balance.
    pub borrow_balance_stored: Balance,
    /// The user's principal (index-scaled) borrow balance.
    pub principal_balance: Balance,
}

/// A market counts for a user when it sits among the user's entered
/// assets and is no zero identity.
pub open spec fn spec_row_counted(assets: Seq<AccountId>, m: MarketData) -> bool {
    assets.contains(m.asset) && m.asset != 0
}

/// A counted market contributes collateral when its threshold and the
/// user's supplied balance are both nonzero.
pub open spec fn spec_collateral_counted(m: MarketData) -> bool {
    m.liquidation_threshold@ != 0 && m.compounded_liquidity_balance > 0
}

/// The ETH value of the user's supplied balance in one market.
pub open spec fn spec_liquidity_eth(m: MarketData) -> int {
    m.unit_price * m.compounded_liquidity_balance / pow10(m.decimals as nat)
}

/// The ETH value of the user's principal debt in one market.
pub open spec fn spec_debt_eth(m: MarketData) -> int {
    m.unit_price * m.principal_balance / pow10(m.decimals as nat)
}

/// One market's step of the account-data walk applied to the running
/// sums `(total_collateral, sum_ltv, sum_threshold, total_debt)`, all in
/// ETH at the `10^18` scale.
pub open spec fn spec_row_step(
    prev: (int, int, int, int),
    assets: Seq<AccountId>,
    m: MarketData,
) -> (int, int, int, int) {
    if !spec_row_counted(assets, m) {
        prev
    } else {
        let le = spec_liquidity_eth(m);
        let mid = if spec_collateral_counted(m) {
            (prev.0 + le, prev.1 + le * m.ltv@, prev.2 + le * m.liquidation_threshold@, prev.3)
        } else {
            prev
        };
        if m.borrow_balance_stored != 0 {
            (mid.0, mid.1, mid.2, mid.3 + spec_debt_eth(m))
        } else {
            mid
        }
    }
}

/// When one market's step keeps every checked operation within 256 bits.
pub open spec fn spec_row_fits(
    prev: (int, int, int, int),
    assets: Seq<AccountId>,
    m: MarketData,
) -> bool {
    if !spec_row_counted(assets, m) {
        true
    } else {
        let le = spec_liquidity_eth(m);
        &&& (spec_collateral_counted(m) ==> prev.0 + le < p256() && le * m.ltv@ < p256() && prev.1
            + le * m.ltv@ < p256() && le * m.liquidation_threshold@ < p256() && prev.2 + le
            * m.liquidation_threshold@ < p256())
        &&& (m.borrow_balance_stored != 0 ==> prev.3 + spec_debt_eth(m) < p256())
    }
}

/// The four running sums of the account-data walk over the first `k`
/// markets.
pub open spec fn spec_account_acc(
    assets: Seq<AccountId>,
    markets: Seq<MarketData>,
    k: int,
) -> (int, int, int, int)
    decreases k,
{
    if k <= 0 {
        (0, 0, 0, 0)
    } else {
        spec_row_step(spec_account_acc(assets, markets, k - 1), assets, markets[k - 1])
    }
}

/// When every checked step of the account-data walk over the first `k`
/// markets fits in 256 bits.
pub open spec fn spec_account_acc_fits(
    assets: Seq<AccountId>,
    markets: Seq<MarketData>,
    k: int,
) -> bool
    decreases k,
{
    if k <= 0 {
        true
    } else {
        spec_account_acc_fits(assets, markets, k - 1) && spec_row_fits(
            spec_account_acc(assets, markets, k - 1),
            assets,
            markets[k - 1],
        )
    }
}

/// With no entered assets every market is skipped: the walk stays at
/// zero and trivially fits.
pub proof fn lemma_account_acc_empty_assets(
    assets: Seq<AccountId>,
    markets: Seq<MarketData>,
    k: int,
)
    requires
        assets.len() == 0,
    ensures
        spec_account_acc(assets, markets, k) == (0int, 0int, 0int, 0int),
        spec_account_acc_fits(assets, markets, k),
    decreases k,
{
    if k > 0 {
        lemma_account_acc_empty_assets(assets, markets, k - 1);
    }
}

/// A walk that fits up to step `k` fits up to any earlier step.
proof fn lemma_acc_fits_prefix(assets: Seq<AccountId>, markets: Seq<MarketData>, j: int, k: int)
    requires
        0 <= j <= k,
        spec_account_acc_fits(assets, markets, k),
    ensures
        spec_account_acc_fits(assets, markets, j),
    decreases k,
{
    if j < k {
        lemma_acc_fits_prefix(assets, markets, j, k - 1);
    }
}

/// Total collateral of a user across all markets, in ETH.
pub open spec fn spec_total_collateral(assets: Seq<AccountId>, markets: Seq<MarketData>) -> int {
    spec_account_acc(assets, markets, markets.len() as int).0
}

/// Total debt of a user across all markets, in ETH.
pub open spec fn spec_total_debt(assets: Seq<AccountId>, markets: Seq<MarketData>) -> int {
    spec_account_acc(assets, markets, markets.len() as int).3
}

/// Collateral-weighted average LTV, in basis points.
pub open spec fn spec_avg_ltv(assets: Seq<AccountId>, markets: Seq<MarketData>) -> int {
    let tc = spec_total_collateral(assets, markets);
    if tc > 0 {
        spec_account_acc(assets, markets, markets.len() as int).1 / tc
    } else {
        0
    }
}

/// Collateral-weighted average liquidation threshold, in basis points.
pub open spec fn spec_avg_threshold(assets: Seq<AccountId>, markets: Seq<MarketData>) -> int {
    let tc = spec_total_collateral(assets, markets);
    if tc > 0 {
        spec_account_acc(assets, markets, markets.len() as int).2 / tc
    } else {
        0
    }
}

/// The health factor: collateral weighted by the liquidation threshold,
/// divided by debt, at the `10^18` scale; the top `U256` value stands for
/// infinity when there is no debt.
pub open spec fn spec_health_factor(collateral: int, debt: int, threshold: int) -> int {
    if debt == 0 {
        p256() - 1
    } else {
        spec_wad_div(spec_percent_mul(collateral, threshold), debt)
    }
}

/// When the health-factor computation fits in 256 bits.
pub open spec fn spec_health_fits(collateral: int, debt: int, threshold: int) -> bool {
    debt == 0 || (spec_percent_mul_fits(collateral, threshold) && spec_wad_div_fits(
        spec_percent_mul(collateral, threshold),
        debt,
    ))
}

/// When the whole account-data computation, health factor included,
/// succeeds.
pub open spec fn spec_account_data_ok(assets: Seq<AccountId>, markets: Seq<MarketData>) -> bool {
    spec_account_acc_fits(assets, markets, markets.len() as int) && spec_health_fits(
        spec_total_collateral(assets, markets),
        spec_total_debt(assets, markets),
        spec_avg_threshold(assets, markets),
    )
}

/// The health factor from aggregated balances: infinite (the top `U256`
/// value) without debt, else threshold-weighted collateral divided by
/// debt with half-up rounding.
pub fn calculate_health_factor_from_balances(
    total_collateral_in_eth: &U256,
    total_debt_in_eth: &U256,
    liquidation_threshold: &U256,
) -> (r: Result<U256, Error>)
    ensures
        r is Ok <==> spec_health_fits(
            total_collateral_in_eth@,
            total_debt_in_eth@,
            liquidation_threshold@,
        ),
        r is Ok ==> r->Ok_0@ == spec_health_factor(
            total_collateral_in_eth@,
            total_debt_in_eth@,
            liquidation_threshold@,
        ),
        r is Err ==> r->Err_0 == Error::Arithmetic,
{
    if total_debt_in_eth.is_zero() {
        return Ok(U256::max_value());
    }
    let weighted = match total_collateral_in_eth.percent_mul(liquidation_threshold) {
        Ok(v) => v,
        Err(e) => {
            return Err(e);
        },
    };
    weighted.wad_div(total_debt_in_eth)
}

/// Whether `needle` occurs in the identity list.
pub fn contains_account(haystack: &Vec<AccountId>, needle: AccountId) -> (r: bool)
    ensures
        r == haystack@.contains(needle),
{
    let mut k: usize = 0;
    while k < haystack.len()
        invariant
            k <= haystack@.len(),
            forall|j: int| 0 <= j < k ==> haystack@[j] != needle,
        decreases haystack@.len() - k,
    {
        if haystack[k] == needle {
            return true;
        }
        k = k + 1;
    }
    false
}

/// Applies one market's contribution to the four running sums.
fn account_row(
    total_collateral: &U256,
    sum_ltv: &U256,
    sum_threshold: &U256,
    total_debt: &U256,
    account_assets: &Vec<AccountId>,
    m: &MarketData,
) -> (r: Result<(U256, U256, U256, U256), Error>)
    requires
        m.decimals <= 38,
    ensures
        r is Ok <==> spec_row_fits(
            (total_collateral@, sum_ltv@, sum_threshold@, total_debt@),
            account_assets@,
            *m,
        ),
        r is Ok ==> (r->Ok_0.0@, r->Ok_0.1@, r->Ok_0.2@, r->Ok_0.3@) == spec_row_step(
            (total_collateral@, sum_ltv@, sum_threshold@, total_debt@),
            account_assets@,
            *m,
        ),
        r is Err ==> r->Err_0 == Error::Arithmetic,
{
    let in_assets = contains_account(account_assets, m.asset);
    if !(in_assets && m.asset != 0) {
        return Ok((*total_collateral, *sum_ltv, *sum_threshold, *total_debt));
    }
    let unit = token_unit(m.decimals);
    let unit_wide = U256::from_u128(unit);
    let price_wide = U256::from_u128(m.unit_price);
    let mut new_collateral = *total_collateral;
    let mut new_sum_ltv = *sum_ltv;
    let mut new_sum_threshold = *sum_threshold;
    let mut new_debt = *total_debt;
    if !m.liquidation_threshold.is_zero() && m.compounded_liquidity_balance > 0 {
        let balance_wide = U256::from_u128(m.compounded_liquidity_balance);
        proof {
            lemma_mul_upper_bound(
                m.unit_price as int,
                p128() - 1,
                m.compounded_liquidity_balance as int,
                p128() - 1,
            );
        }
        let value = match price_wide.checked_mul(&balance_wide) {
            Some(v) => v,
            None => {
                return Err(Error::Arithmetic);
            },
        };
        let liquidity_eth = value.div_rem(&unit_wide).0;
        new_collateral = match new_collateral.checked_add(&liquidity_eth) {
            Some(v) => v,
            None => {
                return Err(Error::Arithmetic);
            },
        };
        let weighted_ltv = match liquidity_eth.checked_mul(&m.ltv) {
            Some(v) => v,
            None => {
                return Err(Error::Arithmetic);
            },
        };
        new_sum_ltv = match new_sum_ltv.checked_add(&weighted_ltv) {
            Some(v) => v,
            None => {
                return Err(Error::Arithmetic);
            },
        };
        let weighted_threshold = match liquidity_eth.checked_mul(&m.liquidation_threshold) {
            Some(v) => v,
            None => {
                return Err(Error::Arithmetic);
            },
        };
        new_sum_threshold = match new_sum_threshold.checked_add(&weighted_threshold) {
            Some(v) => v,
            None => {
                return Err(Error::Arithmetic);
            },
        };
    }
    if m.borrow_balance_stored != 0 {
        let principal_wide = U256::from_u128(m.principal_balance);
        proof {
            lemma_mul_upper_bound(
                m.unit_price as int,
                p128() - 1,
                m.principal_balance as int,
                p128() - 1,
            );
        }
        let debt_value = match price_wide.checked_mul(&principal_wide) {
            Some(v) => v,
            None => {
                return Err(Error::Arithmetic);
            },
        };
        let debt_eth = debt_value.div_rem(&unit_wide).0;
        new_debt = match new_debt.checked_add(&debt_eth) {
            Some(v) => v,
            None => {
                return Err(Error::Arithmetic);
            },
        };
    }
    Ok((new_collateral, new_sum_ltv, new_sum_threshold, new_debt))
}

/// Walks every market and aggregates the user's position into
/// `(total_collateral_eth, total_debt_eth, avg_ltv, avg_liquidation_threshold,
/// health_factor)`. A user with no entered assets is perfectly healthy.
pub fn calculate_user_account_data(account_assets: &Vec<AccountId>, markets: &Vec<MarketData>) -> (r:
    Result<(U256, U256, U256, U256, U256), Error>)
    requires
        forall|i: int| 0 <= i < markets@.len() ==> (#[trigger] markets@[i]).decimals <= 38,
    ensures
        account_assets@.len() == 0 ==> r is Ok && r->Ok_0.0@ == 0 && r->Ok_0.1@ == 0
            && r->Ok_0.2@ == 0 && r->Ok_0.3@ == 0 && r->Ok_0.4@ == p256() - 1,
        account_assets@.len() > 0 ==> (r is Ok <==> spec_account_data_ok(
            account_assets@,
            markets@,
        )),
        account_assets@.len() > 0 && r is Ok ==> {
            &&& r->Ok_0.0@ == spec_total_collateral(account_assets@, markets@)
            &&& r->Ok_0.1@ == spec_total_debt(account_assets@, markets@)
            &&& r->Ok_0.2@ == spec_avg_ltv(account_assets@, markets@)
            &&& r->Ok_0.3@ == spec_avg_threshold(account_assets@, markets@)
            &&& r->Ok_0.4@ == spec_health_factor(
                spec_total_collateral(account_assets@, markets@),
                spec_total_debt(account_assets@, markets@),
                spec_avg_threshold(account_assets@, markets@),
            )
        },
        r is Err ==> r->Err_0 == Error::Arithmetic,
{
    if account_assets.len() == 0 {
        let zero = U256::zero();
        return Ok((zero, zero, zero, zero, U256::max_value()));
    }
    let mut total_collateral = U256::zero();
    let mut sum_ltv = U256::zero();
    let mut sum_threshold = U256::zero();
    let mut total_debt = U256::zero();
    let mut k: usize = 0;
    while k < markets.len()
        invariant
            k <= markets@.len(),
            forall|i: int| 0 <= i < markets@.len() ==> (#[trigger] markets@[i]).decimals <= 38,
            spec_account_acc_fits(account_assets@, markets@, k as int),
            spec_account_acc(account_assets@, markets@, k as int) == (
                total_collateral@,
                sum_ltv@,
                sum_threshold@,
                total_debt@,
            ),
        decreases markets@.len() - k,
    {
        let m = markets[k];
        let stepped = match account_row(
            &total_collateral,
            &sum_ltv,
            &sum_threshold,
            &total_debt,
            account_assets,
            &m,
        ) {
            Ok(v) => v,
            Err(e) => {
                proof {
                    assert(!spec_account_acc_fits(account_assets@, markets@, k + 1));
                    if spec_account_acc_fits(account_assets@, markets@, markets@.len() as int) {
                        lemma_acc_fits_prefix(
                            account_assets@,
                            markets@,
                            k + 1,
                            markets@.len() as int,
                        );
                    }
                }
                return Err(e);
            },
        };
        total_collateral = stepped.0;
        sum_ltv = stepped.1;
        sum_threshold = stepped.2;
        total_debt = stepped.3;
        k = k + 1;
    }
    let avg_ltv = if total_collateral.is_zero() {
        U256::zero()
    } else {
        sum_ltv.div_rem(&total_collateral).0
    };
    let avg_threshold = if total_collateral.is_zero() {
        U256::zero()
    } else {
        sum_threshold.div_rem(&total_collateral).0
    };
    let health_factor = match calculate_health_factor_from_balances(
        &total_collateral,
        &total_debt,
        &avg_threshold,
    ) {
        Ok(v) => v,
        Err(e) => {
            return Err(e);
        },
    };
    Ok((total_collateral, total_debt, avg_ltv, avg_threshold, health_factor))
}

/// The ETH value of `amount` token units priced at `price`.
pub open spec fn spec_amount_eth(price: int, amount: int, decimals: int) -> int {
    price * amount / pow10(decimals as nat)
}

/// The balance-decrease decision: `Some(verdict)` when every checked
/// step fits, `None` where the computation overflows or underflows.
pub open spec fn spec_balance_decrease_allowed(
    liquidation_threshold: int,
    decimals: int,
    amount: int,
    asset_price: Option<u128>,
    assets: Seq<AccountId>,
    markets: Seq<MarketData>,
) -> Option<bool> {
    if assets.len() == 0 {
        Some(true)
    } else if liquidation_threshold == 0 {
        Some(true)
    } else if !spec_account_data_ok(assets, markets) {
        None
    } else {
        let tc = spec_total_collateral(assets, markets);
        let debt = spec_total_debt(assets, markets);
        let avg_t = spec_avg_threshold(assets, markets);
        if debt == 0 {
            Some(true)
        } else if asset_price is None || asset_price->0 == 0 {
            Some(false)
        } else {
            let amount_eth = spec_amount_eth(asset_price->0 as int, amount, decimals);
            if tc < amount_eth {
                None
            } else if tc == amount_eth {
                Some(false)
            } else if tc * avg_t >= p256() {
                None
            } else if amount_eth * liquidation_threshold >= p256() {
                None
            } else if tc * avg_t < amount_eth * liquidation_threshold {
                None
            } else {
                let t_after = (tc * avg_t - amount_eth * liquidation_threshold) / (tc - amount_eth);
                if !spec_health_fits(tc - amount_eth, debt, t_after) {
                    None
                } else {
                    Some(
                        spec_health_factor(tc - amount_eth, debt, t_after)
                            >= HEALTH_FACTOR_LIQUIDATION_THRESHOLD,
                    )
                }
            }
        }
    }
}

/// Decides whether a user may withdraw `amount` of the asset from
/// collateral without the position turning unhealthy: recomputes the
/// weighted liquidation threshold as if the amount were gone and checks
/// that the resulting health factor stays at or above one.
pub fn balance_decrease_allowed(
    liquidation_threshold: &U256,
    decimals: u8,
    amount: Balance,
    asset_price: Option<u128>,
    account_assets: &Vec<AccountId>,
    markets: &Vec<MarketData>,
) -> (r: Result<bool, Error>)
    requires
        decimals <= 38,
        forall|i: int| 0 <= i < markets@.len() ==> (#[trigger] markets@[i]).decimals <= 38,
    ensures
        r is Ok <==> spec_balance_decrease_allowed(
            liquidation_threshold@,
            decimals as int,
            amount as int,
            asset_price,
            account_assets@,
            markets@,
        ) is Some,
        r is Ok ==> r->Ok_0 == spec_balance_decrease_allowed(
            liquidation_threshold@,
            decimals as int,
            amount as int,
            asset_price,
            account_assets@,
            markets@,
        )->0,
        r is Err ==> r->Err_0 == Error::Arithmetic,
{
    if account_assets.len() == 0 {
        return Ok(true);
    }
    if liquidation_threshold.is_zero() {
        return Ok(true);
    }
    let data = match calculate_user_account_data(account_assets, markets) {
        Ok(v) => v,
        Err(e) => {
            return Err(e);
        },
    };
    let (total_collateral, total_debt, _avg_ltv, avg_threshold, _health) = data;
    if total_debt.is_zero() {
        return Ok(true);
    }
    let price: u128 = match asset_price {
        Some(p) => p,
        None => {
            return Ok(false);
        },
    };
    if price == 0 {
        return Ok(false);
    }
    let unit = token_unit(decimals);
    let unit_wide = U256::from_u128(unit);
    let price_wide = U256::from_u128(price);
    let amount_wide = U256::from_u128(amount);
    proof {
        lemma_mul_upper_bound(price as int, p128() - 1, amount as int, p128() - 1);
    }
    let value = match price_wide.checked_mul(&amount_wide) {
        Some(v) => v,
        None => {
            return Err(Error::Arithmetic);
        },
    };
    let amount_eth = value.div_rem(&unit_wide).0;
    let collateral_after = match total_collateral.checked_sub(&amount_eth) {
        Some(v) => v,
        None => {
            return Err(Error::Arithmetic);
        },
    };
    if collateral_after.is_zero() {
        return Ok(false);
    }
    let weighted_total = match total_collateral.checked_mul(&avg_threshold) {
        Some(v) => v,
        None => {
            return Err(Error::Arithmetic);
        },
    };
    let weighted_decrease = match amount_eth.checked_mul(liquidation_threshold) {
        Some(v) => v,
        None => {
            return Err(Error::Arithmetic);
        },
    };
    let diff = match weighted_total.checked_sub(&weighted_decrease) {
        Some(v) => v,
        None => {
            return Err(Error::Arithmetic);
        },
    };
    let threshold_after = diff.div_rem(&collateral_after).0;
    let health_after = match calculate_health_factor_from_balances(
        &collateral_after,
        &total_debt,
        &threshold_after,
    ) {
        Ok(v) => v,
        Err(e) => {
            return Err(e);
        },
    };
    let limit = U256::from_u128(HEALTH_FACTOR_LIQUIDATION_THRESHOLD);
    Ok(health_after.ge(&limit))
}

} // verus!
