//! Controller policy, risk engine and oracle behaviour on concrete
//! values.

use money_market::controller::Data;
use money_market::pool::HEALTH_FACTOR_LIQUIDATION_THRESHOLD;
use money_market::price_oracle::Data as OracleData;
use money_market::risk::{
    balance_decrease_allowed, calculate_health_factor_from_balances, calculate_user_account_data,
    MarketData,
};
use money_market::types::Error;
use money_market::u256::U256;

fn mantissa() -> u128 {
    10_u128.pow(18)
}

/// One market where the user holds `supplied` and owes `principal`, both
/// valued at one ETH per token.
fn one_market(asset: u128, supplied: u128, principal: u128) -> MarketData {
    MarketData {
        asset,
        ltv: U256::from_u128(8000),
        liquidation_threshold: U256::from_u128(8000),
        decimals: 18,
        unit_price: mantissa(),
        compounded_liquidity_balance: supplied,
        borrow_balance_stored: if principal > 0 { 1 } else { 0 },
        principal_balance: principal,
    }
}

#[test]
fn mint_allowed_requires_an_unpaused_entry() {
    let mut controller = Data::new();
    // An unlisted market has no pause entry: the conservative default is paused.
    assert_eq!(controller.mint_allowed(7, 1, 100), Err(Error::MintIsPaused));
    controller.support_market(&7).unwrap();
    assert_eq!(controller.mint_allowed(7, 1, 100), Ok(()));
    controller.set_mint_guardian_paused(&7, true).unwrap();
    assert_eq!(controller.mint_allowed(7, 1, 100), Err(Error::MintIsPaused));
}

#[test]
fn support_market_lists_once_and_unpauses() {
    let mut controller = Data::new();
    assert_eq!(controller.support_market(&3), Ok(()));
    assert_eq!(controller.mint_guardian_paused(3), Some(false));
    assert_eq!(controller.borrow_guardian_paused(3), Some(false));
    assert!(controller.is_listed_market(3));
    assert_eq!(controller.markets(), vec![3]);
    assert_eq!(controller.support_market(&3), Err(Error::MarketAlreadyListed));
}

#[test]
fn liquidate_respects_the_close_factor() {
    let mut controller = Data::new();
    controller.support_market(&1).unwrap();
    controller.support_market(&2).unwrap();
    controller.set_close_factor(&U256::from_u128(mantissa() / 2)).unwrap();
    // The borrower holds one token and owes two: health factor 0.4, in shortfall.
    let assets = vec![1u128];
    let markets = vec![one_market(1, mantissa(), 2 * mantissa())];
    assert_eq!(
        controller.liquidate_borrow_allowed(1, 2, 9, 8, 501, 1000, &assets, &markets),
        Err(Error::TooMuchRepay)
    );
    assert_eq!(
        controller.liquidate_borrow_allowed(1, 2, 9, 8, 500, 1000, &assets, &markets),
        Ok(())
    );
}

#[test]
fn liquidate_needs_listed_markets_and_shortfall() {
    let mut controller = Data::new();
    controller.support_market(&1).unwrap();
    controller.set_close_factor(&U256::from_u128(mantissa() / 2)).unwrap();
    let assets = vec![1u128];
    let shortfall = vec![one_market(1, mantissa(), 2 * mantissa())];
    // The collateral market is not listed.
    assert_eq!(
        controller.liquidate_borrow_allowed(1, 2, 9, 8, 1, 1000, &assets, &shortfall),
        Err(Error::MarketNotListed)
    );
    controller.support_market(&2).unwrap();
    // A healthy borrower cannot be liquidated.
    let healthy = vec![one_market(1, 10 * mantissa(), mantissa())];
    assert_eq!(
        controller.liquidate_borrow_allowed(1, 2, 9, 8, 1, 1000, &assets, &healthy),
        Err(Error::InsufficientLiquidity)
    );
}

#[test]
fn seize_needs_listed_markets_and_one_controller() {
    let mut controller = Data::new();
    controller.support_market(&1).unwrap();
    controller.support_market(&2).unwrap();
    assert_eq!(controller.seize_allowed(1, 2, 9, 8, 100, 77, 77), Ok(()));
    assert_eq!(
        controller.seize_allowed(1, 2, 9, 8, 100, 77, 78),
        Err(Error::ControllerMismatch)
    );
    assert_eq!(
        controller.seize_allowed(1, 5, 9, 8, 100, 77, 77),
        Err(Error::MarketNotListed)
    );
}

#[test]
fn borrow_allowed_checks_pause_price_cap_and_liquidity() {
    let mut controller = Data::new();
    let assets = vec![1u128];
    let markets = vec![one_market(1, 10 * mantissa(), 0)];
    // Not listed: the missing pause entry blocks the borrow.
    assert_eq!(
        controller.borrow_allowed(1, 8, 100, Some(mantissa()), 18, 0, None, &assets, &markets),
        Err(Error::BorrowIsPaused)
    );
    controller.support_market(&1).unwrap();
    assert_eq!(
        controller.borrow_allowed(1, 8, 100, None, 18, 0, None, &assets, &markets),
        Err(Error::PriceUnavailable)
    );
    assert_eq!(
        controller.borrow_allowed(1, 8, 100, Some(0), 18, 0, None, &assets, &markets),
        Err(Error::PriceUnavailable)
    );
    assert_eq!(
        controller.borrow_allowed(
            1,
            8,
            100,
            Some(mantissa()),
            18,
            950,
            Some(1000),
            &assets,
            &markets,
        ),
        Err(Error::BorrowCapExceeded)
    );
    // Ten tokens of collateral comfortably cover a one-token borrow.
    assert_eq!(
        controller.borrow_allowed(
            1,
            8,
            mantissa(),
            Some(mantissa()),
            18,
            0,
            None,
            &assets,
            &markets,
        ),
        Ok(())
    );
    // Borrowing ten tokens against ten would leave the position unhealthy.
    assert_eq!(
        controller.borrow_allowed(
            1,
            8,
            10 * mantissa(),
            Some(mantissa()),
            18,
            0,
            None,
            &assets,
            &markets,
        ),
        Err(Error::InsufficientLiquidity)
    );
}

#[test]
fn repay_and_verify_hooks_always_pass() {
    let controller = Data::new();
    assert_eq!(controller.repay_borrow_allowed(1, 2, 3, 4), Ok(()));
    assert_eq!(controller.mint_verify(1, 2, 3, 4), Ok(()));
    assert_eq!(controller.redeem_verify(1, 2, 3, 4), Ok(()));
    assert_eq!(controller.borrow_verify(1, 2, 3), Ok(()));
    assert_eq!(controller.repay_borrow_verify(1, 2, 3, 4, 5), Ok(()));
    assert_eq!(controller.liquidate_borrow_verify(1, 2, 3, 4, 5, 6), Ok(()));
    assert_eq!(controller.seize_verify(1, 2, 3, 4, 5), Ok(()));
    assert_eq!(controller.transfer_verify(1, 2, 3, 4), Ok(()));
}

#[test]
fn health_factor_is_infinite_without_debt() {
    let hf = calculate_health_factor_from_balances(
        &U256::from_u128(5 * mantissa()),
        &U256::zero(),
        &U256::from_u128(8000),
    )
    .unwrap();
    assert_eq!(hf, U256::max_value());
}

#[test]
fn health_factor_weighs_collateral_by_threshold() {
    // Two ETH of collateral at an 80% threshold against one ETH of debt: 1.6.
    let hf = calculate_health_factor_from_balances(
        &U256::from_u128(2 * mantissa()),
        &U256::from_u128(mantissa()),
        &U256::from_u128(8000),
    )
    .unwrap();
    assert_eq!(hf, U256::from_u128(1600000000000000000));
    assert!(hf.ge(&U256::from_u128(HEALTH_FACTOR_LIQUIDATION_THRESHOLD)));
}

#[test]
fn account_data_aggregates_one_market() {
    let assets = vec![1u128];
    let markets = vec![one_market(1, 2 * mantissa(), mantissa())];
    let (collateral, debt, avg_ltv, avg_threshold, health) =
        calculate_user_account_data(&assets, &markets).unwrap();
    assert_eq!(collateral, U256::from_u128(2 * mantissa()));
    assert_eq!(debt, U256::from_u128(mantissa()));
    assert_eq!(avg_ltv, U256::from_u128(8000));
    assert_eq!(avg_threshold, U256::from_u128(8000));
    assert_eq!(health, U256::from_u128(1600000000000000000));
}

#[test]
fn account_data_without_assets_is_healthy() {
    let assets: Vec<u128> = vec![];
    let markets = vec![one_market(1, mantissa(), mantissa())];
    let (collateral, debt, _, _, health) =
        calculate_user_account_data(&assets, &markets).unwrap();
    assert_eq!(collateral, U256::zero());
    assert_eq!(debt, U256::zero());
    assert_eq!(health, U256::max_value());
}

#[test]
fn balance_decrease_guards_the_health_factor() {
    let assets = vec![1u128];
    // Ten tokens supplied, five owed: health factor 1.6.
    let markets = vec![one_market(1, 10 * mantissa(), 5 * mantissa())];
    let threshold = U256::from_u128(8000);
    // Withdrawing one token keeps the position healthy.
    let fine = balance_decrease_allowed(
        &threshold,
        18,
        mantissa(),
        Some(mantissa()),
        &assets,
        &markets,
    )
    .unwrap();
    assert!(fine);
    // Withdrawing four of the ten would drop the health factor below one.
    let too_much = balance_decrease_allowed(
        &threshold,
        18,
        4 * mantissa(),
        Some(mantissa()),
        &assets,
        &markets,
    )
    .unwrap();
    assert!(!too_much);
    // Without a price the engine refuses the withdrawal outright.
    let unpriced =
        balance_decrease_allowed(&threshold, 18, mantissa(), None, &assets, &markets).unwrap();
    assert!(!unpriced);
}

#[test]
fn redeem_allowed_maps_the_guard_verdict() {
    let mut controller = Data::new();
    controller.support_market(&1).unwrap();
    let assets = vec![1u128];
    let markets = vec![one_market(1, 10 * mantissa(), 5 * mantissa())];
    let threshold = U256::from_u128(8000);
    assert_eq!(
        controller.redeem_allowed(
            1,
            8,
            mantissa(),
            &threshold,
            18,
            Some(mantissa()),
            &assets,
            &markets,
        ),
        Ok(())
    );
    assert_eq!(
        controller.redeem_allowed(
            1,
            8,
            4 * mantissa(),
            &threshold,
            18,
            Some(mantissa()),
            &assets,
            &markets,
        ),
        Err(Error::InsufficientLiquidity)
    );
    assert_eq!(
        controller.transfer_allowed(
            1,
            8,
            9,
            4 * mantissa(),
            &threshold,
            18,
            Some(mantissa()),
            &assets,
            &markets,
        ),
        Err(Error::InsufficientLiquidity)
    );
}

#[test]
fn seize_token_valuation_applies_the_incentive() {
    let mut controller = Data::new();
    // A 10% incentive, equal prices, and a 1:50 exchange rate.
    controller
        .set_liquidation_incentive(&U256::from_u128(11 * mantissa() / 10))
        .unwrap();
    let seized = controller
        .liquidate_calculate_seize_tokens(
            1,
            2,
            1000,
            mantissa(),
            mantissa(),
            &U256::from_u128(2 * mantissa() / 100),
        )
        .unwrap();
    // 1000 * 1.1 / 0.02 = 55000 share tokens.
    assert_eq!(seized, 55000);
}

#[test]
fn oracle_serves_and_updates_fixed_prices() {
    let mut oracle = OracleData::new();
    assert_eq!(oracle.get_price(5), None);
    oracle.set_fixed_price(5, 123).unwrap();
    assert_eq!(oracle.get_price(5), Some(123));
    oracle.set_fixed_price(5, 456).unwrap();
    assert_eq!(oracle.get_price(5), Some(456));
    assert_eq!(oracle.get_underlying_price(Some(5)), Some(456));
    assert_eq!(oracle.get_underlying_price(None), None);
    oracle.authorize_sybil(9).unwrap();
    oracle.unauthorize_sybil(9).unwrap();
}
