//! The 256-bit integer and the fixed-point layer on concrete values.

use money_market::fixed_point::{Exp, Ray};
use money_market::pool::{
    borrow_rate_max_mantissa, calculate_interest, calculate_redeem_values, exchange_rate,
    from_scaled_amount, protocol_seize_share_mantissa, reserve_factor_max_mantissa,
    scaled_amount_of, CalculateInterestInput,
};
use money_market::types::Error;
use money_market::u256::U256;

fn mantissa() -> u128 {
    10_u128.pow(18)
}

#[test]
fn u256_arithmetic_round_trips() {
    let big = U256::from_u128(u128::MAX);
    let square = big.checked_mul(&big).unwrap();
    // (2^128 - 1)^2 / (2^128 - 1) == 2^128 - 1, remainder zero.
    let (quotient, remainder) = square.div_rem(&big);
    assert_eq!(quotient, big);
    assert!(remainder.is_zero());
    // The square no longer fits in 128 bits.
    assert_eq!(square.to_u128(), None);
    assert_eq!(big.to_u128(), Some(u128::MAX));
}

#[test]
fn u256_checked_ops_detect_overflow() {
    let max = U256::max_value();
    let one = U256::one();
    assert_eq!(max.checked_add(&one), None);
    assert_eq!(one.checked_sub(&max), None);
    assert_eq!(max.checked_mul(&U256::from_u128(2)), None);
    assert_eq!(max.checked_mul(&one), Some(max));
    assert_eq!(max.checked_sub(&max), Some(U256::zero()));
}

#[test]
fn u256_division_computes_floor_and_remainder() {
    let a = U256::from_u128(10_u128.pow(27) + 123456789);
    let b = U256::from_u128(10_u128.pow(9));
    let (q, r) = a.div_rem(&b);
    assert_eq!(q, U256::from_u128(10_u128.pow(18)));
    assert_eq!(r, U256::from_u128(123456789));
    assert!(a.gt(&b));
    assert!(b.lt(&a));
    assert!(a.ge(&a));
    assert!(a.le(&a));
}

#[test]
fn ray_operations_round_half_up() {
    let ray = 10_u128.pow(27);
    // 1.5 * 1.5 at Ray scale rounds half up: 2.25 exactly.
    let a = Ray { mantissa: U256::from_u128(15 * ray / 10) };
    let product = a.ray_mul(&a).unwrap();
    assert_eq!(product.mantissa, U256::from_u128(225 * ray / 100));
    // 1 / 3 at Ray scale rounds the repeating third to ...333.
    let one = Ray { mantissa: U256::from_u128(ray) };
    let three = Ray { mantissa: U256::from_u128(3 * ray) };
    let third = one.ray_div(&three).unwrap();
    assert_eq!(third.mantissa, U256::from_u128(333333333333333333333333333));
    // A zero divisor is an arithmetic error, not a trap.
    let zero = Ray { mantissa: U256::zero() };
    assert_eq!(one.ray_div(&zero), Err(Error::Arithmetic));
}

#[test]
fn exp_truncation_is_floor() {
    let e = Exp { mantissa: U256::from_u128(25 * mantissa() / 10) };
    assert_eq!(e.truncate(), U256::from_u128(2));
    let amount = e.mul_scalar_truncate(&U256::from_u128(1000)).unwrap();
    assert_eq!(amount, U256::from_u128(2500));
    let with_base = e
        .mul_scalar_truncate_add_uint(&U256::from_u128(1000), &U256::from_u128(7))
        .unwrap();
    assert_eq!(with_base, U256::from_u128(2507));
}

#[test]
fn percent_and_wad_division_round_half_up() {
    // 1234 * 49.99% rounds 616.9966 up at the basis-point scale.
    let x = U256::from_u128(1234);
    let pct = U256::from_u128(4999);
    assert_eq!(x.percent_mul(&pct).unwrap(), U256::from_u128(617));
    // 1 / 3 at the 10^18 scale.
    let a = U256::from_u128(mantissa());
    let b = U256::from_u128(3 * mantissa());
    assert_eq!(a.wad_div(&b).unwrap(), U256::from_u128(333333333333333333));
    assert_eq!(a.wad_div(&U256::zero()), Err(Error::Arithmetic));
}

#[test]
fn ray_to_exp_rounds_half_up() {
    let ray = 10_u128.pow(27);
    // 1.5 at Ray scale with half a ratio added: rounds up to the next Exp step.
    let r = Ray { mantissa: U256::from_u128(ray + 499_999_999) };
    assert_eq!(r.to_exp().unwrap().mantissa, U256::from_u128(mantissa()));
    let r_up = Ray { mantissa: U256::from_u128(ray + 500_000_000) };
    assert_eq!(r_up.to_exp().unwrap().mantissa, U256::from_u128(mantissa() + 1));
}

#[test]
fn protocol_constants_match_their_formulas() {
    assert_eq!(borrow_rate_max_mantissa(), U256::from_u128(mantissa() * 5 / 100000));
    assert_eq!(reserve_factor_max_mantissa(), U256::from_u128(mantissa()));
    assert_eq!(protocol_seize_share_mantissa(), U256::from_u128(mantissa() * 28 / 1000));
}

#[test]
fn scaled_amounts_round_trip_at_unit_index() {
    let idx = Exp { mantissa: U256::from_u128(mantissa()) };
    let scaled = scaled_amount_of(12345, &idx).unwrap();
    assert_eq!(scaled, 12345);
    assert_eq!(from_scaled_amount(scaled, &idx).unwrap(), 12345);
}

#[test]
fn scaled_amounts_round_trip_within_half_an_index_unit() {
    // At an index of 100, ninety tokens scale to one unit and come back
    // as one hundred: within half an index unit plus one of the start.
    let idx = Exp { mantissa: U256::from_u128(100 * mantissa()) };
    let scaled = scaled_amount_of(90, &idx).unwrap();
    assert_eq!(scaled, 1);
    let back = from_scaled_amount(scaled, &idx).unwrap();
    assert_eq!(back, 100);
    assert!(back <= 90 + 50 + 1);
    assert!(back + 50 + 1 >= 90);
}

#[test]
fn zero_elapsed_time_accrues_nothing() {
    let input = CalculateInterestInput {
        total_borrows: 1000 * mantissa(),
        total_reserves: 50 * mantissa(),
        borrow_index: U256::from_u128(2 * mantissa()),
        borrow_rate: U256::from_u128(10_u128.pow(10)),
        old_block_timestamp: 777,
        new_block_timestamp: 777,
        reserve_factor_mantissa: U256::from_u128(mantissa() / 10),
    };
    let out = calculate_interest(&input).unwrap();
    assert_eq!(out.interest_accumulated, 0);
    assert_eq!(out.total_borrows, 1000 * mantissa());
    assert_eq!(out.total_reserves, 50 * mantissa());
    assert_eq!(out.borrow_index, U256::from_u128(2 * mantissa()));
}

#[test]
fn redeem_by_amount_rounds_tokens_up() {
    // 100 underlying at a rate of 1.5 needs 66.67 tokens: the engine
    // burns 67 so the redeemer never receives more than the burn covers.
    let rate = U256::from_u128(15 * mantissa() / 10);
    assert_eq!(calculate_redeem_values(0, 100, &rate), Some((67, 100)));
    // An exact quotient stays exact.
    assert_eq!(calculate_redeem_values(0, 3, &rate), Some((2, 3)));
}

#[test]
fn exchange_rate_overflow_is_an_arithmetic_error() {
    // cash + borrows overflows a u128.
    assert_eq!(
        exchange_rate(10, u128::MAX, 1, 0, &U256::zero()),
        Err(Error::Arithmetic)
    );
    // reserves exceed cash plus borrows.
    assert_eq!(exchange_rate(10, 1, 1, 5, &U256::zero()), Err(Error::Arithmetic));
}
