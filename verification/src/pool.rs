//! Pool mathematics: interest accrual, exchange rate, scaled balances,
//! the liquidation seize split and redeem-value resolution.
//!
//! Interest accrues by a three-term Taylor expansion of `(1 + r)^dt - 1`
//! computed at `Ray` precision, which tracks compounding far more closely
//! than linear accrual. All arithmetic is checked; overflow surfaces as
//! `Error::Arithmetic`.

use crate::fixed_point::{
    exp_ray_ratio, exp_ray_ratio_int, exp_scale_int, half_ray_int, ray_scale_int,
    spec_mul_scalar_truncate, spec_ray_mul, spec_ray_mul_fits, Exp, Ray,
};
use crate::types::{Balance, Error, Timestamp};
use crate::u256::{p128, p256, p64, U256};
use vstd::arithmetic::div_mod::{
    lemma_div_denominator, lemma_div_is_ordered, lemma_div_multiples_vanish,
    lemma_div_nonincreasing, lemma_div_pos_is_pos, lemma_fundamental_div_mod,
    lemma_fundamental_div_mod_converse, lemma_hoist_over_denominator, lemma_mod_bound,
};
use vstd::arithmetic::mul::{
    lemma_mul_inequality, lemma_mul_is_commutative, lemma_mul_nonnegative, lemma_mul_upper_bound,
};
use vstd::prelude::*;

verus! {

/// The protocol ceiling on a per-millisecond borrow rate: `0.0005%`.
pub open spec fn borrow_rate_max_int() -> int {
    50000000000000int
}

/// A health factor at or above this `10^18`-scaled value is safe.
pub const HEALTH_FACTOR_LIQUIDATION_THRESHOLD: u128 = 1000000000000000000;

/// The largest borrow rate the protocol accepts: `0.0005%` per
/// millisecond, as an `Exp` mantissa.
pub fn borrow_rate_max_mantissa() -> (r: U256)
    ensures
        r@ == borrow_rate_max_int(),
        r@ == exp_scale_int() * 5 / 100000,
{
    U256::from_u128(50000000000000)
}

/// The largest reserve factor: one, as an `Exp` mantissa.
pub fn reserve_factor_max_mantissa() -> (r: U256)
    ensures
        r@ == exp_scale_int(),
{
    U256::from_u128(1000000000000000000)
}

/// The protocol's share of seized collateral: `2.8%`, as an `Exp` mantissa.
pub fn protocol_seize_share_mantissa() -> (r: U256)
    ensures
        r@ == exp_scale_int() * 28 / 1000,
{
    U256::from_u128(28000000000000000)
}

/// The compound-interest factor: a three-term Taylor expansion of
/// `(1 + r)^d - 1` at rate `r` (an `Exp` mantissa) over `d` milliseconds,
/// with the quadratic and cubic terms computed at `Ray` precision.
pub open spec fn spec_compound_factor(r: int, d: int) -> int {
    if d == 0 {
        0
    } else {
        let dm1 = d - 1;
        let dm2 = if d > 2 {
            d - 2
        } else {
            0
        };
        let rr = r * exp_ray_ratio_int();
        let bp2 = spec_ray_mul(rr, rr);
        let bp3 = spec_ray_mul(bp2, rr);
        r * d + (d * dm1 * bp2 / 2) / exp_ray_ratio_int() + (d * dm1 * dm2 * bp3 / 6)
            / exp_ray_ratio_int()
    }
}

/// When every checked step of the compound-interest factor fits in 256
/// bits, in the order the computation takes them.
pub open spec fn spec_compound_factor_fits(r: int, d: int) -> bool {
    d == 0 || {
        let dm1 = d - 1;
        let dm2 = if d > 2 {
            d - 2
        } else {
            0
        };
        let rr = r * exp_ray_ratio_int();
        let bp2 = spec_ray_mul(rr, rr);
        let bp3 = spec_ray_mul(bp2, rr);
        &&& rr < p256()
        &&& spec_ray_mul_fits(rr, rr)
        &&& spec_ray_mul_fits(bp2, rr)
        &&& d * dm1 < p256()
        &&& d * dm1 * bp2 < p256()
        &&& d * dm1 * dm2 < p256()
        &&& d * dm1 * dm2 * bp3 < p256()
        &&& r * d < p256()
        &&& r * d + (d * dm1 * bp2 / 2) / exp_ray_ratio_int() < p256()
        &&& spec_compound_factor(r, d) < p256()
    }
}

/// Computes the compound-interest factor over `delta` milliseconds.
pub fn compound_interest(borrow_rate_per_millisec: &Exp, delta: &U256) -> (r: Result<Exp, Error>)
    ensures
        r is Ok <==> spec_compound_factor_fits(borrow_rate_per_millisec.mantissa@, delta@),
        r is Ok ==> r->Ok_0.mantissa@ == spec_compound_factor(
            borrow_rate_per_millisec.mantissa@,
            delta@,
        ),
        r is Err ==> r->Err_0 == Error::Arithmetic,
{
    if delta.is_zero() {
        return Ok(Exp { mantissa: U256::zero() });
    }
    let one = U256::one();
    let delta_minus_one = match delta.checked_sub(&one) {
        Some(v) => v,
        None => {
            return Err(Error::Arithmetic);
        },
    };
    let two = U256::from_u64(2);
    let delta_minus_two = if delta.gt(&two) {
        match delta.checked_sub(&two) {
            Some(v) => v,
            None => {
                return Err(Error::Arithmetic);
            },
        }
    } else {
        U256::zero()
    };
    let rate_ray = match borrow_rate_per_millisec.to_ray() {
        Ok(v) => v,
        Err(e) => {
            return Err(e);
        },
    };
    let base_power_two = match rate_ray.ray_mul(&rate_ray) {
        Ok(v) => v,
        Err(e) => {
            return Err(e);
        },
    };
    let base_power_three = match base_power_two.ray_mul(&rate_ray) {
        Ok(v) => v,
        Err(e) => {
            return Err(e);
        },
    };
    let pair = match delta.checked_mul(&delta_minus_one) {
        Some(v) => v,
        None => {
            return Err(Error::Arithmetic);
        },
    };
    let second_product = match pair.checked_mul(&base_power_two.mantissa) {
        Some(v) => v,
        None => {
            return Err(Error::Arithmetic);
        },
    };
    let second_term_ray = second_product.div_rem(&two).0;
    let triple = match pair.checked_mul(&delta_minus_two) {
        Some(v) => v,
        None => {
            return Err(Error::Arithmetic);
        },
    };
    let third_product = match triple.checked_mul(&base_power_three.mantissa) {
        Some(v) => v,
        None => {
            return Err(Error::Arithmetic);
        },
    };
    let six = U256::from_u64(6);
    let third_term_ray = third_product.div_rem(&six).0;
    let linear = match borrow_rate_per_millisec.mantissa.checked_mul(delta) {
        Some(v) => v,
        None => {
            return Err(Error::Arithmetic);
        },
    };
    let ratio = exp_ray_ratio();
    let second_term = second_term_ray.div_rem(&ratio).0;
    let third_term = third_term_ray.div_rem(&ratio).0;
    let partial = match linear.checked_add(&second_term) {
        Some(v) => v,
        None => {
            return Err(Error::Arithmetic);
        },
    };
    let mantissa = match partial.checked_add(&third_term) {
        Some(v) => v,
        None => {
            return Err(Error::Arithmetic);
        },
    };
    Ok(Exp { mantissa })
}

/// What an interest accrual reads: the pool's balances, the accumulator,
/// the per-millisecond rate, the two clock readings and the reserve factor.
pub struct CalculateInterestInput {
    pub total_borrows: Balance,
    pub total_reserves: Balance,
    pub borrow_index: U256,
    pub borrow_rate: U256,
    pub old_block_timestamp: Timestamp,
    pub new_block_timestamp: Timestamp,
    pub reserve_factor_mantissa: U256,
}

/// What an interest accrual writes back.
pub struct CalculateInterestOutput {
    pub borrow_index: U256,
    pub total_borrows: Balance,
    pub total_reserves: Balance,
    pub interest_accumulated: Balance,
}

/// The elapsed milliseconds between the two clock readings.
pub open spec fn spec_delta(input: CalculateInterestInput) -> int {
    if input.new_block_timestamp >= input.old_block_timestamp {
        input.new_block_timestamp - input.old_block_timestamp
    } else {
        input.old_block_timestamp - input.new_block_timestamp
    }
}

/// The compound-interest factor of an accrual input.
pub open spec fn spec_factor(input: CalculateInterestInput) -> int {
    spec_compound_factor(input.borrow_rate@, spec_delta(input))
}

/// Interest accumulated over the accrual: the factor applied to total
/// borrows, truncated.
pub open spec fn spec_interest_accumulated(input: CalculateInterestInput) -> int {
    spec_mul_scalar_truncate(spec_factor(input), input.total_borrows as int)
}

/// Total borrows after the accrual.
pub open spec fn spec_total_borrows_new(input: CalculateInterestInput) -> int {
    input.total_borrows + spec_interest_accumulated(input)
}

/// Total reserves after the accrual: the reserve factor applied to the
/// accumulated interest, truncated, plus the old reserves.
pub open spec fn spec_total_reserves_new(input: CalculateInterestInput) -> int {
    spec_mul_scalar_truncate(input.reserve_factor_mantissa@, spec_interest_accumulated(input))
        + input.total_reserves
}

/// The borrow index after the accrual: the factor applied to the old
/// index, truncated, plus the old index.
pub open spec fn spec_borrow_index_new(input: CalculateInterestInput) -> int {
    spec_mul_scalar_truncate(spec_factor(input), input.borrow_index@) + input.borrow_index@
}

/// When an accrual succeeds: the rate is within the ceiling and every
/// checked step fits its type, in computation order.
pub open spec fn spec_calculate_interest_ok(input: CalculateInterestInput) -> bool {
    &&& input.borrow_rate@ <= borrow_rate_max_int()
    &&& spec_compound_factor_fits(input.borrow_rate@, spec_delta(input))
    &&& spec_factor(input) * input.total_borrows < p256()
    &&& spec_interest_accumulated(input) < p128()
    &&& spec_total_borrows_new(input) < p128()
    &&& input.reserve_factor_mantissa@ * spec_interest_accumulated(input) < p256()
    &&& spec_total_reserves_new(input) < p256()
    &&& spec_total_reserves_new(input) < p128()
    &&& spec_factor(input) * input.borrow_index@ < p256()
    &&& spec_borrow_index_new(input) < p256()
}

/// One interest accrual: rejects an absurd rate outright, then compounds
/// interest into borrows, reserves and the borrow index.
pub fn calculate_interest(input: &CalculateInterestInput) -> (r: Result<
    CalculateInterestOutput,
    Error,
>)
    ensures
        input.borrow_rate@ > borrow_rate_max_int() ==> r == Result::<
            CalculateInterestOutput,
            Error,
        >::Err(Error::BorrowRateIsAbsurdlyHigh),
        r is Ok <==> spec_calculate_interest_ok(*input),
        r is Ok ==> r->Ok_0.interest_accumulated == spec_interest_accumulated(*input),
        r is Ok ==> r->Ok_0.total_borrows == spec_total_borrows_new(*input),
        r is Ok ==> r->Ok_0.total_reserves == spec_total_reserves_new(*input),
        r is Ok ==> r->Ok_0.borrow_index@ == spec_borrow_index_new(*input),
        r is Err ==> r->Err_0 == Error::BorrowRateIsAbsurdlyHigh || r->Err_0 == Error::Arithmetic,
        input.borrow_rate@ <= borrow_rate_max_int() && r is Err ==> r->Err_0 == Error::Arithmetic,
{
    let rate_max = borrow_rate_max_mantissa();
    if input.borrow_rate.gt(&rate_max) {
        return Err(Error::BorrowRateIsAbsurdlyHigh);
    }
    let delta_ms: u64 = if input.new_block_timestamp >= input.old_block_timestamp {
        input.new_block_timestamp - input.old_block_timestamp
    } else {
        input.old_block_timestamp - input.new_block_timestamp
    };
    let delta = U256::from_u64(delta_ms);
    let factor = match compound_interest(&Exp { mantissa: input.borrow_rate }, &delta) {
        Ok(v) => v,
        Err(e) => {
            return Err(e);
        },
    };
    let borrows = U256::from_u128(input.total_borrows);
    let interest_wide = match factor.mul_scalar_truncate(&borrows) {
        Ok(v) => v,
        Err(e) => {
            return Err(e);
        },
    };
    let interest_accumulated = match interest_wide.to_u128() {
        Some(v) => v,
        None => {
            return Err(Error::Arithmetic);
        },
    };
    if input.total_borrows > u128::MAX - interest_accumulated {
        return Err(Error::Arithmetic);
    }
    let total_borrows_new: u128 = interest_accumulated + input.total_borrows;
    let reserve_factor = Exp { mantissa: input.reserve_factor_mantissa };
    let reserves = U256::from_u128(input.total_reserves);
    let reserves_wide = match reserve_factor.mul_scalar_truncate_add_uint(
        &interest_wide,
        &reserves,
    ) {
        Ok(v) => v,
        Err(e) => {
            return Err(e);
        },
    };
    let total_reserves_new = match reserves_wide.to_u128() {
        Some(v) => v,
        None => {
            return Err(Error::Arithmetic);
        },
    };
    let borrow_index_new = match factor.mul_scalar_truncate_add_uint(
        &input.borrow_index,
        &input.borrow_index,
    ) {
        Ok(v) => v,
        Err(e) => {
            return Err(e);
        },
    };
    Ok(
        CalculateInterestOutput {
            borrow_index: borrow_index_new,
            total_borrows: total_borrows_new,
            total_reserves: total_reserves_new,
            interest_accumulated,
        },
    )
}

/// With no elapsed time an accrual accumulates no interest and leaves
/// the borrow index and total borrows unchanged.
pub proof fn lemma_interest_zero_delta(input: CalculateInterestInput)
    requires
        input.new_block_timestamp == input.old_block_timestamp,
    ensures
        spec_interest_accumulated(input) == 0,
        spec_total_borrows_new(input) == input.total_borrows,
        spec_borrow_index_new(input) == input.borrow_index@,
{
    assert(spec_delta(input) == 0);
    assert(spec_factor(input) == 0);
    assert(spec_mul_scalar_truncate(0, input.total_borrows as int) == 0);
    assert(spec_mul_scalar_truncate(0, input.borrow_index@) == 0);
}

/// Within the protocol's rate ceiling and a 64-bit time span, every
/// checked step of the compound-interest factor fits in 256 bits.
pub proof fn lemma_compound_factor_fits_bounded(r: int, d: int)
    requires
        0 <= r <= borrow_rate_max_int(),
        0 <= d < p64(),
    ensures
        spec_compound_factor_fits(r, d),
{
    if d > 0 {
        let dm1 = d - 1;
        let dm2 = if d > 2 {
            d - 2
        } else {
            0
        };
        let rr = r * exp_ray_ratio_int();
        assert(0 <= rr <= 50000000000000000000000);
        lemma_mul_upper_bound(rr, 50000000000000000000000, rr, 50000000000000000000000);
        lemma_mul_nonnegative(rr, rr);
        let bp2 = spec_ray_mul(rr, rr);
        lemma_div_is_ordered(
            rr * rr + half_ray_int(),
            2500000000000000000000000000000000000000000000int + half_ray_int(),
            ray_scale_int(),
        );
        lemma_div_pos_is_pos(rr * rr + half_ray_int(), ray_scale_int());
        assert(0 <= bp2 <= 2500000000000000000);
        lemma_mul_upper_bound(bp2, 2500000000000000000, rr, 50000000000000000000000);
        lemma_mul_nonnegative(bp2, rr);
        let bp3 = spec_ray_mul(bp2, rr);
        lemma_div_is_ordered(
            bp2 * rr + half_ray_int(),
            125000000000000000000000000000000000000000int + half_ray_int(),
            ray_scale_int(),
        );
        lemma_div_pos_is_pos(bp2 * rr + half_ray_int(), ray_scale_int());
        assert(0 <= bp3 <= 125000000000000);
        lemma_mul_upper_bound(
            d,
            0xffffffffffffffffint,
            dm1,
            0xffffffffffffffffint,
        );
        lemma_mul_nonnegative(d, dm1);
        assert(0 <= d * dm1 <= 0xfffffffffffffffe0000000000000001int);
        lemma_mul_upper_bound(d * dm1, 0xfffffffffffffffe0000000000000001int, bp2, 2500000000000000000);
        lemma_mul_nonnegative(d * dm1, bp2);
        lemma_mul_upper_bound(d * dm1, 0xfffffffffffffffe0000000000000001int, dm2, 0xffffffffffffffffint);
        lemma_mul_nonnegative(d * dm1, dm2);
        assert(d * dm1 * dm2 <= 0x1000000000000000000000000000000000000000000000000int);
        lemma_mul_upper_bound(
            d * dm1 * dm2,
            0x1000000000000000000000000000000000000000000000000int,
            bp3,
            125000000000000,
        );
        lemma_mul_nonnegative(d * dm1 * dm2, bp3);
        lemma_mul_upper_bound(r, 50000000000000, d, 0xffffffffffffffffint);
        lemma_mul_nonnegative(r, d);
        let second = (d * dm1 * bp2 / 2) / exp_ray_ratio_int();
        let third = (d * dm1 * dm2 * bp3 / 6) / exp_ray_ratio_int();
        lemma_div_nonincreasing(d * dm1 * bp2, 2);
        lemma_div_pos_is_pos(d * dm1 * bp2, 2);
        lemma_div_nonincreasing(d * dm1 * bp2 / 2, exp_ray_ratio_int());
        lemma_div_pos_is_pos(d * dm1 * bp2 / 2, exp_ray_ratio_int());
        lemma_div_nonincreasing(d * dm1 * dm2 * bp3, 6);
        lemma_div_pos_is_pos(d * dm1 * dm2 * bp3, 6);
        lemma_div_nonincreasing(d * dm1 * dm2 * bp3 / 6, exp_ray_ratio_int());
        lemma_div_pos_is_pos(d * dm1 * dm2 * bp3 / 6, exp_ray_ratio_int());
        assert(r * d + second + third < p256());
    }
}

/// The borrow index never decreases across an accrual: the factor is
/// nonnegative, so its truncated product with the old index only adds.
pub proof fn lemma_borrow_index_monotone(input: CalculateInterestInput)
    requires
        input.borrow_rate@ >= 0,
    ensures
        spec_borrow_index_new(input) >= input.borrow_index@,
{
    let r = input.borrow_rate@;
    let d = spec_delta(input);
    if d != 0 {
        let dm1 = d - 1;
        let dm2 = if d > 2 {
            d - 2
        } else {
            0
        };
        let rr = r * exp_ray_ratio_int();
        let bp2 = spec_ray_mul(rr, rr);
        let bp3 = spec_ray_mul(bp2, rr);
        lemma_mul_nonnegative(rr, rr);
        lemma_div_pos_is_pos(rr * rr + half_ray_int(), ray_scale_int());
        lemma_mul_nonnegative(bp2, rr);
        lemma_div_pos_is_pos(bp2 * rr + half_ray_int(), ray_scale_int());
        lemma_mul_nonnegative(d, dm1);
        lemma_mul_nonnegative(d * dm1, bp2);
        lemma_div_pos_is_pos(d * dm1 * bp2, 2);
        lemma_div_pos_is_pos(d * dm1 * bp2 / 2, exp_ray_ratio_int());
        lemma_mul_nonnegative(d * dm1, dm2);
        lemma_mul_nonnegative(d * dm1 * dm2, bp3);
        lemma_div_pos_is_pos(d * dm1 * dm2 * bp3, 6);
        lemma_div_pos_is_pos(d * dm1 * dm2 * bp3 / 6, exp_ray_ratio_int());
        lemma_mul_nonnegative(r, d);
    }
    let factor = spec_factor(input);
    assert(factor >= 0);
    lemma_mul_nonnegative(factor, input.borrow_index@);
    lemma_div_pos_is_pos(factor * input.borrow_index@, exp_scale_int());
}

/// The simple-interest counterpart of an accrual: rate times elapsed
/// time, applied linearly to total borrows.
pub open spec fn spec_simple_interest_accumulated(input: CalculateInterestInput) -> int {
    input.borrow_rate@ * spec_delta(input) * input.total_borrows / exp_scale_int()
}

/// Compounding beats simple interest strictly: with a rate of at least
/// `10^-9` per millisecond, at least two elapsed milliseconds and at
/// least one whole token borrowed, the accumulated interest and the new
/// total borrows strictly exceed their simple-interest counterparts.
pub proof fn lemma_compound_exceeds_simple(input: CalculateInterestInput)
    requires
        input.borrow_rate@ >= 1000000000,
        spec_delta(input) >= 2,
        input.total_borrows >= 1000000000000000000,
    ensures
        spec_interest_accumulated(input) > spec_simple_interest_accumulated(input),
        spec_total_borrows_new(input) > input.total_borrows + spec_simple_interest_accumulated(
            input,
        ),
{
    let r = input.borrow_rate@;
    let d = spec_delta(input);
    let b = input.total_borrows as int;
    let dm1 = d - 1;
    let dm2 = if d > 2 {
        d - 2
    } else {
        0
    };
    let rr = r * exp_ray_ratio_int();
    let bp2 = spec_ray_mul(rr, rr);
    let bp3 = spec_ray_mul(bp2, rr);
    // The quadratic Taylor term contributes at least one to the factor.
    assert(rr >= 1000000000000000000);
    lemma_mul_inequality(1000000000000000000, rr, rr);
    assert(rr * rr >= 1000000000000000000000000000000000000int) by {
        assert(1000000000000000000 * rr >= 1000000000000000000000000000000000000int);
    }
    lemma_div_is_ordered(
        1000000000000000000000000000000000000int + half_ray_int(),
        rr * rr + half_ray_int(),
        ray_scale_int(),
    );
    assert(bp2 >= 1000000000);
    assert(d * dm1 >= 2) by {
        lemma_mul_inequality(1, dm1, d);
    }
    lemma_mul_inequality(2, d * dm1, bp2);
    assert(d * dm1 * bp2 >= 2000000000) by {
        assert(2 * bp2 >= 2000000000);
    }
    lemma_div_is_ordered(2000000000, d * dm1 * bp2, 2);
    lemma_div_is_ordered(1000000000, d * dm1 * bp2 / 2, exp_ray_ratio_int());
    let second = (d * dm1 * bp2 / 2) / exp_ray_ratio_int();
    assert(second >= 1);
    lemma_mul_nonnegative(d * dm1, dm2);
    lemma_mul_nonnegative(bp2, rr);
    lemma_div_pos_is_pos(bp2 * rr + half_ray_int(), ray_scale_int());
    lemma_mul_nonnegative(d * dm1 * dm2, bp3);
    lemma_div_pos_is_pos(d * dm1 * dm2 * bp3, 6);
    lemma_div_pos_is_pos(d * dm1 * dm2 * bp3 / 6, exp_ray_ratio_int());
    let third = (d * dm1 * dm2 * bp3 / 6) / exp_ray_ratio_int();
    let factor = spec_factor(input);
    assert(factor >= r * d + 1);
    // Applying the factor to at least one whole token clears the floor.
    lemma_mul_inequality(r * d + 1, factor, b);
    assert((r * d + 1) * b == r * d * b + b) by (nonlinear_arith);
    assert(factor * b >= r * d * b + 1000000000000000000);
    lemma_div_is_ordered(r * d * b + 1000000000000000000, factor * b, exp_scale_int());
    lemma_hoist_over_denominator(r * d * b, 1, 1000000000000000000nat);
    assert(spec_interest_accumulated(input) >= spec_simple_interest_accumulated(input) + 1);
}

/// A scaled (principal) balance: the nominal amount divided by the borrow
/// index at `Ray` precision, rounding half up.
pub open spec fn spec_scaled_amount_of(amount: int, idx: int) -> int {
    crate::fixed_point::spec_ray_div(amount, idx * exp_ray_ratio_int())
}

/// A nominal balance recovered from a scaled one: the scaled amount times
/// the borrow index at `Ray` precision, rounding half up.
pub open spec fn spec_from_scaled_amount(scaled: int, idx: int) -> int {
    spec_ray_mul(idx * exp_ray_ratio_int(), scaled)
}

/// At a unit borrow index, scaling is the identity in both directions.
pub proof fn lemma_scaled_amount_identity(x: int)
    requires
        0 <= x,
    ensures
        spec_scaled_amount_of(x, exp_scale_int()) == x,
        spec_from_scaled_amount(x, exp_scale_int()) == x,
{
    assert(exp_scale_int() * exp_ray_ratio_int() == ray_scale_int()) by (nonlinear_arith);
    assert(ray_scale_int() / 2 == half_ray_int());
    lemma_fundamental_div_mod_converse(
        x * ray_scale_int() + half_ray_int(),
        ray_scale_int(),
        x,
        half_ray_int(),
    );
    lemma_fundamental_div_mod_converse(
        ray_scale_int() * x + half_ray_int(),
        ray_scale_int(),
        x,
        half_ray_int(),
    );
}

/// Scaling an amount down by a positive index and back up returns it to
/// within half an index unit plus one, in either direction: the two
/// half-up roundings at `Ray` precision cannot drift further than that.
pub proof fn lemma_scaled_amount_round_trip(x: int, idx: int)
    requires
        0 <= x,
        0 < idx,
    ensures
        ({
            let back = spec_from_scaled_amount(spec_scaled_amount_of(x, idx), idx);
            let half_unit = idx / (2 * exp_scale_int());
            x - half_unit - 1 <= back <= x + half_unit + 1
        }),
{
    let ray = ray_scale_int();
    let hr = half_ray_int();
    let div = idx * exp_ray_ratio_int();
    let s = spec_scaled_amount_of(x, idx);
    let n = div * s + hr;
    let back = spec_from_scaled_amount(spec_scaled_amount_of(x, idx), idx);
    let hu = idx / (2 * exp_scale_int());
    assert(div >= 1000000000);
    // The first division leaves a remainder below the index divisor.
    lemma_fundamental_div_mod(x * ray + div / 2, div);
    lemma_mod_bound(x * ray + div / 2, div);
    assert(div * s == x * ray + div / 2 - ((x * ray + div / 2) % div));
    assert(x * ray + div / 2 - div + 1 <= div * s <= x * ray + div / 2);
    // The internal half-unit equals the stated one.
    lemma_div_denominator(div, 2, ray);
    lemma_div_denominator(div, exp_ray_ratio_int(), 2 * exp_scale_int());
    lemma_div_multiples_vanish(idx, exp_ray_ratio_int());
    assert(div / 2 / ray == hu);
    // Upper bound: the numerator exceeds `x * ray` by at most half the
    // divisor plus half a ray.
    assert(n <= x * ray + div / 2 + hr);
    lemma_div_is_ordered(n, x * ray + div / 2 + hr, ray);
    lemma_hoist_over_denominator(div / 2 + hr, x, 1000000000000000000000000000nat);
    assert((x * ray + div / 2 + hr) / ray == (div / 2 + hr) / ray + x);
    lemma_div_is_ordered(div / 2 + hr, div / 2 + ray, ray);
    lemma_hoist_over_denominator(div / 2, 1, 1000000000000000000000000000nat);
    assert((div / 2 + ray) / ray == div / 2 / ray + 1);
    assert(back <= x + hu + 1);
    // Lower bound: the numerator falls short of `x * ray` by at most half
    // the divisor plus one.
    assert(n >= x * ray + div / 2 - div + 1 + hr);
    assert(div - div / 2 <= div / 2 + 1);
    assert(n >= x * ray - div / 2 + hr);
    lemma_fundamental_div_mod(div / 2, ray);
    lemma_mod_bound(div / 2, ray);
    assert(ray * hu >= div / 2 - ray + 1);
    assert((x - hu - 1) * ray <= x * ray - div / 2) by (nonlinear_arith)
        requires
            ray * hu >= div / 2 - ray + 1,
            ray == 1000000000000000000000000000int,
    ;
    if x - hu - 1 >= 0 {
        assert((x - hu - 1) * ray <= n);
        lemma_div_is_ordered((x - hu - 1) * ray, n, ray);
        lemma_div_multiples_vanish(x - hu - 1, ray);
        assert(back >= x - hu - 1);
    } else {
        lemma_div_pos_is_pos(x * ray + div / 2, div);
        lemma_mul_nonnegative(div, s);
        lemma_div_pos_is_pos(n, ray);
        assert(back >= x - hu - 1);
    }
}

/// Converts a nominal amount into an index-scaled principal amount.
pub fn scaled_amount_of(amount: Balance, idx: &Exp) -> (r: Result<Balance, Error>)
    ensures
        r is Ok <==> idx.mantissa@ * exp_ray_ratio_int() < p256() && idx.mantissa@ > 0
            && spec_scaled_amount_of(amount as int, idx.mantissa@) < p128(),
        r is Ok ==> r->Ok_0 == spec_scaled_amount_of(amount as int, idx.mantissa@),
        r is Err ==> r->Err_0 == Error::Arithmetic,
{
    let idx_ray = match idx.to_ray() {
        Ok(v) => v,
        Err(e) => {
            return Err(e);
        },
    };
    let amount_ray = Ray { mantissa: U256::from_u128(amount) };
    proof {
        // The scaled dividend always fits: the amount is below 2^128 and
        // half the divisor is below 2^255.
        assert(amount * ray_scale_int() <= (p128() - 1) * ray_scale_int());
    }
    let divided = match amount_ray.ray_div(&idx_ray) {
        Ok(v) => v,
        Err(e) => {
            return Err(e);
        },
    };
    match divided.mantissa.to_u128() {
        Some(v) => Ok(v),
        None => Err(Error::Arithmetic),
    }
}

/// Converts an index-scaled principal amount back into a nominal amount.
pub fn from_scaled_amount(scaled_amount: Balance, idx: &Exp) -> (r: Result<Balance, Error>)
    ensures
        r is Ok <==> idx.mantissa@ * exp_ray_ratio_int() < p256() && spec_ray_mul_fits(
            idx.mantissa@ * exp_ray_ratio_int(),
            scaled_amount as int,
        ) && spec_from_scaled_amount(scaled_amount as int, idx.mantissa@) < p128(),
        r is Ok ==> r->Ok_0 == spec_from_scaled_amount(scaled_amount as int, idx.mantissa@),
        r is Err ==> r->Err_0 == Error::Arithmetic,
{
    let idx_ray = match idx.to_ray() {
        Ok(v) => v,
        Err(e) => {
            return Err(e);
        },
    };
    let scaled_ray = Ray { mantissa: U256::from_u128(scaled_amount) };
    let multiplied = match idx_ray.ray_mul(&scaled_ray) {
        Ok(v) => v,
        Err(e) => {
            return Err(e);
        },
    };
    match multiplied.mantissa.to_u128() {
        Some(v) => Ok(v),
        None => Err(Error::Arithmetic),
    }
}

/// The exchange rate between share tokens and the underlying asset:
/// `(cash + borrows - reserves) * 10^18 / total_supply`, or the given
/// default while no shares exist.
pub fn exchange_rate(
    total_supply: Balance,
    total_cash: Balance,
    total_borrows: Balance,
    total_reserves: Balance,
    default_exchange_rate_mantissa: &U256,
) -> (r: Result<U256, Error>)
    ensures
        total_supply == 0 ==> r == Result::<U256, Error>::Ok(*default_exchange_rate_mantissa),
        total_supply > 0 ==> (r is Ok <==> total_cash + total_borrows < p128() && total_cash
            + total_borrows >= total_reserves),
        total_supply > 0 && r is Ok ==> r->Ok_0@ == (total_cash + total_borrows - total_reserves)
            * exp_scale_int() / total_supply as int,
        r is Err ==> r->Err_0 == Error::Arithmetic,
{
    if total_supply == 0 {
        return Ok(*default_exchange_rate_mantissa);
    }
    if total_cash > u128::MAX - total_borrows {
        return Err(Error::Arithmetic);
    }
    let cash_plus_borrows: u128 = total_cash + total_borrows;
    if cash_plus_borrows < total_reserves {
        return Err(Error::Arithmetic);
    }
    let net: u128 = cash_plus_borrows - total_reserves;
    let net_wide = U256::from_u128(net);
    let scale = crate::fixed_point::exp_scale();
    proof {
        assert(net * exp_scale_int() <= (p128() - 1) * exp_scale_int());
    }
    let numerator = match net_wide.checked_mul(&scale) {
        Some(v) => v,
        None => {
            return Err(Error::Arithmetic);
        },
    };
    let supply = U256::from_u128(total_supply);
    Ok(numerator.div_rem(&supply).0)
}

/// The protocol's cut of seized collateral, truncated at the `Exp` scale.
pub open spec fn spec_protocol_seize_tokens(seize_tokens: int, share: int) -> int {
    seize_tokens * share / exp_scale_int()
}

/// Splits seized collateral between the liquidator and the protocol, and
/// values the protocol's cut in underlying units. Returns
/// `(liquidator_seize_tokens, protocol_seize_amount, protocol_seize_tokens)`.
pub fn protocol_seize_amount(
    exchange_rate: &Exp,
    seize_tokens: Balance,
    protocol_seize_share_mantissa: &U256,
) -> (r: Result<(Balance, Balance, Balance), Error>)
    ensures
        r is Ok <==> seize_tokens * protocol_seize_share_mantissa@ < p256()
            && spec_protocol_seize_tokens(seize_tokens as int, protocol_seize_share_mantissa@)
            <= seize_tokens && exchange_rate.mantissa@ * spec_protocol_seize_tokens(
            seize_tokens as int,
            protocol_seize_share_mantissa@,
        ) < p256() && spec_mul_scalar_truncate(
            exchange_rate.mantissa@,
            spec_protocol_seize_tokens(seize_tokens as int, protocol_seize_share_mantissa@),
        ) < p128(),
        r is Ok ==> {
            let protocol = spec_protocol_seize_tokens(
                seize_tokens as int,
                protocol_seize_share_mantissa@,
            );
            &&& r->Ok_0.2 == protocol
            &&& r->Ok_0.0 == seize_tokens - protocol
            &&& r->Ok_0.1 == spec_mul_scalar_truncate(exchange_rate.mantissa@, protocol)
        },
        // The split never creates or destroys share tokens.
        r is Ok ==> r->Ok_0.0 + r->Ok_0.2 == seize_tokens,
        r is Err ==> r->Err_0 == Error::Arithmetic,
{
    let seize_wide = U256::from_u128(seize_tokens);
    let product = match seize_wide.checked_mul(protocol_seize_share_mantissa) {
        Some(v) => v,
        None => {
            return Err(Error::Arithmetic);
        },
    };
    let protocol_tokens = (Exp { mantissa: product }).truncate();
    let liquidator_tokens = match seize_wide.checked_sub(&protocol_tokens) {
        Some(v) => v,
        None => {
            return Err(Error::Arithmetic);
        },
    };
    let protocol_amount = match exchange_rate.mul_scalar_truncate(&protocol_tokens) {
        Ok(v) => v,
        Err(e) => {
            return Err(e);
        },
    };
    let protocol_amount_128 = match protocol_amount.to_u128() {
        Some(v) => v,
        None => {
            return Err(Error::Arithmetic);
        },
    };
    let protocol_tokens_128 = match protocol_tokens.to_u128() {
        Some(v) => v,
        None => {
            return Err(Error::Arithmetic);
        },
    };
    let liquidator_tokens_128 = match liquidator_tokens.to_u128() {
        Some(v) => v,
        None => {
            return Err(Error::Arithmetic);
        },
    };
    Ok((liquidator_tokens_128, protocol_amount_128, protocol_tokens_128))
}

/// Ceiling division for nonnegative operands.
pub open spec fn spec_ceil_div(a: int, b: int) -> int {
    (a + b - 1) / b
}

/// Ceiling division agrees with floor division plus a correction for a
/// nonzero remainder.
proof fn lemma_ceil_div(a: int, b: int)
    requires
        a >= 0,
        b > 0,
    ensures
        a % b == 0 ==> spec_ceil_div(a, b) == a / b,
        a % b != 0 ==> spec_ceil_div(a, b) == a / b + 1,
{
    lemma_fundamental_div_mod(a, b);
    lemma_mod_bound(a, b);
    lemma_mul_is_commutative(b, a / b);
    assert(a == (a / b) * b + a % b);
    if a % b == 0 {
        lemma_fundamental_div_mod_converse(a + b - 1, b, a / b, b - 1);
    } else {
        assert((a / b + 1) * b == (a / b) * b + b) by (nonlinear_arith);
        lemma_fundamental_div_mod_converse(a + b - 1, b, a / b + 1, a % b - 1);
    }
}

/// Resolves a redemption stated either in share tokens or in underlying
/// amount into both: exactly one of the two inputs must be nonzero.
/// By tokens, the amount is the truncated product with the exchange rate;
/// by amount, the token count is the ceiling quotient, so redeeming never
/// hands out more value than the tokens burned cover.
pub fn calculate_redeem_values(
    redeem_tokens_in: Balance,
    redeem_amount_in: Balance,
    exchange_rate: &U256,
) -> (r: Option<(Balance, Balance)>)
    requires
        exchange_rate@ > 0,
        redeem_tokens_in > 0 && redeem_amount_in == 0 ==> exchange_rate@ * redeem_tokens_in
            < p256() && spec_mul_scalar_truncate(exchange_rate@, redeem_tokens_in as int) < p128(),
        redeem_amount_in > 0 && redeem_tokens_in == 0 ==> spec_ceil_div(
            redeem_amount_in * exp_scale_int(),
            exchange_rate@,
        ) < p128(),
    ensures
        r is None <==> (redeem_tokens_in == 0 && redeem_amount_in == 0) || (redeem_tokens_in > 0
            && redeem_amount_in > 0),
        redeem_tokens_in > 0 && redeem_amount_in == 0 ==> r == Some(
            (
                redeem_tokens_in,
                spec_mul_scalar_truncate(exchange_rate@, redeem_tokens_in as int) as u128,
            ),
        ),
        redeem_amount_in > 0 && redeem_tokens_in == 0 ==> r == Some(
            (
                spec_ceil_div(redeem_amount_in * exp_scale_int(), exchange_rate@) as u128,
                redeem_amount_in,
            ),
        ),
{
    if redeem_tokens_in == 0 && redeem_amount_in == 0 {
        return None;
    }
    if redeem_tokens_in > 0 && redeem_amount_in > 0 {
        return None;
    }
    if redeem_tokens_in > 0 {
        let tokens_wide = U256::from_u128(redeem_tokens_in);
        let rate = Exp { mantissa: *exchange_rate };
        let amount_wide = match rate.mul_scalar_truncate(&tokens_wide) {
            Ok(v) => v,
            Err(_) => {
                return None;
            },
        };
        match amount_wide.to_u128() {
            Some(v) => Some((redeem_tokens_in, v)),
            None => None,
        }
    } else {
        let amount_wide = U256::from_u128(redeem_amount_in);
        let scale = crate::fixed_point::exp_scale();
        proof {
            assert(redeem_amount_in * exp_scale_int() <= (p128() - 1) * exp_scale_int());
        }
        let numerator = match amount_wide.checked_mul(&scale) {
            Some(v) => v,
            None => {
                return None;
            },
        };
        let (quotient, remainder) = numerator.div_rem(exchange_rate);
        proof {
            lemma_ceil_div(numerator@, exchange_rate@);
            lemma_div_nonincreasing(numerator@, exchange_rate@);
        }
        let tokens_wide = if remainder.is_zero() {
            quotient
        } else {
            match quotient.checked_add(&U256::one()) {
                Some(v) => v,
                None => {
                    return None;
                },
            }
        };
        match tokens_wide.to_u128() {
            Some(v) => Some((v, redeem_amount_in)),
            None => None,
        }
    }
}

} // verus!
