//! Pool-math behaviour on concrete values: interest accrual, exchange
//! rate, scaled balances, the seize split and redeem resolution.

use money_market::fixed_point::Exp;
use money_market::pool::{
    calculate_interest, calculate_redeem_values, compound_interest, exchange_rate,
    protocol_seize_amount, scaled_amount_of, CalculateInterestInput,
};
use money_market::types::Error;
use money_market::u256::U256;

fn mantissa() -> u128 {
    10_u128.pow(18)
}

#[test]
fn test_scaled_amount_of() {
    struct TestCase {
        amount: u128,
        idx: Exp,
        want: u128,
    }
    let cases = vec![
        TestCase {
            amount: 100,
            idx: Exp { mantissa: U256::from_u128(mantissa()) },
            want: 100,
        },
        TestCase {
            amount: 200,
            idx: Exp { mantissa: U256::from_u128(mantissa()) },
            want: 200,
        },
        TestCase {
            amount: 100,
            idx: Exp { mantissa: U256::from_u128(100 * mantissa()) },
            want: 1,
        },
        TestCase {
            amount: 90,
            idx: Exp { mantissa: U256::from_u128(100 * mantissa()) },
            want: 1,
        },
    ];
    for c in cases {
        assert_eq!(scaled_amount_of(c.amount, &c.idx).unwrap(), c.want)
    }
}

#[test]
fn test_calculate_interest_panic_if_over_borrow_rate_max() {
    let input = CalculateInterestInput {
        borrow_index: U256::zero(),
        borrow_rate: U256::from_u128(10_u128.pow(18)),
        new_block_timestamp: 0,
        old_block_timestamp: 0,
        reserve_factor_mantissa: U256::zero(),
        total_borrows: 0,
        total_reserves: 0,
    };
    let out = calculate_interest(&input);
    assert_eq!(out.err().unwrap(), Error::BorrowRateIsAbsurdlyHigh)
}

#[test]
fn test_compound_interest() {
    struct TestInput {
        borrow_rate_per_millisec: Exp,
        delta: U256,
        want: Exp,
    }
    let inputs: &[TestInput] = &[TestInput {
        borrow_rate_per_millisec: Exp { mantissa: U256::from_u128(mantissa()) },
        delta: U256::from_u128((1000_i128 * 60 * 60 * 24 * 30 * 12) as u128),
        want: Exp {
            mantissa: U256::from_u128(501530650214400000002592_u128)
                .checked_mul(&U256::from_u128(10000000000000000000000000_u128))
                .unwrap(),
        },
    }];
    for input in inputs {
        let got = compound_interest(&input.borrow_rate_per_millisec, &input.delta).unwrap();
        assert_eq!(got.mantissa, input.want.mantissa)
    }
}

#[test]
fn test_calculate_apy() {
    // when USDC's utilization rate is 1%
    let utilization_rate_mantissa = mantissa() / 100; // 1%
    let base_rate_per_milli_sec = 0_u128;
    let multiplier_slope_one_mantissa = 4 * mantissa() / 100; // 4%
    let optimal_utilization_rate_mantissa = 9 * mantissa() / 10; // 90%
    let multiplier_per_year_slope_one_mantissa = U256::from_u128(multiplier_slope_one_mantissa)
        .checked_mul(&U256::from_u128(mantissa()))
        .unwrap()
        .div_rem(&U256::from_u128(optimal_utilization_rate_mantissa))
        .0;
    let milliseconds_per_year = (1000_i128 * 60 * 60 * 24 * 365) as u128;
    let multiplier_per_milliseconds_slope_one_mantissa = multiplier_per_year_slope_one_mantissa
        .div_rem(&U256::from_u128(milliseconds_per_year))
        .0;
    let borrow_rate_mantissa = U256::from_u128(utilization_rate_mantissa)
        .checked_mul(&multiplier_per_milliseconds_slope_one_mantissa)
        .unwrap()
        .div_rem(&U256::from_u128(mantissa()))
        .0
        .checked_add(&U256::from_u128(base_rate_per_milli_sec))
        .unwrap();
    let got = compound_interest(
        &Exp { mantissa: borrow_rate_mantissa },
        &U256::from_u128(milliseconds_per_year),
    )
    .unwrap();
    assert_eq!(got.mantissa, U256::from_u128(444436848000000_u128))
}

#[test]
fn test_calculate_interest() {
    let old_timestamp: u64 = 0;
    let inputs: &[CalculateInterestInput] = &[
        CalculateInterestInput {
            old_block_timestamp: old_timestamp,
            new_block_timestamp: old_timestamp + 1000 * 60 * 60 * 24 * 30 * 12, // 1 year
            borrow_index: U256::from_u128(1),
            borrow_rate: U256::from_u128(mantissa() / 100000), // 0.001 %
            reserve_factor_mantissa: U256::from_u128(mantissa() / 100), // 1 %
            total_borrows: 10_000 * 10_u128.pow(18),
            total_reserves: 10_000 * 10_u128.pow(18),
        },
        CalculateInterestInput {
            old_block_timestamp: old_timestamp,
            new_block_timestamp: old_timestamp + 1000 * 60 * 60, // 1 hour
            borrow_index: U256::from_u128(123123123),
            borrow_rate: U256::from_u128(mantissa() / 1000000),
            reserve_factor_mantissa: U256::from_u128(mantissa() / 10),
            total_borrows: 100_000 * 10_u128.pow(18),
            total_reserves: 1_000_000 * 10_u128.pow(18),
        },
        CalculateInterestInput {
            old_block_timestamp: old_timestamp,
            new_block_timestamp: old_timestamp + 1000 * 60 * 60,
            borrow_index: U256::from_u128(123123123),
            borrow_rate: U256::from_u128(mantissa() / 123123),
            reserve_factor_mantissa: U256::from_u128(2 * (mantissa() / 10)),
            total_borrows: 123_456 * 10_u128.pow(18),
            total_reserves: 789_012 * 10_u128.pow(18),
        },
    ];

    for input in inputs {
        let got = calculate_interest(input).unwrap();
        let delta = input.new_block_timestamp.abs_diff(input.old_block_timestamp);
        let simple_interest_factor = input
            .borrow_rate
            .checked_mul(&U256::from_u128(delta as u128))
            .unwrap();
        let simple_interest_accumulated = simple_interest_factor
            .checked_mul(&U256::from_u128(input.total_borrows))
            .unwrap()
            .div_rem(&U256::from_u128(mantissa()))
            .0
            .to_u128()
            .unwrap();
        let reserves_simple = input
            .reserve_factor_mantissa
            .checked_mul(&U256::from_u128(simple_interest_accumulated))
            .unwrap()
            .div_rem(&U256::from_u128(mantissa()))
            .0
            .checked_add(&U256::from_u128(input.total_reserves))
            .unwrap();
        assert!(got.interest_accumulated.gt(&simple_interest_accumulated));
        assert!(got.total_borrows.gt(&(simple_interest_accumulated + input.total_borrows)));
        assert!(got.total_reserves.gt(&reserves_simple.to_u128().unwrap()));
        let borrow_idx_simple = simple_interest_factor
            .checked_mul(&input.borrow_index)
            .unwrap()
            .div_rem(&U256::from_u128(mantissa()))
            .0
            .checked_add(&input.borrow_index)
            .unwrap();
        assert!(got.borrow_index.gt(&borrow_idx_simple));
    }
}

#[test]
// protocol_seize_tokens = seizeTokens * protocolSeizeShare
// liquidator_seize_tokens = seizeTokens - (seizeTokens * protocolSeizeShare)
// protocol_seize_amount = exchangeRate * protocolSeizeTokens
fn test_protocol_seize_amount() {
    // 1%
    let exchange_rate_value = Exp {
        mantissa: U256::from_u128(10_u128.pow(18) / 100),
    };
    let seize_tokens = 10_u128.pow(18) * 100000000000;
    let protocol_seize_tokens = seize_tokens * 10 / 100;
    let protocol_seize_share_mantissa = U256::from_u128(10_u128.pow(18) / 10); // 10%
    let liquidator_seize_tokens_want = seize_tokens * 9 / 10;
    let protocol_seize_amount_want = protocol_seize_tokens / 100; // 1%
    let (liquidator_seize_tokens_got, protocol_seize_amount_got, protocol_seize_tokens_got) =
        protocol_seize_amount(&exchange_rate_value, seize_tokens, &protocol_seize_share_mantissa)
            .unwrap();
    assert_eq!(liquidator_seize_tokens_got, liquidator_seize_tokens_want);
    assert_eq!(protocol_seize_amount_got, protocol_seize_amount_want);
    assert_eq!(protocol_seize_tokens_got, protocol_seize_tokens);
}

#[test]
fn test_exchange_rate_in_case_total_supply_is_zero() {
    let initial = U256::from_u128(10_u128.pow(18));
    assert_eq!(exchange_rate(0, 1, 1, 1, &initial).unwrap(), initial);
}

#[test]
fn test_exchange_rate() {
    let with_dec = |val: u128| 10_u128.pow(18) * val;
    struct Case {
        total_cash: u128,
        total_borrows: u128,
        total_reserves: u128,
        total_supply: u128,
    }
    let cases: &[Case] = &[
        Case {
            total_cash: with_dec(999987),
            total_borrows: with_dec(199987),
            total_reserves: with_dec(299987),
            total_supply: with_dec(1999987),
        },
        Case {
            total_cash: with_dec(999983),
            total_borrows: with_dec(199983),
            total_reserves: with_dec(299983),
            total_supply: with_dec(1999983),
        },
        Case {
            total_cash: with_dec(1999983),
            total_borrows: with_dec(1199983),
            total_reserves: with_dec(1299983),
            total_supply: with_dec(11999983),
        },
        Case {
            total_cash: with_dec(1234567),
            total_borrows: with_dec(234567),
            total_reserves: with_dec(34567),
            total_supply: with_dec(11999983),
        },
    ];
    for case in cases {
        let rate_want = U256::from_u128(10_u128.pow(18))
            .checked_mul(&U256::from_u128(
                case.total_cash + case.total_borrows - case.total_reserves,
            ))
            .unwrap()
            .div_rem(&U256::from_u128(case.total_supply))
            .0;
        assert_eq!(
            exchange_rate(
                case.total_supply,
                case.total_cash,
                case.total_borrows,
                case.total_reserves,
                &U256::zero(),
            )
            .unwrap(),
            rate_want
        )
    }
}

#[test]
fn test_calculate_redeem_values() {
    let mantissa = 10_u128.pow(18);
    struct Input {
        redeem_tokens_in: u128,
        redeem_amount_in: u128,
        exchange_rate: u128,
    }
    struct Output {
        redeem_tokens: u128,
        redeem_amount: u128,
    }
    struct Case {
        input: Input,
        output: Output,
    }
    let cases: &[Case] = &[
        Case {
            input: Input {
                redeem_tokens_in: 10000,
                redeem_amount_in: 0,
                exchange_rate: mantissa * 12 / 10,
            },
            output: Output { redeem_tokens: 10000, redeem_amount: 12000 },
        },
        Case {
            input: Input {
                redeem_tokens_in: 0,
                redeem_amount_in: 12000,
                exchange_rate: mantissa * 12 / 10,
            },
            output: Output { redeem_tokens: 10000, redeem_amount: 12000 },
        },
    ];
    for case in cases {
        let Case { input, output } = case;
        assert_eq!(
            calculate_redeem_values(
                input.redeem_tokens_in,
                input.redeem_amount_in,
                &U256::from_u128(input.exchange_rate),
            ),
            Some((output.redeem_tokens, output.redeem_amount))
        )
    }
}

#[test]
fn test_calculate_redeem_values_is_none() {
    struct Case {
        redeem_tokens_in: u128,
        redeem_amount_in: u128,
    }
    let cases: &[Case] = &[
        Case { redeem_tokens_in: 0, redeem_amount_in: 0 },
        Case { redeem_tokens_in: 1, redeem_amount_in: 1 },
    ];
    for case in cases {
        assert_eq!(
            calculate_redeem_values(
                case.redeem_tokens_in,
                case.redeem_amount_in,
                &U256::from_u128(1),
            ),
            None
        )
    }
}
