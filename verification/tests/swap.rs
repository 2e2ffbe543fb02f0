use std::collections::HashMap;

use uni_v4::errors::SwapSimulationError;
use uni_v4::fee_config::{L1FeeConfiguration, L2FeeConfiguration};
use uni_v4::liquidity_base::BaselineLiquidity;
use uni_v4::math::{
    compute_swap_step, max_sqrt_ratio_value, min_sqrt_ratio_value, sqrt_ratio_to_tick,
    tick_to_sqrt_ratio, MAX_TICK, MIN_TICK,
};
use uni_v4::pool_state::BaselinePoolState;
use uni_v4::primitives::Address;
use uni_v4::u256::{I256, U256};

const Q96: u128 = 79228162514264337593543950336;

fn l1_pool(fee: u32) -> BaselinePoolState<L1FeeConfiguration> {
    let liquidity =
        BaselineLiquidity::new(60, 0, U256::from_u128(Q96), 0, HashMap::new(), HashMap::new());
    BaselinePoolState::new(
        liquidity,
        1,
        L1FeeConfiguration { bundle_fee: fee, swap_fee: fee, protocol_fee: 0 },
        Address::zero(),
        Address::zero(),
        18,
        18,
    )
}

fn l2_pool(floor: u128) -> BaselinePoolState<L2FeeConfiguration> {
    let liquidity =
        BaselineLiquidity::new(60, 0, U256::from_u128(Q96), 0, HashMap::new(), HashMap::new());
    BaselinePoolState::new(
        liquidity,
        1,
        L2FeeConfiguration {
            is_initialized: true,
            creator_tax_fee_e6: 0,
            protocol_tax_fee_e6: 0,
            creator_swap_fee_e6: 0,
            protocol_swap_fee_e6: 0,
            priority_fee_tax_floor: floor,
            jit_tax_enabled: false,
            withdraw_only: false,
        },
        Address::zero(),
        Address::zero(),
        18,
        18,
    )
}

#[test]
fn tick_to_price_known_values() {
    assert_eq!(tick_to_sqrt_ratio(0).unwrap(), U256::from_u128(Q96));
    assert_eq!(tick_to_sqrt_ratio(MIN_TICK).unwrap(), min_sqrt_ratio_value());
    assert_eq!(tick_to_sqrt_ratio(MAX_TICK).unwrap(), max_sqrt_ratio_value());
    assert_eq!(tick_to_sqrt_ratio(MIN_TICK).unwrap(), U256::from_u64(4295128739));
}

#[test]
fn tick_out_of_range_is_invalid() {
    assert_eq!(tick_to_sqrt_ratio(MIN_TICK - 1), Err(SwapSimulationError::InvalidTick));
    assert_eq!(tick_to_sqrt_ratio(MAX_TICK + 1), Err(SwapSimulationError::InvalidTick));
    assert_eq!(tick_to_sqrt_ratio(i32::MIN), Err(SwapSimulationError::InvalidTick));
    assert_eq!(tick_to_sqrt_ratio(i32::MAX), Err(SwapSimulationError::InvalidTick));
}

#[test]
fn price_to_tick_known_values() {
    assert_eq!(sqrt_ratio_to_tick(U256::from_u128(Q96)), Ok(0));
    assert_eq!(sqrt_ratio_to_tick(min_sqrt_ratio_value()), Ok(MIN_TICK));
    assert_eq!(
        sqrt_ratio_to_tick(max_sqrt_ratio_value()),
        Err(SwapSimulationError::UniswapV3MathError)
    );
    assert_eq!(
        sqrt_ratio_to_tick(U256::from_u64(1)),
        Err(SwapSimulationError::UniswapV3MathError)
    );
    let p = tick_to_sqrt_ratio(-61).unwrap();
    assert_eq!(sqrt_ratio_to_tick(p), Ok(-61));
}

#[test]
fn swap_step_rejects_fee_above_one() {
    let r = compute_swap_step(
        U256::from_u128(Q96),
        tick_to_sqrt_ratio(-60).unwrap(),
        1_000_000,
        I256::from_i128(1000),
        1_000_001,
    );
    assert_eq!(r, Err(SwapSimulationError::UniswapV3MathError));
    let r = compute_swap_step(
        U256::from_u128(Q96),
        tick_to_sqrt_ratio(-60).unwrap(),
        1_000_000,
        I256::min_value(),
        0,
    );
    assert_eq!(r, Err(SwapSimulationError::UniswapV3MathError));
}

#[test]
fn swap_step_exact_input_within_range() {
    // 2e18 of liquidity, one token in, no fee: the step stays inside the range
    let step = compute_swap_step(
        U256::from_u128(Q96),
        tick_to_sqrt_ratio(-60).unwrap(),
        2_000_000_000_000_000_000,
        I256::from_i128(1_000_000),
        0,
    )
    .unwrap();
    assert_eq!(step.amount_in, U256::from_u64(1_000_000));
    assert_eq!(step.fee_amount, U256::from_u64(0));
    assert_eq!(step.amount_out, U256::from_u64(999_999));
    assert!(step.sqrt_price_next.lt(&U256::from_u128(Q96)));
}

#[test]
fn liquidity_insert_and_tick_crossing() {
    let mut pool = l1_pool(0);
    pool.update_liquidity(-60, 60, I256::from_i128(1_000_000));
    assert_eq!(pool.current_liquidity(), 1_000_000);
    assert!(pool.get_baseline_liquidity().is_initialized(-60));
    assert!(pool.get_baseline_liquidity().is_initialized(60));
    assert!(pool.get_baseline_liquidity().is_bit_set(-1));
    assert!(pool.get_baseline_liquidity().is_bit_set(1));
    assert!(!pool.get_baseline_liquidity().is_bit_set(0));

    let target = tick_to_sqrt_ratio(-61).unwrap();
    let result = pool.swap_current_to_price_raw(target, true).unwrap();
    assert_eq!(result.end_liquidity.current_liquidity, 0);
    assert!(result.end_tick <= -61);
    assert_eq!(result.end_price, target);
    assert_eq!(result.start_tick, 0);
    assert_eq!(result.start_price, U256::from_u128(Q96));
    assert_eq!(result.steps.len(), 2);
    assert_eq!(result.steps[0].liquidity, 1_000_000);
    assert_eq!(result.steps[0].end_price, tick_to_sqrt_ratio(-60).unwrap());
    assert_eq!(result.steps[1].liquidity, 0);
    // the simulation leaves the pool untouched
    assert_eq!(pool.current_liquidity(), 1_000_000);
    assert_eq!(pool.current_tick(), 0);
}

#[test]
fn zero_amount_is_rejected() {
    let mut pool = l1_pool(0);
    pool.update_liquidity(-60, 60, I256::from_i128(1_000_000));
    let r = pool.swap_current_with_amount(I256::zero(), true, true);
    assert!(matches!(r, Err(SwapSimulationError::ZeroAmountSpecified)));
}

#[test]
fn wrong_side_limit_is_rejected() {
    let mut pool = l1_pool(0);
    pool.update_liquidity(-60, 60, I256::from_i128(1_000_000));
    let above = tick_to_sqrt_ratio(30).unwrap();
    let below = tick_to_sqrt_ratio(-30).unwrap();
    let r = pool.swap_current_with_amount_and_limit(I256::from_i128(10), true, true, above);
    assert!(matches!(r, Err(SwapSimulationError::InvalidSqrtPriceLimit)));
    let r = pool.swap_current_with_amount_and_limit(I256::from_i128(10), false, true, below);
    assert!(matches!(r, Err(SwapSimulationError::InvalidSqrtPriceLimit)));
    let r = pool.swap_current_with_amount_and_limit(I256::from_i128(10), true, true, below);
    assert!(r.is_ok());
}

#[test]
fn exact_input_swap_totals() {
    let mut pool = l1_pool(0);
    pool.update_liquidity(-600, 600, I256::from_i128(2_000_000_000_000_000_000));
    let r = pool.swap_current_with_amount(I256::from_i128(1_000_000), true, true).unwrap();
    assert_eq!(r.total_d_t0, U256::from_u64(1_000_000));
    assert_eq!(r.total_d_t1, U256::from_u64(999_999));
    assert_eq!(r.steps.len(), 1);
    assert!(r.is_bundle);
    assert_eq!(r.end_liquidity.current_liquidity, 2_000_000_000_000_000_000);
    assert_eq!(r.end_tick, -1);

    let back = pool.swap_current_with_amount(I256::from_i128(1_000_000), false, false).unwrap();
    assert_eq!(back.total_d_t1, U256::from_u64(1_000_000));
    assert_eq!(back.total_d_t0, U256::from_u64(999_999));
    assert!(!back.is_bundle);
}

#[test]
fn exact_output_swap_totals() {
    let mut pool = l1_pool(0);
    pool.update_liquidity(-600, 600, I256::from_i128(2_000_000_000_000_000_000));
    let r = pool.swap_current_with_amount(I256::from_i128(-1_000_000), true, true).unwrap();
    assert_eq!(r.total_d_t1, U256::from_u64(1_000_000));
    assert_eq!(r.total_d_t0, U256::from_u64(1_000_001));
}

#[test]
fn fee_is_taken_from_the_input() {
    let mut pool = l1_pool(3000);
    pool.update_liquidity(-600, 600, I256::from_i128(2_000_000_000_000_000_000));
    let r = pool.swap_current_with_amount(I256::from_i128(1_000_000), true, true).unwrap();
    // 0.3% of the input is fee: 997_000 reach the curve
    assert_eq!(r.total_d_t0, U256::from_u64(1_000_000));
    assert_eq!(r.total_d_t1, U256::from_u64(996_999));
}

#[test]
fn swap_round_trip_within_one_wei() {
    let mut pool = l1_pool(0);
    pool.update_liquidity(-600, 600, I256::from_i128(2_000_000_000_000_000_000));
    let there = pool.swap_current_with_amount(I256::from_i128(1_000_000), true, true).unwrap();
    let out = there.total_d_t1.to_u128().unwrap();
    // the pool after the first swap
    let mut moved = pool.clone();
    moved.update_slot0(there.end_tick, there.end_price, there.end_liquidity.current_liquidity);
    let back = moved.swap_current_with_amount(I256::from_i128(out as i128), false, true).unwrap();
    let recovered = back.total_d_t0.to_u128().unwrap();
    assert_eq!(out, 999_999);
    assert_eq!(recovered, 999_999);
    assert!(recovered <= 1_000_000);
    assert!(1_000_000 - recovered <= 1);
}

#[test]
fn swap_to_price_matches_amount_swap() {
    let mut pool = l1_pool(500);
    pool.update_liquidity(-600, 600, I256::from_i128(2_000_000_000_000_000_000));
    pool.update_liquidity(-120, 120, I256::from_i128(5_000_000_000_000_000));
    let target = tick_to_sqrt_ratio(-200).unwrap();
    let measured = pool.swap_current_to_price_raw(target, true).unwrap();
    let two_phase = pool.swap_current_to_price(target, true).unwrap();
    let amount = I256::from_magnitude(measured.total_d_t0).unwrap();
    let direct = pool.swap_current_with_amount(amount, true, true).unwrap();
    assert_eq!(two_phase.total_d_t0, direct.total_d_t0);
    assert_eq!(two_phase.total_d_t1, direct.total_d_t1);
    assert_eq!(two_phase.end_price, direct.end_price);
    assert_eq!(two_phase.end_tick, direct.end_tick);
    assert_eq!(two_phase.steps, direct.steps);
    assert_eq!(two_phase.total_d_t0, measured.total_d_t0);
}

#[test]
fn swap_to_current_price_moves_nothing() {
    let mut pool = l1_pool(0);
    pool.update_liquidity(-60, 60, I256::from_i128(1_000_000));
    let raw = pool.swap_current_to_price_raw(U256::from_u128(Q96), true).unwrap();
    assert_eq!(raw.total_d_t0, U256::zero());
    assert_eq!(raw.total_d_t1, U256::zero());
    assert_eq!(raw.steps.len(), 0);
    let two_phase = pool.swap_current_to_price(U256::from_u128(Q96), true);
    assert!(matches!(two_phase, Err(SwapSimulationError::ZeroAmountSpecified)));
}

#[test]
fn mev_tax_comes_off_token0() {
    let mut pool = l2_pool(100);
    pool.update_liquidity(-600, 600, I256::from_i128(2_000_000_000_000_000_000));
    let plain = pool
        .swap_current_with_amount(I256::from_i128(1_000_000_000_000), true, false)
        .unwrap();
    let taxed = pool
        .swap_current_with_amount_and_mev_tax(
            I256::from_i128(1_000_000_000_000),
            true,
            false,
            Some(150),
        )
        .unwrap();
    let tax = U256::from_u64(495_000_000);
    assert_eq!(taxed.total_d_t0.checked_add(&tax), Some(plain.total_d_t0));
    assert_eq!(taxed.total_d_t1, plain.total_d_t1);
    // at the floor there is no tax
    let untaxed = pool
        .swap_current_with_amount_and_mev_tax(
            I256::from_i128(1_000_000_000_000),
            true,
            false,
            Some(100),
        )
        .unwrap();
    assert_eq!(untaxed.total_d_t0, plain.total_d_t0);
}

#[test]
fn mev_tax_above_delta_underflows() {
    let mut pool = l2_pool(0);
    pool.update_liquidity(-600, 600, I256::from_i128(2_000_000_000_000_000_000));
    let r = pool.swap_current_with_amount_and_mev_tax(I256::from_i128(1000), true, false, Some(1));
    assert!(matches!(r, Err(SwapSimulationError::LiquidityUnderflow)));
    let r = pool.swap_current_with_amount_and_mev_tax(
        I256::from_i128(1000),
        true,
        false,
        Some(u128::MAX),
    );
    assert!(matches!(r, Err(SwapSimulationError::LiquidityUnderflow)));
}

#[test]
fn noop_result_is_empty() {
    let mut pool = l1_pool(0);
    pool.update_liquidity(-60, 60, I256::from_i128(1_000_000));
    let r = pool.noop();
    assert_eq!(r.total_d_t0, U256::zero());
    assert_eq!(r.total_d_t1, U256::zero());
    assert_eq!(r.start_price, r.end_price);
    assert_eq!(r.start_tick, r.end_tick);
    assert!(r.steps.is_empty());
    assert!(r.is_bundle);
    assert_eq!(r.end_liquidity.current_liquidity, 1_000_000);
}

#[test]
fn swap_without_liquidity_runs_to_the_limit() {
    let pool = l1_pool(0);
    let r = pool.swap_current_with_amount(I256::from_i128(1000), true, true).unwrap();
    // nothing to trade against: the price falls to the limit and nothing moves
    assert_eq!(r.total_d_t0, U256::zero());
    assert_eq!(r.total_d_t1, U256::zero());
    assert_eq!(r.end_price, min_sqrt_ratio_value().checked_add(&U256::from_u64(1)).unwrap());
}

#[test]
fn limit_and_mev_tax_together() {
    let mut pool = l2_pool(100);
    pool.update_liquidity(-600, 600, I256::from_i128(2_000_000_000_000_000_000));
    let limit = tick_to_sqrt_ratio(-10).unwrap();
    let amount = I256::from_i128(1_000_000_000_000_000_000);
    let plain = pool.swap_current_with_amount_and_limit(amount, true, false, limit).unwrap();
    assert_eq!(plain.end_price, limit);
    let taxed = pool
        .swap_current_with_amount_limit_and_mev_tax(amount, true, false, limit, Some(150))
        .unwrap();
    assert_eq!(taxed.end_price, limit);
    assert_eq!(taxed.steps, plain.steps);
    assert_eq!(taxed.total_d_t1, plain.total_d_t1);
    assert_eq!(taxed.total_d_t0.checked_add(&U256::from_u64(495_000_000)), Some(plain.total_d_t0));
    let untaxed = pool
        .swap_current_with_amount_limit_and_mev_tax(amount, true, false, limit, None)
        .unwrap();
    assert_eq!(untaxed.total_d_t0, plain.total_d_t0);
    // a limit on the wrong side of the price is refused before any tax
    let above = tick_to_sqrt_ratio(10).unwrap();
    let r = pool.swap_current_with_amount_limit_and_mev_tax(amount, true, false, above, Some(150));
    assert!(matches!(r, Err(SwapSimulationError::InvalidSqrtPriceLimit)));
}

#[test]
fn raw_swap_to_price_with_mev_tax() {
    let mut pool = l2_pool(100);
    pool.update_liquidity(-600, 600, I256::from_i128(2_000_000_000_000_000_000));
    let target = tick_to_sqrt_ratio(-10).unwrap();
    let raw = pool.swap_current_to_price_raw(target, false).unwrap();
    let taxed = pool.swap_current_to_price_raw_with_mev_tax(target, false, Some(150)).unwrap();
    assert_eq!(taxed.end_price, target);
    assert_eq!(taxed.end_tick, raw.end_tick);
    assert_eq!(taxed.total_d_t1, raw.total_d_t1);
    assert_eq!(taxed.total_d_t0.checked_add(&U256::from_u64(495_000_000)), Some(raw.total_d_t0));
    let same = pool.swap_current_to_price_raw_with_mev_tax(target, false, Some(99)).unwrap();
    assert_eq!(same.total_d_t0, raw.total_d_t0);
    // upwards the direction is one-for-zero
    let up = tick_to_sqrt_ratio(10).unwrap();
    let raised = pool.swap_current_to_price_raw_with_mev_tax(up, false, None).unwrap();
    assert_eq!(raised.end_price, up);
    assert!(raised.end_tick >= 9);
}

#[test]
fn mutable_access_reaches_the_pool() {
    let mut pool = l1_pool(500);
    pool.fees_mut().swap_fee = 700;
    assert_eq!(pool.swap_fee(), 700);
    assert_eq!(pool.bundle_fee(), Some(500));
    assert_eq!(pool.fee(false), 700);
    assert_eq!(pool.fee(true), 500);
    let changed = pool.get_baseline_liquidity_mut().update_liquidity(-60, 60, 1_000);
    assert!(changed.is_ok());
    assert_eq!(pool.current_liquidity(), 1_000);
    assert!(pool.get_baseline_liquidity().is_initialized(60));
    assert_eq!(pool.block_number(), 1);
}
