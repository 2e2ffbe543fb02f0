use std::collections::HashMap;

use uni_v4::errors::SwapSimulationError;
use uni_v4::liquidity_base::{add_delta, floor_div, is_usable, sub_delta, BaselineLiquidity};
use uni_v4::math::{MAX_TICK, MIN_TICK};
use uni_v4::tick_info::TickInfo;
use uni_v4::u256::{I256, U256};

const Q96: u128 = 79228162514264337593543950336;

fn empty(spacing: i32, tick: i32) -> BaselineLiquidity {
    BaselineLiquidity::new(spacing, tick, U256::from_u128(Q96), 0, HashMap::new(), HashMap::new())
}

fn net_sum(liq: &BaselineLiquidity) -> i128 {
    liq.initialized_ticks.values().filter(|t| t.initialized).map(|t| t.liquidity_net).sum()
}

fn consistent(liq: &BaselineLiquidity) -> bool {
    let s = liq.tick_spacing;
    let ticks_ok = liq.initialized_ticks.iter().filter(|(_, t)| t.initialized).all(|(tick, info)| {
        info.liquidity_gross > 0 && tick % s == 0 && liq.is_bit_set(tick.div_euclid(s))
    });
    let bits_ok = liq.tick_bitmap.iter().all(|(word, bits)| {
        (0..=255u8).all(|b| {
            if !bits.get_bit(b) {
                return true;
            }
            let c = (*word as i32) * 256 + b as i32;
            liq.is_initialized(c * s)
        })
    });
    ticks_ok && bits_ok
}

#[test]
fn floor_division() {
    assert_eq!(floor_div(7, 2), 3);
    assert_eq!(floor_div(-7, 2), -4);
    assert_eq!(floor_div(-8, 2), -4);
    assert_eq!(floor_div(0, 60), 0);
    assert_eq!(floor_div(-1, 60), -1);
    assert_eq!(floor_div(i32::MIN, 1), i32::MIN);
    assert_eq!(floor_div(i32::MIN, i32::MAX), -2);
    assert_eq!(floor_div(i32::MAX, i32::MAX), 1);
    assert!(is_usable(-120, 60));
    assert!(is_usable(0, 60));
    assert!(!is_usable(-61, 60));
    assert!(!is_usable(59, 60));
}

#[test]
fn delta_arithmetic() {
    assert_eq!(add_delta(1, 0), Ok(1));
    assert_eq!(add_delta(1, -1), Ok(0));
    assert_eq!(add_delta(1, 1), Ok(2));
    assert_eq!(add_delta(0, -1), Err(SwapSimulationError::LiquidityUnderflow));
    assert_eq!(add_delta(3, -4), Err(SwapSimulationError::LiquidityUnderflow));
    assert_eq!(add_delta(u128::MAX - 14, 15), Err(SwapSimulationError::UniswapV3MathError));
    assert_eq!(add_delta(1 << 127, i128::MIN), Ok(0));
    assert_eq!(add_delta(0, i128::MIN), Err(SwapSimulationError::LiquidityUnderflow));
    assert_eq!(sub_delta(5, 3), Ok(2));
    assert_eq!(sub_delta(5, -3), Ok(8));
    assert_eq!(sub_delta(2, 3), Err(SwapSimulationError::LiquidityUnderflow));
    assert_eq!(sub_delta(u128::MAX, -1), Err(SwapSimulationError::UniswapV3MathError));
    assert_eq!(sub_delta(0, i128::MIN), Ok(1 << 127));
}

#[test]
fn update_liquidity_adds_and_removes() {
    let mut liq = empty(60, 0);
    assert_eq!(liq.update_liquidity(-60, 60, 1_000_000), Ok(()));
    assert_eq!(liq.start_liquidity, 1_000_000);
    assert_eq!(
        liq.tick_info(-60),
        Some(TickInfo { liquidity_gross: 1_000_000, liquidity_net: 1_000_000, initialized: true })
    );
    assert_eq!(
        liq.tick_info(60),
        Some(TickInfo { liquidity_gross: 1_000_000, liquidity_net: -1_000_000, initialized: true })
    );
    assert_eq!(liq.liquidity_net(60), -1_000_000);
    assert_eq!(liq.liquidity_net(120), 0);
    assert_eq!(net_sum(&liq), 0);
    assert!(consistent(&liq));

    // a second position shares the lower tick
    assert_eq!(liq.update_liquidity(-60, 120, 500), Ok(()));
    assert_eq!(liq.tick_info(-60).unwrap().liquidity_gross, 1_000_500);
    assert_eq!(liq.tick_info(-60).unwrap().liquidity_net, 1_000_500);
    assert_eq!(liq.start_liquidity, 1_000_500);
    assert_eq!(net_sum(&liq), 0);
    assert!(consistent(&liq));

    // out of range of the current tick: the liquidity in range stays
    assert_eq!(liq.update_liquidity(120, 180, 7), Ok(()));
    assert_eq!(liq.start_liquidity, 1_000_500);
    assert_eq!(liq.tick_info(120).unwrap().liquidity_gross, 507);
    assert_eq!(liq.tick_info(120).unwrap().liquidity_net, -493);
    assert_eq!(net_sum(&liq), 0);

    // removing everything empties the table and the bitmap
    assert_eq!(liq.update_liquidity(120, 180, -7), Ok(()));
    assert_eq!(liq.update_liquidity(-60, 120, -500), Ok(()));
    assert_eq!(liq.update_liquidity(-60, 60, -1_000_000), Ok(()));
    assert_eq!(liq.start_liquidity, 0);
    assert!(liq.initialized_ticks.is_empty());
    assert!(!liq.is_bit_set(-1));
    assert!(!liq.is_bit_set(1));
    assert!(!liq.is_bit_set(2));
    assert!(consistent(&liq));
}

#[test]
fn update_liquidity_rejections_change_nothing() {
    let mut liq = empty(60, 0);
    liq.update_liquidity(-60, 60, 100).unwrap();
    let before = liq.clone();
    let same = |a: &BaselineLiquidity, b: &BaselineLiquidity| {
        a.initialized_ticks == b.initialized_ticks
            && a.tick_bitmap == b.tick_bitmap
            && a.start_liquidity == b.start_liquidity
    };

    assert_eq!(liq.update_liquidity(-61, 60, 1), Err(SwapSimulationError::InvalidTick));
    assert_eq!(liq.update_liquidity(-60, 61, 1), Err(SwapSimulationError::InvalidTick));
    assert_eq!(liq.update_liquidity(60, 60, 1), Err(SwapSimulationError::InvalidTick));
    assert_eq!(liq.update_liquidity(120, 60, 1), Err(SwapSimulationError::InvalidTick));
    assert_eq!(liq.update_liquidity(MIN_TICK - 8, 0, 1), Err(SwapSimulationError::InvalidTick));
    assert_eq!(liq.update_liquidity(0, MAX_TICK + 8, 1), Err(SwapSimulationError::InvalidTick));
    // more than is there
    assert_eq!(liq.update_liquidity(-60, 60, -101), Err(SwapSimulationError::LiquidityUnderflow));
    // from a tick that has nothing
    assert_eq!(liq.update_liquidity(-120, 60, -1), Err(SwapSimulationError::LiquidityUnderflow));
    // all of the gross liquidity of a tick while other positions' net remains
    liq.update_liquidity(-120, -60, 50).unwrap();
    let shared = liq.clone();
    assert_eq!(liq.update_liquidity(-60, 60, -150), Err(SwapSimulationError::LiquidityUnderflow));
    assert!(same(&liq, &shared));
    liq.update_liquidity(-120, -60, -50).unwrap();
    assert!(same(&liq, &before));
    assert_eq!(
        liq.update_liquidity(-60, 60, i128::MAX),
        Err(SwapSimulationError::UniswapV3MathError)
    );
    assert!(same(&liq, &before));

    let mut broken = empty(0, 0);
    assert_eq!(broken.update_liquidity(-60, 60, 1), Err(SwapSimulationError::InvalidTick));
    let mut negative = empty(-60, 0);
    assert_eq!(negative.update_liquidity(-60, 60, 1), Err(SwapSimulationError::InvalidTick));
}

#[test]
fn update_then_inverse_restores() {
    let mut liq = empty(10, 5);
    liq.update_liquidity(-100, 100, 1000).unwrap();
    liq.update_liquidity(0, 50, 10).unwrap();
    let before = liq.clone();
    let events = [(0, 120, 500i128), (-100, 0, 33), (0, 50, -10), (-30, 30, 1)];
    for (lower, upper, delta) in events {
        liq.update_liquidity(lower, upper, delta).unwrap();
    }
    for (lower, upper, delta) in events.iter().rev() {
        liq.update_liquidity(*lower, *upper, -delta).unwrap();
    }
    assert_eq!(liq.initialized_ticks, before.initialized_ticks);
    assert_eq!(liq.start_liquidity, before.start_liquidity);
    for c in -20..20 {
        assert_eq!(liq.is_bit_set(c), before.is_bit_set(c));
    }
    // and the replay brings back the state before the undoing
    let mut replayed = liq.clone();
    let mut expected = before.clone();
    for (lower, upper, delta) in events {
        replayed.update_liquidity(lower, upper, delta).unwrap();
        expected.update_liquidity(lower, upper, delta).unwrap();
    }
    assert_eq!(replayed.initialized_ticks, expected.initialized_ticks);
    assert_eq!(replayed.tick_bitmap, expected.tick_bitmap);
    assert_eq!(replayed.start_liquidity, expected.start_liquidity);
}

#[test]
fn next_initialized_tick_search() {
    let mut liq = empty(60, 0);
    assert_eq!(liq.next_initialized_tick(0, true), None);
    assert_eq!(liq.next_initialized_tick(0, false), None);
    liq.update_liquidity(-60, 60, 10).unwrap();
    liq.update_liquidity(-60 * 300, 60 * 700, 10).unwrap();

    assert_eq!(liq.next_initialized_tick(0, true), Some(-60));
    assert_eq!(liq.next_initialized_tick(-60, true), Some(-60));
    assert_eq!(liq.next_initialized_tick(-61, true), Some(-18000));
    assert_eq!(liq.next_initialized_tick(-18001, true), None);
    assert_eq!(liq.next_initialized_tick(i32::MAX, true), Some(42000));
    assert_eq!(liq.next_initialized_tick(i32::MIN, true), None);

    assert_eq!(liq.next_initialized_tick(0, false), Some(60));
    assert_eq!(liq.next_initialized_tick(59, false), Some(60));
    assert_eq!(liq.next_initialized_tick(60, false), Some(42000));
    assert_eq!(liq.next_initialized_tick(42000, false), None);
    assert_eq!(liq.next_initialized_tick(i32::MIN, false), Some(-18000));
    assert_eq!(liq.next_initialized_tick(i32::MAX, false), None);
    assert_eq!(liq.next_initialized_tick(-18001, false), Some(-18000));
}

#[test]
fn next_initialized_tick_at_the_bounds() {
    let mut liq = empty(1, 0);
    liq.update_liquidity(MIN_TICK, MAX_TICK, 10).unwrap();
    assert_eq!(liq.next_initialized_tick(0, true), Some(MIN_TICK));
    assert_eq!(liq.next_initialized_tick(0, false), Some(MAX_TICK));
    assert_eq!(liq.next_initialized_tick(MIN_TICK, true), Some(MIN_TICK));
    assert_eq!(liq.next_initialized_tick(MIN_TICK - 1, true), None);
    assert_eq!(liq.next_initialized_tick(MAX_TICK - 1, false), Some(MAX_TICK));
    assert_eq!(liq.next_initialized_tick(MAX_TICK, false), None);

    // a set bit outside the tick range is not a tick
    let mut stray = empty(200, 0);
    stray.update_tick_bitmap(17, U256::zero().with_bit(200));
    assert_eq!(stray.next_initialized_tick(MAX_TICK, true), None);
    assert_eq!(stray.next_initialized_tick(0, false), None);
    let none = empty(0, 0);
    assert_eq!(none.next_initialized_tick(0, true), None);
}

#[test]
fn extend_merges_and_newer_wins() {
    let mut liq = empty(60, 0);
    liq.update_liquidity(-60, 60, 10).unwrap();
    let loaded = TickInfo { liquidity_gross: 77, liquidity_net: -77, initialized: true };
    let fresh = TickInfo { liquidity_gross: 5, liquidity_net: 5, initialized: true };
    let newest = TickInfo { liquidity_gross: 6, liquidity_net: 6, initialized: true };
    let word = U256::zero().with_bit(1).with_bit(2).with_bit(255);
    liq.extend(&vec![(60, loaded), (120, fresh), (120, newest)], &vec![(0, word)]);
    assert_eq!(liq.tick_info(60), Some(loaded));
    assert_eq!(liq.tick_info(120), Some(newest));
    assert_eq!(liq.tick_info(-60).unwrap().liquidity_gross, 10);
    assert!(liq.is_bit_set(1));
    assert!(liq.is_bit_set(2));
    assert!(liq.is_bit_set(255));
    assert!(!liq.is_bit_set(0));
    // the word of the negative ticks is untouched
    assert!(liq.is_bit_set(-1));
    assert_eq!(liq.start_liquidity, 10);
    assert_eq!(liq.next_initialized_tick(1000, true), Some(120));
}

#[test]
fn current_point() {
    let liq = BaselineLiquidity::new(
        10,
        -3,
        U256::from_u64(99),
        42,
        HashMap::new(),
        HashMap::new(),
    );
    let point = liq.current();
    assert_eq!(point.tick_spacing, 10);
    assert_eq!(point.current_tick, -3);
    assert_eq!(point.current_sqrt_price, U256::from_u64(99));
    assert_eq!(point.current_liquidity, 42);
    assert_eq!(I256::from_i128(-5).to_i128(), Some(-5));
}
