use std::collections::HashMap;

use uni_v4::fee_config::L1FeeConfiguration;
use uni_v4::liquidity_base::BaselineLiquidity;
use uni_v4::network::Ethereum;
use uni_v4::pool_state::BaselinePoolState;
use uni_v4::pools::UniswapPools;
use uni_v4::primitives::{Address, B256};
use uni_v4::errors::{
    i128_to_i256, i256_to_i128, i32_to_i24, ConversionError, PoolError, SwapSimulationError,
};
use uni_v4::math::SwapStep;
use uni_v4::pool_swap::{settle_step, PoolSwapStep, SwapCursor};
use uni_v4::u256::{I256, U256};

fn n(x: u64) -> U256 {
    U256::from_u64(x)
}

fn cursor() -> SwapCursor {
    SwapCursor {
        price: n(1000),
        tick: 5,
        liquidity: 100,
        remaining: n(500),
        total_d_t0: n(10),
        total_d_t1: n(20),
    }
}

fn step(next: u64, amount_in: u64, amount_out: u64, fee: u64) -> SwapStep {
    SwapStep {
        sqrt_price_next: n(next),
        amount_in: n(amount_in),
        amount_out: n(amount_out),
        fee_amount: n(fee),
    }
}

#[test]
fn landing_going_down_crosses_the_tick() {
    let (after, record, landed) =
        settle_step(&cursor(), &step(900, 30, 25, 2), true, true, -60, &n(900), Some(40), None)
            .unwrap();
    assert!(landed);
    assert_eq!(
        after,
        SwapCursor {
            price: n(900),
            tick: -61,
            liquidity: 60,
            remaining: n(468),
            total_d_t0: n(42),
            total_d_t1: n(45),
        }
    );
    assert_eq!(
        record,
        PoolSwapStep { end_price: n(900), d_t0: n(32), d_t1: n(25), liquidity: 100 }
    );
    // a negative net liquidity enters going down
    let (after, _, _) =
        settle_step(&cursor(), &step(900, 30, 25, 2), true, true, -60, &n(900), Some(-40), None)
            .unwrap();
    assert_eq!(after.liquidity, 140);
}

#[test]
fn landing_going_up_crosses_the_tick() {
    let (after, record, landed) =
        settle_step(&cursor(), &step(1100, 30, 25, 2), false, true, 60, &n(1100), Some(40), None)
            .unwrap();
    assert!(landed);
    assert_eq!(after.tick, 60);
    assert_eq!(after.liquidity, 140);
    assert_eq!(after.remaining, n(468));
    // going up the input is token1
    assert_eq!((after.total_d_t0, after.total_d_t1), (n(35), n(52)));
    assert_eq!((record.d_t0, record.d_t1), (n(25), n(32)));
}

#[test]
fn landing_on_the_bound_of_the_range_crosses_nothing() {
    let (after, _, landed) =
        settle_step(&cursor(), &step(900, 30, 25, 2), true, true, -887272, &n(900), None, None)
            .unwrap();
    assert!(landed);
    assert_eq!(after.tick, -887273);
    assert_eq!(after.liquidity, 100);
}

#[test]
fn exact_output_uses_up_what_it_receives() {
    let (after, record, _) =
        settle_step(&cursor(), &step(900, 30, 25, 2), true, false, -60, &n(900), None, None)
            .unwrap();
    assert_eq!(after.remaining, n(475));
    assert_eq!((record.d_t0, record.d_t1), (n(32), n(25)));
}

#[test]
fn stopping_short_moves_to_the_tick_of_the_price() {
    let (after, _, landed) =
        settle_step(&cursor(), &step(950, 498, 25, 2), true, true, -60, &n(900), Some(40), Some(-30))
            .unwrap();
    assert!(!landed);
    assert_eq!(after.tick, -30);
    assert_eq!(after.price, n(950));
    // the tick was not reached: its liquidity stays out of it
    assert_eq!(after.liquidity, 100);
    assert_eq!(after.remaining, n(0));
    // without the tick of the new price the step fails
    let failed =
        settle_step(&cursor(), &step(950, 498, 25, 2), true, true, -60, &n(900), Some(40), None);
    assert_eq!(failed, Err(SwapSimulationError::UniswapV3MathError));
    // a price that did not move keeps the tick
    let (after, _, landed) =
        settle_step(&cursor(), &step(1000, 0, 0, 0), true, true, -60, &n(900), Some(40), None)
            .unwrap();
    assert!(!landed);
    assert_eq!(after.tick, 5);
    assert_eq!(after, SwapCursor { ..cursor() });
}

#[test]
fn steps_that_do_not_add_up_fail() {
    // more than is left
    let r = settle_step(&cursor(), &step(900, 499, 25, 2), true, true, -60, &n(900), None, None);
    assert_eq!(r, Err(SwapSimulationError::UniswapV3MathError));
    let r = settle_step(&cursor(), &step(900, 1, 501, 0), true, false, -60, &n(900), None, None);
    assert_eq!(r, Err(SwapSimulationError::UniswapV3MathError));
    // amount in plus fee beyond 256 bits
    let huge = SwapStep {
        sqrt_price_next: n(900),
        amount_in: U256::max_value(),
        amount_out: n(0),
        fee_amount: n(1),
    };
    let r = settle_step(&cursor(), &huge, true, false, -60, &n(900), None, None);
    assert_eq!(r, Err(SwapSimulationError::UniswapV3MathError));
    // totals beyond 256 bits
    let mut full = cursor();
    full.total_d_t1 = U256::max_value();
    let r = settle_step(&full, &step(900, 30, 25, 2), true, true, -60, &n(900), None, None);
    assert_eq!(r, Err(SwapSimulationError::UniswapV3MathError));
    // crossing a tick that takes more liquidity than is in range
    let r = settle_step(&cursor(), &step(900, 30, 25, 2), true, true, -60, &n(900), Some(101), None);
    assert_eq!(r, Err(SwapSimulationError::LiquidityUnderflow));
    let r = settle_step(&cursor(), &step(1100, 30, 25, 2), false, true, 60, &n(1100), Some(-101), None);
    assert_eq!(r, Err(SwapSimulationError::LiquidityUnderflow));
    let mut brimming = cursor();
    brimming.liquidity = u128::MAX;
    let r = settle_step(&brimming, &step(1100, 30, 25, 2), false, true, 60, &n(1100), Some(1), None);
    assert_eq!(r, Err(SwapSimulationError::UniswapV3MathError));
    let r = settle_step(&cursor(), &step(900, 30, 25, 2), true, true, i32::MIN, &n(900), None, None);
    assert_eq!(r, Err(SwapSimulationError::UniswapV3MathError));
}

#[test]
fn conversions_between_widths() {
    assert_eq!(i128_to_i256(-7), I256::from_i128(-7));
    assert_eq!(i256_to_i128(I256::from_i128(i128::MIN)), Ok(i128::MIN));
    assert_eq!(
        i256_to_i128(I256::max_value()),
        Err(ConversionError::OverflowErrorI28(I256::max_value()))
    );
    assert_eq!(i32_to_i24(8388607), Ok(8388607));
    assert_eq!(i32_to_i24(-8388608), Ok(-8388608));
    assert_eq!(i32_to_i24(8388608), Err(ConversionError::OverflowErrorI24(8388608)));
    assert_eq!(i32_to_i24(-8388609), Err(ConversionError::OverflowErrorI24(-8388609)));
}

#[test]
fn pools_that_must_or_must_not_be_there() {
    let pool = || {
        BaselinePoolState::new(
            BaselineLiquidity::new(60, 0, n(1), 0, HashMap::new(), HashMap::new()),
            1,
            L1FeeConfiguration { bundle_fee: 0, swap_fee: 0, protocol_fee: 0 },
            Address::zero(),
            Address::zero(),
            18,
            18,
        )
    };
    let mut pools: UniswapPools<Ethereum> = UniswapPools::new(1);
    assert!(matches!(pools.initialized_pool(&B256::zero()), Err(PoolError::PoolNotInitialized)));
    assert!(pools.initialize_pool(B256::zero(), pool()).is_ok());
    assert!(matches!(
        pools.initialize_pool(B256::zero(), pool()),
        Err(PoolError::PoolAlreadyInitialized)
    ));
    assert!(pools.initialized_pool(&B256::zero()).is_ok());
    assert!(pools.check_valid());
    let state = pools.get_pool_mut(&B256::zero()).unwrap();
    state.update_slot0(3, n(2), 4);
    assert_eq!(pools.get_pool(&B256::zero()).unwrap().current_tick(), 3);
    assert!(pools.get_pool_mut(&B256::new([1; 32])).is_none());
    assert_eq!(pools.get_pools_mut().len(), 1);
}
