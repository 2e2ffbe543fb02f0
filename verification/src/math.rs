//! Q64.96 fixed-point arithmetic: tick and square-root-price conversions and
//! the single-step swap kernel.

use vstd::prelude::*;
use crate::errors::SwapSimulationError;
use crate::u256::{I256, U256, pow2_255};

verus! {

/// The lowest tick of the supported range.
pub const MIN_TICK: i32 = -887272;

/// The highest tick of the supported range.
pub const MAX_TICK: i32 = 887272;

/// Largest fee of a swap step, in ppm.
pub const MAX_FEE_PIPS: u32 = 1_000_000;

/// The square-root price at the lowest tick.
pub open spec fn min_sqrt_ratio() -> nat {
    4295128739nat
}

/// The square-root price at the highest tick.
pub open spec fn max_sqrt_ratio() -> nat {
    1461446703485210103287273052203988822378723970342nat
}

/// True for the ticks of the supported range.
pub open spec fn tick_in_range(tick: int) -> bool {
    MIN_TICK <= tick <= MAX_TICK
}

/// The lowest valid square-root price.
pub fn min_sqrt_ratio_value() -> (r: U256)
    ensures
        r@ == min_sqrt_ratio(),
{
    U256::from_u64(4295128739)
}

/// The price one above the highest valid square-root price.
pub fn max_sqrt_ratio_value() -> (r: U256)
    ensures
        r@ == max_sqrt_ratio(),
{
    let r = U256::new(6743328256752651558, 17280870778742802505, 4294805859, 0);
    proof {
        U256::lemma_value(r);
    }
    r
}

/// Declares `uniswap_v3_math::error::UniswapV3MathError`, the error of the
/// three calls below, as an opaque type: nothing is said of what it holds.
#[verifier::external_type_specification]
#[verifier::external_body]
pub struct ExUniswapV3MathError(uniswap_v3_math::error::UniswapV3MathError);

/// The square-root price, in Q64.96, at a tick of the supported range.
pub uninterp spec fn sqrt_ratio_at_tick(tick: int) -> nat;

/// The tick of a square-root price, or `None` where the conversion fails.
pub uninterp spec fn tick_at_sqrt_ratio(sqrt_price: nat) -> Option<int>;

/// What one swap step yields: next price, amount in, amount out and fee, or
/// `None` where the arithmetic fails.
pub uninterp spec fn swap_step_of(
    sqrt_price_current: nat,
    sqrt_price_target: nat,
    liquidity: nat,
    amount_remaining: int,
    fee_pips: nat,
) -> Option<(nat, nat, nat, nat)>;

/// Calls `uniswap_v3_math::tick_math::get_sqrt_ratio_at_tick`. That function
/// fails only for a tick outside the supported range, which `requires` leaves
/// out; the contract names its result.
#[verifier::external_body]
fn get_sqrt_ratio_at_tick(tick: i32) -> (r: Result<U256, uniswap_v3_math::error::UniswapV3MathError>)
    requires
        tick_in_range(tick as int),
    ensures
        r is Ok,
        r->Ok_0@ == sqrt_ratio_at_tick(tick as int),
{
    let p = uniswap_v3_math::tick_math::get_sqrt_ratio_at_tick(tick)?;
    let l = p.into_limbs();
    Ok(U256 { l0: l[0], l1: l[1], l2: l[2], l3: l[3] })
}

/// Calls `uniswap_v3_math::tick_math::get_tick_at_sqrt_ratio`. The contract
/// names its result and adds that a price outside
/// `[min_sqrt_ratio, max_sqrt_ratio)` is rejected.
#[verifier::external_body]
fn get_tick_at_sqrt_ratio(sqrt_price: U256) -> (r: Result<
    i32,
    uniswap_v3_math::error::UniswapV3MathError,
>)
    ensures
        match r {
            Ok(tick) => tick_at_sqrt_ratio(sqrt_price@) == Some(tick as int),
            Err(_) => tick_at_sqrt_ratio(sqrt_price@) is None,
        },
        !(min_sqrt_ratio() <= sqrt_price@ < max_sqrt_ratio()) ==> r is Err,
{
    let p = alloy_primitives::U256::from_limbs(
        [sqrt_price.l0, sqrt_price.l1, sqrt_price.l2, sqrt_price.l3],
    );
    uniswap_v3_math::tick_math::get_tick_at_sqrt_ratio(p)
}

/// Calls `uniswap_v3_math::swap_math::compute_swap_step`. `requires` leaves out
/// a fee above 100% and the smallest signed amount, on which that function
/// overflows; the contract names its result.
#[verifier::external_body]
fn swap_step(
    sqrt_price_current: U256,
    sqrt_price_target: U256,
    liquidity: u128,
    amount_remaining: I256,
    fee_pips: u32,
) -> (r: Result<(U256, U256, U256, U256), uniswap_v3_math::error::UniswapV3MathError>)
    requires
        fee_pips <= MAX_FEE_PIPS,
        amount_remaining@ != -pow2_255(),
    ensures
        match r {
            Ok((next, amount_in, amount_out, fee)) => swap_step_of(
                sqrt_price_current@,
                sqrt_price_target@,
                liquidity as nat,
                amount_remaining@,
                fee_pips as nat,
            ) == Some((next@, amount_in@, amount_out@, fee@)),
            Err(_) => swap_step_of(
                sqrt_price_current@,
                sqrt_price_target@,
                liquidity as nat,
                amount_remaining@,
                fee_pips as nat,
            ) is None,
        },
{
    let c = alloy_primitives::U256::from_limbs(sqrt_price_current.limbs());
    let t = alloy_primitives::U256::from_limbs(sqrt_price_target.limbs());
    let a = alloy_primitives::I256::from_raw(
        alloy_primitives::U256::from_limbs(amount_remaining.raw.limbs()),
    );
    let s = uniswap_v3_math::swap_math::compute_swap_step(c, t, liquidity, a, fee_pips)?;
    Ok(
        (
            U256::from_limbs(s.0.into_limbs()),
            U256::from_limbs(s.1.into_limbs()),
            U256::from_limbs(s.2.into_limbs()),
            U256::from_limbs(s.3.into_limbs()),
        ),
    )
}

/// Result of one swap step.
#[derive(Clone, Copy, Debug, PartialEq, Eq, Structural)]
pub struct SwapStep {
    /// Price after the step.
    pub sqrt_price_next: U256,
    /// Amount of the input token that the step takes, fee excluded.
    pub amount_in: U256,
    /// Amount of the output token that the step gives.
    pub amount_out: U256,
    /// Fee taken from the input token.
    pub fee_amount: U256,
}

/// The result of a step as the kernel defines it, over plain numbers.
pub open spec fn spec_swap_step(
    sqrt_price_current: nat,
    sqrt_price_target: nat,
    liquidity: nat,
    amount_remaining: int,
    fee_pips: nat,
) -> Result<(nat, nat, nat, nat), SwapSimulationError> {
    if fee_pips > MAX_FEE_PIPS || amount_remaining == -pow2_255() {
        Err(SwapSimulationError::UniswapV3MathError)
    } else {
        match swap_step_of(
            sqrt_price_current,
            sqrt_price_target,
            liquidity,
            amount_remaining,
            fee_pips,
        ) {
            Some(step) => Ok(step),
            None => Err(SwapSimulationError::UniswapV3MathError),
        }
    }
}

impl SwapStep {
    /// The four numbers of the step.
    pub open spec fn values(self) -> (nat, nat, nat, nat) {
        (self.sqrt_price_next@, self.amount_in@, self.amount_out@, self.fee_amount@)
    }
}

/// The square-root price at a tick; `InvalidTick` exactly for a tick outside
/// `[MIN_TICK, MAX_TICK]`.
pub fn tick_to_sqrt_ratio(tick: i32) -> (r: Result<U256, SwapSimulationError>)
    ensures
        r is Ok <==> tick_in_range(tick as int),
        r is Ok ==> r->Ok_0@ == sqrt_ratio_at_tick(tick as int),
        r is Err ==> r->Err_0 == SwapSimulationError::InvalidTick,
{
    if tick < MIN_TICK || tick > MAX_TICK {
        return Err(SwapSimulationError::InvalidTick);
    }
    match get_sqrt_ratio_at_tick(tick) {
        Ok(p) => Ok(p),
        Err(_) => Err(SwapSimulationError::InvalidTick),
    }
}

/// The tick of a square-root price: the arithmetic error exactly where the
/// conversion is undefined, which includes every price outside
/// `[min_sqrt_ratio, max_sqrt_ratio)`.
pub fn sqrt_ratio_to_tick(sqrt_price: U256) -> (r: Result<i32, SwapSimulationError>)
    ensures
        match r {
            Ok(tick) => tick_at_sqrt_ratio(sqrt_price@) == Some(tick as int),
            Err(e) => e == SwapSimulationError::UniswapV3MathError && tick_at_sqrt_ratio(
                sqrt_price@,
            ) is None,
        },
        !(min_sqrt_ratio() <= sqrt_price@ < max_sqrt_ratio()) ==> r is Err,
{
    match get_tick_at_sqrt_ratio(sqrt_price) {
        Ok(tick) => Ok(tick),
        Err(_) => Err(SwapSimulationError::UniswapV3MathError),
    }
}

/// One step of a swap from the current price towards a target price, with
/// the rounding of the Uniswap v3 arithmetic: the arithmetic error for a fee
/// above 100%, for the smallest signed amount, and where the arithmetic fails.
pub fn compute_swap_step(
    sqrt_price_current: U256,
    sqrt_price_target: U256,
    liquidity: u128,
    amount_remaining: I256,
    fee_pips: u32,
) -> (r: Result<SwapStep, SwapSimulationError>)
    ensures
        match r {
            Ok(step) => spec_swap_step(
                sqrt_price_current@,
                sqrt_price_target@,
                liquidity as nat,
                amount_remaining@,
                fee_pips as nat,
            ) == Ok::<_, SwapSimulationError>(step.values()),
            Err(e) => spec_swap_step(
                sqrt_price_current@,
                sqrt_price_target@,
                liquidity as nat,
                amount_remaining@,
                fee_pips as nat,
            ) == Err::<(nat, nat, nat, nat), _>(e),
        },
{
    if fee_pips > MAX_FEE_PIPS {
        return Err(SwapSimulationError::UniswapV3MathError);
    }
    if amount_remaining.checked_neg().is_none() {
        return Err(SwapSimulationError::UniswapV3MathError);
    }
    match swap_step(sqrt_price_current, sqrt_price_target, liquidity, amount_remaining, fee_pips) {
        Ok((sqrt_price_next, amount_in, amount_out, fee_amount)) => Ok(
            SwapStep { sqrt_price_next, amount_in, amount_out, fee_amount },
        ),
        Err(_) => Err(SwapSimulationError::UniswapV3MathError),
    }
}

} // verus!
