//! The swap simulator: walks the tick ladder of a pool step by step until the
//! amount is used up or the price limit is reached.

use vstd::prelude::*;
use crate::errors::SwapSimulationError;
use crate::fee_config::FeeConfig;
use crate::liquidity_base::{
    BaselineLiquidity, LiquidityAtPoint, LiquidityModel, add_delta, lemma_next_tick_side,
    spec_add_delta, sub_delta,
};
use crate::math::{
    MAX_TICK, MIN_TICK, SwapStep, compute_swap_step, max_sqrt_ratio, max_sqrt_ratio_value, min_sqrt_ratio,
    min_sqrt_ratio_value, spec_swap_step, sqrt_ratio_at_tick, sqrt_ratio_to_tick,
    tick_at_sqrt_ratio, tick_to_sqrt_ratio,
};
use crate::u256::{I256, U256, pow2_255, pow2_256};

verus! {

/// One step of a swap: the price it ended at, what it moved of either token,
/// and the liquidity it ran on.
#[derive(Clone, Copy, Debug, PartialEq, Eq, Structural)]
pub struct PoolSwapStep {
    pub end_price: U256,
    pub d_t0: U256,
    pub d_t1: U256,
    pub liquidity: u128,
}

/// A step of a swap over plain numbers.
pub struct StepModel {
    pub end_price: nat,
    pub d_t0: nat,
    pub d_t1: nat,
    pub liquidity: nat,
}

impl View for PoolSwapStep {
    type V = StepModel;

    open spec fn view(&self) -> StepModel {
        StepModel {
            end_price: self.end_price@,
            d_t0: self.d_t0@,
            d_t1: self.d_t1@,
            liquidity: self.liquidity as nat,
        }
    }
}

/// The steps of a swap over plain numbers.
pub open spec fn steps_model(steps: Seq<PoolSwapStep>) -> Seq<StepModel> {
    steps.map_values(|s: PoolSwapStep| s@)
}

/// Where a swap stands between two steps.
pub struct SwapState {
    pub price: nat,
    pub tick: int,
    pub liquidity: nat,
    /// What is left of the amount to swap.
    pub remaining: nat,
    pub total_d_t0: nat,
    pub total_d_t1: nat,
    pub steps: Seq<StepModel>,
}

/// A swap is over when its amount is used up or its price limit is reached.
pub open spec fn swap_done(st: SwapState, limit: nat) -> bool {
    st.remaining == 0 || st.price == limit
}

/// How many ticks a swap can still cross in its direction.
pub open spec fn swap_measure(zero_for_one: bool, tick: int) -> nat {
    if zero_for_one {
        if tick >= MIN_TICK {
            (tick - MIN_TICK + 1) as nat
        } else {
            0
        }
    } else {
        if tick <= MAX_TICK {
            (MAX_TICK - tick) as nat
        } else {
            0
        }
    }
}

/// Where a swap stands, without the record of its steps.
pub struct SwapPoint {
    pub price: nat,
    pub tick: int,
    pub liquidity: nat,
    pub remaining: nat,
    pub total_d_t0: nat,
    pub total_d_t1: nat,
}

/// The price that a step heads for: that of the next tick, but no further
/// than the price limit.
pub open spec fn step_target(zero_for_one: bool, tick_price: nat, limit: nat) -> nat {
    if zero_for_one {
        if tick_price < limit {
            limit
        } else {
            tick_price
        }
    } else {
        if tick_price > limit {
            limit
        } else {
            tick_price
        }
    }
}

/// What a step of the kernel makes of a swap. `step` holds the price after
/// the step, the amount in, the amount out and the fee. The input side of
/// the swap pays amount in plus fee, the output side receives amount out; an
/// exact-input swap uses up what it pays, an exact-output swap what it
/// receives. A step that ends at the price of the tick it headed for lands
/// there: the tick becomes the current tick (going up) or the tick below it
/// becomes the current tick (going down), and where the tick is initialized,
/// its net liquidity `crossed_net` enters (going up) or leaves (going down)
/// the liquidity in range. A step that stops short moves the tick to
/// `tick_of_price`, the tick of the new price, if the price moved at all.
/// Amounts that do not fit their type, a step that uses more than is left,
/// and a missing tick of the new price are arithmetic failures.
pub open spec fn spec_settle_step(
    point: SwapPoint,
    step: (nat, nat, nat, nat),
    zero_for_one: bool,
    exact_in: bool,
    tick_next: int,
    tick_price: nat,
    crossed_net: Option<int>,
    tick_of_price: Option<int>,
) -> Result<(SwapPoint, StepModel, bool), SwapSimulationError> {
    let (next, amount_in, amount_out, fee) = step;
    let paid = amount_in + fee;
    let used = if exact_in {
        paid
    } else {
        amount_out
    };
    let d_t0 = if zero_for_one {
        paid
    } else {
        amount_out
    };
    let d_t1 = if zero_for_one {
        amount_out
    } else {
        paid
    };
    if paid >= pow2_256() || used > point.remaining || point.total_d_t0 + d_t0 >= pow2_256()
        || point.total_d_t1 + d_t1 >= pow2_256() {
        Err(SwapSimulationError::UniswapV3MathError)
    } else {
        let landed = next == tick_price;
        let crossed = if landed && crossed_net is Some {
            spec_add_delta(
                point.liquidity,
                if zero_for_one {
                    -crossed_net->Some_0
                } else {
                    crossed_net->Some_0
                },
            )
        } else {
            Ok(point.liquidity)
        };
        let moved: Option<int> = if landed {
            Some(
                if zero_for_one {
                    tick_next - 1
                } else {
                    tick_next
                },
            )
        } else if next != point.price {
            tick_of_price
        } else {
            Some(point.tick)
        };
        if crossed is Err {
            Err(crossed->Err_0)
        } else if moved is None || moved->Some_0 < i32::MIN || moved->Some_0 > i32::MAX {
            Err(SwapSimulationError::UniswapV3MathError)
        } else {
            Ok(
                (
                    SwapPoint {
                        price: next,
                        tick: moved->Some_0,
                        liquidity: crossed->Ok_0,
                        remaining: (point.remaining - used) as nat,
                        total_d_t0: point.total_d_t0 + d_t0,
                        total_d_t1: point.total_d_t1 + d_t1,
                    },
                    StepModel { end_price: next, d_t0, d_t1, liquidity: point.liquidity },
                    landed,
                ),
            )
        }
    }
}

/// The point at which a state stands.
pub open spec fn point_of(st: SwapState) -> SwapPoint {
    SwapPoint {
        price: st.price,
        tick: st.tick,
        liquidity: st.liquidity,
        remaining: st.remaining,
        total_d_t0: st.total_d_t0,
        total_d_t1: st.total_d_t1,
    }
}

/// One step of a swap: the state after it and whether the step landed on the
/// tick it was heading for. The step runs from the current price towards the
/// next initialized tick in the direction of the swap (the bound of the tick
/// range where there is none), but no further than the price limit.
#[verifier::opaque]
pub open spec fn swap_iteration(
    m: LiquidityModel,
    zero_for_one: bool,
    exact_in: bool,
    limit: nat,
    fee_pips: nat,
    st: SwapState,
) -> Result<(SwapState, bool), SwapSimulationError> {
    if (zero_for_one && st.tick < MIN_TICK) || (!zero_for_one && st.tick >= MAX_TICK) {
        Err(SwapSimulationError::InvalidTick)
    } else {
        let found = m.next_tick(st.tick, zero_for_one);
        let tick_next: int = match found {
            Some(t) => t,
            None => if zero_for_one {
                MIN_TICK as int
            } else {
                MAX_TICK as int
            },
        };
        let tick_price = sqrt_ratio_at_tick(tick_next);
        let signed: int = if exact_in {
            st.remaining as int
        } else {
            -(st.remaining as int)
        };
        match spec_swap_step(
            st.price,
            step_target(zero_for_one, tick_price, limit),
            st.liquidity,
            signed,
            fee_pips,
        ) {
            Err(e) => Err(e),
            Ok(step) => match spec_settle_step(
                point_of(st),
                step,
                zero_for_one,
                exact_in,
                tick_next,
                tick_price,
                match found {
                    Some(_) => Some(m.net(tick_next)),
                    None => None,
                },
                if step.0 != tick_price && step.0 != st.price {
                    tick_at_sqrt_ratio(step.0)
                } else {
                    None
                },
            ) {
                Err(e) => Err(e),
                Ok((point, record, landed)) => Ok(
                    (
                        SwapState {
                            price: point.price,
                            tick: point.tick,
                            liquidity: point.liquidity,
                            remaining: point.remaining,
                            total_d_t0: point.total_d_t0,
                            total_d_t1: point.total_d_t1,
                            steps: st.steps.push(record),
                        },
                        landed,
                    ),
                ),
            },
        }
    }
}

/// The state in which a swap ends: steps are taken until the amount is used
/// up or the price limit is reached. A step that stops short of its tick
/// without ending the swap is an arithmetic failure.
pub open spec fn swap_loop(
    m: LiquidityModel,
    zero_for_one: bool,
    exact_in: bool,
    limit: nat,
    fee_pips: nat,
    st: SwapState,
) -> Result<SwapState, SwapSimulationError>
    decreases swap_measure(zero_for_one, st.tick),
{
    if swap_done(st, limit) {
        Ok(st)
    } else {
        match swap_iteration(m, zero_for_one, exact_in, limit, fee_pips, st) {
            Err(e) => Err(e),
            Ok((after, landed)) => {
                if swap_done(after, limit) {
                    Ok(after)
                } else if !landed {
                    Err(SwapSimulationError::UniswapV3MathError)
                } else {
                    proof {
                        reveal(swap_iteration);
                        lemma_next_tick_side(m, st.tick, zero_for_one);
                    }
                    swap_loop(m, zero_for_one, exact_in, limit, fee_pips, after)
                }
            },
        }
    }
}

/// The outcome of a swap over plain numbers.
pub struct SwapOutcome {
    pub start_price: nat,
    pub start_tick: int,
    pub end_price: nat,
    pub end_tick: int,
    pub total_d_t0: nat,
    pub total_d_t1: nat,
    pub steps: Seq<StepModel>,
    pub end_liquidity: nat,
}

/// The outcome of a swap from the state in which its steps ended: the tax,
/// where there is one, comes off the token0 total, and a tax above that total
/// is `LiquidityUnderflow`.
pub open spec fn swap_outcome(
    m: LiquidityModel,
    looped: Result<SwapState, SwapSimulationError>,
    mev_tax: Option<nat>,
) -> Result<SwapOutcome, SwapSimulationError> {
    match looped {
        Err(e) => Err(e),
        Ok(end) => {
            let tax: nat = match mev_tax {
                Some(t) => t,
                None => 0,
            };
            if tax > end.total_d_t0 {
                Err(SwapSimulationError::LiquidityUnderflow)
            } else {
                Ok(
                    SwapOutcome {
                        start_price: m.sqrt_price,
                        start_tick: m.tick,
                        end_price: end.price,
                        end_tick: end.tick,
                        total_d_t0: (end.total_d_t0 - tax) as nat,
                        total_d_t1: end.total_d_t1,
                        steps: end.steps,
                        end_liquidity: end.liquidity,
                    },
                )
            }
        },
    }
}

/// The price limit of a swap: the one asked for, or the end of the valid
/// price range in the direction of the swap.
pub open spec fn effective_limit(zero_for_one: bool, target_price: Option<nat>) -> nat {
    match target_price {
        Some(p) => p,
        None => if zero_for_one {
            min_sqrt_ratio() + 1
        } else {
            (max_sqrt_ratio() - 1) as nat
        },
    }
}

/// True when a price limit lies on the side of the current price that the
/// swap moves to, within the valid price range.
pub open spec fn limit_on_side(zero_for_one: bool, current: nat, limit: nat) -> bool {
    if zero_for_one {
        min_sqrt_ratio() <= limit <= current
    } else {
        current <= limit <= max_sqrt_ratio()
    }
}

/// What a swap on a liquidity map yields. `amount` is signed: positive for
/// an exact input, negative for an exact output. `fee` is the total fee of
/// the swap in ppm, and `mev_tax`, where given, is taken off the token0 delta
/// at the end.
pub open spec fn spec_swap(
    m: LiquidityModel,
    amount: int,
    zero_for_one: bool,
    target_price: Option<nat>,
    fee: int,
    mev_tax: Option<nat>,
) -> Result<SwapOutcome, SwapSimulationError> {
    let limit = effective_limit(zero_for_one, target_price);
    if amount == 0 {
        Err(SwapSimulationError::ZeroAmountSpecified)
    } else if !limit_on_side(zero_for_one, m.sqrt_price, limit) {
        Err(SwapSimulationError::InvalidSqrtPriceLimit)
    } else if fee < 0 || fee > u32::MAX {
        Err(SwapSimulationError::UniswapV3MathError)
    } else {
        let start = SwapState {
            price: m.sqrt_price,
            tick: m.tick,
            liquidity: m.liquidity,
            remaining: (if amount < 0 {
                -amount
            } else {
                amount
            }) as nat,
            total_d_t0: 0,
            total_d_t1: 0,
            steps: Seq::empty(),
        };
        swap_outcome(
            m,
            swap_loop(m, zero_for_one, amount > 0, limit, fee as nat, start),
            mev_tax,
        )
    }
}

/// The numbers that a swap carries from step to step.
#[derive(Clone, Copy, Debug, PartialEq, Eq, Structural)]
pub struct SwapCursor {
    pub price: U256,
    pub tick: i32,
    pub liquidity: u128,
    /// What is left of the amount to swap.
    pub remaining: U256,
    pub total_d_t0: U256,
    pub total_d_t1: U256,
}

impl View for SwapCursor {
    type V = SwapPoint;

    open spec fn view(&self) -> SwapPoint {
        SwapPoint {
            price: self.price@,
            tick: self.tick as int,
            liquidity: self.liquidity as nat,
            remaining: self.remaining@,
            total_d_t0: self.total_d_t0@,
            total_d_t1: self.total_d_t1@,
        }
    }
}

/// The view of an optional number.
pub open spec fn int_view<A: Integer>(value: Option<A>) -> Option<int> {
    match value {
        Some(v) => Some(v as int),
        None => None,
    }
}

/// Takes the result of a kernel step into a swap: moves the amounts, lands
/// on or stops short of the tick that the step headed for, and records the
/// step.
pub fn settle_step(
    cursor: &SwapCursor,
    step: &SwapStep,
    zero_for_one: bool,
    exact_in: bool,
    tick_next: i32,
    tick_price: &U256,
    crossed_net: Option<i128>,
    tick_of_price: Option<i32>,
) -> (r: Result<(SwapCursor, PoolSwapStep, bool), SwapSimulationError>)
    ensures
        match r {
            Ok((after, record, landed)) => spec_settle_step(
                cursor@,
                step.values(),
                zero_for_one,
                exact_in,
                tick_next as int,
                tick_price@,
                int_view(crossed_net),
                int_view(tick_of_price),
            ) == Ok::<(SwapPoint, StepModel, bool), SwapSimulationError>(
                (after@, record@, landed),
            ),
            Err(e) => spec_settle_step(
                cursor@,
                step.values(),
                zero_for_one,
                exact_in,
                tick_next as int,
                tick_price@,
                int_view(crossed_net),
                int_view(tick_of_price),
            ) == Err::<(SwapPoint, StepModel, bool), SwapSimulationError>(e),
        },
{
    let paid: U256 = match step.amount_in.checked_add(&step.fee_amount) {
        Some(v) => v,
        None => {
            return Err(SwapSimulationError::UniswapV3MathError);
        },
    };
    let used: U256 = if exact_in {
        paid
    } else {
        step.amount_out
    };
    let d_t0: U256 = if zero_for_one {
        paid
    } else {
        step.amount_out
    };
    let d_t1: U256 = if zero_for_one {
        step.amount_out
    } else {
        paid
    };
    let remaining: U256 = match cursor.remaining.checked_sub(&used) {
        Some(v) => v,
        None => {
            return Err(SwapSimulationError::UniswapV3MathError);
        },
    };
    let total_d_t0: U256 = match cursor.total_d_t0.checked_add(&d_t0) {
        Some(v) => v,
        None => {
            return Err(SwapSimulationError::UniswapV3MathError);
        },
    };
    let total_d_t1: U256 = match cursor.total_d_t1.checked_add(&d_t1) {
        Some(v) => v,
        None => {
            return Err(SwapSimulationError::UniswapV3MathError);
        },
    };
    let next: U256 = step.sqrt_price_next;
    let landed: bool = next.is(tick_price);
    let mut liquidity: u128 = cursor.liquidity;
    if landed {
        match crossed_net {
            Some(net) => {
                let crossed = if zero_for_one {
                    sub_delta(cursor.liquidity, net)
                } else {
                    add_delta(cursor.liquidity, net)
                };
                liquidity =
                match crossed {
                    Ok(v) => v,
                    Err(e) => {
                        return Err(e);
                    },
                };
            },
            None => {},
        }
    }
    let tick: i32 = if landed {
        if zero_for_one {
            if tick_next == i32::MIN {
                return Err(SwapSimulationError::UniswapV3MathError);
            }
            tick_next - 1
        } else {
            tick_next
        }
    } else if !next.is(&cursor.price) {
        match tick_of_price {
            Some(t) => t,
            None => {
                return Err(SwapSimulationError::UniswapV3MathError);
            },
        }
    } else {
        cursor.tick
    };
    Ok(
        (
            SwapCursor { price: next, tick, liquidity, remaining, total_d_t0, total_d_t1 },
            PoolSwapStep { end_price: next, d_t0, d_t1, liquidity: cursor.liquidity },
            landed,
        ),
    )
}

/// The state that a cursor and the steps taken so far stand for.
spec fn cursor_state(c: SwapCursor, steps: Seq<PoolSwapStep>) -> SwapState {
    SwapState {
        price: c.price@,
        tick: c.tick as int,
        liquidity: c.liquidity as nat,
        remaining: c.remaining@,
        total_d_t0: c.total_d_t0@,
        total_d_t1: c.total_d_t1@,
        steps: steps_model(steps),
    }
}

/// Takes one step of a swap and records it.
fn step_once(
    liquidity: &BaselineLiquidity,
    zero_for_one: bool,
    exact_in: bool,
    limit: U256,
    fee_pips: u32,
    c: SwapCursor,
    steps: &mut Vec<PoolSwapStep>,
) -> (r: Result<(SwapCursor, bool), SwapSimulationError>)
    requires
        c.remaining@ <= pow2_255(),
        exact_in ==> c.remaining@ < pow2_255(),
    ensures
        match r {
            Ok((after, landed)) => swap_iteration(
                liquidity@,
                zero_for_one,
                exact_in,
                limit@,
                fee_pips as nat,
                cursor_state(c, old(steps)@),
            ) == Ok::<(SwapState, bool), SwapSimulationError>(
                (cursor_state(after, final(steps)@), landed),
            ) && after.remaining@ <= c.remaining@ && (landed ==> swap_measure(
                zero_for_one,
                after.tick as int,
            ) < swap_measure(zero_for_one, c.tick as int)),
            Err(e) => swap_iteration(
                liquidity@,
                zero_for_one,
                exact_in,
                limit@,
                fee_pips as nat,
                cursor_state(c, old(steps)@),
            ) == Err::<(SwapState, bool), SwapSimulationError>(e),
        },
{
    reveal(swap_iteration);
    if (zero_for_one && c.tick < MIN_TICK) || (!zero_for_one && c.tick >= MAX_TICK) {
        return Err(SwapSimulationError::InvalidTick);
    }
    let found: Option<i32> = liquidity.next_initialized_tick(c.tick, zero_for_one);
    let tick_next: i32 = match found {
        Some(t) => t,
        None => if zero_for_one {
            MIN_TICK
        } else {
            MAX_TICK
        },
    };
    let tick_price: U256 = match tick_to_sqrt_ratio(tick_next) {
        Ok(p) => p,
        Err(e) => {
            return Err(e);
        },
    };
    let target: U256 = if zero_for_one {
        if tick_price.lt(&limit) {
            limit
        } else {
            tick_price
        }
    } else {
        if tick_price.gt(&limit) {
            limit
        } else {
            tick_price
        }
    };
    let magnitude: I256 = match I256::from_magnitude(c.remaining) {
        Some(v) => v,
        None => {
            return Err(SwapSimulationError::UniswapV3MathError);
        },
    };
    let signed: I256 = if exact_in {
        magnitude
    } else {
        match magnitude.checked_neg() {
            Some(v) => v,
            None => {
                return Err(SwapSimulationError::UniswapV3MathError);
            },
        }
    };
    let step = match compute_swap_step(c.price, target, c.liquidity, signed, fee_pips) {
        Ok(step) => step,
        Err(e) => {
            return Err(e);
        },
    };
    let crossed_net: Option<i128> = match found {
        Some(_) => Some(liquidity.liquidity_net(tick_next)),
        None => None,
    };
    let tick_of_price: Option<i32> = if !step.sqrt_price_next.is(&tick_price)
        && !step.sqrt_price_next.is(&c.price) {
        match sqrt_ratio_to_tick(step.sqrt_price_next) {
            Ok(t) => Some(t),
            Err(_) => None,
        }
    } else {
        None
    };
    match settle_step(
        &c,
        &step,
        zero_for_one,
        exact_in,
        tick_next,
        &tick_price,
        crossed_net,
        tick_of_price,
    ) {
        Ok((after, record, landed)) => {
            steps.push(record);
            proof {
                assert(steps_model(final(steps)@) =~= steps_model(old(steps)@).push(record@));
            }
            Ok((after, landed))
        },
        Err(e) => Err(e),
    }
}

/// What a swap simulation found.
#[derive(Clone, Debug)]
pub struct PoolSwapResult<F: FeeConfig> {
    /// Fee configuration that the swap ran under.
    pub fee_config: F,
    pub start_price: U256,
    pub start_tick: i32,
    pub end_price: U256,
    pub end_tick: i32,
    /// Total moved of token0, MEV tax taken off.
    pub total_d_t0: U256,
    /// Total moved of token1.
    pub total_d_t1: U256,
    pub steps: Vec<PoolSwapStep>,
    /// The state of the pool where the swap ended.
    pub end_liquidity: LiquidityAtPoint,
    pub is_bundle: bool,
}

impl<F: FeeConfig> View for PoolSwapResult<F> {
    type V = SwapOutcome;

    open spec fn view(&self) -> SwapOutcome {
        SwapOutcome {
            start_price: self.start_price@,
            start_tick: self.start_tick as int,
            end_price: self.end_price@,
            end_tick: self.end_tick as int,
            total_d_t0: self.total_d_t0@,
            total_d_t1: self.total_d_t1@,
            steps: steps_model(self.steps@),
            end_liquidity: self.end_liquidity.current_liquidity as nat,
        }
    }
}

impl<F: FeeConfig> PoolSwapResult<F> {
    /// The final state repeats the end of the swap.
    pub open spec fn wf(&self) -> bool {
        &&& self.end_liquidity.current_tick == self.end_tick
        &&& self.end_liquidity.current_sqrt_price == self.end_price
    }
}

/// The view of an optional price.
pub open spec fn price_view(price: Option<U256>) -> Option<nat> {
    match price {
        Some(p) => Some(p@),
        None => None,
    }
}

/// The view of an optional tax amount.
pub open spec fn tax_view(tax: Option<U256>) -> Option<nat> {
    match tax {
        Some(t) => Some(t@),
        None => None,
    }
}

/// A swap to simulate on a liquidity map.
pub struct PoolSwap<'a, F: FeeConfig> {
    pub liquidity: &'a BaselineLiquidity,
    /// Signed amount: positive for an exact input, negative for an exact
    /// output.
    pub target_amount: I256,
    /// Price at which the swap stops, if any.
    pub target_price: Option<U256>,
    /// True for a swap of token0 for token1, which moves the price down.
    pub direction: bool,
    pub fee_config: F,
    pub is_bundle: bool,
    /// Tax to take off the token0 delta at the end, if any.
    pub mev_tax_amount: Option<U256>,
}

impl<'a, F: FeeConfig> PoolSwap<'a, F> {
    /// What this swap yields.
    pub open spec fn spec_result(&self) -> Result<SwapOutcome, SwapSimulationError> {
        spec_swap(
            self.liquidity@,
            self.target_amount@,
            self.direction,
            price_view(self.target_price),
            self.fee_config.spec_fee(self.is_bundle),
            tax_view(self.mev_tax_amount),
        )
    }

    /// Runs the simulation. The pool is not changed.
    pub fn swap(self) -> (r: Result<PoolSwapResult<F>, SwapSimulationError>)
        ensures
            match r {
                Ok(res) => {
                    &&& self.spec_result() == Ok::<SwapOutcome, SwapSimulationError>(res@)
                    &&& res.wf()
                    &&& res.fee_config == self.fee_config
                    &&& res.is_bundle == self.is_bundle
                    &&& res.end_liquidity.tick_spacing == self.liquidity.tick_spacing
                },
                Err(e) => self.spec_result() == Err::<SwapOutcome, SwapSimulationError>(e),
            },
    {
        let zero_for_one: bool = self.direction;
        if self.target_amount.is_zero() {
            return Err(SwapSimulationError::ZeroAmountSpecified);
        }
        let one = U256::from_u64(1);
        let limit: U256 = match self.target_price {
            Some(p) => p,
            None => if zero_for_one {
                min_sqrt_ratio_value().checked_add(&one).unwrap()
            } else {
                max_sqrt_ratio_value().checked_sub(&one).unwrap()
            },
        };
        let start_price: U256 = self.liquidity.start_sqrt_price;
        let on_side: bool = if zero_for_one {
            min_sqrt_ratio_value().le(&limit) && limit.le(&start_price)
        } else {
            start_price.le(&limit) && limit.le(&max_sqrt_ratio_value())
        };
        if !on_side {
            return Err(SwapSimulationError::InvalidSqrtPriceLimit);
        }
        let fee_pips: u32 = match self.fee_config.checked_fee(self.is_bundle) {
            Some(fee) => fee,
            None => {
                return Err(SwapSimulationError::UniswapV3MathError);
            },
        };
        let exact_in: bool = self.target_amount.is_positive();
        let mut c = SwapCursor {
            price: start_price,
            tick: self.liquidity.start_tick,
            liquidity: self.liquidity.start_liquidity,
            remaining: self.target_amount.unsigned_abs(),
            total_d_t0: U256::zero(),
            total_d_t1: U256::zero(),
        };
        let mut steps: Vec<PoolSwapStep> = Vec::new();
        let ghost start = cursor_state(c, steps@);
        proof {
            assert(steps_model(steps@) =~= Seq::<StepModel>::empty());
            I256::lemma_range(self.target_amount);
        }
        loop
            invariant_except_break
                c.remaining@ <= pow2_255(),
                exact_in ==> c.remaining@ < pow2_255(),
                self.spec_result() == swap_outcome(
                    self.liquidity@,
                    swap_loop(
                        self.liquidity@,
                        zero_for_one,
                        exact_in,
                        limit@,
                        fee_pips as nat,
                        start,
                    ),
                    tax_view(self.mev_tax_amount),
                ),
                swap_loop(
                    self.liquidity@,
                    zero_for_one,
                    exact_in,
                    limit@,
                    fee_pips as nat,
                    start,
                ) == swap_loop(
                    self.liquidity@,
                    zero_for_one,
                    exact_in,
                    limit@,
                    fee_pips as nat,
                    cursor_state(c, steps@),
                ),
            ensures
                swap_loop(
                    self.liquidity@,
                    zero_for_one,
                    exact_in,
                    limit@,
                    fee_pips as nat,
                    start,
                ) == Ok::<SwapState, SwapSimulationError>(cursor_state(c, steps@)),
            decreases swap_measure(zero_for_one, c.tick as int),
        {
            if c.remaining.is_zero() || c.price.is(&limit) {
                break ;
            }
            match step_once(self.liquidity, zero_for_one, exact_in, limit, fee_pips, c, &mut steps) {
                Err(e) => {
                    return Err(e);
                },
                Ok((after, landed)) => {
                    c = after;
                    if c.remaining.is_zero() || c.price.is(&limit) {
                        break ;
                    }
                    if !landed {
                        return Err(SwapSimulationError::UniswapV3MathError);
                    }
                },
            }
        }
        let total_d_t0: U256 = match self.mev_tax_amount {
            Some(tax) => match c.total_d_t0.checked_sub(&tax) {
                Some(v) => v,
                None => {
                    return Err(SwapSimulationError::LiquidityUnderflow);
                },
            },
            None => c.total_d_t0,
        };
        Ok(
            PoolSwapResult {
                fee_config: self.fee_config,
                start_price,
                start_tick: self.liquidity.start_tick,
                end_price: c.price,
                end_tick: c.tick,
                total_d_t0,
                total_d_t1: c.total_d_t1,
                steps,
                end_liquidity: LiquidityAtPoint {
                    tick_spacing: self.liquidity.tick_spacing,
                    current_tick: c.tick,
                    current_sqrt_price: c.price,
                    current_liquidity: c.liquidity,
                },
                is_bundle: self.is_bundle,
            },
        )
    }
}

} // verus!
