//! The state of one pool and the entry points of the swap simulator.

use vstd::prelude::*;
use crate::errors::SwapSimulationError;
use crate::fee_config::FeeConfig;
use crate::liquidity_base::{BaselineLiquidity, LiquidityModel, SqrtPriceX96};
use crate::pool_swap::{
    PoolSwap, PoolSwapResult, PoolSwapStep, StepModel, SwapOutcome, price_view, spec_swap,
    steps_model,
};
use crate::primitives::Address;
use crate::u256::{I256, U256, pow2_255};

verus! {

/// A pool: its liquidity map, its fee configuration, the block of its last
/// snapshot and its two tokens.
#[derive(Clone, Debug)]
pub struct BaselinePoolState<F: FeeConfig> {
    pub liquidity: BaselineLiquidity,
    pub block: u64,
    pub fee_config: F,
    pub token0: Address,
    pub token1: Address,
    pub token0_decimals: u8,
    pub token1_decimals: u8,
}

/// A pool as mathematics.
pub struct PoolModel<F> {
    pub liquidity: LiquidityModel,
    pub block: u64,
    pub fee_config: F,
    pub token0: Address,
    pub token1: Address,
    pub token0_decimals: u8,
    pub token1_decimals: u8,
}

impl<F: FeeConfig> View for BaselinePoolState<F> {
    type V = PoolModel<F>;

    open spec fn view(&self) -> PoolModel<F> {
        PoolModel {
            liquidity: self.liquidity@,
            block: self.block,
            fee_config: self.fee_config,
            token0: self.token0,
            token1: self.token1,
            token0_decimals: self.token0_decimals,
            token1_decimals: self.token1_decimals,
        }
    }
}

impl<F: FeeConfig> PoolModel<F> {
    /// The pool with the state at the current tick replaced.
    pub open spec fn with_slot0(self, tick: int, sqrt_price: nat, liquidity: nat) -> PoolModel<F> {
        PoolModel { liquidity: self.liquidity.with_slot0(tick, sqrt_price, liquidity), ..self }
    }

    /// The pool after a liquidity event: the change applied where it fits in
    /// 128 bits and the liquidity map accepts it, the pool as it was otherwise.
    pub open spec fn with_liquidity_event(self, lower: int, upper: int, delta: int) -> PoolModel<F> {
        if i128::MIN <= delta <= i128::MAX {
            PoolModel { liquidity: self.liquidity.update(lower, upper, delta), ..self }
        } else {
            self
        }
    }

    /// The pool after a fee update.
    pub open spec fn with_fee_update(self, update: F::Update) -> PoolModel<F> {
        PoolModel { fee_config: self.fee_config.spec_update(update), ..self }
    }

    /// The pool with freshly loaded tick data merged in.
    pub open spec fn with_new_ticks(
        self,
        ticks: Seq<(i32, crate::tick_info::TickInfo)>,
        words: Seq<(i16, U256)>,
    ) -> PoolModel<F> {
        PoolModel { liquidity: self.liquidity.extended(ticks, words), ..self }
    }
}

/// True when a simulation result is the expected outcome, or the expected
/// error.
pub open spec fn swap_result_is<F: FeeConfig>(
    r: Result<PoolSwapResult<F>, SwapSimulationError>,
    expected: Result<SwapOutcome, SwapSimulationError>,
) -> bool {
    match r {
        Ok(res) => expected == Ok::<SwapOutcome, SwapSimulationError>(res@) && res.wf(),
        Err(e) => expected == Err::<SwapOutcome, SwapSimulationError>(e),
    }
}

impl<F: FeeConfig> BaselinePoolState<F> {
    /// The MEV tax of a swap sent with the given priority fee.
    pub open spec fn spec_tax(&self, priority_fee_wei: Option<u128>) -> Option<nat> {
        match priority_fee_wei {
            Some(p) => Some(self.fee_config.spec_mev_tax(p as nat)),
            None => None,
        }
    }

    /// What a swap on this pool yields.
    pub open spec fn spec_swap(
        &self,
        amount: int,
        direction: bool,
        limit: Option<nat>,
        is_bundle: bool,
        priority_fee_wei: Option<u128>,
    ) -> Result<SwapOutcome, SwapSimulationError> {
        spec_swap(
            self.liquidity@,
            amount,
            direction,
            limit,
            self.fee_config.spec_fee(is_bundle),
            self.spec_tax(priority_fee_wei),
        )
    }

    /// The direction of a swap that moves the price to `price_limit`: token0
    /// for token1 exactly when the price has to fall or stay.
    pub open spec fn spec_direction(&self, price_limit: nat) -> bool {
        self.liquidity@.sqrt_price >= price_limit
    }

    /// The input that a swap to `price_limit` takes, measured by a swap of the
    /// largest amount that stops at that price.
    pub open spec fn spec_measured_input(&self, price_limit: nat, is_bundle: bool) -> Result<
        nat,
        SwapSimulationError,
    > {
        let direction = self.spec_direction(price_limit);
        match self.spec_swap(pow2_255() - 1, direction, Some(price_limit), is_bundle, None) {
            Err(e) => Err(e),
            Ok(measured) => {
                let amount_in = if direction {
                    measured.total_d_t0
                } else {
                    measured.total_d_t1
                };
                if amount_in >= pow2_255() {
                    Err(SwapSimulationError::UniswapV3MathError)
                } else {
                    Ok(amount_in)
                }
            },
        }
    }

    /// What a swap to a price yields: a first swap measures the input that
    /// reaches the price, a second swap of exactly that input gives the
    /// outcome. The tax applies to the second swap only.
    pub open spec fn spec_swap_to_price(
        &self,
        price_limit: nat,
        is_bundle: bool,
        priority_fee_wei: Option<u128>,
    ) -> Result<SwapOutcome, SwapSimulationError> {
        match self.spec_measured_input(price_limit, is_bundle) {
            Err(e) => Err(e),
            Ok(amount_in) => self.spec_swap(
                amount_in as int,
                self.spec_direction(price_limit),
                None,
                is_bundle,
                priority_fee_wei,
            ),
        }
    }

    pub fn new(
        liquidity: BaselineLiquidity,
        block: u64,
        fee_config: F,
        token0: Address,
        token1: Address,
        token0_decimals: u8,
        token1_decimals: u8,
    ) -> (r: Self)
        ensures
            r.liquidity == liquidity,
            r.block == block,
            r.fee_config == fee_config,
            r.token0 == token0,
            r.token1 == token1,
            r.token0_decimals == token0_decimals,
            r.token1_decimals == token1_decimals,
    {
        BaselinePoolState {
            liquidity,
            block,
            fee_config,
            token0,
            token1,
            token0_decimals,
            token1_decimals,
        }
    }

    /// Overwrites the state at the current tick with what the chain reports.
    pub fn update_slot0(
        &mut self,
        start_tick: i32,
        start_sqrt_price: SqrtPriceX96,
        start_liquidity: u128,
    )
        ensures
            final(self)@ == old(self)@.with_slot0(
                start_tick as int,
                start_sqrt_price@,
                start_liquidity as nat,
            ),
            final(self).liquidity.start_tick == start_tick,
            final(self).liquidity.start_sqrt_price == start_sqrt_price,
            final(self).liquidity.start_liquidity == start_liquidity,
            final(self).liquidity.tick_spacing == old(self).liquidity.tick_spacing,
            final(self).liquidity.initialized_ticks == old(self).liquidity.initialized_ticks,
            final(self).liquidity.tick_bitmap == old(self).liquidity.tick_bitmap,
            final(self).block == old(self).block,
            final(self).fee_config == old(self).fee_config,
            final(self).token0 == old(self).token0,
            final(self).token1 == old(self).token1,
            final(self).token0_decimals == old(self).token0_decimals,
            final(self).token1_decimals == old(self).token1_decimals,
    {
        self.liquidity.start_tick = start_tick;
        self.liquidity.start_sqrt_price = start_sqrt_price;
        self.liquidity.start_liquidity = start_liquidity;
        proof {
            let expected = old(self)@.with_slot0(
                start_tick as int,
                start_sqrt_price@,
                start_liquidity as nat,
            );
            assert(self@.liquidity.ticks =~= expected.liquidity.ticks);
            assert(self@.liquidity.bits =~= expected.liquidity.bits);
        }
    }

    /// Applies a liquidity event to the pool. An event that cannot be applied
    /// leaves the pool as it was.
    pub fn update_liquidity(&mut self, tick_lower: i32, tick_upper: i32, liquidity_delta: I256)
        ensures
            final(self)@ == old(self)@.with_liquidity_event(
                tick_lower as int,
                tick_upper as int,
                liquidity_delta@,
            ),
            final(self).liquidity@.net_sum() == old(self).liquidity@.net_sum(),
            old(self).liquidity@.consistent() ==> final(self).liquidity@.consistent(),
            old(self).liquidity@.liquidity_matches() ==> final(self).liquidity@.liquidity_matches(),
            final(self).block == old(self).block,
            final(self).fee_config == old(self).fee_config,
            final(self).token0 == old(self).token0,
            final(self).token1 == old(self).token1,
            final(self).token0_decimals == old(self).token0_decimals,
            final(self).token1_decimals == old(self).token1_decimals,
    {
        match liquidity_delta.to_i128() {
            Some(delta) => {
                let _ = self.liquidity.update_liquidity(tick_lower, tick_upper, delta);
            },
            None => {},
        }
    }

    /// Applies an update that only the deployment of the pool has.
    pub fn update_chain_specific<U: crate::pool_updates::UpdatePool<F>>(&mut self, update: U)
        ensures
            final(self)@ == update.spec_update_pool(old(self)@),
    {
        update.update_pool(self);
    }

    /// Merges freshly loaded tick data into the pool.
    pub fn extend_ticks(&mut self, ticks: &Vec<(i32, crate::tick_info::TickInfo)>, tick_bitmap: &Vec<(i16, U256)>)
        ensures
            final(self)@ == old(self)@.with_new_ticks(ticks@, tick_bitmap@),
    {
        self.liquidity.extend(ticks, tick_bitmap);
    }

    /// Applies a fee update to the pool.
    pub fn update_fees(&mut self, update: F::Update)
        ensures
            final(self)@ == old(self)@.with_fee_update(update),
    {
        self.fee_config.update_fees(update);
    }

    pub fn block_number(&self) -> (r: u64)
        ensures
            r == self.block,
    {
        self.block
    }

    pub fn fees_mut(&mut self) -> (fees: &mut F)
        ensures
            *fees == old(self).fee_config,
            final(self).fee_config == *final(fees),
            final(self).liquidity == old(self).liquidity,
            final(self).block == old(self).block,
            final(self).token0 == old(self).token0,
            final(self).token1 == old(self).token1,
            final(self).token0_decimals == old(self).token0_decimals,
            final(self).token1_decimals == old(self).token1_decimals,
    {
        &mut self.fee_config
    }

    pub fn fee(&self, bundle: bool) -> (r: u32)
        requires
            self.fee_config.spec_fee(bundle) <= u32::MAX,
        ensures
            r == self.fee_config.spec_fee(bundle),
    {
        self.fee_config.fee(bundle)
    }

    pub fn bundle_fee(&self) -> (r: Option<u32>)
        ensures
            r == self.fee_config.spec_bundle_fee(),
    {
        self.fee_config.bundle_fee()
    }

    pub fn swap_fee(&self) -> (r: u32)
        ensures
            r == self.fee_config.spec_swap_fee(),
    {
        self.fee_config.swap_fee()
    }

    pub fn protocol_fee(&self) -> (r: u32)
        requires
            self.fee_config.spec_protocol_fee() <= u32::MAX,
        ensures
            r == self.fee_config.spec_protocol_fee(),
    {
        self.fee_config.protocol_fee()
    }

    pub fn fee_config(&self) -> (r: &F)
        ensures
            *r == self.fee_config,
    {
        &self.fee_config
    }

    pub fn current_tick(&self) -> (r: i32)
        ensures
            r == self.liquidity.start_tick,
    {
        self.liquidity.start_tick
    }

    pub fn current_liquidity(&self) -> (r: u128)
        ensures
            r == self.liquidity.start_liquidity,
    {
        self.liquidity.start_liquidity
    }

    pub fn current_price(&self) -> (r: SqrtPriceX96)
        ensures
            r == self.liquidity.start_sqrt_price,
    {
        self.liquidity.start_sqrt_price
    }

    pub fn tick_spacing(&self) -> (r: i32)
        ensures
            r == self.liquidity.tick_spacing,
    {
        self.liquidity.tick_spacing
    }

    pub fn get_baseline_liquidity(&self) -> (r: &BaselineLiquidity)
        ensures
            *r == self.liquidity,
    {
        &self.liquidity
    }

    pub fn get_baseline_liquidity_mut(&mut self) -> (r: &mut BaselineLiquidity)
        ensures
            *r == old(self).liquidity,
            final(self).liquidity == *final(r),
            final(self).fee_config == old(self).fee_config,
            final(self).block == old(self).block,
            final(self).token0 == old(self).token0,
            final(self).token1 == old(self).token1,
            final(self).token0_decimals == old(self).token0_decimals,
            final(self).token1_decimals == old(self).token1_decimals,
    {
        &mut self.liquidity
    }

    /// The result of a swap that moves nothing: it starts and ends at the
    /// current state of the pool.
    pub fn noop(&self) -> (r: PoolSwapResult<F>)
        ensures
            r@ == (SwapOutcome {
                start_price: self.liquidity@.sqrt_price,
                start_tick: self.liquidity@.tick,
                end_price: self.liquidity@.sqrt_price,
                end_tick: self.liquidity@.tick,
                total_d_t0: 0,
                total_d_t1: 0,
                steps: Seq::<StepModel>::empty(),
                end_liquidity: self.liquidity@.liquidity,
            }),
            r.wf(),
            r.fee_config == self.fee_config,
            r.is_bundle,
            r.end_liquidity.tick_spacing == self.liquidity.tick_spacing,
    {
        let steps: Vec<PoolSwapStep> = Vec::new();
        proof {
            assert(steps_model(steps@) =~= Seq::<StepModel>::empty());
        }
        PoolSwapResult {
            fee_config: self.fee_config,
            start_price: self.liquidity.start_sqrt_price,
            start_tick: self.liquidity.start_tick,
            end_price: self.liquidity.start_sqrt_price,
            end_tick: self.liquidity.start_tick,
            total_d_t0: U256::zero(),
            total_d_t1: U256::zero(),
            steps,
            end_liquidity: self.liquidity.current(),
            is_bundle: true,
        }
    }

    /// Runs one simulation on the pool.
    fn run_swap(
        &self,
        amount: I256,
        direction: bool,
        is_bundle: bool,
        limit_price: Option<SqrtPriceX96>,
        priority_fee_wei: Option<u128>,
    ) -> (r: Result<PoolSwapResult<F>, SwapSimulationError>)
        ensures
            swap_result_is(
                r,
                self.spec_swap(
                    amount@,
                    direction,
                    price_view(limit_price),
                    is_bundle,
                    priority_fee_wei,
                ),
            ),
            r is Ok ==> r->Ok_0.is_bundle == is_bundle && r->Ok_0.fee_config == self.fee_config,
    {
        let mev_tax_amount: Option<U256> = match priority_fee_wei {
            Some(p) => Some(self.fee_config.mev_tax(p)),
            None => None,
        };
        let swap = PoolSwap {
            liquidity: &self.liquidity,
            target_amount: amount,
            target_price: limit_price,
            direction,
            fee_config: self.fee_config,
            is_bundle,
            mev_tax_amount,
        };
        swap.swap()
    }

    /// Simulates a swap of a signed amount: positive for an exact input,
    /// negative for an exact output. `direction` is true for token0 to token1.
    pub fn swap_current_with_amount(&self, amount: I256, direction: bool, is_bundle: bool) -> (r:
        Result<PoolSwapResult<F>, SwapSimulationError>)
        ensures
            swap_result_is(r, self.spec_swap(amount@, direction, None, is_bundle, None)),
            r is Ok ==> r->Ok_0.is_bundle == is_bundle && r->Ok_0.fee_config == self.fee_config,
    {
        self.run_swap(amount, direction, is_bundle, None, None)
    }

    /// Simulates a swap of an amount with the MEV tax of the given priority
    /// fee taken off the token0 delta.
    pub fn swap_current_with_amount_and_mev_tax(
        &self,
        amount: I256,
        direction: bool,
        is_bundle: bool,
        priority_fee_wei: Option<u128>,
    ) -> (r: Result<PoolSwapResult<F>, SwapSimulationError>)
        ensures
            swap_result_is(
                r,
                self.spec_swap(amount@, direction, None, is_bundle, priority_fee_wei),
            ),
            r is Ok ==> r->Ok_0.is_bundle == is_bundle && r->Ok_0.fee_config == self.fee_config,
    {
        self.run_swap(amount, direction, is_bundle, None, priority_fee_wei)
    }

    /// Simulates a swap of an amount that stops at a price limit.
    pub fn swap_current_with_amount_and_limit(
        &self,
        amount: I256,
        direction: bool,
        is_bundle: bool,
        limit_price: SqrtPriceX96,
    ) -> (r: Result<PoolSwapResult<F>, SwapSimulationError>)
        ensures
            swap_result_is(
                r,
                self.spec_swap(amount@, direction, Some(limit_price@), is_bundle, None),
            ),
            r is Ok ==> r->Ok_0.is_bundle == is_bundle && r->Ok_0.fee_config == self.fee_config,
    {
        self.run_swap(amount, direction, is_bundle, Some(limit_price), None)
    }

    /// Simulates a swap of an amount that stops at a price limit, with the MEV
    /// tax of the given priority fee.
    pub fn swap_current_with_amount_limit_and_mev_tax(
        &self,
        amount: I256,
        direction: bool,
        is_bundle: bool,
        limit_price: SqrtPriceX96,
        priority_fee_wei: Option<u128>,
    ) -> (r: Result<PoolSwapResult<F>, SwapSimulationError>)
        ensures
            swap_result_is(
                r,
                self.spec_swap(amount@, direction, Some(limit_price@), is_bundle, priority_fee_wei),
            ),
            r is Ok ==> r->Ok_0.is_bundle == is_bundle && r->Ok_0.fee_config == self.fee_config,
    {
        self.run_swap(amount, direction, is_bundle, Some(limit_price), priority_fee_wei)
    }

    /// Simulates the swap that moves the price to `price_limit`, stated as a
    /// swap of an exact input: the outcome is that of the amount-driven swap
    /// of the measured input.
    pub fn swap_current_to_price(&self, price_limit: SqrtPriceX96, is_bundle: bool) -> (r: Result<
        PoolSwapResult<F>,
        SwapSimulationError,
    >)
        ensures
            swap_result_is(r, self.spec_swap_to_price(price_limit@, is_bundle, None)),
            r is Ok ==> r->Ok_0.is_bundle == is_bundle && r->Ok_0.fee_config == self.fee_config,
    {
        self.swap_current_to_price_with_mev_tax(price_limit, is_bundle, None)
    }

    /// As [`Self::swap_current_to_price`], with the MEV tax of the given
    /// priority fee taken off the token0 delta of the second swap.
    pub fn swap_current_to_price_with_mev_tax(
        &self,
        price_limit: SqrtPriceX96,
        is_bundle: bool,
        priority_fee_wei: Option<u128>,
    ) -> (r: Result<PoolSwapResult<F>, SwapSimulationError>)
        ensures
            swap_result_is(r, self.spec_swap_to_price(price_limit@, is_bundle, priority_fee_wei)),
            r is Ok ==> r->Ok_0.is_bundle == is_bundle && r->Ok_0.fee_config == self.fee_config,
    {
        let direction: bool = self.liquidity.start_sqrt_price.ge(&price_limit);
        let measured = match self.run_swap(
            I256::max_value(),
            direction,
            is_bundle,
            Some(price_limit),
            None,
        ) {
            Ok(res) => res,
            Err(e) => {
                return Err(e);
            },
        };
        let amount_in: U256 = if direction {
            measured.total_d_t0
        } else {
            measured.total_d_t1
        };
        let amount: I256 = match I256::from_magnitude(amount_in) {
            Some(v) => v,
            None => {
                return Err(SwapSimulationError::UniswapV3MathError);
            },
        };
        self.run_swap(amount, direction, is_bundle, None, priority_fee_wei)
    }

    /// Simulates the swap that moves the price to `price_limit` in one pass.
    pub fn swap_current_to_price_raw(&self, price_limit: SqrtPriceX96, is_bundle: bool) -> (r:
        Result<PoolSwapResult<F>, SwapSimulationError>)
        ensures
            swap_result_is(
                r,
                self.spec_swap(
                    pow2_255() - 1,
                    self.spec_direction(price_limit@),
                    Some(price_limit@),
                    is_bundle,
                    None,
                ),
            ),
            r is Ok ==> r->Ok_0.is_bundle == is_bundle && r->Ok_0.fee_config == self.fee_config,
    {
        let direction: bool = self.liquidity.start_sqrt_price.ge(&price_limit);
        self.run_swap(I256::max_value(), direction, is_bundle, Some(price_limit), None)
    }

    /// As [`Self::swap_current_to_price_raw`], with the MEV tax of the given
    /// priority fee taken off the token0 delta.
    pub fn swap_current_to_price_raw_with_mev_tax(
        &self,
        price_limit: SqrtPriceX96,
        is_bundle: bool,
        priority_fee_wei: Option<u128>,
    ) -> (r: Result<PoolSwapResult<F>, SwapSimulationError>)
        ensures
            swap_result_is(
                r,
                self.spec_swap(
                    pow2_255() - 1,
                    self.spec_direction(price_limit@),
                    Some(price_limit@),
                    is_bundle,
                    priority_fee_wei,
                ),
            ),
            r is Ok ==> r->Ok_0.is_bundle == is_bundle && r->Ok_0.fee_config == self.fee_config,
    {
        let direction: bool = self.liquidity.start_sqrt_price.ge(&price_limit);
        self.run_swap(I256::max_value(), direction, is_bundle, Some(price_limit), priority_fee_wei)
    }
}

/// Two-phase law: where a swap to a price succeeds, its outcome is bit for
/// bit the outcome of the amount-driven swap of the input that the first
/// phase measured, in the same direction and under the same tax.
pub proof fn lemma_swap_to_price_is_amount_swap<F: FeeConfig>(
    pool: &BaselinePoolState<F>,
    price_limit: nat,
    is_bundle: bool,
    priority_fee_wei: Option<u128>,
)
    requires
        pool.spec_swap_to_price(price_limit, is_bundle, priority_fee_wei) is Ok,
    ensures
        pool.spec_measured_input(price_limit, is_bundle) is Ok,
        pool.spec_swap_to_price(price_limit, is_bundle, priority_fee_wei) == pool.spec_swap(
            pool.spec_measured_input(price_limit, is_bundle)->Ok_0 as int,
            pool.spec_direction(price_limit),
            None,
            is_bundle,
            priority_fee_wei,
        ),
{
}

} // verus!
