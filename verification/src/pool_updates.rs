//! The updates that the pipeline applies to pools, and the order in which a
//! batch of them is applied.

use std::cmp::Ordering;
use vstd::prelude::*;
use crate::fee_config::{FeeConfig, L1FeeConfiguration, L2FeeConfiguration};
use crate::network::V4Network;
use crate::pool_state::{BaselinePoolState, PoolModel};
use crate::primitives::{Address, B256, PoolId};
use crate::sorting::{SortKey, SortKeyed, key_lt};
use crate::tick_info::TickInfo;
use crate::u256::{I256, U256};

verus! {

/// What a chain-specific update does to a pool and how the pipeline treats
/// it.
pub trait UpdatePool<F: FeeConfig>: Sized {
    /// The pool after the update.
    spec fn spec_update_pool(&self, pool: PoolModel<F>) -> PoolModel<F>;

    spec fn spec_should_notify_waiters(&self) -> bool;

    spec fn spec_valid_current_block(&self, current_block_number: u64) -> bool;

    spec fn spec_is_pool_affected(&self) -> bool;

    spec fn spec_is_initialization_event(&self) -> bool;

    /// Applies the update to a pool.
    fn update_pool(&self, pool: &mut BaselinePoolState<F>)
        ensures
            final(pool)@ == self.spec_update_pool(old(pool)@),
    ;

    /// True when those who wait for a change of the pool's slot0 are to be
    /// woken.
    fn should_notify_waiters(&self) -> (r: bool)
        ensures
            r == self.spec_should_notify_waiters(),
    ;

    /// True unless the update was made for another block than the current one.
    fn valid_current_block(&self, current_block_number: u64) -> (r: bool)
        ensures
            r == self.spec_valid_current_block(current_block_number),
    ;

    /// True when the update changes the state of a pool.
    fn is_pool_affected(&self) -> (r: bool)
        ensures
            r == self.spec_is_pool_affected(),
    ;

    /// True when the update belongs to the set-up of pools.
    fn is_initialization_event(&self) -> (r: bool)
        ensures
            r == self.spec_is_initialization_event(),
    ;
}

/// What a swap event reports.
#[derive(Debug, Clone, Copy, PartialEq, Eq)]
pub struct SwapEventData {
    pub sender: Address,
    pub amount0: i128,
    pub amount1: i128,
    /// Price after the swap, a 160-bit number.
    pub sqrt_price_x96: U256,
    pub liquidity: u128,
    pub tick: i32,
    pub fee: u32,
}

/// What a liquidity-modification event reports.
#[derive(Debug, Clone, Copy, PartialEq, Eq)]
pub struct ModifyLiquidityEventData {
    pub sender: Address,
    pub tick_lower: i32,
    pub tick_upper: i32,
    pub liquidity_delta: I256,
    pub salt: [u8; 32],
}

/// The state of a pool at its current tick.
#[derive(Debug, Clone, Copy, PartialEq, Eq)]
pub struct Slot0Data {
    /// A 160-bit number.
    pub sqrt_price_x96: U256,
    pub tick: i32,
    pub liquidity: u128,
}

/// A slot0 update from the real-time feed.
#[derive(Debug, Clone, Copy, PartialEq, Eq, Hash)]
pub struct Slot0Update {
    /// Position of the update within its block.
    pub seq_id: u16,
    /// The block that the update was made for.
    pub current_block: u64,
    pub angstrom_pool_id: B256,
    pub uni_pool_id: B256,
    pub sqrt_price_x96: U256,
    pub liquidity: u128,
    pub tick: i32,
}

/// The updates that only the L1 deployment has.
#[derive(Debug, Clone, Copy)]
pub enum L1PoolUpdate {
    NewPool {
        pool_id: B256,
        token0: Address,
        token1: Address,
        bundle_fee: u32,
        swap_fee: u32,
        protocol_fee: u32,
        tick_spacing: i32,
        block: u64,
    },
    /// Real-time slot0 update.
    Slot0Update(Slot0Update),
    /// The controller removed a pool.
    PoolRemoved { pool_id: B256, block: u64 },
}

impl L1PoolUpdate {
    pub fn from_new_pool(
        pool_id: B256,
        token0: Address,
        token1: Address,
        bundle_fee: u32,
        swap_fee: u32,
        protocol_fee: u32,
        tick_spacing: i32,
        block: u64,
    ) -> (r: L1PoolUpdate)
        ensures
            r == (L1PoolUpdate::NewPool {
                pool_id,
                token0,
                token1,
                bundle_fee,
                swap_fee,
                protocol_fee,
                tick_spacing,
                block,
            }),
    {
        L1PoolUpdate::NewPool {
            pool_id,
            token0,
            token1,
            bundle_fee,
            swap_fee,
            protocol_fee,
            tick_spacing,
            block,
        }
    }
}

impl UpdatePool<L1FeeConfiguration> for L1PoolUpdate {
    open spec fn spec_update_pool(&self, pool: PoolModel<L1FeeConfiguration>) -> PoolModel<
        L1FeeConfiguration,
    > {
        match self {
            L1PoolUpdate::Slot0Update(update) => pool.with_slot0(
                update.tick as int,
                update.sqrt_price_x96@,
                update.liquidity as nat,
            ),
            _ => pool,
        }
    }

    open spec fn spec_should_notify_waiters(&self) -> bool {
        self is Slot0Update
    }

    open spec fn spec_valid_current_block(&self, current_block_number: u64) -> bool {
        match self {
            L1PoolUpdate::Slot0Update(update) => update.current_block == current_block_number,
            _ => true,
        }
    }

    open spec fn spec_is_pool_affected(&self) -> bool {
        true
    }

    open spec fn spec_is_initialization_event(&self) -> bool {
        !(self is Slot0Update)
    }

    fn update_pool(&self, pool: &mut BaselinePoolState<L1FeeConfiguration>) {
        match self {
            L1PoolUpdate::Slot0Update(update) => {
                pool.update_slot0(update.tick, update.sqrt_price_x96, update.liquidity);
            },
            _ => {},
        }
    }

    fn should_notify_waiters(&self) -> (r: bool) {
        match self {
            L1PoolUpdate::Slot0Update(_) => true,
            _ => false,
        }
    }

    fn valid_current_block(&self, current_block_number: u64) -> (r: bool) {
        match self {
            L1PoolUpdate::Slot0Update(update) => update.current_block == current_block_number,
            _ => true,
        }
    }

    fn is_pool_affected(&self) -> (r: bool) {
        true
    }

    fn is_initialization_event(&self) -> (r: bool) {
        match self {
            L1PoolUpdate::Slot0Update(_) => false,
            _ => true,
        }
    }
}

/// The updates that only the L2 deployment has.
#[derive(Debug, Clone, Copy)]
pub enum L2PoolUpdate {
    NewPool {
        pool_id: B256,
        token0: Address,
        token1: Address,
        creator_tax_fee_e6: u32,
        protocol_tax_fee_e6: u32,
        creator_swap_fee_e6: u32,
        protocol_swap_fee_e6: u32,
        hook_fee: u32,
        tick_spacing: i32,
        hook: Address,
        block: u64,
        priority_fee_tax_floor: u128,
        jit_tax_enabled: bool,
        withdraw_only: bool,
    },
}

impl L2PoolUpdate {
    pub fn from_new_pool(
        pool_id: B256,
        token0: Address,
        token1: Address,
        creator_tax_fee_e6: u32,
        protocol_tax_fee_e6: u32,
        creator_swap_fee_e6: u32,
        protocol_swap_fee_e6: u32,
        tick_spacing: i32,
        hook_fee: u32,
        hook: Address,
        block: u64,
        priority_fee_tax_floor: u128,
        jit_tax_enabled: bool,
        withdraw_only: bool,
    ) -> (r: L2PoolUpdate)
        ensures
            r == (L2PoolUpdate::NewPool {
                pool_id,
                token0,
                token1,
                creator_tax_fee_e6,
                protocol_tax_fee_e6,
                creator_swap_fee_e6,
                protocol_swap_fee_e6,
                hook_fee,
                tick_spacing,
                hook,
                block,
                priority_fee_tax_floor,
                jit_tax_enabled,
                withdraw_only,
            }),
    {
        L2PoolUpdate::NewPool {
            pool_id,
            token0,
            token1,
            creator_tax_fee_e6,
            protocol_tax_fee_e6,
            creator_swap_fee_e6,
            protocol_swap_fee_e6,
            hook_fee,
            tick_spacing,
            hook,
            block,
            priority_fee_tax_floor,
            jit_tax_enabled,
            withdraw_only,
        }
    }
}

impl UpdatePool<L2FeeConfiguration> for L2PoolUpdate {
    open spec fn spec_update_pool(&self, pool: PoolModel<L2FeeConfiguration>) -> PoolModel<
        L2FeeConfiguration,
    > {
        pool
    }

    open spec fn spec_should_notify_waiters(&self) -> bool {
        false
    }

    open spec fn spec_valid_current_block(&self, current_block_number: u64) -> bool {
        true
    }

    open spec fn spec_is_pool_affected(&self) -> bool {
        true
    }

    open spec fn spec_is_initialization_event(&self) -> bool {
        true
    }

    fn update_pool(&self, pool: &mut BaselinePoolState<L2FeeConfiguration>) {
    }

    fn should_notify_waiters(&self) -> (r: bool) {
        false
    }

    fn valid_current_block(&self, current_block_number: u64) -> (r: bool) {
        true
    }

    fn is_pool_affected(&self) -> (r: bool) {
        true
    }

    fn is_initialization_event(&self) -> (r: bool) {
        true
    }
}

/// One update of the pipeline.
#[derive(Clone)]
pub enum PoolUpdate<T: V4Network> {
    /// A new block arrived.
    NewBlock(u64),
    /// A swap moved the price of a pool.
    SwapEvent { pool_id: PoolId, block: u64, tx_index: u64, log_index: u64, event: SwapEventData },
    /// Liquidity was added to or removed from a range of a pool.
    LiquidityEvent {
        pool_id: PoolId,
        block: u64,
        tx_index: u64,
        log_index: u64,
        event: ModifyLiquidityEventData,
    },
    /// The chain was reorganized over a span of blocks.
    Reorg { from_block: u64, to_block: u64 },
    /// More ticks of a pool were loaded.
    NewTicks { pool_id: PoolId, ticks: Vec<(i32, TickInfo)>, tick_bitmap: Vec<(i16, U256)> },
    /// A pool was loaded.
    NewPoolState { pool_id: PoolId, state: BaselinePoolState<T::FeeConfig> },
    /// The fees of a pool changed. The identifier is the pool manager's.
    FeeUpdate { pool_id: PoolId, block: u64, update: <T::FeeConfig as FeeConfig>::Update },
    /// The state at the current tick, queried again after a reorg.
    UpdatedSlot0 { pool_id: PoolId, data: Slot0Data },
    /// An update that only this deployment has.
    ChainSpecific { pool_id: PoolId, update: T::PoolUpdate },
}

impl<T: V4Network> SortKeyed for PoolUpdate<T> {
    /// The sort key of an update: the place of a swap or liquidity event in
    /// its block, and the greatest key for every other update, which thus
    /// applies after the events.
    open spec fn spec_sort_key(&self) -> SortKey {
        match self {
            PoolUpdate::SwapEvent { tx_index, log_index, .. } => (*tx_index, *log_index),
            PoolUpdate::LiquidityEvent { tx_index, log_index, .. } => (*tx_index, *log_index),
            _ => (u64::MAX, u64::MAX),
        }
    }

    fn sort_key(&self) -> (key: SortKey) {
        match self {
            PoolUpdate::SwapEvent { tx_index, log_index, .. } => (*tx_index, *log_index),
            PoolUpdate::LiquidityEvent { tx_index, log_index, .. } => (*tx_index, *log_index),
            _ => (u64::MAX, u64::MAX),
        }
    }
}

impl<T: V4Network> PoolUpdate<T> {
    /// Compares two updates by their sort keys.
    pub fn sort(&self, b: &Self) -> (r: Ordering)
        ensures
            (r == Ordering::Less) == key_lt(self.spec_sort_key(), b.spec_sort_key()),
            (r == Ordering::Greater) == key_lt(b.spec_sort_key(), self.spec_sort_key()),
            (r == Ordering::Equal) == (self.spec_sort_key() == b.spec_sort_key()),
    {
        let this = self.sort_key();
        let other = b.sort_key();
        if this.0 < other.0 {
            Ordering::Less
        } else if this.0 > other.0 {
            Ordering::Greater
        } else if this.1 < other.1 {
            Ordering::Less
        } else if this.1 > other.1 {
            Ordering::Greater
        } else {
            Ordering::Equal
        }
    }

    pub fn from_swap(
        pool_id: PoolId,
        block: u64,
        tx_index: u64,
        log_index: u64,
        event: SwapEventData,
    ) -> (r: Self)
        ensures
            r == (PoolUpdate::<T>::SwapEvent { pool_id, block, tx_index, log_index, event }),
    {
        PoolUpdate::SwapEvent { pool_id, block, tx_index, log_index, event }
    }

    pub fn from_liquidity(
        pool_id: PoolId,
        block: u64,
        tx_index: u64,
        log_index: u64,
        event: ModifyLiquidityEventData,
    ) -> (r: Self)
        ensures
            r == (PoolUpdate::<T>::LiquidityEvent { pool_id, block, tx_index, log_index, event }),
    {
        PoolUpdate::LiquidityEvent { pool_id, block, tx_index, log_index, event }
    }

    pub fn from_fee_update(
        pool_id: PoolId,
        block: u64,
        update: <T::FeeConfig as FeeConfig>::Update,
    ) -> (r: Self)
        ensures
            r == (PoolUpdate::<T>::FeeUpdate { pool_id, block, update }),
    {
        PoolUpdate::FeeUpdate { pool_id, block, update }
    }
}

} // verus!
