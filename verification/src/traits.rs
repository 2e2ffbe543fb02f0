//! The interface through which a data source hands updates to the pools.

use vstd::prelude::*;
use crate::fee_config::FeeConfig;
use crate::network::V4Network;
use crate::pool_state::BaselinePoolState;
use crate::pool_updates::{ModifyLiquidityEventData, PoolUpdate, Slot0Data, SwapEventData};
use crate::primitives::PoolId;
use crate::tick_info::TickInfo;
use crate::u256::U256;

verus! {

/// The kinds of update, in the order in which a source is asked for them.
#[derive(Clone, Copy, Debug, PartialEq, Eq, Structural)]
pub enum UpdateKind {
    NewBlock,
    Reorg,
    SwapEvent,
    LiquidityEvent,
    FeeUpdate,
    UpdatedSlot0,
    NewTicks,
    NewPoolState,
    ChainSpecific,
}

/// The number of kinds of update.
pub open spec fn kind_count() -> int {
    9
}

/// The kind of an update.
pub open spec fn kind_of<T: V4Network>(update: PoolUpdate<T>) -> UpdateKind {
    match update {
        PoolUpdate::NewBlock(_) => UpdateKind::NewBlock,
        PoolUpdate::Reorg { .. } => UpdateKind::Reorg,
        PoolUpdate::SwapEvent { .. } => UpdateKind::SwapEvent,
        PoolUpdate::LiquidityEvent { .. } => UpdateKind::LiquidityEvent,
        PoolUpdate::FeeUpdate { .. } => UpdateKind::FeeUpdate,
        PoolUpdate::UpdatedSlot0 { .. } => UpdateKind::UpdatedSlot0,
        PoolUpdate::NewTicks { .. } => UpdateKind::NewTicks,
        PoolUpdate::NewPoolState { .. } => UpdateKind::NewPoolState,
        PoolUpdate::ChainSpecific { .. } => UpdateKind::ChainSpecific,
    }
}

/// The place of a kind in the order of asking: block stamps first.
pub open spec fn kind_index(kind: UpdateKind) -> int {
    match kind {
        UpdateKind::NewBlock => 0,
        UpdateKind::Reorg => 1,
        UpdateKind::SwapEvent => 2,
        UpdateKind::LiquidityEvent => 3,
        UpdateKind::FeeUpdate => 4,
        UpdateKind::UpdatedSlot0 => 5,
        UpdateKind::NewTicks => 6,
        UpdateKind::NewPoolState => 7,
        UpdateKind::ChainSpecific => 8,
    }
}

/// The kind at a place in the order of asking.
pub open spec fn kind_at(i: int) -> UpdateKind {
    if i <= 0 {
        UpdateKind::NewBlock
    } else if i == 1 {
        UpdateKind::Reorg
    } else if i == 2 {
        UpdateKind::SwapEvent
    } else if i == 3 {
        UpdateKind::LiquidityEvent
    } else if i == 4 {
        UpdateKind::FeeUpdate
    } else if i == 5 {
        UpdateKind::UpdatedSlot0
    } else if i == 6 {
        UpdateKind::NewTicks
    } else if i == 7 {
        UpdateKind::NewPoolState
    } else {
        UpdateKind::ChainSpecific
    }
}

/// What a source hands out when asked for a new block, as an update.
pub open spec fn block_answer<T: V4Network>(r: Option<u64>) -> Option<PoolUpdate<T>> {
    match r {
        Some(block) => Some(PoolUpdate::NewBlock(block)),
        None => None,
    }
}

/// What a source hands out when asked for a reorganization, as an update.
pub open spec fn reorg_answer<T: V4Network>(r: Option<(u64, u64)>) -> Option<PoolUpdate<T>> {
    match r {
        Some((from_block, to_block)) => Some(PoolUpdate::Reorg { from_block, to_block }),
        None => None,
    }
}

/// What a source hands out when asked for a swap event, as an update.
pub open spec fn swap_answer<T: V4Network>(
    r: Option<(PoolId, u64, u64, u64, SwapEventData)>,
) -> Option<PoolUpdate<T>> {
    match r {
        Some((pool_id, block, tx_index, log_index, event)) => Some(
            PoolUpdate::SwapEvent { pool_id, block, tx_index, log_index, event },
        ),
        None => None,
    }
}

/// What a source hands out when asked for a liquidity event, as an update.
pub open spec fn liquidity_answer<T: V4Network>(
    r: Option<(PoolId, u64, u64, u64, ModifyLiquidityEventData)>,
) -> Option<PoolUpdate<T>> {
    match r {
        Some((pool_id, block, tx_index, log_index, event)) => Some(
            PoolUpdate::LiquidityEvent { pool_id, block, tx_index, log_index, event },
        ),
        None => None,
    }
}

/// What a source hands out when asked for a fee update, as an update.
pub open spec fn fee_answer<T: V4Network>(
    r: Option<(PoolId, u64, <T::FeeConfig as FeeConfig>::Update)>,
) -> Option<PoolUpdate<T>> {
    match r {
        Some((pool_id, block, update)) => Some(PoolUpdate::FeeUpdate { pool_id, block, update }),
        None => None,
    }
}

/// What a source hands out when asked for a slot0 update, as an update.
pub open spec fn slot0_answer<T: V4Network>(r: Option<(PoolId, Slot0Data)>) -> Option<
    PoolUpdate<T>,
> {
    match r {
        Some((pool_id, data)) => Some(PoolUpdate::UpdatedSlot0 { pool_id, data }),
        None => None,
    }
}

/// What a source hands out when asked for new ticks, as an update.
pub open spec fn ticks_answer<T: V4Network>(
    r: Option<(PoolId, Vec<(i32, TickInfo)>, Vec<(i16, U256)>)>,
) -> Option<PoolUpdate<T>> {
    match r {
        Some((pool_id, ticks, tick_bitmap)) => Some(
            PoolUpdate::NewTicks { pool_id, ticks, tick_bitmap },
        ),
        None => None,
    }
}

/// What a source hands out when asked for a newly loaded pool, as an update.
pub open spec fn pool_answer<T: V4Network>(
    r: Option<(PoolId, BaselinePoolState<T::FeeConfig>)>,
) -> Option<PoolUpdate<T>> {
    match r {
        Some((pool_id, state)) => Some(PoolUpdate::NewPoolState { pool_id, state }),
        None => None,
    }
}

/// What a source hands out when asked for an update of its deployment, as an
/// update.
pub open spec fn chain_answer<T: V4Network>(r: Option<(PoolId, T::PoolUpdate)>) -> Option<
    PoolUpdate<T>,
> {
    match r {
        Some((pool_id, update)) => Some(PoolUpdate::ChainSpecific { pool_id, update }),
        None => None,
    }
}

/// A source of pool updates. Each method hands out the next update of its
/// kind, or `None` where the source has none of that kind ready.
///
/// A source says in `hands_out` what its methods may do, and each method is
/// held to it. A source that says nothing may do anything.
pub trait PoolUpdateDelivery<T: V4Network>: Sized {
    /// True when the source, asked in this state for an update of a kind, may
    /// hand out `answer` and be left in the state `after`.
    open spec fn hands_out(&self, kind: UpdateKind, answer: Option<PoolUpdate<T>>, after: Self) -> bool {
        true
    }

    /// A new block.
    fn get_new_block(&mut self) -> (r: Option<u64>)
        ensures
            old(self).hands_out(UpdateKind::NewBlock, block_answer(r), *final(self)),
    ;

    /// A reorganization: first and last block of its span.
    fn get_reorg(&mut self) -> (r: Option<(u64, u64)>)
        ensures
            old(self).hands_out(UpdateKind::Reorg, reorg_answer(r), *final(self)),
    ;

    /// A swap event: pool, block, transaction index, log index and data.
    fn get_swap_event(&mut self) -> (r: Option<(PoolId, u64, u64, u64, SwapEventData)>)
        ensures
            old(self).hands_out(UpdateKind::SwapEvent, swap_answer(r), *final(self)),
    ;

    /// A liquidity event: pool, block, transaction index, log index and data.
    fn get_liquidity_event(&mut self) -> (r: Option<
        (PoolId, u64, u64, u64, ModifyLiquidityEventData),
    >)
        ensures
            old(self).hands_out(UpdateKind::LiquidityEvent, liquidity_answer(r), *final(self)),
    ;

    /// A fee update: pool, block and update.
    fn get_fee_update(&mut self) -> (r: Option<(PoolId, u64, <T::FeeConfig as FeeConfig>::Update)>)
        ensures
            old(self).hands_out(UpdateKind::FeeUpdate, fee_answer(r), *final(self)),
    ;

    /// A slot0 update.
    fn get_slot0_update(&mut self) -> (r: Option<(PoolId, Slot0Data)>)
        ensures
            old(self).hands_out(UpdateKind::UpdatedSlot0, slot0_answer(r), *final(self)),
    ;

    /// Newly loaded ticks of a pool: tick records and bitmap words.
    fn get_new_ticks(&mut self) -> (r: Option<(PoolId, Vec<(i32, TickInfo)>, Vec<(i16, U256)>)>)
        ensures
            old(self).hands_out(UpdateKind::NewTicks, ticks_answer(r), *final(self)),
    ;

    /// A newly loaded pool.
    fn get_new_pool_state(&mut self) -> (r: Option<(PoolId, BaselinePoolState<T::FeeConfig>)>)
        ensures
            old(self).hands_out(UpdateKind::NewPoolState, pool_answer(r), *final(self)),
    ;

    /// An update that only this deployment has.
    fn get_chain_specific_update(&mut self) -> (r: Option<(PoolId, T::PoolUpdate)>)
        ensures
            old(self).hands_out(UpdateKind::ChainSpecific, chain_answer(r), *final(self)),
    ;
}

/// True when a source that starts in the state `start` and is asked for the
/// kinds of update in turn, up to and including the kind at the place `last`,
/// may hand out nothing each time and be left in the state `after`. With
/// `last` below zero the source is asked for nothing and stays as it is.
pub open spec fn hands_out_nothing<T: V4Network, D: PoolUpdateDelivery<T>>(
    start: D,
    last: int,
    after: D,
) -> bool
    decreases last + 1,
{
    if last < 0 {
        after == start
    } else {
        exists|mid: D|
            hands_out_nothing::<T, D>(start, last - 1, mid) && #[trigger] mid.hands_out(
                kind_at(last),
                None,
                after,
            )
    }
}

/// The next update of a source that starts in the state `start`: the source
/// is asked for each kind in turn, and the first update that it hands out is
/// returned at once, with the source in the state `after`, in which that
/// answer left it; `None` is returned where it hands out nothing for any kind.
pub open spec fn next_update_is<T: V4Network, D: PoolUpdateDelivery<T>>(
    start: D,
    r: Option<PoolUpdate<T>>,
    after: D,
) -> bool {
    match r {
        Some(update) => exists|mid: D|
            hands_out_nothing::<T, D>(start, kind_index(kind_of(update)) - 1, mid)
                && #[trigger] mid.hands_out(kind_of(update), Some(update), after),
        None => hands_out_nothing::<T, D>(start, kind_count() - 1, after),
    }
}

/// The next update of any kind from a source.
pub trait PoolUpdateDeliveryExt<T: V4Network>: PoolUpdateDelivery<T> {
    /// Asks the source for each kind of update in turn, block stamps first,
    /// and returns the first update that it hands out.
    fn next_update(&mut self) -> (r: Option<PoolUpdate<T>>)
        ensures
            next_update_is::<T, Self>(*old(self), r, *final(self)),
    ;
}

impl<T: V4Network, D: PoolUpdateDelivery<T>> PoolUpdateDeliveryExt<T> for D {
    fn next_update(&mut self) -> (r: Option<PoolUpdate<T>>) {
        let ghost start = *self;
        proof {
            assert(hands_out_nothing::<T, D>(start, -1, start));
        }
        if let Some(block) = self.get_new_block() {
            return Some(PoolUpdate::NewBlock(block));
        }
        let ghost after_block = *self;
        proof {
            assert(start.hands_out(kind_at(0), None, after_block));
            assert(hands_out_nothing::<T, D>(start, 0, after_block));
        }
        if let Some((from_block, to_block)) = self.get_reorg() {
            return Some(PoolUpdate::Reorg { from_block, to_block });
        }
        let ghost after_reorg = *self;
        proof {
            assert(after_block.hands_out(kind_at(1), None, after_reorg));
            assert(hands_out_nothing::<T, D>(start, 1, after_reorg));
        }
        if let Some((pool_id, block, tx_index, log_index, event)) = self.get_swap_event() {
            return Some(PoolUpdate::from_swap(pool_id, block, tx_index, log_index, event));
        }
        let ghost after_swap = *self;
        proof {
            assert(after_reorg.hands_out(kind_at(2), None, after_swap));
            assert(hands_out_nothing::<T, D>(start, 2, after_swap));
        }
        if let Some((pool_id, block, tx_index, log_index, event)) = self.get_liquidity_event() {
            return Some(PoolUpdate::from_liquidity(pool_id, block, tx_index, log_index, event));
        }
        let ghost after_liquidity = *self;
        proof {
            assert(after_swap.hands_out(kind_at(3), None, after_liquidity));
            assert(hands_out_nothing::<T, D>(start, 3, after_liquidity));
        }
        if let Some((pool_id, block, update)) = self.get_fee_update() {
            return Some(PoolUpdate::from_fee_update(pool_id, block, update));
        }
        let ghost after_fee = *self;
        proof {
            assert(after_liquidity.hands_out(kind_at(4), None, after_fee));
            assert(hands_out_nothing::<T, D>(start, 4, after_fee));
        }
        if let Some((pool_id, data)) = self.get_slot0_update() {
            return Some(PoolUpdate::UpdatedSlot0 { pool_id, data });
        }
        let ghost after_slot0 = *self;
        proof {
            assert(after_fee.hands_out(kind_at(5), None, after_slot0));
            assert(hands_out_nothing::<T, D>(start, 5, after_slot0));
        }
        if let Some((pool_id, ticks, tick_bitmap)) = self.get_new_ticks() {
            return Some(PoolUpdate::NewTicks { pool_id, ticks, tick_bitmap });
        }
        let ghost after_ticks = *self;
        proof {
            assert(after_slot0.hands_out(kind_at(6), None, after_ticks));
            assert(hands_out_nothing::<T, D>(start, 6, after_ticks));
        }
        if let Some((pool_id, state)) = self.get_new_pool_state() {
            return Some(PoolUpdate::NewPoolState { pool_id, state });
        }
        let ghost after_pool = *self;
        proof {
            assert(after_ticks.hands_out(kind_at(7), None, after_pool));
            assert(hands_out_nothing::<T, D>(start, 7, after_pool));
        }
        if let Some((pool_id, update)) = self.get_chain_specific_update() {
            return Some(PoolUpdate::ChainSpecific { pool_id, update });
        }
        proof {
            assert(after_pool.hands_out(kind_at(8), None, *self));
            assert(hands_out_nothing::<T, D>(start, 8, *self));
        }
        None
    }
}

} // verus!
