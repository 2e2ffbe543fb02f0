//! A queue of updates that hands them out in the order in which they were
//! put in.

use std::collections::VecDeque;
use vstd::prelude::*;
use crate::fee_config::FeeConfig;
use crate::network::V4Network;
use crate::pool_state::BaselinePoolState;
use crate::pool_updates::{ModifyLiquidityEventData, PoolUpdate, Slot0Data, SwapEventData};
use crate::primitives::PoolId;
use crate::tick_info::TickInfo;
use crate::traits::{
    PoolUpdateDelivery, UpdateKind, hands_out_nothing, kind_at, kind_index, kind_of,
    next_update_is,
};
use crate::u256::U256;

verus! {

/// Updates waiting to be applied, oldest first.
pub struct PoolUpdateQueue<T: V4Network> {
    pub updates: VecDeque<PoolUpdate<T>>,
}

impl<T: V4Network> View for PoolUpdateQueue<T> {
    type V = Seq<PoolUpdate<T>>;

    open spec fn view(&self) -> Seq<PoolUpdate<T>> {
        self.updates@
    }
}

impl<T: V4Network> PoolUpdateQueue<T> {
    /// An empty queue.
    pub fn new() -> (r: Self)
        ensures
            r@ == Seq::<PoolUpdate<T>>::empty(),
    {
        PoolUpdateQueue { updates: VecDeque::new() }
    }

    /// Puts an update at the end of the queue.
    pub fn push(&mut self, update: PoolUpdate<T>)
        ensures
            final(self)@ == old(self)@.push(update),
    {
        self.updates.push_back(update);
    }

    /// Puts a list of updates at the end of the queue, in order.
    pub fn extend(&mut self, updates: Vec<PoolUpdate<T>>)
        ensures
            final(self)@ == old(self)@ + updates@,
    {
        let mut rest: Vec<PoolUpdate<T>> = updates;
        proof {
            assert(self@ + rest@ =~= old(self)@ + updates@);
        }
        while rest.len() > 0
            invariant
                self@ + rest@ == old(self)@ + updates@,
            decreases rest.len(),
        {
            let ghost queue_before = self@;
            let ghost rest_before = rest@;
            let update = rest.remove(0);
            self.updates.push_back(update);
            proof {
                assert(self@ + rest@ =~= queue_before + rest_before);
            }
        }
        proof {
            assert(self@ + rest@ =~= self@);
        }
    }

    /// The number of updates that wait.
    pub fn len(&self) -> (r: usize)
        ensures
            r == self@.len(),
    {
        self.updates.len()
    }

    pub fn is_empty(&self) -> (r: bool)
        ensures
            r == (self@.len() == 0),
    {
        self.updates.len() == 0
    }

    /// Drops every update that waits.
    pub fn clear(&mut self)
        ensures
            final(self)@ == Seq::<PoolUpdate<T>>::empty(),
    {
        self.updates.clear();
    }

    /// Takes the oldest update out of the queue.
    pub fn pop(&mut self) -> (r: Option<PoolUpdate<T>>)
        ensures
            match r {
                Some(update) => old(self)@.len() > 0 && update == old(self)@[0] && final(self)@
                    == old(self)@.subrange(1, old(self)@.len() as int),
                None => old(self)@.len() == 0 && final(self)@ == old(self)@,
            },
    {
        self.updates.pop_front()
    }
}

impl<T: V4Network> PoolUpdateDelivery<T> for PoolUpdateQueue<T> {
    /// A queue hands out its oldest update, and only when asked for the kind
    /// of that update; otherwise it hands out nothing and stays as it is.
    open spec fn hands_out(&self, kind: UpdateKind, answer: Option<PoolUpdate<T>>, after: Self) -> bool {
        match answer {
            Some(update) => {
                &&& self@.len() > 0
                &&& self@[0] == update
                &&& kind_of(update) == kind
                &&& after@ == self@.subrange(1, self@.len() as int)
            },
            None => after@ == self@ && !(self@.len() > 0 && kind_of(self@[0]) == kind),
        }
    }

    fn get_new_block(&mut self) -> (r: Option<u64>)
        ensures
            match r {
                Some(block) => old(self)@.len() > 0 && old(self)@[0] == PoolUpdate::<T>::NewBlock(
                    block,
                ) && final(self)@ == old(self)@.subrange(1, old(self)@.len() as int),
                None => final(self)@ == old(self)@ && !(old(self)@.len() > 0
                    && old(self)@[0] is NewBlock),
            },
    {
        if self.updates.len() == 0 {
            return None;
        }
        match &self.updates[0] {
            PoolUpdate::NewBlock(_) => {},
            _ => {
                return None;
            },
        }
        match self.updates.pop_front() {
            Some(PoolUpdate::NewBlock(block)) => Some(block),
            _ => None,
        }
    }

    fn get_reorg(&mut self) -> (r: Option<(u64, u64)>)
        ensures
            match r {
                Some((from_block, to_block)) => old(self)@.len() > 0 && old(self)@[0]
                    == (PoolUpdate::<T>::Reorg { from_block, to_block }) && final(self)@
                    == old(self)@.subrange(1, old(self)@.len() as int),
                None => final(self)@ == old(self)@ && !(old(self)@.len() > 0
                    && old(self)@[0] is Reorg),
            },
    {
        if self.updates.len() == 0 {
            return None;
        }
        match &self.updates[0] {
            PoolUpdate::Reorg { .. } => {},
            _ => {
                return None;
            },
        }
        match self.updates.pop_front() {
            Some(PoolUpdate::Reorg { from_block, to_block }) => Some((from_block, to_block)),
            _ => None,
        }
    }

    fn get_swap_event(&mut self) -> (r: Option<(PoolId, u64, u64, u64, SwapEventData)>)
        ensures
            match r {
                Some((pool_id, block, tx_index, log_index, event)) => old(self)@.len() > 0
                    && old(self)@[0] == (PoolUpdate::<T>::SwapEvent {
                    pool_id,
                    block,
                    tx_index,
                    log_index,
                    event,
                }) && final(self)@ == old(self)@.subrange(1, old(self)@.len() as int),
                None => final(self)@ == old(self)@ && !(old(self)@.len() > 0
                    && old(self)@[0] is SwapEvent),
            },
    {
        if self.updates.len() == 0 {
            return None;
        }
        match &self.updates[0] {
            PoolUpdate::SwapEvent { .. } => {},
            _ => {
                return None;
            },
        }
        match self.updates.pop_front() {
            Some(PoolUpdate::SwapEvent { pool_id, block, tx_index, log_index, event }) => Some(
                (pool_id, block, tx_index, log_index, event),
            ),
            _ => None,
        }
    }

    fn get_liquidity_event(&mut self) -> (r: Option<
        (PoolId, u64, u64, u64, ModifyLiquidityEventData),
    >)
        ensures
            match r {
                Some((pool_id, block, tx_index, log_index, event)) => old(self)@.len() > 0
                    && old(self)@[0] == (PoolUpdate::<T>::LiquidityEvent {
                    pool_id,
                    block,
                    tx_index,
                    log_index,
                    event,
                }) && final(self)@ == old(self)@.subrange(1, old(self)@.len() as int),
                None => final(self)@ == old(self)@ && !(old(self)@.len() > 0
                    && old(self)@[0] is LiquidityEvent),
            },
    {
        if self.updates.len() == 0 {
            return None;
        }
        match &self.updates[0] {
            PoolUpdate::LiquidityEvent { .. } => {},
            _ => {
                return None;
            },
        }
        match self.updates.pop_front() {
            Some(PoolUpdate::LiquidityEvent { pool_id, block, tx_index, log_index, event }) => Some(
                (pool_id, block, tx_index, log_index, event),
            ),
            _ => None,
        }
    }

    fn get_fee_update(&mut self) -> (r: Option<(PoolId, u64, <T::FeeConfig as FeeConfig>::Update)>)
        ensures
            match r {
                Some((pool_id, block, update)) => old(self)@.len() > 0 && old(self)@[0]
                    == (PoolUpdate::<T>::FeeUpdate { pool_id, block, update }) && final(self)@
                    == old(self)@.subrange(1, old(self)@.len() as int),
                None => final(self)@ == old(self)@ && !(old(self)@.len() > 0
                    && old(self)@[0] is FeeUpdate),
            },
    {
        if self.updates.len() == 0 {
            return None;
        }
        match &self.updates[0] {
            PoolUpdate::FeeUpdate { .. } => {},
            _ => {
                return None;
            },
        }
        match self.updates.pop_front() {
            Some(PoolUpdate::FeeUpdate { pool_id, block, update }) => Some(
                (pool_id, block, update),
            ),
            _ => None,
        }
    }

    fn get_slot0_update(&mut self) -> (r: Option<(PoolId, Slot0Data)>)
        ensures
            match r {
                Some((pool_id, data)) => old(self)@.len() > 0 && old(self)@[0]
                    == (PoolUpdate::<T>::UpdatedSlot0 { pool_id, data }) && final(self)@
                    == old(self)@.subrange(1, old(self)@.len() as int),
                None => final(self)@ == old(self)@ && !(old(self)@.len() > 0
                    && old(self)@[0] is UpdatedSlot0),
            },
    {
        if self.updates.len() == 0 {
            return None;
        }
        match &self.updates[0] {
            PoolUpdate::UpdatedSlot0 { .. } => {},
            _ => {
                return None;
            },
        }
        match self.updates.pop_front() {
            Some(PoolUpdate::UpdatedSlot0 { pool_id, data }) => Some((pool_id, data)),
            _ => None,
        }
    }

    fn get_new_ticks(&mut self) -> (r: Option<(PoolId, Vec<(i32, TickInfo)>, Vec<(i16, U256)>)>)
        ensures
            match r {
                Some((pool_id, ticks, tick_bitmap)) => old(self)@.len() > 0 && old(self)@[0]
                    == (PoolUpdate::<T>::NewTicks { pool_id, ticks, tick_bitmap }) && final(self)@
                    == old(self)@.subrange(1, old(self)@.len() as int),
                None => final(self)@ == old(self)@ && !(old(self)@.len() > 0
                    && old(self)@[0] is NewTicks),
            },
    {
        if self.updates.len() == 0 {
            return None;
        }
        match &self.updates[0] {
            PoolUpdate::NewTicks { .. } => {},
            _ => {
                return None;
            },
        }
        match self.updates.pop_front() {
            Some(PoolUpdate::NewTicks { pool_id, ticks, tick_bitmap }) => Some(
                (pool_id, ticks, tick_bitmap),
            ),
            _ => None,
        }
    }

    fn get_new_pool_state(&mut self) -> (r: Option<(PoolId, BaselinePoolState<T::FeeConfig>)>)
        ensures
            match r {
                Some((pool_id, state)) => old(self)@.len() > 0 && old(self)@[0]
                    == (PoolUpdate::<T>::NewPoolState { pool_id, state }) && final(self)@
                    == old(self)@.subrange(1, old(self)@.len() as int),
                None => final(self)@ == old(self)@ && !(old(self)@.len() > 0
                    && old(self)@[0] is NewPoolState),
            },
    {
        if self.updates.len() == 0 {
            return None;
        }
        match &self.updates[0] {
            PoolUpdate::NewPoolState { .. } => {},
            _ => {
                return None;
            },
        }
        match self.updates.pop_front() {
            Some(PoolUpdate::NewPoolState { pool_id, state }) => Some((pool_id, state)),
            _ => None,
        }
    }

    fn get_chain_specific_update(&mut self) -> (r: Option<(PoolId, T::PoolUpdate)>)
        ensures
            match r {
                Some((pool_id, update)) => old(self)@.len() > 0 && old(self)@[0]
                    == (PoolUpdate::<T>::ChainSpecific { pool_id, update }) && final(self)@
                    == old(self)@.subrange(1, old(self)@.len() as int),
                None => final(self)@ == old(self)@ && !(old(self)@.len() > 0
                    && old(self)@[0] is ChainSpecific),
            },
    {
        if self.updates.len() == 0 {
            return None;
        }
        match &self.updates[0] {
            PoolUpdate::ChainSpecific { .. } => {},
            _ => {
                return None;
            },
        }
        match self.updates.pop_front() {
            Some(PoolUpdate::ChainSpecific { pool_id, update }) => Some((pool_id, update)),
            _ => None,
        }
    }
}

/// A queue that was asked for the kinds of update up to the place `last` and
/// handed out nothing holds what it held, and its oldest update, if it has
/// one, is of a later kind.
pub proof fn lemma_queue_hands_out_nothing<T: V4Network>(
    queue: PoolUpdateQueue<T>,
    last: int,
    after: PoolUpdateQueue<T>,
)
    requires
        hands_out_nothing::<T, PoolUpdateQueue<T>>(queue, last, after),
    ensures
        after@ == queue@,
        queue@.len() > 0 ==> kind_index(kind_of(queue@[0])) > last,
    decreases last + 1,
{
    if last >= 0 {
        let mid = choose|mid: PoolUpdateQueue<T>|
            hands_out_nothing::<T, PoolUpdateQueue<T>>(queue, last - 1, mid) && #[trigger] mid.hands_out(
                kind_at(last),
                None,
                after,
            );
        lemma_queue_hands_out_nothing(queue, last - 1, mid);
        if queue@.len() > 0 {
            let kind = kind_of(queue@[0]);
            assert(kind_at(kind_index(kind)) == kind);
        }
    }
}

/// Queue law: the next update of a queue is its oldest update, which leaves
/// the queue; an empty queue has none and stays empty.
pub proof fn lemma_queue_next_update<T: V4Network>(
    queue: PoolUpdateQueue<T>,
    r: Option<PoolUpdate<T>>,
    after: PoolUpdateQueue<T>,
)
    requires
        next_update_is::<T, PoolUpdateQueue<T>>(queue, r, after),
    ensures
        match r {
            Some(update) => queue@.len() > 0 && update == queue@[0] && after@ == queue@.subrange(
                1,
                queue@.len() as int,
            ),
            None => queue@.len() == 0 && after@ == queue@,
        },
{
    match r {
        Some(update) => {
            let mid = choose|mid: PoolUpdateQueue<T>|
                hands_out_nothing::<T, PoolUpdateQueue<T>>(
                    queue,
                    kind_index(kind_of(update)) - 1,
                    mid,
                ) && #[trigger] mid.hands_out(kind_of(update), Some(update), after);
            lemma_queue_hands_out_nothing(queue, kind_index(kind_of(update)) - 1, mid);
        },
        None => {
            lemma_queue_hands_out_nothing(queue, 8, after);
        },
    }
}

} // verus!
