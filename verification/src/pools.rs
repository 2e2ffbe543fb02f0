//! The set of pools that the pipeline keeps up to date, and the application
//! of a batch of updates to it.

use vstd::prelude::*;
use crate::fee_config::FeeConfig;
use crate::id_map::{
    IdMap, distinct_keys, first_index, inserted, lemma_first_index, lemma_inserted, lemma_removed,
    removed,
};
use crate::liquidity_base::{
    LiquidityModel, lemma_update_preserves_consistency, lemma_update_preserves_net_sum,
};
use crate::math::{MAX_TICK, MIN_TICK};
use crate::network::{Ethereum, Optimism, V4Network};
use crate::pool_state::{BaselinePoolState, PoolModel};
use crate::pool_updates::{L1PoolUpdate, L2PoolUpdate, PoolUpdate, UpdatePool};
use crate::sorting::{
    distinct_sort_keys, index_of_first_min, lemma_sorted_members, lemma_sorted_of_permutation,
    lemma_sorted_single,
    sorted, stable_sort,
};
use crate::primitives::{B256, PoolId};
use crate::traits::{PoolUpdateDelivery, PoolUpdateDeliveryExt, next_update_is};

verus! {

/// The pools as mathematics: pool by identifier, and the block that the pools
/// are up to date for.
pub struct PoolsModel<F> {
    pub pools: Map<PoolId, PoolModel<F>>,
    pub block_number: u64,
}

/// The pools that a list of entries holds.
pub open spec fn pools_of<F: FeeConfig>(entries: Seq<(B256, BaselinePoolState<F>)>) -> Map<
    PoolId,
    PoolModel<F>,
> {
    Map::new(
        |id: PoolId| first_index(entries, id) is Some,
        |id: PoolId| entries[first_index(entries, id)->Some_0].1@,
    )
}

/// A map of pools with a list of pools put in, in order: of two pools under
/// one identifier the later one stays.
pub open spec fn with_pools<F: FeeConfig>(
    pools: Map<PoolId, PoolModel<F>>,
    entries: Seq<(PoolId, BaselinePoolState<F>)>,
) -> Map<PoolId, PoolModel<F>>
    decreases entries.len(),
{
    if entries.len() == 0 {
        pools
    } else {
        with_pools(pools, entries.drop_last()).insert(entries.last().0, entries.last().1@)
    }
}

/// The block stamp of one update, if it carries one.
pub open spec fn block_stamp<T: V4Network>(update: PoolUpdate<T>) -> Option<u64> {
    match update {
        PoolUpdate::NewBlock(block_number) => Some(block_number),
        PoolUpdate::Reorg { to_block, .. } => Some(to_block),
        _ => None,
    }
}

/// The block stamp of a list of updates: that of the last update that
/// carries one.
pub open spec fn last_block_stamp<T: V4Network>(updates: Seq<PoolUpdate<T>>) -> Option<u64>
    decreases updates.len(),
{
    if updates.len() == 0 {
        None
    } else {
        match block_stamp(updates.last()) {
            Some(b) => Some(b),
            None => last_block_stamp(updates.drop_last()),
        }
    }
}

/// The pool that an update addresses and what the update makes of it, or
/// `None` for an update that changes no loaded pool. `current_block` is the
/// block of the pools when the batch began.
pub open spec fn pool_change<T: V4Network>(
    pools: Map<PoolId, PoolModel<T::FeeConfig>>,
    update: PoolUpdate<T>,
    current_block: u64,
) -> Option<(PoolId, PoolModel<T::FeeConfig>)> {
    match update {
        PoolUpdate::NewBlock(_) => None,
        PoolUpdate::Reorg { .. } => None,
        PoolUpdate::SwapEvent { pool_id, event, .. } => if pools.contains_key(pool_id) {
            Some(
                (
                    pool_id,
                    pools[pool_id].with_slot0(
                        event.tick as int,
                        event.sqrt_price_x96@,
                        event.liquidity as nat,
                    ),
                ),
            )
        } else {
            None
        },
        PoolUpdate::LiquidityEvent { pool_id, event, .. } => if pools.contains_key(pool_id) {
            Some(
                (
                    pool_id,
                    pools[pool_id].with_liquidity_event(
                        event.tick_lower as int,
                        event.tick_upper as int,
                        event.liquidity_delta@,
                    ),
                ),
            )
        } else {
            None
        },
        PoolUpdate::FeeUpdate { pool_id, update, .. } => if pools.contains_key(pool_id) {
            Some((pool_id, pools[pool_id].with_fee_update(update)))
        } else {
            None
        },
        PoolUpdate::UpdatedSlot0 { pool_id, data } => if pools.contains_key(pool_id) {
            Some(
                (
                    pool_id,
                    pools[pool_id].with_slot0(
                        data.tick as int,
                        data.sqrt_price_x96@,
                        data.liquidity as nat,
                    ),
                ),
            )
        } else {
            None
        },
        PoolUpdate::NewTicks { pool_id, ticks, tick_bitmap } => if pools.contains_key(pool_id) {
            Some((pool_id, pools[pool_id].with_new_ticks(ticks@, tick_bitmap@)))
        } else {
            None
        },
        PoolUpdate::NewPoolState { pool_id, state } => Some((pool_id, state@)),
        PoolUpdate::ChainSpecific { pool_id, update } => if update.spec_valid_current_block(
            current_block,
        ) && pools.contains_key(pool_id) {
            Some((pool_id, update.spec_update_pool(pools[pool_id])))
        } else {
            None
        },
    }
}

/// True when an update wakes those who wait for a change of its pool's
/// slot0.
pub open spec fn notifies<T: V4Network>(
    pools: Map<PoolId, PoolModel<T::FeeConfig>>,
    update: PoolUpdate<T>,
    current_block: u64,
) -> bool {
    match update {
        PoolUpdate::UpdatedSlot0 { pool_id, .. } => pools.contains_key(pool_id),
        PoolUpdate::ChainSpecific { pool_id, update } => update.spec_valid_current_block(
            current_block,
        ) && pools.contains_key(pool_id) && update.spec_should_notify_waiters(),
        _ => false,
    }
}

/// The pool that an update addresses.
pub open spec fn update_pool_id<T: V4Network>(update: PoolUpdate<T>) -> PoolId {
    match update {
        PoolUpdate::SwapEvent { pool_id, .. } => pool_id,
        PoolUpdate::LiquidityEvent { pool_id, .. } => pool_id,
        PoolUpdate::FeeUpdate { pool_id, .. } => pool_id,
        PoolUpdate::UpdatedSlot0 { pool_id, .. } => pool_id,
        PoolUpdate::NewTicks { pool_id, .. } => pool_id,
        PoolUpdate::NewPoolState { pool_id, .. } => pool_id,
        PoolUpdate::ChainSpecific { pool_id, .. } => pool_id,
        _ => arbitrary(),
    }
}

/// The pools after one update.
pub open spec fn apply_update<T: V4Network>(
    pools: Map<PoolId, PoolModel<T::FeeConfig>>,
    update: PoolUpdate<T>,
    current_block: u64,
) -> Map<PoolId, PoolModel<T::FeeConfig>> {
    match pool_change(pools, update, current_block) {
        Some((pool_id, pool)) => pools.insert(pool_id, pool),
        None => pools,
    }
}

/// The pools after a list of updates, applied in the order of the list.
pub open spec fn apply_all<T: V4Network>(
    pools: Map<PoolId, PoolModel<T::FeeConfig>>,
    updates: Seq<PoolUpdate<T>>,
    current_block: u64,
) -> Map<PoolId, PoolModel<T::FeeConfig>>
    decreases updates.len(),
{
    if updates.len() == 0 {
        pools
    } else {
        apply_update(
            apply_all(pools, updates.drop_last(), current_block),
            updates.last(),
            current_block,
        )
    }
}

/// The pools whose slot0 waiters a list of updates wakes, one entry for each
/// update that wakes them, in the order of the list.
pub open spec fn notified_pools<T: V4Network>(
    pools: Map<PoolId, PoolModel<T::FeeConfig>>,
    updates: Seq<PoolUpdate<T>>,
    current_block: u64,
) -> Seq<PoolId>
    decreases updates.len(),
{
    if updates.len() == 0 {
        Seq::empty()
    } else {
        let before = notified_pools(pools, updates.drop_last(), current_block);
        if notifies(
            apply_all(pools, updates.drop_last(), current_block),
            updates.last(),
            current_block,
        ) {
            before.push(update_pool_id(updates.last()))
        } else {
            before
        }
    }
}

/// The pools after a batch of updates: the updates apply in the order of
/// their sort keys, and the block of the pools becomes the last block stamp of
/// the batch, where the batch carries one.
pub open spec fn batch_result<T: V4Network>(
    before: PoolsModel<T::FeeConfig>,
    updates: Seq<PoolUpdate<T>>,
) -> PoolsModel<T::FeeConfig> {
    let ordered = sorted(updates);
    PoolsModel {
        pools: apply_all(before.pools, ordered, before.block_number),
        block_number: match last_block_stamp(ordered) {
            Some(b) => b,
            None => before.block_number,
        },
    }
}

/// The loaded pool that an update addresses: none for a block stamp, and
/// none for a newly loaded pool, which replaces what is there.
pub open spec fn addressed_pool<T: V4Network>(update: PoolUpdate<T>) -> Option<PoolId> {
    match update {
        PoolUpdate::SwapEvent { pool_id, .. } => Some(pool_id),
        PoolUpdate::LiquidityEvent { pool_id, .. } => Some(pool_id),
        PoolUpdate::FeeUpdate { pool_id, .. } => Some(pool_id),
        PoolUpdate::UpdatedSlot0 { pool_id, .. } => Some(pool_id),
        PoolUpdate::NewTicks { pool_id, .. } => Some(pool_id),
        PoolUpdate::ChainSpecific { pool_id, .. } => Some(pool_id),
        _ => None,
    }
}

/// What an update makes of the pool that it addresses. A chain-specific
/// update that was made for another block than `current_block` changes
/// nothing.
pub open spec fn pool_after<T: V4Network>(
    pool: PoolModel<T::FeeConfig>,
    update: PoolUpdate<T>,
    current_block: u64,
) -> PoolModel<T::FeeConfig> {
    match update {
        PoolUpdate::SwapEvent { event, .. } => pool.with_slot0(
            event.tick as int,
            event.sqrt_price_x96@,
            event.liquidity as nat,
        ),
        PoolUpdate::LiquidityEvent { event, .. } => pool.with_liquidity_event(
            event.tick_lower as int,
            event.tick_upper as int,
            event.liquidity_delta@,
        ),
        PoolUpdate::FeeUpdate { update, .. } => pool.with_fee_update(update),
        PoolUpdate::UpdatedSlot0 { data, .. } => pool.with_slot0(
            data.tick as int,
            data.sqrt_price_x96@,
            data.liquidity as nat,
        ),
        PoolUpdate::NewTicks { ticks, tick_bitmap, .. } => pool.with_new_ticks(
            ticks@,
            tick_bitmap@,
        ),
        PoolUpdate::ChainSpecific { update, .. } => if update.spec_valid_current_block(
            current_block,
        ) {
            update.spec_update_pool(pool)
        } else {
            pool
        },
        _ => pool,
    }
}

/// True when an update wakes those who wait for a change of the slot0 of
/// the pool that it addresses.
pub open spec fn wakes_waiters<T: V4Network>(update: PoolUpdate<T>, current_block: u64) -> bool {
    match update {
        PoolUpdate::UpdatedSlot0 { .. } => true,
        PoolUpdate::ChainSpecific { update, .. } => update.spec_valid_current_block(current_block)
            && update.spec_should_notify_waiters(),
        _ => false,
    }
}

/// Applies an update to the pool that it addresses. Returns true when those
/// who wait for a change of the pool's slot0 are to be woken.
pub fn apply_pool_update<T: V4Network>(
    pool: &mut BaselinePoolState<T::FeeConfig>,
    update: &PoolUpdate<T>,
    current_block: u64,
) -> (woken: bool)
    ensures
        final(pool)@ == pool_after(old(pool)@, *update, current_block),
        woken == wakes_waiters(*update, current_block),
{
    match update {
        PoolUpdate::SwapEvent { event, .. } => {
            pool.update_slot0(event.tick, event.sqrt_price_x96, event.liquidity);
            false
        },
        PoolUpdate::LiquidityEvent { event, .. } => {
            pool.update_liquidity(event.tick_lower, event.tick_upper, event.liquidity_delta);
            false
        },
        PoolUpdate::FeeUpdate { update, .. } => {
            pool.update_fees(*update);
            false
        },
        PoolUpdate::UpdatedSlot0 { data, .. } => {
            pool.update_slot0(data.tick, data.sqrt_price_x96, data.liquidity);
            true
        },
        PoolUpdate::NewTicks { ticks, tick_bitmap, .. } => {
            pool.extend_ticks(ticks, tick_bitmap);
            false
        },
        PoolUpdate::ChainSpecific { update, .. } => {
            if update.valid_current_block(current_block) {
                let should_notify: bool = update.should_notify_waiters();
                update.update_pool(pool);
                should_notify
            } else {
                false
            }
        },
        _ => false,
    }
}

/// The loaded pool that an update addresses.
pub fn addressed_pool_of<T: V4Network>(update: &PoolUpdate<T>) -> (r: Option<PoolId>)
    ensures
        r == addressed_pool(*update),
{
    match update {
        PoolUpdate::SwapEvent { pool_id, .. } => Some(*pool_id),
        PoolUpdate::LiquidityEvent { pool_id, .. } => Some(*pool_id),
        PoolUpdate::FeeUpdate { pool_id, .. } => Some(*pool_id),
        PoolUpdate::UpdatedSlot0 { pool_id, .. } => Some(*pool_id),
        PoolUpdate::NewTicks { pool_id, .. } => Some(*pool_id),
        PoolUpdate::ChainSpecific { pool_id, .. } => Some(*pool_id),
        _ => None,
    }
}

/// Whom to wake after a batch of updates.
pub struct BatchNotice {
    /// The block that the batch published, if it carried a block stamp: those
    /// who wait for the next block are to be woken.
    pub new_block: Option<u64>,
    /// The pools whose slot0 waiters are to be woken, in the order of the
    /// updates that changed them.
    pub slot0_changed: Vec<PoolId>,
}

/// True when `after` is what one update, applied on its own, makes of the
/// pools `before`, and `notice` says whom it wakes: the update changes the
/// pool that it addresses, its block stamp, where it has one, becomes the
/// block of the pools and wakes those who wait for the next block, and a
/// change of slot0 wakes those who wait for the pool.
pub open spec fn applied_alone<T: V4Network>(
    before: PoolsModel<T::FeeConfig>,
    update: PoolUpdate<T>,
    after: PoolsModel<T::FeeConfig>,
    notice: BatchNotice,
) -> bool {
    &&& after.pools == apply_update(before.pools, update, before.block_number)
    &&& after.block_number == match block_stamp(update) {
        Some(block_number) => block_number,
        None => before.block_number,
    }
    &&& notice.new_block == block_stamp(update)
    &&& notice.slot0_changed@ == if notifies(before.pools, update, before.block_number) {
        seq![update_pool_id(update)]
    } else {
        Seq::<PoolId>::empty()
    }
}

/// A batch of one update does what the update does on its own.
pub proof fn lemma_batch_of_one<T: V4Network>(
    before: PoolsModel<T::FeeConfig>,
    update: PoolUpdate<T>,
)
    ensures
        sorted(seq![update]) == seq![update],
        batch_result(before, seq![update]).pools == apply_update(
            before.pools,
            update,
            before.block_number,
        ),
        batch_result(before, seq![update]).block_number == match block_stamp(update) {
            Some(block_number) => block_number,
            None => before.block_number,
        },
        last_block_stamp(seq![update]) == block_stamp(update),
        notified_pools(before.pools, seq![update], before.block_number) == if notifies(
            before.pools,
            update,
            before.block_number,
        ) {
            seq![update_pool_id(update)]
        } else {
            Seq::<PoolId>::empty()
        },
{
    lemma_sorted_single(update);
    let one = seq![update];
    assert(one.drop_last() =~= Seq::<PoolUpdate<T>>::empty());
    assert(one.last() == update);
    assert(apply_all(before.pools, one.drop_last(), before.block_number) == before.pools);
    assert(last_block_stamp(one.drop_last()) is None);
    assert(notified_pools(before.pools, one.drop_last(), before.block_number)
        =~= Seq::<PoolId>::empty());
    assert(Seq::<PoolId>::empty().push(update_pool_id(update)) =~= seq![update_pool_id(update)]);
}

/// The pools, each with its state, and the block that they are up to date
/// for.
pub struct UniswapPools<T: V4Network> {
    pub pools: IdMap<BaselinePoolState<T::FeeConfig>>,
    pub block_number: u64,
}

impl<T: V4Network> View for UniswapPools<T> {
    type V = PoolsModel<T::FeeConfig>;

    open spec fn view(&self) -> PoolsModel<T::FeeConfig> {
        PoolsModel { pools: pools_of(self.pools.entries()), block_number: self.block_number }
    }
}

/// Putting a pool under an identifier puts its model under that identifier.
pub proof fn lemma_pools_inserted<F: FeeConfig>(
    entries: Seq<(B256, BaselinePoolState<F>)>,
    id: PoolId,
    pool: BaselinePoolState<F>,
)
    requires
        distinct_keys(entries),
    ensures
        pools_of(inserted(entries, id, pool)) == pools_of(entries).insert(id, pool@),
{
    let after = inserted(entries, id, pool);
    assert forall|k: PoolId| #[trigger]
        pools_of(after).contains_key(k) == pools_of(entries).insert(id, pool@).contains_key(
            k,
        ) by {
        lemma_inserted(entries, id, pool, k);
    }
    assert forall|k: PoolId| #[trigger]
        pools_of(after).contains_key(k) implies pools_of(after)[k] == pools_of(entries).insert(
        id,
        pool@,
    )[k] by {
        lemma_inserted(entries, id, pool, k);
    }
    assert(pools_of(after) =~= pools_of(entries).insert(id, pool@));
}

/// Taking an identifier out takes its pool out of the model.
pub proof fn lemma_pools_removed<F: FeeConfig>(
    entries: Seq<(B256, BaselinePoolState<F>)>,
    id: PoolId,
)
    requires
        distinct_keys(entries),
    ensures
        pools_of(removed(entries, id)) == pools_of(entries).remove(id),
{
    let after = removed(entries, id);
    assert forall|k: PoolId| #[trigger]
        pools_of(after).contains_key(k) == pools_of(entries).remove(id).contains_key(k) by {
        lemma_removed(entries, id, k);
    }
    assert forall|k: PoolId| #[trigger]
        pools_of(after).contains_key(k) implies pools_of(after)[k] == pools_of(entries).remove(
        id,
    )[k] by {
        lemma_removed(entries, id, k);
    }
    assert(pools_of(after) =~= pools_of(entries).remove(id));
}

/// Changing the pool at the place of an identifier changes its model.
pub proof fn lemma_pools_updated<F: FeeConfig>(
    entries: Seq<(B256, BaselinePoolState<F>)>,
    i: int,
    pool: BaselinePoolState<F>,
)
    requires
        distinct_keys(entries),
        0 <= i < entries.len(),
    ensures
        distinct_keys(entries.update(i, (entries[i].0, pool))),
        pools_of(entries.update(i, (entries[i].0, pool))) == pools_of(entries).insert(
            entries[i].0,
            pool@,
        ),
{
    let id = entries[i].0;
    lemma_first_index(entries, id);
    assert(first_index(entries, id) == Some(i));
    assert(inserted(entries, id, pool) == entries.update(i, (id, pool)));
    lemma_inserted(entries, id, pool, id);
    lemma_pools_inserted(entries, id, pool);
}

impl<T: V4Network> UniswapPools<T> {
    /// True for the values that a set of pools can have.
    pub open spec fn valid(&self) -> bool {
        self.pools.valid()
    }

    /// No pools, up to date for the given block.
    pub fn new(block_number: u64) -> (r: Self)
        ensures
            r.valid(),
            r@.pools == Map::<PoolId, PoolModel<T::FeeConfig>>::empty(),
            r@.block_number == block_number,
    {
        let r = UniswapPools { pools: IdMap::new(), block_number };
        proof {
            assert(r@.pools =~= Map::<PoolId, PoolModel<T::FeeConfig>>::empty());
        }
        r
    }

    /// The given pools, up to date for the given block. Of two pools under
    /// one identifier the later one stays.
    pub fn from_pools(pools: Vec<(PoolId, BaselinePoolState<T::FeeConfig>)>, block_number: u64) -> (r:
        Self)
        ensures
            r.valid(),
            r@.block_number == block_number,
            r@.pools == with_pools(Map::<PoolId, PoolModel<T::FeeConfig>>::empty(), pools@),
    {
        let mut r: Self = Self::new(block_number);
        let mut rest: Vec<(PoolId, BaselinePoolState<T::FeeConfig>)> = pools;
        let ghost mut done: Seq<(PoolId, BaselinePoolState<T::FeeConfig>)> = Seq::empty();
        proof {
            assert(done + rest@ =~= pools@);
        }
        while rest.len() > 0
            invariant
                r.valid(),
                r@.block_number == block_number,
                done + rest@ == pools@,
                r@.pools == with_pools(Map::<PoolId, PoolModel<T::FeeConfig>>::empty(), done),
            decreases rest.len(),
        {
            let ghost rest_before = rest@;
            let entry = rest.remove(0);
            proof {
                assert(done.push(entry) + rest@ =~= done + rest_before);
                assert(done.push(entry).drop_last() =~= done);
                done = done.push(entry);
            }
            r.insert_pool(entry.0, entry.1);
        }
        proof {
            assert(done + rest@ =~= done);
        }
        r
    }

    /// True when the set of pools is valid, as every set is that was made and
    /// changed by the functions of this type.
    pub fn check_valid(&self) -> (r: bool)
        ensures
            r == self.valid(),
    {
        self.pools.check_valid()
    }

    /// The block that the pools are up to date for.
    pub fn get_block(&self) -> (r: u64)
        ensures
            r == self@.block_number,
    {
        self.block_number
    }

    /// The state of a pool.
    pub fn get_pool(&self, pool_id: &PoolId) -> (r: Option<&BaselinePoolState<T::FeeConfig>>)
        ensures
            match r {
                Some(pool) => self@.pools.contains_key(*pool_id) && self@.pools[*pool_id] == pool@,
                None => !self@.pools.contains_key(*pool_id),
            },
    {
        self.pools.get(pool_id)
    }

    /// The state of a pool, to change it.
    pub fn get_pool_mut(&mut self, pool_id: &PoolId) -> (r: Option<
        &mut BaselinePoolState<T::FeeConfig>,
    >)
        requires
            old(self).valid(),
        ensures
            final(self).valid(),
            final(self)@.block_number == old(self)@.block_number,
            match r {
                Some(pool) => old(self)@.pools.contains_key(*pool_id) && pool@ == old(
                    self,
                )@.pools[*pool_id] && final(self)@.pools == old(self)@.pools.insert(
                    *pool_id,
                    final(pool)@,
                ),
                None => !old(self)@.pools.contains_key(*pool_id) && final(self)@.pools == old(
                    self,
                )@.pools,
            },
    {
        proof {
            self.pools.lemma_entries_valid();
        }
        match self.pools.index_of(pool_id) {
            Some(i) => {
                let ghost entries = self.pools.entries();
                let pool = self.pools.value_at_mut(i);
                proof {
                    assert forall|after: BaselinePoolState<T::FeeConfig>|
                        pools_of(#[trigger] entries.update(i as int, (entries[i as int].0, after)))
                            == pools_of(entries).insert(*pool_id, after@) by {
                        lemma_pools_updated(entries, i as int, after);
                    }
                }
                Some(pool)
            },
            None => None,
        }
    }

    /// The pools, to change them.
    pub fn get_pools_mut(&mut self) -> (r: &mut IdMap<BaselinePoolState<T::FeeConfig>>)
        ensures
            *r == old(self).pools,
            final(self).pools == *final(r),
            final(self).block_number == old(self).block_number,
    {
        &mut self.pools
    }

    /// True when the pool is loaded.
    pub fn contains_pool(&self, pool_id: &PoolId) -> (r: bool)
        ensures
            r == self@.pools.contains_key(*pool_id),
    {
        self.pools.contains_key(pool_id)
    }

    /// The pools.
    pub fn get_pools(&self) -> (r: &IdMap<BaselinePoolState<T::FeeConfig>>)
        ensures
            *r == self.pools,
    {
        &self.pools
    }

    /// The identifiers of the loaded pools, in the order of their loading.
    pub fn pool_ids(&self) -> (r: Vec<PoolId>)
        ensures
            r@ == crate::id_map::keys_of(self.pools.entries()),
    {
        self.pools.keys()
    }

    /// Puts a pool under an identifier that has none yet.
    pub fn initialize_pool(&mut self, pool_id: PoolId, pool: BaselinePoolState<T::FeeConfig>) -> (r:
        Result<(), crate::errors::PoolError>)
        requires
            old(self).valid(),
        ensures
            final(self).valid(),
            final(self)@.block_number == old(self)@.block_number,
            match r {
                Ok(_) => !old(self)@.pools.contains_key(pool_id) && final(self)@.pools == old(
                    self,
                )@.pools.insert(pool_id, pool@),
                Err(e) => e is PoolAlreadyInitialized && old(self)@.pools.contains_key(pool_id)
                    && final(self)@.pools == old(self)@.pools,
            },
    {
        if self.pools.contains_key(&pool_id) {
            Err(crate::errors::PoolError::PoolAlreadyInitialized)
        } else {
            self.insert_pool(pool_id, pool);
            Ok(())
        }
    }

    /// The state of a pool that has to be there.
    pub fn initialized_pool(&self, pool_id: &PoolId) -> (r: Result<
        &BaselinePoolState<T::FeeConfig>,
        crate::errors::PoolError,
    >)
        ensures
            match r {
                Ok(pool) => self@.pools.contains_key(*pool_id) && self@.pools[*pool_id] == pool@,
                Err(e) => e is PoolNotInitialized && !self@.pools.contains_key(*pool_id),
            },
    {
        match self.pools.get(pool_id) {
            Some(pool) => Ok(pool),
            None => Err(crate::errors::PoolError::PoolNotInitialized),
        }
    }

    /// Puts a pool under an identifier, in place of the pool that was there.
    pub fn insert_pool(&mut self, pool_id: PoolId, pool: BaselinePoolState<T::FeeConfig>)
        requires
            old(self).valid(),
        ensures
            final(self).valid(),
            final(self)@.pools == old(self)@.pools.insert(pool_id, pool@),
            final(self)@.block_number == old(self)@.block_number,
    {
        proof {
            lemma_pools_inserted(self.pools.entries(), pool_id, pool);
        }
        self.pools.insert(pool_id, pool);
    }

    /// Takes a pool out.
    pub fn remove_pool(&mut self, pool_id: &PoolId) -> (r: Option<BaselinePoolState<T::FeeConfig>>)
        requires
            old(self).valid(),
        ensures
            final(self).valid(),
            final(self)@.pools == old(self)@.pools.remove(*pool_id),
            final(self)@.block_number == old(self)@.block_number,
            match r {
                Some(pool) => old(self)@.pools.contains_key(*pool_id) && old(self)@.pools[*pool_id]
                    == pool@,
                None => !old(self)@.pools.contains_key(*pool_id),
            },
    {
        proof {
            lemma_pools_removed(self.pools.entries(), *pool_id);
        }
        self.pools.remove(pool_id)
    }

    /// Applies one update to the pools. Returns the pool whose slot0 waiters
    /// the update wakes, if it wakes any.
    fn apply_one(&mut self, update: PoolUpdate<T>, current_block: u64) -> (woken: Option<PoolId>)
        requires
            old(self).valid(),
        ensures
            final(self).valid(),
            final(self).block_number == old(self).block_number,
            final(self)@.pools == apply_update(old(self)@.pools, update, current_block),
            woken == (if notifies(old(self)@.pools, update, current_block) {
                Some(update_pool_id(update))
            } else {
                None
            }),
    {
        proof {
            self.pools.lemma_entries_valid();
        }
        match update {
            PoolUpdate::NewPoolState { pool_id, state } => {
                proof {
                    lemma_pools_inserted(self.pools.entries(), pool_id, state);
                }
                self.pools.insert(pool_id, state);
                None
            },
            other => {
                let pool_id: PoolId = match addressed_pool_of(&other) {
                    Some(id) => id,
                    None => {
                        return None;
                    },
                };
                match self.pools.index_of(&pool_id) {
                    Some(i) => {
                        let pool = self.pools.value_at_mut(i);
                        let woken: bool = apply_pool_update(pool, &other, current_block);
                        proof {
                            lemma_pools_updated(
                                old(self).pools.entries(),
                                i as int,
                                self.pools.entries()[i as int].1,
                            );
                            assert(old(self)@.pools.insert(pool_id, old(self)@.pools[pool_id])
                                =~= old(self)@.pools);
                        }
                        if woken {
                            Some(pool_id)
                        } else {
                            None
                        }
                    },
                    None => None,
                }
            },
        }
    }

    /// Applies a batch of updates: in the order of their sort keys, so that
    /// the events of a block apply in the order of the chain and everything
    /// else after them. The last block stamp of the batch becomes the block of
    /// the pools; a batch without one leaves the block as it is. An update for
    /// a pool that is not loaded is skipped, and so is a chain-specific update
    /// that was made for another block.
    pub fn update_pools(&mut self, updates: Vec<PoolUpdate<T>>) -> (notice: BatchNotice)
        requires
            old(self).valid(),
        ensures
            final(self).valid(),
            final(self)@ == batch_result(old(self)@, updates@),
            notice.new_block == last_block_stamp(sorted(updates@)),
            notice.slot0_changed@ == notified_pools(
                old(self)@.pools,
                sorted(updates@),
                old(self)@.block_number,
            ),
    {
        let current_block: u64 = self.block_number;
        let mut rest: Vec<PoolUpdate<T>> = updates;
        let mut new_block: Option<u64> = None;
        let mut slot0_changed: Vec<PoolId> = Vec::new();
        let ghost mut done: Seq<PoolUpdate<T>> = Seq::empty();
        proof {
            assert(done + sorted(rest@) =~= sorted(updates@));
        }
        while rest.len() > 0
            invariant
                self.valid(),
                self.block_number == current_block,
                current_block == old(self).block_number,
                sorted(updates@) == done + sorted(rest@),
                self@.pools == apply_all(old(self)@.pools, done, current_block),
                new_block == last_block_stamp(done),
                slot0_changed@ == notified_pools(old(self)@.pools, done, current_block),
            decreases rest.len(),
        {
            let i: usize = index_of_first_min(&rest);
            let ghost before = rest@;
            let update: PoolUpdate<T> = rest.remove(i);
            proof {
                assert(rest@ == before.remove(i as int));
                assert(sorted(before) == seq![update] + sorted(rest@));
                assert(done + (seq![update] + sorted(rest@)) =~= done.push(update)
                    + sorted(rest@));
                assert(done.push(update).drop_last() =~= done);
                done = done.push(update);
            }
            match update {
                PoolUpdate::NewBlock(block_number) => {
                    new_block = Some(block_number);
                },
                PoolUpdate::Reorg { to_block, .. } => {
                    new_block = Some(to_block);
                },
                _ => {},
            }
            match self.apply_one(update, current_block) {
                Some(pool_id) => {
                    slot0_changed.push(pool_id);
                },
                None => {},
            }
        }
        proof {
            assert(sorted(rest@) =~= Seq::<PoolUpdate<T>>::empty());
            assert(done + Seq::<PoolUpdate<T>>::empty() =~= done);
        }
        match new_block {
            Some(block_number) => {
                self.block_number = block_number;
            },
            None => {},
        }
        BatchNotice { new_block, slot0_changed }
    }

    /// Takes every update that a source has ready and applies them as one
    /// batch.
    pub fn update_from_source<D: PoolUpdateDelivery<T>>(&mut self, source: &mut D) -> (notice:
        BatchNotice)
        requires
            old(self).valid(),
        ensures
            final(self).valid(),
            exists|updates: Seq<PoolUpdate<T>>|
                final(self)@ == batch_result(old(self)@, updates) && notice.new_block
                    == last_block_stamp(sorted(updates)),
    {
        let mut updates: Vec<PoolUpdate<T>> = Vec::new();
        let mut taken: usize = 0;
        while taken < usize::MAX
            invariant
                taken <= usize::MAX,
            decreases usize::MAX - taken,
        {
            match source.next_update() {
                Some(update) => {
                    updates.push(update);
                },
                None => {
                    break ;
                },
            }
            taken = taken + 1;
        }
        self.update_pools(updates)
    }

    /// Takes the next update of a source, as [`PoolUpdateDeliveryExt::next_update`]
    /// finds it, and applies it as a batch of one. Returns whom to wake, or
    /// `None` where the source handed out nothing; the pools then stay as they
    /// are.
    pub fn update_single_from_source<D: PoolUpdateDelivery<T>>(&mut self, source: &mut D) -> (r:
        Option<BatchNotice>)
        requires
            old(self).valid(),
        ensures
            final(self).valid(),
            match r {
                Some(notice) => exists|update: PoolUpdate<T>| #[trigger]
                    next_update_is::<T, D>(*old(source), Some(update), *final(source))
                        && applied_alone(old(self)@, update, final(self)@, notice),
                None => next_update_is::<T, D>(
                    *old(source),
                    None::<PoolUpdate<T>>,
                    *final(source),
                ) && final(self)@ == old(self)@,
            },
    {
        match source.next_update() {
            Some(update) => {
                let mut updates: Vec<PoolUpdate<T>> = Vec::new();
                updates.push(update);
                proof {
                    assert(updates@ =~= seq![update]);
                    assert(next_update_is::<T, D>(*old(source), Some(update), *source));
                }
                let notice = self.update_pools(updates);
                proof {
                    lemma_batch_of_one(old(self)@, update);
                    assert(applied_alone(old(self)@, update, self@, notice));
                }
                Some(notice)
            },
            None => None,
        }
    }


    /// The batch in the order in which [`Self::update_pools`] applies it.
    pub fn sort_updates(updates: Vec<PoolUpdate<T>>) -> (out: Vec<PoolUpdate<T>>)
        ensures
            out@ == sorted(updates@),
    {
        stable_sort(updates)
    }
}

/// Ordering law: a batch whose sort keys differ, as those of the swap and
/// liquidity events of one block do, leaves the same pools behind in whatever
/// order its updates come.
pub proof fn lemma_batch_order_independent<T: V4Network>(
    before: PoolsModel<T::FeeConfig>,
    a: Seq<PoolUpdate<T>>,
    b: Seq<PoolUpdate<T>>,
)
    requires
        a.to_multiset() == b.to_multiset(),
        distinct_sort_keys(a),
    ensures
        batch_result(before, a) == batch_result(before, b),
{
    lemma_sorted_of_permutation(a, b);
}

/// The block stamp of a list of updates is the stamp of one of them.
pub proof fn lemma_last_block_stamp<T: V4Network>(updates: Seq<PoolUpdate<T>>)
    ensures
        match last_block_stamp(updates) {
            Some(b) => exists|j: int|
                0 <= j < updates.len() && block_stamp(#[trigger] updates[j]) == Some(b),
            None => forall|j: int|
                0 <= j < updates.len() ==> block_stamp(#[trigger] updates[j]) is None,
        },
    decreases updates.len(),
{
    if updates.len() > 0 {
        let front = updates.drop_last();
        lemma_last_block_stamp(front);
        match block_stamp(updates.last()) {
            Some(b) => {
                assert(block_stamp(updates[updates.len() - 1]) == Some(b));
            },
            None => {
                match last_block_stamp(front) {
                    Some(b) => {
                        let j = choose|j: int|
                            0 <= j < front.len() && block_stamp(#[trigger] front[j]) == Some(b);
                        assert(updates[j] == front[j]);
                    },
                    None => {
                        assert forall|j: int| 0 <= j < updates.len() implies block_stamp(
                            #[trigger] updates[j],
                        ) is None by {
                            if j < updates.len() - 1 {
                                assert(updates[j] == front[j]);
                            }
                        }
                    },
                }
            },
        }
    }
}

/// Monotonicity law: a batch whose block stamps are not behind the block of
/// the pools does not move the block of the pools back, and a batch without a
/// block stamp leaves it where it is.
pub proof fn lemma_block_number_monotonic<T: V4Network>(
    before: PoolsModel<T::FeeConfig>,
    updates: Seq<PoolUpdate<T>>,
)
    requires
        forall|i: int|
            0 <= i < updates.len() && block_stamp(#[trigger] updates[i]) is Some ==> block_stamp(
                updates[i],
            )->Some_0 >= before.block_number,
    ensures
        batch_result(before, updates).block_number >= before.block_number,
        (forall|i: int| 0 <= i < updates.len() ==> block_stamp(#[trigger] updates[i]) is None)
            ==> batch_result(before, updates).block_number == before.block_number,
{
    let ordered = sorted(updates);
    lemma_last_block_stamp(ordered);
    match last_block_stamp(ordered) {
        Some(b) => {
            let j = choose|j: int|
                0 <= j < ordered.len() && block_stamp(#[trigger] ordered[j]) == Some(b);
            lemma_sorted_members(updates, j);
            let i = choose|i: int| 0 <= i < updates.len() && updates[i] == ordered[j];
            assert(block_stamp(updates[i]) == Some(b));
        },
        None => {},
    }
}

/// True when two liquidity maps hold the same tick table and bitmap.
pub open spec fn same_ticks(a: LiquidityModel, b: LiquidityModel) -> bool {
    a.tick_spacing == b.tick_spacing && a.ticks == b.ticks && a.bits == b.bits
}

/// True when the tick table of a pool and its bitmap agree and the net
/// liquidity of its ticks sums to zero.
pub open spec fn sound_pool<F: FeeConfig>(pool: PoolModel<F>) -> bool {
    pool.liquidity.consistent() && pool.liquidity.conserved()
}

/// True when every pool of a map is sound.
pub open spec fn sound_pools<F: FeeConfig>(pools: Map<PoolId, PoolModel<F>>) -> bool {
    forall|id: PoolId| #[trigger] pools.contains_key(id) ==> sound_pool(pools[id])
}

/// True for the updates that cannot spoil the tick data of a sound pool:
/// block stamps, events, fee and slot0 updates, a newly loaded pool that is
/// sound, and a chain-specific update that leaves the tick data alone. Loaded
/// tick data is merged as it comes and is not among them.
pub open spec fn keeps_ticks<T: V4Network>(update: PoolUpdate<T>) -> bool {
    match update {
        PoolUpdate::NewTicks { .. } => false,
        PoolUpdate::NewPoolState { state, .. } => sound_pool(state@),
        PoolUpdate::ChainSpecific { update, .. } => forall|pool: PoolModel<T::FeeConfig>|
            same_ticks((#[trigger] update.spec_update_pool(pool)).liquidity, pool.liquidity),
        _ => true,
    }
}

/// Two liquidity maps with the same tick table have the same net sums.
pub proof fn lemma_same_ticks_same_sums(a: LiquidityModel, b: LiquidityModel, t: int)
    requires
        same_ticks(a, b),
    ensures
        a.net_sum_upto(t) == b.net_sum_upto(t),
        a.consistent() == b.consistent(),
    decreases t - MIN_TICK + 1,
{
    if t >= MIN_TICK {
        lemma_same_ticks_same_sums(a, b, t - 1);
    }
}

/// Soundness law for one update: an update that keeps ticks leaves every
/// pool with a tick table and bitmap that agree and net liquidity that sums
/// to zero.
pub proof fn lemma_update_keeps_pools_sound<T: V4Network>(
    pools: Map<PoolId, PoolModel<T::FeeConfig>>,
    update: PoolUpdate<T>,
    current_block: u64,
)
    requires
        sound_pools(pools),
        keeps_ticks(update),
    ensures
        sound_pools(apply_update(pools, update, current_block)),
{
    match pool_change(pools, update, current_block) {
        Some((pool_id, pool)) => {
            assert(sound_pool(pool)) by {
                match update {
                    PoolUpdate::LiquidityEvent { event, .. } => {
                        let m = pools[pool_id].liquidity;
                        let lower = event.tick_lower as int;
                        let upper = event.tick_upper as int;
                        let delta = event.liquidity_delta@;
                        lemma_update_preserves_net_sum(m, lower, upper, delta);
                        lemma_update_preserves_consistency(m, lower, upper, delta);
                    },
                    PoolUpdate::NewPoolState { .. } => {},
                    _ => {
                        assert(pools.contains_key(pool_id));
                        lemma_same_ticks_same_sums(
                            pool.liquidity,
                            pools[pool_id].liquidity,
                            MAX_TICK as int,
                        );
                    },
                }
            }
        },
        None => {},
    }
}

/// Soundness law: a batch of updates that keep ticks, applied to sound pools,
/// leaves every pool sound: the net liquidity of its initialized ticks sums to
/// zero, every initialized tick carries liquidity and has its bit set, and
/// every set bit belongs to an initialized tick.
pub proof fn lemma_batch_keeps_pools_sound<T: V4Network>(
    before: PoolsModel<T::FeeConfig>,
    updates: Seq<PoolUpdate<T>>,
)
    requires
        sound_pools(before.pools),
        forall|i: int| 0 <= i < updates.len() ==> keeps_ticks(#[trigger] updates[i]),
    ensures
        sound_pools(batch_result(before, updates).pools),
{
    let ordered = sorted(updates);
    assert forall|j: int| 0 <= j < ordered.len() implies keeps_ticks(#[trigger] ordered[j]) by {
        lemma_sorted_members(updates, j);
        let i = choose|i: int| 0 <= i < updates.len() && updates[i] == ordered[j];
        assert(keeps_ticks(updates[i]));
    }
    lemma_list_keeps_pools_sound(before.pools, ordered, before.block_number);
}

/// A list of updates that keep ticks, applied in order to sound pools, leaves
/// every pool sound.
pub proof fn lemma_list_keeps_pools_sound<T: V4Network>(
    pools: Map<PoolId, PoolModel<T::FeeConfig>>,
    updates: Seq<PoolUpdate<T>>,
    current_block: u64,
)
    requires
        sound_pools(pools),
        forall|i: int| 0 <= i < updates.len() ==> keeps_ticks(#[trigger] updates[i]),
    ensures
        sound_pools(apply_all(pools, updates, current_block)),
    decreases updates.len(),
{
    if updates.len() > 0 {
        let front = updates.drop_last();
        assert forall|i: int| 0 <= i < front.len() implies keeps_ticks(#[trigger] front[i]) by {
            assert(front[i] == updates[i]);
        }
        lemma_list_keeps_pools_sound(pools, front, current_block);
        assert(keeps_ticks(updates[updates.len() - 1]));
        lemma_update_keeps_pools_sound(
            apply_all(pools, front, current_block),
            updates.last(),
            current_block,
        );
    }
}

/// Every chain-specific update of the Ethereum deployment leaves the tick data
/// of a pool alone.
pub proof fn lemma_l1_update_keeps_ticks(pool_id: PoolId, update: L1PoolUpdate)
    ensures
        keeps_ticks(PoolUpdate::<Ethereum>::ChainSpecific { pool_id, update }),
{
}

/// Every chain-specific update of the Optimism deployment leaves the tick data
/// of a pool alone.
pub proof fn lemma_l2_update_keeps_ticks(pool_id: PoolId, update: L2PoolUpdate)
    ensures
        keeps_ticks(PoolUpdate::<Optimism>::ChainSpecific { pool_id, update }),
{
}

} // verus!
