//! The chain-update provider: what it keeps between blocks and what it
//! decides. It turns the logs of a block into pool updates, keeps the
//! liquidity events of the last blocks, and on a reorganization undoes them
//! and replays what the chain then holds. Reading logs and pool state from
//! the node is left to the caller, who hands in what the node answered.

use vstd::prelude::*;
use crate::logs::{RawLog, decode_modify_liquidity, decode_swap, modify_liquidity_decodes, swap_decodes};
use crate::network::V4Network;
use crate::pool_updates::{ModifyLiquidityEventData, PoolUpdate, Slot0Data, SwapEventData, UpdatePool};
use crate::primitives::{Address, B256, PoolId};

verus! {

/// Which updates a provider hands on.
#[derive(Debug, Clone, Copy, PartialEq, Eq, Structural)]
pub enum StreamMode {
    /// All updates.
    Full,
    /// Only the updates that set pools up: new pools, fee updates and slot0
    /// updates.
    InitializationOnly,
}

impl Default for StreamMode {
    fn default() -> (r: StreamMode)
        ensures
            r == StreamMode::Full,
    {
        StreamMode::Full
    }
}

/// The number of blocks whose liquidity events a provider keeps, unless it is
/// told otherwise.
pub const DEFAULT_REORG_DETECTION_BLOCKS: u64 = 10;

/// The largest span of blocks that a provider asks the node for at once,
/// unless it is told otherwise.
pub const DEFAULT_REORG_LOOKBACK_BLOCK_CHUNK: u64 = 100;

/// A liquidity event kept for the case of a reorganization.
#[derive(Debug, Clone, Copy, PartialEq, Eq)]
pub struct StoredEvent {
    pub block: u64,
    pub tx_index: u64,
    pub log_index: u64,
    pub pool_id: PoolId,
    pub liquidity_event: ModifyLiquidityEventData,
}

/// The first block of the window of `detection` blocks that ends at block
/// `current`.
pub open spec fn window_start(current: u64, detection: u64) -> int {
    if current + 1 >= detection {
        current + 1 - detection
    } else {
        0
    }
}

/// The events of a history that lie at or after a block, in order.
pub open spec fn kept_from(history: Seq<StoredEvent>, start: int) -> Seq<StoredEvent>
    decreases history.len(),
{
    if history.len() == 0 {
        Seq::empty()
    } else {
        let rest = kept_from(history.drop_last(), start);
        if history.last().block >= start {
            rest.push(history.last())
        } else {
            rest
        }
    }
}

/// The events of a history that lie before a block, in order.
pub open spec fn kept_before(history: Seq<StoredEvent>, end: int) -> Seq<StoredEvent>
    decreases history.len(),
{
    if history.len() == 0 {
        Seq::empty()
    } else {
        let rest = kept_before(history.drop_last(), end);
        if history.last().block < end {
            rest.push(history.last())
        } else {
            rest
        }
    }
}

/// A list of pools without one pool.
pub open spec fn without_pool(pools: Seq<PoolId>, pool_id: PoolId) -> Seq<PoolId>
    decreases pools.len(),
{
    if pools.len() == 0 {
        Seq::empty()
    } else {
        let rest = without_pool(pools.drop_last(), pool_id);
        if pools.last() == pool_id {
            rest
        } else {
            rest.push(pools.last())
        }
    }
}

/// The update that undoes a stored liquidity event: the same event with the
/// opposite delta.
pub open spec fn inverse_update<T: V4Network>(event: StoredEvent, inverse: PoolUpdate<T>) -> bool {
    &&& inverse is LiquidityEvent
    &&& inverse->LiquidityEvent_pool_id == event.pool_id
    &&& inverse->LiquidityEvent_block == event.block
    &&& inverse->LiquidityEvent_tx_index == event.tx_index
    &&& inverse->LiquidityEvent_log_index == event.log_index
    &&& inverse->LiquidityEvent_event.sender == event.liquidity_event.sender
    &&& inverse->LiquidityEvent_event.tick_lower == event.liquidity_event.tick_lower
    &&& inverse->LiquidityEvent_event.tick_upper == event.liquidity_event.tick_upper
    &&& inverse->LiquidityEvent_event.salt == event.liquidity_event.salt
    &&& inverse->LiquidityEvent_event.liquidity_delta@
        == event.liquidity_event.liquidity_delta.spec_wrapping_neg()
}

/// The stored events from place `i` on that lie in a span of blocks, last
/// event first.
pub open spec fn reversed_in_span(history: Seq<StoredEvent>, i: int, from: u64, to: u64) -> Seq<
    StoredEvent,
>
    decreases history.len() - i,
{
    if i < 0 || i >= history.len() {
        Seq::empty()
    } else {
        let later = reversed_in_span(history, i + 1, from, to);
        if from <= history[i].block <= to {
            later.push(history[i])
        } else {
            later
        }
    }
}

/// True when each update of a list undoes the stored event at its place.
pub open spec fn inverse_updates<T: V4Network>(
    events: Seq<StoredEvent>,
    updates: Seq<PoolUpdate<T>>,
) -> bool {
    &&& updates.len() == events.len()
    &&& forall|k: int| 0 <= k < events.len() ==> inverse_update(events[k], #[trigger] updates[k])
}

/// True for the updates that belong to the set-up of pools.
pub open spec fn is_initialization_update<T: V4Network>(update: PoolUpdate<T>) -> bool {
    match update {
        PoolUpdate::FeeUpdate { .. } => true,
        PoolUpdate::UpdatedSlot0 { .. } => true,
        PoolUpdate::NewPoolState { .. } => true,
        PoolUpdate::ChainSpecific { update, .. } => update.spec_is_initialization_event(),
        _ => false,
    }
}

/// The updates that a provider in a given mode hands on, in order.
pub open spec fn kept_for_mode<T: V4Network>(updates: Seq<PoolUpdate<T>>, mode: StreamMode) -> Seq<
    PoolUpdate<T>,
>
    decreases updates.len(),
{
    if updates.len() == 0 {
        Seq::empty()
    } else {
        let rest = kept_for_mode(updates.drop_last(), mode);
        if mode == StreamMode::Full || is_initialization_update(updates.last()) {
            rest.push(updates.last())
        } else {
            rest
        }
    }
}

/// The pool whose state an update changes, if it changes one.
pub open spec fn affected_pool<T: V4Network>(update: PoolUpdate<T>) -> Option<PoolId> {
    match update {
        PoolUpdate::SwapEvent { pool_id, .. } => Some(pool_id),
        PoolUpdate::LiquidityEvent { pool_id, .. } => Some(pool_id),
        PoolUpdate::UpdatedSlot0 { pool_id, .. } => Some(pool_id),
        PoolUpdate::FeeUpdate { pool_id, .. } => Some(pool_id),
        PoolUpdate::ChainSpecific { pool_id, update } => if update.spec_is_pool_affected() {
            Some(pool_id)
        } else {
            None
        },
        _ => None,
    }
}

/// A list of pools with the pools that a list of updates affects added, each
/// pool once, in the order in which the updates first name them.
pub open spec fn with_affected<T: V4Network>(pools: Seq<PoolId>, updates: Seq<PoolUpdate<T>>) -> Seq<
    PoolId,
>
    decreases updates.len(),
{
    if updates.len() == 0 {
        pools
    } else {
        let rest = with_affected(pools, updates.drop_last());
        match affected_pool(updates.last()) {
            Some(id) => if rest.contains(id) {
                rest
            } else {
                rest.push(id)
            },
            None => rest,
        }
    }
}

/// The liquidity events among a list of updates, as the history stores
/// them, in order.
pub open spec fn stored_events<T: V4Network>(updates: Seq<PoolUpdate<T>>) -> Seq<StoredEvent>
    decreases updates.len(),
{
    if updates.len() == 0 {
        Seq::empty()
    } else {
        let rest = stored_events(updates.drop_last());
        match updates.last() {
            PoolUpdate::LiquidityEvent { pool_id, block, tx_index, log_index, event } => rest.push(
                StoredEvent { block, tx_index, log_index, pool_id, liquidity_event: event },
            ),
            _ => rest,
        }
    }
}

/// The spans of at most `chunk` blocks that cover the blocks `from ..= to`,
/// in order. A chunk of zero counts as one.
pub open spec fn backfill_spans(from: int, to: int, chunk: int) -> Seq<(u64, u64)>
    decreases to - from + 1,
{
    let step = if chunk <= 0 {
        1
    } else {
        chunk
    };
    if from > to || from < 0 || to > u64::MAX {
        Seq::empty()
    } else {
        let end = if from + step - 1 < to {
            from + step - 1
        } else {
            to
        };
        seq![(from as u64, end as u64)] + backfill_spans(end + 1, to, chunk)
    }
}

/// The update that a swap log of a followed pool becomes.
pub open spec fn swap_update_is<T: V4Network>(log: RawLog, update: PoolUpdate<T>) -> bool {
    &&& update is SwapEvent
    &&& update->SwapEvent_block == log.block_number
    &&& update->SwapEvent_tx_index == log.transaction_index
    &&& update->SwapEvent_log_index == log.log_index
    &&& crate::logs::swap_is(
        log,
        crate::logs::SwapLog {
            id: update->SwapEvent_pool_id,
            sender: update->SwapEvent_event.sender,
            amount0: update->SwapEvent_event.amount0,
            amount1: update->SwapEvent_event.amount1,
            sqrt_price_x96: update->SwapEvent_event.sqrt_price_x96,
            liquidity: update->SwapEvent_event.liquidity,
            tick: update->SwapEvent_event.tick,
            fee: update->SwapEvent_event.fee,
        },
    )
}

/// The update that a liquidity log of a followed pool becomes.
pub open spec fn liquidity_update_is<T: V4Network>(log: RawLog, update: PoolUpdate<T>) -> bool {
    &&& update is LiquidityEvent
    &&& update->LiquidityEvent_block == log.block_number
    &&& update->LiquidityEvent_tx_index == log.transaction_index
    &&& update->LiquidityEvent_log_index == log.log_index
    &&& crate::logs::modify_liquidity_is(
        log,
        crate::logs::ModifyLiquidityLog {
            id: update->LiquidityEvent_pool_id,
            sender: update->LiquidityEvent_event.sender,
            tick_lower: update->LiquidityEvent_event.tick_lower,
            tick_upper: update->LiquidityEvent_event.tick_upper,
            liquidity_delta: update->LiquidityEvent_event.liquidity_delta,
            salt: B256 { bytes: update->LiquidityEvent_event.salt },
        },
    )
}

/// True when a swap log is one of a pool in a list and decodes.
pub open spec fn swap_counts(log: RawLog, followed: Seq<PoolId>) -> bool {
    swap_decodes(log) && followed.contains(log.topics@[1])
}

/// True when a liquidity log is one of a pool in a list and decodes.
pub open spec fn liquidity_counts(log: RawLog, followed: Seq<PoolId>) -> bool {
    modify_liquidity_decodes(log) && followed.contains(log.topics@[1])
}

/// The swap logs of followed pools among a list of logs, in order.
pub open spec fn counted_swaps(logs: Seq<RawLog>, followed: Seq<PoolId>) -> Seq<RawLog>
    decreases logs.len(),
{
    if logs.len() == 0 {
        Seq::empty()
    } else {
        let rest = counted_swaps(logs.drop_last(), followed);
        if swap_counts(logs.last(), followed) {
            rest.push(logs.last())
        } else {
            rest
        }
    }
}

/// The liquidity logs of followed pools among a list of logs, in order.
pub open spec fn counted_liquidity(logs: Seq<RawLog>, followed: Seq<PoolId>) -> Seq<RawLog>
    decreases logs.len(),
{
    if logs.len() == 0 {
        Seq::empty()
    } else {
        let rest = counted_liquidity(logs.drop_last(), followed);
        if liquidity_counts(logs.last(), followed) {
            rest.push(logs.last())
        } else {
            rest
        }
    }
}

/// True when each update of a list is the swap update of the log at its
/// place.
pub open spec fn swap_updates_are<T: V4Network>(logs: Seq<RawLog>, updates: Seq<PoolUpdate<T>>) -> bool {
    &&& updates.len() == logs.len()
    &&& forall|k: int| 0 <= k < logs.len() ==> swap_update_is(logs[k], #[trigger] updates[k])
}

/// True when each update of a list is the liquidity update of the log at
/// its place.
pub open spec fn liquidity_updates_are<T: V4Network>(
    logs: Seq<RawLog>,
    updates: Seq<PoolUpdate<T>>,
) -> bool {
    &&& updates.len() == logs.len()
    &&& forall|k: int| 0 <= k < logs.len() ==> liquidity_update_is(logs[k], #[trigger] updates[k])
}

/// The slot0 updates of a list of pools with their slot0.
pub open spec fn slot0_updates<T: V4Network>(slot0: Seq<(PoolId, Slot0Data)>) -> Seq<PoolUpdate<T>> {
    Seq::new(
        slot0.len(),
        |k: int| PoolUpdate::UpdatedSlot0 { pool_id: slot0[k].0, data: slot0[k].1 },
    )
}

/// What the arrival of a block means to a provider.
#[derive(Debug, Clone, Copy, PartialEq, Eq, Structural)]
pub enum BlockArrival {
    /// The block has the number of the current block: the chain was
    /// reorganized.
    Reorg,
    /// The block lies ahead of the current block.
    Next,
    /// The block lies behind the current block and is ignored.
    Stale,
}

/// What a provider does first when the chain was reorganized.
pub struct ReorgPlan<T: V4Network> {
    /// First block of the span that is replayed.
    pub from_block: u64,
    /// Last block of the span: the current block.
    pub to_block: u64,
    /// The updates that undo the stored liquidity events of the span, last
    /// event first.
    pub inverse_events: Vec<PoolUpdate<T>>,
    /// The spans of blocks to ask the node for, in order.
    pub spans: Vec<(u64, u64)>,
}

/// What a provider makes of the arrival of a block.
pub enum BlockOutcome<T: V4Network> {
    /// The chain was reorganized: the first step of the repair.
    Reorg(ReorgPlan<T>),
    /// The block lay ahead: the updates to hand on.
    Updates(Vec<PoolUpdate<T>>),
    /// The block lay behind and was ignored.
    Stale,
}

/// The state of the chain-update provider.
pub struct PoolUpdateProvider<T: V4Network> {
    pub pool_manager: Address,
    pub address_book: T::AddressBook,
    pub pool_registry: T::PoolRegistry,
    /// The pools whose events the provider follows, by the pool manager's
    /// identifier, each once.
    pub tracked_pools: Vec<PoolId>,
    /// The liquidity events of the last blocks, oldest first.
    pub event_history: Vec<StoredEvent>,
    pub current_block: u64,
    pub reorg_detection_blocks: u64,
    pub reorg_lookback_block_chunk: u64,
    pub stream_mode: StreamMode,
}

/// True when a list holds a pool.
pub fn contains_pool(pools: &Vec<PoolId>, pool_id: &PoolId) -> (r: bool)
    ensures
        r == pools@.contains(*pool_id),
{
    let mut i: usize = 0;
    while i < pools.len()
        invariant
            i <= pools.len(),
            forall|j: int| 0 <= j < i ==> pools@[j] != *pool_id,
        decreases pools.len() - i,
    {
        if pools[i].same(pool_id) {
            return true;
        }
        i = i + 1;
    }
    false
}

impl<T: V4Network> PoolUpdateProvider<T> {
    /// True when the provider follows a pool.
    pub open spec fn tracks(&self, pool_id: PoolId) -> bool {
        self.tracked_pools@.contains(pool_id)
    }

    /// The first block of the span that a reorganization replays: the start
    /// of the window of kept blocks.
    pub open spec fn spec_reorg_start(&self) -> u64 {
        let start = window_start(self.current_block, self.reorg_detection_blocks);
        if start > u64::MAX {
            u64::MAX
        } else {
            start as u64
        }
    }

    /// A provider at a block, with the default window and chunk.
    pub fn new_at_block(
        pool_manager: Address,
        address_book: T::AddressBook,
        pool_registry: T::PoolRegistry,
        current_block: u64,
    ) -> (r: Self)
        ensures
            r.pool_manager == pool_manager,
            r.address_book == address_book,
            r.pool_registry == pool_registry,
            r.tracked_pools@ == Seq::<PoolId>::empty(),
            r.event_history@ == Seq::<StoredEvent>::empty(),
            r.current_block == current_block,
            r.reorg_detection_blocks == DEFAULT_REORG_DETECTION_BLOCKS,
            r.reorg_lookback_block_chunk == DEFAULT_REORG_LOOKBACK_BLOCK_CHUNK,
            r.stream_mode == StreamMode::Full,
    {
        Self::new_with_config(
            pool_manager,
            current_block,
            DEFAULT_REORG_DETECTION_BLOCKS,
            DEFAULT_REORG_LOOKBACK_BLOCK_CHUNK,
            address_book,
            pool_registry,
        )
    }

    /// A provider at a block, with a given window and chunk.
    pub fn new_with_config(
        pool_manager: Address,
        current_block: u64,
        reorg_detection_blocks: u64,
        reorg_lookback_block_chunk: u64,
        address_book: T::AddressBook,
        pool_registry: T::PoolRegistry,
    ) -> (r: Self)
        ensures
            r.pool_manager == pool_manager,
            r.address_book == address_book,
            r.pool_registry == pool_registry,
            r.tracked_pools@ == Seq::<PoolId>::empty(),
            r.event_history@ == Seq::<StoredEvent>::empty(),
            r.current_block == current_block,
            r.reorg_detection_blocks == reorg_detection_blocks,
            r.reorg_lookback_block_chunk == reorg_lookback_block_chunk,
            r.stream_mode == StreamMode::Full,
    {
        PoolUpdateProvider {
            pool_manager,
            address_book,
            pool_registry,
            tracked_pools: Vec::new(),
            event_history: Vec::new(),
            current_block,
            reorg_detection_blocks,
            reorg_lookback_block_chunk,
            stream_mode: StreamMode::Full,
        }
    }

    pub fn address_book(&self) -> (r: T::AddressBook)
        ensures
            r == self.address_book,
    {
        self.address_book
    }

    pub fn with_address_book(self, address_book: T::AddressBook) -> (r: Self)
        ensures
            r == (PoolUpdateProvider { address_book, ..self }),
    {
        let mut next = self;
        next.address_book = address_book;
        next
    }

    /// The provider in another stream mode.
    pub fn with_stream_mode(self, mode: StreamMode) -> (r: Self)
        ensures
            r == (PoolUpdateProvider { stream_mode: mode, ..self }),
    {
        let mut next = self;
        next.stream_mode = mode;
        next
    }

    /// Starts to follow a pool.
    pub fn add_pool(&mut self, pool_id: PoolId)
        ensures
            final(self).tracked_pools@ == (if old(self).tracks(pool_id) {
                old(self).tracked_pools@
            } else {
                old(self).tracked_pools@.push(pool_id)
            }),
            forall|id: PoolId|
                final(self).tracks(id) == (id == pool_id || old(self).tracks(id)),
            final(self).pool_manager == old(self).pool_manager,
            final(self).address_book == old(self).address_book,
            final(self).pool_registry == old(self).pool_registry,
            final(self).event_history == old(self).event_history,
            final(self).current_block == old(self).current_block,
            final(self).reorg_detection_blocks == old(self).reorg_detection_blocks,
            final(self).reorg_lookback_block_chunk == old(self).reorg_lookback_block_chunk,
            final(self).stream_mode == old(self).stream_mode,
    {
        if !contains_pool(&self.tracked_pools, &pool_id) {
            self.tracked_pools.push(pool_id);
            proof {
                assert forall|id: PoolId|
                    self.tracks(id) == (id == pool_id || old(self).tracks(id)) by {
                    lemma_push_contains(old(self).tracked_pools@, pool_id, id);
                }
            }
        }
    }

    /// Stops to follow a pool.
    pub fn remove_pool(&mut self, pool_id: PoolId)
        ensures
            final(self).tracked_pools@ == without_pool(old(self).tracked_pools@, pool_id),
            forall|id: PoolId|
                final(self).tracks(id) == (id != pool_id && old(self).tracks(id)),
            final(self).pool_manager == old(self).pool_manager,
            final(self).address_book == old(self).address_book,
            final(self).pool_registry == old(self).pool_registry,
            final(self).event_history == old(self).event_history,
            final(self).current_block == old(self).current_block,
            final(self).reorg_detection_blocks == old(self).reorg_detection_blocks,
            final(self).reorg_lookback_block_chunk == old(self).reorg_lookback_block_chunk,
            final(self).stream_mode == old(self).stream_mode,
    {
        let mut kept: Vec<PoolId> = Vec::new();
        let mut i: usize = 0;
        proof {
            assert(self.tracked_pools@.take(0) =~= Seq::<PoolId>::empty());
        }
        while i < self.tracked_pools.len()
            invariant
                i <= self.tracked_pools.len(),
                self.tracked_pools == old(self).tracked_pools,
                kept@ == without_pool(self.tracked_pools@.take(i as int), pool_id),
            decreases self.tracked_pools.len() - i,
        {
            proof {
                let next = self.tracked_pools@.take(i + 1);
                assert(next.drop_last() =~= self.tracked_pools@.take(i as int));
                assert(next.last() == self.tracked_pools@[i as int]);
            }
            if !self.tracked_pools[i].same(&pool_id) {
                kept.push(self.tracked_pools[i]);
            }
            i = i + 1;
        }
        proof {
            assert(self.tracked_pools@.take(self.tracked_pools.len() as int)
                =~= self.tracked_pools@);
            assert forall|id: PoolId|
                kept@.contains(id) == (id != pool_id && old(self).tracks(id)) by {
                lemma_without_pool(old(self).tracked_pools@, pool_id, id);
            }
        }
        self.tracked_pools = kept;
    }

    /// The pools that the provider follows.
    pub fn tracked_pools(&self) -> (r: Vec<PoolId>)
        ensures
            r@ == self.tracked_pools@,
    {
        let mut out: Vec<PoolId> = Vec::new();
        let mut i: usize = 0;
        while i < self.tracked_pools.len()
            invariant
                i <= self.tracked_pools.len(),
                out@ == self.tracked_pools@.take(i as int),
            decreases self.tracked_pools.len() - i,
        {
            out.push(self.tracked_pools[i]);
            proof {
                assert(out@ =~= self.tracked_pools@.take(i + 1));
            }
            i = i + 1;
        }
        proof {
            assert(self.tracked_pools@.take(self.tracked_pools.len() as int)
                =~= self.tracked_pools@);
        }
        out
    }

    /// What the arrival of a block with the given number means.
    pub fn classify_block(&self, block_number: u64) -> (r: BlockArrival)
        ensures
            r == (if block_number == self.current_block {
                BlockArrival::Reorg
            } else if block_number > self.current_block {
                BlockArrival::Next
            } else {
                BlockArrival::Stale
            }),
    {
        if block_number == self.current_block {
            BlockArrival::Reorg
        } else if block_number > self.current_block {
            BlockArrival::Next
        } else {
            BlockArrival::Stale
        }
    }

    /// The first block of the span that a reorganization replays.
    pub fn reorg_start(&self) -> (r: u64)
        ensures
            r == self.spec_reorg_start(),
    {
        let next: u128 = self.current_block as u128 + 1;
        let detection: u128 = self.reorg_detection_blocks as u128;
        let start: u128 = if next >= detection {
            next - detection
        } else {
            0
        };
        if start > u64::MAX as u128 {
            u64::MAX
        } else {
            start as u64
        }
    }

    /// Drops the stored events that lie before the window of kept blocks.
    pub fn trim_history(&mut self)
        ensures
            final(self).event_history@ == kept_from(
                old(self).event_history@,
                window_start(old(self).current_block, old(self).reorg_detection_blocks),
            ),
            final(self).pool_manager == old(self).pool_manager,
            final(self).address_book == old(self).address_book,
            final(self).pool_registry == old(self).pool_registry,
            final(self).tracked_pools == old(self).tracked_pools,
            final(self).current_block == old(self).current_block,
            final(self).reorg_detection_blocks == old(self).reorg_detection_blocks,
            final(self).reorg_lookback_block_chunk == old(self).reorg_lookback_block_chunk,
            final(self).stream_mode == old(self).stream_mode,
    {
        let next: u128 = self.current_block as u128 + 1;
        let detection: u128 = self.reorg_detection_blocks as u128;
        let start: u128 = if next >= detection {
            next - detection
        } else {
            0
        };
        let mut kept: Vec<StoredEvent> = Vec::new();
        let mut i: usize = 0;
        proof {
            assert(self.event_history@.take(0) =~= Seq::<StoredEvent>::empty());
        }
        while i < self.event_history.len()
            invariant
                i <= self.event_history.len(),
                self.event_history == old(self).event_history,
                start == window_start(old(self).current_block, old(self).reorg_detection_blocks),
                kept@ == kept_from(self.event_history@.take(i as int), start as int),
            decreases self.event_history.len() - i,
        {
            proof {
                let next_events = self.event_history@.take(i + 1);
                assert(next_events.drop_last() =~= self.event_history@.take(i as int));
                assert(next_events.last() == self.event_history@[i as int]);
            }
            if (self.event_history[i].block as u128) >= start {
                kept.push(self.event_history[i]);
            }
            i = i + 1;
        }
        proof {
            assert(self.event_history@.take(self.event_history.len() as int)
                =~= self.event_history@);
        }
        self.event_history = kept;
    }

    /// Adds an event to the history and drops what then lies before the
    /// window of kept blocks.
    pub fn add_to_history(&mut self, event: StoredEvent)
        ensures
            final(self).event_history@ == kept_from(
                old(self).event_history@.push(event),
                window_start(old(self).current_block, old(self).reorg_detection_blocks),
            ),
            final(self).pool_manager == old(self).pool_manager,
            final(self).address_book == old(self).address_book,
            final(self).pool_registry == old(self).pool_registry,
            final(self).tracked_pools == old(self).tracked_pools,
            final(self).current_block == old(self).current_block,
            final(self).reorg_detection_blocks == old(self).reorg_detection_blocks,
            final(self).reorg_lookback_block_chunk == old(self).reorg_lookback_block_chunk,
            final(self).stream_mode == old(self).stream_mode,
    {
        self.event_history.push(event);
        self.trim_history();
    }

    /// Drops the stored events from a block on.
    pub fn clear_history_from_block(&mut self, from_block: u64)
        ensures
            final(self).event_history@ == kept_before(old(self).event_history@, from_block as int),
            final(self).pool_manager == old(self).pool_manager,
            final(self).address_book == old(self).address_book,
            final(self).pool_registry == old(self).pool_registry,
            final(self).tracked_pools == old(self).tracked_pools,
            final(self).current_block == old(self).current_block,
            final(self).reorg_detection_blocks == old(self).reorg_detection_blocks,
            final(self).reorg_lookback_block_chunk == old(self).reorg_lookback_block_chunk,
            final(self).stream_mode == old(self).stream_mode,
    {
        let mut kept: Vec<StoredEvent> = Vec::new();
        let mut i: usize = 0;
        proof {
            assert(self.event_history@.take(0) =~= Seq::<StoredEvent>::empty());
        }
        while i < self.event_history.len()
            invariant
                i <= self.event_history.len(),
                self.event_history == old(self).event_history,
                kept@ == kept_before(self.event_history@.take(i as int), from_block as int),
            decreases self.event_history.len() - i,
        {
            proof {
                let next_events = self.event_history@.take(i + 1);
                assert(next_events.drop_last() =~= self.event_history@.take(i as int));
                assert(next_events.last() == self.event_history@[i as int]);
            }
            if self.event_history[i].block < from_block {
                kept.push(self.event_history[i]);
            }
            i = i + 1;
        }
        proof {
            assert(self.event_history@.take(self.event_history.len() as int)
                =~= self.event_history@);
        }
        self.event_history = kept;
    }

    /// The update that a swap log becomes: none unless the log decodes and
    /// its pool is followed.
    pub fn process_swap_event(&self, log: &RawLog) -> (r: Option<PoolUpdate<T>>)
        ensures
            r is Some <==> swap_counts(*log, self.tracked_pools@),
            r is Some ==> swap_update_is(*log, r->Some_0),
    {
        match decode_swap(log) {
            Some(swap) => {
                if contains_pool(&self.tracked_pools, &swap.id) {
                    Some(
                        PoolUpdate::SwapEvent {
                            pool_id: swap.id,
                            block: log.block_number,
                            tx_index: log.transaction_index,
                            log_index: log.log_index,
                            event: SwapEventData {
                                sender: swap.sender,
                                amount0: swap.amount0,
                                amount1: swap.amount1,
                                sqrt_price_x96: swap.sqrt_price_x96,
                                liquidity: swap.liquidity,
                                tick: swap.tick,
                                fee: swap.fee,
                            },
                        },
                    )
                } else {
                    None
                }
            },
            None => None,
        }
    }

    /// The update that a liquidity log becomes: none unless the log decodes
    /// and its pool is followed.
    pub fn process_liquidity_event(&self, log: &RawLog) -> (r: Option<PoolUpdate<T>>)
        ensures
            r is Some <==> liquidity_counts(*log, self.tracked_pools@),
            r is Some ==> liquidity_update_is(*log, r->Some_0),
    {
        match decode_modify_liquidity(log) {
            Some(modify) => {
                if contains_pool(&self.tracked_pools, &modify.id) {
                    Some(
                        PoolUpdate::LiquidityEvent {
                            pool_id: modify.id,
                            block: log.block_number,
                            tx_index: log.transaction_index,
                            log_index: log.log_index,
                            event: ModifyLiquidityEventData {
                                sender: modify.sender,
                                tick_lower: modify.tick_lower,
                                tick_upper: modify.tick_upper,
                                liquidity_delta: modify.liquidity_delta,
                                salt: modify.salt.bytes,
                            },
                        },
                    )
                } else {
                    None
                }
            },
            None => None,
        }
    }

    /// The stored form of a liquidity event; other updates are not stored.
    pub fn update_to_stored_event(update: &PoolUpdate<T>) -> (r: Option<StoredEvent>)
        ensures
            r == (match *update {
                PoolUpdate::LiquidityEvent { pool_id, block, tx_index, log_index, event } => Some(
                    StoredEvent { block, tx_index, log_index, pool_id, liquidity_event: event },
                ),
                _ => None,
            }),
    {
        match update {
            PoolUpdate::LiquidityEvent { pool_id, block, tx_index, log_index, event } => Some(
                StoredEvent {
                    block: *block,
                    tx_index: *tx_index,
                    log_index: *log_index,
                    pool_id: *pool_id,
                    liquidity_event: *event,
                },
            ),
            _ => None,
        }
    }

    /// True when the provider has pools to ask the node about.
    pub fn has_tracked_pools(&self) -> (r: bool)
        ensures
            r == (self.tracked_pools@.len() > 0),
    {
        self.tracked_pools.len() > 0
    }

    /// Turns the logs of a span of blocks into updates: the swaps of followed
    /// pools, then their liquidity events, then the chain-specific updates.
    /// With `store_in_history` the liquidity events enter the history. A
    /// provider that tracks no pool yields nothing.
    pub fn process_events_for_block_range(
        &mut self,
        swap_logs: &Vec<RawLog>,
        modify_logs: &Vec<RawLog>,
        chain_updates: Vec<PoolUpdate<T>>,
        store_in_history: bool,
    ) -> (updates: Vec<PoolUpdate<T>>)
        ensures
            final(self).pool_manager == old(self).pool_manager,
            final(self).address_book == old(self).address_book,
            final(self).pool_registry == old(self).pool_registry,
            final(self).tracked_pools == old(self).tracked_pools,
            final(self).current_block == old(self).current_block,
            final(self).reorg_detection_blocks == old(self).reorg_detection_blocks,
            final(self).reorg_lookback_block_chunk == old(self).reorg_lookback_block_chunk,
            final(self).stream_mode == old(self).stream_mode,
            old(self).tracked_pools@.len() == 0 ==> updates@.len() == 0
                && final(self).event_history == old(self).event_history,
            old(self).tracked_pools@.len() > 0 ==> {
                let swaps = counted_swaps(swap_logs@, old(self).tracked_pools@);
                let liquidity = counted_liquidity(modify_logs@, old(self).tracked_pools@);
                &&& updates@.len() == swaps.len() + liquidity.len() + chain_updates@.len()
                &&& swap_updates_are(swaps, updates@.subrange(0, swaps.len() as int))
                &&& liquidity_updates_are(
                    liquidity,
                    updates@.subrange(swaps.len() as int, (swaps.len() + liquidity.len()) as int),
                )
                &&& updates@.subrange((swaps.len() + liquidity.len()) as int, updates@.len() as int)
                    == chain_updates@
                &&& final(self).event_history@ == (if store_in_history {
                    kept_from(
                        old(self).event_history@ + stored_events(
                            updates@.subrange(swaps.len() as int, (swaps.len() + liquidity.len()) as int),
                        ),
                        window_start(old(self).current_block, old(self).reorg_detection_blocks),
                    )
                } else {
                    old(self).event_history@
                })
            },
    {
        let mut updates: Vec<PoolUpdate<T>> = Vec::new();
        if self.tracked_pools.len() == 0 {
            return updates;
        }
        let ghost followed = self.tracked_pools@;
        let mut i: usize = 0;
        proof {
            assert(swap_logs@.take(0) =~= Seq::<RawLog>::empty());
        }
        while i < swap_logs.len()
            invariant
                i <= swap_logs.len(),
                *self == *old(self),
                followed == self.tracked_pools@,
                swap_updates_are(counted_swaps(swap_logs@.take(i as int), followed), updates@),
            decreases swap_logs.len() - i,
        {
            proof {
                let next = swap_logs@.take(i + 1);
                assert(next.drop_last() =~= swap_logs@.take(i as int));
                assert(next.last() == swap_logs@[i as int]);
            }
            match self.process_swap_event(&swap_logs[i]) {
                Some(update) => {
                    updates.push(update);
                },
                None => {},
            }
            i = i + 1;
        }
        proof {
            assert(swap_logs@.take(swap_logs.len() as int) =~= swap_logs@);
            assert(modify_logs@.take(0) =~= Seq::<RawLog>::empty());
        }
        let ghost swaps = counted_swaps(swap_logs@, followed);
        let ghost swap_part = updates@;
        let mut added: Vec<StoredEvent> = Vec::new();
        let mut j: usize = 0;
        proof {
            assert(updates@.subrange(0, swaps.len() as int) =~= swap_part);
            assert(updates@.subrange(swaps.len() as int, updates@.len() as int)
                =~= Seq::<PoolUpdate<T>>::empty());
        }
        while j < modify_logs.len()
            invariant
                j <= modify_logs.len(),
                *self == *old(self),
                followed == self.tracked_pools@,
                swaps == counted_swaps(swap_logs@, followed),
                swap_updates_are(swaps, swap_part),
                updates@.len() >= swaps.len(),
                updates@.subrange(0, swaps.len() as int) == swap_part,
                liquidity_updates_are(
                    counted_liquidity(modify_logs@.take(j as int), followed),
                    updates@.subrange(swaps.len() as int, updates@.len() as int),
                ),
                added@ == stored_events(
                    updates@.subrange(swaps.len() as int, updates@.len() as int),
                ),
            decreases modify_logs.len() - j,
        {
            proof {
                let next = modify_logs@.take(j + 1);
                assert(next.drop_last() =~= modify_logs@.take(j as int));
                assert(next.last() == modify_logs@[j as int]);
            }
            match self.process_liquidity_event(&modify_logs[j]) {
                Some(update) => {
                    let ghost before = updates@;
                    match Self::update_to_stored_event(&update) {
                        Some(stored) => {
                            added.push(stored);
                        },
                        None => {},
                    }
                    updates.push(update);
                    proof {
                        let tail_before = before.subrange(swaps.len() as int, before.len() as int);
                        let tail = updates@.subrange(swaps.len() as int, updates@.len() as int);
                        assert(tail =~= tail_before.push(update));
                        assert(tail.drop_last() =~= tail_before);
                        assert(updates@.subrange(0, swaps.len() as int) =~= before.subrange(
                            0,
                            swaps.len() as int,
                        ));
                    }
                },
                None => {},
            }
            j = j + 1;
        }
        proof {
            assert(modify_logs@.take(modify_logs.len() as int) =~= modify_logs@);
        }
        let ghost event_part = updates@;
        let mut chain: Vec<PoolUpdate<T>> = chain_updates;
        updates.append(&mut chain);
        proof {
            let liquidity = counted_liquidity(modify_logs@, followed);
            assert(updates@.subrange(0, swaps.len() as int) =~= swap_part);
            assert(updates@.subrange(swaps.len() as int, (swaps.len() + liquidity.len()) as int)
                =~= event_part.subrange(swaps.len() as int, event_part.len() as int));
            assert(updates@.subrange((swaps.len() + liquidity.len()) as int, updates@.len() as int)
                =~= chain_updates@);
        }
        if store_in_history {
            self.event_history.append(&mut added);
            self.trim_history();
        }
        updates
    }

    /// The updates that undo the stored liquidity events of a span of blocks,
    /// last event first.
    pub fn get_inverse_liquidity_events(&self, from_block: u64, to_block: u64) -> (inverse: Vec<
        PoolUpdate<T>,
    >)
        ensures
            inverse_updates(
                reversed_in_span(self.event_history@, 0, from_block, to_block),
                inverse@,
            ),
    {
        let mut inverse: Vec<PoolUpdate<T>> = Vec::new();
        let mut i: usize = self.event_history.len();
        while i > 0
            invariant
                i <= self.event_history.len(),
                inverse_updates(
                    reversed_in_span(self.event_history@, i as int, from_block, to_block),
                    inverse@,
                ),
            decreases i,
        {
            i = i - 1;
            let event: StoredEvent = self.event_history[i];
            if event.block >= from_block && event.block <= to_block {
                let undo = PoolUpdate::LiquidityEvent {
                    pool_id: event.pool_id,
                    block: event.block,
                    tx_index: event.tx_index,
                    log_index: event.log_index,
                    event: ModifyLiquidityEventData {
                        sender: event.liquidity_event.sender,
                        tick_lower: event.liquidity_event.tick_lower,
                        tick_upper: event.liquidity_event.tick_upper,
                        liquidity_delta: event.liquidity_event.liquidity_delta.wrapping_neg(),
                        salt: event.liquidity_event.salt,
                    },
                };
                let ghost before = inverse@;
                inverse.push(undo);
                proof {
                    let events = reversed_in_span(
                        self.event_history@,
                        i as int,
                        from_block,
                        to_block,
                    );
                    assert forall|k: int| 0 <= k < events.len() implies inverse_update(
                        events[k],
                        #[trigger] inverse@[k],
                    ) by {
                        if k < before.len() {
                            assert(inverse@[k] == before[k]);
                        }
                    }
                }
            }
        }
        inverse
    }

    /// Adds the pools that a list of updates affects to a list of pools.
    pub fn extend_affected_pools(pools: &mut Vec<PoolId>, updates: &Vec<PoolUpdate<T>>)
        ensures
            final(pools)@ == with_affected(old(pools)@, updates@),
    {
        let mut i: usize = 0;
        proof {
            assert(updates@.take(0) =~= Seq::<PoolUpdate<T>>::empty());
        }
        while i < updates.len()
            invariant
                i <= updates.len(),
                pools@ == with_affected(old(pools)@, updates@.take(i as int)),
            decreases updates.len() - i,
        {
            proof {
                let next = updates@.take(i + 1);
                assert(next.drop_last() =~= updates@.take(i as int));
                assert(next.last() == updates@[i as int]);
            }
            let affected: Option<PoolId> = match &updates[i] {
                PoolUpdate::SwapEvent { pool_id, .. } => Some(*pool_id),
                PoolUpdate::LiquidityEvent { pool_id, .. } => Some(*pool_id),
                PoolUpdate::UpdatedSlot0 { pool_id, .. } => Some(*pool_id),
                PoolUpdate::FeeUpdate { pool_id, .. } => Some(*pool_id),
                PoolUpdate::ChainSpecific { pool_id, update } => {
                    if update.is_pool_affected() {
                        Some(*pool_id)
                    } else {
                        None
                    }
                },
                _ => None,
            };
            match affected {
                Some(id) => {
                    if !contains_pool(pools, &id) {
                        pools.push(id);
                    }
                },
                None => {},
            }
            i = i + 1;
        }
        proof {
            assert(updates@.take(updates.len() as int) =~= updates@);
        }
    }

    /// The pools that a list of updates affects, each once, in the order in
    /// which the updates first name them.
    pub fn get_affected_pools(&self, updates: &Vec<PoolUpdate<T>>) -> (pools: Vec<PoolId>)
        ensures
            pools@ == with_affected(Seq::<PoolId>::empty(), updates@),
    {
        let mut pools: Vec<PoolId> = Vec::new();
        Self::extend_affected_pools(&mut pools, updates);
        pools
    }

    /// True for the updates that belong to the set-up of pools.
    pub fn is_initialization_update(update: &PoolUpdate<T>) -> (r: bool)
        ensures
            r == is_initialization_update(*update),
    {
        match update {
            PoolUpdate::FeeUpdate { .. } => true,
            PoolUpdate::UpdatedSlot0 { .. } => true,
            PoolUpdate::NewPoolState { .. } => true,
            PoolUpdate::ChainSpecific { update, .. } => update.is_initialization_event(),
            _ => false,
        }
    }

    /// The updates that the provider hands on in its stream mode.
    pub fn filter_for_mode(&self, updates: Vec<PoolUpdate<T>>) -> (kept: Vec<PoolUpdate<T>>)
        ensures
            kept@ == kept_for_mode(updates@, self.stream_mode),
    {
        let mut rest: Vec<PoolUpdate<T>> = updates;
        let mut kept: Vec<PoolUpdate<T>> = Vec::new();
        let ghost mut done: Seq<PoolUpdate<T>> = Seq::empty();
        proof {
            assert(done + rest@ =~= updates@);
        }
        while rest.len() > 0
            invariant
                done + rest@ == updates@,
                kept@ == kept_for_mode(done, self.stream_mode),
            decreases rest.len(),
        {
            let ghost rest_before = rest@;
            let update = rest.remove(0);
            proof {
                assert(done.push(update) + rest@ =~= done + rest_before);
                assert(done.push(update).drop_last() =~= done);
                done = done.push(update);
            }
            let keep: bool = match self.stream_mode {
                StreamMode::Full => true,
                StreamMode::InitializationOnly => Self::is_initialization_update(&update),
            };
            if keep {
                kept.push(update);
            }
        }
        proof {
            assert(done + rest@ =~= done);
        }
        kept
    }

    /// The spans of blocks to ask the node for when the blocks `from ..= to`
    /// are read again, none longer than the provider's chunk.
    pub fn backfill_spans(&self, from_block: u64, to_block: u64) -> (spans: Vec<(u64, u64)>)
        ensures
            spans@ == backfill_spans(
                from_block as int,
                to_block as int,
                self.reorg_lookback_block_chunk as int,
            ),
    {
        let chunk: u64 = if self.reorg_lookback_block_chunk == 0 {
            1
        } else {
            self.reorg_lookback_block_chunk
        };
        let mut spans: Vec<(u64, u64)> = Vec::new();
        let mut current: u64 = from_block;
        let mut finished: bool = from_block > to_block;
        proof {
            assert(spans@ + backfill_spans(
                current as int,
                to_block as int,
                self.reorg_lookback_block_chunk as int,
            ) =~= backfill_spans(
                from_block as int,
                to_block as int,
                self.reorg_lookback_block_chunk as int,
            ));
        }
        while !finished
            invariant
                chunk >= 1,
                chunk as int == (if self.reorg_lookback_block_chunk == 0 {
                    1
                } else {
                    self.reorg_lookback_block_chunk as int
                }),
                !finished ==> current <= to_block,
                backfill_spans(
                    from_block as int,
                    to_block as int,
                    self.reorg_lookback_block_chunk as int,
                ) == spans@ + (if finished {
                    Seq::<(u64, u64)>::empty()
                } else {
                    backfill_spans(
                        current as int,
                        to_block as int,
                        self.reorg_lookback_block_chunk as int,
                    )
                }),
            decreases
                    (if finished {
                        0
                    } else {
                        to_block - current + 1
                    }),
        {
            let end: u64 = if to_block - current > chunk - 1 {
                current + (chunk - 1)
            } else {
                to_block
            };
            let ghost before = spans@;
            spans.push((current, end));
            proof {
                let rest = backfill_spans(
                    end + 1,
                    to_block as int,
                    self.reorg_lookback_block_chunk as int,
                );
                assert(before + (seq![(current, end)] + rest) =~= spans@ + rest);
            }
            if end == to_block {
                finished = true;
                proof {
                    assert(backfill_spans(
                        end + 1,
                        to_block as int,
                        self.reorg_lookback_block_chunk as int,
                    ) =~= Seq::<(u64, u64)>::empty());
                    assert(spans@ + Seq::<(u64, u64)>::empty() =~= spans@);
                }
            } else {
                current = end + 1;
            }
        }
        proof {
            assert(spans@ + Seq::<(u64, u64)>::empty() =~= spans@);
        }
        spans
    }

    /// First step of a reorganization: the span to replay, the updates that
    /// undo the stored liquidity events of the span, and the spans of blocks to
    /// read again. The stored events of the span leave the history.
    pub fn begin_reorg(&mut self) -> (plan: ReorgPlan<T>)
        ensures
            plan.from_block == old(self).spec_reorg_start(),
            plan.to_block == old(self).current_block,
            inverse_updates(
                reversed_in_span(
                    old(self).event_history@,
                    0,
                    plan.from_block,
                    plan.to_block,
                ),
                plan.inverse_events@,
            ),
            plan.spans@ == backfill_spans(
                plan.from_block as int,
                plan.to_block as int,
                old(self).reorg_lookback_block_chunk as int,
            ),
            final(self).event_history@ == kept_before(
                old(self).event_history@,
                plan.from_block as int,
            ),
            final(self).pool_manager == old(self).pool_manager,
            final(self).address_book == old(self).address_book,
            final(self).pool_registry == old(self).pool_registry,
            final(self).tracked_pools == old(self).tracked_pools,
            final(self).current_block == old(self).current_block,
            final(self).reorg_detection_blocks == old(self).reorg_detection_blocks,
            final(self).reorg_lookback_block_chunk == old(self).reorg_lookback_block_chunk,
            final(self).stream_mode == old(self).stream_mode,
    {
        let from_block: u64 = self.reorg_start();
        let to_block: u64 = self.current_block;
        let inverse_events = self.get_inverse_liquidity_events(from_block, to_block);
        let spans = self.backfill_spans(from_block, to_block);
        self.clear_history_from_block(from_block);
        ReorgPlan { from_block, to_block, inverse_events, spans }
    }

    /// Second step of a reorganization, once the span was read again: the
    /// fresh liquidity events enter the history, and the pools that the undone
    /// or the fresh events affect are named, for their slot0 to be read.
    pub fn absorb_backfill(
        &mut self,
        inverse_events: &Vec<PoolUpdate<T>>,
        fresh_events: &Vec<PoolUpdate<T>>,
    ) -> (affected: Vec<PoolId>)
        ensures
            affected@ == with_affected(
                with_affected(Seq::<PoolId>::empty(), inverse_events@),
                fresh_events@,
            ),
            final(self).event_history@ == kept_from(
                old(self).event_history@ + stored_events(fresh_events@),
                window_start(old(self).current_block, old(self).reorg_detection_blocks),
            ),
            final(self).pool_manager == old(self).pool_manager,
            final(self).address_book == old(self).address_book,
            final(self).pool_registry == old(self).pool_registry,
            final(self).tracked_pools == old(self).tracked_pools,
            final(self).current_block == old(self).current_block,
            final(self).reorg_detection_blocks == old(self).reorg_detection_blocks,
            final(self).reorg_lookback_block_chunk == old(self).reorg_lookback_block_chunk,
            final(self).stream_mode == old(self).stream_mode,
    {
        let mut affected: Vec<PoolId> = Vec::new();
        Self::extend_affected_pools(&mut affected, inverse_events);
        Self::extend_affected_pools(&mut affected, fresh_events);
        let mut i: usize = 0;
        proof {
            assert(fresh_events@.take(0) =~= Seq::<PoolUpdate<T>>::empty());
            assert(self.event_history@ + Seq::<StoredEvent>::empty() =~= self.event_history@);
        }
        while i < fresh_events.len()
            invariant
                i <= fresh_events.len(),
                self.event_history@ == old(self).event_history@ + stored_events(
                    fresh_events@.take(i as int),
                ),
                self.pool_manager == old(self).pool_manager,
                self.address_book == old(self).address_book,
                self.pool_registry == old(self).pool_registry,
                self.tracked_pools == old(self).tracked_pools,
                self.current_block == old(self).current_block,
                self.reorg_detection_blocks == old(self).reorg_detection_blocks,
                self.reorg_lookback_block_chunk == old(self).reorg_lookback_block_chunk,
                self.stream_mode == old(self).stream_mode,
            decreases fresh_events.len() - i,
        {
            proof {
                let next = fresh_events@.take(i + 1);
                assert(next.drop_last() =~= fresh_events@.take(i as int));
                assert(next.last() == fresh_events@[i as int]);
            }
            match Self::update_to_stored_event(&fresh_events[i]) {
                Some(stored) => {
                    let ghost before = self.event_history@;
                    self.event_history.push(stored);
                    proof {
                        assert(self.event_history@ =~= old(self).event_history@ + stored_events(
                            fresh_events@.take(i + 1),
                        ));
                    }
                },
                None => {},
            }
            i = i + 1;
        }
        proof {
            assert(fresh_events@.take(fresh_events.len() as int) =~= fresh_events@);
        }
        self.trim_history();
        affected
    }

    /// Last step of a reorganization: the updates to hand on. The span is
    /// bracketed by two `Reorg` updates; between them come the undoing events
    /// (in full mode), the fresh events that the stream mode keeps, and the
    /// slot0 that was read for the affected pools.
    pub fn reorg_updates(
        &self,
        plan: ReorgPlan<T>,
        fresh_events: Vec<PoolUpdate<T>>,
        slot0: Vec<(PoolId, Slot0Data)>,
    ) -> (updates: Vec<PoolUpdate<T>>)
        ensures
            updates@ == seq![
                PoolUpdate::<T>::Reorg { from_block: plan.from_block, to_block: plan.to_block },
            ] + (if self.stream_mode == StreamMode::Full {
                plan.inverse_events@
            } else {
                Seq::<PoolUpdate<T>>::empty()
            }) + kept_for_mode(fresh_events@, self.stream_mode) + slot0_updates::<T>(slot0@)
                + seq![
                PoolUpdate::<T>::Reorg { from_block: plan.from_block, to_block: plan.to_block },
            ],
    {
        let mut updates: Vec<PoolUpdate<T>> = Vec::new();
        updates.push(PoolUpdate::Reorg { from_block: plan.from_block, to_block: plan.to_block });
        let mut inverse: Vec<PoolUpdate<T>> = plan.inverse_events;
        match self.stream_mode {
            StreamMode::Full => {
                updates.append(&mut inverse);
            },
            StreamMode::InitializationOnly => {},
        }
        let mut kept = self.filter_for_mode(fresh_events);
        updates.append(&mut kept);
        let ghost head = updates@;
        let mut i: usize = 0;
        proof {
            assert(head + slot0_updates::<T>(slot0@.take(0)) =~= head);
        }
        while i < slot0.len()
            invariant
                i <= slot0.len(),
                updates@ == head + slot0_updates::<T>(slot0@.take(i as int)),
            decreases slot0.len() - i,
        {
            let entry: (PoolId, Slot0Data) = slot0[i];
            updates.push(PoolUpdate::UpdatedSlot0 { pool_id: entry.0, data: entry.1 });
            proof {
                assert(updates@ =~= head + slot0_updates::<T>(slot0@.take(i + 1)));
            }
            i = i + 1;
        }
        proof {
            assert(slot0@.take(slot0.len() as int) =~= slot0@);
        }
        updates.push(PoolUpdate::Reorg { from_block: plan.from_block, to_block: plan.to_block });
        updates
    }

    /// Moves on to a block that lies ahead: the updates to hand on are the
    /// new block and then, of the updates of the block, those that the stream
    /// mode keeps. `block_updates` is `None` where the block could not be
    /// read. The history is cut to the window that ends at the new block. A
    /// block that does not lie ahead changes nothing and yields nothing.
    pub fn advance(&mut self, block_number: u64, block_updates: Option<Vec<PoolUpdate<T>>>) -> (updates:
        Vec<PoolUpdate<T>>)
        ensures
            final(self).pool_manager == old(self).pool_manager,
            final(self).address_book == old(self).address_book,
            final(self).pool_registry == old(self).pool_registry,
            final(self).tracked_pools == old(self).tracked_pools,
            final(self).reorg_detection_blocks == old(self).reorg_detection_blocks,
            final(self).reorg_lookback_block_chunk == old(self).reorg_lookback_block_chunk,
            final(self).stream_mode == old(self).stream_mode,
            block_number <= old(self).current_block ==> updates@.len() == 0
                && final(self).current_block == old(self).current_block
                && final(self).event_history == old(self).event_history,
            block_number > old(self).current_block ==> {
                &&& final(self).current_block == block_number
                &&& final(self).event_history@ == kept_from(
                    old(self).event_history@,
                    window_start(block_number, old(self).reorg_detection_blocks),
                )
                &&& updates@ == seq![PoolUpdate::<T>::NewBlock(block_number)] + (match block_updates {
                    Some(list) => kept_for_mode(list@, old(self).stream_mode),
                    None => Seq::<PoolUpdate<T>>::empty(),
                })
            },
    {
        let mut updates: Vec<PoolUpdate<T>> = Vec::new();
        if block_number <= self.current_block {
            return updates;
        }
        updates.push(PoolUpdate::NewBlock(block_number));
        match block_updates {
            Some(list) => {
                let mut kept = self.filter_for_mode(list);
                updates.append(&mut kept);
            },
            None => {
                proof {
                    assert(updates@ =~= seq![PoolUpdate::<T>::NewBlock(block_number)]
                        + Seq::<PoolUpdate<T>>::empty());
                }
            },
        }
        self.current_block = block_number;
        self.trim_history();
        updates
    }

    /// Takes in a block. A block with the number of the current block means
    /// that the chain was reorganized, and the repair begins; a block ahead
    /// moves the provider on, with the updates of the block, which the caller
    /// has read; a block behind is ignored.
    pub fn on_new_block(&mut self, block_number: u64, block_updates: Option<Vec<PoolUpdate<T>>>) -> (outcome:
        BlockOutcome<T>)
        ensures
            final(self).pool_manager == old(self).pool_manager,
            final(self).address_book == old(self).address_book,
            final(self).pool_registry == old(self).pool_registry,
            final(self).tracked_pools == old(self).tracked_pools,
            final(self).reorg_detection_blocks == old(self).reorg_detection_blocks,
            final(self).reorg_lookback_block_chunk == old(self).reorg_lookback_block_chunk,
            final(self).stream_mode == old(self).stream_mode,
            block_number < old(self).current_block ==> outcome is Stale && final(self).current_block
                == old(self).current_block && final(self).event_history == old(self).event_history,
            block_number == old(self).current_block ==> {
                &&& outcome is Reorg
                &&& final(self).current_block == old(self).current_block
                &&& outcome->Reorg_0.from_block == old(self).spec_reorg_start()
                &&& outcome->Reorg_0.to_block == old(self).current_block
                &&& inverse_updates(
                    reversed_in_span(
                        old(self).event_history@,
                        0,
                        outcome->Reorg_0.from_block,
                        outcome->Reorg_0.to_block,
                    ),
                    outcome->Reorg_0.inverse_events@,
                )
                &&& outcome->Reorg_0.spans@ == backfill_spans(
                    outcome->Reorg_0.from_block as int,
                    outcome->Reorg_0.to_block as int,
                    old(self).reorg_lookback_block_chunk as int,
                )
                &&& final(self).event_history@ == kept_before(
                    old(self).event_history@,
                    outcome->Reorg_0.from_block as int,
                )
            },
            block_number > old(self).current_block ==> {
                &&& outcome is Updates
                &&& final(self).current_block == block_number
                &&& final(self).event_history@ == kept_from(
                    old(self).event_history@,
                    window_start(block_number, old(self).reorg_detection_blocks),
                )
                &&& outcome->Updates_0@ == seq![PoolUpdate::<T>::NewBlock(block_number)] + (
                match block_updates {
                    Some(list) => kept_for_mode(list@, old(self).stream_mode),
                    None => Seq::<PoolUpdate<T>>::empty(),
                })
            },
    {
        match self.classify_block(block_number) {
            BlockArrival::Reorg => BlockOutcome::Reorg(self.begin_reorg()),
            BlockArrival::Next => BlockOutcome::Updates(self.advance(block_number, block_updates)),
            BlockArrival::Stale => BlockOutcome::Stale,
        }
    }
}

/// A list with an item added holds the item and what it held.
pub proof fn lemma_push_contains<A>(s: Seq<A>, x: A, y: A)
    ensures
        s.push(x).contains(y) == (s.contains(y) || x == y),
{
    let t = s.push(x);
    if t.contains(y) {
        let k = choose|k: int| 0 <= k < t.len() && t[k] == y;
        if k < s.len() {
            assert(s[k] == y);
        }
    }
    if s.contains(y) {
        let k = choose|k: int| 0 <= k < s.len() && s[k] == y;
        assert(t[k] == y);
    }
    if x == y {
        assert(t[s.len() as int] == y);
    }
}

/// A list without a pool holds every other pool of the list and not that
/// pool.
pub proof fn lemma_without_pool(pools: Seq<PoolId>, pool_id: PoolId, id: PoolId)
    ensures
        without_pool(pools, pool_id).contains(id) == (id != pool_id && pools.contains(id)),
    decreases pools.len(),
{
    if pools.len() > 0 {
        let front = pools.drop_last();
        lemma_without_pool(front, pool_id, id);
        assert(pools =~= front.push(pools.last()));
        lemma_push_contains(front, pools.last(), id);
        lemma_push_contains(without_pool(front, pool_id), pools.last(), id);
    } else {
        assert(!pools.contains(id));
        assert(!without_pool(pools, pool_id).contains(id));
    }
}

} // verus!
