//! What the chain-update provider does for the L2 deployment: the events of
//! the factory, and the scan that finds the pools at start-up.

use vstd::prelude::*;
use crate::abi::{decode_uint, spec_decode_uint};
use crate::errors::PoolUpdateError;
use crate::fee_config::{L2FeeConfiguration, L2FeeUpdate};
use crate::id_map::{IdMap, KeyMap, inserted, lookup, values_of};
use crate::logs::{
    PoolCreatedLog, RawLog, decode_jit_tax_status_updated, decode_pool_created, event_topic,
    spec_event_topic,
    decode_priority_fee_tax_floor_updated, decode_protocol_swap_fee_updated,
    decode_protocol_tax_fee_updated, has_shape, is_withdraw_only, protocol_swap_fee_signature,
    protocol_tax_fee_signature, spec_decode_jit_tax_status_updated, spec_decode_pool_created,
    spec_decode_priority_fee_tax_floor_updated, spec_decode_protocol_fee, withdraw_only_signature,
};
use crate::network::Optimism;
use crate::pool_key::{PoolKey, PoolKeyWithFees};
use crate::pool_registry::{PoolRegistry, pools_with_hook};
use crate::pool_updates::{L2PoolUpdate, PoolUpdate};
use crate::primitives::{Address, PoolId};
use crate::sorting::{SortKey, SortKeyed, sorted, stable_sort};
use crate::update_provider::PoolUpdateProvider;

verus! {

/// A change of one L2 parameter, the others left as they are.
pub open spec fn no_fee_change() -> L2FeeUpdate {
    L2FeeUpdate {
        protocol_tax_fee_e6: None,
        protocol_swap_fee_e6: None,
        priority_fee_tax_floor: None,
        jit_tax_enabled: None,
        withdraw_only: None,
    }
}

/// The signature of the call that reads the priority-fee floor of a hook.
pub open spec fn floor_call_signature() -> &'static str {
    "priorityFeeTaxFloor()"
}

/// The input of the call that reads the priority-fee floor of a hook: the
/// first four bytes of the hash of the call's signature.
pub fn floor_call_input() -> (input: Vec<u8>)
    ensures
        input@ == spec_event_topic(floor_call_signature())@.subrange(0, 4),
{
    let topic = event_topic("priorityFeeTaxFloor()");
    let mut input: Vec<u8> = Vec::new();
    let mut k: usize = 0;
    while k < 4
        invariant
            k <= 4,
            input@ == topic@.subrange(0, k as int),
        decreases 4 - k,
    {
        input.push(topic.bytes[k]);
        proof {
            assert(input@ =~= topic@.subrange(0, k + 1));
        }
        k = k + 1;
    }
    input
}

/// The floor that a hook answers with: the first word of the answer as a
/// number, or `None` for an answer of less than a word or a number that does
/// not fit in 128 bits.
pub open spec fn spec_floor_of_answer(answer: Seq<u8>) -> Option<u128> {
    if answer.len() < 32 {
        None
    } else {
        match spec_decode_uint(answer.subrange(0, 32), (u128::MAX + 1) as nat) {
            Some(v) => Some(v as u128),
            None => None,
        }
    }
}

/// The floor that a hook answers with.
pub fn floor_of_answer(answer: &Vec<u8>) -> (r: Option<u128>)
    ensures
        r == spec_floor_of_answer(answer@),
{
    if answer.len() < 32 {
        return None;
    }
    decode_uint(answer.as_slice(), 0, u128::MAX)
}

/// The hooks of the pools that a list of logs creates, each once, in the
/// order of their first pool.
pub open spec fn created_hooks(logs: Seq<RawLog>) -> Seq<Address>
    decreases logs.len(),
{
    if logs.len() == 0 {
        Seq::empty()
    } else {
        let rest = created_hooks(logs.drop_last());
        match spec_decode_pool_created(logs.last()) {
            Some(ev) => if rest.contains(ev.hook) {
                rest
            } else {
                rest.push(ev.hook)
            },
            None => rest,
        }
    }
}

/// The JIT-tax status of each hook after a list of logs: the status of its
/// last `JITTaxStatusUpdated`.
pub open spec fn jit_statuses(logs: Seq<RawLog>) -> Seq<(Address, bool)>
    decreases logs.len(),
{
    if logs.len() == 0 {
        Seq::empty()
    } else {
        let rest = jit_statuses(logs.drop_last());
        match spec_decode_jit_tax_status_updated(logs.last()) {
            Some(ev) => inserted(rest, ev.hook, ev.new_jit_tax_enabled),
            None => rest,
        }
    }
}

/// True when a log is the withdraw-only event and not a JIT-tax event.
pub open spec fn is_withdraw_only_log(log: RawLog) -> bool {
    spec_decode_jit_tax_status_updated(log) is None && has_shape(
        log,
        withdraw_only_signature(),
        1,
        0,
    )
}

/// True when the factory went withdraw-only within a list of logs.
pub open spec fn withdraw_only_seen(logs: Seq<RawLog>) -> bool
    decreases logs.len(),
{
    if logs.len() == 0 {
        false
    } else {
        withdraw_only_seen(logs.drop_last()) || is_withdraw_only_log(logs.last())
    }
}

/// True when every hook of a created pool has its priority-fee floor in the
/// list.
pub open spec fn floors_cover(logs: Seq<RawLog>, floors: Seq<(Address, u128)>) -> bool {
    forall|i: int|
        0 <= i < logs.len() && spec_decode_pool_created(#[trigger] logs[i]) is Some ==> lookup(
            floors,
            spec_decode_pool_created(logs[i])->Some_0.hook,
        ) is Some
}

/// The hook-level state that the factory logs of a stretch of blocks carry.
pub struct HookState {
    /// The priority-fee floor of each hook, as read from the hooks.
    pub floors: Seq<(Address, u128)>,
    /// The JIT-tax status of each hook that the logs set.
    pub jit: Seq<(Address, bool)>,
    /// True when the factory went withdraw-only.
    pub withdraw_only: bool,
}

/// The update that announces a created pool.
pub open spec fn created_update(ev: PoolCreatedLog, block: u64, hooks: HookState) -> PoolUpdate<Optimism> {
    let pool_id = ev.key.spec_pool_id();
    PoolUpdate::ChainSpecific {
        pool_id,
        update: L2PoolUpdate::NewPool {
            pool_id,
            token0: ev.key.currency0,
            token1: ev.key.currency1,
            creator_tax_fee_e6: ev.creator_tax_fee_e6,
            protocol_tax_fee_e6: ev.protocol_tax_fee_e6,
            creator_swap_fee_e6: ev.creator_swap_fee_e6,
            protocol_swap_fee_e6: ev.protocol_swap_fee_e6,
            hook_fee: ev.key.fee,
            tick_spacing: ev.key.tick_spacing,
            hook: ev.hook,
            block,
            priority_fee_tax_floor: match lookup(hooks.floors, ev.hook) {
                Some(floor) => floor,
                None => 0,
            },
            jit_tax_enabled: match lookup(hooks.jit, ev.hook) {
                Some(enabled) => enabled,
                None => false,
            },
            withdraw_only: hooks.withdraw_only,
        },
    }
}

/// One fee update for each pool of a list, in order.
pub open spec fn fee_updates_for(pools: Seq<(PoolId, PoolKey)>, block: u64, update: L2FeeUpdate) -> Seq<
    PoolUpdate<Optimism>,
> {
    Seq::new(
        pools.len(),
        |i: int| PoolUpdate::FeeUpdate { pool_id: pools[i].0, block, update },
    )
}

/// The registry and the updates after a stretch of factory logs.
pub struct FactoryScan {
    pub registry: Seq<(PoolId, PoolKey)>,
    pub updates: Seq<PoolUpdate<Optimism>>,
}

/// What one factory log does. A created pool enters the registry and is
/// announced; a change of a protocol fee becomes a fee update of its pool; a
/// change of the JIT tax or of the priority-fee floor of a hook becomes a fee
/// update of each pool of the hook, and the withdraw-only event one of every
/// pool.
pub open spec fn factory_step(scan: FactoryScan, log: RawLog, hooks: HookState) -> FactoryScan {
    let block = log.block_number;
    match spec_decode_pool_created(log) {
        Some(ev) => FactoryScan {
            registry: inserted(scan.registry, ev.key.spec_pool_id(), ev.key),
            updates: scan.updates.push(created_update(ev, block, hooks)),
        },
        None => match spec_decode_protocol_fee(log, protocol_swap_fee_signature()) {
            Some(ev) => FactoryScan {
                registry: scan.registry,
                updates: scan.updates.push(
                    PoolUpdate::FeeUpdate {
                        pool_id: ev.key.spec_pool_id(),
                        block,
                        update: L2FeeUpdate {
                            protocol_swap_fee_e6: Some(ev.new_fee_e6),
                            ..no_fee_change()
                        },
                    },
                ),
            },
            None => match spec_decode_protocol_fee(log, protocol_tax_fee_signature()) {
                Some(ev) => FactoryScan {
                    registry: scan.registry,
                    updates: scan.updates.push(
                        PoolUpdate::FeeUpdate {
                            pool_id: ev.key.spec_pool_id(),
                            block,
                            update: L2FeeUpdate {
                                protocol_tax_fee_e6: Some(ev.new_fee_e6),
                                ..no_fee_change()
                            },
                        },
                    ),
                },
                None => match spec_decode_jit_tax_status_updated(log) {
                    Some(ev) => FactoryScan {
                        registry: scan.registry,
                        updates: scan.updates + fee_updates_for(
                            pools_with_hook(scan.registry, Some(ev.hook)),
                            block,
                            L2FeeUpdate {
                                jit_tax_enabled: Some(ev.new_jit_tax_enabled),
                                ..no_fee_change()
                            },
                        ),
                    },
                    None => match spec_decode_priority_fee_tax_floor_updated(log) {
                        Some(ev) => FactoryScan {
                            registry: scan.registry,
                            updates: scan.updates + fee_updates_for(
                                pools_with_hook(scan.registry, Some(ev.hook)),
                                block,
                                L2FeeUpdate {
                                    priority_fee_tax_floor: Some(ev.new_priority_fee_tax_floor),
                                    ..no_fee_change()
                                },
                            ),
                        },
                        None => if has_shape(log, withdraw_only_signature(), 1, 0) {
                            FactoryScan {
                                registry: scan.registry,
                                updates: scan.updates + fee_updates_for(
                                    pools_with_hook(scan.registry, None),
                                    block,
                                    L2FeeUpdate { withdraw_only: Some(true), ..no_fee_change() },
                                ),
                            }
                        } else {
                            scan
                        },
                    },
                },
            },
        },
    }
}

/// What a list of factory logs does, in order.
pub open spec fn factory_scan(registry: Seq<(PoolId, PoolKey)>, logs: Seq<RawLog>, hooks: HookState) -> FactoryScan
    decreases logs.len(),
{
    if logs.len() == 0 {
        FactoryScan { registry, updates: Seq::empty() }
    } else {
        factory_step(factory_scan(registry, logs.drop_last(), hooks), logs.last(), hooks)
    }
}

/// The hook-level state of a stretch of factory logs, given the floors that
/// were read from the hooks.
pub open spec fn hook_state(logs: Seq<RawLog>, floors: Seq<(Address, u128)>) -> HookState {
    HookState { floors, jit: jit_statuses(logs), withdraw_only: withdraw_only_seen(logs) }
}

/// True when a list holds an address.
pub fn contains_address(list: &Vec<Address>, address: &Address) -> (r: bool)
    ensures
        r == list@.contains(*address),
{
    let mut i: usize = 0;
    while i < list.len()
        invariant
            i <= list.len(),
            forall|j: int| 0 <= j < i ==> list@[j] != *address,
        decreases list.len() - i,
    {
        if list[i].same(address) {
            return true;
        }
        i = i + 1;
    }
    false
}

/// The hooks of the pools that a list of factory logs creates, each once:
/// the hooks whose priority-fee floor has to be read before the logs are
/// processed.
pub fn hooks_of_created_pools(logs: &Vec<RawLog>) -> (hooks: Vec<Address>)
    ensures
        hooks@ == created_hooks(logs@),
{
    let mut hooks: Vec<Address> = Vec::new();
    let mut i: usize = 0;
    proof {
        assert(logs@.take(0) =~= Seq::<RawLog>::empty());
    }
    while i < logs.len()
        invariant
            i <= logs.len(),
            hooks@ == created_hooks(logs@.take(i as int)),
        decreases logs.len() - i,
    {
        proof {
            let next = logs@.take(i + 1);
            assert(next.drop_last() =~= logs@.take(i as int));
            assert(next.last() == logs@[i as int]);
        }
        match decode_pool_created(&logs[i]) {
            Some(ev) => {
                if !contains_address(&hooks, &ev.hook) {
                    hooks.push(ev.hook);
                }
            },
            None => {},
        }
        i = i + 1;
    }
    proof {
        assert(logs@.take(logs.len() as int) =~= logs@);
    }
    hooks
}

/// The JIT-tax status of each hook and whether the factory went
/// withdraw-only, over a list of factory logs.
pub fn scan_hook_settings(logs: &Vec<RawLog>) -> (r: (KeyMap<Address, bool>, bool))
    ensures
        r.0.entries() == jit_statuses(logs@),
        r.1 == withdraw_only_seen(logs@),
{
    let mut jit: KeyMap<Address, bool> = KeyMap::new();
    let mut withdraw_only: bool = false;
    let mut i: usize = 0;
    proof {
        assert(logs@.take(0) =~= Seq::<RawLog>::empty());
    }
    while i < logs.len()
        invariant
            i <= logs.len(),
            jit.entries() == jit_statuses(logs@.take(i as int)),
            withdraw_only == withdraw_only_seen(logs@.take(i as int)),
        decreases logs.len() - i,
    {
        proof {
            let next = logs@.take(i + 1);
            assert(next.drop_last() =~= logs@.take(i as int));
            assert(next.last() == logs@[i as int]);
        }
        match decode_jit_tax_status_updated(&logs[i]) {
            Some(ev) => {
                jit.insert(ev.hook, ev.new_jit_tax_enabled);
            },
            None => {
                if is_withdraw_only(&logs[i]) {
                    withdraw_only = true;
                }
            },
        }
        i = i + 1;
    }
    proof {
        assert(logs@.take(logs.len() as int) =~= logs@);
    }
    (jit, withdraw_only)
}

/// True when every hook of a created pool has its priority-fee floor in the
/// map.
pub fn check_floors(logs: &Vec<RawLog>, hook_floors: &KeyMap<Address, u128>) -> (r: bool)
    ensures
        r == floors_cover(logs@, hook_floors.entries()),
{
    let mut i: usize = 0;
    while i < logs.len()
        invariant
            i <= logs.len(),
            forall|j: int|
                0 <= j < i && spec_decode_pool_created(#[trigger] logs@[j]) is Some ==> lookup(
                    hook_floors.entries(),
                    spec_decode_pool_created(logs@[j])->Some_0.hook,
                ) is Some,
        decreases logs.len() - i,
    {
        match decode_pool_created(&logs[i]) {
            Some(ev) => {
                if hook_floors.get(&ev.hook).is_none() {
                    return false;
                }
            },
            None => {},
        }
        i = i + 1;
    }
    true
}

/// Appends one fee update for each pool of a list.
fn push_fee_updates(
    updates: &mut Vec<PoolUpdate<Optimism>>,
    pools: &Vec<(PoolId, PoolKey)>,
    block: u64,
    update: L2FeeUpdate,
)
    ensures
        final(updates)@ == old(updates)@ + fee_updates_for(pools@, block, update),
{
    let mut i: usize = 0;
    proof {
        assert(updates@ =~= old(updates)@ + fee_updates_for(pools@.take(0), block, update));
    }
    while i < pools.len()
        invariant
            i <= pools.len(),
            updates@ == old(updates)@ + fee_updates_for(pools@.take(i as int), block, update),
        decreases pools.len() - i,
    {
        updates.push(PoolUpdate::FeeUpdate { pool_id: pools[i].0, block, update });
        proof {
            assert(updates@ =~= old(updates)@ + fee_updates_for(
                pools@.take(i + 1),
                block,
                update,
            ));
        }
        i = i + 1;
    }
    proof {
        assert(pools@.take(pools.len() as int) =~= pools@);
    }
}

impl PoolUpdateProvider<Optimism> {
    /// Turns the logs of the factory into updates and keeps the registry up
    /// with the pools that they create. `hook_floors` holds the priority-fee
    /// floor of each hook as read from the hook; where the floor of the hook of
    /// a created pool is missing, nothing is processed.
    pub fn process_l2_factory_logs(
        &mut self,
        logs: &Vec<RawLog>,
        hook_floors: &KeyMap<Address, u128>,
    ) -> (r: Result<Vec<PoolUpdate<Optimism>>, PoolUpdateError>)
        requires
            old(self).pool_registry.valid(),
        ensures
            final(self).pool_registry.valid(),
            r is Ok <==> floors_cover(logs@, hook_floors.entries()),
            r is Err ==> r->Err_0 is Provider && *final(self) == *old(self),
            r is Ok ==> {
                let scan = factory_scan(
                    old(self).pool_registry.pools.entries(),
                    logs@,
                    hook_state(logs@, hook_floors.entries()),
                );
                &&& final(self).pool_registry.pools.entries() == scan.registry
                &&& r->Ok_0@ == scan.updates
            },
            final(self).pool_manager == old(self).pool_manager,
            final(self).address_book == old(self).address_book,
            final(self).tracked_pools == old(self).tracked_pools,
            final(self).event_history == old(self).event_history,
            final(self).current_block == old(self).current_block,
            final(self).reorg_detection_blocks == old(self).reorg_detection_blocks,
            final(self).reorg_lookback_block_chunk == old(self).reorg_lookback_block_chunk,
            final(self).stream_mode == old(self).stream_mode,
    {
        if !check_floors(logs, hook_floors) {
            return Err(PoolUpdateError::Provider("priority fee tax floor of a hook is missing".to_owned()));
        }
        let (jit, withdraw_only) = scan_hook_settings(logs);
        let ghost hooks = hook_state(logs@, hook_floors.entries());
        let mut updates: Vec<PoolUpdate<Optimism>> = Vec::new();
        let mut i: usize = 0;
        proof {
            assert(logs@.take(0) =~= Seq::<RawLog>::empty());
        }
        while i < logs.len()
            invariant
                i <= logs.len(),
                self.pool_registry.valid(),
                floors_cover(logs@, hook_floors.entries()),
                hooks == hook_state(logs@, hook_floors.entries()),
                jit.entries() == hooks.jit,
                withdraw_only == hooks.withdraw_only,
                (FactoryScan { registry: self.pool_registry.pools.entries(), updates: updates@ })
                    == factory_scan(
                    old(self).pool_registry.pools.entries(),
                    logs@.take(i as int),
                    hooks,
                ),
                self.pool_manager == old(self).pool_manager,
                self.address_book == old(self).address_book,
                self.tracked_pools == old(self).tracked_pools,
                self.event_history == old(self).event_history,
                self.current_block == old(self).current_block,
                self.reorg_detection_blocks == old(self).reorg_detection_blocks,
                self.reorg_lookback_block_chunk == old(self).reorg_lookback_block_chunk,
                self.stream_mode == old(self).stream_mode,
            decreases logs.len() - i,
        {
            proof {
                let next = logs@.take(i + 1);
                assert(next.drop_last() =~= logs@.take(i as int));
                assert(next.last() == logs@[i as int]);
            }
            let log: &RawLog = &logs[i];
            let block: u64 = log.block_number;
            if let Some(ev) = decode_pool_created(log) {
                self.pool_registry.add_new_pool(ev.key);
                let pool_id = ev.key.pool_id();
                let floor: u128 = match hook_floors.get(&ev.hook) {
                    Some(floor) => *floor,
                    None => 0,
                };
                let jit_tax_enabled: bool = match jit.get(&ev.hook) {
                    Some(enabled) => *enabled,
                    None => false,
                };
                updates.push(
                    PoolUpdate::ChainSpecific {
                        pool_id,
                        update: L2PoolUpdate::NewPool {
                            pool_id,
                            token0: ev.key.currency0,
                            token1: ev.key.currency1,
                            creator_tax_fee_e6: ev.creator_tax_fee_e6,
                            protocol_tax_fee_e6: ev.protocol_tax_fee_e6,
                            creator_swap_fee_e6: ev.creator_swap_fee_e6,
                            protocol_swap_fee_e6: ev.protocol_swap_fee_e6,
                            hook_fee: ev.key.fee,
                            tick_spacing: ev.key.tick_spacing,
                            hook: ev.hook,
                            block,
                            priority_fee_tax_floor: floor,
                            jit_tax_enabled,
                            withdraw_only,
                        },
                    },
                );
            } else if let Some(ev) = decode_protocol_swap_fee_updated(log) {
                updates.push(
                    PoolUpdate::FeeUpdate {
                        pool_id: ev.key.pool_id(),
                        block,
                        update: L2FeeUpdate {
                            protocol_tax_fee_e6: None,
                            protocol_swap_fee_e6: Some(ev.new_fee_e6),
                            priority_fee_tax_floor: None,
                            jit_tax_enabled: None,
                            withdraw_only: None,
                        },
                    },
                );
            } else if let Some(ev) = decode_protocol_tax_fee_updated(log) {
                updates.push(
                    PoolUpdate::FeeUpdate {
                        pool_id: ev.key.pool_id(),
                        block,
                        update: L2FeeUpdate {
                            protocol_tax_fee_e6: Some(ev.new_fee_e6),
                            protocol_swap_fee_e6: None,
                            priority_fee_tax_floor: None,
                            jit_tax_enabled: None,
                            withdraw_only: None,
                        },
                    },
                );
            } else if let Some(ev) = decode_jit_tax_status_updated(log) {
                let pools = self.pool_registry.pools(Some(ev.hook));
                push_fee_updates(
                    &mut updates,
                    &pools,
                    block,
                    L2FeeUpdate {
                        protocol_tax_fee_e6: None,
                        protocol_swap_fee_e6: None,
                        priority_fee_tax_floor: None,
                        jit_tax_enabled: Some(ev.new_jit_tax_enabled),
                        withdraw_only: None,
                    },
                );
            } else if let Some(ev) = decode_priority_fee_tax_floor_updated(log) {
                let pools = self.pool_registry.pools(Some(ev.hook));
                push_fee_updates(
                    &mut updates,
                    &pools,
                    block,
                    L2FeeUpdate {
                        protocol_tax_fee_e6: None,
                        protocol_swap_fee_e6: None,
                        priority_fee_tax_floor: Some(ev.new_priority_fee_tax_floor),
                        jit_tax_enabled: None,
                        withdraw_only: None,
                    },
                );
            } else if is_withdraw_only(log) {
                let pools = self.pool_registry.pools(None);
                push_fee_updates(
                    &mut updates,
                    &pools,
                    block,
                    L2FeeUpdate {
                        protocol_tax_fee_e6: None,
                        protocol_swap_fee_e6: None,
                        priority_fee_tax_floor: None,
                        jit_tax_enabled: None,
                        withdraw_only: Some(true),
                    },
                );
            }
            i = i + 1;
        }
        proof {
            assert(logs@.take(logs.len() as int) =~= logs@);
        }
        Ok(updates)
    }
}

/// What the start-up scan takes from a factory log.
#[derive(Clone, Copy, Debug)]
pub enum L2ScanEvent {
    /// A pool was created.
    Created { block: u64, pool_id: PoolId, entry: PoolKeyWithFees<L2FeeConfiguration> },
    /// A protocol fee of a pool changed.
    FeeChange { block: u64, pool_id: PoolId, update: L2FeeUpdate },
}

impl SortKeyed for L2ScanEvent {
    /// Scan events are ordered by their block.
    open spec fn spec_sort_key(&self) -> SortKey {
        match self {
            L2ScanEvent::Created { block, .. } => (*block, 0),
            L2ScanEvent::FeeChange { block, .. } => (*block, 0),
        }
    }

    fn sort_key(&self) -> (key: SortKey) {
        match self {
            L2ScanEvent::Created { block, .. } => (*block, 0),
            L2ScanEvent::FeeChange { block, .. } => (*block, 0),
        }
    }
}

/// The pool that the scan records for a created pool.
pub open spec fn created_entry(ev: PoolCreatedLog, hooks: HookState) -> PoolKeyWithFees<
    L2FeeConfiguration,
> {
    PoolKeyWithFees {
        pool_key: PoolKey {
            currency0: ev.key.currency0,
            currency1: ev.key.currency1,
            fee: ev.key.fee,
            tick_spacing: ev.key.tick_spacing,
            hooks: ev.hook,
        },
        fee_cfg: L2FeeConfiguration {
            is_initialized: true,
            creator_tax_fee_e6: ev.creator_tax_fee_e6,
            protocol_tax_fee_e6: ev.protocol_tax_fee_e6,
            creator_swap_fee_e6: ev.creator_swap_fee_e6,
            protocol_swap_fee_e6: ev.protocol_swap_fee_e6,
            priority_fee_tax_floor: match lookup(hooks.floors, ev.hook) {
                Some(floor) => floor,
                None => 0,
            },
            jit_tax_enabled: match lookup(hooks.jit, ev.hook) {
                Some(enabled) => enabled,
                None => false,
            },
            withdraw_only: hooks.withdraw_only,
        },
    }
}

/// What the start-up scan takes from a list of factory logs, in order:
/// created pools and changes of protocol fees.
pub open spec fn scan_events(logs: Seq<RawLog>, hooks: HookState) -> Seq<L2ScanEvent>
    decreases logs.len(),
{
    if logs.len() == 0 {
        Seq::empty()
    } else {
        let rest = scan_events(logs.drop_last(), hooks);
        let log = logs.last();
        match spec_decode_pool_created(log) {
            Some(ev) => rest.push(
                L2ScanEvent::Created {
                    block: log.block_number,
                    pool_id: ev.key.spec_pool_id(),
                    entry: created_entry(ev, hooks),
                },
            ),
            None => match spec_decode_protocol_fee(log, protocol_swap_fee_signature()) {
                Some(ev) => rest.push(
                    L2ScanEvent::FeeChange {
                        block: log.block_number,
                        pool_id: ev.key.spec_pool_id(),
                        update: L2FeeUpdate {
                            protocol_swap_fee_e6: Some(ev.new_fee_e6),
                            ..no_fee_change()
                        },
                    },
                ),
                None => match spec_decode_protocol_fee(log, protocol_tax_fee_signature()) {
                    Some(ev) => rest.push(
                        L2ScanEvent::FeeChange {
                            block: log.block_number,
                            pool_id: ev.key.spec_pool_id(),
                            update: L2FeeUpdate {
                                protocol_tax_fee_e6: Some(ev.new_fee_e6),
                                ..no_fee_change()
                            },
                        },
                    ),
                    None => rest,
                },
            },
        }
    }
}

/// A fee configuration with the protocol fees and the floor of a fee update
/// taken over.
pub open spec fn scanned_fees(cfg: L2FeeConfiguration, update: L2FeeUpdate) -> L2FeeConfiguration {
    L2FeeConfiguration {
        protocol_swap_fee_e6: match update.protocol_swap_fee_e6 {
            Some(fee) => fee,
            None => cfg.protocol_swap_fee_e6,
        },
        protocol_tax_fee_e6: match update.protocol_tax_fee_e6 {
            Some(fee) => fee,
            None => cfg.protocol_tax_fee_e6,
        },
        priority_fee_tax_floor: match update.priority_fee_tax_floor {
            Some(floor) => floor,
            None => cfg.priority_fee_tax_floor,
        },
        ..cfg
    }
}

/// The pools that a list of scan events leaves: a created pool enters under
/// its identifier, and a fee change applies to the pool of its identifier
/// where that pool has entered before.
pub open spec fn scanned_pools(events: Seq<L2ScanEvent>) -> Seq<
    (PoolId, PoolKeyWithFees<L2FeeConfiguration>),
>
    decreases events.len(),
{
    if events.len() == 0 {
        Seq::empty()
    } else {
        let before = scanned_pools(events.drop_last());
        match events.last() {
            L2ScanEvent::Created { pool_id, entry, .. } => inserted(before, pool_id, entry),
            L2ScanEvent::FeeChange { pool_id, update, .. } => match lookup(before, pool_id) {
                Some(pool) => inserted(
                    before,
                    pool_id,
                    PoolKeyWithFees {
                        pool_key: pool.pool_key,
                        fee_cfg: scanned_fees(pool.fee_cfg, update),
                    },
                ),
                None => before,
            },
        }
    }
}

/// What the start-up scan takes from a list of factory logs.
fn collect_scan_events(
    logs: &Vec<RawLog>,
    hook_floors: &KeyMap<Address, u128>,
    jit: &KeyMap<Address, bool>,
    withdraw_only: bool,
) -> (events: Vec<L2ScanEvent>)
    ensures
        events@ == scan_events(
            logs@,
            HookState { floors: hook_floors.entries(), jit: jit.entries(), withdraw_only },
        ),
{
    let ghost hooks = HookState {
        floors: hook_floors.entries(),
        jit: jit.entries(),
        withdraw_only,
    };
    let mut events: Vec<L2ScanEvent> = Vec::new();
    let mut i: usize = 0;
    proof {
        assert(logs@.take(0) =~= Seq::<RawLog>::empty());
    }
    while i < logs.len()
        invariant
            i <= logs.len(),
            hooks == (HookState {
                floors: hook_floors.entries(),
                jit: jit.entries(),
                withdraw_only,
            }),
            events@ == scan_events(logs@.take(i as int), hooks),
        decreases logs.len() - i,
    {
        proof {
            let next = logs@.take(i + 1);
            assert(next.drop_last() =~= logs@.take(i as int));
            assert(next.last() == logs@[i as int]);
        }
        let log: &RawLog = &logs[i];
        if let Some(ev) = decode_pool_created(log) {
            let floor: u128 = match hook_floors.get(&ev.hook) {
                Some(floor) => *floor,
                None => 0,
            };
            let jit_tax_enabled: bool = match jit.get(&ev.hook) {
                Some(enabled) => *enabled,
                None => false,
            };
            events.push(
                L2ScanEvent::Created {
                    block: log.block_number,
                    pool_id: ev.key.pool_id(),
                    entry: PoolKeyWithFees {
                        pool_key: PoolKey {
                            currency0: ev.key.currency0,
                            currency1: ev.key.currency1,
                            fee: ev.key.fee,
                            tick_spacing: ev.key.tick_spacing,
                            hooks: ev.hook,
                        },
                        fee_cfg: L2FeeConfiguration {
                            is_initialized: true,
                            creator_tax_fee_e6: ev.creator_tax_fee_e6,
                            protocol_tax_fee_e6: ev.protocol_tax_fee_e6,
                            creator_swap_fee_e6: ev.creator_swap_fee_e6,
                            protocol_swap_fee_e6: ev.protocol_swap_fee_e6,
                            priority_fee_tax_floor: floor,
                            jit_tax_enabled,
                            withdraw_only,
                        },
                    },
                },
            );
        } else if let Some(ev) = decode_protocol_swap_fee_updated(log) {
            events.push(
                L2ScanEvent::FeeChange {
                    block: log.block_number,
                    pool_id: ev.key.pool_id(),
                    update: L2FeeUpdate {
                        protocol_tax_fee_e6: None,
                        protocol_swap_fee_e6: Some(ev.new_fee_e6),
                        priority_fee_tax_floor: None,
                        jit_tax_enabled: None,
                        withdraw_only: None,
                    },
                },
            );
        } else if let Some(ev) = decode_protocol_tax_fee_updated(log) {
            events.push(
                L2ScanEvent::FeeChange {
                    block: log.block_number,
                    pool_id: ev.key.pool_id(),
                    update: L2FeeUpdate {
                        protocol_tax_fee_e6: Some(ev.new_fee_e6),
                        protocol_swap_fee_e6: None,
                        priority_fee_tax_floor: None,
                        jit_tax_enabled: None,
                        withdraw_only: None,
                    },
                },
            );
        }
        i = i + 1;
    }
    proof {
        assert(logs@.take(logs.len() as int) =~= logs@);
    }
    events
}

/// The pools that the logs of the factory leave, with their fees, in the
/// order in which they were first created. The events apply in the order of
/// their blocks, the events of one block in the order of the logs.
/// `hook_floors` holds the priority-fee floor of each hook as read from the
/// hook; where the floor of the hook of a created pool is missing, the scan
/// fails.
pub fn fetch_l2_pools(logs: &Vec<RawLog>, hook_floors: &KeyMap<Address, u128>) -> (r: Result<
    Vec<PoolKeyWithFees<L2FeeConfiguration>>,
    PoolUpdateError,
>)
    ensures
        r is Ok <==> floors_cover(logs@, hook_floors.entries()),
        r is Err ==> r->Err_0 is Provider,
        r is Ok ==> r->Ok_0@ == values_of(
            scanned_pools(sorted(scan_events(logs@, hook_state(logs@, hook_floors.entries())))),
        ),
{
    if !check_floors(logs, hook_floors) {
        return Err(PoolUpdateError::Provider("priority fee tax floor of a hook is missing".to_owned()));
    }
    let (jit, withdraw_only) = scan_hook_settings(logs);
    let events = collect_scan_events(logs, hook_floors, &jit, withdraw_only);
    let ordered = stable_sort(events);
    let mut pools: IdMap<PoolKeyWithFees<L2FeeConfiguration>> = KeyMap::new();
    let mut i: usize = 0;
    proof {
        assert(ordered@.take(0) =~= Seq::<L2ScanEvent>::empty());
    }
    while i < ordered.len()
        invariant
            i <= ordered.len(),
            pools.entries() == scanned_pools(ordered@.take(i as int)),
        decreases ordered.len() - i,
    {
        proof {
            let next = ordered@.take(i + 1);
            assert(next.drop_last() =~= ordered@.take(i as int));
            assert(next.last() == ordered@[i as int]);
        }
        match ordered[i] {
            L2ScanEvent::Created { pool_id, entry, .. } => {
                pools.insert(pool_id, entry);
            },
            L2ScanEvent::FeeChange { pool_id, update, .. } => {
                let known: Option<PoolKeyWithFees<L2FeeConfiguration>> = match pools.get(&pool_id) {
                    Some(pool) => Some(*pool),
                    None => None,
                };
                match known {
                    Some(pool) => {
                        let mut fee_cfg: L2FeeConfiguration = pool.fee_cfg;
                        if let Some(fee) = update.protocol_swap_fee_e6 {
                            fee_cfg.protocol_swap_fee_e6 = fee;
                        }
                        if let Some(fee) = update.protocol_tax_fee_e6 {
                            fee_cfg.protocol_tax_fee_e6 = fee;
                        }
                        if let Some(floor) = update.priority_fee_tax_floor {
                            fee_cfg.priority_fee_tax_floor = floor;
                        }
                        pools.insert(pool_id, PoolKeyWithFees { pool_key: pool.pool_key, fee_cfg });
                    },
                    None => {},
                }
            },
        }
        i = i + 1;
    }
    proof {
        assert(ordered@.take(ordered.len() as int) =~= ordered@);
    }
    Ok(pools.values())
}

} // verus!
