//! What the chain-update provider does for the L1 deployment: the events of
//! the controller, the fee updates in the calls to it, and the scan that
//! finds the pools at start-up.

use vstd::prelude::*;
use crate::fee_config::{L1FeeConfiguration, L1FeeUpdate};
use crate::id_map::{KeyMap, inserted, removed, values_of};
use crate::logs::{
    BatchPoolUpdate, RawLog, decode_batch_update_pools, decode_pool_configured,
    decode_pool_removed, spec_decode_batch_update_pools, spec_decode_pool_configured,
    spec_decode_pool_removed,
};
use crate::network::Ethereum;
use crate::pool_key::{PoolKey, PoolKeyWithFees};
use crate::pool_registry::l1::L1RegistryModel;
use crate::pool_registry::{PoolRegistry, key_has_pair, pair_matches};
use crate::pool_updates::{L1PoolUpdate, PoolUpdate};
use crate::primitives::{Address, PoolId};
use crate::update_provider::PoolUpdateProvider;

verus! {

/// The longest span of blocks that the start-up scan asks the node for at
/// once, less one.
pub const SCAN_SPAN: u64 = 99_999;

/// The spans of blocks that the start-up scan asks the node for, in order:
/// from the deploy block to the end block, each span starting at the block
/// where the one before it ended.
pub open spec fn scan_ranges(deploy_block: int, end_block: int) -> Seq<(u64, u64)>
    decreases
            (if deploy_block < end_block {
                end_block - deploy_block
            } else {
                0
            }),
{
    if deploy_block == end_block || deploy_block < 0 || end_block < 0 || deploy_block > u64::MAX
        || end_block > u64::MAX {
        Seq::empty()
    } else if deploy_block > end_block {
        seq![(deploy_block as u64, end_block as u64)]
    } else {
        let this_end = if deploy_block + SCAN_SPAN < end_block {
            deploy_block + SCAN_SPAN
        } else {
            end_block
        };
        seq![(deploy_block as u64, this_end as u64)] + scan_ranges(this_end, end_block)
    }
}

/// The spans of blocks that the start-up scan asks the node for.
pub fn fetch_ranges(deploy_block: u64, end_block: u64) -> (ranges: Vec<(u64, u64)>)
    ensures
        ranges@ == scan_ranges(deploy_block as int, end_block as int),
{
    let mut ranges: Vec<(u64, u64)> = Vec::new();
    if deploy_block == end_block {
        return ranges;
    }
    if deploy_block > end_block {
        ranges.push((deploy_block, end_block));
        return ranges;
    }
    let mut current: u64 = deploy_block;
    proof {
        assert(ranges@ + scan_ranges(current as int, end_block as int) =~= scan_ranges(
            deploy_block as int,
            end_block as int,
        ));
    }
    while current < end_block
        invariant
            current <= end_block,
            scan_ranges(deploy_block as int, end_block as int) == ranges@ + scan_ranges(
                current as int,
                end_block as int,
            ),
        decreases end_block - current,
    {
        let this_end: u64 = if end_block - current > SCAN_SPAN {
            current + SCAN_SPAN
        } else {
            end_block
        };
        let ghost before = ranges@;
        ranges.push((current, this_end));
        proof {
            let rest = scan_ranges(this_end as int, end_block as int);
            assert(before + (seq![(current, this_end)] + rest) =~= ranges@ + rest);
        }
        current = this_end;
    }
    proof {
        assert(ranges@ + Seq::<(u64, u64)>::empty() =~= ranges@);
    }
    ranges
}

/// The key under which the start-up scan remembers a configured pool: the
/// pool key without its fee.
pub open spec fn scan_key(asset0: Address, asset1: Address, tick_spacing: i32, angstrom: Address) -> PoolKey {
    PoolKey { currency0: asset0, currency1: asset1, fee: 0, tick_spacing, hooks: angstrom }
}

/// The pools that a list of controller logs leaves configured: each
/// `PoolConfigured` puts its pool under its key without fee, in place of what
/// was there; each `PoolRemoved` takes the pool of its key out.
pub open spec fn configured_pools(logs: Seq<RawLog>, angstrom: Address) -> Seq<
    (PoolKey, PoolKeyWithFees<L1FeeConfiguration>),
>
    decreases logs.len(),
{
    if logs.len() == 0 {
        Seq::empty()
    } else {
        let before = configured_pools(logs.drop_last(), angstrom);
        let log = logs.last();
        match spec_decode_pool_configured(log) {
            Some(ev) => inserted(
                before,
                scan_key(ev.asset0, ev.asset1, ev.tick_spacing as i32, angstrom),
                PoolKeyWithFees {
                    pool_key: PoolKey {
                        currency0: ev.asset0,
                        currency1: ev.asset1,
                        fee: ev.bundle_fee,
                        tick_spacing: ev.tick_spacing as i32,
                        hooks: angstrom,
                    },
                    fee_cfg: L1FeeConfiguration {
                        bundle_fee: ev.bundle_fee,
                        swap_fee: ev.unlocked_fee,
                        protocol_fee: ev.protocol_unlocked_fee,
                    },
                },
            ),
            None => match spec_decode_pool_removed(log) {
                Some(ev) => removed(
                    before,
                    scan_key(ev.asset0, ev.asset1, ev.tick_spacing, angstrom),
                ),
                None => before,
            },
        }
    }
}

/// The pools that the logs of the controller leave configured, with their
/// fees, in the order in which they were first configured.
pub fn fetch_angstrom_pools(logs: &Vec<RawLog>, angstrom_address: Address) -> (pools: Vec<
    PoolKeyWithFees<L1FeeConfiguration>,
>)
    ensures
        pools@ == values_of(configured_pools(logs@, angstrom_address)),
{
    let mut set: KeyMap<PoolKey, PoolKeyWithFees<L1FeeConfiguration>> = KeyMap::new();
    let mut i: usize = 0;
    proof {
        assert(logs@.take(0) =~= Seq::<RawLog>::empty());
    }
    while i < logs.len()
        invariant
            i <= logs.len(),
            set.entries() == configured_pools(logs@.take(i as int), angstrom_address),
        decreases logs.len() - i,
    {
        proof {
            let next = logs@.take(i + 1);
            assert(next.drop_last() =~= logs@.take(i as int));
            assert(next.last() == logs@[i as int]);
        }
        match decode_pool_configured(&logs[i]) {
            Some(ev) => {
                let pool_key = PoolKey {
                    currency0: ev.asset0,
                    currency1: ev.asset1,
                    fee: ev.bundle_fee,
                    tick_spacing: ev.tick_spacing as i32,
                    hooks: angstrom_address,
                };
                let entry = PoolKeyWithFees {
                    pool_key,
                    fee_cfg: L1FeeConfiguration {
                        bundle_fee: ev.bundle_fee,
                        swap_fee: ev.unlocked_fee,
                        protocol_fee: ev.protocol_unlocked_fee,
                    },
                };
                set.insert(pool_key.with_fee(0), entry);
            },
            None => {
                match decode_pool_removed(&logs[i]) {
                    Some(ev) => {
                        let key = PoolKey {
                            currency0: ev.asset0,
                            currency1: ev.asset1,
                            fee: 0,
                            tick_spacing: ev.tick_spacing,
                            hooks: angstrom_address,
                        };
                        let _ = set.remove(&key);
                    },
                    None => {},
                }
            },
        }
        i = i + 1;
    }
    proof {
        assert(logs@.take(logs.len() as int) =~= logs@);
    }
    set.values()
}

/// The registry and the updates after a stretch of controller logs.
pub struct ControllerScan {
    pub registry: L1RegistryModel,
    pub updates: Seq<PoolUpdate<Ethereum>>,
}

/// What one controller log does. A `PoolConfigured` adds its pool to the
/// registry and announces it under the pool manager's identifier; a
/// `PoolRemoved` announces the removal of its pool. A pool that the registry
/// cannot convert to the pool manager's identifier is not announced.
pub open spec fn controller_step(scan: ControllerScan, log: RawLog, angstrom: Address) -> ControllerScan {
    let configured = match spec_decode_pool_configured(log) {
        Some(ev) => {
            let pool_key = PoolKey {
                currency0: ev.asset0,
                currency1: ev.asset1,
                fee: ev.bundle_fee,
                tick_spacing: ev.tick_spacing as i32,
                hooks: angstrom,
            };
            let registry = scan.registry.added(pool_key);
            match registry.private_key(pool_key.spec_pool_id()) {
                Some(pool_id) => ControllerScan {
                    registry,
                    updates: scan.updates.push(
                        PoolUpdate::ChainSpecific {
                            pool_id,
                            update: L1PoolUpdate::NewPool {
                                pool_id,
                                token0: ev.asset0,
                                token1: ev.asset1,
                                bundle_fee: ev.bundle_fee,
                                swap_fee: ev.unlocked_fee,
                                protocol_fee: ev.protocol_unlocked_fee,
                                tick_spacing: ev.tick_spacing as i32,
                                block: log.block_number,
                            },
                        },
                    ),
                },
                None => ControllerScan { registry, updates: scan.updates },
            }
        },
        None => scan,
    };
    match spec_decode_pool_removed(log) {
        Some(ev) => {
            let pool_key = PoolKey {
                currency0: ev.asset0,
                currency1: ev.asset1,
                fee: ev.fee_in_e6,
                tick_spacing: ev.tick_spacing,
                hooks: angstrom,
            };
            match configured.registry.private_key(pool_key.spec_pool_id()) {
                Some(pool_id) => ControllerScan {
                    registry: configured.registry,
                    updates: configured.updates.push(
                        PoolUpdate::ChainSpecific {
                            pool_id,
                            update: L1PoolUpdate::PoolRemoved { pool_id, block: log.block_number },
                        },
                    ),
                },
                None => configured,
            }
        },
        None => configured,
    }
}

/// What a list of controller logs does, in order.
pub open spec fn controller_scan(registry: L1RegistryModel, logs: Seq<RawLog>, angstrom: Address) -> ControllerScan
    decreases logs.len(),
{
    if logs.len() == 0 {
        ControllerScan { registry, updates: Seq::empty() }
    } else {
        controller_step(controller_scan(registry, logs.drop_last(), angstrom), logs.last(), angstrom)
    }
}

/// The entries of the pools behind a hook that trade a token pair, in order.
pub open spec fn pair_entries(
    entries: Seq<(PoolId, PoolKey)>,
    token0: Address,
    token1: Address,
    hook: Address,
) -> Seq<(PoolId, PoolKey)>
    decreases entries.len(),
{
    if entries.len() == 0 {
        Seq::empty()
    } else {
        let rest = pair_entries(entries.drop_last(), token0, token1, hook);
        if pair_matches(entries.last().1, token0, token1, Some(hook)) {
            rest.push(entries.last())
        } else {
            rest
        }
    }
}

/// The place of the first entry, from place `from` on, whose key has the
/// given fee.
pub open spec fn first_with_fee(entries: Seq<(PoolId, PoolKey)>, from: int, fee: u32) -> Option<int>
    decreases entries.len() - from,
{
    if from < 0 || from >= entries.len() {
        None
    } else if entries[from].1.fee == fee {
        Some(from)
    } else {
        first_with_fee(entries, from + 1, fee)
    }
}

/// The pool that an entry of a fee batch addresses: among the pools behind
/// the hook that trade the pair, the first whose key has the bundle fee, or
/// else the first.
pub open spec fn batch_target(
    registry: L1RegistryModel,
    entry: BatchPoolUpdate,
    angstrom: Address,
) -> Option<PoolId> {
    let candidates = pair_entries(registry.uni_pools, entry.asset_a, entry.asset_b, angstrom);
    if candidates.len() == 0 {
        None
    } else {
        match first_with_fee(candidates, 0, entry.bundle_fee) {
            Some(i) => Some(candidates[i].0),
            None => Some(candidates[0].0),
        }
    }
}

/// The fee updates of the entries of a fee batch, in order: one for each
/// entry whose pool the registry knows, under the pool manager's identifier.
pub open spec fn batch_updates(
    registry: L1RegistryModel,
    entries: Seq<BatchPoolUpdate>,
    angstrom: Address,
    block_number: u64,
) -> Seq<PoolUpdate<Ethereum>>
    decreases entries.len(),
{
    if entries.len() == 0 {
        Seq::empty()
    } else {
        let rest = batch_updates(registry, entries.drop_last(), angstrom, block_number);
        match batch_target(registry, entries.last(), angstrom) {
            Some(pool_id) => rest.push(
                PoolUpdate::FeeUpdate {
                    pool_id,
                    block: block_number,
                    update: L1FeeUpdate {
                        bundle_fee: entries.last().bundle_fee,
                        swap_fee: entries.last().unlocked_fee,
                        protocol_fee: entries.last().protocol_unlocked_fee,
                    },
                },
            ),
            None => rest,
        }
    }
}

/// The fee updates of a transaction: those of its fee batch where it is a
/// call of `batchUpdatePools` on the controller, and none otherwise.
pub open spec fn transaction_updates(
    registry: L1RegistryModel,
    to: Option<Address>,
    input: Seq<u8>,
    controller: Address,
    angstrom: Address,
    block_number: u64,
) -> Seq<PoolUpdate<Ethereum>> {
    if to == Some(controller) {
        match spec_decode_batch_update_pools(input) {
            Some(entries) => batch_updates(registry, entries, angstrom, block_number),
            None => Seq::empty(),
        }
    } else {
        Seq::empty()
    }
}

impl PoolUpdateProvider<Ethereum> {
    /// Turns the logs of the controller into updates and keeps the registry
    /// up with the pools that they configure.
    pub fn process_controller_logs(&mut self, logs: &Vec<RawLog>) -> (updates: Vec<
        PoolUpdate<Ethereum>,
    >)
        requires
            old(self).pool_registry.valid(),
        ensures
            final(self).pool_registry.valid(),
            final(self).pool_registry@ == controller_scan(
                old(self).pool_registry@,
                logs@,
                old(self).address_book.angstrom,
            ).registry,
            updates@ == controller_scan(
                old(self).pool_registry@,
                logs@,
                old(self).address_book.angstrom,
            ).updates,
            final(self).pool_manager == old(self).pool_manager,
            final(self).address_book == old(self).address_book,
            final(self).tracked_pools == old(self).tracked_pools,
            final(self).event_history == old(self).event_history,
            final(self).current_block == old(self).current_block,
            final(self).reorg_detection_blocks == old(self).reorg_detection_blocks,
            final(self).reorg_lookback_block_chunk == old(self).reorg_lookback_block_chunk,
            final(self).stream_mode == old(self).stream_mode,
    {
        let angstrom: Address = self.address_book.angstrom;
        let mut updates: Vec<PoolUpdate<Ethereum>> = Vec::new();
        let mut i: usize = 0;
        proof {
            assert(logs@.take(0) =~= Seq::<RawLog>::empty());
        }
        while i < logs.len()
            invariant
                i <= logs.len(),
                self.pool_registry.valid(),
                angstrom == old(self).address_book.angstrom,
                (ControllerScan { registry: self.pool_registry@, updates: updates@ })
                    == controller_scan(old(self).pool_registry@, logs@.take(i as int), angstrom),
                self.pool_manager == old(self).pool_manager,
                self.address_book == old(self).address_book,
                self.tracked_pools == old(self).tracked_pools,
                self.event_history == old(self).event_history,
                self.current_block == old(self).current_block,
                self.reorg_detection_blocks == old(self).reorg_detection_blocks,
                self.reorg_lookback_block_chunk == old(self).reorg_lookback_block_chunk,
                self.stream_mode == old(self).stream_mode,
            decreases logs.len() - i,
        {
            proof {
                let next = logs@.take(i + 1);
                assert(next.drop_last() =~= logs@.take(i as int));
                assert(next.last() == logs@[i as int]);
            }
            let log: &RawLog = &logs[i];
            match decode_pool_configured(log) {
                Some(ev) => {
                    let pool_key = PoolKey {
                        currency0: ev.asset0,
                        currency1: ev.asset1,
                        fee: ev.bundle_fee,
                        tick_spacing: ev.tick_spacing as i32,
                        hooks: angstrom,
                    };
                    self.pool_registry.add_new_pool(pool_key);
                    let angstrom_pool_id = pool_key.pool_id();
                    match self.pool_registry.private_key_from_public(&angstrom_pool_id) {
                        Some(pool_id) => {
                            updates.push(
                                PoolUpdate::ChainSpecific {
                                    pool_id,
                                    update: L1PoolUpdate::NewPool {
                                        pool_id,
                                        token0: ev.asset0,
                                        token1: ev.asset1,
                                        bundle_fee: ev.bundle_fee,
                                        swap_fee: ev.unlocked_fee,
                                        protocol_fee: ev.protocol_unlocked_fee,
                                        tick_spacing: ev.tick_spacing as i32,
                                        block: log.block_number,
                                    },
                                },
                            );
                        },
                        None => {},
                    }
                },
                None => {},
            }
            match decode_pool_removed(log) {
                Some(ev) => {
                    let pool_key = PoolKey {
                        currency0: ev.asset0,
                        currency1: ev.asset1,
                        fee: ev.fee_in_e6,
                        tick_spacing: ev.tick_spacing,
                        hooks: angstrom,
                    };
                    let angstrom_pool_id = pool_key.pool_id();
                    match self.pool_registry.private_key_from_public(&angstrom_pool_id) {
                        Some(pool_id) => {
                            updates.push(
                                PoolUpdate::ChainSpecific {
                                    pool_id,
                                    update: L1PoolUpdate::PoolRemoved {
                                        pool_id,
                                        block: log.block_number,
                                    },
                                },
                            );
                        },
                        None => {},
                    }
                },
                None => {},
            }
            i = i + 1;
        }
        proof {
            assert(logs@.take(logs.len() as int) =~= logs@);
        }
        updates
    }

    /// The pool that an entry of a fee batch addresses.
    fn find_batch_target(&self, entry: &BatchPoolUpdate) -> (r: Option<PoolId>)
        ensures
            r == batch_target(self.pool_registry@, *entry, self.address_book.angstrom),
    {
        let angstrom: Address = self.address_book.angstrom;
        let hook: Option<Address> = Some(angstrom);
        let pools = &self.pool_registry.uni_pools;
        let mut first: Option<PoolId> = None;
        let mut i: usize = 0;
        proof {
            assert(pools.entries().take(0) =~= Seq::<(PoolId, PoolKey)>::empty());
        }
        while i < pools.len()
            invariant
                i <= pools.entries().len(),
                hook == Some(angstrom),
                angstrom == self.address_book.angstrom,
                pools == &self.pool_registry.uni_pools,
                first_with_fee(
                    pair_entries(
                        pools.entries().take(i as int),
                        entry.asset_a,
                        entry.asset_b,
                        angstrom,
                    ),
                    0,
                    entry.bundle_fee,
                ) is None,
                first == (if pair_entries(
                    pools.entries().take(i as int),
                    entry.asset_a,
                    entry.asset_b,
                    angstrom,
                ).len() == 0 {
                    None
                } else {
                    Some(
                        pair_entries(
                            pools.entries().take(i as int),
                            entry.asset_a,
                            entry.asset_b,
                            angstrom,
                        )[0].0,
                    )
                }),
            decreases pools.entries().len() - i,
        {
            let id: PoolId = pools.key_at(i);
            let key: PoolKey = *pools.value_at(i);
            proof {
                let next = pools.entries().take(i + 1);
                assert(next.drop_last() =~= pools.entries().take(i as int));
                assert(next.last() == (id, key));
                let before = pair_entries(
                    pools.entries().take(i as int),
                    entry.asset_a,
                    entry.asset_b,
                    angstrom,
                );
                lemma_first_with_fee_push(before, (id, key), entry.bundle_fee);
            }
            if key_has_pair(&key, &entry.asset_a, &entry.asset_b, &hook) {
                if key.fee == entry.bundle_fee {
                    proof {
                        let before = pair_entries(
                            pools.entries().take(i as int),
                            entry.asset_a,
                            entry.asset_b,
                            angstrom,
                        );
                        let short = pair_entries(
                            pools.entries().take(i + 1),
                            entry.asset_a,
                            entry.asset_b,
                            angstrom,
                        );
                        assert(short == before.push((id, key)));
                        assert(first_with_fee(short, 0, entry.bundle_fee) == Some(
                            before.len() as int,
                        ));
                        assert(short[before.len() as int] == (id, key));
                        lemma_pair_entries_prefix(
                            pools.entries(),
                            i + 1,
                            entry.asset_a,
                            entry.asset_b,
                            angstrom,
                            entry.bundle_fee,
                        );
                    }
                    return Some(id);
                }
                if first.is_none() {
                    first = Some(id);
                }
            }
            i = i + 1;
        }
        proof {
            assert(pools.entries().take(pools.entries().len() as int) =~= pools.entries());
        }
        first
    }

    /// The fee updates of a transaction: those of its fee batch where it is a
    /// call of `batchUpdatePools` on the controller, and none otherwise.
    pub fn process_batch_update_pools(&self, to: Option<Address>, input: &Vec<u8>, block_number: u64) -> (updates:
        Vec<PoolUpdate<Ethereum>>)
        ensures
            updates@ == transaction_updates(
                self.pool_registry@,
                to,
                input@,
                self.address_book.controller_v1,
                self.address_book.angstrom,
                block_number,
            ),
    {
        let mut updates: Vec<PoolUpdate<Ethereum>> = Vec::new();
        let addressed: bool = match to {
            Some(target) => target.same(&self.address_book.controller_v1),
            None => false,
        };
        if !addressed {
            return updates;
        }
        let entries = match decode_batch_update_pools(input.as_slice()) {
            Some(entries) => entries,
            None => {
                return updates;
            },
        };
        let mut i: usize = 0;
        proof {
            assert(entries@.take(0) =~= Seq::<BatchPoolUpdate>::empty());
        }
        while i < entries.len()
            invariant
                i <= entries.len(),
                updates@ == batch_updates(
                    self.pool_registry@,
                    entries@.take(i as int),
                    self.address_book.angstrom,
                    block_number,
                ),
            decreases entries.len() - i,
        {
            proof {
                let next = entries@.take(i + 1);
                assert(next.drop_last() =~= entries@.take(i as int));
                assert(next.last() == entries@[i as int]);
            }
            let entry: BatchPoolUpdate = entries[i];
            match self.find_batch_target(&entry) {
                Some(pool_id) => {
                    updates.push(
                        PoolUpdate::FeeUpdate {
                            pool_id,
                            block: block_number,
                            update: L1FeeUpdate {
                                bundle_fee: entry.bundle_fee,
                                swap_fee: entry.unlocked_fee,
                                protocol_fee: entry.protocol_unlocked_fee,
                            },
                        },
                    );
                },
                None => {},
            }
            i = i + 1;
        }
        proof {
            assert(entries@.take(entries.len() as int) =~= entries@);
        }
        updates
    }
}

/// Adding an entry at the end changes the first entry with a fee only where
/// there was none.
pub proof fn lemma_first_with_fee_push(entries: Seq<(PoolId, PoolKey)>, entry: (PoolId, PoolKey), fee: u32)
    ensures
        first_with_fee(entries.push(entry), 0, fee) == (match first_with_fee(entries, 0, fee) {
            Some(i) => Some(i),
            None => if entry.1.fee == fee {
                Some(entries.len() as int)
            } else {
                None
            },
        }),
{
    lemma_first_with_fee_push_from(entries, entry, fee, 0);
}

/// As [`lemma_first_with_fee_push`], from any place on.
pub proof fn lemma_first_with_fee_push_from(
    entries: Seq<(PoolId, PoolKey)>,
    entry: (PoolId, PoolKey),
    fee: u32,
    from: int,
)
    requires
        0 <= from <= entries.len(),
    ensures
        first_with_fee(entries.push(entry), from, fee) == (match first_with_fee(entries, from, fee) {
            Some(i) => Some(i),
            None => if entry.1.fee == fee {
                Some(entries.len() as int)
            } else {
                None
            },
        }),
    decreases entries.len() - from,
{
    let pushed = entries.push(entry);
    if from < entries.len() {
        assert(pushed[from] == entries[from]);
        lemma_first_with_fee_push_from(entries, entry, fee, from + 1);
    } else {
        assert(pushed[from] == entry);
        assert(first_with_fee(pushed, from + 1, fee) is None);
    }
}

/// Where the last entry of a prefix of the pools is the first candidate with
/// the fee, it is the first such candidate among all pools.
pub proof fn lemma_pair_entries_prefix(
    entries: Seq<(PoolId, PoolKey)>,
    n: int,
    token0: Address,
    token1: Address,
    hook: Address,
    fee: u32,
)
    requires
        0 <= n <= entries.len(),
        first_with_fee(pair_entries(entries.take(n), token0, token1, hook), 0, fee) is Some,
    ensures
        pair_entries(entries, token0, token1, hook).len() > 0,
        first_with_fee(pair_entries(entries, token0, token1, hook), 0, fee) == first_with_fee(
            pair_entries(entries.take(n), token0, token1, hook),
            0,
            fee,
        ),
        pair_entries(entries, token0, token1, hook)[first_with_fee(
            pair_entries(entries.take(n), token0, token1, hook),
            0,
            fee,
        )->Some_0] == pair_entries(entries.take(n), token0, token1, hook)[first_with_fee(
            pair_entries(entries.take(n), token0, token1, hook),
            0,
            fee,
        )->Some_0],
    decreases entries.len() - n,
{
    let short = pair_entries(entries.take(n), token0, token1, hook);
    lemma_first_with_fee_range(short, 0, fee);
    if n < entries.len() {
        let next = entries.take(n + 1);
        assert(next.drop_last() =~= entries.take(n));
        lemma_first_with_fee_push(short, next.last(), fee);
        lemma_pair_entries_prefix(entries, n + 1, token0, token1, hook, fee);
        let longer = pair_entries(next, token0, token1, hook);
        let i = first_with_fee(short, 0, fee)->Some_0;
        assert(longer[i] == short[i]);
    } else {
        assert(entries.take(n) =~= entries);
    }
}

/// What `first_with_fee` finds is a place of the list.
pub proof fn lemma_first_with_fee_range(entries: Seq<(PoolId, PoolKey)>, from: int, fee: u32)
    ensures
        match first_with_fee(entries, from, fee) {
            Some(i) => 0 <= from <= i < entries.len() && entries[i].1.fee == fee,
            None => true,
        },
    decreases entries.len() - from,
{
    if 0 <= from < entries.len() && entries[from].1.fee != fee {
        lemma_first_with_fee_range(entries, from + 1, fee);
    }
}

} // verus!
