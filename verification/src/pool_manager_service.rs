//! The decisions of the pool-manager service. The service applies updates to
//! the pools or forwards them, keeps track of the current block, and tells
//! its surroundings what to do next: which pools to follow, which to load,
//! which slot0 feeds to subscribe to. Streams, channels and the tick loader
//! are left to the caller, who performs the actions that each step returns.

use vstd::prelude::*;
use crate::fee_config::{FeeConfig, L1FeeConfiguration, L2FeeConfiguration};
use crate::network::{Ethereum, Optimism, V4Network};
use crate::pool_key::PoolKey;
use crate::pool_registry::PoolRegistry;
use crate::pool_state::{BaselinePoolState, PoolModel};
use crate::pools::{BatchNotice, PoolsModel, UniswapPools, batch_result, lemma_pools_updated};
use crate::pool_updates::{L1PoolUpdate, L2PoolUpdate, PoolUpdate, Slot0Update};
use crate::primitives::{Address, PoolId};

verus! {

/// Pool state together with the tokens of the pool.
#[derive(Debug, Clone)]
pub struct PoolInfo<F: FeeConfig> {
    pub baseline_state: BaselinePoolState<F>,
    pub token0: Address,
    pub token1: Address,
    pub token0_decimals: u8,
    pub token1_decimals: u8,
}

/// What the surroundings of the service are to do.
pub enum ServiceAction<T: V4Network> {
    /// Forward the update on the outbound channel.
    Send(PoolUpdate<T>),
    /// Have the event stream follow the pool.
    StartTracking(PoolId),
    /// Subscribe the slot0 feed to the pool, named by the hook's identifier.
    SubscribeSlot0(PoolId),
    /// Unsubscribe the slot0 feed from the pool.
    UnsubscribeSlot0(PoolId),
    /// Have the tick loader load the pool.
    QueuePoolCreation { pool_key: PoolKey, block: u64, fee_cfg: T::FeeConfig },
    /// Have the tick loader forget the pool.
    RemovePool(PoolId),
    /// Ask the tick loader, for each pool, whether its current tick has come
    /// close to the edge of its loaded ticks.
    CheckTickRanges { block: u64 },
}

/// The state that the service keeps between steps.
pub struct PoolManagerService<T: V4Network> {
    pub pools: UniswapPools<T>,
    pub registry: T::PoolRegistry,
    pub current_block: u64,
    pub auto_pool_creation: bool,
    /// True when the service has a slot0 feed.
    pub has_slot0_stream: bool,
    /// True when updates go to an outbound channel instead of the pools.
    pub channel_mode: bool,
    /// Updates that wait while the tick loader is busy.
    pub pending_updates: Vec<PoolUpdate<T>>,
}

/// What the service does with a chain-specific update when it forwards
/// updates to a channel.
#[derive(Debug, Clone, Copy, PartialEq, Eq, Structural)]
pub enum ChannelHandling {
    /// The update is forwarded only.
    Forward,
    /// The service also processes the update itself.
    Process,
    /// The service also applies the update to its pools and processes it.
    ApplyAndProcess,
}

/// The part of the service that differs between deployments.
pub trait PoolEventProcessor: V4Network {
    /// The pools after the service handled a chain-specific update.
    spec fn spec_chain_pools(
        pools: Map<PoolId, PoolModel<Self::FeeConfig>>,
        update: Self::PoolUpdate,
    ) -> Map<PoolId, PoolModel<Self::FeeConfig>>;

    /// What handling a chain-specific update asks of the surroundings.
    spec fn spec_chain_actions(
        registry: Self::PoolRegistry,
        auto_pool_creation: bool,
        has_slot0_stream: bool,
        update: Self::PoolUpdate,
    ) -> Seq<ServiceAction<Self>>;

    /// What the service does with a chain-specific update in channel mode.
    spec fn spec_channel_handling(update: Self::PoolUpdate) -> ChannelHandling;

    /// The updates that a batch of the slot0 feed becomes.
    spec fn spec_slot0_updates(updates: Seq<Slot0Update>) -> Seq<PoolUpdate<Self>>;

    /// Handles a chain-specific update: a new pool is handed to the tick
    /// loader, a removed pool leaves the pools.
    fn handle_chain_specific_update(
        service: &mut PoolManagerService<Self>,
        pool_id: PoolId,
        update: &Self::PoolUpdate,
    ) -> (actions: Vec<ServiceAction<Self>>)
        requires
            old(service).pools.valid(),
        ensures
            final(service).pools.valid(),
            final(service).pools@.pools == Self::spec_chain_pools(
                old(service).pools@.pools,
                *update,
            ),
            final(service).pools@.block_number == old(service).pools@.block_number,
            actions@ == Self::spec_chain_actions(
                old(service).registry,
                old(service).auto_pool_creation,
                old(service).has_slot0_stream,
                *update,
            ),
            final(service).registry == old(service).registry,
            final(service).current_block == old(service).current_block,
            final(service).auto_pool_creation == old(service).auto_pool_creation,
            final(service).has_slot0_stream == old(service).has_slot0_stream,
            final(service).channel_mode == old(service).channel_mode,
            final(service).pending_updates == old(service).pending_updates,
    ;

    /// What the service does with a chain-specific update in channel mode.
    fn channel_handling(update: &Self::PoolUpdate) -> (r: ChannelHandling)
        ensures
            r == Self::spec_channel_handling(*update),
    ;

    /// The updates that a batch of the slot0 feed becomes.
    fn slot0_updates(updates: &Vec<Slot0Update>) -> (r: Vec<PoolUpdate<Self>>)
        ensures
            r@ == Self::spec_slot0_updates(updates@),
    ;
}

impl PoolEventProcessor for Ethereum {
    open spec fn spec_chain_pools(
        pools: Map<PoolId, PoolModel<L1FeeConfiguration>>,
        update: L1PoolUpdate,
    ) -> Map<PoolId, PoolModel<L1FeeConfiguration>> {
        match update {
            L1PoolUpdate::PoolRemoved { pool_id, .. } => pools.remove(pool_id),
            _ => pools,
        }
    }

    open spec fn spec_chain_actions(
        registry: crate::pool_registry::l1::L1PoolRegistry,
        auto_pool_creation: bool,
        has_slot0_stream: bool,
        update: L1PoolUpdate,
    ) -> Seq<ServiceAction<Ethereum>> {
        match update {
            L1PoolUpdate::NewPool { pool_id, bundle_fee, swap_fee, protocol_fee, block, .. } => {
                if auto_pool_creation && registry.spec_get(pool_id) is Some {
                    seq![
                        ServiceAction::QueuePoolCreation {
                            pool_key: registry.spec_get(pool_id)->Some_0,
                            block,
                            fee_cfg: L1FeeConfiguration { bundle_fee, swap_fee, protocol_fee },
                        },
                    ]
                } else {
                    Seq::empty()
                }
            },
            L1PoolUpdate::PoolRemoved { pool_id, .. } => {
                if has_slot0_stream {
                    seq![ServiceAction::RemovePool(pool_id), ServiceAction::UnsubscribeSlot0(pool_id)]
                } else {
                    seq![ServiceAction::RemovePool(pool_id)]
                }
            },
            L1PoolUpdate::Slot0Update(_) => Seq::empty(),
        }
    }

    open spec fn spec_channel_handling(update: L1PoolUpdate) -> ChannelHandling {
        match update {
            L1PoolUpdate::NewPool { .. } => ChannelHandling::Process,
            L1PoolUpdate::PoolRemoved { .. } => ChannelHandling::ApplyAndProcess,
            L1PoolUpdate::Slot0Update(_) => ChannelHandling::Forward,
        }
    }

    open spec fn spec_slot0_updates(updates: Seq<Slot0Update>) -> Seq<PoolUpdate<Ethereum>> {
        Seq::new(
            updates.len(),
            |i: int|
                PoolUpdate::ChainSpecific {
                    pool_id: updates[i].uni_pool_id,
                    update: L1PoolUpdate::Slot0Update(updates[i]),
                },
        )
    }

    fn handle_chain_specific_update(
        service: &mut PoolManagerService<Ethereum>,
        pool_id: PoolId,
        update: &L1PoolUpdate,
    ) -> (actions: Vec<ServiceAction<Ethereum>>) {
        let mut actions: Vec<ServiceAction<Ethereum>> = Vec::new();
        match update {
            L1PoolUpdate::NewPool { pool_id, bundle_fee, swap_fee, protocol_fee, block, .. } => {
                if service.auto_pool_creation {
                    match service.registry.get(pool_id) {
                        Some(pool_key) => {
                            actions.push(
                                ServiceAction::QueuePoolCreation {
                                    pool_key: *pool_key,
                                    block: *block,
                                    fee_cfg: L1FeeConfiguration {
                                        bundle_fee: *bundle_fee,
                                        swap_fee: *swap_fee,
                                        protocol_fee: *protocol_fee,
                                    },
                                },
                            );
                        },
                        None => {},
                    }
                }
            },
            L1PoolUpdate::PoolRemoved { pool_id, .. } => {
                let _ = service.pools.remove_pool(pool_id);
                actions.push(ServiceAction::RemovePool(*pool_id));
                if service.has_slot0_stream {
                    actions.push(ServiceAction::UnsubscribeSlot0(*pool_id));
                }
            },
            L1PoolUpdate::Slot0Update(_) => {},
        }
        actions
    }

    fn channel_handling(update: &L1PoolUpdate) -> (r: ChannelHandling) {
        match update {
            L1PoolUpdate::NewPool { .. } => ChannelHandling::Process,
            L1PoolUpdate::PoolRemoved { .. } => ChannelHandling::ApplyAndProcess,
            L1PoolUpdate::Slot0Update(_) => ChannelHandling::Forward,
        }
    }

    fn slot0_updates(updates: &Vec<Slot0Update>) -> (r: Vec<PoolUpdate<Ethereum>>) {
        let mut out: Vec<PoolUpdate<Ethereum>> = Vec::new();
        let mut i: usize = 0;
        while i < updates.len()
            invariant
                i <= updates.len(),
                out@ == Self::spec_slot0_updates(updates@.take(i as int)),
            decreases updates.len() - i,
        {
            let update: Slot0Update = updates[i];
            out.push(
                PoolUpdate::ChainSpecific {
                    pool_id: update.uni_pool_id,
                    update: L1PoolUpdate::Slot0Update(update),
                },
            );
            proof {
                assert(out@ =~= Self::spec_slot0_updates(updates@.take(i + 1)));
            }
            i = i + 1;
        }
        proof {
            assert(updates@.take(updates.len() as int) =~= updates@);
        }
        out
    }
}

impl PoolEventProcessor for Optimism {
    open spec fn spec_chain_pools(
        pools: Map<PoolId, PoolModel<L2FeeConfiguration>>,
        update: L2PoolUpdate,
    ) -> Map<PoolId, PoolModel<L2FeeConfiguration>> {
        pools
    }

    open spec fn spec_chain_actions(
        registry: crate::pool_registry::l2::L2PoolRegistry,
        auto_pool_creation: bool,
        has_slot0_stream: bool,
        update: L2PoolUpdate,
    ) -> Seq<ServiceAction<Optimism>> {
        match update {
            L2PoolUpdate::NewPool {
                pool_id,
                block,
                creator_tax_fee_e6,
                protocol_tax_fee_e6,
                creator_swap_fee_e6,
                protocol_swap_fee_e6,
                priority_fee_tax_floor,
                jit_tax_enabled,
                withdraw_only,
                ..
            } => {
                if auto_pool_creation && registry.spec_get(pool_id) is Some {
                    seq![
                        ServiceAction::QueuePoolCreation {
                            pool_key: registry.spec_get(pool_id)->Some_0,
                            block,
                            fee_cfg: L2FeeConfiguration {
                                is_initialized: true,
                                creator_tax_fee_e6,
                                protocol_tax_fee_e6,
                                creator_swap_fee_e6,
                                protocol_swap_fee_e6,
                                priority_fee_tax_floor,
                                jit_tax_enabled,
                                withdraw_only,
                            },
                        },
                    ]
                } else {
                    Seq::empty()
                }
            },
        }
    }

    open spec fn spec_channel_handling(update: L2PoolUpdate) -> ChannelHandling {
        ChannelHandling::Process
    }

    open spec fn spec_slot0_updates(updates: Seq<Slot0Update>) -> Seq<PoolUpdate<Optimism>> {
        Seq::empty()
    }

    fn handle_chain_specific_update(
        service: &mut PoolManagerService<Optimism>,
        pool_id: PoolId,
        update: &L2PoolUpdate,
    ) -> (actions: Vec<ServiceAction<Optimism>>) {
        let mut actions: Vec<ServiceAction<Optimism>> = Vec::new();
        match update {
            L2PoolUpdate::NewPool {
                pool_id,
                block,
                creator_tax_fee_e6,
                protocol_tax_fee_e6,
                creator_swap_fee_e6,
                protocol_swap_fee_e6,
                priority_fee_tax_floor,
                jit_tax_enabled,
                withdraw_only,
                ..
            } => {
                if service.auto_pool_creation {
                    match service.registry.get(pool_id) {
                        Some(pool_key) => {
                            actions.push(
                                ServiceAction::QueuePoolCreation {
                                    pool_key: *pool_key,
                                    block: *block,
                                    fee_cfg: L2FeeConfiguration {
                                        is_initialized: true,
                                        creator_tax_fee_e6: *creator_tax_fee_e6,
                                        protocol_tax_fee_e6: *protocol_tax_fee_e6,
                                        creator_swap_fee_e6: *creator_swap_fee_e6,
                                        protocol_swap_fee_e6: *protocol_swap_fee_e6,
                                        priority_fee_tax_floor: *priority_fee_tax_floor,
                                        jit_tax_enabled: *jit_tax_enabled,
                                        withdraw_only: *withdraw_only,
                                    },
                                },
                            );
                        },
                        None => {},
                    }
                }
            },
        }
        actions
    }

    fn channel_handling(update: &L2PoolUpdate) -> (r: ChannelHandling) {
        ChannelHandling::Process
    }

    fn slot0_updates(updates: &Vec<Slot0Update>) -> (r: Vec<PoolUpdate<Optimism>>) {
        Vec::new()
    }
}

/// The part of an update that the service needs to process it.
#[derive(Clone, Copy)]
pub enum UpdateDigest<T: V4Network> {
    NewBlock(u64),
    ChainSpecific { pool_id: PoolId, update: T::PoolUpdate },
    FeeUpdate { pool_id: PoolId, update: <T::FeeConfig as FeeConfig>::Update },
    NewPoolState { pool_id: PoolId },
    Other,
}

/// The part of an update that the service needs to process it.
pub open spec fn digest_of<T: V4Network>(update: PoolUpdate<T>) -> UpdateDigest<T> {
    match update {
        PoolUpdate::NewBlock(block_number) => UpdateDigest::NewBlock(block_number),
        PoolUpdate::ChainSpecific { pool_id, update } => UpdateDigest::ChainSpecific {
            pool_id,
            update,
        },
        PoolUpdate::FeeUpdate { pool_id, update, .. } => UpdateDigest::FeeUpdate { pool_id, update },
        PoolUpdate::NewPoolState { pool_id, .. } => UpdateDigest::NewPoolState { pool_id },
        _ => UpdateDigest::Other,
    }
}

/// The pools after the service processed an update: a fee update applies to
/// its pool, a chain-specific update does what its deployment says.
pub open spec fn processed_pools<T: PoolEventProcessor>(
    pools: Map<PoolId, PoolModel<T::FeeConfig>>,
    update: PoolUpdate<T>,
) -> Map<PoolId, PoolModel<T::FeeConfig>> {
    digest_pools(pools, digest_of(update))
}

/// As [`processed_pools`], by the digest of the update.
pub open spec fn digest_pools<T: PoolEventProcessor>(
    pools: Map<PoolId, PoolModel<T::FeeConfig>>,
    digest: UpdateDigest<T>,
) -> Map<PoolId, PoolModel<T::FeeConfig>> {
    match digest {
        UpdateDigest::FeeUpdate { pool_id, update } => if pools.contains_key(pool_id) {
            pools.insert(pool_id, pools[pool_id].with_fee_update(update))
        } else {
            pools
        },
        UpdateDigest::ChainSpecific { update, .. } => T::spec_chain_pools(pools, update),
        _ => pools,
    }
}

/// What processing an update asks of the surroundings: a loaded pool is to
/// be followed, and its slot0 feed subscribed where the service has one and
/// the registry knows the hook's identifier of the pool.
pub open spec fn processed_actions<T: PoolEventProcessor>(
    registry: T::PoolRegistry,
    auto_pool_creation: bool,
    has_slot0_stream: bool,
    update: PoolUpdate<T>,
) -> Seq<ServiceAction<T>> {
    digest_actions(registry, auto_pool_creation, has_slot0_stream, digest_of(update))
}

/// As [`processed_actions`], by the digest of the update.
pub open spec fn digest_actions<T: PoolEventProcessor>(
    registry: T::PoolRegistry,
    auto_pool_creation: bool,
    has_slot0_stream: bool,
    digest: UpdateDigest<T>,
) -> Seq<ServiceAction<T>> {
    match digest {
        UpdateDigest::ChainSpecific { update, .. } => T::spec_chain_actions(
            registry,
            auto_pool_creation,
            has_slot0_stream,
            update,
        ),
        UpdateDigest::NewPoolState { pool_id } => {
            if has_slot0_stream && registry.spec_angstrom_pool_id(pool_id) is Some {
                seq![
                    ServiceAction::StartTracking(pool_id),
                    ServiceAction::SubscribeSlot0(registry.spec_angstrom_pool_id(pool_id)->Some_0),
                ]
            } else {
                seq![ServiceAction::StartTracking(pool_id)]
            }
        },
        _ => Seq::empty(),
    }
}

/// The current block after the service processed an update.
pub open spec fn processed_block<T: V4Network>(current_block: u64, update: PoolUpdate<T>) -> u64 {
    digest_block(current_block, digest_of(update))
}

/// As [`processed_block`], by the digest of the update.
pub open spec fn digest_block<T: V4Network>(current_block: u64, digest: UpdateDigest<T>) -> u64 {
    match digest {
        UpdateDigest::NewBlock(block_number) => block_number,
        _ => current_block,
    }
}

impl<T: PoolEventProcessor> PoolManagerService<T> {
    /// A service over a set of pools and a registry.
    pub fn new(
        pools: UniswapPools<T>,
        registry: T::PoolRegistry,
        deploy_block: u64,
        auto_pool_creation: bool,
        has_slot0_stream: bool,
        channel_mode: bool,
    ) -> (r: Self)
        ensures
            r.pools == pools,
            r.registry == registry,
            r.current_block == deploy_block,
            r.auto_pool_creation == auto_pool_creation,
            r.has_slot0_stream == has_slot0_stream,
            r.channel_mode == channel_mode,
            r.pending_updates@ == Seq::<PoolUpdate<T>>::empty(),
    {
        PoolManagerService {
            pools,
            registry,
            current_block: deploy_block,
            auto_pool_creation,
            has_slot0_stream,
            channel_mode,
            pending_updates: Vec::new(),
        }
    }

    /// The pools of the service.
    pub fn get_pools(&self) -> (r: &UniswapPools<T>)
        ensures
            *r == self.pools,
    {
        &self.pools
    }

    /// The block that the service has reached.
    pub fn current_block(&self) -> (r: u64)
        ensures
            r == self.current_block,
    {
        self.current_block
    }

    /// What the surroundings are to do at start-up: set the registry of the
    /// event stream aside, follow every pool of the registry, subscribe the
    /// slot0 feed to the pools behind the hook, and, in channel mode, forward
    /// the loaded pools.
    pub fn pools_to_track(&self) -> (r: Vec<PoolId>)
        ensures
            r@ == self.registry.spec_all_uniswap_pool_ids(),
    {
        self.registry.all_uniswap_pool_ids()
    }

    /// The pools whose slot0 feed is to be subscribed at start-up.
    pub fn pools_to_subscribe(&self) -> (r: Vec<PoolId>)
        ensures
            r@ == (if self.has_slot0_stream {
                self.registry.spec_all_angstrom_pool_ids()
            } else {
                Seq::<PoolId>::empty()
            }),
    {
        if self.has_slot0_stream {
            self.registry.all_angstrom_pool_ids()
        } else {
            Vec::new()
        }
    }

    /// The part of an update that the service needs to process it.
    pub fn digest(update: &PoolUpdate<T>) -> (d: UpdateDigest<T>)
        ensures
            d == digest_of(*update),
    {
        match update {
            PoolUpdate::NewBlock(block_number) => UpdateDigest::NewBlock(*block_number),
            PoolUpdate::ChainSpecific { pool_id, update } => UpdateDigest::ChainSpecific {
                pool_id: *pool_id,
                update: *update,
            },
            PoolUpdate::FeeUpdate { pool_id, update, .. } => UpdateDigest::FeeUpdate {
                pool_id: *pool_id,
                update: *update,
            },
            PoolUpdate::NewPoolState { pool_id, .. } => UpdateDigest::NewPoolState {
                pool_id: *pool_id,
            },
            _ => UpdateDigest::Other,
        }
    }

    /// Processes an update from the provider: moves to a new block, applies a
    /// fee update to its pool, has a loaded pool followed, and handles what
    /// only the deployment knows.
    pub fn process_pool_update(&mut self, update: &PoolUpdate<T>) -> (actions: Vec<ServiceAction<T>>)
        requires
            old(self).pools.valid(),
        ensures
            final(self).pools.valid(),
            final(self).pools@.pools == processed_pools(old(self).pools@.pools, *update),
            final(self).pools@.block_number == old(self).pools@.block_number,
            final(self).current_block == processed_block(old(self).current_block, *update),
            actions@ == processed_actions(
                old(self).registry,
                old(self).auto_pool_creation,
                old(self).has_slot0_stream,
                *update,
            ),
            final(self).registry == old(self).registry,
            final(self).auto_pool_creation == old(self).auto_pool_creation,
            final(self).has_slot0_stream == old(self).has_slot0_stream,
            final(self).channel_mode == old(self).channel_mode,
            final(self).pending_updates == old(self).pending_updates,
    {
        self.process_digest(Self::digest(update))
    }

    /// Processes an update, given by its digest.
    pub fn process_digest(&mut self, digest: UpdateDigest<T>) -> (actions: Vec<ServiceAction<T>>)
        requires
            old(self).pools.valid(),
        ensures
            final(self).pools.valid(),
            final(self).pools@.pools == digest_pools(old(self).pools@.pools, digest),
            final(self).pools@.block_number == old(self).pools@.block_number,
            final(self).current_block == digest_block(old(self).current_block, digest),
            actions@ == digest_actions(
                old(self).registry,
                old(self).auto_pool_creation,
                old(self).has_slot0_stream,
                digest,
            ),
            final(self).registry == old(self).registry,
            final(self).auto_pool_creation == old(self).auto_pool_creation,
            final(self).has_slot0_stream == old(self).has_slot0_stream,
            final(self).channel_mode == old(self).channel_mode,
            final(self).pending_updates == old(self).pending_updates,
    {
        match digest {
            UpdateDigest::NewBlock(block_number) => {
                self.current_block = block_number;
                Vec::new()
            },
            UpdateDigest::ChainSpecific { pool_id, update } => T::handle_chain_specific_update(
                self,
                pool_id,
                &update,
            ),
            UpdateDigest::FeeUpdate { pool_id, update } => {
                proof {
                    self.pools.pools.lemma_entries_valid();
                }
                match self.pools.pools.index_of(&pool_id) {
                    Some(i) => {
                        let pool = self.pools.pools.value_at_mut(i);
                        pool.update_fees(update);
                        proof {
                            lemma_pools_updated(
                                old(self).pools.pools.entries(),
                                i as int,
                                self.pools.pools.entries()[i as int].1,
                            );
                        }
                    },
                    None => {},
                }
                Vec::new()
            },
            UpdateDigest::NewPoolState { pool_id } => {
                let mut actions: Vec<ServiceAction<T>> = Vec::new();
                actions.push(ServiceAction::StartTracking(pool_id));
                if self.has_slot0_stream {
                    match self.registry.angstrom_pool_id_from_uniswap_pool_id(pool_id) {
                        Some(angstrom_pool_id) => {
                            actions.push(ServiceAction::SubscribeSlot0(angstrom_pool_id));
                        },
                        None => {},
                    }
                }
                actions
            },
            UpdateDigest::Other => Vec::new(),
        }
    }
}

/// What the service and its surroundings are after a step.
pub struct ServiceStep<T: V4Network> {
    pub pools: PoolsModel<T::FeeConfig>,
    pub current_block: u64,
    pub actions: Seq<ServiceAction<T>>,
    /// The block that the pools published last within the step, if any.
    pub new_block: Option<u64>,
    /// The pools whose slot0 waiters are to be woken.
    pub slot0_changed: Seq<PoolId>,
}

/// What the service hands back from a step.
pub struct ServiceOutput<T: V4Network> {
    /// What the surroundings are to do, in order.
    pub actions: Vec<ServiceAction<T>>,
    /// The block that the pools published last within the step, if any:
    /// those who wait for the next block are to be woken.
    pub new_block: Option<u64>,
    /// The pools whose slot0 waiters are to be woken.
    pub slot0_changed: Vec<PoolId>,
}

/// What does not change while the service runs.
pub struct ServiceSetup<T: V4Network> {
    pub registry: T::PoolRegistry,
    pub auto_pool_creation: bool,
    pub has_slot0_stream: bool,
    pub channel_mode: bool,
}

/// A step that continues another step.
pub open spec fn then_apply<T: PoolEventProcessor>(
    before: ServiceStep<T>,
    updates: Seq<PoolUpdate<T>>,
) -> ServiceStep<T> {
    let ordered = crate::sorting::sorted(updates);
    ServiceStep {
        pools: batch_result(before.pools, updates),
        current_block: before.current_block,
        actions: before.actions,
        new_block: match crate::pools::last_block_stamp(ordered) {
            Some(b) => Some(b),
            None => before.new_block,
        },
        slot0_changed: before.slot0_changed + crate::pools::notified_pools(
            before.pools.pools,
            ordered,
            before.pools.block_number,
        ),
    }
}

/// A step continued by the processing of an update.
pub open spec fn then_process<T: PoolEventProcessor>(
    setup: ServiceSetup<T>,
    before: ServiceStep<T>,
    update: PoolUpdate<T>,
) -> ServiceStep<T> {
    ServiceStep {
        pools: PoolsModel {
            pools: processed_pools(before.pools.pools, update),
            block_number: before.pools.block_number,
        },
        current_block: processed_block(before.current_block, update),
        actions: before.actions + processed_actions(
            setup.registry,
            setup.auto_pool_creation,
            setup.has_slot0_stream,
            update,
        ),
        new_block: before.new_block,
        slot0_changed: before.slot0_changed,
    }
}

/// A step continued by the processing of a list of updates, in order.
pub open spec fn then_process_all<T: PoolEventProcessor>(
    setup: ServiceSetup<T>,
    before: ServiceStep<T>,
    updates: Seq<PoolUpdate<T>>,
) -> ServiceStep<T>
    decreases updates.len(),
{
    if updates.len() == 0 {
        before
    } else {
        then_process(setup, then_process_all(setup, before, updates.drop_last()), updates.last())
    }
}

/// A step continued by the dispatch of an update. In channel mode the update
/// is forwarded; the service itself only moves to a new block and handles the
/// chain-specific updates that its deployment wants handled. In direct mode
/// the service processes the update and applies it to the pools.
pub open spec fn then_dispatch<T: PoolEventProcessor>(
    setup: ServiceSetup<T>,
    before: ServiceStep<T>,
    update: PoolUpdate<T>,
) -> ServiceStep<T> {
    if setup.channel_mode {
        let sent = ServiceStep { actions: before.actions.push(ServiceAction::Send(update)), ..before };
        match update {
            PoolUpdate::NewBlock(block_number) => ServiceStep { current_block: block_number, ..sent },
            PoolUpdate::ChainSpecific { update: inner, .. } => match T::spec_channel_handling(inner) {
                ChannelHandling::Forward => sent,
                ChannelHandling::Process => then_process(setup, sent, update),
                ChannelHandling::ApplyAndProcess => then_process(
                    setup,
                    then_apply(sent, seq![update]),
                    update,
                ),
            },
            _ => sent,
        }
    } else {
        then_apply(then_process(setup, before, update), seq![update])
    }
}

/// A step continued by the dispatch of a list of updates, in order.
pub open spec fn then_dispatch_all<T: PoolEventProcessor>(
    setup: ServiceSetup<T>,
    before: ServiceStep<T>,
    updates: Seq<PoolUpdate<T>>,
) -> ServiceStep<T>
    decreases updates.len(),
{
    if updates.len() == 0 {
        before
    } else {
        then_dispatch(setup, then_dispatch_all(setup, before, updates.drop_last()), updates.last())
    }
}

/// A step continued by a batch of events. In channel mode each event is
/// dispatched in turn. In direct mode the batch is applied to the pools, then
/// each event is processed, then the tick ranges of the pools are to be
/// checked.
pub open spec fn then_events<T: PoolEventProcessor>(
    setup: ServiceSetup<T>,
    before: ServiceStep<T>,
    events: Seq<PoolUpdate<T>>,
) -> ServiceStep<T> {
    if setup.channel_mode {
        then_dispatch_all(setup, before, events)
    } else {
        let processed = then_process_all(setup, then_apply(before, events), events);
        ServiceStep {
            actions: processed.actions.push(
                ServiceAction::CheckTickRanges { block: processed.current_block },
            ),
            ..processed
        }
    }
}

impl<T: PoolEventProcessor> PoolManagerService<T> {
    /// What does not change while the service runs.
    pub open spec fn setup(&self) -> ServiceSetup<T> {
        ServiceSetup {
            registry: self.registry,
            auto_pool_creation: self.auto_pool_creation,
            has_slot0_stream: self.has_slot0_stream,
            channel_mode: self.channel_mode,
        }
    }

    /// The step that a state of the service and an output stand for.
    pub open spec fn step(&self, output: &ServiceOutput<T>) -> ServiceStep<T> {
        ServiceStep {
            pools: self.pools@,
            current_block: self.current_block,
            actions: output.actions@,
            new_block: output.new_block,
            slot0_changed: output.slot0_changed@,
        }
    }

    /// The step at which nothing has happened yet.
    pub open spec fn start(&self) -> ServiceStep<T> {
        ServiceStep {
            pools: self.pools@,
            current_block: self.current_block,
            actions: Seq::empty(),
            new_block: None,
            slot0_changed: Seq::empty(),
        }
    }

    /// An output that says nothing.
    fn empty_output() -> (r: ServiceOutput<T>)
        ensures
            r.actions@ == Seq::<ServiceAction<T>>::empty(),
            r.new_block is None,
            r.slot0_changed@ == Seq::<PoolId>::empty(),
    {
        ServiceOutput { actions: Vec::new(), new_block: None, slot0_changed: Vec::new() }
    }

    /// Continues a step by applying a batch to the pools.
    fn do_apply(&mut self, output: &mut ServiceOutput<T>, updates: Vec<PoolUpdate<T>>)
        requires
            old(self).pools.valid(),
        ensures
            final(self).pools.valid(),
            final(self).step(final(output)) == then_apply(old(self).step(old(output)), updates@),
            final(self).setup() == old(self).setup(),
            final(self).pending_updates == old(self).pending_updates,
    {
        let notice: BatchNotice = self.pools.update_pools(updates);
        match notice.new_block {
            Some(b) => {
                output.new_block = Some(b);
            },
            None => {},
        }
        let mut woken: Vec<PoolId> = notice.slot0_changed;
        output.slot0_changed.append(&mut woken);
    }

    /// Continues a step by processing an update.
    fn do_process(&mut self, output: &mut ServiceOutput<T>, update: &PoolUpdate<T>)
        requires
            old(self).pools.valid(),
        ensures
            final(self).pools.valid(),
            final(self).step(final(output)) == then_process(
                old(self).setup(),
                old(self).step(old(output)),
                *update,
            ),
            final(self).setup() == old(self).setup(),
            final(self).pending_updates == old(self).pending_updates,
    {
        let mut actions = self.process_pool_update(update);
        output.actions.append(&mut actions);
    }

    /// Dispatches an update: forwards it in channel mode, applies it to the
    /// pools in direct mode.
    pub fn dispatch_update(&mut self, output: &mut ServiceOutput<T>, update: PoolUpdate<T>)
        requires
            old(self).pools.valid(),
        ensures
            final(self).pools.valid(),
            final(self).step(final(output)) == then_dispatch(
                old(self).setup(),
                old(self).step(old(output)),
                update,
            ),
            final(self).setup() == old(self).setup(),
            final(self).pending_updates == old(self).pending_updates,
    {
        if self.channel_mode {
            let digest: UpdateDigest<T> = Self::digest(&update);
            output.actions.push(ServiceAction::Send(update));
            match digest {
                UpdateDigest::NewBlock(block_number) => {
                    self.current_block = block_number;
                },
                UpdateDigest::ChainSpecific { pool_id, update: inner } => {
                    match T::channel_handling(&inner) {
                        ChannelHandling::Forward => {},
                        ChannelHandling::Process => {
                            let again: PoolUpdate<T> = PoolUpdate::ChainSpecific {
                                pool_id,
                                update: inner,
                            };
                            self.do_process(output, &again);
                        },
                        ChannelHandling::ApplyAndProcess => {
                            let mut batch: Vec<PoolUpdate<T>> = Vec::new();
                            batch.push(PoolUpdate::ChainSpecific { pool_id, update: inner });
                            proof {
                                assert(batch@ =~= seq![update]);
                            }
                            self.do_apply(output, batch);
                            let again: PoolUpdate<T> = PoolUpdate::ChainSpecific {
                                pool_id,
                                update: inner,
                            };
                            self.do_process(output, &again);
                        },
                    }
                },
                _ => {},
            }
        } else {
            self.do_process(output, &update);
            let mut batch: Vec<PoolUpdate<T>> = Vec::new();
            batch.push(update);
            proof {
                assert(batch@ =~= seq![update]);
            }
            self.do_apply(output, batch);
        }
    }

    /// Continues a step by processing an update, given by its digest.
    fn do_process_digest(
        &mut self,
        output: &mut ServiceOutput<T>,
        digest: UpdateDigest<T>,
        Ghost(update): Ghost<PoolUpdate<T>>,
    )
        requires
            old(self).pools.valid(),
            digest == digest_of(update),
        ensures
            final(self).pools.valid(),
            final(self).step(final(output)) == then_process(
                old(self).setup(),
                old(self).step(old(output)),
                update,
            ),
            final(self).setup() == old(self).setup(),
            final(self).pending_updates == old(self).pending_updates,
    {
        let mut actions = self.process_digest(digest);
        output.actions.append(&mut actions);
    }

    /// Continues a step by a batch of events that are applied now.
    fn do_events(&mut self, output: &mut ServiceOutput<T>, events: Vec<PoolUpdate<T>>)
        requires
            old(self).pools.valid(),
        ensures
            final(self).pools.valid(),
            final(self).step(final(output)) == then_events(
                old(self).setup(),
                old(self).step(old(output)),
                events@,
            ),
            final(self).setup() == old(self).setup(),
            final(self).pending_updates == old(self).pending_updates,
    {
        if self.channel_mode {
            let mut rest: Vec<PoolUpdate<T>> = events;
            let ghost mut done: Seq<PoolUpdate<T>> = Seq::empty();
            proof {
                assert(done + rest@ =~= events@);
            }
            while rest.len() > 0
                invariant
                    self.pools.valid(),
                    done + rest@ == events@,
                    self.setup() == old(self).setup(),
                    self.pending_updates == old(self).pending_updates,
                    self.step(output) == then_dispatch_all(
                        old(self).setup(),
                        old(self).step(old(output)),
                        done,
                    ),
                decreases rest.len(),
            {
                let ghost rest_before = rest@;
                let update = rest.remove(0);
                proof {
                    assert(done.push(update) + rest@ =~= done + rest_before);
                    assert(done.push(update).drop_last() =~= done);
                    done = done.push(update);
                }
                self.dispatch_update(output, update);
            }
            proof {
                assert(done + rest@ =~= done);
            }
        } else {
            let mut digests: Vec<UpdateDigest<T>> = Vec::new();
            let mut i: usize = 0;
            while i < events.len()
                invariant
                    i <= events.len(),
                    digests@.len() == i,
                    forall|j: int| 0 <= j < i ==> digests@[j] == digest_of(events@[j]),
                decreases events.len() - i,
            {
                digests.push(Self::digest(&events[i]));
                i = i + 1;
            }
            let ghost all = events@;
            self.do_apply(output, events);
            let ghost applied = self.step(output);
            let mut k: usize = 0;
            proof {
                assert(all.take(0) =~= Seq::<PoolUpdate<T>>::empty());
            }
            while k < digests.len()
                invariant
                    k <= digests.len(),
                    digests@.len() == all.len(),
                    forall|j: int| 0 <= j < all.len() ==> digests@[j] == digest_of(all[j]),
                    self.pools.valid(),
                    self.setup() == old(self).setup(),
                    self.pending_updates == old(self).pending_updates,
                    self.step(output) == then_process_all(
                        old(self).setup(),
                        applied,
                        all.take(k as int),
                    ),
                decreases digests.len() - k,
            {
                proof {
                    let next = all.take(k + 1);
                    assert(next.drop_last() =~= all.take(k as int));
                    assert(next.last() == all[k as int]);
                }
                self.do_process_digest(output, digests[k], Ghost(all[k as int]));
                k = k + 1;
            }
            proof {
                assert(all.take(all.len() as int) =~= all);
            }
            output.actions.push(ServiceAction::CheckTickRanges { block: self.current_block });
        }
    }

    /// Handles an update that the tick loader produced: newly loaded ticks or
    /// a newly loaded pool.
    pub fn handle_factory_update(&mut self, update: PoolUpdate<T>) -> (output: ServiceOutput<T>)
        requires
            old(self).pools.valid(),
        ensures
            final(self).pools.valid(),
            final(self).step(&output) == then_dispatch(old(self).setup(), old(self).start(), update),
            final(self).setup() == old(self).setup(),
            final(self).pending_updates == old(self).pending_updates,
    {
        let mut output = Self::empty_output();
        self.dispatch_update(&mut output, update);
        output
    }

    /// Handles a batch of events from the event stream. While the tick loader
    /// is busy the events wait; otherwise they are applied.
    pub fn handle_events(&mut self, events: Vec<PoolUpdate<T>>, factory_is_processing: bool) -> (output:
        ServiceOutput<T>)
        requires
            old(self).pools.valid(),
        ensures
            final(self).pools.valid(),
            final(self).setup() == old(self).setup(),
            factory_is_processing ==> final(self).step(&output) == old(self).start()
                && final(self).pending_updates@ == old(self).pending_updates@ + events@,
            !factory_is_processing ==> final(self).step(&output) == then_events(
                old(self).setup(),
                old(self).start(),
                events@,
            ) && final(self).pending_updates == old(self).pending_updates,
    {
        let mut output = Self::empty_output();
        if factory_is_processing {
            let mut waiting: Vec<PoolUpdate<T>> = events;
            self.pending_updates.append(&mut waiting);
        } else {
            self.do_events(&mut output, events);
        }
        output
    }

    /// Applies the events that waited, unless the tick loader is still busy.
    pub fn drain_pending(&mut self, factory_is_processing: bool) -> (output: ServiceOutput<T>)
        requires
            old(self).pools.valid(),
        ensures
            final(self).pools.valid(),
            final(self).setup() == old(self).setup(),
            factory_is_processing ==> final(self).step(&output) == old(self).start()
                && final(self).pending_updates == old(self).pending_updates,
            !factory_is_processing ==> final(self).step(&output) == then_events(
                old(self).setup(),
                old(self).start(),
                old(self).pending_updates@,
            ) && final(self).pending_updates@ == Seq::<PoolUpdate<T>>::empty(),
    {
        let mut output = Self::empty_output();
        if !factory_is_processing {
            let mut waiting: Vec<PoolUpdate<T>> = Vec::new();
            waiting.append(&mut self.pending_updates);
            proof {
                assert(waiting@ =~= old(self).pending_updates@);
            }
            self.do_events(&mut output, waiting);
        }
        output
    }

    /// Handles a batch of the slot0 feed: each update is dispatched as a
    /// chain-specific update of its pool.
    pub fn handle_slot0_updates(&mut self, slot0_updates: &Vec<Slot0Update>) -> (output: ServiceOutput<T>)
        requires
            old(self).pools.valid(),
        ensures
            final(self).pools.valid(),
            final(self).step(&output) == then_dispatch_all(
                old(self).setup(),
                old(self).start(),
                T::spec_slot0_updates(slot0_updates@),
            ),
            final(self).setup() == old(self).setup(),
            final(self).pending_updates == old(self).pending_updates,
    {
        let mut output = Self::empty_output();
        let mut rest: Vec<PoolUpdate<T>> = T::slot0_updates(slot0_updates);
        let ghost all = rest@;
        let ghost mut done: Seq<PoolUpdate<T>> = Seq::empty();
        proof {
            assert(done + rest@ =~= all);
        }
        while rest.len() > 0
            invariant
                self.pools.valid(),
                done + rest@ == all,
                self.setup() == old(self).setup(),
                self.pending_updates == old(self).pending_updates,
                self.step(&output) == then_dispatch_all(old(self).setup(), old(self).start(), done),
            decreases rest.len(),
        {
            let ghost rest_before = rest@;
            let update = rest.remove(0);
            proof {
                assert(done.push(update) + rest@ =~= done + rest_before);
                assert(done.push(update).drop_last() =~= done);
                done = done.push(update);
            }
            self.dispatch_update(&mut output, update);
        }
        proof {
            assert(done + rest@ =~= done);
        }
        output
    }
}

} // verus!
