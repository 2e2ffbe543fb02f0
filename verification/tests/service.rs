use std::collections::HashMap;

use uni_v4::fee_config::{L1FeeConfiguration, L1FeeUpdate, L2FeeConfiguration};
use uni_v4::liquidity_base::BaselineLiquidity;
use uni_v4::network::{Ethereum, Optimism};
use uni_v4::pool_key::{PoolKey, DYNAMIC_FEE};
use uni_v4::pool_manager_service::{PoolManagerService, ServiceAction};
use uni_v4::pool_registry::l1::L1PoolRegistry;
use uni_v4::pool_registry::l2::L2PoolRegistry;
use uni_v4::pool_registry::PoolRegistry;
use uni_v4::pool_state::BaselinePoolState;
use uni_v4::pool_updates::{
    L1PoolUpdate, L2PoolUpdate, ModifyLiquidityEventData, PoolUpdate, Slot0Update, SwapEventData,
};
use uni_v4::pools::UniswapPools;
use uni_v4::primitives::{Address, B256};
use uni_v4::u256::{I256, U256};

const Q96: u128 = 79228162514264337593543950336;

fn addr(last: u8) -> Address {
    let mut bytes = [0u8; 20];
    bytes[19] = last;
    Address::new(bytes)
}

fn angstrom() -> Address {
    addr(0xaa)
}

fn id(n: u8) -> B256 {
    let mut bytes = [0u8; 32];
    bytes[31] = n;
    B256::new(bytes)
}

fn pool() -> BaselinePoolState<L1FeeConfiguration> {
    let liquidity =
        BaselineLiquidity::new(60, 0, U256::from_u128(Q96), 0, HashMap::new(), HashMap::new());
    BaselinePoolState::new(
        liquidity,
        1,
        L1FeeConfiguration { bundle_fee: 500, swap_fee: 300, protocol_fee: 200 },
        Address::zero(),
        Address::zero(),
        18,
        6,
    )
}

fn key() -> PoolKey {
    PoolKey::new(addr(1), addr(2), 500, 60, angstrom())
}

fn service(channel_mode: bool, slot0: bool, auto: bool) -> PoolManagerService<Ethereum> {
    let mut registry = L1PoolRegistry::new(angstrom());
    registry.add_new_pool(key());
    let mut pools: UniswapPools<Ethereum> = UniswapPools::new(50);
    pools.insert_pool(key().with_fee(DYNAMIC_FEE).pool_id(), pool());
    pools.insert_pool(id(1), pool());
    PoolManagerService::new(pools, registry, 40, auto, slot0, channel_mode)
}

fn swap(pool: B256, tick: i32, liquidity: u128) -> PoolUpdate<Ethereum> {
    PoolUpdate::from_swap(
        pool,
        51,
        0,
        0,
        SwapEventData {
            sender: Address::zero(),
            amount0: 0,
            amount1: 0,
            sqrt_price_x96: U256::from_u128(Q96),
            liquidity,
            tick,
            fee: 0,
        },
    )
}

fn liquidity(pool: B256, delta: i128) -> PoolUpdate<Ethereum> {
    PoolUpdate::from_liquidity(
        pool,
        51,
        0,
        1,
        ModifyLiquidityEventData {
            sender: Address::zero(),
            tick_lower: -60,
            tick_upper: 60,
            liquidity_delta: I256::from_i128(delta),
            salt: [0; 32],
        },
    )
}

fn new_pool(pool_id: B256) -> PoolUpdate<Ethereum> {
    PoolUpdate::ChainSpecific {
        pool_id,
        update: L1PoolUpdate::from_new_pool(pool_id, addr(1), addr(2), 501, 301, 201, 60, 77),
    }
}

fn names(actions: &[ServiceAction<Ethereum>]) -> Vec<&'static str> {
    actions
        .iter()
        .map(|a| match a {
            ServiceAction::Send(_) => "send",
            ServiceAction::StartTracking(_) => "track",
            ServiceAction::SubscribeSlot0(_) => "subscribe",
            ServiceAction::UnsubscribeSlot0(_) => "unsubscribe",
            ServiceAction::QueuePoolCreation { .. } => "create",
            ServiceAction::RemovePool(_) => "remove",
            ServiceAction::CheckTickRanges { .. } => "check",
        })
        .collect()
}

#[test]
fn start_up_lists() {
    let with_feed = service(false, true, true);
    let uniswap_id = key().with_fee(DYNAMIC_FEE).pool_id();
    assert_eq!(with_feed.current_block(), 40);
    assert_eq!(with_feed.get_pools().get_block(), 50);
    assert_eq!(with_feed.pools_to_track(), vec![uniswap_id]);
    assert_eq!(with_feed.pools_to_subscribe(), vec![key().pool_id()]);
    assert!(service(false, false, true).pools_to_subscribe().is_empty());
}

#[test]
fn process_new_block_and_fee_update() {
    let mut s = service(false, false, true);
    assert!(s.process_pool_update(&PoolUpdate::NewBlock(60)).is_empty());
    assert_eq!(s.current_block(), 60);
    // the pools keep their own block
    assert_eq!(s.get_pools().get_block(), 50);
    let fee = L1FeeUpdate { bundle_fee: 1, swap_fee: 2, protocol_fee: 3 };
    assert!(s.process_pool_update(&PoolUpdate::from_fee_update(id(1), 60, fee)).is_empty());
    assert_eq!(
        *s.get_pools().get_pool(&id(1)).unwrap().fee_config(),
        L1FeeConfiguration { bundle_fee: 1, swap_fee: 2, protocol_fee: 3 }
    );
    assert!(s.process_pool_update(&PoolUpdate::from_fee_update(id(9), 60, fee)).is_empty());
    assert!(s.process_pool_update(&swap(id(1), 5, 5)).is_empty());
    assert_eq!(s.get_pools().get_pool(&id(1)).unwrap().current_tick(), 0);
}

#[test]
fn process_new_pool_state_tracks_and_subscribes() {
    let uniswap_id = key().with_fee(DYNAMIC_FEE).pool_id();
    let mut with_feed = service(false, true, true);
    let actions =
        with_feed.process_pool_update(&PoolUpdate::NewPoolState { pool_id: uniswap_id, state: pool() });
    assert_eq!(names(&actions), vec!["track", "subscribe"]);
    assert!(matches!(actions[0], ServiceAction::StartTracking(p) if p == uniswap_id));
    assert!(matches!(actions[1], ServiceAction::SubscribeSlot0(p) if p == key().pool_id()));
    // a pool that the hook does not know has no feed
    let actions =
        with_feed.process_pool_update(&PoolUpdate::NewPoolState { pool_id: id(1), state: pool() });
    assert_eq!(names(&actions), vec!["track"]);
    let mut without_feed = service(false, false, true);
    let actions = without_feed
        .process_pool_update(&PoolUpdate::NewPoolState { pool_id: uniswap_id, state: pool() });
    assert_eq!(names(&actions), vec!["track"]);
}

#[test]
fn chain_specific_new_pool_and_removal() {
    let uniswap_id = key().with_fee(DYNAMIC_FEE).pool_id();
    let mut s = service(false, true, true);
    let actions = s.process_pool_update(&new_pool(uniswap_id));
    assert_eq!(names(&actions), vec!["create"]);
    match &actions[0] {
        ServiceAction::QueuePoolCreation { pool_key, block, fee_cfg } => {
            assert_eq!(*pool_key, key().with_fee(DYNAMIC_FEE));
            assert_eq!(*block, 77);
            assert_eq!(*fee_cfg, L1FeeConfiguration { bundle_fee: 501, swap_fee: 301, protocol_fee: 201 });
        }
        _ => panic!("not a pool creation"),
    }
    // a pool that the registry does not know is not created
    assert!(s.process_pool_update(&new_pool(id(9))).is_empty());
    // nor is any pool when creation is switched off
    let mut manual = service(false, true, false);
    assert!(manual.process_pool_update(&new_pool(uniswap_id)).is_empty());

    let removal = PoolUpdate::ChainSpecific {
        pool_id: id(1),
        update: L1PoolUpdate::PoolRemoved { pool_id: id(1), block: 78 },
    };
    let actions = s.process_pool_update(&removal);
    assert_eq!(names(&actions), vec!["remove", "unsubscribe"]);
    assert!(s.get_pools().get_pool(&id(1)).is_none());
    assert!(s.get_pools().get_pool(&uniswap_id).is_some());
    let mut without_feed = service(false, false, true);
    assert_eq!(names(&without_feed.process_pool_update(&removal)), vec!["remove"]);
}

#[test]
fn direct_mode_applies_the_batch_then_processes() {
    let mut s = service(false, true, true);
    let output = s.handle_events(
        vec![liquidity(id(1), 1000), swap(id(1), 5, 77), PoolUpdate::NewBlock(51)],
        false,
    );
    assert_eq!(names(&output.actions), vec!["check"]);
    assert!(matches!(output.actions[0], ServiceAction::CheckTickRanges { block: 51 }));
    assert_eq!(output.new_block, Some(51));
    assert!(output.slot0_changed.is_empty());
    assert_eq!(s.current_block(), 51);
    assert_eq!(s.get_pools().get_block(), 51);
    assert_eq!(s.get_pools().get_pool(&id(1)).unwrap().current_liquidity(), 1077);

    // a pool that is loaded and removed in one batch is gone at the end
    let removal = PoolUpdate::ChainSpecific {
        pool_id: id(7),
        update: L1PoolUpdate::PoolRemoved { pool_id: id(7), block: 52 },
    };
    let output =
        s.handle_events(vec![removal, PoolUpdate::NewPoolState { pool_id: id(7), state: pool() }], false);
    assert_eq!(names(&output.actions), vec!["remove", "unsubscribe", "track", "check"]);
    assert!(s.get_pools().get_pool(&id(7)).is_none());
}

#[test]
fn events_wait_while_the_loader_is_busy() {
    let mut s = service(false, false, true);
    let output = s.handle_events(vec![swap(id(1), 5, 77)], true);
    assert!(output.actions.is_empty());
    assert_eq!(s.pending_updates.len(), 1);
    assert_eq!(s.get_pools().get_pool(&id(1)).unwrap().current_tick(), 0);
    let output = s.handle_events(vec![PoolUpdate::NewBlock(51)], true);
    assert!(output.actions.is_empty());
    assert_eq!(s.pending_updates.len(), 2);
    // still busy: nothing is drained
    assert!(s.drain_pending(true).actions.is_empty());
    assert_eq!(s.pending_updates.len(), 2);
    assert_eq!(s.current_block(), 40);
    let output = s.drain_pending(false);
    assert_eq!(names(&output.actions), vec!["check"]);
    assert_eq!(output.new_block, Some(51));
    assert!(s.pending_updates.is_empty());
    assert_eq!(s.current_block(), 51);
    assert_eq!(s.get_pools().get_pool(&id(1)).unwrap().current_tick(), 5);
}

#[test]
fn channel_mode_forwards_and_keeps_the_block() {
    let uniswap_id = key().with_fee(DYNAMIC_FEE).pool_id();
    let mut s = service(true, true, true);
    let removal = PoolUpdate::ChainSpecific {
        pool_id: id(1),
        update: L1PoolUpdate::PoolRemoved { pool_id: id(1), block: 52 },
    };
    let output = s.handle_events(
        vec![swap(id(1), 5, 77), PoolUpdate::NewBlock(51), new_pool(uniswap_id), removal],
        false,
    );
    assert_eq!(
        names(&output.actions),
        vec!["send", "send", "send", "create", "send", "remove", "unsubscribe"]
    );
    assert!(matches!(&output.actions[0], ServiceAction::Send(PoolUpdate::SwapEvent { .. })));
    assert!(matches!(&output.actions[1], ServiceAction::Send(PoolUpdate::NewBlock(51))));
    assert_eq!(s.current_block(), 51);
    // the pools are the consumer's business: the swap was not applied here
    assert_eq!(s.get_pools().get_block(), 50);
    assert!(s.get_pools().get_pool(&id(1)).is_none());
    assert_eq!(s.get_pools().get_pool(&uniswap_id).unwrap().current_tick(), 0);
    assert_eq!(output.new_block, None);

    let output = s.handle_factory_update(PoolUpdate::NewPoolState { pool_id: id(3), state: pool() });
    assert_eq!(names(&output.actions), vec!["send"]);
    assert!(s.get_pools().get_pool(&id(3)).is_none());
}

#[test]
fn factory_updates_in_direct_mode() {
    let mut s = service(false, false, true);
    let output = s.handle_factory_update(PoolUpdate::NewPoolState { pool_id: id(3), state: pool() });
    assert_eq!(names(&output.actions), vec!["track"]);
    assert!(s.get_pools().get_pool(&id(3)).is_some());
    assert_eq!(output.new_block, None);
}

#[test]
fn slot0_feed_updates_reach_the_pool() {
    let update = |block: u64, tick: i32| Slot0Update {
        seq_id: 0,
        current_block: block,
        angstrom_pool_id: id(100),
        uni_pool_id: id(1),
        sqrt_price_x96: U256::from_u64(9),
        liquidity: 3,
        tick,
    };
    let mut s = service(false, true, true);
    // the first is for another block and is dropped
    let output = s.handle_slot0_updates(&vec![update(49, 1), update(50, 2)]);
    assert!(output.actions.is_empty());
    assert_eq!(output.slot0_changed, vec![id(1)]);
    assert_eq!(s.get_pools().get_pool(&id(1)).unwrap().current_tick(), 2);

    let mut channel = service(true, true, true);
    let output = channel.handle_slot0_updates(&vec![update(50, 2)]);
    assert_eq!(names(&output.actions), vec!["send"]);
    assert_eq!(channel.get_pools().get_pool(&id(1)).unwrap().current_tick(), 0);
}

#[test]
fn l2_service_creates_pools() {
    let hook = addr(0xa1);
    let pool_key = PoolKey::new(addr(1), addr(2), 0x800000, 10, hook);
    let mut registry = L2PoolRegistry::new();
    registry.add_new_pool(pool_key);
    let pools: UniswapPools<Optimism> = UniswapPools::new(5);
    let mut s: PoolManagerService<Optimism> = PoolManagerService::new(pools, registry, 1, true, false, true);
    let update = PoolUpdate::ChainSpecific {
        pool_id: pool_key.pool_id(),
        update: L2PoolUpdate::from_new_pool(
            pool_key.pool_id(),
            addr(1),
            addr(2),
            22,
            44,
            11,
            33,
            10,
            0x800000,
            hook,
            9,
            100,
            true,
            false,
        ),
    };
    let output = s.handle_factory_update(update);
    assert_eq!(output.actions.len(), 2);
    assert!(matches!(&output.actions[0], ServiceAction::Send(_)));
    match &output.actions[1] {
        ServiceAction::QueuePoolCreation { pool_key: k, block, fee_cfg } => {
            assert_eq!(*k, pool_key);
            assert_eq!(*block, 9);
            assert_eq!(
                *fee_cfg,
                L2FeeConfiguration {
                    is_initialized: true,
                    creator_tax_fee_e6: 22,
                    protocol_tax_fee_e6: 44,
                    creator_swap_fee_e6: 11,
                    protocol_swap_fee_e6: 33,
                    priority_fee_tax_floor: 100,
                    jit_tax_enabled: true,
                    withdraw_only: false,
                }
            );
        }
        _ => panic!("not a pool creation"),
    }
    assert!(s.handle_slot0_updates(&vec![]).actions.is_empty());
}
