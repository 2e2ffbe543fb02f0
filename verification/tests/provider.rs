use std::collections::HashMap;

use alloy_primitives::aliases::{I24, U160, U24};
use alloy_sol_types::SolValue;
use uni_v4::address_book::{L1AddressBook, L2AddressBook};
use uni_v4::errors::PoolUpdateError;
use uni_v4::fee_config::{L1FeeConfiguration, L1FeeUpdate, L2FeeConfiguration, L2FeeUpdate};
use uni_v4::id_map::KeyMap;
use uni_v4::liquidity_base::BaselineLiquidity;
use uni_v4::logs::RawLog;
use uni_v4::network::{Ethereum, Optimism};
use uni_v4::pool_key::{PoolKey, PoolKeyWithFees, DYNAMIC_FEE};
use uni_v4::pool_registry::l1::L1PoolRegistry;
use uni_v4::pool_registry::l2::L2PoolRegistry;
use uni_v4::pool_registry::PoolRegistry;
use uni_v4::pool_state::BaselinePoolState;
use uni_v4::pool_updates::{L1PoolUpdate, L2PoolUpdate, PoolUpdate, Slot0Data};
use uni_v4::pools::UniswapPools;
use uni_v4::primitives::{Address, B256};
use uni_v4::provider_l1::{fetch_angstrom_pools, fetch_ranges};
use uni_v4::logs::{modify_liquidity_topic, swap_topic};
use uni_v4::provider_l2::{
    fetch_l2_pools, floor_call_input, floor_of_answer, hooks_of_created_pools,
};
use uni_v4::u256::{I256, U256};
use uni_v4::update_provider::{
    BlockArrival, BlockOutcome, PoolUpdateProvider, StoredEvent, StreamMode, DEFAULT_REORG_DETECTION_BLOCKS,
    DEFAULT_REORG_LOOKBACK_BLOCK_CHUNK,
};

const Q96: u128 = 79228162514264337593543950336;
const SWAP: &str = "Swap(bytes32,address,int128,int128,uint160,uint128,int24,uint24)";
const MODIFY: &str = "ModifyLiquidity(bytes32,address,int24,int24,int256,bytes32)";
const CONFIGURED: &str = "PoolConfigured(address,address,uint16,uint24,uint24,uint24)";
const REMOVED: &str = "PoolRemoved(address,address,int24,uint24)";
const CREATED: &str =
    "PoolCreated(address,(address,address,uint24,int24,address),uint24,uint24,uint24,uint24)";
const SWAP_FEE: &str =
    "ProtocolSwapFeeUpdated(address,(address,address,uint24,int24,address),uint256)";
const TAX_FEE: &str = "ProtocolTaxFeeUpdated(address,(address,address,uint24,int24,address),uint256)";
const JIT: &str = "JITTaxStatusUpdated(address,bool)";
const FLOOR: &str = "PriorityFeeTaxFloorUpdated(address,uint256)";
const BATCH: &str = "batchUpdatePools((address,address,uint24,uint24,uint24)[])";

type RefAddress = alloy_primitives::Address;

fn addr(last: u8) -> Address {
    let mut bytes = [0u8; 20];
    bytes[0] = 0xcd;
    bytes[19] = last;
    Address::new(bytes)
}

fn reference(a: Address) -> RefAddress {
    RefAddress::from(a.bytes)
}

fn id(n: u8) -> B256 {
    let mut bytes = [0u8; 32];
    bytes[31] = n;
    B256::new(bytes)
}

fn topic_of(signature: &str) -> B256 {
    B256::new(alloy_primitives::keccak256(signature.as_bytes()).0)
}

fn address_topic(a: Address) -> B256 {
    let mut bytes = [0u8; 32];
    bytes[12..].copy_from_slice(&a.bytes);
    B256::new(bytes)
}

fn log(topics: Vec<B256>, data: Vec<u8>, block: u64, tx: u64, index: u64) -> RawLog {
    RawLog {
        address: addr(0xee),
        topics,
        data,
        block_number: block,
        transaction_index: tx,
        log_index: index,
    }
}

fn modify_log(pool: B256, lower: i32, upper: i32, delta: i64, block: u64, tx: u64, index: u64) -> RawLog {
    let data = (
        I24::try_from(lower).unwrap(),
        I24::try_from(upper).unwrap(),
        alloy_primitives::I256::try_from(delta).unwrap(),
        alloy_primitives::B256::ZERO,
    )
        .abi_encode();
    log(vec![topic_of(MODIFY), pool, address_topic(addr(8))], data, block, tx, index)
}

fn swap_log(pool: B256, tick: i32, liquidity: u128, block: u64, tx: u64, index: u64) -> RawLog {
    let data = (1i128, -1i128, U160::from(Q96), liquidity, I24::try_from(tick).unwrap(), U24::from(0))
        .abi_encode();
    log(vec![topic_of(SWAP), pool, address_topic(addr(8))], data, block, tx, index)
}

fn l1_provider(block: u64) -> PoolUpdateProvider<Ethereum> {
    PoolUpdateProvider::new_at_block(
        addr(0x10),
        L1AddressBook::new(addr(0xc0), addr(0xaa)),
        L1PoolRegistry::new(addr(0xaa)),
        block,
    )
}

fn l2_provider(block: u64) -> PoolUpdateProvider<Optimism> {
    PoolUpdateProvider::new_at_block(
        addr(0x10),
        L2AddressBook::new(addr(0xfa)),
        L2PoolRegistry::new(),
        block,
    )
}

fn pool() -> BaselinePoolState<L1FeeConfiguration> {
    let liquidity =
        BaselineLiquidity::new(60, 30, U256::from_u128(Q96), 0, HashMap::new(), HashMap::new());
    BaselinePoolState::new(
        liquidity,
        1,
        L1FeeConfiguration { bundle_fee: 500, swap_fee: 300, protocol_fee: 200 },
        Address::zero(),
        Address::zero(),
        18,
        6,
    )
}

fn kind<T: uni_v4::network::V4Network>(update: &PoolUpdate<T>) -> &'static str {
    match update {
        PoolUpdate::NewBlock(_) => "block",
        PoolUpdate::SwapEvent { .. } => "swap",
        PoolUpdate::LiquidityEvent { .. } => "liquidity",
        PoolUpdate::Reorg { .. } => "reorg",
        PoolUpdate::NewTicks { .. } => "ticks",
        PoolUpdate::NewPoolState { .. } => "pool",
        PoolUpdate::FeeUpdate { .. } => "fee",
        PoolUpdate::UpdatedSlot0 { .. } => "slot0",
        PoolUpdate::ChainSpecific { .. } => "chain",
    }
}

fn delta_of<T: uni_v4::network::V4Network>(update: &PoolUpdate<T>) -> Option<i128> {
    match update {
        PoolUpdate::LiquidityEvent { event, .. } => event.liquidity_delta.to_i128(),
        _ => None,
    }
}

#[test]
fn defaults_and_tracking() {
    let mut provider = l1_provider(50);
    assert_eq!(provider.reorg_detection_blocks, DEFAULT_REORG_DETECTION_BLOCKS);
    assert_eq!(provider.reorg_detection_blocks, 10);
    assert_eq!(provider.reorg_lookback_block_chunk, DEFAULT_REORG_LOOKBACK_BLOCK_CHUNK);
    assert_eq!(provider.reorg_lookback_block_chunk, 100);
    assert_eq!(provider.stream_mode, StreamMode::Full);
    assert_eq!(StreamMode::default(), StreamMode::Full);
    assert!(!provider.has_tracked_pools());
    provider.add_pool(id(1));
    provider.add_pool(id(2));
    provider.add_pool(id(1));
    assert_eq!(provider.tracked_pools(), vec![id(1), id(2)]);
    provider.remove_pool(id(1));
    provider.remove_pool(id(9));
    assert_eq!(provider.tracked_pools(), vec![id(2)]);
    let provider = provider
        .with_stream_mode(StreamMode::InitializationOnly)
        .with_address_book(L1AddressBook::new(addr(1), addr(2)));
    assert_eq!(provider.stream_mode, StreamMode::InitializationOnly);
    assert_eq!(provider.address_book().angstrom, addr(2));
    assert_eq!(provider.classify_block(50), BlockArrival::Reorg);
    assert_eq!(provider.classify_block(51), BlockArrival::Next);
    assert_eq!(provider.classify_block(49), BlockArrival::Stale);
}

#[test]
fn block_events_of_tracked_pools_only() {
    let mut provider = l1_provider(99);
    // a provider that tracks nothing yields nothing
    let none = provider.process_events_for_block_range(
        &vec![swap_log(id(1), 5, 7, 100, 0, 0)],
        &vec![],
        vec![PoolUpdate::NewBlock(1)],
        true,
    );
    assert!(none.is_empty());

    provider.add_pool(id(1));
    let mut garbage = swap_log(id(1), 5, 7, 100, 4, 0);
    garbage.data.pop();
    let updates = provider.process_events_for_block_range(
        &vec![swap_log(id(1), 5, 7, 100, 2, 0), swap_log(id(2), 5, 7, 100, 2, 1), garbage],
        &vec![modify_log(id(1), 0, 120, 500, 100, 3, 1), modify_log(id(2), 0, 120, 1, 100, 3, 2)],
        vec![PoolUpdate::Reorg { from_block: 1, to_block: 2 }],
        true,
    );
    let kinds: Vec<&str> = updates.iter().map(kind).collect();
    assert_eq!(kinds, vec!["swap", "liquidity", "reorg"]);
    match &updates[0] {
        PoolUpdate::SwapEvent { pool_id, block, tx_index, log_index, event } => {
            assert_eq!((*pool_id, *block, *tx_index, *log_index), (id(1), 100, 2, 0));
            assert_eq!((event.tick, event.liquidity, event.sender), (5, 7, addr(8)));
            assert_eq!((event.amount0, event.amount1), (1, -1));
        }
        _ => panic!("not a swap"),
    }
    match &updates[1] {
        PoolUpdate::LiquidityEvent { pool_id, block, tx_index, log_index, event } => {
            assert_eq!((*pool_id, *block, *tx_index, *log_index), (id(1), 100, 3, 1));
            assert_eq!((event.tick_lower, event.tick_upper), (0, 120));
            assert_eq!(event.liquidity_delta, I256::from_i128(500));
        }
        _ => panic!("not a liquidity event"),
    }
    assert_eq!(provider.event_history.len(), 1);
    assert_eq!(provider.event_history[0].block, 100);
    assert_eq!(provider.event_history[0].pool_id, id(1));
}

#[test]
fn history_keeps_the_window() {
    let mut provider = l1_provider(100);
    let stored = |block: u64| StoredEvent {
        block,
        tx_index: 0,
        log_index: 0,
        pool_id: id(1),
        liquidity_event: uni_v4::pool_updates::ModifyLiquidityEventData {
            sender: Address::zero(),
            tick_lower: 0,
            tick_upper: 60,
            liquidity_delta: I256::from_i128(1),
            salt: [0; 32],
        },
    };
    for block in [80, 90, 91, 95, 100] {
        provider.add_to_history(stored(block));
    }
    // the window of ten blocks that ends at block 100 starts at block 91
    let blocks: Vec<u64> = provider.event_history.iter().map(|e| e.block).collect();
    assert_eq!(blocks, vec![91, 95, 100]);
    assert_eq!(provider.reorg_start(), 91);
    let updates = provider.advance(103, None);
    assert_eq!(updates.len(), 1);
    assert!(matches!(updates[0], PoolUpdate::NewBlock(103)));
    let blocks: Vec<u64> = provider.event_history.iter().map(|e| e.block).collect();
    assert_eq!(blocks, vec![95, 100]);
    provider.clear_history_from_block(100);
    let blocks: Vec<u64> = provider.event_history.iter().map(|e| e.block).collect();
    assert_eq!(blocks, vec![95]);
    // a stale or repeated block changes nothing
    assert!(provider.advance(103, Some(vec![PoolUpdate::NewBlock(1)])).is_empty());
    assert!(provider.advance(5, None).is_empty());
    assert_eq!(provider.current_block, 103);

    let early = l1_provider(3);
    assert_eq!(early.reorg_start(), 0);
    let mut none_kept = PoolUpdateProvider::<Ethereum>::new_with_config(
        addr(1),
        7,
        0,
        0,
        L1AddressBook::new(addr(1), addr(2)),
        L1PoolRegistry::new(addr(2)),
    );
    assert_eq!(none_kept.reorg_start(), 8);
    none_kept.add_to_history(stored(7));
    assert!(none_kept.event_history.is_empty());
}

#[test]
fn backfill_spans_cover_the_range() {
    let provider = l1_provider(0);
    assert_eq!(provider.backfill_spans(91, 100), vec![(91, 100)]);
    assert_eq!(provider.backfill_spans(1, 250), vec![(1, 100), (101, 200), (201, 250)]);
    assert_eq!(provider.backfill_spans(5, 5), vec![(5, 5)]);
    assert_eq!(provider.backfill_spans(6, 5), vec![]);
    assert_eq!(
        provider.backfill_spans(u64::MAX - 150, u64::MAX),
        vec![(u64::MAX - 150, u64::MAX - 51), (u64::MAX - 50, u64::MAX)]
    );
    let tiny = PoolUpdateProvider::<Ethereum>::new_with_config(
        addr(1),
        0,
        10,
        0,
        L1AddressBook::new(addr(1), addr(2)),
        L1PoolRegistry::new(addr(2)),
    );
    assert_eq!(tiny.backfill_spans(1, 3), vec![(1, 1), (2, 2), (3, 3)]);
}

#[test]
fn advance_filters_by_stream_mode() {
    let batch = || -> Vec<PoolUpdate<Ethereum>> {
        let mut provider = l1_provider(99);
        provider.add_pool(id(1));
        let mut updates = provider.process_events_for_block_range(
            &vec![swap_log(id(1), 5, 7, 100, 2, 0)],
            &vec![modify_log(id(1), 0, 120, 500, 100, 3, 1)],
            vec![],
            false,
        );
        updates.push(PoolUpdate::from_fee_update(
            id(1),
            100,
            L1FeeUpdate { bundle_fee: 1, swap_fee: 2, protocol_fee: 3 },
        ));
        updates.push(PoolUpdate::ChainSpecific {
            pool_id: id(1),
            update: L1PoolUpdate::PoolRemoved { pool_id: id(1), block: 100 },
        });
        updates.push(PoolUpdate::ChainSpecific {
            pool_id: id(1),
            update: L1PoolUpdate::Slot0Update(uni_v4::pool_updates::Slot0Update {
                seq_id: 0,
                current_block: 100,
                angstrom_pool_id: id(2),
                uni_pool_id: id(1),
                sqrt_price_x96: U256::zero(),
                liquidity: 0,
                tick: 0,
            }),
        });
        updates.push(PoolUpdate::UpdatedSlot0 {
            pool_id: id(1),
            data: Slot0Data { sqrt_price_x96: U256::zero(), tick: 0, liquidity: 0 },
        });
        updates
    };
    let mut full = l1_provider(99);
    let kinds: Vec<&str> = full.advance(100, Some(batch())).iter().map(kind).collect();
    assert_eq!(kinds, vec!["block", "swap", "liquidity", "fee", "chain", "chain", "slot0"]);
    assert_eq!(full.current_block, 100);

    let mut init_only = l1_provider(99).with_stream_mode(StreamMode::InitializationOnly);
    let kept = init_only.advance(100, Some(batch()));
    let kinds: Vec<&str> = kept.iter().map(kind).collect();
    assert_eq!(kinds, vec!["block", "fee", "chain", "slot0"]);
    assert!(matches!(
        kept[2],
        PoolUpdate::ChainSpecific { update: L1PoolUpdate::PoolRemoved { .. }, .. }
    ));
    assert_eq!(init_only.filter_for_mode(batch()).len(), 3);
    assert_eq!(full.filter_for_mode(batch()).len(), 6);
    assert_eq!(full.get_affected_pools(&batch()), vec![id(1)]);
    assert!(full.get_affected_pools(&vec![PoolUpdate::NewBlock(1)]).is_empty());
}

#[test]
fn reorg_replay() {
    let pool_id = id(1);
    let mut provider = l1_provider(99);
    provider.add_pool(pool_id);
    let mut pools: UniswapPools<Ethereum> = UniswapPools::new(99);
    pools.insert_pool(pool_id, pool());

    // block 100 arrives with one liquidity event
    assert_eq!(provider.classify_block(100), BlockArrival::Next);
    let events = provider.process_events_for_block_range(
        &vec![],
        &vec![modify_log(pool_id, 0, 120, 500, 100, 3, 1)],
        vec![],
        true,
    );
    let updates = provider.advance(100, Some(events));
    let kinds: Vec<&str> = updates.iter().map(kind).collect();
    assert_eq!(kinds, vec!["block", "liquidity"]);
    pools.update_pools(updates);
    assert_eq!(pools.get_block(), 100);
    let before = pools.get_pool(&pool_id).unwrap().clone();
    assert_eq!(before.current_liquidity(), 500);
    assert_eq!(provider.event_history.len(), 1);

    // block 100 arrives again: the chain was reorganized
    assert_eq!(provider.classify_block(100), BlockArrival::Reorg);
    let plan = provider.begin_reorg();
    assert_eq!((plan.from_block, plan.to_block), (91, 100));
    assert_eq!(plan.spans, vec![(91, 100)]);
    assert_eq!(plan.inverse_events.len(), 1);
    assert_eq!(delta_of(&plan.inverse_events[0]), Some(-500));
    assert!(provider.event_history.is_empty());

    // the replay of the span finds the same log
    let fresh = provider.process_events_for_block_range(
        &vec![],
        &vec![modify_log(pool_id, 0, 120, 500, 100, 3, 1)],
        vec![],
        false,
    );
    assert!(provider.event_history.is_empty());
    let affected = provider.absorb_backfill(&plan.inverse_events, &fresh);
    assert_eq!(affected, vec![pool_id]);
    assert_eq!(provider.event_history.len(), 1);
    let slot0 = Slot0Data {
        sqrt_price_x96: before.current_price(),
        tick: before.current_tick(),
        liquidity: before.current_liquidity(),
    };
    let updates = provider.reorg_updates(plan, fresh, vec![(pool_id, slot0)]);
    let kinds: Vec<&str> = updates.iter().map(kind).collect();
    assert_eq!(kinds, vec!["reorg", "liquidity", "liquidity", "slot0", "reorg"]);
    assert!(matches!(updates[0], PoolUpdate::Reorg { from_block: 91, to_block: 100 }));
    assert_eq!(delta_of(&updates[1]), Some(-500));
    assert_eq!(delta_of(&updates[2]), Some(500));
    assert!(matches!(updates[4], PoolUpdate::Reorg { from_block: 91, to_block: 100 }));
    match &updates[1] {
        PoolUpdate::LiquidityEvent { pool_id: p, block, tx_index, log_index, event } => {
            assert_eq!((*p, *block, *tx_index, *log_index), (pool_id, 100, 3, 1));
            assert_eq!((event.tick_lower, event.tick_upper), (0, 120));
        }
        _ => panic!("not a liquidity event"),
    }

    // applied one after the other, as a consumer of the stream would
    for update in updates {
        pools.update_pools(vec![update]);
    }
    let after = pools.get_pool(&pool_id).unwrap();
    assert_eq!(pools.get_block(), 100);
    assert_eq!(after.current_liquidity(), before.current_liquidity());
    assert_eq!(after.current_tick(), before.current_tick());
    assert_eq!(after.current_price(), before.current_price());
    assert_eq!(
        after.get_baseline_liquidity().initialized_ticks,
        before.get_baseline_liquidity().initialized_ticks
    );
    assert_eq!(after.get_baseline_liquidity().tick_bitmap, before.get_baseline_liquidity().tick_bitmap);
}

#[test]
fn reorg_in_initialization_mode_hides_the_events() {
    let mut provider = l1_provider(99).with_stream_mode(StreamMode::InitializationOnly);
    provider.add_pool(id(1));
    let events = provider.process_events_for_block_range(
        &vec![],
        &vec![modify_log(id(1), 0, 120, 500, 100, 3, 1), modify_log(id(1), 0, 60, 7, 100, 4, 0)],
        vec![],
        true,
    );
    let updates = provider.advance(100, Some(events));
    assert_eq!(updates.len(), 1);
    // the history is kept all the same
    assert_eq!(provider.event_history.len(), 2);
    let plan = provider.begin_reorg();
    // last event first
    assert_eq!(delta_of(&plan.inverse_events[0]), Some(-7));
    assert_eq!(delta_of(&plan.inverse_events[1]), Some(-500));
    let fresh = provider.process_events_for_block_range(
        &vec![swap_log(id(1), 1, 1, 100, 0, 0)],
        &vec![],
        vec![],
        false,
    );
    let affected = provider.absorb_backfill(&plan.inverse_events, &fresh);
    assert_eq!(affected, vec![id(1)]);
    let updates = provider.reorg_updates(plan, fresh, vec![]);
    let kinds: Vec<&str> = updates.iter().map(kind).collect();
    assert_eq!(kinds, vec!["reorg", "reorg"]);
}

fn configured_log(a0: Address, a1: Address, spacing: u16, fees: (u32, u32, u32), block: u64) -> RawLog {
    let data = (spacing, U24::from(fees.0), U24::from(fees.1), U24::from(fees.2)).abi_encode();
    log(vec![topic_of(CONFIGURED), address_topic(a0), address_topic(a1)], data, block, 0, 0)
}

fn removed_log(a0: Address, a1: Address, spacing: i32, fee: u32, block: u64) -> RawLog {
    let data = (I24::try_from(spacing).unwrap(), U24::from(fee)).abi_encode();
    log(vec![topic_of(REMOVED), address_topic(a0), address_topic(a1)], data, block, 0, 0)
}

#[test]
fn controller_logs_become_updates() {
    let mut provider = l1_provider(10);
    let key = PoolKey::new(addr(1), addr(2), 500, 60, addr(0xaa));
    let uniswap_id = key.with_fee(DYNAMIC_FEE).pool_id();
    let updates = provider.process_controller_logs(&vec![
        configured_log(addr(1), addr(2), 60, (500, 300, 200), 11),
        swap_log(id(1), 1, 1, 11, 0, 0),
        removed_log(addr(1), addr(2), 60, 500, 12),
        removed_log(addr(5), addr(6), 60, 500, 12),
    ]);
    assert_eq!(updates.len(), 2);
    match &updates[0] {
        PoolUpdate::ChainSpecific {
            pool_id,
            update:
                L1PoolUpdate::NewPool {
                    pool_id: inner,
                    token0,
                    token1,
                    bundle_fee,
                    swap_fee,
                    protocol_fee,
                    tick_spacing,
                    block,
                },
        } => {
            assert_eq!(*pool_id, uniswap_id);
            assert_eq!(*inner, uniswap_id);
            assert_eq!((*token0, *token1), (addr(1), addr(2)));
            assert_eq!((*bundle_fee, *swap_fee, *protocol_fee), (500, 300, 200));
            assert_eq!((*tick_spacing, *block), (60, 11));
        }
        _ => panic!("not a new pool"),
    }
    match &updates[1] {
        PoolUpdate::ChainSpecific { pool_id, update: L1PoolUpdate::PoolRemoved { pool_id: inner, block } } => {
            assert_eq!((*pool_id, *inner, *block), (uniswap_id, uniswap_id, 12));
        }
        _ => panic!("not a removal"),
    }
    // the registry learned the pool
    assert_eq!(provider.pool_registry.get(&uniswap_id), Some(&key.with_fee(DYNAMIC_FEE)));
    assert_eq!(provider.pool_registry.get(&key.pool_id()), Some(&key));
}

fn batch_call(entries: &[(Address, Address, u32, u32, u32)]) -> Vec<u8> {
    let list: Vec<(RefAddress, RefAddress, U24, U24, U24)> = entries
        .iter()
        .map(|e| (reference(e.0), reference(e.1), U24::from(e.2), U24::from(e.3), U24::from(e.4)))
        .collect();
    let mut input = alloy_primitives::keccak256(BATCH.as_bytes())[..4].to_vec();
    input.extend((list,).abi_encode_params());
    input
}

#[test]
fn batch_update_calls_become_fee_updates() {
    let mut provider = l1_provider(10);
    provider.process_controller_logs(&vec![
        configured_log(addr(1), addr(2), 60, (500, 300, 200), 11),
        configured_log(addr(3), addr(4), 10, (100, 30, 20), 11),
    ]);
    let first = PoolKey::new(addr(1), addr(2), 500, 60, addr(0xaa)).with_fee(DYNAMIC_FEE).pool_id();
    let second = PoolKey::new(addr(3), addr(4), 100, 10, addr(0xaa)).with_fee(DYNAMIC_FEE).pool_id();
    let input = batch_call(&[
        (addr(4), addr(3), 111, 33, 22),
        (addr(7), addr(8), 1, 1, 1),
        (addr(1), addr(2), 555, 333, 222),
    ]);
    let updates = provider.process_batch_update_pools(Some(addr(0xc0)), &input, 12);
    assert_eq!(updates.len(), 2);
    match &updates[0] {
        PoolUpdate::FeeUpdate { pool_id, block, update } => {
            assert_eq!((*pool_id, *block), (second, 12));
            assert_eq!(*update, L1FeeUpdate { bundle_fee: 111, swap_fee: 33, protocol_fee: 22 });
        }
        _ => panic!("not a fee update"),
    }
    match &updates[1] {
        PoolUpdate::FeeUpdate { pool_id, update, .. } => {
            assert_eq!(*pool_id, first);
            assert_eq!(*update, L1FeeUpdate { bundle_fee: 555, swap_fee: 333, protocol_fee: 222 });
        }
        _ => panic!("not a fee update"),
    }
    // a call to another contract, or no call at all, yields nothing
    assert!(provider.process_batch_update_pools(Some(addr(0xc1)), &input, 12).is_empty());
    assert!(provider.process_batch_update_pools(None, &input, 12).is_empty());
    assert!(provider.process_batch_update_pools(Some(addr(0xc0)), &vec![1, 2, 3], 12).is_empty());
}

#[test]
fn start_up_scan_ranges() {
    assert_eq!(fetch_ranges(5, 5), vec![]);
    assert_eq!(fetch_ranges(0, 10), vec![(0, 10)]);
    assert_eq!(fetch_ranges(0, 99_999), vec![(0, 99_999)]);
    assert_eq!(fetch_ranges(0, 100_000), vec![(0, 99_999), (99_999, 100_000)]);
    assert_eq!(
        fetch_ranges(1_000, 250_000),
        vec![(1_000, 100_999), (100_999, 200_998), (200_998, 250_000)]
    );
    assert_eq!(fetch_ranges(9, 5), vec![(9, 5)]);
    assert_eq!(fetch_ranges(u64::MAX - 1, u64::MAX), vec![(u64::MAX - 1, u64::MAX)]);
}

#[test]
fn start_up_scan_of_the_controller() {
    let pools = fetch_angstrom_pools(
        &vec![
            configured_log(addr(1), addr(2), 60, (500, 300, 200), 1),
            configured_log(addr(3), addr(4), 10, (100, 30, 20), 2),
            configured_log(addr(5), addr(6), 10, (1, 1, 1), 2),
            // configured again with other fees: the later one stays, in its old place
            configured_log(addr(1), addr(2), 60, (555, 333, 222), 3),
            removed_log(addr(3), addr(4), 10, 100, 4),
            // a removal with another tick spacing addresses another pool
            removed_log(addr(5), addr(6), 20, 1, 4),
            swap_log(id(1), 1, 1, 4, 0, 0),
        ],
        addr(0xaa),
    );
    assert_eq!(
        pools,
        vec![
            PoolKeyWithFees {
                pool_key: PoolKey::new(addr(1), addr(2), 555, 60, addr(0xaa)),
                fee_cfg: L1FeeConfiguration { bundle_fee: 555, swap_fee: 333, protocol_fee: 222 },
            },
            PoolKeyWithFees {
                pool_key: PoolKey::new(addr(5), addr(6), 1, 10, addr(0xaa)),
                fee_cfg: L1FeeConfiguration { bundle_fee: 1, swap_fee: 1, protocol_fee: 1 },
            },
        ]
    );
    assert!(fetch_angstrom_pools(&vec![], addr(0xaa)).is_empty());
}

fn key_tuple(key: &PoolKey) -> (RefAddress, RefAddress, U24, I24, RefAddress) {
    (
        reference(key.currency0),
        reference(key.currency1),
        U24::from(key.fee),
        I24::try_from(key.tick_spacing).unwrap(),
        reference(key.hooks),
    )
}

fn created_log(hook: Address, key: &PoolKey, fees: (u32, u32, u32, u32), block: u64) -> RawLog {
    let data = (
        reference(hook),
        key_tuple(key),
        U24::from(fees.0),
        U24::from(fees.1),
        U24::from(fees.2),
        U24::from(fees.3),
    )
        .abi_encode();
    log(vec![topic_of(CREATED)], data, block, 0, 0)
}

fn fee_log(signature: &str, hook: Address, key: &PoolKey, fee: u64, block: u64) -> RawLog {
    let data = (key_tuple(key), alloy_primitives::U256::from(fee)).abi_encode();
    log(vec![topic_of(signature), address_topic(hook)], data, block, 0, 0)
}

fn jit_log(hook: Address, enabled: bool, block: u64) -> RawLog {
    log(vec![topic_of(JIT), address_topic(hook)], (enabled,).abi_encode(), block, 0, 0)
}

fn floor_log(hook: Address, floor: u64, block: u64) -> RawLog {
    log(
        vec![topic_of(FLOOR), address_topic(hook)],
        (alloy_primitives::U256::from(floor),).abi_encode(),
        block,
        0,
        0,
    )
}

fn withdraw_only_log(block: u64) -> RawLog {
    log(vec![topic_of("WithdrawOnly()")], vec![], block, 0, 0)
}

fn floors(entries: &[(Address, u128)]) -> KeyMap<Address, u128> {
    let mut map = KeyMap::new();
    for (hook, floor) in entries {
        map.insert(*hook, *floor);
    }
    map
}

#[test]
fn factory_logs_become_updates() {
    let hook_a = addr(0xa1);
    let hook_b = addr(0xb1);
    let key_a = PoolKey::new(addr(1), addr(2), 0x800000, 10, hook_a);
    let key_b = PoolKey::new(addr(3), addr(4), 0x800000, 60, hook_b);
    let logs = vec![
        // set before the pools exist: it still reaches the pools created in this stretch
        jit_log(hook_a, true, 20),
        created_log(hook_a, &key_a, (11, 22, 33, 44), 21),
        created_log(hook_b, &key_b, (1, 2, 3, 4), 21),
        fee_log(SWAP_FEE, hook_a, &key_a, 777, 22),
        fee_log(TAX_FEE, hook_b, &key_b, 888, 22),
        floor_log(hook_a, 5_000, 23),
        jit_log(hook_b, true, 23),
        withdraw_only_log(24),
    ];
    assert_eq!(hooks_of_created_pools(&logs), vec![hook_a, hook_b]);

    let mut provider = l2_provider(19);
    // without the floor of a hook nothing is processed
    let missing = provider.process_l2_factory_logs(&logs, &floors(&[(hook_a, 100)]));
    assert!(matches!(missing, Err(PoolUpdateError::Provider(_))));
    assert!(provider.pool_registry.all_uniswap_pool_ids().is_empty());

    let updates =
        provider.process_l2_factory_logs(&logs, &floors(&[(hook_a, 100), (hook_b, 200)])).unwrap();
    let kinds: Vec<&str> = updates.iter().map(kind).collect();
    // jit of hook a: no pool yet; two pools; two fee updates; floor of a: one pool;
    // jit of b: one pool; withdraw-only: both pools
    assert_eq!(kinds, vec!["chain", "chain", "fee", "fee", "fee", "fee", "fee", "fee"]);
    match &updates[0] {
        PoolUpdate::ChainSpecific {
            pool_id,
            update:
                L2PoolUpdate::NewPool {
                    pool_id: inner,
                    token0,
                    token1,
                    creator_tax_fee_e6,
                    protocol_tax_fee_e6,
                    creator_swap_fee_e6,
                    protocol_swap_fee_e6,
                    hook_fee,
                    tick_spacing,
                    hook,
                    block,
                    priority_fee_tax_floor,
                    jit_tax_enabled,
                    withdraw_only,
                },
        } => {
            assert_eq!((*pool_id, *inner), (key_a.pool_id(), key_a.pool_id()));
            assert_eq!((*token0, *token1, *hook), (addr(1), addr(2), hook_a));
            assert_eq!((*creator_swap_fee_e6, *creator_tax_fee_e6), (11, 22));
            assert_eq!((*protocol_swap_fee_e6, *protocol_tax_fee_e6), (33, 44));
            assert_eq!((*hook_fee, *tick_spacing, *block), (0x800000, 10, 21));
            assert_eq!(*priority_fee_tax_floor, 100);
            assert!(*jit_tax_enabled);
            assert!(*withdraw_only);
        }
        _ => panic!("not a new pool"),
    }
    match &updates[1] {
        PoolUpdate::ChainSpecific {
            update: L2PoolUpdate::NewPool { priority_fee_tax_floor, jit_tax_enabled, .. },
            ..
        } => {
            assert_eq!(*priority_fee_tax_floor, 200);
            // the last status of hook b in this stretch
            assert!(*jit_tax_enabled);
        }
        _ => panic!("not a new pool"),
    }
    let none = L2FeeUpdate {
        protocol_tax_fee_e6: None,
        protocol_swap_fee_e6: None,
        priority_fee_tax_floor: None,
        jit_tax_enabled: None,
        withdraw_only: None,
    };
    let expect = |update: &PoolUpdate<Optimism>, pool: B256, at: u64, change: L2FeeUpdate| match update {
        PoolUpdate::FeeUpdate { pool_id, block, update } => {
            assert_eq!((*pool_id, *block, *update), (pool, at, change));
        }
        _ => panic!("not a fee update"),
    };
    expect(&updates[2], key_a.pool_id(), 22, L2FeeUpdate { protocol_swap_fee_e6: Some(777), ..none });
    expect(&updates[3], key_b.pool_id(), 22, L2FeeUpdate { protocol_tax_fee_e6: Some(888), ..none });
    expect(&updates[4], key_a.pool_id(), 23, L2FeeUpdate { priority_fee_tax_floor: Some(5_000), ..none });
    expect(&updates[5], key_b.pool_id(), 23, L2FeeUpdate { jit_tax_enabled: Some(true), ..none });
    expect(&updates[6], key_a.pool_id(), 24, L2FeeUpdate { withdraw_only: Some(true), ..none });
    expect(&updates[7], key_b.pool_id(), 24, L2FeeUpdate { withdraw_only: Some(true), ..none });
    assert_eq!(provider.pool_registry.all_uniswap_pool_ids(), vec![key_a.pool_id(), key_b.pool_id()]);
}

#[test]
fn start_up_scan_of_the_factory() {
    let hook = addr(0xa1);
    let key_a = PoolKey::new(addr(1), addr(2), 0x800000, 10, hook);
    let key_b = PoolKey::new(addr(3), addr(4), 0x800000, 60, hook);
    let logs = vec![
        // a fee change of a later block comes first in the list: it applies after the creation
        fee_log(SWAP_FEE, hook, &key_a, 777, 30),
        created_log(hook, &key_a, (11, 22, 33, 44), 21),
        // a fee change from before the creation finds no pool
        fee_log(TAX_FEE, hook, &key_b, 999, 20),
        created_log(hook, &key_b, (1, 2, 3, 4), 21),
        fee_log(TAX_FEE, hook, &key_a, 888, 30),
        jit_log(hook, true, 25),
        floor_log(hook, 1, 26),
    ];
    let missing = fetch_l2_pools(&logs, &floors(&[]));
    assert!(matches!(missing, Err(PoolUpdateError::Provider(_))));
    let pools = fetch_l2_pools(&logs, &floors(&[(hook, 100)])).unwrap();
    assert_eq!(
        pools,
        vec![
            PoolKeyWithFees {
                pool_key: key_a,
                fee_cfg: L2FeeConfiguration {
                    is_initialized: true,
                    creator_tax_fee_e6: 22,
                    protocol_tax_fee_e6: 888,
                    creator_swap_fee_e6: 11,
                    protocol_swap_fee_e6: 777,
                    priority_fee_tax_floor: 100,
                    jit_tax_enabled: true,
                    withdraw_only: false,
                },
            },
            PoolKeyWithFees {
                pool_key: key_b,
                fee_cfg: L2FeeConfiguration {
                    is_initialized: true,
                    creator_tax_fee_e6: 2,
                    protocol_tax_fee_e6: 4,
                    creator_swap_fee_e6: 1,
                    protocol_swap_fee_e6: 3,
                    priority_fee_tax_floor: 100,
                    jit_tax_enabled: true,
                    withdraw_only: false,
                },
            },
        ]
    );
    assert_eq!(fetch_l2_pools(&vec![], &floors(&[])).unwrap(), vec![]);
}

#[test]
fn block_arrivals_by_number() {
    let mut provider = l1_provider(99);
    provider.add_pool(id(1));

    // a block ahead moves the provider on
    let events = provider.process_events_for_block_range(
        &vec![],
        &vec![modify_log(id(1), 0, 120, 500, 100, 3, 1)],
        vec![],
        true,
    );
    match provider.on_new_block(100, Some(events)) {
        BlockOutcome::Updates(updates) => {
            let kinds: Vec<&str> = updates.iter().map(kind).collect();
            assert_eq!(kinds, vec!["block", "liquidity"]);
            assert!(matches!(updates[0], PoolUpdate::NewBlock(100)));
        }
        _ => panic!("a block ahead gives updates"),
    }
    assert_eq!(provider.current_block, 100);
    assert_eq!(provider.event_history.len(), 1);

    // a block behind is ignored
    assert!(matches!(provider.on_new_block(42, None), BlockOutcome::Stale));
    assert_eq!(provider.current_block, 100);
    assert_eq!(provider.event_history.len(), 1);

    // a block ahead without events gives the block alone
    match provider.on_new_block(101, None) {
        BlockOutcome::Updates(updates) => {
            assert_eq!(updates.len(), 1);
            assert!(matches!(updates[0], PoolUpdate::NewBlock(101)));
        }
        _ => panic!("a block ahead gives updates"),
    }
    assert_eq!(provider.current_block, 101);

    // the same block again starts the repair
    match provider.on_new_block(101, None) {
        BlockOutcome::Reorg(plan) => {
            assert_eq!((plan.from_block, plan.to_block), (92, 101));
            assert_eq!(plan.spans, vec![(92, 101)]);
            assert_eq!(plan.inverse_events.len(), 1);
            assert_eq!(delta_of(&plan.inverse_events[0]), Some(-500));
        }
        _ => panic!("the current block again is a reorganization"),
    }
    assert_eq!(provider.current_block, 101);
    assert!(provider.event_history.is_empty());
}

#[test]
fn chain_specific_update_of_a_pool() {
    let mut state = pool();
    let slot0 = uni_v4::pool_updates::Slot0Update {
        seq_id: 4,
        current_block: 7,
        angstrom_pool_id: id(2),
        uni_pool_id: id(1),
        sqrt_price_x96: U256::from_u64(4295128739),
        liquidity: 77,
        tick: -887272,
    };
    state.update_chain_specific(L1PoolUpdate::Slot0Update(slot0));
    assert_eq!(state.current_tick(), -887272);
    assert_eq!(state.current_liquidity(), 77);
    assert_eq!(state.current_price(), U256::from_u64(4295128739));
    state.update_chain_specific(L1PoolUpdate::PoolRemoved { pool_id: id(1), block: 8 });
    assert_eq!(state.current_tick(), -887272);
    assert_eq!(state.current_liquidity(), 77);
    assert_eq!(state.block_number(), 1);
}

#[test]
fn topics_of_the_pool_manager() {
    assert_eq!(swap_topic(), topic_of(SWAP));
    assert_eq!(modify_liquidity_topic(), topic_of(MODIFY));
    assert_ne!(swap_topic(), modify_liquidity_topic());
}

#[test]
fn floor_call_and_answer() {
    let hash = alloy_primitives::keccak256("priorityFeeTaxFloor()".as_bytes());
    assert_eq!(floor_call_input(), hash.0[..4].to_vec());

    let mut answer = vec![0u8; 32];
    answer[31] = 100;
    assert_eq!(floor_of_answer(&answer), Some(100));
    answer[16] = 0xff;
    assert_eq!(floor_of_answer(&answer), Some((0xffu128 << 120) + 100));
    // bytes after the first word do not count
    answer.extend_from_slice(&[7u8; 32]);
    assert_eq!(floor_of_answer(&answer), Some((0xffu128 << 120) + 100));
    // more than 128 bits
    answer[15] = 1;
    assert_eq!(floor_of_answer(&answer), None);
    // less than a word
    assert_eq!(floor_of_answer(&vec![0u8; 31]), None);
    assert_eq!(floor_of_answer(&vec![]), None);
    assert_eq!(floor_of_answer(&vec![0xffu8; 32]), None);
    let mut full = vec![0u8; 16];
    full.extend_from_slice(&[0xffu8; 16]);
    assert_eq!(floor_of_answer(&full), Some(u128::MAX));
}
