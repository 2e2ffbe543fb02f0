use alloy_primitives::aliases::{I24, U160, U24};
use alloy_sol_types::SolValue;
use uni_v4::logs::{
    decode_batch_update_pools, decode_jit_tax_status_updated, decode_modify_liquidity,
    decode_pool_configured, decode_pool_created, decode_pool_removed,
    decode_priority_fee_tax_floor_updated, decode_protocol_swap_fee_updated,
    decode_protocol_tax_fee_updated, decode_swap, event_topic, is_withdraw_only, RawLog,
};
use uni_v4::pool_key::PoolKey;
use uni_v4::primitives::{Address, B256};
use uni_v4::u256::{I256, U256};

type RefAddress = alloy_primitives::Address;

fn addr(last: u8) -> Address {
    let mut bytes = [0u8; 20];
    bytes[0] = 0xcd;
    bytes[19] = last;
    Address::new(bytes)
}

fn reference(a: Address) -> RefAddress {
    RefAddress::from(a.bytes)
}

fn topic_of(signature: &str) -> B256 {
    B256::new(alloy_primitives::keccak256(signature.as_bytes()).0)
}

fn address_topic(a: Address) -> B256 {
    let mut bytes = [0u8; 32];
    bytes[12..].copy_from_slice(&a.bytes);
    B256::new(bytes)
}

fn word(n: u8) -> B256 {
    let mut bytes = [0u8; 32];
    bytes[0] = 0x99;
    bytes[31] = n;
    B256::new(bytes)
}

fn log(topics: Vec<B256>, data: Vec<u8>) -> RawLog {
    RawLog {
        address: addr(0xee),
        topics,
        data,
        block_number: 100,
        transaction_index: 3,
        log_index: 1,
    }
}

const SWAP: &str = "Swap(bytes32,address,int128,int128,uint160,uint128,int24,uint24)";
const MODIFY: &str = "ModifyLiquidity(bytes32,address,int24,int24,int256,bytes32)";
const CONFIGURED: &str = "PoolConfigured(address,address,uint16,uint24,uint24,uint24)";
const REMOVED: &str = "PoolRemoved(address,address,int24,uint24)";
const CREATED: &str =
    "PoolCreated(address,(address,address,uint24,int24,address),uint24,uint24,uint24,uint24)";
const SWAP_FEE: &str =
    "ProtocolSwapFeeUpdated(address,(address,address,uint24,int24,address),uint256)";
const TAX_FEE: &str = "ProtocolTaxFeeUpdated(address,(address,address,uint24,int24,address),uint256)";
const JIT: &str = "JITTaxStatusUpdated(address,bool)";
const FLOOR: &str = "PriorityFeeTaxFloorUpdated(address,uint256)";
const BATCH: &str = "batchUpdatePools((address,address,uint24,uint24,uint24)[])";

fn swap_log(amount0: i128, amount1: i128, price: u128, liquidity: u128, tick: i32, fee: u32) -> RawLog {
    let data = (
        amount0,
        amount1,
        U160::from(price),
        liquidity,
        I24::try_from(tick).unwrap(),
        U24::from(fee),
    )
        .abi_encode();
    log(vec![topic_of(SWAP), word(1), address_topic(addr(7))], data)
}

fn key_tuple(key: &PoolKey) -> (RefAddress, RefAddress, U24, I24, RefAddress) {
    (
        reference(key.currency0),
        reference(key.currency1),
        U24::from(key.fee),
        I24::try_from(key.tick_spacing).unwrap(),
        reference(key.hooks),
    )
}

#[test]
fn event_topics_are_signature_hashes() {
    assert_eq!(event_topic(SWAP), topic_of(SWAP));
    assert_eq!(event_topic("WithdrawOnly()"), topic_of("WithdrawOnly()"));
    // the swap event of the pool manager, as the chain shows it
    assert_eq!(event_topic(SWAP).bytes[..4], [0x40, 0xe9, 0xce, 0xcb]);
    assert_eq!(event_topic(MODIFY).bytes[..4], [0xf2, 0x08, 0xf4, 0x91]);
}

#[test]
fn swap_decodes() {
    let ev = decode_swap(&swap_log(-1_000, 999, 79228162514264337593543950336, 5_000, -61, 3000))
        .unwrap();
    assert_eq!(ev.id, word(1));
    assert_eq!(ev.sender, addr(7));
    assert_eq!(ev.amount0, -1_000);
    assert_eq!(ev.amount1, 999);
    assert_eq!(ev.sqrt_price_x96, U256::from_u128(79228162514264337593543950336));
    assert_eq!(ev.liquidity, 5_000);
    assert_eq!(ev.tick, -61);
    assert_eq!(ev.fee, 3000);

    let extremes =
        decode_swap(&swap_log(i128::MIN, i128::MAX, u128::MAX, u128::MAX, -8388608, 0xff_ffff))
            .unwrap();
    assert_eq!(extremes.amount0, i128::MIN);
    assert_eq!(extremes.amount1, i128::MAX);
    assert_eq!(extremes.liquidity, u128::MAX);
    assert_eq!(extremes.tick, -8388608);
    assert_eq!(extremes.fee, 0xff_ffff);
    let top = decode_swap(&swap_log(0, 0, 1, 1, 8388607, 0)).unwrap();
    assert_eq!(top.tick, 8388607);
}

#[test]
fn swap_with_wrong_shape_is_rejected() {
    let good = swap_log(1, 2, 3, 4, 5, 6);
    assert!(decode_swap(&good).is_some());

    let mut wrong_topic = good.clone();
    wrong_topic.topics[0] = topic_of(MODIFY);
    assert!(decode_swap(&wrong_topic).is_none());

    let mut few_topics = good.clone();
    few_topics.topics.pop();
    assert!(decode_swap(&few_topics).is_none());

    let mut many_topics = good.clone();
    many_topics.topics.push(word(0));
    assert!(decode_swap(&many_topics).is_none());

    let mut short = good.clone();
    short.data.pop();
    assert!(decode_swap(&short).is_none());

    let mut long = good.clone();
    long.data.push(0);
    assert!(decode_swap(&long).is_none());

    let mut no_topics = good.clone();
    no_topics.topics.clear();
    assert!(decode_swap(&no_topics).is_none());
}

#[test]
fn swap_with_uncanonical_words_is_rejected() {
    let good = swap_log(1, -2, 3, 4, -5, 6);
    let flip = |offset: usize, value: u8| {
        let mut bad = good.clone();
        bad.data[offset] = value;
        bad
    };
    // amount0: a positive int128 with a set bit above bit 127
    assert!(decode_swap(&flip(15, 1)).is_none());
    // amount1: a negative int128 with a cleared sign-extension byte
    assert!(decode_swap(&flip(32, 0)).is_none());
    // price: a set bit above bit 159
    assert!(decode_swap(&flip(64 + 11, 1)).is_none());
    // liquidity: a set bit above bit 127
    assert!(decode_swap(&flip(96 + 15, 1)).is_none());
    // tick: -5 with a cleared sign-extension byte
    assert!(decode_swap(&flip(128 + 10, 0)).is_none());
    // tick: beyond 24 bits
    assert!(decode_swap(&flip(128 + 28, 0x7f)).is_none());
    // fee: beyond 24 bits
    assert!(decode_swap(&flip(160 + 28, 1)).is_none());
    // sender topic with dirty padding
    let mut dirty = good.clone();
    dirty.topics[2].bytes[0] = 1;
    assert!(decode_swap(&dirty).is_none());
}

#[test]
fn modify_liquidity_decodes() {
    let delta = alloy_primitives::I256::try_from(-123_456_789i64).unwrap();
    let salt = alloy_primitives::B256::from(word(9).bytes);
    let data = (I24::try_from(-120).unwrap(), I24::try_from(180).unwrap(), delta, salt).abi_encode();
    let ev = decode_modify_liquidity(&log(
        vec![topic_of(MODIFY), word(2), address_topic(addr(8))],
        data.clone(),
    ))
    .unwrap();
    assert_eq!(ev.id, word(2));
    assert_eq!(ev.sender, addr(8));
    assert_eq!(ev.tick_lower, -120);
    assert_eq!(ev.tick_upper, 180);
    assert_eq!(ev.liquidity_delta, I256::from_i128(-123_456_789));
    assert_eq!(ev.salt, word(9));
    // a delta beyond 128 bits is kept as it is
    let big = alloy_primitives::I256::MIN;
    let data = (I24::try_from(0).unwrap(), I24::try_from(1).unwrap(), big, salt).abi_encode();
    let ev =
        decode_modify_liquidity(&log(vec![topic_of(MODIFY), word(2), address_topic(addr(8))], data))
            .unwrap();
    assert_eq!(ev.liquidity_delta, I256::min_value());
    assert!(decode_modify_liquidity(&swap_log(1, 2, 3, 4, 5, 6)).is_none());
}

#[test]
fn controller_events_decode() {
    let data = (60u16, U24::from(500), U24::from(300), U24::from(200)).abi_encode();
    let configured = log(
        vec![topic_of(CONFIGURED), address_topic(addr(1)), address_topic(addr(2))],
        data,
    );
    let ev = decode_pool_configured(&configured).unwrap();
    assert_eq!((ev.asset0, ev.asset1), (addr(1), addr(2)));
    assert_eq!(ev.tick_spacing, 60);
    assert_eq!((ev.bundle_fee, ev.unlocked_fee, ev.protocol_unlocked_fee), (500, 300, 200));
    assert!(decode_pool_removed(&configured).is_none());

    let data = (I24::try_from(60).unwrap(), U24::from(500)).abi_encode();
    let removed =
        log(vec![topic_of(REMOVED), address_topic(addr(1)), address_topic(addr(2))], data);
    let ev = decode_pool_removed(&removed).unwrap();
    assert_eq!((ev.asset0, ev.asset1, ev.tick_spacing, ev.fee_in_e6), (addr(1), addr(2), 60, 500));
    assert!(decode_pool_configured(&removed).is_none());

    // a tick spacing beyond 16 bits is no uint16
    let mut wide = configured.clone();
    wide.data[29] = 1;
    assert!(decode_pool_configured(&wide).is_none());
}

#[test]
fn factory_events_decode() {
    let key = PoolKey::new(addr(1), addr(2), 0x800000, -10, addr(3));
    let data = (
        reference(addr(3)),
        key_tuple(&key),
        U24::from(11),
        U24::from(22),
        U24::from(33),
        U24::from(44),
    )
        .abi_encode();
    assert_eq!(data.len(), 320);
    let ev = decode_pool_created(&log(vec![topic_of(CREATED)], data)).unwrap();
    assert_eq!(ev.hook, addr(3));
    assert_eq!(ev.key, key);
    assert_eq!(ev.creator_swap_fee_e6, 11);
    assert_eq!(ev.creator_tax_fee_e6, 22);
    assert_eq!(ev.protocol_swap_fee_e6, 33);
    assert_eq!(ev.protocol_tax_fee_e6, 44);

    let data = (key_tuple(&key), alloy_primitives::U256::from(777)).abi_encode();
    let swap_fee = log(vec![topic_of(SWAP_FEE), address_topic(addr(3))], data.clone());
    let tax_fee = log(vec![topic_of(TAX_FEE), address_topic(addr(3))], data);
    let ev = decode_protocol_swap_fee_updated(&swap_fee).unwrap();
    assert_eq!((ev.hook, ev.key, ev.new_fee_e6), (addr(3), key, 777));
    assert!(decode_protocol_tax_fee_updated(&swap_fee).is_none());
    let ev = decode_protocol_tax_fee_updated(&tax_fee).unwrap();
    assert_eq!(ev.new_fee_e6, 777);
    assert!(decode_protocol_swap_fee_updated(&tax_fee).is_none());
    // a fee that does not fit in 32 bits is rejected
    let data = (key_tuple(&key), alloy_primitives::U256::from(1u64 << 32)).abi_encode();
    assert!(decode_protocol_swap_fee_updated(&log(
        vec![topic_of(SWAP_FEE), address_topic(addr(3))],
        data
    ))
    .is_none());

    let jit = log(vec![topic_of(JIT), address_topic(addr(3))], (true,).abi_encode());
    let ev = decode_jit_tax_status_updated(&jit).unwrap();
    assert_eq!((ev.hook, ev.new_jit_tax_enabled), (addr(3), true));
    let off = log(vec![topic_of(JIT), address_topic(addr(3))], (false,).abi_encode());
    assert!(!decode_jit_tax_status_updated(&off).unwrap().new_jit_tax_enabled);
    let mut two = jit.clone();
    two.data[31] = 2;
    assert!(decode_jit_tax_status_updated(&two).is_none());

    let floor = log(
        vec![topic_of(FLOOR), address_topic(addr(3))],
        (alloy_primitives::U256::from(u128::MAX),).abi_encode(),
    );
    let ev = decode_priority_fee_tax_floor_updated(&floor).unwrap();
    assert_eq!((ev.hook, ev.new_priority_fee_tax_floor), (addr(3), u128::MAX));
    let mut over = floor.clone();
    over.data[15] = 1;
    assert!(decode_priority_fee_tax_floor_updated(&over).is_none());

    assert!(is_withdraw_only(&log(vec![topic_of("WithdrawOnly()")], vec![])));
    assert!(!is_withdraw_only(&log(vec![topic_of("WithdrawOnly()")], vec![0; 32])));
    assert!(!is_withdraw_only(&jit));
}

fn batch_call(entries: &[(Address, Address, u32, u32, u32)]) -> Vec<u8> {
    let list: Vec<(RefAddress, RefAddress, U24, U24, U24)> = entries
        .iter()
        .map(|e| (reference(e.0), reference(e.1), U24::from(e.2), U24::from(e.3), U24::from(e.4)))
        .collect();
    let mut input = alloy_primitives::keccak256(BATCH.as_bytes())[..4].to_vec();
    input.extend((list,).abi_encode_params());
    input
}

#[test]
fn batch_update_call_decodes() {
    let input = batch_call(&[(addr(1), addr(2), 500, 300, 200), (addr(4), addr(3), 1, 2, 3)]);
    assert_eq!(input.len(), 4 + 64 + 2 * 160);
    let entries = decode_batch_update_pools(&input).unwrap();
    assert_eq!(entries.len(), 2);
    assert_eq!((entries[0].asset_a, entries[0].asset_b), (addr(1), addr(2)));
    assert_eq!(
        (entries[0].bundle_fee, entries[0].unlocked_fee, entries[0].protocol_unlocked_fee),
        (500, 300, 200)
    );
    assert_eq!((entries[1].asset_a, entries[1].asset_b), (addr(4), addr(3)));
    assert_eq!(entries[1].protocol_unlocked_fee, 3);

    assert_eq!(decode_batch_update_pools(&batch_call(&[])).unwrap().len(), 0);

    let mut wrong_selector = input.clone();
    wrong_selector[0] ^= 1;
    assert!(decode_batch_update_pools(&wrong_selector).is_none());
    let mut wrong_offset = input.clone();
    wrong_offset[4 + 31] = 0x40;
    assert!(decode_batch_update_pools(&wrong_offset).is_none());
    let mut wrong_count = input.clone();
    wrong_count[4 + 63] = 3;
    assert!(decode_batch_update_pools(&wrong_count).is_none());
    let mut short = input.clone();
    short.pop();
    assert!(decode_batch_update_pools(&short).is_none());
    let mut dirty_fee = input.clone();
    dirty_fee[4 + 64 + 64] = 1;
    assert!(decode_batch_update_pools(&dirty_fee).is_none());
    assert!(decode_batch_update_pools(&[]).is_none());
    assert!(decode_batch_update_pools(&input[..4]).is_none());
}
