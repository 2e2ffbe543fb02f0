//! Event logs and call data of the contracts that the pipeline follows,
//! decoded byte for byte. A log decodes only if its first topic is the hash
//! of the event's signature, it has the topics and the data length of the
//! event, and every word is the canonical encoding of a value of its type.

use vstd::prelude::*;
use vstd::string::StringSliceAdditionalSpecFns;
use crate::abi::{
    be_nat, decode_address, decode_i256, decode_int, decode_u256, decode_uint, decode_word,
    spec_decode_address, spec_decode_int, spec_decode_uint,
};
use crate::pool_key::PoolKey;
use crate::primitives::{Address, B256, hash, hash_of};
use crate::u256::{I256, U256};

verus! {

/// A log as the node reports it.
#[derive(Debug, Clone)]
pub struct RawLog {
    /// The contract that emitted the log.
    pub address: Address,
    pub topics: Vec<B256>,
    pub data: Vec<u8>,
    pub block_number: u64,
    pub transaction_index: u64,
    pub log_index: u64,
}

/// The first topic of the logs of an event: the hash of its signature.
pub open spec fn spec_event_topic(signature: &str) -> B256 {
    hash_of(signature.spec_bytes())
}

/// The first topic of the logs of an event.
pub fn event_topic(signature: &str) -> (topic: B256)
    ensures
        topic == spec_event_topic(signature),
{
    hash(signature.as_bytes())
}

/// Word `i` of a byte string.
pub open spec fn word(data: Seq<u8>, i: int) -> Seq<u8> {
    data.subrange(32 * i, 32 * i + 32)
}

/// True when a log has the first topic, the number of topics and the data
/// length of an event.
pub open spec fn has_shape(log: RawLog, signature: &str, topics: nat, words: nat) -> bool {
    &&& log.topics@.len() == topics
    &&& topics >= 1
    &&& log.topics@[0] == spec_event_topic(signature)
    &&& log.data@.len() == 32 * words
}

/// True when a log has the shape of an event.
pub fn check_shape(log: &RawLog, signature: &str, topics: usize, words: usize) -> (r: bool)
    requires
        words <= 64,
    ensures
        r == has_shape(*log, signature, topics as nat, words as nat),
{
    if topics < 1 || log.topics.len() != topics || log.data.len() != 32 * words {
        return false;
    }
    let expected = event_topic(signature);
    log.topics[0].same(&expected)
}

/// A swap on the pool manager.
#[derive(Debug, Clone, Copy, PartialEq, Eq)]
pub struct SwapLog {
    pub id: B256,
    pub sender: Address,
    pub amount0: i128,
    pub amount1: i128,
    pub sqrt_price_x96: U256,
    pub liquidity: u128,
    pub tick: i32,
    pub fee: u32,
}

/// A liquidity modification on the pool manager.
#[derive(Debug, Clone, Copy, PartialEq, Eq)]
pub struct ModifyLiquidityLog {
    pub id: B256,
    pub sender: Address,
    pub tick_lower: i32,
    pub tick_upper: i32,
    pub liquidity_delta: I256,
    pub salt: B256,
}

/// The L1 controller configured a pool.
#[derive(Debug, Clone, Copy, PartialEq, Eq)]
pub struct PoolConfiguredLog {
    pub asset0: Address,
    pub asset1: Address,
    pub tick_spacing: u16,
    pub bundle_fee: u32,
    pub unlocked_fee: u32,
    pub protocol_unlocked_fee: u32,
}

/// The L1 controller removed a pool.
#[derive(Debug, Clone, Copy, PartialEq, Eq)]
pub struct PoolRemovedLog {
    pub asset0: Address,
    pub asset1: Address,
    pub tick_spacing: i32,
    pub fee_in_e6: u32,
}

/// One entry of a call of `batchUpdatePools` on the L1 controller.
#[derive(Debug, Clone, Copy, PartialEq, Eq)]
pub struct BatchPoolUpdate {
    pub asset_a: Address,
    pub asset_b: Address,
    pub bundle_fee: u32,
    pub unlocked_fee: u32,
    pub protocol_unlocked_fee: u32,
}

/// The L2 factory created a pool.
#[derive(Debug, Clone, Copy, PartialEq, Eq)]
pub struct PoolCreatedLog {
    pub hook: Address,
    pub key: PoolKey,
    pub creator_swap_fee_e6: u32,
    pub creator_tax_fee_e6: u32,
    pub protocol_swap_fee_e6: u32,
    pub protocol_tax_fee_e6: u32,
}

/// The L2 factory changed a protocol fee of a pool.
#[derive(Debug, Clone, Copy, PartialEq, Eq)]
pub struct ProtocolFeeUpdatedLog {
    pub hook: Address,
    pub key: PoolKey,
    pub new_fee_e6: u32,
}

/// The L2 factory switched the JIT tax of a hook.
#[derive(Debug, Clone, Copy, PartialEq, Eq)]
pub struct JitTaxStatusUpdatedLog {
    pub hook: Address,
    pub new_jit_tax_enabled: bool,
}

/// The L2 factory changed the priority-fee floor of a hook.
#[derive(Debug, Clone, Copy, PartialEq, Eq)]
pub struct PriorityFeeTaxFloorUpdatedLog {
    pub hook: Address,
    pub new_priority_fee_tax_floor: u128,
}

/// The pool key in the five words from word `i` on, where each of them is
/// canonical.
pub open spec fn pool_key_decodes(data: Seq<u8>, i: int) -> bool {
    &&& spec_decode_address(word(data, i)) is Some
    &&& spec_decode_address(word(data, i + 1)) is Some
    &&& spec_decode_uint(word(data, i + 2), 0x100_0000) is Some
    &&& spec_decode_int(word(data, i + 3), 0x80_0000) is Some
    &&& spec_decode_address(word(data, i + 4)) is Some
}

/// True when `key` is the pool key in the five words from word `i` on.
pub open spec fn pool_key_is(data: Seq<u8>, i: int, key: PoolKey) -> bool {
    &&& spec_decode_address(word(data, i)) == Some(key.currency0@)
    &&& spec_decode_address(word(data, i + 1)) == Some(key.currency1@)
    &&& spec_decode_uint(word(data, i + 2), 0x100_0000) == Some(key.fee as nat)
    &&& spec_decode_int(word(data, i + 3), 0x80_0000) == Some(key.tick_spacing as int)
    &&& spec_decode_address(word(data, i + 4)) == Some(key.hooks@)
}

/// Decodes the pool key in the five words from word `i` on.
pub fn decode_pool_key(data: &[u8], i: usize) -> (r: Option<PoolKey>)
    requires
        32 * (i + 5) <= data.len(),
        i <= 64,
    ensures
        r is Some <==> pool_key_decodes(data@, i as int),
        r is Some ==> pool_key_is(data@, i as int, r->Some_0),
{
    let currency0 = match decode_address(data, 32 * i) {
        Some(a) => a,
        None => {
            return None;
        },
    };
    let currency1 = match decode_address(data, 32 * (i + 1)) {
        Some(a) => a,
        None => {
            return None;
        },
    };
    let fee = match decode_uint(data, 32 * (i + 2), 0xff_ffff) {
        Some(v) => v,
        None => {
            return None;
        },
    };
    let tick_spacing = match decode_int(data, 32 * (i + 3), 0x80_0000) {
        Some(v) => v,
        None => {
            return None;
        },
    };
    let hooks = match decode_address(data, 32 * (i + 4)) {
        Some(a) => a,
        None => {
            return None;
        },
    };
    Some(
        PoolKey {
            currency0,
            currency1,
            fee: fee as u32,
            tick_spacing: tick_spacing as i32,
            hooks,
        },
    )
}

/// The signature of the swap event of the pool manager.
pub open spec fn swap_signature() -> &'static str {
    "Swap(bytes32,address,int128,int128,uint160,uint128,int24,uint24)"
}

/// True when a log decodes as a swap.
pub open spec fn swap_decodes(log: RawLog) -> bool {
    &&& has_shape(log, swap_signature(), 3, 6)
    &&& spec_decode_address(log.topics@[2]@) is Some
    &&& spec_decode_int(word(log.data@, 0), 0x8000_0000_0000_0000_0000_0000_0000_0000) is Some
    &&& spec_decode_int(word(log.data@, 1), 0x8000_0000_0000_0000_0000_0000_0000_0000) is Some
    &&& spec_decode_uint(word(log.data@, 2), 1461501637330902918203684832716283019655932542976nat)
        is Some
    &&& spec_decode_uint(word(log.data@, 3), 340282366920938463463374607431768211456nat) is Some
    &&& spec_decode_int(word(log.data@, 4), 0x80_0000) is Some
    &&& spec_decode_uint(word(log.data@, 5), 0x100_0000) is Some
}

/// True when `ev` is what a log says as a swap.
pub open spec fn swap_is(log: RawLog, ev: SwapLog) -> bool {
    &&& ev.id == log.topics@[1]
    &&& spec_decode_address(log.topics@[2]@) == Some(ev.sender@)
    &&& spec_decode_int(word(log.data@, 0), 0x8000_0000_0000_0000_0000_0000_0000_0000) == Some(
        ev.amount0 as int,
    )
    &&& spec_decode_int(word(log.data@, 1), 0x8000_0000_0000_0000_0000_0000_0000_0000) == Some(
        ev.amount1 as int,
    )
    &&& ev.sqrt_price_x96@ == be_nat(word(log.data@, 2))
    &&& ev.liquidity as nat == be_nat(word(log.data@, 3))
    &&& spec_decode_int(word(log.data@, 4), 0x80_0000) == Some(ev.tick as int)
    &&& spec_decode_uint(word(log.data@, 5), 0x100_0000) == Some(ev.fee as nat)
}

/// Decodes a swap of the pool manager.
fn decode_swap_inner(log: &RawLog) -> (r: Option<SwapLog>)
    ensures
        r is Some <==> swap_decodes(*log),
        r is Some ==> swap_is(*log, r->Some_0),
{
    if !check_shape(log, "Swap(bytes32,address,int128,int128,uint160,uint128,int24,uint24)", 3, 6) {
        return None;
    }
    let data = log.data.as_slice();
    let sender = match decode_address(log.topics[2].bytes.as_slice(), 0) {
        Some(a) => a,
        None => {
            return None;
        },
    };
    proof {
        assert(log.topics@[2]@.subrange(0, 32) =~= log.topics@[2]@);
    }
    let amount0 = match decode_int(data, 0, 0x8000_0000_0000_0000_0000_0000_0000_0000) {
        Some(v) => v,
        None => {
            return None;
        },
    };
    let amount1 = match decode_int(data, 32, 0x8000_0000_0000_0000_0000_0000_0000_0000) {
        Some(v) => v,
        None => {
            return None;
        },
    };
    let sqrt_price_x96 = decode_u256(data, 64);
    if sqrt_price_x96.l3 != 0 || sqrt_price_x96.l2 > 0xffff_ffff {
        proof {
            U256::lemma_value(sqrt_price_x96);
        }
        return None;
    }
    proof {
        U256::lemma_value(sqrt_price_x96);
    }
    let liquidity = match decode_uint(data, 96, 0xffff_ffff_ffff_ffff_ffff_ffff_ffff_ffff) {
        Some(v) => v,
        None => {
            return None;
        },
    };
    let tick = match decode_int(data, 128, 0x80_0000) {
        Some(v) => v,
        None => {
            return None;
        },
    };
    let fee = match decode_uint(data, 160, 0xff_ffff) {
        Some(v) => v,
        None => {
            return None;
        },
    };
    Some(
        SwapLog {
            id: log.topics[1],
            sender,
            amount0,
            amount1,
            sqrt_price_x96,
            liquidity,
            tick: tick as i32,
            fee: fee as u32,
        },
    )
}

/// The signature of the liquidity event of the pool manager.
pub open spec fn modify_liquidity_signature() -> &'static str {
    "ModifyLiquidity(bytes32,address,int24,int24,int256,bytes32)"
}

/// The first topic of the swap logs of the pool manager.
pub fn swap_topic() -> (topic: B256)
    ensures
        topic == spec_event_topic(swap_signature()),
{
    event_topic("Swap(bytes32,address,int128,int128,uint160,uint128,int24,uint24)")
}

/// The first topic of the liquidity logs of the pool manager.
pub fn modify_liquidity_topic() -> (topic: B256)
    ensures
        topic == spec_event_topic(modify_liquidity_signature()),
{
    event_topic("ModifyLiquidity(bytes32,address,int24,int24,int256,bytes32)")
}

/// True when a log decodes as a liquidity modification.
pub open spec fn modify_liquidity_decodes(log: RawLog) -> bool {
    &&& has_shape(log, modify_liquidity_signature(), 3, 4)
    &&& spec_decode_address(log.topics@[2]@) is Some
    &&& spec_decode_int(word(log.data@, 0), 0x80_0000) is Some
    &&& spec_decode_int(word(log.data@, 1), 0x80_0000) is Some
}

/// True when `ev` is what a log says as a liquidity modification.
pub open spec fn modify_liquidity_is(log: RawLog, ev: ModifyLiquidityLog) -> bool {
    &&& ev.id == log.topics@[1]
    &&& spec_decode_address(log.topics@[2]@) == Some(ev.sender@)
    &&& spec_decode_int(word(log.data@, 0), 0x80_0000) == Some(ev.tick_lower as int)
    &&& spec_decode_int(word(log.data@, 1), 0x80_0000) == Some(ev.tick_upper as int)
    &&& ev.liquidity_delta.raw@ == be_nat(word(log.data@, 2))
    &&& ev.salt@ == word(log.data@, 3)
}

/// Decodes a liquidity modification of the pool manager.
fn decode_modify_liquidity_inner(log: &RawLog) -> (r: Option<ModifyLiquidityLog>)
    ensures
        r is Some <==> modify_liquidity_decodes(*log),
        r is Some ==> modify_liquidity_is(*log, r->Some_0),
{
    if !check_shape(log, "ModifyLiquidity(bytes32,address,int24,int24,int256,bytes32)", 3, 4) {
        return None;
    }
    let data = log.data.as_slice();
    let sender = match decode_address(log.topics[2].bytes.as_slice(), 0) {
        Some(a) => a,
        None => {
            return None;
        },
    };
    proof {
        assert(log.topics@[2]@.subrange(0, 32) =~= log.topics@[2]@);
    }
    let tick_lower = match decode_int(data, 0, 0x80_0000) {
        Some(v) => v,
        None => {
            return None;
        },
    };
    let tick_upper = match decode_int(data, 32, 0x80_0000) {
        Some(v) => v,
        None => {
            return None;
        },
    };
    let liquidity_delta = decode_i256(data, 64);
    let salt = decode_word(data, 96);
    Some(
        ModifyLiquidityLog {
            id: log.topics[1],
            sender,
            tick_lower: tick_lower as i32,
            tick_upper: tick_upper as i32,
            liquidity_delta,
            salt,
        },
    )
}

/// The signature of the event by which the L1 controller configures a pool.
pub open spec fn pool_configured_signature() -> &'static str {
    "PoolConfigured(address,address,uint16,uint24,uint24,uint24)"
}

/// True when a log decodes as the configuration of a pool.
pub open spec fn pool_configured_decodes(log: RawLog) -> bool {
    &&& has_shape(log, pool_configured_signature(), 3, 4)
    &&& spec_decode_address(log.topics@[1]@) is Some
    &&& spec_decode_address(log.topics@[2]@) is Some
    &&& spec_decode_uint(word(log.data@, 0), 0x1_0000) is Some
    &&& spec_decode_uint(word(log.data@, 1), 0x100_0000) is Some
    &&& spec_decode_uint(word(log.data@, 2), 0x100_0000) is Some
    &&& spec_decode_uint(word(log.data@, 3), 0x100_0000) is Some
}

/// True when `ev` is what a log says as the configuration of a pool.
pub open spec fn pool_configured_is(log: RawLog, ev: PoolConfiguredLog) -> bool {
    &&& spec_decode_address(log.topics@[1]@) == Some(ev.asset0@)
    &&& spec_decode_address(log.topics@[2]@) == Some(ev.asset1@)
    &&& spec_decode_uint(word(log.data@, 0), 0x1_0000) == Some(ev.tick_spacing as nat)
    &&& spec_decode_uint(word(log.data@, 1), 0x100_0000) == Some(ev.bundle_fee as nat)
    &&& spec_decode_uint(word(log.data@, 2), 0x100_0000) == Some(ev.unlocked_fee as nat)
    &&& spec_decode_uint(word(log.data@, 3), 0x100_0000) == Some(ev.protocol_unlocked_fee as nat)
}

/// Decodes the configuration of a pool by the L1 controller.
fn decode_pool_configured_inner(log: &RawLog) -> (r: Option<PoolConfiguredLog>)
    ensures
        r is Some <==> pool_configured_decodes(*log),
        r is Some ==> pool_configured_is(*log, r->Some_0),
{
    if !check_shape(log, "PoolConfigured(address,address,uint16,uint24,uint24,uint24)", 3, 4) {
        return None;
    }
    let data = log.data.as_slice();
    proof {
        assert(log.topics@[1]@.subrange(0, 32) =~= log.topics@[1]@);
        assert(log.topics@[2]@.subrange(0, 32) =~= log.topics@[2]@);
    }
    let asset0 = match decode_address(log.topics[1].bytes.as_slice(), 0) {
        Some(v) => v,
        None => {
            return None;
        },
    };
    let asset1 = match decode_address(log.topics[2].bytes.as_slice(), 0) {
        Some(v) => v,
        None => {
            return None;
        },
    };
    let tick_spacing = match decode_uint(data, 0, 0xffff) {
        Some(v) => v,
        None => {
            return None;
        },
    };
    let bundle_fee = match decode_uint(data, 32, 0xff_ffff) {
        Some(v) => v,
        None => {
            return None;
        },
    };
    let unlocked_fee = match decode_uint(data, 64, 0xff_ffff) {
        Some(v) => v,
        None => {
            return None;
        },
    };
    let protocol_unlocked_fee = match decode_uint(data, 96, 0xff_ffff) {
        Some(v) => v,
        None => {
            return None;
        },
    };
    Some(
        PoolConfiguredLog {
            asset0,
            asset1,
            tick_spacing: tick_spacing as u16,
            bundle_fee: bundle_fee as u32,
            unlocked_fee: unlocked_fee as u32,
            protocol_unlocked_fee: protocol_unlocked_fee as u32,
        },
    )
}

/// The signature of the event by which the L1 controller removes a pool.
pub open spec fn pool_removed_signature() -> &'static str {
    "PoolRemoved(address,address,int24,uint24)"
}

/// True when a log decodes as the removal of a pool.
pub open spec fn pool_removed_decodes(log: RawLog) -> bool {
    &&& has_shape(log, pool_removed_signature(), 3, 2)
    &&& spec_decode_address(log.topics@[1]@) is Some
    &&& spec_decode_address(log.topics@[2]@) is Some
    &&& spec_decode_int(word(log.data@, 0), 0x80_0000) is Some
    &&& spec_decode_uint(word(log.data@, 1), 0x100_0000) is Some
}

/// True when `ev` is what a log says as the removal of a pool.
pub open spec fn pool_removed_is(log: RawLog, ev: PoolRemovedLog) -> bool {
    &&& spec_decode_address(log.topics@[1]@) == Some(ev.asset0@)
    &&& spec_decode_address(log.topics@[2]@) == Some(ev.asset1@)
    &&& spec_decode_int(word(log.data@, 0), 0x80_0000) == Some(ev.tick_spacing as int)
    &&& spec_decode_uint(word(log.data@, 1), 0x100_0000) == Some(ev.fee_in_e6 as nat)
}

/// Decodes the removal of a pool by the L1 controller.
fn decode_pool_removed_inner(log: &RawLog) -> (r: Option<PoolRemovedLog>)
    ensures
        r is Some <==> pool_removed_decodes(*log),
        r is Some ==> pool_removed_is(*log, r->Some_0),
{
    if !check_shape(log, "PoolRemoved(address,address,int24,uint24)", 3, 2) {
        return None;
    }
    let data = log.data.as_slice();
    proof {
        assert(log.topics@[1]@.subrange(0, 32) =~= log.topics@[1]@);
        assert(log.topics@[2]@.subrange(0, 32) =~= log.topics@[2]@);
    }
    let asset0 = match decode_address(log.topics[1].bytes.as_slice(), 0) {
        Some(v) => v,
        None => {
            return None;
        },
    };
    let asset1 = match decode_address(log.topics[2].bytes.as_slice(), 0) {
        Some(v) => v,
        None => {
            return None;
        },
    };
    let tick_spacing = match decode_int(data, 0, 0x80_0000) {
        Some(v) => v,
        None => {
            return None;
        },
    };
    let fee_in_e6 = match decode_uint(data, 32, 0xff_ffff) {
        Some(v) => v,
        None => {
            return None;
        },
    };
    Some(
        PoolRemovedLog {
            asset0,
            asset1,
            tick_spacing: tick_spacing as i32,
            fee_in_e6: fee_in_e6 as u32,
        },
    )
}

/// The signature of the event by which the L2 factory creates a pool.
pub open spec fn pool_created_signature() -> &'static str {
    "PoolCreated(address,(address,address,uint24,int24,address),uint24,uint24,uint24,uint24)"
}

/// True when a log decodes as the creation of a pool.
pub open spec fn pool_created_decodes(log: RawLog) -> bool {
    &&& has_shape(log, pool_created_signature(), 1, 10)
    &&& spec_decode_address(word(log.data@, 0)) is Some
    &&& pool_key_decodes(log.data@, 1)
    &&& spec_decode_uint(word(log.data@, 6), 0x100_0000) is Some
    &&& spec_decode_uint(word(log.data@, 7), 0x100_0000) is Some
    &&& spec_decode_uint(word(log.data@, 8), 0x100_0000) is Some
    &&& spec_decode_uint(word(log.data@, 9), 0x100_0000) is Some
}

/// True when `ev` is what a log says as the creation of a pool.
pub open spec fn pool_created_is(log: RawLog, ev: PoolCreatedLog) -> bool {
    &&& spec_decode_address(word(log.data@, 0)) == Some(ev.hook@)
    &&& pool_key_is(log.data@, 1, ev.key)
    &&& spec_decode_uint(word(log.data@, 6), 0x100_0000) == Some(ev.creator_swap_fee_e6 as nat)
    &&& spec_decode_uint(word(log.data@, 7), 0x100_0000) == Some(ev.creator_tax_fee_e6 as nat)
    &&& spec_decode_uint(word(log.data@, 8), 0x100_0000) == Some(ev.protocol_swap_fee_e6 as nat)
    &&& spec_decode_uint(word(log.data@, 9), 0x100_0000) == Some(ev.protocol_tax_fee_e6 as nat)
}

/// Decodes the creation of a pool by the L2 factory.
fn decode_pool_created_inner(log: &RawLog) -> (r: Option<PoolCreatedLog>)
    ensures
        r is Some <==> pool_created_decodes(*log),
        r is Some ==> pool_created_is(*log, r->Some_0),
{
    if !check_shape(
        log,
        "PoolCreated(address,(address,address,uint24,int24,address),uint24,uint24,uint24,uint24)",
        1,
        10,
    ) {
        return None;
    }
    let data = log.data.as_slice();
    let hook = match decode_address(data, 0) {
        Some(v) => v,
        None => {
            return None;
        },
    };
    let key = match decode_pool_key(data, 1) {
        Some(v) => v,
        None => {
            return None;
        },
    };
    let creator_swap_fee_e6 = match decode_uint(data, 192, 0xff_ffff) {
        Some(v) => v,
        None => {
            return None;
        },
    };
    let creator_tax_fee_e6 = match decode_uint(data, 224, 0xff_ffff) {
        Some(v) => v,
        None => {
            return None;
        },
    };
    let protocol_swap_fee_e6 = match decode_uint(data, 256, 0xff_ffff) {
        Some(v) => v,
        None => {
            return None;
        },
    };
    let protocol_tax_fee_e6 = match decode_uint(data, 288, 0xff_ffff) {
        Some(v) => v,
        None => {
            return None;
        },
    };
    Some(
        PoolCreatedLog {
            hook,
            key,
            creator_swap_fee_e6: creator_swap_fee_e6 as u32,
            creator_tax_fee_e6: creator_tax_fee_e6 as u32,
            protocol_swap_fee_e6: protocol_swap_fee_e6 as u32,
            protocol_tax_fee_e6: protocol_tax_fee_e6 as u32,
        },
    )
}

/// The signature of the event by which the L2 factory changes the protocol
/// swap fee of a pool.
pub open spec fn protocol_swap_fee_signature() -> &'static str {
    "ProtocolSwapFeeUpdated(address,(address,address,uint24,int24,address),uint256)"
}

/// The signature of the event by which the L2 factory changes the protocol
/// tax fee of a pool.
pub open spec fn protocol_tax_fee_signature() -> &'static str {
    "ProtocolTaxFeeUpdated(address,(address,address,uint24,int24,address),uint256)"
}

/// True when a log decodes as the change of a protocol fee under the given
/// signature. The new fee has to fit in 32 bits.
pub open spec fn protocol_fee_decodes(log: RawLog, signature: &str) -> bool {
    &&& has_shape(log, signature, 2, 6)
    &&& spec_decode_address(log.topics@[1]@) is Some
    &&& pool_key_decodes(log.data@, 0)
    &&& spec_decode_uint(word(log.data@, 5), 0x1_0000_0000) is Some
}

/// True when `ev` is what a log says as the change of a protocol fee.
pub open spec fn protocol_fee_is(log: RawLog, ev: ProtocolFeeUpdatedLog) -> bool {
    &&& spec_decode_address(log.topics@[1]@) == Some(ev.hook@)
    &&& pool_key_is(log.data@, 0, ev.key)
    &&& spec_decode_uint(word(log.data@, 5), 0x1_0000_0000) == Some(ev.new_fee_e6 as nat)
}

/// Decodes the change of a protocol fee under the given signature.
fn decode_protocol_fee(log: &RawLog, signature: &str) -> (r: Option<ProtocolFeeUpdatedLog>)
    ensures
        r is Some <==> protocol_fee_decodes(*log, signature),
        r is Some ==> protocol_fee_is(*log, r->Some_0),
{
    if !check_shape(log, signature, 2, 6) {
        return None;
    }
    let data = log.data.as_slice();
    proof {
        assert(log.topics@[1]@.subrange(0, 32) =~= log.topics@[1]@);
    }
    let hook = match decode_address(log.topics[1].bytes.as_slice(), 0) {
        Some(v) => v,
        None => {
            return None;
        },
    };
    let key = match decode_pool_key(data, 0) {
        Some(v) => v,
        None => {
            return None;
        },
    };
    let new_fee_e6 = match decode_uint(data, 160, 0xffff_ffff) {
        Some(v) => v,
        None => {
            return None;
        },
    };
    Some(ProtocolFeeUpdatedLog { hook, key, new_fee_e6: new_fee_e6 as u32 })
}

/// Decodes the change of the protocol swap fee of a pool by the L2 factory.
pub fn decode_protocol_swap_fee_updated(log: &RawLog) -> (r: Option<ProtocolFeeUpdatedLog>)
    ensures
        r == spec_decode_protocol_fee(*log, protocol_swap_fee_signature()),
        r is Some <==> protocol_fee_decodes(*log, protocol_swap_fee_signature()),
        r is Some ==> protocol_fee_is(*log, r->Some_0),
{
    let r = decode_protocol_fee(
        log,
        "ProtocolSwapFeeUpdated(address,(address,address,uint24,int24,address),uint256)",
    );
    proof {
        match r {
            Some(found) => {
                let chosen = choose|ev: ProtocolFeeUpdatedLog| protocol_fee_is(*log, ev);
                lemma_protocol_fee_unique(*log, found, chosen);
            },
            None => {},
        }
    }
    r
}

/// Decodes the change of the protocol tax fee of a pool by the L2 factory.
pub fn decode_protocol_tax_fee_updated(log: &RawLog) -> (r: Option<ProtocolFeeUpdatedLog>)
    ensures
        r == spec_decode_protocol_fee(*log, protocol_tax_fee_signature()),
        r is Some <==> protocol_fee_decodes(*log, protocol_tax_fee_signature()),
        r is Some ==> protocol_fee_is(*log, r->Some_0),
{
    let r = decode_protocol_fee(
        log,
        "ProtocolTaxFeeUpdated(address,(address,address,uint24,int24,address),uint256)",
    );
    proof {
        match r {
            Some(found) => {
                let chosen = choose|ev: ProtocolFeeUpdatedLog| protocol_fee_is(*log, ev);
                lemma_protocol_fee_unique(*log, found, chosen);
            },
            None => {},
        }
    }
    r
}

/// The signature of the event by which the L2 factory switches the JIT tax
/// of a hook.
pub open spec fn jit_tax_signature() -> &'static str {
    "JITTaxStatusUpdated(address,bool)"
}

/// True when a log decodes as a switch of the JIT tax.
pub open spec fn jit_tax_decodes(log: RawLog) -> bool {
    &&& has_shape(log, jit_tax_signature(), 2, 1)
    &&& spec_decode_address(log.topics@[1]@) is Some
    &&& spec_decode_uint(word(log.data@, 0), 2) is Some
}

/// True when `ev` is what a log says as a switch of the JIT tax.
pub open spec fn jit_tax_is(log: RawLog, ev: JitTaxStatusUpdatedLog) -> bool {
    &&& spec_decode_address(log.topics@[1]@) == Some(ev.hook@)
    &&& spec_decode_uint(word(log.data@, 0), 2) == Some(
        if ev.new_jit_tax_enabled {
            1nat
        } else {
            0nat
        },
    )
}

/// Decodes a switch of the JIT tax of a hook by the L2 factory.
fn decode_jit_tax_status_updated_inner(log: &RawLog) -> (r: Option<JitTaxStatusUpdatedLog>)
    ensures
        r is Some <==> jit_tax_decodes(*log),
        r is Some ==> jit_tax_is(*log, r->Some_0),
{
    if !check_shape(log, "JITTaxStatusUpdated(address,bool)", 2, 1) {
        return None;
    }
    let data = log.data.as_slice();
    proof {
        assert(log.topics@[1]@.subrange(0, 32) =~= log.topics@[1]@);
    }
    let hook = match decode_address(log.topics[1].bytes.as_slice(), 0) {
        Some(v) => v,
        None => {
            return None;
        },
    };
    let flag = match decode_uint(data, 0, 1) {
        Some(v) => v,
        None => {
            return None;
        },
    };
    Some(JitTaxStatusUpdatedLog { hook, new_jit_tax_enabled: flag == 1 })
}

/// The signature of the event by which the L2 factory changes the
/// priority-fee floor of a hook.
pub open spec fn priority_floor_signature() -> &'static str {
    "PriorityFeeTaxFloorUpdated(address,uint256)"
}

/// True when a log decodes as a change of the priority-fee floor. The new
/// floor has to fit in 128 bits.
pub open spec fn priority_floor_decodes(log: RawLog) -> bool {
    &&& has_shape(log, priority_floor_signature(), 2, 1)
    &&& spec_decode_address(log.topics@[1]@) is Some
    &&& spec_decode_uint(word(log.data@, 0), 340282366920938463463374607431768211456nat) is Some
}

/// True when `ev` is what a log says as a change of the priority-fee floor.
pub open spec fn priority_floor_is(log: RawLog, ev: PriorityFeeTaxFloorUpdatedLog) -> bool {
    &&& spec_decode_address(log.topics@[1]@) == Some(ev.hook@)
    &&& spec_decode_uint(word(log.data@, 0), 340282366920938463463374607431768211456nat) == Some(
        ev.new_priority_fee_tax_floor as nat,
    )
}

/// Decodes a change of the priority-fee floor of a hook by the L2 factory.
fn decode_priority_fee_tax_floor_updated_inner(log: &RawLog) -> (r: Option<
    PriorityFeeTaxFloorUpdatedLog,
>)
    ensures
        r is Some <==> priority_floor_decodes(*log),
        r is Some ==> priority_floor_is(*log, r->Some_0),
{
    if !check_shape(log, "PriorityFeeTaxFloorUpdated(address,uint256)", 2, 1) {
        return None;
    }
    let data = log.data.as_slice();
    proof {
        assert(log.topics@[1]@.subrange(0, 32) =~= log.topics@[1]@);
    }
    let hook = match decode_address(log.topics[1].bytes.as_slice(), 0) {
        Some(v) => v,
        None => {
            return None;
        },
    };
    let floor = match decode_uint(data, 0, 0xffff_ffff_ffff_ffff_ffff_ffff_ffff_ffff) {
        Some(v) => v,
        None => {
            return None;
        },
    };
    Some(PriorityFeeTaxFloorUpdatedLog { hook, new_priority_fee_tax_floor: floor })
}

/// The signature of the event by which the L2 factory goes withdraw-only.
pub open spec fn withdraw_only_signature() -> &'static str {
    "WithdrawOnly()"
}

/// True when a log is the withdraw-only event of the L2 factory.
pub fn is_withdraw_only(log: &RawLog) -> (r: bool)
    ensures
        r == has_shape(*log, withdraw_only_signature(), 1, 0),
{
    check_shape(log, "WithdrawOnly()", 1, 0)
}

/// The signature of the call by which the L1 controller changes the fees of
/// a list of pools.
pub open spec fn batch_update_signature() -> &'static str {
    "batchUpdatePools((address,address,uint24,uint24,uint24)[])"
}

/// The arguments of a call: its input without the four bytes of the selector.
pub open spec fn call_arguments(input: Seq<u8>) -> Seq<u8> {
    input.subrange(4, input.len() as int)
}

/// The number of entries of a call of `batchUpdatePools`: the input starts
/// with the selector of the function, the array starts right after its
/// offset word, and the input is as long as the array says.
pub open spec fn batch_call_count(input: Seq<u8>) -> Option<nat> {
    let args = call_arguments(input);
    if input.len() >= 68 && input.subrange(0, 4) == spec_event_topic(
        batch_update_signature(),
    )@.subrange(0, 4) && be_nat(word(args, 0)) == 32 && input.len() == 68 + 160 * be_nat(
        word(args, 1),
    ) {
        Some(be_nat(word(args, 1)))
    } else {
        None
    }
}

/// True when the five words from word `w` on are a canonical entry.
pub open spec fn batch_entry_decodes(args: Seq<u8>, w: int) -> bool {
    &&& spec_decode_address(word(args, w)) is Some
    &&& spec_decode_address(word(args, w + 1)) is Some
    &&& spec_decode_uint(word(args, w + 2), 0x100_0000) is Some
    &&& spec_decode_uint(word(args, w + 3), 0x100_0000) is Some
    &&& spec_decode_uint(word(args, w + 4), 0x100_0000) is Some
}

/// True when `entry` is the entry in the five words from word `w` on.
pub open spec fn batch_entry_is(args: Seq<u8>, w: int, entry: BatchPoolUpdate) -> bool {
    &&& spec_decode_address(word(args, w)) == Some(entry.asset_a@)
    &&& spec_decode_address(word(args, w + 1)) == Some(entry.asset_b@)
    &&& spec_decode_uint(word(args, w + 2), 0x100_0000) == Some(entry.bundle_fee as nat)
    &&& spec_decode_uint(word(args, w + 3), 0x100_0000) == Some(entry.unlocked_fee as nat)
    &&& spec_decode_uint(word(args, w + 4), 0x100_0000) == Some(entry.protocol_unlocked_fee as nat)
}

/// True when the input of a transaction decodes as a call of
/// `batchUpdatePools`.
pub open spec fn batch_call_decodes(input: Seq<u8>) -> bool {
    &&& batch_call_count(input) is Some
    &&& forall|i: int|
        0 <= i < batch_call_count(input)->Some_0 ==> #[trigger] batch_entry_decodes(
            call_arguments(input),
            2 + 5 * i,
        )
}

/// True when `entries` are the entries of a call of `batchUpdatePools`.
pub open spec fn batch_call_is(input: Seq<u8>, entries: Seq<BatchPoolUpdate>) -> bool {
    &&& batch_call_count(input) == Some(entries.len())
    &&& forall|i: int|
        0 <= i < entries.len() ==> batch_entry_is(
            call_arguments(input),
            2 + 5 * i,
            #[trigger] entries[i],
        )
}

/// Decodes the entry in the five words from byte `offset` of the input on.
fn decode_batch_entry(input: &[u8], offset: usize, Ghost(w): Ghost<int>) -> (r: Option<
    BatchPoolUpdate,
>)
    requires
        offset + 160 <= input.len(),
        offset == 4 + 32 * w,
        w >= 0,
    ensures
        r is Some <==> batch_entry_decodes(call_arguments(input@), w),
        r is Some ==> batch_entry_is(call_arguments(input@), w, r->Some_0),
{
    proof {
        let args = call_arguments(input@);
        assert(word(args, w) =~= input@.subrange(offset as int, offset + 32));
        assert(word(args, w + 1) =~= input@.subrange(offset + 32, offset + 64));
        assert(word(args, w + 2) =~= input@.subrange(offset + 64, offset + 96));
        assert(word(args, w + 3) =~= input@.subrange(offset + 96, offset + 128));
        assert(word(args, w + 4) =~= input@.subrange(offset + 128, offset + 160));
    }
    let asset_a = match decode_address(input, offset) {
        Some(v) => v,
        None => {
            return None;
        },
    };
    let asset_b = match decode_address(input, offset + 32) {
        Some(v) => v,
        None => {
            return None;
        },
    };
    let bundle_fee = match decode_uint(input, offset + 64, 0xff_ffff) {
        Some(v) => v,
        None => {
            return None;
        },
    };
    let unlocked_fee = match decode_uint(input, offset + 96, 0xff_ffff) {
        Some(v) => v,
        None => {
            return None;
        },
    };
    let protocol_unlocked_fee = match decode_uint(input, offset + 128, 0xff_ffff) {
        Some(v) => v,
        None => {
            return None;
        },
    };
    Some(
        BatchPoolUpdate {
            asset_a,
            asset_b,
            bundle_fee: bundle_fee as u32,
            unlocked_fee: unlocked_fee as u32,
            protocol_unlocked_fee: protocol_unlocked_fee as u32,
        },
    )
}

/// Decodes the input of a transaction as a call of `batchUpdatePools` on the
/// L1 controller.
fn decode_batch_update_pools_inner(input: &[u8]) -> (r: Option<Vec<BatchPoolUpdate>>)
    ensures
        r is Some <==> batch_call_decodes(input@),
        r is Some ==> batch_call_is(input@, r->Some_0@),
{
    if input.len() < 68 {
        return None;
    }
    let selector = event_topic("batchUpdatePools((address,address,uint24,uint24,uint24)[])");
    let mut k: usize = 0;
    while k < 4
        invariant
            k <= 4,
            input.len() >= 68,
            selector == spec_event_topic(batch_update_signature()),
            forall|j: int| 0 <= j < k ==> input@[j] == selector@[j],
        decreases 4 - k,
    {
        if input[k] != selector.bytes[k] {
            proof {
                let expected = spec_event_topic(batch_update_signature())@.subrange(0, 4);
                assert(input@.subrange(0, 4)[k as int] == input@[k as int]);
                assert(expected[k as int] == selector@[k as int]);
                assert(input@.subrange(0, 4) != expected);
            }
            return None;
        }
        k = k + 1;
    }
    proof {
        assert(input@.subrange(0, 4) =~= selector@.subrange(0, 4));
        let args = call_arguments(input@);
        assert(word(args, 0) =~= input@.subrange(4, 36));
        assert(word(args, 1) =~= input@.subrange(36, 68));
    }
    let offset_word = decode_u256(input, 4);
    if !offset_word.is(&U256::from_u64(32)) {
        return None;
    }
    let count_word = decode_u256(input, 36);
    let count: u128 = match count_word.to_u128() {
        Some(v) => v,
        None => {
            return None;
        },
    };
    if count > (input.len() as u128) {
        return None;
    }
    if (input.len() as u128) != 68 + 160 * count {
        return None;
    }
    let n: usize = count as usize;
    let mut entries: Vec<BatchPoolUpdate> = Vec::new();
    let mut i: usize = 0;
    while i < n
        invariant
            i <= n,
            input.len() == 68 + 160 * n,
            batch_call_count(input@) == Some(n as nat),
            entries@.len() == i,
            forall|j: int|
                0 <= j < i ==> #[trigger] batch_entry_decodes(call_arguments(input@), 2 + 5 * j),
            forall|j: int|
                0 <= j < i ==> batch_entry_is(
                    call_arguments(input@),
                    2 + 5 * j,
                    #[trigger] entries@[j],
                ),
        decreases n - i,
    {
        match decode_batch_entry(input, 68 + 160 * i, Ghost(2 + 5 * i)) {
            Some(entry) => {
                let ghost before = entries@;
                entries.push(entry);
                proof {
                    assert forall|j: int| 0 <= j < i + 1 implies batch_entry_is(
                        call_arguments(input@),
                        2 + 5 * j,
                        #[trigger] entries@[j],
                    ) by {
                        if j < i {
                            assert(entries@[j] == before[j]);
                        }
                    }
                }
            },
            None => {
                return None;
            },
        }
        i = i + 1;
    }
    Some(entries)
}

/// A byte string holds one pool key at most.
pub proof fn lemma_pool_key_unique(data: Seq<u8>, i: int, a: PoolKey, b: PoolKey)
    requires
        pool_key_is(data, i, a),
        pool_key_is(data, i, b),
    ensures
        a == b,
{
    Address::lemma_view_injective(a.currency0, b.currency0);
    Address::lemma_view_injective(a.currency1, b.currency1);
    Address::lemma_view_injective(a.hooks, b.hooks);
}

/// What a log says as this event, where it decodes.
pub open spec fn spec_decode_swap(log: RawLog) -> Option<SwapLog> {
    if swap_decodes(log) {
        Some(choose|ev: SwapLog| swap_is(log, ev))
    } else {
        None
    }
}

/// A log says one thing at most.
pub proof fn lemma_swap_unique(log: RawLog, a: SwapLog, b: SwapLog)
    requires
        swap_is(log, a),
        swap_is(log, b),
    ensures
        a == b,
{
    Address::lemma_view_injective(a.sender, b.sender);
    U256::lemma_value_injective(a.sqrt_price_x96, b.sqrt_price_x96);
}

/// What a log says as this event, where it decodes.
pub open spec fn spec_decode_modify_liquidity(log: RawLog) -> Option<ModifyLiquidityLog> {
    if modify_liquidity_decodes(log) {
        Some(choose|ev: ModifyLiquidityLog| modify_liquidity_is(log, ev))
    } else {
        None
    }
}

/// A log says one thing at most.
pub proof fn lemma_modify_liquidity_unique(log: RawLog, a: ModifyLiquidityLog, b: ModifyLiquidityLog)
    requires
        modify_liquidity_is(log, a),
        modify_liquidity_is(log, b),
    ensures
        a == b,
{
    Address::lemma_view_injective(a.sender, b.sender);
    U256::lemma_value_injective(a.liquidity_delta.raw, b.liquidity_delta.raw);
    B256::lemma_view_injective(a.salt, b.salt);
}

/// What a log says as this event, where it decodes.
pub open spec fn spec_decode_pool_configured(log: RawLog) -> Option<PoolConfiguredLog> {
    if pool_configured_decodes(log) {
        Some(choose|ev: PoolConfiguredLog| pool_configured_is(log, ev))
    } else {
        None
    }
}

/// A log says one thing at most.
pub proof fn lemma_pool_configured_unique(log: RawLog, a: PoolConfiguredLog, b: PoolConfiguredLog)
    requires
        pool_configured_is(log, a),
        pool_configured_is(log, b),
    ensures
        a == b,
{
    Address::lemma_view_injective(a.asset0, b.asset0);
    Address::lemma_view_injective(a.asset1, b.asset1);
}

/// What a log says as this event, where it decodes.
pub open spec fn spec_decode_pool_removed(log: RawLog) -> Option<PoolRemovedLog> {
    if pool_removed_decodes(log) {
        Some(choose|ev: PoolRemovedLog| pool_removed_is(log, ev))
    } else {
        None
    }
}

/// A log says one thing at most.
pub proof fn lemma_pool_removed_unique(log: RawLog, a: PoolRemovedLog, b: PoolRemovedLog)
    requires
        pool_removed_is(log, a),
        pool_removed_is(log, b),
    ensures
        a == b,
{
    Address::lemma_view_injective(a.asset0, b.asset0);
    Address::lemma_view_injective(a.asset1, b.asset1);
}

/// What a log says as this event, where it decodes.
pub open spec fn spec_decode_pool_created(log: RawLog) -> Option<PoolCreatedLog> {
    if pool_created_decodes(log) {
        Some(choose|ev: PoolCreatedLog| pool_created_is(log, ev))
    } else {
        None
    }
}

/// A log says one thing at most.
pub proof fn lemma_pool_created_unique(log: RawLog, a: PoolCreatedLog, b: PoolCreatedLog)
    requires
        pool_created_is(log, a),
        pool_created_is(log, b),
    ensures
        a == b,
{
    Address::lemma_view_injective(a.hook, b.hook);
    lemma_pool_key_unique(log.data@, 1, a.key, b.key);
}

/// What a log says as this event, where it decodes.
pub open spec fn spec_decode_jit_tax_status_updated(log: RawLog) -> Option<JitTaxStatusUpdatedLog> {
    if jit_tax_decodes(log) {
        Some(choose|ev: JitTaxStatusUpdatedLog| jit_tax_is(log, ev))
    } else {
        None
    }
}

/// A log says one thing at most.
pub proof fn lemma_jit_tax_unique(log: RawLog, a: JitTaxStatusUpdatedLog, b: JitTaxStatusUpdatedLog)
    requires
        jit_tax_is(log, a),
        jit_tax_is(log, b),
    ensures
        a == b,
{
    Address::lemma_view_injective(a.hook, b.hook);
}

/// What a log says as this event, where it decodes.
pub open spec fn spec_decode_priority_fee_tax_floor_updated(log: RawLog) -> Option<PriorityFeeTaxFloorUpdatedLog> {
    if priority_floor_decodes(log) {
        Some(choose|ev: PriorityFeeTaxFloorUpdatedLog| priority_floor_is(log, ev))
    } else {
        None
    }
}

/// A log says one thing at most.
pub proof fn lemma_priority_floor_unique(log: RawLog, a: PriorityFeeTaxFloorUpdatedLog, b: PriorityFeeTaxFloorUpdatedLog)
    requires
        priority_floor_is(log, a),
        priority_floor_is(log, b),
    ensures
        a == b,
{
    Address::lemma_view_injective(a.hook, b.hook);
}

/// What a log says as the change of a protocol fee, where it decodes.
pub open spec fn spec_decode_protocol_fee(log: RawLog, signature: &str) -> Option<
    ProtocolFeeUpdatedLog,
> {
    if protocol_fee_decodes(log, signature) {
        Some(choose|ev: ProtocolFeeUpdatedLog| protocol_fee_is(log, ev))
    } else {
        None
    }
}

/// A log says one thing at most.
pub proof fn lemma_protocol_fee_unique(log: RawLog, a: ProtocolFeeUpdatedLog, b: ProtocolFeeUpdatedLog)
    requires
        protocol_fee_is(log, a),
        protocol_fee_is(log, b),
    ensures
        a == b,
{
    Address::lemma_view_injective(a.hook, b.hook);
    lemma_pool_key_unique(log.data@, 0, a.key, b.key);
}

/// Decodes a log as this event.
pub fn decode_swap(log: &RawLog) -> (r: Option<SwapLog>)
    ensures
        r == spec_decode_swap(*log),
        r is Some <==> swap_decodes(*log),
        r is Some ==> swap_is(*log, r->Some_0),
{
    let r = decode_swap_inner(log);
    proof {
        match r {
            Some(found) => {
                let chosen = choose|ev: SwapLog| swap_is(*log, ev);
                lemma_swap_unique(*log, found, chosen);
            },
            None => {},
        }
    }
    r
}

/// Decodes a log as this event.
pub fn decode_modify_liquidity(log: &RawLog) -> (r: Option<ModifyLiquidityLog>)
    ensures
        r == spec_decode_modify_liquidity(*log),
        r is Some <==> modify_liquidity_decodes(*log),
        r is Some ==> modify_liquidity_is(*log, r->Some_0),
{
    let r = decode_modify_liquidity_inner(log);
    proof {
        match r {
            Some(found) => {
                let chosen = choose|ev: ModifyLiquidityLog| modify_liquidity_is(*log, ev);
                lemma_modify_liquidity_unique(*log, found, chosen);
            },
            None => {},
        }
    }
    r
}

/// Decodes a log as this event.
pub fn decode_pool_configured(log: &RawLog) -> (r: Option<PoolConfiguredLog>)
    ensures
        r == spec_decode_pool_configured(*log),
        r is Some <==> pool_configured_decodes(*log),
        r is Some ==> pool_configured_is(*log, r->Some_0),
{
    let r = decode_pool_configured_inner(log);
    proof {
        match r {
            Some(found) => {
                let chosen = choose|ev: PoolConfiguredLog| pool_configured_is(*log, ev);
                lemma_pool_configured_unique(*log, found, chosen);
            },
            None => {},
        }
    }
    r
}

/// Decodes a log as this event.
pub fn decode_pool_removed(log: &RawLog) -> (r: Option<PoolRemovedLog>)
    ensures
        r == spec_decode_pool_removed(*log),
        r is Some <==> pool_removed_decodes(*log),
        r is Some ==> pool_removed_is(*log, r->Some_0),
{
    let r = decode_pool_removed_inner(log);
    proof {
        match r {
            Some(found) => {
                let chosen = choose|ev: PoolRemovedLog| pool_removed_is(*log, ev);
                lemma_pool_removed_unique(*log, found, chosen);
            },
            None => {},
        }
    }
    r
}

/// Decodes a log as this event.
pub fn decode_pool_created(log: &RawLog) -> (r: Option<PoolCreatedLog>)
    ensures
        r == spec_decode_pool_created(*log),
        r is Some <==> pool_created_decodes(*log),
        r is Some ==> pool_created_is(*log, r->Some_0),
{
    let r = decode_pool_created_inner(log);
    proof {
        match r {
            Some(found) => {
                let chosen = choose|ev: PoolCreatedLog| pool_created_is(*log, ev);
                lemma_pool_created_unique(*log, found, chosen);
            },
            None => {},
        }
    }
    r
}

/// Decodes a log as this event.
pub fn decode_jit_tax_status_updated(log: &RawLog) -> (r: Option<JitTaxStatusUpdatedLog>)
    ensures
        r == spec_decode_jit_tax_status_updated(*log),
        r is Some <==> jit_tax_decodes(*log),
        r is Some ==> jit_tax_is(*log, r->Some_0),
{
    let r = decode_jit_tax_status_updated_inner(log);
    proof {
        match r {
            Some(found) => {
                let chosen = choose|ev: JitTaxStatusUpdatedLog| jit_tax_is(*log, ev);
                lemma_jit_tax_unique(*log, found, chosen);
            },
            None => {},
        }
    }
    r
}

/// Decodes a log as this event.
pub fn decode_priority_fee_tax_floor_updated(log: &RawLog) -> (r: Option<PriorityFeeTaxFloorUpdatedLog>)
    ensures
        r == spec_decode_priority_fee_tax_floor_updated(*log),
        r is Some <==> priority_floor_decodes(*log),
        r is Some ==> priority_floor_is(*log, r->Some_0),
{
    let r = decode_priority_fee_tax_floor_updated_inner(log);
    proof {
        match r {
            Some(found) => {
                let chosen = choose|ev: PriorityFeeTaxFloorUpdatedLog| priority_floor_is(*log, ev);
                lemma_priority_floor_unique(*log, found, chosen);
            },
            None => {},
        }
    }
    r
}

/// The entries of a call of `batchUpdatePools`, where the input decodes.
pub open spec fn spec_decode_batch_update_pools(input: Seq<u8>) -> Option<Seq<BatchPoolUpdate>> {
    if batch_call_decodes(input) {
        Some(choose|entries: Seq<BatchPoolUpdate>| batch_call_is(input, entries))
    } else {
        None
    }
}

/// An input holds one list of entries at most.
pub proof fn lemma_batch_call_unique(input: Seq<u8>, a: Seq<BatchPoolUpdate>, b: Seq<BatchPoolUpdate>)
    requires
        batch_call_is(input, a),
        batch_call_is(input, b),
    ensures
        a == b,
{
    assert forall|i: int| 0 <= i < a.len() implies a[i] == b[i] by {
        let x = a[i];
        let y = b[i];
        assert(batch_entry_is(call_arguments(input), 2 + 5 * i, x));
        assert(batch_entry_is(call_arguments(input), 2 + 5 * i, y));
        Address::lemma_view_injective(x.asset_a, y.asset_a);
        Address::lemma_view_injective(x.asset_b, y.asset_b);
    }
    assert(a =~= b);
}

/// Decodes the input of a transaction as a call of `batchUpdatePools` on the
/// L1 controller.
pub fn decode_batch_update_pools(input: &[u8]) -> (r: Option<Vec<BatchPoolUpdate>>)
    ensures
        match r {
            Some(entries) => spec_decode_batch_update_pools(input@) == Some(entries@),
            None => spec_decode_batch_update_pools(input@) is None,
        },
        r is Some <==> batch_call_decodes(input@),
        r is Some ==> batch_call_is(input@, r->Some_0@),
{
    let r = decode_batch_update_pools_inner(input);
    proof {
        if r is Some {
            let chosen = choose|entries: Seq<BatchPoolUpdate>| batch_call_is(input@, entries);
            lemma_batch_call_unique(input@, r->Some_0@, chosen);
        }
    }
    r
}

} // verus!
