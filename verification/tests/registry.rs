use alloy_primitives::aliases::{I24, U24};
use alloy_sol_types::SolValue;
use uni_v4::pool_key::{PoolKey, DYNAMIC_FEE};
use uni_v4::pool_registry::l1::{AngstromPoolIdPair, L1PoolRegistry};
use uni_v4::pool_registry::l2::L2PoolRegistry;
use uni_v4::pool_registry::{add_new_pools, PoolRegistry, UniswapPoolIdSet};
use uni_v4::primitives::{hash, Address, B256};

fn addr(last: u8) -> Address {
    let mut bytes = [0u8; 20];
    bytes[0] = 0xab;
    bytes[19] = last;
    Address::new(bytes)
}

fn angstrom() -> Address {
    addr(0xaa)
}

fn key(fee: u32, hooks: Address) -> PoolKey {
    PoolKey::new(addr(1), addr(2), fee, 60, hooks)
}

fn reference_id(key: &PoolKey) -> B256 {
    let encoded = (
        alloy_primitives::Address::from(key.currency0.bytes),
        alloy_primitives::Address::from(key.currency1.bytes),
        U24::from(key.fee),
        I24::try_from(key.tick_spacing).unwrap(),
        alloy_primitives::Address::from(key.hooks.bytes),
    )
        .abi_encode();
    B256::new(alloy_primitives::keccak256(encoded).0)
}

#[test]
fn abi_encoding_matches_reference() {
    for (fee, spacing) in [(2500u32, 60i32), (0x800000, 1), (0, -5), (3000, -8388608), (1, 8388607)] {
        let k = PoolKey::new(addr(7), addr(9), fee, spacing, angstrom());
        let reference = (
            alloy_primitives::Address::from(k.currency0.bytes),
            alloy_primitives::Address::from(k.currency1.bytes),
            U24::from(fee),
            I24::try_from(spacing).unwrap(),
            alloy_primitives::Address::from(k.hooks.bytes),
        )
            .abi_encode();
        assert_eq!(k.abi_encode(), reference);
        assert_eq!(k.abi_encode().len(), 160);
    }
}

#[test]
fn pool_id_is_keccak_of_encoded_key() {
    let k = key(2500, angstrom());
    assert_eq!(k.pool_id(), reference_id(&k));
    // the hash of the empty string, to pin the hash function itself
    let empty = B256::new(alloy_primitives::keccak256([]).0);
    assert_eq!(empty.bytes[0], 0xc5);
    assert_eq!(empty.bytes[31], 0x70);
    assert_ne!(k.pool_id(), k.with_fee(DYNAMIC_FEE).pool_id());
}

#[test]
fn registry_id_pair() {
    let k = key(2500, angstrom());
    let mut registry = L1PoolRegistry::new(angstrom());
    registry.add_new_pool(k);

    let angstrom_id = k.pool_id();
    let uniswap_id = k.with_fee(0x800000).pool_id();
    assert_eq!(angstrom_id, reference_id(&k));
    assert_eq!(uniswap_id, reference_id(&k.with_fee(0x800000)));

    // the registry resolves both, the pool manager's side first
    assert_eq!(registry.get(&uniswap_id), Some(&k.with_fee(0x800000)));
    assert_eq!(registry.get(&angstrom_id), Some(&k));
    assert_eq!(registry.private_key_from_public(&angstrom_id), Some(uniswap_id));
    assert_eq!(registry.public_key_from_private(&uniswap_id), Some(angstrom_id));
    assert_eq!(registry.angstrom_pool_id_from_uniswap_pool_id(uniswap_id), Some(angstrom_id));
    assert_eq!(registry.private_keys(), vec![uniswap_id]);
    assert_eq!(registry.public_keys(), vec![angstrom_id]);
    assert_eq!(registry.all_uniswap_pool_ids(), vec![uniswap_id]);
    assert_eq!(registry.all_angstrom_pool_ids(), vec![angstrom_id]);

    let from_uniswap = registry.make_pool_id_set(uniswap_id).unwrap();
    let from_angstrom = registry.make_pool_id_set(angstrom_id).unwrap();
    assert_eq!(from_uniswap.angstrom_id, angstrom_id);
    assert_eq!(from_uniswap.uniswap_id, uniswap_id);
    assert_eq!(from_angstrom.angstrom_id, angstrom_id);
    assert_eq!(from_angstrom.uniswap_pool_id(), uniswap_id);
    let pair = AngstromPoolIdPair::from_pool_key(k);
    assert_eq!(pair.angstrom_id, angstrom_id);
    assert_eq!(pair.uniswap_id, uniswap_id);
}

#[test]
fn registry_plain_pool_has_one_id() {
    let k = key(500, addr(0x11));
    let mut registry = L1PoolRegistry::new(angstrom());
    registry.add_new_pool(k);
    assert_eq!(registry.get(&k.pool_id()), Some(&k));
    assert!(registry.make_pool_id_set(k.pool_id()).is_none());
    assert!(registry.public_keys().is_empty());
    assert_eq!(registry.pools(None).len(), 1);
}

#[test]
fn registry_remove_takes_both_sides() {
    let k = key(2500, angstrom());
    let other = PoolKey::new(addr(3), addr(4), 100, 10, angstrom());
    let mut registry = L1PoolRegistry::new(angstrom());
    add_new_pools(&mut registry, &vec![k, other]);
    let angstrom_id = k.pool_id();
    let uniswap_id = k.with_fee(DYNAMIC_FEE).pool_id();

    // removal by the hook's identifier
    registry.remove(&angstrom_id);
    assert_eq!(registry.get(&uniswap_id), None);
    assert_eq!(registry.get(&angstrom_id), None);
    assert_eq!(registry.private_key_from_public(&angstrom_id), None);
    assert_eq!(registry.public_key_from_private(&uniswap_id), None);
    assert_eq!(registry.all_uniswap_pool_ids(), vec![other.with_fee(DYNAMIC_FEE).pool_id()]);

    // removal by the pool manager's identifier
    registry.remove(&other.with_fee(DYNAMIC_FEE).pool_id());
    assert!(registry.all_uniswap_pool_ids().is_empty());
    assert!(registry.all_angstrom_pool_ids().is_empty());

    // removing what is not there changes nothing
    registry.remove(&angstrom_id);
    assert!(registry.all_uniswap_pool_ids().is_empty());
}

#[test]
fn registry_searches() {
    let a = PoolKey::new(addr(1), addr(2), 500, 10, addr(0x11));
    let b = PoolKey::new(addr(1), addr(2), 3000, 60, addr(0x22));
    let c = PoolKey::new(addr(1), addr(3), 500, 10, addr(0x11));
    let mut registry = L2PoolRegistry::new();
    add_new_pools(&mut registry, &vec![a, b, c]);

    assert_eq!(registry.get(&a.pool_id()), Some(&a));
    assert_eq!(registry.get(&B256::zero()), None);
    assert_eq!(registry.make_pool_id_set(a.pool_id()), Some(a.pool_id()));
    assert_eq!(registry.make_pool_id_set(B256::zero()), None);
    assert_eq!(registry.angstrom_pool_id_from_uniswap_pool_id(a.pool_id()), None);
    assert!(registry.all_angstrom_pool_ids().is_empty());
    assert_eq!(registry.all_uniswap_pool_ids(), vec![a.pool_id(), b.pool_id(), c.pool_id()]);

    // token order does not matter
    assert_eq!(registry.get_pools_by_token_pair(addr(1), addr(2), None), vec![a, b]);
    assert_eq!(registry.get_pools_by_token_pair(addr(2), addr(1), None), vec![a, b]);
    assert_eq!(registry.get_pools_by_token_pair(addr(2), addr(1), Some(addr(0x22))), vec![b]);
    assert!(registry.get_pools_by_token_pair(addr(2), addr(3), None).is_empty());

    assert_eq!(
        registry.get_pool_id_by_tokens_and_fee(addr(2), addr(1), 3000, None),
        Some(b.pool_id())
    );
    assert_eq!(registry.get_pool_id_by_tokens_and_fee(addr(1), addr(2), 100, None), None);
    assert_eq!(
        registry.get_pool_id_by_tokens_and_fee(addr(1), addr(2), 500, Some(addr(0x22))),
        None
    );

    assert_eq!(registry.pools(Some(addr(0x11))), vec![(a.pool_id(), a), (c.pool_id(), c)]);
    assert_eq!(registry.pools(None).len(), 3);

    registry.remove(&b.pool_id());
    assert_eq!(registry.get(&b.pool_id()), None);
    assert_eq!(registry.all_uniswap_pool_ids(), vec![a.pool_id(), c.pool_id()]);

    // adding a pool again keeps its place
    registry.add_new_pool(a);
    assert_eq!(registry.all_uniswap_pool_ids(), vec![a.pool_id(), c.pool_id()]);
}

#[test]
fn address_order_is_byte_order() {
    assert!(addr(1).lt(&addr(2)));
    assert!(!addr(2).lt(&addr(1)));
    assert!(!addr(2).lt(&addr(2)));
    let mut high = [0u8; 20];
    high[0] = 0xff;
    assert!(addr(0xff).lt(&Address::new(high)));
    assert!(Address::zero().lt(&addr(0)));
    assert!(addr(5).same(&addr(5)));
    assert!(!addr(5).same(&addr(6)));
}

#[test]
fn hash_is_keccak() {
    // the digest of the empty string
    let empty: [u8; 32] = [
        0xc5, 0xd2, 0x46, 0x01, 0x86, 0xf7, 0x23, 0x3c, 0x92, 0x7e, 0x7d, 0xb2, 0xdc, 0xc7, 0x03,
        0xc0, 0xe5, 0x00, 0xb6, 0x53, 0xca, 0x82, 0x27, 0x3b, 0x7b, 0xfa, 0xd8, 0x04, 0x5d, 0x85,
        0xa4, 0x70,
    ];
    assert_eq!(hash(&[]), B256::new(empty));
    let word = [7u8; 32];
    assert_ne!(hash(&word), B256::new(word));
    assert_eq!(hash(&word), B256::new(alloy_primitives::keccak256(word).0));
    assert_ne!(hash(&word), hash(&[7u8; 31]));
}
