//! The registry of the L1 deployment. A pool behind the hook has two
//! identifiers: the hook's, from the key with the configured fee, and the
//! pool manager's, from the key with the dynamic-fee marker. The registry
//! resolves both and converts one into the other.

use vstd::prelude::*;
use crate::id_map::{IdMap, inserted, keys_of, lemma_inserted, lookup, removed};
use crate::pool_key::{DYNAMIC_FEE, PoolKey};
use crate::pool_registry::{
    PoolRegistry, UniswapPoolIdSet, collect_pair, collect_pools, find_pair_and_fee,
    id_for_pair_and_fee, keys_for_pair, pools_with_hook,
};
use crate::primitives::{Address, PoolId};

verus! {

/// The two identifiers of a pool behind the hook.
#[derive(Debug, Clone, Copy)]
pub struct AngstromPoolIdPair {
    /// The hook's identifier.
    pub angstrom_id: PoolId,
    /// The pool manager's identifier.
    pub uniswap_id: PoolId,
}

impl AngstromPoolIdPair {
    pub fn new(angstrom_id: PoolId, uniswap_id: PoolId) -> (r: AngstromPoolIdPair)
        ensures
            r.angstrom_id == angstrom_id,
            r.uniswap_id == uniswap_id,
    {
        AngstromPoolIdPair { angstrom_id, uniswap_id }
    }

    /// The two identifiers of the pool of a key.
    pub fn from_pool_key(pool_key: PoolKey) -> (r: AngstromPoolIdPair)
        ensures
            r.angstrom_id == pool_key.spec_pool_id(),
            r.uniswap_id == pool_key.spec_with_fee(DYNAMIC_FEE).spec_pool_id(),
    {
        let angstrom_id = pool_key.pool_id();
        let uniswap_id = pool_key.with_fee(DYNAMIC_FEE).pool_id();
        AngstromPoolIdPair { angstrom_id, uniswap_id }
    }
}

impl UniswapPoolIdSet for AngstromPoolIdPair {
    open spec fn spec_uniswap_pool_id(&self) -> PoolId {
        self.uniswap_id
    }

    fn uniswap_pool_id(&self) -> (id: PoolId) {
        self.uniswap_id
    }
}

/// The hook's side of the registry.
pub struct AngstromRegistry {
    /// Pool key by the hook's identifier.
    pub pools: IdMap<PoolKey>,
    /// The pool manager's identifier by the hook's.
    pub conversion_map: IdMap<PoolId>,
    /// The hook's identifier by the pool manager's.
    pub reverse_conversion_map: IdMap<PoolId>,
}

/// The L1 registry as mathematics: the entries of its four maps, each in
/// the order of arrival.
pub struct L1RegistryModel {
    pub angstrom_address: Address,
    /// Pool key by the pool manager's identifier.
    pub uni_pools: Seq<(PoolId, PoolKey)>,
    /// Pool key by the hook's identifier.
    pub angstrom_pools: Seq<(PoolId, PoolKey)>,
    /// The pool manager's identifier by the hook's.
    pub conversion: Seq<(PoolId, PoolId)>,
    /// The hook's identifier by the pool manager's.
    pub reverse_conversion: Seq<(PoolId, PoolId)>,
}

impl L1RegistryModel {
    /// The registry with a pool added. A pool behind the hook enters under
    /// both of its identifiers, with the conversions between them; the pool
    /// manager knows it by the key with the dynamic-fee marker.
    pub open spec fn added(self, pool_key: PoolKey) -> L1RegistryModel {
        let behind_hook = pool_key.hooks == self.angstrom_address;
        let uniswap_key = if behind_hook {
            pool_key.spec_with_fee(DYNAMIC_FEE)
        } else {
            pool_key
        };
        L1RegistryModel {
            angstrom_address: self.angstrom_address,
            uni_pools: inserted(self.uni_pools, uniswap_key.spec_pool_id(), uniswap_key),
            angstrom_pools: if behind_hook {
                inserted(self.angstrom_pools, pool_key.spec_pool_id(), pool_key)
            } else {
                self.angstrom_pools
            },
            conversion: if behind_hook {
                inserted(self.conversion, pool_key.spec_pool_id(), uniswap_key.spec_pool_id())
            } else {
                self.conversion
            },
            reverse_conversion: if behind_hook {
                inserted(
                    self.reverse_conversion,
                    uniswap_key.spec_pool_id(),
                    pool_key.spec_pool_id(),
                )
            } else {
                self.reverse_conversion
            },
        }
    }

    /// The pool manager's identifier of a pool, by the hook's.
    pub open spec fn private_key(self, public: PoolId) -> Option<PoolId> {
        lookup(self.conversion, public)
    }
}

/// The pools of the L1 deployment.
pub struct L1PoolRegistry {
    pub angstrom_address: Address,
    /// Pool key by the pool manager's identifier.
    pub uni_pools: IdMap<PoolKey>,
    pub angstrom_registry: AngstromRegistry,
}

impl View for L1PoolRegistry {
    type V = L1RegistryModel;

    open spec fn view(&self) -> L1RegistryModel {
        L1RegistryModel {
            angstrom_address: self.angstrom_address,
            uni_pools: self.uni_pools.entries(),
            angstrom_pools: self.angstrom_registry.pools.entries(),
            conversion: self.angstrom_registry.conversion_map.entries(),
            reverse_conversion: self.angstrom_registry.reverse_conversion_map.entries(),
        }
    }
}

impl L1PoolRegistry {
    pub fn new(angstrom_address: Address) -> (r: L1PoolRegistry)
        ensures
            r.valid(),
            r.angstrom_address == angstrom_address,
            r.uni_pools.entries().len() == 0,
            r.angstrom_registry.pools.entries().len() == 0,
            r.angstrom_registry.conversion_map.entries().len() == 0,
            r.angstrom_registry.reverse_conversion_map.entries().len() == 0,
    {
        L1PoolRegistry {
            angstrom_address,
            uni_pools: IdMap::new(),
            angstrom_registry: AngstromRegistry {
                pools: IdMap::new(),
                conversion_map: IdMap::new(),
                reverse_conversion_map: IdMap::new(),
            },
        }
    }

    /// The pool manager's identifiers of the pools behind the hook.
    pub fn private_keys(&self) -> (r: Vec<PoolId>)
        ensures
            r@ == keys_of(self.angstrom_registry.reverse_conversion_map.entries()),
    {
        self.angstrom_registry.reverse_conversion_map.keys()
    }

    /// The hook's identifiers of the pools behind the hook.
    pub fn public_keys(&self) -> (r: Vec<PoolId>)
        ensures
            r@ == keys_of(self.angstrom_registry.conversion_map.entries()),
    {
        self.angstrom_registry.conversion_map.keys()
    }

    /// The hook's identifier of a pool, by the pool manager's.
    pub fn public_key_from_private(&self, pk: &PoolId) -> (r: Option<PoolId>)
        ensures
            r == lookup(self.angstrom_registry.reverse_conversion_map.entries(), *pk),
    {
        match self.angstrom_registry.reverse_conversion_map.get(pk) {
            Some(id) => Some(*id),
            None => None,
        }
    }

    /// The pool manager's identifier of a pool, by the hook's.
    pub fn private_key_from_public(&self, pk: &PoolId) -> (r: Option<PoolId>)
        ensures
            r == lookup(self.angstrom_registry.conversion_map.entries(), *pk),
    {
        match self.angstrom_registry.conversion_map.get(pk) {
            Some(id) => Some(*id),
            None => None,
        }
    }

    /// After a pool behind the hook is added, the registry resolves both of
    /// its identifiers and converts each into the other.
    pub proof fn lemma_added_pool_resolves(&self, after: &L1PoolRegistry, pool_key: PoolKey)
        requires
            self.valid(),
            self.added_to(after, pool_key),
            pool_key.hooks == self.angstrom_address,
        ensures
            after.spec_get(pool_key.spec_with_fee(DYNAMIC_FEE).spec_pool_id()) == Some(
                pool_key.spec_with_fee(DYNAMIC_FEE),
            ),
            lookup(after.angstrom_registry.pools.entries(), pool_key.spec_pool_id()) == Some(
                pool_key,
            ),
            lookup(after.angstrom_registry.conversion_map.entries(), pool_key.spec_pool_id())
                == Some(pool_key.spec_with_fee(DYNAMIC_FEE).spec_pool_id()),
            lookup(
                after.angstrom_registry.reverse_conversion_map.entries(),
                pool_key.spec_with_fee(DYNAMIC_FEE).spec_pool_id(),
            ) == Some(pool_key.spec_pool_id()),
    {
        let angstrom_id = pool_key.spec_pool_id();
        let uniswap_key = pool_key.spec_with_fee(DYNAMIC_FEE);
        let uniswap_id = uniswap_key.spec_pool_id();
        lemma_inserted(self.uni_pools.entries(), uniswap_id, uniswap_key, uniswap_id);
        lemma_inserted(self.angstrom_registry.pools.entries(), angstrom_id, pool_key, angstrom_id);
        lemma_inserted(
            self.angstrom_registry.conversion_map.entries(),
            angstrom_id,
            uniswap_id,
            angstrom_id,
        );
        lemma_inserted(
            self.angstrom_registry.reverse_conversion_map.entries(),
            uniswap_id,
            angstrom_id,
            uniswap_id,
        );
    }
}

impl PoolRegistry for L1PoolRegistry {
    type PoolIdSet = AngstromPoolIdPair;

    open spec fn valid(&self) -> bool {
        &&& self.uni_pools.valid()
        &&& self.angstrom_registry.pools.valid()
        &&& self.angstrom_registry.conversion_map.valid()
        &&& self.angstrom_registry.reverse_conversion_map.valid()
    }

    open spec fn spec_get(&self, pool_id: PoolId) -> Option<PoolKey> {
        match lookup(self.uni_pools.entries(), pool_id) {
            Some(key) => Some(key),
            None => lookup(self.angstrom_registry.pools.entries(), pool_id),
        }
    }

    open spec fn spec_pools(&self, hook: Option<Address>) -> Seq<(PoolId, PoolKey)> {
        pools_with_hook(self.uni_pools.entries(), hook)
    }

    open spec fn added_to(&self, after: &Self, pool_key: PoolKey) -> bool {
        after@ == self@.added(pool_key)
    }

    open spec fn removed_to(&self, after: &Self, pool_id: PoolId) -> bool {
        &&& after.angstrom_address == self.angstrom_address
        &&& match self.spec_pool_id_set(pool_id) {
            Some(ids) => {
                &&& after.uni_pools.entries() == removed(self.uni_pools.entries(), ids.uniswap_id)
                &&& after.angstrom_registry.reverse_conversion_map.entries() == removed(
                    self.angstrom_registry.reverse_conversion_map.entries(),
                    ids.uniswap_id,
                )
                &&& after.angstrom_registry.conversion_map.entries() == removed(
                    self.angstrom_registry.conversion_map.entries(),
                    ids.angstrom_id,
                )
                &&& after.angstrom_registry.pools.entries() == removed(
                    self.angstrom_registry.pools.entries(),
                    ids.angstrom_id,
                )
            },
            None => {
                &&& after.uni_pools.entries() == self.uni_pools.entries()
                &&& after.angstrom_registry.reverse_conversion_map.entries()
                    == self.angstrom_registry.reverse_conversion_map.entries()
                &&& after.angstrom_registry.conversion_map.entries()
                    == self.angstrom_registry.conversion_map.entries()
                &&& after.angstrom_registry.pools.entries()
                    == self.angstrom_registry.pools.entries()
            },
        }
    }

    open spec fn spec_all_angstrom_pool_ids(&self) -> Seq<PoolId> {
        keys_of(self.angstrom_registry.pools.entries())
    }

    open spec fn spec_all_uniswap_pool_ids(&self) -> Seq<PoolId> {
        keys_of(self.uni_pools.entries())
    }

    open spec fn spec_angstrom_pool_id(&self, pool_id: PoolId) -> Option<PoolId> {
        lookup(self.angstrom_registry.reverse_conversion_map.entries(), pool_id)
    }

    open spec fn spec_pools_by_token_pair(
        &self,
        token0: Address,
        token1: Address,
        hook: Option<Address>,
    ) -> Seq<PoolKey> {
        keys_for_pair(self.uni_pools.entries(), token0, token1, hook)
    }

    open spec fn spec_pool_id_by_tokens_and_fee(
        &self,
        token0: Address,
        token1: Address,
        fee: u32,
        hook: Option<Address>,
    ) -> Option<PoolId> {
        id_for_pair_and_fee(self.uni_pools.entries(), 0, token0, token1, fee, hook)
    }

    open spec fn spec_pool_id_set(&self, pool_id: PoolId) -> Option<AngstromPoolIdPair> {
        if self.uni_pools.has(pool_id) {
            match lookup(self.angstrom_registry.reverse_conversion_map.entries(), pool_id) {
                Some(angstrom_id) => Some(AngstromPoolIdPair { angstrom_id, uniswap_id: pool_id }),
                None => None,
            }
        } else if self.angstrom_registry.pools.has(pool_id) {
            match lookup(self.angstrom_registry.conversion_map.entries(), pool_id) {
                Some(uniswap_id) => Some(AngstromPoolIdPair { angstrom_id: pool_id, uniswap_id }),
                None => None,
            }
        } else {
            None
        }
    }

    fn check_valid(&self) -> (r: bool) {
        self.uni_pools.check_valid() && self.angstrom_registry.pools.check_valid()
            && self.angstrom_registry.conversion_map.check_valid()
            && self.angstrom_registry.reverse_conversion_map.check_valid()
    }

    fn get(&self, pool_id: &PoolId) -> (r: Option<&PoolKey>) {
        match self.uni_pools.get(pool_id) {
            Some(key) => Some(key),
            None => self.angstrom_registry.pools.get(pool_id),
        }
    }

    fn pools(&self, hook: Option<Address>) -> (r: Vec<(PoolId, PoolKey)>) {
        collect_pools(&self.uni_pools, &hook)
    }

    fn remove(&mut self, pool_id: &PoolId) {
        match self.make_pool_id_set(*pool_id) {
            Some(ids) => {
                let _ = self.uni_pools.remove(&ids.uniswap_id);
                let _ = self.angstrom_registry.reverse_conversion_map.remove(&ids.uniswap_id);
                let _ = self.angstrom_registry.conversion_map.remove(&ids.angstrom_id);
                let _ = self.angstrom_registry.pools.remove(&ids.angstrom_id);
            },
            None => {},
        }
    }

    fn all_angstrom_pool_ids(&self) -> (r: Vec<PoolId>) {
        self.angstrom_registry.pools.keys()
    }

    fn angstrom_pool_id_from_uniswap_pool_id(&self, pool_id: PoolId) -> (r: Option<PoolId>) {
        self.public_key_from_private(&pool_id)
    }

    fn all_uniswap_pool_ids(&self) -> (r: Vec<PoolId>) {
        self.uni_pools.keys()
    }

    fn add_new_pool(&mut self, pool_key: PoolKey) {
        let mut uniswap_key: PoolKey = pool_key;
        if pool_key.hooks.same(&self.angstrom_address) {
            let angstrom_id = pool_key.pool_id();
            uniswap_key = pool_key.with_fee(DYNAMIC_FEE);
            let uniswap_id = uniswap_key.pool_id();
            self.angstrom_registry.pools.insert(angstrom_id, pool_key);
            self.angstrom_registry.conversion_map.insert(angstrom_id, uniswap_id);
            self.angstrom_registry.reverse_conversion_map.insert(uniswap_id, angstrom_id);
        }
        let id = uniswap_key.pool_id();
        self.uni_pools.insert(id, uniswap_key);
    }

    fn get_pools_by_token_pair(&self, token0: Address, token1: Address, hook: Option<Address>) -> (r:
        Vec<PoolKey>) {
        collect_pair(&self.uni_pools, &token0, &token1, &hook)
    }

    fn get_pool_id_by_tokens_and_fee(
        &self,
        token0: Address,
        token1: Address,
        fee: u32,
        hook: Option<Address>,
    ) -> (r: Option<PoolId>) {
        find_pair_and_fee(&self.uni_pools, &token0, &token1, fee, &hook)
    }

    fn make_pool_id_set(&self, pool_id: PoolId) -> (r: Option<AngstromPoolIdPair>) {
        if self.uni_pools.contains_key(&pool_id) {
            match self.angstrom_registry.reverse_conversion_map.get(&pool_id) {
                Some(angstrom_id) => Some(
                    AngstromPoolIdPair { angstrom_id: *angstrom_id, uniswap_id: pool_id },
                ),
                None => None,
            }
        } else if self.angstrom_registry.pools.contains_key(&pool_id) {
            match self.angstrom_registry.conversion_map.get(&pool_id) {
                Some(uniswap_id) => Some(
                    AngstromPoolIdPair { angstrom_id: pool_id, uniswap_id: *uniswap_id },
                ),
                None => None,
            }
        } else {
            None
        }
    }
}

} // verus!
