//! The registry of the L2 deployment: one identifier per pool.

use vstd::prelude::*;
use crate::id_map::{IdMap, inserted, keys_of, lookup, removed};
use crate::pool_key::PoolKey;
use crate::pool_registry::{
    PoolRegistry, collect_pair, collect_pools, find_pair_and_fee, id_for_pair_and_fee,
    keys_for_pair, pools_with_hook,
};
use crate::primitives::{Address, PoolId};

verus! {

/// Pool key by pool id.
pub struct L2PoolRegistry {
    pub pools: IdMap<PoolKey>,
}

impl L2PoolRegistry {
    pub fn new() -> (r: L2PoolRegistry)
        ensures
            r.valid(),
            r.pools.entries().len() == 0,
    {
        L2PoolRegistry { pools: IdMap::new() }
    }
}

impl PoolRegistry for L2PoolRegistry {
    type PoolIdSet = PoolId;

    open spec fn valid(&self) -> bool {
        self.pools.valid()
    }

    open spec fn spec_get(&self, pool_id: PoolId) -> Option<PoolKey> {
        lookup(self.pools.entries(), pool_id)
    }

    open spec fn spec_pools(&self, hook: Option<Address>) -> Seq<(PoolId, PoolKey)> {
        pools_with_hook(self.pools.entries(), hook)
    }

    open spec fn added_to(&self, after: &Self, pool_key: PoolKey) -> bool {
        after.pools.entries() == inserted(self.pools.entries(), pool_key.spec_pool_id(), pool_key)
    }

    open spec fn removed_to(&self, after: &Self, pool_id: PoolId) -> bool {
        after.pools.entries() == removed(self.pools.entries(), pool_id)
    }

    open spec fn spec_all_angstrom_pool_ids(&self) -> Seq<PoolId> {
        Seq::empty()
    }

    open spec fn spec_all_uniswap_pool_ids(&self) -> Seq<PoolId> {
        keys_of(self.pools.entries())
    }

    open spec fn spec_angstrom_pool_id(&self, pool_id: PoolId) -> Option<PoolId> {
        None
    }

    open spec fn spec_pools_by_token_pair(
        &self,
        token0: Address,
        token1: Address,
        hook: Option<Address>,
    ) -> Seq<PoolKey> {
        keys_for_pair(self.pools.entries(), token0, token1, hook)
    }

    open spec fn spec_pool_id_by_tokens_and_fee(
        &self,
        token0: Address,
        token1: Address,
        fee: u32,
        hook: Option<Address>,
    ) -> Option<PoolId> {
        id_for_pair_and_fee(self.pools.entries(), 0, token0, token1, fee, hook)
    }

    open spec fn spec_pool_id_set(&self, pool_id: PoolId) -> Option<PoolId> {
        if self.pools.has(pool_id) {
            Some(pool_id)
        } else {
            None
        }
    }

    fn check_valid(&self) -> (r: bool) {
        self.pools.check_valid()
    }

    fn get(&self, pool_id: &PoolId) -> (r: Option<&PoolKey>) {
        self.pools.get(pool_id)
    }

    fn pools(&self, hook: Option<Address>) -> (r: Vec<(PoolId, PoolKey)>) {
        collect_pools(&self.pools, &hook)
    }

    fn remove(&mut self, pool_id: &PoolId) {
        let _ = self.pools.remove(pool_id);
    }

    fn all_angstrom_pool_ids(&self) -> (r: Vec<PoolId>) {
        Vec::new()
    }

    fn angstrom_pool_id_from_uniswap_pool_id(&self, pool_id: PoolId) -> (r: Option<PoolId>) {
        None
    }

    fn all_uniswap_pool_ids(&self) -> (r: Vec<PoolId>) {
        self.pools.keys()
    }

    fn add_new_pool(&mut self, pool_key: PoolKey) {
        let id = pool_key.pool_id();
        self.pools.insert(id, pool_key);
    }

    fn get_pools_by_token_pair(&self, token0: Address, token1: Address, hook: Option<Address>) -> (r:
        Vec<PoolKey>) {
        collect_pair(&self.pools, &token0, &token1, &hook)
    }

    fn get_pool_id_by_tokens_and_fee(
        &self,
        token0: Address,
        token1: Address,
        fee: u32,
        hook: Option<Address>,
    ) -> (r: Option<PoolId>) {
        find_pair_and_fee(&self.pools, &token0, &token1, fee, &hook)
    }

    fn make_pool_id_set(&self, pool_id: PoolId) -> (r: Option<PoolId>) {
        if self.pools.contains_key(&pool_id) {
            Some(pool_id)
        } else {
            None
        }
    }
}

} // verus!
