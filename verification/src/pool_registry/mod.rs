//! The registry of known pools: pool key by pool id, and the searches that
//! the update provider and the service make over it.

use vstd::prelude::*;
use crate::id_map::IdMap;
use crate::pool_key::PoolKey;
use crate::primitives::{Address, B256, PoolId, bytes_lt};

pub mod l1;
pub mod l2;

verus! {

/// The identifiers under which a deployment knows one pool.
pub trait UniswapPoolIdSet: Copy {
    /// The identifier that the pool manager uses.
    spec fn spec_uniswap_pool_id(&self) -> PoolId;

    fn uniswap_pool_id(&self) -> (id: PoolId)
        ensures
            id == self.spec_uniswap_pool_id(),
    ;
}

impl UniswapPoolIdSet for B256 {
    open spec fn spec_uniswap_pool_id(&self) -> PoolId {
        *self
    }

    fn uniswap_pool_id(&self) -> (id: PoolId) {
        *self
    }
}

/// True when a pool belongs to the given hook, or no hook is asked for.
pub open spec fn hook_matches(key: PoolKey, hook: Option<Address>) -> bool {
    match hook {
        Some(h) => key.hooks == h,
        None => true,
    }
}

/// The entries of the pools of a hook, in order.
pub open spec fn pools_with_hook(entries: Seq<(B256, PoolKey)>, hook: Option<Address>) -> Seq<
    (B256, PoolKey),
>
    decreases entries.len(),
{
    if entries.len() == 0 {
        Seq::empty()
    } else {
        let rest = pools_with_hook(entries.drop_last(), hook);
        if hook_matches(entries.last().1, hook) {
            rest.push(entries.last())
        } else {
            rest
        }
    }
}

/// The lower of two tokens.
pub open spec fn lower_token(a: Address, b: Address) -> Address {
    if bytes_lt(a@, b@) {
        a
    } else {
        b
    }
}

/// The higher of two tokens.
pub open spec fn higher_token(a: Address, b: Address) -> Address {
    if bytes_lt(a@, b@) {
        b
    } else {
        a
    }
}

/// True when a pool trades the two tokens, in either order of asking, and
/// belongs to the hook if one is asked for.
pub open spec fn pair_matches(key: PoolKey, token0: Address, token1: Address, hook: Option<Address>) -> bool {
    &&& key.currency0 == lower_token(token0, token1)
    &&& key.currency1 == higher_token(token0, token1)
    &&& hook_matches(key, hook)
}

/// The keys of the pools of a token pair, in order.
pub open spec fn keys_for_pair(
    entries: Seq<(B256, PoolKey)>,
    token0: Address,
    token1: Address,
    hook: Option<Address>,
) -> Seq<PoolKey>
    decreases entries.len(),
{
    if entries.len() == 0 {
        Seq::empty()
    } else {
        let rest = keys_for_pair(entries.drop_last(), token0, token1, hook);
        if pair_matches(entries.last().1, token0, token1, hook) {
            rest.push(entries.last().1)
        } else {
            rest
        }
    }
}

/// The identifier of the first pool, from place `from` on, that trades the
/// token pair at the given fee.
pub open spec fn id_for_pair_and_fee(
    entries: Seq<(B256, PoolKey)>,
    from: int,
    token0: Address,
    token1: Address,
    fee: u32,
    hook: Option<Address>,
) -> Option<B256>
    decreases entries.len() - from,
{
    if from < 0 || from >= entries.len() {
        None
    } else if pair_matches(entries[from].1, token0, token1, hook) && entries[from].1.fee == fee {
        Some(entries[from].0)
    } else {
        id_for_pair_and_fee(entries, from + 1, token0, token1, fee, hook)
    }
}

/// True when a pool belongs to the given hook, or no hook is asked for.
pub fn key_has_hook(key: &PoolKey, hook: &Option<Address>) -> (r: bool)
    ensures
        r == hook_matches(*key, *hook),
{
    match hook {
        Some(h) => key.hooks.same(h),
        None => true,
    }
}

/// True when a pool trades the two tokens and belongs to the hook.
pub fn key_has_pair(key: &PoolKey, token0: &Address, token1: &Address, hook: &Option<Address>) -> (r:
    bool)
    ensures
        r == pair_matches(*key, *token0, *token1, *hook),
{
    let in_order: bool = token0.lt(token1);
    let low: &Address = if in_order {
        token0
    } else {
        token1
    };
    let high: &Address = if in_order {
        token1
    } else {
        token0
    };
    key.currency0.same(low) && key.currency1.same(high) && key_has_hook(key, hook)
}

/// The pools of a hook among the pools of a map.
pub fn collect_pools(map: &IdMap<PoolKey>, hook: &Option<Address>) -> (out: Vec<(PoolId, PoolKey)>)
    ensures
        out@ == pools_with_hook(map.entries(), *hook),
{
    let mut out: Vec<(PoolId, PoolKey)> = Vec::new();
    let mut i: usize = 0;
    proof {
        assert(map.entries().take(0) =~= Seq::<(B256, PoolKey)>::empty());
    }
    while i < map.len()
        invariant
            i <= map.entries().len(),
            out@ == pools_with_hook(map.entries().take(i as int), *hook),
        decreases map.entries().len() - i,
    {
        let id: PoolId = map.key_at(i);
        let key: PoolKey = *map.value_at(i);
        proof {
            let next = map.entries().take(i + 1);
            assert(next.drop_last() =~= map.entries().take(i as int));
            assert(next.last() == (id, key));
        }
        if key_has_hook(&key, hook) {
            out.push((id, key));
        }
        i = i + 1;
    }
    proof {
        assert(map.entries().take(map.entries().len() as int) =~= map.entries());
    }
    out
}

/// The keys of the pools of a token pair among the pools of a map.
pub fn collect_pair(
    map: &IdMap<PoolKey>,
    token0: &Address,
    token1: &Address,
    hook: &Option<Address>,
) -> (out: Vec<PoolKey>)
    ensures
        out@ == keys_for_pair(map.entries(), *token0, *token1, *hook),
{
    let mut out: Vec<PoolKey> = Vec::new();
    let mut i: usize = 0;
    proof {
        assert(map.entries().take(0) =~= Seq::<(B256, PoolKey)>::empty());
    }
    while i < map.len()
        invariant
            i <= map.entries().len(),
            out@ == keys_for_pair(map.entries().take(i as int), *token0, *token1, *hook),
        decreases map.entries().len() - i,
    {
        let id: PoolId = map.key_at(i);
        let key: PoolKey = *map.value_at(i);
        proof {
            let next = map.entries().take(i + 1);
            assert(next.drop_last() =~= map.entries().take(i as int));
            assert(next.last() == (id, key));
        }
        if key_has_pair(&key, token0, token1, hook) {
            out.push(key);
        }
        i = i + 1;
    }
    proof {
        assert(map.entries().take(map.entries().len() as int) =~= map.entries());
    }
    out
}

/// The identifier of the first pool of a map that trades the token pair at
/// the given fee.
pub fn find_pair_and_fee(
    map: &IdMap<PoolKey>,
    token0: &Address,
    token1: &Address,
    fee: u32,
    hook: &Option<Address>,
) -> (r: Option<PoolId>)
    ensures
        r == id_for_pair_and_fee(map.entries(), 0, *token0, *token1, fee, *hook),
{
    let mut i: usize = 0;
    while i < map.len()
        invariant
            i <= map.entries().len(),
            id_for_pair_and_fee(map.entries(), 0, *token0, *token1, fee, *hook)
                == id_for_pair_and_fee(map.entries(), i as int, *token0, *token1, fee, *hook),
        decreases map.entries().len() - i,
    {
        let key: PoolKey = *map.value_at(i);
        if key_has_pair(&key, token0, token1, hook) && key.fee == fee {
            return Some(map.key_at(i));
        }
        i = i + 1;
    }
    None
}

/// What the update provider and the service ask of a registry of pools.
pub trait PoolRegistry: Sized {
    /// The identifiers under which this deployment knows a pool.
    type PoolIdSet: UniswapPoolIdSet;

    /// True for the values that a registry can have.
    spec fn valid(&self) -> bool;

    /// The key of a pool.
    spec fn spec_get(&self, pool_id: PoolId) -> Option<PoolKey>;

    /// The pools of a hook, or all pools.
    spec fn spec_pools(&self, hook: Option<Address>) -> Seq<(PoolId, PoolKey)>;

    /// True when `after` is this registry with a pool added.
    spec fn added_to(&self, after: &Self, pool_key: PoolKey) -> bool;

    /// True when `after` is this registry without a pool.
    spec fn removed_to(&self, after: &Self, pool_id: PoolId) -> bool;

    /// The identifiers of the hook's side of the pools.
    spec fn spec_all_angstrom_pool_ids(&self) -> Seq<PoolId>;

    /// The identifiers of the pool manager's side of the pools.
    spec fn spec_all_uniswap_pool_ids(&self) -> Seq<PoolId>;

    /// The hook's identifier of a pool, by the pool manager's identifier.
    spec fn spec_angstrom_pool_id(&self, pool_id: PoolId) -> Option<PoolId>;

    /// The keys of the pools that trade a token pair.
    spec fn spec_pools_by_token_pair(
        &self,
        token0: Address,
        token1: Address,
        hook: Option<Address>,
    ) -> Seq<PoolKey>;

    /// The identifier of the first pool that trades a token pair at a fee.
    spec fn spec_pool_id_by_tokens_and_fee(
        &self,
        token0: Address,
        token1: Address,
        fee: u32,
        hook: Option<Address>,
    ) -> Option<PoolId>;

    /// The identifiers of a pool, by either of them.
    spec fn spec_pool_id_set(&self, pool_id: PoolId) -> Option<Self::PoolIdSet>;

    /// True when the registry is valid, as every registry is that was made
    /// and changed by the functions of its type.
    fn check_valid(&self) -> (r: bool)
        ensures
            r == self.valid(),
    ;

    fn get(&self, pool_id: &PoolId) -> (r: Option<&PoolKey>)
        ensures
            match r {
                Some(key) => self.spec_get(*pool_id) == Some(*key),
                None => self.spec_get(*pool_id) is None,
            },
    ;

    fn pools(&self, hook: Option<Address>) -> (r: Vec<(PoolId, PoolKey)>)
        ensures
            r@ == self.spec_pools(hook),
    ;

    fn remove(&mut self, pool_id: &PoolId)
        requires
            old(self).valid(),
        ensures
            final(self).valid(),
            old(self).removed_to(final(self), *pool_id),
    ;

    fn all_angstrom_pool_ids(&self) -> (r: Vec<PoolId>)
        ensures
            r@ == self.spec_all_angstrom_pool_ids(),
    ;

    fn angstrom_pool_id_from_uniswap_pool_id(&self, pool_id: PoolId) -> (r: Option<PoolId>)
        ensures
            r == self.spec_angstrom_pool_id(pool_id),
    ;

    fn all_uniswap_pool_ids(&self) -> (r: Vec<PoolId>)
        ensures
            r@ == self.spec_all_uniswap_pool_ids(),
    ;

    fn add_new_pool(&mut self, pool_key: PoolKey)
        requires
            old(self).valid(),
        ensures
            final(self).valid(),
            old(self).added_to(final(self), pool_key),
    ;

    fn get_pools_by_token_pair(&self, token0: Address, token1: Address, hook: Option<Address>) -> (r:
        Vec<PoolKey>)
        ensures
            r@ == self.spec_pools_by_token_pair(token0, token1, hook),
    ;

    fn get_pool_id_by_tokens_and_fee(
        &self,
        token0: Address,
        token1: Address,
        fee: u32,
        hook: Option<Address>,
    ) -> (r: Option<PoolId>)
        ensures
            r == self.spec_pool_id_by_tokens_and_fee(token0, token1, fee, hook),
    ;

    fn make_pool_id_set(&self, pool_id: PoolId) -> (r: Option<Self::PoolIdSet>)
        ensures
            r == self.spec_pool_id_set(pool_id),
    ;
}

/// True when `after` is the valid registry `before` with a pool added.
pub open spec fn added_one_to<R: PoolRegistry>(before: R, after: R, pool_key: PoolKey) -> bool {
    before.valid() && before.added_to(&after, pool_key)
}

/// True when `after` is `before` with a list of pools added, in order.
pub open spec fn added_all_to<R: PoolRegistry>(before: R, after: R, pool_keys: Seq<PoolKey>) -> bool
    decreases pool_keys.len(),
{
    if pool_keys.len() == 0 {
        after == before
    } else {
        exists|mid: R|
            added_all_to(before, mid, pool_keys.drop_last()) && #[trigger] added_one_to(
                mid,
                after,
                pool_keys.last(),
            )
    }
}

/// Adds a list of pools to a registry, in order.
pub fn add_new_pools<R: PoolRegistry>(registry: &mut R, pool_keys: &Vec<PoolKey>)
    requires
        old(registry).valid(),
    ensures
        final(registry).valid(),
        added_all_to(*old(registry), *final(registry), pool_keys@),
{
    let mut i: usize = 0;
    proof {
        assert(pool_keys@.take(0) =~= Seq::<PoolKey>::empty());
    }
    while i < pool_keys.len()
        invariant
            i <= pool_keys.len(),
            registry.valid(),
            added_all_to(*old(registry), *registry, pool_keys@.take(i as int)),
        decreases pool_keys.len() - i,
    {
        let ghost mid = *registry;
        registry.add_new_pool(pool_keys[i]);
        proof {
            let next = pool_keys@.take(i + 1);
            assert(next.drop_last() =~= pool_keys@.take(i as int));
            assert(next.last() == pool_keys@[i as int]);
            assert(added_all_to(*old(registry), mid, next.drop_last()));
            assert(added_one_to(mid, *registry, next.last()));
        }
        i = i + 1;
    }
    proof {
        assert(pool_keys@.take(pool_keys.len() as int) =~= pool_keys@);
    }
}

} // verus!
