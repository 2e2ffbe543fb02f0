//! The key that identifies a pool, and its identifier.

use vstd::prelude::*;
use crate::abi::{push_address, push_i32, push_u32, word_address, word_i32, word_u32};
use crate::fee_config::FeeConfig;
use crate::primitives::{Address, PoolId, hash, hash_of};

verus! {

/// The fee value that marks a pool whose fee is set by its hook.
pub const DYNAMIC_FEE: u32 = 0x800000;

/// The parameters that make a pool what it is.
#[derive(Clone, Copy, Debug, PartialEq, Eq, Hash, PartialOrd, Ord)]
pub struct PoolKey {
    /// The lower currency of the pool.
    pub currency0: Address,
    /// The higher currency of the pool.
    pub currency1: Address,
    /// The LP fee in ppm, a 24-bit number.
    pub fee: u32,
    /// Stride of the ticks that positions can use, a signed 24-bit number.
    pub tick_spacing: i32,
    /// The hook contract of the pool.
    pub hooks: Address,
}

impl PoolKey {
    /// The ABI encoding of the key: its five fields, one 32-byte word each.
    pub open spec fn spec_abi_encode(&self) -> Seq<u8> {
        word_address(self.currency0@) + word_address(self.currency1@) + word_u32(self.fee)
            + word_i32(self.tick_spacing) + word_address(self.hooks@)
    }

    /// The identifier of the pool: the Keccak-256 hash of the encoded key.
    pub open spec fn spec_pool_id(&self) -> PoolId {
        hash_of(self.spec_abi_encode())
    }

    /// The key with another fee.
    pub open spec fn spec_with_fee(&self, fee: u32) -> PoolKey {
        PoolKey {
            currency0: self.currency0,
            currency1: self.currency1,
            fee,
            tick_spacing: self.tick_spacing,
            hooks: self.hooks,
        }
    }

    pub fn new(
        currency0: Address,
        currency1: Address,
        fee: u32,
        tick_spacing: i32,
        hooks: Address,
    ) -> (r: PoolKey)
        ensures
            r == (PoolKey { currency0, currency1, fee, tick_spacing, hooks }),
    {
        PoolKey { currency0, currency1, fee, tick_spacing, hooks }
    }

    /// The ABI encoding of the key.
    pub fn abi_encode(&self) -> (out: Vec<u8>)
        ensures
            out@ == self.spec_abi_encode(),
            out@.len() == 160,
    {
        let mut out: Vec<u8> = Vec::new();
        push_address(&mut out, &self.currency0);
        push_address(&mut out, &self.currency1);
        push_u32(&mut out, self.fee);
        push_i32(&mut out, self.tick_spacing);
        push_address(&mut out, &self.hooks);
        proof {
            assert(out@ =~= self.spec_abi_encode());
        }
        out
    }

    /// The identifier of the pool.
    pub fn pool_id(&self) -> (id: PoolId)
        ensures
            id == self.spec_pool_id(),
    {
        let encoded = self.abi_encode();
        hash(encoded.as_slice())
    }

    /// The key with another fee.
    pub fn with_fee(&self, fee: u32) -> (r: PoolKey)
        ensures
            r == self.spec_with_fee(fee),
    {
        PoolKey {
            currency0: self.currency0,
            currency1: self.currency1,
            fee,
            tick_spacing: self.tick_spacing,
            hooks: self.hooks,
        }
    }

    /// True when the two keys have the same fields.
    pub fn same(&self, other: &PoolKey) -> (r: bool)
        ensures
            r == (*self == *other),
    {
        self.currency0.same(&other.currency0) && self.currency1.same(&other.currency1) && self.fee
            == other.fee && self.tick_spacing == other.tick_spacing && self.hooks.same(
            &other.hooks,
        )
    }
}

impl crate::id_map::MapKey for PoolKey {
    fn same_key(&self, other: &PoolKey) -> (r: bool) {
        self.same(other)
    }
}

/// A pool key together with the fee configuration of the pool.
#[derive(Clone, Copy, Debug, PartialEq, Eq, Hash, PartialOrd, Ord)]
pub struct PoolKeyWithFees<F: FeeConfig> {
    pub pool_key: PoolKey,
    pub fee_cfg: F,
}

} // verus!
