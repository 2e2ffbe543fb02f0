//! The two deployments and what each of them instantiates.

use vstd::prelude::*;
use crate::address_book::{L1AddressBook, L2AddressBook};
use crate::fee_config::{FeeConfig, L1FeeConfiguration, L2FeeConfiguration};
use crate::pool_registry::PoolRegistry;
use crate::pool_registry::l1::L1PoolRegistry;
use crate::pool_registry::l2::L2PoolRegistry;
use crate::pool_updates::{L1PoolUpdate, L2PoolUpdate, UpdatePool};

verus! {

/// The set of types that a deployment brings: its fee model, its own pool
/// updates, its address book and its registry.
pub trait V4Network: Sized + Copy {
    type FeeConfig: FeeConfig;

    type PoolUpdate: UpdatePool<Self::FeeConfig> + Copy;

    type AddressBook: Copy;

    type PoolRegistry: PoolRegistry;
}

/// The L1 deployment.
#[derive(Debug, Clone, Copy, PartialEq, Eq)]
pub struct Ethereum;

/// The L2 deployment.
#[derive(Debug, Clone, Copy, PartialEq, Eq)]
pub struct Optimism;

impl V4Network for Ethereum {
    type FeeConfig = L1FeeConfiguration;

    type PoolUpdate = L1PoolUpdate;

    type AddressBook = L1AddressBook;

    type PoolRegistry = L1PoolRegistry;
}

impl V4Network for Optimism {
    type FeeConfig = L2FeeConfiguration;

    type PoolUpdate = L2PoolUpdate;

    type AddressBook = L2AddressBook;

    type PoolRegistry = L2PoolRegistry;
}

} // verus!
