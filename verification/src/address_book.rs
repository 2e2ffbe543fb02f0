//! The contract addresses of a deployment.

use vstd::prelude::*;
use crate::primitives::Address;

verus! {

/// Contracts of the L1 deployment.
#[derive(Debug, Clone, Copy)]
pub struct L1AddressBook {
    /// The controller that configures and removes pools.
    pub controller_v1: Address,
    /// The hook contract.
    pub angstrom: Address,
}

impl L1AddressBook {
    pub fn new(controller_v1: Address, angstrom: Address) -> (r: L1AddressBook)
        ensures
            r.controller_v1 == controller_v1,
            r.angstrom == angstrom,
    {
        L1AddressBook { controller_v1, angstrom }
    }
}

/// Contracts of the L2 deployment.
#[derive(Debug, Clone, Copy)]
pub struct L2AddressBook {
    /// The factory that creates pools and announces parameter changes.
    pub angstrom_v2_factory: Address,
}

impl L2AddressBook {
    pub fn new(angstrom_v2_factory: Address) -> (r: L2AddressBook)
        ensures
            r.angstrom_v2_factory == angstrom_v2_factory,
    {
        L2AddressBook { angstrom_v2_factory }
    }
}

} // verus!
