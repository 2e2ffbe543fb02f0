//! Fee models of the two supported deployments and the MEV tax of the L2 hook.

use vstd::prelude::*;
use crate::u256::U256;

verus! {

/// Abstract gas cost of one swap that the L2 hook taxes.
pub const L2_SWAP_TAXED_GAS: u128 = 100_000;

/// Multiplier applied to the taxed priority fee.
pub const L2_SWAP_MEV_TAX_FACTOR: u128 = 99;

/// The MEV tax owed for a priority fee, as a mathematical integer: nothing up
/// to the floor, and factor times taxed gas, which is 9,900,000, for every
/// wei above it.
pub open spec fn l2_mev_tax(priority_fee_wei: nat, floor: nat) -> nat {
    if priority_fee_wei <= floor {
        0
    } else {
        9_900_000 * ((priority_fee_wei - floor) as nat)
    }
}

/// The MEV tax is zero up to the floor and `99 * 100_000` times the excess
/// of the priority fee over the floor above it.
pub proof fn lemma_l2_mev_tax_formula(priority_fee_wei: nat, floor: nat)
    ensures
        priority_fee_wei <= floor ==> l2_mev_tax(priority_fee_wei, floor) == 0,
        priority_fee_wei > floor ==> l2_mev_tax(priority_fee_wei, floor) == 99 * 100_000 * (
        priority_fee_wei - floor),
{
    if priority_fee_wei > floor {
        let above = priority_fee_wei - floor;
        assert(9_900_000 * above == 99 * 100_000 * above) by (nonlinear_arith);
    }
}

/// MEV tax charged by the L2 hook for a priority fee, given the hook's floor.
pub fn calculate_l2_mev_tax(priority_fee_wei: u128, priority_fee_tax_floor: u128) -> (tax: u128)
    requires
        l2_mev_tax(priority_fee_wei as nat, priority_fee_tax_floor as nat) <= u128::MAX,
    ensures
        tax == l2_mev_tax(priority_fee_wei as nat, priority_fee_tax_floor as nat),
{
    if priority_fee_wei <= priority_fee_tax_floor {
        0
    } else {
        let above: u128 = priority_fee_wei - priority_fee_tax_floor;
        assert(L2_SWAP_MEV_TAX_FACTOR * L2_SWAP_TAXED_GAS * above == 9_900_000 * above)
            by (nonlinear_arith)
            requires
                L2_SWAP_MEV_TAX_FACTOR == 99,
                L2_SWAP_TAXED_GAS == 100_000,
        ;
        L2_SWAP_MEV_TAX_FACTOR * L2_SWAP_TAXED_GAS * above
    }
}

/// MEV tax charged by the L2 hook for a priority fee, at full width: the tax
/// of a priority fee of 128 bits can need up to 152.
pub fn l2_mev_tax_amount(priority_fee_wei: u128, priority_fee_tax_floor: u128) -> (tax: U256)
    ensures
        tax@ == l2_mev_tax(priority_fee_wei as nat, priority_fee_tax_floor as nat),
{
    if priority_fee_wei <= priority_fee_tax_floor {
        U256::zero()
    } else {
        let above: u128 = priority_fee_wei - priority_fee_tax_floor;
        assert(9_900_000 * (above as nat) == (above as nat) * 9_900_000) by (nonlinear_arith);
        U256::from_product(above, 9_900_000)
    }
}

/// What every fee model answers about a pool.
pub trait FeeConfig: Sized + Copy {
    /// The update message that this fee model accepts.
    type Update: Copy;

    /// Fee taken inside each swap step, in ppm.
    spec fn spec_swap_fee(&self) -> int;

    /// Fee taken from the output after the swap, in ppm.
    spec fn spec_protocol_fee(&self) -> int;

    /// The stored bundle fee, where the model has one.
    spec fn spec_bundle_fee(&self) -> Option<u32>;

    /// Total fee of a swap, in ppm.
    spec fn spec_fee(&self, bundle: bool) -> int;

    /// The configuration after an update.
    spec fn spec_update(self, update: Self::Update) -> Self;

    /// The MEV tax that this model charges for a priority fee.
    spec fn spec_mev_tax(&self, priority_fee_wei: nat) -> nat;

    fn swap_fee(&self) -> (fee: u32)
        ensures
            fee == self.spec_swap_fee(),
    ;

    fn protocol_fee(&self) -> (fee: u32)
        requires
            self.spec_protocol_fee() <= u32::MAX,
        ensures
            fee == self.spec_protocol_fee(),
    ;

    fn bundle_fee(&self) -> (fee: Option<u32>)
        ensures
            fee == self.spec_bundle_fee(),
    ;

    fn fee(&self, bundle: bool) -> (fee: u32)
        requires
            self.spec_fee(bundle) <= u32::MAX,
        ensures
            fee == self.spec_fee(bundle),
    ;

    /// Total fee of a swap, or `None` where it does not fit in 32 bits.
    fn checked_fee(&self, bundle: bool) -> (fee: Option<u32>)
        ensures
            fee.is_some() <==> self.spec_fee(bundle) <= u32::MAX,
            fee.is_some() ==> fee.unwrap() == self.spec_fee(bundle),
    ;

    fn update_fees(&mut self, update: Self::Update)
        ensures
            *final(self) == old(self).spec_update(update),
    ;

    /// The MEV tax that this model charges for a priority fee, in wei.
    fn mev_tax(&self, priority_fee_wei: u128) -> (tax: U256)
        ensures
            tax@ == self.spec_mev_tax(priority_fee_wei as nat),
    ;
}

/// Fees of a pool behind the L1 hook, each in ppm.
#[derive(Debug, Clone, Copy, PartialEq, Eq, Structural)]
pub struct L1FeeConfiguration {
    /// Fee of a swap executed inside a bundle.
    pub bundle_fee: u32,
    /// Fee taken during an unlocked swap.
    pub swap_fee: u32,
    /// Fee taken from the output of an unlocked swap.
    pub protocol_fee: u32,
}

/// Replacement of all three L1 fees at once.
#[derive(Debug, Clone, Copy, PartialEq, Eq, Structural)]
pub struct L1FeeUpdate {
    pub bundle_fee: u32,
    pub swap_fee: u32,
    pub protocol_fee: u32,
}

impl FeeConfig for L1FeeConfiguration {
    type Update = L1FeeUpdate;

    open spec fn spec_swap_fee(&self) -> int {
        self.swap_fee as int
    }

    open spec fn spec_protocol_fee(&self) -> int {
        self.protocol_fee as int
    }

    open spec fn spec_bundle_fee(&self) -> Option<u32> {
        Some(self.bundle_fee)
    }

    open spec fn spec_fee(&self, bundle: bool) -> int {
        if bundle {
            self.bundle_fee as int
        } else {
            self.swap_fee + self.protocol_fee
        }
    }

    open spec fn spec_update(self, update: L1FeeUpdate) -> Self {
        L1FeeConfiguration {
            bundle_fee: update.bundle_fee,
            swap_fee: update.swap_fee,
            protocol_fee: update.protocol_fee,
        }
    }

    open spec fn spec_mev_tax(&self, priority_fee_wei: nat) -> nat {
        0
    }

    fn swap_fee(&self) -> (fee: u32) {
        self.swap_fee
    }

    fn protocol_fee(&self) -> (fee: u32) {
        self.protocol_fee
    }

    fn bundle_fee(&self) -> (fee: Option<u32>) {
        Some(self.bundle_fee)
    }

    fn fee(&self, bundle: bool) -> (fee: u32) {
        if bundle {
            self.bundle_fee
        } else {
            self.swap_fee + self.protocol_fee
        }
    }

    fn checked_fee(&self, bundle: bool) -> (fee: Option<u32>) {
        if bundle {
            Some(self.bundle_fee)
        } else {
            self.swap_fee.checked_add(self.protocol_fee)
        }
    }

    fn update_fees(&mut self, update: L1FeeUpdate) {
        self.bundle_fee = update.bundle_fee;
        self.protocol_fee = update.protocol_fee;
        self.swap_fee = update.swap_fee;
    }

    fn mev_tax(&self, priority_fee_wei: u128) -> (tax: U256) {
        U256::zero()
    }
}

/// Fees and tax parameters of a pool behind the L2 hook.
#[derive(Debug, Clone, Copy, PartialEq, Eq, Structural)]
pub struct L2FeeConfiguration {
    pub is_initialized: bool,
    pub creator_tax_fee_e6: u32,
    pub protocol_tax_fee_e6: u32,
    pub creator_swap_fee_e6: u32,
    pub protocol_swap_fee_e6: u32,
    /// Priority fee, in wei, up to which no MEV tax is charged.
    pub priority_fee_tax_floor: u128,
    pub jit_tax_enabled: bool,
    pub withdraw_only: bool,
}

/// Change of some L2 parameters: a field that is `None` leaves its parameter
/// as it is.
#[derive(Debug, Clone, Copy, PartialEq, Eq, Structural)]
pub struct L2FeeUpdate {
    pub protocol_tax_fee_e6: Option<u32>,
    pub protocol_swap_fee_e6: Option<u32>,
    pub priority_fee_tax_floor: Option<u128>,
    pub jit_tax_enabled: Option<bool>,
    pub withdraw_only: Option<bool>,
}

impl FeeConfig for L2FeeConfiguration {
    type Update = L2FeeUpdate;

    open spec fn spec_swap_fee(&self) -> int {
        0
    }

    open spec fn spec_protocol_fee(&self) -> int {
        self.creator_swap_fee_e6 + self.protocol_swap_fee_e6
    }

    open spec fn spec_bundle_fee(&self) -> Option<u32> {
        None
    }

    open spec fn spec_fee(&self, bundle: bool) -> int {
        self.creator_swap_fee_e6 + self.protocol_swap_fee_e6
    }

    open spec fn spec_update(self, update: L2FeeUpdate) -> Self {
        L2FeeConfiguration {
            is_initialized: self.is_initialized,
            creator_tax_fee_e6: self.creator_tax_fee_e6,
            protocol_tax_fee_e6: match update.protocol_tax_fee_e6 {
                Some(fee) => fee,
                None => self.protocol_tax_fee_e6,
            },
            creator_swap_fee_e6: self.creator_swap_fee_e6,
            protocol_swap_fee_e6: match update.protocol_swap_fee_e6 {
                Some(fee) => fee,
                None => self.protocol_swap_fee_e6,
            },
            priority_fee_tax_floor: match update.priority_fee_tax_floor {
                Some(floor) => floor,
                None => self.priority_fee_tax_floor,
            },
            jit_tax_enabled: match update.jit_tax_enabled {
                Some(enabled) => enabled,
                None => self.jit_tax_enabled,
            },
            withdraw_only: match update.withdraw_only {
                Some(flag) => flag,
                None => self.withdraw_only,
            },
        }
    }

    open spec fn spec_mev_tax(&self, priority_fee_wei: nat) -> nat {
        l2_mev_tax(priority_fee_wei, self.priority_fee_tax_floor as nat)
    }

    fn swap_fee(&self) -> (fee: u32) {
        0
    }

    fn protocol_fee(&self) -> (fee: u32) {
        self.creator_swap_fee_e6 + self.protocol_swap_fee_e6
    }

    fn bundle_fee(&self) -> (fee: Option<u32>) {
        None
    }

    fn fee(&self, bundle: bool) -> (fee: u32) {
        self.creator_swap_fee_e6 + self.protocol_swap_fee_e6
    }

    fn checked_fee(&self, bundle: bool) -> (fee: Option<u32>) {
        self.creator_swap_fee_e6.checked_add(self.protocol_swap_fee_e6)
    }

    fn update_fees(&mut self, update: L2FeeUpdate) {
        if let Some(fee) = update.protocol_tax_fee_e6 {
            self.protocol_tax_fee_e6 = fee;
        }
        if let Some(fee) = update.protocol_swap_fee_e6 {
            self.protocol_swap_fee_e6 = fee;
        }
        if let Some(floor) = update.priority_fee_tax_floor {
            self.priority_fee_tax_floor = floor;
        }
        if let Some(enabled) = update.jit_tax_enabled {
            self.jit_tax_enabled = enabled;
        }
        if let Some(flag) = update.withdraw_only {
            self.withdraw_only = flag;
        }
    }

    fn mev_tax(&self, priority_fee_wei: u128) -> (tax: U256) {
        l2_mev_tax_amount(priority_fee_wei, self.priority_fee_tax_floor)
    }
}

/// An L2 configuration charges no tax up to its floor and `99 * 100_000`
/// for every wei of priority fee above it.
pub proof fn lemma_l2_mev_tax(cfg: L2FeeConfiguration, priority_fee_wei: u128)
    ensures
        priority_fee_wei <= cfg.priority_fee_tax_floor ==> cfg.spec_mev_tax(priority_fee_wei as nat)
            == 0,
        priority_fee_wei > cfg.priority_fee_tax_floor ==> cfg.spec_mev_tax(priority_fee_wei as nat)
            == 99 * 100_000 * (priority_fee_wei - cfg.priority_fee_tax_floor),
{
    lemma_l2_mev_tax_formula(priority_fee_wei as nat, cfg.priority_fee_tax_floor as nat);
}

} // verus!
