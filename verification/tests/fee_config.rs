use uni_v4::u256::U256;
use uni_v4::fee_config::{
    l2_mev_tax_amount,
    calculate_l2_mev_tax, FeeConfig, L1FeeConfiguration, L1FeeUpdate, L2FeeConfiguration,
    L2FeeUpdate,
};

fn l2_config(floor: u128) -> L2FeeConfiguration {
    L2FeeConfiguration {
        is_initialized: true,
        creator_tax_fee_e6: 10,
        protocol_tax_fee_e6: 20,
        creator_swap_fee_e6: 300,
        protocol_swap_fee_e6: 400,
        priority_fee_tax_floor: floor,
        jit_tax_enabled: false,
        withdraw_only: false,
    }
}

#[test]
fn mev_tax_above_floor() {
    assert_eq!(calculate_l2_mev_tax(150, 100), 495_000_000);
    assert_eq!(l2_config(100).mev_tax(150), U256::from_u64(495_000_000));
}

#[test]
fn mev_tax_at_or_below_floor_is_zero() {
    assert_eq!(calculate_l2_mev_tax(100, 100), 0);
    assert_eq!(calculate_l2_mev_tax(0, 100), 0);
    assert_eq!(calculate_l2_mev_tax(99, 100), 0);
    assert_eq!(calculate_l2_mev_tax(1, 0), 9_900_000);
}

#[test]
fn l1_never_charges_mev_tax() {
    let cfg = L1FeeConfiguration { bundle_fee: 500, swap_fee: 300, protocol_fee: 200 };
    assert_eq!(cfg.mev_tax(1_000_000), U256::zero());
}

#[test]
fn l1_bundle_and_unlocked_fee() {
    let cfg = L1FeeConfiguration { bundle_fee: 500, swap_fee: 300, protocol_fee: 200 };
    assert_eq!(cfg.fee(true), 500);
    assert_eq!(cfg.fee(false), 500);
    assert_eq!(cfg.swap_fee(), 300);
    assert_eq!(cfg.protocol_fee(), 200);
    assert_eq!(cfg.bundle_fee(), Some(500));
    assert_eq!(cfg.checked_fee(false), Some(500));
}

#[test]
fn l1_update_replaces_all_three() {
    let mut cfg = L1FeeConfiguration { bundle_fee: 500, swap_fee: 300, protocol_fee: 200 };
    cfg.update_fees(L1FeeUpdate { bundle_fee: 1, swap_fee: 2, protocol_fee: 3 });
    assert_eq!(cfg, L1FeeConfiguration { bundle_fee: 1, swap_fee: 2, protocol_fee: 3 });
}

#[test]
fn l1_checked_fee_overflow() {
    let cfg = L1FeeConfiguration { bundle_fee: 0, swap_fee: u32::MAX, protocol_fee: 1 };
    assert_eq!(cfg.checked_fee(false), None);
    assert_eq!(cfg.checked_fee(true), Some(0));
}

#[test]
fn l2_fees() {
    let cfg = l2_config(0);
    assert_eq!(cfg.swap_fee(), 0);
    assert_eq!(cfg.protocol_fee(), 700);
    assert_eq!(cfg.fee(true), 700);
    assert_eq!(cfg.fee(false), 700);
    assert_eq!(cfg.bundle_fee(), None);
}

#[test]
fn l2_update_changes_only_given_fields() {
    let mut cfg = l2_config(7);
    cfg.update_fees(L2FeeUpdate {
        protocol_tax_fee_e6: Some(99),
        protocol_swap_fee_e6: None,
        priority_fee_tax_floor: None,
        jit_tax_enabled: Some(true),
        withdraw_only: None,
    });
    let mut expected = l2_config(7);
    expected.protocol_tax_fee_e6 = 99;
    expected.jit_tax_enabled = true;
    assert_eq!(cfg, expected);

    cfg.update_fees(L2FeeUpdate {
        protocol_tax_fee_e6: None,
        protocol_swap_fee_e6: Some(5),
        priority_fee_tax_floor: Some(1000),
        jit_tax_enabled: None,
        withdraw_only: Some(true),
    });
    expected.protocol_swap_fee_e6 = 5;
    expected.priority_fee_tax_floor = 1000;
    expected.withdraw_only = true;
    assert_eq!(cfg, expected);
}

#[test]
fn mev_tax_at_full_width() {
    // 9_900_000 * (2^128 - 1) does not fit in 128 bits
    let tax = l2_mev_tax_amount(u128::MAX, 0);
    assert_eq!(tax.to_u128(), None);
    let expected = U256::from_product(u128::MAX, 9_900_000);
    assert_eq!(tax, expected);
    assert_eq!(l2_mev_tax_amount(150, 100), U256::from_u64(495_000_000));
    assert_eq!(l2_mev_tax_amount(100, 100), U256::zero());
}
