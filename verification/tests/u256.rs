use uni_v4::u256::{I256, U256};

fn reference(x: &U256) -> alloy_primitives::U256 {
    alloy_primitives::U256::from_limbs(x.limbs())
}

fn samples() -> Vec<U256> {
    vec![
        U256::zero(),
        U256::from_u64(1),
        U256::from_u64(u64::MAX),
        U256::from_u128(u128::MAX),
        U256::new(0, 0, 1, 0),
        U256::new(5, 0, u64::MAX, 7),
        U256::new(0, 0, 0, 1 << 63),
        U256::new(u64::MAX, u64::MAX, u64::MAX, (1 << 63) - 1),
        U256::max_value(),
    ]
}

#[test]
fn addition_and_subtraction_match_reference() {
    for a in samples() {
        for b in samples() {
            let sum = reference(&a).checked_add(reference(&b));
            assert_eq!(a.checked_add(&b).map(|v| reference(&v)), sum);
            let difference = reference(&a).checked_sub(reference(&b));
            assert_eq!(a.checked_sub(&b).map(|v| reference(&v)), difference);
        }
    }
}

#[test]
fn order_matches_reference() {
    for a in samples() {
        for b in samples() {
            assert_eq!(a.lt(&b), reference(&a) < reference(&b));
            assert_eq!(a.le(&b), reference(&a) <= reference(&b));
            assert_eq!(a.gt(&b), reference(&a) > reference(&b));
            assert_eq!(a.ge(&b), reference(&a) >= reference(&b));
            assert_eq!(a.is(&b), reference(&a) == reference(&b));
        }
    }
}

#[test]
fn conversions() {
    assert_eq!(U256::from_u128(u128::MAX).to_u128(), Some(u128::MAX));
    assert_eq!(U256::new(0, 0, 1, 0).to_u128(), None);
    assert_eq!(U256::from_limbs([1, 2, 3, 4]), U256::new(1, 2, 3, 4));
    assert_eq!(U256::new(1, 2, 3, 4).limbs(), [1, 2, 3, 4]);
    assert_eq!(U256::from_halves(1, 2), U256::new(2, 0, 1, 0));
    assert_eq!(
        reference(&U256::from_product(u128::MAX, u64::MAX)),
        alloy_primitives::U256::from(u128::MAX) * alloy_primitives::U256::from(u64::MAX)
    );
    assert_eq!(U256::from_product(7, 6), U256::from_u64(42));
    assert!(U256::zero().is_zero());
    assert!(!U256::new(0, 0, 0, 1).is_zero());
}

#[test]
fn bits() {
    let word = U256::zero().with_bit(0).with_bit(64).with_bit(200).with_bit(255);
    assert_eq!(word, U256::new(1, 1, 0, (1 << 63) | (1 << 8)));
    for i in 0..=255u8 {
        assert_eq!(word.get_bit(i), [0u8, 64, 200, 255].contains(&i));
        assert_eq!(word.get_bit(i), reference(&word).bit(i as usize));
    }
    assert_eq!(word.without_bit(64), U256::new(1, 0, 0, (1 << 63) | (1 << 8)));
    assert_eq!(word.without_bit(65), word);
    assert_eq!(word.highest_bit_at_or_below(255), Some(255));
    assert_eq!(word.highest_bit_at_or_below(254), Some(200));
    assert_eq!(word.highest_bit_at_or_below(199), Some(64));
    assert_eq!(word.highest_bit_at_or_below(63), Some(0));
    assert_eq!(word.without_bit(0).highest_bit_at_or_below(63), None);
    assert_eq!(word.lowest_bit_at_or_above(0), Some(0));
    assert_eq!(word.lowest_bit_at_or_above(1), Some(64));
    assert_eq!(word.lowest_bit_at_or_above(65), Some(200));
    assert_eq!(word.lowest_bit_at_or_above(201), Some(255));
    assert_eq!(word.without_bit(255).lowest_bit_at_or_above(201), None);
}

#[test]
fn signed_values() {
    let reference_of = |x: &I256| alloy_primitives::I256::from_raw(reference(&x.raw));
    for v in [0i128, 1, -1, 42, -42, i128::MAX, i128::MIN, 1 << 64, -(1 << 64)] {
        let x = I256::from_i128(v);
        assert_eq!(reference_of(&x), alloy_primitives::I256::try_from(v).unwrap());
        assert_eq!(x.to_i128(), Some(v));
        assert_eq!(x.is_negative(), v < 0);
        assert_eq!(x.is_positive(), v > 0);
        assert_eq!(x.is_zero(), v == 0);
        assert_eq!(reference(&x.unsigned_abs()), reference_of(&x).unsigned_abs());
        assert_eq!(reference_of(&x.wrapping_neg()), reference_of(&x).wrapping_neg());
        assert_eq!(x.checked_neg().map(|n| reference_of(&n)), reference_of(&x).checked_neg());
    }
    assert_eq!(reference_of(&I256::max_value()), alloy_primitives::I256::MAX);
    assert_eq!(reference_of(&I256::min_value()), alloy_primitives::I256::MIN);
    assert_eq!(I256::max_value().to_i128(), None);
    assert_eq!(I256::min_value().to_i128(), None);
    assert_eq!(I256::min_value().checked_neg(), None);
    assert_eq!(I256::min_value().wrapping_neg(), I256::min_value());
    assert_eq!(reference(&I256::min_value().unsigned_abs()), alloy_primitives::U256::from(1) << 255);
    assert_eq!(I256::from_magnitude(U256::from_u64(9)), Some(I256::from_i128(9)));
    assert_eq!(I256::from_magnitude(U256::new(0, 0, 0, 1 << 63)), None);
    assert_eq!(I256::from_raw(U256::max_value()), I256::from_i128(-1));
    assert_eq!(I256::zero(), I256::from_i128(0));
}
