//! 256-bit integers as four 64-bit limbs: the numbers of the fixed-point
//! arithmetic and the words of the tick bitmap.

use vstd::prelude::*;

verus! {

/// 2^256, one more than the largest value of a [`U256`].
pub open spec fn pow2_256() -> nat {
    115792089237316195423570985008687907853269984665640564039457584007913129639936nat
}

/// 2^255, the magnitude of the smallest [`I256`].
pub open spec fn pow2_255() -> nat {
    57896044618658097711785492504343953926634992332820282019728792003956564819968nat
}

/// An unsigned 256-bit integer, least significant limb first.
#[derive(Clone, Copy, Debug, PartialEq, Eq, Structural, Hash)]
pub struct U256 {
    pub l0: u64,
    pub l1: u64,
    pub l2: u64,
    pub l3: u64,
}

impl View for U256 {
    type V = nat;

    /// The number that the limbs stand for.
    closed spec fn view(&self) -> nat {
        self.l0 as nat + self.l1 as nat * 18446744073709551616nat + self.l2 as nat
            * 340282366920938463463374607431768211456nat + self.l3 as nat
            * 6277101735386680763835789423207666416102355444464034512896nat
    }
}

/// Bit `j` of a limb, for `j` below 64.
pub open spec fn limb_bit(x: u64, j: u64) -> bool {
    (x >> j) & 1 == 1
}

proof fn lemma_limb_zero(j: u64)
    requires
        j < 64,
    ensures
        !limb_bit(0, j),
{
    assert((0u64 >> j) & 1 != 1) by (bit_vector)
        requires
            j < 64,
    ;
}

proof fn lemma_limb_set(x: u64, k: u64, j: u64)
    requires
        k < 64,
        j < 64,
    ensures
        limb_bit(x | (1u64 << k), j) == (j == k || limb_bit(x, j)),
{
    assert((((x | (1u64 << k)) >> j) & 1 == 1) == (j == k || ((x >> j) & 1 == 1)))
        by (bit_vector)
        requires
            k < 64,
            j < 64,
    ;
}

proof fn lemma_limb_clear(x: u64, k: u64, j: u64)
    requires
        k < 64,
        j < 64,
    ensures
        limb_bit(x & !(1u64 << k), j) == (j != k && limb_bit(x, j)),
{
    assert((((x & !(1u64 << k)) >> j) & 1 == 1) == (j != k && ((x >> j) & 1 == 1)))
        by (bit_vector)
        requires
            k < 64,
            j < 64,
    ;
}

impl U256 {
    /// Limb `i` of the number, for `i` below 4.
    pub open spec fn limb(self, i: int) -> u64 {
        if i == 0 {
            self.l0
        } else if i == 1 {
            self.l1
        } else if i == 2 {
            self.l2
        } else {
            self.l3
        }
    }

    /// True when bit `i` of the number is set, for `i` below 256.
    pub open spec fn bit(self, i: int) -> bool {
        limb_bit(self.limb(i / 64), (i % 64) as u64)
    }

    pub fn new(l0: u64, l1: u64, l2: u64, l3: u64) -> (r: U256)
        ensures
            r == (U256 { l0, l1, l2, l3 }),
    {
        U256 { l0, l1, l2, l3 }
    }

    /// The number with the given limbs, least significant first.
    pub fn from_limbs(limbs: [u64; 4]) -> (r: U256)
        ensures
            r == (U256 { l0: limbs[0], l1: limbs[1], l2: limbs[2], l3: limbs[3] }),
    {
        U256 { l0: limbs[0], l1: limbs[1], l2: limbs[2], l3: limbs[3] }
    }

    /// The limbs of the number, least significant first.
    pub fn limbs(&self) -> (r: [u64; 4])
        ensures
            r[0] == self.l0,
            r[1] == self.l1,
            r[2] == self.l2,
            r[3] == self.l3,
    {
        [self.l0, self.l1, self.l2, self.l3]
    }

    pub fn zero() -> (r: U256)
        ensures
            r@ == 0,
            r == (U256 { l0: 0, l1: 0, l2: 0, l3: 0 }),
            forall|i: int| 0 <= i < 256 ==> !#[trigger] r.bit(i),
    {
        let r = U256 { l0: 0, l1: 0, l2: 0, l3: 0 };
        proof {
            assert forall|i: int| 0 <= i < 256 implies !#[trigger] r.bit(i) by {
                lemma_limb_zero((i % 64) as u64);
            }
        }
        r
    }

    /// The largest value, 2^256 - 1.
    pub fn max_value() -> (r: U256)
        ensures
            r@ == pow2_256() - 1,
    {
        U256 {
            l0: 0xffff_ffff_ffff_ffff,
            l1: 0xffff_ffff_ffff_ffff,
            l2: 0xffff_ffff_ffff_ffff,
            l3: 0xffff_ffff_ffff_ffff,
        }
    }

    pub fn from_u64(x: u64) -> (r: U256)
        ensures
            r@ == x,
    {
        U256 { l0: x, l1: 0, l2: 0, l3: 0 }
    }

    pub fn from_u128(x: u128) -> (r: U256)
        ensures
            r@ == x,
    {
        let lo: u64 = (x % 0x1_0000_0000_0000_0000u128) as u64;
        let hi: u64 = (x / 0x1_0000_0000_0000_0000u128) as u64;
        U256 { l0: lo, l1: hi, l2: 0, l3: 0 }
    }

    /// The number whose upper and lower 128 bits are given.
    pub fn from_halves(high: u128, low: u128) -> (r: U256)
        ensures
            r@ == high as nat * 340282366920938463463374607431768211456nat + low as nat,
    {
        let l0: u64 = (low % 0x1_0000_0000_0000_0000u128) as u64;
        let l1: u64 = (low / 0x1_0000_0000_0000_0000u128) as u64;
        let l2: u64 = (high % 0x1_0000_0000_0000_0000u128) as u64;
        let l3: u64 = (high / 0x1_0000_0000_0000_0000u128) as u64;
        assert(low == l0 + l1 * 18446744073709551616);
        assert(high == l2 + l3 * 18446744073709551616);
        assert((l2 + l3 * 18446744073709551616) * 340282366920938463463374607431768211456
            == l2 * 340282366920938463463374607431768211456 + l3
            * 6277101735386680763835789423207666416102355444464034512896) by (nonlinear_arith);
        U256 { l0, l1, l2, l3 }
    }

    /// The product of a 128-bit and a 64-bit number.
    pub fn from_product(a: u128, b: u64) -> (r: U256)
        ensures
            r@ == a as nat * b as nat,
    {
        let lo: u128 = a % 0x1_0000_0000_0000_0000u128;
        let hi: u128 = a / 0x1_0000_0000_0000_0000u128;
        assert(lo * b <= 0xffff_ffff_ffff_ffff * 0xffff_ffff_ffff_ffff) by (nonlinear_arith)
            requires
                lo <= 0xffff_ffff_ffff_ffff,
                b <= 0xffff_ffff_ffff_ffff,
        ;
        assert(hi * b <= 0xffff_ffff_ffff_ffff * 0xffff_ffff_ffff_ffff) by (nonlinear_arith)
            requires
                hi <= 0xffff_ffff_ffff_ffff,
                b <= 0xffff_ffff_ffff_ffff,
        ;
        let low_product: u128 = lo * (b as u128);
        let high_product: u128 = hi * (b as u128);
        let low_part = U256::from_u128(low_product);
        let high_part = U256 {
            l0: 0,
            l1: (high_product % 0x1_0000_0000_0000_0000u128) as u64,
            l2: (high_product / 0x1_0000_0000_0000_0000u128) as u64,
            l3: 0,
        };
        assert(high_part@ == high_product * 18446744073709551616);
        assert(a as nat * b as nat == low_product + high_product * 18446744073709551616) by (nonlinear_arith)
            requires
                a == lo + hi * 18446744073709551616,
                low_product == lo * b,
                high_product == hi * b,
        ;
        low_part.checked_add(&high_part).unwrap()
    }

    /// The value as a `u128`, where it fits.
    pub fn to_u128(&self) -> (r: Option<u128>)
        ensures
            r.is_some() <==> self@ <= u128::MAX,
            r.is_some() ==> r.unwrap() == self@,
    {
        if self.l2 == 0 && self.l3 == 0 {
            let hi: u128 = self.l1 as u128;
            let lo: u128 = self.l0 as u128;
            Some(hi * 0x1_0000_0000_0000_0000u128 + lo)
        } else {
            None
        }
    }

    pub fn is_zero(&self) -> (r: bool)
        ensures
            r == (self@ == 0),
            r ==> forall|i: int| 0 <= i < 256 ==> !#[trigger] self.bit(i),
    {
        let r = self.l0 == 0 && self.l1 == 0 && self.l2 == 0 && self.l3 == 0;
        proof {
            if self@ == 0 {
                Self::lemma_value_injective(*self, U256 { l0: 0, l1: 0, l2: 0, l3: 0 });
            }
            if r {
                assert forall|i: int| 0 <= i < 256 implies !#[trigger] self.bit(i) by {
                    lemma_limb_zero((i % 64) as u64);
                }
            }
        }
        r
    }

    /// The value of a number is the sum of its limbs, each weighted by its
    /// power of 2^64.
    pub proof fn lemma_value(a: U256)
        ensures
            a@ == a.l0 as nat + a.l1 as nat * 18446744073709551616nat + a.l2 as nat
                * 340282366920938463463374607431768211456nat + a.l3 as nat
                * 6277101735386680763835789423207666416102355444464034512896nat,
    {
    }

    /// Two numbers with the same value have the same limbs.
    pub proof fn lemma_value_injective(a: U256, b: U256)
        requires
            a@ == b@,
        ensures
            a == b,
    {
        let pa2: int = a.l0 as int + a.l1 as int * 18446744073709551616 + a.l2 as int
            * 340282366920938463463374607431768211456;
        let pb2: int = b.l0 as int + b.l1 as int * 18446744073709551616 + b.l2 as int
            * 340282366920938463463374607431768211456;
        assert(0 <= pa2 < 6277101735386680763835789423207666416102355444464034512896);
        assert(0 <= pb2 < 6277101735386680763835789423207666416102355444464034512896);
        assert(a.l3 == b.l3) by {
            if a.l3 < b.l3 {
                assert(a.l3 + 1 <= b.l3);
            } else if b.l3 < a.l3 {
                assert(b.l3 + 1 <= a.l3);
            }
        }
        assert(pa2 == pb2);
        let pa1: int = a.l0 as int + a.l1 as int * 18446744073709551616;
        let pb1: int = b.l0 as int + b.l1 as int * 18446744073709551616;
        assert(0 <= pa1 < 340282366920938463463374607431768211456);
        assert(0 <= pb1 < 340282366920938463463374607431768211456);
        assert(a.l2 == b.l2) by {
            if a.l2 < b.l2 {
                assert(a.l2 + 1 <= b.l2);
            } else if b.l2 < a.l2 {
                assert(b.l2 + 1 <= a.l2);
            }
        }
        assert(pa1 == pb1);
        assert(a.l1 == b.l1) by {
            if a.l1 < b.l1 {
                assert(a.l1 + 1 <= b.l1);
            } else if b.l1 < a.l1 {
                assert(b.l1 + 1 <= a.l1);
            }
        }
    }

    /// Every value is below 2^256.
    pub proof fn lemma_value_bound(a: U256)
        ensures
            a@ < pow2_256(),
    {
    }

    pub fn lt(&self, other: &U256) -> (r: bool)
        ensures
            r == (self@ < other@),
    {
        if self.l3 != other.l3 {
            self.l3 < other.l3
        } else if self.l2 != other.l2 {
            self.l2 < other.l2
        } else if self.l1 != other.l1 {
            self.l1 < other.l1
        } else {
            self.l0 < other.l0
        }
    }

    pub fn le(&self, other: &U256) -> (r: bool)
        ensures
            r == (self@ <= other@),
    {
        !other.lt(self)
    }

    pub fn gt(&self, other: &U256) -> (r: bool)
        ensures
            r == (self@ > other@),
    {
        other.lt(self)
    }

    pub fn ge(&self, other: &U256) -> (r: bool)
        ensures
            r == (self@ >= other@),
    {
        !self.lt(other)
    }

    /// Same value: equal limbs.
    pub fn is(&self, other: &U256) -> (r: bool)
        ensures
            r == (self@ == other@),
            r == (*self == *other),
    {
        proof {
            if self@ == other@ {
                Self::lemma_value_injective(*self, *other);
            }
        }
        self.l0 == other.l0 && self.l1 == other.l1 && self.l2 == other.l2 && self.l3 == other.l3
    }

    /// The sum, or `None` where it does not fit in 256 bits.
    pub fn checked_add(&self, other: &U256) -> (r: Option<U256>)
        ensures
            r.is_some() <==> self@ + other@ < pow2_256(),
            r.is_some() ==> r.unwrap()@ == self@ + other@,
    {
        let sum0: u128 = self.l0 as u128 + other.l0 as u128;
        let r0: u64 = (sum0 % 0x1_0000_0000_0000_0000u128) as u64;
        let c0: u128 = sum0 / 0x1_0000_0000_0000_0000u128;
        let sum1: u128 = self.l1 as u128 + other.l1 as u128 + c0;
        let r1: u64 = (sum1 % 0x1_0000_0000_0000_0000u128) as u64;
        let c1: u128 = sum1 / 0x1_0000_0000_0000_0000u128;
        let sum2: u128 = self.l2 as u128 + other.l2 as u128 + c1;
        let r2: u64 = (sum2 % 0x1_0000_0000_0000_0000u128) as u64;
        let c2: u128 = sum2 / 0x1_0000_0000_0000_0000u128;
        let sum3: u128 = self.l3 as u128 + other.l3 as u128 + c2;
        let r3: u64 = (sum3 % 0x1_0000_0000_0000_0000u128) as u64;
        let c3: u128 = sum3 / 0x1_0000_0000_0000_0000u128;
        if c3 != 0 {
            None
        } else {
            Some(U256 { l0: r0, l1: r1, l2: r2, l3: r3 })
        }
    }

    /// The difference, or `None` where `other` is the larger.
    pub fn checked_sub(&self, other: &U256) -> (r: Option<U256>)
        ensures
            r.is_some() <==> self@ >= other@,
            r.is_some() ==> r.unwrap()@ == self@ - other@,
    {
        let t0: u128 = 0x1_0000_0000_0000_0000u128 + self.l0 as u128 - other.l0 as u128;
        let r0: u64 = (t0 % 0x1_0000_0000_0000_0000u128) as u64;
        let b0: u128 = 1 - t0 / 0x1_0000_0000_0000_0000u128;
        let t1: u128 = 0x1_0000_0000_0000_0000u128 + self.l1 as u128 - other.l1 as u128 - b0;
        let r1: u64 = (t1 % 0x1_0000_0000_0000_0000u128) as u64;
        let b1: u128 = 1 - t1 / 0x1_0000_0000_0000_0000u128;
        let t2: u128 = 0x1_0000_0000_0000_0000u128 + self.l2 as u128 - other.l2 as u128 - b1;
        let r2: u64 = (t2 % 0x1_0000_0000_0000_0000u128) as u64;
        let b2: u128 = 1 - t2 / 0x1_0000_0000_0000_0000u128;
        let t3: u128 = 0x1_0000_0000_0000_0000u128 + self.l3 as u128 - other.l3 as u128 - b2;
        let r3: u64 = (t3 % 0x1_0000_0000_0000_0000u128) as u64;
        let b3: u128 = 1 - t3 / 0x1_0000_0000_0000_0000u128;
        if b3 != 0 {
            None
        } else {
            Some(U256 { l0: r0, l1: r1, l2: r2, l3: r3 })
        }
    }

    /// True when bit `i` is set.
    pub fn get_bit(&self, i: u8) -> (r: bool)
        ensures
            r == self.bit(i as int),
    {
        let j: u64 = (i % 64) as u64;
        let x: u64 = if i < 64 {
            self.l0
        } else if i < 128 {
            self.l1
        } else if i < 192 {
            self.l2
        } else {
            self.l3
        };
        (x >> j) & 1 == 1
    }

    /// The number with bit `i` set and every other bit as it was.
    pub fn with_bit(&self, i: u8) -> (r: U256)
        ensures
            forall|j: int| 0 <= j < 256 ==> #[trigger] r.bit(j) == (j == i || self.bit(j)),
    {
        let k: u64 = (i % 64) as u64;
        let mask: u64 = 1u64 << k;
        let r = if i < 64 {
            U256 { l0: self.l0 | mask, l1: self.l1, l2: self.l2, l3: self.l3 }
        } else if i < 128 {
            U256 { l0: self.l0, l1: self.l1 | mask, l2: self.l2, l3: self.l3 }
        } else if i < 192 {
            U256 { l0: self.l0, l1: self.l1, l2: self.l2 | mask, l3: self.l3 }
        } else {
            U256 { l0: self.l0, l1: self.l1, l2: self.l2, l3: self.l3 | mask }
        };
        proof {
            assert forall|j: int| 0 <= j < 256 implies #[trigger] r.bit(j) == (j == i || self.bit(
                j,
            )) by {
                lemma_limb_set(self.limb(j / 64), k, (j % 64) as u64);
            }
        }
        r
    }

    /// The number with bit `i` cleared and every other bit as it was.
    pub fn without_bit(&self, i: u8) -> (r: U256)
        ensures
            forall|j: int| 0 <= j < 256 ==> #[trigger] r.bit(j) == (j != i && self.bit(j)),
    {
        let k: u64 = (i % 64) as u64;
        let mask: u64 = !(1u64 << k);
        let r = if i < 64 {
            U256 { l0: self.l0 & mask, l1: self.l1, l2: self.l2, l3: self.l3 }
        } else if i < 128 {
            U256 { l0: self.l0, l1: self.l1 & mask, l2: self.l2, l3: self.l3 }
        } else if i < 192 {
            U256 { l0: self.l0, l1: self.l1, l2: self.l2 & mask, l3: self.l3 }
        } else {
            U256 { l0: self.l0, l1: self.l1, l2: self.l2, l3: self.l3 & mask }
        };
        proof {
            assert forall|j: int| 0 <= j < 256 implies #[trigger] r.bit(j) == (j != i && self.bit(
                j,
            )) by {
                lemma_limb_clear(self.limb(j / 64), k, (j % 64) as u64);
            }
        }
        r
    }

    /// The highest set bit at or below position `i`.
    pub fn highest_bit_at_or_below(&self, i: u8) -> (r: Option<u8>)
        ensures
            match r {
                Some(k) => k <= i && self.bit(k as int) && forall|j: int|
                    k < j <= i ==> !#[trigger] self.bit(j),
                None => forall|j: int| 0 <= j <= i ==> !#[trigger] self.bit(j),
            },
    {
        let mut k: u8 = i;
        loop
            invariant
                k <= i,
                forall|j: int| k < j <= i ==> !#[trigger] self.bit(j),
            decreases k,
        {
            if self.get_bit(k) {
                return Some(k);
            }
            if k == 0 {
                return None;
            }
            k = k - 1;
        }
    }

    /// The lowest set bit at or above position `i`.
    pub fn lowest_bit_at_or_above(&self, i: u8) -> (r: Option<u8>)
        ensures
            match r {
                Some(k) => k >= i && self.bit(k as int) && forall|j: int|
                    i <= j < k ==> !#[trigger] self.bit(j),
                None => forall|j: int| i <= j < 256 ==> !#[trigger] self.bit(j),
            },
    {
        let mut k: u8 = i;
        loop
            invariant
                k >= i,
                forall|j: int| i <= j < k ==> !#[trigger] self.bit(j),
            decreases 255 - k,
        {
            if self.get_bit(k) {
                return Some(k);
            }
            if k == 255 {
                return None;
            }
            k = k + 1;
        }
    }
}

/// A signed 256-bit integer in two's complement.
#[derive(Clone, Copy, Debug, PartialEq, Eq, Structural, Hash)]
pub struct I256 {
    pub raw: U256,
}

impl View for I256 {
    type V = int;

    /// The number that the two's-complement bits stand for.
    open spec fn view(&self) -> int {
        if self.raw@ < pow2_255() {
            self.raw@ as int
        } else {
            self.raw@ - pow2_256()
        }
    }
}

impl I256 {
    /// Every value lies in `[-2^255, 2^255)`.
    pub proof fn lemma_range(a: I256)
        ensures
            -pow2_255() <= a@ < pow2_255(),
    {
        U256::lemma_value_bound(a.raw);
    }

    pub fn from_raw(raw: U256) -> (r: I256)
        ensures
            r.raw == raw,
    {
        I256 { raw }
    }

    pub fn zero() -> (r: I256)
        ensures
            r@ == 0,
    {
        I256 { raw: U256::zero() }
    }

    /// The largest value, 2^255 - 1.
    pub fn max_value() -> (r: I256)
        ensures
            r@ == pow2_255() - 1,
    {
        I256 {
            raw: U256 {
                l0: 0xffff_ffff_ffff_ffff,
                l1: 0xffff_ffff_ffff_ffff,
                l2: 0xffff_ffff_ffff_ffff,
                l3: 0x7fff_ffff_ffff_ffff,
            },
        }
    }

    /// The smallest value, -2^255.
    pub fn min_value() -> (r: I256)
        ensures
            r@ == -pow2_255(),
    {
        I256 { raw: U256 { l0: 0, l1: 0, l2: 0, l3: 0x8000_0000_0000_0000 } }
    }

    /// A non-negative value from its magnitude, where that is below 2^255.
    pub fn from_magnitude(magnitude: U256) -> (r: Option<I256>)
        ensures
            r.is_some() <==> magnitude@ < pow2_255(),
            r.is_some() ==> r.unwrap()@ == magnitude@,
    {
        if magnitude.l3 < 0x8000_0000_0000_0000 {
            Some(I256 { raw: magnitude })
        } else {
            None
        }
    }

    pub fn from_i128(x: i128) -> (r: I256)
        ensures
            r@ == x,
    {
        if x >= 0 {
            I256 { raw: U256::from_u128(x as u128) }
        } else {
            // two's complement: the low 128 bits of x, and ones above them
            let low: u128 = x as u128;
            assert(low == x + 340282366920938463463374607431768211456int) by (bit_vector)
                requires
                    x < 0,
                    low == x as u128,
            ;
            let lo: u64 = (low % 0x1_0000_0000_0000_0000u128) as u64;
            let hi: u64 = (low / 0x1_0000_0000_0000_0000u128) as u64;
            I256 {
                raw: U256 { l0: lo, l1: hi, l2: 0xffff_ffff_ffff_ffff, l3: 0xffff_ffff_ffff_ffff },
            }
        }
    }

    /// The value as an `i128`, where it fits.
    pub fn to_i128(&self) -> (r: Option<i128>)
        ensures
            r.is_some() <==> i128::MIN <= self@ <= i128::MAX,
            r.is_some() ==> r.unwrap() == self@,
    {
        let raw = self.raw;
        if raw.l3 == 0 && raw.l2 == 0 && raw.l1 < 0x8000_0000_0000_0000 {
            let v: u128 = (raw.l1 as u128) * 0x1_0000_0000_0000_0000u128 + raw.l0 as u128;
            Some(v as i128)
        } else if raw.l3 == 0xffff_ffff_ffff_ffff && raw.l2 == 0xffff_ffff_ffff_ffff && raw.l1
            >= 0x8000_0000_0000_0000 {
            let v: u128 = (raw.l1 as u128) * 0x1_0000_0000_0000_0000u128 + raw.l0 as u128;
            let s: i128 = v as i128;
            assert(s == v - 340282366920938463463374607431768211456int) by (bit_vector)
                requires
                    v >= 0x8000_0000_0000_0000_0000_0000_0000_0000u128,
                    s == v as i128,
            ;
            Some(s)
        } else {
            None
        }
    }

    pub fn is_zero(&self) -> (r: bool)
        ensures
            r == (self@ == 0),
    {
        self.raw.is_zero()
    }

    pub fn is_negative(&self) -> (r: bool)
        ensures
            r == (self@ < 0),
    {
        self.raw.l3 >= 0x8000_0000_0000_0000
    }

    pub fn is_positive(&self) -> (r: bool)
        ensures
            r == (self@ > 0),
    {
        !self.is_negative() && !self.raw.is_zero()
    }

    /// The magnitude of the value.
    pub fn unsigned_abs(&self) -> (r: U256)
        ensures
            r@ == (if self@ < 0 {
                -self@
            } else {
                self@
            }),
    {
        if self.is_negative() {
            // 2^256 - raw, computed as (2^256 - 1 - raw) + 1
            let max = U256::max_value();
            let d = max.checked_sub(&self.raw).unwrap();
            d.checked_add(&U256::from_u64(1)).unwrap()
        } else {
            self.raw
        }
    }

    /// The negated value; the smallest value, which has no opposite, stays as
    /// it is.
    pub open spec fn spec_wrapping_neg(self) -> int {
        if self@ == -pow2_255() {
            self@
        } else {
            -self@
        }
    }

    /// The negated value; the smallest value, which has no opposite, stays as
    /// it is.
    pub fn wrapping_neg(&self) -> (r: I256)
        ensures
            r@ == self.spec_wrapping_neg(),
    {
        match self.checked_neg() {
            Some(v) => v,
            None => *self,
        }
    }

    /// The negated value, or `None` for the smallest value, which has none.
    pub fn checked_neg(&self) -> (r: Option<I256>)
        ensures
            r.is_some() <==> self@ != -pow2_255(),
            r.is_some() ==> r.unwrap()@ == -self@,
    {
        if self.raw.is_zero() {
            Some(*self)
        } else if self.raw.l3 == 0x8000_0000_0000_0000 && self.raw.l2 == 0 && self.raw.l1 == 0
            && self.raw.l0 == 0 {
            None
        } else {
            let max = U256::max_value();
            let d = max.checked_sub(&self.raw).unwrap();
            let n = d.checked_add(&U256::from_u64(1)).unwrap();
            Some(I256 { raw: n })
        }
    }
}

} // verus!
