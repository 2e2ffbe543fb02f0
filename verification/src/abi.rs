//! The part of the contract ABI that pool keys, event logs and call data
//! need: 32-byte big-endian words of static types.

use vstd::prelude::*;
use crate::primitives::{Address, B256};
use crate::u256::{I256, U256, pow2_255, pow2_256};

verus! {

/// The number that a big-endian byte string stands for.
pub open spec fn be_nat(bytes: Seq<u8>) -> nat
    decreases bytes.len(),
{
    if bytes.len() == 0 {
        0
    } else {
        be_nat(bytes.drop_last()) * 256 + bytes.last() as nat
    }
}

/// 256 to the power `n`.
pub open spec fn pow256(n: nat) -> nat
    decreases n,
{
    if n == 0 {
        1
    } else {
        256 * pow256((n - 1) as nat)
    }
}

/// The powers of 256 that the word layout uses.
pub proof fn lemma_pow256_values()
    ensures
        pow256(4) == 0x1_0000_0000,
        pow256(8) == 0x1_0000_0000_0000_0000,
        pow256(16) == 340282366920938463463374607431768211456nat,
        pow256(24) == 6277101735386680763835789423207666416102355444464034512896nat,
        pow256(32) == pow2_256(),
{
    reveal_with_fuel(pow256, 5);
    assert(pow256(4) == 0x1_0000_0000);
    assert(pow256(8) == 0x1_0000_0000 * pow256(4));
    assert(pow256(12) == 0x1_0000_0000 * pow256(8));
    assert(pow256(16) == 0x1_0000_0000 * pow256(12));
    assert(pow256(20) == 0x1_0000_0000 * pow256(16));
    assert(pow256(24) == 0x1_0000_0000 * pow256(20));
    assert(pow256(28) == 0x1_0000_0000 * pow256(24));
    assert(pow256(32) == 0x1_0000_0000 * pow256(28));
}

/// A byte string of `n` bytes stands for a number below `256^n`.
pub proof fn lemma_be_nat_bound(bytes: Seq<u8>)
    ensures
        be_nat(bytes) < pow256(bytes.len()),
    decreases bytes.len(),
{
    if bytes.len() > 0 {
        lemma_be_nat_bound(bytes.drop_last());
    }
}

/// The number of a byte string is that of its first `k` bytes, shifted left
/// by the remaining length, plus that of the rest.
pub proof fn lemma_be_nat_split(bytes: Seq<u8>, k: int)
    requires
        0 <= k <= bytes.len(),
    ensures
        be_nat(bytes) == be_nat(bytes.subrange(0, k)) * pow256((bytes.len() - k) as nat) + be_nat(
            bytes.subrange(k, bytes.len() as int),
        ),
    decreases bytes.len(),
{
    let n = bytes.len() as int;
    if k == n {
        assert(bytes.subrange(0, k) =~= bytes);
        assert(bytes.subrange(k, n) =~= Seq::<u8>::empty());
        assert(pow256(0) == 1);
        assert(be_nat(bytes) * 1 == be_nat(bytes)) by (nonlinear_arith);
    } else {
        let front = bytes.drop_last();
        lemma_be_nat_split(front, k);
        assert(front.subrange(0, k) =~= bytes.subrange(0, k));
        assert(bytes.subrange(k, n).drop_last() =~= front.subrange(k, n - 1));
        let a = be_nat(bytes.subrange(0, k));
        let p = pow256((n - 1 - k) as nat);
        let b = be_nat(front.subrange(k, n - 1));
        let l = bytes.last() as nat;
        let tail = bytes.subrange(k, n);
        assert(tail.last() == bytes.last());
        assert(be_nat(tail) == be_nat(tail.drop_last()) * 256 + l);
        assert(be_nat(bytes) == be_nat(front) * 256 + l);
        assert(pow256((n - k) as nat) == 256 * p);
        assert(be_nat(front) == a * p + b);
        assert(be_nat(tail) == b * 256 + l);
        assert((a * p + b) * 256 + l == a * (256 * p) + (b * 256 + l)) by (nonlinear_arith);
    }
}

/// A byte string stands for zero exactly when all its bytes are zero.
pub proof fn lemma_be_nat_zero(bytes: Seq<u8>)
    ensures
        be_nat(bytes) == 0 <==> (forall|i: int| 0 <= i < bytes.len() ==> bytes[i] == 0),
    decreases bytes.len(),
{
    if bytes.len() > 0 {
        let front = bytes.drop_last();
        lemma_be_nat_zero(front);
        if be_nat(bytes) == 0 {
            assert forall|i: int| 0 <= i < bytes.len() implies bytes[i] == 0 by {
                if i < bytes.len() - 1 {
                    assert(front[i] == bytes[i]);
                }
            }
        } else {
            if forall|i: int| 0 <= i < bytes.len() ==> bytes[i] == 0 {
                assert forall|i: int| 0 <= i < front.len() implies front[i] == 0 by {
                    assert(front[i] == bytes[i]);
                }
            }
        }
    }
}

/// A byte string of bytes `0xff` stands for `256^n - 1`.
pub proof fn lemma_be_nat_ones(bytes: Seq<u8>)
    requires
        forall|i: int| 0 <= i < bytes.len() ==> bytes[i] == 0xff,
    ensures
        be_nat(bytes) == pow256(bytes.len()) - 1,
    decreases bytes.len(),
{
    if bytes.len() > 0 {
        let front = bytes.drop_last();
        assert forall|i: int| 0 <= i < front.len() implies front[i] == 0xff by {
            assert(front[i] == bytes[i]);
        }
        lemma_be_nat_ones(front);
    }
}

/// The number that up to 16 bytes of a slice stand for.
pub fn read_be(data: &[u8], start: usize, len: usize) -> (r: u128)
    requires
        len <= 16,
        start + len <= data.len(),
    ensures
        r == be_nat(data@.subrange(start as int, start + len)),
{
    let mut acc: u128 = 0;
    let mut i: usize = 0;
    proof {
        lemma_pow256_values();
        assert(data@.subrange(start as int, start as int) =~= Seq::<u8>::empty());
    }
    while i < len
        invariant
            i <= len <= 16,
            start + len <= data.len(),
            acc == be_nat(data@.subrange(start as int, start + i)),
            acc < pow256(i as nat),
        decreases len - i,
    {
        proof {
            lemma_pow256_values();
            let next = data@.subrange(start as int, start + i + 1);
            assert(next.drop_last() =~= data@.subrange(start as int, start + i));
            assert(next.last() == data@[start + i]);
            assert(be_nat(next) == acc * 256 + data@[start + i] as nat);
            lemma_be_nat_bound(next);
            lemma_pow256_monotonic((i + 1) as nat, 16);
        }
        acc = acc * 256 + data[start + i] as u128;
        i = i + 1;
    }
    acc
}

/// Powers of 256 grow with the exponent.
pub proof fn lemma_pow256_monotonic(a: nat, b: nat)
    requires
        a <= b,
    ensures
        pow256(a) <= pow256(b),
    decreases b,
{
    if a < b {
        lemma_pow256_monotonic(a, (b - 1) as nat);
    }
}

/// A stretch of a byte string holds one value throughout exactly when the
/// byte string does so over that stretch.
pub proof fn lemma_subrange_all(data: Seq<u8>, start: int, end: int, byte: u8)
    requires
        0 <= start <= end <= data.len(),
    ensures
        (forall|i: int| start <= i < end ==> data[i] == byte) <==> (forall|j: int|
            0 <= j < end - start ==> data.subrange(start, end)[j] == byte),
{
    let sub = data.subrange(start, end);
    if forall|i: int| start <= i < end ==> data[i] == byte {
        assert forall|j: int| 0 <= j < end - start implies sub[j] == byte by {
            assert(sub[j] == data[start + j]);
        }
    }
    if forall|j: int| 0 <= j < end - start ==> sub[j] == byte {
        assert forall|i: int| start <= i < end implies data[i] == byte by {
            assert(sub[i - start] == data[i]);
        }
    }
}

/// True when every byte of `data[start..end]` equals `byte`.
pub fn all_bytes(data: &[u8], start: usize, end: usize, byte: u8) -> (r: bool)
    requires
        start <= end <= data.len(),
    ensures
        r == (forall|i: int| start <= i < end ==> data@[i] == byte),
{
    let mut i: usize = start;
    while i < end
        invariant
            start <= i <= end <= data.len(),
            forall|j: int| start <= j < i ==> data@[j] == byte,
        decreases end - i,
    {
        if data[i] != byte {
            return false;
        }
        i = i + 1;
    }
    true
}

/// The unsigned number of a word, where it is below `bound`.
pub open spec fn spec_decode_uint(word: Seq<u8>, bound: nat) -> Option<nat> {
    if be_nat(word) < bound {
        Some(be_nat(word))
    } else {
        None
    }
}

/// The signed number of a word in two's complement, where it lies in
/// `[-bound, bound)`.
pub open spec fn spec_decode_int(word: Seq<u8>, bound: nat) -> Option<int> {
    let raw = be_nat(word);
    let value: int = if raw < pow2_255() {
        raw as int
    } else {
        raw - pow2_256()
    };
    if -(bound as int) <= value < bound as int {
        Some(value)
    } else {
        None
    }
}

/// Decodes the word at `offset` as an unsigned integer below `bound`, which
/// is at most 2^128.
pub fn decode_uint(data: &[u8], offset: usize, bound_minus_one: u128) -> (r: Option<u128>)
    requires
        offset + 32 <= data.len(),
    ensures
        r == match spec_decode_uint(
            data@.subrange(offset as int, offset + 32),
            (bound_minus_one + 1) as nat,
        ) {
            Some(v) => Some(v as u128),
            None => None,
        },
        r.is_some() ==> r.unwrap() <= bound_minus_one,
{
    let high_zero: bool = all_bytes(data, offset, offset + 16, 0);
    let low: u128 = read_be(data, offset + 16, 16);
    proof {
        let word = data@.subrange(offset as int, offset + 32);
        lemma_pow256_values();
        lemma_be_nat_split(word, 16);
        assert(word.subrange(0, 16) =~= data@.subrange(offset as int, offset + 16));
        assert(word.subrange(16, 32) =~= data@.subrange(offset + 16, offset + 32));
        lemma_be_nat_zero(word.subrange(0, 16));
        lemma_be_nat_bound(word.subrange(16, 32));
        let hi = be_nat(word.subrange(0, 16));
        lemma_subrange_all(data@, offset as int, offset + 16, 0);
        if !high_zero {
            assert(hi != 0);
            assert(hi * 340282366920938463463374607431768211456nat
                >= 340282366920938463463374607431768211456nat) by (nonlinear_arith)
                requires
                    hi >= 1,
            ;
        }
    }
    if high_zero && low <= bound_minus_one {
        Some(low)
    } else {
        None
    }
}

/// Decodes the word at `offset` as a signed integer in `[-bound, bound)`,
/// where `bound` is at most 2^127.
pub fn decode_int(data: &[u8], offset: usize, bound: u128) -> (r: Option<i128>)
    requires
        offset + 32 <= data.len(),
        0 < bound <= 0x8000_0000_0000_0000_0000_0000_0000_0000u128,
    ensures
        r == match spec_decode_int(data@.subrange(offset as int, offset + 32), bound as nat) {
            Some(v) => Some(v as i128),
            None => None,
        },
        r.is_some() ==> -(bound as int) <= r.unwrap() < bound as int,
{
    let high_zero: bool = all_bytes(data, offset, offset + 16, 0);
    let high_ones: bool = all_bytes(data, offset, offset + 16, 0xff);
    let low: u128 = read_be(data, offset + 16, 16);
    proof {
        let word = data@.subrange(offset as int, offset + 32);
        lemma_pow256_values();
        lemma_be_nat_split(word, 16);
        assert(word.subrange(0, 16) =~= data@.subrange(offset as int, offset + 16));
        assert(word.subrange(16, 32) =~= data@.subrange(offset + 16, offset + 32));
        lemma_be_nat_zero(word.subrange(0, 16));
        lemma_be_nat_bound(word.subrange(0, 16));
        lemma_be_nat_bound(word.subrange(16, 32));
        let hi = be_nat(word.subrange(0, 16));
        lemma_subrange_all(data@, offset as int, offset + 16, 0);
        lemma_subrange_all(data@, offset as int, offset + 16, 0xff);
        if high_ones {
            lemma_be_nat_ones(word.subrange(0, 16));
        }
        lemma_word_value(hi, low as nat, be_nat(word));
        if !high_zero && !high_ones {
            lemma_far_from_zero(word.subrange(0, 16));
        }
    }
    if high_zero {
        if low < bound {
            Some(low as i128)
        } else {
            None
        }
    } else if high_ones {
        if low >= 0x8000_0000_0000_0000_0000_0000_0000_0000u128 {
            let value: i128 = low as i128;
            assert(value == low - 340282366920938463463374607431768211456int) by (bit_vector)
                requires
                    low >= 0x8000_0000_0000_0000_0000_0000_0000_0000u128,
                    value == low as i128,
            ;
            if bound == 0x8000_0000_0000_0000_0000_0000_0000_0000u128 || value >= -(bound
                as i128) {
                Some(value)
            } else {
                None
            }
        } else {
            None
        }
    } else {
        None
    }
}

/// Where a 256-bit number lies, by its upper half.
pub proof fn lemma_word_value(hi: nat, low: nat, w: nat)
    requires
        w == hi * 340282366920938463463374607431768211456nat + low,
        low < 340282366920938463463374607431768211456nat,
        hi < 340282366920938463463374607431768211456nat,
    ensures
        w < pow2_256(),
        hi == 0 ==> w == low,
        hi == 340282366920938463463374607431768211455nat ==> w - pow2_256() == low
            - 340282366920938463463374607431768211456int,
        1 <= hi <= 340282366920938463463374607431768211454nat ==> 340282366920938463463374607431768211456nat
            <= w < pow2_256() - 340282366920938463463374607431768211456nat,
{
}

/// Sixteen bytes that are neither all `0x00` nor all `0xff` stand for a
/// number between 1 and 2^128 - 2.
pub proof fn lemma_far_from_zero(bytes: Seq<u8>)
    requires
        bytes.len() == 16,
        !(forall|i: int| 0 <= i < 16 ==> bytes[i] == 0),
        !(forall|i: int| 0 <= i < 16 ==> bytes[i] == 0xff),
    ensures
        1 <= be_nat(bytes) <= 0xffff_ffff_ffff_ffff_ffff_ffff_ffff_fffenat,
{
    lemma_pow256_values();
    lemma_be_nat_zero(bytes);
    lemma_be_nat_bound(bytes);
    if be_nat(bytes) == 0xffff_ffff_ffff_ffff_ffff_ffff_ffff_ffffnat {
        lemma_be_nat_max(bytes);
    }
}

/// A byte string that stands for `256^n - 1` is made of bytes `0xff`.
pub proof fn lemma_be_nat_max(bytes: Seq<u8>)
    requires
        be_nat(bytes) == pow256(bytes.len()) - 1,
    ensures
        forall|i: int| 0 <= i < bytes.len() ==> bytes[i] == 0xff,
    decreases bytes.len(),
{
    if bytes.len() > 0 {
        let front = bytes.drop_last();
        lemma_be_nat_bound(front);
        let p = pow256(front.len());
        assert(pow256(bytes.len()) == 256 * p);
        assert(be_nat(front) == p - 1 && bytes.last() == 0xff) by (nonlinear_arith)
            requires
                be_nat(front) * 256 + bytes.last() as nat == 256 * p - 1,
                be_nat(front) < p,
                bytes.last() <= 255,
        ;
        lemma_be_nat_max(front);
        assert forall|i: int| 0 <= i < bytes.len() implies bytes[i] == 0xff by {
            if i < bytes.len() - 1 {
                assert(front[i] == bytes[i]);
            }
        }
    }
}

/// Decodes the word at `offset` as an unsigned 256-bit integer.
pub fn decode_u256(data: &[u8], offset: usize) -> (r: U256)
    requires
        offset + 32 <= data.len(),
    ensures
        r@ == be_nat(data@.subrange(offset as int, offset + 32)),
{
    let high: u128 = read_be(data, offset, 16);
    let low: u128 = read_be(data, offset + 16, 16);
    proof {
        let word = data@.subrange(offset as int, offset + 32);
        lemma_pow256_values();
        lemma_be_nat_split(word, 16);
        assert(word.subrange(0, 16) =~= data@.subrange(offset as int, offset + 16));
        assert(word.subrange(16, 32) =~= data@.subrange(offset + 16, offset + 32));
    }
    U256::from_halves(high, low)
}

/// Decodes the word at `offset` as a signed 256-bit integer.
pub fn decode_i256(data: &[u8], offset: usize) -> (r: I256)
    requires
        offset + 32 <= data.len(),
    ensures
        r.raw@ == be_nat(data@.subrange(offset as int, offset + 32)),
{
    I256 { raw: decode_u256(data, offset) }
}

/// The address in a word, where the twelve bytes in front of it are zero.
pub open spec fn spec_decode_address(word: Seq<u8>) -> Option<Seq<u8>> {
    if forall|i: int| 0 <= i < 12 ==> word[i] == 0 {
        Some(word.subrange(12, 32))
    } else {
        None
    }
}

/// Decodes the word at `offset` as an address.
pub fn decode_address(data: &[u8], offset: usize) -> (r: Option<Address>)
    requires
        offset + 32 <= data.len(),
    ensures
        match r {
            Some(a) => spec_decode_address(data@.subrange(offset as int, offset + 32)) == Some(a@),
            None => spec_decode_address(data@.subrange(offset as int, offset + 32)) is None,
        },
{
    let padded: bool = all_bytes(data, offset, offset + 12, 0);
    proof {
        let word = data@.subrange(offset as int, offset + 32);
        lemma_subrange_all(data@, offset as int, offset + 12, 0);
        assert(word.subrange(0, 12) =~= data@.subrange(offset as int, offset + 12));
        lemma_subrange_all(word, 0, 12, 0);
    }
    if !padded {
        return None;
    }
    let mut bytes: [u8; 20] = [0u8;20];
    let mut i: usize = 0;
    while i < 20
        invariant
            i <= 20,
            offset + 32 <= data.len(),
            forall|j: int| 0 <= j < i ==> bytes@[j] == data@[offset + 12 + j],
        decreases 20 - i,
    {
        bytes[i] = data[offset + 12 + i];
        i = i + 1;
    }
    let a = Address { bytes };
    proof {
        assert(a@ =~= data@.subrange(offset as int, offset + 32).subrange(12, 32));
    }
    Some(a)
}

/// Copies the word at `offset`.
pub fn decode_word(data: &[u8], offset: usize) -> (r: B256)
    requires
        offset + 32 <= data.len(),
    ensures
        r@ == data@.subrange(offset as int, offset + 32),
{
    let mut bytes: [u8; 32] = [0u8;32];
    let mut i: usize = 0;
    while i < 32
        invariant
            i <= 32,
            offset + 32 <= data.len(),
            forall|j: int| 0 <= j < i ==> bytes@[j] == data@[offset + j],
        decreases 32 - i,
    {
        bytes[i] = data[offset + i];
        i = i + 1;
    }
    let w = B256 { bytes };
    proof {
        assert(w@ =~= data@.subrange(offset as int, offset + 32));
    }
    w
}

/// `n` bytes of one value.
pub open spec fn filled(n: nat, byte: u8) -> Seq<u8> {
    Seq::new(n, |i: int| byte)
}

/// The four big-endian bytes of a 32-bit number.
pub open spec fn be_bytes4(x: u32) -> Seq<u8> {
    seq![
        (x / 0x100_0000) as u8,
        ((x / 0x1_0000) % 0x100) as u8,
        ((x / 0x100) % 0x100) as u8,
        (x % 0x100) as u8,
    ]
}

/// The word that encodes an address.
pub open spec fn word_address(a: Seq<u8>) -> Seq<u8> {
    filled(12, 0) + a
}

/// The word that encodes an unsigned number of up to 32 bits.
pub open spec fn word_u32(x: u32) -> Seq<u8> {
    filled(28, 0) + be_bytes4(x)
}

/// The word that encodes a signed number of up to 32 bits.
pub open spec fn word_i32(x: i32) -> Seq<u8> {
    if x >= 0 {
        filled(28, 0) + be_bytes4(x as u32)
    } else {
        filled(28, 0xff) + be_bytes4((x + 0x1_0000_0000) as u32)
    }
}

/// Appends `n` copies of a byte.
fn push_filled(out: &mut Vec<u8>, n: usize, byte: u8)
    ensures
        final(out)@ == old(out)@ + filled(n as nat, byte),
{
    let mut i: usize = 0;
    proof {
        assert(out@ =~= old(out)@ + filled(0, byte));
    }
    while i < n
        invariant
            i <= n,
            out@ == old(out)@ + filled(i as nat, byte),
        decreases n - i,
    {
        out.push(byte);
        proof {
            assert(out@ =~= old(out)@ + filled((i + 1) as nat, byte));
        }
        i = i + 1;
    }
}

/// Appends the four big-endian bytes of a number.
fn push_be_bytes4(out: &mut Vec<u8>, x: u32)
    ensures
        final(out)@ == old(out)@ + be_bytes4(x),
{
    out.push((x / 0x100_0000) as u8);
    out.push(((x / 0x1_0000) % 0x100) as u8);
    out.push(((x / 0x100) % 0x100) as u8);
    out.push((x % 0x100) as u8);
    proof {
        assert(out@ =~= old(out)@ + be_bytes4(x));
    }
}

/// Appends the word that encodes an address.
pub fn push_address(out: &mut Vec<u8>, a: &Address)
    ensures
        final(out)@ == old(out)@ + word_address(a@),
{
    push_filled(out, 12, 0);
    let mut i: usize = 0;
    proof {
        assert(out@ =~= old(out)@ + filled(12, 0) + a@.subrange(0, 0));
    }
    while i < 20
        invariant
            i <= 20,
            out@ == old(out)@ + filled(12, 0) + a@.subrange(0, i as int),
        decreases 20 - i,
    {
        out.push(a.bytes[i]);
        proof {
            assert(out@ =~= old(out)@ + filled(12, 0) + a@.subrange(0, i + 1));
        }
        i = i + 1;
    }
    proof {
        assert(a@.subrange(0, 20) =~= a@);
        assert(out@ =~= old(out)@ + word_address(a@));
    }
}

/// Appends the word that encodes an unsigned number of up to 32 bits.
pub fn push_u32(out: &mut Vec<u8>, x: u32)
    ensures
        final(out)@ == old(out)@ + word_u32(x),
{
    push_filled(out, 28, 0);
    push_be_bytes4(out, x);
    proof {
        assert(out@ =~= old(out)@ + word_u32(x));
    }
}

/// Appends the word that encodes a signed number of up to 32 bits.
pub fn push_i32(out: &mut Vec<u8>, x: i32)
    ensures
        final(out)@ == old(out)@ + word_i32(x),
{
    if x >= 0 {
        push_filled(out, 28, 0);
        push_be_bytes4(out, x as u32);
    } else {
        push_filled(out, 28, 0xff);
        push_be_bytes4(out, (x as i64 + 0x1_0000_0000i64) as u32);
    }
    proof {
        assert(out@ =~= old(out)@ + word_i32(x));
    }
}

} // verus!
