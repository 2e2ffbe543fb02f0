//! Addresses, 32-byte words and the hash that names a pool.

use vstd::prelude::*;

verus! {

/// Lexicographic order on byte strings of one length, from index `i` on.
pub open spec fn bytes_lt_from(a: Seq<u8>, b: Seq<u8>, i: int) -> bool
    decreases a.len() - i,
{
    if i < 0 || i >= a.len() || i >= b.len() {
        false
    } else if a[i] != b[i] {
        a[i] < b[i]
    } else {
        bytes_lt_from(a, b, i + 1)
    }
}

/// Lexicographic order on byte strings of one length.
pub open spec fn bytes_lt(a: Seq<u8>, b: Seq<u8>) -> bool {
    bytes_lt_from(a, b, 0)
}

/// True when the two slices hold the same bytes.
pub fn bytes_same(a: &[u8], b: &[u8]) -> (r: bool)
    ensures
        r == (a@ == b@),
{
    if a.len() != b.len() {
        return false;
    }
    let mut i: usize = 0;
    while i < a.len()
        invariant
            a.len() == b.len(),
            i <= a.len(),
            forall|j: int| 0 <= j < i ==> a@[j] == b@[j],
        decreases a.len() - i,
    {
        if a[i] != b[i] {
            return false;
        }
        i = i + 1;
    }
    assert(a@ =~= b@);
    true
}

/// True when `a` comes before `b` in lexicographic order.
pub fn bytes_less(a: &[u8], b: &[u8]) -> (r: bool)
    requires
        a.len() == b.len(),
    ensures
        r == bytes_lt(a@, b@),
{
    let mut i: usize = 0;
    while i < a.len()
        invariant
            a.len() == b.len(),
            i <= a.len(),
            bytes_lt(a@, b@) == bytes_lt_from(a@, b@, i as int),
        decreases a.len() - i,
    {
        if a[i] != b[i] {
            return a[i] < b[i];
        }
        i = i + 1;
    }
    false
}

/// A 20-byte account or contract address.
#[derive(Clone, Copy, Debug, PartialEq, Eq, Hash, PartialOrd, Ord)]
pub struct Address {
    pub bytes: [u8; 20],
}

impl View for Address {
    type V = Seq<u8>;

    open spec fn view(&self) -> Seq<u8> {
        self.bytes@
    }
}

impl Address {
    pub fn new(bytes: [u8; 20]) -> (r: Address)
        ensures
            r.bytes == bytes,
    {
        Address { bytes }
    }

    /// The address made of zero bytes.
    pub fn zero() -> (r: Address)
        ensures
            forall|i: int| 0 <= i < 20 ==> r@[i] == 0,
    {
        Address { bytes: [0u8;20] }
    }

    /// Addresses with the same bytes are the same address.
    pub proof fn lemma_view_injective(a: Address, b: Address)
        requires
            a@ == b@,
        ensures
            a == b,
    {
        assert(a.bytes =~= b.bytes);
    }

    pub fn same(&self, other: &Address) -> (r: bool)
        ensures
            r == (self@ == other@),
            r == (*self == *other),
    {
        let r = bytes_same(self.bytes.as_slice(), other.bytes.as_slice());
        proof {
            if r {
                Self::lemma_view_injective(*self, *other);
            }
        }
        r
    }

    /// Byte-lexicographic order, which is the numeric order of addresses.
    pub fn lt(&self, other: &Address) -> (r: bool)
        ensures
            r == bytes_lt(self@, other@),
    {
        bytes_less(self.bytes.as_slice(), other.bytes.as_slice())
    }
}

/// A 32-byte word: a hash, a log topic, a pool identifier.
#[derive(Clone, Copy, Debug, PartialEq, Eq, Hash, PartialOrd, Ord)]
pub struct B256 {
    pub bytes: [u8; 32],
}

impl View for B256 {
    type V = Seq<u8>;

    open spec fn view(&self) -> Seq<u8> {
        self.bytes@
    }
}

impl B256 {
    pub fn new(bytes: [u8; 32]) -> (r: B256)
        ensures
            r.bytes == bytes,
    {
        B256 { bytes }
    }

    /// The word made of zero bytes.
    pub fn zero() -> (r: B256)
        ensures
            forall|i: int| 0 <= i < 32 ==> r@[i] == 0,
    {
        B256 { bytes: [0u8;32] }
    }

    /// Words with the same bytes are the same word.
    pub proof fn lemma_view_injective(a: B256, b: B256)
        requires
            a@ == b@,
        ensures
            a == b,
    {
        assert(a.bytes =~= b.bytes);
    }

    pub fn same(&self, other: &B256) -> (r: bool)
        ensures
            r == (self@ == other@),
            r == (*self == *other),
    {
        let r = bytes_same(self.bytes.as_slice(), other.bytes.as_slice());
        proof {
            if r {
                Self::lemma_view_injective(*self, *other);
            }
        }
        r
    }
}

/// Identifier of a pool: the hash of its ABI-encoded key.
pub type PoolId = B256;

/// The Keccak-256 digest of a byte string: its 32 bytes.
pub uninterp spec fn keccak256_of(data: Seq<u8>) -> Seq<u8>;

/// Calls `alloy_primitives::keccak256`. The contract names the digest: the same
/// bytes always hash to the same 32 bytes.
#[verifier::external_body]
fn keccak256(data: &[u8]) -> (digest: B256)
    ensures
        digest@ == keccak256_of(data@),
{
    B256 { bytes: alloy_primitives::keccak256(data).0 }
}

/// The Keccak-256 digest of a byte string as a word.
pub open spec fn hash_of(data: Seq<u8>) -> B256 {
    choose|word: B256| word@ == keccak256_of(data)
}

/// The Keccak-256 digest of a byte string.
pub fn hash(data: &[u8]) -> (digest: B256)
    ensures
        digest == hash_of(data@),
        digest@ == keccak256_of(data@),
{
    let digest = keccak256(data);
    proof {
        B256::lemma_view_injective(digest, hash_of(data@));
    }
    digest
}

} // verus!
