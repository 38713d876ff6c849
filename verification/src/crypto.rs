//! Digests and keys: fixed-size byte strings, SHA-256, and the order on
//! digests that keeps merkleized maps canonical.

use sha2::Digest;
use vstd::prelude::*;

verus! {

/// A 32-byte SHA-256 digest.
#[derive(Clone, Copy, Debug, PartialEq, Eq)]
pub struct Hash {
    pub bytes: [u8; 32],
}

impl View for Hash {
    type V = Hash;

    open spec fn view(&self) -> Hash {
        *self
    }
}

/// A 32-byte public key of a node or of a transaction author.
#[derive(Clone, Copy, Debug, PartialEq, Eq)]
pub struct PublicKey {
    pub bytes: [u8; 32],
}

/// A 64-byte secret key. The core only carries it to where a message is signed.
#[derive(Clone, Copy, Debug, PartialEq, Eq)]
pub struct SecretKey {
    pub bytes: [u8; 64],
}

/// The digest made of 32 zero bytes: it stands where no block precedes.
pub open spec fn zero_hash() -> Hash {
    Hash { bytes: vstd::array::spec_array_fill_for_copy_type::<u8, 32>(0u8) }
}

/// SHA-256 of a byte string. It stands for what `sha2::Sha256::digest` returns.
pub uninterp spec fn sha256(data: Seq<u8>) -> [u8; 32];

/// The digest of a byte string.
pub open spec fn digest(data: Seq<u8>) -> Hash {
    Hash { bytes: sha256(data) }
}

/// Calls `sha2::Sha256::digest`. Trusted: the 32 bytes returned are the
/// SHA-256 digest of `data`, a function of the bytes of `data` alone.
#[verifier::external_body]
fn sha256_digest(data: &[u8]) -> (r: [u8; 32])
    ensures
        r == sha256(data@),
{
    sha2::Sha256::digest(data).into()
}

/// Computes the SHA-256 digest of `data`.
pub fn hash(data: &[u8]) -> (r: Hash)
    ensures
        r == digest(data@),
{
    Hash { bytes: sha256_digest(data) }
}

/// Tells whether two 32-byte arrays hold the same bytes.
fn same_bytes(a: &[u8; 32], b: &[u8; 32]) -> (r: bool)
    ensures
        r == (*a == *b),
{
    let mut i: usize = 0;
    while i < 32
        invariant
            0 <= i <= 32,
            forall|j: int| 0 <= j < i ==> a[j] == b[j],
        decreases 32 - i,
    {
        if a[i] != b[i] {
            return false;
        }
        i += 1;
    }
    assert(*a =~= *b);
    true
}

/// Lexicographic order on digests: `a` comes before `b` when, at the first
/// byte where they differ, `a` holds the smaller byte.
pub open spec fn hash_lt(a: Hash, b: Hash) -> bool {
    exists|i: int|
        0 <= i < 32 && #[trigger] a.bytes[i] < b.bytes[i] && forall|j: int|
            0 <= j < i ==> a.bytes[j] == b.bytes[j]
}

/// The order on digests is irreflexive.
pub proof fn lemma_hash_lt_irreflexive(a: Hash)
    ensures
        !hash_lt(a, a),
{
}

/// The order on digests is transitive.
pub proof fn lemma_hash_lt_transitive(a: Hash, b: Hash, c: Hash)
    requires
        hash_lt(a, b),
        hash_lt(b, c),
    ensures
        hash_lt(a, c),
{
    let i = choose|i: int|
        0 <= i < 32 && #[trigger] a.bytes[i] < b.bytes[i] && forall|j: int|
            0 <= j < i ==> a.bytes[j] == b.bytes[j];
    let k = choose|k: int|
        0 <= k < 32 && #[trigger] b.bytes[k] < c.bytes[k] && forall|j: int|
            0 <= j < k ==> b.bytes[j] == c.bytes[j];
    let m = if i <= k { i } else { k };
    assert(a.bytes[m] < c.bytes[m]);
}

/// Two digests are equal, or exactly one comes before the other.
pub proof fn lemma_hash_lt_total(a: Hash, b: Hash)
    ensures
        a == b || hash_lt(a, b) || hash_lt(b, a),
        !(hash_lt(a, b) && hash_lt(b, a)),
        !(hash_lt(a, b) && a == b),
{
    if hash_lt(a, b) && hash_lt(b, a) {
        lemma_hash_lt_transitive(a, b, a);
    }
    if a != b {
        assert(!(a.bytes =~= b.bytes));
        lemma_first_difference(a, b, 32);
    }
}

/// Two digests that differ in their first `n` bytes have a first byte
/// where they differ.
proof fn lemma_first_difference(a: Hash, b: Hash, n: int)
    requires
        0 <= n <= 32,
        exists|i: int| 0 <= i < n && #[trigger] a.bytes[i] != b.bytes[i],
    ensures
        hash_lt(a, b) || hash_lt(b, a),
    decreases n,
{
    if exists|i: int| 0 <= i < n - 1 && #[trigger] a.bytes[i] != b.bytes[i] {
        lemma_first_difference(a, b, n - 1);
    } else {
        let i = n - 1;
        assert(a.bytes[i] != b.bytes[i]);
        if a.bytes[i] < b.bytes[i] {
            assert(hash_lt(a, b));
        } else {
            assert(b.bytes[i] < a.bytes[i]);
            assert(hash_lt(b, a));
        }
    }
}

impl Hash {
    /// Wraps 32 bytes as a digest.
    pub fn new(bytes: [u8; 32]) -> (r: Hash)
        ensures
            r.bytes == bytes,
    {
        Hash { bytes }
    }

    /// The digest made of 32 zero bytes.
    pub fn zero() -> (r: Hash)
        ensures
            r == zero_hash(),
    {
        Hash { bytes: [0u8; 32] }
    }

    /// Tells whether `self` and `other` are the same digest.
    pub fn same(&self, other: &Hash) -> (r: bool)
        ensures
            r == (*self == *other),
    {
        same_bytes(&self.bytes, &other.bytes)
    }

    /// Tells whether `self` comes before `other` in lexicographic order.
    pub fn less_than(&self, other: &Hash) -> (r: bool)
        ensures
            r == hash_lt(*self, *other),
    {
        let mut i: usize = 0;
        while i < 32
            invariant
                0 <= i <= 32,
                forall|j: int| 0 <= j < i ==> self.bytes[j] == other.bytes[j],
            decreases 32 - i,
        {
            if self.bytes[i] < other.bytes[i] {
                assert(hash_lt(*self, *other));
                return true;
            }
            if self.bytes[i] > other.bytes[i] {
                assert(hash_lt(*other, *self));
                proof {
                    lemma_hash_lt_total(*self, *other);
                }
                return false;
            }
            i += 1;
        }
        assert(self.bytes =~= other.bytes);
        proof {
            lemma_hash_lt_irreflexive(*self);
        }
        false
    }
}

impl PublicKey {
    /// Wraps 32 bytes as a public key.
    pub fn new(bytes: [u8; 32]) -> (r: PublicKey)
        ensures
            r.bytes == bytes,
    {
        PublicKey { bytes }
    }

    /// Tells whether `self` and `other` are the same key.
    pub fn same(&self, other: &PublicKey) -> (r: bool)
        ensures
            r == (*self == *other),
    {
        same_bytes(&self.bytes, &other.bytes)
    }
}

impl SecretKey {
    /// Wraps 64 bytes as a secret key.
    pub fn new(bytes: [u8; 64]) -> (r: SecretKey)
        ensures
            r.bytes == bytes,
    {
        SecretKey { bytes }
    }
}

} // verus!
