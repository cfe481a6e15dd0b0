//! Fixed-size digests: the header hash and the two kinds of Merkle root.
//!
//! The three types have the same shape and are deliberately distinct: a root
//! of the transaction tree and a root of a ledger tree come from different
//! hash functions and are never interchangeable.

use crate::bytes::bytes_equal;
use vstd::prelude::*;
use vstd::std_specs::cmp::PartialEqSpecImpl;

verus! {

/// Width in bytes of every digest.
pub const DIGEST_SIZE: usize = 32;

/// The all-zero digest, as a byte string.
pub open spec fn zero_digest() -> Seq<u8> {
    Seq::new(32, |i: int| 0u8)
}

/// Tells whether every byte of `digest` is zero.
pub fn is_zero_digest(digest: &[u8; 32]) -> (zero: bool)
    ensures
        zero == (digest@ == zero_digest()),
{
    let mut i: usize = 0;
    while i < 32
        invariant
            i <= 32,
            forall|k: int| 0 <= k < i ==> digest@[k] == 0,
        decreases 32 - i,
    {
        if digest[i] != 0 {
            assert(zero_digest()[i as int] == 0);
            return false;
        }
        i = i + 1;
    }
    assert(digest@ =~= zero_digest());
    true
}

/// Hash of a block header.
#[derive(Clone, Copy, Debug, Eq, Hash)]
pub struct BlockHeaderHash(pub [u8; 32]);

/// Root of the transaction tree.
#[derive(Clone, Copy, Debug, Eq, Hash)]
pub struct PedersenMerkleRoot(pub [u8; 32]);

/// Root of a ledger tree: of the commitments or of the serial numbers.
#[derive(Clone, Copy, Debug, Eq, Hash)]
pub struct MerkleRoot(pub [u8; 32]);

impl PartialEq for BlockHeaderHash {
    /// Two digests are equal when their bytes are.
    fn eq(&self, other: &Self) -> (equal: bool) {
        bytes_equal(self.0.as_slice(), other.0.as_slice())
    }
}

impl PartialEqSpecImpl for BlockHeaderHash {
    open spec fn obeys_eq_spec() -> bool {
        true
    }

    open spec fn eq_spec(&self, other: &Self) -> bool {
        self.0@ == other.0@
    }
}

impl PartialEq for PedersenMerkleRoot {
    /// Two digests are equal when their bytes are.
    fn eq(&self, other: &Self) -> (equal: bool) {
        bytes_equal(self.0.as_slice(), other.0.as_slice())
    }
}

impl PartialEqSpecImpl for PedersenMerkleRoot {
    open spec fn obeys_eq_spec() -> bool {
        true
    }

    open spec fn eq_spec(&self, other: &Self) -> bool {
        self.0@ == other.0@
    }
}

impl PartialEq for MerkleRoot {
    /// Two digests are equal when their bytes are.
    fn eq(&self, other: &Self) -> (equal: bool) {
        bytes_equal(self.0.as_slice(), other.0.as_slice())
    }
}

impl PartialEqSpecImpl for MerkleRoot {
    open spec fn obeys_eq_spec() -> bool {
        true
    }

    open spec fn eq_spec(&self, other: &Self) -> bool {
        self.0@ == other.0@
    }
}

impl BlockHeaderHash {
    /// Width of the digest in bytes.
    pub fn size() -> (size: usize)
        ensures
            size == 32,
    {
        DIGEST_SIZE
    }
}

impl PedersenMerkleRoot {
    /// Width of the digest in bytes.
    pub fn size() -> (size: usize)
        ensures
            size == 32,
    {
        DIGEST_SIZE
    }
}

impl MerkleRoot {
    /// Width of the digest in bytes.
    pub fn size() -> (size: usize)
        ensures
            size == 32,
    {
        DIGEST_SIZE
    }

    /// Wraps the root element that a ledger tree hands out.
    pub fn from_element(element: [u8; 32]) -> (root: Self)
        ensures
            root.0 == element,
    {
        MerkleRoot(element)
    }
}

} // verus!
