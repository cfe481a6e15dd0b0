//! The proof of succinct work that a header carries: an opaque blob whose
//! width the network fixes.

use crate::bytes::{bytes_equal, copy_bytes};
use crate::error::HeaderError;
use crate::network::{Network, HEADER_PREFIX_SIZE};
use std::marker::PhantomData;
use vstd::prelude::*;
use vstd::std_specs::cmp::PartialEqSpecImpl;

verus! {

/// A proof of succinct work of the width that network `N` declares.
#[derive(Debug)]
pub struct ProofOfSuccinctWork<N: Network> {
    bytes: Vec<u8>,
    network: PhantomData<N>,
}

impl<N: Network> View for ProofOfSuccinctWork<N> {
    type V = Seq<u8>;

    closed spec fn view(&self) -> Seq<u8> {
        self.bytes@
    }
}

impl<N: Network> Clone for ProofOfSuccinctWork<N> {
    fn clone(&self) -> (copy: Self)
        ensures
            copy@ == self@,
    {
        proof {
            use_type_invariant(self);
        }
        let bytes = copy_bytes(self.bytes.as_slice(), 0, self.bytes.len());
        assert(self.bytes@.subrange(0, self.bytes@.len() as int) =~= self.bytes@);
        ProofOfSuccinctWork { bytes, network: PhantomData }
    }
}

impl<N: Network> PartialEq for ProofOfSuccinctWork<N> {
    /// Two proofs are equal when their bytes are.
    fn eq(&self, other: &Self) -> (equal: bool) {
        bytes_equal(self.bytes.as_slice(), other.bytes.as_slice())
    }
}

impl<N: Network> PartialEqSpecImpl for ProofOfSuccinctWork<N> {
    open spec fn obeys_eq_spec() -> bool {
        true
    }

    open spec fn eq_spec(&self, other: &Self) -> bool {
        self@ == other@
    }
}

impl<N: Network> Eq for ProofOfSuccinctWork<N> {

}

impl<N: Network> ProofOfSuccinctWork<N> {
    /// A proof is exactly as wide as its network declares.
    #[verifier::type_invariant]
    pub closed spec fn well_formed(self) -> bool {
        self.bytes@.len() == N::proof_width()
    }

    /// Width of a proof in bytes.
    pub fn size() -> (size: usize)
        ensures
            size == N::proof_width(),
            size + HEADER_PREFIX_SIZE <= usize::MAX,
    {
        N::proof_size()
    }

    /// Parses proof bytes into the fixed-size representation; fails unless
    /// they have exactly the declared width.
    pub fn new(bytes: &[u8]) -> (parsed: Result<Self, HeaderError>)
        ensures
            bytes@.len() == N::proof_width() ==> parsed is Ok && parsed->Ok_0@ == bytes@,
            bytes@.len() != N::proof_width() ==> parsed == Err::<Self, HeaderError>(
                HeaderError::MalformedProof,
            ),
    {
        if bytes.len() != N::proof_size() {
            return Err(HeaderError::MalformedProof);
        }
        let copy = copy_bytes(bytes, 0, bytes.len());
        assert(bytes@.subrange(0, bytes@.len() as int) =~= bytes@);
        Ok(ProofOfSuccinctWork { bytes: copy, network: PhantomData })
    }

    /// The bytes of the proof.
    pub fn as_bytes(&self) -> (bytes: &[u8])
        ensures
            bytes@ == self@,
            bytes@.len() == N::proof_width(),
    {
        proof {
            use_type_invariant(self);
        }
        self.bytes.as_slice()
    }
}

} // verus!
