//! What a network fixes: its size constants, and the capabilities that it
//! injects into header construction.
//!
//! Different chains use different hash functions, proof systems and proof
//! widths. The header logic is written once, against these traits: the
//! canonical encoding needs only the sizes of [`Network`]; construction,
//! mining and hashing need the collaborators of [`Backend`].

use crate::error::BackendFailure;
use rand::rngs::StdRng;
use vstd::prelude::*;

verus! {

/// Width in bytes of everything in a header but its proof: four digests and
/// the metadata.
pub const HEADER_PREFIX_SIZE: usize = 148;

/// Width in bytes of a proof of succinct work on the reference network.
pub const TESTNET2_PROOF_SIZE: usize = 771;

/// The size constants of a network.
///
/// The width is left unspecified here. A network that is verified states it
/// and proves `proof_size` against it, as [`Testnet2`] does. For any other
/// network it stands for what `proof_size` returns.
pub trait Network: Sized {
    /// Width in bytes of a proof of succinct work on this network.
    closed spec fn proof_width() -> nat {
        arbitrary()
    }

    /// Width in bytes of a proof of succinct work. A header must fit in
    /// memory, so the width leaves room for the rest of the header.
    fn proof_size() -> (size: usize)
        ensures
            size == Self::proof_width(),
            size + HEADER_PREFIX_SIZE <= usize::MAX,
    ;
}

/// The collaborators of a network: its header hash function, its Merkle
/// trees and its proof backend.
///
/// Each capability that is a function of its arguments alone has a
/// specification-level name, and the executable method computes that name:
/// the same arguments give the same result, success or failure. Proof
/// generation may draw randomness, so it has no such name; `attests` names
/// the proofs that the backend may hand out for a statement.
///
/// The names are left unspecified here. A backend that is verified states
/// them and proves its methods against them. For any other backend they
/// stand for what its methods compute, and everything proved of header
/// construction rests on its methods meeting the contracts below.
pub trait Backend: Network {
    /// The digest that the header hash function gives for `bytes`, or the
    /// failure with which it rejects them.
    closed spec fn header_digest(bytes: Seq<u8>) -> Result<[u8; 32], BackendFailure> {
        arbitrary()
    }

    /// Root and subroots of the transaction tree over `ids`, or the failure
    /// with which the tree builder rejects them.
    closed spec fn transaction_roots(ids: Seq<[u8; 32]>) -> Result<
        ([u8; 32], Seq<[u8; 32]>),
        BackendFailure,
    > {
        arbitrary()
    }

    /// Root of the ledger tree over `leaves`, or the failure with which the
    /// tree builder rejects them.
    closed spec fn ledger_root(leaves: Seq<[u8; 32]>) -> Result<[u8; 32], BackendFailure> {
        arbitrary()
    }

    /// Tells whether `proof` is a proof of the statement `(subroots, nonce)`:
    /// one that the backend may hand out when asked for it.
    closed spec fn attests(subroots: Seq<[u8; 32]>, nonce: u32, proof: Seq<u8>) -> bool {
        arbitrary()
    }

    /// The score of a proof: the number that is compared with the
    /// difficulty target.
    closed spec fn score(proof: Seq<u8>) -> u64 {
        arbitrary()
    }

    /// Hashes the canonical bytes of a header.
    fn hash_header(bytes: &[u8]) -> (digest: Result<[u8; 32], BackendFailure>)
        ensures
            digest == Self::header_digest(bytes@),
    ;

    /// Builds the transaction tree over `ids`, which are not empty; gives
    /// its root and the subroots that the proof-of-work statement consists
    /// of.
    fn transaction_tree(ids: &Vec<[u8; 32]>) -> (roots: Result<
        ([u8; 32], Vec<[u8; 32]>),
        BackendFailure,
    >)
        requires
            ids@.len() > 0,
        ensures
            match roots {
                Ok((root, subroots)) => Self::transaction_roots(ids@) == Ok::<
                    ([u8; 32], Seq<[u8; 32]>),
                    BackendFailure,
                >((root, subroots@)),
                Err(failure) => Self::transaction_roots(ids@) == Err::<
                    ([u8; 32], Seq<[u8; 32]>),
                    BackendFailure,
                >(failure),
            },
    ;

    /// Builds a ledger tree over `leaves` and gives its root.
    fn ledger_tree_root(leaves: &Vec<[u8; 32]>) -> (root: Result<[u8; 32], BackendFailure>)
        ensures
            root == Self::ledger_root(leaves@),
    ;

    /// Asks the proof backend for a proof of the statement `(subroots,
    /// nonce)`. The backend may draw randomness and may fail; what it hands
    /// out is a proof of the statement it was given.
    fn generate_proof(subroots: &Vec<[u8; 32]>, nonce: u32, rng: &mut StdRng) -> (proof: Result<
        Vec<u8>,
        BackendFailure,
    >)
        ensures
            proof is Ok ==> Self::attests(subroots@, nonce, proof->Ok_0@),
    ;

    /// Derives the score of a proof from its bytes.
    fn derive_score(proof: &[u8]) -> (score: u64)
        ensures
            score == Self::score(proof@),
    ;
}

/// The reference network: proofs of 771 bytes, and so headers of 919.
#[derive(Clone, Copy, Debug, PartialEq, Eq, Structural)]
pub struct Testnet2;

impl Network for Testnet2 {
    open spec fn proof_width() -> nat {
        771
    }

    fn proof_size() -> (size: usize) {
        TESTNET2_PROOF_SIZE
    }
}

} // verus!
