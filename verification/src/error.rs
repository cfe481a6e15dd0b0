//! The failures that header construction, mining and decoding can report.

use vstd::prelude::*;

verus! {

/// What a network capability reported when it could not do its work.
#[derive(Clone, Debug, PartialEq, Eq)]
pub struct BackendFailure {
    /// The capability's own description of what went wrong.
    pub message: String,
}

/// Why a header could not be built, mined, hashed or decoded.
#[derive(Clone, Debug, PartialEq, Eq)]
pub enum HeaderError {
    /// The proof backend failed while generating a proof; its report is
    /// carried unchanged.
    ProofGenerationFailure(BackendFailure),
    /// Every nonce of the search space was tried and none met the target.
    MiningExhausted,
    /// The proof bytes do not have the width that the network declares.
    MalformedProof,
    /// Fewer bytes remain than the next field's declared width.
    TruncatedInput,
    /// A header built as a genesis header does not satisfy the genesis
    /// predicate.
    GenesisConstructionFailed,
    /// The network's hash or Merkle-tree capability failed; its report is
    /// carried unchanged.
    HashFailure(BackendFailure),
}

} // verus!
