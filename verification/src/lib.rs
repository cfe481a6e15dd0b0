//! The consensus-bearing block header of a proof-of-work ledger secured by
//! succinct proofs, and the encodings of a prover's coinbase-puzzle solution.
//!
//! A network fixes the width of its proofs and injects its collaborators:
//! the header hash function, the Merkle trees and the proof backend. They
//! are reached through the traits of [`network`]. Everything else (the
//! fixed-width wire formats, the genesis predicate, the nonce search, the
//! assembly of a header, the two encodings of a solution) is decided and
//! proved here.

pub mod bytes;
pub mod digest;
pub mod error;
pub mod header;
pub mod metadata;
pub mod miner;
pub mod network;
pub mod posw;
pub mod random;
pub mod solution;
pub mod transactions;
