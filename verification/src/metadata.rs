//! The three numbers that a header carries beside its digests and proof.

use crate::bytes::{
    from_twos_complement, i64_code, i64_from_code, le_bytes, le_value, read_le, twos_complement,
    write_le,
};
use crate::error::HeaderError;
use vstd::prelude::*;

verus! {

/// Width in bytes of encoded metadata: 8 + 8 + 4.
pub const METADATA_SIZE: usize = 20;

/// Timestamp, difficulty target and nonce of a block header.
#[derive(Clone, Copy, Debug, PartialEq, Eq, Hash, Structural)]
pub struct BlockHeaderMetadata {
    /// Creation time of the block, in seconds.
    pub timestamp: i64,
    /// The score that a proof must not exceed; a lower target is harder.
    pub difficulty_target: u64,
    /// The nonce under which the header's proof was generated.
    pub nonce: u32,
}

/// The wire form of metadata: timestamp, difficulty target and nonce, each
/// little-endian at its fixed width, with nothing between them.
pub open spec fn metadata_encoding(metadata: BlockHeaderMetadata) -> Seq<u8> {
    le_bytes(twos_complement(metadata.timestamp as int), 8) + le_bytes(
        metadata.difficulty_target as nat,
        8,
    ) + le_bytes(metadata.nonce as nat, 4)
}

/// The metadata that the first 20 bytes of `bytes` denote, if there are
/// that many.
pub open spec fn metadata_decoding(bytes: Seq<u8>) -> Option<BlockHeaderMetadata> {
    if bytes.len() < 20 {
        None
    } else {
        Some(
            BlockHeaderMetadata {
                timestamp: from_twos_complement(le_value(bytes.subrange(0, 8))) as i64,
                difficulty_target: le_value(bytes.subrange(8, 16)) as u64,
                nonce: le_value(bytes.subrange(16, 20)) as u32,
            },
        )
    }
}

impl BlockHeaderMetadata {
    /// Metadata with the given timestamp, difficulty target and nonce.
    pub fn new(timestamp: i64, difficulty_target: u64, nonce: u32) -> (metadata: Self)
        ensures
            metadata == (BlockHeaderMetadata { timestamp, difficulty_target, nonce }),
    {
        BlockHeaderMetadata { timestamp, difficulty_target, nonce }
    }

    /// Creation time of the block.
    pub fn timestamp(&self) -> (timestamp: i64)
        ensures
            timestamp == self.timestamp,
    {
        self.timestamp
    }

    /// The score that a proof must not exceed.
    pub fn difficulty_target(&self) -> (target: u64)
        ensures
            target == self.difficulty_target,
    {
        self.difficulty_target
    }

    /// The nonce under which the header's proof was generated.
    pub fn nonce(&self) -> (nonce: u32)
        ensures
            nonce == self.nonce,
    {
        self.nonce
    }

    /// Width of encoded metadata in bytes.
    pub fn size() -> (size: usize)
        ensures
            size == 20,
    {
        METADATA_SIZE
    }

    /// Appends the wire form of the metadata to `out`.
    pub fn write_le(&self, out: &mut Vec<u8>)
        ensures
            final(out)@ == old(out)@ + metadata_encoding(*self),
    {
        write_le(out, i64_code(self.timestamp), 8);
        write_le(out, self.difficulty_target, 8);
        write_le(out, self.nonce as u64, 4);
        assert(out@ =~= old(out)@ + metadata_encoding(*self));
    }

    /// Reads metadata from the first 20 bytes of `bytes`; fails when fewer
    /// are there.
    pub fn read_le(bytes: &[u8]) -> (decoded: Result<Self, HeaderError>)
        ensures
            match metadata_decoding(bytes@) {
                Some(metadata) => decoded == Ok::<Self, HeaderError>(metadata),
                None => decoded == Err::<Self, HeaderError>(HeaderError::TruncatedInput),
            },
    {
        if bytes.len() < METADATA_SIZE {
            return Err(HeaderError::TruncatedInput);
        }
        let code = read_le(bytes, 0, 8);
        let difficulty_target = read_le(bytes, 8, 8);
        let nonce = read_le(bytes, 16, 4);
        proof {
            crate::bytes::lemma_radix_values();
            crate::bytes::lemma_le_value_bound(bytes@.subrange(16, 20));
        }
        Ok(
            BlockHeaderMetadata {
                timestamp: i64_from_code(code),
                difficulty_target,
                nonce: nonce as u32,
            },
        )
    }
}

/// Encoded metadata is 20 bytes wide, and decoding it gives the metadata
/// back.
pub proof fn lemma_metadata_round_trip(metadata: BlockHeaderMetadata)
    ensures
        metadata_encoding(metadata).len() == 20,
        metadata_decoding(metadata_encoding(metadata)) == Some(metadata),
{
    let t = le_bytes(twos_complement(metadata.timestamp as int), 8);
    let d = le_bytes(metadata.difficulty_target as nat, 8);
    let n = le_bytes(metadata.nonce as nat, 4);
    let all = metadata_encoding(metadata);
    crate::bytes::lemma_le_bytes_len(twos_complement(metadata.timestamp as int), 8);
    crate::bytes::lemma_le_bytes_len(metadata.difficulty_target as nat, 8);
    crate::bytes::lemma_le_bytes_len(metadata.nonce as nat, 4);
    crate::bytes::lemma_radix_values();
    crate::bytes::lemma_twos_complement_inverse(metadata.timestamp as int);
    crate::bytes::lemma_le_value_of_bytes(twos_complement(metadata.timestamp as int), 8);
    crate::bytes::lemma_le_value_of_bytes(metadata.difficulty_target as nat, 8);
    crate::bytes::lemma_le_value_of_bytes(metadata.nonce as nat, 4);
    assert(all.subrange(0, 8) =~= t);
    assert(all.subrange(8, 16) =~= d);
    assert(all.subrange(16, 20) =~= n);
}

} // verus!

verus! {

/// Whatever a decoder reads from the front of at least 20 bytes is encoded
/// to exactly the 20 bytes read.
pub proof fn lemma_metadata_decoding_is_exact(bytes: Seq<u8>)
    requires
        bytes.len() >= 20,
    ensures
        metadata_decoding(bytes) is Some,
        metadata_encoding(metadata_decoding(bytes)->Some_0) == bytes.take(20),
{
    let metadata = metadata_decoding(bytes)->Some_0;
    let t = bytes.subrange(0, 8);
    let d = bytes.subrange(8, 16);
    let n = bytes.subrange(16, 20);
    crate::bytes::lemma_radix_values();
    crate::bytes::lemma_le_value_bound(t);
    crate::bytes::lemma_le_value_bound(d);
    crate::bytes::lemma_le_value_bound(n);
    crate::bytes::lemma_from_twos_complement_inverse(le_value(t));
    crate::bytes::lemma_le_bytes_of_value(t);
    crate::bytes::lemma_le_bytes_of_value(d);
    crate::bytes::lemma_le_bytes_of_value(n);
    assert(metadata_encoding(metadata) =~= bytes.take(20));
}

} // verus!
