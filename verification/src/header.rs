//! The block header: its fields, its canonical fixed-width encoding, the
//! genesis predicate and its hash.

use crate::bytes::{append_bytes, copy_bytes, read_array};
use crate::digest::{
    is_zero_digest, zero_digest, BlockHeaderHash, MerkleRoot, PedersenMerkleRoot,
};
use crate::error::HeaderError;
use crate::miner::{tried_in_vain, ProofOfWorkMiner};
use crate::metadata::{
    lemma_metadata_round_trip, metadata_decoding, metadata_encoding, BlockHeaderMetadata,
};
use crate::network::{Backend, Network, Testnet2, HEADER_PREFIX_SIZE};
use crate::posw::ProofOfSuccinctWork;
use crate::transactions::{
    commitments_root, flat_commitments, flat_serial_numbers, ledger_root_of,
    serial_numbers_root, transaction_ids, transaction_roots, Transaction, Transactions,
};
use rand::rngs::StdRng;
use vstd::prelude::*;
use vstd::std_specs::cmp::PartialEqSpecImpl;

verus! {

/// Block header.
#[derive(Debug)]
pub struct BlockHeader<N: Network> {
    /// Hash of the previous block: 32 bytes.
    pub previous_block_hash: BlockHeaderHash,
    /// Root of the tree over the block's transaction ids: 32 bytes.
    pub transactions_root: PedersenMerkleRoot,
    /// Root of the tree over the block's commitments: 32 bytes.
    pub commitments_root: MerkleRoot,
    /// Root of the tree over the block's serial numbers: 32 bytes.
    pub serial_numbers_root: MerkleRoot,
    /// Timestamp, difficulty target and nonce: 20 bytes.
    pub metadata: BlockHeaderMetadata,
    /// Proof of succinct work, of the width that the network declares.
    pub proof: ProofOfSuccinctWork<N>,
}

/// What a header is, apart from how it is held in memory.
pub struct HeaderModel {
    pub previous_block_hash: Seq<u8>,
    pub transactions_root: Seq<u8>,
    pub commitments_root: Seq<u8>,
    pub serial_numbers_root: Seq<u8>,
    pub metadata: BlockHeaderMetadata,
    pub proof: Seq<u8>,
}

impl<N: Network> View for BlockHeader<N> {
    type V = HeaderModel;

    open spec fn view(&self) -> HeaderModel {
        HeaderModel {
            previous_block_hash: self.previous_block_hash.0@,
            transactions_root: self.transactions_root.0@,
            commitments_root: self.commitments_root.0@,
            serial_numbers_root: self.serial_numbers_root.0@,
            metadata: self.metadata,
            proof: self.proof@,
        }
    }
}

impl<N: Network> Clone for BlockHeader<N> {
    fn clone(&self) -> (copy: Self)
        ensures
            copy@ == self@,
    {
        BlockHeader {
            previous_block_hash: self.previous_block_hash,
            transactions_root: self.transactions_root,
            commitments_root: self.commitments_root,
            serial_numbers_root: self.serial_numbers_root,
            metadata: self.metadata,
            proof: self.proof.clone(),
        }
    }
}

impl<N: Network> PartialEq for BlockHeader<N> {
    /// Two headers are equal when all their fields are.
    fn eq(&self, other: &Self) -> (equal: bool) {
        self.previous_block_hash == other.previous_block_hash && self.transactions_root
            == other.transactions_root && self.commitments_root == other.commitments_root
            && self.serial_numbers_root == other.serial_numbers_root && self.metadata
            == other.metadata && self.proof == other.proof
    }
}

impl<N: Network> PartialEqSpecImpl for BlockHeader<N> {
    open spec fn obeys_eq_spec() -> bool {
        true
    }

    open spec fn eq_spec(&self, other: &Self) -> bool {
        self@ == other@
    }
}

impl<N: Network> Eq for BlockHeader<N> {

}

/// A header whose digests are 32 bytes wide and whose proof is
/// `proof_width` bytes wide.
pub open spec fn valid_header(header: HeaderModel, proof_width: nat) -> bool {
    &&& header.previous_block_hash.len() == 32
    &&& header.transactions_root.len() == 32
    &&& header.commitments_root.len() == 32
    &&& header.serial_numbers_root.len() == 32
    &&& header.proof.len() == proof_width
}

/// The canonical encoding: the fields in declared order, each at its fixed
/// width, with no padding and no length prefixes.
pub open spec fn header_encoding(header: HeaderModel) -> Seq<u8> {
    header.previous_block_hash + header.transactions_root + header.commitments_root
        + header.serial_numbers_root + metadata_encoding(header.metadata) + header.proof
}

/// The header that the first `148 + proof_width` bytes of `bytes` denote, if
/// there are that many.
pub open spec fn header_decoding(bytes: Seq<u8>, proof_width: nat) -> Option<HeaderModel> {
    if bytes.len() < 148 + proof_width {
        None
    } else {
        Some(
            HeaderModel {
                previous_block_hash: bytes.subrange(0, 32),
                transactions_root: bytes.subrange(32, 64),
                commitments_root: bytes.subrange(64, 96),
                serial_numbers_root: bytes.subrange(96, 128),
                metadata: metadata_decoding(bytes.subrange(128, 148))->Some_0,
                proof: bytes.subrange(148, 148 + proof_width as int),
            },
        )
    }
}

/// The hash of a header: the network's digest of its canonical encoding, or
/// the hash function's failure as `to_hash` reports it.
pub open spec fn header_hash_of<N: Backend>(header: HeaderModel) -> Result<
    BlockHeaderHash,
    HeaderError,
> {
    match N::header_digest(header_encoding(header)) {
        Ok(digest) => Ok(BlockHeaderHash(digest)),
        Err(failure) => Err(HeaderError::HashFailure(failure)),
    }
}

/// The roots that a genesis header commits to, and the subroots that its
/// proof is mined over.
pub struct GenesisRoots {
    pub commitments_root: MerkleRoot,
    pub serial_numbers_root: MerkleRoot,
    pub transactions_root: PedersenMerkleRoot,
    pub subroots: Seq<[u8; 32]>,
}

/// The roots of a genesis block over `transactions`: the commitments root,
/// the serial numbers root and the transaction roots, built in that order,
/// or the failure of the first tree that cannot be built.
pub open spec fn genesis_roots_of<N: Backend>(transactions: Seq<Transaction>) -> Result<
    GenesisRoots,
    HeaderError,
> {
    match ledger_root_of::<N>(flat_commitments(transactions)) {
        Err(e) => Err(e),
        Ok(commitments_root) => match ledger_root_of::<N>(flat_serial_numbers(transactions)) {
            Err(e) => Err(e),
            Ok(serial_numbers_root) => match N::transaction_roots(transaction_ids(transactions)) {
                Err(failure) => Err(HeaderError::HashFailure(failure)),
                Ok((root, subroots)) => Ok(
                    GenesisRoots {
                        commitments_root,
                        serial_numbers_root,
                        transactions_root: PedersenMerkleRoot(root),
                        subroots,
                    },
                ),
            },
        },
    }
}

/// The genesis predicate: the timestamp is zero, or the previous block hash
/// is all-zero. Either alone suffices.
pub open spec fn is_genesis_header(header: HeaderModel) -> bool {
    header.metadata.timestamp == 0 || header.previous_block_hash == zero_digest()
}

impl<N: Network> BlockHeader<N> {
    /// Returns `true` if the block header is a genesis block header.
    pub fn is_genesis(&self) -> (genesis: bool)
        ensures
            genesis == is_genesis_header(self@),
    {
        self.metadata.timestamp() == 0 || is_zero_digest(&self.previous_block_hash.0)
    }

    /// Returns the block header size in bytes: the sum of the widths of its
    /// fields.
    pub fn size() -> (size: usize)
        ensures
            size == 32 + 32 + 32 + 32 + 20 + N::proof_width(),
    {
        BlockHeaderHash::size() + PedersenMerkleRoot::size() + MerkleRoot::size()
            + MerkleRoot::size() + BlockHeaderMetadata::size() + ProofOfSuccinctWork::<N>::size()
    }

    /// Appends the canonical encoding of the header to `out`.
    pub fn write_le(&self, out: &mut Vec<u8>)
        ensures
            final(out)@ == old(out)@ + header_encoding(self@),
            header_encoding(self@).len() == 148 + N::proof_width(),
    {
        append_bytes(out, self.previous_block_hash.0.as_slice());
        append_bytes(out, self.transactions_root.0.as_slice());
        append_bytes(out, self.commitments_root.0.as_slice());
        append_bytes(out, self.serial_numbers_root.0.as_slice());
        self.metadata.write_le(out);
        append_bytes(out, self.proof.as_bytes());
        proof {
            lemma_metadata_round_trip(self.metadata);
            assert(out@ =~= old(out)@ + header_encoding(self@));
        }
    }

    /// Returns the canonical encoding of the header.
    pub fn to_bytes_le(&self) -> (bytes: Vec<u8>)
        ensures
            bytes@ == header_encoding(self@),
            bytes@.len() == 148 + N::proof_width(),
    {
        let mut bytes: Vec<u8> = Vec::new();
        self.write_le(&mut bytes);
        assert(bytes@ =~= header_encoding(self@));
        bytes
    }

    /// Reads a header from the front of `bytes`; fails when fewer bytes are
    /// there than a header is wide.
    pub fn read_le(bytes: &[u8]) -> (decoded: Result<Self, HeaderError>)
        ensures
            match header_decoding(bytes@, N::proof_width()) {
                Some(header) => decoded is Ok && decoded->Ok_0@ == header,
                None => decoded == Err::<Self, HeaderError>(HeaderError::TruncatedInput),
            },
    {
        let proof_size = N::proof_size();
        if bytes.len() < HEADER_PREFIX_SIZE + proof_size {
            return Err(HeaderError::TruncatedInput);
        }
        let previous_block_hash = read_array::<32>(bytes, 0);
        let transactions_root = read_array::<32>(bytes, 32);
        let commitments_root = read_array::<32>(bytes, 64);
        let serial_numbers_root = read_array::<32>(bytes, 96);
        let metadata_bytes = copy_bytes(bytes, 128, 20);
        let metadata = match BlockHeaderMetadata::read_le(metadata_bytes.as_slice()) {
            Ok(metadata) => metadata,
            Err(e) => {
                return Err(e);
            },
        };
        let proof_bytes = copy_bytes(bytes, HEADER_PREFIX_SIZE, proof_size);
        let proof = match ProofOfSuccinctWork::<N>::new(proof_bytes.as_slice()) {
            Ok(proof) => proof,
            Err(e) => {
                return Err(e);
            },
        };
        Ok(
            BlockHeader {
                previous_block_hash: BlockHeaderHash(previous_block_hash),
                transactions_root: PedersenMerkleRoot(transactions_root),
                commitments_root: MerkleRoot(commitments_root),
                serial_numbers_root: MerkleRoot(serial_numbers_root),
                metadata,
                proof,
            },
        )
    }

    /// Assembles a header from its digests, its metadata and the bytes of a
    /// mined proof. Fails with `MalformedProof` exactly when the proof bytes
    /// have not the width that the network declares.
    pub fn assemble(
        previous_block_hash: BlockHeaderHash,
        transactions_root: PedersenMerkleRoot,
        commitments_root: MerkleRoot,
        serial_numbers_root: MerkleRoot,
        metadata: BlockHeaderMetadata,
        proof: &[u8],
    ) -> (header: Result<Self, HeaderError>)
        ensures
            proof@.len() == N::proof_width() ==> header is Ok && header->Ok_0@ == (HeaderModel {
                previous_block_hash: previous_block_hash.0@,
                transactions_root: transactions_root.0@,
                commitments_root: commitments_root.0@,
                serial_numbers_root: serial_numbers_root.0@,
                metadata,
                proof: proof@,
            }),
            proof@.len() != N::proof_width() ==> header == Err::<Self, HeaderError>(
                HeaderError::MalformedProof,
            ),
            header is Ok ==> {
                &&& header->Ok_0.previous_block_hash == previous_block_hash
                &&& header->Ok_0.transactions_root == transactions_root
                &&& header->Ok_0.commitments_root == commitments_root
                &&& header->Ok_0.serial_numbers_root == serial_numbers_root
            },
    {
        match ProofOfSuccinctWork::<N>::new(proof) {
            Ok(proof) => Ok(
                BlockHeader {
                    previous_block_hash,
                    transactions_root,
                    commitments_root,
                    serial_numbers_root,
                    metadata,
                    proof,
                },
            ),
            Err(e) => Err(e),
        }
    }

    /// Hands a header back if it satisfies the genesis predicate, and fails
    /// with `GenesisConstructionFailed` if it does not.
    pub fn check_genesis(block_header: Self) -> (checked: Result<Self, HeaderError>)
        ensures
            is_genesis_header(block_header@) ==> checked == Ok::<Self, HeaderError>(block_header),
            !is_genesis_header(block_header@) ==> checked == Err::<Self, HeaderError>(
                HeaderError::GenesisConstructionFailed,
            ),
    {
        match block_header.is_genesis() {
            true => Ok(block_header),
            false => Err(HeaderError::GenesisConstructionFailed),
        }
    }
}

impl<N: Backend> BlockHeader<N> {
    /// Initializes a new instance of a block header: builds the transaction
    /// tree, mines a proof over its subroots, and assembles the header.
    ///
    /// The block must hold at least one transaction. Fails with
    /// `HashFailure` where the transaction tree cannot be built, with
    /// `MiningExhausted` or `ProofGenerationFailure` as the search does, and
    /// with `MalformedProof` where the mined proof has not the declared
    /// width.
    pub fn new(
        previous_block_hash: BlockHeaderHash,
        transactions: &Transactions,
        commitments_root: MerkleRoot,
        serial_numbers_root: MerkleRoot,
        timestamp: i64,
        difficulty_target: u64,
        max_nonce: u32,
        rng: &mut StdRng,
    ) -> (header: Result<Self, HeaderError>)
        requires
            transactions.0@.len() > 0,
        ensures
            match (N::transaction_roots(transaction_ids(transactions.0@)), header) {
                (Err(failure), _) => header == Err::<Self, HeaderError>(
                    HeaderError::HashFailure(failure),
                ),
                (Ok((root, subroots)), Ok(h)) => {
                    &&& h.previous_block_hash == previous_block_hash
                    &&& h.transactions_root == PedersenMerkleRoot(root)
                    &&& h.commitments_root == commitments_root
                    &&& h.serial_numbers_root == serial_numbers_root
                    &&& h.metadata.timestamp == timestamp
                    &&& h.metadata.difficulty_target == difficulty_target
                    &&& h.metadata.nonce < max_nonce
                    &&& h@.proof.len() == N::proof_width()
                    &&& N::attests(subroots, h.metadata.nonce, h@.proof)
                    &&& N::score(h@.proof) <= difficulty_target
                    &&& (ProofOfWorkMiner { difficulty_target, max_nonce }).first_success::<N>(
                        subroots,
                        h.metadata.nonce,
                    )
                },
                (Ok((_, subroots)), Err(e)) => match e {
                    HeaderError::MiningExhausted => {
                        &&& max_nonce == 0 || difficulty_target < u64::MAX
                        &&& forall|nonce: u32|
                            nonce < max_nonce ==> tried_in_vain::<N>(
                                subroots,
                                nonce,
                                difficulty_target,
                            )
                    },
                    HeaderError::ProofGenerationFailure(_) => max_nonce > 0,
                    HeaderError::MalformedProof => max_nonce > 0,
                    _ => false,
                },
            },
            N::transaction_roots(transaction_ids(transactions.0@)) is Ok && max_nonce == 0
                ==> header == Err::<Self, HeaderError>(HeaderError::MiningExhausted),
    {
        let (transactions_root, subroots) = match transaction_roots::<N>(transactions) {
            Ok(roots) => roots,
            Err(e) => {
                return Err(e);
            },
        };
        let miner = ProofOfWorkMiner::new(difficulty_target, max_nonce);
        let (nonce, proof) = match miner.mine::<N>(&subroots, rng) {
            Ok(mined) => mined,
            Err(e) => {
                return Err(e);
            },
        };
        Self::assemble(
            previous_block_hash,
            transactions_root,
            commitments_root,
            serial_numbers_root,
            BlockHeaderMetadata::new(timestamp, difficulty_target, nonce),
            proof.as_slice(),
        )
    }

    /// Initializes a new instance of a genesis block header: the roots of
    /// the two ledger trees are built from the block's own transactions, the
    /// previous block hash is all-zero, the timestamp is zero, and both the
    /// difficulty target and the nonce bound are the largest there are.
    ///
    /// The block must hold at least one transaction. A header that comes
    /// back satisfies the genesis predicate; the final check of that
    /// predicate never fails.
    pub fn new_genesis(transactions: &Transactions, rng: &mut StdRng) -> (header: Result<
        Self,
        HeaderError,
    >)
        requires
            transactions.0@.len() > 0,
        ensures
            match (genesis_roots_of::<N>(transactions.0@), header) {
                (Err(e), _) => header == Err::<Self, HeaderError>(e),
                (Ok(roots), Ok(h)) => {
                    &&& is_genesis_header(h@)
                    &&& h@.previous_block_hash == zero_digest()
                    &&& h.transactions_root == roots.transactions_root
                    &&& h.commitments_root == roots.commitments_root
                    &&& h.serial_numbers_root == roots.serial_numbers_root
                    &&& h.metadata.timestamp == 0
                    &&& h.metadata.difficulty_target == u64::MAX
                    &&& h.metadata.nonce < u32::MAX
                    &&& h@.proof.len() == N::proof_width()
                    &&& N::attests(roots.subroots, h.metadata.nonce, h@.proof)
                },
                (Ok(_), Err(e)) => e is ProofGenerationFailure || e is MalformedProof,
            },
    {
        let previous_block_hash = BlockHeaderHash([0u8; 32]);
        assert(previous_block_hash.0@ =~= zero_digest());

        let commitments_root = match commitments_root::<N>(transactions) {
            Ok(root) => root,
            Err(e) => {
                return Err(e);
            },
        };
        let serial_numbers_root = match serial_numbers_root::<N>(transactions) {
            Ok(root) => root,
            Err(e) => {
                return Err(e);
            },
        };

        let timestamp: i64 = 0;
        let difficulty_target: u64 = u64::MAX;
        let max_nonce: u32 = u32::MAX;

        let block_header = match Self::new(
            previous_block_hash,
            transactions,
            commitments_root,
            serial_numbers_root,
            timestamp,
            difficulty_target,
            max_nonce,
            rng,
        ) {
            Ok(block_header) => block_header,
            Err(e) => {
                return Err(e);
            },
        };

        Self::check_genesis(block_header)
    }

    /// Returns the hash of the header: the network's header hash function
    /// applied to the canonical encoding.
    pub fn to_hash(&self) -> (hash: Result<BlockHeaderHash, HeaderError>)
        ensures
            hash == header_hash_of::<N>(self@),
    {
        let serialized = self.to_bytes_le();
        match N::hash_header(serialized.as_slice()) {
            Ok(digest) => Ok(BlockHeaderHash(digest)),
            Err(failure) => Err(HeaderError::HashFailure(failure)),
        }
    }
}

} // verus!

verus! {

/// Round trip: the encoding of a valid header is `148 + proof_width` bytes
/// wide, and decoding it gives the header back.
pub proof fn lemma_header_round_trip(header: HeaderModel, proof_width: nat)
    requires
        valid_header(header, proof_width),
    ensures
        header_encoding(header).len() == 148 + proof_width,
        header_decoding(header_encoding(header), proof_width) == Some(header),
{
    let bytes = header_encoding(header);
    lemma_header_layout(header, proof_width);
    lemma_metadata_round_trip(header.metadata);
    let decoded = header_decoding(bytes, proof_width)->Some_0;
    assert(decoded.previous_block_hash =~= header.previous_block_hash);
    assert(decoded.transactions_root =~= header.transactions_root);
    assert(decoded.commitments_root =~= header.commitments_root);
    assert(decoded.serial_numbers_root =~= header.serial_numbers_root);
    assert(decoded.proof =~= header.proof);
}

/// Fixed size on the reference network: the encoding of every valid header
/// is 919 bytes wide.
pub proof fn lemma_testnet2_header_size(header: HeaderModel)
    requires
        valid_header(header, Testnet2::proof_width()),
    ensures
        header_encoding(header).len() == 919,
{
    lemma_header_round_trip(header, Testnet2::proof_width());
}

/// Layout: in the encoding of a valid header each field stands at its fixed
/// offset, in declared order, the three numbers little-endian at their fixed
/// widths, with no padding and no length prefix anywhere. This is what a
/// generic field-by-field serializer of fixed-width values writes.
pub proof fn lemma_header_layout(header: HeaderModel, proof_width: nat)
    requires
        valid_header(header, proof_width),
    ensures
        header_encoding(header).len() == 148 + proof_width,
        header_encoding(header).subrange(0, 32) == header.previous_block_hash,
        header_encoding(header).subrange(32, 64) == header.transactions_root,
        header_encoding(header).subrange(64, 96) == header.commitments_root,
        header_encoding(header).subrange(96, 128) == header.serial_numbers_root,
        header_encoding(header).subrange(128, 148) == metadata_encoding(header.metadata),
        header_encoding(header).subrange(128, 136) == crate::bytes::le_bytes(
            crate::bytes::twos_complement(header.metadata.timestamp as int),
            8,
        ),
        header_encoding(header).subrange(136, 144) == crate::bytes::le_bytes(
            header.metadata.difficulty_target as nat,
            8,
        ),
        header_encoding(header).subrange(144, 148) == crate::bytes::le_bytes(
            header.metadata.nonce as nat,
            4,
        ),
        header_encoding(header).subrange(148, 148 + proof_width as int) == header.proof,
{
    let bytes = header_encoding(header);
    let metadata = metadata_encoding(header.metadata);
    lemma_metadata_round_trip(header.metadata);
    crate::bytes::lemma_le_bytes_len(
        crate::bytes::twos_complement(header.metadata.timestamp as int),
        8,
    );
    crate::bytes::lemma_le_bytes_len(header.metadata.difficulty_target as nat, 8);
    crate::bytes::lemma_le_bytes_len(header.metadata.nonce as nat, 4);
    assert(bytes.subrange(0, 32) =~= header.previous_block_hash);
    assert(bytes.subrange(32, 64) =~= header.transactions_root);
    assert(bytes.subrange(64, 96) =~= header.commitments_root);
    assert(bytes.subrange(96, 128) =~= header.serial_numbers_root);
    assert(bytes.subrange(128, 148) =~= metadata);
    assert(bytes.subrange(128, 136) =~= metadata.subrange(0, 8));
    assert(bytes.subrange(136, 144) =~= metadata.subrange(8, 16));
    assert(bytes.subrange(144, 148) =~= metadata.subrange(16, 20));
    assert(metadata.subrange(0, 8) =~= crate::bytes::le_bytes(
        crate::bytes::twos_complement(header.metadata.timestamp as int),
        8,
    ));
    assert(metadata.subrange(8, 16) =~= crate::bytes::le_bytes(
        header.metadata.difficulty_target as nat,
        8,
    ));
    assert(metadata.subrange(16, 20) =~= crate::bytes::le_bytes(
        header.metadata.nonce as nat,
        4,
    ));
    assert(bytes.subrange(148, 148 + proof_width as int) =~= header.proof);
}

/// Whatever a decoder reads from the front of a long enough byte string is
/// a valid header, and encoding it gives back exactly the bytes read.
pub proof fn lemma_header_decoding_is_exact(bytes: Seq<u8>, proof_width: nat)
    requires
        bytes.len() >= 148 + proof_width,
    ensures
        header_decoding(bytes, proof_width) is Some,
        valid_header(header_decoding(bytes, proof_width)->Some_0, proof_width),
        header_encoding(header_decoding(bytes, proof_width)->Some_0) == bytes.take(
            148 + proof_width as int,
        ),
{
    let header = header_decoding(bytes, proof_width)->Some_0;
    crate::metadata::lemma_metadata_decoding_is_exact(bytes.subrange(128, 148));
    assert(bytes.subrange(128, 148).take(20) =~= bytes.subrange(128, 148));
    assert(header_encoding(header) =~= bytes.take(148 + proof_width as int));
}

} // verus!
