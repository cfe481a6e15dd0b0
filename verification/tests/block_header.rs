use ledger_core::digest::{is_zero_digest, BlockHeaderHash, MerkleRoot, PedersenMerkleRoot};
use ledger_core::error::{BackendFailure, HeaderError};
use ledger_core::header::BlockHeader;
use ledger_core::metadata::BlockHeaderMetadata;
use ledger_core::network::{Backend, Network, Testnet2};
use ledger_core::posw::ProofOfSuccinctWork;
use ledger_core::transactions::{
    commitments_root, serial_numbers_root, transaction_roots, Transaction, Transactions,
};
use rand::rngs::StdRng;
use rand::SeedableRng;

/// A stand-in for a digest function: mixes every byte into 32 slots.
fn fold(bytes: &[u8], seed: u8) -> [u8; 32] {
    let mut digest = [seed; 32];
    for (i, b) in bytes.iter().enumerate() {
        let slot = i % 32;
        digest[slot] = digest[slot].wrapping_mul(31).wrapping_add(*b).wrapping_add(i as u8);
    }
    digest
}

fn flatten(digests: &[[u8; 32]]) -> Vec<u8> {
    digests.iter().flat_map(|d| d.iter().copied()).collect()
}

/// A proof of the reference width whose first bytes hold the nonce and the
/// number of subroots, and whose score is the nonce.
fn proof_for(subroots: &[[u8; 32]], nonce: u32, width: usize) -> Vec<u8> {
    let mut proof = vec![0xA5u8; width];
    proof[..4].copy_from_slice(&nonce.to_le_bytes());
    proof[4] = subroots.len() as u8;
    proof
}

fn score_of(proof: &[u8]) -> u64 {
    u64::from(u32::from_le_bytes([proof[0], proof[1], proof[2], proof[3]]))
}

/// A network with proofs of the reference width and stand-in collaborators.
#[derive(Clone, Debug, PartialEq, Eq)]
struct Devnet;

impl Network for Devnet {
    fn proof_size() -> usize {
        771
    }
}

impl Backend for Devnet {

    fn hash_header(bytes: &[u8]) -> Result<[u8; 32], BackendFailure> {
        Ok(fold(bytes, 1))
    }

    fn transaction_tree(ids: &Vec<[u8; 32]>) -> Result<([u8; 32], Vec<[u8; 32]>), BackendFailure> {
        Ok((fold(&flatten(ids), 2), ids.clone()))
    }

    fn ledger_tree_root(leaves: &Vec<[u8; 32]>) -> Result<[u8; 32], BackendFailure> {
        Ok(fold(&flatten(leaves), 3))
    }

    fn generate_proof(
        subroots: &Vec<[u8; 32]>,
        nonce: u32,
        _rng: &mut StdRng,
    ) -> Result<Vec<u8>, BackendFailure> {
        Ok(proof_for(subroots, nonce, 771))
    }

    fn derive_score(proof: &[u8]) -> u64 {
        score_of(proof)
    }
}

/// A network whose every capability fails.
#[derive(Clone, Debug, PartialEq, Eq)]
struct Broken;

fn failure(what: &str) -> BackendFailure {
    BackendFailure { message: what.to_string() }
}

impl Network for Broken {
    fn proof_size() -> usize {
        8
    }
}

impl Backend for Broken {

    fn hash_header(_bytes: &[u8]) -> Result<[u8; 32], BackendFailure> {
        Err(failure("input too long"))
    }

    fn transaction_tree(_ids: &Vec<[u8; 32]>) -> Result<([u8; 32], Vec<[u8; 32]>), BackendFailure> {
        Err(failure("no transaction tree"))
    }

    fn ledger_tree_root(_leaves: &Vec<[u8; 32]>) -> Result<[u8; 32], BackendFailure> {
        Err(failure("no ledger tree"))
    }

    fn generate_proof(
        _subroots: &Vec<[u8; 32]>,
        _nonce: u32,
        _rng: &mut StdRng,
    ) -> Result<Vec<u8>, BackendFailure> {
        Err(failure("no proof"))
    }

    fn derive_score(_proof: &[u8]) -> u64 {
        0
    }
}

/// A network whose trees work but whose backend fails.
#[derive(Clone, Debug, PartialEq, Eq)]
struct NoProver;

impl Network for NoProver {
    fn proof_size() -> usize {
        8
    }
}

impl Backend for NoProver {

    fn hash_header(bytes: &[u8]) -> Result<[u8; 32], BackendFailure> {
        Ok(fold(bytes, 1))
    }

    fn transaction_tree(ids: &Vec<[u8; 32]>) -> Result<([u8; 32], Vec<[u8; 32]>), BackendFailure> {
        Ok((fold(&flatten(ids), 2), ids.clone()))
    }

    fn ledger_tree_root(leaves: &Vec<[u8; 32]>) -> Result<[u8; 32], BackendFailure> {
        Ok(fold(&flatten(leaves), 3))
    }

    fn generate_proof(
        _subroots: &Vec<[u8; 32]>,
        _nonce: u32,
        _rng: &mut StdRng,
    ) -> Result<Vec<u8>, BackendFailure> {
        Err(failure("prover out of memory"))
    }

    fn derive_score(_proof: &[u8]) -> u64 {
        0
    }
}

/// A network whose backend hands out proofs one byte short of the declared
/// width.
#[derive(Clone, Debug, PartialEq, Eq)]
struct ShortProofs;

impl Network for ShortProofs {
    fn proof_size() -> usize {
        16
    }
}

impl Backend for ShortProofs {

    fn hash_header(bytes: &[u8]) -> Result<[u8; 32], BackendFailure> {
        Ok(fold(bytes, 1))
    }

    fn transaction_tree(ids: &Vec<[u8; 32]>) -> Result<([u8; 32], Vec<[u8; 32]>), BackendFailure> {
        Ok((fold(&flatten(ids), 2), ids.clone()))
    }

    fn ledger_tree_root(leaves: &Vec<[u8; 32]>) -> Result<[u8; 32], BackendFailure> {
        Ok(fold(&flatten(leaves), 3))
    }

    fn generate_proof(
        subroots: &Vec<[u8; 32]>,
        nonce: u32,
        _rng: &mut StdRng,
    ) -> Result<Vec<u8>, BackendFailure> {
        Ok(proof_for(subroots, nonce, 15))
    }

    fn derive_score(proof: &[u8]) -> u64 {
        score_of(proof)
    }
}

fn sample_transactions() -> Transactions {
    Transactions(vec![
        Transaction {
            id: [7u8; 32],
            commitments: vec![[1u8; 32], [2u8; 32]],
            serial_numbers: vec![[3u8; 32], [4u8; 32]],
        },
        Transaction {
            id: [9u8; 32],
            commitments: vec![[5u8; 32]],
            serial_numbers: vec![[6u8; 32], [8u8; 32], [10u8; 32]],
        },
    ])
}

fn zero_proof<N: Network>() -> ProofOfSuccinctWork<N> {
    ProofOfSuccinctWork::new(&vec![0u8; ProofOfSuccinctWork::<N>::size()]).unwrap()
}

fn zero_header<N: Network>(timestamp: i64) -> BlockHeader<N> {
    BlockHeader::<N> {
        previous_block_hash: BlockHeaderHash([0u8; 32]),
        transactions_root: PedersenMerkleRoot([0u8; 32]),
        commitments_root: MerkleRoot([0u8; 32]),
        serial_numbers_root: MerkleRoot([0u8; 32]),
        metadata: BlockHeaderMetadata::new(timestamp, 0u64, 0u32),
        proof: zero_proof(),
    }
}

fn distinct_header<N: Network>() -> BlockHeader<N> {
    let proof: Vec<u8> = (0..N::proof_size()).map(|i| (i % 251) as u8).collect();
    BlockHeader::<N> {
        previous_block_hash: BlockHeaderHash([0x11u8; 32]),
        transactions_root: PedersenMerkleRoot([0x22u8; 32]),
        commitments_root: MerkleRoot([0x33u8; 32]),
        serial_numbers_root: MerkleRoot([0x44u8; 32]),
        metadata: BlockHeaderMetadata::new(-2, 0x0102030405060708u64, 0xAABBCCDDu32),
        proof: ProofOfSuccinctWork::new(&proof).unwrap(),
    }
}

#[test]
fn test_block_header_genesis() {
    let block_header =
        BlockHeader::<Devnet>::new_genesis(&sample_transactions(), &mut StdRng::seed_from_u64(0))
            .unwrap();
    assert!(block_header.is_genesis());

    // Ensure the genesis block contains the following.
    assert_eq!(block_header.previous_block_hash, BlockHeaderHash([0u8; 32]));
    assert_eq!(block_header.metadata.timestamp(), 0);
    assert_eq!(block_header.metadata.difficulty_target(), u64::MAX);

    // Ensure the genesis block does *not* contain the following.
    assert_ne!(block_header.transactions_root, PedersenMerkleRoot([0u8; 32]));
    assert_ne!(block_header.commitments_root, MerkleRoot([0u8; 32]));
    assert_ne!(block_header.serial_numbers_root, MerkleRoot([0u8; 32]));
    assert_ne!(block_header.proof, zero_proof::<Devnet>());
}

#[test]
fn test_block_header_serialization() {
    let block_header = zero_header::<Testnet2>(chrono::Utc::now().timestamp());

    let serialized = block_header.to_bytes_le();
    let mut generic: Vec<u8> = Vec::new();
    generic.extend(bincode::serialize(&block_header.previous_block_hash.0).unwrap());
    generic.extend(bincode::serialize(&block_header.transactions_root.0).unwrap());
    generic.extend(bincode::serialize(&block_header.commitments_root.0).unwrap());
    generic.extend(bincode::serialize(&block_header.serial_numbers_root.0).unwrap());
    generic.extend(bincode::serialize(&block_header.metadata.timestamp()).unwrap());
    generic.extend(bincode::serialize(&block_header.metadata.difficulty_target()).unwrap());
    generic.extend(bincode::serialize(&block_header.metadata.nonce()).unwrap());
    for byte in block_header.proof.as_bytes() {
        generic.extend(bincode::serialize(byte).unwrap());
    }
    assert_eq!(&serialized[..], &generic[..]);

    let deserialized = BlockHeader::read_le(&serialized[..]).unwrap();
    assert_eq!(deserialized, block_header);
}

#[test]
fn test_block_header_size() {
    let block_header = zero_header::<Testnet2>(chrono::Utc::now().timestamp());
    assert_eq!(block_header.to_bytes_le().len(), BlockHeader::<Testnet2>::size());
}

#[test]
fn reference_header_is_919_bytes_wide() {
    assert_eq!(BlockHeaderHash::size(), 32);
    assert_eq!(PedersenMerkleRoot::size(), 32);
    assert_eq!(MerkleRoot::size(), 32);
    assert_eq!(BlockHeaderMetadata::size(), 20);
    assert_eq!(ProofOfSuccinctWork::<Testnet2>::size(), 771);
    assert_eq!(BlockHeader::<Testnet2>::size(), 919);
    assert_eq!(BlockHeader::<ShortProofs>::size(), 148 + 16);
}

#[test]
fn zero_header_scenario_round_trips() {
    let timestamp: i64 = 1_626_000_000;
    let block_header = zero_header::<Testnet2>(timestamp);
    let serialized = block_header.to_bytes_le();
    assert_eq!(serialized.len(), 919);

    let mut expected = vec![0u8; 919];
    expected[128..136].copy_from_slice(&timestamp.to_le_bytes());
    assert_eq!(serialized, expected);

    let decoded = BlockHeader::<Testnet2>::read_le(&serialized).unwrap();
    assert_eq!(decoded.previous_block_hash, BlockHeaderHash([0u8; 32]));
    assert_eq!(decoded.transactions_root, PedersenMerkleRoot([0u8; 32]));
    assert_eq!(decoded.commitments_root, MerkleRoot([0u8; 32]));
    assert_eq!(decoded.serial_numbers_root, MerkleRoot([0u8; 32]));
    assert_eq!(decoded.metadata.timestamp(), timestamp);
    assert_eq!(decoded.metadata.difficulty_target(), 0);
    assert_eq!(decoded.metadata.nonce(), 0);
    assert_eq!(decoded.proof.as_bytes(), &vec![0u8; 771][..]);
    assert_eq!(decoded, block_header);
}

#[test]
fn encoding_puts_each_field_at_its_offset() {
    let block_header = distinct_header::<Testnet2>();
    let bytes = block_header.to_bytes_le();
    assert_eq!(&bytes[0..32], &[0x11u8; 32][..]);
    assert_eq!(&bytes[32..64], &[0x22u8; 32][..]);
    assert_eq!(&bytes[64..96], &[0x33u8; 32][..]);
    assert_eq!(&bytes[96..128], &[0x44u8; 32][..]);
    assert_eq!(&bytes[128..136], &[0xFE, 0xFF, 0xFF, 0xFF, 0xFF, 0xFF, 0xFF, 0xFF][..]);
    assert_eq!(&bytes[136..144], &[0x08, 0x07, 0x06, 0x05, 0x04, 0x03, 0x02, 0x01][..]);
    assert_eq!(&bytes[144..148], &[0xDD, 0xCC, 0xBB, 0xAA][..]);
    assert_eq!(&bytes[148..], block_header.proof.as_bytes());
}

#[test]
fn header_round_trips() {
    let block_header = distinct_header::<Testnet2>();
    let bytes = block_header.to_bytes_le();
    assert_eq!(BlockHeader::<Testnet2>::read_le(&bytes).unwrap(), block_header);

    let mut appended = vec![0xEEu8; 3];
    block_header.write_le(&mut appended);
    assert_eq!(&appended[..3], &[0xEEu8; 3][..]);
    assert_eq!(&appended[3..], &bytes[..]);
}

#[test]
fn decoding_reads_only_the_front() {
    let block_header = distinct_header::<Testnet2>();
    let mut bytes = block_header.to_bytes_le();
    bytes.extend_from_slice(&[1, 2, 3, 4]);
    assert_eq!(BlockHeader::<Testnet2>::read_le(&bytes).unwrap(), block_header);
}

#[test]
fn decoding_fails_on_truncated_input() {
    let bytes = distinct_header::<Testnet2>().to_bytes_le();
    assert_eq!(
        BlockHeader::<Testnet2>::read_le(&bytes[..918]),
        Err(HeaderError::TruncatedInput)
    );
    assert_eq!(BlockHeader::<Testnet2>::read_le(&bytes[..147]), Err(HeaderError::TruncatedInput));
    assert_eq!(BlockHeader::<Testnet2>::read_le(&[]), Err(HeaderError::TruncatedInput));
    assert_eq!(BlockHeaderMetadata::read_le(&bytes[128..147]), Err(HeaderError::TruncatedInput));
    assert_eq!(
        BlockHeaderMetadata::read_le(&bytes[128..148]),
        Ok(BlockHeaderMetadata::new(-2, 0x0102030405060708u64, 0xAABBCCDDu32))
    );
}

#[test]
fn metadata_encoding_matches_little_endian_integers() {
    let metadata = BlockHeaderMetadata::new(i64::MIN, u64::MAX, 1);
    let mut bytes = Vec::new();
    metadata.write_le(&mut bytes);
    let mut expected = Vec::new();
    expected.extend_from_slice(&i64::MIN.to_le_bytes());
    expected.extend_from_slice(&u64::MAX.to_le_bytes());
    expected.extend_from_slice(&1u32.to_le_bytes());
    assert_eq!(bytes, expected);
    assert_eq!(BlockHeaderMetadata::read_le(&bytes), Ok(metadata));
}

#[test]
fn proof_of_wrong_width_is_malformed() {
    assert_eq!(
        ProofOfSuccinctWork::<Testnet2>::new(&vec![0u8; 770]),
        Err(HeaderError::MalformedProof)
    );
    assert_eq!(
        ProofOfSuccinctWork::<Testnet2>::new(&vec![0u8; 772]),
        Err(HeaderError::MalformedProof)
    );
    let proof = ProofOfSuccinctWork::<Testnet2>::new(&vec![9u8; 771]).unwrap();
    assert_eq!(proof.as_bytes(), &vec![9u8; 771][..]);
    assert_eq!(proof.clone(), proof);
    assert_ne!(proof, zero_proof());
}

#[test]
fn genesis_predicate_is_a_disjunction() {
    // Both hold.
    assert!(zero_header::<Testnet2>(0).is_genesis());
    // The previous block hash alone is all-zero.
    assert!(zero_header::<Testnet2>(1_626_000_000).is_genesis());
    // The timestamp alone is zero.
    let mut header = distinct_header::<Testnet2>();
    header.metadata = BlockHeaderMetadata::new(0, 5, 6);
    assert!(header.is_genesis());
    // Neither holds.
    assert!(!distinct_header::<Testnet2>().is_genesis());
    // One non-zero byte is enough to make the hash non-zero.
    let mut hash = [0u8; 32];
    hash[31] = 1;
    let mut header = distinct_header::<Testnet2>();
    header.previous_block_hash = BlockHeaderHash(hash);
    assert!(!header.is_genesis());
    assert!(!is_zero_digest(&hash));
    assert!(is_zero_digest(&[0u8; 32]));
}

#[test]
fn genesis_check_rejects_other_headers() {
    assert_eq!(
        BlockHeader::check_genesis(distinct_header::<Testnet2>()),
        Err(HeaderError::GenesisConstructionFailed)
    );
    assert_eq!(
        BlockHeader::check_genesis(zero_header::<Testnet2>(0)),
        Ok(zero_header::<Testnet2>(0))
    );
}

#[test]
fn hash_is_the_network_hash_of_the_encoding() {
    let block_header = distinct_header::<Devnet>();
    let expected = fold(&block_header.to_bytes_le(), 1);
    assert_eq!(block_header.to_hash(), Ok(BlockHeaderHash(expected)));
    assert_ne!(zero_header::<Devnet>(0).to_hash(), block_header.to_hash());
}

#[test]
fn hash_failure_is_reported() {
    let header = zero_header::<Broken>(0);
    assert_eq!(header.to_bytes_le().len(), 156);
    assert_eq!(header.to_hash(), Err(HeaderError::HashFailure(failure("input too long"))));
}

#[test]
fn new_header_commits_to_its_inputs() {
    let transactions = sample_transactions();
    let header = BlockHeader::<Devnet>::new(
        BlockHeaderHash([0x55u8; 32]),
        &transactions,
        MerkleRoot([0x66u8; 32]),
        MerkleRoot([0x77u8; 32]),
        1_626_000_000,
        500,
        1000,
        &mut StdRng::seed_from_u64(42),
    )
    .unwrap();
    let ids = transactions.to_transaction_ids();
    assert_eq!(ids, vec![[7u8; 32], [9u8; 32]]);
    assert_eq!(header.previous_block_hash, BlockHeaderHash([0x55u8; 32]));
    assert_eq!(header.transactions_root, PedersenMerkleRoot(fold(&flatten(&ids), 2)));
    assert_eq!(header.commitments_root, MerkleRoot([0x66u8; 32]));
    assert_eq!(header.serial_numbers_root, MerkleRoot([0x77u8; 32]));
    assert_eq!(header.metadata.timestamp(), 1_626_000_000);
    assert_eq!(header.metadata.difficulty_target(), 500);
    assert!(header.metadata.nonce() <= 500);
    assert_eq!(header.proof.as_bytes(), &proof_for(&ids, header.metadata.nonce(), 771)[..]);
    assert!(!header.is_genesis());
}

#[test]
fn new_header_fails_as_its_collaborators_do() {
    let transactions = sample_transactions();
    let zero = BlockHeaderHash([0u8; 32]);
    let root = MerkleRoot([1u8; 32]);
    let mut rng = StdRng::seed_from_u64(1);

    // An empty nonce space is exhausted at once.
    assert_eq!(
        BlockHeader::<Devnet>::new(zero, &transactions, root, root, 1, u64::MAX, 0, &mut rng),
        Err(HeaderError::MiningExhausted)
    );
    // The nonce is the score: no nonce from 6 to 9 exists, so a space of five
    // nonces cannot meet a target that lies below all of them.
    assert_eq!(
        BlockHeader::<NoZeroScore>::new(zero, &transactions, root, root, 1, 0, 5, &mut rng),
        Err(HeaderError::MiningExhausted)
    );
    assert_eq!(
        BlockHeader::<NoProver>::new(zero, &transactions, root, root, 1, u64::MAX, 5, &mut rng),
        Err(HeaderError::ProofGenerationFailure(failure("prover out of memory")))
    );
    assert_eq!(
        BlockHeader::<ShortProofs>::new(zero, &transactions, root, root, 1, u64::MAX, 5, &mut rng),
        Err(HeaderError::MalformedProof)
    );
    assert_eq!(
        BlockHeader::<Broken>::new(zero, &transactions, root, root, 1, u64::MAX, 5, &mut rng),
        Err(HeaderError::HashFailure(failure("no transaction tree")))
    );
    assert_eq!(
        BlockHeader::<Broken>::new_genesis(&transactions, &mut rng),
        Err(HeaderError::HashFailure(failure("no ledger tree")))
    );
    assert_eq!(
        BlockHeader::<NoProver>::new_genesis(&transactions, &mut rng),
        Err(HeaderError::ProofGenerationFailure(failure("prover out of memory")))
    );
}

/// A network on which the score of a proof is its nonce plus one, so that
/// no proof ever scores zero.
#[derive(Clone, Debug, PartialEq, Eq)]
struct NoZeroScore;

impl Network for NoZeroScore {
    fn proof_size() -> usize {
        771
    }
}

impl Backend for NoZeroScore {

    fn hash_header(bytes: &[u8]) -> Result<[u8; 32], BackendFailure> {
        Ok(fold(bytes, 1))
    }

    fn transaction_tree(ids: &Vec<[u8; 32]>) -> Result<([u8; 32], Vec<[u8; 32]>), BackendFailure> {
        Ok((fold(&flatten(ids), 2), ids.clone()))
    }

    fn ledger_tree_root(leaves: &Vec<[u8; 32]>) -> Result<[u8; 32], BackendFailure> {
        Ok(fold(&flatten(leaves), 3))
    }

    fn generate_proof(
        subroots: &Vec<[u8; 32]>,
        nonce: u32,
        _rng: &mut StdRng,
    ) -> Result<Vec<u8>, BackendFailure> {
        Ok(proof_for(subroots, nonce, 771))
    }

    fn derive_score(proof: &[u8]) -> u64 {
        score_of(proof) + 1
    }
}

#[test]
fn genesis_roots_cover_the_blocks_own_transactions() {
    let transactions = sample_transactions();
    let header =
        BlockHeader::<Devnet>::new_genesis(&transactions, &mut StdRng::seed_from_u64(3)).unwrap();

    let commitments = vec![[1u8; 32], [2u8; 32], [5u8; 32]];
    let serial_numbers = vec![[3u8; 32], [4u8; 32], [6u8; 32], [8u8; 32], [10u8; 32]];
    assert_eq!(transactions.to_commitments(), commitments);
    assert_eq!(transactions.to_serial_numbers(), serial_numbers);
    assert_eq!(header.commitments_root, MerkleRoot(fold(&flatten(&commitments), 3)));
    assert_eq!(header.serial_numbers_root, MerkleRoot(fold(&flatten(&serial_numbers), 3)));
    assert_eq!(commitments_root::<Devnet>(&transactions), Ok(header.commitments_root));
    assert_eq!(serial_numbers_root::<Devnet>(&transactions), Ok(header.serial_numbers_root));

    let (root, subroots) = transaction_roots::<Devnet>(&transactions).unwrap();
    assert_eq!(root, header.transactions_root);
    assert_eq!(subroots, vec![[7u8; 32], [9u8; 32]]);
    assert_eq!(header.metadata.nonce(), score_of(header.proof.as_bytes()) as u32);
    assert!(header.metadata.nonce() < u32::MAX);
}

#[test]
fn transactions_without_outputs_give_empty_leaves() {
    let transactions = Transactions(vec![Transaction {
        id: [1u8; 32],
        commitments: vec![],
        serial_numbers: vec![],
    }]);
    assert!(!transactions.is_empty());
    assert_eq!(transactions.len(), 1);
    assert_eq!(transactions.to_commitments(), Vec::<[u8; 32]>::new());
    assert_eq!(transactions.to_serial_numbers(), Vec::<[u8; 32]>::new());
    assert!(Transactions(vec![]).is_empty());
    assert_eq!(
        commitments_root::<Broken>(&transactions),
        Err(HeaderError::HashFailure(failure("no ledger tree")))
    );
    assert_eq!(
        transaction_roots::<Broken>(&transactions),
        Err(HeaderError::HashFailure(failure("no transaction tree")))
    );
}

#[test]
fn assembling_checks_the_proof_width() {
    let metadata = BlockHeaderMetadata::new(1, 2, 3);
    let assembled = BlockHeader::<Testnet2>::assemble(
        BlockHeaderHash([1u8; 32]),
        PedersenMerkleRoot([2u8; 32]),
        MerkleRoot([3u8; 32]),
        MerkleRoot([4u8; 32]),
        metadata,
        &vec![5u8; 771],
    )
    .unwrap();
    assert_eq!(assembled.metadata, metadata);
    assert_eq!(assembled.proof.as_bytes(), &vec![5u8; 771][..]);
    assert_eq!(
        BlockHeader::<Testnet2>::assemble(
            BlockHeaderHash([1u8; 32]),
            PedersenMerkleRoot([2u8; 32]),
            MerkleRoot([3u8; 32]),
            MerkleRoot([4u8; 32]),
            metadata,
            &vec![5u8; 100],
        ),
        Err(HeaderError::MalformedProof)
    );
}

#[test]
fn headers_differ_when_any_field_differs() {
    let header = distinct_header::<Testnet2>();
    assert_eq!(header, header.clone());

    let mut other = header.clone();
    other.previous_block_hash = BlockHeaderHash([0x12u8; 32]);
    assert_ne!(header, other);
    let mut other = header.clone();
    other.transactions_root = PedersenMerkleRoot([0x12u8; 32]);
    assert_ne!(header, other);
    let mut other = header.clone();
    other.commitments_root = MerkleRoot([0x12u8; 32]);
    assert_ne!(header, other);
    let mut other = header.clone();
    other.serial_numbers_root = MerkleRoot([0x12u8; 32]);
    assert_ne!(header, other);
    let mut other = header.clone();
    other.metadata = BlockHeaderMetadata::new(-2, 0x0102030405060708u64, 0xAABBCCDEu32);
    assert_ne!(header, other);
    let mut other = header.clone();
    other.proof = zero_proof();
    assert_ne!(header, other);
    assert_ne!(other, header);

    // Digests of the same bytes are equal, and one byte makes a difference.
    let mut bytes = [3u8; 32];
    assert_eq!(MerkleRoot::from_element(bytes), MerkleRoot(bytes));
    bytes[17] = 4;
    assert_ne!(MerkleRoot(bytes), MerkleRoot([3u8; 32]));
}
