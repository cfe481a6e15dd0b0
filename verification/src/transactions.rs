//! What header construction reads of a block's transactions, and the two
//! root builders that run over them.
//!
//! A transaction is held as the plain values that the roots are computed
//! from: its id, the commitments of its outputs and the serial numbers of
//! its inputs.

use crate::digest::{MerkleRoot, PedersenMerkleRoot};
use crate::error::HeaderError;
use crate::network::Backend;
use vstd::prelude::*;

verus! {

/// One transaction of a candidate block.
#[derive(Clone, Debug, PartialEq, Eq)]
pub struct Transaction {
    /// The transaction id.
    pub id: [u8; 32],
    /// The commitments of the transaction's outputs, in order.
    pub commitments: Vec<[u8; 32]>,
    /// The serial numbers of the transaction's inputs, in order.
    pub serial_numbers: Vec<[u8; 32]>,
}

/// The transactions of a candidate block, in block order.
#[derive(Clone, Debug, PartialEq, Eq)]
pub struct Transactions(pub Vec<Transaction>);

/// The ids of `transactions`, in order.
pub open spec fn transaction_ids(transactions: Seq<Transaction>) -> Seq<[u8; 32]> {
    transactions.map_values(|t: Transaction| t.id)
}

/// Every output commitment of `transactions`, in transaction order.
pub open spec fn flat_commitments(transactions: Seq<Transaction>) -> Seq<[u8; 32]> {
    transactions.map_values(|t: Transaction| t.commitments@).flatten()
}

/// Every input serial number of `transactions`, in transaction order.
pub open spec fn flat_serial_numbers(transactions: Seq<Transaction>) -> Seq<[u8; 32]> {
    transactions.map_values(|t: Transaction| t.serial_numbers@).flatten()
}

/// The root of the ledger tree over `leaves` as a header holds it, or the
/// tree builder's failure as header construction reports it.
pub open spec fn ledger_root_of<N: Backend>(leaves: Seq<[u8; 32]>) -> Result<
    MerkleRoot,
    HeaderError,
> {
    match N::ledger_root(leaves) {
        Ok(element) => Ok(MerkleRoot(element)),
        Err(failure) => Err(HeaderError::HashFailure(failure)),
    }
}

/// Appends all of `source` to `out`.
fn append_digests(out: &mut Vec<[u8; 32]>, source: &Vec<[u8; 32]>)
    ensures
        final(out)@ == old(out)@ + source@,
{
    let mut i: usize = 0;
    while i < source.len()
        invariant
            i <= source.len(),
            out@ == old(out)@ + source@.take(i as int),
        decreases source.len() - i,
    {
        assert(source@.take(i + 1) =~= source@.take(i as int).push(source@[i as int]));
        out.push(source[i]);
        i = i + 1;
    }
    assert(source@.take(source.len() as int) =~= source@);
}

impl Transactions {
    /// Tells whether the block has no transactions.
    pub fn is_empty(&self) -> (empty: bool)
        ensures
            empty == (self.0@.len() == 0),
    {
        self.0.len() == 0
    }

    /// The number of transactions.
    pub fn len(&self) -> (count: usize)
        ensures
            count == self.0@.len(),
    {
        self.0.len()
    }

    /// The transaction ids, in block order.
    pub fn to_transaction_ids(&self) -> (ids: Vec<[u8; 32]>)
        ensures
            ids@ == transaction_ids(self.0@),
    {
        let mut ids: Vec<[u8; 32]> = Vec::new();
        let mut i: usize = 0;
        while i < self.0.len()
            invariant
                i <= self.0.len(),
                ids@ == transaction_ids(self.0@.take(i as int)),
            decreases self.0.len() - i,
        {
            assert(transaction_ids(self.0@.take(i + 1)) =~= transaction_ids(
                self.0@.take(i as int),
            ).push(self.0@[i as int].id));
            ids.push(self.0[i].id);
            i = i + 1;
        }
        assert(self.0@.take(self.0.len() as int) =~= self.0@);
        ids
    }

    /// Every output commitment of the block, in transaction order.
    pub fn to_commitments(&self) -> (leaves: Vec<[u8; 32]>)
        ensures
            leaves@ == flat_commitments(self.0@),
    {
        let mut leaves: Vec<[u8; 32]> = Vec::new();
        let mut i: usize = 0;
        while i < self.0.len()
            invariant
                i <= self.0.len(),
                leaves@ == flat_commitments(self.0@.take(i as int)),
            decreases self.0.len() - i,
        {
            proof {
                let lists = self.0@.take(i as int).map_values(|t: Transaction| t.commitments@);
                let next = self.0@[i as int].commitments@;
                assert(self.0@.take(i + 1).map_values(|t: Transaction| t.commitments@)
                    =~= lists.push(next));
                lists.lemma_flatten_push(next);
            }
            append_digests(&mut leaves, &self.0[i].commitments);
            i = i + 1;
        }
        assert(self.0@.take(self.0.len() as int) =~= self.0@);
        leaves
    }

    /// Every input serial number of the block, in transaction order.
    pub fn to_serial_numbers(&self) -> (leaves: Vec<[u8; 32]>)
        ensures
            leaves@ == flat_serial_numbers(self.0@),
    {
        let mut leaves: Vec<[u8; 32]> = Vec::new();
        let mut i: usize = 0;
        while i < self.0.len()
            invariant
                i <= self.0.len(),
                leaves@ == flat_serial_numbers(self.0@.take(i as int)),
            decreases self.0.len() - i,
        {
            proof {
                let lists = self.0@.take(i as int).map_values(|t: Transaction| t.serial_numbers@);
                let next = self.0@[i as int].serial_numbers@;
                assert(self.0@.take(i + 1).map_values(|t: Transaction| t.serial_numbers@)
                    =~= lists.push(next));
                lists.lemma_flatten_push(next);
            }
            append_digests(&mut leaves, &self.0[i].serial_numbers);
            i = i + 1;
        }
        assert(self.0@.take(self.0.len() as int) =~= self.0@);
        leaves
    }
}

/// Builds the transaction tree over the ids of a non-empty block: gives the
/// root that the header commits to, and the subroots that mining works on.
pub fn transaction_roots<N: Backend>(transactions: &Transactions) -> (roots: Result<
    (PedersenMerkleRoot, Vec<[u8; 32]>),
    HeaderError,
>)
    requires
        transactions.0@.len() > 0,
    ensures
        match N::transaction_roots(transaction_ids(transactions.0@)) {
            Ok((root, subroots)) => roots is Ok && roots->Ok_0.0 == PedersenMerkleRoot(root)
                && roots->Ok_0.1@ == subroots,
            Err(failure) => roots == Err::<(PedersenMerkleRoot, Vec<[u8; 32]>), HeaderError>(
                HeaderError::HashFailure(failure),
            ),
        },
{
    let ids = transactions.to_transaction_ids();
    match N::transaction_tree(&ids) {
        Ok((root, subroots)) => Ok((PedersenMerkleRoot(root), subroots)),
        Err(failure) => Err(HeaderError::HashFailure(failure)),
    }
}

/// Builds the ledger tree over every output commitment of the block, in
/// transaction order, and gives its root. Only the block's own transactions
/// enter the tree.
pub fn commitments_root<N: Backend>(transactions: &Transactions) -> (root: Result<
    MerkleRoot,
    HeaderError,
>)
    ensures
        root == ledger_root_of::<N>(flat_commitments(transactions.0@)),
{
    let leaves = transactions.to_commitments();
    match N::ledger_tree_root(&leaves) {
        Ok(element) => Ok(MerkleRoot::from_element(element)),
        Err(failure) => Err(HeaderError::HashFailure(failure)),
    }
}

/// Builds the ledger tree over every input serial number of the block, in
/// transaction order, and gives its root. Only the block's own transactions
/// enter the tree.
pub fn serial_numbers_root<N: Backend>(transactions: &Transactions) -> (root: Result<
    MerkleRoot,
    HeaderError,
>)
    ensures
        root == ledger_root_of::<N>(flat_serial_numbers(transactions.0@)),
{
    let leaves = transactions.to_serial_numbers();
    match N::ledger_tree_root(&leaves) {
        Ok(element) => Ok(MerkleRoot::from_element(element)),
        Err(failure) => Err(HeaderError::HashFailure(failure)),
    }
}

} // verus!
