//! Blocks: a batch of transactions linked to its predecessor by hash and
//! sealed by proof of work.

use vstd::prelude::*;

use crate::proof_of_work::{mined_hash, mined_nonce, ProofOfWork};
use crate::transaction::{Transaction, TransactionView};
use crate::util::{current_timestamp_nanos, sha256, sha256_digest};

verus! {

/// A block of the chain.
#[derive(Debug)]
pub struct Block {
    /// Creation time, in nanoseconds since the UNIX epoch.
    pub timestamp: i64,
    /// The hash of the block this one extends.
    pub pre_block_hash: String,
    /// The proof-of-work hash of this block, in lower-case hexadecimal.
    pub hash: String,
    /// The transactions recorded in this block.
    pub transactions: Vec<Transaction>,
    /// The nonce that proof of work found.
    pub nonce: i64,
    /// The position of the block in the chain; the genesis block has height 0.
    pub height: usize,
}

/// The mathematical value of a block.
pub struct BlockView {
    pub timestamp: i64,
    pub pre_block_hash: Seq<char>,
    pub hash: Seq<char>,
    pub transactions: Seq<TransactionView>,
    pub nonce: i64,
    pub height: usize,
}

/// The values of a sequence of transactions.
pub open spec fn transactions_view(txs: Seq<Transaction>) -> Seq<TransactionView> {
    txs.map_values(|t: Transaction| t@)
}

impl View for Block {
    type V = BlockView;

    open spec fn view(&self) -> BlockView {
        BlockView {
            timestamp: self.timestamp,
            pre_block_hash: self.pre_block_hash@,
            hash: self.hash@,
            transactions: transactions_view(self.transactions@),
            nonce: self.nonce,
            height: self.height,
        }
    }
}

/// The identifiers of the transactions, concatenated in order.
pub open spec fn concat_ids(txs: Seq<TransactionView>) -> Seq<u8>
    decreases txs.len(),
{
    if txs.len() == 0 {
        Seq::empty()
    } else {
        concat_ids(txs.drop_last()) + txs.last().id
    }
}

/// The identifiers of one transaction are its identifier.
pub proof fn lemma_concat_ids_single(t: TransactionView)
    ensures
        concat_ids(seq![t]) == t.id,
{
    assert(seq![t].drop_last() =~= Seq::<TransactionView>::empty());
    assert(concat_ids(seq![t].drop_last()) == Seq::<u8>::empty());
    assert(seq![t].last() == t);
    assert(Seq::<u8>::empty() + t.id =~= t.id);
}

/// The identifiers of two runs of transactions, concatenated, are the
/// identifiers of each run, one after the other.
pub proof fn lemma_concat_ids_append(a: Seq<TransactionView>, b: Seq<TransactionView>)
    ensures
        concat_ids(a + b) == concat_ids(a) + concat_ids(b),
    decreases b.len(),
{
    if b.len() == 0 {
        assert(a + b =~= a);
        assert(concat_ids(a) + Seq::<u8>::empty() =~= concat_ids(a));
    } else {
        lemma_concat_ids_append(a, b.drop_last());
        assert((a + b).drop_last() =~= a + b.drop_last());
        assert((a + b).last() == b.last());
        assert(concat_ids(a) + concat_ids(b.drop_last()) + b.last().id =~= concat_ids(a) + (
        concat_ids(b.drop_last()) + b.last().id));
    }
}

/// Every identifier of a sequence of transactions stands in their
/// concatenated identifiers, at the offset of the identifiers before it.
pub proof fn lemma_concat_ids_contains(txs: Seq<TransactionView>, i: int)
    requires
        0 <= i < txs.len(),
    ensures
        concat_ids(txs) == concat_ids(txs.take(i)) + txs[i].id + concat_ids(txs.skip(i + 1)),
{
    assert(txs =~= txs.take(i) + (seq![txs[i]] + txs.skip(i + 1)));
    lemma_concat_ids_append(txs.take(i), seq![txs[i]] + txs.skip(i + 1));
    lemma_concat_ids_append(seq![txs[i]], txs.skip(i + 1));
    lemma_concat_ids_single(txs[i]);
    assert(concat_ids(txs.take(i)) + (txs[i].id + concat_ids(txs.skip(i + 1))) =~= concat_ids(
        txs.take(i),
    ) + txs[i].id + concat_ids(txs.skip(i + 1)));
}

/// Two runs of transactions whose identifiers have the same lengths, one by
/// one, have the same concatenated identifiers only when every identifier is
/// the same: the digest of a block's transactions commits to each of them.
pub proof fn lemma_concat_ids_injective(a: Seq<TransactionView>, b: Seq<TransactionView>)
    requires
        a.len() == b.len(),
        forall|i: int| 0 <= i < a.len() ==> (#[trigger] a[i]).id.len() == b[i].id.len(),
        concat_ids(a) == concat_ids(b),
    ensures
        forall|i: int| 0 <= i < a.len() ==> (#[trigger] a[i]).id == b[i].id,
    decreases a.len(),
{
    if a.len() > 0 {
        let pa = concat_ids(a.drop_last());
        let pb = concat_ids(b.drop_last());
        let la = a.last().id;
        let lb = b.last().id;
        assert(concat_ids(a) == pa + la);
        assert(concat_ids(b) == pb + lb);
        assert(a.last() == a[a.len() - 1]);
        assert(b.last() == b[b.len() - 1]);
        assert(la.len() == lb.len());
        assert((pa + la).len() == (pb + lb).len());
        assert(pa.len() == pb.len());
        assert(pa =~= (pa + la).subrange(0, pa.len() as int));
        assert(pb =~= (pb + lb).subrange(0, pb.len() as int));
        assert(la =~= (pa + la).subrange(pa.len() as int, (pa + la).len() as int));
        assert(lb =~= (pb + lb).subrange(pb.len() as int, (pb + lb).len() as int));
        assert forall|i: int| 0 <= i < a.drop_last().len() implies (#[trigger] a.drop_last()[i]).id.len()
            == b.drop_last()[i].id.len() by {
            assert(a.drop_last()[i] == a[i]);
            assert(b.drop_last()[i] == b[i]);
        }
        lemma_concat_ids_injective(a.drop_last(), b.drop_last());
        assert forall|i: int| 0 <= i < a.len() implies (#[trigger] a[i]).id == b[i].id by {
            if i < a.len() - 1 {
                assert(a.drop_last()[i] == a[i]);
                assert(b.drop_last()[i] == b[i]);
            }
        }
    }
}

/// The digest of a block's transactions: SHA-256 of their concatenated identifiers.
pub open spec fn transactions_hash(txs: Seq<TransactionView>) -> Seq<u8> {
    sha256(concat_ids(txs))
}

/// The genesis block's predecessor hash.
pub open spec fn genesis_pre_hash() -> Seq<char> {
    seq!['N', 'o', 'n', 'e']
}

/// Copies a slice of transactions, element by element.
fn clone_transactions(txs: &[Transaction]) -> (res: Vec<Transaction>)
    ensures
        transactions_view(res@) == transactions_view(txs@),
{
    let mut res: Vec<Transaction> = Vec::new();
    let n = txs.len();
    for i in 0..n
        invariant
            n == txs@.len(),
            res@.len() == i,
            forall|j: int| 0 <= j < i ==> #[trigger] res@[j]@ == txs@[j]@,
    {
        res.push(txs[i].clone());
    }
    assert(transactions_view(res@) =~= transactions_view(txs@));
    res
}

impl Clone for Block {
    fn clone(&self) -> (res: Self)
        ensures
            res@ == self@,
    {
        Block {
            timestamp: self.timestamp,
            pre_block_hash: self.pre_block_hash.clone(),
            hash: self.hash.clone(),
            transactions: clone_transactions(self.transactions.as_slice()),
            nonce: self.nonce,
            height: self.height,
        }
    }
}

impl Block {
    /// Creates a block on top of the block whose hash is `pre_block_hash`,
    /// stamped with the current time and mined by proof of work.
    pub fn new_block(pre_block_hash: String, transactions: &[Transaction], height: usize) -> (res:
        Block)
        ensures
            res@.pre_block_hash == pre_block_hash@,
            res@.transactions == transactions_view(transactions@),
            res@.height == height,
            res@.timestamp >= 0,
            res@.nonce as int == mined_nonce(res@),
            res@.hash == mined_hash(res@),
            res@.hash.len() == 64,
    {
        let mut block = Block {
            timestamp: current_timestamp_nanos(),
            pre_block_hash,
            hash: String::new(),
            transactions: clone_transactions(transactions),
            nonce: 0,
            height,
        };
        let pow = ProofOfWork::new_proof_of_work(block.clone());
        let (nonce, hash) = pow.run();
        block.nonce = nonce;
        block.hash = hash;
        block
    }

    /// Creates the first block of a chain, holding the one given transaction.
    pub fn generate_genesis_block(transaction: &Transaction) -> (res: Block)
        ensures
            res@.pre_block_hash == genesis_pre_hash(),
            res@.transactions == seq![transaction@],
            res@.height == 0,
            res@.nonce as int == mined_nonce(res@),
            res@.hash == mined_hash(res@),
            res@.hash.len() == 64,
    {
        let transactions = vec![transaction.clone()];
        let pre = "None".to_owned();
        proof {
            reveal_strlit("None");
        }
        assert(pre@ =~= genesis_pre_hash());
        let res = Block::new_block(pre, transactions.as_slice(), 0);
        assert(transactions_view(transactions@) =~= seq![transaction@]);
        res
    }

    /// The SHA-256 digest of the concatenated identifiers of the block's transactions.
    pub fn hash_transactions(&self) -> (res: Vec<u8>)
        ensures
            res@ == transactions_hash(self@.transactions),
    {
        let mut ids: Vec<u8> = Vec::new();
        let n = self.transactions.len();
        for i in 0..n
            invariant
                n == self.transactions@.len(),
                ids@ == concat_ids(transactions_view(self.transactions@).take(i as int)),
        {
            let id = self.transactions[i].get_id();
            let ghost prev = ids@;
            ids.extend_from_slice(id.as_slice());
            assert(ids@ =~= prev + id@);
            assert(transactions_view(self.transactions@).take(i + 1).drop_last() =~= transactions_view(
                self.transactions@,
            ).take(i as int));
        }
        assert(transactions_view(self.transactions@).take(n as int) =~= transactions_view(
            self.transactions@,
        ));
        sha256_digest(ids.as_slice())
    }

    /// The hash of the previous block.
    pub fn get_pre_block_hash(&self) -> (res: &str)
        ensures
            res@ == self.pre_block_hash@,
    {
        self.pre_block_hash.as_str()
    }

    /// The proof-of-work hash of this block.
    pub fn get_hash(&self) -> (res: &str)
        ensures
            res@ == self.hash@,
    {
        self.hash.as_str()
    }

    /// The creation time of this block.
    pub fn get_timestamp(&self) -> (res: i64)
        ensures
            res == self.timestamp,
    {
        self.timestamp
    }

    /// The transactions of this block.
    pub fn get_transactions(&self) -> (res: &[Transaction])
        ensures
            res@ == self.transactions@,
    {
        self.transactions.as_slice()
    }

    /// The nonce found by proof of work.
    pub fn get_nonce(&self) -> (res: i64)
        ensures
            res == self.nonce,
    {
        self.nonce
    }

    /// The height of this block in the chain.
    pub fn get_height(&self) -> (res: usize)
        ensures
            res == self.height,
    {
        self.height
    }
}

} // verus!
