//! The chain: an append-only sequence of blocks, each linked to its
//! predecessor by hash and sealed by proof of work.

use vstd::prelude::*;
use vstd::std_specs::iter::IteratorSpec;

use crate::block::{genesis_pre_hash, transactions_view, Block, BlockView};
use crate::proof_of_work::{mined_hash, mined_nonce, ProofOfWork};
use crate::transaction::{spec_new_transaction, Transaction, TransactionView};

verus! {

/// The values of a sequence of blocks.
pub open spec fn blocks_view(blocks: Seq<Block>) -> Seq<BlockView> {
    blocks.map_values(|b: Block| b@)
}

/// `b` may follow `prev`: it names `prev`'s hash as its predecessor and its
/// own hash is the one proof of work yields for it.
pub open spec fn extends(prev: BlockView, b: BlockView) -> bool {
    &&& b.pre_block_hash == prev.hash
    &&& b.hash == mined_hash(b)
}

/// Every block carries the hash that proof of work yields for it, and every
/// block after the first extends the block before it.
pub open spec fn chain_valid(c: Seq<BlockView>) -> bool {
    &&& forall|i: int| 0 <= i < c.len() ==> (#[trigger] c[i]).hash == mined_hash(c[i])
    &&& forall|i: int| 1 <= i < c.len() ==> extends(c[i - 1], #[trigger] c[i])
}

/// `b` is the block that mining `txs` on top of `prev` produces (up to its timestamp).
pub open spec fn mined_on(prev: BlockView, b: BlockView, txs: Seq<TransactionView>) -> bool {
    &&& b.pre_block_hash == prev.hash
    &&& b.transactions == txs
    &&& b.height == prev.height + 1
    &&& b.nonce as int == mined_nonce(b)
    &&& b.hash == mined_hash(b)
}

/// The genesis block: predecessor hash "None", the one coinbase transaction, height 0, mined.
pub open spec fn is_genesis_block(b: BlockView) -> bool {
    &&& b.pre_block_hash == genesis_pre_hash()
    &&& b.transactions == seq![spec_new_transaction("Genesis Block"@)]
    &&& b.height == 0
    &&& b.nonce as int == mined_nonce(b)
    &&& b.hash == mined_hash(b)
}

/// Appending a block that extends the last block of a valid chain gives a valid chain.
pub proof fn lemma_extend_preserves_validity(c: Seq<BlockView>, b: BlockView)
    requires
        chain_valid(c),
        c.len() > 0,
        extends(c.last(), b),
    ensures
        chain_valid(c.push(b)),
{
    assert forall|i: int| 0 <= i < c.push(b).len() implies (#[trigger] c.push(b)[i]).hash
        == mined_hash(c.push(b)[i]) by {
        if i < c.len() {
            assert(c.push(b)[i] == c[i]);
        }
    }
    assert forall|i: int| 1 <= i < c.push(b).len() implies extends(
        c.push(b)[i - 1],
        #[trigger] c.push(b)[i],
    ) by {
        if i < c.len() {
            assert(c.push(b)[i] == c[i]);
        }
    }
}

/// A chain of a single block is valid exactly when the block carries the
/// hash that proof of work yields for it.
pub proof fn lemma_single_block_chain_valid(b: BlockView)
    ensures
        chain_valid(seq![b]) <==> b.hash == mined_hash(b),
{
    if b.hash == mined_hash(b) {
        assert(chain_valid(seq![b]));
    } else {
        assert(seq![b][0] == b);
    }
}

/// Every block of a valid chain, the first included, carries the hash that
/// proof of work yields for it.
pub proof fn lemma_valid_chain_blocks_are_mined(c: Seq<BlockView>, i: int)
    requires
        chain_valid(c),
        0 <= i < c.len(),
    ensures
        c[i].hash == mined_hash(c[i]),
{
}

/// `b` extends `prev` exactly when it names `prev`'s hash as its
/// predecessor and carries the hash that proof of work yields for it.
pub proof fn lemma_extends_iff_linked_and_mined(prev: BlockView, b: BlockView)
    ensures
        extends(prev, b) <==> (b.pre_block_hash == prev.hash && b.hash == mined_hash(b)),
{
}

/// A chain is valid exactly when every block carries the hash that proof of
/// work yields for it and every block after the first names the hash of the
/// block before it as its predecessor.
pub proof fn lemma_chain_valid_iff_linked_and_mined(c: Seq<BlockView>)
    ensures
        chain_valid(c) <==> ((forall|i: int| 0 <= i < c.len() ==> (#[trigger] c[i]).hash
            == mined_hash(c[i])) && (forall|i: int|
            1 <= i < c.len() ==> (#[trigger] c[i]).pre_block_hash == c[i - 1].hash)),
{
    if (forall|i: int| 0 <= i < c.len() ==> (#[trigger] c[i]).hash == mined_hash(c[i])) && (
    forall|i: int| 1 <= i < c.len() ==> (#[trigger] c[i]).pre_block_hash == c[i - 1].hash) {
        assert forall|i: int| 1 <= i < c.len() implies extends(c[i - 1], #[trigger] c[i]) by {
            assert(c[i].pre_block_hash == c[i - 1].hash);
            assert(c[i].hash == mined_hash(c[i]));
        }
    }
    if chain_valid(c) {
        assert forall|i: int| 1 <= i < c.len() implies (#[trigger] c[i]).pre_block_hash == c[i
            - 1].hash by {
            assert(extends(c[i - 1], c[i]));
        }
    }
}

/// A chain with a broken link anywhere is not valid.
pub proof fn lemma_broken_link_invalidates(c: Seq<BlockView>, i: int)
    requires
        1 <= i < c.len(),
        c[i].pre_block_hash != c[i - 1].hash,
    ensures
        !chain_valid(c),
{
    lemma_chain_valid_iff_linked_and_mined(c);
}

/// A block whose hash is not the one proof of work yields makes any chain
/// holding it invalid.
pub proof fn lemma_unmined_block_invalidates(c: Seq<BlockView>, i: int)
    requires
        0 <= i < c.len(),
        c[i].hash != mined_hash(c[i]),
    ensures
        !chain_valid(c),
{
    lemma_chain_valid_iff_linked_and_mined(c);
}

/// A block mined on top of `prev` extends `prev`.
pub proof fn lemma_mined_block_extends(prev: BlockView, b: BlockView, txs: Seq<TransactionView>)
    requires
        mined_on(prev, b, txs),
    ensures
        extends(prev, b),
{
}

/// The blockchain: a sequence of blocks.
#[derive(Debug)]
pub struct Blockchain {
    /// The list of blocks forming the blockchain.
    blocks: Vec<Block>,
}

impl View for Blockchain {
    type V = Seq<BlockView>;

    closed spec fn view(&self) -> Seq<BlockView> {
        blocks_view(self.blocks@)
    }
}

impl Blockchain {
    /// A new blockchain holding only the genesis block.
    pub fn new() -> (res: Self)
        ensures
            res@.len() == 1,
            is_genesis_block(res@[0]),
            res@[0].hash.len() == 64,
            chain_valid(res@),
    {
        let coinbase_tx = Transaction::new("Genesis Block".to_owned());
        let genesis_block = Block::generate_genesis_block(&coinbase_tx);
        let blocks = vec![genesis_block];
        let res = Blockchain { blocks };
        assert(res@ =~= seq![blocks@[0]@]);
        proof {
            lemma_single_block_chain_valid(res@[0]);
        }
        res
    }

    /// A blockchain holding the given blocks, as they are.
    pub fn from_blocks(data: Vec<Block>) -> (res: Self)
        ensures
            res@ == blocks_view(data@),
    {
        Blockchain { blocks: data }
    }

    /// Appends `block` if it extends the last block: its predecessor hash is
    /// the last block's hash and its hash is the one proof of work yields.
    /// Returns whether the block was appended; otherwise the chain is unchanged.
    pub fn add_block(&mut self, block: Block) -> (res: bool)
        ensures
            res == (old(self)@.len() > 0 && extends(old(self)@.last(), block@)),
            res == (old(self)@.len() > 0 && block@.pre_block_hash == old(self)@.last().hash
                && block@.hash == mined_hash(block@)),
            res ==> final(self)@ == old(self)@.push(block@),
            !res ==> final(self)@ == old(self)@,
            chain_valid(old(self)@) ==> chain_valid(final(self)@),
    {
        let n = self.blocks.len();
        if n == 0 {
            return false;
        }
        let last_block = &self.blocks[n - 1];
        assert(self@.last() == last_block@);
        if !(block.pre_block_hash == last_block.hash) {
            return false;
        }
        let pow = ProofOfWork::new_proof_of_work(block.clone());
        let (_, calculated_hash) = pow.run();
        if !(block.hash == calculated_hash) {
            return false;
        }
        let ghost old_view = self@;
        self.blocks.push(block);
        assert(self@ =~= old_view.push(block@));
        proof {
            if chain_valid(old_view) {
                lemma_extend_preserves_validity(old_view, block@);
            }
        }
        true
    }

    /// Mines a block holding `transactions` on top of the last block and appends it.
    pub fn add_create_block(&mut self, transactions: Vec<Transaction>)
        requires
            old(self)@.len() > 0,
            old(self)@.last().height < usize::MAX,
        ensures
            final(self)@.len() == old(self)@.len() + 1,
            final(self)@.drop_last() == old(self)@,
            mined_on(old(self)@.last(), final(self)@.last(), transactions_view(transactions@)),
            final(self)@.last().pre_block_hash == old(self)@.last().hash,
            final(self)@.last().hash == mined_hash(final(self)@.last()),
            chain_valid(old(self)@) ==> chain_valid(final(self)@),
    {
        let n = self.blocks.len();
        let prev_block = &self.blocks[n - 1];
        assert(self@.last() == prev_block@);
        let new_block = Block::new_block(
            prev_block.hash.clone(),
            transactions.as_slice(),
            prev_block.height + 1,
        );
        let ghost old_view = self@;
        self.blocks.push(new_block);
        assert(self@ =~= old_view.push(new_block@));
        assert(self@.drop_last() =~= old_view);
        proof {
            if chain_valid(old_view) {
                lemma_extend_preserves_validity(old_view, new_block@);
            }
        }
    }

    /// An iterator over the blocks, first to last.
    pub fn iter(&self) -> (res: std::slice::Iter<'_, Block>)
        ensures
            blocks_view(res.remaining().map_values(|b: &Block| *b)) == self@,
    {
        broadcast use vstd::std_specs::slice::axiom_spec_slice_iter;

        let res = self.blocks.as_slice().iter();
        assert(res.remaining().map_values(|b: &Block| *b) =~= self.blocks@);
        res
    }

    /// The blocks of the chain.
    pub fn get_blocks(&self) -> (res: &Vec<Block>)
        ensures
            blocks_view(res@) == self@,
    {
        &self.blocks
    }

    /// The last block, if the chain is not empty.
    pub fn get_last_block(&self) -> (res: Option<&Block>)
        ensures
            match res {
                Some(b) => self@.len() > 0 && b@ == self@.last(),
                None => self@.len() == 0,
            },
    {
        let n = self.blocks.len();
        if n == 0 {
            None
        } else {
            let b = &self.blocks[n - 1];
            assert(b@ == self@.last());
            Some(b)
        }
    }

    /// Whether proof of work is valid for every block and every block after
    /// the first extends the block before it.
    pub fn is_valid(&self) -> (res: bool)
        ensures
            res == chain_valid(self@),
            res == ((forall|i: int| 0 <= i < self@.len() ==> (#[trigger] self@[i]).hash
                == mined_hash(self@[i])) && (forall|i: int|
                1 <= i < self@.len() ==> (#[trigger] self@[i]).pre_block_hash == self@[i
                - 1].hash)),
    {
        proof {
            lemma_chain_valid_iff_linked_and_mined(self@);
        }
        let n = self.blocks.len();
        let ghost c = self@;
        let mut i: usize = 0;
        while i < n
            invariant
                n == c.len(),
                c == self@,
                i <= n,
                forall|j: int| 0 <= j < i ==> (#[trigger] c[j]).hash == mined_hash(c[j]),
                forall|j: int| 1 <= j < i ==> extends(c[j - 1], #[trigger] c[j]),
            decreases n - i,
        {
            let current = &self.blocks[i];
            assert(current@ == c[i as int]);
            if i > 0 {
                let previous = &self.blocks[i - 1];
                assert(previous@ == c[i - 1]);
                if !(current.pre_block_hash == previous.hash) {
                    return false;
                }
            }
            let pow = ProofOfWork::new_proof_of_work(current.clone());
            let (_, calculated_hash) = pow.run();
            if !(current.hash == calculated_hash) {
                return false;
            }
            assert(extends(c[i - 1], c[i as int]) || i == 0);
            i += 1;
        }
        true
    }
}

} // verus!
