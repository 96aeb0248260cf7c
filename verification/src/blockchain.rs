//! The ledger: a chain of blocks that starts at a genesis block, the pool
//! of transactions that wait for a block, and the difficulty that every
//! later block's digest has to meet.

use crate::balance::block_balance;
use crate::balance::block_balance_bound;
use crate::balance::chain_balance;
use crate::balance::WideSum;
use crate::block::payload_text;
use crate::block::Block;
use crate::block::BlockView;
use crate::hash::check_difficulty;
use crate::hash::same_hash;
use crate::hash::satisfies_difficulty;
use crate::hash::Hash256;
use crate::mining::is_first_solution;
use crate::mining::lemma_search_ignores_seal;
use crate::mining::no_solution_below;
use crate::text::nat_text;
use crate::text::u64_to_string;
use crate::transaction::transaction_views;
use crate::transaction::Transaction;
use crate::transaction::TransactionView;
use vstd::prelude::*;

verus! {

/// The number of leading zero digits that a new ledger asks of a digest.
pub const DIFFICULTY: usize = 4;

/// The ledger. The genesis block is held apart from the blocks that were
/// added after it, so that the chain is never empty.
pub struct Blockchain {
    genesis: Block,
    mined: Vec<Block>,
    pending_transactions: Vec<Transaction>,
    difficulty: usize,
}

/// What a ledger holds, as mathematical values.
pub struct LedgerView {
    pub blocks: Seq<BlockView>,
    pub pending: Seq<TransactionView>,
    pub difficulty: nat,
}

/// The views of a sequence of blocks, in order.
pub open spec fn block_views(blocks: Seq<Block>) -> Seq<BlockView> {
    Seq::new(blocks.len(), |i: int| blocks[i]@)
}

/// `block` may follow `prev` in a valid chain: its stored digest is the one
/// its fields hash to, it names `prev` by digest, and its digest meets the
/// target.
pub open spec fn link_valid(prev: BlockView, block: BlockView, difficulty: nat) -> bool {
    &&& block.is_sealed()
    &&& block.prev_hash == prev.hash
    &&& satisfies_difficulty(block.hash, difficulty)
}

/// The block at `index` is validly linked to the one before it.
pub open spec fn valid_at(blocks: Seq<BlockView>, difficulty: nat, index: int) -> bool {
    link_valid(blocks[index - 1], blocks[index], difficulty)
}

/// Every block after the first is validly linked to the one before it. The
/// first block is never checked.
pub open spec fn chain_valid(blocks: Seq<BlockView>, difficulty: nat) -> bool {
    forall|i: int| 1 <= i < blocks.len() ==> #[trigger] valid_at(blocks, difficulty, i)
}

impl LedgerView {
    /// The last block of the chain.
    pub open spec fn tip(self) -> BlockView {
        self.blocks.last()
    }

    /// The rule by which a block from a miner is taken in: it names the tip
    /// by digest and its stored digest meets the target. Whether the stored
    /// digest is the block's true digest is not asked.
    pub open spec fn accepts(self, block: BlockView) -> bool {
        block.prev_hash == self.tip().hash && satisfies_difficulty(block.hash, self.difficulty)
    }

    /// The ledger after `block` was appended: one block longer, the pool
    /// empty.
    pub open spec fn extended(self, block: BlockView) -> LedgerView {
        LedgerView {
            blocks: self.blocks.push(block),
            pending: Seq::empty(),
            difficulty: self.difficulty,
        }
    }

    /// `block` is what mining this ledger's pool yields: it follows the tip,
    /// holds the whole pool, carries the least nonce that solves it, and its
    /// stored digest is its digest under that nonce.
    pub open spec fn mines(self, block: BlockView) -> bool {
        &&& block.prev_hash == self.tip().hash
        &&& block.transactions == self.pending
        &&& block.is_sealed()
        &&& is_first_solution(block, self.difficulty, block.nonce)
    }

    /// Mining this ledger's pool at `timestamp` is in vain: no 64-bit nonce
    /// solves the block that would be made.
    pub open spec fn unminable_at(self, timestamp: nat) -> bool {
        no_solution_below(
            BlockView::template(timestamp, self.tip().hash, self.pending),
            self.difficulty,
            u64::MAX as nat + 1,
        )
    }

    /// The chain is valid at the ledger's difficulty.
    pub open spec fn is_valid(self) -> bool {
        chain_valid(self.blocks, self.difficulty)
    }
}

/// Appending a validly linked block to a valid chain gives a valid chain.
pub proof fn lemma_valid_chain_extends(blocks: Seq<BlockView>, block: BlockView, difficulty: nat)
    requires
        chain_valid(blocks, difficulty),
        link_valid(blocks.last(), block, difficulty),
    ensures
        chain_valid(blocks.push(block), difficulty),
{
    let longer = blocks.push(block);
    assert forall|i: int| 1 <= i < longer.len() implies #[trigger] valid_at(
        longer,
        difficulty,
        i,
    ) by {
        if i < blocks.len() {
            assert(valid_at(blocks, difficulty, i));
        }
    }
}

/// A block that is taken in keeps a valid chain valid, provided that its
/// stored digest is the one its fields hash to. (The rule by which blocks
/// are taken in does not ask that; a block that lies about its digest is
/// taken in all the same, and the chain is then invalid.)
pub proof fn lemma_accepted_block_keeps_chain_valid(ledger: LedgerView, block: BlockView)
    requires
        ledger.is_valid(),
        ledger.accepts(block),
        block.is_sealed(),
    ensures
        ledger.extended(block).is_valid(),
{
    lemma_valid_chain_extends(ledger.blocks, block, ledger.difficulty);
}

/// The block that mining the pool yields would be taken in, and it keeps a
/// valid chain valid.
pub proof fn lemma_mined_block_keeps_chain_valid(ledger: LedgerView, block: BlockView)
    requires
        ledger.is_valid(),
        ledger.mines(block),
    ensures
        ledger.accepts(block),
        ledger.extended(block).is_valid(),
{
    lemma_valid_chain_extends(ledger.blocks, block, ledger.difficulty);
}

impl View for Blockchain {
    type V = LedgerView;

    closed spec fn view(&self) -> LedgerView {
        LedgerView {
            blocks: seq![self.genesis@] + block_views(self.mined@),
            pending: transaction_views(self.pending_transactions@),
            difficulty: self.difficulty as nat,
        }
    }
}

impl Blockchain {
    /// A ledger of one genesis block, made now, with an empty pool and the
    /// default difficulty.
    pub fn new() -> (ledger: Self)
        ensures
            ledger@.blocks.len() == 1,
            ledger@.blocks[0].is_genesis(),
            ledger@.pending.len() == 0,
            ledger@.difficulty == DIFFICULTY,
            ledger@.is_valid(),
    {
        Blockchain::with_difficulty(DIFFICULTY)
    }

    /// A ledger of one genesis block, made now, with an empty pool and the
    /// given difficulty.
    pub fn with_difficulty(difficulty: usize) -> (ledger: Self)
        ensures
            ledger@.blocks.len() == 1,
            ledger@.blocks[0].is_genesis(),
            ledger@.pending.len() == 0,
            ledger@.difficulty == difficulty,
            ledger@.is_valid(),
    {
        Blockchain {
            genesis: Block::genesis(),
            mined: Vec::new(),
            pending_transactions: Vec::new(),
            difficulty,
        }
    }

    /// Puts a transaction into the pool. Nothing about it is checked.
    pub fn add_transaction(&mut self, transaction: Transaction)
        ensures
            final(self)@ == (LedgerView {
                pending: old(self)@.pending.push(transaction@),
                ..old(self)@
            }),
    {
        self.pending_transactions.push(transaction);
        assert(transaction_views(self.pending_transactions@) =~= transaction_views(
            old(self).pending_transactions@,
        ).push(transaction@));
    }

    /// The last block of the chain.
    pub fn get_latest_block(&self) -> (block: &Block)
        ensures
            self@.blocks.len() > 0,
            block@ == self@.tip(),
    {
        let count = self.mined.len();
        if count == 0 {
            &self.genesis
        } else {
            &self.mined[count - 1]
        }
    }

    /// The blocks of the chain, from the genesis block on.
    pub fn get_chain(&self) -> (blocks: Vec<Block>)
        ensures
            block_views(blocks@) == self@.blocks,
    {
        let mut blocks: Vec<Block> = Vec::new();
        blocks.push(self.genesis.clone());
        let mut i: usize = 0;
        while i < self.mined.len()
            invariant
                i <= self.mined.len(),
                blocks@.len() == i + 1,
                forall|j: int|
                    0 <= j < blocks@.len() ==> (#[trigger] blocks@[j])@ == self@.blocks[j],
            decreases self.mined.len() - i,
        {
            blocks.push(self.mined[i].clone());
            i += 1;
        }
        assert(block_views(blocks@) =~= self@.blocks);
        blocks
    }

    /// The transactions that wait for a block, oldest first.
    pub fn get_pending_transactions(&self) -> (pending: &Vec<Transaction>)
        ensures
            transaction_views(pending@) == self@.pending,
    {
        &self.pending_transactions
    }

    /// The number of leading zero digits asked of a digest.
    pub fn get_difficulty(&self) -> (difficulty: usize)
        ensures
            difficulty == self@.difficulty,
    {
        self.difficulty
    }

    /// The digest of `block` under `nonce`.
    pub fn calculate_hash_with_nonce(&self, block: &Block, nonce: u64) -> (hash: Hash256)
        ensures
            hash@ == block@.hash_with_nonce(nonce as nat),
    {
        block.calculate_hash_with_nonce(nonce)
    }

    /// Whether a digest meets the ledger's target: its hexadecimal rendering
    /// starts with as many zero digits as the difficulty says.
    pub fn valid_proof(&self, hash: &Hash256) -> (valid: bool)
        ensures
            valid == satisfies_difficulty(hash@, self@.difficulty),
    {
        check_difficulty(hash, self.difficulty)
    }

    /// Searches the nonces from zero upwards for the first under which the
    /// block's digest meets the target, and returns it with that digest.
    /// `None` only if no 64-bit nonce solves the block.
    pub fn proof_of_work(&self, block: &Block) -> (found: Option<(u64, Hash256)>)
        ensures
            match found {
                Some((nonce, hash)) => {
                    &&& is_first_solution(block@, self@.difficulty, nonce as nat)
                    &&& hash@ == block@.hash_with_nonce(nonce as nat)
                },
                None => no_solution_below(block@, self@.difficulty, u64::MAX as nat + 1),
            },
    {
        let timestamp = u64_to_string(block.get_timestamp());
        let payload = block.payload();
        let mut nonce: u64 = 0;
        loop
            invariant
                timestamp@ == nat_text(block@.timestamp),
                payload@ == payload_text(block@.transactions),
                no_solution_below(block@, self@.difficulty, nonce as nat),
            decreases u64::MAX - nonce,
        {
            let hash = block.hash_prepared(timestamp.as_str(), payload.as_str(), nonce);
            if self.valid_proof(&hash) {
                return Some((nonce, hash));
            }
            if nonce == u64::MAX {
                return None;
            }
            nonce += 1;
        }
    }

    /// Mines the pool into a block that follows the tip, without adding it
    /// to the chain. `None` only if no 64-bit nonce solves that block.
    pub fn new_block(&self) -> (mined: Option<Block>)
        ensures
            match mined {
                Some(block) => self@.mines(block@),
                None => exists|timestamp: nat| self@.unminable_at(timestamp),
            },
    {
        let prev_hash = self.get_latest_block().get_hash();
        let transactions = self.pending_transactions.clone();
        assert(transaction_views(transactions@) =~= self@.pending);
        let mut block = Block::new(transactions, prev_hash);
        match self.proof_of_work(&block) {
            Some((nonce, hash)) => {
                let ghost template = block@;
                block.set_nonce(nonce);
                block.set_hash(hash);
                proof {
                    lemma_search_ignores_seal(template, block@, self@.difficulty, nonce as nat);
                }
                Some(block)
            },
            None => {
                assert(self@.unminable_at(block@.timestamp));
                None
            },
        }
    }

    /// Mines the pool into a block and appends it, which empties the pool.
    /// Returns whether a block was appended: `false` only if no 64-bit nonce
    /// solves the block, and then the ledger is as it was.
    pub fn mine_pending_transactions(&mut self) -> (mined: bool)
        ensures
            mined ==> exists|block: BlockView| #[trigger]
                old(self)@.mines(block) && final(self)@ == old(self)@.extended(block),
            !mined ==> final(self)@ == old(self)@ && exists|timestamp: nat|
                old(self)@.unminable_at(timestamp),
            mined && old(self)@.is_valid() ==> final(self)@.is_valid(),
    {
        match self.new_block() {
            Some(block) => {
                proof {
                    if self@.is_valid() {
                        lemma_mined_block_keeps_chain_valid(self@, block@);
                    }
                }
                self.append(block);
                true
            },
            None => false,
        }
    }

    /// Checks the whole chain: every block after the first has to carry the
    /// digest that its own fields hash to, name the block before it, and
    /// meet the target.
    pub fn is_valid(&self) -> (valid: bool)
        ensures
            valid == self@.is_valid(),
    {
        let mut i: usize = 0;
        while i < self.mined.len()
            invariant
                i <= self.mined.len(),
                forall|j: int|
                    1 <= j <= i ==> #[trigger] valid_at(self@.blocks, self@.difficulty, j),
            decreases self.mined.len() - i,
        {
            let current = &self.mined[i];
            let prev = if i == 0 {
                &self.genesis
            } else {
                &self.mined[i - 1]
            };
            assert(current@ == self@.blocks[i + 1]);
            assert(prev@ == self@.blocks[i as int]);
            let recomputed = current.calculate_hash_with_nonce(current.get_nonce());
            let linked = same_hash(&current.get_hash(), &recomputed) && same_hash(
                &current.get_prev_hash(),
                &prev.get_hash(),
            ) && self.valid_proof(&current.get_hash());
            assert(linked == valid_at(self@.blocks, self@.difficulty, i + 1));
            if !linked {
                return false;
            }
            i += 1;
        }
        true
    }

    /// Whether a block from a miner would be taken in.
    pub fn is_valid_new_block(&self, block: &Block) -> (valid: bool)
        ensures
            valid == self@.accepts(block@),
    {
        let latest = self.get_latest_block();
        if !same_hash(&block.get_prev_hash(), &latest.get_hash()) {
            return false;
        }
        if !self.valid_proof(&block.get_hash()) {
            return false;
        }
        true
    }

    /// Takes in a block from a miner if it names the tip and its digest
    /// meets the target; the pool is then emptied, whatever the block
    /// holds. Any other block is dropped and the ledger stays as it was.
    /// Returns whether the block was taken in.
    pub fn add_mined_block(&mut self, block: Block) -> (accepted: bool)
        ensures
            accepted == old(self)@.accepts(block@),
            accepted ==> final(self)@ == old(self)@.extended(block@),
            !accepted ==> final(self)@ == old(self)@,
            accepted && block@.is_sealed() && old(self)@.is_valid() ==> final(self)@.is_valid(),
    {
        if self.is_valid_new_block(&block) {
            proof {
                if block@.is_sealed() && self@.is_valid() {
                    lemma_accepted_block_keeps_chain_valid(self@, block@);
                }
            }
            self.append(block);
            true
        } else {
            false
        }
    }

    /// The balance of `address` over every block of the chain: what it
    /// received less what it sent. The pool takes no part. `None` only if
    /// the balance does not fit in 128 bits.
    pub fn get_balance(&self, address: &str) -> (balance: Option<i128>)
        ensures
            match balance {
                Some(amount) => amount == chain_balance(self@.blocks, address@),
                None => {
                    let exact = chain_balance(self@.blocks, address@);
                    exact < i128::MIN || exact > i128::MAX
                },
            },
    {
        let owner = String::from_str(address);
        let ghost blocks = self@.blocks;
        assert(blocks.take(1).drop_last() =~= Seq::<BlockView>::empty());
        assert(chain_balance(blocks.take(1).drop_last(), owner@) == 0);
        let mut sum = WideSum::zero().plus(block_balance(&self.genesis, &owner));
        let mut i: usize = 0;
        while i < self.mined.len()
            invariant
                i <= self.mined.len(),
                blocks == self@.blocks,
                sum.value() == chain_balance(blocks.take(i + 1), owner@),
                -((i + 1) * block_balance_bound()) <= sum.value(),
                sum.value() <= (i + 1) * block_balance_bound(),
            decreases self.mined.len() - i,
        {
            let part = block_balance(&self.mined[i], &owner);
            proof {
                let next = blocks.take(i + 2);
                assert(next.drop_last() =~= blocks.take(i + 1));
                assert(next.last() == self.mined[i as int]@);
            }
            sum = sum.plus(part);
            i += 1;
        }
        assert(blocks.take(i + 1) =~= blocks);
        sum.narrow()
    }

    /// An unsolved block over the whole pool that follows the tip, for a
    /// miner to solve; `None` when the pool is empty. The pool is left as it
    /// is.
    pub fn get_block_to_mine(&self) -> (template: Option<Block>)
        ensures
            template is None <==> self@.pending.len() == 0,
            template matches Some(block) ==> block@ == BlockView::template(
                block@.timestamp,
                self@.tip().hash,
                self@.pending,
            ),
    {
        if self.pending_transactions.is_empty() {
            None
        } else {
            let prev_hash = self.get_latest_block().get_hash();
            let transactions = self.pending_transactions.clone();
            assert(transaction_views(transactions@) =~= self@.pending);
            Some(Block::new(transactions, prev_hash))
        }
    }

    /// Appends a block and empties the pool.
    fn append(&mut self, block: Block)
        ensures
            final(self)@ == old(self)@.extended(block@),
    {
        self.mined.push(block);
        self.pending_transactions.clear();
        assert(self@.blocks =~= old(self)@.blocks.push(block@));
        assert(self@.pending =~= Seq::empty());
    }
}

} // verus!
