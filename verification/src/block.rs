//! Blocks: a timestamped list of transactions that names the block before
//! it by digest and carries a nonce and its own digest.

use crate::clock::unix_time;
use crate::hash::calculate_hash;
use crate::hash::digest_of;
use crate::hash::zero_hash;
use crate::hash::Hash256;
use crate::text::join;
use crate::text::join_text;
use crate::text::nat_text;
use crate::text::push_u64;
use crate::text::string_views;
use crate::text::u64_to_string;
use crate::transaction::transaction_text;
use crate::transaction::transaction_views;
use crate::transaction::unsigned_transaction;
use crate::transaction::Transaction;
use crate::transaction::TransactionView;
use vstd::prelude::*;

verus! {

/// A block of the chain.
pub struct Block {
    timestamp: u64,
    prev_block_hash: Hash256,
    hash: Hash256,
    transactions: Vec<Transaction>,
    nonce: u64,
}

/// What a block holds, as mathematical values.
pub struct BlockView {
    pub timestamp: nat,
    pub prev_hash: Seq<u8>,
    pub hash: Seq<u8>,
    pub transactions: Seq<TransactionView>,
    pub nonce: nat,
}

/// The lines of a sequence of transactions, in order.
pub open spec fn transaction_lines(transactions: Seq<TransactionView>) -> Seq<Seq<char>> {
    Seq::new(transactions.len(), |i: int| transaction_text(transactions[i]))
}

/// The text of a block's transactions: their lines joined by `", "`.
pub open spec fn payload_text(transactions: Seq<TransactionView>) -> Seq<char> {
    join_text(transaction_lines(transactions), ", "@)
}

/// The digest of an unsolved block: the nonce takes no part in it.
pub open spec fn template_hash(
    timestamp: nat,
    prev_hash: Seq<u8>,
    transactions: Seq<TransactionView>,
) -> Seq<u8> {
    digest_of(nat_text(timestamp), prev_hash, payload_text(transactions))
}

/// The digest of a block under a nonce: the nonce, in decimal, is appended
/// to the payload text before hashing.
pub open spec fn sealed_hash(
    timestamp: nat,
    prev_hash: Seq<u8>,
    transactions: Seq<TransactionView>,
    nonce: nat,
) -> Seq<u8> {
    digest_of(nat_text(timestamp), prev_hash, payload_text(transactions) + nat_text(nonce))
}

impl BlockView {
    /// The unsolved block over the given contents: nonce zero, digest
    /// computed without the nonce.
    pub open spec fn template(
        timestamp: nat,
        prev_hash: Seq<u8>,
        transactions: Seq<TransactionView>,
    ) -> BlockView {
        BlockView {
            timestamp,
            prev_hash,
            hash: template_hash(timestamp, prev_hash, transactions),
            transactions,
            nonce: 0,
        }
    }

    /// The digest of this block's contents without the nonce.
    pub open spec fn template_hash(self) -> Seq<u8> {
        template_hash(self.timestamp, self.prev_hash, self.transactions)
    }

    /// The digest of this block's contents under `nonce`.
    pub open spec fn hash_with_nonce(self, nonce: nat) -> Seq<u8> {
        sealed_hash(self.timestamp, self.prev_hash, self.transactions, nonce)
    }

    /// The stored digest is the one that the block's own fields, nonce
    /// included, hash to.
    pub open spec fn is_sealed(self) -> bool {
        self.hash == self.hash_with_nonce(self.nonce)
    }

    /// This block with another nonce and digest.
    pub open spec fn solved(self, nonce: nat, hash: Seq<u8>) -> BlockView {
        BlockView { nonce, hash, ..self }
    }

    /// A genesis block: no predecessor, and a single empty transfer from
    /// `Genesis` to `Genesis`.
    pub open spec fn is_genesis(self) -> bool {
        &&& self.prev_hash == zero_hash()
        &&& self.nonce == 0
        &&& self.hash == self.template_hash()
        &&& self.transactions.len() == 1
        &&& self.transactions[0] == unsigned_transaction(
            "Genesis"@,
            "Genesis"@,
            0,
            self.transactions[0].timestamp,
        )
    }
}

impl View for Block {
    type V = BlockView;

    closed spec fn view(&self) -> BlockView {
        BlockView {
            timestamp: self.timestamp as nat,
            prev_hash: self.prev_block_hash@,
            hash: self.hash@,
            transactions: transaction_views(self.transactions@),
            nonce: self.nonce as nat,
        }
    }
}

impl Clone for Block {
    fn clone(&self) -> (copy: Self)
        ensures
            copy@ == self@,
    {
        let transactions = self.transactions.clone();
        assert(transaction_views(transactions@) =~= transaction_views(self.transactions@));
        Block {
            timestamp: self.timestamp,
            prev_block_hash: self.prev_block_hash,
            hash: self.hash,
            transactions,
            nonce: self.nonce,
        }
    }
}

impl Block {
    /// An unsolved block made now, by the system clock, over the given
    /// transactions and the digest of the block before it.
    pub fn new(transactions: Vec<Transaction>, prev_block_hash: Hash256) -> (block: Self)
        ensures
            block@ == BlockView::template(
                block@.timestamp,
                prev_block_hash@,
                transaction_views(transactions@),
            ),
    {
        Block::with_timestamp(unix_time(), transactions, prev_block_hash)
    }

    /// An unsolved block made at `timestamp`, in seconds since the Unix
    /// epoch.
    pub fn with_timestamp(
        timestamp: u64,
        transactions: Vec<Transaction>,
        prev_block_hash: Hash256,
    ) -> (block: Self)
        ensures
            block@ == BlockView::template(
                timestamp as nat,
                prev_block_hash@,
                transaction_views(transactions@),
            ),
    {
        let mut block = Block {
            timestamp,
            prev_block_hash,
            hash: [0u8; 32],
            transactions,
            nonce: 0,
        };
        let hash = block.calculate_hash();
        block.hash = hash;
        block
    }

    /// A block with every field given, as one that was received from
    /// elsewhere.
    pub fn from_parts(
        timestamp: u64,
        prev_block_hash: Hash256,
        hash: Hash256,
        transactions: Vec<Transaction>,
        nonce: u64,
    ) -> (block: Self)
        ensures
            block@ == (BlockView {
                timestamp: timestamp as nat,
                prev_hash: prev_block_hash@,
                hash: hash@,
                transactions: transaction_views(transactions@),
                nonce: nonce as nat,
            }),
    {
        Block { timestamp, prev_block_hash, hash, transactions, nonce }
    }

    /// The text of the block's transactions, as it enters the digest.
    pub fn payload(&self) -> (text: String)
        ensures
            text@ == payload_text(self@.transactions),
    {
        let mut lines: Vec<String> = Vec::new();
        let mut i: usize = 0;
        while i < self.transactions.len()
            invariant
                i <= self.transactions.len(),
                lines@.len() == i,
                forall|j: int|
                    0 <= j < i ==> (#[trigger] lines@[j])@ == transaction_text(
                        self.transactions@[j]@,
                    ),
            decreases self.transactions.len() - i,
        {
            lines.push(self.transactions[i].to_string());
            i += 1;
        }
        assert(string_views(lines@) =~= transaction_lines(self@.transactions));
        join(&lines, ", ")
    }

    /// The digest of the block without its nonce, as an unsolved block
    /// carries it.
    pub fn calculate_hash(&self) -> (hash: Hash256)
        ensures
            hash@ == self@.template_hash(),
    {
        let data = self.payload();
        let timestamp = u64_to_string(self.timestamp);
        calculate_hash(timestamp.as_str(), &self.prev_block_hash, data.as_str())
    }

    /// The digest of the block under `nonce`, which is what proof-of-work
    /// searches over and what a solved block carries.
    pub fn calculate_hash_with_nonce(&self, nonce: u64) -> (hash: Hash256)
        ensures
            hash@ == self@.hash_with_nonce(nonce as nat),
    {
        let mut data = self.payload();
        push_u64(&mut data, nonce);
        let timestamp = u64_to_string(self.timestamp);
        calculate_hash(timestamp.as_str(), &self.prev_block_hash, data.as_str())
    }

    /// The digest of the block under `nonce`, from the timestamp and
    /// payload texts, which a search over many nonces writes only once.
    pub(crate) fn hash_prepared(&self, timestamp: &str, payload: &str, nonce: u64) -> (hash:
        Hash256)
        requires
            timestamp@ == nat_text(self@.timestamp),
            payload@ == payload_text(self@.transactions),
        ensures
            hash@ == self@.hash_with_nonce(nonce as nat),
    {
        let mut data = String::from_str(payload);
        push_u64(&mut data, nonce);
        calculate_hash(timestamp, &self.prev_block_hash, data.as_str())
    }

    /// The first block of a chain, made now.
    pub fn genesis() -> (block: Self)
        ensures
            block@.is_genesis(),
    {
        let first = Transaction::new(String::from_str("Genesis"), String::from_str("Genesis"), 0);
        let mut transactions: Vec<Transaction> = Vec::new();
        transactions.push(first);
        let zero: Hash256 = [0u8; 32];
        assert(zero@ =~= zero_hash());
        Block::new(transactions, zero)
    }

    /// The block's digest.
    pub fn get_hash(&self) -> (hash: Hash256)
        ensures
            hash@ == self@.hash,
    {
        self.hash
    }

    /// The digest of the block before this one.
    pub fn get_prev_hash(&self) -> (hash: Hash256)
        ensures
            hash@ == self@.prev_hash,
    {
        self.prev_block_hash
    }

    /// When the block was made, in seconds since the Unix epoch.
    pub fn get_timestamp(&self) -> (timestamp: u64)
        ensures
            timestamp == self@.timestamp,
    {
        self.timestamp
    }

    /// The block's transactions, in order.
    pub fn get_transactions(&self) -> (transactions: &Vec<Transaction>)
        ensures
            transaction_views(transactions@) == self@.transactions,
    {
        &self.transactions
    }

    /// Sets the nonce and leaves the rest, the digest included, as it is.
    pub fn set_nonce(&mut self, nonce: u64)
        ensures
            final(self)@ == (BlockView { nonce: nonce as nat, ..old(self)@ }),
    {
        self.nonce = nonce;
    }

    /// Sets the digest and leaves the rest as it is.
    pub fn set_hash(&mut self, hash: Hash256)
        ensures
            final(self)@ == (BlockView { hash: hash@, ..old(self)@ }),
    {
        self.hash = hash;
    }

    /// The block's nonce.
    pub fn get_nonce(&self) -> (nonce: u64)
        ensures
            nonce == self@.nonce,
    {
        self.nonce
    }
}

} // verus!
