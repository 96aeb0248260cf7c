//! Balances: what the transactions of a chain add up to for an address,
//! and the arithmetic that sums them without overflow.

use crate::block::Block;
use crate::block::BlockView;
use crate::transaction::transaction_views;
use crate::transaction::TransactionView;
use vstd::prelude::*;

verus! {

/// What one transaction changes for `address`: the amount comes in if the
/// address receives it and goes out if the address sends it.
pub open spec fn transaction_effect(t: TransactionView, address: Seq<char>) -> int {
    (if t.receiver == address {
        t.amount
    } else {
        0
    }) - (if t.sender == address {
        t.amount
    } else {
        0
    })
}

/// What a sequence of transactions adds up to for `address`.
pub open spec fn transactions_balance(transactions: Seq<TransactionView>, address: Seq<char>) -> int
    decreases transactions.len(),
{
    if transactions.len() == 0 {
        0
    } else {
        transactions_balance(transactions.drop_last(), address) + transaction_effect(
            transactions.last(),
            address,
        )
    }
}

/// What the transactions of a sequence of blocks add up to for `address`.
pub open spec fn chain_balance(blocks: Seq<BlockView>, address: Seq<char>) -> int
    decreases blocks.len(),
{
    if blocks.len() == 0 {
        0
    } else {
        chain_balance(blocks.drop_last(), address) + transactions_balance(
            blocks.last().transactions,
            address,
        )
    }
}

/// No transaction of the blocks names `address` as sender or receiver.
pub open spec fn never_referenced(blocks: Seq<BlockView>, address: Seq<char>) -> bool {
    forall|i: int, j: int|
        0 <= i < blocks.len() && 0 <= j < blocks[i].transactions.len() ==> {
            &&& (#[trigger] blocks[i].transactions[j]).sender != address
            &&& blocks[i].transactions[j].receiver != address
        }
}

/// A block with a single transfer of nothing, as a genesis block is, leaves
/// every balance as it was.
pub proof fn lemma_genesis_adds_nothing(genesis: BlockView, address: Seq<char>)
    requires
        genesis.is_genesis(),
    ensures
        transactions_balance(genesis.transactions, address) == 0,
        chain_balance(seq![genesis], address) == 0,
{
    assert(genesis.transactions.drop_last() =~= Seq::<TransactionView>::empty());
    assert(transactions_balance(genesis.transactions.drop_last(), address) == 0);
    assert(transaction_effect(genesis.transactions.last(), address) == 0);
    assert(seq![genesis].drop_last() =~= Seq::<BlockView>::empty());
    assert(chain_balance(seq![genesis].drop_last(), address) == 0);
}

/// Balances are additive: the balance over two runs of blocks, one after
/// the other, is the sum of the balances over each.
pub proof fn lemma_balance_additive(
    first: Seq<BlockView>,
    second: Seq<BlockView>,
    address: Seq<char>,
)
    ensures
        chain_balance(first + second, address) == chain_balance(first, address) + chain_balance(
            second,
            address,
        ),
    decreases second.len(),
{
    if second.len() == 0 {
        assert(first + second =~= first);
    } else {
        assert((first + second).drop_last() =~= first + second.drop_last());
        assert((first + second).last() == second.last());
        lemma_balance_additive(first, second.drop_last(), address);
    }
}

/// Taking one block out of a run lowers the balance by what that block's
/// transactions add up to.
pub proof fn lemma_balance_without(blocks: Seq<BlockView>, index: int, address: Seq<char>)
    requires
        0 <= index < blocks.len(),
    ensures
        chain_balance(blocks, address) == chain_balance(blocks.remove(index), address)
            + transactions_balance(blocks[index].transactions, address),
{
    let before = blocks.take(index);
    let after = blocks.skip(index + 1);
    let one = seq![blocks[index]];
    assert(blocks =~= before + one + after);
    assert(blocks.remove(index) =~= before + after);
    lemma_balance_additive(before + one, after, address);
    lemma_balance_additive(before, one, address);
    lemma_balance_additive(before, after, address);
    assert(chain_balance(one.drop_last(), address) == 0);
}

/// Balances do not depend on the order of the blocks: two runs that hold
/// the same blocks, each as often as the other, give every address the same
/// balance.
pub proof fn lemma_balance_order_independent(
    blocks: Seq<BlockView>,
    permuted: Seq<BlockView>,
    address: Seq<char>,
)
    requires
        blocks.to_multiset() == permuted.to_multiset(),
    ensures
        chain_balance(blocks, address) == chain_balance(permuted, address),
    decreases blocks.len(),
{
    blocks.to_multiset_ensures();
    permuted.to_multiset_ensures();
    if blocks.len() == 0 {
        assert(permuted.len() == 0);
    } else {
        let last = blocks.last();
        let rest = blocks.drop_last();
        rest.to_multiset_ensures();
        assert(blocks =~= rest.push(last));
        assert(blocks.to_multiset() =~= rest.to_multiset().insert(last));
        assert(permuted.to_multiset().count(last) > 0);
        assert(permuted.contains(last));
        let index = choose|k: int| 0 <= k < permuted.len() && permuted[k] == last;
        let others = permuted.remove(index);
        assert(others.to_multiset() =~= permuted.to_multiset().remove(last));
        assert(others.to_multiset() =~= rest.to_multiset());
        lemma_balance_order_independent(rest, others, address);
        lemma_balance_without(permuted, index, address);
    }
}

/// An address that no transaction names has a balance of zero.
pub proof fn lemma_balance_never_referenced(blocks: Seq<BlockView>, address: Seq<char>)
    requires
        never_referenced(blocks, address),
    ensures
        chain_balance(blocks, address) == 0,
    decreases blocks.len(),
{
    if blocks.len() > 0 {
        let rest = blocks.drop_last();
        assert forall|i: int, j: int|
            0 <= i < rest.len() && 0 <= j < rest[i].transactions.len() implies {
            &&& (#[trigger] rest[i].transactions[j]).sender != address
            &&& rest[i].transactions[j].receiver != address
        } by {
            assert(rest[i] == blocks[i]);
        }
        lemma_balance_never_referenced(rest, address);
        lemma_transactions_unreferenced(blocks.last().transactions, address);
    }
}

/// Transactions that do not name an address add up to zero for it.
proof fn lemma_transactions_unreferenced(transactions: Seq<TransactionView>, address: Seq<char>)
    requires
        forall|j: int|
            0 <= j < transactions.len() ==> (#[trigger] transactions[j]).sender != address
                && transactions[j].receiver != address,
    ensures
        transactions_balance(transactions, address) == 0,
    decreases transactions.len(),
{
    if transactions.len() > 0 {
        let rest = transactions.drop_last();
        assert forall|j: int| 0 <= j < rest.len() implies (#[trigger] rest[j]).sender != address
            && rest[j].receiver != address by {
            assert(rest[j] == transactions[j]);
        }
        lemma_transactions_unreferenced(rest, address);
    }
}

/// The most, in absolute value, that the transactions of one block can add
/// up to: a vector holds fewer than 2^64 transactions, each of an amount
/// of at most 2^63 in absolute value.
pub open spec fn block_balance_bound() -> int {
    0x7fff_ffff_ffff_ffff_8000_0000_0000_0000
}

/// What the transactions of `block` add up to for `address`.
pub(crate) fn block_balance(block: &Block, address: &String) -> (sum: i128)
    ensures
        sum == transactions_balance(block@.transactions, address@),
        -block_balance_bound() <= sum <= block_balance_bound(),
{
    let transactions = block.get_transactions();
    let ghost views = block@.transactions;
    let mut sum: i128 = 0;
    let mut i: usize = 0;
    assert(views.take(0) =~= Seq::empty());
    while i < transactions.len()
        invariant
            i <= transactions.len(),
            views == transaction_views(transactions@),
            sum == transactions_balance(views.take(i as int), address@),
            -(i * 0x8000_0000_0000_0000) <= sum <= i * 0x8000_0000_0000_0000,
        decreases transactions.len() - i,
    {
        let transaction = &transactions[i];
        let mut effect: i128 = 0;
        if transaction.receiver == *address {
            effect = effect + transaction.amount as i128;
        }
        if transaction.sender == *address {
            effect = effect - transaction.amount as i128;
        }
        proof {
            let next = views.take(i + 1);
            assert(next.drop_last() =~= views.take(i as int));
            assert(next.last() == transaction@);
            assert(effect == transaction_effect(transaction@, address@));
        }
        sum = sum + effect;
        i += 1;
    }
    assert(views.take(i as int) =~= views);
    sum
}

/// A signed sum of up to 192 bits, held as `high * 2^64 + low`. It is wide
/// enough for the balance over any chain that memory could hold.
pub(crate) struct WideSum {
    high: i128,
    low: u64,
}

/// The bound of a `WideSum`: 2^191.
pub open spec fn wide_limit() -> int {
    0x8000_0000_0000_0000_0000_0000_0000_0000_0000_0000_0000_0000int
}

impl WideSum {
    /// The number that the two parts stand for.
    pub(crate) closed spec fn value(self) -> int {
        self.high * 0x1_0000_0000_0000_0000 + self.low
    }

    /// The sum of nothing.
    pub(crate) fn zero() -> (sum: WideSum)
        ensures
            sum.value() == 0,
    {
        WideSum { high: 0, low: 0 }
    }

    /// The sum and one number more.
    pub(crate) fn plus(self, x: i128) -> (sum: WideSum)
        requires
            -wide_limit() <= self.value() + x < wide_limit(),
        ensures
            sum.value() == self.value() + x,
    {
        let quotient: i128;
        let remainder: u64;
        if x >= 0 {
            quotient = x / 0x1_0000_0000_0000_0000;
            remainder = (x % 0x1_0000_0000_0000_0000) as u64;
        } else {
            let below: i128 = -(x + 1);
            quotient = -(below / 0x1_0000_0000_0000_0000) - 1;
            remainder = (0xffff_ffff_ffff_ffff - (below % 0x1_0000_0000_0000_0000)) as u64;
        }
        assert(x == quotient * 0x1_0000_0000_0000_0000 + remainder);
        let low_sum: u128 = self.low as u128 + remainder as u128;
        if low_sum >= 0x1_0000_0000_0000_0000 {
            let step: i128 = quotient + 1;
            WideSum { high: self.high + step, low: (low_sum - 0x1_0000_0000_0000_0000) as u64 }
        } else {
            WideSum { high: self.high + quotient, low: low_sum as u64 }
        }
    }

    /// The sum as a 128-bit integer, if it is one.
    pub(crate) fn narrow(self) -> (value: Option<i128>)
        ensures
            match value {
                Some(v) => v == self.value(),
                None => self.value() < i128::MIN || self.value() > i128::MAX,
            },
    {
        if self.high < -0x8000_0000_0000_0000 || self.high > 0x7fff_ffff_ffff_ffff {
            None
        } else {
            Some(self.high * 0x1_0000_0000_0000_0000 + self.low as i128)
        }
    }
}

} // verus!
