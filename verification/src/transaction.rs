//! Transactions: a transfer of an amount from a sender to a receiver, with
//! the time it was made and an optional signature that nothing verifies.

use crate::clock::unix_time;
use crate::hash::calculate_hash;
use crate::hash::digest_of;
use crate::hash::zero_hash;
use crate::hash::Hash256;
use crate::text::bool_text;
use crate::text::int_text;
use crate::text::nat_text;
use crate::text::push_bool;
use crate::text::push_i64;
use crate::text::push_u64;
use crate::text::u64_to_string;
use vstd::prelude::*;

verus! {

/// A transfer of `amount` whole units from `sender` to `receiver`.
pub struct Transaction {
    pub sender: String,
    pub receiver: String,
    pub amount: i64,
    pub timestamp: u64,
    pub signature: Option<String>,
}

/// What a transaction says, as mathematical values.
pub struct TransactionView {
    pub sender: Seq<char>,
    pub receiver: Seq<char>,
    pub amount: int,
    pub timestamp: nat,
    pub signature: Option<Seq<char>>,
}

impl View for Transaction {
    type V = TransactionView;

    open spec fn view(&self) -> TransactionView {
        TransactionView {
            sender: self.sender@,
            receiver: self.receiver@,
            amount: self.amount as int,
            timestamp: self.timestamp as nat,
            signature: match self.signature {
                Some(s) => Some(s@),
                None => None,
            },
        }
    }
}

/// The views of a sequence of transactions, in order.
pub open spec fn transaction_views(transactions: Seq<Transaction>) -> Seq<TransactionView> {
    Seq::new(transactions.len(), |i: int| transactions[i]@)
}

/// An unsigned transaction with the given contents.
pub open spec fn unsigned_transaction(
    sender: Seq<char>,
    receiver: Seq<char>,
    amount: int,
    timestamp: nat,
) -> TransactionView {
    TransactionView { sender, receiver, amount, timestamp, signature: None }
}

/// The line of text that stands for a transaction wherever it is hashed or
/// shown.
pub open spec fn transaction_text(t: TransactionView) -> Seq<char> {
    "From: "@ + t.sender + " To: "@ + t.receiver + " Amount: "@ + int_text(t.amount) + " Time: "@
        + nat_text(t.timestamp) + " Signed: "@ + bool_text(t.signature is Some)
}

/// The payload that a transaction's own digest covers: sender, receiver,
/// amount and timestamp, written one after the other.
pub open spec fn transaction_payload(t: TransactionView) -> Seq<char> {
    t.sender + t.receiver + int_text(t.amount) + nat_text(t.timestamp)
}

/// The digest of a transaction: its payload hashed under its timestamp and
/// the all-zero previous digest.
pub open spec fn transaction_digest(t: TransactionView) -> Seq<u8> {
    digest_of(nat_text(t.timestamp), zero_hash(), transaction_payload(t))
}

impl Clone for Transaction {
    fn clone(&self) -> (copy: Self)
        ensures
            copy == *self,
    {
        Transaction {
            sender: self.sender.clone(),
            receiver: self.receiver.clone(),
            amount: self.amount,
            timestamp: self.timestamp,
            signature: match &self.signature {
                Some(s) => Some(s.clone()),
                None => None,
            },
        }
    }
}

impl Transaction {
    /// An unsigned transaction made now, by the system clock.
    pub fn new(sender: String, receiver: String, amount: i64) -> (transaction: Self)
        ensures
            transaction@ == unsigned_transaction(
                sender@,
                receiver@,
                amount as int,
                transaction@.timestamp,
            ),
    {
        Transaction::with_timestamp(sender, receiver, amount, unix_time())
    }

    /// An unsigned transaction made at `timestamp`, in seconds since the
    /// Unix epoch.
    pub fn with_timestamp(
        sender: String,
        receiver: String,
        amount: i64,
        timestamp: u64,
    ) -> (transaction: Self)
        ensures
            transaction@ == unsigned_transaction(
                sender@,
                receiver@,
                amount as int,
                timestamp as nat,
            ),
    {
        Transaction { sender, receiver, amount, timestamp, signature: None }
    }

    /// The transaction's digest.
    pub fn calculate_hash(&self) -> (hash: Hash256)
        ensures
            hash@ == transaction_digest(self@),
    {
        let mut data = self.sender.clone();
        data.append(self.receiver.as_str());
        push_i64(&mut data, self.amount);
        push_u64(&mut data, self.timestamp);
        assert(data@ =~= transaction_payload(self@));
        let timestamp = u64_to_string(self.timestamp);
        let zero: Hash256 = [0u8; 32];
        assert(zero@ =~= zero_hash());
        calculate_hash(timestamp.as_str(), &zero, data.as_str())
    }

    /// Attaches a signature, replacing any earlier one.
    pub fn sign(&mut self, signature: String)
        ensures
            final(self)@ == (TransactionView { signature: Some(signature@), ..old(self)@ }),
    {
        self.signature = Some(signature);
    }

    /// Whether a signature is attached.
    pub fn is_signed(&self) -> (signed: bool)
        ensures
            signed == (self@.signature is Some),
    {
        self.signature.is_some()
    }

    /// The transaction as a line of text.
    pub fn to_string(&self) -> (text: String)
        ensures
            text@ == transaction_text(self@),
    {
        let mut text = String::from_str("From: ");
        text.append(self.sender.as_str());
        text.append(" To: ");
        text.append(self.receiver.as_str());
        text.append(" Amount: ");
        push_i64(&mut text, self.amount);
        text.append(" Time: ");
        push_u64(&mut text, self.timestamp);
        text.append(" Signed: ");
        push_bool(&mut text, self.is_signed());
        assert(text@ =~= transaction_text(self@));
        text
    }
}

} // verus!
