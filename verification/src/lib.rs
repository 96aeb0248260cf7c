//! A minimal single-node ledger: transactions, blocks linked by hash,
//! proof-of-work and the text protocol a node speaks with wallets, miners
//! and peers. Every function carries a contract that Verus proves.

pub mod balance;
pub mod block;
pub mod blockchain;
pub mod clock;
pub mod hash;
pub mod mining;
pub mod network;
pub mod peers;
pub mod protocol;
pub mod text;
pub mod transaction;
