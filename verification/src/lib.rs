//! A proof-of-work ledger of unspent transaction outputs.
//!
//! The crate holds the consensus engine of a small cryptocurrency: the records
//! (outputs, transactions, blocks), their canonical text and digests, the rules by
//! which transactions and blocks are admitted, mining, and the replay that judges
//! a chain received from a peer. Every function carries a contract over the
//! mathematical views of the records.

pub mod block;
pub mod blockchain;
pub mod command;
pub mod encoding;
pub mod laws;
pub mod ledger;
pub mod mining;
pub mod node;
pub mod reconcile;
pub mod transaction;
pub mod transfer;
pub mod utxo;
pub mod wallets;
