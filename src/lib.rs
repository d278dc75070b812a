//! A verified core for an Ethereum chain indexer: the data model of blocks,
//! transactions and receipts, transfer extraction against a watchlist, the
//! round-robin endpoint pool, the retry back-off policy, the persistence
//! semantics, and the block-synchronisation state machine.

pub mod block;
pub mod bytes;
pub mod chain;
pub mod config;
pub mod convert;
pub mod error;
pub mod extract;
pub mod filter;
pub mod gas;
pub mod hex;
pub mod pool;
pub mod repository;
pub mod retry;
pub mod store;
pub mod supervisor;
pub mod sync;
pub mod transfer;
pub mod uint;
