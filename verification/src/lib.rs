//! A single-node, hash-chained, append-only ledger.
//!
//! Submitted transactions gather in a pool. On every epoch the pool is
//! drained into a block, the block is linked to the latest stored block by
//! its commitment hash, and block and transactions are stored as one unit.
//!
//! - [`blockchain`]: transactions, the pool, blocks, and the node that seals
//!   and stores them.
//! - [`persistence`]: what is stored, the store, and what holds of every
//!   store.
//! - [`scheduler`]: the order of the steps of an epoch.
//! - [`system`]: pool and store over whole runs; what is never lost.
//! - [`digest`], [`decimal`], [`utils`]: hashing, numerals, nonce, identifier
//!   and clock.
//! - [`config`], [`error`]: settings and errors.
//!
//! The library keeps the ledger in memory and waits for nothing. Durable
//! storage, the timer, the lock around the pool and the network belong to the
//! program that uses it.

pub mod blockchain;
pub mod config;
pub mod decimal;
pub mod digest;
pub mod error;
pub mod persistence;
pub mod scheduler;
pub mod system;
pub mod utils;
