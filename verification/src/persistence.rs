//! What is stored of the chain, and the store itself.

pub mod ledger;
pub mod models;
pub mod port;
