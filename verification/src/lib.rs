//! Ledger core of a peer-to-peer proof-of-work chain: hash-linked blocks,
//! signed multi-output transactions, a pending pool and the fork-choice rule.

pub mod blockchain;
pub mod sync;
pub mod types;
pub mod utils;
pub mod wallet;
