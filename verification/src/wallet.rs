//! Wallets, the transactions they sign and the pool of pending transactions.

pub mod keys;
pub mod transaction;
pub mod transaction_pool;
pub mod wallet;
