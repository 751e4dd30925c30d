//! What a client of the node sends and gets: the bodies of requests and
//! answers, without their encoding.

use crate::blockchain::blockchain::Blockchain;
use crate::wallet::wallet::{balance_after, chain_transactions, Wallet};
use vstd::prelude::*;

verus! {

/// A request to mine a block around a piece of text.
#[derive(Debug, PartialEq, Eq)]
pub struct BlockchainData {
    pub data: String,
}

/// A request to send `amount` to `recipient`.
#[derive(Debug, PartialEq, Eq)]
pub struct TransactionData {
    pub recipient: String,
    pub amount: u64,
}

/// The balance of the node's wallet.
#[derive(Debug, PartialEq, Eq)]
pub struct Balance {
    pub balance: u64,
}

/// The address of the node's wallet.
#[derive(Debug, PartialEq, Eq)]
pub struct PublicKey {
    pub public_key: String,
}

impl Balance {
    /// The balance of a wallet as the chain gives it.
    pub fn of(wallet: &Wallet, blockchain: &Blockchain) -> (answer: Balance)
        requires
            balance_after(chain_transactions(blockchain@), wallet.address()) <= u64::MAX,
        ensures
            answer.balance == balance_after(chain_transactions(blockchain@), wallet.address()),
    {
        Balance { balance: wallet.calculate_balance(blockchain) }
    }
}

impl PublicKey {
    /// The address of a wallet.
    pub fn of(wallet: &Wallet) -> (answer: PublicKey)
        ensures
            answer.public_key@ == wallet.address(),
    {
        PublicKey { public_key: wallet.public_key().clone() }
    }
}

} // verus!
