use blockchain_core::utils::time::Timestamp;
use blockchain_core::wallet::transaction::{
    Transaction, TransactionId, TransactionInput, TransactionOutput,
};
use blockchain_core::wallet::transaction_pool::TransactionPool;
use blockchain_core::wallet::wallet::Wallet;

#[test]
fn test_add_transaction_to_the_pool() {
    let mut transaction_pool = TransactionPool::new();
    let transaction = Transaction::new(&Wallet::new(), "recipient".to_string(), 50);
    transaction_pool.update_or_add_transaction(transaction.clone());
    assert_eq!(transaction_pool.transactions.len(), 1);
    assert_eq!(transaction_pool.transactions[0], transaction);
}

#[test]
fn test_update_transaction_in_the_pool() {
    let mut transaction_pool = TransactionPool::new();
    let wallet = Wallet::new();
    let mut transaction = Transaction::new(&wallet, "recipient".to_string(), 50);
    transaction_pool.update_or_add_transaction(transaction.clone());
    transaction
        .update(&wallet, "new_recipient".to_string(), 25)
        .expect("Failed to update transaction");
    transaction_pool.update_or_add_transaction(transaction.clone());
    assert_eq!(transaction_pool.transactions.len(), 1);
    assert_eq!(transaction_pool.transactions[0], transaction);
}

fn plain(id: u128, sender: &str, amount: u64) -> Transaction {
    Transaction {
        id: TransactionId(id),
        input: Some(TransactionInput {
            timestamp: Timestamp::new(10, 0).unwrap(),
            amount,
            address: sender.to_string(),
            signature: String::new(),
        }),
        outputs: vec![TransactionOutput::new(amount, sender.to_string())],
    }
}

#[test]
fn test_a_new_pool_is_empty() {
    let pool = TransactionPool::new();
    assert!(pool.transactions.is_empty());
    assert!(pool.valid_transactions().is_empty());
    assert_eq!(pool.existing_transaction("a"), None);
}

#[test]
fn test_handing_in_the_same_transaction_twice_changes_nothing() {
    let mut pool = TransactionPool::new();
    pool.update_or_add_transaction(plain(1, "a", 1));
    pool.update_or_add_transaction(plain(2, "b", 2));
    pool.update_or_add_transaction(plain(3, "c", 3));
    pool.update_or_add_transaction(plain(2, "b", 2));
    let once = pool.transactions.clone();
    assert_eq!(once.len(), 3);
    pool.update_or_add_transaction(plain(2, "b", 2));
    assert_eq!(pool.transactions, once);
    assert_eq!(pool.transactions, vec![plain(1, "a", 1), plain(2, "b", 2), plain(3, "c", 3)]);
}

#[test]
fn test_a_known_identity_is_replaced_in_place() {
    let mut pool = TransactionPool::new();
    pool.update_or_add_transaction(plain(1, "a", 1));
    pool.update_or_add_transaction(plain(2, "b", 2));
    pool.update_or_add_transaction(plain(3, "c", 3));
    pool.update_or_add_transaction(plain(2, "z", 9));
    assert_eq!(pool.transactions, vec![plain(1, "a", 1), plain(2, "z", 9), plain(3, "c", 3)]);
    pool.update_or_add_transaction(plain(4, "d", 4));
    assert_eq!(pool.transactions.len(), 4);
    assert_eq!(pool.transactions[3], plain(4, "d", 4));
}

#[test]
fn test_existing_transaction_finds_the_first_of_the_sender() {
    let mut pool = TransactionPool::new();
    let mut unsigned = plain(1, "a", 1);
    unsigned.input = None;
    pool.update_or_add_transaction(unsigned);
    pool.update_or_add_transaction(plain(2, "b", 2));
    pool.update_or_add_transaction(plain(3, "a", 3));
    pool.update_or_add_transaction(plain(4, "a", 4));
    assert_eq!(pool.existing_transaction("a"), Some(plain(3, "a", 3)));
    assert_eq!(pool.existing_transaction("b"), Some(plain(2, "b", 2)));
    assert_eq!(pool.existing_transaction("c"), None);
    assert_eq!(pool.existing_transaction(""), None);
    assert_eq!(pool.transactions.len(), 4);
}

#[test]
fn test_valid_transactions_keeps_the_balanced_and_signed_in_order() {
    let sender = Wallet::new();
    let other = Wallet::new();
    let good = Transaction::new(&sender, "recipient".to_string(), 50);
    let also_good = Transaction::new(&other, "recipient".to_string(), 1000);

    let mut unbalanced = Transaction::new(&sender, "recipient".to_string(), 50);
    unbalanced.input.as_mut().unwrap().amount = 999;

    let mut corrupt = Transaction::new(&sender, "recipient".to_string(), 50);
    corrupt.outputs[0].amount = 940;
    corrupt.outputs[1].amount = 60;

    let refused = Transaction::new(&sender, "recipient".to_string(), 5000);

    let mut pool = TransactionPool::new();
    pool.update_or_add_transaction(unbalanced);
    pool.update_or_add_transaction(good.clone());
    pool.update_or_add_transaction(corrupt);
    pool.update_or_add_transaction(refused);
    pool.update_or_add_transaction(also_good.clone());
    pool.update_or_add_transaction(plain(77, "a", 1));

    assert_eq!(pool.valid_transactions(), vec![good, also_good]);
    assert_eq!(pool.transactions.len(), 6);
}

#[test]
fn test_clear_empties_the_pool() {
    let mut pool = TransactionPool::new();
    pool.update_or_add_transaction(plain(1, "a", 1));
    pool.update_or_add_transaction(plain(2, "b", 2));
    pool.clear();
    assert!(pool.transactions.is_empty());
    pool.clear();
    assert!(pool.transactions.is_empty());
}
