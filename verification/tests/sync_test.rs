use blockchain_core::blockchain::block::Block;
use blockchain_core::blockchain::blockchain::Blockchain;
use blockchain_core::sync::{
    match_topic_message, mine, on_event, process_input, Action, Event, Message, Outgoing, Topic,
};
use blockchain_core::utils::config::MINING_REWARD;
use blockchain_core::utils::time::Timestamp;
use blockchain_core::wallet::transaction::Transaction;
use blockchain_core::wallet::transaction_pool::TransactionPool;
use blockchain_core::wallet::wallet::Wallet;

fn published(line: &str) -> Option<(Topic, String)> {
    match process_input(line) {
        Outgoing::Publish(topic, message) => Some((topic, String::from_utf8(message).unwrap())),
        _ => None,
    }
}

#[test]
fn test_topics_have_their_names() {
    assert_eq!(Topic::Blockchain.name(), "blockchain");
    assert_eq!(Topic::TransactionPool.name(), "transaction_pool");
    assert_eq!(Topic::TransactionPoolClear.name(), "transaction_pool_clear");
    assert_eq!(Topic::from_name("blockchain"), Some(Topic::Blockchain));
    assert_eq!(Topic::from_name("transaction_pool"), Some(Topic::TransactionPool));
    assert_eq!(Topic::from_name("transaction_pool_clear"), Some(Topic::TransactionPoolClear));
    assert_eq!(Topic::from_name("Blockchain"), None);
    assert_eq!(Topic::from_name("transaction_pool "), None);
    assert_eq!(Topic::from_name(""), None);
}

#[test]
fn test_process_input_splits_at_the_first_separator() {
    assert_eq!(
        published("blockchain: [{\"a\": 1}]"),
        Some((Topic::Blockchain, "[{\"a\": 1}]".to_string()))
    );
    assert_eq!(
        published("transaction_pool: {\"id\": \"x\"}"),
        Some((Topic::TransactionPool, "{\"id\": \"x\"}".to_string()))
    );
    assert_eq!(
        published("transaction_pool_clear: clear"),
        Some((Topic::TransactionPoolClear, "clear".to_string()))
    );
    assert_eq!(published("blockchain: "), Some((Topic::Blockchain, String::new())));
    assert_eq!(
        published("blockchain: \u{e9}: \u{20ac}"),
        Some((Topic::Blockchain, "\u{e9}: \u{20ac}".to_string()))
    );
}

#[test]
fn test_process_input_refuses_unknown_topics() {
    assert!(matches!(process_input("gossip: hello"), Outgoing::UnknownTopic));
    assert!(matches!(process_input(": hello"), Outgoing::UnknownTopic));
    assert!(matches!(process_input("blockchain : x"), Outgoing::UnknownTopic));
    assert!(matches!(process_input(" blockchain: x"), Outgoing::UnknownTopic));
    assert!(matches!(process_input("blockchain:x: y"), Outgoing::UnknownTopic));
    assert!(matches!(process_input("transaction_pool_: x"), Outgoing::UnknownTopic));
}

#[test]
fn test_process_input_refuses_lines_without_a_separator() {
    assert!(matches!(process_input(""), Outgoing::InvalidFormat));
    assert!(matches!(process_input(":"), Outgoing::InvalidFormat));
    assert!(matches!(process_input("blockchain"), Outgoing::InvalidFormat));
    assert!(matches!(process_input("blockchain:"), Outgoing::InvalidFormat));
    assert!(matches!(process_input("blockchain:x"), Outgoing::InvalidFormat));
    assert!(matches!(process_input("blockchain :x"), Outgoing::InvalidFormat));
}

#[test]
fn test_a_reachable_peer_or_a_chain_subscription_publishes_the_chain() {
    assert_eq!(on_event(&Event::PeerReachable), Action::PublishChain);
    assert_eq!(on_event(&Event::Subscribed(Topic::Blockchain)), Action::PublishChain);
    assert_eq!(on_event(&Event::Subscribed(Topic::TransactionPool)), Action::Idle);
    assert_eq!(on_event(&Event::Subscribed(Topic::TransactionPoolClear)), Action::Idle);
    assert_eq!(on_event(&Event::Other), Action::Idle);
}

#[test]
fn test_a_received_chain_goes_through_the_fork_choice() {
    let mut blockchain = Blockchain::new();
    let mut pool = TransactionPool::new();
    let kept = Transaction::new(&Wallet::new(), "recipient".to_string(), 50);
    pool.update_or_add_transaction(kept.clone());

    let genesis = Block::genesis();
    let mut next = Block::new(
        Timestamp::new(1_000, 0).unwrap(),
        genesis.hash.clone(),
        String::new(),
        vec![],
        0,
        1,
    );
    next.hash = Block::block_hash(&next);
    let longer = vec![genesis, next];

    match_topic_message(&mut blockchain, &mut pool, Message::ChainUpdate(longer.clone()));
    assert_eq!(blockchain.chain, longer);
    assert_eq!(pool.transactions, vec![kept.clone()]);

    match_topic_message(&mut blockchain, &mut pool, Message::ChainUpdate(vec![Block::genesis()]));
    assert_eq!(blockchain.chain, longer);

    let mut broken = longer.clone();
    broken.push(Block::genesis());
    match_topic_message(&mut blockchain, &mut pool, Message::ChainUpdate(broken));
    assert_eq!(blockchain.chain, longer);
    assert_eq!(pool.transactions, vec![kept]);
}

#[test]
fn test_a_received_transaction_goes_into_the_pool() {
    let mut blockchain = Blockchain::new();
    let mut pool = TransactionPool::new();
    let wallet = Wallet::new();
    let mut transaction = Transaction::new(&wallet, "recipient".to_string(), 50);
    match_topic_message(
        &mut blockchain,
        &mut pool,
        Message::TransactionSubmit(transaction.clone()),
    );
    assert_eq!(pool.transactions, vec![transaction.clone()]);
    transaction.update(&wallet, "other".to_string(), 5).unwrap();
    match_topic_message(
        &mut blockchain,
        &mut pool,
        Message::TransactionSubmit(transaction.clone()),
    );
    assert_eq!(pool.transactions, vec![transaction]);
    assert_eq!(blockchain.chain.len(), 1);
}

#[test]
fn test_a_clear_request_empties_the_pool() {
    let mut blockchain = Blockchain::new();
    let mut pool = TransactionPool::new();
    pool.update_or_add_transaction(Transaction::new(&Wallet::new(), "a".to_string(), 1));
    pool.update_or_add_transaction(Transaction::new(&Wallet::new(), "b".to_string(), 2));
    match_topic_message(&mut blockchain, &mut pool, Message::PoolClear);
    assert!(pool.transactions.is_empty());
    assert_eq!(blockchain.chain.len(), 1);
}

#[test]
fn test_mining_takes_the_valid_transactions_and_a_reward_and_clears_the_pool() {
    let mut blockchain = Blockchain::new();
    let mut pool = TransactionPool::new();
    let miner = Wallet::new();
    let good = Transaction::new(&Wallet::new(), "recipient".to_string(), 50);
    let mut corrupt = Transaction::new(&Wallet::new(), "recipient".to_string(), 50);
    corrupt.outputs[1].amount = 51;
    pool.update_or_add_transaction(corrupt);
    pool.update_or_add_transaction(good.clone());

    let block = mine(&mut blockchain, &mut pool, &miner).expect("no nonce left");

    assert!(pool.transactions.is_empty());
    assert_eq!(blockchain.chain.len(), 2);
    assert_eq!(blockchain.chain[1], block);
    assert!(Blockchain::is_valid_chain(&blockchain.chain));
    assert_eq!(block.data.len(), 2);
    assert_eq!(block.data[0], good);
    assert_eq!(block.data[1].outputs.len(), 1);
    assert_eq!(block.data[1].outputs[0].amount, MINING_REWARD);
    assert_eq!(block.data[1].outputs[0].address, miner.public_key().clone());
    assert!(block.data[1].verify());
    assert_eq!(block.data[1].input.as_ref().unwrap().amount, 1000);
    assert_ne!(block.data[1].input.as_ref().unwrap().address, miner.public_key().clone());
    assert!(block.hash.starts_with(&"0".repeat(block.difficulty as usize)));
    assert_eq!(miner.calculate_balance(&blockchain), 1000 + MINING_REWARD);
}

#[test]
fn test_mining_on_difficulty_zero_always_yields_a_block() {
    let mut last = Block::new(
        Timestamp::new(1_000, 0).unwrap(),
        "genesis_hash".to_string(),
        String::new(),
        vec![],
        0,
        0,
    );
    last.hash = Block::block_hash(&last);
    let mut blockchain = Blockchain { chain: vec![Block::genesis(), last] };
    let mut pool = TransactionPool::new();
    let miner = Wallet::new();
    pool.update_or_add_transaction(Transaction::new(&Wallet::new(), "a".to_string(), 1));
    let block = mine(&mut blockchain, &mut pool, &miner).expect("difficulty zero");
    assert_eq!(block.nonce, 0);
    assert_eq!(block.difficulty, 0);
    assert_eq!(block.data.len(), 2);
    assert!(pool.transactions.is_empty());
    assert_eq!(blockchain.chain.len(), 3);
}
