use blockchain_core::blockchain::block::Block;
use blockchain_core::blockchain::blockchain::Blockchain;
use blockchain_core::types::dto::{Balance, PublicKey, TransactionData};
use blockchain_core::utils::config::INITIAL_BALANCE;
use blockchain_core::utils::time::Timestamp;
use blockchain_core::wallet::keys::KeyPair;
use blockchain_core::wallet::transaction::{
    Transaction, TransactionId, TransactionInput, TransactionOutput,
};
use blockchain_core::wallet::transaction_pool::TransactionPool;
use blockchain_core::wallet::wallet::Wallet;

#[test]
fn test_print_wallet() {
    let wallet = Wallet::new();
    let text = wallet.to_text();
    println!("{}", text);
    assert_eq!(
        text,
        format!("Wallet -\n  balance: {}\n  public_key: {}\n", wallet.balance(), wallet.public_key().clone())
    );
}

#[test]
fn test_doubles_the_send_amount_subtracted_from_the_wallet_balance() {
    let mut sender_wallet = Wallet::new();
    let mut tp = TransactionPool::new();
    let sender_amount = 50;
    let recipient = "recipient".to_string();
    let blockchain = Blockchain::new();
    let _transaction = sender_wallet
        .create_transaction(recipient.clone(), sender_amount, &mut tp, &blockchain)
        .unwrap();
    let transaction2 = sender_wallet
        .create_transaction(recipient.clone(), sender_amount, &mut tp, &blockchain)
        .unwrap();
    assert_eq!(transaction2.outputs[0].amount, sender_wallet.balance() - sender_amount * 2);
}

#[test]
fn clones_the_send_amount_output_for_the_recipient() {
    let mut sender_wallet = Wallet::new();
    let mut tp = TransactionPool::new();
    let sender_amount = 50;
    let recipient = "recipient".to_string();
    let blockchain = Blockchain::new();
    sender_wallet
        .create_transaction(recipient.clone(), sender_amount, &mut tp, &blockchain)
        .unwrap();
    let transaction2 = sender_wallet
        .create_transaction(recipient.clone(), sender_amount, &mut tp, &blockchain)
        .unwrap();
    assert_eq!(
        transaction2
            .outputs
            .iter()
            .filter(|output| output.address == recipient)
            .map(|output| output.amount)
            .collect::<Vec<u64>>(),
        vec![sender_amount, sender_amount]
    );
}

#[test]
fn test_sending_fifty_then_twenty_five_leaves_nine_hundred_twenty_five() {
    let mut sender = Wallet::new();
    let mut pool = TransactionPool::new();
    let blockchain = Blockchain::new();
    let first = sender
        .create_transaction("recipient".to_string(), 50, &mut pool, &blockchain)
        .unwrap();
    let second = sender
        .create_transaction("new_recipient".to_string(), 25, &mut pool, &blockchain)
        .unwrap();
    assert_eq!(sender.balance(), 1000);
    assert_eq!(second.id, first.id);
    assert_eq!(
        second.outputs,
        vec![
            TransactionOutput::new(925, sender.public_key().clone()),
            TransactionOutput::new(50, "recipient".to_string()),
            TransactionOutput::new(25, "new_recipient".to_string()),
        ]
    );
    assert_eq!(pool.transactions, vec![second.clone()]);
    assert!(second.verify());
    assert_eq!(second.input.as_ref().unwrap().amount, 1000);
}

#[test]
fn test_the_outstanding_output_is_the_balance_less_everything_sent() {
    let mut sender = Wallet::new();
    let mut pool = TransactionPool::new();
    let blockchain = Blockchain::new();
    let amounts = [1u64, 0, 300, 99, 600];
    let mut sent = 0;
    for (i, amount) in amounts.iter().enumerate() {
        let transaction = sender
            .create_transaction(format!("recipient {}", i), *amount, &mut pool, &blockchain)
            .unwrap();
        sent += amount;
        assert_eq!(transaction.outputs.len(), i + 2);
        assert_eq!(transaction.outputs[0].address, sender.public_key().clone());
        assert_eq!(transaction.outputs[0].amount, INITIAL_BALANCE - sent);
        assert_eq!(transaction.outputs[i + 1].amount, *amount);
        assert_eq!(pool.transactions.len(), 1);
    }
    assert_eq!(pool.transactions[0].outputs[0].amount, 0);
}

#[test]
fn test_create_transaction_refuses_an_amount_above_the_balance() {
    let mut sender = Wallet::new();
    let mut pool = TransactionPool::new();
    let blockchain = Blockchain::new();
    let result = sender.create_transaction("recipient".to_string(), 1001, &mut pool, &blockchain);
    assert_eq!(result, Err("Amount exceeds balance"));
    assert!(pool.transactions.is_empty());
    let mut sender = Wallet::from_parts(KeyPair::generate(), 5000);
    assert_eq!(sender.balance(), 5000);
    let result = sender.create_transaction("recipient".to_string(), 1001, &mut pool, &blockchain);
    assert_eq!(result, Err("Amount exceeds balance"));
    assert_eq!(sender.balance(), 1000);
}

#[test]
fn test_create_transaction_refuses_a_pending_transaction_without_own_output() {
    let mut sender = Wallet::new();
    let mut pool = TransactionPool::new();
    let pending = Transaction {
        id: TransactionId(5),
        input: Some(TransactionInput {
            timestamp: Timestamp::new(10, 0).unwrap(),
            amount: 10,
            address: sender.public_key().clone(),
            signature: String::new(),
        }),
        outputs: vec![TransactionOutput::new(10, "someone".to_string())],
    };
    pool.update_or_add_transaction(pending.clone());
    let result =
        sender.create_transaction("recipient".to_string(), 1, &mut pool, &Blockchain::new());
    assert_eq!(result, Err("Amount exceeds balance"));
    assert_eq!(pool.transactions, vec![pending]);
}

#[test]
fn test_new_wallet_has_the_initial_balance_and_a_key_address() {
    let wallet = Wallet::new();
    assert_eq!(wallet.balance(), INITIAL_BALANCE);
    assert_eq!(wallet.balance(), 1000);
    assert_eq!(wallet.public_key().clone(), hex::encode(wallet.keys().verifying_key()));
    assert_eq!(wallet.public_key().len(), 66);
    assert_ne!(wallet.public_key().clone(), Wallet::new().public_key().clone());
    let copy = wallet.clone();
    assert_eq!(copy.public_key().clone(), wallet.public_key().clone());
    assert_eq!(copy.balance(), wallet.balance());
    assert_eq!(copy.sign("text"), wallet.sign("text"));
}

#[test]
fn test_the_ledger_wallet_owns_its_address() {
    let ledger = Wallet::blockchain_wallet();
    assert_eq!(ledger.public_key().clone(), hex::encode(ledger.keys().verifying_key()));
    assert_eq!(ledger.balance(), INITIAL_BALANCE);
    let signature = ledger.sign("a reward").expect("signing gave up");
    assert!(Wallet::verify(ledger.public_key(), "a reward", &signature));
}

#[test]
fn test_key_pair_of_a_known_secret() {
    let mut secret = vec![0u8; 32];
    secret[31] = 1;
    let pair = KeyPair::from_secret(secret).expect("one is a secret scalar");
    assert_eq!(
        hex::encode(pair.verifying_key()),
        "0279be667ef9dcbbac55a06295ce870b07029bfcdb2dce28d959f2815b16f81798"
    );
    let copy = pair.clone();
    assert_eq!(copy.verifying_key(), pair.verifying_key());
    assert_eq!(copy.sign("message"), pair.sign("message"));
    assert!(KeyPair::from_secret(vec![0u8; 32]).is_none());
    assert!(KeyPair::from_secret(vec![0xffu8; 32]).is_none());
    assert!(KeyPair::from_secret(vec![1u8; 33]).is_none());
    assert!(KeyPair::from_secret(vec![1u8; 23]).is_none());
    assert!(KeyPair::from_secret(vec![]).is_none());
    let short = KeyPair::from_secret(vec![1u8]).is_none();
    assert!(short);
    let padded = KeyPair::from_secret([vec![0u8; 7], vec![1u8; 25]].concat()).unwrap();
    let unpadded = KeyPair::from_secret(vec![1u8; 25]).unwrap();
    assert_eq!(padded.verifying_key(), unpadded.verifying_key());
    assert_ne!(KeyPair::generate().verifying_key(), KeyPair::generate().verifying_key());
}

#[test]
fn test_signatures_verify_under_the_signer_only() {
    let mut secret = vec![0u8; 32];
    secret[31] = 1;
    let keys = KeyPair::from_secret(secret).unwrap();
    let public_key = hex::encode(keys.verifying_key());
    let wallet = Wallet::from_parts(keys, 1);
    assert_eq!(wallet.public_key(), &public_key);
    assert_eq!(wallet.balance(), 1);
    let signature = wallet.sign("some data").expect("signing gave up");
    assert_eq!(wallet.sign("some data"), Some(signature.clone()));
    assert_ne!(wallet.sign("other data"), Some(signature.clone()));
    assert!(hex::decode(&signature).is_ok());
    assert!(Wallet::verify(&public_key, "some data", &signature));
    assert!(Wallet::verify(&public_key.to_uppercase(), "some data", &signature.to_uppercase()));
    assert!(!Wallet::verify(&public_key, "some datum", &signature));
    assert!(!Wallet::verify(Wallet::new().public_key(), "some data", &signature));
    assert!(!Wallet::verify(&public_key, "some data", "3006020101020101"));
    assert!(!Wallet::verify(&public_key, "some data", &signature[1..]));
    assert!(!Wallet::verify(&public_key, "some data", "xyz"));
    assert!(!Wallet::verify("not an address", "some data", &signature));
    assert!(!Wallet::verify("", "some data", ""));
}

fn input(address: &str, secs: i64) -> Option<TransactionInput> {
    Some(TransactionInput {
        timestamp: Timestamp::new(secs, 0).unwrap(),
        amount: 0,
        address: address.to_string(),
        signature: String::new(),
    })
}

fn block(data: Vec<Transaction>) -> Block {
    Block::new(Timestamp::new(1, 0).unwrap(), "a".to_string(), "b".to_string(), data, 0, 1)
}

#[test]
fn test_balance_without_transactions_is_the_initial_balance() {
    let wallet = Wallet::new();
    assert_eq!(wallet.calculate_balance(&Blockchain::new()), 1000);
    assert_eq!(wallet.calculate_balance(&Blockchain { chain: vec![] }), 1000);
    let wallet = Wallet::from_parts(KeyPair::generate(), 5);
    assert_eq!(wallet.calculate_balance(&Blockchain::new()), 1000);
    assert_eq!(wallet.balance(), 5);
}

#[test]
fn test_balance_adds_what_others_sent() {
    let wallet = Wallet::new();
    let own = wallet.public_key().clone();
    let received = Transaction {
        id: TransactionId(1),
        input: input("other", 10),
        outputs: vec![
            TransactionOutput::new(900, "other".to_string()),
            TransactionOutput::new(100, own.clone()),
            TransactionOutput::new(5, own.clone()),
        ],
    };
    let unsigned = Transaction {
        id: TransactionId(2),
        input: None,
        outputs: vec![TransactionOutput::new(1000, own.clone())],
    };
    let at_epoch = Transaction {
        id: TransactionId(3),
        input: input("other", 0),
        outputs: vec![TransactionOutput::new(1000, own.clone())],
    };
    let chain = vec![block(vec![]), block(vec![received, unsigned]), block(vec![at_epoch])];
    assert_eq!(wallet.calculate_balance(&Blockchain { chain }), 1105);
}

#[test]
fn test_balance_resumes_from_the_last_transaction_the_wallet_signed() {
    let wallet = Wallet::new();
    let own = wallet.public_key().clone();
    let early_gift = Transaction {
        id: TransactionId(1),
        input: input("other", 10),
        outputs: vec![TransactionOutput::new(100, own.clone())],
    };
    let first_spend = Transaction {
        id: TransactionId(2),
        input: input(&own, 15),
        outputs: vec![
            TransactionOutput::new(1, own.clone()),
            TransactionOutput::new(2, "x".to_string()),
        ],
    };
    let last_spend = Transaction {
        id: TransactionId(3),
        input: input(&own, 20),
        outputs: vec![
            TransactionOutput::new(50, "x".to_string()),
            TransactionOutput::new(1050, own.clone()),
            TransactionOutput::new(3, own.clone()),
        ],
    };
    let same_second = Transaction {
        id: TransactionId(4),
        input: input("other", 20),
        outputs: vec![TransactionOutput::new(1000, own.clone())],
    };
    let later_gift = Transaction {
        id: TransactionId(5),
        input: input("other", 30),
        outputs: vec![
            TransactionOutput::new(7, own.clone()),
            TransactionOutput::new(8, "x".to_string()),
        ],
    };
    let chain = vec![
        block(vec![last_spend.clone(), early_gift.clone()]),
        block(vec![first_spend.clone()]),
        block(vec![later_gift.clone(), same_second.clone()]),
    ];
    assert_eq!(wallet.calculate_balance(&Blockchain { chain }), 1057);

    let rival = Transaction {
        id: TransactionId(6),
        input: input(&own, 20),
        outputs: vec![TransactionOutput::new(4, own.clone())],
    };
    let chain = vec![block(vec![last_spend, rival, later_gift])];
    assert_eq!(wallet.calculate_balance(&Blockchain { chain }), 11);

    let nothing_kept = Transaction {
        id: TransactionId(7),
        input: input(&own, 40),
        outputs: vec![TransactionOutput::new(4, "x".to_string())],
    };
    let chain = vec![block(vec![early_gift, nothing_kept])];
    assert_eq!(wallet.calculate_balance(&Blockchain { chain }), 0);
}

#[test]
fn test_create_transaction_renews_the_balance_from_the_chain() {
    let mut wallet = Wallet::new();
    let own = wallet.public_key().clone();
    let gift = Transaction {
        id: TransactionId(1),
        input: input("other", 10),
        outputs: vec![TransactionOutput::new(500, own.clone())],
    };
    let blockchain = Blockchain { chain: vec![block(vec![gift])] };
    let mut pool = TransactionPool::new();
    let transaction = wallet
        .create_transaction("recipient".to_string(), 1200, &mut pool, &blockchain)
        .unwrap();
    assert_eq!(wallet.balance(), 1500);
    assert_eq!(transaction.outputs[0].amount, 300);
    assert_eq!(transaction.input.as_ref().unwrap().amount, 1500);
    assert!(transaction.verify());
    assert!(transaction.is_balanced());
}

#[test]
fn test_answers_carry_the_address_and_the_balance() {
    let mut wallet = Wallet::new();
    assert_eq!(PublicKey::of(&wallet), PublicKey { public_key: wallet.public_key().clone() });
    assert_eq!(Balance::of(&wallet, &Blockchain::new()), Balance { balance: 1000 });
    let request = TransactionData { recipient: "recipient".to_string(), amount: 50 };
    let mut pool = TransactionPool::new();
    let transaction = wallet
        .create_transaction(request.recipient, request.amount, &mut pool, &Blockchain::new())
        .unwrap();
    assert_eq!(transaction.outputs[1], TransactionOutput::new(50, "recipient".to_string()));
}

#[test]
fn test_checked_balance_gives_up_beyond_sixty_four_bits() {
    let wallet = Wallet::new();
    let own = wallet.public_key().clone();
    let gift = |id: u128, amount: u64| Transaction {
        id: TransactionId(id),
        input: input("other", 10),
        outputs: vec![TransactionOutput::new(amount, own.clone())],
    };
    let most = u64::MAX - INITIAL_BALANCE;
    let fits = Blockchain { chain: vec![block(vec![gift(1, most)])] };
    assert_eq!(wallet.checked_balance(&fits), Some(u64::MAX));
    assert_eq!(wallet.calculate_balance(&fits), u64::MAX);
    let over = Blockchain { chain: vec![block(vec![gift(1, most), gift(2, 1)])] };
    assert_eq!(wallet.checked_balance(&over), None);
    let far_over = Blockchain {
        chain: vec![block(vec![gift(1, u64::MAX), gift(2, u64::MAX), gift(3, u64::MAX)])],
    };
    assert_eq!(wallet.checked_balance(&far_over), None);
    assert_eq!(wallet.checked_balance(&Blockchain::new()), Some(1000));
}

#[test]
fn test_the_pool_tells_whether_the_pending_transaction_covers_an_amount() {
    let sender = Wallet::new();
    let own = sender.public_key().clone();
    let mut pool = TransactionPool::new();
    assert!(pool.covers(&own, u64::MAX));
    pool.update_or_add_transaction(Transaction::new(&sender, "recipient".to_string(), 600));
    assert!(pool.covers(&own, 400));
    assert!(!pool.covers(&own, 401));
    assert!(pool.covers("someone else", 401));
    let mut foreign = Transaction::new(&Wallet::new(), "recipient".to_string(), 1);
    foreign.input.as_mut().unwrap().address = "named".to_string();
    pool.update_or_add_transaction(foreign);
    assert!(pool.covers("named", u64::MAX));
}

#[test]
fn test_a_generated_pair_signs_for_its_own_public_key() {
    for _ in 0..8 {
        let keys = KeyPair::generate();
        let public_key = hex::encode(keys.verifying_key());
        assert_eq!(public_key.len(), 66);
        assert!(public_key.starts_with("02") || public_key.starts_with("03"));
        let wallet = Wallet::from_parts(keys, 0);
        assert_eq!(wallet.public_key(), &public_key);
        let signature = wallet.sign("text").expect("signing gave up");
        assert!(Wallet::verify(&public_key, "text", &signature));
    }
}
