//! The decisions of the gossip protocol: which topic a line goes out on, what
//! an event asks of the node, and what a received message or a mining
//! request does to the chain and the pool. Sending and receiving bytes is
//! left to the caller.

use crate::blockchain::block::{all_tried_in_vain, block_views, tried_below, Block, BlockView};
use crate::blockchain::blockchain::{chosen, Blockchain};
use crate::utils::config::{INITIAL_BALANCE, MINING_REWARD};
use crate::wallet::transaction::{
    is_random_uuid, signed_by, transaction_views, OutputView, Transaction, TransactionView,
};
use crate::wallet::transaction_pool::{admissible, stored, TransactionPool};
use crate::wallet::wallet::Wallet;
use vstd::prelude::*;
use vstd::string::StringSliceAdditionalSpecFns;

verus! {

/// The three topics of the protocol.
#[derive(Clone, Copy, Debug, PartialEq, Eq, Structural)]
pub enum Topic {
    /// Carries a whole chain.
    Blockchain,
    /// Carries one pending transaction.
    TransactionPool,
    /// Asks to empty the pool; the payload does not matter.
    TransactionPoolClear,
}

/// A message from a peer, decoded.
pub enum Message {
    ChainUpdate(Vec<Block>),
    TransactionSubmit(Transaction),
    PoolClear,
}

/// What the transport reports to the node.
pub enum Event {
    /// A peer has become reachable.
    PeerReachable,
    /// A peer has acknowledged the subscription to a topic.
    Subscribed(Topic),
    /// Anything else.
    Other,
}

/// What the node does in answer to an event.
#[derive(Clone, Copy, Debug, PartialEq, Eq, Structural)]
pub enum Action {
    /// Publish the local chain on the topic `Blockchain`.
    PublishChain,
    /// Do nothing.
    Idle,
}

/// What becomes of a line `<topic>: <message>` that is queued for sending.
pub enum Outgoing {
    /// Publish the message on the topic.
    Publish(Topic, Vec<u8>),
    /// The line names no topic of the protocol.
    UnknownTopic,
    /// The line holds no colon followed by a space.
    InvalidFormat,
}

/// The name of a topic on the wire.
pub open spec fn topic_name(topic: Topic) -> Seq<char> {
    match topic {
        Topic::Blockchain => "blockchain"@,
        Topic::TransactionPool => "transaction_pool"@,
        Topic::TransactionPoolClear => "transaction_pool_clear"@,
    }
}

/// The topic with the given name, if the protocol has one. Where two topics
/// had one name, the first in the order of declaration would win.
pub open spec fn topic_named(name: Seq<char>) -> Option<Topic> {
    if name == topic_name(Topic::Blockchain) {
        Some(Topic::Blockchain)
    } else if name == topic_name(Topic::TransactionPool) {
        Some(Topic::TransactionPool)
    } else if name == topic_name(Topic::TransactionPoolClear) {
        Some(Topic::TransactionPoolClear)
    } else {
        None
    }
}

/// The topic whose name has the given UTF-8 bytes.
pub open spec fn topic_spelled(name: Seq<u8>) -> Option<Topic> {
    if name == "blockchain".spec_bytes() {
        Some(Topic::Blockchain)
    } else if name == "transaction_pool".spec_bytes() {
        Some(Topic::TransactionPool)
    } else if name == "transaction_pool_clear".spec_bytes() {
        Some(Topic::TransactionPoolClear)
    } else {
        None
    }
}

/// Whether a colon and a space stand at `i` and `i + 1`.
pub open spec fn separator_at(line: Seq<u8>, i: int) -> bool {
    &&& 0 <= i
    &&& i + 1 < line.len()
    &&& line[i] == 58
    &&& line[i + 1] == 32
}

/// The position, from `start` on, of the first colon that a space follows.
pub open spec fn separator_from(line: Seq<u8>, start: int) -> Option<int>
    decreases line.len() - start,
{
    if start < 0 || start + 1 >= line.len() {
        None
    } else if separator_at(line, start) {
        Some(start)
    } else {
        separator_from(line, start + 1)
    }
}

/// What the action for an event is: a reachable peer and an acknowledged
/// subscription to the chain topic both make the node publish its chain.
pub open spec fn action_for(event: Event) -> Action {
    match event {
        Event::PeerReachable => Action::PublishChain,
        Event::Subscribed(Topic::Blockchain) => Action::PublishChain,
        _ => Action::Idle,
    }
}

impl Topic {
    /// The name of the topic on the wire.
    pub fn name(&self) -> (name: &'static str)
        ensures
            name@ == topic_name(*self),
    {
        match self {
            Topic::Blockchain => "blockchain",
            Topic::TransactionPool => "transaction_pool",
            Topic::TransactionPoolClear => "transaction_pool_clear",
        }
    }

    /// The topic with the given name, if the protocol has one.
    pub fn from_name(name: &str) -> (topic: Option<Topic>)
        ensures
            topic == topic_named(name@),
    {
        let name = name.to_owned();
        if name == "blockchain".to_owned() {
            Some(Topic::Blockchain)
        } else if name == "transaction_pool".to_owned() {
            Some(Topic::TransactionPool)
        } else if name == "transaction_pool_clear".to_owned() {
            Some(Topic::TransactionPoolClear)
        } else {
            None
        }
    }
}

/// Whether the first `end` bytes of `line` are the bytes of `name`.
fn spells(line: &[u8], end: usize, name: &str) -> (same: bool)
    requires
        end <= line@.len(),
    ensures
        same == (line@.subrange(0, end as int) == name.spec_bytes()),
{
    let wanted = name.as_bytes();
    if wanted.len() != end {
        return false;
    }
    let mut i: usize = 0;
    while i < end
        invariant
            i <= end <= line@.len(),
            wanted@.len() == end,
            wanted@ == name.spec_bytes(),
            forall|k: int| 0 <= k < i ==> line@[k] == wanted@[k],
        decreases end - i,
    {
        if line[i] != wanted[i] {
            assert(line@.subrange(0, end as int)[i as int] != wanted@[i as int]);
            return false;
        }
        i += 1;
    }
    assert(line@.subrange(0, end as int) =~= wanted@);
    true
}

/// Splits a line at its first colon that a space follows. What stands
/// before is the name of the topic, what stands after the two is the
/// message, which may hold further colons.
pub fn process_input(line: &str) -> (outgoing: Outgoing)
    ensures
        match separator_from(line.spec_bytes(), 0) {
            None => outgoing is InvalidFormat,
            Some(at) => match topic_spelled(line.spec_bytes().subrange(0, at)) {
                Some(topic) => outgoing matches Outgoing::Publish(t, message) && t == topic
                    && message@ == line.spec_bytes().subrange(
                    at + 2,
                    line.spec_bytes().len() as int,
                ),
                None => outgoing is UnknownTopic,
            },
        },
{
    let bytes = line.as_bytes();
    let length = bytes.len();
    if length < 2 {
        return Outgoing::InvalidFormat;
    }
    let mut at: usize = 0;
    while at < length - 1 && !(bytes[at] == 58 && bytes[at + 1] == 32)
        invariant
            bytes@ == line.spec_bytes(),
            length == bytes@.len(),
            length >= 2,
            at <= length - 1,
            separator_from(bytes@, 0) == separator_from(bytes@, at as int),
        decreases length - at,
    {
        at += 1;
    }
    if at >= length - 1 {
        return Outgoing::InvalidFormat;
    }
    let topic = if spells(bytes, at, "blockchain") {
        Topic::Blockchain
    } else if spells(bytes, at, "transaction_pool") {
        Topic::TransactionPool
    } else if spells(bytes, at, "transaction_pool_clear") {
        Topic::TransactionPoolClear
    } else {
        return Outgoing::UnknownTopic;
    };
    let mut message: Vec<u8> = Vec::new();
    let mut i: usize = at + 2;
    while i < bytes.len()
        invariant
            at + 2 <= i <= bytes.len(),
            message@ == bytes@.subrange(at + 2, i as int),
        decreases bytes.len() - i,
    {
        message.push(bytes[i]);
        i += 1;
        assert(message@ =~= bytes@.subrange(at + 2, i as int));
    }
    Outgoing::Publish(topic, message)
}

/// What the node does in answer to an event of the transport.
pub fn on_event(event: &Event) -> (action: Action)
    ensures
        action == action_for(*event),
{
    match event {
        Event::PeerReachable => Action::PublishChain,
        Event::Subscribed(Topic::Blockchain) => Action::PublishChain,
        _ => Action::Idle,
    }
}

/// Applies a message from a peer. A chain is offered to the fork-choice
/// rule, a transaction is handed to the pool, and a clear request empties
/// the pool whatever it holds.
pub fn match_topic_message(
    blockchain: &mut Blockchain,
    transaction_pool: &mut TransactionPool,
    message: Message,
)
    ensures
        match message {
            Message::ChainUpdate(chain) => {
                &&& final(blockchain)@ == chosen(old(blockchain)@, block_views(chain@))
                &&& final(transaction_pool)@ == old(transaction_pool)@
            },
            Message::TransactionSubmit(transaction) => {
                &&& final(blockchain)@ == old(blockchain)@
                &&& final(transaction_pool)@ == stored(old(transaction_pool)@, transaction@)
            },
            Message::PoolClear => {
                &&& final(blockchain)@ == old(blockchain)@
                &&& final(transaction_pool)@.len() == 0
            },
        },
{
    match message {
        Message::ChainUpdate(chain) => {
            blockchain.replace_chain(chain);
        },
        Message::TransactionSubmit(transaction) => {
            transaction_pool.update_or_add_transaction(transaction);
        },
        Message::PoolClear => {
            transaction_pool.clear();
        },
    }
}

/// Whether a transaction is a reward for `miner`: one output of the mining
/// reward to the miner, a fresh random identity, and the input that a ledger
/// wallet leaves behind when it signs that output: its initial balance, its
/// own address and its signature. Where the input is present, the
/// transaction verifies.
pub open spec fn is_reward(transaction: TransactionView, miner: Seq<char>) -> bool {
    &&& transaction.outputs == seq![OutputView { amount: MINING_REWARD, address: miner }]
    &&& is_random_uuid(transaction.id.0)
    &&& exists|ledger: Wallet|
        ledger.balance() == INITIAL_BALANCE && ledger.owns_address() && #[trigger] signed_by(
            transaction.input,
            ledger,
            transaction.outputs,
        )
    &&& (transaction.input is Some ==> transaction.verifies())
}

/// Whether `data` is what a miner puts into a block: the admissible
/// transactions of the pool in their order, then one reward for the miner.
pub open spec fn assembled(
    data: Seq<TransactionView>,
    pool: Seq<TransactionView>,
    miner: Seq<char>,
) -> bool {
    &&& data.len() > 0
    &&& data.drop_last() == pool.filter(admissible())
    &&& is_reward(data.last(), miner)
}

/// Whether some block data that a miner assembles from `pool` was tried
/// with every nonce on top of `last`, each time in vain.
pub open spec fn assembled_in_vain(
    last: BlockView,
    pool: Seq<TransactionView>,
    miner: Seq<char>,
) -> bool {
    exists|data: Seq<TransactionView>| #[trigger]
        assembled(data, pool, miner) && all_tried_in_vain(last, data)
}

/// Mines the pending transactions: the admissible transactions of the pool
/// and a reward for the miner go into a new block on top of the chain, and
/// the pool is emptied altogether. The block is the first attempt, nonces
/// counted from zero, whose hash met its difficulty. Where every nonce was
/// tried in vain, chain and pool stay as they are; on top of a block of
/// difficulty zero that cannot happen. The caller publishes the chain and
/// the request to clear the pool.
pub fn mine(
    blockchain: &mut Blockchain,
    transaction_pool: &mut TransactionPool,
    wallet: &Wallet,
) -> (mined: Option<Block>)
    requires
        old(blockchain)@.len() > 0,
        old(blockchain)@.last().difficulty < u64::MAX,
    ensures
        match mined {
            Some(block) => {
                &&& final(blockchain)@ == old(blockchain)@.push(block@)
                &&& assembled(block@.data, old(transaction_pool)@, wallet.address())
                &&& block@.mined_on(old(blockchain)@.last(), block@.data)
                &&& tried_below(old(blockchain)@.last(), block@.data, block.nonce as int)
                &&& final(transaction_pool)@.len() == 0
            },
            None => {
                &&& final(blockchain)@ == old(blockchain)@
                &&& final(transaction_pool)@ == old(transaction_pool)@
                &&& assembled_in_vain(
                    old(blockchain)@.last(),
                    old(transaction_pool)@,
                    wallet.address(),
                )
            },
        },
        old(blockchain)@.last().difficulty == 0 ==> mined is Some && mined.unwrap().nonce == 0,
{
    let mut valid_transactions = transaction_pool.valid_transactions();
    let ghost valid = transaction_views(valid_transactions@);
    let ledger = Wallet::blockchain_wallet();
    let reward = Transaction::reward_transaction(wallet, &ledger);
    proof {
        assert(signed_by(reward@.input, ledger, reward@.outputs));
        assert(is_reward(reward@, wallet.address()));
    }
    valid_transactions.push(reward);
    let ghost data = transaction_views(valid_transactions@);
    proof {
        assert(data =~= valid.push(reward@));
        assert(data.drop_last() =~= valid);
        assert(assembled(data, old(transaction_pool)@, wallet.address()));
    }
    match blockchain.add_block(valid_transactions) {
        Some(block) => {
            transaction_pool.clear();
            Some(block)
        },
        None => None,
    }
}

} // verus!
