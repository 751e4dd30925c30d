//! A block of the ledger: how it is hashed, mined and compared.

use crate::utils::config::{DIFFICULTY, MINE_RATE};
use crate::utils::json::{
    decimal_text, json_string, leading, leading_chars, write_number, write_string,
};
use crate::utils::time::Timestamp;
use crate::utils::utils::{canonical_hash, crypto_hash};
use crate::wallet::transaction::{
    clone_transactions, same_transactions, transaction_views, transactions_json,
    transactions_to_json, Transaction, TransactionView,
};
use vstd::prelude::*;
use vstd::std_specs::cmp::PartialEqSpecImpl;

verus! {

/// An entry of the ledger. A mined block carries the canonical hash of its
/// other fields, and that hash begins with `difficulty` zeros.
#[derive(Debug)]
pub struct Block {
    pub timestamp: Timestamp,
    pub last_hash: String,
    pub hash: String,
    pub data: Vec<Transaction>,
    pub nonce: u64,
    pub difficulty: u64,
}

/// A `Block` as plain values.
pub struct BlockView {
    pub timestamp: Timestamp,
    pub last_hash: Seq<char>,
    pub hash: Seq<char>,
    pub data: Seq<TransactionView>,
    pub nonce: u64,
    pub difficulty: u64,
}

impl View for Block {
    type V = BlockView;

    open spec fn view(&self) -> BlockView {
        BlockView {
            timestamp: self.timestamp,
            last_hash: self.last_hash@,
            hash: self.hash@,
            data: transaction_views(self.data@),
            nonce: self.nonce,
            difficulty: self.difficulty,
        }
    }
}

/// The blocks of a vector as plain values.
pub open spec fn block_views(blocks: Seq<Block>) -> Seq<BlockView> {
    blocks.map_values(|b: Block| b@)
}

/// Whether a hash begins with `count` characters `0`.
pub open spec fn has_leading_zeros(hash: Seq<char>, count: nat) -> bool {
    &&& count <= hash.len()
    &&& forall|i: int| 0 <= i < count ==> hash[i] == '0'
}

/// The difficulty for a block stamped `timestamp` that follows `last`. At
/// difficulty one or below it is one. Above, it is one more than the last
/// block's if fewer than `MINE_RATE` seconds have passed since then, and one
/// less otherwise.
pub open spec fn adjusted_difficulty(last: BlockView, timestamp: Timestamp) -> int {
    if last.difficulty <= 1 {
        1
    } else if timestamp.seconds() - last.timestamp.seconds() < MINE_RATE {
        last.difficulty + 1
    } else {
        last.difficulty - 1
    }
}

/// The block that one mining attempt on top of `last` puts to the test. The
/// first attempt, with nonce zero, takes over the last block's difficulty;
/// later attempts adjust it to their time stamp.
pub open spec fn candidate(
    last: BlockView,
    data: Seq<TransactionView>,
    nonce: u64,
    timestamp: Timestamp,
) -> BlockView {
    let difficulty = if nonce == 0 {
        last.difficulty
    } else {
        adjusted_difficulty(last, timestamp) as u64
    };
    let unsealed = BlockView {
        timestamp,
        last_hash: last.hash,
        hash: Seq::empty(),
        data,
        nonce,
        difficulty,
    };
    BlockView { hash: unsealed.computed_hash(), ..unsealed }
}

/// Whether an attempt with `nonce` on top of `last` was made, at some time,
/// and its hash did not meet its difficulty.
pub open spec fn tried_in_vain(last: BlockView, data: Seq<TransactionView>, nonce: u64) -> bool {
    exists|timestamp: Timestamp| !(#[trigger] candidate(
        last,
        data,
        nonce,
        timestamp,
    )).meets_difficulty()
}

/// Whether every nonce below `bound` was tried in vain.
pub open spec fn tried_below(last: BlockView, data: Seq<TransactionView>, bound: int) -> bool {
    forall|nonce: u64| nonce < bound ==> #[trigger] tried_in_vain(last, data, nonce)
}

/// Whether every nonce there is was tried in vain.
pub open spec fn all_tried_in_vain(last: BlockView, data: Seq<TransactionView>) -> bool {
    forall|nonce: u64| #[trigger] tried_in_vain(last, data, nonce)
}

impl BlockView {
    /// The serialized fields that the hash of a block covers.
    pub open spec fn hashed_fields(self) -> Seq<Seq<char>> {
        seq![
            self.timestamp.json_text(),
            json_string(self.last_hash),
            transactions_json(self.data),
            decimal_text(self.nonce as nat),
            decimal_text(self.difficulty as nat),
        ]
    }

    /// The canonical hash of the stored fields other than `hash`.
    pub open spec fn computed_hash(self) -> Seq<char> {
        canonical_hash(self.hashed_fields())
    }

    /// Whether the stored hash begins with as many zeros as the stored
    /// difficulty asks for.
    pub open spec fn meets_difficulty(self) -> bool {
        has_leading_zeros(self.hash, self.difficulty as nat)
    }

    /// Whether two blocks agree in everything but the time stamp.
    pub open spec fn same_entry(self, other: BlockView) -> bool {
        &&& self.last_hash == other.last_hash
        &&& self.hash == other.hash
        &&& self.data == other.data
        &&& self.nonce == other.nonce
        &&& self.difficulty == other.difficulty
    }

    /// Whether the block has the fixed values of the genesis block. The time
    /// stamp of the genesis block is not fixed.
    pub open spec fn is_genesis(self) -> bool {
        &&& self.last_hash == "genesis_last_hash"@
        &&& self.hash == "genesis_hash"@
        &&& self.data.len() == 0
        &&& self.nonce == 0
        &&& self.difficulty == DIFFICULTY
    }

    /// A block in words: the time stamp, the first ten characters of the
    /// two hashes, the transactions as JSON, the nonce and the difficulty.
    pub open spec fn text(self) -> Seq<char> {
        "Block - \n    Timestamp: "@ + self.timestamp.json_text() + ", \n    Last Hash: "@
            + leading_chars(self.last_hash, 10) + ", \n    Hash: "@ + leading_chars(self.hash, 10)
            + ", \n    Data: "@ + transactions_json(self.data) + ", \n    Nonce: "@ + decimal_text(
            self.nonce as nat,
        ) + ", \n    Difficulty: "@ + decimal_text(self.difficulty as nat)
    }

    /// Whether the block is the outcome of a successful mining attempt on
    /// top of `last` with the transactions `data`.
    pub open spec fn mined_on(self, last: BlockView, data: Seq<TransactionView>) -> bool {
        &&& self == candidate(last, data, self.nonce, self.timestamp)
        &&& self.meets_difficulty()
    }
}

impl Clone for Block {
    fn clone(&self) -> (copy: Self)
        ensures
            copy@ == self@,
    {
        Block {
            timestamp: self.timestamp,
            last_hash: self.last_hash.clone(),
            hash: self.hash.clone(),
            data: clone_transactions(&self.data),
            nonce: self.nonce,
            difficulty: self.difficulty,
        }
    }
}

impl PartialEq for Block {
    /// Blocks are equal when they agree in everything but the time stamp.
    fn eq(&self, other: &Self) -> (same: bool) {
        self.last_hash == other.last_hash && self.hash == other.hash && same_transactions(
            &self.data,
            &other.data,
        ) && self.nonce == other.nonce && self.difficulty == other.difficulty
    }
}

impl PartialEqSpecImpl for Block {
    open spec fn obeys_eq_spec() -> bool {
        true
    }

    open spec fn eq_spec(&self, other: &Self) -> bool {
        self@.same_entry(other@)
    }
}

/// Whether a hash begins with `difficulty` characters `0`.
pub fn meets_difficulty(hash: &str, difficulty: u64) -> (ok: bool)
    ensures
        ok == has_leading_zeros(hash@, difficulty as nat),
{
    let length = hash.unicode_len();
    if difficulty > length as u64 {
        return false;
    }
    let mut i: usize = 0;
    while i < difficulty as usize
        invariant
            i <= difficulty <= length,
            length == hash@.len(),
            forall|k: int| 0 <= k < i ==> hash@[k] == '0',
        decreases difficulty - i,
    {
        if hash.get_char(i) != '0' {
            return false;
        }
        i += 1;
    }
    true
}

/// The canonical hash of the five fields that a block's hash covers.
fn hash_fields(
    timestamp: Timestamp,
    last_hash: &str,
    data: &Vec<Transaction>,
    nonce: u64,
    difficulty: u64,
) -> (hash: String)
    ensures
        hash@ == (BlockView {
            timestamp,
            last_hash: last_hash@,
            hash: Seq::empty(),
            data: transaction_views(data@),
            nonce,
            difficulty,
        }).computed_hash(),
{
    let mut fields: Vec<String> = Vec::new();
    fields.push(timestamp.to_json());
    fields.push(write_string(last_hash));
    fields.push(transactions_to_json(data));
    fields.push(write_number(nonce));
    fields.push(write_number(difficulty));
    assert(fields@.map_values(|s: String| s@) =~= (BlockView {
        timestamp,
        last_hash: last_hash@,
        hash: Seq::empty(),
        data: transaction_views(data@),
        nonce,
        difficulty,
    }).hashed_fields());
    crypto_hash(&fields)
}

impl Block {
    /// A block with the given fields, taken as they are.
    pub fn new(
        timestamp: Timestamp,
        last_hash: String,
        hash: String,
        data: Vec<Transaction>,
        nonce: u64,
        difficulty: u64,
    ) -> (block: Block)
        ensures
            block.timestamp == timestamp,
            block.last_hash == last_hash,
            block.hash == hash,
            block.data == data,
            block.nonce == nonce,
            block.difficulty == difficulty,
    {
        Block { timestamp, last_hash, hash, data, nonce, difficulty }
    }

    /// The first block of every chain: fixed hashes, no transactions, nonce
    /// zero and the initial difficulty, stamped with the current time.
    pub fn genesis() -> (block: Block)
        ensures
            block@.is_genesis(),
    {
        Block {
            timestamp: Timestamp::now(),
            last_hash: "genesis_last_hash".to_owned(),
            hash: "genesis_hash".to_owned(),
            data: Vec::new(),
            nonce: 0,
            difficulty: DIFFICULTY,
        }
    }

    /// One mining attempt: the block with the given nonce and time stamp on
    /// top of `last_block`, if its hash begins with as many zeros as its
    /// difficulty asks for.
    pub fn attempt(
        last_block: &Block,
        data: &Vec<Transaction>,
        nonce: u64,
        timestamp: Timestamp,
    ) -> (sealed: Option<Block>)
        requires
            last_block.difficulty < u64::MAX,
        ensures
            match sealed {
                Some(block) => block@ == candidate(
                    last_block@,
                    transaction_views(data@),
                    nonce,
                    timestamp,
                ) && block@.meets_difficulty(),
                None => !candidate(
                    last_block@,
                    transaction_views(data@),
                    nonce,
                    timestamp,
                ).meets_difficulty(),
            },
    {
        let difficulty = if nonce == 0 {
            last_block.difficulty
        } else {
            Block::adjust_difficulty(last_block, timestamp)
        };
        let hash = hash_fields(timestamp, last_block.hash.as_str(), data, nonce, difficulty);
        if meets_difficulty(hash.as_str(), difficulty) {
            Some(
                Block {
                    timestamp,
                    last_hash: last_block.hash.clone(),
                    hash,
                    data: clone_transactions(data),
                    nonce,
                    difficulty,
                },
            )
        } else {
            None
        }
    }

    /// Mines a block with the transactions `data` on top of `last_block`.
    /// Attempts are made with the nonces from zero upwards, each stamped
    /// with the time at which it is made, until the hash of one begins with
    /// as many zeros as its difficulty asks for. The block that is returned
    /// is the first attempt that succeeded. `None` only when every nonce has
    /// been tried in vain; on top of a block of difficulty zero the first
    /// attempt succeeds whatever its hash is.
    pub fn mine_block(last_block: &Block, data: Vec<Transaction>) -> (mined: Option<Block>)
        requires
            last_block.difficulty < u64::MAX,
        ensures
            match mined {
                Some(block) => {
                    &&& block@.mined_on(last_block@, transaction_views(data@))
                    &&& tried_below(last_block@, transaction_views(data@), block.nonce as int)
                },
                None => all_tried_in_vain(last_block@, transaction_views(data@)),
            },
            last_block.difficulty == 0 ==> mined is Some && mined.unwrap().nonce == 0,
    {
        let ghost last = last_block@;
        let ghost views = transaction_views(data@);
        let mut nonce: u64 = 0;
        let first = Timestamp::now();
        let mut mined = Block::attempt(last_block, &data, nonce, first);
        proof {
            if mined is None {
                assert(!candidate(last, views, nonce, first).meets_difficulty());
            }
        }
        while mined.is_none() && nonce < u64::MAX
            invariant
                last_block.difficulty < u64::MAX,
                last == last_block@,
                views == transaction_views(data@),
                tried_below(last, views, nonce as int),
                match mined {
                    Some(block) => block@.mined_on(last, views) && block.nonce == nonce,
                    None => tried_in_vain(last, views, nonce),
                },
                last_block.difficulty == 0 ==> mined is Some && nonce == 0,
            decreases u64::MAX - nonce,
        {
            nonce += 1;
            let timestamp = Timestamp::now();
            mined = Block::attempt(last_block, &data, nonce, timestamp);
            proof {
                if mined is None {
                    assert(!candidate(last, views, nonce, timestamp).meets_difficulty());
                }
            }
        }
        mined
    }

    /// Recomputes the canonical hash of a block from its stored fields. The
    /// stored hash takes no part in it.
    pub fn block_hash(block: &Block) -> (hash: String)
        ensures
            hash@ == block@.computed_hash(),
    {
        hash_fields(
            block.timestamp,
            block.last_hash.as_str(),
            &block.data,
            block.nonce,
            block.difficulty,
        )
    }

    /// The block in words, for a log or a terminal.
    pub fn to_text(&self) -> (text: String)
        ensures
            text@ == self@.text(),
    {
        let mut text = String::from_str("Block - \n    Timestamp: ");
        text.append(self.timestamp.to_json().as_str());
        text.append(", \n    Last Hash: ");
        text.append(leading(self.last_hash.as_str(), 10).as_str());
        text.append(", \n    Hash: ");
        text.append(leading(self.hash.as_str(), 10).as_str());
        text.append(", \n    Data: ");
        text.append(transactions_to_json(&self.data).as_str());
        text.append(", \n    Nonce: ");
        text.append(write_number(self.nonce).as_str());
        text.append(", \n    Difficulty: ");
        text.append(write_number(self.difficulty).as_str());
        text
    }

    /// The difficulty for a block stamped `timestamp` that follows
    /// `last_block`.
    pub fn adjust_difficulty(last_block: &Block, timestamp: Timestamp) -> (difficulty: u64)
        requires
            last_block.difficulty < u64::MAX,
        ensures
            difficulty == adjusted_difficulty(last_block@, timestamp),
    {
        let difficulty = last_block.difficulty;
        if difficulty <= 1 {
            return 1;
        }
        let time_diff = timestamp.timestamp() as i128 - last_block.timestamp.timestamp() as i128;
        if time_diff < MINE_RATE as i128 {
            difficulty + 1
        } else {
            difficulty - 1
        }
    }
}

/// Two blocks with the same stored fields have the same recomputed hash,
/// whatever their stored hashes are.
pub proof fn lemma_block_hash_depends_on_fields(a: BlockView, b: BlockView)
    requires
        a.timestamp == b.timestamp,
        a.last_hash == b.last_hash,
        a.data == b.data,
        a.nonce == b.nonce,
        a.difficulty == b.difficulty,
    ensures
        a.computed_hash() == b.computed_hash(),
{
}

} // verus!
