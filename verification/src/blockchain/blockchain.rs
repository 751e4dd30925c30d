//! The chain of blocks, its validity and the rule by which a longer chain
//! takes the place of a shorter one.

use crate::blockchain::block::{
    all_tried_in_vain, block_views, tried_below, Block, BlockView,
};
use crate::wallet::transaction::{transaction_views, Transaction};
use vstd::prelude::*;

verus! {

/// The blocks a node holds, the genesis block first.
#[derive(Debug)]
pub struct Blockchain {
    pub chain: Vec<Block>,
}

impl View for Blockchain {
    type V = Seq<BlockView>;

    open spec fn view(&self) -> Seq<BlockView> {
        block_views(self.chain@)
    }
}

/// Whether the block at `i` names the hash of the block before it and
/// carries the hash of its own fields.
pub open spec fn linked(chain: Seq<BlockView>, i: int) -> bool {
    &&& chain[i].last_hash == chain[i - 1].hash
    &&& chain[i].hash == chain[i].computed_hash()
}

/// Whether a chain starts with the genesis block and every later block is
/// linked to the one before it. That a block's hash meets its difficulty is
/// not asked.
pub open spec fn valid_chain(chain: Seq<BlockView>) -> bool {
    &&& chain.len() > 0
    &&& chain[0].is_genesis()
    &&& forall|i: int| 1 <= i < chain.len() ==> linked(chain, i)
}

/// The chain a node holds after it was offered `candidate`: the candidate
/// if it is longer than `current` and valid, else `current`.
pub open spec fn chosen(current: Seq<BlockView>, candidate: Seq<BlockView>) -> Seq<BlockView> {
    if candidate.len() > current.len() && valid_chain(candidate) {
        candidate
    } else {
        current
    }
}

impl Clone for Blockchain {
    fn clone(&self) -> (copy: Self)
        ensures
            copy@ == self@,
    {
        Blockchain { chain: clone_blocks(&self.chain) }
    }
}

/// Copies a list of blocks.
pub fn clone_blocks(blocks: &Vec<Block>) -> (copy: Vec<Block>)
    ensures
        block_views(copy@) == block_views(blocks@),
{
    let mut copy: Vec<Block> = Vec::new();
    let mut i: usize = 0;
    while i < blocks.len()
        invariant
            i <= blocks.len(),
            copy.len() == i,
            forall|k: int| 0 <= k < i ==> copy@[k]@ == blocks@[k]@,
        decreases blocks.len() - i,
    {
        copy.push(blocks[i].clone());
        i += 1;
    }
    assert(block_views(copy@) =~= block_views(blocks@));
    copy
}

impl Blockchain {
    /// A chain that holds the genesis block and nothing else.
    pub fn new() -> (blockchain: Blockchain)
        ensures
            blockchain@.len() == 1,
            blockchain@[0].is_genesis(),
            valid_chain(blockchain@),
    {
        let mut chain: Vec<Block> = Vec::new();
        chain.push(Block::genesis());
        Blockchain { chain }
    }

    /// Mines a block with the transactions `data` on top of the last block,
    /// appends it and returns a copy. The block is the first attempt, nonces
    /// counted from zero, whose hash met its difficulty. Where every nonce
    /// was tried in vain, the chain stays as it is; on top of a block of
    /// difficulty zero that cannot happen. A valid chain stays valid.
    pub fn add_block(&mut self, data: Vec<Transaction>) -> (added: Option<Block>)
        requires
            old(self)@.len() > 0,
            old(self)@.last().difficulty < u64::MAX,
        ensures
            match added {
                Some(block) => {
                    &&& final(self)@ == old(self)@.push(block@)
                    &&& block@.mined_on(old(self)@.last(), transaction_views(data@))
                    &&& tried_below(
                        old(self)@.last(),
                        transaction_views(data@),
                        block.nonce as int,
                    )
                },
                None => {
                    &&& final(self)@ == old(self)@
                    &&& all_tried_in_vain(old(self)@.last(), transaction_views(data@))
                },
            },
            old(self)@.last().difficulty == 0 ==> added is Some && added.unwrap().nonce == 0,
            valid_chain(old(self)@) ==> valid_chain(final(self)@),
    {
        let last_block = &self.chain[self.chain.len() - 1];
        match Block::mine_block(last_block, data) {
            Some(new_block) => {
                self.chain.push(new_block.clone());
                assert(self@ =~= old(self)@.push(new_block@));
                proof {
                    if valid_chain(old(self)@) {
                        assert forall|i: int| 1 <= i < self@.len() implies linked(self@, i) by {
                            if i < old(self)@.len() {
                                assert(linked(old(self)@, i));
                            }
                        }
                    }
                }
                Some(new_block)
            },
            None => None,
        }
    }

    /// Whether a chain starts with the genesis block and every later block
    /// names the hash of the block before it and carries the hash of its own
    /// fields. An empty chain is not valid.
    pub fn is_valid_chain(chain: &Vec<Block>) -> (valid: bool)
        ensures
            valid == valid_chain(block_views(chain@)),
    {
        if chain.len() == 0 {
            return false;
        }
        let genesis = Block::genesis();
        proof {
            if chain[0]@.is_genesis() {
                assert(chain[0]@.data =~= genesis@.data);
            }
        }
        if chain[0] != genesis {
            return false;
        }
        let mut i: usize = 1;
        while i < chain.len()
            invariant
                1 <= i <= chain.len(),
                forall|k: int| 1 <= k < i ==> linked(block_views(chain@), k),
            decreases chain.len() - i,
        {
            let block = &chain[i];
            let last_block = &chain[i - 1];
            if block.last_hash != last_block.hash || block.hash != Block::block_hash(block) {
                assert(!linked(block_views(chain@), i as int));
                return false;
            }
            i += 1;
        }
        true
    }

    /// Takes over `new_chain` if it is longer than the chain held and valid;
    /// otherwise nothing changes. Length alone decides between valid chains.
    pub fn replace_chain(&mut self, new_chain: Vec<Block>)
        ensures
            final(self)@ == chosen(old(self)@, block_views(new_chain@)),
    {
        if new_chain.len() <= self.chain.len() {
            return ;
        } else if !Blockchain::is_valid_chain(&new_chain) {
            return ;
        }
        self.chain = new_chain;
    }
}

} // verus!
