//! Configuration constants of the ledger.

use vstd::prelude::*;

verus! {

/// Leading-zero threshold of the genesis block.
pub const DIFFICULTY: u64 = 2;

/// Target number of seconds between two blocks.
pub const MINE_RATE: u64 = 3;

/// Balance every wallet starts with.
pub const INITIAL_BALANCE: u64 = 1000;

/// Amount minted to the miner of a block.
pub const MINING_REWARD: u64 = 50;

} // verus!
