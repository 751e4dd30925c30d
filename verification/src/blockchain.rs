//! Blocks and the chain they form.

pub mod block;
pub mod blockchain;
