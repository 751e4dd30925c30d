//! Plain values that cross the boundary of the node.

pub mod dto;
