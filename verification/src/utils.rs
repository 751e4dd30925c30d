//! Shared building blocks: configuration constants and byte/text encodings.

pub mod base16;
pub mod config;
pub mod json;
pub mod order;
pub mod time;
pub mod utils;
