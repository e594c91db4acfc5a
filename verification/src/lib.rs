//! A blocklist store for a DNS authority: a matcher over domain names that
//! answers listed names with a sinkhole record, and the chain of stores in
//! which it is consulted before the stores that reach out to the network.

pub mod authority;
pub mod chain;
pub mod config;
pub mod entry;
pub mod name;
pub mod record;
pub mod text;
pub mod tree;
