//! A Silent-Payment (BIP352) eligibility indexer for a Bitcoin-like chain.
//!
//! The crate walks blocks in height order, finds the transactions a
//! Silent-Payment scanner must consider, derives a per-transaction tweak
//! public key for them, and persists the results for later lookup by block
//! hash or height.

pub mod types;
pub mod script;
pub mod codec;
pub mod crypto;
pub mod chain;
pub mod process;
pub mod store;
pub mod service;
pub mod index;
