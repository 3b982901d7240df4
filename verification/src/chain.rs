//! The chain access port: the four query operations the indexer needs from a
//! chain node.
//!
//! The port is a capability interface. A production caller implements it
//! with a node client; tests implement it with canned data. Every call is
//! synchronous and may fail; a failure carries the node's own message. The
//! core assumes nothing about what the port returns: every answer is decoded
//! and checked by verified code.

use vstd::prelude::*;

verus! {

/// The chain node's query operations.
pub trait ChainAccess {
    /// The node's current block count, as the node prints it.
    fn block_count(&mut self) -> Result<String, String>;

    /// The hash of the block at `height`, as a hex string.
    fn block_hash(&mut self, height: u32) -> Result<String, String>;

    /// The raw hex of the block with the given hash.
    fn block(&mut self, block_hash: &str) -> Result<String, String>;

    /// The raw hex of the transaction with the given id.
    fn transaction(&mut self, txid: &str) -> Result<String, String>;
}

/// Query the node's current block count.
pub fn get_block_count<C: ChainAccess>(chain: &mut C) -> Result<String, String> {
    chain.block_count()
}

/// Query the hash of the block at `height`.
pub fn get_block_hash<C: ChainAccess>(chain: &mut C, height: u32) -> Result<String, String> {
    chain.block_hash(height)
}

/// Query the raw hex of the block with the given hash.
pub fn get_block<C: ChainAccess>(chain: &mut C, block_hash: &str) -> Result<String, String> {
    chain.block(block_hash)
}

/// Query the raw hex of the transaction with the given id.
pub fn get_transaction<C: ChainAccess>(chain: &mut C, txid: &str) -> Result<String, String> {
    chain.transaction(txid)
}

} // verus!
