//! Plain-value models of decoded transactions and blocks.
//!
//! The consensus codec hands blocks and transactions to this crate as these
//! structures: every field the indexing logic reads is a plain value here.

use vstd::prelude::*;

verus! {

/// Mathematical view of one transaction input.
pub ghost struct TxInputV {
    pub prev_txid: Seq<char>,
    pub prev_vout: u32,
    pub script_sig: Seq<u8>,
    pub witness: Seq<Seq<u8>>,
}

/// Mathematical view of one transaction output.
pub ghost struct TxOutputV {
    pub script_pubkey: Seq<u8>,
}

/// Mathematical view of one transaction.
pub ghost struct TxV {
    pub txid: Seq<char>,
    pub inputs: Seq<TxInputV>,
    pub outputs: Seq<TxOutputV>,
}

/// Mathematical view of one decoded block.
pub ghost struct BlockV {
    pub hash: Seq<char>,
    pub txs: Seq<TxV>,
}

/// One transaction input: the outpoint it spends, its unlocking script and
/// its witness stack.
pub struct TxInput {
    /// Hex id of the previous transaction, in display order.
    pub prev_txid: String,
    /// Index of the spent output in the previous transaction.
    pub prev_vout: u32,
    /// The input's unlocking script, as raw bytes.
    pub script_sig: Vec<u8>,
    /// The input's witness stack, one byte string per element.
    pub witness: Vec<Vec<u8>>,
}

/// One transaction output: its locking script.
pub struct TxOutput {
    pub script_pubkey: Vec<u8>,
}

/// One decoded transaction.
pub struct Tx {
    /// Hex id of this transaction, in display order.
    pub txid: String,
    pub inputs: Vec<TxInput>,
    pub outputs: Vec<TxOutput>,
}

/// One decoded block: its hash and its transactions in block order.
pub struct BlockData {
    pub hash: String,
    pub txs: Vec<Tx>,
}

impl View for TxInput {
    type V = TxInputV;

    open spec fn view(&self) -> TxInputV {
        TxInputV {
            prev_txid: self.prev_txid@,
            prev_vout: self.prev_vout,
            script_sig: self.script_sig@,
            witness: self.witness.deep_view(),
        }
    }
}

impl View for TxOutput {
    type V = TxOutputV;

    open spec fn view(&self) -> TxOutputV {
        TxOutputV { script_pubkey: self.script_pubkey@ }
    }
}

impl View for Tx {
    type V = TxV;

    open spec fn view(&self) -> TxV {
        TxV {
            txid: self.txid@,
            inputs: self.inputs@.map_values(|i: TxInput| i@),
            outputs: self.outputs@.map_values(|o: TxOutput| o@),
        }
    }
}

impl View for BlockData {
    type V = BlockV;

    open spec fn view(&self) -> BlockV {
        BlockV { hash: self.hash@, txs: self.txs@.map_values(|t: Tx| t@) }
    }
}

/// The id a coinbase-style input carries: sixty-four zero digits.
pub open spec fn spec_null_txid() -> Seq<char> {
    "0000000000000000000000000000000000000000000000000000000000000000"@
}

/// A null (coinbase) outpoint: the all-zero id together with the largest
/// possible output index.
pub open spec fn spec_is_null_outpoint(input: TxInputV) -> bool {
    input.prev_txid == spec_null_txid() && input.prev_vout == u32::MAX
}

impl TxInput {
    /// Whether this input references the null outpoint, i.e. is a
    /// coinbase-style input that spends no previous output.
    pub fn is_null_outpoint(&self) -> (r: bool)
        ensures
            r == spec_is_null_outpoint(self@),
    {
        let zeros: String =
            "0000000000000000000000000000000000000000000000000000000000000000".to_owned();
        self.prev_vout == u32::MAX && self.prev_txid == zeros
    }
}

} // verus!
