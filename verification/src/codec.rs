//! The consensus codec boundary: raw hex in, plain-value structures out.
//!
//! Decoding is done by the consensus codec of the `bitcoin` crate; this
//! module converts what it returns into the plain-value types of
//! [`crate::types`]. A decoded block is carried as the codec's own opaque
//! value, read out transaction by transaction.

use vstd::prelude::*;
use bitcoin::block::Block as RawBlock;
use crate::types::{BlockData, BlockV, Tx, TxInput, TxOutput, TxV};

verus! {

/// Decoding failed: the hex did not encode the expected structure.
#[derive(Clone, Copy, PartialEq, Eq, Structural, Debug)]
pub struct DecodeError;

#[verifier::external_type_specification]
#[verifier::external_body]
pub struct ExBlock(RawBlock);

/// The transactions a decoded block holds, in block order.
pub uninterp spec fn block_txs(b: RawBlock) -> Seq<TxV>;

/// The hex id of a decoded block.
pub uninterp spec fn block_hash_of(b: RawBlock) -> Seq<char>;

/// What a hex string decodes to as a block, if anything: decoding depends on
/// the hex alone.
pub uninterp spec fn block_of_hex(hex: Seq<char>) -> Option<BlockV>;

/// What a hex string decodes to as a transaction, if anything: decoding
/// depends on the hex alone.
pub uninterp spec fn tx_of_hex(hex: Seq<char>) -> Option<TxV>;

/// Relies on bitcoin::consensus::encode::deserialize_hex::<Block>: the same
/// hex always decodes to the same block, and malformed hex returns an error
/// rather than panicking.
#[verifier::external_body]
pub(crate) fn decode_block_hex(hex: &str) -> (r: Result<RawBlock, DecodeError>)
    ensures
        match r {
            Ok(b) => block_of_hex(hex@) == Some(
                BlockV { hash: block_hash_of(b), txs: block_txs(b) },
            ),
            Err(_) => block_of_hex(hex@) is None,
        },
{
    match bitcoin::consensus::encode::deserialize_hex::<RawBlock>(hex) {
        Ok(b) => Ok(b),
        Err(_) => Err(DecodeError),
    }
}

/// Relies on bitcoin::block::Block: `txdata` holds the block's transactions.
#[verifier::external_body]
pub(crate) fn block_tx_count(b: &RawBlock) -> (n: usize)
    ensures
        n == block_txs(*b).len(),
{
    b.txdata.len()
}

/// Relies on bitcoin::block::Block and bitcoin::Transaction: reads the `i`-th
/// transaction of `txdata` out into plain values, field by field; the ids are
/// rendered in hex display order by their `Display` impls.
#[verifier::external_body]
pub(crate) fn block_tx_at(b: &RawBlock, i: usize) -> (t: Tx)
    requires
        i < block_txs(*b).len(),
    ensures
        t@ == block_txs(*b)[i as int],
{
    let tx = &b.txdata[i];
    Tx {
        txid: tx.compute_txid().to_string(),
        inputs: tx.input.iter().map(|i| TxInput { prev_txid: i.previous_output.txid.to_string(), prev_vout: i.previous_output.vout, script_sig: i.script_sig.to_bytes(), witness: i.witness.to_vec() }).collect(),
        outputs: tx.output.iter().map(|o| TxOutput { script_pubkey: o.script_pubkey.to_bytes() }).collect(),
    }
}

/// Relies on bitcoin::block::Block::block_hash: the block's id, rendered
/// in hex display order by its `Display` impl.
#[verifier::external_body]
pub(crate) fn block_hash_string(b: &RawBlock) -> (h: String)
    ensures
        h@ == block_hash_of(*b),
{
    b.block_hash().to_string()
}

/// Relies on bitcoin::consensus::encode::deserialize_hex::<Transaction>: the
/// same hex always decodes to the same transaction, and malformed hex returns
/// an error rather than panicking. The conversion reads every field out into
/// plain values as [`block_tx_at`] does.
#[verifier::external_body]
pub(crate) fn decode_tx_hex(hex: &str) -> (r: Result<Tx, DecodeError>)
    ensures
        match r {
            Ok(t) => tx_of_hex(hex@) == Some(t@),
            Err(_) => tx_of_hex(hex@) is None,
        },
{
    let tx = match bitcoin::consensus::encode::deserialize_hex::<bitcoin::Transaction>(hex) {
        Ok(t) => t,
        Err(_) => return Err(DecodeError),
    };
    Ok(Tx {
        txid: tx.compute_txid().to_string(),
        inputs: tx.input.iter().map(|i| TxInput { prev_txid: i.previous_output.txid.to_string(), prev_vout: i.previous_output.vout, script_sig: i.script_sig.to_bytes(), witness: i.witness.to_vec() }).collect(),
        outputs: tx.output.iter().map(|o| TxOutput { script_pubkey: o.script_pubkey.to_bytes() }).collect(),
    })
}

/// Decode a block's hex into plain values: its hash and its transactions in
/// block order.
pub fn decode_block(hex: &str) -> (r: Result<BlockData, DecodeError>)
    ensures
        match r {
            Ok(bd) => block_of_hex(hex@) == Some(bd@),
            Err(_) => block_of_hex(hex@) is None,
        },
{
    let raw = match decode_block_hex(hex) {
        Ok(b) => b,
        Err(e) => {
            return Err(e);
        },
    };
    let n = block_tx_count(&raw);
    let mut txs: Vec<Tx> = Vec::new();
    let mut i: usize = 0;
    while i < n
        invariant
            n == block_txs(raw).len(),
            i <= n,
            txs@.len() == i,
            forall|j: int| 0 <= j < i ==> txs@.map_values(|t: Tx| t@)[j] == block_txs(raw)[j],
        decreases n - i,
    {
        let t = block_tx_at(&raw, i);
        txs.push(t);
        i += 1;
    }
    let hash = block_hash_string(&raw);
    let bd = BlockData { hash, txs };
    assert(bd@.txs =~= block_txs(raw));
    assert(bd@ == BlockV { hash: block_hash_of(raw), txs: block_txs(raw) });
    Ok(bd)
}

} // verus!
