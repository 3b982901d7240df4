use std::collections::HashMap;

use bitcoin::consensus::encode::serialize_hex;

use tweak_indexer::chain::ChainAccess;
use tweak_indexer::codec::decode_block;
use tweak_indexer::index::{auto_index, index_height, resolve_range, run_range, HeightStatus};
use tweak_indexer::process::{process_transaction, process_transactions, ChainError, TxOutcome};
use tweak_indexer::store::Database;
use tweak_indexer::types::{BlockData, Tx, TxInput, TxOutput};

// A known-valid compressed public key: the curve's generator point.
const GEN_PK: [u8; 33] = [
    0x02, 0x79, 0xBE, 0x66, 0x7E, 0xF9, 0xDC, 0xBB, 0xAC, 0x55, 0xA0, 0x62, 0x95, 0xCE, 0x87,
    0x0B, 0x07, 0x02, 0x9B, 0xFC, 0xDB, 0x2D, 0xCE, 0x28, 0xD9, 0x59, 0xF2, 0x81, 0x5B, 0x16,
    0xF8, 0x17, 0x98,
];

fn taproot_script_bytes() -> Vec<u8> {
    let mut s = vec![0x51u8, 0x20u8];
    s.extend_from_slice(&GEN_PK[1..]);
    s
}

fn p2wpkh_script_bytes(pubkey: &[u8]) -> Vec<u8> {
    let key = bitcoin::CompressedPublicKey::from_slice(pubkey).expect("valid compressed key");
    bitcoin::ScriptBuf::new_p2wpkh(&key.wpubkey_hash()).to_bytes()
}

fn zero_hash<T: std::str::FromStr>() -> T
where
    <T as std::str::FromStr>::Err: std::fmt::Debug,
{
    "0".repeat(64).parse().expect("zero hash parses")
}

fn raw_tx(inputs: Vec<bitcoin::TxIn>, output_scripts: Vec<Vec<u8>>) -> bitcoin::Transaction {
    bitcoin::Transaction {
        version: bitcoin::transaction::Version::TWO,
        lock_time: bitcoin::absolute::LockTime::ZERO,
        input: inputs,
        output: output_scripts
            .into_iter()
            .map(|s| bitcoin::TxOut {
                value: bitcoin::Amount::from_sat(1000),
                script_pubkey: bitcoin::ScriptBuf::from_bytes(s),
            })
            .collect(),
    }
}

fn coinbase_like_input() -> bitcoin::TxIn {
    bitcoin::TxIn {
        previous_output: bitcoin::OutPoint { txid: zero_hash(), vout: u32::MAX },
        script_sig: bitcoin::ScriptBuf::new(),
        sequence: bitcoin::Sequence::MAX,
        witness: bitcoin::Witness::new(),
    }
}

fn spending_input(prev: &bitcoin::Transaction, vout: u32, witness: Vec<Vec<u8>>) -> bitcoin::TxIn {
    bitcoin::TxIn {
        previous_output: bitcoin::OutPoint { txid: prev.compute_txid(), vout },
        script_sig: bitcoin::ScriptBuf::new(),
        sequence: bitcoin::Sequence::MAX,
        witness: bitcoin::Witness::from_slice(&witness),
    }
}

fn raw_block(txs: Vec<bitcoin::Transaction>) -> bitcoin::Block {
    bitcoin::Block {
        header: bitcoin::block::Header {
            version: bitcoin::block::Version::ONE,
            prev_blockhash: zero_hash(),
            merkle_root: zero_hash(),
            time: 0,
            bits: bitcoin::CompactTarget::from_consensus(0x1d00ffff),
            nonce: 0,
        },
        txdata: txs,
    }
}

/// A canned chain node: canned answers, and a record of every call.
struct MockChain {
    count: String,
    hashes: HashMap<u32, String>,
    blocks: HashMap<String, String>,
    txs: HashMap<String, String>,
    hash_calls: Vec<u32>,
    block_calls: Vec<String>,
    tx_calls: Vec<String>,
}

impl MockChain {
    fn new() -> Self {
        MockChain {
            count: "0".to_owned(),
            hashes: HashMap::new(),
            blocks: HashMap::new(),
            txs: HashMap::new(),
            hash_calls: Vec::new(),
            block_calls: Vec::new(),
            tx_calls: Vec::new(),
        }
    }

    fn with_tx(mut self, tx: &bitcoin::Transaction) -> Self {
        self.txs
            .insert(tx.compute_txid().to_string(), serialize_hex(tx));
        self
    }

    fn with_block(mut self, height: u32, name: &str, block: &bitcoin::Block) -> Self {
        self.hashes.insert(height, name.to_owned());
        self.blocks.insert(name.to_owned(), serialize_hex(block));
        self
    }
}

impl ChainAccess for MockChain {
    fn block_count(&mut self) -> Result<String, String> {
        Ok(self.count.clone())
    }

    fn block_hash(&mut self, height: u32) -> Result<String, String> {
        self.hash_calls.push(height);
        self.hashes
            .get(&height)
            .cloned()
            .ok_or_else(|| "unknown height".to_owned())
    }

    fn block(&mut self, block_hash: &str) -> Result<String, String> {
        self.block_calls.push(block_hash.to_owned());
        self.blocks
            .get(block_hash)
            .cloned()
            .ok_or_else(|| "unknown block".to_owned())
    }

    fn transaction(&mut self, txid: &str) -> Result<String, String> {
        self.tx_calls.push(txid.to_owned());
        self.txs
            .get(txid)
            .cloned()
            .ok_or_else(|| "unknown transaction".to_owned())
    }
}

fn lib_tx(tx: &bitcoin::Transaction) -> Tx {
    Tx {
        txid: tx.compute_txid().to_string(),
        inputs: tx
            .input
            .iter()
            .map(|i| TxInput {
                prev_txid: i.previous_output.txid.to_string(),
                prev_vout: i.previous_output.vout,
                script_sig: i.script_sig.to_bytes(),
                witness: i.witness.to_vec(),
            })
            .collect(),
        outputs: tx
            .output
            .iter()
            .map(|o| TxOutput { script_pubkey: o.script_pubkey.to_bytes() })
            .collect(),
    }
}

#[test]
fn decode_block_reads_out_plain_values() {
    let prev = raw_tx(vec![coinbase_like_input()], vec![vec![0x6a]]);
    let spender = raw_tx(
        vec![spending_input(&prev, 0, vec![vec![0u8; 71], GEN_PK.to_vec()])],
        vec![taproot_script_bytes()],
    );
    let block = raw_block(vec![prev.clone(), spender.clone()]);
    let decoded = decode_block(&serialize_hex(&block)).expect("block decodes");
    assert_eq!(decoded.hash, block.block_hash().to_string());
    assert_eq!(decoded.txs.len(), 2);
    assert_eq!(decoded.txs[0].txid, prev.compute_txid().to_string());
    assert_eq!(decoded.txs[1].inputs.len(), 1);
    assert_eq!(
        decoded.txs[1].inputs[0].prev_txid,
        prev.compute_txid().to_string()
    );
    assert_eq!(decoded.txs[1].inputs[0].prev_vout, 0);
    assert_eq!(decoded.txs[1].inputs[0].witness.len(), 2);
    assert_eq!(decoded.txs[1].outputs[0].script_pubkey, taproot_script_bytes());
}

#[test]
fn decode_block_rejects_malformed_hex() {
    assert!(decode_block("zz").is_err());
    assert!(decode_block("00ff").is_err());
}

#[test]
fn unqualified_transactions_trigger_no_chain_calls() {
    // No output of either transaction is a taproot output, so the tweak
    // derivation never runs and no previous output is ever fetched.
    let prev = raw_tx(vec![coinbase_like_input()], vec![vec![0x6a]]);
    let plain = raw_tx(
        vec![spending_input(&prev, 0, vec![])],
        vec![p2wpkh_script_bytes(&GEN_PK)],
    );
    let block = raw_block(vec![prev.clone(), plain.clone()]);
    let data = BlockData {
        hash: block.block_hash().to_string(),
        txs: vec![lib_tx(&prev), lib_tx(&plain)],
    };
    let mut chain = MockChain::new();
    let result = process_transactions(&mut chain, &data);
    assert!(chain.tx_calls.is_empty());
    assert!(!result.has_tweaks);
    assert!(result.rows.is_empty());
    assert!(result.failures.is_empty());
}

#[test]
fn disqualifying_previous_output_fails_the_whole_transaction() {
    // The previous output's script starts with a single-byte push of 2: a
    // reserved segwit version, which excludes the spending transaction.
    let prev = raw_tx(vec![coinbase_like_input()], vec![vec![0x01, 0x02]]);
    let spender = raw_tx(
        vec![spending_input(&prev, 0, vec![vec![0u8; 71], GEN_PK.to_vec()])],
        vec![taproot_script_bytes()],
    );
    let mut chain = MockChain::new().with_tx(&prev);
    let outcome = process_transaction(&mut chain, &lib_tx(&spender));
    assert!(matches!(
        outcome,
        TxOutcome::Failed(ChainError::SegWitVersionGE2)
    ));
}

#[test]
fn inputs_without_keys_yield_no_tweak_and_no_error() {
    // The previous output is a bare OP_RETURN: the recovery primitive finds
    // no key, which is a plain skip, not a failure.
    let prev = raw_tx(vec![coinbase_like_input()], vec![vec![0x6a]]);
    let spender = raw_tx(
        vec![spending_input(&prev, 0, vec![vec![0u8; 71], GEN_PK.to_vec()])],
        vec![taproot_script_bytes()],
    );
    let mut chain = MockChain::new().with_tx(&prev);
    let outcome = process_transaction(&mut chain, &lib_tx(&spender));
    assert!(matches!(outcome, TxOutcome::NoTweak));
}

#[test]
fn coinbase_style_input_yields_no_tweak_without_fetching() {
    let cb = raw_tx(vec![coinbase_like_input()], vec![taproot_script_bytes()]);
    let mut chain = MockChain::new();
    let outcome = process_transaction(&mut chain, &lib_tx(&cb));
    assert!(matches!(outcome, TxOutcome::NoTweak));
    assert!(chain.tx_calls.is_empty());
}

#[test]
fn missing_previous_output_is_a_typed_failure() {
    let prev = raw_tx(vec![coinbase_like_input()], vec![p2wpkh_script_bytes(&GEN_PK)]);
    let spender = raw_tx(
        vec![spending_input(&prev, 0, vec![vec![0u8; 71], GEN_PK.to_vec()])],
        vec![taproot_script_bytes()],
    );
    // The node does not know the previous transaction.
    let mut chain = MockChain::new();
    let outcome = process_transaction(&mut chain, &lib_tx(&spender));
    assert!(matches!(
        outcome,
        TxOutcome::Failed(ChainError::TxOutputNotFound)
    ));
}

#[test]
fn block_with_one_contributing_transaction_persists_one_tweak() {
    // Transaction A spends a plain version-0 witness output with a
    // recoverable key and carries a taproot output: exactly one tweak row.
    // Transaction B has no taproot output: no chain calls for its input.
    let funding_a = raw_tx(vec![coinbase_like_input()], vec![p2wpkh_script_bytes(&GEN_PK)]);
    let tx_a = raw_tx(
        vec![spending_input(&funding_a, 0, vec![vec![0u8; 71], GEN_PK.to_vec()])],
        vec![taproot_script_bytes()],
    );
    let marker = raw_tx(vec![coinbase_like_input()], vec![vec![0x6a]]);
    let tx_b = raw_tx(vec![spending_input(&marker, 0, vec![])], vec![vec![0x6a]]);
    let block = raw_block(vec![tx_a.clone(), tx_b.clone()]);

    let height = 712345u32;
    let mut chain = MockChain::new()
        .with_tx(&funding_a)
        .with_block(height, "node-hash-1", &block);
    let mut db = Database::new(":memory:").unwrap();

    let report = index_height(&mut chain, &mut db, height).expect("indexing succeeds");
    assert_eq!(report.height, height);
    assert_eq!(report.block_hash, "node-hash-1");
    assert!(matches!(report.status, HeightStatus::Indexed(true)));
    assert!(report.failures.is_empty());

    // Only A's single input was ever resolved.
    assert_eq!(chain.tx_calls, vec![funding_a.compute_txid().to_string()]);

    // One tweak row, under the decoded block's hash, with the exact tweak
    // the aggregation primitive yields for A's key and outpoint.
    let rows = db.get_tweaks(&block.block_hash().to_string()).unwrap();
    assert_eq!(rows.len(), 1);
    assert_eq!(rows[0].tx_id, tx_a.compute_txid().to_string());
    let key = silentpayments::secp256k1::PublicKey::from_slice(&GEN_PK).unwrap();
    let outpoint = silentpayments::utils::OutPoint::from_txid_and_vout(
        funding_a.compute_txid().to_string(),
        0,
    )
    .unwrap();
    let expected =
        silentpayments::utils::receiving::calculate_tweak_data(&[&key], &[outpoint]).unwrap();
    assert_eq!(rows[0].tweak, expected.to_string());

    // The block row carries the node's hash and the aggregated flag.
    let blocks = db.get_block("node-hash-1").unwrap();
    assert_eq!(blocks.len(), 1);
    assert_eq!(blocks[0].height, height);
    assert!(blocks[0].has_tweaks);
}

#[test]
fn missing_prevout_leaves_block_row_without_tweaks() {
    // One qualifying transaction whose single previous output the node
    // cannot serve: no tweak rows, one recovered failure, and the block row
    // still written with has_tweaks = false.
    let funding = raw_tx(vec![coinbase_like_input()], vec![p2wpkh_script_bytes(&GEN_PK)]);
    let tx_a = raw_tx(
        vec![spending_input(&funding, 0, vec![vec![0u8; 71], GEN_PK.to_vec()])],
        vec![taproot_script_bytes()],
    );
    let block = raw_block(vec![tx_a.clone()]);
    let height = 712346u32;
    let mut chain = MockChain::new().with_block(height, "node-hash-2", &block);
    let mut db = Database::new(":memory:").unwrap();

    let report = index_height(&mut chain, &mut db, height).expect("indexing succeeds");
    assert!(matches!(report.status, HeightStatus::Indexed(false)));
    assert_eq!(report.failures.len(), 1);
    assert_eq!(report.failures[0].tx_id, tx_a.compute_txid().to_string());
    assert!(matches!(
        report.failures[0].error,
        ChainError::TxOutputNotFound
    ));

    assert!(db.get_tweaks(&block.block_hash().to_string()).unwrap().is_empty());
    let blocks = db.get_block("node-hash-2").unwrap();
    assert_eq!(blocks.len(), 1);
    assert!(!blocks[0].has_tweaks);
}

#[test]
fn already_processed_hash_is_skipped_untouched() {
    // The store already holds the hash the node reports for this height:
    // the block is neither fetched nor reprocessed, and the store keeps
    // exactly the rows it had.
    let height = 712347u32;
    let mut chain = MockChain::new();
    chain.hashes.insert(height, "node-hash-3".to_owned());
    let mut db = Database::new(":memory:").unwrap();
    db.insert_block("node-hash-3", height, true).unwrap();
    db.insert_tweak("node-hash-3", "02aa", "tx-1").unwrap();

    let report = index_height(&mut chain, &mut db, height).expect("skip succeeds");
    assert!(matches!(report.status, HeightStatus::Skipped));
    assert_eq!(report.block_hash, "node-hash-3");
    assert!(chain.block_calls.is_empty());
    assert!(chain.tx_calls.is_empty());

    let blocks = db.get_block("node-hash-3").unwrap();
    assert_eq!(blocks.len(), 1);
    let tweaks = db.get_tweaks("node-hash-3").unwrap();
    assert_eq!(tweaks.len(), 1);
    assert_eq!(tweaks[0].tweak, "02aa");
}

#[test]
fn range_below_persisted_heights_reprocesses_from_scratch() {
    // The skip keys on stored hashes, not on the height range: a range
    // entirely below the persisted heights is processed, not skipped.
    let marker = raw_tx(vec![coinbase_like_input()], vec![vec![0x6a]]);
    let block = raw_block(vec![marker]);
    let low = 5u32;
    let mut chain = MockChain::new().with_block(low, "low-hash", &block);
    let mut db = Database::new(":memory:").unwrap();
    db.insert_block("high-hash-a", 712000, false).unwrap();
    db.insert_block("high-hash-b", 712001, true).unwrap();

    let reports = run_range(&mut chain, &mut db, low, low).expect("run succeeds");
    assert_eq!(reports.len(), 1);
    assert!(matches!(reports[0].status, HeightStatus::Indexed(false)));
    assert_eq!(chain.block_calls, vec!["low-hash".to_owned()]);
    assert_eq!(db.get_block("low-hash").unwrap().len(), 1);
}

#[test]
fn run_range_walks_every_height_once() {
    let marker_a = raw_tx(vec![coinbase_like_input()], vec![vec![0x6a]]);
    let marker_b = raw_tx(vec![coinbase_like_input()], vec![vec![0x6a, 0x01]]);
    let block_a = raw_block(vec![marker_a]);
    let block_b = raw_block(vec![marker_b]);
    let mut chain = MockChain::new()
        .with_block(20, "hash-20", &block_a)
        .with_block(21, "hash-21", &block_b);
    let mut db = Database::new(":memory:").unwrap();

    let reports = run_range(&mut chain, &mut db, 20, 21).expect("run succeeds");
    assert_eq!(reports.len(), 2);
    assert_eq!(reports[0].height, 20);
    assert_eq!(reports[1].height, 21);
    assert_eq!(chain.hash_calls, vec![20, 21]);
    assert_eq!(db.get_block("hash-20").unwrap().len(), 1);
    assert_eq!(db.get_block("hash-21").unwrap().len(), 1);

    // A second run over the same range only rechecks hashes and skips.
    let reports2 = run_range(&mut chain, &mut db, 20, 21).expect("second run succeeds");
    assert!(reports2.iter().all(|r| matches!(r.status, HeightStatus::Skipped)));
    assert_eq!(chain.block_calls.len(), 2);
    assert_eq!(db.get_block("hash-20").unwrap().len(), 1);
}

#[test]
fn transport_failure_is_fatal_for_the_run() {
    // No hash for the requested height: the run aborts with the node's
    // message and the store is left as it was.
    let mut chain = MockChain::new();
    let mut db = Database::new(":memory:").unwrap();
    let err = run_range(&mut chain, &mut db, 30, 31);
    assert!(err.is_err());
    assert!(db.get_block("anything").unwrap().is_empty());
}

#[test]
fn malformed_input_data_is_a_typed_failure() {
    // Spending a version-0 witness output with an empty witness is malformed
    // input data: the recovery primitive rejects it and the transaction
    // fails with the pubkey-extraction error.
    let funding = raw_tx(vec![coinbase_like_input()], vec![p2wpkh_script_bytes(&GEN_PK)]);
    let spender = raw_tx(
        vec![spending_input(&funding, 0, vec![])],
        vec![taproot_script_bytes()],
    );
    let mut chain = MockChain::new().with_tx(&funding);
    let outcome = process_transaction(&mut chain, &lib_tx(&spender));
    assert!(matches!(
        outcome,
        TxOutcome::Failed(ChainError::PubKeyFromInput)
    ));
}

#[test]
fn degenerate_key_sum_is_a_typed_failure() {
    // Two recovered keys that are each other's negation sum to no valid
    // point: the aggregation primitive rejects them and the transaction
    // fails with the tweak-computation error.
    let mut neg_pk = GEN_PK;
    neg_pk[0] = 0x03;
    let funding_a = raw_tx(vec![coinbase_like_input()], vec![p2wpkh_script_bytes(&GEN_PK)]);
    let funding_b = raw_tx(vec![coinbase_like_input()], vec![p2wpkh_script_bytes(&neg_pk)]);
    let spender = raw_tx(
        vec![
            spending_input(&funding_a, 0, vec![vec![0u8; 71], GEN_PK.to_vec()]),
            spending_input(&funding_b, 0, vec![vec![0u8; 71], neg_pk.to_vec()]),
        ],
        vec![taproot_script_bytes()],
    );
    let mut chain = MockChain::new().with_tx(&funding_a).with_tx(&funding_b);
    let outcome = process_transaction(&mut chain, &lib_tx(&spender));
    assert!(matches!(
        outcome,
        TxOutcome::Failed(ChainError::TweakComputation)
    ));
}

#[test]
fn auto_index_defaults_to_the_protocol_start() {
    let mut chain = MockChain::new();
    chain.count = "800000".to_owned();
    let db = Database::new(":memory:").unwrap();
    assert_eq!(auto_index(&db, &mut chain).unwrap(), (709632, 800000));
}

#[test]
fn auto_index_resumes_from_the_highest_persisted_height() {
    let mut chain = MockChain::new();
    chain.count = "800000".to_owned();
    let mut db = Database::new(":memory:").unwrap();
    db.insert_block("hash-a", 750000, false).unwrap();
    db.insert_block("hash-b", 749000, true).unwrap();
    assert_eq!(auto_index(&db, &mut chain).unwrap(), (750000, 800000));
}

#[test]
fn auto_index_never_ends_below_its_start() {
    let mut chain = MockChain::new();
    chain.count = "5".to_owned();
    let db = Database::new(":memory:").unwrap();
    assert_eq!(auto_index(&db, &mut chain).unwrap(), (709632, 709632));
}

#[test]
fn auto_index_rejects_an_unreadable_block_count() {
    let mut chain = MockChain::new();
    chain.count = "not-a-number".to_owned();
    let db = Database::new(":memory:").unwrap();
    assert!(auto_index(&db, &mut chain).is_err());
}

#[test]
fn resolve_range_keeps_an_explicit_start() {
    let mut chain = MockChain::new();
    let db = Database::new(":memory:").unwrap();
    assert_eq!(resolve_range(&db, &mut chain, 7, 9).unwrap(), (7, 9));
}

#[test]
fn resolve_range_zero_start_asks_the_store_and_the_node() {
    let mut chain = MockChain::new();
    chain.count = "710000".to_owned();
    let mut db = Database::new(":memory:").unwrap();
    db.insert_block("hash-a", 709700, false).unwrap();
    assert_eq!(resolve_range(&db, &mut chain, 0, 42).unwrap(), (709700, 710000));
}
