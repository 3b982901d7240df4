//! The tweak orchestrator and the block processor.
//!
//! For an eligible transaction the orchestrator walks the inputs in input
//! order, resolves each previous output through the chain access port,
//! applies the consensus exclusions, accumulates recovered input keys, and
//! yields one tweak, nothing, or a typed failure. The block processor drives
//! it over every transaction of a decoded block, isolating per-transaction
//! failures.
//!
//! What the port answers is outside this crate's control, so each driver's
//! contract quantifies over the resolved previous transactions: whatever
//! came back, the result is exactly what the specification function yields
//! for some resolution, and the laws below hold for every resolution.

use vstd::prelude::*;
use crate::chain::ChainAccess;
use crate::codec::decode_tx_hex;
use crate::crypto::{
    calculate_tweak_hex, extract_input_pubkey, pubkey_extraction, tweak_of, PubkeyOutcomeV,
    PubkeyResult,
};
use crate::script::{
    has_qualifying_output, is_segwit_gt_v1, spec_has_qualifying_output, spec_is_segwit_gt_v1,
};
use crate::store::{TweakRowV, Tweaks};
use crate::types::{spec_is_null_outpoint, BlockData, Tx, TxInput, TxInputV, TxV};

verus! {

/// A per-transaction failure: the transaction is excluded from its block's
/// tweak set, and block processing goes on.
#[derive(Clone, Copy, PartialEq, Eq, Structural, Debug)]
pub enum ChainError {
    /// The previous output could not be resolved: the referenced
    /// transaction was missing or malformed, or the output index was out of
    /// range.
    TxOutputNotFound,
    /// The pubkey-recovery primitive rejected an input's data.
    PubKeyFromInput,
    /// An input spends an output that declares segwit version 2 or higher.
    SegWitVersionGE2,
    /// The tweak-aggregation primitive rejected the collected data.
    TweakComputation,
}

impl ChainError {
    /// The failure as a log line.
    pub fn message(&self) -> String {
        match self {
            ChainError::TxOutputNotFound => "Could not find previous output transaction".to_owned(),
            ChainError::PubKeyFromInput => "Pub Key From Input error".to_owned(),
            ChainError::SegWitVersionGE2 => "Segwit version 2 or higher not allowed".to_owned(),
            ChainError::TweakComputation => "Tweak calculation error".to_owned(),
        }
    }
}

/// Mathematical view of one input's contribution.
pub ghost enum InputStepV {
    /// The input contributes this key.
    Key(Seq<char>),
    /// The input contributes nothing; processing goes on.
    NoKey,
    /// The input fails its whole transaction.
    Fail(ChainError),
}

/// What one input contributes once its previous transaction is resolved:
/// the spent output is looked up by index, the disqualifying-version rule is
/// applied to its script, and the pubkey-recovery primitive decides the
/// rest.
pub open spec fn spec_input_step(input: TxInputV, prev: TxV) -> InputStepV {
    if input.prev_vout >= prev.outputs.len() {
        InputStepV::Fail(ChainError::TxOutputNotFound)
    } else {
        let spk = prev.outputs[input.prev_vout as int].script_pubkey;
        if spec_is_segwit_gt_v1(spk) {
            InputStepV::Fail(ChainError::SegWitVersionGE2)
        } else {
            match pubkey_extraction(input.script_sig, input.witness, spk) {
                PubkeyOutcomeV::Found(k) => InputStepV::Key(k),
                PubkeyOutcomeV::NotFound => InputStepV::NoKey,
                PubkeyOutcomeV::Failed => InputStepV::Fail(ChainError::PubKeyFromInput),
            }
        }
    }
}

/// One input's contribution (see [`spec_input_step`]).
pub enum InputStep {
    Key(String),
    NoKey,
    Fail(ChainError),
}

impl View for InputStep {
    type V = InputStepV;

    open spec fn view(&self) -> InputStepV {
        match self {
            InputStep::Key(k) => InputStepV::Key(k@),
            InputStep::NoKey => InputStepV::NoKey,
            InputStep::Fail(e) => InputStepV::Fail(*e),
        }
    }
}

/// Decide one input's contribution from its resolved previous transaction.
pub fn input_step(input: &TxInput, prev: &Tx) -> (r: InputStep)
    ensures
        r@ == spec_input_step(input@, prev@),
{
    if (input.prev_vout as u64) >= (prev.outputs.len() as u64) {
        return InputStep::Fail(ChainError::TxOutputNotFound);
    }
    let spk = &prev.outputs[input.prev_vout as usize].script_pubkey;
    if is_segwit_gt_v1(spk) {
        return InputStep::Fail(ChainError::SegWitVersionGE2);
    }
    match extract_input_pubkey(&input.script_sig, &input.witness, spk) {
        PubkeyResult::Found(k) => InputStep::Key(k),
        PubkeyResult::NotFound => InputStep::NoKey,
        PubkeyResult::Failed => InputStep::Fail(ChainError::PubKeyFromInput),
    }
}

/// The outpoints of a transaction, in the transaction's own input order:
/// previous id and output index for every input, contributing or not. The
/// aggregation primitive is order-sensitive in these, so they are never
/// re-sorted.
pub open spec fn spec_outpoints(tx: TxV) -> Seq<(Seq<char>, u32)> {
    tx.inputs.map_values(|i: TxInputV| (i.prev_txid, i.prev_vout))
}

/// Mathematical view of one transaction's processing outcome.
pub ghost enum TxOutcomeV {
    /// No tweak and no error: a coinbase-style input, or no contributing
    /// inputs.
    NoTweak,
    /// The derived tweak key, serialized hex.
    Tweak(Seq<char>),
    /// A typed per-transaction failure.
    Failed(ChainError),
}

/// Outcome of processing one transaction.
pub enum TxOutcome {
    /// No tweak and no error: a coinbase-style input, or no contributing
    /// inputs.
    NoTweak,
    /// The derived tweak key, serialized hex.
    Tweak(String),
    /// A typed per-transaction failure.
    Failed(ChainError),
}

impl View for TxOutcome {
    type V = TxOutcomeV;

    open spec fn view(&self) -> TxOutcomeV {
        match self {
            TxOutcome::NoTweak => TxOutcomeV::NoTweak,
            TxOutcome::Tweak(t) => TxOutcomeV::Tweak(t@),
            TxOutcome::Failed(e) => TxOutcomeV::Failed(*e),
        }
    }
}

/// The orchestration, from input `i` on, with the keys accumulated so far.
/// `resp` gives, per input, the resolved previous transaction, or nothing
/// where the port or the decoder failed for it.
pub open spec fn spec_process_transaction_from(
    tx: TxV,
    resp: Seq<Option<TxV>>,
    i: int,
    keys: Seq<Seq<char>>,
) -> TxOutcomeV
    decreases tx.inputs.len() - i,
{
    if i < 0 || i >= tx.inputs.len() {
        if keys.len() == 0 {
            TxOutcomeV::NoTweak
        } else {
            match tweak_of(keys, spec_outpoints(tx)) {
                Some(t) => TxOutcomeV::Tweak(t),
                None => TxOutcomeV::Failed(ChainError::TweakComputation),
            }
        }
    } else if spec_is_null_outpoint(tx.inputs[i]) {
        TxOutcomeV::NoTweak
    } else {
        match resp[i] {
            None => TxOutcomeV::Failed(ChainError::TxOutputNotFound),
            Some(prev) => match spec_input_step(tx.inputs[i], prev) {
                InputStepV::Key(k) => spec_process_transaction_from(tx, resp, i + 1, keys.push(k)),
                InputStepV::NoKey => spec_process_transaction_from(tx, resp, i + 1, keys),
                InputStepV::Fail(e) => TxOutcomeV::Failed(e),
            },
        }
    }
}

/// The whole orchestration of one transaction under the resolution `resp`.
pub open spec fn spec_process_transaction(tx: TxV, resp: Seq<Option<TxV>>) -> TxOutcomeV {
    spec_process_transaction_from(tx, resp, 0, Seq::empty())
}

/// Derive the tweak for one eligible transaction: walk the inputs in input
/// order, resolve each previous output through the port, and combine the
/// recovered keys with the outpoints. The result is exactly what
/// [`spec_process_transaction`] yields for the resolutions the port
/// produced.
pub fn process_transaction<C: ChainAccess>(chain: &mut C, tx: &Tx) -> (r: TxOutcome)
    ensures
        exists|resp: Seq<Option<TxV>>| r@ == spec_process_transaction(tx@, resp),
{
    let ghost gtx = tx@;
    let mut outpoints: Vec<(String, u32)> = Vec::new();
    let mut j: usize = 0;
    while j < tx.inputs.len()
        invariant
            j <= tx.inputs.len(),
            gtx == tx@,
            outpoints.deep_view().len() == j,
            forall|m: int| 0 <= m < j ==> outpoints.deep_view()[m] == (
                gtx.inputs[m].prev_txid,
                gtx.inputs[m].prev_vout,
            ),
        decreases tx.inputs.len() - j,
    {
        let input = &tx.inputs[j];
        let ghost old_dv = outpoints.deep_view();
        outpoints.push((input.prev_txid.clone(), input.prev_vout));
        proof {
            assert(outpoints.deep_view() =~= old_dv.push(
                (gtx.inputs[j as int].prev_txid, gtx.inputs[j as int].prev_vout),
            ));
        }
        j += 1;
    }
    assert(outpoints.deep_view() =~= spec_outpoints(gtx));

    let mut keys: Vec<String> = Vec::new();
    let mut i: usize = 0;
    let ghost mut resp: Seq<Option<TxV>> = Seq::empty();
    proof {
        assert(keys.deep_view() =~= Seq::<Seq<char>>::empty());
    }
    while i < tx.inputs.len()
        invariant
            i <= tx.inputs.len(),
            gtx == tx@,
            resp.len() == i,
            outpoints.deep_view() == spec_outpoints(gtx),
            forall|rest: Seq<Option<TxV>>| #[trigger] spec_process_transaction(gtx, resp + rest)
                == spec_process_transaction_from(gtx, resp + rest, i as int, keys.deep_view()),
        decreases tx.inputs.len() - i,
    {
        let input = &tx.inputs[i];
        let ghost old_resp = resp;
        let ghost old_keys = keys.deep_view();
        if input.is_null_outpoint() {
            proof {
                let pad = Seq::new((gtx.inputs.len() - i) as nat, |m: int| Option::<TxV>::None);
                let w = resp + pad;
                assert(spec_process_transaction(gtx, w) == spec_process_transaction_from(
                    gtx,
                    w,
                    i as int,
                    keys.deep_view(),
                ));
                assert(spec_process_transaction_from(gtx, w, i as int, keys.deep_view())
                    == TxOutcomeV::NoTweak);
            }
            return TxOutcome::NoTweak;
        }
        let prev_opt: Option<Tx> = match chain.transaction(input.prev_txid.as_str()) {
            Ok(hex) => match decode_tx_hex(hex.as_str()) {
                Ok(t) => Some(t),
                Err(_) => None,
            },
            Err(_) => None,
        };
        let prev = match prev_opt {
            Some(p) => p,
            None => {
                proof {
                    let pad = Seq::new(
                        (gtx.inputs.len() - i) as nat,
                        |m: int| Option::<TxV>::None,
                    );
                    let w = resp + pad;
                    assert(w[i as int] == Option::<TxV>::None);
                    assert(spec_process_transaction(gtx, w) == spec_process_transaction_from(
                        gtx,
                        w,
                        i as int,
                        keys.deep_view(),
                    ));
                    assert(spec_process_transaction_from(gtx, w, i as int, keys.deep_view())
                        == TxOutcomeV::Failed(ChainError::TxOutputNotFound));
                }
                return TxOutcome::Failed(ChainError::TxOutputNotFound);
            },
        };
        match input_step(input, &prev) {
            InputStep::Key(k) => {
                keys.push(k);
                proof {
                    resp = resp.push(Some(prev@));
                    assert forall|rest: Seq<Option<TxV>>| #[trigger] spec_process_transaction(
                        gtx,
                        resp + rest,
                    ) == spec_process_transaction_from(
                        gtx,
                        resp + rest,
                        i + 1,
                        keys.deep_view(),
                    ) by {
                        let rest0 = seq![Option::Some(prev@)] + rest;
                        assert(resp + rest =~= old_resp + rest0);
                        assert(spec_process_transaction(gtx, old_resp + rest0)
                            == spec_process_transaction_from(
                            gtx,
                            old_resp + rest0,
                            i as int,
                            old_keys,
                        ));
                        assert((old_resp + rest0)[i as int] == Option::Some(prev@));
                        assert(keys.deep_view() =~= old_keys.push(k@));
                    }
                }
            },
            InputStep::NoKey => {
                proof {
                    resp = resp.push(Some(prev@));
                    assert forall|rest: Seq<Option<TxV>>| #[trigger] spec_process_transaction(
                        gtx,
                        resp + rest,
                    ) == spec_process_transaction_from(
                        gtx,
                        resp + rest,
                        i + 1,
                        keys.deep_view(),
                    ) by {
                        let rest0 = seq![Option::Some(prev@)] + rest;
                        assert(resp + rest =~= old_resp + rest0);
                        assert(spec_process_transaction(gtx, old_resp + rest0)
                            == spec_process_transaction_from(
                            gtx,
                            old_resp + rest0,
                            i as int,
                            old_keys,
                        ));
                        assert((old_resp + rest0)[i as int] == Option::Some(prev@));
                    }
                }
            },
            InputStep::Fail(e) => {
                proof {
                    let pad = Seq::new(
                        (gtx.inputs.len() - i - 1) as nat,
                        |m: int| Option::<TxV>::None,
                    );
                    let w = resp + (seq![Option::Some(prev@)] + pad);
                    assert(spec_process_transaction(gtx, w) == spec_process_transaction_from(
                        gtx,
                        w,
                        i as int,
                        keys.deep_view(),
                    ));
                    assert(w[i as int] == Option::Some(prev@));
                    assert(spec_process_transaction_from(gtx, w, i as int, keys.deep_view())
                        == TxOutcomeV::Failed(e));
                }
                return TxOutcome::Failed(e);
            },
        }
        i += 1;
    }
    proof {
        assert(resp + Seq::<Option<TxV>>::empty() =~= resp);
        assert(spec_process_transaction(gtx, resp) == spec_process_transaction_from(
            gtx,
            resp,
            i as int,
            keys.deep_view(),
        ));
        assert(keys.deep_view().len() == keys@.len());
    }
    if keys.len() == 0 {
        assert(spec_process_transaction(gtx, resp) == TxOutcomeV::NoTweak);
        return TxOutcome::NoTweak;
    }
    match calculate_tweak_hex(&keys, &outpoints) {
        Some(t) => {
            assert(spec_process_transaction(gtx, resp) == TxOutcomeV::Tweak(t@));
            TxOutcome::Tweak(t)
        },
        None => {
            assert(spec_process_transaction(gtx, resp) == TxOutcomeV::Failed(
                ChainError::TweakComputation,
            ));
            TxOutcome::Failed(ChainError::TweakComputation)
        },
    }
}

/// Law: a transaction with at least one input whose previous output resolves
/// to a script that declares segwit version 2 or higher never yields a
/// tweak, whatever the other inputs hold.
pub proof fn lemma_disqualifying_input_blocks_tweak(tx: TxV, resp: Seq<Option<TxV>>, i: int)
    requires
        0 <= i < tx.inputs.len(),
        match resp[i] {
            Some(prev) => tx.inputs[i].prev_vout < prev.outputs.len() && spec_is_segwit_gt_v1(
                prev.outputs[tx.inputs[i].prev_vout as int].script_pubkey,
            ),
            None => false,
        },
    ensures
        !(spec_process_transaction(tx, resp) is Tweak),
{
    lemma_disqualifying_from(tx, resp, i, 0, Seq::empty());
}

proof fn lemma_disqualifying_from(
    tx: TxV,
    resp: Seq<Option<TxV>>,
    i: int,
    k: int,
    keys: Seq<Seq<char>>,
)
    requires
        0 <= k <= i < tx.inputs.len(),
        match resp[i] {
            Some(prev) => tx.inputs[i].prev_vout < prev.outputs.len() && spec_is_segwit_gt_v1(
                prev.outputs[tx.inputs[i].prev_vout as int].script_pubkey,
            ),
            None => false,
        },
    ensures
        !(spec_process_transaction_from(tx, resp, k, keys) is Tweak),
    decreases i - k,
{
    if k == i {
        let prev = resp[i]->Some_0;
        assert(spec_input_step(tx.inputs[i], prev) == InputStepV::Fail(
            ChainError::SegWitVersionGE2,
        ));
    } else {
        if !spec_is_null_outpoint(tx.inputs[k]) {
            match resp[k] {
                None => {},
                Some(prev) => match spec_input_step(tx.inputs[k], prev) {
                    InputStepV::Key(key) => {
                        lemma_disqualifying_from(tx, resp, i, k + 1, keys.push(key));
                    },
                    InputStepV::NoKey => {
                        lemma_disqualifying_from(tx, resp, i, k + 1, keys);
                    },
                    InputStepV::Fail(_) => {},
                },
            }
        }
    }
}

/// Whether input `i` of `tx` resolves under `resp` and contributes no key.
pub open spec fn spec_resolved_nokey(tx: TxV, resp: Seq<Option<TxV>>, i: int) -> bool {
    match resp[i] {
        Some(prev) => spec_input_step(tx.inputs[i], prev) == InputStepV::NoKey,
        None => false,
    }
}

/// Law: a transaction none of whose inputs is null and all of whose inputs
/// resolve but contribute no key yields no tweak and no failure.
pub proof fn lemma_all_nokey_yields_nothing(tx: TxV, resp: Seq<Option<TxV>>)
    requires
        forall|i: int| 0 <= i < tx.inputs.len() ==> !spec_is_null_outpoint(tx.inputs[i]),
        forall|i: int| 0 <= i < tx.inputs.len() ==> #[trigger] spec_resolved_nokey(tx, resp, i),
    ensures
        spec_process_transaction(tx, resp) == TxOutcomeV::NoTweak,
{
    lemma_all_nokey_from(tx, resp, 0);
}

proof fn lemma_all_nokey_from(tx: TxV, resp: Seq<Option<TxV>>, k: int)
    requires
        0 <= k <= tx.inputs.len(),
        forall|i: int| 0 <= i < tx.inputs.len() ==> !spec_is_null_outpoint(tx.inputs[i]),
        forall|i: int| 0 <= i < tx.inputs.len() ==> #[trigger] spec_resolved_nokey(tx, resp, i),
    ensures
        spec_process_transaction_from(tx, resp, k, Seq::empty()) == TxOutcomeV::NoTweak,
    decreases tx.inputs.len() - k,
{
    if k < tx.inputs.len() {
        assert(spec_resolved_nokey(tx, resp, k));
        assert(!spec_is_null_outpoint(tx.inputs[k]));
        lemma_all_nokey_from(tx, resp, k + 1);
    }
}


/// A failure of one transaction, kept for logging: the transaction's id and
/// the typed error.
pub struct TxFailure {
    pub tx_id: String,
    pub error: ChainError,
}

/// Mathematical view of one logged failure.
pub ghost struct TxFailureV {
    pub tx_id: Seq<char>,
    pub error: ChainError,
}

impl View for TxFailure {
    type V = TxFailureV;

    open spec fn view(&self) -> TxFailureV {
        TxFailureV { tx_id: self.tx_id@, error: self.error }
    }
}

/// Mathematical view of one block's processing outcome.
pub ghost struct BlockOutcomeV {
    /// Whether any transaction yielded a tweak.
    pub has_tweaks: bool,
    /// The staged tweak rows, in block order.
    pub rows: Seq<TweakRowV>,
    /// The recovered per-transaction failures, in block order.
    pub failures: Seq<TxFailureV>,
}

/// Outcome of processing one block: the aggregated flag, the staged tweak
/// rows, and the recovered per-transaction failures, ready for logging.
pub struct BlockResult {
    /// Whether any transaction yielded a tweak.
    pub has_tweaks: bool,
    /// The staged tweak rows, in block order.
    pub rows: Vec<Tweaks>,
    /// The recovered per-transaction failures, in block order.
    pub failures: Vec<TxFailure>,
}

impl View for BlockResult {
    type V = BlockOutcomeV;

    open spec fn view(&self) -> BlockOutcomeV {
        BlockOutcomeV {
            has_tweaks: self.has_tweaks,
            rows: self.rows@.map_values(|t: Tweaks| t@),
            failures: self.failures@.map_values(|f: TxFailure| f@),
        }
    }
}

/// The empty block outcome.
pub open spec fn spec_empty_outcome() -> BlockOutcomeV {
    BlockOutcomeV { has_tweaks: false, rows: Seq::empty(), failures: Seq::empty() }
}

/// What one transaction adds to a block outcome. A transaction without a
/// qualifying output is skipped outright, untouched by the orchestration;
/// for the others the orchestration under the resolution `respk` decides: a
/// tweak becomes a row carrying the block's hash, a failure is recorded, and
/// processing goes on either way.
pub open spec fn spec_process_block_step(
    hash: Seq<char>,
    tx: TxV,
    respk: Seq<Option<TxV>>,
    acc: BlockOutcomeV,
) -> BlockOutcomeV {
    if !spec_has_qualifying_output(tx) {
        acc
    } else {
        match spec_process_transaction(tx, respk) {
            TxOutcomeV::NoTweak => acc,
            TxOutcomeV::Tweak(t) => BlockOutcomeV {
                has_tweaks: true,
                rows: acc.rows.push(TweakRowV { block_hash: hash, tx_id: tx.txid, tweak: t }),
                failures: acc.failures,
            },
            TxOutcomeV::Failed(e) => BlockOutcomeV {
                has_tweaks: acc.has_tweaks,
                rows: acc.rows,
                failures: acc.failures.push(TxFailureV { tx_id: tx.txid, error: e }),
            },
        }
    }
}

/// Block processing from transaction `k` on, with the outcome accumulated
/// so far.
pub open spec fn spec_process_block_from(
    hash: Seq<char>,
    txs: Seq<TxV>,
    resps: Seq<Seq<Option<TxV>>>,
    k: int,
    acc: BlockOutcomeV,
) -> BlockOutcomeV
    decreases txs.len() - k,
{
    if k < 0 || k >= txs.len() {
        acc
    } else {
        spec_process_block_from(
            hash,
            txs,
            resps,
            k + 1,
            spec_process_block_step(hash, txs[k], resps[k], acc),
        )
    }
}

/// The whole block's processing under the per-transaction resolutions
/// `resps`.
pub open spec fn spec_process_block(
    hash: Seq<char>,
    txs: Seq<TxV>,
    resps: Seq<Seq<Option<TxV>>>,
) -> BlockOutcomeV {
    spec_process_block_from(hash, txs, resps, 0, spec_empty_outcome())
}

/// Process every transaction of a decoded block: apply the qualifying-output
/// test, run the orchestration for the transactions that pass it, stage a
/// tweak row per derived tweak, and record recovered failures. One failing
/// transaction never aborts the block. The result is exactly what
/// [`spec_process_block`] yields for the resolutions the port produced.
pub fn process_transactions<C: ChainAccess>(chain: &mut C, block: &BlockData) -> (r: BlockResult)
    ensures
        exists|resps: Seq<Seq<Option<TxV>>>| r@ == spec_process_block(
            block@.hash,
            block@.txs,
            resps,
        ),
{
    let ghost hash = block@.hash;
    let ghost txs = block@.txs;
    let mut has_tweaks: bool = false;
    let mut rows: Vec<Tweaks> = Vec::new();
    let mut failures: Vec<TxFailure> = Vec::new();
    let mut k: usize = 0;
    let ghost mut resps: Seq<Seq<Option<TxV>>> = Seq::empty();
    proof {
        assert(rows@.map_values(|t: Tweaks| t@) =~= Seq::<TweakRowV>::empty());
        assert(failures@.map_values(|f: TxFailure| f@) =~= Seq::<TxFailureV>::empty());
    }
    while k < block.txs.len()
        invariant
            k <= block.txs.len(),
            hash == block@.hash,
            txs == block@.txs,
            resps.len() == k,
            forall|restr: Seq<Seq<Option<TxV>>>| #[trigger] spec_process_block(
                hash,
                txs,
                resps + restr,
            ) == spec_process_block_from(
                hash,
                txs,
                resps + restr,
                k as int,
                BlockOutcomeV {
                    has_tweaks: has_tweaks,
                    rows: rows@.map_values(|t: Tweaks| t@),
                    failures: failures@.map_values(|f: TxFailure| f@),
                },
            ),
        decreases block.txs.len() - k,
    {
        let tx = &block.txs[k];
        let ghost old_resps = resps;
        let ghost old_acc = BlockOutcomeV {
            has_tweaks: has_tweaks,
            rows: rows@.map_values(|t: Tweaks| t@),
            failures: failures@.map_values(|f: TxFailure| f@),
        };
        assert(tx@ == txs[k as int]);
        if has_qualifying_output(tx) {
            let outcome = process_transaction(chain, tx);
            let ghost respk = choose|rp: Seq<Option<TxV>>|
                outcome@ == spec_process_transaction(txs[k as int], rp);
            proof {
                assert(outcome@ == spec_process_transaction(txs[k as int], respk));
                resps = resps.push(respk);
            }
            match outcome {
                TxOutcome::NoTweak => {
                    proof {
                        assert(BlockOutcomeV {
                            has_tweaks: has_tweaks,
                            rows: rows@.map_values(|t: Tweaks| t@),
                            failures: failures@.map_values(|f: TxFailure| f@),
                        } == spec_process_block_step(hash, txs[k as int], resps.last(), old_acc));
                    }
                },
                TxOutcome::Tweak(t) => {
                    let ghost tval = t@;
                    has_tweaks = true;
                    rows.push(
                        Tweaks {
                            block_hash: block.hash.clone(),
                            tx_id: tx.txid.clone(),
                            tweak: t,
                        },
                    );
                    proof {
                        assert(rows@.map_values(|t2: Tweaks| t2@) =~= old_acc.rows.push(
                            TweakRowV { block_hash: hash, tx_id: txs[k as int].txid, tweak: tval },
                        ));
                        assert(BlockOutcomeV {
                            has_tweaks: has_tweaks,
                            rows: rows@.map_values(|t2: Tweaks| t2@),
                            failures: failures@.map_values(|f: TxFailure| f@),
                        } == spec_process_block_step(hash, txs[k as int], resps.last(), old_acc));
                    }
                },
                TxOutcome::Failed(e) => {
                    failures.push(TxFailure { tx_id: tx.txid.clone(), error: e });
                    proof {
                        assert(failures@.map_values(|f: TxFailure| f@) =~= old_acc.failures.push(
                            TxFailureV { tx_id: txs[k as int].txid, error: e },
                        ));
                        assert(BlockOutcomeV {
                            has_tweaks: has_tweaks,
                            rows: rows@.map_values(|t: Tweaks| t@),
                            failures: failures@.map_values(|f: TxFailure| f@),
                        } == spec_process_block_step(hash, txs[k as int], resps.last(), old_acc));
                    }
                },
            }
        } else {
            proof {
                resps = resps.push(Seq::empty());
                assert(BlockOutcomeV {
                    has_tweaks: has_tweaks,
                    rows: rows@.map_values(|t: Tweaks| t@),
                    failures: failures@.map_values(|f: TxFailure| f@),
                } == spec_process_block_step(hash, txs[k as int], resps.last(), old_acc));
            }
        }
        proof {
            let acc = BlockOutcomeV {
                has_tweaks: has_tweaks,
                rows: rows@.map_values(|t: Tweaks| t@),
                failures: failures@.map_values(|f: TxFailure| f@),
            };
            let added = resps.last();
            assert(acc == spec_process_block_step(hash, txs[k as int], added, old_acc));
            assert forall|restr: Seq<Seq<Option<TxV>>>| #[trigger] spec_process_block(
                hash,
                txs,
                resps + restr,
            ) == spec_process_block_from(hash, txs, resps + restr, k + 1, acc) by {
                let restr0 = seq![added] + restr;
                assert(resps + restr =~= old_resps + restr0);
                assert(spec_process_block(hash, txs, old_resps + restr0)
                    == spec_process_block_from(hash, txs, old_resps + restr0, k as int, old_acc));
                assert((old_resps + restr0)[k as int] == added);
            }
        }
        k += 1;
    }
    proof {
        assert(resps + Seq::<Seq<Option<TxV>>>::empty() =~= resps);
        assert(spec_process_block(hash, txs, resps) == BlockOutcomeV {
            has_tweaks: has_tweaks,
            rows: rows@.map_values(|t: Tweaks| t@),
            failures: failures@.map_values(|f: TxFailure| f@),
        });
    }
    BlockResult { has_tweaks, rows, failures }
}

/// Law: the aggregated flag is exactly whether any tweak row was staged,
/// whatever any resolution holds.
pub proof fn lemma_flag_matches_rows(hash: Seq<char>, txs: Seq<TxV>, resps: Seq<Seq<Option<TxV>>>)
    ensures
        spec_process_block(hash, txs, resps).has_tweaks <==> spec_process_block(
            hash,
            txs,
            resps,
        ).rows.len() > 0,
{
    lemma_flag_from(hash, txs, resps, 0, spec_empty_outcome());
}

proof fn lemma_flag_from(
    hash: Seq<char>,
    txs: Seq<TxV>,
    resps: Seq<Seq<Option<TxV>>>,
    k: int,
    acc: BlockOutcomeV,
)
    requires
        0 <= k <= txs.len(),
        acc.has_tweaks <==> acc.rows.len() > 0,
    ensures
        spec_process_block_from(hash, txs, resps, k, acc).has_tweaks <==> spec_process_block_from(
            hash,
            txs,
            resps,
            k,
            acc,
        ).rows.len() > 0,
    decreases txs.len() - k,
{
    if k < txs.len() {
        lemma_flag_from(hash, txs, resps, k + 1, spec_process_block_step(hash, txs[k], resps[k], acc));
    }
}

/// Law: every staged tweak row carries the processed block's hash, whatever
/// any resolution holds.
pub proof fn lemma_rows_carry_block_hash(
    hash: Seq<char>,
    txs: Seq<TxV>,
    resps: Seq<Seq<Option<TxV>>>,
)
    ensures
        forall|j: int|
            0 <= j < spec_process_block(hash, txs, resps).rows.len() ==> (
            #[trigger] spec_process_block(hash, txs, resps).rows[j]).block_hash == hash,
{
    lemma_rows_hash_from(hash, txs, resps, 0, spec_empty_outcome());
}

proof fn lemma_rows_hash_from(
    hash: Seq<char>,
    txs: Seq<TxV>,
    resps: Seq<Seq<Option<TxV>>>,
    k: int,
    acc: BlockOutcomeV,
)
    requires
        0 <= k <= txs.len(),
        forall|j: int| 0 <= j < acc.rows.len() ==> (#[trigger] acc.rows[j]).block_hash == hash,
    ensures
        forall|j: int|
            0 <= j < spec_process_block_from(hash, txs, resps, k, acc).rows.len() ==> (
            #[trigger] spec_process_block_from(hash, txs, resps, k, acc).rows[j]).block_hash
                == hash,
    decreases txs.len() - k,
{
    if k < txs.len() {
        let step = spec_process_block_step(hash, txs[k], resps[k], acc);
        assert forall|j: int| 0 <= j < step.rows.len() implies (#[trigger] step.rows[j]).block_hash
            == hash by {
            if j < acc.rows.len() {
                assert(step.rows[j] == acc.rows[j]);
            }
        }
        lemma_rows_hash_from(hash, txs, resps, k + 1, step);
        assert(spec_process_block_from(hash, txs, resps, k, acc) == spec_process_block_from(
            hash,
            txs,
            resps,
            k + 1,
            step,
        ));
    }
}

/// Law: a block none of whose transactions has a qualifying output yields
/// nothing at all: no flag, no rows, no failures, whatever any resolution
/// holds.
pub proof fn lemma_unqualified_block_yields_nothing(
    hash: Seq<char>,
    txs: Seq<TxV>,
    resps: Seq<Seq<Option<TxV>>>,
)
    requires
        forall|i: int| 0 <= i < txs.len() ==> !spec_has_qualifying_output(txs[i]),
    ensures
        spec_process_block(hash, txs, resps) == spec_empty_outcome(),
{
    lemma_unqualified_from(hash, txs, resps, 0, spec_empty_outcome());
}

proof fn lemma_unqualified_from(
    hash: Seq<char>,
    txs: Seq<TxV>,
    resps: Seq<Seq<Option<TxV>>>,
    k: int,
    acc: BlockOutcomeV,
)
    requires
        0 <= k <= txs.len(),
        forall|i: int| 0 <= i < txs.len() ==> !spec_has_qualifying_output(txs[i]),
    ensures
        spec_process_block_from(hash, txs, resps, k, acc) == acc,
    decreases txs.len() - k,
{
    if k < txs.len() {
        lemma_unqualified_from(hash, txs, resps, k + 1, acc);
    }
}

} // verus!
