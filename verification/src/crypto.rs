//! The elliptic-curve boundary: input public-key recovery and tweak
//! aggregation, done by the `silentpayments` crate on plain values.
//!
//! Keys and tweaks cross this boundary as their serialized lowercase-hex
//! form, so the verified logic handles nothing but plain values.

use core::str::FromStr;
use vstd::prelude::*;

verus! {

/// Mathematical view of one pubkey-recovery outcome.
pub ghost enum PubkeyOutcomeV {
    /// The input contributes this public key (serialized hex).
    Found(Seq<char>),
    /// The input contributes nothing; this is not an error.
    NotFound,
    /// The input's data was malformed; the whole transaction fails.
    Failed,
}

/// Outcome of recovering a candidate public key from one input.
pub enum PubkeyResult {
    /// The input contributes this public key (serialized hex).
    Found(String),
    /// The input contributes nothing; this is not an error.
    NotFound,
    /// The input's data was malformed; the whole transaction fails.
    Failed,
}

impl View for PubkeyResult {
    type V = PubkeyOutcomeV;

    open spec fn view(&self) -> PubkeyOutcomeV {
        match self {
            PubkeyResult::Found(k) => PubkeyOutcomeV::Found(k@),
            PubkeyResult::NotFound => PubkeyOutcomeV::NotFound,
            PubkeyResult::Failed => PubkeyOutcomeV::Failed,
        }
    }
}

/// What key, if any, the pubkey-recovery primitive yields for one input's
/// unlocking data and the script of the output it spends: the outcome
/// depends on those three byte strings alone.
pub uninterp spec fn pubkey_extraction(
    script_sig: Seq<u8>,
    witness: Seq<Seq<u8>>,
    prev_script: Seq<u8>,
) -> PubkeyOutcomeV;

/// Relies on silentpayments::utils::receiving::get_pubkey_from_input: a pure
/// function of the three byte strings, returning a key, no key, or an error,
/// never panicking; the key is rendered as its serialized hex form by
/// secp256k1's `Display` impl, which also depends on the key alone.
#[verifier::external_body]
pub(crate) fn extract_input_pubkey(
    script_sig: &Vec<u8>,
    witness: &Vec<Vec<u8>>,
    prev_script: &Vec<u8>,
) -> (r: PubkeyResult)
    ensures
        r@ == pubkey_extraction(script_sig@, witness.deep_view(), prev_script@),
{
    match silentpayments::utils::receiving::get_pubkey_from_input(
        script_sig,
        witness,
        prev_script,
    ) {
        Ok(Some(pk)) => PubkeyResult::Found(pk.to_string()),
        Ok(None) => PubkeyResult::NotFound,
        Err(_) => PubkeyResult::Failed,
    }
}

/// The tweak the aggregation primitive yields for a list of recovered keys
/// (serialized hex, input order) and a list of outpoints (previous id and
/// output index, input order), or nothing where the aggregation rejects the
/// data: the outcome depends on those two lists alone.
pub uninterp spec fn tweak_of(
    keys: Seq<Seq<char>>,
    outpoints: Seq<(Seq<char>, u32)>,
) -> Option<Seq<char>>;

/// Relies on silentpayments::utils::receiving::calculate_tweak_data and
/// silentpayments::utils::OutPoint::from_txid_and_vout: a pure function of
/// the keys and outpoints handed in, returning a tweak key or an error,
/// never panicking; key parsing, outpoint parsing and the tweak's hex
/// rendering also depend on their arguments alone.
#[verifier::external_body]
pub(crate) fn calculate_tweak_hex(
    keys: &Vec<String>,
    outpoints: &Vec<(String, u32)>,
) -> (r: Option<String>)
    ensures
        match r {
            Some(t) => tweak_of(keys.deep_view(), outpoints.deep_view()) == Some(t@),
            None => tweak_of(keys.deep_view(), outpoints.deep_view()) is None,
        },
{
    let parsed_keys: Result<Vec<silentpayments::secp256k1::PublicKey>, _> =
        keys.iter().map(|k| silentpayments::secp256k1::PublicKey::from_str(k)).collect();
    let parsed_outpoints: Result<Vec<silentpayments::utils::OutPoint>, _> =
        outpoints.iter().map(|(t, v)| silentpayments::utils::OutPoint::from_txid_and_vout(t.clone(), *v)).collect();
    let (ks, os) = match (parsed_keys, parsed_outpoints) {
        (Ok(ks), Ok(os)) => (ks, os),
        _ => return None,
    };
    let refs: Vec<&silentpayments::secp256k1::PublicKey> = ks.iter().collect();
    match silentpayments::utils::receiving::calculate_tweak_data(&refs, &os) {
        Ok(tweak) => Some(tweak.to_string()),
        Err(_) => None,
    }
}

} // verus!
