//! The BIP352 eligibility filter: locking-script predicates.
//!
//! A transaction must be considered by Silent-Payment scanners only if at
//! least one of its outputs carries a valid taproot locking script, and a
//! transaction is excluded altogether when one of its inputs spends an output
//! whose script declares a future segwit version.

use vstd::prelude::*;
use vstd::slice::slice_subrange;
use crate::types::{Tx, TxV};

verus! {

/// Whether 32 bytes are the encoding of a valid x-only curve point.
pub uninterp spec fn xonly_key_valid(b: Seq<u8>) -> bool;

/// Relies on secp256k1::XOnlyPublicKey::from_slice: whether a byte string
/// parses as a valid x-only public key depends on the bytes alone, and the
/// call returns an error rather than panicking on byte strings of any length.
#[verifier::external_body]
pub(crate) fn parse_xonly_key(b: &[u8]) -> (r: bool)
    ensures
        r == xonly_key_valid(b@),
{
    secp256k1::XOnlyPublicKey::from_slice(b).is_ok()
}

/// A valid taproot locking script: a push of the number 1 (the script
/// version), then a push of exactly 32 bytes that decode as a valid x-only
/// curve point.
pub open spec fn spec_is_taproot(s: Seq<u8>) -> bool {
    &&& s.len() == 34
    &&& s[0] == 0x51u8
    &&& s[1] == 0x20u8
    &&& xonly_key_valid(s.subrange(2, 34))
}

/// Whether a locking script is a valid taproot script (see [`spec_is_taproot`]).
pub fn is_taproot_output(script: &Vec<u8>) -> (r: bool)
    ensures
        r == spec_is_taproot(script@),
{
    if script.len() == 34 && script[0] == 0x51u8 && script[1] == 0x20u8 {
        let key = slice_subrange(script.as_slice(), 2, 34);
        parse_xonly_key(key)
    } else {
        false
    }
}

/// Whether any output of `tx` carries a valid taproot locking script.
pub open spec fn spec_has_qualifying_output(tx: TxV) -> bool {
    exists|i: int| 0 <= i < tx.outputs.len() && spec_is_taproot(tx.outputs[i].script_pubkey)
}

/// Whether a transaction has at least one qualifying (taproot) output, the
/// test that decides whether the tweak derivation runs for it at all.
pub fn has_qualifying_output(tx: &Tx) -> (r: bool)
    ensures
        r == spec_has_qualifying_output(tx@),
{
    let mut i: usize = 0;
    while i < tx.outputs.len()
        invariant
            i <= tx.outputs.len(),
            forall|j: int| 0 <= j < i ==> !spec_is_taproot(tx@.outputs[j].script_pubkey),
        decreases tx.outputs.len() - i,
    {
        if is_taproot_output(&tx.outputs[i].script_pubkey) {
            assert(spec_is_taproot(tx@.outputs[i as int].script_pubkey));
            return true;
        }
        i += 1;
    }
    false
}

/// The value of the first instruction of `s` when that instruction is a
/// data push of exactly one byte, mirroring how the consensus script reader
/// yields it: a direct one-byte push, or a one-byte push written with any of
/// the three explicit-length push opcodes.
pub open spec fn spec_first_single_byte_push(s: Seq<u8>) -> Option<u8> {
    if s.len() >= 2 && s[0] == 0x01u8 {
        Some(s[1])
    } else if s.len() >= 3 && s[0] == 0x4cu8 && s[1] == 0x01u8 {
        Some(s[2])
    } else if s.len() >= 4 && s[0] == 0x4du8 && s[1] == 0x01u8 && s[2] == 0x00u8 {
        Some(s[3])
    } else if s.len() >= 6 && s[0] == 0x4eu8 && s[1] == 0x01u8 && s[2] == 0x00u8
        && s[3] == 0x00u8 && s[4] == 0x00u8 {
        Some(s[5])
    } else {
        None
    }
}

/// A locking script that declares a segwit version of 2 or more: its first
/// instruction is a single-byte push whose value is strictly greater than 1.
/// Any input spending such an output disqualifies its whole transaction.
pub open spec fn spec_is_segwit_gt_v1(s: Seq<u8>) -> bool {
    match spec_first_single_byte_push(s) {
        Some(v) => v > 1,
        None => false,
    }
}

/// Whether the script's first instruction is a single-byte push with value
/// strictly greater than 1 (see [`spec_is_segwit_gt_v1`]).
pub fn is_segwit_gt_v1(script: &Vec<u8>) -> (r: bool)
    ensures
        r == spec_is_segwit_gt_v1(script@),
{
    let n = script.len();
    if n >= 2 && script[0] == 0x01u8 {
        script[1] > 1
    } else if n >= 3 && script[0] == 0x4cu8 && script[1] == 0x01u8 {
        script[2] > 1
    } else if n >= 4 && script[0] == 0x4du8 && script[1] == 0x01u8 && script[2] == 0x00u8 {
        script[3] > 1
    } else if n >= 6 && script[0] == 0x4eu8 && script[1] == 0x01u8 && script[2] == 0x00u8
        && script[3] == 0x00u8 && script[4] == 0x00u8 {
        script[5] > 1
    } else {
        false
    }
}

} // verus!
