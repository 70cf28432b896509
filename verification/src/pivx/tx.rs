//! Parsing a PIVX transaction.

use vstd::prelude::*;
use crate::encoding::{hex_encode, hex_lower, hex_bytes, all_hex_digits, lemma_hex_lower_decodes};
use crate::pivx::coinstake::{is_coinstake, is_coldstake_vout, spec_is_coinstake};
use crate::pivx::sapling::{detect_sapling, no_sapling};
use crate::pivx::script::spec_is_op_return;
use crate::pivx::types::{PivxParsedTx, PivxTxOut, TxOutputs, ZerocoinData, ZerocoinType};
use crate::pivx::zerocoin::detect_zerocoin_outputs;

verus! {

/// `o` is the parsed form of output `v`: same value, script in lower-case
/// hex, and the cold-stake flag.
pub open spec fn output_parsed(v: crate::pivx::types::TxOut, o: PivxTxOut) -> bool {
    &&& o.value == v.value
    &&& o.script_hex@ == hex_lower(v.script_pubkey@)
    &&& o.is_coldstake == spec_is_op_return(v.script_pubkey@)
}

/// Parses a PIVX transaction: the coinstake flag, Zerocoin and Sapling
/// findings, and each output's value, script hex and cold-stake flag, in
/// output order. The block height is not used yet.
pub fn parse_pivx_tx(tx: &TxOutputs, _height: u32) -> (r: PivxParsedTx)
    ensures
        r.is_coinstake == spec_is_coinstake(*tx),
        r.is_coinstake <==> (tx.output@.len() >= 2 && tx.output@[0].value == 0),
        r.zerocoin == (ZerocoinData { has_zerocoin: false, zc_type: ZerocoinType::Unknown }),
        no_sapling(r.sapling),
        r.outputs@.len() == tx.output@.len(),
        forall|i: int| 0 <= i < tx.output@.len() ==> output_parsed(tx.output@[i], #[trigger] r.outputs@[i]),
{
    let is_cs = is_coinstake(tx);
    let zerocoin = detect_zerocoin_outputs();
    let sapling = detect_sapling();
    let mut outputs: Vec<PivxTxOut> = Vec::new();
    let mut i: usize = 0;
    while i < tx.output.len()
        invariant
            0 <= i <= tx.output@.len(),
            outputs@.len() == i,
            forall|j: int| 0 <= j < i ==> output_parsed(tx.output@[j], #[trigger] outputs@[j]),
        decreases tx.output@.len() - i,
    {
        let vout = &tx.output[i];
        let is_cold = is_coldstake_vout(vout);
        outputs.push(PivxTxOut {
            value: vout.value,
            script_hex: hex_encode(vout.script_pubkey.as_slice()),
            is_coldstake: is_cold,
        });
        i = i + 1;
    }
    PivxParsedTx { is_coinstake: is_cs, zerocoin, sapling, outputs }
}

/// The script hex of a parsed output decodes back to the output's script.
pub proof fn lemma_parsed_script_hex_decodes(v: crate::pivx::types::TxOut, o: PivxTxOut)
    requires
        output_parsed(v, o),
    ensures
        all_hex_digits(o.script_hex@),
        hex_bytes(o.script_hex@) == v.script_pubkey@,
{
    lemma_hex_lower_decodes(v.script_pubkey@);
}

} // verus!
