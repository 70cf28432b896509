//! Coinstake and cold-stake detection (the cold-stake module's variant).

use vstd::prelude::*;
use crate::pivx::types::{TxOutputs, TxOut};
use crate::pivx::script::{script_is_op_return, spec_is_op_return};
use crate::pivx::coinstake::spec_is_coinstake;

verus! {

/// Whether `tx` is a PIVX coinstake.
pub fn is_coinstake(tx: &TxOutputs) -> (r: bool)
    ensures
        r == spec_is_coinstake(*tx),
        r <==> (tx.output@.len() >= 2 && tx.output@[0].value == 0),
{
    tx.output.len() >= 2 && tx.output[0].value == 0
}

/// Whether `vout` is a cold-stake output; an `OP_RETURN` script stands for
/// one until pay-to-cold-stake scripts are recognised.
pub fn is_coldstake_vout(vout: &TxOut) -> (r: bool)
    ensures
        r == spec_is_op_return(vout.script_pubkey@),
{
    script_is_op_return(vout.script_pubkey.as_slice())
}

} // verus!
