//! Coinstake and cold-stake detection.

use vstd::prelude::*;
use crate::pivx::types::{TxOutputs, TxOut};
use crate::pivx::script::{script_is_op_return, spec_is_op_return};

verus! {

/// A coinstake has at least two outputs, the first of value zero.
pub open spec fn spec_is_coinstake(tx: TxOutputs) -> bool {
    tx.output@.len() >= 2 && tx.output@[0].value == 0
}

/// Whether `tx` is a PIVX coinstake.
pub fn is_coinstake(tx: &TxOutputs) -> (r: bool)
    ensures
        r == spec_is_coinstake(*tx),
        r <==> (tx.output@.len() >= 2 && tx.output@[0].value == 0),
{
    tx.output.len() >= 2 && tx.output[0].value == 0
}

/// Whether `vout` is a cold-stake output; an `OP_RETURN` script stands for
/// one until pay-to-cold-stake scripts are recognised.
pub fn is_coldstake_vout(vout: &TxOut) -> (r: bool)
    ensures
        r == spec_is_op_return(vout.script_pubkey@),
{
    script_is_op_return(vout.script_pubkey.as_slice())
}

/// A transaction is a coinstake exactly when it has at least two outputs
/// and the first is worth nothing, however many outputs follow; appending
/// outputs to a coinstake keeps it one.
pub proof fn lemma_coinstake_shape(tx: TxOutputs, more: TxOutputs)
    ensures
        spec_is_coinstake(tx) <==> (tx.output@.len() >= 2 && tx.output@[0].value == 0),
        spec_is_coinstake(tx) && more.output@.len() >= tx.output@.len() && more.output@.subrange(
            0,
            tx.output@.len() as int,
        ) == tx.output@ ==> spec_is_coinstake(more),
{
    if spec_is_coinstake(tx) && more.output@.len() >= tx.output@.len() && more.output@.subrange(
        0,
        tx.output@.len() as int,
    ) == tx.output@ {
        assert(more.output@[0] == more.output@.subrange(0, tx.output@.len() as int)[0]);
    }
}

} // verus!
