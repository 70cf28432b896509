//! Sapling detection.

use vstd::prelude::*;
use crate::pivx::types::SaplingData;

verus! {

/// `d` records no Sapling data: no spends, no outputs, zero value balance,
/// no binding signature.
pub open spec fn no_sapling(d: SaplingData) -> bool {
    &&& d.spends@.len() == 0
    &&& d.outputs@.len() == 0
    &&& d.value_balance == 0
    &&& !d.has_binding_sig
}

/// Sapling detection; shielded data is not decoded, so it reports none.
pub fn detect_sapling() -> (d: SaplingData)
    ensures
        no_sapling(d),
{
    SaplingData { spends: Vec::new(), outputs: Vec::new(), value_balance: 0, has_binding_sig: false }
}

} // verus!
