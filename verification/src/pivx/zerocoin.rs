//! Zerocoin detection.

use vstd::prelude::*;
use crate::pivx::types::{ZerocoinData, ZerocoinType};

verus! {

/// Zerocoin detection; mints and spends are not decoded, so it reports
/// none, of unknown type.
pub fn detect_zerocoin_outputs() -> (d: ZerocoinData)
    ensures
        d == (ZerocoinData { has_zerocoin: false, zc_type: ZerocoinType::Unknown }),
{
    ZerocoinData { has_zerocoin: false, zc_type: ZerocoinType::Unknown }
}

} // verus!
