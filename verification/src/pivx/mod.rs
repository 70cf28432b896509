//! PIVX chain helpers.

pub mod types;
pub mod script;
pub mod coinstake;
pub mod coldstake;
pub mod zerocoin;
pub mod sapling;
pub mod tx;

use vstd::prelude::*;
use vstd::string::StringExecFns;

verus! {

/// Height at which PIVX mainnet activated Sapling (v5.0).
pub open spec fn spec_sapling_activation_height() -> u32 {
    2150000
}

/// `chain_name` is exactly `pivx`.
pub open spec fn spec_is_pivx_chain(chain_name: Seq<char>) -> bool {
    chain_name == "pivx"@
}

/// Whether `chain_name` is `pivx`.
pub fn is_pivx_chain(chain_name: &str) -> (r: bool)
    ensures
        r == spec_is_pivx_chain(chain_name@),
{
    String::from_str(chain_name) == String::from_str("pivx")
}

/// PIVX mainnet Sapling activation height.
pub fn sapling_activation_height() -> (h: u32)
    ensures
        h == spec_sapling_activation_height(),
{
    2150000
}

/// Whether a block height is at or after the Sapling activation.
pub fn is_sapling_height(height: u32) -> (r: bool)
    ensures
        r == (height >= spec_sapling_activation_height()),
{
    height >= sapling_activation_height()
}

/// Once a height is past the Sapling activation, every later height is too.
pub proof fn lemma_sapling_height_monotone(h1: u32, h2: u32)
    requires
        h1 <= h2,
        h1 >= spec_sapling_activation_height(),
    ensures
        h2 >= spec_sapling_activation_height(),
{
}

} // verus!
