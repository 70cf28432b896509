//! Which chain the server indexes.

use vstd::prelude::*;
use crate::text::{eq_ignore_ascii_case, str_eq_ignore_ascii_case};
use crate::pivx::spec_is_pivx_chain;

verus! {

/// The chain the server indexes.
#[derive(Copy, Clone, Debug, Eq, PartialEq, Structural)]
pub enum ChainKind {
    Bitcoin,
    Pivx,
}

/// The chain a name selects: `pivx` in any ASCII case selects PIVX; any
/// other name, or none, selects Bitcoin.
pub open spec fn spec_chain_from_name(name: Option<Seq<char>>) -> ChainKind {
    match name {
        Some(s) => if eq_ignore_ascii_case(s, "pivx"@) {
            ChainKind::Pivx
        } else {
            ChainKind::Bitcoin
        },
        None => ChainKind::Bitcoin,
    }
}

/// The chain that the value of `ELECTRS_CHAIN` selects.
pub fn chain_from_name(name: Option<&str>) -> (r: ChainKind)
    ensures
        r == spec_chain_from_name(match name {
            Some(s) => Some(s@),
            None => None,
        }),
{
    match name {
        Some(s) => if str_eq_ignore_ascii_case(s, "pivx") {
            ChainKind::Pivx
        } else {
            ChainKind::Bitcoin
        },
        None => ChainKind::Bitcoin,
    }
}

/// A name that `is_pivx_chain` accepts selects the PIVX chain.
pub proof fn lemma_pivx_chain_name_selects_pivx(name: Seq<char>)
    requires
        spec_is_pivx_chain(name),
    ensures
        spec_chain_from_name(Some(name)) == ChainKind::Pivx,
{
    reveal_strlit("pivx");
    assert(eq_ignore_ascii_case(name, "pivx"@));
}

} // verus!
