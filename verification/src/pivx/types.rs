//! The parsed form of a PIVX transaction.

use vstd::prelude::*;

verus! {

/// Zerocoin type classification.
#[derive(Debug, Clone, Copy, PartialEq, Eq, Structural)]
pub enum ZerocoinType {
    MintV1,
    MintV2,
    SpendV3,
    Unknown,
}

/// Zerocoin findings for a transaction.
#[derive(Debug, Clone, Copy, PartialEq, Eq, Structural)]
pub struct ZerocoinData {
    pub has_zerocoin: bool,
    pub zc_type: ZerocoinType,
}

/// A Sapling spend description.
#[derive(Debug, Clone, Copy, PartialEq, Eq, Structural)]
pub struct SaplingSpend {
    pub dummy: bool,
}

/// A Sapling output description.
#[derive(Debug, Clone, Copy, PartialEq, Eq, Structural)]
pub struct SaplingOutput {
    pub dummy: bool,
}

/// Sapling findings for a transaction.
#[derive(Debug, Clone)]
pub struct SaplingData {
    pub spends: Vec<SaplingSpend>,
    pub outputs: Vec<SaplingOutput>,
    pub value_balance: i64,
    pub has_binding_sig: bool,
}

/// One parsed output of a PIVX transaction.
#[derive(Debug, Clone)]
pub struct PivxTxOut {
    /// Value in satoshis.
    pub value: u64,
    /// The output script in lower-case hex.
    pub script_hex: String,
    pub is_coldstake: bool,
}

/// A parsed PIVX transaction.
#[derive(Debug, Clone)]
pub struct PivxParsedTx {
    pub is_coinstake: bool,
    pub zerocoin: ZerocoinData,
    pub sapling: SaplingData,
    pub outputs: Vec<PivxTxOut>,
}

/// A transaction output: its value in satoshis and its output script.
#[derive(Debug, Clone)]
pub struct TxOut {
    pub value: u64,
    pub script_pubkey: Vec<u8>,
}

/// The outputs of a transaction, which is what the PIVX parsing reads.
#[derive(Debug, Clone)]
pub struct TxOutputs {
    pub output: Vec<TxOut>,
}

} // verus!
