//! PIVX support for an Electrum server: chain selection, configuration
//! decisions, daemon reply normalisation and transaction/script
//! classification, with their contracts.

pub mod text;
pub mod chain_kind;
pub mod config;
pub mod json;
pub mod daemon;
pub mod daemon_pivx;
pub mod encoding;
pub mod consensus;
pub mod pivx;
