//! Bitcoin network names, network magic, hashes and block headers, as the
//! `bitcoin` crate parses and decodes them.

use vstd::prelude::*;
use crate::encoding::{all_hex_digits, hex_bytes};

verus! {

/// The Bitcoin networks that `bitcoin::Network` names.
#[derive(Clone, Copy, Debug, PartialEq, Eq, Structural)]
pub enum BtcNetwork {
    Bitcoin,
    Testnet,
    Testnet4,
    Signet,
    Regtest,
}

/// The network that a name selects, as `bitcoin::Network`'s `FromStr` reads it.
pub open spec fn network_named(s: Seq<char>) -> Option<BtcNetwork> {
    if s == "bitcoin"@ {
        Some(BtcNetwork::Bitcoin)
    } else if s == "testnet"@ {
        Some(BtcNetwork::Testnet)
    } else if s == "testnet4"@ {
        Some(BtcNetwork::Testnet4)
    } else if s == "signet"@ {
        Some(BtcNetwork::Signet)
    } else if s == "regtest"@ {
        Some(BtcNetwork::Regtest)
    } else {
        None
    }
}

/// The message-start ("magic") bytes of each network.
pub open spec fn spec_network_magic(n: BtcNetwork) -> Seq<u8> {
    match n {
        BtcNetwork::Bitcoin => seq![0xF9u8, 0xBEu8, 0xB4u8, 0xD9u8],
        BtcNetwork::Testnet => seq![0x0Bu8, 0x11u8, 0x09u8, 0x07u8],
        BtcNetwork::Testnet4 => seq![0x1Cu8, 0x16u8, 0x3Fu8, 0x28u8],
        BtcNetwork::Signet => seq![0x0Au8, 0x03u8, 0xCFu8, 0x40u8],
        BtcNetwork::Regtest => seq![0xFAu8, 0xBFu8, 0xB5u8, 0xDAu8],
    }
}

/// The error of parsing a network name (`bitcoin::network::ParseNetworkError`).
#[verifier::external_type_specification]
#[verifier::external_body]
pub struct ExParseNetworkError(bitcoin::network::ParseNetworkError);

/// The error of parsing network magic (`bitcoin::p2p::ParseMagicError`).
#[verifier::external_type_specification]
#[verifier::external_body]
pub struct ExParseMagicError(bitcoin::p2p::ParseMagicError);

/// The error of parsing a fixed-length hex hash (`bitcoin::hex::HexToArrayError`).
#[verifier::external_type_specification]
#[verifier::external_body]
pub struct ExHexToArrayError(bitcoin::hex::HexToArrayError);

/// The consensus decoding error (`bitcoin::consensus::encode::Error`).
#[verifier::external_type_specification]
#[verifier::external_body]
pub struct ExConsensusError(bitcoin::consensus::encode::Error);

/// `s.parse::<bitcoin::Network>()`: exactly the names `bitcoin`, `testnet`,
/// `testnet4`, `signet` and `regtest` are accepted (case-sensitive).
#[verifier::external_body]
pub(crate) fn parse_network(s: &str) -> (r: Result<BtcNetwork, bitcoin::network::ParseNetworkError>)
    ensures
        r is Ok <==> network_named(s@) is Some,
        r matches Ok(n) ==> network_named(s@) == Some(n),
{
    match s.parse::<bitcoin::Network>() {
        Ok(bitcoin::Network::Bitcoin) => Ok(BtcNetwork::Bitcoin),
        Ok(bitcoin::Network::Testnet) => Ok(BtcNetwork::Testnet),
        Ok(bitcoin::Network::Testnet4) => Ok(BtcNetwork::Testnet4),
        Ok(bitcoin::Network::Signet) => Ok(BtcNetwork::Signet),
        Ok(bitcoin::Network::Regtest) => Ok(BtcNetwork::Regtest),
        Err(e) => Err(e),
    }
}

/// `bitcoin::Network::magic`: the network's magic bytes, as the constants in
/// the crate's `p2p` module give them.
#[verifier::external_body]
pub(crate) fn network_magic(n: BtcNetwork) -> (r: [u8; 4])
    ensures
        r@ == spec_network_magic(n),
{
    let net = match n {
        BtcNetwork::Bitcoin => bitcoin::Network::Bitcoin,
        BtcNetwork::Testnet => bitcoin::Network::Testnet,
        BtcNetwork::Testnet4 => bitcoin::Network::Testnet4,
        BtcNetwork::Signet => bitcoin::Network::Signet,
        BtcNetwork::Regtest => bitcoin::Network::Regtest,
    };
    net.magic().to_bytes()
}

/// `s.parse::<bitcoin::p2p::Magic>()`: exactly eight hex digits, read as four
/// bytes in the order written.
#[verifier::external_body]
pub(crate) fn parse_magic(s: &str) -> (r: Result<[u8; 4], bitcoin::p2p::ParseMagicError>)
    ensures
        r is Ok <==> (s@.len() == 8 && all_hex_digits(s@)),
        r matches Ok(m) ==> m@ == hex_bytes(s@),
{
    match s.parse::<bitcoin::p2p::Magic>() {
        Ok(m) => Ok(m.to_bytes()),
        Err(e) => Err(e),
    }
}

/// A 32-byte hash written as hex in display order (byte-reversed).
pub open spec fn display_hash_bytes(s: Seq<char>) -> Seq<u8> {
    hex_bytes(s).reverse()
}

/// `s.parse::<bitcoin::BlockHash>()`: 64 hex digits, in display (reversed)
/// byte order; the result is the hash's bytes in internal order.
#[verifier::external_body]
pub(crate) fn parse_block_hash(s: &str) -> (r: Result<Vec<u8>, bitcoin::hex::HexToArrayError>)
    ensures
        r is Ok <==> (s@.len() == 64 && all_hex_digits(s@)),
        r matches Ok(h) ==> h@ == display_hash_bytes(s@),
{
    match s.parse::<bitcoin::BlockHash>() {
        Ok(h) => Ok(bitcoin::hashes::Hash::to_byte_array(h).to_vec()),
        Err(e) => Err(e),
    }
}

/// `s.parse::<bitcoin::TxMerkleNode>()`: 64 hex digits, in display (reversed)
/// byte order; the result is the hash's bytes in internal order.
#[verifier::external_body]
pub(crate) fn parse_merkle_node(s: &str) -> (r: Result<Vec<u8>, bitcoin::hex::HexToArrayError>)
    ensures
        r is Ok <==> (s@.len() == 64 && all_hex_digits(s@)),
        r matches Ok(h) ==> h@ == display_hash_bytes(s@),
{
    match s.parse::<bitcoin::TxMerkleNode>() {
        Ok(h) => Ok(bitcoin::hashes::Hash::to_byte_array(h).to_vec()),
        Err(e) => Err(e),
    }
}

/// The fields of a block header; hashes are 32 bytes in internal order.
#[derive(Debug)]
pub struct BlockHeaderFields {
    pub version: i32,
    pub prev_blockhash: Vec<u8>,
    pub merkle_root: Vec<u8>,
    pub time: u32,
    pub bits: u32,
    pub nonce: u32,
}

impl BlockHeaderFields {
    /// Both hashes are 32 bytes long.
    pub open spec fn wf(&self) -> bool {
        self.prev_blockhash@.len() == 32 && self.merkle_root@.len() == 32
    }
}

/// The little-endian `u32` at `off` in `b`.
pub open spec fn le_u32(b: Seq<u8>, off: int) -> u32 {
    (b[off] as u32 + b[off + 1] as u32 * 0x100 + b[off + 2] as u32 * 0x10000 + b[off + 3] as u32
        * 0x1000000) as u32
}

/// `h` holds the fields of the 80-byte consensus encoding `b` of a header:
/// version, previous hash, merkle root, time, bits and nonce, integers
/// little-endian.
pub open spec fn header_decodes_to(b: Seq<u8>, h: BlockHeaderFields) -> bool {
    &&& b.len() == 80
    &&& h.version == le_u32(b, 0) as i32
    &&& h.prev_blockhash@ == b.subrange(4, 36)
    &&& h.merkle_root@ == b.subrange(36, 68)
    &&& h.time == le_u32(b, 68)
    &&& h.bits == le_u32(b, 72)
    &&& h.nonce == le_u32(b, 76)
}

/// `bitcoin::consensus::deserialize::<bitcoin::block::Header>`: succeeds
/// exactly on 80 bytes (the decoder reads 80 and rejects leftover data).
#[verifier::external_body]
pub(crate) fn deserialize_header(b: &[u8]) -> (r: Result<BlockHeaderFields, bitcoin::consensus::encode::Error>)
    ensures
        r is Ok <==> b@.len() == 80,
        r matches Ok(h) ==> header_decodes_to(b@, h) && h.wf(),
{
    match bitcoin::consensus::deserialize::<bitcoin::block::Header>(b) {
        Ok(h) => Ok(BlockHeaderFields {
            version: h.version.to_consensus(),
            prev_blockhash: bitcoin::hashes::Hash::to_byte_array(h.prev_blockhash).to_vec(),
            merkle_root: bitcoin::hashes::Hash::to_byte_array(h.merkle_root).to_vec(),
            time: h.time,
            bits: h.bits.to_consensus(),
            nonce: h.nonce,
        }),
        Err(e) => Err(e),
    }
}

/// A transaction as the `bitcoin` crate holds it (`bitcoin::Transaction`).
#[verifier::external_type_specification]
#[verifier::external_body]
pub struct ExTransaction(bitcoin::Transaction);

/// A block as the `bitcoin` crate holds it (`bitcoin::Block`).
#[verifier::external_type_specification]
#[verifier::external_body]
pub struct ExBlock(bitcoin::Block);

/// What `bitcoin::consensus::deserialize::<bitcoin::Transaction>` gives for
/// the bytes `b`: the transaction they encode, or `None` when they are not a
/// complete encoding with no bytes left over.
pub uninterp spec fn decoded_transaction(b: Seq<u8>) -> Option<bitcoin::Transaction>;

/// What `bitcoin::consensus::deserialize::<bitcoin::Block>` gives for the
/// bytes `b`: the block they encode, or `None` when they are not a complete
/// encoding with no bytes left over.
pub uninterp spec fn decoded_block(b: Seq<u8>) -> Option<bitcoin::Block>;

/// `bitcoin::consensus::deserialize::<bitcoin::Transaction>`: the result is
/// the transaction that the bytes alone determine.
#[verifier::external_body]
pub(crate) fn deserialize_transaction(b: &[u8]) -> (r: Result<bitcoin::Transaction, bitcoin::consensus::encode::Error>)
    ensures
        r is Ok <==> decoded_transaction(b@) is Some,
        r matches Ok(t) ==> decoded_transaction(b@) == Some(t),
{
    bitcoin::consensus::deserialize::<bitcoin::Transaction>(b)
}

/// `bitcoin::consensus::deserialize::<bitcoin::Block>`: the result is the
/// block that the bytes alone determine.
#[verifier::external_body]
pub(crate) fn deserialize_block(b: &[u8]) -> (r: Result<bitcoin::Block, bitcoin::consensus::encode::Error>)
    ensures
        r is Ok <==> decoded_block(b@) is Some,
        r matches Ok(v) ==> decoded_block(b@) == Some(v),
{
    bitcoin::consensus::deserialize::<bitcoin::Block>(b)
}

/// The consensus encoding that `bitcoin::consensus::serialize` gives for the
/// block `b`.
pub uninterp spec fn block_encoding(b: bitcoin::Block) -> Seq<u8>;

/// `bitcoin::consensus::serialize` of a block: its consensus encoding, which
/// depends on the block alone.
#[verifier::external_body]
pub(crate) fn serialize_block(b: &bitcoin::Block) -> (r: Vec<u8>)
    ensures
        r@ == block_encoding(*b),
{
    bitcoin::consensus::serialize(b)
}

} // verus!
