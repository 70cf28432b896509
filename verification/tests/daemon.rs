use electrs_pivx::daemon::{
    batch_size_setting, check_node, fee_estimation_disabled, header_batches, header_from_getblockheader_reply,
    block_bytes_from_hex, block_from_hex, header_from_hex, header_from_rpc_reply, mempool_transaction_from_reply, header_sync_range, normalize_blockchain_info, normalize_network_info,
    parse_cookie, pivx_mempool_summary, poll_outcome, skip_genesis_setting, test_limit_setting, zero_header,
    ChainInfoReply, CookieError, Daemon, HeaderReplyError, NodeError, PollOutcome,
};
use electrs_pivx::daemon_pivx::{block_hash_from_reply, BlockHashReplyError, PivxDaemon};
use electrs_pivx::chain_kind::ChainKind;
use electrs_pivx::json::{JsonNumber, JsonValue};

fn s(v: &str) -> JsonValue {
    JsonValue::Str(v.to_owned())
}

fn n(v: u64) -> JsonValue {
    JsonValue::Number(JsonNumber::PosInt(v))
}

fn obj(entries: Vec<(&str, JsonValue)>) -> JsonValue {
    JsonValue::Object(entries.into_iter().map(|(k, v)| (k.to_owned(), v)).collect())
}

fn member<'a>(v: &'a JsonValue, k: &str) -> Option<&'a JsonValue> {
    match v {
        JsonValue::Object(o) => o.iter().find(|(key, _)| key == k).map(|(_, v)| v),
        _ => None,
    }
}

fn keys(v: &JsonValue) -> Vec<String> {
    match v {
        JsonValue::Object(o) => {
            let mut k: Vec<String> = o.iter().map(|(k, _)| k.clone()).collect();
            k.sort();
            k
        }
        _ => vec![],
    }
}

fn is_array_len(v: Option<&JsonValue>, len: usize) -> bool {
    matches!(v, Some(JsonValue::Array(a)) if a.len() == len)
}

#[test]
fn network_info_networks_object_becomes_array() {
    let raw = obj(vec![
        ("version", n(5060000)),
        ("networks", obj(vec![("ipv4", obj(vec![("name", s("ipv4"))])), ("ipv6", obj(vec![("name", s("ipv6"))]))])),
    ]);
    let r = normalize_network_info(raw);
    match member(&r, "networks") {
        Some(JsonValue::Array(a)) => {
            assert_eq!(a.len(), 2);
            assert!(matches!(member(&a[0], "name"), Some(JsonValue::Str(x)) if x == "ipv4"));
            assert!(matches!(member(&a[1], "name"), Some(JsonValue::Str(x)) if x == "ipv6"));
        }
        other => panic!("unexpected {:?}", other),
    }
    assert!(is_array_len(member(&r, "localaddresses"), 0));
    assert!(matches!(member(&r, "localrelay"), Some(JsonValue::Bool(true))));
    assert!(matches!(member(&r, "incrementalfee"), Some(JsonValue::Number(JsonNumber::Float(t))) if t == "0.0001"));
    assert!(is_array_len(member(&r, "localservicesnames"), 0));
    assert!(matches!(member(&r, "connections_in"), Some(JsonValue::Number(JsonNumber::PosInt(0)))));
    assert!(matches!(member(&r, "connections_out"), Some(JsonValue::Number(JsonNumber::PosInt(0)))));
    assert!(matches!(member(&r, "version"), Some(JsonValue::Number(JsonNumber::PosInt(5060000)))));
    assert_eq!(keys(&r).len(), 8);
}

#[test]
fn network_info_keeps_present_values() {
    let raw = obj(vec![
        ("networks", JsonValue::Array(vec![s("a")])),
        ("localaddresses", JsonValue::Array(vec![s("x"), s("y")])),
        ("localrelay", JsonValue::Bool(false)),
        ("connections_in", n(3)),
    ]);
    let r = normalize_network_info(raw);
    assert!(is_array_len(member(&r, "networks"), 1));
    assert!(is_array_len(member(&r, "localaddresses"), 2));
    assert!(matches!(member(&r, "localrelay"), Some(JsonValue::Bool(false))));
    assert!(matches!(member(&r, "connections_in"), Some(JsonValue::Number(JsonNumber::PosInt(3)))));
    assert_eq!(keys(&r).len(), 7);
}

#[test]
fn network_info_bad_shapes_are_reset() {
    let raw = obj(vec![("networks", s("weird")), ("localaddresses", JsonValue::Null)]);
    let r = normalize_network_info(raw);
    assert!(is_array_len(member(&r, "networks"), 0));
    assert!(is_array_len(member(&r, "localaddresses"), 0));
    let r = normalize_network_info(obj(vec![]));
    assert!(is_array_len(member(&r, "networks"), 0));
    assert_eq!(keys(&r).len(), 7);
}

#[test]
fn network_info_normalization_is_idempotent() {
    let raw = obj(vec![("networks", obj(vec![("ipv4", n(1))])), ("version", n(1))]);
    let once = normalize_network_info(raw);
    let k1 = keys(&once);
    let twice = normalize_network_info(once);
    assert_eq!(keys(&twice), k1);
    assert!(is_array_len(member(&twice, "networks"), 1));
}

#[test]
fn blockchain_info_softforks_array_becomes_map() {
    let raw = obj(vec![
        ("blocks", n(100)),
        (
            "softforks",
            JsonValue::Array(vec![
                obj(vec![("id", s("bip65")), ("version", n(4))]),
                obj(vec![("id", s("bip66")), ("type", s("bip9")), ("active", JsonValue::Bool(false))]),
                obj(vec![("version", n(9))]),
                obj(vec![("id", s("bip65")), ("version", n(5))]),
            ]),
        ),
        ("bip9_softforks", JsonValue::Array(vec![obj(vec![("id", s("csv")), ("status", s("active"))])])),
        ("initial_block_downloading", JsonValue::Bool(true)),
    ]);
    let r = normalize_blockchain_info(raw, 1_700_000_000);
    let forks = member(&r, "softforks").unwrap();
    assert_eq!(keys(forks), vec!["bip65".to_owned(), "bip66".to_owned()]);
    let bip65 = member(forks, "bip65").unwrap();
    assert!(matches!(member(bip65, "version"), Some(JsonValue::Number(JsonNumber::PosInt(5)))));
    assert!(matches!(member(bip65, "type"), Some(JsonValue::Str(t)) if t == "buried"));
    assert!(matches!(member(bip65, "active"), Some(JsonValue::Bool(true))));
    let bip66 = member(forks, "bip66").unwrap();
    assert!(matches!(member(bip66, "type"), Some(JsonValue::Str(t)) if t == "bip9"));
    assert!(matches!(member(bip66, "active"), Some(JsonValue::Bool(false))));
    let bip9 = member(&r, "bip9_softforks").unwrap();
    assert_eq!(keys(bip9), vec!["csv".to_owned()]);
    assert!(member(member(bip9, "csv").unwrap(), "type").is_none());
    assert!(member(&r, "initial_block_downloading").is_none());
    assert!(matches!(member(&r, "initialblockdownload"), Some(JsonValue::Bool(true))));
    assert!(matches!(member(&r, "mediantime"), Some(JsonValue::Number(JsonNumber::PosInt(1_700_000_000)))));
    assert!(matches!(member(&r, "verificationprogress"), Some(JsonValue::Number(JsonNumber::Float(t))) if t == "1.0"));
    assert!(matches!(member(&r, "chain"), Some(JsonValue::Str(t)) if t == "main"));
    assert!(matches!(member(&r, "chainwork"), Some(JsonValue::Str(t)) if t.is_empty()));
    assert!(matches!(member(&r, "upgrades"), Some(JsonValue::Object(o)) if o.is_empty()));
    assert!(matches!(member(&r, "pruned"), Some(JsonValue::Bool(false))));
    assert!(matches!(member(&r, "automatic_pruning"), Some(JsonValue::Bool(false))));
    assert!(matches!(member(&r, "pruneheight"), Some(JsonValue::Number(JsonNumber::PosInt(0)))));
    assert!(matches!(member(&r, "size_on_disk"), Some(JsonValue::Number(JsonNumber::PosInt(0)))));
    assert!(matches!(member(&r, "warnings"), Some(JsonValue::Str(t)) if t.is_empty()));
    assert!(matches!(member(&r, "blocks"), Some(JsonValue::Number(JsonNumber::PosInt(100)))));
}

#[test]
fn blockchain_info_defaults_and_kept_values() {
    let raw = obj(vec![("chain", s("test")), ("mediantime", n(5)), ("bip9_softforks", s("x"))]);
    let r = normalize_blockchain_info(raw, 99);
    assert!(matches!(member(&r, "chain"), Some(JsonValue::Str(t)) if t == "test"));
    assert!(matches!(member(&r, "mediantime"), Some(JsonValue::Number(JsonNumber::PosInt(5)))));
    assert!(matches!(member(&r, "bip9_softforks"), Some(JsonValue::Object(o)) if o.is_empty()));
    assert!(matches!(member(&r, "initialblockdownload"), Some(JsonValue::Bool(false))));
    assert!(member(&r, "softforks").is_none());
    let once_keys = keys(&r);
    let twice = normalize_blockchain_info(r, 12345);
    assert_eq!(keys(&twice), once_keys);
    assert!(matches!(member(&twice, "mediantime"), Some(JsonValue::Number(JsonNumber::PosInt(5)))));
}

#[test]
fn header_from_verbose_reply() {
    let prev = "00000000000000000000000000000000000000000000000000000000000000ff";
    let raw = obj(vec![
        ("version", n(3)),
        ("previousblockhash", s(prev)),
        ("merkleroot", s("0102030405060708090a0b0c0d0e0f101112131415161718191a1b1c1d1e1f20")),
        ("time", n(1_600_000_000)),
        ("bits", n(0x1d00ffff)),
        ("nonce", n(0x1_0000_0005)),
    ]);
    let h = header_from_rpc_reply(Some(&raw));
    assert_eq!(h.version, 3);
    let mut expected_prev = vec![0u8; 32];
    expected_prev[0] = 0xff;
    assert_eq!(h.prev_blockhash, expected_prev);
    let expected_merkle: Vec<u8> = (1u8..=32).rev().collect();
    assert_eq!(h.merkle_root, expected_merkle);
    assert_eq!(h.time, 1_600_000_000);
    assert_eq!(h.bits, 0x1d00ffff);
    assert_eq!(h.nonce, 5);
    let bad = obj(vec![("merkleroot", s("nothex")), ("version", JsonValue::Number(JsonNumber::NegInt(-3)))]);
    let hb = header_from_rpc_reply(Some(&bad));
    assert_eq!(hb.merkle_root, vec![0u8; 32]);
    assert_eq!(hb.version, -3);
    let z = header_from_rpc_reply(None);
    assert_eq!(z.version, 0);
    assert_eq!(z.prev_blockhash, vec![0u8; 32]);
    assert_eq!(z.time, 0);
    let zh = zero_header();
    assert_eq!(zh.merkle_root, vec![0u8; 32]);
    assert_eq!(zh.nonce, 0);
}

fn prev_bytes() -> Vec<u8> {
    (0u8..32).collect()
}

fn merkle_bytes() -> Vec<u8> {
    (100u8..132).collect()
}

fn header_hex() -> String {
    let mut b = Vec::new();
    b.extend_from_slice(&(-2i32).to_le_bytes());
    b.extend_from_slice(&prev_bytes());
    b.extend_from_slice(&merkle_bytes());
    b.extend_from_slice(&1234u32.to_le_bytes());
    b.extend_from_slice(&0x1e0ffff0u32.to_le_bytes());
    b.extend_from_slice(&77u32.to_le_bytes());
    hex::encode(b)
}

#[test]
fn header_from_hex_reply() {
    let h = header_from_hex(&header_hex()).unwrap();
    assert_eq!(h.version, -2);
    assert_eq!(h.prev_blockhash, prev_bytes());
    assert_eq!(h.merkle_root, merkle_bytes());
    assert_eq!(h.time, 1234);
    assert_eq!(h.bits, 0x1e0ffff0);
    assert_eq!(h.nonce, 77);
    assert_eq!(header_from_hex("zz").unwrap_err(), HeaderReplyError::InvalidHex);
    assert_eq!(header_from_hex("abc").unwrap_err(), HeaderReplyError::InvalidHex);
    assert_eq!(header_from_hex("abcd").unwrap_err(), HeaderReplyError::InvalidHeader);
    let r = header_from_getblockheader_reply(&JsonValue::Str(header_hex())).unwrap();
    assert_eq!(r.nonce, 77);
}

#[test]
fn header_from_pivx_object_reply() {
    let merkle = "2222222222222222222222222222222222222222222222222222222222222201";
    let raw = obj(vec![("version", n(7)), ("merkleroot", s(merkle)), ("bits", s("1e0ffff0")), ("time", n(9))]);
    let h = header_from_getblockheader_reply(&raw).unwrap();
    assert_eq!(h.version, 7);
    assert_eq!(h.prev_blockhash, vec![0u8; 32]);
    let mut m = vec![0x22u8; 32];
    m[31] = 0x01;
    assert_eq!(h.merkle_root, m);
    assert_eq!(h.bits, 0x1e0ffff0);
    assert_eq!(h.time, 9);
    assert_eq!(h.nonce, 0);
    let h = header_from_getblockheader_reply(&obj(vec![])).unwrap();
    assert_eq!(h.bits, 0x1d00ffff);
    let h = header_from_getblockheader_reply(&obj(vec![("bits", s("xyz"))])).unwrap();
    assert_eq!(h.bits, 0);
    assert_eq!(header_from_getblockheader_reply(&n(3)).unwrap_err(), HeaderReplyError::NotObject);
}

#[test]
fn poll_outcomes() {
    let info = |headers, blocks, ibd| ChainInfoReply::Info { headers, blocks, initial_block_download: ibd };
    assert_eq!(poll_outcome(&info(10, 10, false), false), PollOutcome::Ready);
    assert_eq!(
        poll_outcome(&info(10, 7, false), false),
        PollOutcome::Downloading { left_blocks: 3, initial_block_download: false }
    );
    assert_eq!(
        poll_outcome(&info(5, 7, true), false),
        PollOutcome::Downloading { left_blocks: 0, initial_block_download: true }
    );
    assert_eq!(poll_outcome(&info(10, 7, true), true), PollOutcome::Ready);
    assert_eq!(
        poll_outcome(&ChainInfoReply::Failed { rpc_error_code: Some(-28) }, false),
        PollOutcome::WarmingUp
    );
    assert_eq!(
        poll_outcome(&ChainInfoReply::Failed { rpc_error_code: Some(-1) }, false),
        PollOutcome::Unavailable
    );
    assert_eq!(poll_outcome(&ChainInfoReply::Failed { rpc_error_code: None }, true), PollOutcome::Unavailable);
}

#[test]
fn node_requirements() {
    assert_eq!(check_node(ChainKind::Bitcoin, 209999, true, false), Err(NodeError::TooOld));
    assert_eq!(check_node(ChainKind::Bitcoin, 210000, false, false), Err(NodeError::NetworkInactive));
    assert_eq!(check_node(ChainKind::Bitcoin, 250000, true, true), Err(NodeError::Pruned));
    assert_eq!(check_node(ChainKind::Bitcoin, 250000, true, false), Ok(()));
    assert_eq!(check_node(ChainKind::Pivx, 0, false, true), Ok(()));
}

#[test]
fn mempool_summary() {
    let m = pivx_mempool_summary(4, &vec![Some(100), None, Some(u64::MAX), Some(1)]);
    assert_eq!(m.size, 4);
    assert_eq!(m.bytes, 1000);
    assert_eq!(m.usage, 1000);
    assert_eq!(m.max_mempool, 300_000_000);
    assert_eq!(m.mempool_min_fee_sat, 1000);
    assert_eq!(m.min_relay_tx_fee_sat, 1000);
    assert_eq!(m.incremental_relay_fee_sat, Some(1000));
    assert_eq!(m.full_rbf, Some(false));
    assert_eq!(m.loaded, Some(true));
    assert_eq!(m.unbroadcast_count, Some(0));
    assert_eq!(m.total_fee_sat, Some(u64::MAX));
    let m = pivx_mempool_summary(2, &vec![Some(10), Some(32)]);
    assert_eq!(m.total_fee_sat, Some(42));
    let m = pivx_mempool_summary(0, &vec![]);
    assert_eq!(m.bytes, 0);
    assert_eq!(m.total_fee_sat, Some(0));
}

#[test]
fn header_sync_ranges() {
    assert_eq!(header_sync_range(100, 90, false, None), Some((91, 100)));
    assert_eq!(header_sync_range(100, 100, false, None), None);
    assert_eq!(header_sync_range(100, 0, true, None), Some((2, 100)));
    assert_eq!(header_sync_range(100, 0, false, None), Some((1, 100)));
    assert_eq!(header_sync_range(100, 10, false, Some(50)), Some((11, 50)));
    assert_eq!(header_sync_range(100, 50, false, Some(50)), None);
    assert_eq!(header_sync_range(40, 10, false, Some(50)), Some((11, 40)));
}

#[test]
fn header_batch_split() {
    assert_eq!(header_batches(1, 10, 4), vec![(1, 4), (5, 8), (9, 10)]);
    assert_eq!(header_batches(5, 5, 2000), vec![(5, 5)]);
    assert_eq!(header_batches(10, u64::MAX - 1, u64::MAX), vec![(10, u64::MAX - 1)]);
    assert_eq!(header_batches(u64::MAX - 3, u64::MAX - 1, u64::MAX - 2), vec![(u64::MAX - 3, u64::MAX - 1)]);
    assert_eq!(header_batches(1, 6, 3), vec![(1, 3), (4, 6)]);
    assert_eq!(header_batches(3, 5, 1), vec![(3, 3), (4, 4), (5, 5)]);
}

#[test]
fn environment_settings() {
    assert_eq!(batch_size_setting(None), 2000);
    assert_eq!(batch_size_setting(Some("500")), 500);
    assert_eq!(batch_size_setting(Some("+7")), 7);
    assert_eq!(batch_size_setting(Some("-7")), 2000);
    assert_eq!(batch_size_setting(Some("x")), 2000);
    assert_eq!(batch_size_setting(Some("18446744073709551616")), 2000);
    assert_eq!(batch_size_setting(Some("18446744073709551615")), u64::MAX);
    assert_eq!(test_limit_setting(Some("1000")), Some(1000));
    assert_eq!(test_limit_setting(Some("")), None);
    assert_eq!(test_limit_setting(None), None);
    assert!(skip_genesis_setting(Some("1")));
    assert!(skip_genesis_setting(Some("TRUE")));
    assert!(skip_genesis_setting(Some("true")));
    assert!(!skip_genesis_setting(Some("yes")));
    assert!(!skip_genesis_setting(Some("01")));
    assert!(!skip_genesis_setting(None));
}

#[test]
fn cookie_parsing() {
    let (u, p) = parse_cookie("__cookie__:abc:def\n").unwrap();
    assert_eq!(u, "__cookie__");
    assert_eq!(p, "abc:def\n");
    assert_eq!(format!("{}:{}", u, p), "__cookie__:abc:def\n");
    assert_eq!(parse_cookie("nocolon").unwrap_err(), CookieError::MissingSeparator);
}

#[test]
fn fee_estimation_codes() {
    assert!(fee_estimation_disabled(Some(-32603)));
    assert!(!fee_estimation_disabled(Some(-28)));
    assert!(!fee_estimation_disabled(None));
}

#[test]
fn block_hash_reply() {
    assert_eq!(block_hash_from_reply(&s("abcd")).unwrap(), "abcd");
    assert_eq!(block_hash_from_reply(&n(1)).unwrap_err(), BlockHashReplyError::NotAString);
}

#[test]
fn pivx_daemon_wraps_daemon() {
    let rpc = bitcoincore_rpc::Client::new("http://127.0.0.1:1", bitcoincore_rpc::Auth::None).unwrap();
    let d = PivxDaemon::new(Daemon { rpc });
    let _ = &d.inner.rpc;
}

fn sample_tx() -> bitcoin::Transaction {
    bitcoin::Transaction {
        version: bitcoin::transaction::Version::ONE,
        lock_time: bitcoin::absolute::LockTime::ZERO,
        input: vec![bitcoin::TxIn::default()],
        output: vec![bitcoin::TxOut { value: bitcoin::Amount::from_sat(5000), script_pubkey: bitcoin::ScriptBuf::new() }],
    }
}

#[test]
fn mempool_transaction_decodes_hex_reply() {
    let tx = sample_tx();
    let hex = bitcoin::consensus::encode::serialize_hex(&tx);
    let decoded = mempool_transaction_from_reply(Some(&hex)).unwrap();
    assert_eq!(decoded, tx);
    assert_eq!(decoded.output[0].value.to_sat(), 5000);
    assert!(mempool_transaction_from_reply(Some(&hex.to_uppercase())).is_some());
}

#[test]
fn mempool_transaction_rejects_bad_replies() {
    let hex = bitcoin::consensus::encode::serialize_hex(&sample_tx());
    assert!(mempool_transaction_from_reply(None).is_none());
    assert!(mempool_transaction_from_reply(Some("xyz0")).is_none());
    assert!(mempool_transaction_from_reply(Some(&hex[..hex.len() - 1])).is_none());
    assert!(mempool_transaction_from_reply(Some(&hex[..hex.len() - 2])).is_none());
    assert!(mempool_transaction_from_reply(Some(&format!("{}00", hex))).is_none());
}

#[test]
fn block_decodes_from_hex() {
    let genesis = bitcoin::blockdata::constants::genesis_block(bitcoin::Network::Bitcoin);
    let hex = bitcoin::consensus::encode::serialize_hex(&genesis);
    let block = block_from_hex(&hex).unwrap();
    assert_eq!(block, genesis);
    assert_eq!(block.txdata.len(), 1);
    assert!(block_from_hex("00").is_none());
    assert!(block_from_hex("not hex").is_none());
    assert!(block_from_hex(&format!("{}ff", hex)).is_none());
}

#[test]
fn block_bytes_from_hex_reencodes_block() {
    let genesis = bitcoin::blockdata::constants::genesis_block(bitcoin::Network::Bitcoin);
    let bytes = bitcoin::consensus::serialize(&genesis);
    let hex = hex::encode(&bytes);
    assert_eq!(block_bytes_from_hex(&hex), Some(bytes.clone()));
    assert_eq!(block_bytes_from_hex(&hex.to_uppercase()), Some(bytes));
    assert_eq!(block_bytes_from_hex("00"), None);
    assert_eq!(block_bytes_from_hex("zz"), None);
}
