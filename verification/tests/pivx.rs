use electrs_pivx::chain_kind::{chain_from_name, ChainKind};
use electrs_pivx::pivx::script::{classify_script, ScriptClass};
use electrs_pivx::pivx::types::{TxOutputs, TxOut, ZerocoinType};
use electrs_pivx::pivx::{coinstake, coldstake, is_pivx_chain, is_sapling_height, sapling_activation_height};
use electrs_pivx::pivx::sapling::detect_sapling;
use electrs_pivx::pivx::tx::parse_pivx_tx;
use electrs_pivx::pivx::zerocoin::detect_zerocoin_outputs;

#[test]
fn pivx_chain_names() {
    assert!(is_pivx_chain("pivx"));
    assert!(!is_pivx_chain("PIVX"));
    assert!(!is_pivx_chain("PiVx"));
    assert!(!is_pivx_chain("pivx "));
    assert!(!is_pivx_chain("bitcoin"));
    assert!(!is_pivx_chain(""));
}

#[test]
fn pivx_chain_name_selects_pivx() {
    assert_eq!(chain_from_name(Some("pivx")), ChainKind::Pivx);
    assert!(is_pivx_chain("pivx"));
    for name in ["PIVX", "Pivx"] {
        assert_eq!(chain_from_name(Some(name)), ChainKind::Pivx);
        assert!(!is_pivx_chain(name));
    }
    for name in ["bitcoin", "", "pivxx", "piv"] {
        assert_eq!(chain_from_name(Some(name)), ChainKind::Bitcoin);
        assert!(!is_pivx_chain(name));
    }
    assert_eq!(chain_from_name(None), ChainKind::Bitcoin);
}

#[test]
fn sapling_heights() {
    assert_eq!(sapling_activation_height(), 2150000);
    assert!(!is_sapling_height(0));
    assert!(!is_sapling_height(2149999));
    assert!(is_sapling_height(2150000));
    assert!(is_sapling_height(u32::MAX));
}

#[test]
fn detectors_report_nothing() {
    let s = detect_sapling();
    assert!(s.spends.is_empty());
    assert!(s.outputs.is_empty());
    assert_eq!(s.value_balance, 0);
    assert!(!s.has_binding_sig);
    let z = detect_zerocoin_outputs();
    assert!(!z.has_zerocoin);
    assert_eq!(z.zc_type, ZerocoinType::Unknown);
}

fn out(value: u64, script: &[u8]) -> TxOut {
    TxOut { value, script_pubkey: script.to_vec() }
}

#[test]
fn coinstake_detection() {
    let cs = TxOutputs { output: vec![out(0, &[]), out(5, &[0x76])] };
    assert!(coinstake::is_coinstake(&cs));
    assert!(coldstake::is_coinstake(&cs));
    let one = TxOutputs { output: vec![out(0, &[])] };
    assert!(!coinstake::is_coinstake(&one));
    assert!(!coldstake::is_coinstake(&one));
    let paid = TxOutputs { output: vec![out(1, &[]), out(5, &[])] };
    assert!(!coinstake::is_coinstake(&paid));
    assert!(!coldstake::is_coinstake(&paid));
}

#[test]
fn coldstake_vout_is_op_return() {
    assert!(coinstake::is_coldstake_vout(&out(0, &[0x6a, 0x01])));
    assert!(coldstake::is_coldstake_vout(&out(0, &[0x6a])));
    assert!(!coinstake::is_coldstake_vout(&out(0, &[])));
    assert!(!coldstake::is_coldstake_vout(&out(0, &[0x76, 0x6a])));
}

fn p2pkh() -> Vec<u8> {
    let mut s = vec![0x76, 0xa9, 0x14];
    s.extend_from_slice(&[0x11; 20]);
    s.extend_from_slice(&[0x88, 0xac]);
    s
}

fn p2sh() -> Vec<u8> {
    let mut s = vec![0xa9, 0x14];
    s.extend_from_slice(&[0x22; 20]);
    s.push(0x87);
    s
}

fn p2pk(len: u8) -> Vec<u8> {
    let mut s = vec![len];
    s.extend(std::iter::repeat(0x02).take(len as usize));
    s.push(0xac);
    s
}

#[test]
fn script_classes() {
    assert_eq!(classify_script(&p2pkh()), ScriptClass::P2PKH);
    assert_eq!(classify_script(&p2sh()), ScriptClass::P2SH);
    assert_eq!(classify_script(&p2pk(33)), ScriptClass::P2PK);
    assert_eq!(classify_script(&p2pk(65)), ScriptClass::P2PK);
    assert_eq!(classify_script(&p2pk(32)), ScriptClass::Unknown);
    assert_eq!(classify_script(&[0x6a, 0x04, 1, 2, 3, 4]), ScriptClass::NullData);
    assert_eq!(classify_script(&[0x50]), ScriptClass::NullData);
    assert_eq!(classify_script(&[0xba]), ScriptClass::NullData);
    assert_eq!(classify_script(&[0x7e]), ScriptClass::NullData);
    assert_eq!(classify_script(&[]), ScriptClass::Unknown);
    assert_eq!(classify_script(&[0x51]), ScriptClass::Unknown);
}

#[test]
fn p2pk_rejects_trailing_bytes_and_accepts_pushdata() {
    let mut s = p2pk(33);
    s.push(0x00);
    assert_eq!(classify_script(&s), ScriptClass::Unknown);
    let mut s = p2pk(33);
    s.push(0xac);
    assert_eq!(classify_script(&s), ScriptClass::Unknown);
    let mut s = vec![0x4c, 33];
    s.extend(std::iter::repeat(0x03).take(33));
    s.push(0xac);
    assert_eq!(classify_script(&s), ScriptClass::P2PK);
    let mut s = p2pk(33);
    s.pop();
    assert_eq!(classify_script(&s), ScriptClass::Unknown);
}

#[test]
fn p2pk_push_encodings() {
    // OP_PUSHDATA2 with a 65-byte key
    let mut s = vec![0x4d, 65, 0];
    s.extend(std::iter::repeat(0x04).take(65));
    s.push(0xac);
    assert_eq!(classify_script(&s), ScriptClass::P2PK);
    // OP_PUSHDATA4 with a 33-byte key
    let mut s = vec![0x4e, 33, 0, 0, 0];
    s.extend(std::iter::repeat(0x02).take(33));
    s.push(0xac);
    assert_eq!(classify_script(&s), ScriptClass::P2PK);
    // a push that runs past the end
    let mut s = vec![0x4c, 200];
    s.extend(std::iter::repeat(0x02).take(33));
    s.push(0xac);
    assert_eq!(classify_script(&s), ScriptClass::Unknown);
    // key followed by a different opcode
    let mut s = p2pk(33);
    *s.last_mut().unwrap() = 0xad;
    assert_eq!(classify_script(&s), ScriptClass::Unknown);
    // key followed by a push of the byte 0xac, not the opcode
    let mut s = p2pk(33);
    s.pop();
    s.extend_from_slice(&[0x01, 0xac]);
    assert_eq!(classify_script(&s), ScriptClass::Unknown);
}

#[test]
fn parse_tx_outputs() {
    let tx = TxOutputs { output: vec![out(0, &[]), out(150, &[0x6a, 0xff]), out(7, &[0x76, 0xa9])] };
    let parsed = parse_pivx_tx(&tx, 100);
    assert!(parsed.is_coinstake);
    assert!(!parsed.zerocoin.has_zerocoin);
    assert!(parsed.sapling.spends.is_empty());
    assert_eq!(parsed.outputs.len(), 3);
    assert_eq!(parsed.outputs[0].value, 0);
    assert_eq!(parsed.outputs[0].script_hex, "");
    assert!(!parsed.outputs[0].is_coldstake);
    assert_eq!(parsed.outputs[1].value, 150);
    assert_eq!(parsed.outputs[1].script_hex, "6aff");
    assert!(parsed.outputs[1].is_coldstake);
    assert_eq!(parsed.outputs[2].script_hex, "76a9");
    assert!(!parsed.outputs[2].is_coldstake);
    for (o, v) in parsed.outputs.iter().zip(tx.output.iter()) {
        assert_eq!(hex::decode(&o.script_hex).unwrap(), v.script_pubkey);
    }
}
