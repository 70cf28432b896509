//! Output-script classification.

use vstd::prelude::*;
use vstd::slice::slice_subrange;

verus! {

/// Basic output-script classes.
#[derive(Debug, Clone, Copy, PartialEq, Eq, Structural)]
pub enum ScriptClass {
    P2PKH,
    P2SH,
    P2PK,
    NullData,
    NonStandard,
    Unknown,
}

/// `OP_RETURN`.
pub open spec fn op_return() -> u8 {
    0x6a
}

/// `OP_CHECKSIG`.
pub open spec fn op_checksig() -> u8 {
    0xac
}

/// The script starts with `OP_RETURN`.
pub open spec fn spec_is_op_return(s: Seq<u8>) -> bool {
    s.len() > 0 && s[0] == op_return()
}

/// An opcode that, in a legacy script, fails the script when executed or
/// makes it invalid: `OP_RETURN` and its synonyms (`OP_RESERVED`, `OP_VER`,
/// `OP_RESERVED1`, `OP_RESERVED2`, every code from `OP_CHECKSIGADD` up), the
/// disabled arithmetic and splice opcodes, `OP_VERIF`, `OP_VERNOTIF` and
/// `OP_INVALIDOPCODE`.
pub open spec fn is_unspendable_opcode(b: u8) -> bool {
    ||| b == 0x6a
    ||| b == 0x50 || b == 0x62 || b == 0x89 || b == 0x8a
    ||| b >= 0xba
    ||| b == 0x65 || b == 0x66
    ||| (0x7e <= b <= 0x81) || (0x83 <= b <= 0x86) || b == 0x8d || b == 0x8e || (0x95 <= b <= 0x99)
}

/// The script's first opcode makes it unspendable.
pub open spec fn spec_is_provably_unspendable(s: Seq<u8>) -> bool {
    s.len() > 0 && is_unspendable_opcode(s[0])
}

/// `OP_DUP OP_HASH160 <20 bytes> OP_EQUALVERIFY OP_CHECKSIG`.
pub open spec fn spec_is_p2pkh(s: Seq<u8>) -> bool {
    s.len() == 25 && s[0] == 0x76 && s[1] == 0xa9 && s[2] == 0x14 && s[23] == 0x88 && s[24] == 0xac
}

/// `OP_HASH160 <20 bytes> OP_EQUAL`.
pub open spec fn spec_is_p2sh(s: Seq<u8>) -> bool {
    s.len() == 23 && s[0] == 0xa9 && s[1] == 0x14 && s[22] == 0x87
}

/// `bitcoin::Script::is_op_return`.
#[verifier::external_body]
pub(crate) fn script_is_op_return(s: &[u8]) -> (r: bool)
    ensures
        r == spec_is_op_return(s@),
{
    bitcoin::Script::from_bytes(s).is_op_return()
}

/// `bitcoin::Script::is_provably_unspendable`: the first opcode classifies,
/// in the legacy context, as a return or illegal opcode.
#[verifier::external_body]
#[allow(deprecated)]
pub(crate) fn script_is_provably_unspendable(s: &[u8]) -> (r: bool)
    ensures
        r == spec_is_provably_unspendable(s@),
{
    bitcoin::Script::from_bytes(s).is_provably_unspendable()
}

/// `bitcoin::Script::is_p2pkh`.
#[verifier::external_body]
pub(crate) fn script_is_p2pkh(s: &[u8]) -> (r: bool)
    ensures
        r == spec_is_p2pkh(s@),
{
    bitcoin::Script::from_bytes(s).is_p2pkh()
}

/// `bitcoin::Script::is_p2sh`.
#[verifier::external_body]
pub(crate) fn script_is_p2sh(s: &[u8]) -> (r: bool)
    ensures
        r == spec_is_p2sh(s@),
{
    bitcoin::Script::from_bytes(s).is_p2sh()
}

/// One instruction read from the start of a script.
#[derive(Debug)]
pub enum ScriptInstruction {
    /// The script is empty.
    End,
    /// A data push, with the pushed bytes.
    PushBytes(Vec<u8>),
    /// Any other opcode.
    Op(u8),
    /// A push whose length or data runs past the end of the script.
    Invalid,
}

/// The spec-level form of [`ScriptInstruction`].
pub enum InstructionView {
    End,
    Push(Seq<u8>),
    Op(u8),
    Invalid,
}

impl View for ScriptInstruction {
    type V = InstructionView;

    open spec fn view(&self) -> InstructionView {
        match self {
            ScriptInstruction::End => InstructionView::End,
            ScriptInstruction::PushBytes(d) => InstructionView::Push(d@),
            ScriptInstruction::Op(b) => InstructionView::Op(*b),
            ScriptInstruction::Invalid => InstructionView::Invalid,
        }
    }
}

/// The little-endian value of `b`.
pub open spec fn le_value(b: Seq<u8>) -> nat
    decreases b.len(),
{
    if b.len() == 0 {
        0
    } else {
        b[0] as nat + 256 * le_value(b.drop_first())
    }
}

/// A push opcode: `OP_PUSHBYTES_0..75`, `OP_PUSHDATA1`, `OP_PUSHDATA2`,
/// `OP_PUSHDATA4`.
pub open spec fn is_push_opcode(b: u8) -> bool {
    b <= 0x4e
}

/// The bytes before a push's data: the opcode, plus 1, 2 or 4 length bytes
/// for `OP_PUSHDATA1/2/4`.
pub open spec fn push_header_len(b: u8) -> int {
    if b <= 0x4b {
        1
    } else if b == 0x4c {
        2
    } else if b == 0x4d {
        3
    } else {
        5
    }
}

/// The first instruction of the script `s` and how many bytes remain after
/// it (none after an invalid push), as Bitcoin script is encoded:
/// `0x00..=0x4b` push that many bytes, `OP_PUSHDATA1/2/4` push as many bytes
/// as their little-endian length field says, other bytes are opcodes.
pub open spec fn spec_first_instruction(s: Seq<u8>) -> (InstructionView, nat) {
    if s.len() == 0 {
        (InstructionView::End, 0)
    } else if !is_push_opcode(s[0]) {
        (InstructionView::Op(s[0]), (s.len() - 1) as nat)
    } else {
        let h = push_header_len(s[0]);
        if s.len() < h {
            (InstructionView::Invalid, 0)
        } else {
            let n: int = if s[0] <= 0x4b {
                s[0] as int
            } else {
                le_value(s.subrange(1, h)) as int
            };
            if s.len() - h < n {
                (InstructionView::Invalid, 0)
            } else {
                (InstructionView::Push(s.subrange(h, h + n)), (s.len() - h - n) as nat)
            }
        }
    }
}

/// The first instruction of a script, as `bitcoin::Script::instructions`
/// yields it (non-minimal pushes allowed), and the length of the script
/// after it.
#[verifier::external_body]
pub(crate) fn first_instruction(s: &[u8]) -> (r: (ScriptInstruction, usize))
    ensures
        (r.0@, r.1 as nat) == spec_first_instruction(s@),
{
    let mut it = bitcoin::Script::from_bytes(s).instructions();
    let ins = match it.next() {
        None => ScriptInstruction::End,
        Some(Ok(bitcoin::script::Instruction::PushBytes(p))) => ScriptInstruction::PushBytes(p.as_bytes().to_vec()),
        Some(Ok(bitcoin::script::Instruction::Op(op))) => ScriptInstruction::Op(op.to_u8()),
        Some(Err(_)) => ScriptInstruction::Invalid,
    };
    (ins, it.as_script().len())
}

/// A pay-to-pubkey script: exactly a push of 33 or 65 bytes followed by
/// `OP_CHECKSIG`, with nothing after it.
pub open spec fn spec_is_p2pk(s: Seq<u8>) -> bool {
    let (first, rest) = spec_first_instruction(s);
    match first {
        InstructionView::Push(pk) => {
            &&& pk.len() == 33 || pk.len() == 65
            &&& spec_first_instruction(s.skip(s.len() - rest)).0 == InstructionView::Op(op_checksig())
            &&& spec_first_instruction(s.skip(s.len() - rest)).1 == 0
        },
        _ => false,
    }
}

/// P2PK recogniser: exactly `<33- or 65-byte pubkey> OP_CHECKSIG`.
fn is_p2pk(script: &[u8]) -> (r: bool)
    ensures
        r == spec_is_p2pk(script@),
{
    let (first, rest) = first_instruction(script);
    match first {
        ScriptInstruction::PushBytes(pk) => {
            proof {
                assert(rest <= script@.len());
            }
            let tail = slice_subrange(script, script.len() - rest, script.len());
            assert(tail@ == script@.skip(script@.len() - rest));
            let (second, after) = first_instruction(tail);
            match second {
                ScriptInstruction::Op(op) => if op == 0xac && after == 0 {
                    pk.len() == 33 || pk.len() == 65
                } else {
                    false
                },
                _ => false,
            }
        },
        _ => false,
    }
}

/// The class of an output script.
pub open spec fn spec_classify_script(s: Seq<u8>) -> ScriptClass {
    if spec_is_provably_unspendable(s) {
        ScriptClass::NullData
    } else if spec_is_p2pkh(s) {
        ScriptClass::P2PKH
    } else if spec_is_p2sh(s) {
        ScriptClass::P2SH
    } else if spec_is_p2pk(s) {
        ScriptClass::P2PK
    } else {
        ScriptClass::Unknown
    }
}

/// Classifies an output script: unspendable (`NullData`), P2PKH, P2SH, P2PK,
/// in that order of precedence; anything else is `Unknown`.
pub fn classify_script(script: &[u8]) -> (r: ScriptClass)
    ensures
        r == spec_classify_script(script@),
{
    if script_is_provably_unspendable(script) {
        return ScriptClass::NullData;
    }
    if script_is_p2pkh(script) {
        return ScriptClass::P2PKH;
    }
    if script_is_p2sh(script) {
        return ScriptClass::P2SH;
    }
    if is_p2pk(script) {
        return ScriptClass::P2PK;
    }
    ScriptClass::Unknown
}

/// A script is classified P2PKH exactly when it is spendable and is the
/// 25-byte template `OP_DUP OP_HASH160 <20 bytes> OP_EQUALVERIFY
/// OP_CHECKSIG` (`76 a9 14 .. 88 ac`).
pub proof fn lemma_classify_p2pkh(s: Seq<u8>)
    ensures
        (spec_classify_script(s) == ScriptClass::P2PKH) <==> (!spec_is_provably_unspendable(s) && s.len()
            == 25 && s[0] == 0x76 && s[1] == 0xa9 && s[2] == 0x14 && s[23] == 0x88 && s[24] == 0xac),
{
}

/// A script is classified P2SH exactly when it is the 23-byte template
/// `OP_HASH160 <20 bytes> OP_EQUAL` (`a9 14 .. 87`).
pub proof fn lemma_classify_p2sh(s: Seq<u8>)
    ensures
        (spec_classify_script(s) == ScriptClass::P2SH) <==> (s.len() == 23 && s[0] == 0xa9 && s[1] == 0x14
            && s[22] == 0x87),
{
}

/// A script is classified `NullData` exactly when its first byte is
/// `OP_RETURN` or another opcode that makes it unspendable.
pub proof fn lemma_classify_null_data(s: Seq<u8>)
    ensures
        (spec_classify_script(s) == ScriptClass::NullData) <==> (s.len() > 0 && is_unspendable_opcode(s[0])),
        s.len() > 0 && s[0] == 0x6a ==> spec_classify_script(s) == ScriptClass::NullData,
{
}

/// A key push of 33 or 65 bytes followed by `OP_CHECKSIG` and nothing else
/// is P2PK; and every P2PK script starts with a push opcode, ends with
/// `OP_CHECKSIG` and is at least 35 bytes long.
pub proof fn lemma_classify_p2pk(s: Seq<u8>)
    ensures
        (s.len() == 35 && s[0] == 33 && s[34] == 0xac) ==> spec_classify_script(s) == ScriptClass::P2PK,
        (s.len() == 67 && s[0] == 65 && s[66] == 0xac) ==> spec_classify_script(s) == ScriptClass::P2PK,
        spec_classify_script(s) == ScriptClass::P2PK ==> (s.len() >= 35 && s[0] <= 0x4e && s[s.len() - 1]
            == 0xac),
{
    if (s.len() == 35 && s[0] == 33 && s[34] == 0xac) || (s.len() == 67 && s[0] == 65 && s[66] == 0xac) {
        let n = s.len() - 2;
        let (first, rest) = spec_first_instruction(s);
        assert(first == InstructionView::Push(s.subrange(1, 1 + n)));
        assert(rest == 1);
        let t = s.skip(s.len() - rest);
        assert(t.len() == 1 && t[0] == 0xac);
        assert(spec_first_instruction(t) == (InstructionView::Op(0xac), 0nat));
    }
    if spec_classify_script(s) == ScriptClass::P2PK {
        let (first, rest) = spec_first_instruction(s);
        let t = s.skip(s.len() - rest);
        assert(spec_first_instruction(t).0 == InstructionView::Op(op_checksig()));
        assert(t.len() == 1);
        assert(t[0] == s[s.len() - 1]);
        assert(s.len() - rest >= 34);
    }
}

/// A script that starts with `OP_DUP` but is not the P2PKH template (such
/// as a cold-stake script) is `Unknown`.
pub proof fn lemma_classify_dup_non_p2pkh_unknown(s: Seq<u8>)
    requires
        s.len() > 0,
        s[0] == 0x76,
        !(s.len() == 25 && s[1] == 0xa9 && s[2] == 0x14 && s[23] == 0x88 && s[24] == 0xac),
    ensures
        spec_classify_script(s) == ScriptClass::Unknown,
{
}

} // verus!
