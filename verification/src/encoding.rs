//! Hexadecimal text: the specification of hex digits and of encoded byte
//! strings, and the `hex` crate's encoder and decoder.

use vstd::prelude::*;

verus! {

/// `c` is an ASCII hexadecimal digit (either case).
pub open spec fn is_hex_digit(c: char) -> bool {
    ('0' <= c && c <= '9') || ('a' <= c && c <= 'f') || ('A' <= c && c <= 'F')
}

/// The value of an ASCII hexadecimal digit.
pub open spec fn hex_digit_value(c: char) -> nat {
    if '0' <= c && c <= '9' {
        (c as nat - '0' as nat) as nat
    } else if 'a' <= c && c <= 'f' {
        (c as nat - 'a' as nat + 10) as nat
    } else {
        (c as nat - 'A' as nat + 10) as nat
    }
}

/// Every character of `s` is a hexadecimal digit.
pub open spec fn all_hex_digits(s: Seq<char>) -> bool {
    forall|i: int| 0 <= i < s.len() ==> is_hex_digit(#[trigger] s[i])
}

/// The bytes that the hex text `s` (two digits per byte, high digit first)
/// stands for.
pub open spec fn hex_bytes(s: Seq<char>) -> Seq<u8> {
    Seq::new(
        s.len() / 2,
        |i: int| (hex_digit_value(s[2 * i]) * 16 + hex_digit_value(s[2 * i + 1])) as u8,
    )
}

/// The lower-case hex digit for a value below 16.
pub open spec fn lower_hex_digit(v: nat) -> char {
    if v < 10 {
        (('0' as nat) + v) as char
    } else {
        (('a' as nat) + v - 10) as char
    }
}

/// The lower-case hex text of `b`, two digits per byte, high digit first.
pub open spec fn hex_lower(b: Seq<u8>) -> Seq<char> {
    Seq::new(
        2 * b.len(),
        |i: int|
            if i % 2 == 0 {
                lower_hex_digit((b[i / 2] / 16) as nat)
            } else {
                lower_hex_digit((b[i / 2] % 16) as nat)
            },
    )
}

/// The `hex` crate's decoding error (`hex::FromHexError`).
#[verifier::external_type_specification]
#[verifier::external_body]
pub struct ExFromHexError(hex::FromHexError);

/// `hex::encode`: the lower-case hex text of `data`.
#[verifier::external_body]
pub(crate) fn hex_encode(data: &[u8]) -> (r: String)
    ensures
        r@ == hex_lower(data@),
{
    hex::encode(data)
}

/// `hex::decode`: decodes hex text of either case. The contract states what
/// the crate's source does: the text is accepted exactly when it has an even
/// number of characters, all hex digits, and each pair gives one byte.
#[verifier::external_body]
pub(crate) fn hex_decode(s: &str) -> (r: Result<Vec<u8>, hex::FromHexError>)
    ensures
        r is Ok <==> (s@.len() % 2 == 0 && all_hex_digits(s@)),
        r matches Ok(v) ==> v@ == hex_bytes(s@),
{
    hex::decode(s)
}

/// Lower-case hex text decodes back to the bytes it encodes.
pub proof fn lemma_hex_lower_decodes(b: Seq<u8>)
    ensures
        hex_lower(b).len() % 2 == 0,
        all_hex_digits(hex_lower(b)),
        hex_bytes(hex_lower(b)) == b,
{
    let h = hex_lower(b);
    assert forall|v: nat| v < 16 implies is_hex_digit(#[trigger] lower_hex_digit(v))
        && hex_digit_value(lower_hex_digit(v)) == v by {
        if v < 10 {
            assert((('0' as nat) + v) as char as nat == ('0' as nat) + v);
        } else {
            assert((('a' as nat) + v - 10) as char as nat == ('a' as nat) + v - 10);
        }
    };
    assert forall|i: int| 0 <= i < h.len() implies is_hex_digit(#[trigger] h[i]) by {
        if i % 2 == 0 {
            assert(h[i] == lower_hex_digit((b[i / 2] / 16) as nat));
        } else {
            assert(h[i] == lower_hex_digit((b[i / 2] % 16) as nat));
        }
    };
    assert forall|i: int| 0 <= i < b.len() implies #[trigger] hex_bytes(h)[i] == b[i] by {
        assert(h[2 * i] == lower_hex_digit((b[i] / 16) as nat));
        assert(h[2 * i + 1] == lower_hex_digit((b[i] % 16) as nat));
        assert(hex_digit_value(h[2 * i]) == (b[i] / 16) as nat);
        assert(hex_digit_value(h[2 * i + 1]) == (b[i] % 16) as nat);
    };
    assert(hex_bytes(h) =~= b);
}

} // verus!
