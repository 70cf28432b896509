//! String helpers shared by the configuration and daemon logic.

use vstd::prelude::*;
use vstd::string::{StrSliceExecFns, StringExecFns};
use crate::encoding::{is_hex_digit, hex_digit_value};

verus! {

/// Code point of `c` after ASCII lower-casing (non-ASCII characters are kept).
pub open spec fn ascii_lower(c: char) -> int {
    if 'A' <= c && c <= 'Z' {
        (c as u32) + 32
    } else {
        c as u32 as int
    }
}

/// `s` equals `t` when ASCII letters are compared without regard to case.
pub open spec fn eq_ignore_ascii_case(s: Seq<char>, t: Seq<char>) -> bool {
    &&& s.len() == t.len()
    &&& forall|i: int| 0 <= i < s.len() ==> #[trigger] ascii_lower(s[i]) == ascii_lower(t[i])
}

/// Executable ASCII lower-casing of one character, as a code point.
pub fn char_ascii_lower(c: char) -> (r: u32)
    ensures
        r == ascii_lower(c),
{
    if 'A' <= c && c <= 'Z' {
        (c as u32) + 32
    } else {
        c as u32
    }
}

/// `c` is an ASCII decimal digit.
pub open spec fn is_dec_digit(c: char) -> bool {
    '0' <= c && c <= '9'
}

/// The value of the digits `s` in base `base`, most significant first.
pub open spec fn radix_value(s: Seq<char>, base: nat) -> nat
    decreases s.len(),
{
    if s.len() == 0 {
        0
    } else {
        radix_value(s.drop_last(), base) * base + hex_digit_value(s.last())
    }
}

/// `s` without one leading `+`.
pub open spec fn sign_stripped(s: Seq<char>) -> Seq<char> {
    if s.len() > 0 && s[0] == '+' {
        s.drop_first()
    } else {
        s
    }
}

/// The unsigned integer that `s` spells in decimal (or hexadecimal when
/// `hex`), as Rust's unsigned integer parsing reads it: an optional leading
/// `+`, then at least one digit, with a value at most `max`.
pub open spec fn spec_parse_unsigned(s: Seq<char>, hex: bool, max: nat) -> Option<nat> {
    let d = sign_stripped(s);
    let base: nat = if hex { 16 } else { 10 };
    if d.len() > 0 && (forall|i: int| 0 <= i < d.len() ==> (if hex {
        is_hex_digit(#[trigger] d[i])
    } else {
        is_dec_digit(d[i])
    })) && radix_value(d, base) <= max {
        Some(radix_value(d, base))
    } else {
        None
    }
}

/// A prefix of a digit string is worth no more than the whole.
proof fn lemma_radix_prefix_le(s: Seq<char>, i: int, base: nat)
    requires
        base >= 1,
        0 <= i <= s.len(),
    ensures
        radix_value(s.take(i), base) <= radix_value(s, base),
    decreases s.len(),
{
    if i == s.len() {
        assert(s.take(i) =~= s);
    } else {
        let t = s.drop_last();
        lemma_radix_prefix_le(t, i, base);
        assert(t.take(i) =~= s.take(i));
        let a = radix_value(t, base);
        assert(a * base >= a) by (nonlinear_arith)
            requires
                base >= 1,
        ;
    }
}

/// Parses an unsigned integer as Rust's `str::parse` / `from_str_radix` do
/// for unsigned types (optional `+`, at least one digit, no overflow past
/// `u64::MAX`).
fn parse_unsigned(s: &str, hex: bool) -> (r: Option<u64>)
    ensures
        r is Some <==> spec_parse_unsigned(s@, hex, u64::MAX as nat) is Some,
        r matches Some(v) ==> spec_parse_unsigned(s@, hex, u64::MAX as nat) == Some(v as nat),
{
    let n = s.unicode_len();
    let mut start: usize = 0;
    if n > 0 && s.get_char(0) == '+' {
        start = 1;
    }
    let ghost d = sign_stripped(s@);
    let base: u64 = if hex { 16 } else { 10 };
    proof {
        assert(d =~= s@.subrange(start as int, n as int));
    }
    if start >= n {
        return None;
    }
    let mut acc: u64 = 0;
    let mut i: usize = start;
    while i < n
        invariant
            n == s@.len(),
            start <= i <= n,
            d =~= s@.subrange(start as int, n as int),
            d == sign_stripped(s@),
            base == (if hex { 16u64 } else { 10u64 }),
            acc as nat == radix_value(d.take(i - start), base as nat),
            forall|j: int| 0 <= j < i - start ==> (if hex {
                is_hex_digit(#[trigger] d[j])
            } else {
                is_dec_digit(d[j])
            }),
        decreases n - i,
    {
        let c = s.get_char(i);
        let ok = if hex {
            ('0' <= c && c <= '9') || ('a' <= c && c <= 'f') || ('A' <= c && c <= 'F')
        } else {
            '0' <= c && c <= '9'
        };
        assert(c == d[i - start]);
        if !ok {
            proof {
                if hex {
                    assert(!is_hex_digit(d[i - start]));
                } else {
                    assert(!is_dec_digit(d[i - start]));
                }
            }
            return None;
        }
        let v: u64 = if '0' <= c && c <= '9' {
            (c as u64) - ('0' as u64)
        } else if 'a' <= c && c <= 'f' {
            (c as u64) - ('a' as u64) + 10
        } else {
            (c as u64) - ('A' as u64) + 10
        };
        assert(v as nat == hex_digit_value(c));
        assert(d.take(i - start + 1).drop_last() =~= d.take(i - start));
        assert(radix_value(d.take(i - start + 1), base as nat) == acc as nat * base as nat + v as nat);
        let lim: u64 = (u64::MAX - v) / base;
        if acc > lim {
            proof {
                assert(acc as nat * base as nat + v as nat > u64::MAX) by (nonlinear_arith)
                    requires
                        acc > lim,
                        lim as int == (u64::MAX as int - v as int) / (base as int),
                        base >= 10,
                        v < base,
                ;
                lemma_radix_prefix_le(d, i - start + 1, base as nat);
                assert(radix_value(d, base as nat) > u64::MAX);
                assert(d.len() > 0);
                assert(sign_stripped(s@) == d);
                if hex {
                    assert(base as nat == 16);
                } else {
                    assert(base as nat == 10);
                }
            }
            return None;
        }
        proof {
            assert(acc as nat * base as nat + v as nat <= u64::MAX) by (nonlinear_arith)
                requires
                    acc <= lim,
                    lim as int == (u64::MAX as int - v as int) / (base as int),
                    base >= 10,
                    v < base,
            ;
        }
        acc = acc * base + v;
        i = i + 1;
    }
    assert(d.take(n - start) =~= d);
    Some(acc)
}

/// `s.parse::<u64>()`: decimal, optional leading `+`.
pub fn parse_u64(s: &str) -> (r: Option<u64>)
    ensures
        r is Some <==> spec_parse_unsigned(s@, false, u64::MAX as nat) is Some,
        r matches Some(v) ==> spec_parse_unsigned(s@, false, u64::MAX as nat) == Some(v as nat),
{
    parse_unsigned(s, false)
}

/// `u32::from_str_radix(s, 16)`: hexadecimal, optional leading `+`.
pub fn parse_hex_u32(s: &str) -> (r: Option<u32>)
    ensures
        r is Some <==> spec_parse_unsigned(s@, true, u32::MAX as nat) is Some,
        r matches Some(v) ==> spec_parse_unsigned(s@, true, u32::MAX as nat) == Some(v as nat),
{
    match parse_unsigned(s, true) {
        Some(v) => if v <= 0xffff_ffffu64 {
            Some(v as u32)
        } else {
            None
        },
        None => None,
    }
}

/// `s` contains the character `c`.
pub open spec fn has_char(s: Seq<char>, c: char) -> bool {
    exists|i: int| 0 <= i < s.len() && s[i] == c
}

/// The index of the first `c` in `s` (meaningful when `has_char(s, c)`).
pub open spec fn first_index_of(s: Seq<char>, c: char) -> int {
    choose|i: int| 0 <= i < s.len() && s[i] == c && forall|j: int| 0 <= j < i ==> s[j] != c
}

/// Splits `s` at its first `:`, as `s.splitn(2, ':')` yields two parts:
/// the text before the colon and everything after it.
pub fn split_at_first_colon(s: &str) -> (r: Option<(String, String)>)
    ensures
        r is Some <==> has_char(s@, ':'),
        r matches Some((a, b)) ==> {
            let i = first_index_of(s@, ':');
            &&& a@ == s@.take(i)
            &&& b@ == s@.skip(i + 1)
        },
{
    let n = s.unicode_len();
    let mut i: usize = 0;
    while i < n
        invariant
            n == s@.len(),
            0 <= i <= n,
            forall|j: int| 0 <= j < i ==> s@[j] != ':',
        decreases n - i,
    {
        if s.get_char(i) == ':' {
            proof {
                let k = first_index_of(s@, ':');
                assert(0 <= i < s@.len() && s@[i as int] == ':' && forall|j: int| 0 <= j < i ==> s@[j] != ':');
                assert(k == i as int) by {
                    if k < i {
                    } else if k > i {
                    }
                };
            }
            let a = String::from_str(s.substring_char(0, i));
            let b = String::from_str(s.substring_char(i + 1, n));
            return Some((a, b));
        }
        i = i + 1;
    }
    None
}

/// `s == t` ignoring ASCII case (`str::eq_ignore_ascii_case`).
pub fn str_eq_ignore_ascii_case(s: &str, t: &str) -> (r: bool)
    ensures
        r == eq_ignore_ascii_case(s@, t@),
{
    let n = s.unicode_len();
    let m = t.unicode_len();
    if n != m {
        return false;
    }
    let mut i: usize = 0;
    while i < n
        invariant
            n == s@.len(),
            m == t@.len(),
            n == m,
            0 <= i <= n,
            forall|j: int| 0 <= j < i ==> #[trigger] ascii_lower(s@[j]) == ascii_lower(t@[j]),
        decreases n - i,
    {
        if char_ascii_lower(s.get_char(i)) != char_ascii_lower(t.get_char(i)) {
            return false;
        }
        i = i + 1;
    }
    true
}

/// When `s` contains `c`, some occurrence of `c` comes before all others.
pub proof fn lemma_first_index_exists(s: Seq<char>, c: char, k: int)
    requires
        0 <= k < s.len(),
        s[k] == c,
    ensures
        exists|i: int| 0 <= i < s.len() && s[i] == c && forall|j: int| 0 <= j < i ==> s[j] != c,
        0 <= first_index_of(s, c) <= k,
        s[first_index_of(s, c)] == c,
        forall|j: int| 0 <= j < first_index_of(s, c) ==> s[j] != c,
    decreases k,
{
    if exists|j: int| 0 <= j < k && s[j] == c {
        let j = choose|j: int| 0 <= j < k && s[j] == c;
        lemma_first_index_exists(s, c, j);
    } else {
        assert(0 <= k < s.len() && s[k] == c && forall|j: int| 0 <= j < k ==> s[j] != c);
    }
    let f = first_index_of(s, c);
    if f > k {
        assert(s[k] == c);
    }
}

/// The two parts of a split at the first `:`, joined by `:`, give back the
/// text, and the first part holds no `:`.
pub proof fn lemma_split_rejoins(s: Seq<char>)
    requires
        has_char(s, ':'),
    ensures
        s.take(first_index_of(s, ':')) + seq![':'] + s.skip(first_index_of(s, ':') + 1) == s,
        !has_char(s.take(first_index_of(s, ':')), ':'),
{
    let k = choose|k: int| 0 <= k < s.len() && s[k] == ':';
    lemma_first_index_exists(s, ':', k);
    let i = first_index_of(s, ':');
    assert(s.take(i) + seq![':'] + s.skip(i + 1) =~= s);
    if has_char(s.take(i), ':') {
        let j = choose|j: int| 0 <= j < s.take(i).len() && s.take(i)[j] == ':';
        assert(s[j] == ':');
    }
}

} // verus!
