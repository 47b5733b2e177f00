//! The plugin protocol's line format: one JSON value per line.
//!
//! The emitter writes a canonical form: object keys in declaration order,
//! no spaces, and every character of a string escaped as `\u` followed by
//! four hex digits (an escape JSON always permits), so each line is plain
//! ASCII. The parser reads that form back; `lemma_line_round_trip` in the
//! second half of this module is the round-trip law.

use crate::plugin_api::{GeneralPluginResponse, Level, LogMessage, LogValue, LogValueView, ProtoVersion};
use crate::wire::{holds_at, lemma_holds_at_split};
use vstd::prelude::*;
use vstd::utf8::{char_is_scalar, char_u32_cast, is_scalar};

verus! {

// ------------------------------------------------------------------
// Emitters: hex, escaped characters, strings, numbers, atoms
// ------------------------------------------------------------------
/// The lowercase hex digit for a value below 16.
pub open spec fn hex_byte(d: u32) -> u8 {
    if d < 10 {
        (0x30 + d) as u8
    } else {
        (0x57 + d) as u8
    }
}

pub open spec fn is_hex(b: u8) -> bool {
    (0x30 <= b <= 0x39) || (0x61 <= b <= 0x66)
}

pub open spec fn hex_val(b: u8) -> u32 {
    if 0x30 <= b <= 0x39 {
        (b - 0x30) as u32
    } else {
        (b - 0x57) as u32
    }
}

/// One `\u` escape for a value up to 0xFFFF.
pub open spec fn js_esc4(x: u32) -> Seq<u8> {
    seq![
        0x5c,
        0x75,
        hex_byte((x >> 12) & 0xf),
        hex_byte((x >> 8) & 0xf),
        hex_byte((x >> 4) & 0xf),
        hex_byte(x & 0xf),
    ]
}

/// One character: printable ASCII stands as itself (quote and backslash
/// excepted); everything else is escaped — one `\u` escape for the basic
/// plane, a surrogate pair beyond it.
pub open spec fn js_char(c: char) -> Seq<u8> {
    let v = c as u32;
    if 0x20 <= v < 0x7F && v != 0x22 && v != 0x5C {
        seq![v as u8]
    } else if v <= 0xFFFF {
        js_esc4(v)
    } else {
        js_esc4((0xD800 + (((v - 0x10000) as u32) >> 10)) as u32) + js_esc4(
            (0xDC00 + (((v - 0x10000) as u32) & 0x3FF)) as u32,
        )
    }
}

pub open spec fn js_chars(s: Seq<char>) -> Seq<u8>
    decreases s.len(),
{
    if s.len() == 0 {
        Seq::empty()
    } else {
        js_char(s[0]) + js_chars(s.drop_first())
    }
}

/// A JSON string: quote, escaped characters, quote.
#[verifier::opaque]
pub open spec fn js_str(s: Seq<char>) -> Seq<u8> {
    seq![0x22u8] + js_chars(s) + seq![0x22u8]
}

/// The decimal digits of a number.
pub open spec fn js_u64(n: u64) -> Seq<u8>
    decreases n,
{
    if n < 10 {
        seq![(0x30 + n) as u8]
    } else {
        js_u64(n / 10) + seq![(0x30 + (n % 10)) as u8]
    }
}

pub open spec fn js_u32(n: u32) -> Seq<u8> {
    js_u64(n as u64)
}

/// A signed number: a minus sign before the magnitude when negative.
pub open spec fn js_i64(x: i64) -> Seq<u8> {
    if x < 0 {
        seq![0x2du8] + js_u64((0 - x as int) as u64)
    } else {
        js_u64(x as u64)
    }
}

pub open spec fn js_bool(v: bool) -> Seq<u8> {
    if v {
        seq![0x74u8, 0x72u8, 0x75u8, 0x65u8]
    } else {
        seq![0x66u8, 0x61u8, 0x6cu8, 0x73u8, 0x65u8]
    }
}

pub open spec fn js_null() -> Seq<u8> {
    seq![0x6eu8, 0x75u8, 0x6cu8, 0x6cu8]
}

// ------------------------------------------------------------------
// Parsers
// ------------------------------------------------------------------
/// Requires the exact bytes `lit` at position `i`.
pub open spec fn p_exact(b: Seq<u8>, i: int, lit: Seq<u8>) -> Option<int> {
    if holds_at(b, i, lit) {
        Some(i + lit.len())
    } else {
        None
    }
}

/// One `\u` escape: its value.
pub open spec fn p_esc4(b: Seq<u8>, i: int) -> Option<(u32, int)> {
    if 0 <= i && i + 6 <= b.len() && b[i] == 0x5c && b[i + 1] == 0x75 && is_hex(b[i + 2]) && is_hex(
        b[i + 3],
    ) && is_hex(b[i + 4]) && is_hex(b[i + 5]) {
        let x = ((hex_val(b[i + 2]) << 12) | (hex_val(b[i + 3]) << 8) | (hex_val(b[i + 4]) << 4)
            | hex_val(b[i + 5])) as u32;
        Some((x, i + 6))
    } else {
        None
    }
}

/// One character: a printable ASCII byte as itself, an escape, or a
/// surrogate pair of two escapes.
pub open spec fn p_char(b: Seq<u8>, i: int) -> Option<(char, int)> {
    if 0 <= i < b.len() && b[i] != 0x5c && 0x20 <= b[i] < 0x7F && b[i] != 0x22 {
        Some((b[i] as char, i + 1))
    } else {
    match p_esc4(b, i) {
        None => None,
        Some((x, j)) => {
            if 0xD800 <= x < 0xDC00 {
                match p_esc4(b, j) {
                    None => None,
                    Some((y, k)) => {
                        if 0xDC00 <= y < 0xE000 {
                            let v = (0x10000 + (((x - 0xD800) as u32) << 10) + ((y
                                - 0xDC00) as u32)) as u32;
                            Some((v as char, k))
                        } else {
                            None
                        }
                    },
                }
            } else if 0xDC00 <= x < 0xE000 {
                None
            } else {
                Some((x as char, j))
            }
        },
    }
    }
}

/// The characters of a string body, up to the closing quote (which is not
/// consumed).
pub open spec fn p_chars(b: Seq<u8>, i: int) -> Option<(Seq<char>, int)>
    decreases b.len() - i,
{
    if !(0 <= i < b.len()) {
        None
    } else if b[i] == 0x22 {
        Some((Seq::empty(), i))
    } else {
        match p_char(b, i) {
            None => None,
            Some((c, j)) => {
                if j <= b.len() {
                    match p_chars(b, j) {
                        None => None,
                        Some((s, k)) => Some((seq![c] + s, k)),
                    }
                } else {
                    None
                }
            },
        }
    }
}

pub open spec fn p_str(b: Seq<u8>, i: int) -> Option<(Seq<char>, int)> {
    if 0 <= i < b.len() && b[i] == 0x22 {
        match p_chars(b, i + 1) {
            None => None,
            Some((s, j)) => {
                if j < b.len() && b[j] == 0x22 {
                    Some((s, j + 1))
                } else {
                    None
                }
            },
        }
    } else {
        None
    }
}

pub open spec fn is_digit(b: u8) -> bool {
    0x30 <= b <= 0x39
}

/// Consumes a run of digits, folding them onto `acc`.
pub open spec fn p_digits(b: Seq<u8>, i: int, acc: nat) -> (nat, int)
    decreases b.len() - i,
{
    if 0 <= i < b.len() && is_digit(b[i]) {
        p_digits(b, i + 1, acc * 10 + (b[i] - 0x30) as nat)
    } else {
        (acc, i)
    }
}

pub open spec fn p_u64(b: Seq<u8>, i: int) -> Option<(u64, int)> {
    if 0 <= i < b.len() && is_digit(b[i]) {
        let (v, j) = p_digits(b, i, 0);
        if v <= u64::MAX {
            Some((v as u64, j))
        } else {
            None
        }
    } else {
        None
    }
}

pub open spec fn p_u32(b: Seq<u8>, i: int) -> Option<(u32, int)> {
    match p_u64(b, i) {
        Some((v, j)) => if v <= u32::MAX {
            Some((v as u32, j))
        } else {
            None
        },
        None => None,
    }
}

pub open spec fn p_i64(b: Seq<u8>, i: int) -> Option<(i64, int)> {
    if 0 <= i < b.len() && b[i] == 0x2d {
        match p_u64(b, i + 1) {
            Some((m, j)) => {
                if m <= 0x8000000000000000u64 && m > 0 {
                    Some(((0 - m as int) as i64, j))
                } else {
                    None
                }
            },
            None => None,
        }
    } else {
        match p_u64(b, i) {
            Some((m, j)) => {
                if m <= i64::MAX as u64 {
                    Some((m as i64, j))
                } else {
                    None
                }
            },
            None => None,
        }
    }
}

pub open spec fn p_bool(b: Seq<u8>, i: int) -> Option<(bool, int)> {
    if holds_at(b, i, js_bool(true)) {
        Some((true, i + 4))
    } else if holds_at(b, i, js_bool(false)) {
        Some((false, i + 5))
    } else {
        None
    }
}

// ------------------------------------------------------------------
// Round-trip lemmas for the primitives
// ------------------------------------------------------------------
pub proof fn lemma_p_exact(b: Seq<u8>, i: int, lit: Seq<u8>)
    requires
        holds_at(b, i, lit),
    ensures
        p_exact(b, i, lit) == Some(i + lit.len()),
{
}

proof fn lemma_hex_round_trip(d: u32)
    requires
        d < 16,
    ensures
        is_hex(hex_byte(d)),
        hex_val(hex_byte(d)) == d,
{
}

proof fn lemma_p_esc4(b: Seq<u8>, i: int, x: u32)
    requires
        x <= 0xFFFF,
        holds_at(b, i, js_esc4(x)),
    ensures
        p_esc4(b, i) == Some((x, i + 6)),
{
    assert(b[i] == js_esc4(x)[0] && b[i + 1] == js_esc4(x)[1] && b[i + 2] == js_esc4(x)[2] && b[i
        + 3] == js_esc4(x)[3] && b[i + 4] == js_esc4(x)[4] && b[i + 5] == js_esc4(x)[5]) by {
        assert(forall|k: int| 0 <= k < 6 ==> b.subrange(i, i + 6)[k] == js_esc4(x)[k]);
    }
    assert((x >> 12) & 0xf < 16 && (x >> 8) & 0xf < 16 && (x >> 4) & 0xf < 16 && x & 0xf < 16)
        by (bit_vector);
    lemma_hex_round_trip((x >> 12) & 0xf);
    lemma_hex_round_trip((x >> 8) & 0xf);
    lemma_hex_round_trip((x >> 4) & 0xf);
    lemma_hex_round_trip(x & 0xf);
    assert(x <= 0xFFFF ==> ((((x >> 12) & 0xf) << 12) | (((x >> 8) & 0xf) << 8) | (((x >> 4)
        & 0xf) << 4) | (x & 0xf)) == x) by (bit_vector);
}

proof fn lemma_p_char(b: Seq<u8>, i: int, c: char)
    requires
        holds_at(b, i, js_char(c)),
    ensures
        p_char(b, i) == Some((c, i + js_char(c).len())),
{
    broadcast use char_is_scalar, char_u32_cast;

    let v = c as u32;
    if 0x20 <= v < 0x7F && v != 0x22 && v != 0x5C {
        assert(b[i] == (v as u8)) by {
            assert(b.subrange(i, i + 1)[0] == js_char(c)[0]);
        }
        assert((b[i] as char) == c) by {
            assert((b[i] as char) as u32 == v);
        }
    } else if v <= 0xFFFF {
        lemma_p_esc4(b, i, v);
        assert(b[i] == 0x5c) by {
            assert(b.subrange(i, i + 6)[0] == js_char(c)[0]);
        }
        assert(is_scalar(v));
        assert(!(0xD800 <= v < 0xE000));
    } else {
        let hi = (0xD800 + (((v - 0x10000) as u32) >> 10)) as u32;
        let lo = (0xDC00 + (((v - 0x10000) as u32) & 0x3FF)) as u32;
        assert(is_scalar(v));
        assert(v <= 0x10FFFF);
        assert(0xD800 <= hi < 0xDC00 && 0xDC00 <= lo < 0xE000 && hi <= 0xFFFF && lo <= 0xFFFF)
            by (bit_vector)
            requires
                hi == (0xD800 + (((v - 0x10000) as u32) >> 10)) as u32 && lo == (0xDC00 + (((v
                    - 0x10000) as u32) & 0x3FF)) as u32 && 0x10000 <= v <= 0x10FFFF,
        ;
        lemma_holds_at_split(b, i, js_esc4(hi), js_esc4(lo));
        lemma_p_esc4(b, i, hi);
        lemma_p_esc4(b, i + 6, lo);
        assert(b[i] == 0x5c) by {
            assert(b.subrange(i, i + 6)[0] == js_esc4(hi)[0]);
        }
        assert((0x10000 + (((hi - 0xD800) as u32) << 10) + ((lo - 0xDC00) as u32)) as u32 == v)
            by (bit_vector)
            requires
                hi == (0xD800 + (((v - 0x10000) as u32) >> 10)) as u32 && lo == (0xDC00 + (((v
                    - 0x10000) as u32) & 0x3FF)) as u32 && 0x10000 <= v <= 0x10FFFF,
        ;
    }
}

proof fn lemma_p_chars(b: Seq<u8>, i: int, s: Seq<char>)
    requires
        holds_at(b, i, js_chars(s)),
        i + js_chars(s).len() < b.len(),
        b[i + js_chars(s).len()] == 0x22,
    ensures
        p_chars(b, i) == Some((s, i + js_chars(s).len())),
    decreases s.len(),
{
    if s.len() == 0 {
        assert(p_chars(b, i) == Some((Seq::<char>::empty(), i)));
        assert(s =~= Seq::<char>::empty());
    } else {
        lemma_holds_at_split(b, i, js_char(s[0]), js_chars(s.drop_first()));
        lemma_p_char(b, i, s[0]);
        assert(js_char(s[0])[0] != 0x22) by {
            let v = s[0] as u32;
            if 0x20 <= v < 0x7F && v != 0x22 && v != 0x5C {
                assert(js_char(s[0])[0] == (v as u8));
            }
        }
        assert(b[i] == js_char(s[0])[0]) by {
            assert(b.subrange(i, i + js_char(s[0]).len())[0] == js_char(s[0])[0]);
        }
        lemma_p_chars(b, i + js_char(s[0]).len(), s.drop_first());
        assert(seq![s[0]] + s.drop_first() =~= s);
    }
}

proof fn lemma_p_str(b: Seq<u8>, i: int, s: Seq<char>)
    requires
        holds_at(b, i, js_str(s)),
    ensures
        p_str(b, i) == Some((s, i + js_str(s).len())),
{
    reveal(js_str);
    lemma_holds_at_split(b, i, seq![0x22u8] + js_chars(s), seq![0x22u8]);
    lemma_holds_at_split(b, i, seq![0x22u8], js_chars(s));
    assert(b[i] == 0x22) by {
        assert(b.subrange(i, i + 1)[0] == seq![0x22u8][0]);
    }
    assert(b[i + 1 + js_chars(s).len()] == 0x22) by {
        assert(b.subrange(i + 1 + js_chars(s).len(), i + 1 + js_chars(s).len() + 1)[0]
            == seq![0x22u8][0]);
    }
    lemma_p_chars(b, i + 1, s);
}

/// The value folded after reading the digits of `n` onto `acc`.
pub open spec fn pow10_of(n: u64) -> nat
    decreases n,
{
    if n < 10 {
        10
    } else {
        10 * pow10_of(n / 10)
    }
}

proof fn lemma_js_u64_digits(n: u64)
    ensures
        js_u64(n).len() >= 1,
        forall|k: int| 0 <= k < js_u64(n).len() ==> is_digit(#[trigger] js_u64(n)[k]),
    decreases n,
{
    if n >= 10 {
        lemma_js_u64_digits(n / 10);
        assert(forall|k: int|
            0 <= k < js_u64(n / 10).len() ==> #[trigger] js_u64(n)[k] == js_u64(n / 10)[k]);
        assert(js_u64(n).last() == (0x30 + (n % 10)) as u8);
    }
}

proof fn lemma_p_digits(b: Seq<u8>, i: int, n: u64, acc: nat)
    requires
        holds_at(b, i, js_u64(n)),
    ensures
        p_digits(b, i, acc) == p_digits(
            b,
            i + js_u64(n).len(),
            (acc * pow10_of(n) + n) as nat,
        ),
    decreases n,
{
    lemma_js_u64_digits(n);
    if n < 10 {
        assert(b[i] == (0x30 + n) as u8) by {
            assert(b.subrange(i, i + 1)[0] == js_u64(n)[0]);
        }
        assert(acc * 10 + n == acc * pow10_of(n) + n);
    } else {
        lemma_holds_at_split(b, i, js_u64(n / 10), seq![(0x30 + (n % 10)) as u8]);
        lemma_p_digits(b, i, n / 10, acc);
        let mid = i + js_u64(n / 10).len();
        let acc1 = acc * pow10_of(n / 10) + (n / 10) as nat;
        assert(b[mid] == (0x30 + (n % 10)) as u8) by {
            assert(b.subrange(mid, mid + 1)[0] == (0x30 + (n % 10)) as u8);
        }
        assert(is_digit(b[mid]));
        assert(p_digits(b, mid, acc1) == p_digits(b, mid + 1, acc1 * 10 + (n % 10) as nat));
        assert(acc1 * 10 + (n % 10) as nat == acc * pow10_of(n) + n) by (nonlinear_arith)
            requires
                acc1 == acc * pow10_of(n / 10) + (n / 10) as nat && pow10_of(n) == 10 * pow10_of(
                    n / 10,
                ) && n >= 10 && n / 10 == (n as int - (n % 10) as int) / 10 && 0 <= n % 10 < 10
                    && n as int == 10 * ((n as int) / 10) + (n as int) % 10,
        ;
    }
}

proof fn lemma_p_u64(b: Seq<u8>, i: int, n: u64)
    requires
        holds_at(b, i, js_u64(n)),
        i + js_u64(n).len() < b.len(),
        !is_digit(b[i + js_u64(n).len()]),
    ensures
        p_u64(b, i) == Some((n, i + js_u64(n).len())),
{
    lemma_js_u64_digits(n);
    assert(b[i] == js_u64(n)[0]) by {
        assert(b.subrange(i, i + js_u64(n).len())[0] == js_u64(n)[0]);
    }
    lemma_p_digits(b, i, n, 0);
    assert(p_digits(b, i + js_u64(n).len(), (0 * pow10_of(n) + n) as nat) == (
        (0 * pow10_of(n) + n) as nat,
        i + js_u64(n).len(),
    ));
    assert((0 * pow10_of(n) + n) as nat == n as nat);
}

proof fn lemma_p_u32(b: Seq<u8>, i: int, n: u32)
    requires
        holds_at(b, i, js_u32(n)),
        i + js_u32(n).len() < b.len(),
        !is_digit(b[i + js_u32(n).len()]),
    ensures
        p_u32(b, i) == Some((n, i + js_u32(n).len())),
{
    lemma_p_u64(b, i, n as u64);
}

proof fn lemma_p_i64(b: Seq<u8>, i: int, x: i64)
    requires
        holds_at(b, i, js_i64(x)),
        i + js_i64(x).len() < b.len(),
        !is_digit(b[i + js_i64(x).len()]),
    ensures
        p_i64(b, i) == Some((x, i + js_i64(x).len())),
{
    if x < 0 {
        let m = (0 - x as int) as u64;
        lemma_holds_at_split(b, i, seq![0x2du8], js_u64(m));
        assert(b[i] == 0x2d) by {
            assert(b.subrange(i, i + 1)[0] == 0x2du8);
        }
        lemma_p_u64(b, i + 1, m);
        assert(m <= 0x8000000000000000u64 && m > 0);
        assert((0 - m as int) as i64 == x);
    } else {
        lemma_p_u64(b, i, x as u64);
        assert(b[i] == js_u64(x as u64)[0]) by {
            assert(b.subrange(i, i + js_u64(x as u64).len())[0] == js_u64(x as u64)[0]);
        }
        lemma_js_u64_digits(x as u64);
        assert(b[i] != 0x2d);
    }
}

proof fn lemma_p_bool(b: Seq<u8>, i: int, v: bool)
    requires
        holds_at(b, i, js_bool(v)),
    ensures
        p_bool(b, i) == Some((v, i + js_bool(v).len())),
{
    if v {
    } else {
        assert(b[i] == 0x66) by {
            assert(b.subrange(i, i + 5)[0] == 0x66u8);
        }
        assert(!holds_at(b, i, js_bool(true))) by {
            if holds_at(b, i, js_bool(true)) {
                assert(b.subrange(i, i + 4)[0] == 0x74u8);
            }
        }
    }
}


// ------------------------------------------------------------------
// The line format of the plugin protocol
// ------------------------------------------------------------------
/// The bytes `{"Init":`.
#[verifier::opaque]
pub open spec fn k_tag_init() -> Seq<u8> {
    seq![0x7bu8, 0x22u8, 0x49u8, 0x6eu8, 0x69u8, 0x74u8, 0x22u8, 0x3au8]
}

/// The bytes `{"InitRunner":`.
#[verifier::opaque]
pub open spec fn k_tag_init_runner() -> Seq<u8> {
    seq![0x7bu8, 0x22u8, 0x49u8, 0x6eu8, 0x69u8, 0x74u8, 0x52u8, 0x75u8, 0x6eu8, 0x6eu8, 0x65u8, 0x72u8, 0x22u8, 0x3au8]
}

/// The bytes `{"Log":`.
#[verifier::opaque]
pub open spec fn k_tag_log() -> Seq<u8> {
    seq![0x7bu8, 0x22u8, 0x4cu8, 0x6fu8, 0x67u8, 0x22u8, 0x3au8]
}

/// The bytes `{"Inner":null}`.
#[verifier::opaque]
pub open spec fn k_tag_inner() -> Seq<u8> {
    seq![0x7bu8, 0x22u8, 0x49u8, 0x6eu8, 0x6eu8, 0x65u8, 0x72u8, 0x22u8, 0x3au8, 0x6eu8, 0x75u8, 0x6cu8, 0x6cu8, 0x7du8]
}

/// The bytes `{"plugin_version":`.
#[verifier::opaque]
pub open spec fn k_plugin_version() -> Seq<u8> {
    seq![0x7bu8, 0x22u8, 0x70u8, 0x6cu8, 0x75u8, 0x67u8, 0x69u8, 0x6eu8, 0x5fu8, 0x76u8, 0x65u8, 0x72u8, 0x73u8, 0x69u8, 0x6fu8, 0x6eu8, 0x22u8, 0x3au8]
}

/// The bytes `,"protocol_version_valid":`.
#[verifier::opaque]
pub open spec fn k_version_valid() -> Seq<u8> {
    seq![0x2cu8, 0x22u8, 0x70u8, 0x72u8, 0x6fu8, 0x74u8, 0x6fu8, 0x63u8, 0x6fu8, 0x6cu8, 0x5fu8, 0x76u8, 0x65u8, 0x72u8, 0x73u8, 0x69u8, 0x6fu8, 0x6eu8, 0x5fu8, 0x76u8, 0x61u8, 0x6cu8, 0x69u8, 0x64u8, 0x22u8, 0x3au8]
}

/// The bytes `,"accepted_extensions":`.
#[verifier::opaque]
pub open spec fn k_extensions() -> Seq<u8> {
    seq![0x2cu8, 0x22u8, 0x61u8, 0x63u8, 0x63u8, 0x65u8, 0x70u8, 0x74u8, 0x65u8, 0x64u8, 0x5fu8, 0x65u8, 0x78u8, 0x74u8, 0x65u8, 0x6eu8, 0x73u8, 0x69u8, 0x6fu8, 0x6eu8, 0x73u8, 0x22u8, 0x3au8]
}

/// The bytes `{"major":`.
#[verifier::opaque]
pub open spec fn k_major() -> Seq<u8> {
    seq![0x7bu8, 0x22u8, 0x6du8, 0x61u8, 0x6au8, 0x6fu8, 0x72u8, 0x22u8, 0x3au8]
}

/// The bytes `,"minor":`.
#[verifier::opaque]
pub open spec fn k_minor() -> Seq<u8> {
    seq![0x2cu8, 0x22u8, 0x6du8, 0x69u8, 0x6eu8, 0x6fu8, 0x72u8, 0x22u8, 0x3au8]
}

/// The bytes `,"patch":`.
#[verifier::opaque]
pub open spec fn k_patch() -> Seq<u8> {
    seq![0x2cu8, 0x22u8, 0x70u8, 0x61u8, 0x74u8, 0x63u8, 0x68u8, 0x22u8, 0x3au8]
}

/// The bytes `{"level":`.
#[verifier::opaque]
pub open spec fn k_level() -> Seq<u8> {
    seq![0x7bu8, 0x22u8, 0x6cu8, 0x65u8, 0x76u8, 0x65u8, 0x6cu8, 0x22u8, 0x3au8]
}

/// The bytes `,"name":`.
#[verifier::opaque]
pub open spec fn k_name() -> Seq<u8> {
    seq![0x2cu8, 0x22u8, 0x6eu8, 0x61u8, 0x6du8, 0x65u8, 0x22u8, 0x3au8]
}

/// The bytes `,"target":`.
#[verifier::opaque]
pub open spec fn k_target() -> Seq<u8> {
    seq![0x2cu8, 0x22u8, 0x74u8, 0x61u8, 0x72u8, 0x67u8, 0x65u8, 0x74u8, 0x22u8, 0x3au8]
}

/// The bytes of the comma, the module-path key and the colon.
#[verifier::opaque]
pub open spec fn k_module() -> Seq<u8> {
    seq![0x2cu8, 0x22u8, 0x6du8, 0x6fu8, 0x64u8, 0x75u8, 0x6cu8, 0x65u8, 0x5fu8, 0x70u8, 0x61u8, 0x74u8, 0x68u8, 0x22u8, 0x3au8]
}

/// The bytes `,"file":`.
#[verifier::opaque]
pub open spec fn k_file() -> Seq<u8> {
    seq![0x2cu8, 0x22u8, 0x66u8, 0x69u8, 0x6cu8, 0x65u8, 0x22u8, 0x3au8]
}

/// The bytes `,"line":`.
#[verifier::opaque]
pub open spec fn k_line() -> Seq<u8> {
    seq![0x2cu8, 0x22u8, 0x6cu8, 0x69u8, 0x6eu8, 0x65u8, 0x22u8, 0x3au8]
}

/// The bytes `,"fields":`.
#[verifier::opaque]
pub open spec fn k_fields() -> Seq<u8> {
    seq![0x2cu8, 0x22u8, 0x66u8, 0x69u8, 0x65u8, 0x6cu8, 0x64u8, 0x73u8, 0x22u8, 0x3au8]
}

/// The characters each severity prints as.
pub open spec fn level_chars(l: Level) -> Seq<char> {
    match l {
        Level::Trace => seq!['T', 'r', 'a', 'c', 'e'],
        Level::Debug => seq!['D', 'e', 'b', 'u', 'g'],
        Level::Info => seq!['I', 'n', 'f', 'o'],
        Level::Warn => seq!['W', 'a', 'r', 'n'],
        Level::Error => seq!['E', 'r', 'r', 'o', 'r'],
    }
}

#[verifier::ext_equal]
pub struct LogMessageView {
    pub level: Level,
    pub name: Seq<char>,
    pub target: Seq<char>,
    pub module: Option<Seq<char>>,
    pub file: Option<Seq<char>>,
    pub line: Option<u32>,
    pub fields: Seq<(Seq<char>, LogValueView)>,
}

impl View for LogMessage {
    type V = LogMessageView;

    open spec fn view(&self) -> LogMessageView {
        LogMessageView {
            level: self.level,
            name: self.name@,
            target: self.target@,
            module: match &self.module {
                Some(s) => Some(s@),
                None => None,
            },
            file: match &self.file {
                Some(s) => Some(s@),
                None => None,
            },
            line: self.line,
            fields: self.fields@.map_values(|p: (String, LogValue)| (p.0@, p.1@)),
        }
    }
}

/// One line of the plugin protocol, by shape.
#[verifier::ext_equal]
pub enum PluginLineView {
    Init { plugin_version: ProtoVersion, protocol_version_valid: bool },
    InitRunner {
        plugin_version: ProtoVersion,
        protocol_version_valid: bool,
        accepted_extensions: Seq<Seq<char>>,
    },
    Log(LogMessageView),
    Inner,
}

impl View for GeneralPluginResponse<()> {
    type V = PluginLineView;

    open spec fn view(&self) -> PluginLineView {
        match self {
            GeneralPluginResponse::Init { plugin_version, protocol_version_valid } => {
                PluginLineView::Init {
                    plugin_version: *plugin_version,
                    protocol_version_valid: *protocol_version_valid,
                }
            },
            GeneralPluginResponse::InitRunner {
                plugin_version,
                protocol_version_valid,
                accepted_extensions,
            } => PluginLineView::InitRunner {
                plugin_version: *plugin_version,
                protocol_version_valid: *protocol_version_valid,
                accepted_extensions: accepted_extensions@.map_values(|s: String| s@),
            },
            GeneralPluginResponse::Log(m) => PluginLineView::Log(m@),
            GeneralPluginResponse::Inner(_) => PluginLineView::Inner,
        }
    }
}

// ------------------------------------------------------------------
// Structure emitters
// ------------------------------------------------------------------
#[verifier::opaque]
pub open spec fn js_version(v: ProtoVersion) -> Seq<u8> {
    k_major() + js_u64(v.major) + k_minor() + js_u64(v.minor) + k_patch() + js_u64(v.patch)
        + seq![0x7du8]
}

pub open spec fn js_opt_str(v: Option<Seq<char>>) -> Seq<u8> {
    match v {
        Some(s) => js_str(s),
        None => js_null(),
    }
}

pub open spec fn js_opt_u32(v: Option<u32>) -> Seq<u8> {
    match v {
        Some(n) => js_u32(n),
        None => js_null(),
    }
}

pub open spec fn js_log_value(v: LogValueView) -> Seq<u8> {
    match v {
        LogValueView::Bool(x) => js_bool(x),
        LogValueView::Int(x) => js_i64(x),
        LogValueView::UInt(x) => js_u64(x),
        LogValueView::Text(s) => js_str(s),
    }
}

pub open spec fn js_pair(p: (Seq<char>, LogValueView)) -> Seq<u8> {
    js_str(p.0) + seq![0x3au8] + js_log_value(p.1)
}

pub open spec fn js_fields_rest(fs: Seq<(Seq<char>, LogValueView)>) -> Seq<u8>
    decreases fs.len(),
{
    if fs.len() == 0 {
        Seq::empty()
    } else {
        seq![0x2cu8] + js_pair(fs[0]) + js_fields_rest(fs.drop_first())
    }
}

#[verifier::opaque]
pub open spec fn js_fields(fs: Seq<(Seq<char>, LogValueView)>) -> Seq<u8> {
    if fs.len() == 0 {
        seq![0x7bu8, 0x7du8]
    } else {
        seq![0x7bu8] + js_pair(fs[0]) + js_fields_rest(fs.drop_first()) + seq![0x7du8]
    }
}

pub open spec fn js_list_rest(ss: Seq<Seq<char>>) -> Seq<u8>
    decreases ss.len(),
{
    if ss.len() == 0 {
        Seq::empty()
    } else {
        seq![0x2cu8] + js_str(ss[0]) + js_list_rest(ss.drop_first())
    }
}

#[verifier::opaque]
pub open spec fn js_str_list(ss: Seq<Seq<char>>) -> Seq<u8> {
    if ss.len() == 0 {
        seq![0x5bu8, 0x5du8]
    } else {
        seq![0x5bu8] + js_str(ss[0]) + js_list_rest(ss.drop_first()) + seq![0x5du8]
    }
}

#[verifier::opaque]
pub open spec fn js_log(m: LogMessageView) -> Seq<u8> {
    k_level() + js_str(level_chars(m.level)) + k_name() + js_str(m.name) + k_target() + js_str(
        m.target,
    ) + k_module() + js_opt_str(m.module) + k_file() + js_opt_str(m.file) + k_line() + js_opt_u32(
        m.line,
    ) + k_fields() + js_fields(m.fields) + seq![0x7du8]
}

/// One whole line.
pub open spec fn line_enc(r: PluginLineView) -> Seq<u8> {
    match r {
        PluginLineView::Init { plugin_version, protocol_version_valid } => k_tag_init()
            + k_plugin_version() + js_version(plugin_version) + k_version_valid() + js_bool(
            protocol_version_valid,
        ) + seq![0x7du8, 0x7du8],
        PluginLineView::InitRunner {
            plugin_version,
            protocol_version_valid,
            accepted_extensions,
        } => k_tag_init_runner() + k_plugin_version() + js_version(plugin_version)
            + k_version_valid() + js_bool(protocol_version_valid) + k_extensions() + js_str_list(
            accepted_extensions,
        ) + seq![0x7du8, 0x7du8],
        PluginLineView::Log(m) => k_tag_log() + js_log(m) + seq![0x7du8],
        PluginLineView::Inner => k_tag_inner(),
    }
}

// ------------------------------------------------------------------
// Structure parsers
// ------------------------------------------------------------------
pub open spec fn p_version(b: Seq<u8>, i: int) -> Option<(ProtoVersion, int)> {
    match p_exact(b, i, k_major()) {
        None => None,
        Some(j) => match p_u64(b, j) {
            None => None,
            Some((major, j)) => match p_exact(b, j, k_minor()) {
                None => None,
                Some(j) => match p_u64(b, j) {
                    None => None,
                    Some((minor, j)) => match p_exact(b, j, k_patch()) {
                        None => None,
                        Some(j) => match p_u64(b, j) {
                            None => None,
                            Some((patch, j)) => {
                                if 0 <= j < b.len() && b[j] == 0x7d {
                                    Some((ProtoVersion { major, minor, patch }, j + 1))
                                } else {
                                    None
                                }
                            },
                        },
                    },
                },
            },
        },
    }
}

pub open spec fn p_level(b: Seq<u8>, i: int) -> Option<(Level, int)> {
    match p_str(b, i) {
        None => None,
        Some((s, j)) => {
            if s == level_chars(Level::Trace) {
                Some((Level::Trace, j))
            } else if s == level_chars(Level::Debug) {
                Some((Level::Debug, j))
            } else if s == level_chars(Level::Info) {
                Some((Level::Info, j))
            } else if s == level_chars(Level::Warn) {
                Some((Level::Warn, j))
            } else if s == level_chars(Level::Error) {
                Some((Level::Error, j))
            } else {
                None
            }
        },
    }
}

pub open spec fn p_opt_str(b: Seq<u8>, i: int) -> Option<(Option<Seq<char>>, int)> {
    if 0 <= i < b.len() && b[i] == 0x6e {
        match p_exact(b, i, js_null()) {
            Some(j) => Some((None, j)),
            None => None,
        }
    } else {
        match p_str(b, i) {
            Some((s, j)) => Some((Some(s), j)),
            None => None,
        }
    }
}

pub open spec fn p_opt_u32(b: Seq<u8>, i: int) -> Option<(Option<u32>, int)> {
    if 0 <= i < b.len() && b[i] == 0x6e {
        match p_exact(b, i, js_null()) {
            Some(j) => Some((None, j)),
            None => None,
        }
    } else {
        match p_u32(b, i) {
            Some((n, j)) => Some((Some(n), j)),
            None => None,
        }
    }
}

pub open spec fn p_log_value(b: Seq<u8>, i: int) -> Option<(LogValueView, int)> {
    if !(0 <= i < b.len()) {
        None
    } else if b[i] == 0x22 {
        match p_str(b, i) {
            Some((s, j)) => Some((LogValueView::Text(s), j)),
            None => None,
        }
    } else if b[i] == 0x74 || b[i] == 0x66 {
        match p_bool(b, i) {
            Some((v, j)) => Some((LogValueView::Bool(v), j)),
            None => None,
        }
    } else if b[i] == 0x2d {
        match p_i64(b, i) {
            Some((x, j)) => Some((LogValueView::Int(x), j)),
            None => None,
        }
    } else {
        match p_u64(b, i) {
            Some((n, j)) => {
                if n <= i64::MAX as u64 {
                    Some((LogValueView::Int(n as i64), j))
                } else {
                    Some((LogValueView::UInt(n), j))
                }
            },
            None => None,
        }
    }
}

pub open spec fn p_pair(b: Seq<u8>, i: int) -> Option<((Seq<char>, LogValueView), int)> {
    match p_str(b, i) {
        None => None,
        Some((k, j)) => {
            if 0 <= j < b.len() && b[j] == 0x3a {
                match p_log_value(b, j + 1) {
                    Some((v, e)) => Some(((k, v), e)),
                    None => None,
                }
            } else {
                None
            }
        },
    }
}

pub open spec fn p_fields_rest(b: Seq<u8>, i: int, fuel: nat) -> Option<
    (Seq<(Seq<char>, LogValueView)>, int),
>
    decreases fuel,
{
    if !(0 <= i < b.len()) {
        None
    } else if b[i] == 0x7d {
        Some((Seq::empty(), i + 1))
    } else if b[i] == 0x2c && fuel > 0 {
        match p_pair(b, i + 1) {
            None => None,
            Some((p, j)) => match p_fields_rest(b, j, (fuel - 1) as nat) {
                None => None,
                Some((rest, e)) => Some((seq![p] + rest, e)),
            },
        }
    } else {
        None
    }
}

pub open spec fn p_fields(b: Seq<u8>, i: int, fuel: nat) -> Option<
    (Seq<(Seq<char>, LogValueView)>, int),
> {
    if 0 <= i < b.len() && b[i] == 0x7b {
        if i + 1 < b.len() && b[i + 1] == 0x7d {
            Some((Seq::empty(), i + 2))
        } else {
            match p_pair(b, i + 1) {
                None => None,
                Some((p, j)) => match p_fields_rest(b, j, fuel) {
                    None => None,
                    Some((rest, e)) => Some((seq![p] + rest, e)),
                },
            }
        }
    } else {
        None
    }
}

pub open spec fn p_list_rest(b: Seq<u8>, i: int, fuel: nat) -> Option<(Seq<Seq<char>>, int)>
    decreases fuel,
{
    if !(0 <= i < b.len()) {
        None
    } else if b[i] == 0x5d {
        Some((Seq::empty(), i + 1))
    } else if b[i] == 0x2c && fuel > 0 {
        match p_str(b, i + 1) {
            None => None,
            Some((s, j)) => match p_list_rest(b, j, (fuel - 1) as nat) {
                None => None,
                Some((rest, e)) => Some((seq![s] + rest, e)),
            },
        }
    } else {
        None
    }
}

pub open spec fn p_str_list(b: Seq<u8>, i: int, fuel: nat) -> Option<(Seq<Seq<char>>, int)> {
    if 0 <= i < b.len() && b[i] == 0x5b {
        if i + 1 < b.len() && b[i + 1] == 0x5d {
            Some((Seq::empty(), i + 2))
        } else {
            match p_str(b, i + 1) {
                None => None,
                Some((s, j)) => match p_list_rest(b, j, fuel) {
                    None => None,
                    Some((rest, e)) => Some((seq![s] + rest, e)),
                },
            }
        }
    } else {
        None
    }
}

pub open spec fn p_log(b: Seq<u8>, i: int, fuel: nat) -> Option<(LogMessageView, int)> {
    match p_exact(b, i, k_level()) {
        None => None,
        Some(j) => match p_level(b, j) {
            None => None,
            Some((level, j)) => match p_exact(b, j, k_name()) {
                None => None,
                Some(j) => match p_str(b, j) {
                    None => None,
                    Some((name, j)) => match p_exact(b, j, k_target()) {
                        None => None,
                        Some(j) => match p_str(b, j) {
                            None => None,
                            Some((target, j)) => match p_exact(b, j, k_module()) {
                                None => None,
                                Some(j) => match p_opt_str(b, j) {
                                    None => None,
                                    Some((module, j)) => match p_exact(b, j, k_file()) {
                                        None => None,
                                        Some(j) => match p_opt_str(b, j) {
                                            None => None,
                                            Some((file, j)) => match p_exact(b, j, k_line()) {
                                                None => None,
                                                Some(j) => match p_opt_u32(b, j) {
                                                    None => None,
                                                    Some((line, j)) => match p_exact(
                                                        b,
                                                        j,
                                                        k_fields(),
                                                    ) {
                                                        None => None,
                                                        Some(j) => match p_fields(b, j, fuel) {
                                                            None => None,
                                                            Some((fields, j)) => {
                                                                if 0 <= j < b.len() && b[j]
                                                                    == 0x7d {
                                                                    Some(
                                                                        (
                                                                            LogMessageView {
                                                                                level,
                                                                                name,
                                                                                target,
                                                                                module,
                                                                                file,
                                                                                line,
                                                                                fields,
                                                                            },
                                                                            j + 1,
                                                                        ),
                                                                    )
                                                                } else {
                                                                    None
                                                                }
                                                            },
                                                        },
                                                    },
                                                },
                                            },
                                        },
                                    },
                                },
                            },
                        },
                    },
                },
            },
        },
    }
}

pub open spec fn p_line_init(b: Seq<u8>, i: int) -> Option<(PluginLineView, int)> {
    match p_exact(b, i, k_plugin_version()) {
        None => None,
        Some(j) => match p_version(b, j) {
            None => None,
            Some((pv, j)) => match p_exact(b, j, k_version_valid()) {
                None => None,
                Some(j) => match p_bool(b, j) {
                    None => None,
                    Some((valid, j)) => {
                        if j + 2 <= b.len() && b[j] == 0x7d && b[j + 1] == 0x7d {
                            Some(
                                (
                                    PluginLineView::Init {
                                        plugin_version: pv,
                                        protocol_version_valid: valid,
                                    },
                                    j + 2,
                                ),
                            )
                        } else {
                            None
                        }
                    },
                },
            },
        },
    }
}

pub open spec fn p_line_init_runner(b: Seq<u8>, i: int, fuel: nat) -> Option<
    (PluginLineView, int),
> {
    match p_exact(b, i, k_plugin_version()) {
        None => None,
        Some(j) => match p_version(b, j) {
            None => None,
            Some((pv, j)) => match p_exact(b, j, k_version_valid()) {
                None => None,
                Some(j) => match p_bool(b, j) {
                    None => None,
                    Some((valid, j)) => match p_exact(b, j, k_extensions()) {
                        None => None,
                        Some(j) => match p_str_list(b, j, fuel) {
                            None => None,
                            Some((exts, j)) => {
                                if j + 2 <= b.len() && b[j] == 0x7d && b[j + 1] == 0x7d {
                                    Some(
                                        (
                                            PluginLineView::InitRunner {
                                                plugin_version: pv,
                                                protocol_version_valid: valid,
                                                accepted_extensions: exts,
                                            },
                                            j + 2,
                                        ),
                                    )
                                } else {
                                    None
                                }
                            },
                        },
                    },
                },
            },
        },
    }
}

pub open spec fn p_line_log(b: Seq<u8>, i: int, fuel: nat) -> Option<(PluginLineView, int)> {
    match p_log(b, i, fuel) {
        None => None,
        Some((m, j)) => {
            if 0 <= j < b.len() && b[j] == 0x7d {
                Some((PluginLineView::Log(m), j + 1))
            } else {
                None
            }
        },
    }
}

pub open spec fn p_line(b: Seq<u8>, fuel: nat) -> Option<(PluginLineView, int)> {
    if holds_at(b, 0, k_tag_inner()) {
        Some((PluginLineView::Inner, k_tag_inner().len() as int))
    } else if holds_at(b, 0, k_tag_init()) {
        p_line_init(b, k_tag_init().len() as int)
    } else if holds_at(b, 0, k_tag_init_runner()) {
        p_line_init_runner(b, k_tag_init_runner().len() as int, fuel)
    } else if holds_at(b, 0, k_tag_log()) {
        p_line_log(b, k_tag_log().len() as int, fuel)
    } else {
        None
    }
}

/// Decoding a whole line: one value, consuming every byte.
pub open spec fn line_dec(b: Seq<u8>) -> Option<PluginLineView> {
    match p_line(b, b.len()) {
        Some((r, j)) => {
            if j == b.len() {
                Some(r)
            } else {
                None
            }
        },
        None => None,
    }
}


// ------------------------------------------------------------------
// Round-trip lemmas for the structures
// ------------------------------------------------------------------
proof fn lemma_js_fields_rest_len(fs: Seq<(Seq<char>, LogValueView)>)
    ensures
        js_fields_rest(fs).len() >= fs.len(),
    decreases fs.len(),
{
    if fs.len() > 0 {
        lemma_js_fields_rest_len(fs.drop_first());
    }
}

proof fn lemma_js_list_rest_len(ss: Seq<Seq<char>>)
    ensures
        js_list_rest(ss).len() >= ss.len(),
    decreases ss.len(),
{
    if ss.len() > 0 {
        lemma_js_list_rest_len(ss.drop_first());
    }
}

proof fn lemma_js_str_list_len(ss: Seq<Seq<char>>)
    ensures
        js_str_list(ss).len() >= ss.len(),
{
    reveal(js_str_list);
    if ss.len() > 0 {
        lemma_js_list_rest_len(ss.drop_first());
    }
}

proof fn lemma_js_fields_len(fs: Seq<(Seq<char>, LogValueView)>)
    ensures
        js_fields(fs).len() >= fs.len(),
{
    reveal(js_fields);
    if fs.len() > 0 {
        lemma_js_fields_rest_len(fs.drop_first());
    }
}

proof fn lemma_js_log_len(m: LogMessageView)
    ensures
        js_log(m).len() >= m.fields.len(),
{
    reveal(js_log);
    lemma_js_fields_len(m.fields);
}

proof fn lemma_p_version(b: Seq<u8>, i: int, v: ProtoVersion)
    requires
        holds_at(b, i, js_version(v)),
    ensures
        p_version(b, i) == Some((v, i + js_version(v).len())),
{
    reveal(k_minor);
    reveal(k_patch);
    reveal(js_version);
    let e1 = k_major();
    let d1 = js_u64(v.major);
    let e2 = k_minor();
    let d2 = js_u64(v.minor);
    let e3 = k_patch();
    let d3 = js_u64(v.patch);
    let close = seq![0x7du8];
    lemma_holds_at_split(b, i, e1 + d1 + e2 + d2 + e3 + d3, close);
    lemma_holds_at_split(b, i, e1 + d1 + e2 + d2 + e3, d3);
    lemma_holds_at_split(b, i, e1 + d1 + e2 + d2, e3);
    lemma_holds_at_split(b, i, e1 + d1 + e2, d2);
    lemma_holds_at_split(b, i, e1 + d1, e2);
    lemma_holds_at_split(b, i, e1, d1);
    lemma_p_exact(b, i, e1);
    let i1 = i + e1.len();
    let i2 = i1 + d1.len();
    let i3 = i2 + e2.len();
    let i4 = i3 + d2.len();
    let i5 = i4 + e3.len();
    let i6 = i5 + d3.len();
    assert(b[i2] == 0x2c) by {
        assert(b.subrange(i2, i2 + e2.len())[0] == e2[0]);
    }
    lemma_p_u64(b, i1, v.major);
    lemma_p_exact(b, i2, e2);
    assert(b[i4] == 0x2c) by {
        assert(b.subrange(i4, i4 + e3.len())[0] == e3[0]);
    }
    lemma_p_u64(b, i3, v.minor);
    lemma_p_exact(b, i4, e3);
    assert(b[i6] == 0x7d) by {
        assert(b.subrange(i6, i6 + 1)[0] == close[0]);
    }
    lemma_p_u64(b, i5, v.patch);
    assert(ProtoVersion { major: v.major, minor: v.minor, patch: v.patch } == v);
}

proof fn lemma_p_level(b: Seq<u8>, i: int, l: Level)
    requires
        holds_at(b, i, js_str(level_chars(l))),
    ensures
        p_level(b, i) == Some((l, i + js_str(level_chars(l)).len())),
{
    lemma_p_str(b, i, level_chars(l));
    match l {
        Level::Trace => {},
        Level::Debug => {
            assert(level_chars(Level::Debug)[0] != level_chars(Level::Trace)[0]);
        },
        Level::Info => {
            assert(level_chars(Level::Info).len() != level_chars(Level::Trace).len());
            assert(level_chars(Level::Info).len() != level_chars(Level::Debug).len());
        },
        Level::Warn => {
            assert(level_chars(Level::Warn)[0] != level_chars(Level::Trace)[0]);
            assert(level_chars(Level::Warn)[0] != level_chars(Level::Debug)[0]);
            assert(level_chars(Level::Warn)[0] != level_chars(Level::Info)[0]);
        },
        Level::Error => {
            assert(level_chars(Level::Error)[0] != level_chars(Level::Trace)[0]);
            assert(level_chars(Level::Error)[0] != level_chars(Level::Debug)[0]);
            assert(level_chars(Level::Error).len() != level_chars(Level::Info).len());
            assert(level_chars(Level::Error)[0] != level_chars(Level::Warn)[0]);
        },
    }
}

proof fn lemma_js_str_starts_with_quote(s: Seq<char>)
    ensures
        js_str(s).len() >= 2,
        js_str(s)[0] == 0x22,
{
    reveal(js_str);
    assert(js_str(s)[0] == seq![0x22u8][0]);
}

proof fn lemma_p_opt_str(b: Seq<u8>, i: int, v: Option<Seq<char>>)
    requires
        holds_at(b, i, js_opt_str(v)),
    ensures
        p_opt_str(b, i) == Some((v, i + js_opt_str(v).len())),
{
    match v {
        None => {
            assert(b[i] == 0x6e) by {
                assert(b.subrange(i, i + 4)[0] == js_null()[0]);
            }
            lemma_p_exact(b, i, js_null());
        },
        Some(s) => {
            lemma_js_str_starts_with_quote(s);
            assert(b[i] == 0x22) by {
                assert(b.subrange(i, i + js_str(s).len())[0] == js_str(s)[0]);
            }
            lemma_p_str(b, i, s);
        },
    }
}

proof fn lemma_p_opt_u32(b: Seq<u8>, i: int, v: Option<u32>)
    requires
        holds_at(b, i, js_opt_u32(v)),
        v is Some ==> i + js_opt_u32(v).len() < b.len() && !is_digit(b[i + js_opt_u32(v).len()]),
    ensures
        p_opt_u32(b, i) == Some((v, i + js_opt_u32(v).len())),
{
    match v {
        None => {
            assert(b[i] == 0x6e) by {
                assert(b.subrange(i, i + 4)[0] == js_null()[0]);
            }
            lemma_p_exact(b, i, js_null());
        },
        Some(n) => {
            lemma_js_u64_digits(n as u64);
            assert(b[i] == js_u64(n as u64)[0]) by {
                assert(b.subrange(i, i + js_u32(n).len())[0] == js_u32(n)[0]);
            }
            assert(b[i] != 0x6e);
            lemma_p_u32(b, i, n);
        },
    }
}

/// A canonical field value: an unsigned number is used only above the
/// signed range, since the wire cannot tell the two apart below it.
pub open spec fn wf_log_value(v: LogValueView) -> bool {
    v matches LogValueView::UInt(u) ==> u > i64::MAX as u64
}

proof fn lemma_p_log_value(b: Seq<u8>, i: int, v: LogValueView)
    requires
        holds_at(b, i, js_log_value(v)),
        wf_log_value(v),
        i + js_log_value(v).len() < b.len(),
        !is_digit(b[i + js_log_value(v).len()]),
    ensures
        p_log_value(b, i) == Some((v, i + js_log_value(v).len())),
{
    match v {
        LogValueView::Bool(x) => {
            assert(b[i] == js_bool(x)[0]) by {
                assert(b.subrange(i, i + js_bool(x).len())[0] == js_bool(x)[0]);
            }
            lemma_p_bool(b, i, x);
        },
        LogValueView::Int(x) => {
            if x < 0 {
                assert(b[i] == 0x2d) by {
                    assert(b.subrange(i, i + js_i64(x).len())[0] == js_i64(x)[0]);
                }
            } else {
                lemma_js_u64_digits(x as u64);
                assert(b[i] == js_u64(x as u64)[0]) by {
                    assert(b.subrange(i, i + js_i64(x).len())[0] == js_i64(x)[0]);
                }
            }
            lemma_p_i64(b, i, x);
            if x >= 0 {
                lemma_p_u64(b, i, x as u64);
            }
        },
        LogValueView::UInt(u) => {
            lemma_js_u64_digits(u);
            assert(b[i] == js_u64(u)[0]) by {
                assert(b.subrange(i, i + js_u64(u).len())[0] == js_u64(u)[0]);
            }
            lemma_p_u64(b, i, u);
        },
        LogValueView::Text(s) => {
            lemma_js_str_starts_with_quote(s);
            assert(b[i] == 0x22) by {
                assert(b.subrange(i, i + js_str(s).len())[0] == js_str(s)[0]);
            }
            lemma_p_str(b, i, s);
        },
    }
}

proof fn lemma_p_pair(b: Seq<u8>, i: int, p: (Seq<char>, LogValueView))
    requires
        holds_at(b, i, js_pair(p)),
        wf_log_value(p.1),
        i + js_pair(p).len() < b.len(),
        !is_digit(b[i + js_pair(p).len()]),
    ensures
        p_pair(b, i) == Some((p, i + js_pair(p).len())),
{
    let e1 = js_str(p.0);
    let colon = seq![0x3au8];
    let e2 = js_log_value(p.1);
    lemma_holds_at_split(b, i, e1 + colon, e2);
    lemma_holds_at_split(b, i, e1, colon);
    lemma_p_str(b, i, p.0);
    assert(b[i + e1.len()] == 0x3a) by {
        assert(b.subrange(i + e1.len(), i + e1.len() + 1)[0] == colon[0]);
    }
    lemma_p_log_value(b, i + e1.len() + 1, p.1);
}

pub open spec fn wf_fields(fs: Seq<(Seq<char>, LogValueView)>) -> bool {
    forall|k: int| 0 <= k < fs.len() ==> wf_log_value((#[trigger] fs[k]).1)
}

proof fn lemma_p_fields_rest(b: Seq<u8>, i: int, fs: Seq<(Seq<char>, LogValueView)>, fuel: nat)
    requires
        holds_at(b, i, js_fields_rest(fs)),
        wf_fields(fs),
        fuel >= fs.len(),
        i + js_fields_rest(fs).len() < b.len(),
        b[i + js_fields_rest(fs).len()] == 0x7d,
    ensures
        p_fields_rest(b, i, fuel) == Some((fs, i + js_fields_rest(fs).len() + 1)),
    decreases fs.len(),
{
    if fs.len() == 0 {
        assert(fs =~= Seq::<(Seq<char>, LogValueView)>::empty());
    } else {
        let comma = seq![0x2cu8];
        let e1 = js_pair(fs[0]);
        let rest = js_fields_rest(fs.drop_first());
        lemma_holds_at_split(b, i, comma + e1, rest);
        lemma_holds_at_split(b, i, comma, e1);
        assert(b[i] == 0x2c) by {
            assert(b.subrange(i, i + 1)[0] == comma[0]);
        }
        let j = i + 1 + e1.len();
        assert(!is_digit(b[j]) && j < b.len()) by {
            if fs.drop_first().len() == 0 {
                assert(rest.len() == 0);
            } else {
                assert(b[j] == 0x2c) by {
                    assert(b.subrange(j, j + rest.len())[0] == rest[0]);
                }
            }
        }
        lemma_p_pair(b, i + 1, fs[0]);
        assert(wf_fields(fs.drop_first())) by {
            assert(forall|k: int|
                0 <= k < fs.drop_first().len() ==> (#[trigger] fs.drop_first()[k]) == fs[k + 1]);
        }
        lemma_p_fields_rest(b, j, fs.drop_first(), (fuel - 1) as nat);
        assert(seq![fs[0]] + fs.drop_first() =~= fs);
    }
}

proof fn lemma_p_fields(b: Seq<u8>, i: int, fs: Seq<(Seq<char>, LogValueView)>, fuel: nat)
    requires
        holds_at(b, i, js_fields(fs)),
        wf_fields(fs),
        fuel >= fs.len(),
        i + js_fields(fs).len() <= b.len(),
    ensures
        p_fields(b, i, fuel) == Some((fs, i + js_fields(fs).len())),
{
    reveal(js_fields);
    if fs.len() == 0 {
        assert(b[i] == 0x7b && b[i + 1] == 0x7d) by {
            assert(b.subrange(i, i + 2)[0] == 0x7bu8);
            assert(b.subrange(i, i + 2)[1] == 0x7du8);
        }
        assert(fs =~= Seq::<(Seq<char>, LogValueView)>::empty());
    } else {
        let open = seq![0x7bu8];
        let e1 = js_pair(fs[0]);
        let rest = js_fields_rest(fs.drop_first());
        let close = seq![0x7du8];
        lemma_holds_at_split(b, i, open + e1 + rest, close);
        lemma_holds_at_split(b, i, open + e1, rest);
        lemma_holds_at_split(b, i, open, e1);
        assert(b[i] == 0x7b) by {
            assert(b.subrange(i, i + 1)[0] == open[0]);
        }
        lemma_js_str_starts_with_quote(fs[0].0);
        assert(b[i + 1] == 0x22) by {
            assert(b.subrange(i + 1, i + 1 + e1.len())[0] == e1[0]);
            assert(e1[0] == js_str(fs[0].0)[0]);
        }
        let j = i + 1 + e1.len();
        let end = j + rest.len();
        assert(b[end] == 0x7d) by {
            assert(b.subrange(end, end + 1)[0] == close[0]);
        }
        assert(!is_digit(b[j]) && j < b.len()) by {
            if fs.drop_first().len() == 0 {
                assert(rest.len() == 0);
            } else {
                assert(b[j] == 0x2c) by {
                    assert(b.subrange(j, j + rest.len())[0] == rest[0]);
                }
            }
        }
        lemma_p_pair(b, i + 1, fs[0]);
        assert(wf_fields(fs.drop_first())) by {
            assert(forall|k: int|
                0 <= k < fs.drop_first().len() ==> (#[trigger] fs.drop_first()[k]) == fs[k + 1]);
        }
        lemma_p_fields_rest(b, j, fs.drop_first(), fuel);
        assert(seq![fs[0]] + fs.drop_first() =~= fs);
    }
}

proof fn lemma_p_list_rest(b: Seq<u8>, i: int, ss: Seq<Seq<char>>, fuel: nat)
    requires
        holds_at(b, i, js_list_rest(ss)),
        fuel >= ss.len(),
        i + js_list_rest(ss).len() < b.len(),
        b[i + js_list_rest(ss).len()] == 0x5d,
    ensures
        p_list_rest(b, i, fuel) == Some((ss, i + js_list_rest(ss).len() + 1)),
    decreases ss.len(),
{
    if ss.len() == 0 {
        assert(ss =~= Seq::<Seq<char>>::empty());
    } else {
        let comma = seq![0x2cu8];
        let e1 = js_str(ss[0]);
        let rest = js_list_rest(ss.drop_first());
        lemma_holds_at_split(b, i, comma + e1, rest);
        lemma_holds_at_split(b, i, comma, e1);
        assert(b[i] == 0x2c) by {
            assert(b.subrange(i, i + 1)[0] == comma[0]);
        }
        lemma_p_str(b, i + 1, ss[0]);
        lemma_p_list_rest(b, i + 1 + e1.len(), ss.drop_first(), (fuel - 1) as nat);
        assert(seq![ss[0]] + ss.drop_first() =~= ss);
    }
}

proof fn lemma_p_str_list(b: Seq<u8>, i: int, ss: Seq<Seq<char>>, fuel: nat)
    requires
        holds_at(b, i, js_str_list(ss)),
        fuel >= ss.len(),
        i + js_str_list(ss).len() <= b.len(),
    ensures
        p_str_list(b, i, fuel) == Some((ss, i + js_str_list(ss).len())),
{
    reveal(js_str_list);
    if ss.len() == 0 {
        assert(b[i] == 0x5b && b[i + 1] == 0x5d) by {
            assert(b.subrange(i, i + 2)[0] == 0x5bu8);
            assert(b.subrange(i, i + 2)[1] == 0x5du8);
        }
        assert(ss =~= Seq::<Seq<char>>::empty());
    } else {
        let open = seq![0x5bu8];
        let e1 = js_str(ss[0]);
        let rest = js_list_rest(ss.drop_first());
        let close = seq![0x5du8];
        lemma_holds_at_split(b, i, open + e1 + rest, close);
        lemma_holds_at_split(b, i, open + e1, rest);
        lemma_holds_at_split(b, i, open, e1);
        assert(b[i] == 0x5b) by {
            assert(b.subrange(i, i + 1)[0] == open[0]);
        }
        lemma_js_str_starts_with_quote(ss[0]);
        assert(b[i + 1] == 0x22) by {
            assert(b.subrange(i + 1, i + 1 + e1.len())[0] == e1[0]);
        }
        let j = i + 1 + e1.len();
        let end = j + rest.len();
        assert(b[end] == 0x5d) by {
            assert(b.subrange(end, end + 1)[0] == close[0]);
        }
        lemma_p_str(b, i + 1, ss[0]);
        lemma_p_list_rest(b, j, ss.drop_first(), fuel);
        assert(seq![ss[0]] + ss.drop_first() =~= ss);
    }
}

#[verifier::rlimit(100)]
proof fn lemma_p_log(b: Seq<u8>, i: int, m: LogMessageView, fuel: nat)
    requires
        holds_at(b, i, js_log(m)),
        wf_fields(m.fields),
        fuel >= m.fields.len(),
    ensures
        p_log(b, i, fuel) == Some((m, i + js_log(m).len())),
{
    reveal(k_fields);
    reveal(js_log);
    let e1 = k_level();
    let d1 = js_str(level_chars(m.level));
    let e2 = k_name();
    let d2 = js_str(m.name);
    let e3 = k_target();
    let d3 = js_str(m.target);
    let e4 = k_module();
    let d4 = js_opt_str(m.module);
    let e5 = k_file();
    let d5 = js_opt_str(m.file);
    let e6 = k_line();
    let d6 = js_opt_u32(m.line);
    let e7 = k_fields();
    let d7 = js_fields(m.fields);
    let close = seq![0x7du8];
    lemma_holds_at_split(b, i, e1 + d1 + e2 + d2 + e3 + d3 + e4 + d4 + e5 + d5 + e6 + d6 + e7 + d7, close);
    lemma_holds_at_split(b, i, e1 + d1 + e2 + d2 + e3 + d3 + e4 + d4 + e5 + d5 + e6 + d6 + e7, d7);
    lemma_holds_at_split(b, i, e1 + d1 + e2 + d2 + e3 + d3 + e4 + d4 + e5 + d5 + e6 + d6, e7);
    lemma_holds_at_split(b, i, e1 + d1 + e2 + d2 + e3 + d3 + e4 + d4 + e5 + d5 + e6, d6);
    lemma_holds_at_split(b, i, e1 + d1 + e2 + d2 + e3 + d3 + e4 + d4 + e5 + d5, e6);
    lemma_holds_at_split(b, i, e1 + d1 + e2 + d2 + e3 + d3 + e4 + d4 + e5, d5);
    lemma_holds_at_split(b, i, e1 + d1 + e2 + d2 + e3 + d3 + e4 + d4, e5);
    lemma_holds_at_split(b, i, e1 + d1 + e2 + d2 + e3 + d3 + e4, d4);
    lemma_holds_at_split(b, i, e1 + d1 + e2 + d2 + e3 + d3, e4);
    lemma_holds_at_split(b, i, e1 + d1 + e2 + d2 + e3, d3);
    lemma_holds_at_split(b, i, e1 + d1 + e2 + d2, e3);
    lemma_holds_at_split(b, i, e1 + d1 + e2, d2);
    lemma_holds_at_split(b, i, e1 + d1, e2);
    lemma_holds_at_split(b, i, e1, d1);
    let i1 = i + e1.len();
    let i2 = i1 + d1.len();
    let i3 = i2 + e2.len();
    let i4 = i3 + d2.len();
    let i5 = i4 + e3.len();
    let i6 = i5 + d3.len();
    let i7 = i6 + e4.len();
    let i8 = i7 + d4.len();
    let i9 = i8 + e5.len();
    let i10 = i9 + d5.len();
    let i11 = i10 + e6.len();
    let i12 = i11 + d6.len();
    let i13 = i12 + e7.len();
    let i14 = i13 + d7.len();
    lemma_p_exact(b, i, e1);
    lemma_p_level(b, i1, m.level);
    lemma_p_exact(b, i2, e2);
    lemma_p_str(b, i3, m.name);
    lemma_p_exact(b, i4, e3);
    lemma_p_str(b, i5, m.target);
    lemma_p_exact(b, i6, e4);
    lemma_p_opt_str(b, i7, m.module);
    lemma_p_exact(b, i8, e5);
    lemma_p_opt_str(b, i9, m.file);
    lemma_p_exact(b, i10, e6);
    assert(b[i12] == 0x2c) by {
        assert(b.subrange(i12, i12 + e7.len())[0] == e7[0]);
    }
    lemma_p_opt_u32(b, i11, m.line);
    lemma_p_exact(b, i12, e7);
    lemma_p_fields(b, i13, m.fields, fuel);
    assert(b[i14] == 0x7d) by {
        assert(b.subrange(i14, i14 + 1)[0] == close[0]);
    }
    assert(LogMessageView {
        level: m.level,
        name: m.name,
        target: m.target,
        module: m.module,
        file: m.file,
        line: m.line,
        fields: m.fields,
    } =~= m);
}

proof fn lemma_init_not_inner(b: Seq<u8>)
    requires
        holds_at(b, 0, k_tag_init()),
    ensures
        !holds_at(b, 0, k_tag_inner()),
{
    reveal(k_tag_init);
    reveal(k_tag_inner);
    assert(b.subrange(0, k_tag_init().len() as int)[4] == k_tag_init()[4]);
    if holds_at(b, 0, k_tag_inner()) {
        assert(b.subrange(0, k_tag_inner().len() as int)[4] == k_tag_inner()[4]);
    }
}

proof fn lemma_runner_not_inner(b: Seq<u8>)
    requires
        holds_at(b, 0, k_tag_init_runner()),
    ensures
        !holds_at(b, 0, k_tag_inner()),
{
    reveal(k_tag_init_runner);
    reveal(k_tag_inner);
    assert(b.subrange(0, k_tag_init_runner().len() as int)[4] == k_tag_init_runner()[4]);
    if holds_at(b, 0, k_tag_inner()) {
        assert(b.subrange(0, k_tag_inner().len() as int)[4] == k_tag_inner()[4]);
    }
}

proof fn lemma_runner_not_init(b: Seq<u8>)
    requires
        holds_at(b, 0, k_tag_init_runner()),
    ensures
        !holds_at(b, 0, k_tag_init()),
{
    reveal(k_tag_init_runner);
    reveal(k_tag_init);
    assert(b.subrange(0, k_tag_init_runner().len() as int)[6] == k_tag_init_runner()[6]);
    if holds_at(b, 0, k_tag_init()) {
        assert(b.subrange(0, k_tag_init().len() as int)[6] == k_tag_init()[6]);
    }
}

proof fn lemma_log_not_others(b: Seq<u8>)
    requires
        holds_at(b, 0, k_tag_log()),
    ensures
        !holds_at(b, 0, k_tag_inner()),
        !holds_at(b, 0, k_tag_init()),
        !holds_at(b, 0, k_tag_init_runner()),
{
    reveal(k_tag_log);
    reveal(k_tag_inner);
    reveal(k_tag_init);
    reveal(k_tag_init_runner);
    assert(b.subrange(0, k_tag_log().len() as int)[2] == k_tag_log()[2]);
    if holds_at(b, 0, k_tag_inner()) {
        assert(b.subrange(0, k_tag_inner().len() as int)[2] == k_tag_inner()[2]);
    }
    if holds_at(b, 0, k_tag_init()) {
        assert(b.subrange(0, k_tag_init().len() as int)[2] == k_tag_init()[2]);
    }
    if holds_at(b, 0, k_tag_init_runner()) {
        assert(b.subrange(0, k_tag_init_runner().len() as int)[2] == k_tag_init_runner()[2]);
    }
}

#[verifier::rlimit(100)]
proof fn lemma_line_rt_init(r: PluginLineView, plugin_version: ProtoVersion, protocol_version_valid: bool)
    requires
        r == (PluginLineView::Init { plugin_version, protocol_version_valid }),
    ensures
        p_line_init(line_enc(r), k_tag_init().len() as int) == Some(
            (r, line_enc(r).len() as int),
        ),
{
    let b = line_enc(r);
    assert(b.subrange(0, b.len() as int) =~= b);
    let t = k_tag_init();
    let e1 = k_plugin_version();
    let d1 = js_version(plugin_version);
    let e2 = k_version_valid();
    let d2 = js_bool(protocol_version_valid);
    let close = seq![0x7du8, 0x7du8];
    lemma_holds_at_split(b, 0, t + e1 + d1 + e2 + d2, close);
    lemma_holds_at_split(b, 0, t + e1 + d1 + e2, d2);
    lemma_holds_at_split(b, 0, t + e1 + d1, e2);
    lemma_holds_at_split(b, 0, t + e1, d1);
    lemma_holds_at_split(b, 0, t, e1);
    let i1 = t.len() as int;
    let i2 = i1 + e1.len();
    let i3 = i2 + d1.len();
    let i4 = i3 + e2.len();
    let i5 = i4 + d2.len();
    lemma_p_exact(b, i1, e1);
    lemma_p_version(b, i2, plugin_version);
    lemma_p_exact(b, i3, e2);
    lemma_p_bool(b, i4, protocol_version_valid);
    assert(b[i5] == 0x7d && b[i5 + 1] == 0x7d) by {
        assert(b.subrange(i5, i5 + 2)[0] == close[0]);
        assert(b.subrange(i5, i5 + 2)[1] == close[1]);
    }
}

#[verifier::rlimit(100)]
proof fn lemma_line_rt_init_runner(
    r: PluginLineView,
    plugin_version: ProtoVersion,
    protocol_version_valid: bool,
    accepted_extensions: Seq<Seq<char>>,
)
    requires
        r == (PluginLineView::InitRunner {
            plugin_version,
            protocol_version_valid,
            accepted_extensions,
        }),
    ensures
        p_line_init_runner(line_enc(r), k_tag_init_runner().len() as int, line_enc(r).len())
            == Some((r, line_enc(r).len() as int)),
{
    let b = line_enc(r);
    assert(b.subrange(0, b.len() as int) =~= b);
    let t = k_tag_init_runner();
    let e1 = k_plugin_version();
    let d1 = js_version(plugin_version);
    let e2 = k_version_valid();
    let d2 = js_bool(protocol_version_valid);
    let e3 = k_extensions();
    let d3 = js_str_list(accepted_extensions);
    let close = seq![0x7du8, 0x7du8];
    lemma_holds_at_split(b, 0, t + e1 + d1 + e2 + d2 + e3 + d3, close);
    lemma_holds_at_split(b, 0, t + e1 + d1 + e2 + d2 + e3, d3);
    lemma_holds_at_split(b, 0, t + e1 + d1 + e2 + d2, e3);
    lemma_holds_at_split(b, 0, t + e1 + d1 + e2, d2);
    lemma_holds_at_split(b, 0, t + e1 + d1, e2);
    lemma_holds_at_split(b, 0, t + e1, d1);
    lemma_holds_at_split(b, 0, t, e1);
    let i1 = t.len() as int;
    let i2 = i1 + e1.len();
    let i3 = i2 + d1.len();
    let i4 = i3 + e2.len();
    let i5 = i4 + d2.len();
    let i6 = i5 + e3.len();
    let i7 = i6 + d3.len();
    lemma_p_exact(b, i1, e1);
    lemma_p_version(b, i2, plugin_version);
    lemma_p_exact(b, i3, e2);
    lemma_p_bool(b, i4, protocol_version_valid);
    lemma_p_exact(b, i5, e3);
    assert(b.len() >= accepted_extensions.len()) by {
        lemma_js_str_list_len(accepted_extensions);
    }
    lemma_p_str_list(b, i6, accepted_extensions, b.len());
    assert(b[i7] == 0x7d && b[i7 + 1] == 0x7d) by {
        assert(b.subrange(i7, i7 + 2)[0] == close[0]);
        assert(b.subrange(i7, i7 + 2)[1] == close[1]);
    }
}

#[verifier::rlimit(100)]
proof fn lemma_line_rt_log(r: PluginLineView, m: LogMessageView)
    requires
        r == PluginLineView::Log(m),
        wf_fields(m.fields),
    ensures
        p_line_log(line_enc(r), k_tag_log().len() as int, line_enc(r).len()) == Some(
            (r, line_enc(r).len() as int),
        ),
{
    let b = line_enc(r);
    assert(b.subrange(0, b.len() as int) =~= b);
    let t = k_tag_log();
    let d = js_log(m);
    let close = seq![0x7du8];
    lemma_holds_at_split(b, 0, t + d, close);
    lemma_holds_at_split(b, 0, t, d);
    let i1 = t.len() as int;
    let i2 = i1 + d.len();
    assert(b.len() >= m.fields.len()) by {
        lemma_js_log_len(m);
    }
    lemma_p_log(b, i1, m, b.len());
    assert(b[i2] == 0x7d) by {
        assert(b.subrange(i2, i2 + 1)[0] == close[0]);
    }
}

/// A canonical line: every field value canonical.
pub open spec fn wf_line(r: PluginLineView) -> bool {
    match r {
        PluginLineView::Log(m) => wf_fields(m.fields),
        _ => true,
    }
}

/// The line codec's round-trip law: decoding the encoding of any
/// canonical plugin line yields exactly that line.
#[verifier::rlimit(100)]
pub proof fn lemma_line_round_trip(r: PluginLineView)
    requires
        wf_line(r),
    ensures
        line_dec(line_enc(r)) == Some(r),
{
    let b = line_enc(r);
    match r {
        PluginLineView::Inner => {
            assert(b.subrange(0, b.len() as int) =~= b);
        },
        PluginLineView::Init { plugin_version, protocol_version_valid } => {
            let t = k_tag_init();
            assert(holds_at(b, 0, t)) by {
                assert(b.subrange(0, t.len() as int) =~= t);
            }
            lemma_init_not_inner(b);
            lemma_line_rt_init(r, plugin_version, protocol_version_valid);
        },
        PluginLineView::InitRunner {
            plugin_version,
            protocol_version_valid,
            accepted_extensions,
        } => {
            let t = k_tag_init_runner();
            assert(holds_at(b, 0, t)) by {
                assert(b.subrange(0, t.len() as int) =~= t);
            }
            lemma_runner_not_inner(b);
            lemma_runner_not_init(b);
            lemma_line_rt_init_runner(
                r,
                plugin_version,
                protocol_version_valid,
                accepted_extensions,
            );
        },
        PluginLineView::Log(m) => {
            let t = k_tag_log();
            assert(holds_at(b, 0, t)) by {
                assert(b.subrange(0, t.len() as int) =~= t);
            }
            lemma_log_not_others(b);
            lemma_line_rt_log(r, m);
        },
    }
}


// ------------------------------------------------------------------
// Executable emitter
// ------------------------------------------------------------------
fn put_k_tag_init(out: &mut Vec<u8>)
    ensures
        final(out)@ == old(out)@ + k_tag_init(),
{
    proof {
        reveal(k_tag_init);
    }
    out.push(0x7b);
    out.push(0x22);
    out.push(0x49);
    out.push(0x6e);
    out.push(0x69);
    out.push(0x74);
    out.push(0x22);
    out.push(0x3a);
    assert(out@ =~= old(out)@ + k_tag_init());
}

fn put_k_tag_init_runner(out: &mut Vec<u8>)
    ensures
        final(out)@ == old(out)@ + k_tag_init_runner(),
{
    proof {
        reveal(k_tag_init_runner);
    }
    out.push(0x7b);
    out.push(0x22);
    out.push(0x49);
    out.push(0x6e);
    out.push(0x69);
    out.push(0x74);
    out.push(0x52);
    out.push(0x75);
    out.push(0x6e);
    out.push(0x6e);
    out.push(0x65);
    out.push(0x72);
    out.push(0x22);
    out.push(0x3a);
    assert(out@ =~= old(out)@ + k_tag_init_runner());
}

fn put_k_tag_log(out: &mut Vec<u8>)
    ensures
        final(out)@ == old(out)@ + k_tag_log(),
{
    proof {
        reveal(k_tag_log);
    }
    out.push(0x7b);
    out.push(0x22);
    out.push(0x4c);
    out.push(0x6f);
    out.push(0x67);
    out.push(0x22);
    out.push(0x3a);
    assert(out@ =~= old(out)@ + k_tag_log());
}

fn put_k_tag_inner(out: &mut Vec<u8>)
    ensures
        final(out)@ == old(out)@ + k_tag_inner(),
{
    proof {
        reveal(k_tag_inner);
    }
    out.push(0x7b);
    out.push(0x22);
    out.push(0x49);
    out.push(0x6e);
    out.push(0x6e);
    out.push(0x65);
    out.push(0x72);
    out.push(0x22);
    out.push(0x3a);
    out.push(0x6e);
    out.push(0x75);
    out.push(0x6c);
    out.push(0x6c);
    out.push(0x7d);
    assert(out@ =~= old(out)@ + k_tag_inner());
}

fn put_k_plugin_version(out: &mut Vec<u8>)
    ensures
        final(out)@ == old(out)@ + k_plugin_version(),
{
    proof {
        reveal(k_plugin_version);
    }
    out.push(0x7b);
    out.push(0x22);
    out.push(0x70);
    out.push(0x6c);
    out.push(0x75);
    out.push(0x67);
    out.push(0x69);
    out.push(0x6e);
    out.push(0x5f);
    out.push(0x76);
    out.push(0x65);
    out.push(0x72);
    out.push(0x73);
    out.push(0x69);
    out.push(0x6f);
    out.push(0x6e);
    out.push(0x22);
    out.push(0x3a);
    assert(out@ =~= old(out)@ + k_plugin_version());
}

fn put_k_version_valid(out: &mut Vec<u8>)
    ensures
        final(out)@ == old(out)@ + k_version_valid(),
{
    proof {
        reveal(k_version_valid);
    }
    out.push(0x2c);
    out.push(0x22);
    out.push(0x70);
    out.push(0x72);
    out.push(0x6f);
    out.push(0x74);
    out.push(0x6f);
    out.push(0x63);
    out.push(0x6f);
    out.push(0x6c);
    out.push(0x5f);
    out.push(0x76);
    out.push(0x65);
    out.push(0x72);
    out.push(0x73);
    out.push(0x69);
    out.push(0x6f);
    out.push(0x6e);
    out.push(0x5f);
    out.push(0x76);
    out.push(0x61);
    out.push(0x6c);
    out.push(0x69);
    out.push(0x64);
    out.push(0x22);
    out.push(0x3a);
    assert(out@ =~= old(out)@ + k_version_valid());
}

fn put_k_extensions(out: &mut Vec<u8>)
    ensures
        final(out)@ == old(out)@ + k_extensions(),
{
    proof {
        reveal(k_extensions);
    }
    out.push(0x2c);
    out.push(0x22);
    out.push(0x61);
    out.push(0x63);
    out.push(0x63);
    out.push(0x65);
    out.push(0x70);
    out.push(0x74);
    out.push(0x65);
    out.push(0x64);
    out.push(0x5f);
    out.push(0x65);
    out.push(0x78);
    out.push(0x74);
    out.push(0x65);
    out.push(0x6e);
    out.push(0x73);
    out.push(0x69);
    out.push(0x6f);
    out.push(0x6e);
    out.push(0x73);
    out.push(0x22);
    out.push(0x3a);
    assert(out@ =~= old(out)@ + k_extensions());
}

fn put_k_major(out: &mut Vec<u8>)
    ensures
        final(out)@ == old(out)@ + k_major(),
{
    proof {
        reveal(k_major);
    }
    out.push(0x7b);
    out.push(0x22);
    out.push(0x6d);
    out.push(0x61);
    out.push(0x6a);
    out.push(0x6f);
    out.push(0x72);
    out.push(0x22);
    out.push(0x3a);
    assert(out@ =~= old(out)@ + k_major());
}

fn put_k_minor(out: &mut Vec<u8>)
    ensures
        final(out)@ == old(out)@ + k_minor(),
{
    proof {
        reveal(k_minor);
    }
    out.push(0x2c);
    out.push(0x22);
    out.push(0x6d);
    out.push(0x69);
    out.push(0x6e);
    out.push(0x6f);
    out.push(0x72);
    out.push(0x22);
    out.push(0x3a);
    assert(out@ =~= old(out)@ + k_minor());
}

fn put_k_patch(out: &mut Vec<u8>)
    ensures
        final(out)@ == old(out)@ + k_patch(),
{
    proof {
        reveal(k_patch);
    }
    out.push(0x2c);
    out.push(0x22);
    out.push(0x70);
    out.push(0x61);
    out.push(0x74);
    out.push(0x63);
    out.push(0x68);
    out.push(0x22);
    out.push(0x3a);
    assert(out@ =~= old(out)@ + k_patch());
}

fn put_k_level(out: &mut Vec<u8>)
    ensures
        final(out)@ == old(out)@ + k_level(),
{
    proof {
        reveal(k_level);
    }
    out.push(0x7b);
    out.push(0x22);
    out.push(0x6c);
    out.push(0x65);
    out.push(0x76);
    out.push(0x65);
    out.push(0x6c);
    out.push(0x22);
    out.push(0x3a);
    assert(out@ =~= old(out)@ + k_level());
}

fn put_k_name(out: &mut Vec<u8>)
    ensures
        final(out)@ == old(out)@ + k_name(),
{
    proof {
        reveal(k_name);
    }
    out.push(0x2c);
    out.push(0x22);
    out.push(0x6e);
    out.push(0x61);
    out.push(0x6d);
    out.push(0x65);
    out.push(0x22);
    out.push(0x3a);
    assert(out@ =~= old(out)@ + k_name());
}

fn put_k_target(out: &mut Vec<u8>)
    ensures
        final(out)@ == old(out)@ + k_target(),
{
    proof {
        reveal(k_target);
    }
    out.push(0x2c);
    out.push(0x22);
    out.push(0x74);
    out.push(0x61);
    out.push(0x72);
    out.push(0x67);
    out.push(0x65);
    out.push(0x74);
    out.push(0x22);
    out.push(0x3a);
    assert(out@ =~= old(out)@ + k_target());
}

fn put_k_module(out: &mut Vec<u8>)
    ensures
        final(out)@ == old(out)@ + k_module(),
{
    proof {
        reveal(k_module);
    }
    out.push(0x2c);
    out.push(0x22);
    out.push(0x6d);
    out.push(0x6f);
    out.push(0x64);
    out.push(0x75);
    out.push(0x6c);
    out.push(0x65);
    out.push(0x5f);
    out.push(0x70);
    out.push(0x61);
    out.push(0x74);
    out.push(0x68);
    out.push(0x22);
    out.push(0x3a);
    assert(out@ =~= old(out)@ + k_module());
}

fn put_k_file(out: &mut Vec<u8>)
    ensures
        final(out)@ == old(out)@ + k_file(),
{
    proof {
        reveal(k_file);
    }
    out.push(0x2c);
    out.push(0x22);
    out.push(0x66);
    out.push(0x69);
    out.push(0x6c);
    out.push(0x65);
    out.push(0x22);
    out.push(0x3a);
    assert(out@ =~= old(out)@ + k_file());
}

fn put_k_line(out: &mut Vec<u8>)
    ensures
        final(out)@ == old(out)@ + k_line(),
{
    proof {
        reveal(k_line);
    }
    out.push(0x2c);
    out.push(0x22);
    out.push(0x6c);
    out.push(0x69);
    out.push(0x6e);
    out.push(0x65);
    out.push(0x22);
    out.push(0x3a);
    assert(out@ =~= old(out)@ + k_line());
}

fn put_k_fields(out: &mut Vec<u8>)
    ensures
        final(out)@ == old(out)@ + k_fields(),
{
    proof {
        reveal(k_fields);
    }
    out.push(0x2c);
    out.push(0x22);
    out.push(0x66);
    out.push(0x69);
    out.push(0x65);
    out.push(0x6c);
    out.push(0x64);
    out.push(0x73);
    out.push(0x22);
    out.push(0x3a);
    assert(out@ =~= old(out)@ + k_fields());
}

/// Appending one character to a string appends its escape.
proof fn lemma_js_chars_snoc(s: Seq<char>)
    requires
        s.len() > 0,
    ensures
        js_chars(s) == js_chars(s.drop_last()) + js_char(s.last()),
    decreases s.len(),
{
    if s.len() == 1 {
        assert(s.drop_last() =~= Seq::<char>::empty());
        assert(s.drop_first() =~= Seq::<char>::empty());
        assert(js_chars(s) =~= js_chars(s.drop_last()) + js_char(s.last()));
    } else {
        lemma_js_chars_snoc(s.drop_first());
        assert(s.drop_first().drop_last() =~= s.drop_last().drop_first());
        assert(s.drop_first().last() == s.last());
        assert(s.drop_last()[0] == s[0]);
        assert(js_char(s[0]) + (js_chars(s.drop_last().drop_first()) + js_char(s.last())) =~= (
        js_char(s[0]) + js_chars(s.drop_last().drop_first())) + js_char(s.last()));
    }
}

proof fn lemma_js_fields_rest_snoc(fs: Seq<(Seq<char>, LogValueView)>)
    requires
        fs.len() > 0,
    ensures
        js_fields_rest(fs) == js_fields_rest(fs.drop_last()) + (seq![0x2cu8] + js_pair(fs.last())),
    decreases fs.len(),
{
    if fs.len() == 1 {
        assert(fs.drop_last() =~= Seq::<(Seq<char>, LogValueView)>::empty());
        assert(fs.drop_first() =~= Seq::<(Seq<char>, LogValueView)>::empty());
        assert(js_fields_rest(fs) =~= js_fields_rest(fs.drop_last()) + (seq![0x2cu8] + js_pair(
            fs.last(),
        )));
    } else {
        lemma_js_fields_rest_snoc(fs.drop_first());
        assert(fs.drop_first().drop_last() =~= fs.drop_last().drop_first());
        assert(fs.drop_first().last() == fs.last());
        assert(fs.drop_last()[0] == fs[0]);
        assert((seq![0x2cu8] + js_pair(fs[0])) + (js_fields_rest(fs.drop_last().drop_first()) + (
        seq![0x2cu8] + js_pair(fs.last()))) =~= ((seq![0x2cu8] + js_pair(fs[0])) + js_fields_rest(
            fs.drop_last().drop_first(),
        )) + (seq![0x2cu8] + js_pair(fs.last())));
        assert(js_fields_rest(fs) =~= js_fields_rest(fs.drop_last()) + (seq![0x2cu8] + js_pair(
            fs.last(),
        )));
    }
}

proof fn lemma_js_list_rest_snoc(ss: Seq<Seq<char>>)
    requires
        ss.len() > 0,
    ensures
        js_list_rest(ss) == js_list_rest(ss.drop_last()) + (seq![0x2cu8] + js_str(ss.last())),
    decreases ss.len(),
{
    if ss.len() == 1 {
        assert(ss.drop_last() =~= Seq::<Seq<char>>::empty());
        assert(ss.drop_first() =~= Seq::<Seq<char>>::empty());
        assert(js_list_rest(ss) =~= js_list_rest(ss.drop_last()) + (seq![0x2cu8] + js_str(
            ss.last(),
        )));
    } else {
        lemma_js_list_rest_snoc(ss.drop_first());
        assert(ss.drop_first().drop_last() =~= ss.drop_last().drop_first());
        assert(ss.drop_first().last() == ss.last());
        assert(ss.drop_last()[0] == ss[0]);
        assert((seq![0x2cu8] + js_str(ss[0])) + (js_list_rest(ss.drop_last().drop_first()) + (
        seq![0x2cu8] + js_str(ss.last()))) =~= ((seq![0x2cu8] + js_str(ss[0])) + js_list_rest(
            ss.drop_last().drop_first(),
        )) + (seq![0x2cu8] + js_str(ss.last())));
        assert(js_list_rest(ss) =~= js_list_rest(ss.drop_last()) + (seq![0x2cu8] + js_str(
            ss.last(),
        )));
    }
}

fn put_hex(out: &mut Vec<u8>, d: u32)
    requires
        d < 16,
    ensures
        final(out)@ == old(out)@ + seq![hex_byte(d)],
{
    if d < 10 {
        out.push((0x30 + d) as u8);
    } else {
        out.push((0x57 + d) as u8);
    }
    assert(out@ =~= old(out)@ + seq![hex_byte(d)]);
}

fn put_js_esc4(out: &mut Vec<u8>, x: u32)
    requires
        x <= 0xFFFF,
    ensures
        final(out)@ == old(out)@ + js_esc4(x),
{
    out.push(0x5c);
    out.push(0x75);
    proof {
        assert((x >> 12) & 0xf < 16 && (x >> 8) & 0xf < 16 && (x >> 4) & 0xf < 16 && x & 0xf < 16)
            by (bit_vector);
    }
    put_hex(out, (x >> 12) & 0xf);
    put_hex(out, (x >> 8) & 0xf);
    put_hex(out, (x >> 4) & 0xf);
    put_hex(out, x & 0xf);
    assert(out@ =~= old(out)@ + js_esc4(x));
}

fn put_js_char(out: &mut Vec<u8>, c: char)
    ensures
        final(out)@ == old(out)@ + js_char(c),
{
    broadcast use char_is_scalar;

    let v = c as u32;
    if 0x20 <= v && v < 0x7F && v != 0x22 && v != 0x5C {
        out.push(v as u8);
        assert(out@ =~= old(out)@ + js_char(c));
    } else if v <= 0xFFFF {
        put_js_esc4(out, v);
    } else {
        proof {
            assert(is_scalar(c as u32));
            assert((((v - 0x10000u32) as u32) >> 10u32) <= 0x3FFu32 && (((v
                - 0x10000u32) as u32) & 0x3FFu32) <= 0x3FFu32) by (bit_vector)
                requires
                    0x10000u32 <= v <= 0x10FFFFu32,
            ;
        }
        let hi = 0xD800 + ((v - 0x10000) >> 10);
        let lo = 0xDC00 + ((v - 0x10000) & 0x3FF);
        put_js_esc4(out, hi);
        put_js_esc4(out, lo);
        assert(out@ =~= old(out)@ + js_char(c));
    }
}

fn put_js_chars(out: &mut Vec<u8>, s: &str)
    ensures
        final(out)@ == old(out)@ + js_chars(s@),
{
    let n = s.unicode_len();
    let mut i: usize = 0;
    while i < n
        invariant
            i <= n,
            n == s@.len(),
            out@ == old(out)@ + js_chars(s@.take(i as int)),
        decreases n - i,
    {
        let c = s.get_char(i);
        put_js_char(out, c);
        proof {
            lemma_js_chars_snoc(s@.take(i + 1 as int));
            assert(s@.take(i + 1 as int).drop_last() =~= s@.take(i as int));
            assert(s@.take(i + 1 as int).last() == s@[i as int]);
            assert(out@ =~= old(out)@ + js_chars(s@.take(i + 1 as int)));
        }
        i = i + 1;
    }
    proof {
        assert(s@.take(s@.len() as int) =~= s@);
    }
}

fn put_js_str(out: &mut Vec<u8>, s: &str)
    ensures
        final(out)@ == old(out)@ + js_str(s@),
{
    proof {
        reveal(js_str);
    }
    out.push(0x22);
    assert(out@ =~= old(out)@ + seq![0x22u8]);
    put_js_chars(out, s);
    out.push(0x22);
    assert(out@ =~= old(out)@ + js_str(s@));
}

fn put_js_u64(out: &mut Vec<u8>, n: u64)
    ensures
        final(out)@ == old(out)@ + js_u64(n),
    decreases n,
{
    if n < 10 {
        out.push((0x30 + n) as u8);
        assert(out@ =~= old(out)@ + js_u64(n));
    } else {
        put_js_u64(out, n / 10);
        out.push((0x30 + (n % 10)) as u8);
        assert(out@ =~= old(out)@ + js_u64(n));
    }
}

fn put_js_i64(out: &mut Vec<u8>, x: i64)
    ensures
        final(out)@ == old(out)@ + js_i64(x),
{
    if x < 0 {
        out.push(0x2d);
        let m: u64 = if x == i64::MIN {
            0x8000000000000000u64
        } else {
            (0 - x) as u64
        };
        assert(m == (0 - x as int) as u64);
        put_js_u64(out, m);
        assert(out@ =~= old(out)@ + js_i64(x));
    } else {
        put_js_u64(out, x as u64);
    }
}

fn put_js_bool(out: &mut Vec<u8>, v: bool)
    ensures
        final(out)@ == old(out)@ + js_bool(v),
{
    if v {
        out.push(0x74);
        out.push(0x72);
        out.push(0x75);
        out.push(0x65);
    } else {
        out.push(0x66);
        out.push(0x61);
        out.push(0x6c);
        out.push(0x73);
        out.push(0x65);
    }
    assert(out@ =~= old(out)@ + js_bool(v));
}

fn put_js_null(out: &mut Vec<u8>)
    ensures
        final(out)@ == old(out)@ + js_null(),
{
    out.push(0x6e);
    out.push(0x75);
    out.push(0x6c);
    out.push(0x6c);
    assert(out@ =~= old(out)@ + js_null());
}

fn put_js_version(out: &mut Vec<u8>, v: &ProtoVersion)
    ensures
        final(out)@ == old(out)@ + js_version(*v),
{
    proof {
        reveal(js_version);
    }
    put_k_major(out);
    put_js_u64(out, v.major);
    put_k_minor(out);
    put_js_u64(out, v.minor);
    put_k_patch(out);
    put_js_u64(out, v.patch);
    out.push(0x7d);
    assert(out@ =~= old(out)@ + js_version(*v));
}

fn put_js_opt_str(out: &mut Vec<u8>, v: &Option<String>)
    ensures
        final(out)@ == old(out)@ + js_opt_str(
            match v {
                Some(s) => Some(s@),
                None => None,
            },
        ),
{
    match v {
        Some(s) => put_js_str(out, s.as_str()),
        None => put_js_null(out),
    }
}

fn put_js_opt_u32(out: &mut Vec<u8>, v: &Option<u32>)
    ensures
        final(out)@ == old(out)@ + js_opt_u32(*v),
{
    match v {
        Some(n) => put_js_u64(out, *n as u64),
        None => put_js_null(out),
    }
}

fn put_js_log_value(out: &mut Vec<u8>, v: &LogValue)
    ensures
        final(out)@ == old(out)@ + js_log_value(v@),
{
    match v {
        LogValue::Bool(x) => put_js_bool(out, *x),
        LogValue::Int(x) => put_js_i64(out, *x),
        LogValue::UInt(x) => put_js_u64(out, *x),
        LogValue::Text(s) => put_js_str(out, s.as_str()),
    }
}

fn put_js_pair(out: &mut Vec<u8>, p: &(String, LogValue))
    ensures
        final(out)@ == old(out)@ + js_pair((p.0@, p.1@)),
{
    put_js_str(out, p.0.as_str());
    out.push(0x3a);
    put_js_log_value(out, &p.1);
    assert(out@ =~= old(out)@ + js_pair((p.0@, p.1@)));
}

fn put_js_fields(out: &mut Vec<u8>, fields: &Vec<(String, LogValue)>)
    ensures
        final(out)@ == old(out)@ + js_fields(
            fields@.map_values(|p: (String, LogValue)| (p.0@, p.1@)),
        ),
{
    proof {
        reveal(js_fields);
    }
    let ghost gv = fields@.map_values(|p: (String, LogValue)| (p.0@, p.1@));
    out.push(0x7b);
    if fields.len() == 0 {
        out.push(0x7d);
        assert(out@ =~= old(out)@ + js_fields(gv));
        return ;
    }
    let ghost pre = out@;
    put_js_pair(out, &fields[0]);
    proof {
        assert(gv[0] == (fields@[0].0@, fields@[0].1@));
    }
    let mut k: usize = 1;
    while k < fields.len()
        invariant
            1 <= k <= fields@.len(),
            gv == fields@.map_values(|p: (String, LogValue)| (p.0@, p.1@)),
            gv.len() == fields@.len(),
            pre == old(out)@ + seq![0x7bu8],
            out@ == pre + js_pair(gv[0]) + js_fields_rest(gv.subrange(1, k as int)),
        decreases fields@.len() - k,
    {
        let ghost before = out@;
        out.push(0x2c);
        put_js_pair(out, &fields[k]);
        proof {
            assert(gv[k as int] == (fields@[k as int].0@, fields@[k as int].1@));
            lemma_js_fields_rest_snoc(gv.subrange(1, k + 1 as int));
            assert(gv.subrange(1, k + 1 as int).drop_last() =~= gv.subrange(1, k as int));
            assert(gv.subrange(1, k + 1 as int).last() == gv[k as int]);
            assert(out@ =~= pre + js_pair(gv[0]) + js_fields_rest(gv.subrange(1, k + 1 as int)));
        }
        k = k + 1;
    }
    out.push(0x7d);
    proof {
        assert(gv.subrange(1, gv.len() as int) =~= gv.drop_first());
        assert(out@ =~= old(out)@ + js_fields(gv));
    }
}

fn put_js_str_list(out: &mut Vec<u8>, ss: &Vec<String>)
    ensures
        final(out)@ == old(out)@ + js_str_list(ss@.map_values(|s: String| s@)),
{
    proof {
        reveal(js_str_list);
    }
    let ghost gv = ss@.map_values(|s: String| s@);
    out.push(0x5b);
    if ss.len() == 0 {
        out.push(0x5d);
        assert(out@ =~= old(out)@ + js_str_list(gv));
        return ;
    }
    let ghost pre = out@;
    put_js_str(out, ss[0].as_str());
    let mut k: usize = 1;
    while k < ss.len()
        invariant
            1 <= k <= ss@.len(),
            gv == ss@.map_values(|s: String| s@),
            gv.len() == ss@.len(),
            pre == old(out)@ + seq![0x5bu8],
            out@ == pre + js_str(gv[0]) + js_list_rest(gv.subrange(1, k as int)),
        decreases ss@.len() - k,
    {
        out.push(0x2c);
        put_js_str(out, ss[k].as_str());
        proof {
            lemma_js_list_rest_snoc(gv.subrange(1, k + 1 as int));
            assert(gv.subrange(1, k + 1 as int).drop_last() =~= gv.subrange(1, k as int));
            assert(gv.subrange(1, k + 1 as int).last() == gv[k as int]);
            assert(out@ =~= pre + js_str(gv[0]) + js_list_rest(gv.subrange(1, k + 1 as int)));
        }
        k = k + 1;
    }
    out.push(0x5d);
    proof {
        assert(gv.subrange(1, gv.len() as int) =~= gv.drop_first());
        assert(out@ =~= old(out)@ + js_str_list(gv));
    }
}

fn put_level(out: &mut Vec<u8>, l: &Level)
    ensures
        final(out)@ == old(out)@ + js_str(level_chars(*l)),
{
    match l {
        Level::Trace => {
            let text = "Trace";
            proof {
                reveal_strlit("Trace");
                assert(text@ =~= level_chars(Level::Trace));
            }
            put_js_str(out, text);
        },
        Level::Debug => {
            let text = "Debug";
            proof {
                reveal_strlit("Debug");
                assert(text@ =~= level_chars(Level::Debug));
            }
            put_js_str(out, text);
        },
        Level::Info => {
            let text = "Info";
            proof {
                reveal_strlit("Info");
                assert(text@ =~= level_chars(Level::Info));
            }
            put_js_str(out, text);
        },
        Level::Warn => {
            let text = "Warn";
            proof {
                reveal_strlit("Warn");
                assert(text@ =~= level_chars(Level::Warn));
            }
            put_js_str(out, text);
        },
        Level::Error => {
            let text = "Error";
            proof {
                reveal_strlit("Error");
                assert(text@ =~= level_chars(Level::Error));
            }
            put_js_str(out, text);
        },
    }
}

#[verifier::rlimit(100)]
fn put_js_log(out: &mut Vec<u8>, m: &LogMessage)
    ensures
        final(out)@ == old(out)@ + js_log(m@),
{
    proof {
        reveal(js_log);
    }
    put_k_level(out);
    put_level(out, &m.level);
    put_k_name(out);
    put_js_str(out, m.name.as_str());
    put_k_target(out);
    put_js_str(out, m.target.as_str());
    put_k_module(out);
    put_js_opt_str(out, &m.module);
    put_k_file(out);
    put_js_opt_str(out, &m.file);
    put_k_line(out);
    put_js_opt_u32(out, &m.line);
    put_k_fields(out);
    put_js_fields(out, &m.fields);
    out.push(0x7d);
    assert(out@ =~= old(out)@ + js_log(m@));
}

/// Prints one response as the JSON line the host reads.
pub fn emit_line(r: &GeneralPluginResponse<()>) -> (out: Vec<u8>)
    ensures
        out@ == line_enc(r@),
{
    let mut out: Vec<u8> = Vec::new();
    match r {
        GeneralPluginResponse::Init { plugin_version, protocol_version_valid } => {
            put_k_tag_init(&mut out);
            put_k_plugin_version(&mut out);
            put_js_version(&mut out, plugin_version);
            put_k_version_valid(&mut out);
            put_js_bool(&mut out, *protocol_version_valid);
            out.push(0x7d);
            out.push(0x7d);
            assert(out@ =~= line_enc(r@));
        },
        GeneralPluginResponse::InitRunner {
            plugin_version,
            protocol_version_valid,
            accepted_extensions,
        } => {
            put_k_tag_init_runner(&mut out);
            put_k_plugin_version(&mut out);
            put_js_version(&mut out, plugin_version);
            put_k_version_valid(&mut out);
            put_js_bool(&mut out, *protocol_version_valid);
            put_k_extensions(&mut out);
            put_js_str_list(&mut out, accepted_extensions);
            out.push(0x7d);
            out.push(0x7d);
            assert(out@ =~= line_enc(r@));
        },
        GeneralPluginResponse::Log(m) => {
            put_k_tag_log(&mut out);
            put_js_log(&mut out, m);
            out.push(0x7d);
            assert(out@ =~= line_enc(r@));
        },
        GeneralPluginResponse::Inner(_) => {
            put_k_tag_inner(&mut out);
            assert(out@ =~= line_enc(r@));
        },
    }
    out
}

} // verus!
