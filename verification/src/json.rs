//! Byte-level primitives of the JSON subset that the wire payloads use:
//! whitespace, strings with the standard escape sequences (including
//! `\uXXXX` code units and surrogate pairs), unsigned 32-bit numbers, and
//! the canonical emission of strings and numbers.
//!
//! Every parsing function exists twice: a spec function that is the
//! mathematical definition of the grammar, and an executable mirror proved
//! to return exactly what the spec function says.

use vstd::prelude::*;
use vstd::utf8::encode_scalar;
use vstd::utf8::has_width_3_encoding;
use vstd::utf8::is_scalar;

verus! {

pub const QUOTE: u8 = 34;

pub const BACKSLASH: u8 = 92;

pub const SLASH: u8 = 47;

pub const LBRACE: u8 = 123;

pub const RBRACE: u8 = 125;

pub const COLON: u8 = 58;

pub const COMMA: u8 = 44;

// ---------------------------------------------------------------------------
// Whitespace

/// The four JSON whitespace bytes: space, tab, line feed, carriage return.
pub open spec fn spec_is_ws(b: u8) -> bool {
    b == 32 || b == 9 || b == 10 || b == 13
}

/// The first position at or after `i` that does not hold whitespace.
pub open spec fn spec_skip_ws(s: Seq<u8>, i: int) -> int
    decreases s.len() - i,
{
    if 0 <= i < s.len() && spec_is_ws(s[i]) {
        spec_skip_ws(s, i + 1)
    } else {
        i
    }
}

/// Executable whitespace test.
pub fn is_ws(b: u8) -> (r: bool)
    ensures
        r == spec_is_ws(b),
{
    b == 32 || b == 9 || b == 10 || b == 13
}

/// Executable whitespace skip.
pub fn skip_ws(s: &Vec<u8>, i: usize) -> (r: usize)
    requires
        i <= s@.len(),
    ensures
        r as int == spec_skip_ws(s@, i as int),
        i <= r <= s@.len(),
{
    let mut j: usize = i;
    while j < s.len() && is_ws(s[j])
        invariant
            i <= j <= s@.len(),
            spec_skip_ws(s@, i as int) == spec_skip_ws(s@, j as int),
        decreases s@.len() - j,
    {
        j = j + 1;
    }
    j
}

// ---------------------------------------------------------------------------
// Hexadecimal digits

pub open spec fn spec_is_hex(b: u8) -> bool {
    (48 <= b <= 57) || (97 <= b <= 102) || (65 <= b <= 70)
}

/// The value of one hexadecimal digit (either case).
pub open spec fn spec_hex_digit(b: u8) -> u32
    recommends
        spec_is_hex(b),
{
    if 48 <= b <= 57 {
        (b - 48) as u32
    } else if 97 <= b <= 102 {
        (b - 87) as u32
    } else {
        (b - 55) as u32
    }
}

/// True when four hexadecimal digits stand at position `i`.
pub open spec fn spec_hex4_ok(s: Seq<u8>, i: int) -> bool {
    &&& 0 <= i
    &&& i + 4 <= s.len()
    &&& spec_is_hex(s[i])
    &&& spec_is_hex(s[i + 1])
    &&& spec_is_hex(s[i + 2])
    &&& spec_is_hex(s[i + 3])
}

/// The code unit that four hexadecimal digits at position `i` denote.
pub open spec fn spec_hex4_val(s: Seq<u8>, i: int) -> u32
    recommends
        spec_hex4_ok(s, i),
{
    (spec_hex_digit(s[i]) * 4096 + spec_hex_digit(s[i + 1]) * 256 + spec_hex_digit(s[i + 2]) * 16
        + spec_hex_digit(s[i + 3])) as u32
}

/// Executable read of four hexadecimal digits.
pub fn hex4(s: &Vec<u8>, i: usize) -> (r: Option<u32>)
    ensures
        match r {
            Some(v) => spec_hex4_ok(s@, i as int) && v == spec_hex4_val(s@, i as int) && v
                < 0x10000,
            None => !spec_hex4_ok(s@, i as int),
        },
{
    if i > s.len() || s.len() - i < 4 {
        return None;
    }
    let d0 = hex_digit(s[i]);
    let d1 = hex_digit(s[i + 1]);
    let d2 = hex_digit(s[i + 2]);
    let d3 = hex_digit(s[i + 3]);
    match (d0, d1, d2, d3) {
        (Some(a), Some(b), Some(c), Some(d)) => Some(a * 4096 + b * 256 + c * 16 + d),
        _ => None,
    }
}

/// Executable value of one hexadecimal digit.
pub fn hex_digit(b: u8) -> (r: Option<u32>)
    ensures
        match r {
            Some(v) => spec_is_hex(b) && v == spec_hex_digit(b) && v < 16,
            None => !spec_is_hex(b),
        },
{
    if 48 <= b && b <= 57 {
        Some((b - 48) as u32)
    } else if 97 <= b && b <= 102 {
        Some((b - 87) as u32)
    } else if 65 <= b && b <= 70 {
        Some((b - 55) as u32)
    } else {
        None
    }
}

// ---------------------------------------------------------------------------
// String escapes

/// The byte that a single-character escape `\e` denotes, if `e` is one.
pub open spec fn spec_unescape1(e: u8) -> Option<u8> {
    if e == QUOTE {
        Some(QUOTE)
    } else if e == BACKSLASH {
        Some(BACKSLASH)
    } else if e == SLASH {
        Some(SLASH)
    } else if e == 98 {  // \b
        Some(8)
    } else if e == 102 {  // \f
        Some(12)
    } else if e == 110 {  // \n
        Some(10)
    } else if e == 114 {  // \r
        Some(13)
    } else if e == 116 {  // \t
        Some(9)
    } else {
        None
    }
}

/// The body of a JSON string from position `i` (just after the opening
/// quote) to its closing quote: the unescaped bytes and the position just
/// past the closing quote. Escapes cover `\" \\ \/ \b \f \n \r \t` and
/// `\uXXXX`, with a high surrogate joined to the low surrogate that must
/// follow it. Unescaped control bytes are refused; all other bytes pass
/// through unchanged.
pub open spec fn spec_string_body(s: Seq<u8>, i: int) -> Option<(Seq<u8>, int)>
    decreases s.len() - i,
{
    if !(0 <= i < s.len()) {
        None
    } else if s[i] == QUOTE {
        Some((Seq::empty(), i + 1))
    } else if s[i] == BACKSLASH {
        if i + 2 > s.len() {
            None
        } else {
            let e = s[i + 1];
            if e == 117 {  // \u
                if spec_hex4_ok(s, i + 2) {
                    let cu = spec_hex4_val(s, i + 2);
                    if 0xD800 <= cu < 0xDC00 {
                        if i + 12 <= s.len() && s[i + 6] == BACKSLASH && s[i + 7] == 117
                            && spec_hex4_ok(s, i + 8) && 0xDC00 <= spec_hex4_val(s, i + 8)
                            < 0xE000 {
                            let lo = spec_hex4_val(s, i + 8);
                            let scalar = (0x10000 + (cu - 0xD800) * 0x400 + (lo
                                - 0xDC00)) as u32;
                            match spec_string_body(s, i + 12) {
                                Some(t) => Some((encode_scalar(scalar) + t.0, t.1)),
                                None => None,
                            }
                        } else {
                            None
                        }
                    } else if 0xDC00 <= cu < 0xE000 {
                        None
                    } else {
                        match spec_string_body(s, i + 6) {
                            Some(t) => Some((encode_scalar(cu) + t.0, t.1)),
                            None => None,
                        }
                    }
                } else {
                    None
                }
            } else {
                match spec_unescape1(e) {
                    Some(b) => match spec_string_body(s, i + 2) {
                        Some(t) => Some((seq![b] + t.0, t.1)),
                        None => None,
                    },
                    None => None,
                }
            }
        }
    } else if s[i] < 32 {
        None
    } else {
        match spec_string_body(s, i + 1) {
            Some(t) => Some((seq![s[i]] + t.0, t.1)),
            None => None,
        }
    }
}

/// A whole JSON string at position `i`: an opening quote, a body, a closing
/// quote.
pub open spec fn spec_string(s: Seq<u8>, i: int) -> Option<(Seq<u8>, int)> {
    if 0 <= i < s.len() && s[i] == QUOTE {
        spec_string_body(s, i + 1)
    } else {
        None
    }
}

/// Glues a prefix of unescaped bytes onto the outcome of parsing the rest
/// of a string body.
pub open spec fn spec_prepend(pre: Seq<u8>, t: Option<(Seq<u8>, int)>) -> Option<(Seq<u8>, int)> {
    match t {
        Some(p) => Some((pre + p.0, p.1)),
        None => None,
    }
}

pub proof fn lemma_prepend_assoc(pre1: Seq<u8>, pre2: Seq<u8>, t: Option<(Seq<u8>, int)>)
    ensures
        spec_prepend(pre1, spec_prepend(pre2, t)) == spec_prepend(pre1 + pre2, t),
{
    match t {
        Some(p) => {
            assert(pre1 + (pre2 + p.0) =~= (pre1 + pre2) + p.0);
        },
        None => {},
    }
}

/// Appends the UTF-8 encoding of one Unicode scalar to a byte vector.
pub fn push_utf8(acc: &mut Vec<u8>, scalar: u32)
    requires
        is_scalar(scalar),
    ensures
        final(acc)@ == old(acc)@ + encode_scalar(scalar),
{
    assert(scalar & 0x7F < 256 && (scalar >> 6) & 0x1F < 256 && scalar & 0x3F < 256 && (scalar
        >> 12) & 0x0F < 256 && (scalar >> 6) & 0x3F < 256 && (scalar >> 18) & 0x7 < 256 && (scalar
        >> 12) & 0x3F < 256) by (bit_vector);
    if scalar <= 0x7F {
        acc.push((scalar & 0x7F) as u8);
        proof {
            assert(old(acc)@.push((scalar & 0x7F) as u8) =~= old(acc)@ + encode_scalar(scalar));
        }
    } else if scalar <= 0x7FF {
        acc.push(0xC0u8 | (((scalar >> 6) & 0x1F) as u8));
        acc.push(0x80u8 | ((scalar & 0x3F) as u8));
        proof {
            assert(old(acc)@.push(0xC0u8 | (((scalar >> 6) & 0x1F) as u8)).push(0x80u8 | ((scalar
                & 0x3F) as u8)) =~= old(acc)@ + encode_scalar(scalar));
        }
    } else if scalar <= 0xFFFF {
        acc.push(0xE0u8 | (((scalar >> 12) & 0x0F) as u8));
        acc.push(0x80u8 | (((scalar >> 6) & 0x3F) as u8));
        acc.push(0x80u8 | ((scalar & 0x3F) as u8));
        proof {
            assert(has_width_3_encoding(scalar));
            assert(old(acc)@.push(0xE0u8 | (((scalar >> 12) & 0x0F) as u8)).push(0x80u8 | (((
            scalar >> 6) & 0x3F) as u8)).push(0x80u8 | ((scalar & 0x3F) as u8)) =~= old(acc)@
                + encode_scalar(scalar));
        }
    } else {
        acc.push(0xF0u8 | (((scalar >> 18) & 0x7) as u8));
        acc.push(0x80u8 | (((scalar >> 12) & 0x3F) as u8));
        acc.push(0x80u8 | (((scalar >> 6) & 0x3F) as u8));
        acc.push(0x80u8 | ((scalar & 0x3F) as u8));
        proof {
            assert(old(acc)@.push(0xF0u8 | (((scalar >> 18) & 0x7) as u8)).push(0x80u8 | (((scalar
                >> 12) & 0x3F) as u8)).push(0x80u8 | (((scalar >> 6) & 0x3F) as u8)).push(0x80u8
                | ((scalar & 0x3F) as u8)) =~= old(acc)@ + encode_scalar(scalar));
        }
    }
}

/// Executable parse of a whole JSON string at position `i`: returns the
/// unescaped bytes of its body and the position just past the closing
/// quote.
#[verifier::rlimit(60)]
#[verifier::loop_isolation(false)]
pub fn parse_string(s: &Vec<u8>, i: usize) -> (r: Option<(Vec<u8>, usize)>)
    ensures
        match r {
            Some(p) => spec_string(s@, i as int) == Some((p.0@, p.1 as int)) && i < p.1
                <= s@.len(),
            None => spec_string(s@, i as int) is None,
        },
{
    if i >= s.len() || s[i] != QUOTE {
        return None;
    }
    let ghost start: int = i as int + 1;
    let mut acc: Vec<u8> = Vec::new();
    let mut j: usize = i + 1;
    proof {
        match spec_string_body(s@, start) {
            Some(p) => {
                assert(Seq::<u8>::empty() + p.0 =~= p.0);
            },
            None => {},
        }
    }
    loop
        invariant
            i as int + 1 <= j <= s@.len(),
            spec_string_body(s@, start) == spec_prepend(acc@, spec_string_body(s@, j as int)),
        decreases s@.len() - j,
    {
        if j >= s.len() {
            return None;
        }
        let b = s[j];
        if b == QUOTE {
            proof {
                assert(acc@ + Seq::<u8>::empty() =~= acc@);
            }
            return Some((acc, j + 1));
        } else if b == BACKSLASH {
            if s.len() - j < 2 {
                return None;
            }
            let e = s[j + 1];
            if e == 117 {
                match hex4(s, j + 2) {
                    None => {
                        return None;
                    },
                    Some(cu) => {
                        if 0xD800 <= cu && cu < 0xDC00 {
                            if s.len() - j < 12 || s[j + 6] != BACKSLASH || s[j + 7] != 117 {
                                return None;
                            }
                            match hex4(s, j + 8) {
                                None => {
                                    return None;
                                },
                                Some(lo) => {
                                    if !(0xDC00 <= lo && lo < 0xE000) {
                                        return None;
                                    }
                                    let scalar: u32 = 0x10000 + (cu - 0xD800) * 0x400 + (lo
                                        - 0xDC00);
                                    let ghost pre = acc@;
                                    push_utf8(&mut acc, scalar);
                                    proof {
                                        lemma_prepend_assoc(
                                            pre,
                                            encode_scalar(scalar),
                                            spec_string_body(s@, j + 12),
                                        );
                                    }
                                    j = j + 12;
                                },
                            }
                        } else if 0xDC00 <= cu && cu < 0xE000 {
                            return None;
                        } else {
                            let ghost pre = acc@;
                            push_utf8(&mut acc, cu);
                            proof {
                                lemma_prepend_assoc(
                                    pre,
                                    encode_scalar(cu),
                                    spec_string_body(s@, j + 6),
                                );
                            }
                            j = j + 6;
                        }
                    },
                }
            } else {
                let ghost pre = acc@;
                if e == QUOTE {
                    acc.push(QUOTE);
                } else if e == BACKSLASH {
                    acc.push(BACKSLASH);
                } else if e == SLASH {
                    acc.push(SLASH);
                } else if e == 98 {
                    acc.push(8);
                } else if e == 102 {
                    acc.push(12);
                } else if e == 110 {
                    acc.push(10);
                } else if e == 114 {
                    acc.push(13);
                } else if e == 116 {
                    acc.push(9);
                } else {
                    return None;
                }
                proof {
                    assert(acc@ =~= pre + seq![spec_unescape1(e).unwrap()]);
                    lemma_prepend_assoc(
                        pre,
                        seq![spec_unescape1(e).unwrap()],
                        spec_string_body(s@, j + 2),
                    );
                }
                j = j + 2;
            }
        } else if b < 32 {
            return None;
        } else {
            let ghost pre = acc@;
            acc.push(b);
            proof {
                assert(acc@ =~= pre + seq![b]);
                lemma_prepend_assoc(pre, seq![b], spec_string_body(s@, j + 1));
            }
            j = j + 1;
        }
    }
}

// ---------------------------------------------------------------------------
// Unsigned 32-bit numbers

pub open spec fn spec_is_digit(b: u8) -> bool {
    48 <= b <= 57
}

/// The first position at or after `i` that does not hold a decimal digit.
pub open spec fn spec_digits_end(s: Seq<u8>, i: int) -> int
    decreases s.len() - i,
{
    if 0 <= i < s.len() && spec_is_digit(s[i]) {
        spec_digits_end(s, i + 1)
    } else {
        i
    }
}

/// The value of the decimal digits from `i` (inclusive) to `j` (exclusive).
pub open spec fn spec_digits_val(s: Seq<u8>, i: int, j: int) -> int
    decreases j - i,
{
    if i < j {
        spec_digits_val(s, i, j - 1) * 10 + (s[j - 1] - 48)
    } else {
        0
    }
}

pub proof fn lemma_digits_end_bounds(s: Seq<u8>, i: int)
    requires
        0 <= i <= s.len(),
    ensures
        i <= spec_digits_end(s, i) <= s.len(),
        forall|k: int| i <= k < spec_digits_end(s, i) ==> spec_is_digit(#[trigger] s[k]),
        spec_digits_end(s, i) < s.len() ==> !spec_is_digit(s[spec_digits_end(s, i)]),
    decreases s.len() - i,
{
    if i < s.len() && spec_is_digit(s[i]) {
        lemma_digits_end_bounds(s, i + 1);
    }
}

pub proof fn lemma_digits_val_nonneg(s: Seq<u8>, i: int, j: int)
    requires
        forall|k: int| i <= k < j ==> spec_is_digit(#[trigger] s[k]),
    ensures
        spec_digits_val(s, i, j) >= 0,
    decreases j - i,
{
    if i < j {
        lemma_digits_val_nonneg(s, i, j - 1);
    }
}

/// A longer digit run never has a smaller value.
pub proof fn lemma_digits_val_mono(s: Seq<u8>, i: int, j: int, k: int)
    requires
        i <= j <= k,
        forall|m: int| i <= m < k ==> spec_is_digit(#[trigger] s[m]),
    ensures
        spec_digits_val(s, i, j) <= spec_digits_val(s, i, k),
    decreases k - j,
{
    if j < k {
        lemma_digits_val_mono(s, i, j, k - 1);
        lemma_digits_val_nonneg(s, i, k - 1);
    }
}

/// An unsigned 32-bit JSON number at position `i`: a nonempty digit run
/// with no superfluous leading zero, whose value fits in 32 bits.
pub open spec fn spec_u32(s: Seq<u8>, i: int) -> Option<(u32, int)> {
    let j = spec_digits_end(s, i);
    if j == i {
        None
    } else if s[i] == 48 && j > i + 1 {
        None
    } else if spec_digits_val(s, i, j) > 0xFFFF_FFFF {
        None
    } else {
        Some((spec_digits_val(s, i, j) as u32, j))
    }
}

/// Executable parse of an unsigned 32-bit JSON number.
pub fn parse_u32(s: &Vec<u8>, i: usize) -> (r: Option<(u32, usize)>)
    ensures
        match r {
            Some(p) => spec_u32(s@, i as int) == Some((p.0, p.1 as int)) && i < p.1 <= s@.len(),
            None => spec_u32(s@, i as int) is None,
        },
{
    proof {
        if i as int <= s@.len() {
            lemma_digits_end_bounds(s@, i as int);
        }
    }
    if i >= s.len() || !(48 <= s[i] && s[i] <= 57) {
        return None;
    }
    let ghost jend: int = spec_digits_end(s@, i as int);
    if s[i] == 48 {
        if i + 1 < s.len() && 48 <= s[i + 1] && s[i + 1] <= 57 {
            proof {
                lemma_digits_end_bounds(s@, i as int + 2);
                assert(spec_digits_end(s@, i as int) == spec_digits_end(s@, i as int + 1));
                assert(spec_digits_end(s@, i as int + 1) == spec_digits_end(s@, i as int + 2));
            }
            return None;
        }
        proof {
            assert(spec_digits_end(s@, i as int) == spec_digits_end(s@, i as int + 1));
            assert(spec_digits_end(s@, i as int + 1) == i as int + 1);
            assert(spec_digits_val(s@, i as int, i as int) == 0);
            assert(spec_digits_val(s@, i as int, i as int + 1) == 0);
        }
        return Some((0, i + 1));
    }
    let mut acc: u64 = 0;
    let mut j: usize = i;
    while j < s.len() && 48 <= s[j] && s[j] <= 57
        invariant
            i <= j <= s@.len(),
            i < s@.len(),
            jend == spec_digits_end(s@, i as int),
            j <= jend <= s@.len(),
            acc as int == spec_digits_val(s@, i as int, j as int),
            acc <= 0xFFFF_FFFF,
        decreases s@.len() - j,
    {
        proof {
            lemma_digits_end_bounds(s@, i as int);
            if j as int == jend {
                assert(!spec_is_digit(s@[jend]));
            }
        }
        let d: u64 = (s[j] - 48) as u64;
        let next: u64 = acc * 10 + d;
        if next > 0xFFFF_FFFF {
            proof {
                lemma_digits_end_bounds(s@, i as int);
                lemma_digits_val_mono(s@, i as int, j as int + 1, jend);
            }
            return None;
        }
        acc = next;
        j = j + 1;
    }
    proof {
        lemma_digits_end_bounds(s@, i as int);
        if (j as int) < jend {
            assert(spec_is_digit(s@[j as int]));
        }
        assert(j as int == jend);
    }
    Some((acc as u32, j))
}

// ---------------------------------------------------------------------------
// Canonical emission

/// The lowercase hexadecimal digit of a value below 16.
pub open spec fn spec_hex_char(v: int) -> u8
    recommends
        0 <= v < 16,
{
    if v < 10 {
        (48 + v) as u8
    } else {
        (87 + v) as u8
    }
}

/// The canonical escape of one byte of string content: quote, backslash and
/// the named control characters as two-character escapes, the remaining
/// control bytes as `\u00XX`, everything else as itself.
pub open spec fn spec_escape1(b: u8) -> Seq<u8> {
    if b == QUOTE {
        seq![BACKSLASH, QUOTE]
    } else if b == BACKSLASH {
        seq![BACKSLASH, BACKSLASH]
    } else if b == 8 {
        seq![BACKSLASH, 98]
    } else if b == 9 {
        seq![BACKSLASH, 116]
    } else if b == 10 {
        seq![BACKSLASH, 110]
    } else if b == 12 {
        seq![BACKSLASH, 102]
    } else if b == 13 {
        seq![BACKSLASH, 114]
    } else if b < 32 {
        seq![BACKSLASH, 117, 48, 48, spec_hex_char(b as int / 16), spec_hex_char(b as int % 16)]
    } else {
        seq![b]
    }
}

/// The canonical escape of a whole byte sequence of string content.
pub open spec fn spec_escape(bs: Seq<u8>) -> Seq<u8>
    decreases bs.len(),
{
    if bs.len() == 0 {
        Seq::empty()
    } else {
        spec_escape1(bs[0]) + spec_escape(bs.drop_first())
    }
}

/// The canonical decimal digits of a nonnegative number.
pub open spec fn spec_dec(n: int) -> Seq<u8>
    recommends
        n >= 0,
    decreases n,
{
    if n < 10 {
        seq![(48 + if n >= 0 { n } else { 0 }) as u8]
    } else {
        spec_dec(n / 10) + seq![(48 + n % 10) as u8]
    }
}

/// Appends the canonical escape of `bs` to `out`.
pub fn push_escaped(out: &mut Vec<u8>, bs: &[u8])
    ensures
        final(out)@ == old(out)@ + spec_escape(bs@),
{
    let mut i: usize = 0;
    proof {
        assert(old(out)@ + spec_escape(bs@.subrange(0, 0)) =~= old(out)@);
    }
    while i < bs.len()
        invariant
            i <= bs@.len(),
            out@ == old(out)@ + spec_escape(bs@.subrange(0, i as int)),
        decreases bs@.len() - i,
    {
        let b = bs[i];
        if b == QUOTE {
            out.push(BACKSLASH);
            out.push(QUOTE);
        } else if b == BACKSLASH {
            out.push(BACKSLASH);
            out.push(BACKSLASH);
        } else if b == 8 {
            out.push(BACKSLASH);
            out.push(98);
        } else if b == 9 {
            out.push(BACKSLASH);
            out.push(116);
        } else if b == 10 {
            out.push(BACKSLASH);
            out.push(110);
        } else if b == 12 {
            out.push(BACKSLASH);
            out.push(102);
        } else if b == 13 {
            out.push(BACKSLASH);
            out.push(114);
        } else if b < 32 {
            out.push(BACKSLASH);
            out.push(117);
            out.push(48);
            out.push(48);
            let hi: u8 = b / 16;
            let lo: u8 = b % 16;
            out.push(if hi < 10 { 48 + hi } else { 87 + hi });
            out.push(if lo < 10 { 48 + lo } else { 87 + lo });
        } else {
            out.push(b);
        }
        i = i + 1;
        proof {
            lemma_escape_extend(bs@, i as int);
            assert(out@ =~= old(out)@ + spec_escape(bs@.subrange(0, i as int)));
        }
    }
    proof {
        assert(bs@.subrange(0, bs@.len() as int) =~= bs@);
    }
}

/// Escaping a prefix one byte longer appends that byte's escape.
pub proof fn lemma_escape_extend(bs: Seq<u8>, i: int)
    requires
        0 < i <= bs.len(),
    ensures
        spec_escape(bs.subrange(0, i)) == spec_escape(bs.subrange(0, i - 1)) + spec_escape1(
            bs[i - 1],
        ),
    decreases i,
{
    lemma_escape_snoc(bs.subrange(0, i - 1), bs[i - 1]);
    assert(bs.subrange(0, i) =~= bs.subrange(0, i - 1).push(bs[i - 1]));
}

/// Escaping a sequence with one more byte at its end appends that byte's
/// escape.
pub proof fn lemma_escape_snoc(bs: Seq<u8>, b: u8)
    ensures
        spec_escape(bs.push(b)) == spec_escape(bs) + spec_escape1(b),
    decreases bs.len(),
{
    if bs.len() == 0 {
        assert(bs.push(b)[0] == b);
        assert(bs.push(b).drop_first() =~= Seq::<u8>::empty());
        assert(Seq::<u8>::empty() + spec_escape1(b) =~= spec_escape1(b));
        assert(spec_escape1(b) + spec_escape(Seq::<u8>::empty()) =~= spec_escape1(b));
    } else {
        lemma_escape_snoc(bs.drop_first(), b);
        assert(bs.push(b).drop_first() =~= bs.drop_first().push(b));
        assert(bs.push(b)[0] == bs[0]);
        assert(spec_escape1(bs[0]) + (spec_escape(bs.drop_first()) + spec_escape1(b)) =~= (
        spec_escape1(bs[0]) + spec_escape(bs.drop_first())) + spec_escape1(b));
    }
}

/// Appends the canonical decimal digits of `n` to `out`.
pub fn push_dec(out: &mut Vec<u8>, n: u32)
    ensures
        final(out)@ == old(out)@ + spec_dec(n as int),
    decreases n,
{
    if n < 10 {
        out.push(48 + (n as u8));
        proof {
            assert(old(out)@.push((48 + n as int) as u8) =~= old(out)@ + spec_dec(n as int));
        }
    } else {
        push_dec(out, n / 10);
        out.push(48 + ((n % 10) as u8));
        proof {
            assert((old(out)@ + spec_dec(n as int / 10)).push((48 + n as int % 10) as u8) =~= old(
                out,
            )@ + spec_dec(n as int));
        }
    }
}

} // verus!
