//! Round-trip laws of the wire encoding: a canonical payload parses back
//! to exactly the value it was made from.

use vstd::prelude::*;
use vstd::arithmetic::div_mod::lemma_fundamental_div_mod;
use vstd::utf8::encode_scalar;
use vstd::utf8::encode_utf8;
use vstd::utf8::is_ascii_chars;
use vstd::utf8::is_ascii_chars_encode_utf8;

use crate::json::spec_dec;
use crate::json::spec_digits_end;
use crate::json::spec_digits_val;
use crate::json::spec_escape;
use crate::json::spec_escape1;
use crate::json::spec_hex_char;
use crate::json::spec_is_digit;
use crate::json::spec_string;
use crate::json::spec_string_body;
use crate::json::spec_u32;
use crate::json::QUOTE;
use crate::json::BACKSLASH;

use crate::codec::spec_json_string;
use vstd::utf8::encode_utf8_decode_utf8;
use vstd::utf8::encode_utf8_valid_utf8;
use crate::json::COLON;
use crate::json::COMMA;
use crate::json::LBRACE;
use crate::json::RBRACE;
use crate::json::spec_skip_ws;
use crate::codec::spec_encode_command;
use crate::codec::spec_end_obj;
use crate::codec::spec_parse_exact;
use crate::codec::spec_parse_member_str;
use crate::codec::spec_parse_wstring;
use crate::codec::spec_parse_member_u32;
use crate::codec::spec_parse_pair;
use crate::codec::spec_decode_command;
use crate::messages::CommandView;

verus! {

/// When a slice of `s` equals `t`, each byte of the slice is the matching
/// byte of `t`.
pub proof fn lemma_bytes_of_subrange_eq(s: Seq<u8>, i: int, t: Seq<u8>)
    requires
        0 <= i,
        i + t.len() <= s.len(),
        s.subrange(i, i + t.len()) == t,
    ensures
        forall|k: int| 0 <= k < t.len() ==> s[i + k] == #[trigger] t[k],
{
    assert forall|k: int| 0 <= k < t.len() implies s[i + k] == #[trigger] t[k] by {
        assert(s.subrange(i, i + t.len())[k] == s[i + k]);
    }
}

/// The UTF-8 encoding of an ASCII character sequence is those characters
/// as bytes, one each.
pub proof fn lemma_ascii_bytes(chars: Seq<char>)
    requires
        is_ascii_chars(chars),
    ensures
        encode_utf8(chars).len() == chars.len(),
        forall|k: int|
            0 <= k < chars.len() ==> #[trigger] encode_utf8(chars)[k] == chars[k] as u8,
{
    is_ascii_chars_encode_utf8(chars);
    assert(encode_utf8(chars) =~= Seq::new(chars.len(), |i: int| chars[i] as u8));
}

/// A string body that consists of canonically escaped content followed by
/// a closing quote parses back to exactly that content.
#[verifier::rlimit(80)]
pub proof fn lemma_body_of_escaped(s: Seq<u8>, i: int, content: Seq<u8>)
    requires
        0 <= i,
        i + spec_escape(content).len() + 1 <= s.len(),
        s.subrange(i, i + spec_escape(content).len()) == spec_escape(content),
        s[i + spec_escape(content).len()] == QUOTE,
    ensures
        spec_string_body(s, i) == Some((content, i + spec_escape(content).len() + 1)),
    decreases content.len(),
{
    let esc = spec_escape(content);
    lemma_bytes_of_subrange_eq(s, i, esc);
    if content.len() == 0 {
        assert(content =~= Seq::<u8>::empty());
    } else {
        let b = content[0];
        let e1 = spec_escape1(b);
        let rest = content.drop_first();
        let esc_r = spec_escape(rest);
        assert(esc == e1 + esc_r);
        assert forall|k: int| 0 <= k < e1.len() implies s[i + k] == #[trigger] e1[k] by {
            assert((e1 + esc_r)[k] == e1[k]);
            assert(s[i + k] == esc[k]);
        }
        let i2 = i + e1.len();
        assert(s.subrange(i2, i2 + esc_r.len()) =~= esc_r) by {
            assert forall|k: int| 0 <= k < esc_r.len() implies s[i2 + k] == #[trigger] esc_r[k] by {
                assert((e1 + esc_r)[e1.len() + k] == esc_r[k]);
                assert(s[i + (e1.len() + k)] == esc[e1.len() + k]);
            }
        }
        lemma_body_of_escaped(s, i2, rest);
        assert(seq![b] + rest =~= content);
        if b == QUOTE || b == BACKSLASH || b == 8 || b == 9 || b == 10 || b == 12 || b == 13 {
            assert(spec_string_body(s, i) == Some((content, i + esc.len() + 1)));
        } else if b < 32 {
            let hi: int = b as int / 16;
            let lo: int = b as int % 16;
            lemma_fundamental_div_mod(b as int, 16);
            assert(s[i] == BACKSLASH && s[i + 1] == 117 && s[i + 2] == 48 && s[i + 3] == 48 && s[i
                + 4] == spec_hex_char(hi) && s[i + 5] == spec_hex_char(lo));
            let cu = crate::json::spec_hex4_val(s, i + 2);
            assert(crate::json::spec_hex4_ok(s, i + 2));
            assert(crate::json::spec_hex_digit(48) == 0);
            assert(crate::json::spec_hex_digit(spec_hex_char(hi)) == hi);
            assert(crate::json::spec_hex_digit(spec_hex_char(lo)) == lo);
            assert(cu == b as u32);
            assert(cu < 32 ==> cu & 0x7F == cu) by (bit_vector);
            assert(encode_scalar(cu) =~= seq![b]);
            assert(spec_string_body(s, i) == Some((encode_scalar(cu) + rest, i + esc.len() + 1)));
            assert(encode_scalar(cu) + rest =~= content);
        } else {
            assert(spec_string_body(s, i) == Some((content, i + esc.len() + 1)));
        }
    }
}

/// A whole canonical JSON string parses back to exactly its content.
pub proof fn lemma_string_of_json_string(s: Seq<u8>, i: int, content: Seq<u8>)
    requires
        0 <= i,
        i + spec_json_string(content).len() <= s.len(),
        s.subrange(i, i + spec_json_string(content).len()) == spec_json_string(content),
    ensures
        spec_string(s, i) == Some((content, i + spec_json_string(content).len())),
{
    let esc = spec_escape(content);
    let js = spec_json_string(content);
    lemma_bytes_of_subrange_eq(s, i, js);
    assert(js == (seq![QUOTE] + esc) + seq![QUOTE]);
    assert(s[i] == QUOTE) by {
        assert((seq![QUOTE] + esc)[0] == seq![QUOTE][0]);
        assert(js[0] == (seq![QUOTE] + esc)[0]);
        assert(s[i + 0] == js[0]);
    }
    assert(s[i + 1 + esc.len()] == QUOTE) by {
        assert(js[1 + esc.len() as int] == seq![QUOTE][0]);
        assert(s[i + (1 + esc.len())] == js[1 + esc.len() as int]);
    }
    assert(s.subrange(i + 1, i + 1 + esc.len()) =~= esc) by {
        assert forall|k: int| 0 <= k < esc.len() implies s[i + 1 + k] == #[trigger] esc[k] by {
            assert((seq![QUOTE] + esc)[1 + k] == esc[k]);
            assert(js[1 + k] == (seq![QUOTE] + esc)[1 + k]);
            assert(s[i + (1 + k)] == js[1 + k]);
        }
    }
    lemma_body_of_escaped(s, i + 1, content);
}

/// The canonical decimal digits of a number: nonempty, all digits, no
/// superfluous leading zero.
pub proof fn lemma_dec_props(n: int)
    requires
        0 <= n,
    ensures
        spec_dec(n).len() >= 1,
        forall|k: int| 0 <= k < spec_dec(n).len() ==> spec_is_digit(#[trigger] spec_dec(n)[k]),
        n >= 1 ==> spec_dec(n)[0] != 48,
        n < 10 ==> spec_dec(n) == seq![(48 + n) as u8],
    decreases n,
{
    if n >= 10 {
        lemma_dec_props(n / 10);
        let dp = spec_dec(n / 10);
        let last = seq![(48 + n % 10) as u8];
        assert(spec_dec(n) == dp + last);
        assert forall|k: int| 0 <= k < spec_dec(n).len() implies spec_is_digit(
            #[trigger] spec_dec(n)[k],
        ) by {
            if k < dp.len() {
                assert((dp + last)[k] == dp[k]);
            } else {
                assert((dp + last)[k] == last[k - dp.len()]);
            }
        }
        assert(spec_dec(n)[0] == dp[0]) by {
            assert((dp + last)[0] == dp[0]);
        }
    }
}

/// A digit run ends exactly where the digits end.
pub proof fn lemma_digits_end_exact(s: Seq<u8>, i: int, j: int)
    requires
        0 <= i <= j <= s.len(),
        forall|k: int| i <= k < j ==> spec_is_digit(#[trigger] s[k]),
        j == s.len() || !spec_is_digit(s[j]),
    ensures
        spec_digits_end(s, i) == j,
    decreases j - i,
{
    if i < j {
        lemma_digits_end_exact(s, i + 1, j);
    }
}

/// The value of the canonical decimal digits of `n` is `n`.
pub proof fn lemma_dec_val(s: Seq<u8>, i: int, n: int)
    requires
        0 <= n,
        0 <= i,
        i + spec_dec(n).len() <= s.len(),
        s.subrange(i, i + spec_dec(n).len()) == spec_dec(n),
    ensures
        spec_digits_val(s, i, i + spec_dec(n).len()) == n,
    decreases n,
{
    let d = spec_dec(n);
    lemma_bytes_of_subrange_eq(s, i, d);
    if n < 10 {
        assert(s[i + 0] == d[0]);
        assert(s[i] == (48 + n) as u8);
        assert(spec_digits_val(s, i, i) == 0);
        assert(spec_digits_val(s, i, i + 1) == n);
    } else {
        let dp = spec_dec(n / 10);
        let last = seq![(48 + n % 10) as u8];
        assert(d == dp + last);
        assert(s.subrange(i, i + dp.len()) =~= dp) by {
            assert forall|k: int| 0 <= k < dp.len() implies s[i + k] == #[trigger] dp[k] by {
                assert((dp + last)[k] == dp[k]);
                assert(s[i + k] == d[k]);
            }
        }
        lemma_dec_val(s, i, n / 10);
        assert(s[i + (d.len() - 1)] == d[d.len() - 1]);
        assert(d[d.len() - 1] == last[0]) by {
            assert((dp + last)[dp.len() as int] == last[0]);
        }
        lemma_fundamental_div_mod(n, 10);
        assert(spec_digits_val(s, i, i + d.len()) == spec_digits_val(s, i, i + dp.len()) * 10 + (
        s[i + d.len() - 1] - 48));
    }
}

/// A canonical decimal number bounded by what fits in 32 bits parses back
/// to exactly its value.
pub proof fn lemma_u32_of_dec(s: Seq<u8>, i: int, n: int)
    requires
        0 <= n <= 0xFFFF_FFFF,
        0 <= i,
        i + spec_dec(n).len() <= s.len(),
        s.subrange(i, i + spec_dec(n).len()) == spec_dec(n),
        i + spec_dec(n).len() == s.len() || !spec_is_digit(s[i + spec_dec(n).len()]),
    ensures
        spec_u32(s, i) == Some((n as u32, i + spec_dec(n).len())),
{
    let d = spec_dec(n);
    lemma_dec_props(n);
    lemma_bytes_of_subrange_eq(s, i, d);
    assert forall|k: int| i <= k < i + d.len() implies spec_is_digit(#[trigger] s[k]) by {
        assert(s[i + (k - i)] == d[k - i]);
    }
    lemma_digits_end_exact(s, i, i + d.len());
    lemma_dec_val(s, i, n);
    if n == 0 {
        assert(d.len() == 1);
    } else {
        assert(s[i + 0] == d[0]);
        assert(s[i] != 48);
    }
}






/// A slice of a concatenation taken exactly where one part stands equals
/// that part.
pub proof fn lemma_piece_at(s: Seq<u8>, pre: Seq<u8>, piece: Seq<u8>, suf: Seq<u8>)
    requires
        s == (pre + piece) + suf,
    ensures
        s.subrange(pre.len() as int, (pre.len() + piece.len()) as int) == piece,
        s.len() == pre.len() + piece.len() + suf.len(),
    decreases 0int,
{
    assert(s.subrange(pre.len() as int, (pre.len() + piece.len()) as int) =~= piece) by {
        assert forall|k: int| 0 <= k < piece.len() implies s[pre.len() + k] == #[trigger] piece[k]
        by {
            assert((pre + piece)[pre.len() + k] == piece[k]);
            assert(((pre + piece) + suf)[pre.len() + k] == (pre + piece)[pre.len() + k]);
        }
    }
}

/// A canonical string-valued member parses back to its key and value.
pub proof fn lemma_member_str_at(s: Seq<u8>, i: int, keyb: Seq<u8>, valb: Seq<u8>)
    requires
        0 <= i,
        i + spec_json_string(keyb).len() + 1 + spec_json_string(valb).len() <= s.len(),
        s.subrange(i, i + spec_json_string(keyb).len() + 1 + spec_json_string(valb).len()) == (
        spec_json_string(keyb) + seq![COLON]) + spec_json_string(valb),
    ensures
        spec_parse_member_str(s, i, keyb) == Some(
            (valb, i + spec_json_string(keyb).len() + 1 + spec_json_string(valb).len()),
        ),
{
    let jsk = spec_json_string(keyb);
    let jsv = spec_json_string(valb);
    let m = (jsk + seq![COLON]) + jsv;
    lemma_bytes_of_subrange_eq(s, i, m);
    assert(s.subrange(i, i + jsk.len()) =~= jsk) by {
        assert forall|k: int| 0 <= k < jsk.len() implies s[i + k] == #[trigger] jsk[k] by {
            assert((jsk + seq![COLON])[k] == jsk[k]);
            assert(m[k] == (jsk + seq![COLON])[k]);
            assert(s[i + k] == m[k]);
        }
    }
    assert(s[i + jsk.len() as int] == COLON) by {
        assert((jsk + seq![COLON])[jsk.len() as int] == COLON);
        assert(m[jsk.len() as int] == (jsk + seq![COLON])[jsk.len() as int]);
        assert(s[i + jsk.len() as int] == m[jsk.len() as int]);
    }
    let v0 = i + jsk.len() + 1;
    assert(s.subrange(v0, v0 + jsv.len()) =~= jsv) by {
        assert forall|k: int| 0 <= k < jsv.len() implies s[v0 + k] == #[trigger] jsv[k] by {
            assert(m[jsk.len() + 1 + k] == jsv[k]);
            assert(s[i + (jsk.len() + 1 + k)] == m[jsk.len() + 1 + k]);
        }
    }
    assert(s[i] == QUOTE) by {
        assert(jsk[0] == QUOTE) by {
            assert(((seq![QUOTE] + spec_escape(keyb)) + seq![QUOTE])[0] == (seq![QUOTE]
                + spec_escape(keyb))[0]);
        }
        assert(s[i + 0] == jsk[0]);
    }
    assert(spec_skip_ws(s, i) == i);
    lemma_string_of_json_string(s, i, keyb);
    assert(spec_parse_wstring(s, i) == Some((keyb, i + jsk.len())));
    assert(spec_skip_ws(s, i + jsk.len() as int) == i + jsk.len());
    assert(spec_parse_exact(s, i + jsk.len() as int, COLON) == Some(v0));
    assert(s[v0] == QUOTE) by {
        assert(jsv[0] == QUOTE) by {
            assert(((seq![QUOTE] + spec_escape(valb)) + seq![QUOTE])[0] == (seq![QUOTE]
                + spec_escape(valb))[0]);
        }
        assert(s[v0 + 0] == jsv[0]);
    }
    assert(spec_skip_ws(s, v0) == v0);
    lemma_string_of_json_string(s, v0, valb);
}

/// A canonical number-valued member parses back to its key and value.
pub proof fn lemma_member_num_at(s: Seq<u8>, i: int, keyb: Seq<u8>, n: u32)
    requires
        0 <= i,
        i + spec_json_string(keyb).len() + 1 + spec_dec(n as int).len() <= s.len(),
        s.subrange(i, i + spec_json_string(keyb).len() + 1 + spec_dec(n as int).len()) == (
        spec_json_string(keyb) + seq![COLON]) + spec_dec(n as int),
        i + spec_json_string(keyb).len() + 1 + spec_dec(n as int).len() == s.len()
            || !spec_is_digit(
            s[i + spec_json_string(keyb).len() + 1 + spec_dec(n as int).len()],
        ),
    ensures
        spec_parse_member_u32(s, i, keyb) == Some(
            (n, i + spec_json_string(keyb).len() + 1 + spec_dec(n as int).len()),
        ),
{
    let jsk = spec_json_string(keyb);
    let d = spec_dec(n as int);
    let m = (jsk + seq![COLON]) + d;
    lemma_bytes_of_subrange_eq(s, i, m);
    assert(s.subrange(i, i + jsk.len()) =~= jsk) by {
        assert forall|k: int| 0 <= k < jsk.len() implies s[i + k] == #[trigger] jsk[k] by {
            assert((jsk + seq![COLON])[k] == jsk[k]);
            assert(m[k] == (jsk + seq![COLON])[k]);
            assert(s[i + k] == m[k]);
        }
    }
    assert(s[i + jsk.len() as int] == COLON) by {
        assert((jsk + seq![COLON])[jsk.len() as int] == COLON);
        assert(m[jsk.len() as int] == (jsk + seq![COLON])[jsk.len() as int]);
        assert(s[i + jsk.len() as int] == m[jsk.len() as int]);
    }
    let v0 = i + jsk.len() + 1;
    assert(s.subrange(v0, v0 + d.len()) =~= d) by {
        assert forall|k: int| 0 <= k < d.len() implies s[v0 + k] == #[trigger] d[k] by {
            assert(m[jsk.len() + 1 + k] == d[k]);
            assert(s[i + (jsk.len() + 1 + k)] == m[jsk.len() + 1 + k]);
        }
    }
    assert(s[i] == QUOTE) by {
        assert(jsk[0] == QUOTE) by {
            assert(((seq![QUOTE] + spec_escape(keyb)) + seq![QUOTE])[0] == (seq![QUOTE]
                + spec_escape(keyb))[0]);
        }
        assert(s[i + 0] == jsk[0]);
    }
    assert(spec_skip_ws(s, i) == i);
    lemma_string_of_json_string(s, i, keyb);
    assert(spec_skip_ws(s, i + jsk.len() as int) == i + jsk.len());
    assert(spec_parse_exact(s, i + jsk.len() as int, COLON) == Some(v0));
    lemma_dec_props(n as int);
    assert(s[v0] == d[0]) by {
        assert(s[v0 + 0] == d[0]);
    }
    assert(spec_is_digit(d[0]) && !crate::json::spec_is_ws(d[0]));
    assert(spec_skip_ws(s, v0) == v0);
    lemma_u32_of_dec(s, v0, n as int);
}


/// An object that holds one string-valued member parses back to that
/// member's value, and ends exactly at its closing brace.
pub proof fn lemma_one_member_obj(s: Seq<u8>, keyb: Seq<u8>, valb: Seq<u8>)
    requires
        s == (seq![LBRACE] + ((spec_json_string(keyb) + seq![COLON]) + spec_json_string(valb)))
            + seq![RBRACE],
    ensures
        spec_parse_exact(s, 0, LBRACE) == Some(1int),
        spec_parse_member_str(s, 1, keyb) == Some((valb, s.len() - 1)),
        spec_end_obj(s, s.len() - 1),
{
    let m = (spec_json_string(keyb) + seq![COLON]) + spec_json_string(valb);
    lemma_piece_at(s, seq![LBRACE], m, seq![RBRACE]);
    assert(s[0] == LBRACE) by {
        assert((seq![LBRACE] + m)[0] == LBRACE);
        assert(((seq![LBRACE] + m) + seq![RBRACE])[0] == (seq![LBRACE] + m)[0]);
    }
    assert(spec_skip_ws(s, 0) == 0);
    lemma_member_str_at(s, 1, keyb, valb);
    assert(s[s.len() - 1] == RBRACE) by {
        assert(((seq![LBRACE] + m) + seq![RBRACE])[(seq![LBRACE] + m).len() as int]
            == seq![RBRACE][0]);
    }
    assert(spec_skip_ws(s, s.len() - 1) == s.len() - 1);
    assert(spec_parse_exact(s, s.len() - 1, RBRACE) == Some(s.len() as int));
    assert(spec_skip_ws(s, s.len() as int) == s.len());
}

/// Where each piece of a three-member object stands in the whole payload.
#[verifier::spinoff_prover]
pub proof fn lemma_three_member_layout(s: Seq<u8>, m1: Seq<u8>, m2: Seq<u8>, m3: Seq<u8>)
    requires
        s == (((((seq![LBRACE] + m1) + seq![COMMA]) + m2) + seq![COMMA]) + m3) + seq![RBRACE],
    ensures
        s.len() == 1 + m1.len() + 1 + m2.len() + 1 + m3.len() + 1,
        s[0] == LBRACE,
        s.subrange(1, 1 + m1.len() as int) == m1,
        s[1 + m1.len() as int] == COMMA,
        s.subrange(2 + m1.len() as int, (2 + m1.len() + m2.len()) as int) == m2,
        s[(2 + m1.len() + m2.len()) as int] == COMMA,
        s.subrange((3 + m1.len() + m2.len()) as int, (3 + m1.len() + m2.len() + m3.len()) as int) == m3,
        s[s.len() - 1] == RBRACE,
{
    let a = seq![LBRACE];
    let c = seq![COMMA];
    let r = seq![RBRACE];
    let x = a + m1;
    let o2 = 1 + m1.len() as int;
    let o3 = o2 + 1 + m2.len() as int;
    vstd::seq_lib::lemma_concat_associative(x, c, m2);
    vstd::seq_lib::lemma_concat_associative(x, c + m2, c);
    vstd::seq_lib::lemma_concat_associative(x, (c + m2) + c, m3);
    vstd::seq_lib::lemma_concat_associative(x, ((c + m2) + c) + m3, r);
    assert(s == x + ((((c + m2) + c) + m3) + r));
    vstd::seq_lib::lemma_concat_associative(c, m2, c);
    vstd::seq_lib::lemma_concat_associative(c, m2 + c, m3);
    vstd::seq_lib::lemma_concat_associative(c, (m2 + c) + m3, r);
    assert(s == x + (c + (((m2 + c) + m3) + r)));
    vstd::seq_lib::lemma_concat_associative(x, c, ((m2 + c) + m3) + r);
    assert(s == (x + c) + (((m2 + c) + m3) + r));
    vstd::seq_lib::lemma_concat_associative(m2, c, m3);
    vstd::seq_lib::lemma_concat_associative(m2, c + m3, r);
    assert(s == (x + c) + (m2 + ((c + m3) + r)));
    vstd::seq_lib::lemma_concat_associative(x + c, m2, (c + m3) + r);
    assert(s == ((x + c) + m2) + ((c + m3) + r));
    vstd::seq_lib::lemma_concat_associative(c, m3, r);
    vstd::seq_lib::lemma_concat_associative((x + c) + m2, c, m3 + r);
    assert(s == (((x + c) + m2) + c) + (m3 + r));
    lemma_piece_at(s, a, m1, (((c + m2) + c) + m3) + r);
    lemma_piece_at(s, x, c, ((m2 + c) + m3) + r);
    lemma_piece_at(s, (x + c), m2, (c + m3) + r);
    lemma_piece_at(s, ((x + c) + m2), c, m3 + r);
    lemma_piece_at(s, (((x + c) + m2) + c), m3, r);
    assert(s[0] == LBRACE) by {
        assert((a + m1)[0] == LBRACE);
        assert(((a + m1) + ((((c + m2) + c) + m3) + r))[0] == (a + m1)[0]);
    }
    assert(s[o2] == COMMA) by {
        lemma_bytes_of_subrange_eq(s, o2, c);
        assert(s[o2 + 0] == c[0]);
    }
    assert(s[o3] == COMMA) by {
        lemma_bytes_of_subrange_eq(s, o3, c);
        assert(s[o3 + 0] == c[0]);
    }
    assert(s[s.len() - 1] == RBRACE) by {
        let pre2 = ((((a + m1) + c) + m2) + c) + m3;
        assert((pre2 + r)[pre2.len() as int] == r[0]);
    }
}

/// An object of a tag member, a window-handle member and one further
/// string member parses back to exactly those values.
#[verifier::rlimit(100)]
#[verifier::spinoff_prover]
pub proof fn lemma_three_member_obj(
    s: Seq<u8>,
    typek: Seq<u8>,
    tagb: Seq<u8>,
    n: u32,
    skeyb: Seq<u8>,
    valb: Seq<u8>,
)
    requires
        s == (((((seq![LBRACE] + ((spec_json_string(typek) + seq![COLON]) + spec_json_string(
            tagb,
        ))) + seq![COMMA]) + ((spec_json_string(encode_utf8("windowHandle"@)) + seq![COLON])
            + spec_dec(n as int))) + seq![COMMA]) + ((spec_json_string(skeyb) + seq![COLON])
            + spec_json_string(valb))) + seq![RBRACE],
    ensures
        spec_parse_exact(s, 0, LBRACE) == Some(1int),
        spec_parse_member_str(s, 1, typek) == Some(
            (
                tagb,
                1 + ((spec_json_string(typek) + seq![COLON]) + spec_json_string(tagb)).len()
                    as int,
            ),
        ),
        spec_parse_pair(
            s,
            1 + ((spec_json_string(typek) + seq![COLON]) + spec_json_string(tagb)).len() as int,
            skeyb,
        ) == Some((n, valb, s.len() - 1)),
        spec_end_obj(s, s.len() - 1),
{
    let m1 = (spec_json_string(typek) + seq![COLON]) + spec_json_string(tagb);
    let m2 = (spec_json_string(encode_utf8("windowHandle"@)) + seq![COLON]) + spec_dec(n as int);
    let m3 = (spec_json_string(skeyb) + seq![COLON]) + spec_json_string(valb);
    let o2 = 1 + m1.len() as int;
    let o3 = o2 + 1 + m2.len() as int;
    lemma_three_member_layout(s, m1, m2, m3);
    assert(spec_skip_ws(s, 0) == 0);
    lemma_member_str_at(s, 1, typek, tagb);
    assert(!spec_is_digit(COMMA));
    lemma_member_num_at(s, o2 + 1, encode_utf8("windowHandle"@), n);
    lemma_member_str_at(s, o3 + 1, skeyb, valb);
    assert(spec_skip_ws(s, o2) == o2);
    assert(spec_parse_exact(s, o2, COMMA) == Some(o2 + 1));
    assert(spec_skip_ws(s, o3) == o3);
    assert(spec_parse_exact(s, o3, COMMA) == Some(o3 + 1));
    assert(spec_parse_member_u32(s, o2 + 1, encode_utf8("windowHandle"@)) == Some((n, o3)));
    assert(spec_parse_member_str(s, o3 + 1, skeyb) == Some((valb, s.len() - 1)));
    assert(spec_parse_pair(s, o2, skeyb) == Some((n, valb, s.len() - 1)));
    assert(spec_skip_ws(s, s.len() - 1) == s.len() - 1);
    assert(spec_parse_exact(s, s.len() - 1, RBRACE) == Some(s.len() as int));
    assert(spec_skip_ws(s, s.len() as int) == s.len());
    assert(spec_end_obj(s, s.len() - 1));
}

/// The four command tags, as UTF-8 bytes, have four different lengths.
pub proof fn lemma_tag_lens()
    ensures
        encode_utf8("queryActiveWindow"@).len() == 17,
        encode_utf8("relabelTaskbarGroup"@).len() == 19,
        encode_utf8("setWindowIcon"@).len() == 13,
        encode_utf8("stop"@).len() == 4,
{
    reveal_strlit("queryActiveWindow");
    reveal_strlit("relabelTaskbarGroup");
    reveal_strlit("setWindowIcon");
    reveal_strlit("stop");
    assert(is_ascii_chars("queryActiveWindow"@));
    assert(is_ascii_chars("relabelTaskbarGroup"@));
    assert(is_ascii_chars("setWindowIcon"@));
    assert(is_ascii_chars("stop"@));
    lemma_ascii_bytes("queryActiveWindow"@);
    lemma_ascii_bytes("relabelTaskbarGroup"@);
    lemma_ascii_bytes("setWindowIcon"@);
    lemma_ascii_bytes("stop"@);
}

/// Round trip: the canonical payload of any command value decodes back to
/// exactly that value, tag and fields alike.
pub proof fn lemma_command_round_trip(c: CommandView)
    ensures
        spec_decode_command(spec_encode_command(c)) == Some(c),
{
    let s = spec_encode_command(c);
    lemma_tag_lens();
    match c {
        CommandView::QueryActiveWindow => {
            lemma_one_member_obj(s, encode_utf8("type"@), encode_utf8("queryActiveWindow"@));
        },
        CommandView::Stop => {
            lemma_one_member_obj(s, encode_utf8("type"@), encode_utf8("stop"@));
            assert(encode_utf8("stop"@) != encode_utf8("queryActiveWindow"@));
        },
        CommandView::RelabelTaskbarGroup { window_handle, group_id } => {
            lemma_three_member_obj(
                s,
                encode_utf8("type"@),
                encode_utf8("relabelTaskbarGroup"@),
                window_handle,
                encode_utf8("groupId"@),
                encode_utf8(group_id),
            );
            assert(encode_utf8("relabelTaskbarGroup"@) != encode_utf8("queryActiveWindow"@));
            assert(encode_utf8("relabelTaskbarGroup"@) != encode_utf8("stop"@));
            encode_utf8_valid_utf8(group_id);
            encode_utf8_decode_utf8(group_id);
        },
        CommandView::SetWindowIcon { window_handle, icon_source_url } => {
            lemma_three_member_obj(
                s,
                encode_utf8("type"@),
                encode_utf8("setWindowIcon"@),
                window_handle,
                encode_utf8("iconSourceUrl"@),
                encode_utf8(icon_source_url),
            );
            assert(encode_utf8("setWindowIcon"@) != encode_utf8("queryActiveWindow"@));
            assert(encode_utf8("setWindowIcon"@) != encode_utf8("stop"@));
            assert(encode_utf8("setWindowIcon"@) != encode_utf8("relabelTaskbarGroup"@));
            encode_utf8_valid_utf8(icon_source_url);
            encode_utf8_decode_utf8(icon_source_url);
        },
    }
}

} // verus!
