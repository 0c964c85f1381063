//! Page matchers: the `acw_sc__v2` anti-crawler challenge, and the
//! extraction of parameters from share and download pages.

use vstd::prelude::*;

use crate::error::{parse_err, AppError};
use crate::pattern::{
    capture_group, escape, remove_all, regex_compile_error, regex_escape, regex_group,
    regex_remove_all,
};
use vstd::string::StringSliceAdditionalSpecFns;
use vstd::utf8::{encode_utf8, is_ascii_chars, is_char_boundary, is_continuation_byte};
use crate::text::{chars_of, find_exec, find_first, lemma_find_from, occurs_at, opt_view, push_char};

verus! {

broadcast use vstd::string::group_string_axioms;

// ---------------------------------------------------------------------------
// acw_sc__v2
// ---------------------------------------------------------------------------

/// The order in which `unsbox` picks input characters: output position
/// `pos` takes the input character numbered `UNSBOX_ORDER[pos]` (from 1).
pub const UNSBOX_ORDER: [usize; 40] = [
    15, 35, 29, 24, 33, 16, 1, 38, 10, 9, 19, 31, 40, 27, 22, 23, 25, 13, 6, 11, 39, 18, 20, 8, 14,
    21, 32, 26, 2, 30, 7, 4, 17, 5, 3, 28, 34, 37, 12, 36,
];

/// The key that the unboxed challenge is XOR-ed with.
pub const ACW_KEY: &'static str = "3000176000856006061501533003690027800375";

/// `UNSBOX_ORDER` as a sequence.
pub open spec fn unsbox_order() -> Seq<int> {
    seq![
        15int, 35, 29, 24, 33, 16, 1, 38, 10, 9, 19, 31, 40, 27, 22, 23, 25, 13, 6, 11, 39, 18, 20, 8,
        14, 21, 32, 26, 2, 30, 7, 4, 17, 5, 3, 28, 34, 37, 12, 36,
    ]
}

/// For each input position, the output position that receives it:
/// the inverse of `unsbox_order`.
pub open spec fn unsbox_inverse() -> Seq<int> {
    seq![
        6int, 28, 34, 31, 33, 18, 30, 23, 9, 8, 19, 38, 17, 24, 0, 5, 32, 21, 10, 22, 25, 14, 15, 3,
        16, 27, 13, 35, 2, 29, 11, 26, 4, 36, 1, 39, 37, 7, 20, 12,
    ]
}

/// Result of `unsbox`: 40 characters; position `pos` holds input character
/// `unsbox_order()[pos] - 1`, or a space when the input is shorter.
pub open spec fn unsbox_spec(s: Seq<char>) -> Seq<char> {
    Seq::new(
        40,
        |pos: int|
            {
                let k = unsbox_order()[pos] - 1;
                if k < s.len() {
                    s[k]
                } else {
                    ' '
                }
            },
    )
}

/// ASCII hex digit (`char::is_ascii_hexdigit`).
pub open spec fn is_hex_char(c: char) -> bool {
    ('0' <= c && c <= '9') || ('a' <= c && c <= 'f') || ('A' <= c && c <= 'F')
}

/// The hex digits of `s`, in order.
pub open spec fn keep_hex(s: Seq<char>) -> Seq<char>
    decreases s.len(),
{
    if s.len() == 0 {
        s
    } else if is_hex_char(s.last()) {
        keep_hex(s.drop_last()).push(s.last())
    } else {
        keep_hex(s.drop_last())
    }
}

/// The challenge argument of a page: the hex digits between `arg1='` and
/// the next `'`; `None` when either marker is missing or no digit is left.
pub open spec fn arg1_spec(html: Seq<char>) -> Option<Seq<char>> {
    match find_first(html, "arg1='"@) {
        None => None,
        Some(p) => {
            let rest = html.subrange(p + "arg1='"@.len(), html.len() as int);
            match find_first(rest, seq!['\'']) {
                None => None,
                Some(q) => {
                    let v = keep_hex(rest.subrange(0, q));
                    if v.len() == 0 {
                        None
                    } else {
                        Some(v)
                    }
                },
            }
        },
    }
}

/// Value of a hex digit byte.
pub open spec fn hex_byte_value(b: u8) -> Option<u8> {
    if 48 <= b <= 57 {
        Some((b - 48) as u8)
    } else if 97 <= b <= 102 {
        Some((b - 87) as u8)
    } else if 65 <= b <= 70 {
        Some((b - 55) as u8)
    } else {
        None
    }
}

/// `u8::from_str_radix` of the two bytes `b0 b1` in base 16, or 0 when
/// they do not parse: an optional `+` sign, then hex digits.
pub open spec fn radix16_pair(b0: u8, b1: u8) -> u8 {
    if b0 == 43 {
        match hex_byte_value(b1) {
            Some(d) => d,
            None => 0,
        }
    } else {
        match (hex_byte_value(b0), hex_byte_value(b1)) {
            (Some(x), Some(y)) => (x * 16 + y) as u8,
            _ => 0,
        }
    }
}

/// Lower-case hex digit of `d < 16`.
pub open spec fn lower_hex_char(d: u8) -> char {
    if d < 10 {
        ((d + 48) as u8) as char
    } else {
        ((d + 87) as u8) as char
    }
}

/// Number of byte pairs that `hex_xor` combines.
pub open spec fn xor_pairs(a: Seq<u8>, k: Seq<u8>) -> nat {
    (if a.len() < k.len() { a.len() } else { k.len() }) / 2
}

/// The byte that pair `j` yields.
pub open spec fn xor_pair_value(a: Seq<u8>, k: Seq<u8>, j: int) -> u8 {
    radix16_pair(a[2 * j], a[2 * j + 1]) ^ radix16_pair(k[2 * j], k[2 * j + 1])
}

/// Result of `hex_xor`: for each pair of bytes of both inputs, the XOR of
/// their base-16 values, as two lower-case hex digits.
pub open spec fn hex_xor_spec(a: Seq<u8>, k: Seq<u8>) -> Seq<char> {
    Seq::new(
        2 * xor_pairs(a, k),
        |p: int|
            {
                let x = xor_pair_value(a, k, p / 2);
                if p % 2 == 0 {
                    lower_hex_char(x >> 4)
                } else {
                    lower_hex_char(x & 15)
                }
            },
    )
}

/// Every pair that `hex_xor` slices out of `bytes` starts and ends on a
/// character boundary (otherwise slicing the string panics).
pub open spec fn pairs_on_boundaries(bytes: Seq<u8>, pairs: nat) -> bool {
    forall|j: int| 0 <= j < pairs ==> #[trigger] pair_on_boundaries(bytes, j)
}

/// Pair `j` starts and ends on a character boundary.
pub open spec fn pair_on_boundaries(bytes: Seq<u8>, j: int) -> bool {
    is_char_boundary(bytes, 2 * j) && is_char_boundary(bytes, 2 * j + 2)
}

/// The cookie value that answers the challenge in `html`.
pub open spec fn acw_sc_v2_spec(html: Seq<char>) -> Option<Seq<char>> {
    match arg1_spec(html) {
        None => None,
        Some(a) => Some(
            hex_xor_spec(
                unsbox_spec(a).map_values(|c: char| c as u8),
                ACW_KEY@.map_values(|c: char| c as u8),
            ),
        ),
    }
}

/// A lower-case hexadecimal digit.
pub open spec fn is_lower_hex(c: char) -> bool {
    ('0' <= c && c <= '9') || ('a' <= c && c <= 'f')
}

/// Every answer to the challenge is 40 lower-case hex digits: the 40
/// reordered characters combined pairwise with the 40-digit key.
pub proof fn law_acw_cookie_is_40_hex_digits(html: Seq<char>)
    ensures
        acw_sc_v2_spec(html) matches Some(c) ==> c.len() == 40 && forall|i: int|
            0 <= i < c.len() ==> is_lower_hex(#[trigger] c[i]),
{
    if let Some(a) = arg1_spec(html) {
        reveal_strlit("3000176000856006061501533003690027800375");
        let x = unsbox_spec(a).map_values(|c: char| c as u8);
        let k = ACW_KEY@.map_values(|c: char| c as u8);
        assert(x.len() == 40);
        assert(k.len() == 40);
        assert(xor_pairs(x, k) == 20);
        let c = hex_xor_spec(x, k);
        assert(c.len() == 40);
        assert forall|i: int| 0 <= i < c.len() implies is_lower_hex(#[trigger] c[i]) by {
            let v = xor_pair_value(x, k, i / 2);
            assert(forall|w: u8| #[trigger] (w >> 4u8) < 16u8) by (bit_vector);
            assert(forall|w: u8| #[trigger] (w & 15u8) < 16u8) by (bit_vector);
            assert((v >> 4u8) < 16u8);
            assert((v & 15u8) < 16u8);
            assert(forall|d: u8| d < 16 ==> is_lower_hex(#[trigger] lower_hex_char(d)));
        }
    }
}

/// Every byte is a hexadecimal digit.
pub open spec fn is_hex_text(a: Seq<u8>) -> bool {
    forall|i: int| 0 <= i < a.len() ==> #[trigger] hex_byte_value(a[i]) is Some
}

/// The digits of a hexadecimal text, written in lower case.
pub open spec fn lower_hex_digits(a: Seq<u8>) -> Seq<char> {
    a.map_values(
        |b: u8|
            match hex_byte_value(b) {
                Some(d) => lower_hex_char(d),
                None => b as char,
            },
    )
}

/// The bytes of an ASCII text.
pub open spec fn ascii_bytes(c: Seq<char>) -> Seq<u8> {
    c.map_values(|ch: char| ch as u8)
}

/// A lower-case digit reads back as the value it was written from.
proof fn lemma_lower_hex_char_value(d: u8)
    requires
        d < 16,
    ensures
        hex_byte_value(lower_hex_char(d) as u8) == Some(d),
        lower_hex_char(d) as u8 != 43,
{
    if d < 10 {
        assert(lower_hex_char(d) as u8 == d + 48);
    } else {
        assert(lower_hex_char(d) as u8 == d + 87);
    }
}

/// The value of a digit is below 16.
proof fn lemma_hex_value_small(b: u8)
    ensures
        hex_byte_value(b) matches Some(d) ==> d < 16 && b != 43,
{
}

/// `hex_xor` does not care which argument is the key.
pub proof fn law_hex_xor_symmetric(a: Seq<u8>, k: Seq<u8>)
    ensures
        hex_xor_spec(a, k) == hex_xor_spec(k, a),
{
    assert(forall|x: u8, y: u8| #[trigger] (x ^ y) == y ^ x) by (bit_vector);
    assert(xor_pairs(a, k) == xor_pairs(k, a));
    assert forall|p: int| 0 <= p < hex_xor_spec(a, k).len() implies #[trigger] hex_xor_spec(a, k)[p]
        == hex_xor_spec(k, a)[p] by {
        assert(xor_pair_value(a, k, p / 2) == xor_pair_value(k, a, p / 2));
    }
    assert(hex_xor_spec(a, k) =~= hex_xor_spec(k, a));
}

/// Applying `hex_xor` twice with the same key gives back the input, its
/// digits in lower case: for hexadecimal texts of one even length.
pub proof fn law_hex_xor_undoes_itself(a: Seq<u8>, k: Seq<u8>)
    requires
        a.len() == k.len(),
        a.len() % 2 == 0,
        is_hex_text(a),
        is_hex_text(k),
    ensures
        hex_xor_spec(a, k).len() == a.len(),
        hex_xor_spec(ascii_bytes(hex_xor_spec(a, k)), k) == lower_hex_digits(a),
{
    let c = hex_xor_spec(a, k);
    let cb = ascii_bytes(c);
    assert(c.len() == a.len());
    assert(xor_pairs(cb, k) == xor_pairs(a, k));
    let r = hex_xor_spec(cb, k);
    assert forall|p: int| 0 <= p < r.len() implies #[trigger] r[p] == lower_hex_digits(a)[p] by {
        let j = p / 2;
        assert(0 <= 2 * j && 2 * j + 1 < a.len());
        let x = xor_pair_value(a, k, j);
        let hi = x >> 4u8;
        let lo = x & 15u8;
        assert(hi < 16u8 && lo < 16u8) by (bit_vector)
            requires
                hi == x >> 4u8,
                lo == x & 15u8,
        ;
        assert(c[2 * j] == lower_hex_char(hi));
        assert(c[2 * j + 1] == lower_hex_char(lo));
        lemma_lower_hex_char_value(hi);
        lemma_lower_hex_char_value(lo);
        assert(cb[2 * j] == lower_hex_char(hi) as u8);
        assert(cb[2 * j + 1] == lower_hex_char(lo) as u8);
        assert(((hi * 16 + lo) as u8) == x) by (bit_vector)
            requires
                hi == x >> 4u8,
                lo == x & 15u8,
        ;
        assert(radix16_pair(cb[2 * j], cb[2 * j + 1]) == x);
        let kv = radix16_pair(k[2 * j], k[2 * j + 1]);
        assert(hex_byte_value(a[2 * j]) is Some);
        assert(hex_byte_value(a[2 * j + 1]) is Some);
        lemma_hex_value_small(a[2 * j]);
        lemma_hex_value_small(a[2 * j + 1]);
        let h0 = hex_byte_value(a[2 * j]).unwrap();
        let h1 = hex_byte_value(a[2 * j + 1]).unwrap();
        let av = radix16_pair(a[2 * j], a[2 * j + 1]);
        assert(av == (h0 * 16 + h1) as u8);
        assert(x == av ^ kv);
        let y = xor_pair_value(cb, k, j);
        assert(y == x ^ kv);
        assert(y == av) by (bit_vector)
            requires
                y == x ^ kv,
                x == av ^ kv,
        ;
        assert((av >> 4u8) == h0 && (av & 15u8) == h1) by (bit_vector)
            requires
                av == (h0 * 16 + h1) as u8,
                h0 < 16u8,
                h1 < 16u8,
        ;
        if p % 2 == 0 {
            assert(p == 2 * j);
            assert(r[p] == lower_hex_char(y >> 4u8));
        } else {
            assert(p == 2 * j + 1);
            assert(r[p] == lower_hex_char(y & 15u8));
        }
    }
    assert(r =~= lower_hex_digits(a));
}

/// The text `hex_xor` gives is made of lower-case hex digits, so its
/// UTF-8 bytes are its characters, one byte each.
pub proof fn lemma_hex_xor_text_bytes(a: Seq<u8>, k: Seq<u8>)
    ensures
        vstd::utf8::encode_utf8(hex_xor_spec(a, k)) == ascii_bytes(hex_xor_spec(a, k)),
{
    let c = hex_xor_spec(a, k);
    assert forall|i: int| 0 <= i < c.len() implies '\0' <= #[trigger] c[i] <= '\u{7f}' by {
        let v = xor_pair_value(a, k, i / 2);
        assert(forall|w: u8| #[trigger] (w >> 4u8) < 16u8) by (bit_vector);
        assert(forall|w: u8| #[trigger] (w & 15u8) < 16u8) by (bit_vector);
        assert((v >> 4u8) < 16u8);
        assert((v & 15u8) < 16u8);
        assert(forall|d: u8| d < 16 ==> #[trigger] lower_hex_char(d) <= '\u{7f}');
    }
    assert(vstd::utf8::is_ascii_chars(c));
    vstd::utf8::is_ascii_chars_encode_utf8(c);
    assert(vstd::utf8::encode_utf8(c) =~= ascii_bytes(c));
}

/// `hex_xor` on the texts it takes and gives: for hex texts `a` and `k` of
/// one even length, the result `c` of `hex_xor(a, k)` has their length, is
/// what `hex_xor(k, a)` gives, and `hex_xor(c, k)` gives back `a` with its
/// digits in lower case.
pub proof fn law_hex_xor_round_trip(a: &str, k: &str, c: &str)
    requires
        is_hex_text(a.spec_bytes()),
        is_hex_text(k.spec_bytes()),
        a.spec_bytes().len() == k.spec_bytes().len(),
        a.spec_bytes().len() % 2 == 0,
        c@ == hex_xor_spec(a.spec_bytes(), k.spec_bytes()),
    ensures
        c.spec_bytes().len() == a.spec_bytes().len(),
        c@ == hex_xor_spec(k.spec_bytes(), a.spec_bytes()),
        hex_xor_spec(c.spec_bytes(), k.spec_bytes()) == lower_hex_digits(a.spec_bytes()),
{
    lemma_hex_xor_text_bytes(a.spec_bytes(), k.spec_bytes());
    law_hex_xor_undoes_itself(a.spec_bytes(), k.spec_bytes());
    law_hex_xor_symmetric(a.spec_bytes(), k.spec_bytes());
    assert(c.spec_bytes() == ascii_bytes(c@));
}

/// `unsbox_inverse` undoes `unsbox_order`.
pub proof fn lemma_unsbox_tables()
    ensures
        unsbox_order().len() == 40,
        unsbox_inverse().len() == 40,
        forall|pos: int| 0 <= pos < 40 ==> 1 <= #[trigger] unsbox_order()[pos] <= 40,
        forall|pos: int|
            0 <= pos < 40 ==> unsbox_inverse()[#[trigger] unsbox_order()[pos] - 1] == pos,
        forall|i: int| 0 <= i < 40 ==> 0 <= #[trigger] unsbox_inverse()[i] < 40,
        forall|i: int| 0 <= i < 40 ==> unsbox_order()[#[trigger] unsbox_inverse()[i]] == i + 1,
{
    assert(unsbox_order().len() == 40);
    assert(unsbox_inverse().len() == 40);
    assert forall|pos: int| 0 <= pos < 40 implies 1 <= #[trigger] unsbox_order()[pos] <= 40 && unsbox_inverse()[unsbox_order()[pos] - 1] == pos by {
        assert(0 <= pos < 40);
    }
    assert forall|i: int| 0 <= i < 40 implies 0 <= #[trigger] unsbox_inverse()[i] < 40 && unsbox_order()[unsbox_inverse()[i]] == i + 1 by {
        assert(0 <= i < 40);
    }
}

/// Reorders the characters of `input` (at most the first 40 are used;
/// missing ones become spaces).
pub fn unsbox(input: &str) -> (r: String)
    ensures
        r@ == unsbox_spec(input@),
{
    let v = chars_of(input);
    let mut r = String::new();
    let mut pos: usize = 0;
    while pos < 40
        invariant
            v@ == input@,
            pos <= 40,
            r@ == unsbox_spec(input@).subrange(0, pos as int),
        decreases 40 - pos,
    {
        proof {
            lemma_unsbox_tables();
        }
        let k = UNSBOX_ORDER[pos] - 1;
        assert(k as int == unsbox_order()[pos as int] - 1);
        let c = if k < v.len() {
            v[k]
        } else {
            ' '
        };
        push_char(&mut r, c);
        assert(unsbox_spec(input@).subrange(0, pos + 1) =~= unsbox_spec(input@).subrange(
            0,
            pos as int,
        ).push(c));
        pos += 1;
    }
    r
}

/// `unsbox` of a 40-character input is a rearrangement: input character
/// `i` lands at output position `unsbox_inverse()[i]`, and no two input
/// characters share an output position.
pub proof fn law_unsbox_permutes(s: Seq<char>)
    requires
        s.len() == 40,
    ensures
        unsbox_spec(s).len() == 40,
        forall|i: int| 0 <= i < 40 ==> unsbox_spec(s)[#[trigger] unsbox_inverse()[i]] == s[i],
        forall|pos: int| 0 <= pos < 40 ==> unsbox_spec(s)[pos] == s[unsbox_order()[pos] - 1],
        forall|i: int, j: int|
            0 <= i < 40 && 0 <= j < 40 && i != j ==> unsbox_inverse()[i] != unsbox_inverse()[j],
{
    lemma_unsbox_tables();
    assert forall|i: int, j: int|
        0 <= i < 40 && 0 <= j < 40 && i != j implies unsbox_inverse()[i] != unsbox_inverse()[j] by {
        assert(unsbox_order()[unsbox_inverse()[i]] == i + 1);
        assert(unsbox_order()[unsbox_inverse()[j]] == j + 1);
    }
}

/// Value of a hex digit byte.
fn hex_byte_value_exec(b: u8) -> (r: Option<u8>)
    ensures
        r == hex_byte_value(b),
{
    if 48 <= b && b <= 57 {
        Some(b - 48)
    } else if 97 <= b && b <= 102 {
        Some(b - 87)
    } else if 65 <= b && b <= 70 {
        Some(b - 55)
    } else {
        None
    }
}

/// `u8::from_str_radix(pair, 16).unwrap_or(0)` for a two-byte slice.
fn radix16_pair_exec(b0: u8, b1: u8) -> (r: u8)
    ensures
        r == radix16_pair(b0, b1),
{
    if b0 == 43 {
        match hex_byte_value_exec(b1) {
            Some(d) => d,
            None => 0,
        }
    } else {
        match (hex_byte_value_exec(b0), hex_byte_value_exec(b1)) {
            (Some(x), Some(y)) => x * 16 + y,
            _ => 0,
        }
    }
}

/// Lower-case hex digit.
fn lower_hex_char_exec(d: u8) -> (c: char)
    requires
        d < 16,
    ensures
        c == lower_hex_char(d),
{
    if d < 10 {
        (d + 48) as char
    } else {
        (d + 87) as char
    }
}

/// XOR of two hex strings, pair of digits by pair of digits, over the
/// shorter length; digits that do not parse count as 0.
pub fn hex_xor(input: &str, key: &str) -> (r: String)
    requires
        pairs_on_boundaries(input.spec_bytes(), xor_pairs(input.spec_bytes(), key.spec_bytes())),
        pairs_on_boundaries(key.spec_bytes(), xor_pairs(input.spec_bytes(), key.spec_bytes())),
    ensures
        r@ == hex_xor_spec(input.spec_bytes(), key.spec_bytes()),
{
    let a = input.as_bytes();
    let k = key.as_bytes();
    let n = if a.len() < k.len() {
        a.len()
    } else {
        k.len()
    };
    let mut r = String::new();
    let mut i: usize = 0;
    while i + 1 < n
        invariant
            a@ == input.spec_bytes(),
            k@ == key.spec_bytes(),
            n == (if a@.len() < k@.len() { a@.len() } else { k@.len() }),
            i % 2 == 0,
            i <= n,
            r@ == hex_xor_spec(a@, k@).subrange(0, i as int),
        decreases n - i,
    {
        let x = radix16_pair_exec(a[i], a[i + 1]) ^ radix16_pair_exec(k[i], k[i + 1]);
        assert(x == xor_pair_value(a@, k@, (i / 2) as int));
        let hi = x >> 4;
        let lo = x & 15;
        assert(hi < 16) by (bit_vector)
            requires
                hi == x >> 4,
        ;
        assert(lo < 16) by (bit_vector)
            requires
                lo == x & 15,
        ;
        let ghost before = r@;
        push_char(&mut r, lower_hex_char_exec(hi));
        push_char(&mut r, lower_hex_char_exec(lo));
        assert(hex_xor_spec(a@, k@).subrange(0, i + 2) =~= before.push(lower_hex_char(hi)).push(
            lower_hex_char(lo),
        ));
        i += 2;
    }
    assert(i == 2 * xor_pairs(a@, k@));
    assert(hex_xor_spec(a@, k@).subrange(0, i as int) =~= hex_xor_spec(a@, k@));
    r
}

/// In an ASCII string every index up to the end is a character boundary.
pub proof fn lemma_ascii_boundaries(s: Seq<char>)
    requires
        is_ascii_chars(s),
    ensures
        encode_utf8(s) == s.map_values(|c: char| c as u8),
        forall|i: int| 0 <= i <= s.len() ==> is_char_boundary(encode_utf8(s), i),
{
    broadcast use vstd::utf8::is_ascii_chars_encode_utf8, vstd::utf8::encode_utf8_valid_utf8,
        vstd::utf8::is_char_boundary_iff_not_is_continuation_byte,
        vstd::utf8::is_char_boundary_start_end_of_seq;

    let b = encode_utf8(s);
    assert(b =~= s.map_values(|c: char| c as u8));
    assert forall|i: int| 0 <= i <= s.len() implies is_char_boundary(b, i) by {
        if i < s.len() {
            assert(b[i] == s[i] as u8);
            assert(!is_continuation_byte(b[i]));
        }
    }
}

/// The challenge argument of a page, if any.
pub fn regex_arg1(html: &str) -> (r: Option<String>)
    ensures
        opt_view(r) == arg1_spec(html@),
{
    let h = chars_of(html);
    let marker = chars_of("arg1='");
    let p = match find_exec(&h, &marker, 0) {
        Some(p) => p,
        None => return None,
    };
    proof {
        lemma_find_from(h@, marker@, 0);
        assert(occurs_at(h@, marker@, p as int));
        assert(p + marker@.len() <= h@.len());
    }
    assert(marker@.len() == marker.len());
    assert(p + marker.len() <= h.len());
    let start = p + marker.len();
    let ghost rest = h@.subrange(start as int, h@.len() as int);
    let quote = vec!['\''];
    assert(quote@ =~= seq!['\'']);
    let q = match find_exec(&h, &quote, start) {
        Some(q) => q,
        None => {
            proof {
                lemma_find_from(h@, quote@, start as int);
                lemma_find_from(rest, quote@, 0);
                if let Some(k) = find_first(rest, quote@) {
                    assert(rest.subrange(k, k + 1) =~= h@.subrange(start + k, start + k + 1));
                    assert(occurs_at(h@, quote@, start + k));
                }
            }
            return None;
        },
    };
    proof {
        lemma_find_from(h@, quote@, start as int);
        lemma_find_from(rest, quote@, 0);
        assert(occurs_at(rest, quote@, q - start)) by {
            assert(rest.subrange(q - start, q - start + 1) =~= h@.subrange(q as int, q + 1));
        }
        if let Some(k) = find_first(rest, quote@) {
            if k < q - start {
                assert(rest.subrange(k, k + 1) =~= h@.subrange(start + k, start + k + 1));
                assert(occurs_at(h@, quote@, start + k));
            }
        }
        assert(find_first(rest, quote@) == Some(q - start));
    }
    let ghost body = h@.subrange(start as int, q as int);
    assert(rest.subrange(0, q - start) =~= body);
    let mut out = String::new();
    let mut i = start;
    while i < q
        invariant
            start <= i <= q <= h.len(),
            out@ == keep_hex(h@.subrange(start as int, i as int)),
        decreases q - i,
    {
        let c = h[i];
        assert(h@.subrange(start as int, i + 1).drop_last() =~= h@.subrange(start as int, i as int));
        if ('0' <= c && c <= '9') || ('a' <= c && c <= 'f') || ('A' <= c && c <= 'F') {
            push_char(&mut out, c);
        }
        i += 1;
    }
    if out.as_str().unicode_len() == 0 {
        None
    } else {
        Some(out)
    }
}

/// Computes the `acw_sc__v2` cookie that answers the anti-crawler
/// challenge of a page; `None` when the page carries no challenge argument.
pub fn calc_acw_sc_v2(html: &str) -> (r: Option<String>)
    ensures
        opt_view(r) == acw_sc_v2_spec(html@),
{
    let arg1 = match regex_arg1(html) {
        Some(a) => a,
        None => return None,
    };
    let boxed = unsbox(arg1.as_str());
    proof {
        reveal_strlit("3000176000856006061501533003690027800375");
        let a = arg1@;
        assert(is_ascii_chars(boxed@)) by {
            assert forall|p: int| 0 <= p < boxed@.len() implies '\0' <= #[trigger] boxed@[p] <= '\u{7f}' by {
                lemma_unsbox_tables();
                let k = unsbox_order()[p] - 1;
                if k < a.len() {
                    lemma_keep_hex_only_hex(arg1_source(html@));
                    assert(is_hex_char(a[k]));
                }
            }
        }
        assert(is_ascii_chars(ACW_KEY@));
        lemma_ascii_boundaries(boxed@);
        lemma_ascii_boundaries(ACW_KEY@);
    }
    Some(hex_xor(boxed.as_str(), ACW_KEY))
}

/// The text between the markers that `arg1_spec` filters.
pub open spec fn arg1_source(html: Seq<char>) -> Seq<char> {
    match find_first(html, "arg1='"@) {
        None => Seq::empty(),
        Some(p) => {
            let rest = html.subrange(p + "arg1='"@.len(), html.len() as int);
            match find_first(rest, seq!['\'']) {
                None => Seq::empty(),
                Some(q) => rest.subrange(0, q),
            }
        },
    }
}

/// `keep_hex` keeps only hex digits.
pub proof fn lemma_keep_hex_only_hex(s: Seq<char>)
    ensures
        forall|i: int| 0 <= i < keep_hex(s).len() ==> is_hex_char(#[trigger] keep_hex(s)[i]),
        keep_hex(s).len() <= s.len(),
    decreases s.len(),
{
    if s.len() > 0 {
        lemma_keep_hex_only_hex(s.drop_last());
        let t = keep_hex(s.drop_last());
        if is_hex_char(s.last()) {
            assert forall|i: int| 0 <= i < keep_hex(s).len() implies is_hex_char(#[trigger] keep_hex(s)[i]) by {
                if i < t.len() {
                    assert(keep_hex(s)[i] == t[i]);
                }
            }
        }
    }
}


// ---------------------------------------------------------------------------
// Share-page parameters
// ---------------------------------------------------------------------------

/// The outcome of a single-group regex search: the group's text, the
/// compile error's text, or `missing` when nothing matched.
pub open spec fn capture_or(pat: Seq<char>, hay: Seq<char>, group: nat, missing: Seq<char>) -> Result<
    Seq<char>,
    Seq<char>,
> {
    match regex_compile_error(pat) {
        Some(e) => Err(e),
        None => match regex_group(pat, hay, group) {
            Some(g) => Ok(g),
            None => Err(missing),
        },
    }
}

/// `r` is the executable form of `spec`, an error being a `Parse` error
/// with the given message.
pub open spec fn parse_outcome(r: Result<String, AppError>, spec: Result<Seq<char>, Seq<char>>) -> bool {
    match r {
        Ok(s) => spec == Ok::<Seq<char>, Seq<char>>(s@),
        Err(e) => e matches AppError::Parse(m) && spec == Err::<Seq<char>, Seq<char>>(m@),
    }
}

/// Searches `hay` for `pat` and returns group `group`; a compile error or
/// a missing match becomes a `Parse` error.
pub fn capture_or_parse_err(pat: &str, hay: &str, group: usize, missing: &str) -> (r: Result<String, AppError>)
    ensures
        parse_outcome(r, capture_or(pat@, hay@, group as nat, missing@)),
{
    match capture_group(pat, hay, group) {
        Err(e) => Err(AppError::Parse(e)),
        Ok(None) => Err(parse_err(missing)),
        Ok(Some(g)) => Ok(g),
    }
}

/// Iframe of a share page.
pub const IFRAME_PATTERN: &'static str = r#"<iframe[^>]*src=["']([^"']+)["']"#;

/// Extracts the `src` of the first iframe of a share page.
pub fn match_iframe(html: &str) -> (r: Result<String, AppError>)
    ensures
        parse_outcome(r, capture_or(IFRAME_PATTERN@, html@, 1, "未找到 iframe"@)),
{
    capture_or_parse_err(IFRAME_PATTERN, html, 1, "未找到 iframe")
}

/// Block comments of a download page.
pub const BLOCK_COMMENT_PATTERN: &'static str = r"/\*[\s\S]*?\*/";

/// A quoted `sign` value.
pub const QUOTED_SIGN_PATTERN: &'static str = r"'sign'\s*:\s*'([^']+)'";

/// A `sign` given by a variable name.
pub const SIGN_VAR_PATTERN: &'static str = r"'sign'\s*:\s*([0-9a-zA-Z_]+)";

/// The pattern that finds the value of the variable `name`.
pub open spec fn var_value_pattern(name: Seq<char>) -> Seq<char> {
    "var\\s+"@ + regex_escape(name) + "\\s*=\\s*'([^']+)'"@
}

/// Result of `match_sign`, as a value or the message of a `Parse` error.
pub open spec fn match_sign_spec(html: Seq<char>) -> Result<Seq<char>, Seq<char>> {
    match regex_compile_error(BLOCK_COMMENT_PATTERN@) {
        Some(e) => Err(e),
        None => {
            let clean = regex_remove_all(BLOCK_COMMENT_PATTERN@, html);
            match regex_compile_error(QUOTED_SIGN_PATTERN@) {
                Some(e) => Err(e),
                None => match regex_group(QUOTED_SIGN_PATTERN@, clean, 1) {
                    Some(v) => Ok(v),
                    None => match capture_or(SIGN_VAR_PATTERN@, clean, 1, "未找到 sign"@) {
                        Err(e) => Err(e),
                        Ok(cap) => if (encode_utf8(cap).len() as usize) < 20 {
                            let vp = var_value_pattern(cap);
                            match regex_compile_error(vp) {
                                Some(e) => Err(e),
                                None => match regex_group(vp, clean, 1) {
                                    Some(v) => Ok(v),
                                    None => Ok(cap),
                                },
                            }
                        } else {
                            Ok(cap)
                        },
                    },
                },
            }
        },
    }
}

/// Extracts the `sign` parameter of a download page's ajax call, after
/// dropping block comments: a quoted value, or else the value of the
/// variable it names (names shorter than 20 bytes are looked up; the name
/// itself is returned when no such variable is found).
pub fn match_sign(html: &str) -> (r: Result<String, AppError>)
    ensures
        parse_outcome(r, match_sign_spec(html@)),
{
    let clean = match remove_all(BLOCK_COMMENT_PATTERN, html) {
        Ok(c) => c,
        Err(e) => return Err(AppError::Parse(e)),
    };
    match capture_group(QUOTED_SIGN_PATTERN, clean.as_str(), 1) {
        Err(e) => return Err(AppError::Parse(e)),
        Ok(Some(v)) => return Ok(v),
        Ok(None) => {},
    }
    let cap = capture_or_parse_err(SIGN_VAR_PATTERN, clean.as_str(), 1, "未找到 sign")?;
    if cap.as_str().len() < 20 {
        let mut vp = crate::text::owned("var\\s+");
        let escaped = escape(cap.as_str());
        crate::text::push_str(&mut vp, escaped.as_str());
        crate::text::push_str(&mut vp, "\\s*=\\s*'([^']+)'");
        assert(vp@ == var_value_pattern(cap@));
        match capture_group(vp.as_str(), clean.as_str(), 1) {
            Err(e) => return Err(AppError::Parse(e)),
            Ok(Some(v)) => return Ok(v),
            Ok(None) => {},
        }
    }
    Ok(cap)
}

/// Parameters of a shared folder's listing call (`filemoreajax.php`).
#[derive(Debug, Clone, PartialEq, Eq)]
pub struct FolderAjaxParams {
    pub lx: String,
    pub t: String,
    pub k: String,
    pub fid: String,
}

/// Folder listing: `lx`.
pub const LX_PATTERN: &'static str = r"'lx'\s*:\s*'?(\d)'?";

/// Folder listing: timestamp `t` (a six-character variable holding ten digits).
pub const T_PATTERN: &'static str = r"var\s+[0-9a-z_]{6}\s*=\s*'(\d{10})'";

/// Folder listing: key `k` (a six-character variable holding at least
/// fifteen lower-case letters or digits).
pub const K_PATTERN: &'static str = r"var\s+[0-9a-z_]{6}\s*=\s*'([0-9a-z]{15,})'";

/// Folder listing: folder id `fid`.
pub const FID_PATTERN: &'static str = r"'fid'\s*:\s*'?(\d+)'?";

/// Result of `match_one`.
pub open spec fn match_one_spec(html: Seq<char>, pat: Seq<char>) -> Result<Seq<char>, Seq<char>> {
    capture_or(pat, html, 1, "参数匹配失败"@)
}

/// Group 1 of `pat` in `html`; a missing match is a `Parse` error.
pub fn match_one(html: &str, pat: &str) -> (r: Result<String, AppError>)
    ensures
        parse_outcome(r, match_one_spec(html@, pat@)),
{
    capture_or_parse_err(pat, html, 1, "参数匹配失败")
}

/// The four listing parameters of a shared-folder page; the first that is
/// missing is reported.
pub fn match_folder_ajax(html: &str) -> (r: Result<FolderAjaxParams, AppError>)
    ensures
        match r {
            Ok(p) => {
                &&& match_one_spec(html@, LX_PATTERN@) == Ok::<Seq<char>, Seq<char>>(p.lx@)
                &&& match_one_spec(html@, T_PATTERN@) == Ok::<Seq<char>, Seq<char>>(p.t@)
                &&& match_one_spec(html@, K_PATTERN@) == Ok::<Seq<char>, Seq<char>>(p.k@)
                &&& match_one_spec(html@, FID_PATTERN@) == Ok::<Seq<char>, Seq<char>>(p.fid@)
            },
            Err(e) => e matches AppError::Parse(m) && {
                ||| match_one_spec(html@, LX_PATTERN@) == Err::<Seq<char>, Seq<char>>(m@)
                ||| (match_one_spec(html@, LX_PATTERN@) is Ok && match_one_spec(html@, T_PATTERN@)
                    == Err::<Seq<char>, Seq<char>>(m@))
                ||| (match_one_spec(html@, LX_PATTERN@) is Ok && match_one_spec(html@, T_PATTERN@) is Ok
                    && match_one_spec(html@, K_PATTERN@) == Err::<Seq<char>, Seq<char>>(m@))
                ||| (match_one_spec(html@, LX_PATTERN@) is Ok && match_one_spec(html@, T_PATTERN@) is Ok
                    && match_one_spec(html@, K_PATTERN@) is Ok && match_one_spec(html@, FID_PATTERN@)
                    == Err::<Seq<char>, Seq<char>>(m@))
            },
        },
{
    let lx = match_one(html, LX_PATTERN)?;
    let t = match_one(html, T_PATTERN)?;
    let k = match_one(html, K_PATTERN)?;
    let fid = match_one(html, FID_PATTERN)?;
    Ok(FolderAjaxParams { lx, t, k, fid })
}

/// HTML comments and `//` line comments.
pub const NOTES_PATTERN: &'static str = r"<!--.+?-->|\s+//\s*.+";

/// Removes HTML comments and `//` line comments from a page, so that later
/// searches do not match commented-out code. (Should the pattern not
/// compile, the page is returned as it is.)
pub fn remove_notes(html: &str) -> (r: String)
    ensures
        regex_compile_error(NOTES_PATTERN@) is None ==> r@ == regex_remove_all(NOTES_PATTERN@, html@),
        regex_compile_error(NOTES_PATTERN@) is Some ==> r@ == html@,
{
    match remove_all(NOTES_PATTERN, html) {
        Ok(s) => s,
        Err(_) => crate::text::owned(html),
    }
}

} // verus!
