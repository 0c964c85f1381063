//! Character-level string helpers with exact specifications.
//!
//! Text is handled as sequences of `char`s; each executable helper is tied
//! to a spec function that states the result directly.

use vstd::prelude::*;

verus! {

// ---------------------------------------------------------------------------
// Specifications
// ---------------------------------------------------------------------------

/// `n` occurs in `h` starting at position `i`.
pub open spec fn occurs_at(h: Seq<char>, n: Seq<char>, i: int) -> bool {
    0 <= i && i + n.len() <= h.len() && h.subrange(i, i + n.len()) == n
}

/// First position at or after `i` where `n` occurs in `h` (`str::find`).
pub open spec fn find_from(h: Seq<char>, n: Seq<char>, i: int) -> Option<int>
    decreases h.len() + 1 - i,
{
    if i < 0 || i + n.len() > h.len() {
        None
    } else if occurs_at(h, n, i) {
        Some(i)
    } else {
        find_from(h, n, i + 1)
    }
}

/// First position where `n` occurs in `h`.
pub open spec fn find_first(h: Seq<char>, n: Seq<char>) -> Option<int> {
    find_from(h, n, 0)
}

/// `h` contains `n` (`str::contains`).
pub open spec fn contains_seq(h: Seq<char>, n: Seq<char>) -> bool {
    find_first(h, n) is Some
}

/// `h` starts with `p`.
pub open spec fn starts_with_seq(h: Seq<char>, p: Seq<char>) -> bool {
    p.len() <= h.len() && h.subrange(0, p.len() as int) == p
}

/// `h` ends with `p`.
pub open spec fn ends_with_seq(h: Seq<char>, p: Seq<char>) -> bool {
    p.len() <= h.len() && h.subrange(h.len() - p.len(), h.len() as int) == p
}

/// Unicode `White_Space`, as `char::is_whitespace` defines it.
pub open spec fn is_ws(c: char) -> bool {
    c == '\t' || c == '\n' || c == '\x0B' || c == '\x0C' || c == '\r' || c == ' '
        || c == '\u{85}' || c == '\u{A0}' || c == '\u{1680}' || ('\u{2000}' <= c
        && c <= '\u{200A}') || c == '\u{2028}' || c == '\u{2029}' || c == '\u{202F}'
        || c == '\u{205F}' || c == '\u{3000}'
}

/// `s` with leading whitespace removed (`str::trim_start`).
pub open spec fn trim_start_seq(s: Seq<char>) -> Seq<char>
    decreases s.len(),
{
    if s.len() > 0 && is_ws(s[0]) {
        trim_start_seq(s.drop_first())
    } else {
        s
    }
}

/// `s` with trailing whitespace removed (`str::trim_end`).
pub open spec fn trim_end_seq(s: Seq<char>) -> Seq<char>
    decreases s.len(),
{
    if s.len() > 0 && is_ws(s.last()) {
        trim_end_seq(s.drop_last())
    } else {
        s
    }
}

/// `s` with whitespace removed at both ends (`str::trim`).
pub open spec fn trim_seq(s: Seq<char>) -> Seq<char> {
    trim_end_seq(trim_start_seq(s))
}

/// Decimal digit character of `d < 10`.
pub open spec fn digit_char(d: nat) -> char {
    if d == 0 { '0' }
    else if d == 1 { '1' }
    else if d == 2 { '2' }
    else if d == 3 { '3' }
    else if d == 4 { '4' }
    else if d == 5 { '5' }
    else if d == 6 { '6' }
    else if d == 7 { '7' }
    else if d == 8 { '8' }
    else { '9' }
}

/// Decimal representation of `n`, without leading zeros.
pub open spec fn decimal(n: nat) -> Seq<char>
    decreases n,
{
    if n < 10 {
        seq![digit_char(n)]
    } else {
        decimal(n / 10).push(digit_char(n % 10))
    }
}

/// ASCII digit test.
pub open spec fn is_digit(c: char) -> bool {
    '0' <= c && c <= '9'
}

/// Value of an ASCII digit.
pub open spec fn digit_value(c: char) -> nat {
    (c as u32 - '0' as u32) as nat
}

/// Value of a non-empty all-digit sequence.
pub open spec fn digits_value(s: Seq<char>) -> nat
    decreases s.len(),
{
    if s.len() == 0 {
        0
    } else {
        digits_value(s.drop_last()) * 10 + digit_value(s.last())
    }
}

/// Every character of `s` is an ASCII digit.
pub open spec fn all_digits(s: Seq<char>) -> bool {
    forall|i: int| 0 <= i < s.len() ==> is_digit(#[trigger] s[i])
}

/// The digit string that `str::parse` reads after an optional `+` sign.
pub open spec fn unsigned_body(s: Seq<char>) -> Seq<char> {
    if s.len() > 0 && s[0] == '+' {
        s.drop_first()
    } else {
        s
    }
}

/// `str::parse::<u64>`: an optional `+`, then at least one ASCII digit,
/// and a value that fits.
pub open spec fn parse_u64_spec(s: Seq<char>) -> Option<u64> {
    let b = unsigned_body(s);
    if b.len() > 0 && all_digits(b) && digits_value(b) <= u64::MAX {
        Some(digits_value(b) as u64)
    } else {
        None
    }
}

/// Sequence of `n` copies of `c`.
pub open spec fn repeat_char(c: char, n: nat) -> Seq<char> {
    Seq::new(n, |_i: int| c)
}

/// `s` left-padded with `'0'` to at least `width` characters.
pub open spec fn pad_zeros(s: Seq<char>, width: nat) -> Seq<char> {
    if s.len() < width {
        repeat_char('0', (width - s.len()) as nat) + s
    } else {
        s
    }
}

/// The pieces of `h` between non-overlapping occurrences of `sep`,
/// found left to right (`str::split`).
pub open spec fn split_seq(h: Seq<char>, sep: Seq<char>) -> Seq<Seq<char>>
    decreases h.len(),
{
    if sep.len() == 0 {
        seq![h]
    } else {
        proof {
            lemma_find_from(h, sep, 0);
        }
        match find_first(h, sep) {
            None => seq![h],
            Some(i) => seq![h.subrange(0, i)] + split_seq(
                h.subrange(i + sep.len(), h.len() as int),
                sep,
            ),
        }
    }
}

/// The part of `h` before the first occurrence of `sep`, or all of `h`.
pub open spec fn before_first(h: Seq<char>, sep: Seq<char>) -> Seq<char> {
    match find_first(h, sep) {
        Some(i) => h.subrange(0, i),
        None => h,
    }
}

/// `h` with every non-overlapping occurrence of `from` (left to right)
/// replaced by `to` (`str::replace`), for a non-empty `from`.
pub open spec fn replace_seq(h: Seq<char>, from: Seq<char>, to: Seq<char>) -> Seq<char>
    decreases h.len(),
{
    if from.len() == 0 {
        h
    } else {
        proof {
            lemma_find_from(h, from, 0);
        }
        match find_first(h, from) {
            None => h,
            Some(i) => h.subrange(0, i) + to + replace_seq(
                h.subrange(i + from.len(), h.len() as int),
                from,
                to,
            ),
        }
    }
}

/// Last position of `c` in `s` (`str::rfind` with a `char`).
pub open spec fn rfind_char(s: Seq<char>, c: char) -> Option<int>
    decreases s.len(),
{
    if s.len() == 0 {
        None
    } else if s.last() == c {
        Some(s.len() - 1)
    } else {
        rfind_char(s.drop_last(), c)
    }
}

/// The view of an optional string.
pub open spec fn opt_view(o: Option<String>) -> Option<Seq<char>> {
    match o {
        Some(s) => Some(s@),
        None => None,
    }
}

// ---------------------------------------------------------------------------
// Lemmas
// ---------------------------------------------------------------------------

/// `find_from` finds an actual occurrence, and none before it.
pub proof fn lemma_find_from(h: Seq<char>, n: Seq<char>, i: int)
    requires
        0 <= i,
    ensures
        find_from(h, n, i) matches Some(k) ==> i <= k && occurs_at(h, n, k) && forall|j: int|
            i <= j < k ==> !occurs_at(h, n, j),
        find_from(h, n, i) is None ==> forall|j: int| i <= j ==> !occurs_at(h, n, j),
    decreases h.len() + 1 - i,
{
    if i + n.len() > h.len() {
    } else if occurs_at(h, n, i) {
    } else {
        lemma_find_from(h, n, i + 1);
        assert forall|j: int| i <= j && !(i + 1 <= j) implies !occurs_at(h, n, j) by {}
    }
}

/// Trimming only removes characters.
pub proof fn lemma_trim_start_len(s: Seq<char>)
    ensures
        trim_start_seq(s).len() <= s.len(),
        trim_start_seq(s) == s.subrange(s.len() - trim_start_seq(s).len(), s.len() as int),
    decreases s.len(),
{
    if s.len() > 0 && is_ws(s[0]) {
        lemma_trim_start_len(s.drop_first());
        assert(s.drop_first().subrange(
            s.drop_first().len() - trim_start_seq(s.drop_first()).len(),
            s.drop_first().len() as int,
        ) =~= s.subrange(s.len() - trim_start_seq(s).len(), s.len() as int));
    } else {
        assert(s.subrange(0, s.len() as int) =~= s);
    }
}

/// Digit characters round-trip through their values.
pub proof fn lemma_digit_char(d: nat)
    requires
        d < 10,
    ensures
        is_digit(digit_char(d)),
        digit_value(digit_char(d)) == d,
{
}

/// The decimal representation of a number is non-empty and all digits.
pub proof fn lemma_decimal_digits(n: nat)
    ensures
        decimal(n).len() >= 1,
        all_digits(decimal(n)),
        digits_value(decimal(n)) == n,
        decimal(n)[0] != '0' || n == 0,
    decreases n,
{
    lemma_digit_char(n % 10);
    if n < 10 {
        let s = decimal(n);
        assert(s == seq![digit_char(n)]);
        assert(s.drop_last() =~= Seq::<char>::empty());
        assert(digits_value(s.drop_last()) == 0);
        assert(s.last() == digit_char(n));
        assert(digits_value(s) == digits_value(s.drop_last()) * 10 + digit_value(s.last()));
    } else {
        lemma_decimal_digits(n / 10);
        let d = decimal(n / 10);
        assert(decimal(n).drop_last() =~= d);
        assert(decimal(n).last() == digit_char(n % 10));
        assert(n == (n / 10) * 10 + n % 10);
        assert(digits_value(decimal(n)) == digits_value(d) * 10 + digit_value(digit_char(n % 10)));
        assert forall|i: int| 0 <= i < decimal(n).len() implies is_digit(#[trigger] decimal(n)[i]) by {
            if i < d.len() {
                assert(decimal(n)[i] == d[i]);
            }
        }
    }
}

// ---------------------------------------------------------------------------
// Executable helpers
// ---------------------------------------------------------------------------

/// Appends one character to a string (`String::push`).
#[verifier::external_body]
pub(crate) fn push_char(s: &mut String, c: char)
    ensures
        final(s)@ == old(s)@.push(c),
{
    s.push(c);
}

/// The characters of a string slice, in order.
pub fn chars_of(s: &str) -> (r: Vec<char>)
    ensures
        r@ == s@,
{
    let mut r: Vec<char> = Vec::new();
    for c in it: s.chars()
        invariant
            r@ == it.seq().take(it.index() as int),
    {
        r.push(c);
    }
    r
}

/// A string made of the characters `v[from..to]`.
pub fn string_of_range(v: &Vec<char>, from: usize, to: usize) -> (r: String)
    requires
        from <= to <= v.len(),
    ensures
        r@ == v@.subrange(from as int, to as int),
{
    let mut r = String::new();
    let mut i = from;
    while i < to
        invariant
            from <= i <= to <= v.len(),
            r@ == v@.subrange(from as int, i as int),
        decreases to - i,
    {
        push_char(&mut r, v[i]);
        assert(v@.subrange(from as int, i + 1) =~= v@.subrange(from as int, i as int).push(v@[i as int]));
        i += 1;
    }
    r
}

/// A string made of all the characters of `v`.
pub fn string_of(v: &Vec<char>) -> (r: String)
    ensures
        r@ == v@,
{
    let r = string_of_range(v, 0, v.len());
    assert(v@.subrange(0, v@.len() as int) =~= v@);
    r
}

/// Appends the characters of `t` to `s`.
pub fn push_seq(s: &mut String, t: &Vec<char>)
    ensures
        final(s)@ == old(s)@ + t@,
{
    let mut i: usize = 0;
    while i < t.len()
        invariant
            i <= t.len(),
            s@ == old(s)@ + t@.subrange(0, i as int),
        decreases t.len() - i,
    {
        push_char(s, t[i]);
        assert(t@.subrange(0, i + 1) =~= t@.subrange(0, i as int).push(t@[i as int]));
        i += 1;
    }
    assert(t@.subrange(0, t@.len() as int) =~= t@);
}

/// Appends the characters of a string slice to `s`.
pub fn push_str(s: &mut String, t: &str)
    ensures
        final(s)@ == old(s)@ + t@,
{
    let v = chars_of(t);
    push_seq(s, &v);
}

/// Whether two string slices hold the same characters.
pub fn str_eq(a: &str, b: &str) -> (r: bool)
    ensures
        r == (a@ == b@),
{
    owned(a) == owned(b)
}

/// An owned copy of a string slice.
pub fn owned(t: &str) -> (r: String)
    ensures
        r@ == t@,
{
    let mut r = String::new();
    push_str(&mut r, t);
    r
}

/// The concatenation of two string slices.
pub fn concat2(a: &str, b: &str) -> (r: String)
    ensures
        r@ == a@ + b@,
{
    let mut r = String::new();
    push_str(&mut r, a);
    push_str(&mut r, b);
    r
}

/// Whether `n` occurs in `h` at position `i`.
pub fn occurs_at_exec(h: &Vec<char>, n: &Vec<char>, i: usize) -> (r: bool)
    ensures
        r == occurs_at(h@, n@, i as int),
{
    if i > h.len() || n.len() > h.len() - i {
        return false;
    }
    let mut k: usize = 0;
    while k < n.len()
        invariant
            i + n.len() <= h.len(),
            k <= n.len(),
            forall|j: int| 0 <= j < k ==> h@[i + j] == n@[j],
        decreases n.len() - k,
    {
        if h[i + k] != n[k] {
            assert(h@.subrange(i as int, i + n.len())[k as int] != n@[k as int]);
            return false;
        }
        k += 1;
    }
    assert(h@.subrange(i as int, i + n.len()) =~= n@);
    true
}

/// First position at or after `from` where `n` occurs in `h`.
pub fn find_exec(h: &Vec<char>, n: &Vec<char>, from: usize) -> (r: Option<usize>)
    ensures
        match r {
            Some(k) => find_from(h@, n@, from as int) == Some(k as int),
            None => find_from(h@, n@, from as int) is None,
        },
{
    let mut i = from;
    while i <= h.len() && n.len() <= h.len() - i
        invariant
            from <= i,
            find_from(h@, n@, from as int) == find_from(h@, n@, i as int),
        decreases h.len() + 1 - i,
    {
        if occurs_at_exec(h, n, i) {
            return Some(i);
        }
        if i == h.len() {
            assert(h@.subrange(i as int, i as int) =~= n@);
        }
        i += 1;
    }
    None
}

/// Whether `h` contains `n`.
pub fn contains_exec(h: &Vec<char>, n: &str) -> (r: bool)
    ensures
        r == contains_seq(h@, n@),
{
    let nv = chars_of(n);
    find_exec(h, &nv, 0).is_some()
}

/// Whether the string slice `h` contains `n`.
pub fn str_contains(h: &str, n: &str) -> (r: bool)
    ensures
        r == contains_seq(h@, n@),
{
    let hv = chars_of(h);
    contains_exec(&hv, n)
}

/// Whether `h` starts with `p`.
pub fn starts_with_exec(h: &Vec<char>, p: &str) -> (r: bool)
    ensures
        r == starts_with_seq(h@, p@),
{
    let pv = chars_of(p);
    let r = occurs_at_exec(h, &pv, 0);
    r
}

/// Whether `h` ends with `p`.
pub fn ends_with_exec(h: &Vec<char>, p: &str) -> (r: bool)
    ensures
        r == ends_with_seq(h@, p@),
{
    let pv = chars_of(p);
    if pv.len() > h.len() {
        return false;
    }
    occurs_at_exec(h, &pv, h.len() - pv.len())
}

/// `char::is_whitespace`.
pub fn is_ws_exec(c: char) -> (r: bool)
    ensures
        r == is_ws(c),
{
    c == '\t' || c == '\n' || c == '\x0B' || c == '\x0C' || c == '\r' || c == ' '
        || c == '\u{85}' || c == '\u{A0}' || c == '\u{1680}' || ('\u{2000}' <= c
        && c <= '\u{200A}') || c == '\u{2028}' || c == '\u{2029}' || c == '\u{202F}'
        || c == '\u{205F}' || c == '\u{3000}'
}

/// Bounds `[a, b)` of `v@.subrange(from, to)` after trimming whitespace.
pub fn trim_bounds(v: &Vec<char>, from: usize, to: usize) -> (r: (usize, usize))
    requires
        from <= to <= v.len(),
    ensures
        from <= r.0 <= r.1 <= to,
        v@.subrange(r.0 as int, r.1 as int) == trim_seq(v@.subrange(from as int, to as int)),
{
    let mut a = from;
    while a < to && is_ws_exec(v[a])
        invariant
            from <= a <= to <= v.len(),
            trim_start_seq(v@.subrange(from as int, to as int)) == trim_start_seq(
                v@.subrange(a as int, to as int),
            ),
        decreases to - a,
    {
        assert(v@.subrange(a as int, to as int).drop_first() =~= v@.subrange(a + 1, to as int));
        a += 1;
    }
    assert(trim_start_seq(v@.subrange(a as int, to as int)) == v@.subrange(a as int, to as int));
    let mut b = to;
    while b > a && is_ws_exec(v[b - 1])
        invariant
            from <= a <= b <= to <= v.len(),
            trim_end_seq(v@.subrange(a as int, to as int)) == trim_end_seq(
                v@.subrange(a as int, b as int),
            ),
        decreases b - a,
    {
        assert(v@.subrange(a as int, b as int).drop_last() =~= v@.subrange(a as int, b - 1));
        b -= 1;
    }
    (a, b)
}

/// `str::trim`, as a new string.
pub fn trim_string(s: &str) -> (r: String)
    ensures
        r@ == trim_seq(s@),
{
    let v = chars_of(s);
    let (a, b) = trim_bounds(&v, 0, v.len());
    assert(v@.subrange(0, v@.len() as int) =~= v@);
    string_of_range(&v, a, b)
}

/// Decimal representation of an unsigned integer (`u64::to_string`).
pub fn u64_to_string(n: u64) -> (r: String)
    ensures
        r@ == decimal(n as nat),
    decreases n,
{
    if n < 10 {
        let mut r = String::new();
        push_char(&mut r, digit_exec(n));
        r
    } else {
        let mut r = u64_to_string(n / 10);
        push_char(&mut r, digit_exec(n % 10));
        r
    }
}

/// Decimal digit character.
pub fn digit_exec(d: u64) -> (c: char)
    requires
        d < 10,
    ensures
        c == digit_char(d as nat),
{
    if d == 0 { '0' }
    else if d == 1 { '1' }
    else if d == 2 { '2' }
    else if d == 3 { '3' }
    else if d == 4 { '4' }
    else if d == 5 { '5' }
    else if d == 6 { '6' }
    else if d == 7 { '7' }
    else if d == 8 { '8' }
    else { '9' }
}

/// ASCII digit test.
pub fn is_digit_exec(c: char) -> (r: bool)
    ensures
        r == is_digit(c),
{
    '0' <= c && c <= '9'
}

/// `str::parse::<u64>` on the characters `v[from..to]`.
pub fn parse_u64_range(v: &Vec<char>, from: usize, to: usize) -> (r: Option<u64>)
    requires
        from <= to <= v.len(),
    ensures
        r == parse_u64_spec(v@.subrange(from as int, to as int)),
{
    let ghost s = v@.subrange(from as int, to as int);
    let mut i = from;
    if i < to && v[i] == '+' {
        i += 1;
        assert(unsigned_body(s) =~= v@.subrange(i as int, to as int));
    } else {
        assert(unsigned_body(s) =~= v@.subrange(i as int, to as int));
    }
    let start = i;
    if start == to {
        return None;
    }
    let mut acc: u64 = 0;
    while i < to
        invariant
            from <= start <= i <= to <= v.len(),
            s == v@.subrange(from as int, to as int),
            unsigned_body(s) == v@.subrange(start as int, to as int),
            all_digits(v@.subrange(start as int, i as int)),
            acc as nat == digits_value(v@.subrange(start as int, i as int)),
        decreases to - i,
    {
        let c = v[i];
        if !is_digit_exec(c) {
            assert(unsigned_body(s)[i - start] == c);
            assert(!all_digits(unsigned_body(s)));
            return None;
        }
        let d = (c as u32 - '0' as u32) as u64;
        let ghost prefix = v@.subrange(start as int, i + 1);
        assert(prefix.drop_last() =~= v@.subrange(start as int, i as int));
        assert(prefix.last() == c);
        assert(digit_value(c) == d);
        assert(digits_value(prefix) == acc * 10 + d);
        if acc > (u64::MAX - d) / 10 {
            proof {
                lemma_digits_value_prefix_mono(unsigned_body(s), (i + 1 - start) as nat);
                assert(unsigned_body(s).subrange(0, (i + 1 - start) as int) =~= prefix);
                assert(digits_value(prefix) > u64::MAX) by (nonlinear_arith)
                    requires
                        digits_value(prefix) == acc * 10 + d,
                        acc > (u64::MAX - d) / 10,
                        d < 10,
                ;
            }
            return None;
        }
        assert(acc * 10 + d <= u64::MAX) by (nonlinear_arith)
            requires
                acc <= (u64::MAX - d) / 10,
                d < 10,
        ;
        acc = acc * 10 + d;
        assert(all_digits(prefix)) by {
            assert forall|j: int| 0 <= j < prefix.len() implies is_digit(#[trigger] prefix[j]) by {
                if j < prefix.len() - 1 {
                    assert(prefix[j] == v@.subrange(start as int, i as int)[j]);
                }
            }
        }
        i += 1;
    }
    Some(acc)
}

/// The value of a digit prefix never exceeds the value of a longer prefix.
pub proof fn lemma_digits_value_prefix_mono(s: Seq<char>, k: nat)
    requires
        k <= s.len(),
    ensures
        digits_value(s.subrange(0, k as int)) <= digits_value(s),
    decreases s.len() - k,
{
    if k < s.len() {
        lemma_digits_value_prefix_mono(s, k + 1);
        let p = s.subrange(0, k + 1 as int);
        assert(p.drop_last() =~= s.subrange(0, k as int));
    } else {
        assert(s.subrange(0, k as int) =~= s);
    }
}

/// `str::parse::<u64>`.
pub fn parse_u64(s: &str) -> (r: Option<u64>)
    ensures
        r == parse_u64_spec(s@),
{
    let v = chars_of(s);
    assert(v@.subrange(0, v@.len() as int) =~= v@);
    parse_u64_range(&v, 0, v.len())
}

/// `str::parse::<i64>`: an optional sign, then at least one ASCII digit,
/// the value in range.
pub open spec fn parse_i64_spec(s: Seq<char>) -> Option<i64> {
    if s.len() > 0 && s[0] == '-' {
        let b = s.drop_first();
        if b.len() > 0 && all_digits(b) && digits_value(b) <= 9223372036854775808 {
            Some((-(digits_value(b) as int)) as i64)
        } else {
            None
        }
    } else {
        let b = unsigned_body(s);
        if b.len() > 0 && all_digits(b) && digits_value(b) <= i64::MAX {
            Some(digits_value(b) as i64)
        } else {
            None
        }
    }
}

/// `str::parse::<i64>`.
pub fn parse_i64(s: &str) -> (r: Option<i64>)
    ensures
        r == parse_i64_spec(s@),
{
    let v = chars_of(s);
    if v.len() > 0 && v[0] == '-' {
        if v.len() < 2 || !is_digit_exec(v[1]) {
            assert(v.len() >= 2 ==> !is_digit(s@.drop_first()[0]));
            return None;
        }
        let ghost b = s@.drop_first();
        assert(v@.subrange(1, v@.len() as int) =~= b);
        assert(unsigned_body(b) == b);
        match parse_u64_range(&v, 1, v.len()) {
            Some(u) => {
                if u < 9223372036854775808u64 {
                    let k = u as i64;
                    Some(-k)
                } else if u == 9223372036854775808u64 {
                    Some(i64::MIN)
                } else {
                    None
                }
            },
            None => None,
        }
    } else {
        match parse_u64(s) {
            Some(u) => {
                if u <= 9223372036854775807u64 {
                    Some(u as i64)
                } else {
                    None
                }
            },
            None => None,
        }
    }
}

/// Decimal text of an integer, with a leading `-` when negative.
pub open spec fn int_text(n: int) -> Seq<char> {
    if n < 0 {
        seq!['-'] + decimal((-n) as nat)
    } else {
        decimal(n as nat)
    }
}

/// `i64::to_string`.
pub fn i64_to_string(n: i64) -> (r: String)
    ensures
        r@ == int_text(n as int),
{
    if n >= 0 {
        u64_to_string(n as u64)
    } else {
        let u: u64 = if n == i64::MIN {
            9223372036854775808u64
        } else {
            (-n) as u64
        };
        let mut r = String::new();
        push_char(&mut r, '-');
        let d = u64_to_string(u);
        push_str(&mut r, d.as_str());
        r
    }
}

/// `h` with every occurrence of `from` replaced by `to`.
pub fn replace_exec(h: &Vec<char>, from: &str, to: &str) -> (r: Vec<char>)
    requires
        from@.len() > 0,
    ensures
        r@ == replace_seq(h@, from@, to@),
{
    let fv = chars_of(from);
    let tv = chars_of(to);
    let mut out: Vec<char> = Vec::new();
    let mut i: usize = 0;
    assert(h@.subrange(0, h@.len() as int) =~= h@);
    while i <= h.len()
        invariant
            fv@ == from@,
            tv@ == to@,
            fv@.len() > 0,
            i <= h.len(),
            replace_seq(h@, from@, to@) == out@ + replace_seq(h@.subrange(i as int, h@.len() as int), from@, to@),
        decreases h.len() - i,
    {
        let ghost rest = h@.subrange(i as int, h@.len() as int);
        match find_exec(h, &fv, i) {
            None => {
                proof {
                    lemma_find_from(h@, from@, i as int);
                    lemma_find_from(rest, from@, 0);
                    if let Some(k) = find_first(rest, from@) {
                        assert(rest.subrange(k, k + from@.len()) =~= h@.subrange(i + k, i + k + from@.len()));
                        assert(occurs_at(h@, from@, i + k));
                        assert(false);
                    }
                }
                let ghost before = out@;
                let mut k = i;
                while k < h.len()
                    invariant
                        i <= k <= h.len(),
                        out@ == before + h@.subrange(i as int, k as int),
                    decreases h.len() - k,
                {
                    out.push(h[k]);
                    assert(h@.subrange(i as int, k + 1) =~= h@.subrange(i as int, k as int).push(h@[k as int]));
                    k += 1;
                }
                assert(replace_seq(rest, from@, to@) == rest);
                return out;
            },
            Some(p) => {
                proof {
                    lemma_find_from(h@, from@, i as int);
                    lemma_find_from(rest, from@, 0);
                    let q = p - i;
                    assert(occurs_at(rest, from@, q)) by {
                        assert(rest.subrange(q, q + from@.len()) =~= h@.subrange(p as int, p + from@.len()));
                    }
                    if let Some(k) = find_first(rest, from@) {
                        if k < q {
                            assert(rest.subrange(k, k + from@.len()) =~= h@.subrange(i + k, i + k + from@.len()));
                            assert(occurs_at(h@, from@, i + k));
                        }
                    }
                    assert(find_first(rest, from@) == Some(q));
                    assert(rest.subrange(0, q) =~= h@.subrange(i as int, p as int));
                    assert(rest.subrange(q + from@.len(), rest.len() as int) =~= h@.subrange(p + from@.len(), h@.len() as int));
                }
                let ghost before = out@;
                let mut k = i;
                while k < p
                    invariant
                        i <= k <= p,
                        p <= h.len(),
                        out@ == before + h@.subrange(i as int, k as int),
                    decreases p - k,
                {
                    out.push(h[k]);
                    assert(h@.subrange(i as int, k + 1) =~= h@.subrange(i as int, k as int).push(h@[k as int]));
                    k += 1;
                }
                let mut j: usize = 0;
                let ghost mid = out@;
                while j < tv.len()
                    invariant
                        j <= tv.len(),
                        out@ == mid + tv@.subrange(0, j as int),
                    decreases tv.len() - j,
                {
                    out.push(tv[j]);
                    assert(tv@.subrange(0, j + 1) =~= tv@.subrange(0, j as int).push(tv@[j as int]));
                    j += 1;
                }
                assert(tv@.subrange(0, tv@.len() as int) =~= tv@);
                assert(out@ =~= before + h@.subrange(i as int, p as int) + to@);
                i = p + fv.len();
            },
        }
    }
    out
}


/// The views of a list of strings.
pub open spec fn string_views(v: Seq<String>) -> Seq<Seq<char>> {
    v.map_values(|s: String| s@)
}

/// The pieces of `h` between occurrences of the non-empty `sep`
/// (`str::split`), as strings.
pub fn split_exec(h: &Vec<char>, sep: &str) -> (r: Vec<String>)
    requires
        sep@.len() > 0,
    ensures
        string_views(r@) == split_seq(h@, sep@),
{
    let sv = chars_of(sep);
    let mut out: Vec<String> = Vec::new();
    let mut i: usize = 0;
    assert(h@.subrange(0, h@.len() as int) =~= h@);
    loop
        invariant
            sv@ == sep@,
            sv@.len() > 0,
            i <= h.len(),
            split_seq(h@, sep@) == string_views(out@) + split_seq(h@.subrange(i as int, h@.len() as int), sep@),
        decreases h.len() - i,
    {
        let ghost rest = h@.subrange(i as int, h@.len() as int);
        match find_exec(h, &sv, i) {
            None => {
                proof {
                    lemma_find_from(h@, sep@, i as int);
                    if let Some(k) = find_first(rest, sep@) {
                        lemma_find_from(rest, sep@, 0);
                        assert(rest.subrange(k, k + sep@.len()) =~= h@.subrange(i + k, i + k + sep@.len()));
                        assert(occurs_at(h@, sep@, i + k));
                        assert(false);
                    }
                }
                let piece = string_of_range(h, i, h.len());
                let ghost before = out@;
                out.push(piece);
                assert(string_views(out@) =~= string_views(before).push(rest));
                assert(split_seq(rest, sep@) == seq![rest]);
                assert(string_views(out@) =~= string_views(before) + seq![rest]);
                return out;
            },
            Some(p) => {
                proof {
                    lemma_find_from(h@, sep@, i as int);
                    lemma_find_from(rest, sep@, 0);
                    let q = p - i;
                    assert(occurs_at(rest, sep@, q)) by {
                        assert(rest.subrange(q, q + sep@.len()) =~= h@.subrange(p as int, p + sep@.len()));
                    }
                    if let Some(k) = find_first(rest, sep@) {
                        if k < q {
                            assert(rest.subrange(k, k + sep@.len()) =~= h@.subrange(i + k, i + k + sep@.len()));
                            assert(occurs_at(h@, sep@, i + k));
                        }
                    }
                    assert(find_first(rest, sep@) == Some(q));
                    assert(rest.subrange(0, q) =~= h@.subrange(i as int, p as int));
                    assert(rest.subrange(q + sep@.len(), rest.len() as int) =~= h@.subrange(p + sep@.len(), h@.len() as int));
                }
                let piece = string_of_range(h, i, p);
                let ghost before = out@;
                out.push(piece);
                assert(string_views(out@) =~= string_views(before).push(h@.subrange(i as int, p as int)));
                assert(string_views(out@) =~= string_views(before) + seq![h@.subrange(i as int, p as int)]);
                i = p + sv.len();
            },
        }
    }
}

/// ASCII lower-casing of one character (`char::to_ascii_lowercase`).
pub open spec fn ascii_lower(c: char) -> char {
    if 'A' <= c && c <= 'Z' {
        ((c as u32) + 32) as char
    } else {
        c
    }
}

/// ASCII lower-casing (`str::to_ascii_lowercase`).
pub open spec fn ascii_lower_seq(s: Seq<char>) -> Seq<char> {
    s.map_values(|c: char| ascii_lower(c))
}

/// ASCII lower-casing of one character.
pub fn ascii_lower_exec(c: char) -> (r: char)
    ensures
        r == ascii_lower(c),
{
    if 'A' <= c && c <= 'Z' {
        ((c as u32) + 32) as u8 as char
    } else {
        c
    }
}

} // verus!
