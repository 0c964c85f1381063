//! Merged downloads: parts uploaded as `name.NNN.x.y` are fetched in index
//! order and joined back into one file.

use vstd::prelude::*;

use crate::error::AppError;
use crate::pattern::{capture_group, regex_compile_error, regex_group};
use crate::text::{
    starts_with_seq, chars_of, opt_view, parse_u64, parse_u64_spec, push_str, string_of_range,
    trim_bounds, trim_seq, decimal, u64_to_string,
};

verus! {

/// A merged-download request: the parts (cloud file id and name), the
/// directory to save into, and whether the parts are kept afterwards.
#[derive(Debug, Clone, PartialEq, Eq)]
pub struct MergeDownloadTask {
    pub id: String,
    pub files: Vec<MergePart>,
    pub dir: String,
    pub keep_parts: bool,
}

/// One part of a split file: cloud file id and file name.
#[derive(Debug, Clone, PartialEq, Eq)]
pub struct MergePart {
    pub id: String,
    pub name: String,
}

impl MergePart {
    /// A field-by-field copy.
    pub fn duplicate(&self) -> (r: MergePart)
        ensures
            r == *self,
    {
        MergePart { id: self.id.clone(), name: self.name.clone() }
    }
}

// ---------------------------------------------------------------------------
// Part index
// ---------------------------------------------------------------------------

/// The index of a part in its name: `.NNN.x.y` at the end.
pub const PART_INDEX_PATTERN: &'static str = r"\.(\d+)\.\w+\.\w+$";

/// The index in a part name, when the pattern compiles, matches, and the
/// digits fit a `u64`.
pub open spec fn part_index_spec(name: Seq<char>) -> Option<u64> {
    match regex_compile_error(PART_INDEX_PATTERN@) {
        Some(_) => None,
        None => match regex_group(PART_INDEX_PATTERN@, name, 1) {
            Some(g) => parse_u64_spec(g),
            None => None,
        },
    }
}

/// Parses the index of a part from its name (`movie.mp4.001.ct.ke` -> 1).
pub fn parse_part_index(name: &str) -> (r: Option<u64>)
    ensures
        r == part_index_spec(name@),
{
    match capture_group(PART_INDEX_PATTERN, name, 1) {
        Ok(Some(g)) => parse_u64(g.as_str()),
        _ => None,
    }
}

/// The key parts are ordered by: their index, or 0 without one.
pub open spec fn part_key(name: Seq<char>) -> u64 {
    match part_index_spec(name) {
        Some(i) => i,
        None => 0,
    }
}

/// `perm` lists each index below `n` exactly once.
pub open spec fn is_permutation(perm: Seq<int>, n: nat) -> bool {
    &&& perm.len() == n
    &&& forall|i: int| 0 <= i < n ==> 0 <= #[trigger] perm[i] < n
    &&& forall|i: int, j: int| 0 <= i < n && 0 <= j < n && i != j ==> perm[i] != perm[j]
}

/// `out` is `input` stably sorted by `key`: a rearrangement, in key order,
/// with parts of equal key in the order they came in.
pub open spec fn stably_sorted_by_part_key(input: Seq<MergePart>, out: Seq<MergePart>) -> bool {
    exists|perm: Seq<int>|
        {
            &&& is_permutation(perm, input.len())
            &&& forall|i: int| 0 <= i < out.len() ==> #[trigger] out[i] == input[perm[i]]
            &&& forall|i: int, j: int|
                0 <= i < j < out.len() ==> part_key(out[i].name@) <= part_key(out[j].name@)
            &&& forall|i: int, j: int|
                0 <= i < j < out.len() && part_key(out[i].name@) == part_key(out[j].name@)
                    ==> perm[i] < perm[j]
        }
}

/// Orders parts by the index in their names (parts without one count as
/// 0), keeping the given order among equal indices.
pub fn sort_parts_by_index(files: &Vec<MergePart>) -> (r: Vec<MergePart>)
    ensures
        stably_sorted_by_part_key(files@, r@),
{
    let mut out: Vec<MergePart> = Vec::new();
    let mut keys: Vec<u64> = Vec::new();
    let ghost mut perm: Seq<int> = Seq::empty();
    let mut i: usize = 0;
    while i < files.len()
        invariant
            i <= files.len(),
            out.len() == i,
            keys.len() == i,
            perm.len() == i,
            forall|a: int| 0 <= a < i ==> #[trigger] keys@[a] == part_key(out@[a].name@),
            forall|a: int| 0 <= a < i ==> 0 <= #[trigger] perm[a] < i,
            forall|a: int, b: int| 0 <= a < i && 0 <= b < i && a != b ==> perm[a] != perm[b],
            forall|a: int| 0 <= a < i ==> #[trigger] out@[a] == files@[perm[a]],
            forall|a: int, b: int| 0 <= a < b < i ==> keys@[a] <= keys@[b],
            forall|a: int, b: int| 0 <= a < b < i && keys@[a] == keys@[b] ==> perm[a] < perm[b],
        decreases files.len() - i,
    {
        let part = files[i].duplicate();
        let key = match parse_part_index(part.name.as_str()) {
            Some(k) => k,
            None => 0,
        };
        // Position after every element whose key is not greater.
        let mut pos = i;
        while pos > 0 && keys[pos - 1] > key
            invariant
                pos <= i,
                keys.len() == i,
                forall|a: int| pos <= a < i ==> keys@[a] > key,
            decreases pos,
        {
            pos -= 1;
        }
        let ghost old_out = out@;
        let ghost old_keys = keys@;
        let ghost old_perm = perm;
        out.insert(pos, part);
        keys.insert(pos, key);
        proof {
            perm = old_perm.insert(pos as int, i as int);
            assert forall|a: int| 0 <= a < i + 1 implies #[trigger] keys@[a] == part_key(out@[a].name@) by {
                if a < pos {
                    assert(keys@[a] == old_keys[a]);
                    assert(out@[a] == old_out[a]);
                } else if a > pos {
                    assert(keys@[a] == old_keys[a - 1]);
                    assert(out@[a] == old_out[a - 1]);
                }
            }
            assert forall|a: int| 0 <= a < i + 1 implies #[trigger] out@[a] == files@[perm[a]] by {
                if a < pos {
                    assert(out@[a] == old_out[a]);
                } else if a > pos {
                    assert(out@[a] == old_out[a - 1]);
                }
            }
            assert forall|a: int, b: int| 0 <= a < b < i + 1 implies keys@[a] <= keys@[b] by {
                if a < pos && b < pos {
                    assert(keys@[a] == old_keys[a] && keys@[b] == old_keys[b]);
                } else if a < pos && b == pos {
                    assert(keys@[a] == old_keys[a]);
                    if pos > 0 {
                        assert(old_keys[pos - 1] <= key);
                        if a < pos - 1 {
                            assert(old_keys[a] <= old_keys[pos - 1]);
                        }
                    }
                } else if a < pos && b > pos {
                    assert(keys@[a] == old_keys[a] && keys@[b] == old_keys[b - 1]);
                } else if a == pos {
                    assert(keys@[b] == old_keys[b - 1]);
                } else {
                    assert(keys@[a] == old_keys[a - 1] && keys@[b] == old_keys[b - 1]);
                }
            }
            assert forall|a: int, b: int| 0 <= a < b < i + 1 && keys@[a] == keys@[b] implies perm[a] < perm[b] by {
                if a < pos && b < pos {
                    assert(keys@[a] == old_keys[a] && keys@[b] == old_keys[b]);
                } else if a < pos && b == pos {
                    assert(perm[b] == i);
                } else if a < pos && b > pos {
                    assert(keys@[a] == old_keys[a] && keys@[b] == old_keys[b - 1]);
                } else if a == pos {
                    assert(keys@[b] == old_keys[b - 1]);
                    assert(old_keys[b - 1] > key);
                } else {
                    assert(keys@[a] == old_keys[a - 1] && keys@[b] == old_keys[b - 1]);
                }
            }
            assert forall|a: int, b: int| 0 <= a < i + 1 && 0 <= b < i + 1 && a != b implies perm[a] != perm[b] by {
                if a != pos && b != pos {
                    let a0 = if a < pos { a } else { a - 1 };
                    let b0 = if b < pos { b } else { b - 1 };
                    assert(perm[a] == old_perm[a0] && perm[b] == old_perm[b0]);
                } else if a == pos {
                    let b0 = if b < pos { b } else { b - 1 };
                    assert(perm[b] == old_perm[b0]);
                } else {
                    let a0 = if a < pos { a } else { a - 1 };
                    assert(perm[a] == old_perm[a0]);
                }
            }
        }
        i += 1;
    }
    proof {
        assert(is_permutation(perm, files@.len()));
        assert forall|a: int, b: int| 0 <= a < b < out@.len() implies part_key(out@[a].name@) <= part_key(out@[b].name@) by {
            assert(keys@[a] <= keys@[b]);
        }
        assert forall|a: int, b: int|
            0 <= a < b < out@.len() && part_key(out@[a].name@) == part_key(out@[b].name@) implies perm[a] < perm[b] by {
            assert(keys@[a] == keys@[b]);
        }
    }
    out
}


// ---------------------------------------------------------------------------
// Merged file name
// ---------------------------------------------------------------------------

/// Length of the longest common prefix of `a` and `b`.
pub open spec fn lcp_len(a: Seq<char>, b: Seq<char>) -> nat
    decreases a.len(),
{
    if a.len() == 0 || b.len() == 0 || a[0] != b[0] {
        0
    } else {
        1 + lcp_len(a.drop_first(), b.drop_first())
    }
}

/// First byte of the UTF-8 encoding of `c`.
pub open spec fn lead_byte(c: char) -> int {
    let v = c as u32;
    if v < 0x80 {
        v as int
    } else if v < 0x800 {
        0xC0 + v / 64
    } else if v < 0x10000 {
        0xE0 + v / 4096
    } else {
        0xF0 + v / 262144
    }
}

/// The common byte prefix of `a` and `b` ends on a character boundary of
/// `a` (else cutting `a` there panics): the first differing characters,
/// if both exist, differ in their first byte.
pub open spec fn cut_on_boundary(a: Seq<char>, b: Seq<char>) -> bool {
    let k = lcp_len(a, b);
    k < a.len() && k < b.len() ==> lead_byte(a[k as int]) != lead_byte(b[k as int])
}

/// The common prefix of the first `n` names, taken name by name.
pub open spec fn common_prefix(names: Seq<Seq<char>>, n: nat) -> Seq<char>
    decreases n,
{
    if n <= 1 {
        names[0]
    } else {
        let acc = common_prefix(names, (n - 1) as nat);
        acc.subrange(0, lcp_len(acc, names[n - 1]) as int)
    }
}

/// No step of the common-prefix fold over the first `n` names cuts a
/// character in two.
pub open spec fn prefix_cuts_ok(names: Seq<Seq<char>>, n: nat) -> bool {
    forall|m: nat| 1 <= m < n ==> #[trigger] cut_on_boundary(common_prefix(names, m), names[m as int])
}

/// Separators dropped from the end of a merged name.
pub open spec fn is_name_sep(c: char) -> bool {
    c == '_' || c == '-' || c == '.' || c == ' ' || c == '\t'
}

/// `s` without trailing `'0'`s.
pub open spec fn trim_end_zeros(s: Seq<char>) -> Seq<char>
    decreases s.len(),
{
    if s.len() > 0 && s.last() == '0' {
        trim_end_zeros(s.drop_last())
    } else {
        s
    }
}

/// `s` without trailing separators.
pub open spec fn trim_end_seps(s: Seq<char>) -> Seq<char>
    decreases s.len(),
{
    if s.len() > 0 && is_name_sep(s.last()) {
        trim_end_seps(s.drop_last())
    } else {
        s
    }
}

/// The zero padding of a part number and the separators before it,
/// dropped from the end: trailing `'0'`s, then trailing separators. Digits
/// of the name itself, before that separator, stay.
pub open spec fn strip_padding(s: Seq<char>) -> Seq<char> {
    trim_end_seps(trim_end_zeros(s))
}

/// The views of a list of strings.
pub open spec fn views(names: Seq<String>) -> Seq<Seq<char>> {
    names.map_values(|s: String| s@)
}

/// The merged file name: the common prefix of all names, without the
/// zero padding of the part number and the separators before it, trimmed;
/// empty for no names.
pub open spec fn merged_name_spec(names: Seq<Seq<char>>) -> Seq<char> {
    if names.len() == 0 {
        Seq::empty()
    } else {
        trim_seq(strip_padding(common_prefix(names, names.len())))
    }
}

/// Every trimming step yields a prefix.
pub proof fn lemma_trim_ends_prefix(s: Seq<char>)
    ensures
        trim_end_zeros(s).len() <= s.len(),
        trim_end_zeros(s) == s.subrange(0, trim_end_zeros(s).len() as int),
        trim_end_seps(s).len() <= s.len(),
        trim_end_seps(s) == s.subrange(0, trim_end_seps(s).len() as int),
    decreases s.len(),
{
    if s.len() > 0 {
        lemma_trim_ends_prefix(s.drop_last());
    }
    assert(s.subrange(0, s.len() as int) =~= s);
    if s.len() > 0 {
        let t = s.drop_last();
        assert(t.subrange(0, trim_end_zeros(t).len() as int) =~= s.subrange(0, trim_end_zeros(t).len() as int));
        assert(t.subrange(0, trim_end_seps(t).len() as int) =~= s.subrange(0, trim_end_seps(t).len() as int));
    }
}

/// First UTF-8 byte of a character.
fn lead_byte_exec(c: char) -> (r: u32)
    ensures
        r as int == lead_byte(c),
{
    let v = c as u32;
    if v < 0x80 {
        v
    } else if v < 0x800 {
        0xC0 + v / 64
    } else if v < 0x10000 {
        0xE0 + v / 4096
    } else {
        0xF0 + v / 262144
    }
}

/// Length of the common prefix of `a[..alen]` and `b`.
fn lcp_exec(a: &Vec<char>, alen: usize, b: &Vec<char>) -> (k: usize)
    requires
        alen <= a.len(),
    ensures
        k as nat == lcp_len(a@.subrange(0, alen as int), b@),
{
    let mut k: usize = 0;
    assert(b@.subrange(0, b@.len() as int) =~= b@);
    assert(a@.subrange(0, alen as int).subrange(0, alen as int) =~= a@.subrange(0, alen as int));
    while k < alen && k < b.len() && a[k] == b[k]
        invariant
            k <= alen <= a.len(),
            k <= b.len(),
            lcp_len(a@.subrange(0, alen as int), b@) == k + lcp_len(
                a@.subrange(k as int, alen as int),
                b@.subrange(k as int, b@.len() as int),
            ),
        decreases alen - k,
    {
        assert(a@.subrange(k as int, alen as int).drop_first() =~= a@.subrange(k + 1, alen as int));
        assert(b@.subrange(k as int, b@.len() as int).drop_first() =~= b@.subrange(k + 1, b@.len() as int));
        k += 1;
    }
    assert(lcp_len(a@.subrange(k as int, alen as int), b@.subrange(k as int, b@.len() as int)) == 0);
    assert(a@.subrange(0, alen as int) =~= a@.subrange(0, alen as int));
    proof {
        assert(a@.subrange(0, a@.len() as int) =~= a@);
    }
    k
}

/// Computes the merged file name of a set of parts: the common prefix of
/// their names, with the zero padding of part numbers and trailing
/// `_ - . space tab` separators removed, trimmed.
pub fn merged_name(names: &[String]) -> (r: String)
    requires
        prefix_cuts_ok(views(names@), names@.len()),
    ensures
        r@ == merged_name_spec(views(names@)),
{
    if names.len() == 0 {
        return String::new();
    }
    let ghost ns = views(names@);
    let acc = chars_of(names[0].as_str());
    let mut end: usize = acc.len();
    let mut i: usize = 1;
    assert(acc@.subrange(0, end as int) =~= common_prefix(ns, 1));
    while i < names.len()
        invariant
            ns == views(names@),
            prefix_cuts_ok(ns, names@.len()),
            1 <= i <= names.len(),
            end <= acc.len(),
            acc@.subrange(0, end as int) == common_prefix(ns, i as nat),
        decreases names.len() - i,
    {
        let b = chars_of(names[i].as_str());
        assert(b@ == ns[i as int]);
        let k = lcp_exec(&acc, end, &b);
        proof {
            lemma_lcp_bound(acc@.subrange(0, end as int), b@);
        }
        assert(common_prefix(ns, (i + 1) as nat) == common_prefix(ns, i as nat).subrange(0, k as int));
        assert(acc@.subrange(0, end as int).subrange(0, k as int) =~= acc@.subrange(0, k as int));
        end = k;
        i += 1;
    }
    // Strip the zero padding, then the separators before it.
    let ghost cur = acc@.subrange(0, end as int);
    let mut e = end;
    while e > 0 && acc[e - 1] == '0'
        invariant
            e <= end <= acc.len(),
            trim_end_zeros(cur) == trim_end_zeros(acc@.subrange(0, e as int)),
            cur == acc@.subrange(0, end as int),
        decreases e,
    {
        assert(acc@.subrange(0, e as int).drop_last() =~= acc@.subrange(0, e - 1));
        e -= 1;
    }
    let ghost z = acc@.subrange(0, e as int);
    assert(trim_end_zeros(z) == z);
    while e > 0 && (acc[e - 1] == '_' || acc[e - 1] == '-' || acc[e - 1] == '.' || acc[e - 1] == ' '
        || acc[e - 1] == '\t')
        invariant
            e <= end <= acc.len(),
            trim_end_seps(z) == trim_end_seps(acc@.subrange(0, e as int)),
        decreases e,
    {
        assert(acc@.subrange(0, e as int).drop_last() =~= acc@.subrange(0, e - 1));
        e -= 1;
    }
    assert(trim_end_seps(acc@.subrange(0, e as int)) == acc@.subrange(0, e as int));
    assert(strip_padding(cur) == acc@.subrange(0, e as int));
    let end = e;
    let (a, b) = trim_bounds(&acc, 0, end);
    string_of_range(&acc, a, b)
}

/// The common prefix never grows beyond either argument.
pub proof fn lemma_lcp_bound(a: Seq<char>, b: Seq<char>)
    ensures
        lcp_len(a, b) <= a.len(),
        lcp_len(a, b) <= b.len(),
        a.subrange(0, lcp_len(a, b) as int) == b.subrange(0, lcp_len(a, b) as int),
    decreases a.len(),
{
    if a.len() == 0 || b.len() == 0 || a[0] != b[0] {
        assert(a.subrange(0, 0) =~= b.subrange(0, 0));
    } else {
        lemma_lcp_bound(a.drop_first(), b.drop_first());
        let k = lcp_len(a, b);
        assert(a.subrange(0, k as int) =~= seq![a[0]] + a.drop_first().subrange(0, k - 1));
        assert(b.subrange(0, k as int) =~= seq![b[0]] + b.drop_first().subrange(0, k - 1));
    }
}

/// The base of a merged name is a common prefix of every name.
pub proof fn law_common_prefix_of_all(names: Seq<Seq<char>>, n: nat)
    requires
        1 <= n <= names.len(),
    ensures
        forall|i: int| 0 <= i < n ==> common_prefix(names, n).is_prefix_of(#[trigger] names[i]),
    decreases n,
{
    if n > 1 {
        law_common_prefix_of_all(names, (n - 1) as nat);
        let acc = common_prefix(names, (n - 1) as nat);
        lemma_lcp_bound(acc, names[n - 1]);
        let k = lcp_len(acc, names[n - 1]);
        assert forall|i: int| 0 <= i < n implies common_prefix(names, n).is_prefix_of(#[trigger] names[i]) by {
            if i < n - 1 {
                assert(acc.is_prefix_of(names[i]));
                assert forall|j: int| 0 <= j < k implies common_prefix(names, n)[j] == names[i][j] by {
                    assert(common_prefix(names, n)[j] == acc[j]);
                }
            } else {
                assert forall|j: int| 0 <= j < k implies common_prefix(names, n)[j] == names[i][j] by {
                    assert(acc.subrange(0, k as int)[j] == names[i].subrange(0, k as int)[j]);
                }
            }
        }
    }
}


// ---------------------------------------------------------------------------
// Merge planning and checks
// ---------------------------------------------------------------------------

/// Whether no step of the common-prefix fold over `names` cuts a
/// character in two (where computing the merged name would panic).
pub fn prefix_cuts_ok_exec(names: &[String]) -> (r: bool)
    ensures
        names@.len() > 0 ==> r == prefix_cuts_ok(views(names@), names@.len()),
        names@.len() == 0 ==> r,
{
    if names.len() == 0 {
        return true;
    }
    let ghost ns = views(names@);
    let acc = chars_of(names[0].as_str());
    let mut end: usize = acc.len();
    let mut i: usize = 1;
    assert(acc@.subrange(0, end as int) =~= common_prefix(ns, 1));
    while i < names.len()
        invariant
            ns == views(names@),
            1 <= i <= names.len(),
            end <= acc.len(),
            acc@.subrange(0, end as int) == common_prefix(ns, i as nat),
            prefix_cuts_ok(ns, i as nat),
        decreases names.len() - i,
    {
        let b = chars_of(names[i].as_str());
        assert(b@ == ns[i as int]);
        let k = lcp_exec(&acc, end, &b);
        proof {
            lemma_lcp_bound(acc@.subrange(0, end as int), b@);
        }
        if k < end && k < b.len() && lead_byte_exec(acc[k]) == lead_byte_exec(b[k]) {
            assert(!cut_on_boundary(common_prefix(ns, i as nat), ns[i as int]));
            return false;
        }
        assert(cut_on_boundary(common_prefix(ns, i as nat), ns[i as int]));
        assert(common_prefix(ns, (i + 1) as nat) == common_prefix(ns, i as nat).subrange(0, k as int));
        assert(acc@.subrange(0, end as int).subrange(0, k as int) =~= acc@.subrange(0, k as int));
        assert forall|m: nat| 1 <= m < i + 1 implies #[trigger] cut_on_boundary(common_prefix(ns, m), ns[m as int]) by {
            if m < i {
                assert(cut_on_boundary(common_prefix(ns, m), ns[m as int]));
            }
        }
        end = k;
        i += 1;
    }
    true
}

/// The names of a list of parts.
pub open spec fn part_names(parts: Seq<MergePart>) -> Seq<Seq<char>> {
    parts.map_values(|p: MergePart| p.name@)
}

/// The name of the merged file for parts in the given order: the merged
/// name, or `merged` when that is empty; `None` where computing the name
/// would cut a character in two.
pub fn merge_output_name(parts: &Vec<MergePart>) -> (r: Option<String>)
    ensures
        parts@.len() > 0 && !prefix_cuts_ok(part_names(parts@), parts@.len()) ==> r is None,
        parts@.len() == 0 || prefix_cuts_ok(part_names(parts@), parts@.len()) ==> (r matches Some(n)
            && n@ == (if merged_name_spec(part_names(parts@)).len() == 0 {
            "merged"@
        } else {
            merged_name_spec(part_names(parts@))
        })),
{
    let mut names: Vec<String> = Vec::new();
    let mut i: usize = 0;
    while i < parts.len()
        invariant
            i <= parts.len(),
            names@.len() == i,
            forall|j: int| 0 <= j < i ==> #[trigger] names@[j]@ == parts@[j].name@,
        decreases parts.len() - i,
    {
        names.push(parts[i].name.clone());
        i += 1;
    }
    assert(views(names@) =~= part_names(parts@));
    let ok = prefix_cuts_ok_exec(names.as_slice());
    if !ok {
        assert(parts@.len() > 0);
        assert(!prefix_cuts_ok(part_names(parts@), parts@.len()));
        return None;
    }
    let name = merged_name(names.as_slice());
    if name.as_str().unicode_len() == 0 {
        Some(crate::text::owned("merged"))
    } else {
        Some(name)
    }
}

/// The directory that holds the downloaded parts: `<name>.parts`.
pub fn parts_dir_name(name: &str) -> (r: String)
    ensures
        r@ == name@ + ".parts"@,
{
    crate::text::concat2(name, ".parts")
}

/// Sum of the first `n` sizes.
pub open spec fn sum_sizes(sizes: Seq<u64>, n: nat) -> nat
    decreases n,
{
    if n == 0 || n > sizes.len() {
        0
    } else {
        sum_sizes(sizes, (n - 1) as nat) + sizes[n - 1] as nat
    }
}

/// All probed sizes are known (non-zero).
pub open spec fn all_sizes_known(sizes: Seq<u64>) -> bool {
    forall|i: int| 0 <= i < sizes.len() ==> #[trigger] sizes[i] > 0
}

/// The total size announced for a merge: the sum of the probed part sizes
/// when every part's size is known (non-zero), otherwise 0 (unknown).
pub fn merge_total_size(sizes: &Vec<u64>) -> (r: u64)
    requires
        sum_sizes(sizes@, sizes@.len()) <= u64::MAX,
    ensures
        all_sizes_known(sizes@) ==> r == sum_sizes(sizes@, sizes@.len()),
        !all_sizes_known(sizes@) ==> r == 0,
{
    let mut total: u64 = 0;
    let mut known = true;
    let mut i: usize = 0;
    while i < sizes.len()
        invariant
            i <= sizes.len(),
            sum_sizes(sizes@, sizes@.len()) <= u64::MAX,
            total as nat == sum_sizes(sizes@, i as nat),
            known == (forall|j: int| 0 <= j < i ==> #[trigger] sizes@[j] > 0),
        decreases sizes.len() - i,
    {
        proof {
            lemma_sum_sizes_mono(sizes@, (i + 1) as nat, sizes@.len());
        }
        total = total + sizes[i];
        if sizes[i] == 0 {
            known = false;
        }
        i += 1;
    }
    if known {
        total
    } else {
        0
    }
}

/// Partial sums grow with the number of terms.
pub proof fn lemma_sum_sizes_mono(sizes: Seq<u64>, a: nat, b: nat)
    requires
        a <= b <= sizes.len(),
    ensures
        sum_sizes(sizes, a) <= sum_sizes(sizes, b),
    decreases b - a,
{
    if a < b {
        lemma_sum_sizes_mono(sizes, a, (b - 1) as nat);
    }
}

/// Label of part `i` (from 0) of `n` in progress reports:
/// `<merged> (<i+1>/<n>)`.
pub fn part_display_name(merged: &str, i: u64, n: u64) -> (r: String)
    requires
        i < u64::MAX,
    ensures
        r@ == merged@ + " ("@ + decimal((i + 1) as nat) + "/"@ + decimal(n as nat) + ")"@,
{
    let mut r = crate::text::owned(merged);
    push_str(&mut r, " (");
    let a = u64_to_string(i + 1);
    push_str(&mut r, a.as_str());
    push_str(&mut r, "/");
    let b = u64_to_string(n);
    push_str(&mut r, b.as_str());
    push_str(&mut r, ")");
    r
}

/// What to do after a part failed to download.
#[derive(Debug, Clone, Copy, PartialEq, Eq)]
pub enum PartRetry {
    /// The task was cancelled: stop with "已取消".
    Cancelled,
    /// Try again as attempt `attempt`, after `delay_ms` milliseconds.
    Retry { attempt: u32, delay_ms: u64 },
    /// Give up and report the failure.
    GiveUp,
}

/// After a failed attempt `attempt` (from 0) at a part: stop if the task
/// was cancelled, retry up to twice with a growing pause, else give up.
pub fn part_failure_action(attempt: u32, cancelled: bool) -> (r: PartRetry)
    ensures
        cancelled ==> r == PartRetry::Cancelled,
        !cancelled && attempt < 2 ==> r == (PartRetry::Retry {
            attempt: (attempt + 1) as u32,
            delay_ms: (1200 * (attempt + 1)) as u64,
        }),
        !cancelled && attempt >= 2 ==> r == PartRetry::GiveUp,
{
    if cancelled {
        PartRetry::Cancelled
    } else if attempt < 2 {
        let next = attempt + 1;
        PartRetry::Retry { attempt: next, delay_ms: 1200 * (next as u64) }
    } else {
        PartRetry::GiveUp
    }
}

/// The merged file must be exactly as large as everything downloaded.
pub fn check_merged_size(merged_size: u64, downloaded: u64) -> (r: Result<(), AppError>)
    ensures
        merged_size == downloaded ==> r is Ok,
        merged_size != downloaded ==> (r matches Err(AppError::Lanzou(m)) && m@ == "合并结果大小异常: "@
            + decimal(merged_size as nat) + " ≠ "@ + decimal(downloaded as nat)),
{
    if merged_size == downloaded {
        Ok(())
    } else {
        let mut m = crate::text::owned("合并结果大小异常: ");
        let a = u64_to_string(merged_size);
        push_str(&mut m, a.as_str());
        push_str(&mut m, " ≠ ");
        let b = u64_to_string(downloaded);
        push_str(&mut m, b.as_str());
        Err(AppError::Lanzou(m))
    }
}

/// The total shown while a part downloads: the merge total when known,
/// else what was done before plus this part's length.
pub fn part_progress_total(total_size: u64, base_done: u64, part_total: u64) -> (r: u64)
    requires
        total_size > 0 || base_done + part_total <= u64::MAX,
    ensures
        r == (if total_size > 0 { total_size as int } else { base_done + part_total }),
{
    if total_size > 0 {
        total_size
    } else {
        base_done + part_total
    }
}

/// A part whose announced length is known must arrive whole.
pub fn check_part_complete(part_total: u64, downloaded: u64) -> (r: Result<u64, AppError>)
    ensures
        part_total == 0 || downloaded == part_total ==> r == Ok::<u64, AppError>(downloaded),
        part_total > 0 && downloaded != part_total ==> (r matches Err(AppError::Lanzou(m)) && m@
            == "分片下载不完整: 预期 "@ + decimal(part_total as nat) + " 字节，实际 "@ + decimal(
            downloaded as nat,
        ) + " 字节"@),
{
    if part_total > 0 && downloaded != part_total {
        let mut m = crate::text::owned("分片下载不完整: 预期 ");
        let a = u64_to_string(part_total);
        push_str(&mut m, a.as_str());
        push_str(&mut m, " 字节，实际 ");
        let b = u64_to_string(downloaded);
        push_str(&mut m, b.as_str());
        push_str(&mut m, " 字节");
        Err(AppError::Lanzou(m))
    } else {
        Ok(downloaded)
    }
}

// ---------------------------------------------------------------------------
// Blocked parts
// ---------------------------------------------------------------------------

/// `String::from_utf8_lossy(bytes)`: the text of the bytes, with every
/// invalid sequence replaced by U+FFFD.
pub uninterp spec fn utf8_lossy(bytes: Seq<u8>) -> Seq<char>;

/// Decodes bytes as UTF-8 (`String::from_utf8_lossy`). Claims that the
/// result is the named one, and, as std documents, that valid UTF-8 is
/// decoded as it stands.
#[verifier::external_body]
fn decode_lossy(bytes: &[u8]) -> (r: String)
    ensures
        r@ == utf8_lossy(bytes@),
        forall|s: Seq<char>| vstd::utf8::encode_utf8(s) == bytes@ ==> r@ == s,
{
    String::from_utf8_lossy(bytes).into_owned()
}

/// The first at most 1024 bytes of a chunk.
pub open spec fn chunk_head_bytes(chunk: Seq<u8>) -> Seq<u8> {
    if chunk.len() > 1024 {
        chunk.subrange(0, 1024)
    } else {
        chunk
    }
}

/// The first at most 1024 bytes of a chunk, decoded.
pub open spec fn chunk_head(chunk: Seq<u8>) -> Seq<char> {
    utf8_lossy(chunk_head_bytes(chunk))
}

/// The start of a reply body is an HTML page (an error or challenge page
/// rather than file data): its first 1024 bytes, decoded, look so.
pub open spec fn looks_like_html_spec(chunk: Seq<u8>) -> bool {
    html_like_text(chunk_head(chunk))
}

/// A text that looks like an HTML page: after leading whitespace it opens a
/// document (`<!doctype`, `<html`, `<head` or `<body`, in any ASCII case),
/// or it holds `ERROR:`.
pub open spec fn html_like_text(text: Seq<char>) -> bool {
    let head = crate::text::trim_start_seq(text);
    let lower = crate::text::ascii_lower_seq(head);
    starts_with_seq(lower, "<!doctype"@) || starts_with_seq(lower, "<html"@) || starts_with_seq(
        lower,
        "<head"@,
    ) || starts_with_seq(lower, "<body"@) || crate::text::contains_seq(head, "ERROR:"@)
}

/// Whether the first chunk of a part is an HTML page. When its first 1024
/// bytes are the UTF-8 encoding of a text, that text decides.
pub fn looks_like_html(chunk: &[u8]) -> (r: bool)
    ensures
        r == looks_like_html_spec(chunk@),
        forall|t: Seq<char>|
            #[trigger] vstd::utf8::encode_utf8(t) == chunk_head_bytes(chunk@) ==> r == html_like_text(t),
{
    let n = if chunk.len() > 1024 { 1024 } else { chunk.len() };
    let mut head: Vec<u8> = Vec::new();
    let mut i: usize = 0;
    while i < n
        invariant
            i <= n <= chunk@.len(),
            n == (if chunk@.len() > 1024 { 1024 } else { chunk@.len() }),
            head@ == chunk@.subrange(0, i as int),
        decreases n - i,
    {
        head.push(chunk[i]);
        assert(head@ =~= chunk@.subrange(0, i + 1));
        i += 1;
    }
    assert(chunk@.len() <= 1024 ==> chunk@.subrange(0, n as int) =~= chunk@);
    let text = decode_lossy(head.as_slice());
    let v = chars_of(text.as_str());
    let mut a: usize = 0;
    assert(v@.subrange(0, v@.len() as int) =~= v@);
    while a < v.len() && crate::text::is_ws_exec(v[a])
        invariant
            a <= v.len(),
            crate::text::trim_start_seq(v@) == crate::text::trim_start_seq(v@.subrange(a as int, v@.len() as int)),
        decreases v.len() - a,
    {
        assert(v@.subrange(a as int, v@.len() as int).drop_first() =~= v@.subrange(a + 1, v@.len() as int));
        a += 1;
    }
    let trimmed = string_of_range(&v, a, v.len());
    let t = chars_of(trimmed.as_str());
    let mut lower: Vec<char> = Vec::new();
    let mut j: usize = 0;
    while j < t.len()
        invariant
            j <= t.len(),
            lower@ == crate::text::ascii_lower_seq(t@.subrange(0, j as int)),
        decreases t.len() - j,
    {
        lower.push(crate::text::ascii_lower_exec(t[j]));
        assert(crate::text::ascii_lower_seq(t@.subrange(0, j + 1)) =~= crate::text::ascii_lower_seq(
            t@.subrange(0, j as int),
        ).push(crate::text::ascii_lower(t@[j as int])));
        j += 1;
    }
    assert(t@.subrange(0, t@.len() as int) =~= t@);
    crate::text::starts_with_exec(&lower, "<!doctype") || crate::text::starts_with_exec(&lower, "<html")
        || crate::text::starts_with_exec(&lower, "<head") || crate::text::starts_with_exec(&lower, "<body")
        || crate::text::contains_exec(&t, "ERROR:")
}

/// The error code on a blocked part's page.
pub const ERROR_CODE_PATTERN: &'static str = r"ERROR:\d+";

/// The error for a part whose reply was an HTML page (`text`): a retry
/// after the anti-crawler cookie for a challenge page (the cookie is
/// returned when it can be computed), otherwise the page's `ERROR:` code
/// (or "HTML 页面").
/// `r` is the error, and the cookie to retry with, for a blocked part whose
/// page reads `text`: for a challenge page the retry message and the
/// challenge's answer; otherwise the page's `ERROR:` code (or "HTML 页面")
/// and no cookie.
pub open spec fn blocked_part_outcome(text: Seq<char>, r: (AppError, Option<String>)) -> bool {
    &&& crate::text::contains_seq(text, "acw_sc__v2"@) ==> (r.0 matches AppError::Lanzou(m) && m@
        == "下载分片触发反爬验证，重试中"@) && crate::text::opt_view(r.1) == crate::matcher::acw_sc_v2_spec(text)
    &&& !crate::text::contains_seq(text, "acw_sc__v2"@) ==> r.1 is None && (r.0 matches AppError::Lanzou(m) && m@
        == "下载分片被拦截: "@ + match (regex_compile_error(ERROR_CODE_PATTERN@), regex_group(ERROR_CODE_PATTERN@, text, 0)) {
        (None, Some(c)) => c,
        _ => "HTML 页面"@,
    })
}

pub fn blocked_part(text: &str) -> (r: (AppError, Option<String>))
    ensures
        blocked_part_outcome(text@, r),
{
    if crate::text::str_contains(text, "acw_sc__v2") {
        let cookie = crate::matcher::calc_acw_sc_v2(text);
        return (AppError::Lanzou(crate::text::owned("下载分片触发反爬验证，重试中")), cookie);
    }
    let code = match capture_group(ERROR_CODE_PATTERN, text, 0) {
        Ok(Some(c)) => c,
        _ => crate::text::owned("HTML 页面"),
    };
    let mut m = crate::text::owned("下载分片被拦截: ");
    push_str(&mut m, code.as_str());
    (AppError::Lanzou(m), None)
}

/// A merge needs parts: an error for an empty selection of `count` parts.
pub fn check_parts_selected(count: usize) -> (r: Result<(), AppError>)
    ensures
        count > 0 ==> r is Ok,
        count == 0 ==> (r matches Err(AppError::Lanzou(m)) && m@ == "未选择分片文件"@),
{
    if count == 0 {
        Err(AppError::Lanzou(crate::text::owned("未选择分片文件")))
    } else {
        Ok(())
    }
}

/// The error, and the cookie to retry with, for a part whose first chunk
/// is an HTML page: `blocked_part` of the chunk's text (decoded as UTF-8,
/// invalid sequences replaced).
pub fn blocked_chunk(chunk: &[u8]) -> (r: (AppError, Option<String>))
    ensures
        blocked_part_outcome(utf8_lossy(chunk@), r),
        forall|t: Seq<char>| #[trigger] vstd::utf8::encode_utf8(t) == chunk@ ==> blocked_part_outcome(t, r),
{
    let text = decode_lossy(chunk);
    blocked_part(text.as_str())
}

/// The error for a part refused by the server; `status` as shown.
pub fn part_status_error(status: &str) -> (r: AppError)
    ensures
        r matches AppError::Lanzou(m) && m@ == "下载分片失败: HTTP "@ + status@,
{
    let mut m = crate::text::owned("下载分片失败: HTTP ");
    push_str(&mut m, status);
    AppError::Lanzou(m)
}

/// The error for a part whose reply had no data.
pub fn empty_part_error() -> (r: AppError)
    ensures
        r matches AppError::Lanzou(m) && m@ == "下载分片响应为空"@,
{
    AppError::Lanzou(crate::text::owned("下载分片响应为空"))
}

/// The size of a part from a one-byte probe: the `Content-Range` total of a
/// 206 reply when it reads, else the reply's length (0 when unknown).
pub fn probe_total(partial: bool, content_range: Option<&str>, content_length: Option<u64>) -> (r: u64)
    ensures
        r == (match (if partial {
            match content_range {
                Some(v) => crate::download::content_range_total(v@),
                None => None,
            }
        } else {
            None
        }) {
            Some(t) => t,
            None => match content_length {
                Some(l) => l,
                None => 0,
            },
        }),
{
    if partial {
        match content_range {
            Some(v) => match crate::download::content_range_total_exec(v) {
                Some(t) => return t,
                None => {},
            },
            None => {},
        }
    }
    match content_length {
        Some(l) => l,
        None => 0,
    }
}

// ---------------------------------------------------------------------------
// Split and merge
// ---------------------------------------------------------------------------

/// A shared prefix of length `k` gives a common prefix at least that long.
proof fn lemma_lcp_at_least(a: Seq<char>, b: Seq<char>, k: nat)
    requires
        k <= a.len(),
        k <= b.len(),
        a.subrange(0, k as int) == b.subrange(0, k as int),
    ensures
        lcp_len(a, b) >= k,
    decreases k,
{
    if k > 0 {
        assert(a[0] == a.subrange(0, k as int)[0]);
        assert(b[0] == b.subrange(0, k as int)[0]);
        assert(a.drop_first().subrange(0, k - 1) =~= a.subrange(0, k as int).drop_first());
        assert(b.drop_first().subrange(0, k - 1) =~= b.subrange(0, k as int).drop_first());
        lemma_lcp_at_least(a.drop_first(), b.drop_first(), (k - 1) as nat);
    }
}

/// The part names of a file split into `count` parts, in order.
pub open spec fn split_names(file_name: Seq<char>, count: nat, suffixes: Seq<Seq<char>>) -> Seq<Seq<char>> {
    Seq::new(
        count,
        |i: int| crate::upload::part_name_spec(file_name, (i + 1) as nat, count, suffixes[i]),
    )
}

/// The prefix `p` is kept by every step of the common-prefix fold when
/// every name starts with it.
proof fn lemma_common_prefix_keeps(names: Seq<Seq<char>>, p: Seq<char>, n: nat)
    requires
        1 <= n <= names.len(),
        forall|i: int| 0 <= i < names.len() ==> p.is_prefix_of(#[trigger] names[i]),
    ensures
        p.is_prefix_of(common_prefix(names, n)),
    decreases n,
{
    if n > 1 {
        lemma_common_prefix_keeps(names, p, (n - 1) as nat);
        let acc = common_prefix(names, (n - 1) as nat);
        let b = names[n - 1];
        assert(p.is_prefix_of(b));
        assert(acc.subrange(0, p.len() as int) =~= p);
        assert(b.subrange(0, p.len() as int) =~= p);
        lemma_lcp_at_least(acc, b, p.len());
        lemma_lcp_bound(acc, b);
        let k = lcp_len(acc, b);
        assert(common_prefix(names, n) == acc.subrange(0, k as int));
        assert(common_prefix(names, n).subrange(0, p.len() as int) =~= p);
    }
}

/// Merging the parts of a split upload gives back the file's name: the
/// common prefix of the part names `name.NNN.x.y` is `name.`, from which
/// the merge strips the dot. This holds for two or more parts, whatever
/// made-up suffixes the parts got; only separators at the very end of the
/// name are stripped along with the dot.
pub proof fn law_merge_recovers_split_name(file_name: Seq<char>, count: nat, suffixes: Seq<Seq<char>>)
    requires
        count >= 2,
        suffixes.len() == count,
    ensures
        merged_name_spec(split_names(file_name, count, suffixes)) == trim_seq(trim_end_seps(file_name)),
        file_name.len() > 0 && !is_name_sep(file_name.last()) ==> merged_name_spec(
            split_names(file_name, count, suffixes),
        ) == trim_seq(file_name),
{
    let names = split_names(file_name, count, suffixes);
    let p = file_name + "."@;
    reveal_strlit(".");
    let w = decimal(count).len();
    assert forall|i: int| 0 <= i < names.len() implies p.is_prefix_of(#[trigger] names[i]) by {
        let nm = names[i];
        assert(nm.subrange(0, p.len() as int) =~= p);
    }
    lemma_common_prefix_keeps(names, p, count);
    law_common_prefix_of_all(names, count);
    let cp = common_prefix(names, count);
    // names[0] and names[count - 1] differ right after the prefix
    crate::text::lemma_decimal_digits(count);
    crate::text::lemma_decimal_digits(1);
    let first = crate::text::pad_zeros(decimal(1), w);
    let last = crate::text::pad_zeros(decimal(count), w);
    assert(last == decimal(count));
    assert(decimal(1) == seq![crate::text::digit_char(1)]);
    assert(first.len() >= 1);
    assert(first[0] != last[0]) by {
        if w > 1 {
            assert(first[0] == '0');
        } else {
            assert(count < 10) by {
                if count >= 10 {
                    assert(decimal(count) == decimal(count / 10).push(crate::text::digit_char(count % 10)));
                    crate::text::lemma_decimal_digits(count / 10);
                }
            }
            assert(first == decimal(1));
            assert(decimal(count) == seq![crate::text::digit_char(count)]);
        }
    }
    let n0 = names[0];
    let nl = names[count - 1];
    assert(n0[p.len() as int] == first[0]);
    assert(nl[p.len() as int] == last[0]);
    assert(cp.len() == p.len()) by {
        assert(p.is_prefix_of(cp));
        if cp.len() > p.len() {
            assert(cp.is_prefix_of(n0));
            assert(cp.is_prefix_of(nl));
            assert(cp[p.len() as int] == n0[p.len() as int]);
            assert(cp[p.len() as int] == nl[p.len() as int]);
        }
    }
    assert(cp =~= p);
    // stripping: the dot goes, then nothing more
    assert(trim_end_zeros(p) == p);
    assert(p.drop_last() =~= file_name);
    assert(trim_end_seps(p) == trim_end_seps(file_name));
    assert(strip_padding(p) == trim_end_seps(file_name));
}

/// The merged name depends only on which names the parts carry:
/// reordering the parts, or repeating one, leaves it unchanged.
pub proof fn law_merged_name_ignores_order_and_repeats(a: Seq<Seq<char>>, b: Seq<Seq<char>>)
    requires
        a.len() > 0,
        forall|i: int| 0 <= i < a.len() ==> b.contains(#[trigger] a[i]),
        forall|j: int| 0 <= j < b.len() ==> a.contains(#[trigger] b[j]),
    ensures
        merged_name_spec(b) == merged_name_spec(a),
{
    assert(b.contains(a[0]));
    law_common_prefix_of_all(a, a.len());
    law_common_prefix_of_all(b, b.len());
    let ca = common_prefix(a, a.len());
    let cb = common_prefix(b, b.len());
    assert forall|j: int| 0 <= j < b.len() implies ca.is_prefix_of(#[trigger] b[j]) by {
        assert(a.contains(b[j]));
        let i = choose|i: int| 0 <= i < a.len() && a[i] == b[j];
        assert(ca.is_prefix_of(a[i]));
    }
    assert forall|i: int| 0 <= i < a.len() implies cb.is_prefix_of(#[trigger] a[i]) by {
        assert(b.contains(a[i]));
        let j = choose|j: int| 0 <= j < b.len() && b[j] == a[i];
        assert(cb.is_prefix_of(b[j]));
    }
    lemma_common_prefix_keeps(b, ca, b.len());
    lemma_common_prefix_keeps(a, cb, a.len());
    assert(ca =~= cb);
}

} // verus!
