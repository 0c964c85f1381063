//! Self-update: version ordering, choice of the release and of the
//! installer asset for the running platform.

use vstd::prelude::*;

use crate::error::AppError;

use crate::text::{
    chars_of, contains_seq, ends_with_seq, is_digit, is_digit_exec, owned, parse_u64_range,
    parse_u64_spec, push_str, starts_with_seq, string_of_range,
};

verus! {

/// Where releases are listed.
pub const UPDATE_API_URL: &'static str = "https://api.github.com/repos/Jursin/lanzou-next/releases";

/// A release that can be installed.
#[derive(Debug, Clone, PartialEq, Eq)]
pub struct UpdateInfo {
    pub version: String,
    pub name: String,
    pub url: String,
    pub published_at: Option<String>,
    pub is_prerelease: bool,
    pub asset_url: Option<String>,
    pub asset_name: Option<String>,
}

/// Progress of an installer download.
#[derive(Debug, Clone, Copy, PartialEq, Eq)]
pub struct UpdateDownloadProgress {
    pub downloaded: u64,
    pub total: u64,
}

/// A release as listed by the release service.
#[derive(Debug, Clone, PartialEq, Eq)]
pub struct GitHubRelease {
    pub tag_name: String,
    pub name: Option<String>,
    pub html_url: String,
    pub published_at: Option<String>,
    pub prerelease: bool,
    pub assets: Option<Vec<GitHubAsset>>,
}

/// A file attached to a release.
#[derive(Debug, Clone, PartialEq, Eq)]
pub struct GitHubAsset {
    pub name: String,
    pub browser_download_url: String,
}

// ---------------------------------------------------------------------------
// Versions
// ---------------------------------------------------------------------------

/// `s` without leading `v`s.
pub open spec fn drop_leading_v(s: Seq<char>) -> Seq<char>
    decreases s.len(),
{
    if s.len() > 0 && s[0] == 'v' {
        drop_leading_v(s.drop_first())
    } else {
        s
    }
}

/// The maximal runs of ASCII digits in `s`, in order.
pub open spec fn digit_runs(s: Seq<char>) -> Seq<Seq<char>>
    decreases s.len(),
{
    if s.len() == 0 {
        Seq::empty()
    } else if !is_digit(s.last()) {
        digit_runs(s.drop_last())
    } else if s.len() >= 2 && is_digit(s[s.len() - 2]) {
        let r = digit_runs(s.drop_last());
        r.update(r.len() - 1, r.last().push(s.last()))
    } else {
        digit_runs(s.drop_last()).push(seq![s.last()])
    }
}

/// `str::parse::<i64>` of a digit run, 0 when it does not fit.
pub open spec fn run_value(run: Seq<char>) -> i64 {
    match parse_u64_spec(run) {
        Some(v) => if v <= i64::MAX {
            v as i64
        } else {
            0
        },
        None => 0,
    }
}

/// Component `k` (0, 1 or 2) of a version: the value of its `k`-th digit
/// run after leading `v`s, or 0 when there is none.
pub open spec fn version_part(s: Seq<char>, k: int) -> i64 {
    let runs = digit_runs(drop_leading_v(s));
    if k < runs.len() {
        run_value(runs[k])
    } else {
        0
    }
}

/// The sign of the first difference between the versions' three
/// components, or 0 when they agree.
pub open spec fn compare_version_spec(a: Seq<char>, b: Seq<char>) -> i32 {
    if version_part(a, 0) != version_part(b, 0) {
        if version_part(a, 0) > version_part(b, 0) { 1i32 } else { -1i32 }
    } else if version_part(a, 1) != version_part(b, 1) {
        if version_part(a, 1) > version_part(b, 1) { 1i32 } else { -1i32 }
    } else if version_part(a, 2) != version_part(b, 2) {
        if version_part(a, 2) > version_part(b, 2) { 1i32 } else { -1i32 }
    } else {
        0
    }
}

/// A string ending in a digit has at least one digit run.
proof fn lemma_runs_non_empty(s: Seq<char>)
    requires
        s.len() > 0,
        is_digit(s.last()),
    ensures
        digit_runs(s).len() > 0,
    decreases s.len(),
{
    if s.len() >= 2 && is_digit(s[s.len() - 2]) {
        assert(s.drop_last().last() == s[s.len() - 2]);
        lemma_runs_non_empty(s.drop_last());
    }
}

/// Runs consist of digits only.
proof fn lemma_runs_digits(s: Seq<char>)
    ensures
        forall|i: int| 0 <= i < digit_runs(s).len() ==> #[trigger] digit_runs(s)[i].len() > 0
            && crate::text::all_digits(digit_runs(s)[i]),
    decreases s.len(),
{
    if s.len() > 0 {
        lemma_runs_digits(s.drop_last());
        if is_digit(s.last()) && s.len() >= 2 && is_digit(s[s.len() - 2]) {
            assert(s.drop_last().last() == s[s.len() - 2]);
            lemma_runs_non_empty(s.drop_last());
            let r = digit_runs(s.drop_last());
            assert forall|i: int| 0 <= i < digit_runs(s).len() implies #[trigger] digit_runs(s)[i].len() > 0
                && crate::text::all_digits(digit_runs(s)[i]) by {
                if i == r.len() - 1 {
                    let x = r.last().push(s.last());
                    assert(digit_runs(s)[i] == x);
                    assert forall|j: int| 0 <= j < x.len() implies is_digit(#[trigger] x[j]) by {
                        if j < x.len() - 1 {
                            assert(x[j] == r.last()[j]);
                        }
                    }
                }
            }
        } else if is_digit(s.last()) {
            let r = digit_runs(s.drop_last());
            assert forall|i: int| 0 <= i < digit_runs(s).len() implies #[trigger] digit_runs(s)[i].len() > 0
                && crate::text::all_digits(digit_runs(s)[i]) by {
                if i == r.len() {
                    assert(digit_runs(s)[i] == seq![s.last()]);
                }
            }
        }
    }
}

/// The three components of a version.
fn version_parts(s: &str) -> (r: Vec<i64>)
    ensures
        r@.len() == 3,
        forall|k: int| 0 <= k < 3 ==> #[trigger] r@[k] == version_part(s@, k),
{
    let v = chars_of(s);
    let mut start: usize = 0;
    assert(v@.subrange(0, v@.len() as int) =~= v@);
    while start < v.len() && v[start] == 'v'
        invariant
            start <= v.len(),
            drop_leading_v(v@) == drop_leading_v(v@.subrange(start as int, v@.len() as int)),
        decreases v.len() - start,
    {
        assert(v@.subrange(start as int, v@.len() as int).drop_first() =~= v@.subrange(start + 1, v@.len() as int));
        start += 1;
    }
    assert(drop_leading_v(v@.subrange(start as int, v@.len() as int)) == v@.subrange(start as int, v@.len() as int));
    let mut t: Vec<char> = Vec::new();
    let mut i = start;
    while i < v.len()
        invariant
            start <= i <= v.len(),
            t@ == v@.subrange(start as int, i as int),
        decreases v.len() - i,
    {
        t.push(v[i]);
        i += 1;
    }
    assert(drop_leading_v(v@) == t@);
    // Runs of digits, as [start, end) positions in `t`.
    let mut runs: Vec<(usize, usize)> = Vec::new();
    let mut j: usize = 0;
    while j < t.len()
        invariant
            j <= t.len(),
            runs@.len() == digit_runs(t@.subrange(0, j as int)).len(),
            forall|k: int| 0 <= k < runs@.len() ==> {
                &&& (#[trigger] runs@[k]).0 <= runs@[k].1 <= j
                &&& t@.subrange(runs@[k].0 as int, runs@[k].1 as int) == digit_runs(t@.subrange(0, j as int))[k]
            },
            j > 0 && is_digit(t@[j - 1]) ==> runs@.len() > 0 && runs@[runs@.len() - 1].1 == j,
        decreases t.len() - j,
    {
        let ghost pre = t@.subrange(0, j as int);
        let ghost cur = t@.subrange(0, j + 1);
        assert(cur.drop_last() =~= pre);
        assert(cur.last() == t@[j as int]);
        if is_digit_exec(t[j]) {
            if j >= 1 && is_digit_exec(t[j - 1]) {
                assert(cur[cur.len() - 2] == t@[j - 1]);
                assert(pre.last() == t@[j - 1]);
                proof {
                    lemma_runs_non_empty(pre);
                }
                let last = runs.len() - 1;
                let (a, _b) = runs[last];
                runs.set(last, (a, j + 1));
                proof {
                    let r = digit_runs(pre);
                    assert(t@.subrange(a as int, j + 1) =~= t@.subrange(a as int, j as int).push(t@[j as int]));
                    assert(runs@[last as int].1 == j + 1);
                }
            } else {
                runs.push((j, j + 1));
                proof {
                    assert(t@.subrange(j as int, j + 1) =~= seq![t@[j as int]]);
                    if j >= 1 {
                        assert(cur[cur.len() - 2] == t@[j - 1]);
                    }
                }
            }
        }
        j += 1;
    }
    assert(t@.subrange(0, t@.len() as int) =~= t@);
    let mut r: Vec<i64> = Vec::new();
    let mut k: usize = 0;
    while k < 3
        invariant
            k <= 3,
            r@.len() == k,
            runs@.len() == digit_runs(t@).len(),
            drop_leading_v(v@) == t@,
            v@ == s@,
            forall|m: int| 0 <= m < runs@.len() ==> (#[trigger] runs@[m]).0 <= runs@[m].1 <= t@.len()
                && t@.subrange(runs@[m].0 as int, runs@[m].1 as int) == digit_runs(t@)[m],
            forall|m: int| 0 <= m < k ==> #[trigger] r@[m] == version_part(s@, m),
        decreases 3 - k,
    {
        let value: i64 = if k < runs.len() {
            let (a, b) = runs[k];
            match parse_u64_range(&t, a, b) {
                Some(x) => if x <= i64::MAX as u64 {
                    x as i64
                } else {
                    0
                },
                None => 0,
            }
        } else {
            0
        };
        r.push(value);
        k += 1;
    }
    r
}


/// Compares two versions by their first three numeric components (a
/// leading `v` is ignored): positive when `a` is newer, negative when
/// older, 0 when equal.
pub fn compare_version(a: &str, b: &str) -> (r: i32)
    ensures
        r == compare_version_spec(a@, b@),
{
    let an = version_parts(a);
    let bn = version_parts(b);
    let mut i: usize = 0;
    while i < 3
        invariant
            i <= 3,
            an@.len() == 3,
            bn@.len() == 3,
            forall|k: int| 0 <= k < 3 ==> #[trigger] an@[k] == version_part(a@, k),
            forall|k: int| 0 <= k < 3 ==> #[trigger] bn@[k] == version_part(b@, k),
            forall|k: int| 0 <= k < i ==> an@[k] == bn@[k],
        decreases 3 - i,
    {
        if an[i] != bn[i] {
            assert(an@[0] == version_part(a@, 0) && bn@[0] == version_part(b@, 0));
            assert(an@[1] == version_part(a@, 1) && bn@[1] == version_part(b@, 1));
            assert(an@[2] == version_part(a@, 2) && bn@[2] == version_part(b@, 2));
            return if an[i] > bn[i] {
                1
            } else {
                -1
            };
        }
        i += 1;
    }
    assert(an@[0] == version_part(a@, 0) && bn@[0] == version_part(b@, 0));
    assert(an@[1] == version_part(a@, 1) && bn@[1] == version_part(b@, 1));
    assert(an@[2] == version_part(a@, 2) && bn@[2] == version_part(b@, 2));
    0
}

/// Version order is antisymmetric: swapping the arguments negates the
/// comparison, and a version equals itself.
pub proof fn law_compare_version_antisymmetric(a: Seq<char>, b: Seq<char>)
    ensures
        compare_version_spec(a, b) == -compare_version_spec(b, a),
        compare_version_spec(a, a) == 0,
{
}

/// Version order is transitive.
pub proof fn law_compare_version_transitive(a: Seq<char>, b: Seq<char>, c: Seq<char>)
    requires
        compare_version_spec(a, b) > 0,
        compare_version_spec(b, c) > 0,
    ensures
        compare_version_spec(a, c) > 0,
{
}

/// A leading `v` does not change a version.
pub proof fn law_compare_version_ignores_v(a: Seq<char>)
    ensures
        compare_version_spec(seq!['v'] + a, a) == 0,
{
    assert((seq!['v'] + a).drop_first() =~= a);
    assert(drop_leading_v(seq!['v'] + a) == drop_leading_v(a));
}

/// The version text `x.y.z` of three numbers, written in decimal.
pub open spec fn dotted_version(x: nat, y: nat, z: nat) -> Seq<char> {
    crate::text::decimal(x) + seq!['.'] + crate::text::decimal(y) + seq!['.'] + crate::text::decimal(z)
}

/// A dot ends no run of digits.
proof fn lemma_runs_after_dot(p: Seq<char>)
    ensures
        digit_runs(p.push('.')) == digit_runs(p),
{
    assert(p.push('.').drop_last() =~= p);
}

/// Digits written after a non-digit (or at the start) form one new run.
proof fn lemma_runs_append_digits(p: Seq<char>, d: Seq<char>)
    requires
        d.len() >= 1,
        crate::text::all_digits(d),
        p.len() == 0 || !is_digit(p.last()),
    ensures
        digit_runs(p + d) == digit_runs(p).push(d),
    decreases d.len(),
{
    let s = p + d;
    assert(is_digit(d[d.len() - 1]));
    assert(s.last() == d.last());
    if d.len() == 1 {
        assert(s.drop_last() =~= p);
        if s.len() >= 2 {
            assert(s[s.len() - 2] == p.last());
        }
        assert(seq![s.last()] =~= d);
    } else {
        let d0 = d.drop_last();
        assert(crate::text::all_digits(d0)) by {
            assert forall|i: int| 0 <= i < d0.len() implies is_digit(#[trigger] d0[i]) by {
                assert(d0[i] == d[i]);
            }
        }
        lemma_runs_append_digits(p, d0);
        assert(s.drop_last() =~= p + d0);
        assert(s[s.len() - 2] == d[d.len() - 2]);
        assert(is_digit(d[d.len() - 2]));
        let r = digit_runs(p + d0);
        assert(r == digit_runs(p).push(d0));
        assert(r.last() == d0);
        assert(d0.push(s.last()) =~= d);
        assert(r.update(r.len() - 1, r.last().push(s.last())) =~= digit_runs(p).push(d));
    }
}

/// The value of a number's decimal digits is the number.
proof fn lemma_run_value_decimal(x: nat)
    requires
        x <= i64::MAX,
    ensures
        run_value(crate::text::decimal(x)) == x,
        crate::text::decimal(x).len() >= 1,
        crate::text::all_digits(crate::text::decimal(x)),
{
    let d = crate::text::decimal(x);
    crate::text::lemma_decimal_digits(x);
    assert(is_digit(d[0]));
    assert(crate::text::unsigned_body(d) == d);
}

/// The components of `x.y.z` are `x`, `y` and `z`.
pub proof fn law_version_components(x: nat, y: nat, z: nat)
    requires
        x <= i64::MAX,
        y <= i64::MAX,
        z <= i64::MAX,
    ensures
        version_part(dotted_version(x, y, z), 0) == x,
        version_part(dotted_version(x, y, z), 1) == y,
        version_part(dotted_version(x, y, z), 2) == z,
{
    let dx = crate::text::decimal(x);
    let dy = crate::text::decimal(y);
    let dz = crate::text::decimal(z);
    lemma_run_value_decimal(x);
    lemma_run_value_decimal(y);
    lemma_run_value_decimal(z);
    let t = dotted_version(x, y, z);
    assert(is_digit(dx[0]));
    assert(t[0] == dx[0]);
    assert(drop_leading_v(t) == t);
    lemma_runs_append_digits(Seq::empty(), dx);
    assert(Seq::<char>::empty() + dx =~= dx);
    assert(digit_runs(Seq::<char>::empty()) =~= Seq::<Seq<char>>::empty());
    let a = dx + seq!['.'];
    assert(a =~= dx.push('.'));
    lemma_runs_after_dot(dx);
    lemma_runs_append_digits(a, dy);
    let b = a + dy + seq!['.'];
    assert(b =~= (a + dy).push('.'));
    lemma_runs_after_dot(a + dy);
    lemma_runs_append_digits(b, dz);
    assert(t =~= b + dz);
    let runs = digit_runs(t);
    assert(runs =~= seq![dx, dy, dz]);
}

/// Versions `x.y.z` compare by their numbers, first component first, then
/// the second, then the third (so `1.2.10` is newer than `1.2.9`).
pub proof fn law_compare_dotted_versions(x1: nat, y1: nat, z1: nat, x2: nat, y2: nat, z2: nat)
    requires
        x1 <= i64::MAX,
        y1 <= i64::MAX,
        z1 <= i64::MAX,
        x2 <= i64::MAX,
        y2 <= i64::MAX,
        z2 <= i64::MAX,
    ensures
        compare_version_spec(dotted_version(x1, y1, z1), dotted_version(x2, y2, z2)) > 0 <==> (x1 > x2 || (
        x1 == x2 && y1 > y2) || (x1 == x2 && y1 == y2 && z1 > z2)),
        compare_version_spec(dotted_version(x1, y1, z1), dotted_version(x2, y2, z2)) == 0 <==> (x1 == x2
            && y1 == y2 && z1 == z2),
        compare_version_spec(dotted_version(x1, y1, z1), dotted_version(x2, y2, z2)) < 0 <==> (x1 < x2 || (
        x1 == x2 && y1 < y2) || (x1 == x2 && y1 == y2 && z1 < z2)),
{
    law_version_components(x1, y1, z1);
    law_version_components(x2, y2, z2);
}

// ---------------------------------------------------------------------------
// Release choice
// ---------------------------------------------------------------------------

/// The release is offered: a stable one, or any when pre-releases are
/// wanted.
pub open spec fn offered(r: GitHubRelease, include_prerelease: bool) -> bool {
    include_prerelease || !r.prerelease
}

/// The newest offered release among the first `n`, the last one among
/// equals (`Iterator::max_by`).
pub open spec fn best_release(rs: Seq<GitHubRelease>, include_prerelease: bool, n: nat) -> Option<int>
    decreases n,
{
    if n == 0 || n > rs.len() {
        None
    } else {
        let prev = best_release(rs, include_prerelease, (n - 1) as nat);
        let r = rs[n - 1];
        if !offered(r, include_prerelease) {
            prev
        } else {
            match prev {
                None => Some(n - 1),
                Some(p) => if compare_version_spec(rs[p].tag_name@, r.tag_name@) > 0 {
                    Some(p)
                } else {
                    Some(n - 1)
                },
            }
        }
    }
}

/// The newest offered release, when it is newer than `current`.
pub open spec fn update_choice(rs: Seq<GitHubRelease>, include_prerelease: bool, current: Seq<char>) -> Option<int> {
    match best_release(rs, include_prerelease, rs.len()) {
        Some(i) => if compare_version_spec(rs[i].tag_name@, current) > 0 {
            Some(i)
        } else {
            None
        },
        None => None,
    }
}

/// Versions are never newer than themselves, and "at least as new" chains.
proof fn lemma_compare_version_weak_transitive(a: Seq<char>, b: Seq<char>, c: Seq<char>)
    requires
        compare_version_spec(a, b) >= 0,
        compare_version_spec(b, c) >= 0,
    ensures
        compare_version_spec(a, c) >= 0,
{
}

/// The best of the first `n` releases is offered and at least as new as
/// every offered one among them.
proof fn lemma_best_release(rs: Seq<GitHubRelease>, include_prerelease: bool, n: nat)
    requires
        n <= rs.len(),
    ensures
        best_release(rs, include_prerelease, n) matches Some(b) ==> 0 <= b < n && offered(rs[b], include_prerelease)
            && forall|j: int| 0 <= j < n && offered(rs[j], include_prerelease) ==> compare_version_spec(
                rs[b].tag_name@,
                #[trigger] rs[j].tag_name@,
            ) >= 0,
        best_release(rs, include_prerelease, n) is None ==> forall|j: int| 0 <= j < n ==> !offered(#[trigger] rs[j], include_prerelease),
    decreases n,
{
    if n > 0 {
        lemma_best_release(rs, include_prerelease, (n - 1) as nat);
        let r = rs[n - 1];
        let prev = best_release(rs, include_prerelease, (n - 1) as nat);
        law_compare_version_antisymmetric(r.tag_name@, r.tag_name@);
        if offered(r, include_prerelease) {
            if let Some(p) = prev {
                law_compare_version_antisymmetric(rs[p].tag_name@, r.tag_name@);
                if compare_version_spec(rs[p].tag_name@, r.tag_name@) <= 0 {
                    assert forall|j: int| 0 <= j < n && offered(rs[j], include_prerelease) implies compare_version_spec(
                        r.tag_name@,
                        #[trigger] rs[j].tag_name@,
                    ) >= 0 by {
                        if j < n - 1 {
                            lemma_compare_version_weak_transitive(r.tag_name@, rs[p].tag_name@, rs[j].tag_name@);
                        }
                    }
                }
            }
        }
    }
}

/// The release offered as an update is offered at all (stable, unless
/// pre-releases are wanted), newer than the running version, and at least
/// as new as every other offered release; when none is offered, no offered
/// release is newer than the running version.
pub proof fn law_update_is_newest_offered(rs: Seq<GitHubRelease>, include_prerelease: bool, current: Seq<char>)
    ensures
        update_choice(rs, include_prerelease, current) matches Some(i) ==> 0 <= i < rs.len() && offered(
            rs[i],
            include_prerelease,
        ) && compare_version_spec(rs[i].tag_name@, current) > 0 && forall|j: int|
            0 <= j < rs.len() && offered(rs[j], include_prerelease) ==> compare_version_spec(
                rs[i].tag_name@,
                #[trigger] rs[j].tag_name@,
            ) >= 0,
        update_choice(rs, include_prerelease, current) is None ==> forall|j: int|
            0 <= j < rs.len() && offered(rs[j], include_prerelease) ==> compare_version_spec(
                #[trigger] rs[j].tag_name@,
                current,
            ) <= 0,
{
    lemma_best_release(rs, include_prerelease, rs.len());
    if let Some(b) = best_release(rs, include_prerelease, rs.len()) {
        assert forall|j: int| 0 <= j < rs.len() && offered(rs[j], include_prerelease) && update_choice(
            rs,
            include_prerelease,
            current,
        ) is None implies compare_version_spec(#[trigger] rs[j].tag_name@, current) <= 0 by {
            law_compare_version_antisymmetric(rs[b].tag_name@, rs[j].tag_name@);
            if compare_version_spec(rs[j].tag_name@, current) > 0 {
                assert(compare_version_spec(rs[b].tag_name@, rs[j].tag_name@) >= 0);
                lemma_compare_version_weak_transitive(rs[b].tag_name@, rs[j].tag_name@, current);
                if compare_version_spec(rs[b].tag_name@, rs[j].tag_name@) > 0 {
                    law_compare_version_transitive(rs[b].tag_name@, rs[j].tag_name@, current);
                }
            }
        }
    }
}

/// The position of the release to offer as an update: the newest offered
/// release (the last of equals), when it is newer than `current`.
pub fn choose_update(releases: &Vec<GitHubRelease>, include_prerelease: bool, current: &str) -> (r: Option<usize>)
    ensures
        match r {
            Some(i) => update_choice(releases@, include_prerelease, current@) == Some(i as int),
            None => update_choice(releases@, include_prerelease, current@) is None,
        },
{
    let mut best: Option<usize> = None;
    let mut i: usize = 0;
    while i < releases.len()
        invariant
            i <= releases.len(),
            match best {
                Some(b) => best_release(releases@, include_prerelease, i as nat) == Some(b as int),
                None => best_release(releases@, include_prerelease, i as nat) is None,
            },
            best matches Some(b) ==> b < i,
        decreases releases.len() - i,
    {
        let r = &releases[i];
        if include_prerelease || !r.prerelease {
            match best {
                None => {
                    best = Some(i);
                },
                Some(p) => {
                    if compare_version(releases[p].tag_name.as_str(), r.tag_name.as_str()) <= 0 {
                        best = Some(i);
                    }
                },
            }
        }
        i += 1;
    }
    match best {
        None => None,
        Some(b) => if compare_version(releases[b].tag_name.as_str(), current) > 0 {
            Some(b)
        } else {
            None
        },
    }
}

/// The running platform, as far as the choice of an installer goes.
#[derive(Debug, Clone, Copy, PartialEq, Eq)]
pub enum Os {
    Windows,
    Linux,
    Macos,
    Other,
}

/// What the installer choice depends on: operating system, processor,
/// whether the program runs as an AppImage, and which package managers
/// exist.
#[derive(Debug, Clone, Copy, PartialEq, Eq)]
pub struct Platform {
    pub os: Os,
    pub aarch64: bool,
    pub is_appimage: bool,
    pub has_pacman: bool,
    pub has_dpkg: bool,
}

/// One rule for picking an asset: the name contains `arch` (when given)
/// and ends with `suffix`.
pub open spec fn rule_matches(name: Seq<char>, arch: Option<Seq<char>>, suffix: Seq<char>) -> bool {
    (match arch {
        Some(a) => contains_seq(name, a),
        None => true,
    }) && ends_with_seq(name, suffix)
}

/// The asset rules for a platform, tried in order.
pub open spec fn asset_rules(p: Platform) -> Seq<(Option<Seq<char>>, Seq<char>)> {
    match p.os {
        Os::Windows => seq![
            (Some(if p.aarch64 { "arm64"@ } else { "x64"@ }), "-setup.exe"@),
            (None, ".exe"@),
        ],
        Os::Macos => seq![
            (Some(if p.aarch64 { "arm64"@ } else { "x64"@ }), ".dmg"@),
            (None, ".dmg"@),
        ],
        Os::Linux => {
            let image: Seq<(Option<Seq<char>>, Seq<char>)> = if p.is_appimage {
                seq![
                    (Some(if p.aarch64 { "aarch64"@ } else { "amd64"@ }), ".AppImage"@),
                    (None, ".AppImage"@),
                ]
            } else {
                Seq::empty()
            };
            let pkg: Seq<(Option<Seq<char>>, Seq<char>)> = if p.has_pacman {
                seq![
                    (Some(if p.aarch64 { "aarch64"@ } else { "x86_64"@ }), ".pkg.tar.zst"@),
                    (None, ".pkg.tar.zst"@),
                ]
            } else if p.has_dpkg {
                seq![
                    (Some(if p.aarch64 { "aarch64"@ } else { "amd64"@ }), ".deb"@),
                    (None, ".deb"@),
                ]
            } else {
                seq![
                    (Some(if p.aarch64 { "aarch64"@ } else { "x86_64"@ }), ".rpm"@),
                    (None, ".rpm"@),
                ]
            };
            image + pkg + seq![(None, ".AppImage"@)]
        },
        Os::Other => Seq::empty(),
    }
}

/// First asset from position `i` on that satisfies a rule.
pub open spec fn first_asset_from(assets: Seq<GitHubAsset>, rule: (Option<Seq<char>>, Seq<char>), i: int) -> Option<int>
    decreases assets.len() - i,
{
    if i < 0 || i >= assets.len() {
        None
    } else if rule_matches(assets[i].name@, rule.0, rule.1) {
        Some(i)
    } else {
        first_asset_from(assets, rule, i + 1)
    }
}

/// The asset chosen by the first rule (from rule `k` on) that some asset
/// satisfies.
pub open spec fn chosen_asset_from(assets: Seq<GitHubAsset>, rules: Seq<(Option<Seq<char>>, Seq<char>)>, k: int) -> Option<int>
    decreases rules.len() - k,
{
    if k < 0 || k >= rules.len() {
        None
    } else {
        match first_asset_from(assets, rules[k], 0) {
            Some(i) => Some(i),
            None => chosen_asset_from(assets, rules, k + 1),
        }
    }
}

/// The installer asset for a platform: the first asset of the first rule
/// that matches any.
pub open spec fn platform_asset(assets: Seq<GitHubAsset>, p: Platform) -> Option<int> {
    chosen_asset_from(assets, asset_rules(p), 0)
}

/// The search for an asset that satisfies a rule finds the first one from
/// its start.
proof fn lemma_first_asset_from(assets: Seq<GitHubAsset>, rule: (Option<Seq<char>>, Seq<char>), start: int, i: int)
    requires
        0 <= start <= i < assets.len(),
        rule_matches(assets[i].name@, rule.0, rule.1),
    ensures
        first_asset_from(assets, rule, start) matches Some(j) && start <= j <= i && rule_matches(
            assets[j].name@,
            rule.0,
            rule.1,
        ) && forall|m: int| start <= m < j ==> !rule_matches(#[trigger] assets[m].name@, rule.0, rule.1),
    decreases i - start,
{
    if !rule_matches(assets[start].name@, rule.0, rule.1) {
        lemma_first_asset_from(assets, rule, start + 1, i);
    }
}

/// On macOS the installer for the running processor wins: when some
/// `.dmg` names the processor (`arm64` on Apple silicon, `x64` on Intel),
/// the chosen asset is the first such `.dmg`.
pub proof fn law_mac_installer_matches_processor(assets: Seq<GitHubAsset>, p: Platform, i: int)
    requires
        p.os == Os::Macos,
        0 <= i < assets.len(),
        contains_seq(assets[i].name@, if p.aarch64 { "arm64"@ } else { "x64"@ }),
        ends_with_seq(assets[i].name@, ".dmg"@),
    ensures
        platform_asset(assets, p) matches Some(j) && j <= i && contains_seq(
            assets[j].name@,
            if p.aarch64 { "arm64"@ } else { "x64"@ },
        ) && ends_with_seq(assets[j].name@, ".dmg"@) && forall|m: int|
            0 <= m < j ==> !(contains_seq(#[trigger] assets[m].name@, if p.aarch64 { "arm64"@ } else { "x64"@ })
                && ends_with_seq(assets[m].name@, ".dmg"@)),
{
    let rule = asset_rules(p)[0];
    assert(rule == (Some(if p.aarch64 { "arm64"@ } else { "x64"@ }), ".dmg"@));
    lemma_first_asset_from(assets, rule, 0, i);
}

/// On Windows the setup program for the running processor wins: when some
/// `-setup.exe` names the processor (`arm64` or `x64`), the chosen asset is
/// the first such one.
pub proof fn law_windows_installer_matches_processor(assets: Seq<GitHubAsset>, p: Platform, i: int)
    requires
        p.os == Os::Windows,
        0 <= i < assets.len(),
        contains_seq(assets[i].name@, if p.aarch64 { "arm64"@ } else { "x64"@ }),
        ends_with_seq(assets[i].name@, "-setup.exe"@),
    ensures
        platform_asset(assets, p) matches Some(j) && j <= i && contains_seq(
            assets[j].name@,
            if p.aarch64 { "arm64"@ } else { "x64"@ },
        ) && ends_with_seq(assets[j].name@, "-setup.exe"@) && forall|m: int|
            0 <= m < j ==> !(contains_seq(#[trigger] assets[m].name@, if p.aarch64 { "arm64"@ } else { "x64"@ })
                && ends_with_seq(assets[m].name@, "-setup.exe"@)),
{
    let rule = asset_rules(p)[0];
    assert(rule == (Some(if p.aarch64 { "arm64"@ } else { "x64"@ }), "-setup.exe"@));
    lemma_first_asset_from(assets, rule, 0, i);
}

/// The rules as executable values.
fn asset_rules_exec(p: Platform) -> (r: Vec<(Option<String>, String)>)
    ensures
        r@.len() == asset_rules(p).len(),
        forall|k: int| 0 <= k < r@.len() ==> crate::text::opt_view((#[trigger] r@[k]).0) == asset_rules(p)[k].0
            && r@[k].1@ == asset_rules(p)[k].1,
{
    let mut r: Vec<(Option<String>, String)> = Vec::new();
    match p.os {
        Os::Windows => {
            r.push((Some(owned(if p.aarch64 { "arm64" } else { "x64" })), owned("-setup.exe")));
            r.push((None, owned(".exe")));
        },
        Os::Macos => {
            r.push((Some(owned(if p.aarch64 { "arm64" } else { "x64" })), owned(".dmg")));
            r.push((None, owned(".dmg")));
        },
        Os::Linux => {
            if p.is_appimage {
                r.push((Some(owned(if p.aarch64 { "aarch64" } else { "amd64" })), owned(".AppImage")));
                r.push((None, owned(".AppImage")));
            }
            if p.has_pacman {
                r.push((Some(owned(if p.aarch64 { "aarch64" } else { "x86_64" })), owned(".pkg.tar.zst")));
                r.push((None, owned(".pkg.tar.zst")));
            } else if p.has_dpkg {
                r.push((Some(owned(if p.aarch64 { "aarch64" } else { "amd64" })), owned(".deb")));
                r.push((None, owned(".deb")));
            } else {
                r.push((Some(owned(if p.aarch64 { "aarch64" } else { "x86_64" })), owned(".rpm")));
                r.push((None, owned(".rpm")));
            }
            r.push((None, owned(".AppImage")));
        },
        Os::Other => {},
    }
    r
}

/// Whether an asset name satisfies a rule.
fn rule_matches_exec(name: &str, arch: &Option<String>, suffix: &str) -> (r: bool)
    ensures
        r == rule_matches(name@, crate::text::opt_view(*arch), suffix@),
{
    let v = chars_of(name);
    let c = match arch {
        Some(a) => crate::text::contains_exec(&v, a.as_str()),
        None => true,
    };
    c && crate::text::ends_with_exec(&v, suffix)
}

/// Picks the installer for the running platform: for each rule in turn
/// (architecture-specific first), the first asset it matches.
pub fn find_platform_asset(assets: &Option<Vec<GitHubAsset>>, p: Platform) -> (r: (Option<String>, Option<String>))
    ensures
        match assets {
            None => r.0 is None && r.1 is None,
            Some(list) => match platform_asset(list@, p) {
                Some(i) => r.0 == Some(list@[i].browser_download_url) && r.1 == Some(list@[i].name),
                None => r.0 is None && r.1 is None,
            },
        },
{
    let list = match assets {
        Some(l) => l,
        None => return (None, None),
    };
    let rules = asset_rules_exec(p);
    let mut k: usize = 0;
    while k < rules.len()
        invariant
            k <= rules.len(),
            rules@.len() == asset_rules(p).len(),
            forall|m: int| 0 <= m < rules@.len() ==> crate::text::opt_view((#[trigger] rules@[m]).0) == asset_rules(p)[m].0
                && rules@[m].1@ == asset_rules(p)[m].1,
            platform_asset(list@, p) == chosen_asset_from(list@, asset_rules(p), k as int),
            *assets == Some(*list),
        decreases rules.len() - k,
    {
        let mut i: usize = 0;
        let ghost rule = asset_rules(p)[k as int];
        while i < list.len()
            invariant
                i <= list.len(),
                k < rules.len(),
                rule == asset_rules(p)[k as int],
                crate::text::opt_view(rules@[k as int].0) == rule.0,
                rules@[k as int].1@ == rule.1,
                first_asset_from(list@, rule, 0) == first_asset_from(list@, rule, i as int),
                platform_asset(list@, p) == chosen_asset_from(list@, asset_rules(p), k as int),
                rules@.len() == asset_rules(p).len(),
                *assets == Some(*list),
            decreases list.len() - i,
        {
            if rule_matches_exec(list[i].name.as_str(), &rules[k].0, rules[k].1.as_str()) {
                let a = &list[i];
                assert(first_asset_from(list@, rule, i as int) == Some(i as int));
                assert(chosen_asset_from(list@, asset_rules(p), k as int) == Some(i as int));
                return (Some(a.browser_download_url.clone()), Some(a.name.clone()));
            }
            i += 1;
        }
        assert(first_asset_from(list@, rule, i as int) is None);
        assert(chosen_asset_from(list@, asset_rules(p), k as int) == chosen_asset_from(list@, asset_rules(p), k + 1));
        k += 1;
    }
    (None, None)
}

/// The update offer made from a release: version without a leading `v`,
/// the release's name (or its tag), page, dates and the installer for the
/// platform.
pub fn into_info(release: GitHubRelease, p: Platform) -> (r: UpdateInfo)
    ensures
        r.version@ == drop_leading_v(release.tag_name@),
        r.name@ == (match release.name {
            Some(n) => n@,
            None => release.tag_name@,
        }),
        r.url == release.html_url,
        r.published_at == release.published_at,
        r.is_prerelease == release.prerelease,
        (r.asset_url, r.asset_name) == find_platform_asset_spec(release.assets, p),
{
    let (asset_url, asset_name) = find_platform_asset(&release.assets, p);
    let tv = chars_of(release.tag_name.as_str());
    let mut start: usize = 0;
    assert(tv@.subrange(0, tv@.len() as int) =~= tv@);
    while start < tv.len() && tv[start] == 'v'
        invariant
            start <= tv.len(),
            drop_leading_v(tv@) == drop_leading_v(tv@.subrange(start as int, tv@.len() as int)),
        decreases tv.len() - start,
    {
        assert(tv@.subrange(start as int, tv@.len() as int).drop_first() =~= tv@.subrange(start + 1, tv@.len() as int));
        start += 1;
    }
    let version = string_of_range(&tv, start, tv.len());
    let name = match release.name {
        Some(n) => n,
        None => release.tag_name.clone(),
    };
    UpdateInfo {
        version,
        name,
        url: release.html_url,
        published_at: release.published_at,
        is_prerelease: release.prerelease,
        asset_url,
        asset_name,
    }
}

/// The asset pair that `find_platform_asset` returns.
pub open spec fn find_platform_asset_spec(assets: Option<Vec<GitHubAsset>>, p: Platform) -> (Option<String>, Option<String>) {
    match assets {
        None => (None, None),
        Some(list) => match platform_asset(list@, p) {
            Some(i) => (Some(list@[i].browser_download_url), Some(list@[i].name)),
            None => (None, None),
        },
    }
}

/// A download address through the configured mirror: `<proxy>/<url>` for
/// GitHub addresses when a mirror is set (its trailing `/`s dropped),
/// otherwise the address itself.
pub fn github_proxy_url(proxy: &str, url: &str) -> (r: String)
    ensures
        (proxy@.len() == 0 || !starts_with_seq(url@, "https://github.com"@)) ==> r@ == url@,
        (proxy@.len() > 0 && starts_with_seq(url@, "https://github.com"@)) ==> r@ == trim_end_slashes(proxy@) + "/"@ + url@,
{
    let pv = chars_of(proxy);
    let uv = chars_of(url);
    if pv.len() == 0 || !crate::text::starts_with_exec(&uv, "https://github.com") {
        return owned(url);
    }
    let mut e = pv.len();
    assert(pv@.subrange(0, pv@.len() as int) =~= pv@);
    while e > 0 && pv[e - 1] == '/'
        invariant
            e <= pv.len(),
            trim_end_slashes(pv@) == trim_end_slashes(pv@.subrange(0, e as int)),
        decreases e,
    {
        assert(pv@.subrange(0, e as int).drop_last() =~= pv@.subrange(0, e - 1));
        e -= 1;
    }
    assert(pv@.subrange(0, pv@.len() as int) =~= pv@);
    let mut r = string_of_range(&pv, 0, e);
    push_str(&mut r, "/");
    push_str(&mut r, url);
    r
}

/// `s` without trailing `/`s.
pub open spec fn trim_end_slashes(s: Seq<char>) -> Seq<char>
    decreases s.len(),
{
    if s.len() > 0 && s.last() == '/' {
        trim_end_slashes(s.drop_last())
    } else {
        s
    }
}

// ---------------------------------------------------------------------------
// Installing
// ---------------------------------------------------------------------------

/// The release list address.
pub fn releases_url() -> (r: String)
    ensures
        r@ == UPDATE_API_URL@ + "?per_page=100"@,
{
    let mut r = owned(UPDATE_API_URL);
    push_str(&mut r, "?per_page=100");
    r
}

/// The installer's address of an offer; an error when the release has no
/// installer for this platform.
pub fn installer_url(asset_url: Option<String>) -> (r: Result<String, AppError>)
    ensures
        match asset_url {
            Some(u) => r == Ok::<String, AppError>(u),
            None => r matches Err(AppError::Update(m)) && m@ == "无可用安装包"@,
        },
{
    match asset_url {
        Some(u) => Ok(u),
        None => Err(AppError::Update(owned("无可用安装包"))),
    }
}

/// The installer's file name: the last segment of its address.
pub fn installer_file_name(asset_url: &str) -> (r: String)
    ensures
        r@ == crate::download::after_last_slash(asset_url@),
{
    let cs = chars_of(asset_url);
    let mut k = cs.len();
    assert(cs@.subrange(0, cs@.len() as int) =~= cs@);
    assert(cs@.subrange(cs@.len() as int, cs@.len() as int) =~= Seq::<char>::empty());
    assert(crate::download::after_last_slash(cs@) =~= crate::download::after_last_slash(cs@.subrange(0, k as int)) + cs@.subrange(k as int, cs@.len() as int));
    while k > 0 && cs[k - 1] != '/'
        invariant
            k <= cs.len(),
            crate::download::after_last_slash(cs@) == crate::download::after_last_slash(cs@.subrange(0, k as int)) + cs@.subrange(
                k as int,
                cs@.len() as int,
            ),
        decreases k,
    {
        let ghost pre = cs@.subrange(0, k as int);
        assert(pre.drop_last() =~= cs@.subrange(0, k - 1));
        assert(crate::download::after_last_slash(cs@.subrange(0, k - 1)) + cs@.subrange(k - 1, cs@.len() as int) =~= crate::download::after_last_slash(pre) + cs@.subrange(k as int, cs@.len() as int));
        k -= 1;
    }
    proof {
        let pre = cs@.subrange(0, k as int);
        if k > 0 {
            assert(pre.last() == '/');
        }
        assert(crate::download::after_last_slash(cs@) =~= cs@.subrange(k as int, cs@.len() as int));
    }
    string_of_range(&cs, k, cs.len())
}

/// The errors of the update service: a refused release list, a refused
/// installer download, and a cancelled download.
pub fn update_list_error(status: &str) -> (r: AppError)
    ensures
        r matches AppError::Update(m) && m@ == "更新接口返回 HTTP "@ + status@,
{
    let mut m = owned("更新接口返回 HTTP ");
    push_str(&mut m, status);
    AppError::Update(m)
}

/// The error of a refused installer download.
pub fn installer_download_error(status: &str) -> (r: AppError)
    ensures
        r matches AppError::Update(m) && m@ == "下载失败: HTTP "@ + status@,
{
    let mut m = owned("下载失败: HTTP ");
    push_str(&mut m, status);
    AppError::Update(m)
}

/// The error of a cancelled installer download.
pub fn update_cancelled_error() -> (r: AppError)
    ensures
        r matches AppError::Update(m) && m@ == "下载已取消"@,
{
    AppError::Update(owned("下载已取消"))
}

/// The package tool that installs a Linux package, by the package's
/// extension: `dpkg -i` for `.deb`, `rpm -U` for `.rpm`, otherwise
/// `pacman -U --noconfirm`; each run through `pkexec`.
pub open spec fn linux_install_args_spec(ext: Seq<char>) -> Seq<Seq<char>> {
    if ext == "deb"@ {
        seq!["dpkg"@, "-i"@]
    } else if ext == "rpm"@ {
        seq!["rpm"@, "-U"@]
    } else {
        seq!["pacman"@, "-U"@, "--noconfirm"@]
    }
}

/// The arguments of `pkexec` that install a Linux package.
pub fn linux_install_args(ext: &str) -> (r: Vec<String>)
    ensures
        crate::text::string_views(r@) == linux_install_args_spec(ext@),
{
    let mut r: Vec<String> = Vec::new();
    if crate::text::str_eq(ext, "deb") {
        r.push(owned("dpkg"));
        r.push(owned("-i"));
    } else if crate::text::str_eq(ext, "rpm") {
        r.push(owned("rpm"));
        r.push(owned("-U"));
    } else {
        r.push(owned("pacman"));
        r.push(owned("-U"));
        r.push(owned("--noconfirm"));
    }
    assert(crate::text::string_views(r@) =~= linux_install_args_spec(ext@));
    r
}

} // verus!
