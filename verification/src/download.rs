//! Downloads: the saved file's name, resuming a partial download, the total
//! size from the reply, retries, and a free name for the finished file.

use vstd::prelude::*;

use crate::error::AppError;
use crate::text::{
    chars_of, contains_seq, decimal, int_text, i64_to_string, opt_view, owned, parse_u64,
    parse_u64_spec, push_str, str_contains, string_of_range, trim_seq, trim_string, u64_to_string,
};

verus! {

/// A download request: task id, share link, access code, directory to save
/// into (empty for the system's download directory) and the file's name
/// when already known.
#[derive(Debug, Clone, PartialEq, Eq)]
pub struct DownloadTask {
    pub id: String,
    pub url: String,
    pub pwd: Option<String>,
    pub dir: String,
    pub name: Option<String>,
}

/// Progress of a download: bytes so far, the total (0 when unknown), the
/// speed, and the saved file once finished.
#[derive(Debug, Clone, PartialEq, Eq)]
pub struct DownloadProgress {
    pub id: String,
    pub name: String,
    pub downloaded: u64,
    pub total: u64,
    pub speed: u64,
    pub file_path: Option<String>,
}

// ---------------------------------------------------------------------------
// Names
// ---------------------------------------------------------------------------

/// The name of a downloaded file: the one given with the task, else the one
/// the share reports; a blank name becomes `download_<timestamp>`.
pub open spec fn download_name_spec(given: Option<Seq<char>>, reported: Seq<char>, now: int) -> Seq<char> {
    let n = match given {
        Some(g) => g,
        None => reported,
    };
    if trim_seq(n).len() == 0 {
        "download_"@ + int_text(now)
    } else {
        n
    }
}

/// The name to save a download under; `now` is the current Unix time in
/// seconds.
pub fn download_name(given: Option<String>, reported: String, now: i64) -> (r: String)
    ensures
        r@ == download_name_spec(opt_view(given), reported@, now as int),
{
    let n = match given {
        Some(g) => g,
        None => reported,
    };
    if trim_string(n.as_str()).as_str().unicode_len() == 0 {
        let mut r = owned("download_");
        push_str(&mut r, i64_to_string(now).as_str());
        r
    } else {
        n
    }
}

/// A character that a sanitized file name never holds: `/ ? < > \ : * | "`
/// and the control characters.
pub open spec fn is_unsafe_name_char(c: char) -> bool {
    c == '/' || c == '?' || c == '<' || c == '>' || c == '\\' || c == ':' || c == '*' || c == '|'
        || c == '"' || (c as u32) <= 0x1f || (0x80 <= (c as u32) && (c as u32) <= 0x9f)
}

/// The characters of `s` that are not unsafe in a file name, in order.
pub open spec fn safe_name_chars(s: Seq<char>) -> Seq<char> {
    s.filter(|c: char| !is_unsafe_name_char(c))
}

/// A name made of dots only (`.`, `..`, ...), which names no file.
pub open spec fn is_dots_name(t: Seq<char>) -> bool {
    t.len() > 0 && forall|i: int| 0 <= i < t.len() ==> t[i] == '.'
}

/// The name, emptied when it is made of dots only.
pub open spec fn without_dots_name(t: Seq<char>) -> Seq<char> {
    if is_dots_name(t) {
        Seq::empty()
    } else {
        t
    }
}

/// A name that Windows reserves for a device: `con`, `prn`, `aux`, `nul`,
/// `com0`..`com9` or `lpt0`..`lpt9`, in any case, alone or before a dot.
pub open spec fn is_windows_device_name(t: Seq<char>) -> bool {
    let l = crate::text::ascii_lower_seq(t);
    let k: int = if t.len() >= 3 && (l.take(3) == "con"@ || l.take(3) == "prn"@ || l.take(3)
        == "aux"@ || l.take(3) == "nul"@) {
        3
    } else if t.len() >= 4 && (l.take(3) == "com"@ || l.take(3) == "lpt"@) && '0' <= t[3] && t[3]
        <= '9' {
        4
    } else {
        0
    };
    k > 0 && (t.len() == k || t[k] == '.')
}

/// The name without its trailing dots and spaces.
pub open spec fn trim_dots_spaces_end(t: Seq<char>) -> Seq<char>
    decreases t.len(),
{
    if t.len() > 0 && (t.last() == '.' || t.last() == ' ') {
        trim_dots_spaces_end(t.drop_last())
    } else {
        t
    }
}

/// The longest prefix of `t` whose UTF-8 encoding has at most `n` bytes.
pub open spec fn truncate_bytes(t: Seq<char>, n: nat) -> Seq<char>
    decreases t.len(),
{
    if t.len() == 0 || vstd::utf8::encode_utf8(t).len() <= n {
        t
    } else {
        truncate_bytes(t.drop_last(), n)
    }
}

/// `name` sanitized for a file system: unsafe characters dropped, a name
/// of dots only emptied, under Windows' rules (`windows`) a device name
/// emptied and trailing dots and spaces dropped, then cut to 255 bytes.
pub open spec fn sanitized_name(name: Seq<char>, windows: bool) -> Seq<char> {
    let t = without_dots_name(safe_name_chars(name));
    let t = if windows {
        trim_dots_spaces_end(if is_windows_device_name(t) { Seq::empty() } else { t })
    } else {
        t
    };
    truncate_bytes(t, 255)
}

/// `sanitize_filename::sanitize(name)`: the name made safe for the file
/// system. The crate applies Windows' rules when built for Windows and not
/// otherwise, so the result is the name sanitized under one of the two.
#[verifier::external_body]
fn sanitize(name: &str) -> (r: String)
    ensures
        r@ == sanitized_name(name@, false) || r@ == sanitized_name(name@, true),
{
    sanitize_filename::sanitize(name)
}

/// Cutting to a byte length keeps a prefix, and its encoding fits.
proof fn lemma_truncate_bytes(t: Seq<char>, n: nat)
    ensures
        truncate_bytes(t, n).len() <= t.len(),
        forall|i: int| 0 <= i < truncate_bytes(t, n).len() ==> truncate_bytes(t, n)[i] == t[i],
        vstd::utf8::encode_utf8(truncate_bytes(t, n)).len() <= n,
    decreases t.len(),
{
    if t.len() == 0 {
        assert(vstd::utf8::encode_utf8(t) =~= Seq::<u8>::empty());
    } else if vstd::utf8::encode_utf8(t).len() <= n {
    } else {
        lemma_truncate_bytes(t.drop_last(), n);
        let r = truncate_bytes(t, n);
        assert forall|i: int| 0 <= i < r.len() implies r[i] == t[i] by {
            assert(r[i] == t.drop_last()[i]);
        }
    }
}

/// Dropping trailing dots and spaces keeps a prefix.
proof fn lemma_trim_dots_spaces_end(t: Seq<char>)
    ensures
        trim_dots_spaces_end(t).len() <= t.len(),
        forall|i: int| 0 <= i < trim_dots_spaces_end(t).len() ==> trim_dots_spaces_end(t)[i] == t[i],
    decreases t.len(),
{
    if t.len() > 0 && (t.last() == '.' || t.last() == ' ') {
        lemma_trim_dots_spaces_end(t.drop_last());
        let r = trim_dots_spaces_end(t);
        assert forall|i: int| 0 <= i < r.len() implies r[i] == t[i] by {
            assert(r[i] == t.drop_last()[i]);
        }
    }
}

/// A sanitized name holds no unsafe character and fits in 255 bytes, under
/// either platform's rules.
pub proof fn lemma_sanitized_name_is_safe(name: Seq<char>, windows: bool)
    ensures
        forall|i: int|
            0 <= i < sanitized_name(name, windows).len() ==> !is_unsafe_name_char(
                #[trigger] sanitized_name(name, windows)[i],
            ),
        vstd::utf8::encode_utf8(sanitized_name(name, windows)).len() <= 255,
{
    let pred = |c: char| !is_unsafe_name_char(c);
    let f = safe_name_chars(name);
    assert forall|i: int| 0 <= i < f.len() implies !is_unsafe_name_char(#[trigger] f[i]) by {
        name.lemma_filter_pred(pred, i);
    }
    let t0 = without_dots_name(f);
    let t1 = if is_windows_device_name(t0) { Seq::empty() } else { t0 };
    lemma_trim_dots_spaces_end(t1);
    let t = if windows { trim_dots_spaces_end(t1) } else { t0 };
    assert forall|i: int| 0 <= i < t.len() implies !is_unsafe_name_char(#[trigger] t[i]) by {
        if windows {
            assert(t[i] == t1[i]);
        }
    }
    lemma_truncate_bytes(t, 255);
    let r = sanitized_name(name, windows);
    assert(r == truncate_bytes(t, 255));
    assert forall|i: int| 0 <= i < r.len() implies !is_unsafe_name_char(#[trigger] r[i]) by {
        assert(r[i] == t[i]);
    }
}

/// The file name a download is saved under: the name, sanitized by
/// `sanitize_filename` (under the platform's rules, Windows' or not).
pub fn save_file_name(name: &str) -> (r: String)
    ensures
        r@ == sanitized_name(name@, false) || r@ == sanitized_name(name@, true),
        forall|i: int| 0 <= i < r@.len() ==> !is_unsafe_name_char(#[trigger] r@[i]),
        vstd::utf8::encode_utf8(r@).len() <= 255,
{
    let r = sanitize(name);
    proof {
        lemma_sanitized_name_is_safe(name@, false);
        lemma_sanitized_name_is_safe(name@, true);
    }
    r
}

/// The name of the partial file of a download: the saved name with
/// `.download` added.
pub fn partial_file_name(name: &str) -> (r: String)
    ensures
        r@ == sanitized_name(name@, false) + ".download"@ || r@ == sanitized_name(name@, true)
            + ".download"@,
        exists|s: Seq<char>|
            r@ == s + ".download"@ && forall|i: int| 0 <= i < s.len() ==> !is_unsafe_name_char(#[trigger] s[i]),
{
    let mut r = sanitize(name);
    let ghost s = r@;
    proof {
        lemma_sanitized_name_is_safe(name@, false);
        lemma_sanitized_name_is_safe(name@, true);
    }
    push_str(&mut r, ".download");
    r
}

// ---------------------------------------------------------------------------
// Paths
// ---------------------------------------------------------------------------

/// `Path::join(dir, name)` as text, under Windows' path rules (`windows`)
/// or Unix'.
pub uninterp spec fn path_join_text(windows: bool, dir: Seq<char>, name: Seq<char>) -> Seq<char>;

/// `Path::file_stem(path)` as text, under Windows' path rules (`windows`)
/// or Unix'.
pub uninterp spec fn path_stem_text(windows: bool, path: Seq<char>) -> Option<Seq<char>>;

/// `Path::extension(path)` as text, under Windows' path rules (`windows`)
/// or Unix'.
pub uninterp spec fn path_extension_text(windows: bool, path: Seq<char>) -> Option<Seq<char>>;

/// Joins `name` to the directory `dir` (`Path::join`, text taken lossily).
/// std parses paths by Windows' rules on Windows and by Unix' rules on the
/// other desktop systems, so the result is the join under one of the two.
#[verifier::external_body]
pub(crate) fn join_path(dir: &str, name: &str) -> (r: String)
    ensures
        r@ == path_join_text(false, dir@, name@) || r@ == path_join_text(true, dir@, name@),
{
    std::path::Path::new(dir).join(name).to_string_lossy().into_owned()
}

/// `Path::file_stem` of `p`, text taken lossily: the stem under Windows'
/// path rules or under Unix', as for `join_path`.
#[verifier::external_body]
fn file_stem_of(p: &str) -> (r: Option<String>)
    ensures
        opt_view(r) == path_stem_text(false, p@) || opt_view(r) == path_stem_text(true, p@),
{
    match std::path::Path::new(p).file_stem() {
        Some(s) => Some(s.to_string_lossy().into_owned()),
        None => None,
    }
}

/// `Path::extension` of `p`, text taken lossily: the extension under
/// Windows' path rules or under Unix', as for `join_path`.
#[verifier::external_body]
fn extension_of(p: &str) -> (r: Option<String>)
    ensures
        opt_view(r) == path_extension_text(false, p@) || opt_view(r) == path_extension_text(true, p@),
{
    match std::path::Path::new(p).extension() {
        Some(s) => Some(s.to_string_lossy().into_owned()),
        None => None,
    }
}

/// `Path::exists`: whether something is at `p` now. What is on disk can
/// change at any time, so nothing is claimed of the answer.
#[verifier::external_body]
fn path_exists(p: &str) -> (r: bool)
{
    std::path::Path::new(p).exists()
}

/// The `n`-th alternative name for a file with this stem and extension:
/// `stem (n).ext`, or `stem (n)` without an extension.
pub open spec fn numbered_name(stem: Seq<char>, ext: Seq<char>, n: nat) -> Seq<char> {
    if ext.len() == 0 {
        stem + " ("@ + decimal(n) + ")"@
    } else {
        stem + " ("@ + decimal(n) + ")."@ + ext
    }
}

/// The `n`-th alternative name.
pub fn numbered_name_exec(stem: &str, ext: &str, n: u64) -> (r: String)
    ensures
        r@ == numbered_name(stem@, ext@, n as nat),
{
    let mut r = owned(stem);
    push_str(&mut r, " (");
    push_str(&mut r, u64_to_string(n).as_str());
    if ext.unicode_len() == 0 {
        push_str(&mut r, ")");
    } else {
        push_str(&mut r, ").");
        push_str(&mut r, ext);
    }
    r
}

/// The text inside, or empty for none.
pub open spec fn text_or_empty(o: Option<Seq<char>>) -> Seq<char> {
    match o {
        Some(t) => t,
        None => Seq::empty(),
    }
}

/// `stem` is the file stem of `path` (empty for none) under Windows' or
/// Unix' path rules.
pub open spec fn is_stem_of(path: Seq<char>, stem: Seq<char>) -> bool {
    stem == text_or_empty(path_stem_text(false, path)) || stem == text_or_empty(
        path_stem_text(true, path),
    )
}

/// `ext` is the extension of `path` (empty for none) under Windows' or
/// Unix' path rules.
pub open spec fn is_extension_of(path: Seq<char>, ext: Seq<char>) -> bool {
    ext == text_or_empty(path_extension_text(false, path)) || ext == text_or_empty(
        path_extension_text(true, path),
    )
}

/// `p` is `name` joined to `dir` under Windows' or Unix' path rules.
pub open spec fn is_joined(dir: Seq<char>, name: Seq<char>, p: Seq<char>) -> bool {
    p == path_join_text(false, dir, name) || p == path_join_text(true, dir, name)
}

/// `p` is the `n`-th alternative for `target` in `dir`: `stem (n).ext`
/// joined to `dir`, from the target's stem and extension.
pub open spec fn is_numbered_path(dir: Seq<char>, target: Seq<char>, n: nat, p: Seq<char>) -> bool {
    exists|stem: Seq<char>, ext: Seq<char>|
        is_stem_of(target, stem) && is_extension_of(target, ext) && #[trigger] is_joined(
            dir,
            numbered_name(stem, ext, n),
            p,
        )
}

/// `taken` answered `answer` when asked about a path whose text is `path`.
pub open spec fn reported<F: Fn(&str) -> bool>(taken: F, path: Seq<char>, answer: bool) -> bool {
    exists|p: &str| p@ == path && #[trigger] call_ensures(taken, (p,), answer)
}

/// `taken` answered `answer` for the `m`-th numbered path `stem (m).ext`
/// joined to `dir`.
pub open spec fn numbered_reported<F: Fn(&str) -> bool>(
    taken: F,
    dir: Seq<char>,
    stem: Seq<char>,
    ext: Seq<char>,
    m: nat,
    answer: bool,
) -> bool {
    exists|p: Seq<char>| #[trigger] is_joined(dir, numbered_name(stem, ext, m), p) && reported(taken, p, answer)
}

/// What a search for a free path returns, given the answers of `taken`:
/// `target` when it is reported free; otherwise the first numbered path
/// reported free, all before it reported taken; and `target` again when
/// every number up to the limit is reported taken.
pub open spec fn free_path_outcome<F: Fn(&str) -> bool>(
    taken: F,
    dir: Seq<char>,
    target: Seq<char>,
    stem: Seq<char>,
    ext: Seq<char>,
    r: Seq<char>,
) -> bool {
    ||| r == target && reported(taken, target, false)
    ||| reported(taken, target, true) && exists|n: nat|
        1 <= n < u64::MAX && #[trigger] is_joined(dir, numbered_name(stem, ext, n), r) && reported(
            taken,
            r,
            false,
        ) && forall|m: nat| 1 <= m < n ==> #[trigger] numbered_reported(taken, dir, stem, ext, m, true)
    ||| reported(taken, target, true) && r == target && forall|m: nat|
        1 <= m < u64::MAX ==> #[trigger] numbered_reported(taken, dir, stem, ext, m, true)
}

/// A free path for `target` in `dir`, asking `taken` whether a path is in
/// use: `target` itself when free, otherwise the first free `stem (n).ext`
/// in `dir` counting from 1 (stem and extension those of the target),
/// otherwise `target`.
pub fn unique_path_by<F: Fn(&str) -> bool>(dir: &str, target: &str, taken: F) -> (r: String)
    requires
        forall|p: &str| #[trigger] taken.requires((p,)),
    ensures
        exists|stem: Seq<char>, ext: Seq<char>|
            is_stem_of(target@, stem) && is_extension_of(target@, ext) && #[trigger] free_path_outcome(
                taken,
                dir@,
                target@,
                stem,
                ext,
                r@,
            ),
{
    let stem = match file_stem_of(target) {
        Some(s) => s,
        None => String::new(),
    };
    let ext = match extension_of(target) {
        Some(e) => e,
        None => String::new(),
    };
    if !taken(target) {
        let r = owned(target);
        assert(free_path_outcome(taken, dir@, target@, stem@, ext@, r@));
        return r;
    }
    assert(reported(taken, target@, true));
    let mut n: u64 = 1;
    while n < u64::MAX
        invariant
            1 <= n,
            forall|p: &str| #[trigger] taken.requires((p,)),
            is_stem_of(target@, stem@),
            is_extension_of(target@, ext@),
            reported(taken, target@, true),
            forall|m: nat| 1 <= m < n ==> #[trigger] numbered_reported(taken, dir@, stem@, ext@, m, true),
        decreases u64::MAX - n,
    {
        let name = numbered_name_exec(stem.as_str(), ext.as_str(), n);
        let candidate = join_path(dir, name.as_str());
        let answer = taken(candidate.as_str());
        assert(is_joined(dir@, numbered_name(stem@, ext@, n as nat), candidate@));
        assert(reported(taken, candidate@, answer));
        if !answer {
            assert(free_path_outcome(taken, dir@, target@, stem@, ext@, candidate@));
            return candidate;
        }
        assert(numbered_reported(taken, dir@, stem@, ext@, n as nat, true));
        n += 1;
    }
    let r = owned(target);
    assert(free_path_outcome(taken, dir@, target@, stem@, ext@, r@));
    r
}

/// Where a finished download goes: `target` when nothing is there yet,
/// otherwise the first free `stem (n).ext` in `dir`, counting from 1; should
/// every number be taken, `target` (`unique_path_by` with the file system's
/// answers). What is on disk can change at any time, so the contract says
/// only that the result is `target` or one of the numbered paths.
pub fn unique_path(dir: &str, target: &str) -> (r: String)
    ensures
        r@ == target@ || exists|n: nat| 1 <= n && #[trigger] is_numbered_path(dir@, target@, n, r@),
{
    let check = |p: &str| path_exists(p);
    let r = unique_path_by(dir, target, check);
    proof {
        let (stem, ext) = choose|stem: Seq<char>, ext: Seq<char>|
            is_stem_of(target@, stem) && is_extension_of(target@, ext) && #[trigger] free_path_outcome(
                check,
                dir@,
                target@,
                stem,
                ext,
                r@,
            );
        if r@ != target@ {
            let n = choose|n: nat|
                1 <= n < u64::MAX && #[trigger] is_joined(dir@, numbered_name(stem, ext, n), r@)
                    && reported(check, r@, false) && forall|m: nat|
                    1 <= m < n ==> #[trigger] numbered_reported(check, dir@, stem, ext, m, true);
            assert(is_numbered_path(dir@, target@, n, r@));
        }
    }
    r
}

// ---------------------------------------------------------------------------
// Resuming and totals
// ---------------------------------------------------------------------------

/// The `Range` header that resumes after `resume_from` bytes; none for a
/// fresh download.
pub fn range_header(resume_from: u64) -> (r: Option<String>)
    ensures
        resume_from == 0 ==> r is None,
        resume_from > 0 ==> (r matches Some(h) && h@ == "bytes="@ + decimal(resume_from as nat) + "-"@),
{
    if resume_from == 0 {
        None
    } else {
        let mut h = owned("bytes=");
        push_str(&mut h, u64_to_string(resume_from).as_str());
        push_str(&mut h, "-");
        Some(h)
    }
}

/// Whether a download reply's status is acceptable: success, or 206 for a
/// resumed download.
pub fn download_status_ok(status: u16) -> (r: bool)
    ensures
        r == (200 <= status <= 299),
{
    200 <= status && status <= 299
}

/// The error for a refused download; `status` as shown to the user.
pub fn download_status_error(status: &str) -> (r: AppError)
    ensures
        r matches AppError::Lanzou(m) && m@ == "下载失败: HTTP "@ + status@,
{
    let mut m = owned("下载失败: HTTP ");
    push_str(&mut m, status);
    AppError::Lanzou(m)
}

/// The text after the last `/` of a `Content-Range` value (all of it
/// without one).
pub open spec fn after_last_slash(s: Seq<char>) -> Seq<char>
    decreases s.len(),
{
    if s.len() == 0 {
        s
    } else if s.last() == '/' {
        Seq::empty()
    } else {
        after_last_slash(s.drop_last()).push(s.last())
    }
}

/// The full size in a `Content-Range` value (`bytes a-b/size`).
pub open spec fn content_range_total(v: Seq<char>) -> Option<u64> {
    parse_u64_spec(trim_seq(after_last_slash(v)))
}

pub fn content_range_total_exec(v: &str) -> (r: Option<u64>)
    ensures
        r == content_range_total(v@),
{
    let cs = chars_of(v);
    let mut k = cs.len();
    assert(cs@.subrange(0, cs@.len() as int) =~= cs@);
    assert(cs@.subrange(cs@.len() as int, cs@.len() as int) =~= Seq::<char>::empty());
    assert(after_last_slash(cs@) =~= after_last_slash(cs@.subrange(0, k as int)) + cs@.subrange(k as int, cs@.len() as int));
    while k > 0 && cs[k - 1] != '/'
        invariant
            k <= cs.len(),
            after_last_slash(cs@) == after_last_slash(cs@.subrange(0, k as int)) + cs@.subrange(
                k as int,
                cs@.len() as int,
            ),
            forall|j: int| k <= j < cs@.len() ==> cs@[j] != '/',
        decreases k,
    {
        let ghost pre = cs@.subrange(0, k as int);
        assert(pre.drop_last() =~= cs@.subrange(0, k - 1));
        assert(cs@.subrange(k - 1, cs@.len() as int) =~= seq![pre.last()] + cs@.subrange(k as int, cs@.len() as int));
        assert(after_last_slash(pre) == after_last_slash(pre.drop_last()).push(pre.last()));
        assert(after_last_slash(cs@.subrange(0, k - 1)) + cs@.subrange(k - 1, cs@.len() as int) =~= after_last_slash(pre) + cs@.subrange(k as int, cs@.len() as int));
        k -= 1;
    }
    proof {
        let pre = cs@.subrange(0, k as int);
        if k > 0 {
            assert(pre.last() == '/');
            assert(after_last_slash(pre) =~= Seq::<char>::empty());
        } else {
            assert(pre.len() == 0);
        }
        assert(after_last_slash(cs@) =~= cs@.subrange(k as int, cs@.len() as int));
    }
    let tail = string_of_range(&cs, k, cs.len());
    let t = trim_string(tail.as_str());
    parse_u64(t.as_str())
}

/// What a download reply says about the transfer: the full size and where
/// the download continues.
#[derive(Debug, Clone, Copy, PartialEq, Eq, Structural)]
pub struct TransferStart {
    /// Full size of the file (0 when unknown).
    pub total: u64,
    /// Bytes already on disk that the transfer continues after.
    pub resume_from: u64,
    /// The partial file must be emptied first: the server ignored the
    /// range and sends everything.
    pub restart: bool,
}

/// Judges a reply to a (possibly resumed) download: with 206 the full size
/// is the `Content-Range` total, else the bytes on disk plus the reply's
/// length (wrapping as release builds do); with any other status the
/// download starts over and the full size is the reply's length.
pub fn transfer_start(partial: bool, content_length: Option<u64>, content_range: Option<&str>, resume_from: u64) -> (r: TransferStart)
    ensures
        partial ==> r.resume_from == resume_from && !r.restart && r.total == (match (match content_range {
            Some(v) => content_range_total(v@),
            None => None,
        }) {
            Some(t) => t,
            None => vstd::wrapping::u64_specs::wrapping_add(
                resume_from,
                match content_length {
                    Some(l) => l,
                    None => 0,
                },
            ),
        }),
        !partial ==> r.resume_from == 0 && r.restart == (resume_from > 0) && r.total == (match content_length {
            Some(l) => l,
            None => 0,
        }),
{
    let len = match content_length {
        Some(l) => l,
        None => 0,
    };
    if partial {
        let parsed = match content_range {
            Some(v) => content_range_total_exec(v),
            None => None,
        };
        let total = match parsed {
            Some(t) => t,
            None => resume_from.wrapping_add(len),
        };
        TransferStart { total, resume_from, restart: false }
    } else {
        TransferStart { total: len, resume_from: 0, restart: resume_from > 0 }
    }
}

// ---------------------------------------------------------------------------
// Retries
// ---------------------------------------------------------------------------

/// Attempts made before giving up.
pub const DOWNLOAD_ATTEMPTS: u32 = 3u32;

/// Whether an error's underlying cause names a dropped connection.
pub open spec fn is_io_reset_spec(text: Seq<char>) -> bool {
    contains_seq(text, "reset"@) || contains_seq(text, "Connection reset"@) || contains_seq(text, "broken pipe"@)
}

/// Whether an error's underlying cause (as text) names a dropped
/// connection.
pub fn is_io_reset(text: &str) -> (r: bool)
    ensures
        r == is_io_reset_spec(text@),
{
    str_contains(text, "reset") || str_contains(text, "Connection reset") || str_contains(text, "broken pipe")
}

/// Whether a network error is worth retrying: a timeout, a connection, body
/// or decoding failure, or a dropped connection underneath.
pub fn is_transient(timeout: bool, connect: bool, body: bool, decode: bool, source: Option<&str>) -> (r: bool)
    ensures
        r == (timeout || connect || body || decode || (match source {
            Some(t) => is_io_reset_spec(t@),
            None => false,
        })),
{
    if timeout || connect || body || decode {
        return true;
    }
    match source {
        Some(t) => is_io_reset(t),
        None => false,
    }
}

/// After a failed attempt (counting from 0): the pause in milliseconds
/// before the next one, when a transient network error leaves attempts;
/// `None` when the error stands.
pub fn retry_delay(attempt: u32, transient_http: bool) -> (r: Option<u64>)
    ensures
        (attempt < DOWNLOAD_ATTEMPTS - 1 && transient_http) ==> r == Some((500 * (attempt + 1)) as u64),
        !(attempt < DOWNLOAD_ATTEMPTS - 1 && transient_http) ==> r is None,
{
    if attempt < DOWNLOAD_ATTEMPTS - 1 && transient_http {
        Some(500 * (attempt as u64 + 1))
    } else {
        None
    }
}

/// The progress report of a finished download.
pub fn finished_progress(id: String, name: String, downloaded: u64, total: u64, file_path: String) -> (r: DownloadProgress)
    ensures
        r.id == id && r.name == name && r.downloaded == downloaded && r.total == total,
        r.speed == 0,
        r.file_path == Some(file_path),
{
    DownloadProgress { id, name, downloaded, total, speed: 0, file_path: Some(file_path) }
}

} // verus!
