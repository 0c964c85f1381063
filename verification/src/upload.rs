//! Uploads: the size limit, how each file is sent (whole, in chunks, or
//! not at all), the byte ranges of the chunks and the names they get.

use rand::Rng;
use vstd::prelude::*;

use crate::error::AppError;
use crate::text::{decimal, owned, pad_zeros, push_char, push_str, repeat_char, u64_to_string};

verus! {

/// An upload request: a local file or folder, the target cloud folder, an
/// optional name for it, and whether files over the account limit are sent
/// in chunks.
#[derive(Debug, Clone, PartialEq, Eq)]
pub struct UploadTask {
    pub id: String,
    pub path: String,
    pub folder_id: i64,
    pub name: Option<String>,
    pub chunk_oversized: Option<bool>,
}

/// Progress of an upload: bytes sent so far, the total, and the speed.
#[derive(Debug, Clone, PartialEq, Eq)]
pub struct UploadProgress {
    pub id: String,
    pub name: String,
    pub uploaded: u64,
    pub total: u64,
    pub speed: u64,
}

/// The cloud folder created to hold the chunks of a split upload.
#[derive(Debug, Clone, PartialEq, Eq)]
pub struct ChunkFolderEvent {
    pub task_id: String,
    pub folder_id: i64,
}

/// A local file over the account's single-file limit.
#[derive(Debug, Clone, PartialEq, Eq)]
pub struct OversizedFile {
    pub path: String,
    pub name: String,
    pub rel_path: String,
    pub size: u64,
}

/// The result of checking a selection before upload: the limit (when
/// known) and the files over it.
#[derive(Debug, Clone, PartialEq, Eq)]
pub struct PrecheckResult {
    pub max_size: Option<u64>,
    pub oversized: Vec<OversizedFile>,
}

// ---------------------------------------------------------------------------
// Limits and modes
// ---------------------------------------------------------------------------

/// One mebibyte.
pub const MIB: u64 = 1048576u64;

/// The chunk size configured when none is set, in MiB.
pub const DEFAULT_SPLIT_MB: u32 = 100u32;

/// The chunk size in bytes: the configured size in MiB (100 when unset),
/// saturating, and never above the account limit.
pub open spec fn split_bytes_spec(split_mb: Option<u32>, account_max: Option<u64>) -> u64 {
    let mb: int = match split_mb {
        Some(m) => m as int,
        None => DEFAULT_SPLIT_MB as int,
    };
    let bytes: int = if mb * MIB > u64::MAX { u64::MAX as int } else { mb * MIB };
    let cap: int = match account_max {
        Some(m) => m as int,
        None => u64::MAX as int,
    };
    (if bytes < cap { bytes } else { cap }) as u64
}

/// The chunk size for split uploads.
pub fn split_bytes(split_mb: Option<u32>, account_max: Option<u64>) -> (r: u64)
    ensures
        r == split_bytes_spec(split_mb, account_max),
{
    let mb: u64 = match split_mb {
        Some(m) => m as u64,
        None => DEFAULT_SPLIT_MB as u64,
    };
    let bytes = match mb.checked_mul(MIB) {
        Some(b) => b,
        None => u64::MAX,
    };
    let cap = match account_max {
        Some(m) => m,
        None => u64::MAX,
    };
    if bytes < cap {
        bytes
    } else {
        cap
    }
}

/// How a file is sent.
#[derive(Debug, Clone, Copy, PartialEq, Eq, Structural)]
pub enum UploadMode {
    /// In one request.
    Whole,
    /// In chunks, into a folder named after the file.
    Chunked,
    /// Not at all: over the limit and chunking is off.
    Refused,
}

/// Whether a file of `size` bytes is over the account limit.
pub open spec fn is_oversized(size: u64, account_max: Option<u64>) -> bool {
    match account_max {
        Some(m) => size > m,
        None => false,
    }
}

/// How a file of `size` bytes is sent: whole when within the limit (or no
/// limit is known), in chunks when over it and chunking is on, otherwise
/// not at all.
pub fn upload_mode(size: u64, account_max: Option<u64>, chunk_oversized: Option<bool>) -> (r: UploadMode)
    ensures
        !is_oversized(size, account_max) ==> r == UploadMode::Whole,
        is_oversized(size, account_max) && chunk_oversized == Some(true) ==> r == UploadMode::Chunked,
        is_oversized(size, account_max) && chunk_oversized != Some(true) ==> r == UploadMode::Refused,
{
    let oversized = match account_max {
        Some(m) => size > m,
        None => false,
    };
    let chunk = match chunk_oversized {
        Some(b) => b,
        None => false,
    };
    if !oversized {
        UploadMode::Whole
    } else if chunk {
        UploadMode::Chunked
    } else {
        UploadMode::Refused
    }
}

/// The error for a single file refused for its size; `limit_text` is the
/// limit as shown to the user.
pub fn oversized_error(limit_text: &str) -> (r: AppError)
    ensures
        r matches AppError::Lanzou(m) && m@ == "文件大小超出账号限制（"@ + limit_text@ + "），已跳过"@,
{
    let mut m = owned("文件大小超出账号限制（");
    push_str(&mut m, limit_text);
    push_str(&mut m, "），已跳过");
    AppError::Lanzou(m)
}

/// The error of an upload stopped by the user.
pub fn cancelled_error() -> (r: AppError)
    ensures
        r matches AppError::Lanzou(m) && m@ == "已取消"@,
{
    AppError::Lanzou(owned("已取消"))
}

// ---------------------------------------------------------------------------
// Chunk plan
// ---------------------------------------------------------------------------

/// Number of chunks of at most `split` bytes that cover `size` bytes.
pub open spec fn chunk_count(size: nat, split: nat) -> nat
    recommends
        split > 0,
{
    ((size + split - 1) / (split as int)) as nat
}

/// Offset of chunk `i`.
pub open spec fn chunk_start(split: nat, i: nat) -> nat {
    i * split
}

/// Length of chunk `i`: `split`, or what is left of the file.
pub open spec fn chunk_len(size: nat, split: nat, i: nat) -> nat {
    if size >= i * split + split {
        split
    } else {
        (size - i * split) as nat
    }
}

/// Sum of the lengths of the first `k` chunks.
pub open spec fn chunk_total(size: nat, split: nat, k: nat) -> nat
    decreases k,
{
    if k == 0 {
        0
    } else {
        chunk_total(size, split, (k - 1) as nat) + chunk_len(size, split, (k - 1) as nat)
    }
}

proof fn lemma_chunk_count(size: nat, split: nat)
    requires
        split > 0,
    ensures
        chunk_count(size, split) * split >= size,
        size > 0 ==> (chunk_count(size, split) - 1) * split < size,
        size == 0 ==> chunk_count(size, split) == 0,
{
    let c = chunk_count(size, split);
    let n = size + split - 1;
    assert(n == (n / split as int) * split + n % (split as int)) by (nonlinear_arith)
        requires
            split > 0,
    ;
    assert(0 <= n % (split as int) < split) by (nonlinear_arith)
        requires
            split > 0,
    ;
    assert(c == n / (split as int));
    assert(c * split >= size) by (nonlinear_arith)
        requires
            n == c * split + n % (split as int),
            n % (split as int) < split,
            n == size + split - 1,
    ;
    if size > 0 {
        assert((c - 1) * split < size) by (nonlinear_arith)
            requires
                n == c * split + n % (split as int),
                n % (split as int) >= 0,
                n == size + split - 1,
        ;
    } else {
        assert(c * split <= split - 1) by (nonlinear_arith)
            requires
                n == c * split + n % (split as int),
                n % (split as int) >= 0,
                n == split - 1,
        ;
        assert(c == 0) by (nonlinear_arith)
            requires
                c * split <= split - 1,
                split > 0,
                c >= 0,
        ;
    }
}

proof fn lemma_chunk_total(size: nat, split: nat, k: nat)
    requires
        split > 0,
        k * split <= size,
    ensures
        chunk_total(size, split, k) == k * split,
    decreases k,
{
    if k > 0 {
        let j = (k - 1) as nat;
        assert(j * split + split == k * split) by (nonlinear_arith)
            requires
                j == k - 1,
        ;
        assert(j * split <= size) by (nonlinear_arith)
            requires
                k * split <= size,
                j == k - 1,
        ;
        lemma_chunk_total(size, split, j);
        assert(chunk_len(size, split, j) == split);
        assert(chunk_total(size, split, k) == chunk_total(size, split, j) + chunk_len(size, split, j));
    } else {
        assert(k * split == 0) by (nonlinear_arith)
            requires
                k == 0,
        ;
    }
}

/// The chunks of a file: consecutive, non-empty, and together exactly the
/// file. Chunk `i` starts where the ones before it end, each holds
/// `split` bytes but the last, and their lengths add up to `size`.
pub proof fn law_chunks_cover_file(size: nat, split: nat)
    requires
        split > 0,
    ensures
        chunk_total(size, split, chunk_count(size, split)) == size,
        forall|i: nat| i < chunk_count(size, split) ==> #[trigger] chunk_total(size, split, i) == chunk_start(split, i),
        forall|i: nat| i < chunk_count(size, split) ==> 0 < #[trigger] chunk_len(size, split, i) <= split,
        forall|i: nat| i + 1 < chunk_count(size, split) ==> #[trigger] chunk_len(size, split, i) == split,
{
    lemma_chunk_count(size, split);
    let c = chunk_count(size, split);
    assert forall|i: nat| i < c implies #[trigger] chunk_total(size, split, i) == chunk_start(split, i) by {
        assert(i * split <= (c - 1) * split) by (nonlinear_arith)
            requires
                i <= c - 1,
                split > 0,
        ;
        if size > 0 {
            lemma_chunk_total(size, split, i);
        } else {
            assert(c == 0);
        }
    }
    assert forall|i: nat| i < c implies 0 < #[trigger] chunk_len(size, split, i) <= split by {
        assert(i * split <= (c - 1) * split) by (nonlinear_arith)
            requires
                i <= c - 1,
                split > 0,
        ;
    }
    assert forall|i: nat| i + 1 < c implies #[trigger] chunk_len(size, split, i) == split by {
        assert(i * split + split == (i + 1) * split) by (nonlinear_arith);
        assert((i + 1) * split <= (c - 1) * split) by (nonlinear_arith)
            requires
                i + 1 <= c - 1,
                split > 0,
        ;
        assert(c * split >= size);
        assert((c - 1) * split < size);
        assert(size >= i * split + split);
    }
    if c > 0 {
        let l = (c - 1) as nat;
        assert(l * split < size);
        lemma_chunk_total(size, split, l);
        assert(l * split + split == c * split) by (nonlinear_arith)
            requires
                l == c - 1,
        ;
        assert(chunk_total(size, split, c) == chunk_total(size, split, l) + chunk_len(size, split, l));
    } else {
        assert(size == 0) by (nonlinear_arith)
            requires
                c * split >= size,
                c == 0,
        ;
    }
}

/// A chunked upload never sends more than the account's single-file
/// limit in one request: the chunk size is within the limit, and so is
/// every chunk of any file.
pub proof fn law_chunks_fit_account_limit(size: nat, split_mb: Option<u32>, limit: u64, i: nat)
    requires
        split_bytes_spec(split_mb, Some(limit)) > 0,
        i < chunk_count(size, split_bytes_spec(split_mb, Some(limit)) as nat),
    ensures
        split_bytes_spec(split_mb, Some(limit)) <= limit,
        chunk_len(size, split_bytes_spec(split_mb, Some(limit)) as nat, i) <= limit,
{
    let split = split_bytes_spec(split_mb, Some(limit)) as nat;
    law_chunks_cover_file(size, split);
}

/// The byte ranges `(start, len)` of the chunks of a `size`-byte file sent
/// in pieces of `split` bytes.
pub fn chunk_plan(size: u64, split: u64) -> (r: Vec<(u64, u64)>)
    requires
        split > 0,
    ensures
        r.len() == chunk_count(size as nat, split as nat),
        forall|i: int| 0 <= i < r.len() ==> (#[trigger] r@[i]).0 == chunk_start(split as nat, i as nat)
            && r@[i].1 == chunk_len(size as nat, split as nat, i as nat),
{
    let ghost c = chunk_count(size as nat, split as nat);
    proof {
        lemma_chunk_count(size as nat, split as nat);
        let q = size / split;
        let rm = size % split;
        assert(size == q * split + rm) by (nonlinear_arith)
            requires
                split > 0,
                q == size / split,
                rm == size % split,
        ;
        let n = size + split - 1;
        if rm == 0 {
            assert(n / (split as int) == q) by (nonlinear_arith)
                requires
                    n == q * split + (split - 1),
                    split > 0,
                    q >= 0,
            ;
        } else {
            assert(n == (q + 1) * split + (rm - 1)) by (nonlinear_arith)
                requires
                    n == size + split - 1,
                    size == q * split + rm,
            ;
            assert(q * split >= q) by (nonlinear_arith)
                requires
                    split > 0,
                    q >= 0,
            ;
            assert(n / (split as int) == q + 1) by (nonlinear_arith)
                requires
                    n == (q + 1) * split + (rm - 1),
                    0 < rm < split,
                    q >= 0,
            ;
        }
    }
    let count: u64 = if size % split != 0 { size / split + 1 } else { size / split };
    assert(count == c);
    let mut r: Vec<(u64, u64)> = Vec::new();
    let mut i: u64 = 0;
    while i < count
        invariant
            split > 0,
            count == c,
            c == chunk_count(size as nat, split as nat),
            c * split >= size,
            size > 0 ==> (c - 1) * split < size,
            size == 0 ==> c == 0,
            i <= count,
            r.len() == i,
            forall|j: int| 0 <= j < r.len() ==> (#[trigger] r@[j]).0 == chunk_start(split as nat, j as nat)
                && r@[j].1 == chunk_len(size as nat, split as nat, j as nat),
        decreases count - i,
    {
        proof {
            assert(i * split <= (c - 1) * split) by (nonlinear_arith)
                requires
                    i <= c - 1,
                    split > 0,
            ;
        }
        let start = i * split;
        let left = size - start;
        let len = if left < split { left } else { split };
        r.push((start, len));
        i += 1;
    }
    r
}

// ---------------------------------------------------------------------------
// Chunk names
// ---------------------------------------------------------------------------

/// The made-up suffixes that the service accepts for uploads.
pub open spec fn safe_suffixes() -> Seq<Seq<char>> {
    seq![
        "ct"@, "ke"@, "w3x"@, "mobi"@, "azw"@, "azw3"@, "osk"@, "osz"@, "xpa"@, "cpk"@, "lua"@,
        "gho"@, "ttc"@, "txf"@, "bat"@, "imazingapp"@, "xapk"@, "conf"@, "rp"@, "rplib"@,
        "mobileconfig"@, "appimage"@, "lolgezi"@, "cad"@, "hwt"@, "ce"@, "xmind"@, "bds"@,
        "bdi"@, "ssf"@, "it"@, "pkg"@, "cfg"@,
    ]
}

/// The accepted suffixes, in order.
pub fn safe_suffix_list() -> (r: Vec<&'static str>)
    ensures
        r@.len() == safe_suffixes().len(),
        forall|i: int| 0 <= i < r@.len() ==> (#[trigger] r@[i])@ == safe_suffixes()[i],
{
    let mut r: Vec<&'static str> = Vec::new();
    r.push("ct");
    r.push("ke");
    r.push("w3x");
    r.push("mobi");
    r.push("azw");
    r.push("azw3");
    r.push("osk");
    r.push("osz");
    r.push("xpa");
    r.push("cpk");
    r.push("lua");
    r.push("gho");
    r.push("ttc");
    r.push("txf");
    r.push("bat");
    r.push("imazingapp");
    r.push("xapk");
    r.push("conf");
    r.push("rp");
    r.push("rplib");
    r.push("mobileconfig");
    r.push("appimage");
    r.push("lolgezi");
    r.push("cad");
    r.push("hwt");
    r.push("ce");
    r.push("xmind");
    r.push("bds");
    r.push("bdi");
    r.push("ssf");
    r.push("it");
    r.push("pkg");
    r.push("cfg");
    assert(r@.len() == 33);
    r
}

/// `rand::thread_rng().gen_range(0..n)`: a random index below `n`.
#[verifier::external_body]
fn random_below(n: usize) -> (r: usize)
    requires
        n > 0,
    ensures
        r < n,
{
    rand::thread_rng().gen_range(0..n)
}

/// A made-up double suffix `a.b` with `a` and `b` drawn from the accepted
/// suffixes, so that the service takes any chunk.
pub fn part_suffix() -> (r: String)
    ensures
        exists|a: int, b: int|
            0 <= a < safe_suffixes().len() && 0 <= b < safe_suffixes().len() && r@ == safe_suffixes()[a]
                + "."@ + safe_suffixes()[b],
{
    let list = safe_suffix_list();
    let a = random_below(list.len());
    let b = random_below(list.len());
    let mut r = owned(list[a]);
    push_char(&mut r, '.');
    push_str(&mut r, list[b]);
    proof {
        reveal_strlit(".");
    }
    assert(r@ =~= safe_suffixes()[a as int] + "."@ + safe_suffixes()[b as int]);
    r
}

/// `s` left-padded with zeros to `width` characters.
fn pad_zeros_exec(s: String, width: usize) -> (r: String)
    ensures
        r@ == pad_zeros(s@, width as nat),
{
    let n = s.as_str().unicode_len();
    if n >= width {
        return s;
    }
    let mut r = String::new();
    let mut k: usize = 0;
    while k < width - n
        invariant
            n < width,
            k <= width - n,
            r@ == repeat_char('0', k as nat),
        decreases width - n - k,
    {
        push_char(&mut r, '0');
        k += 1;
        assert(r@ =~= repeat_char('0', k as nat));
    }
    push_str(&mut r, s.as_str());
    r
}

/// The name of chunk number `number` (counting from 1) of `count`:
/// `file_name.NNN.suffix`, the number zero-padded to as many digits as
/// `count` has.
pub open spec fn part_name_spec(file_name: Seq<char>, number: nat, count: nat, suffix: Seq<char>) -> Seq<char> {
    file_name + "."@ + pad_zeros(decimal(number), decimal(count).len()) + "."@ + suffix
}

/// The cloud name of one chunk.
pub fn part_name(file_name: &str, number: u64, count: u64, suffix: &str) -> (r: String)
    ensures
        r@ == part_name_spec(file_name@, number as nat, count as nat, suffix@),
{
    let width = u64_to_string(count).as_str().unicode_len();
    let num = pad_zeros_exec(u64_to_string(number), width);
    let mut r = owned(file_name);
    push_char(&mut r, '.');
    push_str(&mut r, num.as_str());
    push_char(&mut r, '.');
    push_str(&mut r, suffix);
    proof {
        reveal_strlit(".");
    }
    assert(r@ =~= part_name_spec(file_name@, number as nat, count as nat, suffix@));
    r
}

// ---------------------------------------------------------------------------
// Size units
// ---------------------------------------------------------------------------

/// `1024^i`.
pub open spec fn pow1024(i: nat) -> nat
    decreases i,
{
    if i == 0 {
        1
    } else {
        1024 * pow1024((i - 1) as nat)
    }
}

/// The unit a size is shown in: B, KB, MB, GB or TB, that is, the largest
/// `i <= 4` with `1024^i <= bytes` (0 for sizes under 1 KB).
pub open spec fn size_unit_spec(bytes: nat) -> nat {
    if bytes >= pow1024(4) {
        4
    } else if bytes >= pow1024(3) {
        3
    } else if bytes >= pow1024(2) {
        2
    } else if bytes >= pow1024(1) {
        1
    } else {
        0
    }
}

/// The names of the units.
pub open spec fn size_unit_names() -> Seq<Seq<char>> {
    seq!["B"@, "KB"@, "MB"@, "GB"@, "TB"@]
}

/// The unit to show `bytes` in (an index into B, KB, MB, GB, TB) and its
/// name.
pub fn size_unit(bytes: u64) -> (r: (usize, &'static str))
    ensures
        r.0 == size_unit_spec(bytes as nat),
        r.1@ == size_unit_names()[r.0 as int],
{
    assert(pow1024(4) == 1099511627776) by {
        reveal_with_fuel(pow1024, 5);
    }
    assert(pow1024(3) == 1073741824) by {
        reveal_with_fuel(pow1024, 4);
    }
    assert(pow1024(2) == 1048576) by {
        reveal_with_fuel(pow1024, 3);
    }
    assert(pow1024(1) == 1024) by {
        reveal_with_fuel(pow1024, 2);
    }
    if bytes >= 1099511627776u64 {
        (4, "TB")
    } else if bytes >= 1073741824u64 {
        (3, "GB")
    } else if bytes >= 1048576u64 {
        (2, "MB")
    } else if bytes >= 1024u64 {
        (1, "KB")
    } else {
        (0, "B")
    }
}

// ---------------------------------------------------------------------------
// Pre-check
// ---------------------------------------------------------------------------

/// The files of `files` larger than `m`, in order.
pub open spec fn larger_than(files: Seq<OversizedFile>, m: u64) -> Seq<OversizedFile>
    decreases files.len(),
{
    if files.len() == 0 {
        files
    } else {
        let rest = larger_than(files.drop_last(), m);
        if files.last().size > m {
            rest.push(files.last())
        } else {
            rest
        }
    }
}

/// The files over the limit among `files`, in order; none when no limit is
/// known.
pub open spec fn oversized_of(files: Seq<OversizedFile>, account_max: Option<u64>) -> Seq<OversizedFile> {
    match account_max {
        None => Seq::empty(),
        Some(m) => larger_than(files, m),
    }
}

impl OversizedFile {
    /// A field-by-field copy.
    pub fn duplicate(&self) -> (r: OversizedFile)
        ensures
            r == *self,
    {
        OversizedFile {
            path: self.path.clone(),
            name: self.name.clone(),
            rel_path: self.rel_path.clone(),
            size: self.size,
        }
    }
}

/// Keeps the scanned files that are over the limit.
pub fn select_oversized(files: &Vec<OversizedFile>, account_max: Option<u64>) -> (r: Vec<OversizedFile>)
    ensures
        r@ == oversized_of(files@, account_max),
{
    let m = match account_max {
        None => return Vec::new(),
        Some(m) => m,
    };
    let mut r: Vec<OversizedFile> = Vec::new();
    let mut i: usize = 0;
    while i < files.len()
        invariant
            i <= files.len(),
            r@ == larger_than(files@.take(i as int), m),
        decreases files.len() - i,
    {
        assert(files@.take(i + 1).drop_last() =~= files@.take(i as int));
        if files[i].size > m {
            r.push(files[i].duplicate());
        }
        i += 1;
    }
    assert(files@.take(i as int) =~= files@);
    r
}

/// The pre-check result: the limit and the oversized files.
pub fn precheck_result(account_max: Option<u64>, files: Vec<OversizedFile>) -> (r: PrecheckResult)
    ensures
        r.max_size == account_max,
        r.oversized@ == oversized_of(files@, account_max),
{
    PrecheckResult { max_size: account_max, oversized: select_oversized(&files, account_max) }
}

/// The display name of an upload: the chosen name, or the file name of the
/// path.
pub fn upload_display_name(custom: Option<String>, file_name: String) -> (r: String)
    ensures
        r == (match custom {
            Some(n) => n,
            None => file_name,
        }),
{
    match custom {
        Some(n) => n,
        None => file_name,
    }
}

/// The outcome of an upload reply: the uploaded name when the status is 1,
/// otherwise the reply's `info` text (or "上传失败").
pub fn upload_reply(zt: Option<i64>, info: Option<String>, name: &str) -> (r: Result<String, AppError>)
    ensures
        zt == Some(1i64) ==> (r matches Ok(n) && n@ == name@),
        zt != Some(1i64) ==> (r matches Err(AppError::Lanzou(m)) && m@ == (match info {
            Some(t) => t@,
            None => "上传失败"@,
        })),
{
    let z = match zt {
        Some(z) => z,
        None => 0,
    };
    if z == 1 {
        Ok(owned(name))
    } else {
        match info {
            Some(t) => Err(AppError::Lanzou(t)),
            None => Err(AppError::Lanzou(owned("上传失败"))),
        }
    }
}

// ---------------------------------------------------------------------------
// The upload request
// ---------------------------------------------------------------------------

/// The text fields of an upload request for `len` bytes named `name` into
/// folder `folder_id` (the file's bytes follow as `upload_file`).
pub fn upload_form_fields(folder_id: i64, len: u64, name: &str) -> (r: Vec<(String, String)>)
    ensures
        crate::ops::form_view(r@) == seq![
            ("task"@, "1"@),
            ("vie"@, "2"@),
            ("ve"@, "2"@),
            ("id"@, "WU_FILE_0"@),
            ("folder_id_bb_n"@, crate::text::int_text(folder_id as int)),
            ("size"@, decimal(len as nat)),
            ("name"@, name@),
        ],
{
    let mut r: Vec<(String, String)> = Vec::new();
    r.push((owned("task"), owned("1")));
    r.push((owned("vie"), owned("2")));
    r.push((owned("ve"), owned("2")));
    r.push((owned("id"), owned("WU_FILE_0")));
    r.push((owned("folder_id_bb_n"), crate::text::i64_to_string(folder_id)));
    r.push((owned("size"), u64_to_string(len)));
    r.push((owned("name"), owned(name)));
    assert(crate::ops::form_view(r@) =~= seq![
        ("task"@, "1"@),
        ("vie"@, "2"@),
        ("ve"@, "2"@),
        ("id"@, "WU_FILE_0"@),
        ("folder_id_bb_n"@, crate::text::int_text(folder_id as int)),
        ("size"@, decimal(len as nat)),
        ("name"@, name@),
    ]);
    r
}

} // verus!
