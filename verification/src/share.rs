//! Share links: telling files from folders, the names on share pages, the
//! steps to a file's direct link, and the pages of a shared folder.

use vstd::prelude::*;

use crate::error::AppError;
use crate::matcher::{
    calc_acw_sc_v2, acw_sc_v2_spec, match_iframe, match_sign, match_sign_spec, remove_notes,
    capture_or, IFRAME_PATTERN, NOTES_PATTERN, FolderAjaxParams,
};
use crate::ops::form_view;
use crate::pattern::{capture_group, regex_compile_error, regex_group, regex_remove_all};
use crate::text::{
    chars_of, contains_seq, opt_view, owned, push_str, split_exec, split_seq, starts_with_exec,
    starts_with_seq, str_contains, string_of_range, string_views, trim_seq, decimal, u64_to_string,
};
use crate::update::trim_end_slashes;

verus! {

/// A file's direct download link and its name.
#[derive(Debug, Clone, PartialEq, Eq)]
pub struct DownloadUrl {
    pub name: String,
    pub url: String,
}

/// What a share link points at.
#[derive(Debug, Clone, Copy, PartialEq, Eq, Structural)]
pub enum ShareType {
    File,
    Folder,
}

/// What a share link is: a file or a folder, its name, and the access
/// code given with it.
#[derive(Debug, Clone, PartialEq, Eq)]
pub struct ShareInfo {
    pub share_type: ShareType,
    pub name: String,
    pub pwd: Option<String>,
}

/// A file of a shared folder.
#[derive(Debug, Clone, PartialEq, Eq)]
pub struct ShareFile {
    pub name: String,
    /// Human-readable size.
    pub size: String,
    pub time: String,
    /// The file's own share link.
    pub url: String,
}

/// A shared folder: its name, its total size (as shown) and its files.
#[derive(Debug, Clone, PartialEq, Eq)]
pub struct ShareFolder {
    pub name: String,
    pub size: String,
    pub list: Vec<ShareFile>,
}

// ---------------------------------------------------------------------------
// Addresses
// ---------------------------------------------------------------------------

/// `url::Url::parse(url)`: on success the scheme and the host (`None`
/// when the address has none); `None` when the address does not parse.
pub uninterp spec fn url_scheme_host(url: Seq<char>) -> Option<(Seq<char>, Option<Seq<char>>)>;

/// Parses `url` with `url::Url::parse` and returns `scheme()` and
/// `host_str()`. Claims only that the outcome is the named one.
#[verifier::external_body]
fn parse_scheme_host(url: &str) -> (r: Option<(String, Option<String>)>)
    ensures
        match r {
            Some((s, h)) => url_scheme_host(url@) == Some((s@, opt_view(h))),
            None => url_scheme_host(url@) is None,
        },
{
    match url::Url::parse(url) {
        Ok(u) => Some((u.scheme().to_string(), u.host_str().map(|h| h.to_string()))),
        Err(_) => None,
    }
}

/// The scheme and host of an address, `scheme://host` (an empty host when
/// it has none); the address itself when it does not parse.
pub open spec fn base_domain_spec(url: Seq<char>) -> Seq<char> {
    match url_scheme_host(url) {
        Some((s, Some(h))) => s + "://"@ + h,
        Some((s, None)) => s + "://"@,
        None => url,
    }
}

/// `scheme://host` of an address.
pub fn base_domain(url: &str) -> (r: String)
    ensures
        r@ == base_domain_spec(url@),
{
    match parse_scheme_host(url) {
        Some((s, h)) => {
            let mut r = s;
            push_str(&mut r, "://");
            if let Some(h) = h {
                push_str(&mut r, h.as_str());
            }
            proof {
                reveal_strlit("://");
                assert(r@ == base_domain_spec(url@));
            }
            r
        },
        None => owned(url),
    }
}

/// An address relative to `base`: kept when it starts with `http`,
/// otherwise joined to `base` (its trailing `/`s dropped) with one `/`.
pub open spec fn resolve_url_spec(base: Seq<char>, path: Seq<char>) -> Seq<char> {
    if starts_with_seq(path, "http"@) {
        path
    } else if starts_with_seq(path, "/"@) {
        trim_end_slashes(base) + path
    } else {
        trim_end_slashes(base) + "/"@ + path
    }
}

/// `base` without its trailing `/`s.
fn trim_end_slashes_exec(base: &str) -> (r: String)
    ensures
        r@ == trim_end_slashes(base@),
{
    let v = chars_of(base);
    let mut e = v.len();
    assert(v@.subrange(0, v@.len() as int) =~= v@);
    while e > 0 && v[e - 1] == '/'
        invariant
            e <= v.len(),
            trim_end_slashes(v@) == trim_end_slashes(v@.subrange(0, e as int)),
        decreases e,
    {
        assert(v@.subrange(0, e as int).drop_last() =~= v@.subrange(0, e - 1));
        e -= 1;
    }
    string_of_range(&v, 0, e)
}

/// Resolves a link found on a page against the page's address.
pub fn resolve_url(base: &str, path: &str) -> (r: String)
    ensures
        r@ == resolve_url_spec(base@, path@),
{
    let pv = chars_of(path);
    if starts_with_exec(&pv, "http") {
        return owned(path);
    }
    let mut r = trim_end_slashes_exec(base);
    if !starts_with_exec(&pv, "/") {
        push_str(&mut r, "/");
    }
    push_str(&mut r, path);
    r
}

// ---------------------------------------------------------------------------
// The share page
// ---------------------------------------------------------------------------

/// The page with its comments removed (left as it is should the pattern
/// not compile).
pub open spec fn notes_removed(html: Seq<char>) -> Seq<char> {
    match regex_compile_error(NOTES_PATTERN@) {
        None => regex_remove_all(NOTES_PATTERN@, html),
        Some(_) => html,
    }
}

/// The anti-crawler cookie to set before fetching a share page again:
/// computed when the page holds the `acw_sc__v2` challenge.
pub fn challenge_cookie(html: &str) -> (r: Option<String>)
    ensures
        !contains_seq(html@, "acw_sc__v2"@) ==> r is None,
        contains_seq(html@, "acw_sc__v2"@) ==> opt_view(r) == acw_sc_v2_spec(html@),
{
    if str_contains(html, "acw_sc__v2") {
        calc_acw_sc_v2(html)
    } else {
        None
    }
}

/// The first pattern of `pats` that compiles and matches, and the trimmed
/// text of its group 1.
pub open spec fn first_capture(pats: Seq<Seq<char>>, html: Seq<char>) -> Option<Seq<char>>
    decreases pats.len(),
{
    if pats.len() == 0 {
        None
    } else {
        match (regex_compile_error(pats[0]), regex_group(pats[0], html, 1)) {
            (None, Some(g)) => Some(trim_seq(g)),
            _ => first_capture(pats.drop_first(), html),
        }
    }
}

fn first_capture_exec(pats: &Vec<&'static str>, html: &str) -> (r: Option<String>)
    ensures
        opt_view(r) == first_capture(pats@.map_values(|p: &'static str| p@), html@),
{
    let ghost ps = pats@.map_values(|p: &'static str| p@);
    assert(ps.subrange(0, ps.len() as int) =~= ps);
    let mut i: usize = 0;
    while i < pats.len()
        invariant
            i <= pats.len(),
            ps == pats@.map_values(|p: &'static str| p@),
            first_capture(ps, html@) == first_capture(ps.subrange(i as int, ps.len() as int), html@),
        decreases pats.len() - i,
    {
        let ghost rest = ps.subrange(i as int, ps.len() as int);
        assert(rest.drop_first() =~= ps.subrange(i + 1, ps.len() as int));
        assert(rest[0] == pats@[i as int]@);
        match capture_group(pats[i], html, 1) {
            Ok(Some(g)) => {
                return Some(crate::text::trim_string(g.as_str()));
            },
            _ => {},
        }
        i += 1;
    }
    assert(ps.subrange(i as int, ps.len() as int).len() == 0);
    None
}

/// Where a shared file's name may stand, in order of preference.
pub open spec fn file_name_patterns() -> Seq<Seq<char>> {
    seq![
        r"<title>([^<]+?)\s*-\s*蓝奏云</title>"@,
        r#"var filename\s*=\s*'([^']+)'"#@,
        r#"<div class="filethetext"[^>]*>([^<]+?)</div>"#@,
        r#"id="filenajax">([^<]+?)</div>"#@,
    ]
}

/// Where a shared folder's name may stand, in order of preference.
pub open spec fn folder_name_patterns() -> Seq<Seq<char>> {
    seq![
        r#"<title>([^<]+?)\s*-\s*蓝奏云</title>"#@,
        r#"<div class="user-title">([^<]+?)</div>"#@,
        r#"var\s+.+?\s*=\s*'(.+?)';\n.+document\.title"#@,
    ]
}

/// The name of a shared file on its page.
pub open spec fn file_name_spec(html: Seq<char>) -> Seq<char> {
    match first_capture(file_name_patterns(), html) {
        Some(n) => n,
        None => "未匹配到文件名"@,
    }
}

/// The name of a shared folder on its page.
pub open spec fn folder_name_spec(html: Seq<char>) -> Seq<char> {
    match first_capture(folder_name_patterns(), html) {
        Some(n) => n,
        None => "未匹配到文件夹名"@,
    }
}

/// The name of a shared file on its page.
pub fn extract_file_name(html: &str) -> (r: String)
    ensures
        r@ == file_name_spec(html@),
{
    let mut pats: Vec<&'static str> = Vec::new();
    pats.push(r"<title>([^<]+?)\s*-\s*蓝奏云</title>");
    pats.push(r#"var filename\s*=\s*'([^']+)'"#);
    pats.push(r#"<div class="filethetext"[^>]*>([^<]+?)</div>"#);
    pats.push(r#"id="filenajax">([^<]+?)</div>"#);
    assert(pats@.map_values(|p: &'static str| p@) =~= file_name_patterns());
    match first_capture_exec(&pats, html) {
        Some(n) => n,
        None => owned("未匹配到文件名"),
    }
}

/// The name of a shared folder on its page.
pub fn extract_folder_name(html: &str) -> (r: String)
    ensures
        r@ == folder_name_spec(html@),
{
    let mut pats: Vec<&'static str> = Vec::new();
    pats.push(r#"<title>([^<]+?)\s*-\s*蓝奏云</title>"#);
    pats.push(r#"<div class="user-title">([^<]+?)</div>"#);
    pats.push(r#"var\s+.+?\s*=\s*'(.+?)';\n.+document\.title"#);
    assert(pats@.map_values(|p: &'static str| p@) =~= folder_name_patterns());
    match first_capture_exec(&pats, html) {
        Some(n) => n,
        None => owned("未匹配到文件夹名"),
    }
}

/// A line of text without its line ending (`str::lines`).
pub open spec fn line_text(piece: Seq<char>) -> Seq<char> {
    if piece.len() > 0 && piece.last() == '\r' {
        piece.drop_last()
    } else {
        piece
    }
}

/// The line tells why a share cannot be read.
pub open spec fn is_error_line(l: Seq<char>) -> bool {
    contains_seq(l, "该文件已删除"@) || contains_seq(l, "操作失败"@) || contains_seq(l, "页面不存在"@)
}

/// The first line of `lines` (from `i` on) that tells why a share cannot
/// be read.
pub open spec fn first_error_line(lines: Seq<Seq<char>>, i: int) -> Option<Seq<char>>
    decreases lines.len() - i,
{
    if i < 0 || i >= lines.len() {
        None
    } else if is_error_line(line_text(lines[i])) {
        Some(line_text(lines[i]))
    } else {
        first_error_line(lines, i + 1)
    }
}

/// The error of an unreadable share page: its first line naming the cause,
/// or "解析失败".
pub open spec fn share_error_spec(html: Seq<char>) -> Seq<char> {
    match first_error_line(split_seq(html, "\n"@), 0) {
        Some(l) => l,
        None => "解析失败"@,
    }
}

fn share_error_message(html: &str) -> (r: String)
    ensures
        r@ == share_error_spec(html@),
{
    proof {
        reveal_strlit("\n");
    }
    let hv = chars_of(html);
    let lines = split_exec(&hv, "\n");
    let ghost ls = string_views(lines@);
    let mut i: usize = 0;
    while i < lines.len()
        invariant
            i <= lines.len(),
            ls == string_views(lines@),
            ls == split_seq(html@, "\n"@),
            first_error_line(ls, 0) == first_error_line(ls, i as int),
        decreases lines.len() - i,
    {
        let lv = chars_of(lines[i].as_str());
        let n = lv.len();
        let e = if n > 0 && lv[n - 1] == '\r' { n - 1 } else { n };
        let l = string_of_range(&lv, 0, e);
        assert(ls[i as int] == lines@[i as int]@);
        assert(l@ == line_text(ls[i as int])) by {
            if n > 0 && lv@[n - 1] == '\r' {
                assert(lv@.subrange(0, e as int) =~= lv@.drop_last());
            } else {
                assert(lv@.subrange(0, e as int) =~= lv@);
            }
        }
        if str_contains(l.as_str(), "该文件已删除") || str_contains(l.as_str(), "操作失败") || str_contains(l.as_str(), "页面不存在") {
            return l;
        }
        i += 1;
    }
    owned("解析失败")
}

/// What a share page (comments removed) shows.
pub open spec fn page_is_file(h: Seq<char>) -> bool {
    contains_seq(h, "<iframe"@) || contains_seq(h, "id=\"passwddiv\""@) || contains_seq(h, "id=\"downajax\""@)
}

/// The page shows a folder.
pub open spec fn page_is_folder(h: Seq<char>) -> bool {
    contains_seq(h, "id=\"pwdload\""@) || contains_seq(h, "id=\"filemore\""@) || contains_seq(h, "filemoreajax"@)
}

/// Reads a share page: a file (which needs the access code when the page
/// asks for one) or a folder, with its name; otherwise the page's error.
pub fn share_info_from_page(page: &str, pwd: Option<&str>) -> (r: Result<ShareInfo, AppError>)
    ensures
        ({
            let h = notes_removed(page@);
            if page_is_file(h) {
                if contains_seq(h, "id=\"passwddiv\""@) && pwd is None {
                    r matches Err(AppError::Lanzou(m)) && m@ == "需要提取码"@
                } else {
                    r matches Ok(i) && i.share_type == ShareType::File && i.name@ == file_name_spec(h)
                        && opt_view(i.pwd) == (match pwd {
                        Some(p) => Some(p@),
                        None => None,
                    })
                }
            } else if page_is_folder(h) {
                r matches Ok(i) && i.share_type == ShareType::Folder && i.name@ == folder_name_spec(h)
                    && opt_view(i.pwd) == (match pwd {
                    Some(p) => Some(p@),
                    None => None,
                })
            } else {
                r matches Err(AppError::Lanzou(m)) && m@ == share_error_spec(h)
            }
        }),
{
    let html = remove_notes(page);
    let h = html.as_str();
    let has_pwd_div = str_contains(h, "id=\"passwddiv\"");
    let is_file = str_contains(h, "<iframe") || has_pwd_div || str_contains(h, "id=\"downajax\"");
    let is_pwd_folder = str_contains(h, "id=\"pwdload\"");
    let is_folder = str_contains(h, "id=\"filemore\"") || str_contains(h, "filemoreajax");
    let code = match pwd {
        Some(p) => Some(owned(p)),
        None => None,
    };
    if is_file {
        if has_pwd_div && pwd.is_none() {
            return Err(AppError::Lanzou(owned("需要提取码")));
        }
        return Ok(ShareInfo { share_type: ShareType::File, name: extract_file_name(h), pwd: code });
    }
    if is_folder || is_pwd_folder {
        return Ok(ShareInfo { share_type: ShareType::Folder, name: extract_folder_name(h), pwd: code });
    }
    Err(AppError::Lanzou(share_error_message(h)))
}

// ---------------------------------------------------------------------------
// Direct links
// ---------------------------------------------------------------------------

/// The download interface named in a page's script.
pub const AJAX_PATH_PATTERN: &'static str = r#"url\s*:\s*'/(?:ajaxm|ajaxfile)\.php\?file=\d+'"#;

/// The `file` parameter of an interface path.
pub const FILE_PARAM_PATTERN: &'static str = r"file=(\d+)";

/// The signing key of newer download pages.
pub const AJAXDATA_PATTERN: &'static str = r#"var\s+ajaxdata\s*=\s*'([^']+)'"#;

/// `s` without every leading copy of `p` (`str::trim_start_matches`).
pub open spec fn strip_leading(s: Seq<char>, p: Seq<char>) -> Seq<char>
    decreases s.len(),
{
    if p.len() > 0 && starts_with_seq(s, p) {
        strip_leading(s.subrange(p.len() as int, s.len() as int), p)
    } else {
        s
    }
}

/// `s` without `c` at either end (`str::trim_matches` with a `char`).
pub open spec fn strip_char_both(s: Seq<char>, c: char) -> Seq<char>
    decreases s.len(),
{
    if s.len() > 0 && s[0] == c {
        strip_char_both(s.drop_first(), c)
    } else if s.len() > 0 && s.last() == c {
        strip_char_both(s.drop_last(), c)
    } else {
        s
    }
}

fn strip_leading_exec(s: &str, p: &str) -> (r: String)
    ensures
        r@ == strip_leading(s@, p@),
{
    let v = chars_of(s);
    let pv = chars_of(p);
    let mut i: usize = 0;
    assert(v@.subrange(0, v@.len() as int) =~= v@);
    while pv.len() > 0 && crate::text::occurs_at_exec(&v, &pv, i)
        invariant
            i <= v.len(),
            pv@ == p@,
            strip_leading(s@, p@) == strip_leading(v@.subrange(i as int, v@.len() as int), p@),
            v@ == s@,
        decreases v.len() - i,
    {
        assert(v@.subrange(i as int, v@.len() as int).subrange(0, pv@.len() as int) =~= v@.subrange(i as int, i + pv@.len()));
        assert(v@.subrange(i as int, v@.len() as int).subrange(pv@.len() as int, v@.len() - i) =~= v@.subrange(i + pv@.len(), v@.len() as int));
        i = i + pv.len();
    }
    assert(pv@.len() > 0 ==> !starts_with_seq(v@.subrange(i as int, v@.len() as int), p@)) by {
        if pv@.len() > 0 && starts_with_seq(v@.subrange(i as int, v@.len() as int), p@) {
            assert(v@.subrange(i as int, v@.len() as int).subrange(0, pv@.len() as int) =~= v@.subrange(i as int, i + pv@.len()));
        }
    }
    string_of_range(&v, i, v.len())
}

fn strip_char_both_exec(s: &str, c: char) -> (r: String)
    ensures
        r@ == strip_char_both(s@, c),
{
    let v = chars_of(s);
    let mut a: usize = 0;
    let mut b = v.len();
    assert(v@.subrange(0, v@.len() as int) =~= v@);
    while a < b && v[a] == c
        invariant
            a <= b == v.len(),
            strip_char_both(s@, c) == strip_char_both(v@.subrange(a as int, b as int), c),
            v@ == s@,
        decreases b - a,
    {
        assert(v@.subrange(a as int, b as int).drop_first() =~= v@.subrange(a + 1, b as int));
        a += 1;
    }
    while a < b && v[b - 1] == c
        invariant
            a <= b <= v.len(),
            strip_char_both(s@, c) == strip_char_both(v@.subrange(a as int, b as int), c),
            a < b ==> v@[a as int] != c,
            v@ == s@,
        decreases b - a,
    {
        assert(v@.subrange(a as int, b as int).drop_last() =~= v@.subrange(a as int, b - 1));
        b -= 1;
    }
    string_of_range(&v, a, b)
}

/// The interface path of a download page: the quoted path after `url:` in
/// the page's script, or `ajaxfile.php` at the root of `fallback_base`'s
/// domain.
pub open spec fn ajax_path_spec(html: Seq<char>, fallback_base: Seq<char>) -> Seq<char> {
    match (regex_compile_error(AJAX_PATH_PATTERN@), regex_group(AJAX_PATH_PATTERN@, html, 0)) {
        (None, Some(m)) => strip_char_both(
            trim_seq(strip_leading(trim_seq(strip_leading(m, "url"@)), ":"@)),
            '\'',
        ),
        _ => trim_end_slashes(base_domain_spec(fallback_base)) + "/ajaxfile.php"@,
    }
}

/// The interface path of a download page.
pub fn extract_ajaxm_path(html: &str, fallback_base: &str) -> (r: String)
    ensures
        r@ == ajax_path_spec(html@, fallback_base@),
{
    match capture_group(AJAX_PATH_PATTERN, html, 0) {
        Ok(Some(m)) => {
            let a = strip_leading_exec(m.as_str(), "url");
            let b = crate::text::trim_string(a.as_str());
            let c = strip_leading_exec(b.as_str(), ":");
            let d = crate::text::trim_string(c.as_str());
            strip_char_both_exec(d.as_str(), '\'')
        },
        _ => {
            let base = base_domain(fallback_base);
            let mut r = trim_end_slashes_exec(base.as_str());
            push_str(&mut r, "/ajaxfile.php");
            r
        },
    }
}

/// The `file` parameter of an interface path.
pub open spec fn file_param_spec(path: Seq<char>) -> Option<Seq<char>> {
    match regex_compile_error(FILE_PARAM_PATTERN@) {
        Some(_) => None,
        None => regex_group(FILE_PARAM_PATTERN@, path, 1),
    }
}

/// The `file` parameter of an interface path.
pub fn extract_file_param(path: &str) -> (r: Option<String>)
    ensures
        opt_view(r) == file_param_spec(path@),
{
    match capture_group(FILE_PARAM_PATTERN, path, 1) {
        Ok(g) => g,
        Err(_) => None,
    }
}

/// The signing key of a newer download page.
pub open spec fn ajaxdata_spec(html: Seq<char>) -> Option<Seq<char>> {
    match regex_compile_error(AJAXDATA_PATTERN@) {
        Some(_) => None,
        None => regex_group(AJAXDATA_PATTERN@, html, 1),
    }
}

/// The signing key of a newer download page.
pub fn extract_ajaxdata(html: &str) -> (r: Option<String>)
    ensures
        opt_view(r) == ajaxdata_spec(html@),
{
    match capture_group(AJAXDATA_PATTERN, html, 1) {
        Ok(g) => g,
        Err(_) => None,
    }
}

/// The address the download form goes to: a path from the root of the
/// referring page's domain, or a link relative to that page.
pub open spec fn ajax_url_spec(referer: Seq<char>, path: Seq<char>) -> Seq<char> {
    if starts_with_seq(path, "/"@) {
        base_domain_spec(referer) + path
    } else {
        resolve_url_spec(referer, path)
    }
}

/// A full interface address (one that starts with `http`) is posted to as
/// it is; a path from the root goes after the referring page's
/// `scheme://host`.
pub proof fn law_ajax_url_keeps_full_addresses(referer: Seq<char>, path: Seq<char>)
    ensures
        starts_with_seq(path, "http"@) ==> ajax_url_spec(referer, path) == path,
        starts_with_seq(path, "/"@) ==> ajax_url_spec(referer, path) == base_domain_spec(referer) + path,
{
    reveal_strlit("http");
    reveal_strlit("/");
    if starts_with_seq(path, "http"@) {
        assert(path.subrange(0, 4)[0] == path[0]);
        assert(path[0] == 'h');
        if starts_with_seq(path, "/"@) {
            assert(path.subrange(0, 1)[0] == path[0]);
        }
    }
}

/// The address the download form goes to.
pub fn ajax_url(referer: &str, path: &str) -> (r: String)
    ensures
        r@ == ajax_url_spec(referer@, path@),
{
    let pv = chars_of(path);
    if starts_with_exec(&pv, "/") {
        let mut r = base_domain(referer);
        push_str(&mut r, path);
        r
    } else {
        resolve_url(referer, path)
    }
}

/// The fields of a download form: the fixed ones, then the `file`
/// parameter when there is one.
pub open spec fn with_file_param(fields: Seq<(Seq<char>, Seq<char>)>, path: Seq<char>) -> Seq<(Seq<char>, Seq<char>)> {
    match file_param_spec(path) {
        Some(f) => fields.push(("file"@, f)),
        None => fields,
    }
}

/// The download form of a file behind an access code.
pub open spec fn pwd_form_spec(sign: Seq<char>, pwd: Seq<char>, path: Seq<char>) -> Seq<(Seq<char>, Seq<char>)> {
    with_file_param(
        seq![("action"@, "downprocess"@), ("sign"@, sign), ("kd"@, "1"@), ("p"@, pwd)],
        path,
    )
}

/// The download form of a file's download page: signed with the page's key
/// when it has one, otherwise carrying the access code (or nothing) and the
/// `file` parameter.
pub open spec fn page_form_spec(sign: Seq<char>, key: Option<Seq<char>>, pwd: Seq<char>, path: Seq<char>) -> Seq<(Seq<char>, Seq<char>)> {
    match key {
        Some(ws) => seq![
            ("action"@, "downprocess"@),
            ("sign"@, sign),
            ("websignkey"@, ws),
            ("signs"@, ws),
            ("websign"@, "2"@),
            ("kd"@, "1"@),
            ("ves"@, "1"@),
        ],
        None => with_file_param(
            seq![("action"@, "downprocess"@), ("sign"@, sign), ("p"@, pwd)],
            path,
        ),
    }
}

fn push_file_param(form: &mut Vec<(String, String)>, path: &str)
    ensures
        form_view(final(form)@) == with_file_param(form_view(old(form)@), path@),
{
    match extract_file_param(path) {
        Some(f) => {
            form.push((owned("file"), f));
            assert(form_view(form@) =~= form_view(old(form)@).push(("file"@, form@.last().1@)));
        },
        None => {},
    }
}

/// The access code goes with the download form: without a signing key the
/// download page's form is `action=downprocess`, the page's sign, then
/// `p` = the access code (empty when none was given), whatever the sign,
/// code and interface path; the form of a page behind an access code
/// carries the code as `p` too.
pub proof fn law_download_form_carries_the_access_code(
    sign: Seq<char>,
    pwd: Seq<char>,
    path: Seq<char>,
)
    ensures
        page_form_spec(sign, None, pwd, path).len() >= 3,
        page_form_spec(sign, None, pwd, path)[0] == ("action"@, "downprocess"@),
        page_form_spec(sign, None, pwd, path)[1] == ("sign"@, sign),
        page_form_spec(sign, None, pwd, path)[2] == ("p"@, pwd),
        pwd_form_spec(sign, pwd, path).len() >= 4,
        pwd_form_spec(sign, pwd, path)[3] == ("p"@, pwd),
{
}

/// The next step from a share page (comments removed) towards a file's
/// direct link.
#[derive(Debug, Clone, PartialEq, Eq)]
pub enum LinkStep {
    /// Post `form` to `url`.
    Post { url: String, form: Vec<(String, String)> },
    /// Fetch the download page at `url` first.
    FetchPage { url: String },
}

/// From a file's share page (comments removed, at `final_url`): a page
/// behind an access code is posted to directly (it needs the code);
/// otherwise the download page in its frame is fetched.
pub fn share_page_step(html: &str, final_url: &str, pwd: Option<&str>) -> (r: Result<LinkStep, AppError>)
    ensures
        (contains_seq(html@, "id=\"passwddiv\""@) || contains_seq(html@, "id=\"pwdload\""@)) ==> match pwd {
            None => r matches Err(AppError::Lanzou(m)) && m@ == "需要提取码"@,
            Some(p) => match match_sign_spec(html@) {
                Err(e) => r matches Err(AppError::Parse(m)) && m@ == e,
                Ok(sign) => r matches Ok(LinkStep::Post { url, form }) && url@ == ajax_url_spec(
                    final_url@,
                    ajax_path_spec(html@, final_url@),
                ) && form_view(form@) == pwd_form_spec(sign, p@, ajax_path_spec(html@, final_url@)),
            },
        },
        !(contains_seq(html@, "id=\"passwddiv\""@) || contains_seq(html@, "id=\"pwdload\""@)) ==> match capture_or(
            IFRAME_PATTERN@,
            html@,
            1,
            "未找到 iframe"@,
        ) {
            Err(e) => r matches Err(AppError::Parse(m)) && m@ == e,
            Ok(f) => r matches Ok(LinkStep::FetchPage { url }) && url@ == resolve_url_spec(base_domain_spec(final_url@), f),
        },
{
    if str_contains(html, "id=\"passwddiv\"") || str_contains(html, "id=\"pwdload\"") {
        let p = match pwd {
            Some(p) => p,
            None => return Err(AppError::Lanzou(owned("需要提取码"))),
        };
        let sign = match_sign(html)?;
        let path = extract_ajaxm_path(html, final_url);
        let mut form: Vec<(String, String)> = Vec::new();
        form.push((owned("action"), owned("downprocess")));
        form.push((owned("sign"), sign));
        form.push((owned("kd"), owned("1")));
        form.push((owned("p"), owned(p)));
        let ghost fixed = form_view(form@);
        assert(fixed =~= seq![("action"@, "downprocess"@), ("sign"@, form@[1].1@), ("kd"@, "1"@), ("p"@, p@)]);
        push_file_param(&mut form, path.as_str());
        let url = ajax_url(final_url, path.as_str());
        return Ok(LinkStep::Post { url, form });
    }
    let frame = match_iframe(html)?;
    let base = base_domain(final_url);
    Ok(LinkStep::FetchPage { url: resolve_url(base.as_str(), frame.as_str()) })
}

/// From a file's download page (comments removed), reached from the share
/// page at `final_url`: the address and form that yield the direct link.
pub fn download_page_step(html: &str, final_url: &str, pwd: Option<&str>) -> (r: Result<(String, Vec<(String, String)>), AppError>)
    ensures
        match match_sign_spec(html@) {
            Err(e) => r matches Err(AppError::Parse(m)) && m@ == e,
            Ok(sign) => r matches Ok((url, form)) && url@ == ajax_url_spec(final_url@, ajax_path_spec(html@, final_url@))
                && form_view(form@) == page_form_spec(
                sign,
                ajaxdata_spec(html@),
                match pwd {
                    Some(p) => p@,
                    None => Seq::empty(),
                },
                ajax_path_spec(html@, final_url@),
            ),
        },
{
    let sign = match_sign(html)?;
    let path = extract_ajaxm_path(html, final_url);
    let mut form: Vec<(String, String)> = Vec::new();
    form.push((owned("action"), owned("downprocess")));
    form.push((owned("sign"), sign));
    let ghost s = form@[1].1@;
    match extract_ajaxdata(html) {
        Some(ws) => {
            form.push((owned("websignkey"), ws.clone()));
            form.push((owned("signs"), ws));
            form.push((owned("websign"), owned("2")));
            form.push((owned("kd"), owned("1")));
            form.push((owned("ves"), owned("1")));
            assert(form_view(form@) =~= page_form_spec(s, ajaxdata_spec(html@), Seq::empty(), path@));
        },
        None => {
            let p = match pwd {
                Some(p) => owned(p),
                None => String::new(),
            };
            form.push((owned("p"), p));
            let ghost pv = match pwd {
                Some(p) => p@,
                None => Seq::<char>::empty(),
            };
            assert(form_view(form@) =~= seq![("action"@, "downprocess"@), ("sign"@, s), ("p"@, pv)]);
            push_file_param(&mut form, path.as_str());
        },
    }
    let url = ajax_url(final_url, path.as_str());
    Ok((url, form))
}

/// The direct link from the download interface's reply: `dom/file/url`,
/// named `inf`; without `dom` or `url` the reply's `info` (or
/// "解析直链失败") is the error.
pub fn direct_link_from_reply(
    dom: Option<String>,
    url: Option<String>,
    inf: Option<String>,
    info: Option<String>,
) -> (r: Result<DownloadUrl, AppError>)
    ensures
        ({
            let d = crate::ops::or_empty(opt_view(dom));
            let u = crate::ops::or_empty(opt_view(url));
            if d.len() == 0 || u.len() == 0 {
                r matches Err(AppError::Lanzou(m)) && m@ == (match info {
                    Some(t) => t@,
                    None => "解析直链失败"@,
                })
            } else {
                r matches Ok(l) && l.url@ == d + "/file/"@ + u && l.name@ == crate::ops::or_empty(opt_view(inf))
            }
        }),
{
    let d = match dom {
        Some(x) => x,
        None => String::new(),
    };
    let u = match url {
        Some(x) => x,
        None => String::new(),
    };
    let n = match inf {
        Some(x) => x,
        None => String::new(),
    };
    if d.as_str().unicode_len() == 0 || u.as_str().unicode_len() == 0 {
        return match info {
            Some(t) => Err(AppError::Lanzou(t)),
            None => Err(AppError::Lanzou(owned("解析直链失败"))),
        };
    }
    let mut link = d;
    push_str(&mut link, "/file/");
    push_str(&mut link, u.as_str());
    Ok(DownloadUrl { name: n, url: link })
}

// ---------------------------------------------------------------------------
// Shared folders
// ---------------------------------------------------------------------------

/// Number of files per page of a shared folder: a full page means that
/// another may follow.
pub const SHARE_PAGE_SIZE: usize = 50usize;

/// The form asking for page `pg` of a shared folder.
pub fn folder_page_form(params: &FolderAjaxParams, pg: u64, pwd: Option<&str>) -> (r: Vec<(String, String)>)
    ensures
        form_view(r@) == ({
            let base = seq![
                ("lx"@, params.lx@),
                ("pg"@, decimal(pg as nat)),
                ("k"@, params.k@),
                ("t"@, params.t@),
                ("fid"@, params.fid@),
            ];
            match pwd {
                Some(p) => base.push(("pwd"@, p@)),
                None => base,
            }
        }),
{
    let mut r: Vec<(String, String)> = Vec::new();
    r.push((owned("lx"), params.lx.clone()));
    r.push((owned("pg"), u64_to_string(pg)));
    r.push((owned("k"), params.k.clone()));
    r.push((owned("t"), params.t.clone()));
    r.push((owned("fid"), params.fid.clone()));
    match pwd {
        Some(p) => r.push((owned("pwd"), owned(p))),
        None => {},
    }
    proof {
        let base = seq![
            ("lx"@, params.lx@),
            ("pg"@, decimal(pg as nat)),
            ("k"@, params.k@),
            ("t"@, params.t@),
            ("fid"@, params.fid@),
        ];
        assert(form_view(r@) =~= (match pwd {
            Some(p) => base.push(("pwd"@, p@)),
            None => base,
        }));
    }
    r
}

/// The listing address of a shared folder at `final_url`.
pub fn folder_ajax_url(final_url: &str) -> (r: String)
    ensures
        r@ == base_domain_spec(final_url@) + "/filemoreajax.php"@,
{
    let mut r = base_domain(final_url);
    push_str(&mut r, "/filemoreajax.php");
    r
}

/// A file of a shared folder from the listing's fields: missing text is
/// empty; its link is resolved against the domain of the folder's page.
pub fn share_file_of(
    name_all: Option<String>,
    size: Option<String>,
    time: Option<String>,
    id: Option<String>,
    final_url: &str,
) -> (r: ShareFile)
    ensures
        r.name@ == crate::ops::or_empty(opt_view(name_all)),
        r.size@ == crate::ops::or_empty(opt_view(size)),
        r.time@ == crate::ops::or_empty(opt_view(time)),
        r.url@ == resolve_url_spec(base_domain_spec(final_url@), crate::ops::or_empty(opt_view(id))),
{
    let rel = match id {
        Some(x) => x,
        None => String::new(),
    };
    let base = base_domain(final_url);
    ShareFile {
        name: match name_all {
            Some(x) => x,
            None => String::new(),
        },
        size: match size {
            Some(x) => x,
            None => String::new(),
        },
        time: match time {
            Some(x) => x,
            None => String::new(),
        },
        url: resolve_url(base.as_str(), rel.as_str()),
    }
}

/// What a page of a shared folder's listing means.
#[derive(Debug, Clone, Copy, PartialEq, Eq, Structural)]
pub enum FolderPage {
    /// Files, and another page may follow.
    More,
    /// The last page (or nothing more to read).
    Last,
}

/// Judges a listing reply with status `zt` carrying `count` files: status
/// 1 continues while pages are full, status 3 is a wrong access code, any
/// other status ends the listing.
pub fn folder_page_outcome(zt: Option<i64>, count: usize) -> (r: Result<FolderPage, AppError>)
    ensures
        zt == Some(1i64) && count >= SHARE_PAGE_SIZE ==> r == Ok::<FolderPage, AppError>(FolderPage::More),
        zt == Some(1i64) && count < SHARE_PAGE_SIZE ==> r == Ok::<FolderPage, AppError>(FolderPage::Last),
        zt == Some(3i64) ==> (r matches Err(AppError::Lanzou(m)) && m@ == "提取码错误"@),
        zt != Some(1i64) && zt != Some(3i64) ==> r == Ok::<FolderPage, AppError>(FolderPage::Last),
{
    let z = match zt {
        Some(z) => z,
        None => 0,
    };
    if z == 1 {
        if count >= SHARE_PAGE_SIZE {
            Ok(FolderPage::More)
        } else {
            Ok(FolderPage::Last)
        }
    } else if z == 3 {
        Err(AppError::Lanzou(owned("提取码错误")))
    } else {
        Ok(FolderPage::Last)
    }
}

/// The shared folder read: its name, no total size, and its files.
pub fn share_folder_of(name: String, list: Vec<ShareFile>) -> (r: ShareFolder)
    ensures
        r.name == name,
        r.size@.len() == 0,
        r.list == list,
{
    ShareFolder { name, size: String::new(), list }
}

} // verus!
