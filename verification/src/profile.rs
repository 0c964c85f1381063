//! The account page: login detection, profile fields, and the single-file
//! size limit.

use vstd::prelude::*;

use crate::pattern::{capture_group, regex_compile_error, regex_group};
use crate::text::{
    ascii_lower, ascii_lower_exec, ascii_lower_seq, chars_of, opt_view, owned, replace_exec,
    replace_seq, split_exec, split_seq, string_of_range, string_views, trim_bounds, trim_seq,
    trim_string,
};

verus! {

/// Account information shown by the client.
#[derive(Debug, Clone, PartialEq, Eq)]
pub struct Profile {
    pub is_login: bool,
    pub domain: Option<String>,
    pub last_login: Option<String>,
    pub support_list: Vec<String>,
    pub max_size: Option<String>,
    pub verification: Option<String>,
}

/// The trimmed text of group 1 of `pat` in `html`; `None` when the
/// pattern does not compile or does not match.
pub open spec fn element_text_spec(html: Seq<char>, pat: Seq<char>) -> Option<Seq<char>> {
    match regex_compile_error(pat) {
        Some(_) => None,
        None => match regex_group(pat, html, 1) {
            Some(g) => Some(trim_seq(g)),
            None => None,
        },
    }
}

/// `o` without an empty value.
pub open spec fn non_empty(o: Option<Seq<char>>) -> Option<Seq<char>> {
    match o {
        Some(s) => if s.len() > 0 {
            Some(s)
        } else {
            None
        },
        None => None,
    }
}

/// The trimmed text of group 1 of `pat` in `html`.
pub fn element_text(html: &str, pat: &str) -> (r: Option<String>)
    ensures
        opt_view(r) == element_text_spec(html@, pat@),
{
    match capture_group(pat, html, 1) {
        Ok(Some(g)) => Some(trim_string(g.as_str())),
        _ => None,
    }
}

/// `element_text`, dropping an empty result.
fn element_text_non_empty(html: &str, pat: &str) -> (r: Option<String>)
    ensures
        opt_view(r) == non_empty(element_text_spec(html@, pat@)),
{
    match element_text(html, pat) {
        Some(t) => if t.as_str().unicode_len() > 0 {
            Some(t)
        } else {
            None
        },
        None => None,
    }
}

/// The single-file size limit on the account page.
pub const MAX_SIZE_PATTERN: &'static str = r#"单个文件大小:\s*</div>\s*<div class="mf2">\s*<font[^>]*>([^<]*)</font>"#;

/// The personal domain.
pub const DOMAIN_PATTERN: &'static str = r#"<div id="domaindiynow">([^<]*)</div>"#;

/// The last login time.
pub const LAST_LOGIN_PATTERN: &'static str = r#"最近登录时间:\s*</div>\s*<div class="mf2">([^<]*)</div>"#;

/// The phone number used for verification.
pub const PHONE_PATTERN: &'static str = r#"<span id="phone_id">([^<]*)</span>"#;

/// The list of file types that may be uploaded.
pub const SUPPORT_PATTERN: &'static str = r#"允许上传类型:\s*</div>\s*<div class="mf2">([\s\S]*?)</div>"#;

/// The single-file size limit text (such as `100M`), trimmed; `None` when
/// absent or empty.
pub fn parse_max_size(html: &str) -> (r: Option<String>)
    ensures
        opt_view(r) == non_empty(element_text_spec(html@, MAX_SIZE_PATTERN@)),
{
    element_text_non_empty(html, MAX_SIZE_PATTERN)
}

/// The trimmed, non-empty pieces of `pieces`, in order.
pub open spec fn trimmed_non_empty(pieces: Seq<Seq<char>>) -> Seq<Seq<char>>
    decreases pieces.len(),
{
    if pieces.len() == 0 {
        Seq::empty()
    } else {
        let t = trim_seq(pieces.last());
        if t.len() > 0 {
            trimmed_non_empty(pieces.drop_last()).push(t)
        } else {
            trimmed_non_empty(pieces.drop_last())
        }
    }
}

/// The upload types listed in the text of the page: line breaks count as
/// commas; items are trimmed and empty ones dropped.
pub open spec fn support_list_spec(html: Seq<char>) -> Seq<Seq<char>> {
    match element_text_spec(html, SUPPORT_PATTERN@) {
        Some(s) => trimmed_non_empty(split_seq(replace_seq(s, "<br>"@, ","@), ","@)),
        None => Seq::empty(),
    }
}

/// Reads the account information out of the account page.
pub open spec fn profile_matches(p: Profile, html: Seq<char>) -> bool {
    &&& p.is_login
    &&& opt_view(p.domain) == non_empty(element_text_spec(html, DOMAIN_PATTERN@))
    &&& opt_view(p.last_login) == non_empty(element_text_spec(html, LAST_LOGIN_PATTERN@))
    &&& opt_view(p.verification) == non_empty(element_text_spec(html, PHONE_PATTERN@))
    &&& opt_view(p.max_size) == non_empty(element_text_spec(html, MAX_SIZE_PATTERN@))
    &&& string_views(p.support_list@) == support_list_spec(html)
}

/// Parses the account page.
pub fn parse_profile(html: &str) -> (r: Profile)
    ensures
        profile_matches(r, html@),
{
    let domain = element_text_non_empty(html, DOMAIN_PATTERN);
    let last_login = element_text_non_empty(html, LAST_LOGIN_PATTERN);
    let verification = element_text_non_empty(html, PHONE_PATTERN);
    let max_size = parse_max_size(html);
    let mut support_list: Vec<String> = Vec::new();
    match element_text(html, SUPPORT_PATTERN) {
        Some(s) => {
            proof {
                reveal_strlit("<br>");
                reveal_strlit(",");
            }
            let v = chars_of(s.as_str());
            let replaced = replace_exec(&v, "<br>", ",");
            let pieces = split_exec(&replaced, ",");
            let mut i: usize = 0;
            while i < pieces.len()
                invariant
                    i <= pieces.len(),
                    string_views(support_list@) == trimmed_non_empty(string_views(pieces@).subrange(0, i as int)),
                decreases pieces.len() - i,
            {
                let t = trim_string(pieces[i].as_str());
                let ghost before = string_views(pieces@).subrange(0, i as int);
                assert(string_views(pieces@).subrange(0, i + 1).drop_last() =~= before);
                assert(string_views(pieces@).subrange(0, i + 1).last() == pieces@[i as int]@);
                if t.as_str().unicode_len() > 0 {
                    let ghost old_list = support_list@;
                    support_list.push(t);
                    assert(string_views(support_list@) =~= string_views(old_list).push(t@));
                }
                i += 1;
            }
            assert(string_views(pieces@).subrange(0, pieces@.len() as int) =~= string_views(pieces@));
            proof {
                reveal_strlit("<br>");
                reveal_strlit(",");
            }
        },
        None => {
            assert(string_views(support_list@) =~= Seq::<Seq<char>>::empty());
        },
    }
    Profile { is_login: true, domain, last_login, support_list, max_size, verification }
}

/// The profile reported when the client holds no login cookie.
pub fn logged_out_profile() -> (r: Profile)
    ensures
        !r.is_login,
        r.domain is None,
        r.last_login is None,
        r.support_list@.len() == 0,
        r.max_size is None,
        r.verification is None,
{
    Profile {
        is_login: false,
        domain: None,
        last_login: None,
        support_list: Vec::new(),
        max_size: None,
        verification: None,
    }
}

// ---------------------------------------------------------------------------
// Login cookies
// ---------------------------------------------------------------------------

/// Names of the cookies that carry a login.
pub open spec fn is_auth_cookie_name(n: Seq<char>) -> bool {
    n == "phpdisk_info"@ || n == "ylogin"@ || n == "lanzou_ifo"@
}

/// A `name=value` pair, trimmed, whose name is a login cookie and whose
/// value is not blank (a pair without `=` has an empty value).
pub open spec fn is_auth_pair(piece: Seq<char>) -> bool {
    let p = trim_seq(piece);
    match crate::text::find_first(p, "="@) {
        Some(e) => trim_seq(p.subrange(e + 1, p.len() as int)).len() > 0 && is_auth_cookie_name(
            trim_seq(p.subrange(0, e)),
        ),
        None => false,
    }
}

/// A `Cookie` header carries a login: one of its `;`-separated pairs is a
/// login cookie with a value.
pub open spec fn has_auth_cookie_spec(header: Option<Seq<char>>) -> bool {
    match header {
        Some(h) => auth_in_pieces(split_seq(h, seq![';'])),
        None => false,
    }
}

/// Some piece is a login pair.
pub open spec fn auth_in_pieces(pieces: Seq<Seq<char>>) -> bool {
    exists|i: int| 0 <= i < pieces.len() && #[trigger] is_auth_pair(pieces[i])
}

/// Whether one cookie pair is a login cookie with a value.
fn is_auth_pair_exec(piece: &str) -> (r: bool)
    ensures
        r == is_auth_pair(piece@),
{
    let v = chars_of(piece);
    let (a, b) = trim_bounds(&v, 0, v.len());
    assert(v@.subrange(0, v@.len() as int) =~= v@);
    let p = string_of_range(&v, a, b);
    let pv = chars_of(p.as_str());
    let eq = chars_of("=");
    match crate::text::find_exec(&pv, &eq, 0) {
        None => false,
        Some(e) => {
            proof {
                crate::text::lemma_find_from(pv@, eq@, 0);
                assert(crate::text::occurs_at(pv@, eq@, e as int));
                reveal_strlit("=");
            }
            let (va, vb) = trim_bounds(&pv, e + 1, pv.len());
            if va == vb {
                return false;
            }
            let (na, nb) = trim_bounds(&pv, 0, e);
            let name = string_of_range(&pv, na, nb);
            let n1 = owned("phpdisk_info");
            let n2 = owned("ylogin");
            let n3 = owned("lanzou_ifo");
            name == n1 || name == n2 || name == n3
        },
    }
}

/// Whether the client's `Cookie` header carries a login.
pub fn has_auth_cookie(header: Option<&str>) -> (r: bool)
    ensures
        r == (match header {
            Some(h) => has_auth_cookie_spec(Some(h@)),
            None => false,
        }),
{
    match header {
        None => false,
        Some(h) => {
            proof {
                reveal_strlit(";");
                assert(";"@ =~= seq![';']);
            }
            let hv = chars_of(h);
            let pieces = split_exec(&hv, ";");
            let mut i: usize = 0;
            while i < pieces.len()
                invariant
                    i <= pieces.len(),
                    string_views(pieces@) == split_seq(h@, seq![';']),
                    forall|j: int| 0 <= j < i ==> !is_auth_pair(#[trigger] split_seq(h@, seq![';'])[j]),
                    header == Some(h),
                decreases pieces.len() - i,
            {
                assert(pieces@[i as int]@ == split_seq(h@, seq![';'])[i as int]);
                if is_auth_pair_exec(pieces[i].as_str()) {
                    assert(string_views(pieces@).len() == pieces@.len());
                    assert(0 <= i < split_seq(h@, seq![';']).len());
                    assert(is_auth_pair(split_seq(h@, seq![';'])[i as int]));
                    return true;
                }
                i += 1;
            }
            false
        },
    }
}

// ---------------------------------------------------------------------------
// Size limits
// ---------------------------------------------------------------------------

/// A size text's number part and unit multiplier: the trimmed,
/// lower-cased text; a final `k`, `m`, `g` or `t` is a unit of 1024^1..4
/// bytes and is split off; anything else is taken as a number of MiB.
pub open spec fn size_unit_spec(s: Seq<char>) -> (Seq<char>, u64) {
    let t = ascii_lower_seq(trim_seq(s));
    if t.len() > 0 && t.last() == 'k' {
        (t.drop_last(), 1024)
    } else if t.len() > 0 && t.last() == 'm' {
        (t.drop_last(), 1048576)
    } else if t.len() > 0 && t.last() == 'g' {
        (t.drop_last(), 1073741824)
    } else if t.len() > 0 && t.last() == 't' {
        (t.drop_last(), 1099511627776)
    } else {
        (t, 1048576)
    }
}

/// The size text ends in an ASCII character (or is blank once trimmed);
/// otherwise splitting off its last byte cuts a character in two.
pub open spec fn size_text_splittable(s: Seq<char>) -> bool {
    let t = trim_seq(s);
    t.len() == 0 || (t.last() as u32) < 128
}

/// Splits a size text such as `100M`, `1.5g` or `500` into its number
/// text and the multiplier of its unit (no unit means MiB).
pub fn split_size_unit(s: &str) -> (r: (String, u64))
    requires
        size_text_splittable(s@),
    ensures
        r.0@ == size_unit_spec(s@).0,
        r.1 == size_unit_spec(s@).1,
{
    let v = chars_of(s);
    let (a, b) = trim_bounds(&v, 0, v.len());
    assert(v@.subrange(0, v@.len() as int) =~= v@);
    let mut t: Vec<char> = Vec::new();
    let mut i = a;
    while i < b
        invariant
            a <= i <= b <= v.len(),
            t@ == ascii_lower_seq(v@.subrange(a as int, i as int)),
        decreases b - i,
    {
        t.push(ascii_lower_exec(v[i]));
        assert(ascii_lower_seq(v@.subrange(a as int, i + 1)) =~= ascii_lower_seq(v@.subrange(a as int, i as int)).push(ascii_lower(v@[i as int])));
        i += 1;
    }
    let n = t.len();
    if n > 0 {
        let last = t[n - 1];
        let mult: u64 = if last == 'k' {
            1024
        } else if last == 'm' {
            1048576
        } else if last == 'g' {
            1073741824
        } else if last == 't' {
            1099511627776
        } else {
            0
        };
        if mult > 0 {
            assert(t@.subrange(0, n - 1) =~= t@.drop_last());
            return (string_of_range(&t, 0, n - 1), mult);
        }
    }
    assert(t@.subrange(0, n as int) =~= t@);
    (string_of_range(&t, 0, n), 1048576)
}

} // verus!
