//! Signing in with name and password: the anti-crawler step, the login
//! reply, the chain of redirects that hands out the session cookies, and
//! what is stored afterwards.

use vstd::prelude::*;

use crate::client::{CookieJar, DEFAULT_USER_AGENT};
use crate::config::{AppConfig, Cookie, is_empty_config};
use crate::error::AppError;
use crate::matcher::{acw_sc_v2_spec, calc_acw_sc_v2};
use crate::ops::form_view;
use crate::pattern::{capture_group, regex_compile_error, regex_group};
use crate::share::{resolve_url, resolve_url_spec};
use crate::text::{
    chars_of, contains_seq, find_first, lemma_find_from, opt_view, owned, starts_with_exec,
    starts_with_seq, str_contains, string_of_range, trim_bounds, trim_seq, before_first,
};

verus! {

/// The login page (the service's own sign-in page redirects here).
pub const LOGIN_URL: &'static str = "https://accounts.woozooo.com/accounts.php?action=login&ref=up.woozooo.com";

/// Where the login form is posted.
pub const LOGIN_POST_URL: &'static str = "https://accounts.woozooo.com/accounts.php";

/// The service's address after signing in.
pub const SIGNED_IN_DOMAIN: &'static str = "https://up.woozooo.com";

/// Redirects followed at most after the login reply.
pub const MAX_LOGIN_HOPS: u32 = 10u32;

/// The anti-crawler cookie to set before fetching the login page again:
/// computed when the page holds the challenge's `arg1=`.
pub fn login_challenge_cookie(html: &str) -> (r: Option<String>)
    ensures
        !contains_seq(html@, "arg1="@) ==> r is None,
        contains_seq(html@, "arg1="@) ==> opt_view(r) == acw_sc_v2_spec(html@),
{
    if str_contains(html, "arg1=") {
        calc_acw_sc_v2(html)
    } else {
        None
    }
}

/// The login form.
pub fn login_form(username: String, password: String) -> (r: Vec<(String, String)>)
    ensures
        form_view(r@) == seq![
            ("task"@, "uselogin"@),
            ("username"@, username@),
            ("password"@, password@),
            ("ref"@, "up.woozooo.com"@),
        ],
{
    let mut r: Vec<(String, String)> = Vec::new();
    r.push((owned("task"), owned("uselogin")));
    r.push((owned("username"), username));
    r.push((owned("password"), password));
    r.push((owned("ref"), owned("up.woozooo.com")));
    assert(form_view(r@) =~= seq![
        ("task"@, "uselogin"@),
        ("username"@, r@[1].1@),
        ("password"@, r@[2].1@),
        ("ref"@, "up.woozooo.com"@),
    ]);
    r
}

/// Judges the login reply: status 1 signs in, and its `msgs` (when not
/// empty) is the first address of the redirect chain; any other status is
/// refused with `msgs` (or "登录失败").
pub fn login_reply(zt: Option<i64>, msgs: Option<String>) -> (r: Result<Option<String>, AppError>)
    ensures
        zt == Some(1i64) ==> match msgs {
            Some(m) => if m@.len() > 0 {
                r == Ok::<Option<String>, AppError>(Some(m))
            } else {
                r == Ok::<Option<String>, AppError>(None)
            },
            None => r == Ok::<Option<String>, AppError>(None),
        },
        zt != Some(1i64) ==> (r matches Err(AppError::Lanzou(t)) && t@ == (match msgs {
            Some(m) => m@,
            None => "登录失败"@,
        })),
{
    let z = match zt {
        Some(z) => z,
        None => 0,
    };
    if z != 1 {
        return match msgs {
            Some(m) => Err(AppError::Lanzou(m)),
            None => Err(AppError::Lanzou(owned("登录失败"))),
        };
    }
    match msgs {
        Some(m) => if m.as_str().unicode_len() > 0 {
            Ok(Some(m))
        } else {
            Ok(None)
        },
        None => Ok(None),
    }
}

// ---------------------------------------------------------------------------
// Set-Cookie
// ---------------------------------------------------------------------------

/// The cookie that a `Set-Cookie` value sets: the trimmed name before the
/// first `=`, and the trimmed value up to the first `;`. `None` without an
/// `=`.
pub open spec fn set_cookie_spec(v: Seq<char>) -> Option<(Seq<char>, Seq<char>)> {
    match find_first(v, "="@) {
        None => None,
        Some(i) => Some((
            trim_seq(v.subrange(0, i)),
            trim_seq(before_first(v.subrange(i + 1, v.len() as int), ";"@)),
        )),
    }
}

/// Reads the cookie of a `Set-Cookie` header value.
pub fn parse_set_cookie(v: &str) -> (r: Option<(String, String)>)
    ensures
        match r {
            Some((n, x)) => set_cookie_spec(v@) == Some((n@, x@)),
            None => set_cookie_spec(v@) is None,
        },
{
    proof {
        reveal_strlit("=");
        reveal_strlit(";");
        lemma_find_from(v@, "="@, 0);
    }
    let cs = chars_of(v);
    let eq = chars_of("=");
    let i = match crate::text::find_exec(&cs, &eq, 0) {
        Some(i) => i,
        None => return None,
    };
    assert(i + 1 <= cs.len());
    let (a, b) = trim_bounds(&cs, 0, i);
    let name = string_of_range(&cs, a, b);
    let semi = chars_of(";");
    let rest = string_of_range(&cs, i + 1, cs.len());
    let rv = chars_of(rest.as_str());
    proof {
        lemma_find_from(rv@, ";"@, 0);
    }
    let end = match crate::text::find_exec(&rv, &semi, 0) {
        Some(k) => k,
        None => rv.len(),
    };
    let (c, d) = trim_bounds(&rv, 0, end);
    assert(rv@.subrange(0, end as int) == before_first(rv@, ";"@)) by {
        if find_first(rv@, ";"@) is None {
            assert(rv@.subrange(0, rv@.len() as int) =~= rv@);
        }
    }
    let value = string_of_range(&rv, c, d);
    Some((name, value))
}

/// Records the cookie of a `Set-Cookie` value in the session's jar; a value
/// without `=` is ignored.
pub fn capture_cookie(jar: &mut CookieJar, set_cookie: &str)
    ensures
        match set_cookie_spec(set_cookie@) {
            None => final(jar).pairs() == old(jar).pairs(),
            Some((n, x)) => final(jar).lookup(n) == Some(x) && forall|m: Seq<char>| m != n ==> final(jar).lookup(m)
                == old(jar).lookup(m),
        },
{
    match parse_set_cookie(set_cookie) {
        Some((n, x)) => jar.set(n.as_str(), x.as_str()),
        None => {},
    }
}

// ---------------------------------------------------------------------------
// Redirect chain
// ---------------------------------------------------------------------------

/// Script and frame redirects on a page, in order of preference.
pub open spec fn redirect_patterns() -> Seq<Seq<char>> {
    seq![
        r"document\.location\.href\s*=\s*'([^']+)'"@,
        r"location\.href\s*=\s*'([^']+)'"@,
        r"window\.location\s*=\s*'([^']+)'"@,
        r#"<iframe[^>]*src=['"]([^'"]+)['"]"#@,
    ]
}

/// Group 1 of the first pattern of `pats` that compiles and matches.
pub open spec fn first_group(pats: Seq<Seq<char>>, html: Seq<char>) -> Option<Seq<char>>
    decreases pats.len(),
{
    if pats.len() == 0 {
        None
    } else {
        match (regex_compile_error(pats[0]), regex_group(pats[0], html, 1)) {
            (None, Some(g)) => Some(g),
            _ => first_group(pats.drop_first(), html),
        }
    }
}

/// The address a page sends the browser to by script or frame.
pub fn js_redirect(html: &str) -> (r: Option<String>)
    ensures
        opt_view(r) == first_group(redirect_patterns(), html@),
{
    let mut pats: Vec<&'static str> = Vec::new();
    pats.push(r"document\.location\.href\s*=\s*'([^']+)'");
    pats.push(r"location\.href\s*=\s*'([^']+)'");
    pats.push(r"window\.location\s*=\s*'([^']+)'");
    pats.push(r#"<iframe[^>]*src=['"]([^'"]+)['"]"#);
    let ghost ps = pats@.map_values(|p: &'static str| p@);
    assert(ps =~= redirect_patterns());
    assert(ps.subrange(0, ps.len() as int) =~= ps);
    let mut i: usize = 0;
    while i < pats.len()
        invariant
            i <= pats.len(),
            ps == pats@.map_values(|p: &'static str| p@),
            ps == redirect_patterns(),
            first_group(ps, html@) == first_group(ps.subrange(i as int, ps.len() as int), html@),
        decreases pats.len() - i,
    {
        let ghost rest = ps.subrange(i as int, ps.len() as int);
        assert(rest.drop_first() =~= ps.subrange(i + 1, ps.len() as int));
        assert(rest[0] == pats@[i as int]@);
        match capture_group(pats[i], html, 1) {
            Ok(Some(g)) => {
                return Some(g);
            },
            _ => {},
        }
        i += 1;
    }
    assert(ps.subrange(i as int, ps.len() as int).len() == 0);
    None
}

/// The next address of the redirect chain after fetching `url`: the
/// `Location` of a redirect (resolved against `url` unless it starts with
/// `http`), else a script or frame redirect on the page.
pub open spec fn next_hop_spec(url: Seq<char>, location: Option<Seq<char>>, body: Seq<char>) -> Option<Seq<char>> {
    match location {
        Some(loc) => Some(
            if starts_with_seq(loc, "http"@) {
                loc
            } else {
                resolve_url_spec(url, loc)
            },
        ),
        None => first_group(redirect_patterns(), body),
    }
}

/// The next address of the redirect chain.
pub fn next_hop(url: &str, location: Option<String>, body: &str) -> (r: Option<String>)
    ensures
        opt_view(r) == next_hop_spec(url@, opt_view(location), body@),
{
    match location {
        Some(loc) => {
            let lv = chars_of(loc.as_str());
            if starts_with_exec(&lv, "http") {
                Some(loc)
            } else {
                Some(resolve_url(url, loc.as_str()))
            }
        },
        None => js_redirect(body),
    }
}

/// Whether hop number `hops` (counting from 1) of the redirect chain is
/// still followed.
pub fn hop_allowed(hops: u32) -> (r: bool)
    ensures
        r == (hops <= MAX_LOGIN_HOPS),
{
    hops <= MAX_LOGIN_HOPS
}

// ---------------------------------------------------------------------------
// What is stored
// ---------------------------------------------------------------------------

/// The settings written after signing in: the service's address, the
/// default browser identity and the session cookies; nothing else.
pub fn signed_in_config(cookies: Vec<Cookie>) -> (r: AppConfig)
    ensures
        r.domain matches Some(d) && d@ == SIGNED_IN_DOMAIN@,
        r.user_agent matches Some(u) && u@ == DEFAULT_USER_AGENT@,
        r.cookies == Some(cookies),
        is_empty_config(AppConfig { domain: None, user_agent: None, cookies: None, ..r }),
{
    let mut c = AppConfig::empty();
    c.domain = Some(owned(SIGNED_IN_DOMAIN));
    c.user_agent = Some(owned(DEFAULT_USER_AGENT));
    c.cookies = Some(cookies);
    c
}

/// The settings written when signing out: no cookies; nothing else.
pub fn signed_out_config() -> (r: AppConfig)
    ensures
        r.cookies matches Some(v) && v@.len() == 0,
        is_empty_config(AppConfig { cookies: None, ..r }),
{
    let mut c = AppConfig::empty();
    c.cookies = Some(Vec::new());
    c
}

} // verus!
