//! The HTTP client's own state and rules: the cookie jar it sends, the
//! browser hints derived from the user agent, and how the service's JSON
//! replies are judged.

use vstd::prelude::*;

use crate::error::AppError;
use crate::text::{
    chars_of, concat2, find_exec, find_first, lemma_find_from, occurs_at, owned, push_str,
    string_of_range,
};
use vstd::string::StringSliceAdditionalSpecFns;
use vstd::utf8::encode_utf8;

verus! {

/// The service's default address.
pub const DEFAULT_BASE_URL: &'static str = "https://up.woozooo.com";

/// The default browser identity.
pub const DEFAULT_USER_AGENT: &'static str = "Mozilla/5.0 (Windows NT 10.0; Win64; x64) AppleWebKit/537.36 (KHTML, like Gecko) Chrome/147.0.0.0 Safari/537.36";

// ---------------------------------------------------------------------------
// Cookie jar
// ---------------------------------------------------------------------------

/// The account cookies a client sends, by name.
#[derive(Debug)]
pub struct CookieJar {
    entries: Vec<(String, String)>,
}

/// `k=v; k=v; ...` for the given entries.
pub open spec fn cookie_pairs_text(e: Seq<(Seq<char>, Seq<char>)>) -> Seq<char>
    decreases e.len(),
{
    if e.len() == 0 {
        Seq::empty()
    } else if e.len() == 1 {
        e[0].0 + "="@ + e[0].1
    } else {
        cookie_pairs_text(e.drop_last()) + "; "@ + e.last().0 + "="@ + e.last().1
    }
}

impl CookieJar {
    /// The cookies, as (name, value) pairs in the order they were first set.
    pub closed spec fn pairs(&self) -> Seq<(Seq<char>, Seq<char>)> {
        self.entries@.map_values(|p: (String, String)| (p.0@, p.1@))
    }

    /// The value of the cookie `name`, if set.
    pub open spec fn lookup(&self, name: Seq<char>) -> Option<Seq<char>> {
        if exists|i: int| 0 <= i < self.pairs().len() && self.pairs()[i].0 == name {
            let i = choose|i: int| 0 <= i < self.pairs().len() && self.pairs()[i].0 == name;
            Some(self.pairs()[i].1)
        } else {
            None
        }
    }

    /// No name occurs twice: the jar's invariant.
    #[verifier::type_invariant]
    pub open spec fn wf(&self) -> bool {
        forall|i: int, j: int|
            0 <= i < j < self.pairs().len() ==> self.pairs()[i].0 != self.pairs()[j].0
    }

    /// An empty jar.
    pub fn new() -> (r: CookieJar)
        ensures
            r.pairs().len() == 0,
    {
        CookieJar { entries: Vec::new() }
    }

    /// Sets cookie `name` to `value`, replacing an earlier value.
    pub fn set(&mut self, name: &str, value: &str)
        ensures
            final(self).lookup(name@) == Some(value@),
            forall|n: Seq<char>| n != name@ ==> final(self).lookup(n) == old(self).lookup(n),
    {
        proof {
            use_type_invariant(&*self);
        }
        let ghost old_jar = *self;
        let ghost old_pairs = self.pairs();
        let mut entries: Vec<(String, String)> = Vec::new();
        std::mem::swap(&mut entries, &mut self.entries);
        assert(entries@.map_values(|p: (String, String)| (p.0@, p.1@)) == old_pairs);
        let mut i: usize = 0;
        while i < entries.len()
            invariant
                entries@.map_values(|p: (String, String)| (p.0@, p.1@)) == old_pairs,
                old_jar.wf(),
                old_jar == *old(self),
                old_pairs == old_jar.pairs(),
                i <= entries.len(),
                forall|j: int| 0 <= j < i ==> old_pairs[j].0 != name@,
            decreases entries.len() - i,
        {
            if entries[i].0 == owned(name) {
                let old_name = entries[i].0.clone();
                entries.set(i, (old_name, owned(value)));
                let ghost new_jar = CookieJar { entries };
                proof {
                    assert(new_jar.pairs() =~= old_pairs.update(i as int, (name@, value@)));
                    assert forall|a: int, b: int| 0 <= a < b < new_jar.pairs().len() implies new_jar.pairs()[a].0
                        != new_jar.pairs()[b].0 by {
                        assert(new_jar.pairs()[a].0 == old_pairs[a].0);
                        assert(new_jar.pairs()[b].0 == old_pairs[b].0);
                    }
                    lemma_lookup_at(new_jar, i as int);
                    assert forall|n: Seq<char>| n != name@ implies new_jar.lookup(n) == old_jar.lookup(n) by {
                        lemma_lookup_same(old_jar, new_jar, n, i as int);
                    }
                }
                self.entries = entries;
                assert(*self == new_jar);
                return;
            }
            i += 1;
        }
        entries.push((owned(name), owned(value)));
        let ghost new_jar = CookieJar { entries };
        proof {
            assert(new_jar.pairs() =~= old_pairs.push((name@, value@)));
            let last = old_pairs.len() as int;
            assert forall|a: int, b: int| 0 <= a < b < new_jar.pairs().len() implies new_jar.pairs()[a].0
                != new_jar.pairs()[b].0 by {
                if b < last {
                    assert(new_jar.pairs()[a].0 == old_pairs[a].0);
                    assert(new_jar.pairs()[b].0 == old_pairs[b].0);
                }
            }
            lemma_lookup_at(new_jar, last);
            assert forall|n: Seq<char>| n != name@ implies new_jar.lookup(n) == old_jar.lookup(n) by {
                lemma_lookup_same(old_jar, new_jar, n, last);
            }
        }
        self.entries = entries;
        assert(*self == new_jar);
    }

    /// Removes every cookie.
    pub fn clear(&mut self)
        ensures
            final(self).pairs().len() == 0,
    {
        self.entries = Vec::new();
    }

    /// The `Cookie` request header: every cookie as `name=value`, joined
    /// by `; `; `None` when the jar is empty.
    pub fn header(&self) -> (r: Option<String>)
        ensures
            self.pairs().len() == 0 ==> r is None,
            self.pairs().len() > 0 ==> (r matches Some(h) && h@ == cookie_pairs_text(self.pairs())),
    {
        if self.entries.len() == 0 {
            return None;
        }
        let mut h = String::new();
        let mut i: usize = 0;
        while i < self.entries.len()
            invariant
                i <= self.entries.len(),
                self.entries.len() > 0,
                h@ == cookie_pairs_text(self.pairs().subrange(0, i as int)),
            decreases self.entries.len() - i,
        {
            let ghost before = self.pairs().subrange(0, i as int);
            assert(self.pairs().subrange(0, i + 1).drop_last() =~= before);
            if i > 0 {
                push_str(&mut h, "; ");
            }
            push_str(&mut h, self.entries[i].0.as_str());
            push_str(&mut h, "=");
            push_str(&mut h, self.entries[i].1.as_str());
            proof {
                if i == 0 {
                    assert(self.pairs().subrange(0, 1)[0] == self.pairs()[0]);
                }
            }
            i += 1;
        }
        assert(self.pairs().subrange(0, self.entries.len() as int) =~= self.pairs());
        Some(h)
    }
}

impl CookieJar {
    /// The cookies as records to store, in the jar's order.
    pub fn to_cookies(&self) -> (r: Vec<crate::config::Cookie>)
        ensures
            r@.len() == self.pairs().len(),
            forall|i: int| 0 <= i < r@.len() ==> (#[trigger] r@[i]).name@ == self.pairs()[i].0
                && r@[i].value@ == self.pairs()[i].1 && r@[i].domain is None && r@[i].path is None
                && r@[i].secure is None,
    {
        let mut r: Vec<crate::config::Cookie> = Vec::new();
        let mut i: usize = 0;
        while i < self.entries.len()
            invariant
                i <= self.entries.len(),
                r@.len() == i,
                forall|k: int| 0 <= k < i ==> (#[trigger] r@[k]).name@ == self.pairs()[k].0
                    && r@[k].value@ == self.pairs()[k].1 && r@[k].domain is None && r@[k].path is None
                    && r@[k].secure is None,
            decreases self.entries.len() - i,
        {
            let c = crate::config::Cookie::new(self.entries[i].0.as_str(), self.entries[i].1.as_str());
            r.push(c);
            i += 1;
        }
        r
    }
}

/// In a well-formed jar, the cookie at position `k` is what its name reads.
pub proof fn lemma_lookup_at(jar: CookieJar, k: int)
    requires
        jar.wf(),
        0 <= k < jar.pairs().len(),
    ensures
        jar.lookup(jar.pairs()[k].0) == Some(jar.pairs()[k].1),
{
    let n = jar.pairs()[k].0;
    assert(exists|i: int| 0 <= i < jar.pairs().len() && jar.pairs()[i].0 == n);
    let c = choose|i: int| 0 <= i < jar.pairs().len() && jar.pairs()[i].0 == n;
    if c != k {
        if c < k {
            assert(jar.pairs()[c].0 != jar.pairs()[k].0);
        } else {
            assert(jar.pairs()[k].0 != jar.pairs()[c].0);
        }
    }
}

/// Two well-formed jars that agree everywhere but at position `i` (which
/// they may hold under the name `m != n`, or only `after` has, at the end)
/// read the same for `n`.
pub proof fn lemma_lookup_same(before: CookieJar, after: CookieJar, n: Seq<char>, i: int)
    requires
        before.wf(),
        after.wf(),
        0 <= i < after.pairs().len(),
        after.pairs()[i].0 != n,
        i < before.pairs().len() ==> before.pairs()[i].0 == after.pairs()[i].0,
        after.pairs().len() == before.pairs().len() || (after.pairs().len() == before.pairs().len()
            + 1 && i == before.pairs().len()),
        forall|j: int| 0 <= j < before.pairs().len() && j != i ==> #[trigger] after.pairs()[j]
            == before.pairs()[j],
    ensures
        after.lookup(n) == before.lookup(n),
{
    if exists|k: int| 0 <= k < before.pairs().len() && before.pairs()[k].0 == n {
        let k = choose|k: int| 0 <= k < before.pairs().len() && before.pairs()[k].0 == n;
        assert(k != i);
        assert(after.pairs()[k] == before.pairs()[k]);
        lemma_lookup_at(before, k);
        lemma_lookup_at(after, k);
    } else {
        assert forall|k: int| 0 <= k < after.pairs().len() implies after.pairs()[k].0 != n by {
            if k != i && k < before.pairs().len() {
                assert(after.pairs()[k] == before.pairs()[k]);
            }
        }
    }
}

/// After setting a cookie, the jar reads back the value set, and every
/// other cookie is unchanged.
pub proof fn law_cookie_set_then_lookup(before: CookieJar, after: CookieJar, name: Seq<char>, value: Seq<char>, other: Seq<char>)
    requires
        after.lookup(name) == Some(value),
        forall|n: Seq<char>| n != name ==> after.lookup(n) == before.lookup(n),
        other != name,
    ensures
        after.lookup(name) == Some(value),
        after.lookup(other) == before.lookup(other),
{
}

// ---------------------------------------------------------------------------
// Browser hints
// ---------------------------------------------------------------------------

/// The major Chrome version in a user agent: the text after the first
/// `Chrome/` up to the next `.`, when it is a non-empty run of digits.
pub open spec fn chrome_major_spec(ua: Seq<char>) -> Option<Seq<char>> {
    match find_first(ua, "Chrome/"@) {
        None => None,
        Some(p) => {
            let rest = ua.subrange(p + "Chrome/"@.len(), ua.len() as int);
            let major = match find_first(rest, seq!['.']) {
                Some(q) => rest.subrange(0, q),
                None => rest,
            };
            if major.len() > 0 && crate::text::all_digits(major) {
                Some(major)
            } else {
                None
            }
        },
    }
}

/// The Chrome major version named by a user agent, if it is a Chromium one.
pub fn chrome_major(ua: &str) -> (r: Option<String>)
    ensures
        crate::text::opt_view(r) == chrome_major_spec(ua@),
{
    let h = chars_of(ua);
    let marker = chars_of("Chrome/");
    let p = match find_exec(&h, &marker, 0) {
        Some(p) => p,
        None => return None,
    };
    proof {
        lemma_find_from(h@, marker@, 0);
        assert(occurs_at(h@, marker@, p as int));
    }
    assert(p + marker.len() <= h.len());
    let start = p + marker.len();
    let ghost rest = h@.subrange(start as int, h@.len() as int);
    let rv = {
        let mut v: Vec<char> = Vec::new();
        let mut i = start;
        while i < h.len()
            invariant
                start <= i <= h.len(),
                v@ == h@.subrange(start as int, i as int),
            decreases h.len() - i,
        {
            v.push(h[i]);
            i += 1;
        }
        v
    };
    assert(rv@ =~= rest);
    let dot = vec!['.'];
    assert(dot@ =~= seq!['.']);
    let end = match find_exec(&rv, &dot, 0) {
        Some(q) => q,
        None => rv.len(),
    };
    proof {
        lemma_find_from(rv@, dot@, 0);
    }
    assert(end == rv@.len() ==> rv@.subrange(0, end as int) =~= rv@);
    let ghost major = rv@.subrange(0, end as int);
    assert(chrome_major_spec(ua@) == (if major.len() > 0 && crate::text::all_digits(major) {
        Some(major)
    } else {
        None::<Seq<char>>
    }));
    let mut k: usize = 0;
    while k < end
        invariant
            end <= rv.len(),
            k <= end,
            forall|j: int| 0 <= j < k ==> crate::text::is_digit(rv@[j]),
            chrome_major_spec(ua@) == (if rv@.subrange(0, end as int).len() > 0
                && crate::text::all_digits(rv@.subrange(0, end as int)) {
                Some(rv@.subrange(0, end as int))
            } else {
                None::<Seq<char>>
            }),
        decreases end - k,
    {
        if !crate::text::is_digit_exec(rv[k]) {
            assert(rv@.subrange(0, end as int)[k as int] == rv@[k as int]);
            assert(!crate::text::all_digits(rv@.subrange(0, end as int)));
            return None;
        }
        k += 1;
    }
    if end == 0 {
        return None;
    }
    assert(end == rv@.len() ==> rv@.subrange(0, end as int) =~= rv@);
    assert(crate::text::all_digits(rv@.subrange(0, end as int)));
    Some(string_of_range(&rv, 0, end))
}

/// The `sec-ch-ua` header for a Chrome major version.
pub open spec fn sec_ch_ua_spec(major: Seq<char>) -> Seq<char> {
    "\"Chromium\";v=\""@ + major + "\", \"Google Chrome\";v=\""@ + major
        + "\", \"Not)A;Brand\";v=\"24\""@
}

/// The `sec-ch-ua` client hint matching a Chrome major version.
pub fn sec_ch_ua(major: &str) -> (r: String)
    ensures
        r@ == sec_ch_ua_spec(major@),
{
    let mut r = owned("\"Chromium\";v=\"");
    push_str(&mut r, major);
    push_str(&mut r, "\", \"Google Chrome\";v=\"");
    push_str(&mut r, major);
    push_str(&mut r, "\", \"Not)A;Brand\";v=\"24\"");
    r
}

/// The `sec-ch-ua-platform` hint for an operating system name
/// (`std::env::consts::OS`): macOS, Linux, otherwise Windows; quoted.
pub fn sec_ch_ua_platform(os: &str) -> (r: String)
    ensures
        os@ == "macos"@ ==> r@ == "\"macOS\""@,
        os@ == "linux"@ ==> r@ == "\"Linux\""@,
        os@ != "macos"@ && os@ != "linux"@ ==> r@ == "\"Windows\""@,
{
    proof {
        reveal_strlit("macos");
        reveal_strlit("linux");
        assert("macos"@[0] != "linux"@[0]);
    }
    let o = owned(os);
    if o == owned("macos") {
        owned("\"macOS\"")
    } else if o == owned("linux") {
        owned("\"Linux\"")
    } else {
        owned("\"Windows\"")
    }
}

// ---------------------------------------------------------------------------
// Replies
// ---------------------------------------------------------------------------

/// Judges a reply's status code: `Ok` for 1 and 2, `NotLoggedIn` for 9,
/// otherwise a service error with the reply's `info` text.
pub fn check_reply(zt: u32, info_text: Option<String>) -> (r: Result<(), AppError>)
    ensures
        (zt == 1 || zt == 2) ==> r is Ok,
        zt == 9 ==> r == Err::<(), AppError>(AppError::NotLoggedIn),
        zt != 1 && zt != 2 && zt != 9 ==> (r matches Err(AppError::Lanzou(m)) && m@ == (match info_text {
            Some(t) => t@,
            None => "未知错误"@,
        })),
{
    if zt == 1 || zt == 2 {
        Ok(())
    } else if zt == 9 {
        Err(AppError::NotLoggedIn)
    } else {
        match info_text {
            Some(t) => Err(AppError::Lanzou(t)),
            None => Err(AppError::Lanzou(owned("未知错误"))),
        }
    }
}

/// A successful reply's payload, or the reply's error; a successful reply
/// without the payload is an error naming the missing field.
pub fn reply_payload<T>(zt: u32, info_text: Option<String>, payload: Option<T>, field: &str) -> (r: Result<T, AppError>)
    ensures
        (zt == 1 || zt == 2) && payload is Some ==> r == Ok::<T, AppError>(payload->0),
        (zt == 1 || zt == 2) && payload is None ==> (r matches Err(AppError::Lanzou(m)) && m@ == "响应缺少 "@ + field@ + " 字段"@),
        zt == 9 ==> r == Err::<T, AppError>(AppError::NotLoggedIn),
        zt != 1 && zt != 2 && zt != 9 ==> (r matches Err(AppError::Lanzou(m)) && m@ == (match info_text {
            Some(t) => t@,
            None => "未知错误"@,
        })),
{
    match check_reply(zt, info_text) {
        Err(e) => Err(e),
        Ok(()) => match payload {
            Some(p) => Ok(p),
            None => {
                let mut m = owned("响应缺少 ");
                push_str(&mut m, field);
                push_str(&mut m, " 字段");
                Err(AppError::Lanzou(m))
            },
        },
    }
}

/// `t` is the reply body `s` as shown: all of it when it has at most 200
/// bytes, otherwise the text of its first 200 bytes followed by `...`.
pub open spec fn is_truncated_body(s: &str, t: Seq<char>) -> bool {
    &&& s.spec_bytes().len() <= 200 ==> t == s@
    &&& s.spec_bytes().len() > 200 ==> exists|p: Seq<char>|
        encode_utf8(p) == s.spec_bytes().subrange(0, 200) && t == p + "..."@
}

/// The first 200 bytes of a reply body (with `...`), or all of it.
pub fn truncate(s: &str) -> (r: String)
    requires
        s.spec_bytes().len() > 200 ==> vstd::utf8::is_char_boundary(s.spec_bytes(), 200),
    ensures
        s.spec_bytes().len() <= 200 ==> r@ == s@,
        s.spec_bytes().len() > 200 ==> exists|p: Seq<char>|
            encode_utf8(p) == s.spec_bytes().subrange(0, 200) && r@ == p + "..."@,
        is_truncated_body(s, r@),
{
    if s.as_bytes().len() > 200 {
        let (head, _) = s.split_at(200);
        assert(encode_utf8(head@) == s.spec_bytes().subrange(0, 200));
        let r = concat2(head, "...");
        assert(r@ == head@ + "..."@);
        r
    } else {
        owned(s)
    }
}

/// An HTTP failure: `HTTP <status>: <body>`.
pub fn http_status_error(status: &str, body: &str) -> (r: AppError)
    ensures
        r matches AppError::Lanzou(m) && m@ == "HTTP "@ + status@ + ": "@ + body@,
{
    let mut m = owned("HTTP ");
    push_str(&mut m, status);
    push_str(&mut m, ": ");
    push_str(&mut m, body);
    AppError::Lanzou(m)
}

/// A reply that is not JSON: `<prefix>: <error> (<truncated body>)`.
pub fn bad_json_error(prefix: &str, error: &str, body: &str) -> (r: AppError)
    requires
        body.spec_bytes().len() > 200 ==> vstd::utf8::is_char_boundary(body.spec_bytes(), 200),
    ensures
        r matches AppError::Lanzou(m) && exists|t: Seq<char>|
            m@ == prefix@ + ": "@ + error@ + " ("@ + t + ")"@ && #[trigger] is_truncated_body(body, t),
{
    let mut m = owned(prefix);
    push_str(&mut m, ": ");
    push_str(&mut m, error);
    push_str(&mut m, " (");
    let t = truncate(body);
    push_str(&mut m, t.as_str());
    push_str(&mut m, ")");
    AppError::Lanzou(m)
}

} // verus!
