//! Regular-expression searches, delegated to the `regex` crate.
//!
//! The results of the searches are named by spec functions: each is
//! determined by the pattern and the text searched, and nothing else is
//! claimed of them. Escaping a text is stated in full.

use vstd::prelude::*;

use crate::text::opt_view;

verus! {

/// `regex::Regex::new(pat)`: `None` when the pattern compiles, otherwise the
/// text of the compile error.
pub uninterp spec fn regex_compile_error(pat: Seq<char>) -> Option<Seq<char>>;

/// Text of capture group `group` in the leftmost-first match of `pat` in
/// `hay` (`Regex::captures`, then `Captures::get`); `None` when there is no
/// match or the group did not take part in it.
pub uninterp spec fn regex_group(pat: Seq<char>, hay: Seq<char>, group: nat) -> Option<
    Seq<char>,
>;

/// For every successive non-overlapping match of `pat` in `hay`
/// (`Regex::captures_iter`): the text of the whole match and of group 1.
pub uninterp spec fn regex_all_captures(pat: Seq<char>, hay: Seq<char>) -> Seq<
    (Seq<char>, Option<Seq<char>>),
>;

/// `hay` with every match of `pat` deleted (`Regex::replace_all` with an
/// empty replacement).
pub uninterp spec fn regex_remove_all(pat: Seq<char>, hay: Seq<char>) -> Seq<char>;

/// A character with a meaning in a regex (`regex_syntax::is_meta_character`):
/// one of `\ . + * ? ( ) | [ ] { } ^ $ # & - ~`.
pub open spec fn is_regex_meta(c: char) -> bool {
    c == '\\' || c == '.' || c == '+' || c == '*' || c == '?' || c == '(' || c == ')' || c == '|'
        || c == '[' || c == ']' || c == '{' || c == '}' || c == '^' || c == '$' || c == '#' || c
        == '&' || c == '-' || c == '~'
}

/// `s` with a backslash put before every regex meta character.
pub open spec fn regex_escape(s: Seq<char>) -> Seq<char>
    decreases s.len(),
{
    if s.len() == 0 {
        s
    } else if is_regex_meta(s.last()) {
        regex_escape(s.drop_last()) + seq!['\\', s.last()]
    } else {
        regex_escape(s.drop_last()).push(s.last())
    }
}

/// Compiles `pat` (`regex::Regex::new`) and returns the text of group
/// `group` of the first match in `hay` (`Regex::captures`,
/// `Captures::get`, `Match::as_str`). Claims only that the outcome is the
/// named one: the compile error's text, or the group's text.
#[verifier::external_body]
pub(crate) fn capture_group(pat: &str, hay: &str, group: usize) -> (r: Result<Option<String>, String>)
    ensures
        match r {
            Ok(g) => regex_compile_error(pat@) is None && opt_view(g) == regex_group(
                pat@,
                hay@,
                group as nat,
            ),
            Err(e) => regex_compile_error(pat@) == Some(e@),
        },
{
    match regex::Regex::new(pat) {
        Ok(re) => Ok(re.captures(hay).and_then(|c| c.get(group)).map(|m| m.as_str().to_string())),
        Err(e) => Err(e.to_string()),
    }
}

/// Compiles `pat` and lists, for each successive match in `hay`
/// (`Regex::captures_iter`), the whole match's text and group 1's text.
/// Claims only that the outcome is the named one.
#[verifier::external_body]
pub(crate) fn all_captures(pat: &str, hay: &str) -> (r: Result<Vec<(String, Option<String>)>, String>)
    ensures
        match r {
            Ok(v) => {
                &&& regex_compile_error(pat@) is None
                &&& v.len() == regex_all_captures(pat@, hay@).len()
                &&& forall|i: int|
                    0 <= i < v.len() ==> (#[trigger] v@[i]).0@ == regex_all_captures(
                        pat@,
                        hay@,
                    )[i].0 && opt_view(v@[i].1) == regex_all_captures(pat@, hay@)[i].1
            },
            Err(e) => regex_compile_error(pat@) == Some(e@),
        },
{
    match regex::Regex::new(pat) {
        Ok(re) => {
            let mut out = Vec::new();
            for c in re.captures_iter(hay) {
                out.push((c[0].to_string(), c.get(1).map(|m| m.as_str().to_string())));
            }
            Ok(out)
        },
        Err(e) => Err(e.to_string()),
    }
}

/// Compiles `pat` and deletes every match from `hay`
/// (`Regex::replace_all` with `""`). Claims only that the outcome is the
/// named one.
#[verifier::external_body]
pub(crate) fn remove_all(pat: &str, hay: &str) -> (r: Result<String, String>)
    ensures
        match r {
            Ok(s) => regex_compile_error(pat@) is None && s@ == regex_remove_all(pat@, hay@),
            Err(e) => regex_compile_error(pat@) == Some(e@),
        },
{
    match regex::Regex::new(pat) {
        Ok(re) => Ok(re.replace_all(hay, "").into_owned()),
        Err(e) => Err(e.to_string()),
    }
}

/// `regex::escape(s)`: as regex-syntax writes it, each character of `s`,
/// after a backslash when it is a meta character.
#[verifier::external_body]
pub(crate) fn escape(s: &str) -> (r: String)
    ensures
        r@ == regex_escape(s@),
{
    regex::escape(s)
}

} // verus!
