//! The recycle bin: reading its pages (an HTML table of deleted items, and
//! the list of files in a deleted folder) and the restore/delete requests.

use vstd::prelude::*;

use crate::error::AppError;
use crate::pattern::{
    all_captures, capture_group, regex_all_captures, regex_compile_error, regex_group,
};
use crate::text::{
    before_first, chars_of, contains_seq, occurs_at, occurs_at_exec, ends_with_seq, owned, push_str, replace_exec, replace_seq,
    rfind_char, split_exec, split_seq, str_contains, str_eq, string_of_range, string_views,
    trim_bounds, trim_seq, trim_string,
};

verus! {

/// An item of the recycle bin.
#[derive(Debug, Clone, PartialEq, Eq)]
pub struct RecycleItem {
    pub id: String,
    /// `file` or `folder`.
    pub file_type: String,
    pub name: String,
    /// May be empty: the bin does not always show a file's size.
    pub size: String,
    /// When it was deleted.
    pub time: String,
}

/// A file inside a deleted folder: name and size, for display.
#[derive(Debug, Clone, PartialEq, Eq)]
pub struct RecycleFile {
    pub name: String,
    pub size: String,
}

// ---------------------------------------------------------------------------
// Tags and entities
// ---------------------------------------------------------------------------

/// Whether the text ends inside a tag: after a `<` not yet closed by `>`.
pub open spec fn inside_tag(s: Seq<char>) -> bool
    decreases s.len(),
{
    if s.len() == 0 {
        false
    } else if s.last() == '<' {
        true
    } else if s.last() == '>' {
        false
    } else {
        inside_tag(s.drop_last())
    }
}

/// The text outside tags: every character that is not `<` or `>` and not
/// between a `<` and the next `>`.
pub open spec fn untagged(s: Seq<char>) -> Seq<char>
    decreases s.len(),
{
    if s.len() == 0 {
        s
    } else {
        let p = s.drop_last();
        let c = s.last();
        if c == '<' || c == '>' || inside_tag(p) {
            untagged(p)
        } else {
            untagged(p).push(c)
        }
    }
}

/// The entity that starts at position `i` of `s`, if any: its length and
/// the character it stands for (`&nbsp;` a space, `&amp;` `&lt;` `&gt;`
/// `&quot;` their characters).
pub open spec fn entity_at(s: Seq<char>, i: int) -> Option<(nat, char)> {
    if occurs_at(s, seq!['&', 'n', 'b', 's', 'p', ';'], i) {
        Some((6nat, ' '))
    } else if occurs_at(s, seq!['&', 'a', 'm', 'p', ';'], i) {
        Some((5nat, '&'))
    } else if occurs_at(s, seq!['&', 'l', 't', ';'], i) {
        Some((4nat, '<'))
    } else if occurs_at(s, seq!['&', 'g', 't', ';'], i) {
        Some((4nat, '>'))
    } else if occurs_at(s, seq!['&', 'q', 'u', 'o', 't', ';'], i) {
        Some((6nat, '"'))
    } else {
        None
    }
}

/// `s` from position `i` on with its entities decoded in one pass from
/// left to right (the text an entity stands for is not decoded again),
/// and each no-break space made a plain space.
pub open spec fn decode_entities_from(s: Seq<char>, i: int) -> Seq<char>
    decreases s.len() - i,
{
    if i < 0 || i >= s.len() {
        Seq::empty()
    } else {
        match entity_at(s, i) {
            Some((k, c)) => seq![c] + decode_entities_from(s, i + k),
            None => seq![if s[i] == '\u{a0}' { ' ' } else { s[i] }] + decode_entities_from(s, i + 1),
        }
    }
}

/// Text of an HTML fragment: tags removed, the common entities and the
/// no-break space decoded (each once), whitespace trimmed.
pub open spec fn strip_tags_spec(s: Seq<char>) -> Seq<char> {
    trim_seq(decode_entities_from(untagged(s), 0))
}

/// The text of an HTML fragment.
pub fn strip_tags(s: &str) -> (r: String)
    ensures
        r@ == strip_tags_spec(s@),
{
    let v = chars_of(s);
    let mut out: Vec<char> = Vec::new();
    let mut in_tag = false;
    let mut i: usize = 0;
    while i < v.len()
        invariant
            i <= v.len(),
            v@ == s@,
            in_tag == inside_tag(v@.subrange(0, i as int)),
            out@ == untagged(v@.subrange(0, i as int)),
        decreases v.len() - i,
    {
        let c = v[i];
        assert(v@.subrange(0, i + 1).drop_last() =~= v@.subrange(0, i as int));
        if c == '<' {
            in_tag = true;
        } else if c == '>' {
            in_tag = false;
        } else if !in_tag {
            out.push(c);
        }
        i += 1;
    }
    assert(v@.subrange(0, v@.len() as int) =~= v@);
    let nbsp = chars_of("&nbsp;");
    let amp = chars_of("&amp;");
    let lt = chars_of("&lt;");
    let gt = chars_of("&gt;");
    let quot = chars_of("&quot;");
    proof {
        reveal_strlit("&nbsp;");
        reveal_strlit("&amp;");
        reveal_strlit("&lt;");
        reveal_strlit("&gt;");
        reveal_strlit("&quot;");
        assert(nbsp@ =~= seq!['&', 'n', 'b', 's', 'p', ';']);
        assert(amp@ =~= seq!['&', 'a', 'm', 'p', ';']);
        assert(lt@ =~= seq!['&', 'l', 't', ';']);
        assert(gt@ =~= seq!['&', 'g', 't', ';']);
        assert(quot@ =~= seq!['&', 'q', 'u', 'o', 't', ';']);
    }
    let mut dec: Vec<char> = Vec::new();
    let mut j: usize = 0;
    assert(dec@ + decode_entities_from(out@, 0) =~= decode_entities_from(out@, 0));
    while j < out.len()
        invariant
            j <= out.len(),
            nbsp@ == seq!['&', 'n', 'b', 's', 'p', ';'],
            amp@ == seq!['&', 'a', 'm', 'p', ';'],
            lt@ == seq!['&', 'l', 't', ';'],
            gt@ == seq!['&', 'g', 't', ';'],
            quot@ == seq!['&', 'q', 'u', 'o', 't', ';'],
            decode_entities_from(out@, 0) == dec@ + decode_entities_from(out@, j as int),
        decreases out.len() - j,
    {
        let ghost before = dec@;
        let ghost e = entity_at(out@, j as int);
        let (k, c): (usize, char) = if occurs_at_exec(&out, &nbsp, j) {
            (6, ' ')
        } else if occurs_at_exec(&out, &amp, j) {
            (5, '&')
        } else if occurs_at_exec(&out, &lt, j) {
            (4, '<')
        } else if occurs_at_exec(&out, &gt, j) {
            (4, '>')
        } else if occurs_at_exec(&out, &quot, j) {
            (6, '"')
        } else if out[j] == '\u{a0}' {
            (1, ' ')
        } else {
            (1, out[j])
        };
        assert(decode_entities_from(out@, j as int) == seq![c] + decode_entities_from(
            out@,
            j + k,
        ));
        dec.push(c);
        assert(dec@ + decode_entities_from(out@, j + k) =~= before + (seq![c] + decode_entities_from(
            out@,
            j + k,
        )));
        j += k;
    }
    assert(dec@ + decode_entities_from(out@, j as int) =~= dec@);
    let (x, y) = trim_bounds(&dec, 0, dec.len());
    assert(dec@.subrange(0, dec@.len() as int) =~= dec@);
    string_of_range(&dec, x, y)
}

// ---------------------------------------------------------------------------
// Files of a deleted folder
// ---------------------------------------------------------------------------

/// One `<li>` of the folder page.
pub const LI_PATTERN: &'static str = r"<li[^>]*>([\s\S]*?)</li>";

/// A text `name (size)` split into its trimmed name and size; text without
/// a closing bracket at the end is all name.
pub open spec fn name_and_size(t: Seq<char>) -> (Seq<char>, Seq<char>) {
    match rfind_char(t, '(') {
        Some(p) => if ends_with_seq(t, ")"@) {
            (trim_seq(t.subrange(0, p)), trim_seq(t.subrange(p + 1, t.len() - 1)))
        } else {
            (t, Seq::empty())
        },
        None => (t, Seq::empty()),
    }
}

/// The listed file of one `<li>` match: none for the heading line (class
/// `f14`), for an empty text, or for an empty name.
pub open spec fn listed_file(whole: Seq<char>, inner: Option<Seq<char>>) -> Option<(Seq<char>, Seq<char>)> {
    let t = trim_seq(strip_tags_spec(match inner {
        Some(x) => x,
        None => Seq::empty(),
    }));
    if contains_seq(whole, "class=\"f14\""@) || t.len() == 0 {
        None
    } else if name_and_size(t).0.len() == 0 {
        None
    } else {
        Some(name_and_size(t))
    }
}

/// The listed files of a sequence of `<li>` matches, in order.
pub open spec fn listed_files(caps: Seq<(Seq<char>, Option<Seq<char>>)>) -> Seq<(Seq<char>, Seq<char>)>
    decreases caps.len(),
{
    if caps.len() == 0 {
        Seq::empty()
    } else {
        let rest = listed_files(caps.drop_last());
        match listed_file(caps.last().0, caps.last().1) {
            Some(p) => rest.push(p),
            None => rest,
        }
    }
}

/// The files of a deleted folder's page.
pub open spec fn show_files_spec(html: Seq<char>) -> Seq<(Seq<char>, Seq<char>)> {
    match regex_compile_error(LI_PATTERN@) {
        Some(_) => Seq::empty(),
        None => listed_files(regex_all_captures(LI_PATTERN@, html)),
    }
}

/// Name and size of the files.
pub open spec fn recycle_file_views(v: Seq<RecycleFile>) -> Seq<(Seq<char>, Seq<char>)> {
    v.map_values(|f: RecycleFile| (f.name@, f.size@))
}

/// Splits `name (size)` into name and size.
pub fn split_name_size(t: &str) -> (r: (String, String))
    ensures
        (r.0@, r.1@) == name_and_size(t@),
{
    let v = chars_of(t);
    proof {
        reveal_strlit(")");
    }
    let mut k = v.len();
    assert(v@.subrange(0, v@.len() as int) =~= v@);
    while k > 0 && v[k - 1] != '('
        invariant
            k <= v.len(),
            rfind_char(v@, '(') == rfind_char(v@.subrange(0, k as int), '('),
        decreases k,
    {
        assert(v@.subrange(0, k as int).drop_last() =~= v@.subrange(0, k - 1));
        k -= 1;
    }
    assert(v@.subrange(0, v@.len() as int) =~= v@);
    if k == 0 {
        assert(rfind_char(v@.subrange(0, 0), '(') is None);
        return (owned(t), String::new());
    }
    let p = k - 1;
    assert(rfind_char(v@, '(') == Some(p as int));
    let ends = crate::text::ends_with_exec(&v, ")");
    if !ends {
        return (owned(t), String::new());
    }
    assert(")"@ =~= seq![')']);
    assert(v@.subrange(v@.len() - 1, v@.len() as int) =~= seq![v@.last()]);
    assert(v@.subrange(v@.len() - 1, v@.len() as int)[0] == ')');
    assert(v@[p as int] == '(');
    assert(p + 1 <= v.len() - 1);
    let (a, b) = trim_bounds(&v, 0, p);
    let name = string_of_range(&v, a, b);
    let (c, d) = trim_bounds(&v, p + 1, v.len() - 1);
    let size = string_of_range(&v, c, d);
    (name, size)
}

/// The file of one `<li>` match, if it lists one.
fn listed_file_exec(whole: &str, inner: &Option<String>) -> (r: Option<RecycleFile>)
    ensures
        match r {
            Some(f) => listed_file(whole@, crate::text::opt_view(*inner)) == Some((f.name@, f.size@)),
            None => listed_file(whole@, crate::text::opt_view(*inner)) is None,
        },
{
    let stripped = match inner {
        Some(x) => strip_tags(x.as_str()),
        None => strip_tags(""),
    };
    proof {
        reveal_strlit("");
    }
    let t = trim_string(stripped.as_str());
    if str_contains(whole, "class=\"f14\"") || t.as_str().unicode_len() == 0 {
        return None;
    }
    let (name, size) = split_name_size(t.as_str());
    if name.as_str().unicode_len() == 0 {
        return None;
    }
    Some(RecycleFile { name, size })
}

/// The files listed on a deleted folder's page.
pub fn parse_show_files(html: &str) -> (r: Vec<RecycleFile>)
    ensures
        recycle_file_views(r@) == show_files_spec(html@),
{
    let caps = match all_captures(LI_PATTERN, html) {
        Ok(c) => c,
        Err(_) => return Vec::new(),
    };
    let ghost cs = regex_all_captures(LI_PATTERN@, html@);
    let mut r: Vec<RecycleFile> = Vec::new();
    let mut i: usize = 0;
    while i < caps.len()
        invariant
            i <= caps.len(),
            caps.len() == cs.len(),
            regex_compile_error(LI_PATTERN@) is None,
            forall|k: int| 0 <= k < caps.len() ==> (#[trigger] caps@[k]).0@ == cs[k].0
                && crate::text::opt_view(caps@[k].1) == cs[k].1,
            recycle_file_views(r@) == listed_files(cs.take(i as int)),
        decreases caps.len() - i,
    {
        assert(cs.take(i + 1).drop_last() =~= cs.take(i as int));
        assert(cs.take(i + 1).last() == cs[i as int]);
        match listed_file_exec(caps[i].0.as_str(), &caps[i].1) {
            Some(f) => {
                r.push(f);
                assert(recycle_file_views(r@) =~= recycle_file_views(r@.drop_last()).push(
                    (r@.last().name@, r@.last().size@),
                ));
                assert(r@.drop_last() =~= r@.subrange(0, r@.len() - 1));
            },
            None => {},
        }
        i += 1;
    }
    assert(cs.take(i as int) =~= cs);
    r
}

/// The files of a deleted folder: none when the page says the folder is
/// empty, otherwise those listed.
pub fn recycle_files_of(body: &str) -> (r: Vec<RecycleFile>)
    ensures
        contains_seq(body@, "此文件夹没有包含文件"@) ==> r@.len() == 0,
        !contains_seq(body@, "此文件夹没有包含文件"@) ==> recycle_file_views(r@) == show_files_spec(body@),
{
    if str_contains(body, "此文件夹没有包含文件") {
        Vec::new()
    } else {
        parse_show_files(body)
    }
}

/// The address of a deleted folder's page.
pub fn show_files_path(folder_id: &str) -> (r: String)
    ensures
        r@ == "mydisk.php?item=recycle&action=show_files&folder_id="@ + folder_id@,
{
    let mut r = owned("mydisk.php?item=recycle&action=show_files&folder_id=");
    push_str(&mut r, folder_id);
    r
}

// ---------------------------------------------------------------------------
// The bin's table
// ---------------------------------------------------------------------------

/// One `<td>` of a table row.
pub const TD_PATTERN: &'static str = r"<\s*td[^>]*>([\s\S]*?)</\s*td>";

/// The pattern finding the value of the checkbox named `name` (its
/// brackets escaped).
pub open spec fn checkbox_pattern(name: Seq<char>) -> Seq<char> {
    "name=\""@ + replace_seq(replace_seq(name, "["@, "\\["@), "]"@, "\\]"@) + "\"[^>]*value=\"([^\"]+)\""@
}

/// The value of the checkbox `name` in a row.
pub open spec fn checkbox_id_spec(row: Seq<char>, name: Seq<char>) -> Option<Seq<char>> {
    match regex_compile_error(checkbox_pattern(name)) {
        Some(_) => None,
        None => regex_group(checkbox_pattern(name), row, 1),
    }
}

/// The value of the checkbox named `name` in a table row.
pub fn extract_checkbox_id(row: &str, name: &str) -> (r: Option<String>)
    ensures
        crate::text::opt_view(r) == checkbox_id_spec(row@, name@),
{
    proof {
        reveal_strlit("[");
        reveal_strlit("]");
    }
    let nv = chars_of(name);
    let a = replace_exec(&nv, "[", "\\[");
    let b = replace_exec(&a, "]", "\\]");
    let mut pat = owned("name=\"");
    push_str(&mut pat, crate::text::string_of(&b).as_str());
    push_str(&mut pat, "\"[^>]*value=\"([^\"]+)\"");
    assert(pat@ == checkbox_pattern(name@));
    match capture_group(pat.as_str(), row, 1) {
        Ok(g) => g,
        Err(_) => None,
    }
}

/// The trimmed contents of the cells of a row.
pub open spec fn cells_spec(row: Seq<char>) -> Seq<Seq<char>> {
    match regex_compile_error(TD_PATTERN@) {
        Some(_) => Seq::empty(),
        None => regex_all_captures(TD_PATTERN@, row).map_values(
            |c: (Seq<char>, Option<Seq<char>>)| trim_seq(match c.1 {
                Some(x) => x,
                None => Seq::empty(),
            }),
        ),
    }
}

/// The trimmed contents of the cells of a table row.
pub fn extract_tds(row: &str) -> (r: Vec<String>)
    ensures
        string_views(r@) == cells_spec(row@),
{
    let caps = match all_captures(TD_PATTERN, row) {
        Ok(c) => c,
        Err(_) => return Vec::new(),
    };
    let ghost cs = regex_all_captures(TD_PATTERN@, row@);
    let mut r: Vec<String> = Vec::new();
    let mut i: usize = 0;
    while i < caps.len()
        invariant
            i <= caps.len(),
            caps.len() == cs.len(),
            regex_compile_error(TD_PATTERN@) is None,
            forall|k: int| 0 <= k < caps.len() ==> (#[trigger] caps@[k]).0@ == cs[k].0
                && crate::text::opt_view(caps@[k].1) == cs[k].1,
            r@.len() == i,
            forall|k: int| 0 <= k < i ==> (#[trigger] r@[k])@ == trim_seq(match cs[k].1 {
                Some(x) => x,
                None => Seq::<char>::empty(),
            }),
        decreases caps.len() - i,
    {
        let t = match &caps[i].1 {
            Some(x) => trim_string(x.as_str()),
            None => String::new(),
        };
        proof {
            if cs[i as int].1 is None {
                assert(trim_seq(Seq::<char>::empty()) =~= Seq::<char>::empty());
            }
        }
        r.push(t);
        i += 1;
    }
    assert(string_views(r@) =~= cells_spec(row@));
    r
}

/// Cell `k` of a row's cells, or empty.
pub open spec fn cell_or_empty(cells: Seq<Seq<char>>, k: int) -> Seq<char> {
    if 0 <= k < cells.len() {
        cells[k]
    } else {
        Seq::empty()
    }
}

/// The item that a table row describes, if any: a folder when it has the
/// folder checkbox, else a file when it has the file checkbox; name, size
/// and time are the text of its first three cells.
pub open spec fn row_item(row: Seq<char>) -> Option<(Seq<char>, Seq<char>, Seq<char>, Seq<char>, Seq<char>)> {
    let cells = cells_spec(row);
    let rest = (
        strip_tags_spec(cell_or_empty(cells, 0)),
        strip_tags_spec(cell_or_empty(cells, 1)),
        strip_tags_spec(cell_or_empty(cells, 2)),
    );
    match checkbox_id_spec(row, "fd_sel_ids[]"@) {
        Some(id) => Some((id, "folder"@, rest.0, rest.1, rest.2)),
        None => match checkbox_id_spec(row, "fl_sel_ids[]"@) {
            Some(id) => Some((id, "file"@, rest.0, rest.1, rest.2)),
            None => None,
        },
    }
}

/// The items described by a sequence of row texts, in order.
pub open spec fn row_items(rows: Seq<Seq<char>>) -> Seq<(Seq<char>, Seq<char>, Seq<char>, Seq<char>, Seq<char>)>
    decreases rows.len(),
{
    if rows.len() == 0 {
        Seq::empty()
    } else {
        let rest = row_items(rows.drop_last());
        match row_item(rows.last()) {
            Some(it) => rest.push(it),
            None => rest,
        }
    }
}

/// The rows of the bin's page: the text after each `<tr` up to its
/// `</tr>`.
pub open spec fn table_rows(html: Seq<char>) -> Seq<Seq<char>> {
    split_seq(html, "<tr"@).drop_first().map_values(|p: Seq<char>| before_first(p, "</tr>"@))
}

/// Id, type, name, size and time of the items.
pub open spec fn recycle_item_views(v: Seq<RecycleItem>) -> Seq<(Seq<char>, Seq<char>, Seq<char>, Seq<char>, Seq<char>)> {
    v.map_values(|it: RecycleItem| (it.id@, it.file_type@, it.name@, it.size@, it.time@))
}

/// The text of a row up to its `</tr>`.
fn row_text(piece: &str) -> (r: String)
    ensures
        r@ == before_first(piece@, "</tr>"@),
{
    let v = chars_of(piece);
    let sep = chars_of("</tr>");
    proof {
        crate::text::lemma_find_from(v@, sep@, 0);
    }
    match crate::text::find_exec(&v, &sep, 0) {
        Some(k) => string_of_range(&v, 0, k),
        None => owned(piece),
    }
}

/// The item of one row, if it describes one.
fn row_item_exec(row: &str) -> (r: Option<RecycleItem>)
    ensures
        match r {
            Some(it) => row_item(row@) == Some((it.id@, it.file_type@, it.name@, it.size@, it.time@)),
            None => row_item(row@) is None,
        },
{
    let (id, kind) = match extract_checkbox_id(row, "fd_sel_ids[]") {
        Some(id) => (id, owned("folder")),
        None => match extract_checkbox_id(row, "fl_sel_ids[]") {
            Some(id) => (id, owned("file")),
            None => return None,
        },
    };
    let tds = extract_tds(row);
    let ghost cells = cells_spec(row@);
    let name = if tds.len() > 0 { strip_tags(tds[0].as_str()) } else { strip_tags("") };
    let size = if tds.len() > 1 { strip_tags(tds[1].as_str()) } else { strip_tags("") };
    let time = if tds.len() > 2 { strip_tags(tds[2].as_str()) } else { strip_tags("") };
    proof {
        reveal_strlit("");
        assert(tds@.len() == cells.len());
        assert(tds@.len() > 0 ==> tds@[0]@ == cells[0]);
        assert(tds@.len() > 1 ==> tds@[1]@ == cells[1]);
        assert(tds@.len() > 2 ==> tds@[2]@ == cells[2]);
    }
    Some(RecycleItem { id, file_type: kind, name, size, time })
}

/// The items of the recycle bin's page.
pub fn parse_recycle_html(html: &str) -> (r: Vec<RecycleItem>)
    ensures
        recycle_item_views(r@) == row_items(table_rows(html@)),
{
    proof {
        reveal_strlit("<tr");
    }
    let hv = chars_of(html);
    let pieces = split_exec(&hv, "<tr");
    let ghost rows = table_rows(html@);
    let ghost ps = string_views(pieces@);
    assert(ps == split_seq(html@, "<tr"@));
    let mut r: Vec<RecycleItem> = Vec::new();
    if pieces.len() == 0 {
        assert(rows.len() == 0);
        return r;
    }
    let mut i: usize = 1;
    while i < pieces.len()
        invariant
            1 <= i <= pieces.len(),
            ps == string_views(pieces@),
            rows == ps.drop_first().map_values(|p: Seq<char>| before_first(p, "</tr>"@)),
            rows.len() == pieces.len() - 1,
            recycle_item_views(r@) == row_items(rows.take(i - 1)),
        decreases pieces.len() - i,
    {
        let row = row_text(pieces[i].as_str());
        assert(row@ == rows[i - 1]);
        assert(rows.take(i as int).drop_last() =~= rows.take(i - 1));
        match row_item_exec(row.as_str()) {
            Some(it) => {
                r.push(it);
                assert(recycle_item_views(r@) =~= recycle_item_views(r@.drop_last()).push(
                    (r@.last().id@, r@.last().file_type@, r@.last().name@, r@.last().size@, r@.last().time@),
                ));
                assert(r@.drop_last() =~= r@.subrange(0, r@.len() - 1));
            },
            None => {},
        }
        i += 1;
    }
    assert(rows.take(i - 1) =~= rows);
    r
}

// ---------------------------------------------------------------------------
// Restore and delete
// ---------------------------------------------------------------------------

/// The task and the id field of a bin action: restoring or deleting for
/// good, a file or a folder.
pub open spec fn recycle_task_spec(file_type: Seq<char>, action: Seq<char>) -> Option<(Seq<char>, Seq<char>)> {
    if file_type == "file"@ && action == "restore"@ {
        Some(("file_restore"@, "file_id"@))
    } else if file_type == "file"@ && action == "delete"@ {
        Some(("file_delete_complete"@, "file_id"@))
    } else if file_type == "folder"@ && action == "restore"@ {
        Some(("folder_restore"@, "folder_id"@))
    } else if file_type == "folder"@ && action == "delete"@ {
        Some(("folder_delete_complete"@, "folder_id"@))
    } else {
        None
    }
}

/// Deleting from the bin is for good and never restores: for a file the
/// task is `file_delete_complete`, for a folder `folder_delete_complete`,
/// restoring is `file_restore` / `folder_restore`, and for every kind of
/// item that has both, the delete task differs from the restore task while
/// both name the item by the same id field. Only files and folders, and
/// only these two actions, have a task.
pub proof fn law_bin_delete_is_for_good(kind: Seq<char>, action: Seq<char>)
    ensures
        recycle_task_spec("file"@, "delete"@) == Some(("file_delete_complete"@, "file_id"@)),
        recycle_task_spec("folder"@, "delete"@) == Some(("folder_delete_complete"@, "folder_id"@)),
        recycle_task_spec("file"@, "restore"@) == Some(("file_restore"@, "file_id"@)),
        recycle_task_spec("folder"@, "restore"@) == Some(("folder_restore"@, "folder_id"@)),
        recycle_task_spec(kind, "delete"@) is Some && recycle_task_spec(kind, "restore"@) is Some ==> {
            let d = recycle_task_spec(kind, "delete"@).unwrap();
            let r = recycle_task_spec(kind, "restore"@).unwrap();
            d.0 != r.0 && d.1 == r.1
        },
        recycle_task_spec(kind, action) is Some ==> (kind == "file"@ || kind == "folder"@) && (action
            == "delete"@ || action == "restore"@),
{
    reveal_strlit("file");
    reveal_strlit("folder");
    reveal_strlit("delete");
    reveal_strlit("restore");
    reveal_strlit("file_delete_complete");
    reveal_strlit("folder_delete_complete");
    reveal_strlit("file_restore");
    reveal_strlit("folder_restore");
    assert("file"@.len() != "folder"@.len());
    assert("delete"@.len() != "restore"@.len());
    assert("file_delete_complete"@.len() != "file_restore"@.len());
    assert("folder_delete_complete"@.len() != "folder_restore"@.len());
    assert("file_delete_complete"@ != "file_restore"@);
    assert("folder_delete_complete"@ != "folder_restore"@);
}

/// The task and the id field of a bin action; an error for any other
/// kind or action.
pub fn recycle_task(file_type: &str, action: &str) -> (r: Result<(String, String), AppError>)
    ensures
        match recycle_task_spec(file_type@, action@) {
            Some((t, f)) => r matches Ok((a, b)) && a@ == t && b@ == f,
            None => r matches Err(AppError::Lanzou(m)) && m@ == "无效的回收站操作"@,
        },
{
    let is_file = str_eq(file_type, "file");
    let is_folder = str_eq(file_type, "folder");
    let restore = str_eq(action, "restore");
    let delete = str_eq(action, "delete");
    if is_file && restore {
        Ok((owned("file_restore"), owned("file_id")))
    } else if is_file && delete {
        Ok((owned("file_delete_complete"), owned("file_id")))
    } else if is_folder && restore {
        Ok((owned("folder_restore"), owned("folder_id")))
    } else if is_folder && delete {
        Ok((owned("folder_delete_complete"), owned("folder_id")))
    } else {
        Err(AppError::Lanzou(owned("无效的回收站操作")))
    }
}

/// The confirmation page of a bin action.
pub fn recycle_confirm_path(task: &str, id_param: &str, id: &str) -> (r: String)
    ensures
        r@ == "mydisk.php?item=recycle&action="@ + task@ + "&"@ + id_param@ + "="@ + id@,
{
    let mut r = owned("mydisk.php?item=recycle&action=");
    push_str(&mut r, task);
    push_str(&mut r, "&");
    push_str(&mut r, id_param);
    push_str(&mut r, "=");
    push_str(&mut r, id);
    r
}

/// The form token on a confirmation page.
pub const FORMHASH_PATTERN: &'static str = r#"name="formhash"\s+value="([^"]+)""#;

/// The form token of a confirmation page; an error without one.
pub fn recycle_formhash(html: &str) -> (r: Result<String, AppError>)
    ensures
        match (regex_compile_error(FORMHASH_PATTERN@), regex_group(FORMHASH_PATTERN@, html@, 1)) {
            (None, Some(h)) => r matches Ok(t) && t@ == h,
            _ => r matches Err(AppError::Lanzou(m)) && m@ == "无法获取回收站操作凭据"@,
        },
{
    match capture_group(FORMHASH_PATTERN, html, 1) {
        Ok(Some(h)) => Ok(h),
        _ => Err(AppError::Lanzou(owned("无法获取回收站操作凭据"))),
    }
}

/// The form submitting a bin action; `base_url` is the service address.
pub fn recycle_form(task: &str, id_param: &str, id: &str, base_url: &str, formhash: String) -> (r: Vec<(String, String)>)
    ensures
        crate::ops::form_view(r@) == seq![
            ("action"@, task@),
            ("task"@, task@),
            (id_param@, id@),
            ("ref"@, base_url@ + "/mydisk.php?item=recycle&action=files"@),
            ("formhash"@, formhash@),
        ],
{
    let mut r: Vec<(String, String)> = Vec::new();
    r.push((owned("action"), owned(task)));
    r.push((owned("task"), owned(task)));
    r.push((owned(id_param), owned(id)));
    let mut link = owned(base_url);
    push_str(&mut link, "/mydisk.php?item=recycle&action=files");
    r.push((owned("ref"), link));
    r.push((owned("formhash"), formhash));
    assert(crate::ops::form_view(r@) =~= seq![
        ("action"@, task@),
        ("task"@, task@),
        (id_param@, id@),
        ("ref"@, base_url@ + "/mydisk.php?item=recycle&action=files"@),
        ("formhash"@, formhash@),
    ]);
    r
}

/// The outcome of a bin action from the reply page: done when it says
/// "成功".
pub fn recycle_action_outcome(body: &str) -> (r: Result<crate::ops::OpResult, AppError>)
    ensures
        contains_seq(body@, "成功"@) ==> (r matches Ok(o) && o.ok && o.message@.len() == 0),
        !contains_seq(body@, "成功"@) ==> (r matches Err(AppError::Lanzou(m)) && m@ == "回收站操作失败"@),
{
    if str_contains(body, "成功") {
        Ok(crate::ops::op_ok())
    } else {
        Err(AppError::Lanzou(owned("回收站操作失败")))
    }
}

} // verus!
