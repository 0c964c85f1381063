//! File and folder operations: the request forms, the replies, and the
//! rules of moving folders (which the service cannot do directly).

use vstd::prelude::*;

use crate::error::AppError;
use crate::listing::LsFile;
use crate::text::{
    str_eq, i64_to_string, int_text, owned, parse_i64, parse_i64_spec, push_char, push_str,
    chars_of, decimal, u64_to_string,
};

verus! {

/// The outcome of an operation.
#[derive(Debug, Clone, PartialEq, Eq)]
pub struct OpResult {
    pub ok: bool,
    pub message: String,
}

/// An item to move: id, name, and `file` or `folder`.
#[derive(Debug, Clone, PartialEq, Eq)]
pub struct MoveTarget {
    pub id: String,
    pub name: String,
    pub file_type: String,
}

/// A file's name and description.
#[derive(Debug, Clone, PartialEq, Eq)]
pub struct FileDesc {
    pub name: Option<String>,
    pub desc: Option<String>,
}

/// Sharing settings of a file or folder.
#[derive(Debug, Clone, PartialEq, Eq)]
pub struct ShareDetail {
    pub has_pwd: bool,
    pub pwd: Option<String>,
    pub url: Option<String>,
    pub name: Option<String>,
}

/// A successful operation.
pub fn op_ok() -> (r: OpResult)
    ensures
        r.ok,
        r.message@ == Seq::<char>::empty(),
{
    OpResult { ok: true, message: String::new() }
}

// ---------------------------------------------------------------------------
// Forms
// ---------------------------------------------------------------------------

/// The fields of a form, as text.
pub open spec fn form_view(f: Seq<(String, String)>) -> Seq<(Seq<char>, Seq<char>)> {
    f.map_values(|p: (String, String)| (p.0@, p.1@))
}

/// Adds the field `k = v` to a form.
fn add_field(form: &mut Vec<(String, String)>, k: &str, v: String)
    ensures
        form_view(final(form)@) == form_view(old(form)@).push((k@, v@)),
{
    form.push((owned(k), v));
    assert(form_view(form@) =~= form_view(old(form)@).push((k@, v@)));
}

/// A folder name as the service takes it: spaces and round brackets become
/// `_`.
pub open spec fn folder_name_spec(name: Seq<char>) -> Seq<char> {
    name.map_values(|c: char| if c == ' ' || c == '(' || c == ')' { '_' } else { c })
}

/// Replaces spaces and round brackets in a new folder's name by `_`.
pub fn mkdir_folder_name(name: &str) -> (r: String)
    ensures
        r@ == folder_name_spec(name@),
{
    let v = chars_of(name);
    let mut r = String::new();
    let mut i: usize = 0;
    while i < v.len()
        invariant
            i <= v.len(),
            v@ == name@,
            r@ == folder_name_spec(v@.subrange(0, i as int)),
        decreases v.len() - i,
    {
        let c = v[i];
        if c == ' ' || c == '(' || c == ')' {
            push_char(&mut r, '_');
        } else {
            push_char(&mut r, c);
        }
        assert(folder_name_spec(v@.subrange(0, i + 1)) =~= folder_name_spec(v@.subrange(0, i as int)).push(
            if c == ' ' || c == '(' || c == ')' { '_' } else { c },
        ));
        i += 1;
    }
    assert(v@.subrange(0, v@.len() as int) =~= v@);
    r
}

/// The text of an optional value, empty when absent.
pub open spec fn or_empty(o: Option<Seq<char>>) -> Seq<char> {
    match o {
        Some(s) => s,
        None => Seq::empty(),
    }
}

fn text_or_empty(o: Option<&str>) -> (r: String)
    ensures
        r@ == or_empty(match o {
            Some(s) => Some(s@),
            None => None,
        }),
{
    match o {
        Some(s) => owned(s),
        None => String::new(),
    }
}

/// Form creating a folder named `name` (spaces and brackets replaced) in
/// `parent_id`.
pub fn mkdir_form(parent_id: i64, name: &str, description: Option<&str>) -> (r: Vec<(String, String)>)
    ensures
        form_view(r@) == seq![
            ("task"@, "2"@),
            ("parent_id"@, int_text(parent_id as int)),
            ("folder_name"@, folder_name_spec(name@)),
            ("folder_description"@, or_empty(match description {
                Some(s) => Some(s@),
                None => None,
            })),
        ],
{
    let mut r: Vec<(String, String)> = Vec::new();
    add_field(&mut r, "task", owned("2"));
    add_field(&mut r, "parent_id", i64_to_string(parent_id));
    add_field(&mut r, "folder_name", mkdir_folder_name(name));
    add_field(&mut r, "folder_description", text_or_empty(description));
    r
}

/// Form deleting a file.
pub fn rm_file_form(file_id: &str) -> (r: Vec<(String, String)>)
    ensures
        form_view(r@) == seq![("task"@, "6"@), ("file_id"@, file_id@)],
{
    let mut r: Vec<(String, String)> = Vec::new();
    add_field(&mut r, "task", owned("6"));
    add_field(&mut r, "file_id", owned(file_id));
    r
}

/// Form deleting an empty folder.
pub fn rm_folder_form(folder_id: &str) -> (r: Vec<(String, String)>)
    ensures
        form_view(r@) == seq![("task"@, "3"@), ("folder_id"@, folder_id@)],
{
    let mut r: Vec<(String, String)> = Vec::new();
    add_field(&mut r, "task", owned("3"));
    add_field(&mut r, "folder_id", owned(folder_id));
    r
}

/// Form renaming a file.
pub fn rename_file_form(file_id: &str, name: &str) -> (r: Vec<(String, String)>)
    ensures
        form_view(r@) == seq![
            ("task"@, "46"@),
            ("type"@, "2"@),
            ("file_id"@, file_id@),
            ("file_name"@, name@),
        ],
{
    let mut r: Vec<(String, String)> = Vec::new();
    add_field(&mut r, "task", owned("46"));
    add_field(&mut r, "type", owned("2"));
    add_field(&mut r, "file_id", owned(file_id));
    add_field(&mut r, "file_name", owned(name));
    r
}

/// Form renaming a folder and setting its description.
pub fn rename_folder_form(folder_id: &str, name: &str, description: Option<&str>) -> (r: Vec<(String, String)>)
    ensures
        form_view(r@) == seq![
            ("task"@, "4"@),
            ("folder_id"@, folder_id@),
            ("folder_name"@, name@),
            ("folder_description"@, or_empty(match description {
                Some(s) => Some(s@),
                None => None,
            })),
        ],
{
    let mut r: Vec<(String, String)> = Vec::new();
    add_field(&mut r, "task", owned("4"));
    add_field(&mut r, "folder_id", owned(folder_id));
    add_field(&mut r, "folder_name", owned(name));
    add_field(&mut r, "folder_description", text_or_empty(description));
    r
}

/// Form moving one file into a folder.
pub fn mv_file_form(file_id: &str, folder_id: i64) -> (r: Vec<(String, String)>)
    ensures
        form_view(r@) == seq![
            ("task"@, "20"@),
            ("file_id"@, file_id@),
            ("folder_id"@, int_text(folder_id as int)),
        ],
{
    let mut r: Vec<(String, String)> = Vec::new();
    add_field(&mut r, "task", owned("20"));
    add_field(&mut r, "file_id", owned(file_id));
    add_field(&mut r, "folder_id", i64_to_string(folder_id));
    r
}

/// Form setting the access password of a file (`shows` 1) or removing it
/// (`shows` 0).
pub fn set_file_access_form(file_id: &str, shows: u32, shownames: &str) -> (r: Vec<(String, String)>)
    ensures
        form_view(r@) == seq![
            ("task"@, "23"@),
            ("file_id"@, file_id@),
            ("shows"@, decimal(shows as nat)),
            ("shownames"@, shownames@),
        ],
{
    let mut r: Vec<(String, String)> = Vec::new();
    add_field(&mut r, "task", owned("23"));
    add_field(&mut r, "file_id", owned(file_id));
    add_field(&mut r, "shows", u64_to_string(shows as u64));
    add_field(&mut r, "shownames", owned(shownames));
    r
}

/// Form setting the access password of a folder.
pub fn set_folder_access_form(folder_id: &str, shows: u32, shownames: &str) -> (r: Vec<(String, String)>)
    ensures
        form_view(r@) == seq![
            ("task"@, "16"@),
            ("folder_id"@, folder_id@),
            ("shows"@, decimal(shows as nat)),
            ("shownames"@, shownames@),
        ],
{
    let mut r: Vec<(String, String)> = Vec::new();
    add_field(&mut r, "task", owned("16"));
    add_field(&mut r, "folder_id", owned(folder_id));
    add_field(&mut r, "shows", u64_to_string(shows as u64));
    add_field(&mut r, "shownames", owned(shownames));
    r
}

/// Form reading a file's description.
pub fn file_description_form(file_id: &str) -> (r: Vec<(String, String)>)
    ensures
        form_view(r@) == seq![("task"@, "12"@), ("file_id"@, file_id@)],
{
    let mut r: Vec<(String, String)> = Vec::new();
    add_field(&mut r, "task", owned("12"));
    add_field(&mut r, "file_id", owned(file_id));
    r
}

/// Form setting a file's description.
pub fn set_file_description_form(file_id: &str, desc: &str) -> (r: Vec<(String, String)>)
    ensures
        form_view(r@) == seq![("task"@, "11"@), ("file_id"@, file_id@), ("desc"@, desc@)],
{
    let mut r: Vec<(String, String)> = Vec::new();
    add_field(&mut r, "task", owned("11"));
    add_field(&mut r, "file_id", owned(file_id));
    add_field(&mut r, "desc", owned(desc));
    r
}

/// Form reading a file's sharing settings.
pub fn file_detail_form(file_id: &str) -> (r: Vec<(String, String)>)
    ensures
        form_view(r@) == seq![("task"@, "22"@), ("file_id"@, file_id@)],
{
    let mut r: Vec<(String, String)> = Vec::new();
    add_field(&mut r, "task", owned("22"));
    add_field(&mut r, "file_id", owned(file_id));
    r
}

/// Form reading a folder's sharing settings.
pub fn folder_detail_form(folder_id: &str) -> (r: Vec<(String, String)>)
    ensures
        form_view(r@) == seq![("task"@, "18"@), ("folder_id"@, folder_id@)],
{
    let mut r: Vec<(String, String)> = Vec::new();
    add_field(&mut r, "task", owned("18"));
    add_field(&mut r, "folder_id", owned(folder_id));
    r
}

// ---------------------------------------------------------------------------
// Replies
// ---------------------------------------------------------------------------

/// The id of a new folder from the reply's text; an error without one.
pub fn mkdir_reply(text: Option<String>) -> (r: Result<String, AppError>)
    ensures
        match text {
            Some(t) => r == Ok::<String, AppError>(t),
            None => r matches Err(AppError::Lanzou(m)) && m@ == "创建文件夹失败"@,
        },
{
    match text {
        Some(t) => Ok(t),
        None => Err(AppError::Lanzou(owned("创建文件夹失败"))),
    }
}

/// The numeric id of a folder created for `name`; an error naming the
/// folder when the id is not a number.
pub fn created_folder_id(id: &str, name: &str) -> (r: Result<i64, AppError>)
    ensures
        match parse_i64_spec(id@) {
            Some(n) => r == Ok::<i64, AppError>(n),
            None => r matches Err(AppError::Lanzou(m)) && m@ == "创建文件夹失败: "@ + name@,
        },
{
    match parse_i64(id) {
        Some(n) => Ok(n),
        None => {
            let mut m = owned("创建文件夹失败: ");
            push_str(&mut m, name);
            Err(AppError::Lanzou(m))
        },
    }
}

/// The sharing settings of a file from its reply: the password is on when
/// `onof` is `1`; the link is `is_newd/f_id` when both are present,
/// otherwise `new_url`.
pub fn file_share_detail(
    onof: Option<String>,
    pwd: Option<String>,
    is_newd: Option<String>,
    f_id: Option<String>,
    new_url: Option<String>,
) -> (r: ShareDetail)
    ensures
        r.has_pwd == (onof matches Some(o) && o@ == "1"@),
        r.pwd == (if r.has_pwd { pwd } else { None }),
        match (is_newd, f_id) {
            (Some(a), Some(b)) => r.url matches Some(u) && u@ == a@ + "/"@ + b@,
            _ => r.url == new_url,
        },
        r.name is None,
{
    let has_pwd = match &onof {
        Some(o) => str_eq(o.as_str(), "1"),
        None => false,
    };
    let url = match (is_newd, f_id) {
        (Some(a), Some(b)) => {
            let mut u = a;
            push_str(&mut u, "/");
            push_str(&mut u, b.as_str());
            Some(u)
        },
        _ => new_url,
    };
    ShareDetail { has_pwd, pwd: if has_pwd { pwd } else { None }, url, name: None }
}

/// The sharing settings of a folder from its reply.
pub fn folder_share_detail(
    onof: Option<String>,
    pwd: Option<String>,
    new_url: Option<String>,
    name: Option<String>,
) -> (r: ShareDetail)
    ensures
        r.has_pwd == (onof matches Some(o) && o@ == "1"@),
        r.pwd == (if r.has_pwd { pwd } else { None }),
        r.url == new_url,
        r.name == name,
{
    let has_pwd = match &onof {
        Some(o) => str_eq(o.as_str(), "1"),
        None => false,
    };
    ShareDetail { has_pwd, pwd: if has_pwd { pwd } else { None }, url: new_url, name }
}

// ---------------------------------------------------------------------------
// Moving folders
// ---------------------------------------------------------------------------

/// Deepest folder level that a move descends to.
pub const MOVE_MAX_DEPTH: u32 = 8u32;

/// A folder to move, read ahead with everything below it; files are
/// leaves.
#[derive(Debug)]
pub struct MoveNode {
    pub id: String,
    pub name: String,
    pub is_folder: bool,
    pub children: Vec<MoveNode>,
}

/// `id` is the id of `node` or of a node below it.
pub open spec fn tree_has_id(node: MoveNode, id: Seq<char>) -> bool
    decreases node, 1int, 0int,
{
    node.id@ == id || children_have_id(node, id, node.children@.len() as int)
}

/// `id` is held by the subtree of one of the first `k` children of `node`.
pub open spec fn children_have_id(node: MoveNode, id: Seq<char>, k: int) -> bool
    decreases node, 0int, k,
{
    if k <= 0 || k > node.children@.len() {
        false
    } else {
        children_have_id(node, id, k - 1) || tree_has_id(node.children@[k - 1], id)
    }
}

/// Whether `id` is the id of `node` or of a node below it.
pub fn contains_id(node: &MoveNode, id: &str) -> (r: bool)
    ensures
        r == tree_has_id(*node, id@),
    decreases node,
{
    if str_eq(node.id.as_str(), id) {
        return true;
    }
    let mut i: usize = 0;
    while i < node.children.len()
        invariant
            i <= node.children@.len(),
            node.id@ != id@,
            !children_have_id(*node, id@, i as int),
        decreases node.children@.len() - i,
    {
        if contains_id(&node.children[i], id) {
            proof {
                lemma_children_have_id(*node, id@, i as int, node.children@.len() as int);
            }
            return true;
        }
        i += 1;
    }
    false
}

/// A folder cannot be moved into itself or into a folder below it.
pub fn check_move_target(tree: &MoveNode, target_id: i64) -> (r: Result<(), AppError>)
    ensures
        tree_has_id(*tree, int_text(target_id as int)) ==> (r matches Err(AppError::Lanzou(m)) && m@ == "不能移动到自身或其子文件夹"@),
        !tree_has_id(*tree, int_text(target_id as int)) ==> r is Ok,
{
    let t = i64_to_string(target_id);
    if contains_id(tree, t.as_str()) {
        Err(AppError::Lanzou(owned("不能移动到自身或其子文件夹")))
    } else {
        Ok(())
    }
}

/// Every node of a tree holds its own id.
pub proof fn law_tree_holds_own_id(node: MoveNode)
    ensures
        tree_has_id(node, node.id@),
{
}

/// A tree holds every id that a child's subtree holds.
pub proof fn law_tree_holds_children_ids(node: MoveNode, i: int, id: Seq<char>)
    requires
        0 <= i < node.children@.len(),
        tree_has_id(node.children@[i], id),
    ensures
        tree_has_id(node, id),
{
    lemma_children_have_id(node, id, i, node.children@.len() as int);
}

proof fn lemma_children_have_id(node: MoveNode, id: Seq<char>, i: int, k: int)
    requires
        0 <= i < k <= node.children@.len(),
        tree_has_id(node.children@[i], id),
    ensures
        children_have_id(node, id, k),
    decreases k,
{
    if i < k - 1 {
        lemma_children_have_id(node, id, i, k - 1);
    }
}

/// Refuses to go below the deepest level.
pub fn check_depth(depth: u32) -> (r: Result<(), AppError>)
    ensures
        depth >= MOVE_MAX_DEPTH ==> (r matches Err(AppError::Lanzou(m)) && m@ == "文件夹层级过深，无法移动"@),
        depth < MOVE_MAX_DEPTH ==> r is Ok,
{
    if depth >= MOVE_MAX_DEPTH {
        Err(AppError::Lanzou(owned("文件夹层级过深，无法移动")))
    } else {
        Ok(())
    }
}

/// The node of a listed entry below a folder being moved: files are
/// leaves; folders carry the subtree read for them.
pub fn move_node_of(entry: &LsFile, children: Vec<MoveNode>) -> (r: MoveNode)
    ensures
        r.id == entry.id,
        r.name == entry.name,
        r.is_folder == (entry.file_type@ == "folder"@),
        r.is_folder ==> r.children == children,
        !r.is_folder ==> r.children@.len() == 0,
{
    let is_folder = str_eq(entry.file_type.as_str(), "folder");
    MoveNode {
        id: entry.id.clone(),
        name: entry.name.clone(),
        is_folder,
        children: if is_folder { children } else { Vec::new() },
    }
}

/// Marks an error from a move that had already moved `moved` files: the
/// message then says that part of the content may have moved.
pub fn partial_move_err(e: AppError, moved: u32) -> (r: AppError)
    ensures
        moved == 0 ==> r == e,
        moved > 0 ==> match e {
            AppError::Http(m) => r matches AppError::Lanzou(t) && t@ == "移动中断："@ + m@
                + "（部分内容可能已移动，请检查目标与源文件夹）"@,
            AppError::Lanzou(m) => r matches AppError::Lanzou(t) && t@ == m@
                + "（部分内容可能已移动，请检查目标与源文件夹）"@,
            _ => r == e,
        },
{
    if moved == 0 {
        return e;
    }
    match e {
        AppError::Http(m) => {
            let mut t = owned("移动中断：");
            push_str(&mut t, m.as_str());
            push_str(&mut t, "（部分内容可能已移动，请检查目标与源文件夹）");
            AppError::Lanzou(t)
        },
        AppError::Lanzou(m) => {
            let mut t = m;
            push_str(&mut t, "（部分内容可能已移动，请检查目标与源文件夹）");
            AppError::Lanzou(t)
        },
        other => other,
    }
}

/// The first listed folder named `name`, if any.
pub open spec fn first_folder_named(files: Seq<LsFile>, name: Seq<char>, from: int) -> Option<int>
    decreases files.len() - from,
{
    if from < 0 || from >= files.len() {
        None
    } else if files[from].file_type@ == "folder"@ && files[from].name@ == name {
        Some(from)
    } else {
        first_folder_named(files, name, from + 1)
    }
}

/// The id of the existing folder named `name` among `files` (the first
/// such), as a number: `None` when there is none, an error when its id is
/// not a number.
pub fn existing_folder_id(files: &Vec<LsFile>, name: &str) -> (r: Option<Result<i64, AppError>>)
    ensures
        match first_folder_named(files@, name@, 0) {
            None => r is None,
            Some(k) => match parse_i64_spec(files@[k].id@) {
                Some(n) => r == Some(Ok::<i64, AppError>(n)),
                None => r matches Some(Err(AppError::Lanzou(m))) && m@ == "文件夹 id 解析失败"@,
            },
        },
{
    let mut i: usize = 0;
    while i < files.len()
        invariant
            i <= files@.len(),
            first_folder_named(files@, name@, 0) == first_folder_named(files@, name@, i as int),
        decreases files@.len() - i,
    {
        let f = &files[i];
        if str_eq(f.file_type.as_str(), "folder") && str_eq(f.name.as_str(), name) {
            return Some(match parse_i64(f.id.as_str()) {
                Some(n) => Ok(n),
                None => Err(AppError::Lanzou(owned("文件夹 id 解析失败"))),
            });
        }
        i += 1;
    }
    None
}

/// The id of a folder just created for a move, as a number.
pub fn new_folder_id(id: &str) -> (r: Result<i64, AppError>)
    ensures
        match parse_i64_spec(id@) {
            Some(n) => r == Ok::<i64, AppError>(n),
            None => r matches Err(AppError::Lanzou(m)) && m@ == "新建文件夹 id 解析失败"@,
        },
{
    match parse_i64(id) {
        Some(n) => Ok(n),
        None => Err(AppError::Lanzou(owned("新建文件夹 id 解析失败"))),
    }
}

} // verus!
