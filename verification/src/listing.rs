//! Folder listings: the folders and the files of a cloud folder, merged
//! into one list, and the breadcrumb path above it.

use vstd::prelude::*;

use crate::text::{i64_to_string, int_text, owned};

verus! {

/// One entry of a listing, a file or a folder.
#[derive(Debug, Clone, PartialEq, Eq)]
pub struct LsFile {
    /// Display name.
    pub name: String,
    pub id: String,
    /// `file` or `folder`.
    pub file_type: String,
    pub icon: Option<String>,
    pub size: Option<String>,
    pub time: Option<String>,
    pub downs: Option<String>,
}

/// One step of the breadcrumb path.
#[derive(Debug, Clone, PartialEq, Eq)]
pub struct CrumbsInfo {
    pub id: String,
    pub name: String,
}

/// A listing: the breadcrumb path and the entries.
#[derive(Debug, Clone, PartialEq, Eq)]
pub struct LsResult {
    pub info: Vec<CrumbsInfo>,
    pub files: Vec<LsFile>,
}

/// A sub-folder as the folder listing reports it.
#[derive(Debug, Clone, PartialEq, Eq)]
pub struct RemoteFolder {
    pub name: String,
    pub fol_id: String,
}

/// A file as the file listing reports it.
#[derive(Debug, Clone, PartialEq, Eq)]
pub struct RemoteFile {
    pub id: String,
    pub name_all: String,
    pub icon: Option<String>,
    pub size: Option<String>,
    pub time: Option<String>,
    pub downs: Option<String>,
}

/// The `folderid` of a breadcrumb step, which the service sends as a
/// number or as a string.
#[derive(Debug, Clone, PartialEq, Eq)]
pub enum FolderIdValue {
    Int(i64),
    Text(String),
    /// Absent, or of another kind.
    Other,
}

/// Number of files per page of the file listing: a full page means that
/// another may follow.
pub const LS_PAGE_SIZE: usize = 18usize;

/// `e` is the listing entry of the folder `d`.
pub open spec fn is_folder_entry(e: LsFile, d: RemoteFolder) -> bool {
    &&& e.name == d.name
    &&& e.id == d.fol_id
    &&& e.file_type@ == "folder"@
    &&& e.icon is None && e.size is None && e.time is None && e.downs is None
}

/// `e` is the listing entry of the file `f`.
pub open spec fn is_file_entry(e: LsFile, f: RemoteFile) -> bool {
    &&& e.name == f.name_all
    &&& e.id == f.id
    &&& e.file_type@ == "file"@
    &&& e.icon == f.icon && e.size == f.size && e.time == f.time && e.downs == f.downs
}

/// The entry of a folder.
pub fn folder_entry(d: &RemoteFolder) -> (r: LsFile)
    ensures
        is_folder_entry(r, *d),
{
    LsFile {
        name: d.name.clone(),
        id: d.fol_id.clone(),
        file_type: owned("folder"),
        icon: None,
        size: None,
        time: None,
        downs: None,
    }
}

/// The entry of a file.
pub fn file_entry(f: &RemoteFile) -> (r: LsFile)
    ensures
        is_file_entry(r, *f),
{
    LsFile {
        name: f.name_all.clone(),
        id: f.id.clone(),
        file_type: owned("file"),
        icon: f.icon.clone(),
        size: f.size.clone(),
        time: f.time.clone(),
        downs: f.downs.clone(),
    }
}

/// `entries[off..off+n]` are the entries of `dirs`, in order.
pub open spec fn folders_at(entries: Seq<LsFile>, off: int, dirs: Seq<RemoteFolder>) -> bool {
    forall|i: int| 0 <= i < dirs.len() ==> is_folder_entry(#[trigger] entries[off + i], dirs[i])
}

/// `entries[off..off+n]` are the entries of `files`, in order.
pub open spec fn files_at(entries: Seq<LsFile>, off: int, files: Seq<RemoteFile>) -> bool {
    forall|i: int| 0 <= i < files.len() ==> is_file_entry(#[trigger] entries[off + i], files[i])
}

/// `c` is the root step of a breadcrumb path: id `-1`, named "根目录".
pub open spec fn is_root_crumb(c: CrumbsInfo) -> bool {
    c.id@ == "-1"@ && c.name@ == "根目录"@
}

/// Appends the entries of `dirs` to `out`.
fn push_folders(out: &mut Vec<LsFile>, dirs: &Vec<RemoteFolder>)
    ensures
        final(out)@.len() == old(out)@.len() + dirs@.len(),
        final(out)@.subrange(0, old(out)@.len() as int) == old(out)@,
        folders_at(final(out)@, old(out)@.len() as int, dirs@),
{
    let ghost start = out@.len();
    let mut i: usize = 0;
    while i < dirs.len()
        invariant
            i <= dirs.len(),
            out@.len() == start + i,
            out@.subrange(0, start as int) == old(out)@,
            start == old(out)@.len(),
            forall|k: int| 0 <= k < i ==> is_folder_entry(#[trigger] out@[start + k], dirs@[k]),
        decreases dirs.len() - i,
    {
        let e = folder_entry(&dirs[i]);
        out.push(e);
        assert(out@.subrange(0, start as int) =~= old(out)@);
        i += 1;
    }
}

/// Appends the entries of `files` to `out`.
fn push_files(out: &mut Vec<LsFile>, files: &Vec<RemoteFile>)
    ensures
        final(out)@.len() == old(out)@.len() + files@.len(),
        final(out)@.subrange(0, old(out)@.len() as int) == old(out)@,
        files_at(final(out)@, old(out)@.len() as int, files@),
{
    let ghost start = out@.len();
    let mut i: usize = 0;
    while i < files.len()
        invariant
            i <= files.len(),
            out@.len() == start + i,
            out@.subrange(0, start as int) == old(out)@,
            start == old(out)@.len(),
            forall|k: int| 0 <= k < i ==> is_file_entry(#[trigger] out@[start + k], files@[k]),
        decreases files.len() - i,
    {
        let e = file_entry(&files[i]);
        out.push(e);
        assert(out@.subrange(0, start as int) =~= old(out)@);
        i += 1;
    }
}

/// The listing of a folder from its sub-folders, its breadcrumb path and
/// its files: folders first when `folder_first`, otherwise files first;
/// the path starts at the root.
pub fn build_ls_result(dirs: &Vec<RemoteFolder>, crumbs: Vec<CrumbsInfo>, files: &Vec<RemoteFile>, folder_first: bool) -> (r: LsResult)
    ensures
        r.files@.len() == dirs@.len() + files@.len(),
        folder_first ==> folders_at(r.files@, 0, dirs@) && files_at(r.files@, dirs@.len() as int, files@),
        !folder_first ==> files_at(r.files@, 0, files@) && folders_at(r.files@, files@.len() as int, dirs@),
        r.info@.len() == crumbs@.len() + 1,
        is_root_crumb(r.info@[0]),
        r.info@.subrange(1, r.info@.len() as int) == crumbs@,
{
    let mut entries: Vec<LsFile> = Vec::new();
    if folder_first {
        push_folders(&mut entries, dirs);
        let ghost mid = entries@;
        push_files(&mut entries, files);
        assert forall|i: int| 0 <= i < dirs@.len() implies is_folder_entry(#[trigger] entries@[0 + i], dirs@[i]) by {
            assert(entries@.subrange(0, mid.len() as int)[i] == mid[0 + i]);
        }
    } else {
        push_files(&mut entries, files);
        let ghost mid = entries@;
        push_folders(&mut entries, dirs);
        assert forall|i: int| 0 <= i < files@.len() implies is_file_entry(#[trigger] entries@[0 + i], files@[i]) by {
            assert(entries@.subrange(0, mid.len() as int)[i] == mid[0 + i]);
        }
    }
    let mut info: Vec<CrumbsInfo> = Vec::new();
    info.push(CrumbsInfo { id: owned("-1"), name: owned("根目录") });
    let mut i: usize = 0;
    while i < crumbs.len()
        invariant
            i <= crumbs.len(),
            info@.len() == i + 1,
            is_root_crumb(info@[0]),
            info@.subrange(1, info@.len() as int) == crumbs@.subrange(0, i as int),
        decreases crumbs.len() - i,
    {
        let c = CrumbsInfo { id: crumbs[i].id.clone(), name: crumbs[i].name.clone() };
        info.push(c);
        assert(info@.subrange(1, info@.len() as int) =~= crumbs@.subrange(0, i + 1));
        i += 1;
    }
    assert(crumbs@.subrange(0, crumbs@.len() as int) =~= crumbs@);
    LsResult { info, files: entries }
}

/// The breadcrumb step of a reported path element: its id, written as the
/// service sent it (a number in decimal), and its name; `None` when either
/// is missing.
pub fn crumb_from(folderid: &FolderIdValue, name: &Option<String>) -> (r: Option<CrumbsInfo>)
    ensures
        match (folderid, name) {
            (FolderIdValue::Int(n), Some(nm)) => r matches Some(c) && c.id@ == int_text(*n as int) && c.name == nm,
            (FolderIdValue::Text(t), Some(nm)) => r matches Some(c) && c.id == t && c.name == nm,
            _ => r is None,
        },
{
    let id = match folderid {
        FolderIdValue::Int(n) => i64_to_string(*n),
        FolderIdValue::Text(t) => t.clone(),
        FolderIdValue::Other => return None,
    };
    match name {
        Some(nm) => Some(CrumbsInfo { id, name: nm.clone() }),
        None => None,
    }
}

/// Whether another page of files may follow a page of `page_len` files (a
/// missing page ends the listing).
pub fn more_pages(page_len: Option<usize>) -> (r: bool)
    ensures
        r == (match page_len {
            Some(n) => n >= LS_PAGE_SIZE,
            None => false,
        }),
{
    match page_len {
        Some(n) => n >= LS_PAGE_SIZE,
        None => false,
    }
}

} // verus!
