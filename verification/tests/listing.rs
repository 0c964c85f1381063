use lanzou_next::listing::{
    build_ls_result, crumb_from, more_pages, CrumbsInfo, FolderIdValue, RemoteFile, RemoteFolder,
};

fn dirs() -> Vec<RemoteFolder> {
    vec![RemoteFolder { name: "d1".into(), fol_id: "11".into() }]
}

fn files() -> Vec<RemoteFile> {
    vec![RemoteFile {
        id: "22".into(),
        name_all: "f.txt".into(),
        icon: Some("txt".into()),
        size: Some("1 K".into()),
        time: None,
        downs: Some("3".into()),
    }]
}

#[test]
fn listings_put_folders_first_or_last() {
    let crumbs = vec![CrumbsInfo { id: "5".into(), name: "sub".into() }];
    let r = build_ls_result(&dirs(), crumbs, &files(), true);
    assert_eq!(r.files.len(), 2);
    assert_eq!(r.files[0].file_type, "folder");
    assert_eq!(r.files[0].id, "11");
    assert_eq!(r.files[0].icon, None);
    assert_eq!(r.files[1].file_type, "file");
    assert_eq!(r.files[1].name, "f.txt");
    assert_eq!(r.files[1].downs.as_deref(), Some("3"));
    assert_eq!(r.info.len(), 2);
    assert_eq!(r.info[0].id, "-1");
    assert_eq!(r.info[0].name, "根目录");
    assert_eq!(r.info[1].name, "sub");
    let r = build_ls_result(&dirs(), vec![], &files(), false);
    assert_eq!(r.files[0].file_type, "file");
    assert_eq!(r.files[1].file_type, "folder");
    assert_eq!(r.info.len(), 1);
}

#[test]
fn crumbs_accept_numbers_and_strings() {
    let c = crumb_from(&FolderIdValue::Int(-7), &Some("x".into())).unwrap();
    assert_eq!(c.id, "-7");
    let c = crumb_from(&FolderIdValue::Text("abc".into()), &Some("y".into())).unwrap();
    assert_eq!(c.id, "abc");
    assert!(crumb_from(&FolderIdValue::Other, &Some("y".into())).is_none());
    assert!(crumb_from(&FolderIdValue::Int(1), &None).is_none());
}

#[test]
fn full_pages_ask_for_more() {
    assert!(more_pages(Some(18)));
    assert!(!more_pages(Some(17)));
    assert!(!more_pages(None));
}
