use lanzou_next::error::AppError;
use lanzou_next::listing::LsFile;
use lanzou_next::ops::{
    check_depth, check_move_target, contains_id, created_folder_id, existing_folder_id,
    file_description_form, file_detail_form, file_share_detail, folder_detail_form,
    folder_share_detail, mkdir_folder_name, mkdir_form, mkdir_reply, move_node_of, mv_file_form,
    new_folder_id, op_ok, partial_move_err, rename_file_form, rename_folder_form, rm_file_form,
    rm_folder_form, set_file_access_form, set_file_description_form, set_folder_access_form,
    MoveNode,
};

fn pairs(v: &[(&str, &str)]) -> Vec<(String, String)> {
    v.iter().map(|(a, b)| (a.to_string(), b.to_string())).collect()
}

#[test]
fn forms_carry_the_task_numbers() {
    assert_eq!(
        mkdir_form(-1, "my (new) dir", None),
        pairs(&[("task", "2"), ("parent_id", "-1"), ("folder_name", "my__new__dir"), ("folder_description", "")])
    );
    assert_eq!(mkdir_form(7, "a", Some("d"))[3], ("folder_description".to_string(), "d".to_string()));
    assert_eq!(rm_file_form("9"), pairs(&[("task", "6"), ("file_id", "9")]));
    assert_eq!(rm_folder_form("9"), pairs(&[("task", "3"), ("folder_id", "9")]));
    assert_eq!(
        rename_file_form("9", "n"),
        pairs(&[("task", "46"), ("type", "2"), ("file_id", "9"), ("file_name", "n")])
    );
    assert_eq!(
        rename_folder_form("9", "n", None),
        pairs(&[("task", "4"), ("folder_id", "9"), ("folder_name", "n"), ("folder_description", "")])
    );
    assert_eq!(mv_file_form("9", 12), pairs(&[("task", "20"), ("file_id", "9"), ("folder_id", "12")]));
    assert_eq!(
        set_file_access_form("9", 1, "pw"),
        pairs(&[("task", "23"), ("file_id", "9"), ("shows", "1"), ("shownames", "pw")])
    );
    assert_eq!(
        set_folder_access_form("9", 0, ""),
        pairs(&[("task", "16"), ("folder_id", "9"), ("shows", "0"), ("shownames", "")])
    );
    assert_eq!(file_description_form("9"), pairs(&[("task", "12"), ("file_id", "9")]));
    assert_eq!(set_file_description_form("9", "x"), pairs(&[("task", "11"), ("file_id", "9"), ("desc", "x")]));
    assert_eq!(file_detail_form("9"), pairs(&[("task", "22"), ("file_id", "9")]));
    assert_eq!(folder_detail_form("9"), pairs(&[("task", "18"), ("folder_id", "9")]));
}

#[test]
fn folder_names_lose_spaces_and_brackets() {
    assert_eq!(mkdir_folder_name("a b(c)"), "a_b_c_");
    assert_eq!(mkdir_folder_name("中文"), "中文");
}

#[test]
fn replies() {
    assert_eq!(mkdir_reply(Some("123".into())).unwrap(), "123");
    assert!(matches!(mkdir_reply(None), Err(AppError::Lanzou(m)) if m == "创建文件夹失败"));
    assert_eq!(created_folder_id("-5", "x").unwrap(), -5);
    assert!(matches!(created_folder_id("5a", "x"), Err(AppError::Lanzou(m)) if m == "创建文件夹失败: x"));
    assert_eq!(new_folder_id("9223372036854775807").unwrap(), i64::MAX);
    assert!(new_folder_id("9223372036854775808").is_err());
    assert_eq!(new_folder_id("-9223372036854775808").unwrap(), i64::MIN);
    assert!(new_folder_id("-").is_err());
    assert!(new_folder_id("-+1").is_err());
    assert_eq!(new_folder_id("+8").unwrap(), 8);
    let ok = op_ok();
    assert!(ok.ok && ok.message.is_empty());
}

#[test]
fn share_details() {
    let d = file_share_detail(Some("1".into()), Some("pw".into()), Some("https://a.com".into()), Some("iX".into()), Some("u".into()));
    assert!(d.has_pwd);
    assert_eq!(d.pwd.as_deref(), Some("pw"));
    assert_eq!(d.url.as_deref(), Some("https://a.com/iX"));
    assert_eq!(d.name, None);
    let d = file_share_detail(Some("0".into()), Some("pw".into()), None, Some("iX".into()), Some("u".into()));
    assert!(!d.has_pwd);
    assert_eq!(d.pwd, None);
    assert_eq!(d.url.as_deref(), Some("u"));
    let d = folder_share_detail(None, Some("pw".into()), Some("u".into()), Some("n".into()));
    assert!(!d.has_pwd);
    assert_eq!(d.pwd, None);
    assert_eq!(d.name.as_deref(), Some("n"));
}

fn node(id: &str, folder: bool, children: Vec<MoveNode>) -> MoveNode {
    MoveNode { id: id.to_string(), name: format!("n{id}"), is_folder: folder, children }
}

#[test]
fn a_folder_cannot_move_below_itself() {
    let tree = node("1", true, vec![node("2", false, vec![]), node("3", true, vec![node("4", true, vec![])])]);
    assert!(contains_id(&tree, "1"));
    assert!(contains_id(&tree, "4"));
    assert!(!contains_id(&tree, "5"));
    assert!(matches!(check_move_target(&tree, 4), Err(AppError::Lanzou(m)) if m == "不能移动到自身或其子文件夹"));
    assert!(check_move_target(&tree, 5).is_ok());
    assert!(check_depth(7).is_ok());
    assert!(matches!(check_depth(8), Err(AppError::Lanzou(m)) if m == "文件夹层级过深，无法移动"));
}

fn entry(id: &str, name: &str, kind: &str) -> LsFile {
    LsFile {
        name: name.to_string(),
        id: id.to_string(),
        file_type: kind.to_string(),
        icon: None,
        size: None,
        time: None,
        downs: None,
    }
}

#[test]
fn nodes_and_existing_folders() {
    let n = move_node_of(&entry("3", "f", "file"), vec![node("9", false, vec![])]);
    assert!(!n.is_folder && n.children.is_empty());
    let n = move_node_of(&entry("3", "d", "folder"), vec![node("9", false, vec![])]);
    assert!(n.is_folder && n.children.len() == 1);
    let files = vec![entry("1", "x", "file"), entry("2", "x", "folder"), entry("3", "x", "folder")];
    assert_eq!(existing_folder_id(&files, "x").unwrap().unwrap(), 2);
    assert!(existing_folder_id(&files, "y").is_none());
    let bad = vec![entry("abc", "x", "folder")];
    assert!(matches!(existing_folder_id(&bad, "x"), Some(Err(AppError::Lanzou(m))) if m == "文件夹 id 解析失败"));
}

#[test]
fn partial_moves_are_flagged() {
    let e = AppError::Lanzou("boom".into());
    assert!(matches!(partial_move_err(e, 0), AppError::Lanzou(m) if m == "boom"));
    let e = AppError::Lanzou("boom".into());
    assert!(matches!(partial_move_err(e, 2), AppError::Lanzou(m) if m == "boom（部分内容可能已移动，请检查目标与源文件夹）"));
    let e = AppError::Http("timeout".into());
    assert!(matches!(partial_move_err(e, 1), AppError::Lanzou(m) if m == "移动中断：timeout（部分内容可能已移动，请检查目标与源文件夹）"));
    let e = AppError::NotLoggedIn;
    assert!(matches!(partial_move_err(e, 1), AppError::NotLoggedIn));
}
