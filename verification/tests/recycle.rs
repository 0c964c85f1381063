use lanzou_next::error::AppError;
use lanzou_next::recycle::{
    extract_checkbox_id, extract_tds, parse_recycle_html, parse_show_files, recycle_action_outcome,
    recycle_confirm_path, recycle_files_of, recycle_form, recycle_formhash, recycle_task,
    show_files_path, split_name_size, strip_tags,
};

#[test]
fn test_parse_show_files() {
    let html = r##"<div class="file_box"><li class="f14">文件回收站:</li><li><img src='/images/filetype/txt.gif' align='absmiddle' border='0' />&nbsp;recycle_test.txt <font color="#CCCCCC">(11.0 B)</font></li><li>&nbsp;</li></div>"##;
    let files = parse_show_files(html);
    assert_eq!(files.len(), 1);
    assert_eq!(files[0].name, "recycle_test.txt");
    assert_eq!(files[0].size, "11.0 B");
}

#[test]
fn strip_tags_removes_tags_and_decodes_entities() {
    assert_eq!(strip_tags("<b>a&amp;b</b>&nbsp;&lt;c&gt; &quot;d&quot;"), "a&b <c> \"d\"");
    assert_eq!(strip_tags("  <i>x</i>\u{a0}"), "x");
    assert_eq!(strip_tags("<a href='x'>"), "");
}

#[test]
fn strip_tags_decodes_each_entity_once() {
    assert_eq!(strip_tags("&amp;lt;"), "&lt;");
    assert_eq!(strip_tags("a&amp;amp;b"), "a&amp;b");
    assert_eq!(strip_tags("&amp;nbsp;x"), "&nbsp;x");
    assert_eq!(strip_tags("&lt&gt;"), "&lt>");
}

#[test]
fn name_and_size_split_on_the_last_bracket() {
    assert_eq!(split_name_size("a (1) (2 KB)"), ("a (1)".to_string(), "2 KB".to_string()));
    assert_eq!(split_name_size("plain"), ("plain".to_string(), String::new()));
    assert_eq!(split_name_size("open (x"), ("open (x".to_string(), String::new()));
}

#[test]
fn empty_folder_page_lists_nothing() {
    assert!(recycle_files_of("<p>此文件夹没有包含文件</p><li>x (1 B)</li>").is_empty());
    assert_eq!(recycle_files_of("<li>x (1 B)</li>").len(), 1);
    assert_eq!(show_files_path("42"), "mydisk.php?item=recycle&action=show_files&folder_id=42");
}

const BIN_HTML: &str = r#"<table><tr><th>名称</th></tr>
<tr><td><input type="checkbox" name="fd_sel_ids[]" value="111" /> <b>My Folder</b></td><td>-</td><td>2024-01-02</td></tr>
<tr><td><input type="checkbox" name="fl_sel_ids[]" value="222" />file&amp;1.txt</td><td>1.5 M</td><td>2024-01-03</td></tr>
<tr><td>no checkbox</td></tr></table>"#;

#[test]
fn bin_table_rows_become_items() {
    let items = parse_recycle_html(BIN_HTML);
    assert_eq!(items.len(), 2);
    assert_eq!(items[0].id, "111");
    assert_eq!(items[0].file_type, "folder");
    assert_eq!(items[0].name, "My Folder");
    assert_eq!(items[0].size, "-");
    assert_eq!(items[0].time, "2024-01-02");
    assert_eq!(items[1].id, "222");
    assert_eq!(items[1].file_type, "file");
    assert_eq!(items[1].name, "file&1.txt");
    assert_eq!(items[1].size, "1.5 M");
}

#[test]
fn checkbox_and_cells() {
    let row = r#"<td> a </td><td><b>b</b></td><input name="fl_sel_ids[]" class="x" value="9">"#;
    assert_eq!(extract_checkbox_id(row, "fl_sel_ids[]").as_deref(), Some("9"));
    assert_eq!(extract_checkbox_id(row, "fd_sel_ids[]"), None);
    assert_eq!(extract_tds(row), vec!["a".to_string(), "<b>b</b>".to_string()]);
}

#[test]
fn bin_actions() {
    assert_eq!(recycle_task("file", "restore").unwrap(), ("file_restore".to_string(), "file_id".to_string()));
    assert_eq!(
        recycle_task("folder", "delete").unwrap(),
        ("folder_delete_complete".to_string(), "folder_id".to_string())
    );
    match recycle_task("file", "burn") {
        Err(AppError::Lanzou(m)) => assert_eq!(m, "无效的回收站操作"),
        other => panic!("unexpected {:?}", other),
    }
    assert_eq!(
        recycle_confirm_path("file_restore", "file_id", "5"),
        "mydisk.php?item=recycle&action=file_restore&file_id=5"
    );
    assert_eq!(recycle_formhash(r#"<input name="formhash" value="abc123">"#).unwrap(), "abc123");
    match recycle_formhash("<form></form>") {
        Err(AppError::Lanzou(m)) => assert_eq!(m, "无法获取回收站操作凭据"),
        other => panic!("unexpected {:?}", other),
    }
    let form = recycle_form("file_restore", "file_id", "5", "https://up.woozooo.com", "h".to_string());
    assert_eq!(form.len(), 5);
    assert_eq!(form[2], ("file_id".to_string(), "5".to_string()));
    assert_eq!(form[3].1, "https://up.woozooo.com/mydisk.php?item=recycle&action=files");
    assert!(recycle_action_outcome("操作成功").unwrap().ok);
    match recycle_action_outcome("失败") {
        Err(AppError::Lanzou(m)) => assert_eq!(m, "回收站操作失败"),
        other => panic!("unexpected {:?}", other),
    }
}
