use lanzou_next::error::AppError;
use lanzou_next::matcher::FolderAjaxParams;
use lanzou_next::share::{
    ajax_url, base_domain, challenge_cookie, direct_link_from_reply, download_page_step,
    extract_ajaxdata, extract_ajaxm_path, extract_file_name, extract_file_param,
    extract_folder_name, folder_ajax_url, folder_page_form, folder_page_outcome, resolve_url,
    share_file_of, share_folder_of, share_info_from_page, share_page_step, FolderPage, LinkStep,
    ShareType,
};

#[test]
fn addresses() {
    assert_eq!(base_domain("https://www.lanzoux.com/iAbc?x=1"), "https://www.lanzoux.com");
    assert_eq!(base_domain("not a url"), "not a url");
    assert_eq!(base_domain("mailto:someone@example.com"), "mailto://");
    assert_eq!(resolve_url("https://a.com/", "/fn?x"), "https://a.com/fn?x");
    assert_eq!(resolve_url("https://a.com//", "fn"), "https://a.com/fn");
    assert_eq!(resolve_url("https://a.com", "https://b.com/y"), "https://b.com/y");
    assert_eq!(ajax_url("https://a.com/iX", "/ajaxm.php?file=1"), "https://a.com/ajaxm.php?file=1");
    assert_eq!(ajax_url("https://a.com/iX", "ajaxm.php"), "https://a.com/iX/ajaxm.php");
    assert_eq!(folder_ajax_url("https://a.com/b/c"), "https://a.com/filemoreajax.php");
}

#[test]
fn file_pages_and_folder_pages() {
    let file = "<title>doc.pdf - 蓝奏云</title><iframe src=\"/fn?abc\"></iframe>";
    let info = share_info_from_page(file, None).unwrap();
    assert_eq!(info.share_type, ShareType::File);
    assert_eq!(info.name, "doc.pdf");
    assert_eq!(info.pwd, None);
    let locked = "<div id=\"passwddiv\"></div><div class=\"filethetext\" x>  a.zip </div>";
    assert!(matches!(share_info_from_page(locked, None), Err(AppError::Lanzou(m)) if m == "需要提取码"));
    let info = share_info_from_page(locked, Some("1234")).unwrap();
    assert_eq!(info.name, "a.zip");
    assert_eq!(info.pwd.as_deref(), Some("1234"));
    let folder = "<div class=\"user-title\">My Share</div><div id=\"filemore\"></div>";
    let info = share_info_from_page(folder, None).unwrap();
    assert_eq!(info.share_type, ShareType::Folder);
    assert_eq!(info.name, "My Share");
    let gone = "<html>\r\n<p>来晚啦...文件取消分享了 该文件已删除</p>\r\n</html>";
    assert!(matches!(share_info_from_page(gone, None), Err(AppError::Lanzou(m)) if m == "<p>来晚啦...文件取消分享了 该文件已删除</p>"));
    assert!(matches!(share_info_from_page("<html></html>", None), Err(AppError::Lanzou(m)) if m == "解析失败"));
}

#[test]
fn names_fall_back_when_missing() {
    assert_eq!(extract_file_name("<p></p>"), "未匹配到文件名");
    assert_eq!(extract_folder_name("<p></p>"), "未匹配到文件夹名");
    assert_eq!(extract_file_name("var filename = 'x.apk';"), "x.apk");
}

#[test]
fn interface_paths_and_keys() {
    let html = "$.ajax({ url : '/ajaxm.php?file=277944670', data: x });";
    assert_eq!(extract_ajaxm_path(html, "https://a.com/iX"), "/ajaxm.php?file=277944670");
    let html = "url:'/ajaxfile.php?file=5'";
    assert_eq!(extract_ajaxm_path(html, "https://a.com/iX"), "/ajaxfile.php?file=5");
    assert_eq!(extract_ajaxm_path("none", "https://a.com/iX/y"), "https://a.com/ajaxfile.php");
    assert_eq!(extract_file_param("/ajaxm.php?file=277944670").as_deref(), Some("277944670"));
    assert_eq!(extract_file_param("https://a.com/ajaxfile.php"), None);
    assert_eq!(extract_ajaxdata("var ajaxdata = 'KEY_1';").as_deref(), Some("KEY_1"));
    assert_eq!(extract_ajaxdata("var x = 1;"), None);
}

#[test]
fn steps_to_the_direct_link() {
    let page = "<iframe class=\"ifr2\" src=\"/fn?ABC\"></iframe>";
    match share_page_step(page, "https://a.com/iX", None).unwrap() {
        LinkStep::FetchPage { url } => assert_eq!(url, "https://a.com/fn?ABC"),
        other => panic!("unexpected {:?}", other),
    }
    let locked = "<div id=\"passwddiv\"></div><script>var d = {'sign':'SIG','p':x}; url : '/ajaxm.php?file=42'</script>";
    assert!(matches!(share_page_step(locked, "https://a.com/iX", None), Err(AppError::Lanzou(m)) if m == "需要提取码"));
    match share_page_step(locked, "https://a.com/iX", Some("pw")).unwrap() {
        LinkStep::Post { url, form } => {
            assert_eq!(url, "https://a.com/ajaxm.php?file=42");
            let f: Vec<(&str, &str)> = form.iter().map(|(a, b)| (a.as_str(), b.as_str())).collect();
            assert_eq!(f, vec![("action", "downprocess"), ("sign", "SIG"), ("kd", "1"), ("p", "pw"), ("file", "42")]);
        },
        other => panic!("unexpected {:?}", other),
    }
    let down = "var ajaxdata = 'WS'; data : { 'sign':'S2' }; url : '/ajaxfile.php?file=7'";
    let (url, form) = download_page_step(down, "https://a.com/iX", Some("pw")).unwrap();
    assert_eq!(url, "https://a.com/ajaxfile.php?file=7");
    let f: Vec<(&str, &str)> = form.iter().map(|(a, b)| (a.as_str(), b.as_str())).collect();
    assert_eq!(
        f,
        vec![("action", "downprocess"), ("sign", "S2"), ("websignkey", "WS"), ("signs", "WS"), ("websign", "2"), ("kd", "1"), ("ves", "1")]
    );
    let old = "data : { 'sign':'S3' }; url : '/ajaxm.php?file=8'";
    let (_, form) = download_page_step(old, "https://a.com/iX", None).unwrap();
    let f: Vec<(&str, &str)> = form.iter().map(|(a, b)| (a.as_str(), b.as_str())).collect();
    assert_eq!(f, vec![("action", "downprocess"), ("sign", "S3"), ("p", ""), ("file", "8")]);
    assert!(matches!(download_page_step("nothing", "https://a.com", None), Err(AppError::Parse(_))));
}

#[test]
fn direct_link_replies() {
    let l = direct_link_from_reply(Some("https://d.com".into()), Some("?abc".into()), Some("a.zip".into()), None).unwrap();
    assert_eq!(l.url, "https://d.com/file/?abc");
    assert_eq!(l.name, "a.zip");
    assert!(matches!(direct_link_from_reply(Some(String::new()), Some("x".into()), None, Some("密码不正确".into())), Err(AppError::Lanzou(m)) if m == "密码不正确"));
    assert!(matches!(direct_link_from_reply(None, None, None, None), Err(AppError::Lanzou(m)) if m == "解析直链失败"));
}

#[test]
fn shared_folder_pages() {
    let p = FolderAjaxParams { lx: "2".into(), t: "T".into(), k: "K".into(), fid: "F".into() };
    let f = folder_page_form(&p, 3, Some("pw"));
    let f: Vec<(&str, &str)> = f.iter().map(|(a, b)| (a.as_str(), b.as_str())).collect();
    assert_eq!(f, vec![("lx", "2"), ("pg", "3"), ("k", "K"), ("t", "T"), ("fid", "F"), ("pwd", "pw")]);
    assert_eq!(folder_page_form(&p, 1, None).len(), 5);
    assert_eq!(folder_page_outcome(Some(1), 50).unwrap(), FolderPage::More);
    assert_eq!(folder_page_outcome(Some(1), 49).unwrap(), FolderPage::Last);
    assert!(matches!(folder_page_outcome(Some(3), 0), Err(AppError::Lanzou(m)) if m == "提取码错误"));
    assert_eq!(folder_page_outcome(None, 0).unwrap(), FolderPage::Last);
    let sf = share_file_of(Some("a".into()), None, Some("t".into()), Some("iPh?webpage=1".into()), "https://a.com/b/c");
    assert_eq!(sf.url, "https://a.com/iPh?webpage=1");
    assert_eq!(sf.size, "");
    let folder = share_folder_of("n".into(), vec![sf]);
    assert_eq!(folder.size, "");
    assert_eq!(folder.list.len(), 1);
}

#[test]
fn challenge_only_when_the_page_has_one() {
    assert_eq!(challenge_cookie("<html>ok</html>"), None);
    let page = "<script>var arg1='E4961D5F7A3B2C8D90E1F2A3B4C5D6E7F8091A2B3C4D5E6F7';</script> acw_sc__v2";
    assert!(challenge_cookie(page).is_some());
}
