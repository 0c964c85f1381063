use lanzou_next::profile::{has_auth_cookie, logged_out_profile, parse_max_size, parse_profile, split_size_unit};

const REAL_LIKE_HTML: &str = r##"
<html><body>
<div id="info1">
<div class="mf"><div class="mf1">个性域名: </div><div class="mf2">
<div id="domaindiynow">https://wwazk.lanzn.com</div>
<span id="domaindiyedit"><span onclick="domainedit()" class="btn">修改</span></span>
</div></div>
<div class="mf"><div class="mf1">最近登录时间: </div><div class="mf2">2026-08-13 20:42:18</div></div>
<div class="mf"><div class="mf1">手机号: </div><div class="mf2"><span id="phone_id">173****5372</span></div></div>
<div class="mf"><div class="mf1">允许上传类型: </div><div class="mf2">doc,docx,zip,rar,apk,txt,exe,7z,e,z,ct,ke,cetrainer,db,tar,pdf,w3x<br>epub,mobi,azw,azw3,osk,osz,xpa,cpk,lua,jar,dmg,ppt,pptx,xls,xlsx,mp3<br>ipa,iso,img,gho,ttf,ttc,txf,dwg,bat,imazingapp,dll,crx,xapk,conf<br>deb,rp,rpm,rplib,mobileconfig,appimage,lolgezi,flac<br>cad,hwt,accdb,ce,xmind,enc,bds,bdi,ssf,it<br>pkg,cfg,mp4,avi,png,jpeg,jpg,gif,webp,brushset</div></div>
<div class="mf"><div class="mf1">单个文件大小: </div><div class="mf2"><font color="#FF8800" size="5">
100M
</font>  <span class="txtgray"><a href="/mydisk.php?item=profile&action=huiyuan">升级</a></span></div></div>
</div>
<script>
function phonesub(){ $("#phone_id").html(phonenew); w_info(msg.info); }
</script>
</body></html>
"##;

#[test]
fn test_parse_profile() {
    let p = parse_profile(REAL_LIKE_HTML);
    assert!(p.is_login);
    assert_eq!(p.domain.as_deref(), Some("https://wwazk.lanzn.com"));
    assert_eq!(p.last_login.as_deref(), Some("2026-08-13 20:42:18"));
    assert_eq!(p.verification.as_deref(), Some("173****5372"));
    assert_eq!(p.max_size.as_deref(), Some("100M"));
    assert!(p.support_list.contains(&"doc".to_string()));
    assert!(p.support_list.contains(&"mp4".to_string()));
    assert!(p.support_list.contains(&"brushset".to_string()));
    assert_ne!(p.verification.as_deref(), Some("phonenew"));
}

#[test]
fn support_list_is_split_on_commas_and_line_breaks() {
    let p = parse_profile(REAL_LIKE_HTML);
    assert_eq!(p.support_list.first().map(String::as_str), Some("doc"));
    assert_eq!(p.support_list.last().map(String::as_str), Some("brushset"));
    assert!(p.support_list.contains(&"w3x".to_string()));
    assert!(p.support_list.contains(&"epub".to_string()));
    assert!(p.support_list.iter().all(|s| !s.is_empty() && !s.contains("<br>")));
}

#[test]
fn profile_of_an_unrelated_page_is_logged_in_but_empty() {
    let p = parse_profile("<html>nothing here</html>");
    assert!(p.is_login);
    assert_eq!(p.domain, None);
    assert_eq!(p.last_login, None);
    assert_eq!(p.verification, None);
    assert_eq!(p.max_size, None);
    assert!(p.support_list.is_empty());
}

#[test]
fn max_size_is_trimmed_and_empty_is_none() {
    assert_eq!(parse_max_size(REAL_LIKE_HTML).as_deref(), Some("100M"));
    let empty = r#"单个文件大小: </div><div class="mf2"><font color="red">   </font>"#;
    assert_eq!(parse_max_size(empty), None);
}

#[test]
fn logged_out_profile_is_blank() {
    let p = logged_out_profile();
    assert!(!p.is_login);
    assert!(p.support_list.is_empty());
    assert_eq!(p.max_size, None);
}

#[test]
fn auth_cookie_needs_a_known_name_with_a_value() {
    assert!(has_auth_cookie(Some("a=1; phpdisk_info=xyz")));
    assert!(has_auth_cookie(Some(" ylogin = 7 ")));
    assert!(has_auth_cookie(Some("lanzou_ifo=v")));
    assert!(!has_auth_cookie(Some("phpdisk_info=; other=1")));
    assert!(!has_auth_cookie(Some("acw_sc__v2=abc")));
    assert!(!has_auth_cookie(None));
}

#[test]
fn size_text_is_split_into_number_and_unit() {
    assert_eq!(split_size_unit("100M"), ("100".to_string(), 1048576));
    assert_eq!(split_size_unit(" 1.5g "), ("1.5".to_string(), 1073741824));
    assert_eq!(split_size_unit("2K"), ("2".to_string(), 1024));
    assert_eq!(split_size_unit("3t"), ("3".to_string(), 1099511627776));
    assert_eq!(split_size_unit("500"), ("500".to_string(), 1048576));
}
