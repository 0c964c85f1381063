use lanzou_next::client::CookieJar;
use lanzou_next::error::AppError;
use lanzou_next::login::{
    capture_cookie, hop_allowed, js_redirect, login_challenge_cookie, login_form, login_reply,
    next_hop, parse_set_cookie, signed_in_config, signed_out_config, LOGIN_URL,
};

#[test]
fn set_cookie_values() {
    assert_eq!(
        parse_set_cookie("phpdisk_info=abc%3D; path=/; HttpOnly"),
        Some(("phpdisk_info".to_string(), "abc%3D".to_string()))
    );
    assert_eq!(parse_set_cookie(" ylogin = 123 "), Some(("ylogin".to_string(), "123".to_string())));
    assert_eq!(parse_set_cookie("a=b=c"), Some(("a".to_string(), "b=c".to_string())));
    assert_eq!(parse_set_cookie("novalue"), None);
}

#[test]
fn cookies_are_collected_in_the_jar() {
    let mut jar = CookieJar::new();
    capture_cookie(&mut jar, "a=1; path=/");
    capture_cookie(&mut jar, "b=2");
    capture_cookie(&mut jar, "a=3");
    capture_cookie(&mut jar, "junk");
    assert_eq!(jar.header().as_deref(), Some("a=3; b=2"));
    let cookies = jar.to_cookies();
    assert_eq!(cookies.len(), 2);
    assert_eq!(cookies[0].name, "a");
    assert_eq!(cookies[0].value, "3");
}

#[test]
fn login_replies() {
    assert_eq!(login_reply(Some(1), Some("https://x/y".into())).unwrap().as_deref(), Some("https://x/y"));
    assert_eq!(login_reply(Some(1), Some(String::new())).unwrap(), None);
    assert_eq!(login_reply(Some(1), None).unwrap(), None);
    assert!(matches!(login_reply(Some(0), Some("密码错误".into())), Err(AppError::Lanzou(m)) if m == "密码错误"));
    assert!(matches!(login_reply(None, None), Err(AppError::Lanzou(m)) if m == "登录失败"));
    let f = login_form("u".into(), "p".into());
    assert_eq!(f[0], ("task".to_string(), "uselogin".to_string()));
    assert_eq!(f[3], ("ref".to_string(), "up.woozooo.com".to_string()));
    assert!(LOGIN_URL.starts_with("https://accounts.woozooo.com"));
}

#[test]
fn redirect_chain() {
    assert_eq!(next_hop("https://a.com/x", Some("https://b.com/y".into()), "").as_deref(), Some("https://b.com/y"));
    assert_eq!(next_hop("https://a.com/x/", Some("/z".into()), "").as_deref(), Some("https://a.com/x/z"));
    assert_eq!(
        next_hop("https://a.com", None, "<script>location.href = 'https://c.com/q';</script>").as_deref(),
        Some("https://c.com/q")
    );
    assert_eq!(js_redirect("<iframe src='https://d.com/f'></iframe>").as_deref(), Some("https://d.com/f"));
    assert_eq!(js_redirect("window.location='/w'").as_deref(), Some("/w"));
    assert_eq!(next_hop("https://a.com", None, "<p>done</p>"), None);
    assert!(hop_allowed(10));
    assert!(!hop_allowed(11));
    assert_eq!(login_challenge_cookie("<html>plain</html>"), None);
}

#[test]
fn stored_settings() {
    let c = signed_in_config(vec![]);
    assert_eq!(c.domain.as_deref(), Some("https://up.woozooo.com"));
    assert!(c.user_agent.as_deref().unwrap().contains("Chrome/147"));
    assert_eq!(c.cookies.as_ref().map(|v| v.len()), Some(0));
    assert_eq!(c.split_size, None);
    let c = signed_out_config();
    assert_eq!(c.cookies.as_ref().map(|v| v.len()), Some(0));
    assert_eq!(c.domain, None);
}
