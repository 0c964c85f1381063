use lanzou_next::client::{
    bad_json_error, check_reply, chrome_major, http_status_error, reply_payload, sec_ch_ua,
    sec_ch_ua_platform, truncate, CookieJar, DEFAULT_BASE_URL, DEFAULT_USER_AGENT,
};
use lanzou_next::error::AppError;
use lanzou_next::log_policy::{log_level_filter, valid_log_level, LogLevel, MAX_LOG_FILE_SIZE};

#[test]
fn cookie_jar_replaces_and_joins() {
    let mut jar = CookieJar::new();
    assert_eq!(jar.header(), None);
    jar.set("a", "1");
    jar.set("b", "2");
    jar.set("a", "3");
    assert_eq!(jar.header().as_deref(), Some("a=3; b=2"));
    jar.clear();
    assert_eq!(jar.header(), None);
}

#[test]
fn browser_hints() {
    assert_eq!(chrome_major(DEFAULT_USER_AGENT).as_deref(), Some("147"));
    assert_eq!(chrome_major("curl/8"), None);
    assert_eq!(sec_ch_ua("147"), "\"Chromium\";v=\"147\", \"Google Chrome\";v=\"147\", \"Not)A;Brand\";v=\"24\"");
    assert_eq!(sec_ch_ua_platform("linux"), "\"Linux\"");
    assert_eq!(sec_ch_ua_platform("macos"), "\"macOS\"");
    assert_eq!(sec_ch_ua_platform("windows"), "\"Windows\"");
    assert!(DEFAULT_BASE_URL.starts_with("https://"));
}

#[test]
fn replies_are_judged_by_status() {
    assert!(check_reply(1, None).is_ok());
    assert!(check_reply(2, None).is_ok());
    assert!(matches!(check_reply(9, None), Err(AppError::NotLoggedIn)));
    assert!(matches!(check_reply(0, Some("no".into())), Err(AppError::Lanzou(m)) if m == "no"));
    assert!(matches!(check_reply(0, None), Err(AppError::Lanzou(m)) if m == "未知错误"));
    assert_eq!(reply_payload(1, None, Some(5), "text").unwrap(), 5);
    assert!(matches!(reply_payload::<u8>(1, None, None, "text"), Err(AppError::Lanzou(m)) if m == "响应缺少 text 字段"));
}

#[test]
fn error_texts() {
    assert_eq!(truncate("short"), "short");
    let long = "x".repeat(300);
    assert_eq!(truncate(&long), format!("{}...", "x".repeat(200)));
    assert!(matches!(http_status_error("500", "oops"), AppError::Lanzou(m) if m == "HTTP 500: oops"));
    assert!(matches!(bad_json_error("非标准 JSON", "eof", "<html>"), AppError::Lanzou(m) if m == "非标准 JSON: eof (<html>)"));
    let long = "x".repeat(250);
    let expected = format!("非标准 JSON: eof ({}...)", "x".repeat(200));
    assert!(matches!(bad_json_error("非标准 JSON", "eof", &long), AppError::Lanzou(m) if m == expected));
}

#[test]
fn log_levels() {
    assert!(valid_log_level("trace"));
    assert!(!valid_log_level("verbose"));
    assert_eq!(log_level_filter("error"), LogLevel::Error);
    assert_eq!(log_level_filter("nonsense"), LogLevel::Warn);
    assert_eq!(MAX_LOG_FILE_SIZE, 20 * 1024 * 1024);
}
