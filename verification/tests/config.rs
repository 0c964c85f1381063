use lanzou_next::config::{
    config_set_outcome, config_with_fallbacks, default_config, reset_config, stored_after_reset,
    hold_back, AppConfig, Cookie, QuitRequest,
};
use lanzou_next::error::AppError;

#[test]
fn defaults() {
    let c = default_config("/home/u/Downloads");
    assert_eq!(c.download_dir.as_deref(), Some("/home/u/Downloads"));
    assert_eq!(c.split_size, Some(100));
    assert_eq!(c.log_level.as_deref(), Some("warn"));
    assert_eq!(c.theme_source.as_deref(), Some("auto"));
    assert_eq!(c.upload_max, Some(1));
    assert_eq!(c.download_max, Some(2));
    assert!(c.cookies.is_none() && c.domain.is_none());
    assert!(c.user_agent.as_deref().unwrap().starts_with("Mozilla/5.0"));
}

#[test]
fn reset_keeps_login_settings() {
    let c = reset_config("/d", None, Some("https://up.woozooo.com".into()), Some("UA".into()), Some(vec![Cookie::new("a", "b")]));
    assert_eq!(c.domain.as_deref(), Some("https://up.woozooo.com"));
    assert_eq!(c.user_agent.as_deref(), Some("UA"));
    assert_eq!(c.cookies.as_ref().unwrap()[0].value, "b");
    assert_eq!(c.split_size, Some(100));
}

#[test]
fn fallbacks_fill_the_agent_and_the_directory() {
    let c = config_with_fallbacks(AppConfig::empty(), Some("/sys".into()));
    assert_eq!(c.download_dir.as_deref(), Some("/sys"));
    assert!(c.user_agent.is_some());
    let mut s = AppConfig::empty();
    s.download_dir = Some("/mine".into());
    s.user_agent = Some("UA".into());
    let c = config_with_fallbacks(s, Some("/sys".into()));
    assert_eq!(c.download_dir.as_deref(), Some("/mine"));
    assert_eq!(c.user_agent.as_deref(), Some("UA"));
}

#[test]
fn updates_overlay_and_validate() {
    let stored = default_config("/d");
    let mut u = AppConfig::empty();
    u.user_agent = Some("  Agent  ".into());
    u.split_size = Some(50);
    u.minimize_to_tray_on_close = Some(false);
    let o = config_set_outcome(stored.clone(), u);
    assert!(o.error.is_none());
    assert_eq!(o.config.user_agent.as_deref(), Some("Agent"));
    assert_eq!(o.user_agent_applied.as_deref(), Some("Agent"));
    assert_eq!(o.config.split_size, Some(50));
    assert_eq!(o.config.download_dir.as_deref(), Some("/d"));
    assert!(o.sync_tray);

    let mut u = AppConfig::empty();
    u.user_agent = Some("   ".into());
    let o = config_set_outcome(stored.clone(), u);
    assert!(matches!(o.error, Some(AppError::Config(ref m)) if m == "User-Agent 不能为空"));

    let mut u = AppConfig::empty();
    u.log_level = Some("loud".into());
    u.split_size = Some(10);
    let o = config_set_outcome(stored.clone(), u);
    assert!(matches!(o.error, Some(AppError::Config(ref m)) if m == "无效的日志级别: loud"));
    assert_eq!(o.config.log_level.as_deref(), Some("warn"));

    let mut u = AppConfig::empty();
    u.log_level = Some("debug".into());
    let o = config_set_outcome(stored, u);
    assert!(o.error.is_none());
    assert_eq!(o.config.log_level.as_deref(), Some("debug"));
    assert!(!o.sync_tray);
}

#[test]
fn read_after_write_gives_the_written_values() {
    let stored = default_config("/d");
    let mut u = AppConfig::empty();
    u.theme_source = Some("dark".into());
    u.download_dir = Some("/new".into());
    u.beta_update = Some(true);
    let o = config_set_outcome(stored.clone(), u);
    assert!(o.error.is_none());
    let seen = config_with_fallbacks(o.config, Some("/sys".into()));
    assert_eq!(seen.theme_source.as_deref(), Some("dark"));
    assert_eq!(seen.download_dir.as_deref(), Some("/new"));
    assert_eq!(seen.beta_update, Some(true));
    assert_eq!(seen.color_scheme, stored.color_scheme);
}

#[test]
fn reset_store_keeps_the_login_and_the_agent() {
    let mut stored = AppConfig::empty();
    stored.lanzou_url = Some("https://up.example".to_string());
    stored.domain = Some("example.com".to_string());
    stored.user_agent = Some("my agent".to_string());
    stored.cookies = Some(vec![Cookie::new("ylogin", "1")]);
    stored.theme_source = Some("dark".to_string());
    stored.split_size = Some(5);
    stored.log_level = Some("debug".to_string());
    let held = stored_after_reset(stored.clone(), "/dl");
    assert_eq!(held.lanzou_url, stored.lanzou_url);
    assert_eq!(held.domain, stored.domain);
    assert_eq!(held.cookies, stored.cookies);
    assert_eq!(held.user_agent.as_deref(), Some("my agent"));
    assert_eq!(held.theme_source.as_deref(), Some("auto"));
    assert_eq!(held.split_size, Some(100));
    assert_eq!(held.log_level.as_deref(), Some("warn"));
    let seen = config_with_fallbacks(held, None);
    assert_eq!(seen.user_agent.as_deref(), Some("my agent"));
    let reported = reset_config("/dl", stored.lanzou_url.clone(), stored.domain.clone(), stored.user_agent.clone(), stored.cookies.clone());
    assert_eq!(reported.user_agent, seen.user_agent);
    assert_eq!(reported.theme_source, seen.theme_source);
    let none = stored_after_reset(AppConfig::empty(), "/dl");
    assert!(none.user_agent.is_some());
    assert_eq!(none.lanzou_url, None);
}

#[test]
fn closing_and_exiting_with_the_tray() {
    assert!(hold_back(QuitRequest::CloseWindow, true));
    assert!(!hold_back(QuitRequest::CloseWindow, false));
    assert!(hold_back(QuitRequest::Exit(None), true));
    assert!(!hold_back(QuitRequest::Exit(Some(0)), true));
    assert!(!hold_back(QuitRequest::Exit(None), false));
}
