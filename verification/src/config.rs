//! Application settings: defaults, resets, and how an update is applied.

use vstd::prelude::*;

use crate::client::DEFAULT_USER_AGENT;
use crate::error::AppError;
use crate::log_policy::{is_log_level, valid_log_level};
use crate::text::{owned, push_str, trim_seq, trim_string};

verus! {

/// A login cookie.
#[derive(Debug, Clone, PartialEq, Eq)]
pub struct Cookie {
    pub name: String,
    pub value: String,
    pub domain: Option<String>,
    pub path: Option<String>,
    pub secure: Option<bool>,
}

impl Cookie {
    /// A cookie with only a name and a value.
    pub fn new(name: &str, value: &str) -> (r: Cookie)
        ensures
            r.name@ == name@,
            r.value@ == value@,
            r.domain is None,
            r.path is None,
            r.secure is None,
    {
        Cookie { name: owned(name), value: owned(value), domain: None, path: None, secure: None }
    }
}

/// The stored settings; a missing value is `None`.
#[derive(Debug, Clone, PartialEq, Eq)]
pub struct AppConfig {
    pub lanzou_url: Option<String>,
    pub domain: Option<String>,
    pub user_agent: Option<String>,
    pub cookies: Option<Vec<Cookie>>,
    pub download_dir: Option<String>,
    pub set_default_download_dir: Option<bool>,
    pub theme_source: Option<String>,
    pub color_scheme: Option<String>,
    pub upload_max: Option<u32>,
    pub download_max: Option<u32>,
    pub upload_warning_size: Option<u32>,
    pub split_size: Option<u32>,
    pub minimize_to_tray_on_close: Option<bool>,
    pub lightweight_mode: Option<bool>,
    pub developer_mode: Option<bool>,
    pub log_level: Option<String>,
    pub auto_check_update: Option<bool>,
    pub beta_update: Option<bool>,
    pub last_check_update_time: Option<u64>,
}

/// An empty configuration.
pub open spec fn is_empty_config(c: AppConfig) -> bool {
    &&& c.lanzou_url is None
    &&& c.domain is None
    &&& c.user_agent is None
    &&& c.cookies is None
    &&& c.download_dir is None
    &&& c.set_default_download_dir is None
    &&& c.theme_source is None
    &&& c.color_scheme is None
    &&& c.upload_max is None
    &&& c.download_max is None
    &&& c.upload_warning_size is None
    &&& c.split_size is None
    &&& c.minimize_to_tray_on_close is None
    &&& c.lightweight_mode is None
    &&& c.developer_mode is None
    &&& c.log_level is None
    &&& c.auto_check_update is None
    &&& c.beta_update is None
    &&& c.last_check_update_time is None
}

impl AppConfig {
    /// A configuration with no value set.
    pub fn empty() -> (r: AppConfig)
        ensures
            is_empty_config(r),
    {
        AppConfig {
            lanzou_url: None,
            domain: None,
            user_agent: None,
            cookies: None,
            download_dir: None,
            set_default_download_dir: None,
            theme_source: None,
            color_scheme: None,
            upload_max: None,
            download_max: None,
            upload_warning_size: None,
            split_size: None,
            minimize_to_tray_on_close: None,
            lightweight_mode: None,
            developer_mode: None,
            log_level: None,
            auto_check_update: None,
            beta_update: None,
            last_check_update_time: None,
        }
    }
}

/// The defaults written on first run and on reset (login settings are
/// left out): the download directory is the system's.
pub open spec fn is_default_config(c: AppConfig, download_dir: Seq<char>) -> bool {
    &&& c.lanzou_url is None
    &&& c.domain is None
    &&& (c.user_agent matches Some(u) && u@ == DEFAULT_USER_AGENT@)
    &&& c.cookies is None
    &&& has_default_preferences(c, download_dir)
}

/// The default values of every setting but the login ones.
pub open spec fn has_default_preferences(c: AppConfig, download_dir: Seq<char>) -> bool {
    &&& (c.download_dir matches Some(d) && d@ == download_dir)
    &&& c.set_default_download_dir == Some(false)
    &&& (c.theme_source matches Some(t) && t@ == "auto"@)
    &&& (c.color_scheme matches Some(t) && t@ == "glacier"@)
    &&& c.upload_max == Some(1u32)
    &&& c.download_max == Some(2u32)
    &&& c.upload_warning_size == Some(7u32)
    &&& c.split_size == Some(100u32)
    &&& c.minimize_to_tray_on_close == Some(true)
    &&& c.lightweight_mode == Some(true)
    &&& c.developer_mode == Some(false)
    &&& (c.log_level matches Some(t) && t@ == "warn"@)
    &&& c.auto_check_update == Some(true)
    &&& c.beta_update == Some(false)
    &&& c.last_check_update_time is None
}

/// The default settings, with `download_dir` as the download directory.
pub fn default_config(download_dir: &str) -> (r: AppConfig)
    ensures
        is_default_config(r, download_dir@),
{
    AppConfig {
        lanzou_url: None,
        domain: None,
        user_agent: Some(owned(DEFAULT_USER_AGENT)),
        cookies: None,
        download_dir: Some(owned(download_dir)),
        set_default_download_dir: Some(false),
        theme_source: Some(owned("auto")),
        color_scheme: Some(owned("glacier")),
        upload_max: Some(1),
        download_max: Some(2),
        upload_warning_size: Some(7),
        split_size: Some(100),
        minimize_to_tray_on_close: Some(true),
        lightweight_mode: Some(true),
        developer_mode: Some(false),
        log_level: Some(owned("warn")),
        auto_check_update: Some(true),
        beta_update: Some(false),
        last_check_update_time: None,
    }
}

/// Settings after a reset: the defaults, keeping the login settings
/// (interface address, domain, user agent, cookies) that were stored.
pub fn reset_config(
    download_dir: &str,
    lanzou_url: Option<String>,
    domain: Option<String>,
    user_agent: Option<String>,
    cookies: Option<Vec<Cookie>>,
) -> (r: AppConfig)
    ensures
        r.lanzou_url == lanzou_url,
        r.domain == domain,
        r.user_agent == user_agent,
        r.cookies == cookies,
        has_default_preferences(r, download_dir@),
{
    let d = default_config(download_dir);
    AppConfig { lanzou_url, domain, user_agent, cookies, ..d }
}

/// `held` is what the store holds after a reset of `stored`: every
/// preference at its default, the stored interface address, domain and
/// cookies, the stored user agent (the default one when none was stored),
/// and the time of the last update check as it was.
pub open spec fn reset_store(stored: AppConfig, held: AppConfig, download_dir: Seq<char>) -> bool {
    &&& held.lanzou_url == stored.lanzou_url
    &&& held.domain == stored.domain
    &&& held.cookies == stored.cookies
    &&& stored.user_agent is Some ==> held.user_agent == stored.user_agent
    &&& stored.user_agent is None ==> (held.user_agent matches Some(u) && u@ == DEFAULT_USER_AGENT@)
    &&& held.last_check_update_time == stored.last_check_update_time
    &&& has_default_preferences((AppConfig { last_check_update_time: None, ..held }), download_dir)
}

/// The settings to write back on a reset of `stored`: the defaults, with
/// the login settings kept.
pub fn stored_after_reset(stored: AppConfig, download_dir: &str) -> (r: AppConfig)
    ensures
        reset_store(stored, r, download_dir@),
{
    let d = default_config(download_dir);
    let user_agent = match stored.user_agent {
        Some(u) => Some(u),
        None => d.user_agent,
    };
    AppConfig {
        lanzou_url: stored.lanzou_url,
        domain: stored.domain,
        user_agent,
        cookies: stored.cookies,
        last_check_update_time: stored.last_check_update_time,
        ..default_config(download_dir)
    }
}

/// A reset keeps the login: reading the settings back after a reset gives
/// the stored interface address, domain, cookies and user agent (the
/// default one when none was stored) and the default of every preference,
/// as the settings that the reset reports do.
pub proof fn law_reset_keeps_login(
    stored: AppConfig,
    held: AppConfig,
    reported: AppConfig,
    download_dir: Seq<char>,
    system_download_dir: Option<String>,
    seen: AppConfig,
)
    requires
        reset_store(stored, held, download_dir),
        reported.lanzou_url == stored.lanzou_url,
        reported.domain == stored.domain,
        reported.user_agent == stored.user_agent,
        reported.cookies == stored.cookies,
        has_default_preferences(reported, download_dir),
        read_back(held, system_download_dir, seen),
    ensures
        seen.lanzou_url == stored.lanzou_url,
        seen.domain == stored.domain,
        seen.cookies == stored.cookies,
        stored.user_agent is Some ==> seen.user_agent == stored.user_agent,
        stored.user_agent is None ==> (seen.user_agent matches Some(u) && u@ == DEFAULT_USER_AGENT@),
        has_default_preferences((AppConfig { last_check_update_time: None, ..seen }), download_dir),
        seen.lanzou_url == reported.lanzou_url,
        seen.domain == reported.domain,
        seen.cookies == reported.cookies,
        stored.user_agent is Some ==> seen.user_agent == reported.user_agent,
{
}

/// `r` is what reading `stored` reports: the stored settings, with the
/// default user agent when none is stored and the system download
/// directory when no directory is stored.
pub open spec fn read_back(stored: AppConfig, system_download_dir: Option<String>, r: AppConfig) -> bool {
    &&& stored.user_agent is Some ==> r.user_agent == stored.user_agent
    &&& stored.user_agent is None ==> (r.user_agent matches Some(u) && u@ == DEFAULT_USER_AGENT@)
    &&& stored.download_dir is Some ==> r.download_dir == stored.download_dir
    &&& stored.download_dir is None ==> r.download_dir == system_download_dir
    &&& r == (AppConfig { user_agent: r.user_agent, download_dir: r.download_dir, ..stored })
}

/// What `config_get` reports: the stored settings, with the default user
/// agent when none is stored and the system download directory when no
/// directory is stored.
pub fn config_with_fallbacks(stored: AppConfig, system_download_dir: Option<String>) -> (r: AppConfig)
    ensures
        read_back(stored, system_download_dir, r),
{
    let user_agent = match stored.user_agent {
        Some(u) => Some(u),
        None => Some(owned(DEFAULT_USER_AGENT)),
    };
    let download_dir = match stored.download_dir {
        Some(d) => Some(d),
        None => system_download_dir,
    };
    AppConfig { user_agent, download_dir, ..stored }
}

/// The result of applying a settings update.
#[derive(Debug, Clone, PartialEq, Eq)]
pub struct ConfigSetOutcome {
    /// The stored settings after the update (values written before a
    /// rejected value stay written).
    pub config: AppConfig,
    /// The rejected value's error, if any; nothing is saved then.
    pub error: Option<AppError>,
    /// The user agent that the running client must switch to.
    pub user_agent_applied: Option<String>,
    /// Whether the tray icon must be brought in line with the settings.
    pub sync_tray: bool,
}

/// `new` when it is set, else `old`.
pub open spec fn overlay<T>(new: Option<T>, old: Option<T>) -> Option<T> {
    match new {
        Some(v) => Some(v),
        None => old,
    }
}

/// The update sets a user agent that is blank once trimmed.
pub open spec fn bad_user_agent(update: AppConfig) -> bool {
    update.user_agent matches Some(v) && trim_seq(v@).len() == 0
}

/// The update sets a log level that is not a level name.
pub open spec fn bad_log_level(update: AppConfig) -> bool {
    update.log_level matches Some(v) && !is_log_level(v@)
}

/// The fields after the user agent that an update overwrites when it is
/// not rejected before them (`download_dir` through `developer_mode`).
pub open spec fn middle_overlaid(c: AppConfig, stored: AppConfig, update: AppConfig) -> bool {
    &&& c.cookies == overlay(update.cookies, stored.cookies)
    &&& c.download_dir == overlay(update.download_dir, stored.download_dir)
    &&& c.set_default_download_dir == overlay(
        update.set_default_download_dir,
        stored.set_default_download_dir,
    )
    &&& c.theme_source == overlay(update.theme_source, stored.theme_source)
    &&& c.color_scheme == overlay(update.color_scheme, stored.color_scheme)
    &&& c.upload_max == overlay(update.upload_max, stored.upload_max)
    &&& c.download_max == overlay(update.download_max, stored.download_max)
    &&& c.upload_warning_size == overlay(update.upload_warning_size, stored.upload_warning_size)
    &&& c.split_size == overlay(update.split_size, stored.split_size)
    &&& c.minimize_to_tray_on_close == overlay(
        update.minimize_to_tray_on_close,
        stored.minimize_to_tray_on_close,
    )
    &&& c.lightweight_mode == overlay(update.lightweight_mode, stored.lightweight_mode)
    &&& c.developer_mode == overlay(update.developer_mode, stored.developer_mode)
}

/// The fields from the log level on.
pub open spec fn tail_overlaid(c: AppConfig, stored: AppConfig, update: AppConfig) -> bool {
    &&& c.log_level == overlay(update.log_level, stored.log_level)
    &&& c.auto_check_update == overlay(update.auto_check_update, stored.auto_check_update)
    &&& c.beta_update == overlay(update.beta_update, stored.beta_update)
    &&& c.last_check_update_time == overlay(
        update.last_check_update_time,
        stored.last_check_update_time,
    )
}

/// The fields from the log level on are as stored.
pub open spec fn tail_kept(c: AppConfig, stored: AppConfig) -> bool {
    &&& c.log_level == stored.log_level
    &&& c.auto_check_update == stored.auto_check_update
    &&& c.beta_update == stored.beta_update
    &&& c.last_check_update_time == stored.last_check_update_time
}

/// `c` with the fields from `cookies` through `developer_mode`
/// overwritten by those set in `u` (only those fields of `u` are used).
fn overlay_middle(c: AppConfig, u: AppConfig) -> (r: AppConfig)
    ensures
        middle_overlaid(r, c, u),
        r.lanzou_url == c.lanzou_url,
        r.domain == c.domain,
        r.user_agent == c.user_agent,
        tail_kept(r, c),
{
    let mut c = c;
    if u.cookies.is_some() {
        c.cookies = u.cookies;
    }
    if u.download_dir.is_some() {
        c.download_dir = u.download_dir;
    }
    if u.set_default_download_dir.is_some() {
        c.set_default_download_dir = u.set_default_download_dir;
    }
    if u.theme_source.is_some() {
        c.theme_source = u.theme_source;
    }
    if u.color_scheme.is_some() {
        c.color_scheme = u.color_scheme;
    }
    if u.upload_max.is_some() {
        c.upload_max = u.upload_max;
    }
    if u.download_max.is_some() {
        c.download_max = u.download_max;
    }
    if u.upload_warning_size.is_some() {
        c.upload_warning_size = u.upload_warning_size;
    }
    if u.split_size.is_some() {
        c.split_size = u.split_size;
    }
    if u.minimize_to_tray_on_close.is_some() {
        c.minimize_to_tray_on_close = u.minimize_to_tray_on_close;
    }
    if u.lightweight_mode.is_some() {
        c.lightweight_mode = u.lightweight_mode;
    }
    if u.developer_mode.is_some() {
        c.developer_mode = u.developer_mode;
    }
    c
}

/// `r` is the outcome of applying `update` to `stored` (see
/// `config_set_outcome`).
pub open spec fn set_outcome(stored: AppConfig, update: AppConfig, r: ConfigSetOutcome) -> bool {
    &&& r.config.lanzou_url == overlay(update.lanzou_url, stored.lanzou_url)
    &&& r.config.domain == overlay(update.domain, stored.domain)
    &&& bad_user_agent(update) ==> {
        &&& r.error matches Some(AppError::Config(m)) && m@ == "User-Agent 不能为空"@
        &&& r.config == (AppConfig {
            lanzou_url: r.config.lanzou_url,
            domain: r.config.domain,
            ..stored
        })
        &&& r.user_agent_applied is None
        &&& !r.sync_tray
    }
    &&& !bad_user_agent(update) ==> {
        &&& (update.user_agent matches Some(v) ==> ((r.config.user_agent matches Some(u) && u@
            == trim_seq(v@)) && (r.user_agent_applied matches Some(a) && a@ == trim_seq(v@))))
        &&& (update.user_agent is None ==> r.config.user_agent == stored.user_agent
            && r.user_agent_applied is None)
        &&& middle_overlaid(r.config, stored, update)
        &&& r.sync_tray == update.minimize_to_tray_on_close is Some
        &&& (bad_log_level(update) ==> (tail_kept(r.config, stored) && (r.error matches Some(
            AppError::Config(m),
        ) && m@ == "无效的日志级别: "@ + update.log_level->0@)))
        &&& (!bad_log_level(update) ==> tail_overlaid(r.config, stored, update)
            && r.error is None)
    }
}

/// Applies `update` to the `stored` settings, field by field in a fixed
/// order: each value that is set replaces the stored one; a user agent is
/// stored trimmed and rejected when blank; a log level must name a level.
/// A rejected value stops the update there.
pub fn config_set_outcome(stored: AppConfig, update: AppConfig) -> (r: ConfigSetOutcome)
    ensures
        set_outcome(stored, update, r),
{
    let ghost u0 = update;
    let AppConfig {
        lanzou_url,
        domain,
        user_agent,
        cookies,
        download_dir,
        set_default_download_dir,
        theme_source,
        color_scheme,
        upload_max,
        download_max,
        upload_warning_size,
        split_size,
        minimize_to_tray_on_close,
        lightweight_mode,
        developer_mode,
        log_level,
        auto_check_update,
        beta_update,
        last_check_update_time,
    } = update;
    let mut c = stored;
    if lanzou_url.is_some() {
        c.lanzou_url = lanzou_url;
    }
    if domain.is_some() {
        c.domain = domain;
    }
    let mut applied: Option<String> = None;
    match user_agent {
        Some(v) => {
            let t = trim_string(v.as_str());
            if t.as_str().unicode_len() == 0 {
                return ConfigSetOutcome {
                    config: c,
                    error: Some(AppError::Config(owned("User-Agent 不能为空"))),
                    user_agent_applied: None,
                    sync_tray: false,
                };
            }
            c.user_agent = Some(t.clone());
            applied = Some(t);
        },
        None => {},
    }
    let sync_tray = minimize_to_tray_on_close.is_some();
    let middle = AppConfig {
        lanzou_url: None,
        domain: None,
        user_agent: None,
        cookies,
        download_dir,
        set_default_download_dir,
        theme_source,
        color_scheme,
        upload_max,
        download_max,
        upload_warning_size,
        split_size,
        minimize_to_tray_on_close,
        lightweight_mode,
        developer_mode,
        log_level: None,
        auto_check_update: None,
        beta_update: None,
        last_check_update_time: None,
    };
    let mut c = overlay_middle(c, middle);
    match log_level {
        Some(v) => {
            if !valid_log_level(v.as_str()) {
                let mut m = owned("无效的日志级别: ");
                push_str(&mut m, v.as_str());
                return ConfigSetOutcome {
                    config: c,
                    error: Some(AppError::Config(m)),
                    user_agent_applied: applied,
                    sync_tray,
                };
            }
            c.log_level = Some(v);
        },
        None => {},
    }
    if auto_check_update.is_some() {
        c.auto_check_update = auto_check_update;
    }
    if beta_update.is_some() {
        c.beta_update = beta_update;
    }
    if last_check_update_time.is_some() {
        c.last_check_update_time = last_check_update_time;
    }
    ConfigSetOutcome { config: c, error: None, user_agent_applied: applied, sync_tray }
}

/// Reading the settings back after an accepted update gives every value
/// that the update set (the user agent trimmed); every other value reads
/// as it was stored, except that a missing user agent or download
/// directory reads as its default.
pub proof fn law_read_after_write(
    stored: AppConfig,
    update: AppConfig,
    out: ConfigSetOutcome,
    system_download_dir: Option<String>,
    seen: AppConfig,
)
    requires
        set_outcome(stored, update, out),
        out.error is None,
        read_back(out.config, system_download_dir, seen),
    ensures
        seen.lanzou_url == overlay(update.lanzou_url, stored.lanzou_url),
        seen.domain == overlay(update.domain, stored.domain),
        update.user_agent matches Some(v) ==> (seen.user_agent matches Some(u) && u@ == trim_seq(v@)),
        update.user_agent is None && stored.user_agent is Some ==> seen.user_agent == stored.user_agent,
        update.download_dir is Some ==> seen.download_dir == update.download_dir,
        update.download_dir is None && stored.download_dir is Some ==> seen.download_dir == stored.download_dir,
        seen.cookies == overlay(update.cookies, stored.cookies),
        seen.set_default_download_dir == overlay(update.set_default_download_dir, stored.set_default_download_dir),
        seen.theme_source == overlay(update.theme_source, stored.theme_source),
        seen.color_scheme == overlay(update.color_scheme, stored.color_scheme),
        seen.upload_max == overlay(update.upload_max, stored.upload_max),
        seen.download_max == overlay(update.download_max, stored.download_max),
        seen.upload_warning_size == overlay(update.upload_warning_size, stored.upload_warning_size),
        seen.split_size == overlay(update.split_size, stored.split_size),
        seen.minimize_to_tray_on_close == overlay(update.minimize_to_tray_on_close, stored.minimize_to_tray_on_close),
        seen.lightweight_mode == overlay(update.lightweight_mode, stored.lightweight_mode),
        seen.developer_mode == overlay(update.developer_mode, stored.developer_mode),
        seen.log_level == overlay(update.log_level, stored.log_level),
        seen.auto_check_update == overlay(update.auto_check_update, stored.auto_check_update),
        seen.beta_update == overlay(update.beta_update, stored.beta_update),
        seen.last_check_update_time == overlay(update.last_check_update_time, stored.last_check_update_time),
{
    if bad_user_agent(update) {
        assert(out.error is Some);
    }
    if bad_log_level(update) {
        assert(out.error is Some);
    }
}

/// A request to end the program's presence on screen.
#[derive(Debug, Clone, Copy, PartialEq, Eq)]
pub enum QuitRequest {
    /// The window's close button.
    CloseWindow,
    /// An exit of the program, with its exit code when one was asked for
    /// (none when the last window went away).
    Exit(Option<i32>),
}

/// Whether a request to close or exit is held back, the window going to
/// the tray instead: with minimize-to-tray on, a close always is, an exit
/// only when no exit code was asked for.
pub fn hold_back(request: QuitRequest, minimize_to_tray_on_close: bool) -> (r: bool)
    ensures
        r == (minimize_to_tray_on_close && match request {
            QuitRequest::CloseWindow => true,
            QuitRequest::Exit(code) => code is None,
        }),
{
    minimize_to_tray_on_close && match request {
        QuitRequest::CloseWindow => true,
        QuitRequest::Exit(code) => code.is_none(),
    }
}

} // verus!
