use lanzou_next::error::AppError;
use lanzou_next::update::{
    installer_download_error, installer_file_name, installer_url, linux_install_args,
    releases_url, update_cancelled_error, update_list_error,
};
use lanzou_next::update::{
    choose_update, compare_version, find_platform_asset, github_proxy_url, into_info, GitHubAsset,
    GitHubRelease, Os, Platform,
};

#[test]
fn versions_compare_by_three_numbers() {
    assert!(compare_version("1.2.3", "v1.2.4") < 0);
    assert!(compare_version("1.10.0", "1.9.9") > 0);
    assert_eq!(compare_version("1.2", "v1.2.0"), 0);
    assert_eq!(compare_version("vv2.0.0-beta.1", "2.0.0"), 0);
    assert_eq!(compare_version("1.2.3.9", "1.2.3.1"), 0);
    assert!(compare_version("2", "1.99.99") > 0);
}

fn rel(tag: &str, pre: bool, assets: Option<Vec<GitHubAsset>>) -> GitHubRelease {
    GitHubRelease {
        tag_name: tag.to_string(),
        name: None,
        html_url: format!("https://github.com/x/y/releases/{tag}"),
        published_at: Some("2025-01-01".to_string()),
        prerelease: pre,
        assets,
    }
}

#[test]
fn the_newest_offered_release_is_chosen_when_newer() {
    let rs = vec![rel("v1.1.0", false, None), rel("v1.3.0", true, None), rel("v1.2.0", false, None)];
    assert_eq!(choose_update(&rs, false, "1.0.0"), Some(2));
    assert_eq!(choose_update(&rs, true, "1.0.0"), Some(1));
    assert_eq!(choose_update(&rs, false, "1.2.0"), None);
    assert_eq!(choose_update(&rs, true, "2.0.0"), None);
    let ties = vec![rel("v1.2.0", false, None), rel("1.2.0", false, None)];
    assert_eq!(choose_update(&ties, false, "1.0"), Some(1));
    assert_eq!(choose_update(&vec![], false, "1.0"), None);
}

fn asset(name: &str) -> GitHubAsset {
    GitHubAsset { name: name.to_string(), browser_download_url: format!("https://dl/{name}") }
}

fn platform(os: Os, arm: bool) -> Platform {
    Platform { os, aarch64: arm, is_appimage: false, has_pacman: false, has_dpkg: true }
}

#[test]
fn installers_are_picked_per_platform() {
    let assets = Some(vec![
        asset("app_1.0_arm64-setup.exe"),
        asset("app_1.0_x64-setup.exe"),
        asset("app_1.0_x64.dmg"),
        asset("app_1.0_amd64.deb"),
        asset("app_1.0_amd64.AppImage"),
    ]);
    let (url, name) = find_platform_asset(&assets, platform(Os::Windows, false));
    assert_eq!(name.as_deref(), Some("app_1.0_x64-setup.exe"));
    assert_eq!(url.as_deref(), Some("https://dl/app_1.0_x64-setup.exe"));
    let (_, name) = find_platform_asset(&assets, platform(Os::Macos, true));
    assert_eq!(name.as_deref(), Some("app_1.0_x64.dmg"));
    let (_, name) = find_platform_asset(&assets, platform(Os::Linux, false));
    assert_eq!(name.as_deref(), Some("app_1.0_amd64.deb"));
    let mut p = platform(Os::Linux, false);
    p.is_appimage = true;
    let (_, name) = find_platform_asset(&assets, p);
    assert_eq!(name.as_deref(), Some("app_1.0_amd64.AppImage"));
    assert_eq!(find_platform_asset(&None, platform(Os::Windows, false)), (None, None));
    assert_eq!(find_platform_asset(&assets, platform(Os::Other, false)), (None, None));
}

#[test]
fn release_info() {
    let r = rel("vv1.4.0", true, Some(vec![asset("a_x64-setup.exe")]));
    let info = into_info(r, platform(Os::Windows, false));
    assert_eq!(info.version, "1.4.0");
    assert_eq!(info.name, "vv1.4.0");
    assert!(info.is_prerelease);
    assert_eq!(info.asset_name.as_deref(), Some("a_x64-setup.exe"));
}

#[test]
fn mirror_addresses() {
    assert_eq!(github_proxy_url("https://mirror.x//", "https://github.com/a"), "https://mirror.x/https://github.com/a");
    assert_eq!(github_proxy_url("", "https://github.com/a"), "https://github.com/a");
    assert_eq!(github_proxy_url("https://m", "https://other.com/a"), "https://other.com/a");
}

#[test]
fn installing() {
    assert_eq!(releases_url(), "https://api.github.com/repos/Jursin/lanzou-next/releases?per_page=100");
    assert_eq!(installer_url(Some("u".into())).unwrap(), "u");
    assert!(matches!(installer_url(None), Err(AppError::Update(m)) if m == "无可用安装包"));
    assert_eq!(installer_file_name("https://x/releases/download/v1/app_1.0_x64-setup.exe"), "app_1.0_x64-setup.exe");
    assert_eq!(installer_file_name("noslash"), "noslash");
    assert_eq!(installer_file_name("https://x/"), "");
    assert!(matches!(update_list_error("500"), AppError::Update(m) if m == "更新接口返回 HTTP 500"));
    assert!(matches!(installer_download_error("404"), AppError::Update(m) if m == "下载失败: HTTP 404"));
    assert!(matches!(update_cancelled_error(), AppError::Update(m) if m == "下载已取消"));
    assert_eq!(linux_install_args("deb"), vec!["dpkg".to_string(), "-i".to_string()]);
    assert_eq!(linux_install_args("rpm"), vec!["rpm".to_string(), "-U".to_string()]);
    assert_eq!(linux_install_args("zst"), vec!["pacman".to_string(), "-U".to_string(), "--noconfirm".to_string()]);
}
