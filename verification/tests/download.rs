use lanzou_next::error::AppError;
use lanzou_next::download::{
    download_name, download_status_error, download_status_ok, finished_progress, is_io_reset,
    is_transient, numbered_name_exec, partial_file_name, range_header, retry_delay,
    save_file_name, transfer_start, unique_path, unique_path_by,
};

#[test]
fn names_of_downloads() {
    assert_eq!(download_name(Some("a.zip".into()), "b.zip".into(), 5), "a.zip");
    assert_eq!(download_name(None, "b.zip".into(), 5), "b.zip");
    assert_eq!(download_name(Some("  ".into()), "b.zip".into(), 1700000000), "download_1700000000");
    assert_eq!(download_name(None, String::new(), -3), "download_-3");
}

#[test]
fn saved_names_are_sanitized() {
    let n = save_file_name("a/b:c*?.txt");
    assert!(!n.contains('/') && !n.contains(':') && !n.contains('*') && !n.contains('?'));
    assert!(n.ends_with(".txt"));
    let p = partial_file_name("x|y.zip");
    assert!(p.ends_with(".zip.download"));
    assert!(!p.contains('|'));
    assert_eq!(partial_file_name("x|y.zip"), "xy.zip.download");
    assert_eq!(partial_file_name("a/b"), format!("{}.download", save_file_name("a/b")));
}

#[test]
fn saved_names_drop_unsafe_characters_exactly() {
    assert_eq!(save_file_name("some-user-defined/../../../string"), "some-user-defined......string");
    assert_eq!(save_file_name("a\u{0}b\nc\u{85}d"), "abcd");
    assert_eq!(save_file_name("..."), "");
    assert_eq!(save_file_name("résumé.pdf"), "résumé.pdf");
}

#[test]
fn saved_names_are_cut_to_255_bytes() {
    let long = "a".repeat(300);
    assert_eq!(save_file_name(&long), "a".repeat(255));
    let wide = "é".repeat(200);
    assert_eq!(save_file_name(&wide), "é".repeat(127));
}

#[test]
fn numbered_names() {
    assert_eq!(numbered_name_exec("movie", "mp4", 2), "movie (2).mp4");
    assert_eq!(numbered_name_exec("README", "", 1), "README (1)");
}

#[test]
fn unique_path_keeps_a_free_target_and_numbers_a_taken_one() {
    assert_eq!(unique_path("/no_such_dir_lanzou", "/no_such_dir_lanzou/a.txt"), "/no_such_dir_lanzou/a.txt");
    let taken = unique_path("/", "/tmp");
    assert_eq!(taken, "/tmp (1)");
}

#[test]
fn free_path_is_the_target_or_the_first_free_number() {
    let taken = ["/d/a.txt", "/d/a (1).txt"];
    assert_eq!(unique_path_by("/d", "/d/a.txt", |p: &str| taken.contains(&p)), "/d/a (2).txt");
    assert_eq!(unique_path_by("/d", "/d/b.txt", |p: &str| taken.contains(&p)), "/d/b.txt");
    let gap = ["/d/a.txt", "/d/a (2).txt"];
    assert_eq!(unique_path_by("/d", "/d/a.txt", |p: &str| gap.contains(&p)), "/d/a (1).txt");
    assert_eq!(unique_path_by("/e", "/d/README", |p: &str| p == "/d/README"), "/e/README (1)");
}

#[test]
fn resume_headers_and_statuses() {
    assert_eq!(range_header(0), None);
    assert_eq!(range_header(1234).as_deref(), Some("bytes=1234-"));
    assert!(download_status_ok(200));
    assert!(download_status_ok(206));
    assert!(!download_status_ok(404));
    assert!(matches!(download_status_error("404 Not Found"), AppError::Lanzou(m) if m == "下载失败: HTTP 404 Not Found"));
}

#[test]
fn totals_of_resumed_and_fresh_transfers() {
    let t = transfer_start(true, Some(100), Some("bytes 50-149/150"), 50);
    assert_eq!((t.total, t.resume_from, t.restart), (150, 50, false));
    let t = transfer_start(true, Some(100), Some("bytes 50-149/ *"), 50);
    assert_eq!(t.total, 150);
    let t = transfer_start(true, None, None, 50);
    assert_eq!(t.total, 50);
    let t = transfer_start(false, Some(300), None, 50);
    assert_eq!((t.total, t.resume_from, t.restart), (300, 0, true));
    let t = transfer_start(false, None, None, 0);
    assert_eq!((t.total, t.resume_from, t.restart), (0, 0, false));
}

#[test]
fn retries() {
    assert!(is_io_reset("Connection reset by peer"));
    assert!(is_io_reset("broken pipe"));
    assert!(!is_io_reset("timed out"));
    assert!(is_transient(true, false, false, false, None));
    assert!(is_transient(false, false, false, false, Some("connection reset")));
    assert!(!is_transient(false, false, false, false, Some("404")));
    assert_eq!(retry_delay(0, true), Some(500));
    assert_eq!(retry_delay(1, true), Some(1000));
    assert_eq!(retry_delay(2, true), None);
    assert_eq!(retry_delay(0, false), None);
    let p = finished_progress("id".into(), "n".into(), 10, 10, "/x/n".into());
    assert_eq!(p.speed, 0);
    assert_eq!(p.file_path.as_deref(), Some("/x/n"));
}

#[test]
fn taken_paths_are_numbered_by_stem_and_extension() {
    assert_eq!(unique_path("/no_such_base", "/tmp/"), "/no_such_base/tmp (1)");
}
