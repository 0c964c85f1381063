use lanzou_next::upload::{chunk_plan, part_name};
use lanzou_next::merge::{blocked_chunk, blocked_part, empty_part_error, looks_like_html, part_status_error, probe_total};
use lanzou_next::error::AppError;
use lanzou_next::merge::{
    check_merged_size, check_part_complete, merge_output_name, merge_total_size, merged_name,
    parse_part_index, part_display_name, part_failure_action, part_progress_total, parts_dir_name,
    sort_parts_by_index, MergePart, PartRetry,
};

#[test]
fn test_merged_name_strips_padding() {
    let names = vec![
        "test video.mp4.001.ct.ke".to_string(),
        "test video.mp4.002.ct.ke".to_string(),
        "test video.mp4.003.ct.ke".to_string(),
    ];
    assert_eq!(merged_name(&names), "test video.mp4");
}

#[test]
fn test_merged_name_no_padding() {
    let names = vec![
        "a.1.ct.ke".to_string(),
        "a.2.ct.ke".to_string(),
        "a.3.ct.ke".to_string(),
    ];
    assert_eq!(merged_name(&names), "a");
}

#[test]
fn test_merged_name_keeps_real_trailing_digits() {
    let names = vec![
        "file0.mp4.001.ct.ke".to_string(),
        "file0.mp4.002.ct.ke".to_string(),
    ];
    assert_eq!(merged_name(&names), "file0.mp4");
}

#[test]
fn test_parse_part_index() {
    assert_eq!(parse_part_index("test video.mp4.001.ct.ke"), Some(1));
    assert_eq!(parse_part_index("test video.mp4.002.ct.ke"), Some(2));
    assert_eq!(parse_part_index("普通文件.txt"), None);
}

#[test]
fn merged_name_keeps_a_trailing_zero_of_the_name() {
    let names = vec!["file10.001.ct.ke".to_string(), "file10.002.ct.ke".to_string()];
    assert_eq!(merged_name(&names), "file10");
    let parts: Vec<String> = (1..=3u64).map(|i| part_name("take100", i, 3, "a.b")).collect();
    assert_eq!(merged_name(&parts), "take100");
}

#[test]
fn merged_name_ignores_order_and_repeats() {
    let a = vec!["m.mp4.001.x.y".to_string(), "m.mp4.002.x.y".to_string(), "m.mp4.003.x.y".to_string()];
    let b = vec![a[2].clone(), a[0].clone(), a[1].clone(), a[0].clone()];
    assert_eq!(merged_name(&b), merged_name(&a));
    assert_eq!(merged_name(&a), "m.mp4");
}

#[test]
fn html_detection_ignores_case() {
    assert!(looks_like_html(b"<!DOCTYPE html><html><body>blocked</body></html>"));
    assert!(looks_like_html(b"\n <HTML><HEAD>"));
    assert!(looks_like_html(b"<Body>"));
    assert!(!looks_like_html(b"error: lowercase marker"));
}

#[test]
fn merged_name_of_nothing_is_empty() {
    let names: Vec<String> = vec![];
    assert_eq!(merged_name(&names), "");
}

#[test]
fn merged_name_is_a_common_prefix() {
    let names = vec!["  movie_-.00".to_string(), "  movie_-.001".to_string()];
    assert_eq!(merged_name(&names), "movie");
}

fn part(id: &str, name: &str) -> MergePart {
    MergePart { id: id.to_string(), name: name.to_string() }
}

#[test]
fn parts_are_sorted_by_index_stably() {
    let parts = vec![
        part("3", "a.mp4.003.ct.ke"),
        part("x", "readme"),
        part("1", "a.mp4.001.ct.ke"),
        part("y", "other"),
        part("2", "a.mp4.002.ct.ke"),
    ];
    let sorted = sort_parts_by_index(&parts);
    let ids: Vec<&str> = sorted.iter().map(|p| p.id.as_str()).collect();
    assert_eq!(ids, vec!["x", "y", "1", "2", "3"]);
}

#[test]
fn merge_output_name_falls_back_to_merged() {
    let parts = vec![part("1", "abc"), part("2", "xyz")];
    assert_eq!(merge_output_name(&parts), Some("merged".to_string()));
    let parts = vec![part("1", "v.mp4.01.a.b"), part("2", "v.mp4.02.a.b")];
    assert_eq!(merge_output_name(&parts), Some("v.mp4".to_string()));
    // The common byte prefix of "é" and "ê" ends inside a character.
    let parts = vec![part("1", "é"), part("2", "ê")];
    assert_eq!(merge_output_name(&parts), None);
}

#[test]
fn merge_helpers() {
    assert_eq!(parts_dir_name("v.mp4"), "v.mp4.parts");
    assert_eq!(merge_total_size(&vec![10, 20, 30]), 60);
    assert_eq!(merge_total_size(&vec![10, 0, 30]), 0);
    assert_eq!(merge_total_size(&vec![]), 0);
    assert_eq!(part_display_name("v.mp4", 0, 3), "v.mp4 (1/3)");
    assert_eq!(part_failure_action(0, true), PartRetry::Cancelled);
    assert_eq!(part_failure_action(0, false), PartRetry::Retry { attempt: 1, delay_ms: 1200 });
    assert_eq!(part_failure_action(1, false), PartRetry::Retry { attempt: 2, delay_ms: 2400 });
    assert_eq!(part_failure_action(2, false), PartRetry::GiveUp);
    assert_eq!(check_merged_size(5, 5), Ok(()));
    assert_eq!(
        check_merged_size(4, 5),
        Err(AppError::Lanzou("合并结果大小异常: 4 ≠ 5".to_string()))
    );
    assert_eq!(part_progress_total(100, 5, 7), 100);
    assert_eq!(part_progress_total(0, 5, 7), 12);
    assert_eq!(check_part_complete(0, 9), Ok(9));
    assert_eq!(check_part_complete(9, 9), Ok(9));
    assert_eq!(
        check_part_complete(10, 9),
        Err(AppError::Lanzou("分片下载不完整: 预期 10 字节，实际 9 字节".to_string()))
    );
}

#[test]
fn split_names_merge_back_to_the_file_name() {
    let plan = chunk_plan(2500, 1000);
    let names: Vec<String> = (1..=plan.len() as u64)
        .map(|i| part_name("report v2.pdf", i, plan.len() as u64, if i % 2 == 0 { "ct.ke" } else { "osk.lua" }))
        .collect();
    assert_eq!(names[0], "report v2.pdf.1.osk.lua");
    assert_eq!(merged_name(&names), "report v2.pdf");
    let many: Vec<String> = (1..=12u64).map(|i| part_name("a.bin", i, 12, "x.y")).collect();
    assert_eq!(many[0], "a.bin.01.x.y");
    assert_eq!(merged_name(&many), "a.bin");
}

#[test]
fn blocked_parts_and_probes() {
    assert!(looks_like_html(b"  \n<!doctype html><html>"));
    assert!(looks_like_html(b"<html><body>ERROR:102</body>"));
    assert!(looks_like_html(b"xxERROR:7"));
    assert!(!looks_like_html(b"PK\x03\x04binary data"));
    assert!(looks_like_html(b"<!DOCTYPE html>"));
    let (e, cookie) = blocked_part("<html>ERROR:102 blocked</html>");
    assert!(matches!(e, AppError::Lanzou(m) if m == "下载分片被拦截: ERROR:102"));
    assert!(cookie.is_none());
    let (e, _) = blocked_part("<html>nothing</html>");
    assert!(matches!(e, AppError::Lanzou(m) if m == "下载分片被拦截: HTML 页面"));
    let page = "<script>var arg1='E4961D5F7A3B2C8D90E1F2A3B4C5D6E7F8091A2B3C4D5E6F7';</script>acw_sc__v2";
    let (e, cookie) = blocked_part(page);
    assert!(matches!(e, AppError::Lanzou(m) if m == "下载分片触发反爬验证，重试中"));
    assert_eq!(cookie.map(|c| c.len()), Some(40));
    assert!(matches!(part_status_error("403 Forbidden"), AppError::Lanzou(m) if m == "下载分片失败: HTTP 403 Forbidden"));
    assert!(matches!(empty_part_error(), AppError::Lanzou(m) if m == "下载分片响应为空"));
    assert_eq!(probe_total(true, Some("bytes 0-0/12345"), Some(1)), 12345);
    assert_eq!(probe_total(true, Some("garbage"), Some(7)), 7);
    assert_eq!(probe_total(false, Some("bytes 0-0/12345"), Some(9)), 9);
    assert_eq!(probe_total(false, None, None), 0);
}

#[test]
fn a_merge_needs_parts() {
    assert!(lanzou_next::merge::check_parts_selected(2).is_ok());
    match lanzou_next::merge::check_parts_selected(0) {
        Err(AppError::Lanzou(m)) => assert_eq!(m, "未选择分片文件"),
        other => panic!("unexpected {:?}", other),
    }
}

#[test]
fn html_detection_reads_utf8_text() {
    assert!(looks_like_html("\u{3000}<html lang=\"zh\">蓝奏".as_bytes()));
    assert!(!looks_like_html("文件内容".as_bytes()));
}

#[test]
fn blocked_chunks_are_read_as_text() {
    let (e, cookie) = blocked_chunk(b"<html>ERROR:321</html>");
    assert!(matches!(e, AppError::Lanzou(m) if m == "下载分片被拦截: ERROR:321"));
    assert!(cookie.is_none());
    let (e, _) = blocked_chunk(b"<html>\xff\xfe</html>");
    assert!(matches!(e, AppError::Lanzou(m) if m == "下载分片被拦截: HTML 页面"));
}
