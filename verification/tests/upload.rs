use lanzou_next::upload::upload_form_fields;
use lanzou_next::error::AppError;
use lanzou_next::upload::{
    cancelled_error, chunk_plan, oversized_error, part_name, part_suffix, precheck_result,
    safe_suffix_list, select_oversized, size_unit, split_bytes, upload_display_name, upload_mode,
    upload_reply, OversizedFile, UploadMode,
};

#[test]
fn split_size_defaults_to_100_mib_and_is_capped_by_the_account() {
    assert_eq!(split_bytes(None, None), 100 * 1024 * 1024);
    assert_eq!(split_bytes(Some(10), None), 10 * 1024 * 1024);
    assert_eq!(split_bytes(Some(100), Some(50 * 1024 * 1024)), 50 * 1024 * 1024);
    assert_eq!(split_bytes(Some(u32::MAX), None), (u32::MAX as u64) * 1024 * 1024);
    assert_eq!(split_bytes(Some(0), Some(5)), 0);
}

#[test]
fn upload_mode_follows_the_limit() {
    assert_eq!(upload_mode(10, None, None), UploadMode::Whole);
    assert_eq!(upload_mode(10, Some(10), Some(false)), UploadMode::Whole);
    assert_eq!(upload_mode(11, Some(10), Some(true)), UploadMode::Chunked);
    assert_eq!(upload_mode(11, Some(10), None), UploadMode::Refused);
    assert_eq!(upload_mode(11, Some(10), Some(false)), UploadMode::Refused);
}

#[test]
fn chunk_plan_covers_the_file() {
    assert_eq!(chunk_plan(10, 4), vec![(0, 4), (4, 4), (8, 2)]);
    assert_eq!(chunk_plan(8, 4), vec![(0, 4), (4, 4)]);
    assert_eq!(chunk_plan(0, 4), vec![]);
    assert_eq!(chunk_plan(3, 10), vec![(0, 3)]);
    let plan = chunk_plan(u64::MAX, u64::MAX / 2);
    assert_eq!(plan.len(), 3);
    assert_eq!(plan.iter().map(|p| p.1 as u128).sum::<u128>(), u64::MAX as u128);
    let mut next = 0u64;
    for (start, len) in chunk_plan(1_000_003, 1000) {
        assert_eq!(start, next);
        assert!(len > 0 && len <= 1000);
        next = start + len;
    }
    assert_eq!(next, 1_000_003);
}

#[test]
fn part_names_are_zero_padded_to_the_count() {
    assert_eq!(part_name("movie.mp4", 1, 12, "ct.ke"), "movie.mp4.01.ct.ke");
    assert_eq!(part_name("movie.mp4", 12, 12, "ct.ke"), "movie.mp4.12.ct.ke");
    assert_eq!(part_name("a", 3, 100, "x.y"), "a.003.x.y");
    assert_eq!(part_name("a", 7, 9, "x.y"), "a.7.x.y");
}

#[test]
fn part_suffix_is_two_safe_suffixes() {
    let safe = safe_suffix_list();
    assert_eq!(safe.len(), 33);
    assert_eq!(safe[0], "ct");
    assert_eq!(safe[32], "cfg");
    for _ in 0..20 {
        let s = part_suffix();
        let (a, b) = s.split_once('.').unwrap();
        assert!(safe.contains(&a), "{s}");
        assert!(safe.contains(&b), "{s}");
    }
}

#[test]
fn size_units() {
    assert_eq!(size_unit(0), (0, "B"));
    assert_eq!(size_unit(1023), (0, "B"));
    assert_eq!(size_unit(1024), (1, "KB"));
    assert_eq!(size_unit(5 * 1024 * 1024), (2, "MB"));
    assert_eq!(size_unit(1 << 30), (3, "GB"));
    assert_eq!(size_unit(u64::MAX), (4, "TB"));
}

fn file(name: &str, size: u64) -> OversizedFile {
    OversizedFile { path: format!("/x/{name}"), name: name.to_string(), rel_path: name.to_string(), size }
}

#[test]
fn precheck_keeps_files_over_the_limit_in_order() {
    let files = vec![file("a", 5), file("b", 20), file("c", 10), file("d", 30)];
    let over = select_oversized(&files, Some(10));
    assert_eq!(over.iter().map(|f| f.name.as_str()).collect::<Vec<_>>(), vec!["b", "d"]);
    assert!(select_oversized(&files, None).is_empty());
    let r = precheck_result(Some(10), files);
    assert_eq!(r.max_size, Some(10));
    assert_eq!(r.oversized.len(), 2);
}

#[test]
fn upload_replies_and_errors() {
    assert_eq!(upload_reply(Some(1), None, "f.txt").unwrap(), "f.txt");
    match upload_reply(Some(0), Some("bad type".to_string()), "f") {
        Err(AppError::Lanzou(m)) => assert_eq!(m, "bad type"),
        other => panic!("unexpected {:?}", other),
    }
    match upload_reply(None, None, "f") {
        Err(AppError::Lanzou(m)) => assert_eq!(m, "上传失败"),
        other => panic!("unexpected {:?}", other),
    }
    match oversized_error("100.0 MB") {
        AppError::Lanzou(m) => assert_eq!(m, "文件大小超出账号限制（100.0 MB），已跳过"),
        other => panic!("unexpected {:?}", other),
    }
    assert!(matches!(cancelled_error(), AppError::Lanzou(m) if m == "已取消"));
    assert_eq!(upload_display_name(Some("n".into()), "f".into()), "n");
    assert_eq!(upload_display_name(None, "f".into()), "f");
}

#[test]
fn upload_request_fields() {
    let f = upload_form_fields(-1, 2048, "a.txt");
    let f: Vec<(&str, &str)> = f.iter().map(|(a, b)| (a.as_str(), b.as_str())).collect();
    assert_eq!(
        f,
        vec![("task", "1"), ("vie", "2"), ("ve", "2"), ("id", "WU_FILE_0"), ("folder_id_bb_n", "-1"), ("size", "2048"), ("name", "a.txt")]
    );
}

#[test]
fn chunks_never_exceed_the_account_limit() {
    let limit = 3 * 1024 * 1024 + 5;
    let split = split_bytes(Some(100), Some(limit));
    assert_eq!(split, limit);
    for (_, len) in chunk_plan(10 * limit + 1, split) {
        assert!(len <= limit);
    }
}
