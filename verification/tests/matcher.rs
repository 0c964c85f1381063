use lanzou_next::matcher::{
    calc_acw_sc_v2, hex_xor, match_folder_ajax, match_iframe, match_sign, regex_arg1, remove_notes,
    unsbox,
};

#[test]
fn test_unsbox() {
    let input = "ABCDEFGHIJKLMNOPQRSTUVWXYZ0123456789abcd";
    assert_eq!(input.len(), 40);
    let out = unsbox(input);
    assert_eq!(out.len(), 40);
    let mut chars: Vec<char> = out.chars().collect();
    chars.sort();
    let mut input_chars: Vec<char> = input.chars().collect();
    input_chars.sort();
    assert_eq!(chars, input_chars);
}

#[test]
fn test_hex_xor() {
    assert_eq!(hex_xor("ff", "00"), "ff");
    assert_eq!(hex_xor("aa", "0f"), "a5");
}

#[test]
fn test_calc_acw_sc_v2() {
    let html = r#"<script>var arg1='E4961D5F7A3B2C8D90E1F2A3B4C5D6E7F8091A2B3C4D5E6F7';</script>"#;
    let cookie = calc_acw_sc_v2(html).expect("should calc cookie");
    assert_eq!(cookie.len(), 40);
}

#[test]
fn test_calc_acw_sc_v2_missing_arg1() {
    let html = "<html>no challenge</html>";
    assert!(calc_acw_sc_v2(html).is_none());
}

#[test]
fn test_match_iframe() {
    let html = r#"<html><body><iframe src="//up.woozooo.com/file/xxxx" width="100"></iframe></body></html>"#;
    let src = match_iframe(html).expect("should find iframe");
    assert_eq!(src, "//up.woozooo.com/file/xxxx");
}

#[test]
fn test_match_sign_direct() {
    let html = r#"$.ajax({url:'/ajaxm.php', data:{'sign':'AGZRbwEwU2IEDQU6BDRUaFc8DzxfMlRjCjTPlVkWzFSYFY7ATpWYw_c_c'}})"#;
    let sign = match_sign(html).expect("should find sign");
    assert_eq!(sign, "AGZRbwEwU2IEDQU6BDRUaFc8DzxfMlRjCjTPlVkWzFSYFY7ATpWYw_c_c");
}

#[test]
fn test_match_sign_variable() {
    let html = r#"data:{'sign':sign}, var sign='AGZRbwEwU2IEDQU6BDRUaFc8DzxfMlRjCjTPlVkWzFSYFY7ATpWYw_c_c';"#;
    let sign = match_sign(html).expect("should resolve variable sign");
    assert_eq!(sign, "AGZRbwEwU2IEDQU6BDRUaFc8DzxfMlRjCjTPlVkWzFSYFY7ATpWYw_c_c");
}

#[test]
fn test_match_folder_ajax() {
    let html = r#"
            'lx':'1',
            var qwerty = '1234567890';
            var asdfgh = 'abc123def456ghi789jkl012';
            'fid':'12345',
        "#;
    let p = match_folder_ajax(html).expect("should parse folder params");
    assert_eq!(p.lx, "1");
    assert_eq!(p.t, "1234567890");
    assert_eq!(p.k, "abc123def456ghi789jkl012");
    assert_eq!(p.fid, "12345");
}

#[test]
fn unsbox_places_each_input_char_by_the_order_table() {
    let input = "ABCDEFGHIJKLMNOPQRSTUVWXYZ0123456789abcd";
    let out: Vec<char> = unsbox(input).chars().collect();
    // Position 0 takes input character 15 (from 1), position 6 takes character 1.
    assert_eq!(out[0], 'O');
    assert_eq!(out[6], 'A');
    assert_eq!(out[12], 'd');
}

#[test]
fn unsbox_pads_short_input_with_spaces() {
    let out = unsbox("AB");
    assert_eq!(out.chars().count(), 40);
    assert_eq!(out.chars().filter(|c| *c == ' ').count(), 38);
    let chars: Vec<char> = out.chars().collect();
    assert_eq!(chars[6], 'A');
    assert_eq!(chars[28], 'B');
}

#[test]
fn hex_xor_uses_the_shorter_length_and_zero_for_bad_digits() {
    assert_eq!(hex_xor("ffff", "0f"), "f0");
    assert_eq!(hex_xor("zz", "0f"), "0f");
    assert_eq!(hex_xor("+f", "00"), "0f");
    assert_eq!(hex_xor("abc", "abc"), "00");
    assert_eq!(hex_xor("", "ff"), "");
}

#[test]
fn hex_xor_twice_with_the_same_key_restores_lowercase_input() {
    let a = "E4961D5F7A";
    let k = "3000176000";
    let once = hex_xor(a, k);
    assert_eq!(hex_xor(&once, k), a.to_lowercase());
}

#[test]
fn regex_arg1_keeps_only_hex_digits() {
    assert_eq!(regex_arg1("x arg1='12-zz-AB' y"), Some("12AB".to_string()));
    assert_eq!(regex_arg1("arg1='xyz'"), None);
    assert_eq!(regex_arg1("arg1='12"), None);
}

#[test]
fn calc_acw_sc_v2_known_value() {
    // 40 zero digits: every output pair is the key's pair.
    let html = "arg1='0000000000000000000000000000000000000000'";
    assert_eq!(
        calc_acw_sc_v2(html),
        Some("3000176000856006061501533003690027800375".to_string())
    );
}

#[test]
fn match_iframe_reports_missing_iframe() {
    let err = match_iframe("<html></html>").unwrap_err();
    assert_eq!(err, lanzou_next::error::AppError::Parse("未找到 iframe".to_string()));
}

#[test]
fn match_sign_reports_missing_sign() {
    let err = match_sign("nothing here").unwrap_err();
    assert_eq!(err, lanzou_next::error::AppError::Parse("未找到 sign".to_string()));
}

#[test]
fn match_sign_ignores_block_comments() {
    let html = "/* 'sign':'old_value' */ 'sign':'new_value'";
    assert_eq!(match_sign(html).unwrap(), "new_value");
}

#[test]
fn match_folder_ajax_reports_first_missing_parameter() {
    let err = match_folder_ajax("'lx':'1'").err().unwrap();
    assert_eq!(err, lanzou_next::error::AppError::Parse("参数匹配失败".to_string()));
}

#[test]
fn remove_notes_drops_html_and_line_comments() {
    assert_eq!(remove_notes("a<!-- x -->b"), "ab");
    assert_eq!(remove_notes("code(); // note"), "code();");
}

#[test]
fn challenge_answers_are_forty_lower_hex_digits() {
    for arg in ["E4961D5F7A3B2C8D90E1F2A3B4C5D6E7F8091A2B3C4D5E6F7", "ab", "0123456789abcdef0123456789ABCDEF01234567"] {
        let html = format!("var arg1='{arg}';");
        let c = calc_acw_sc_v2(&html).unwrap();
        assert_eq!(c.len(), 40);
        assert!(c.chars().all(|ch| ch.is_ascii_digit() || ('a'..='f').contains(&ch)), "{c}");
    }
}

#[test]
fn hex_xor_twice_with_one_key_restores_the_input() {
    let a = "3Fa9c0D1";
    let k = "0f1e2d3c";
    assert_eq!(hex_xor(&hex_xor(a, k), k), "3fa9c0d1");
    assert_eq!(hex_xor(a, k), hex_xor(k, a));
    assert_eq!(hex_xor(a, k).len(), a.len());
    let c = hex_xor(k, a);
    assert_eq!(hex_xor(&c, "0F1E2D3C"), "3fa9c0d1");
}
