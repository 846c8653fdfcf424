use litdesk::notes::{note_export_body, rename_step, replace_in_note, sanitize_name, wrap_html, RenameStep};

#[test]
fn sanitize_strips_cross_platform_illegal_chars() {
    assert_eq!(sanitize_name("研究*进展?"), "研究进展");
    assert_eq!(sanitize_name("a<b>c|d\"e"), "abcde");
    assert_eq!(sanitize_name("路径/穿越\\攻击"), "路径穿越攻击");
    assert_eq!(sanitize_name("冒号:分隔"), "冒号分隔");
}

#[test]
fn sanitize_handles_trailing_dots_and_reserved_names() {
    assert_eq!(sanitize_name("结尾点..."), "结尾点");
    assert_eq!(sanitize_name("末尾空格   "), "末尾空格");
    assert_eq!(sanitize_name("CON"), "CON_");
    assert_eq!(sanitize_name("com1"), "com1_");
}

#[test]
fn sanitize_falls_back_for_empty() {
    assert_eq!(sanitize_name("   "), "未命名笔记");
    assert_eq!(sanitize_name("///"), "未命名笔记");
}

#[test]
fn sanitized_names_are_valid_file_names() {
    for name in ["a\u{0007}b", "x/y:z", "", "..", "COM9", &"长".repeat(200)] {
        let s = sanitize_name(name);
        assert!(!s.is_empty());
        assert!(!s.chars().any(|c| "/\\:*?\"<>|\0".contains(c) || c.is_control()));
        assert!(s.chars().count() <= 121);
    }
}

#[test]
fn wrapped_note_escapes_title() {
    let html = wrap_html("a<b", "<p>x</p>");
    assert!(html.starts_with("<!DOCTYPE html><html lang=\"zh\"><head><meta charset=\"utf-8\"><title>a&lt;b</title>"));
    assert!(html.ends_with("<h1>a&lt;b</h1><p>x</p></body></html>"));
    assert_eq!(note_export_body("n", "# x", "md", &Vec::new()), "# x");
    assert!(note_export_body("n", "# x", "html", &Vec::new()).contains("<h1>x</h1>"));
}

#[test]
fn rename_never_overwrites() {
    assert!(matches!(rename_step("a", "b", false, false), RenameStep::Missing(m) if m == "笔记「a」不存在"));
    assert!(matches!(rename_step("a*", "a", true, true), RenameStep::Same(n) if n == "a"));
    assert!(matches!(rename_step("a", "b", true, true), RenameStep::Taken(m) if m == "已存在同名笔记「b」，请换一个名称"));
    assert!(matches!(rename_step("a", "b?", true, false), RenameStep::Move(x, y) if x == "a" && y == "b"));
}

#[test]
fn replace_counts_non_overlapping_matches() {
    assert_eq!(replace_in_note("aaaa", "aa", "b"), Ok((2, "bb".to_string())));
    assert_eq!(replace_in_note("x y x", "x", "zz"), Ok((2, "zz y zz".to_string())));
    assert_eq!(replace_in_note("abc", "q", "z"), Ok((0, "abc".to_string())));
    assert_eq!(replace_in_note("abc", "", "z"), Err("查找内容不能为空".to_string()));
}

#[test]
fn sanitize_strips_every_trailing_dot_and_space() {
    assert_eq!(sanitize_name("a. \u{3000}."), "a");
    assert_eq!(sanitize_name("  报告 . . "), "报告");
    assert_eq!(sanitize_name(". ."), "未命名笔记");
    assert_eq!(sanitize_name("lpt9."), "lpt9_");
}
