use cove::attachment_commands::file_utils::{
    get_extension, guess_image_mime_by_ext, is_text_like_extension, safe_file_name, split_name_ext,
    truncate_text_by_chars, unique_file_name,
};

fn now_ms() -> u128 {
    std::time::SystemTime::now()
        .duration_since(std::time::UNIX_EPOCH)
        .unwrap_or_default()
        .as_millis()
}

#[test]
fn safe_file_name_normal() {
    assert_eq!(safe_file_name("report.pdf"), "report.pdf");
}

#[test]
fn safe_file_name_replaces_unsafe_chars() {
    assert_eq!(safe_file_name("a/b\\c:d*e?f\"g<h>i|j"), "a_b_c_d_e_f_g_h_i_j");
}

#[test]
fn safe_file_name_empty_or_whitespace() {
    assert_eq!(safe_file_name(""), "attachment");
    assert_eq!(safe_file_name("   "), "attachment");
}

#[test]
fn safe_file_name_trims_unicode_space() {
    assert_eq!(safe_file_name("\u{3000} a b \t\n"), "a b");
    assert_eq!(safe_file_name("\u{a0}x\u{2003}"), "x");
    assert_eq!(safe_file_name(" / "), "_");
}

#[test]
fn split_name_ext_with_extension() {
    assert_eq!(split_name_ext("foo.txt"), ("foo", Some("txt")));
}

#[test]
fn split_name_ext_no_extension() {
    assert_eq!(split_name_ext("noext"), ("noext", None));
}

#[test]
fn split_name_ext_hidden_file() {
    assert_eq!(split_name_ext(".hidden"), (".hidden", None));
}

#[test]
fn split_name_ext_multiple_dots() {
    assert_eq!(split_name_ext("a.b.c"), ("a.b", Some("c")));
}

#[test]
fn split_name_ext_trailing_dot_and_wide_chars() {
    assert_eq!(split_name_ext("name."), ("name.", None));
    assert_eq!(split_name_ext("报告.文档"), ("报告", Some("文档")));
}

#[test]
fn unique_file_name_with_ext() {
    let result = unique_file_name("doc.pdf", now_ms());
    assert!(result.starts_with("doc_"));
    assert!(result.ends_with(".pdf"));
}

#[test]
fn unique_file_name_without_ext() {
    let result = unique_file_name("noext", now_ms());
    assert!(result.starts_with("noext_"));
    assert!(!result.contains('.'));
}

#[test]
fn unique_file_name_exact() {
    assert_eq!(unique_file_name("doc.pdf", 1700000000123), "doc_1700000000123.pdf");
    assert_eq!(unique_file_name("noext", 0), "noext_0");
    assert_eq!(unique_file_name("a.b.c", 10), "a.b_10.c");
    assert_eq!(
        unique_file_name("x", u128::MAX),
        "x_340282366920938463463374607431768211455"
    );
}

#[test]
fn guess_image_mime_known_types() {
    assert_eq!(guess_image_mime_by_ext("a.png"), Some("image/png"));
    assert_eq!(guess_image_mime_by_ext("b.jpg"), Some("image/jpeg"));
    assert_eq!(guess_image_mime_by_ext("c.jpeg"), Some("image/jpeg"));
    assert_eq!(guess_image_mime_by_ext("d.gif"), Some("image/gif"));
    assert_eq!(guess_image_mime_by_ext("e.webp"), Some("image/webp"));
}

#[test]
fn guess_image_mime_non_image() {
    assert_eq!(guess_image_mime_by_ext("file.pdf"), None);
    assert_eq!(guess_image_mime_by_ext("noext"), None);
}

#[test]
fn guess_image_mime_ignores_case() {
    assert_eq!(guess_image_mime_by_ext("A.PNG"), Some("image/png"));
    assert_eq!(guess_image_mime_by_ext("b.JpEg"), Some("image/jpeg"));
}

#[test]
fn is_text_like_known_types() {
    for ext in ["txt", "md", "json", "py", "rs", "html"] {
        assert!(is_text_like_extension(&format!("file.{}", ext)), "expected true for {}", ext);
    }
}

#[test]
fn is_text_like_non_text() {
    for ext in ["pdf", "png", "exe"] {
        assert!(!is_text_like_extension(&format!("file.{}", ext)), "expected false for {}", ext);
    }
    assert!(!is_text_like_extension("noext"));
}

#[test]
fn get_extension_lowercased() {
    assert_eq!(get_extension("file.PDF"), "pdf");
}

#[test]
fn get_extension_none() {
    assert_eq!(get_extension("noext"), "");
}

#[test]
fn get_extension_of_paths() {
    assert_eq!(get_extension("/a/b.c/d.TXT"), "txt");
    assert_eq!(get_extension("/a/b.c/d"), "");
    assert_eq!(get_extension("/a/.hidden"), "");
    assert_eq!(get_extension("/a/x.tar.gz/"), "gz");
    assert_eq!(get_extension("/a/.."), "");
    assert_eq!(get_extension("foo."), "");
}

#[test]
fn truncate_within_limit() {
    let (text, truncated) = truncate_text_by_chars("hello".to_string(), 100);
    assert_eq!(text, "hello");
    assert!(!truncated);
}

#[test]
fn truncate_over_limit() {
    let (text, truncated) = truncate_text_by_chars("abcdef".to_string(), 3);
    assert!(truncated);
    assert!(text.starts_with("abc"));
    assert!(text.contains("内容已截断"));
}

#[test]
fn truncate_exact_text() {
    let (text, truncated) = truncate_text_by_chars("abcdef".to_string(), 3);
    assert!(truncated);
    assert_eq!(text, "abc\n\n[内容已截断：原始文本长度约 6 字符，当前保留 3 字符]");
    let (text, truncated) = truncate_text_by_chars("日本語".to_string(), 3);
    assert!(!truncated);
    assert_eq!(text, "日本語");
    let (text, truncated) = truncate_text_by_chars("日本語".to_string(), 0);
    assert!(truncated);
    assert_eq!(text, "\n\n[内容已截断：原始文本长度约 3 字符，当前保留 0 字符]");
}
