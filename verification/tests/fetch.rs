use cove::fetch_commands::{
    body_failed, client_failed, wait_failed, check_url, extract_title_from_html, fetch_limits,
    fetch_source, fetched, is_youtube_url, request_failed, status_failed, wait_ms, FetchUrlArgs,
};

#[test]
fn invalid_url_returns_error() {
    let source = fetch_source("file:///tmp/x");
    let r = check_url(&source).unwrap();
    assert!(!r.ok);
    assert!(r.error.as_deref().unwrap().contains("http"));
    assert_eq!(r.error.as_deref().unwrap(), "无效 URL：须以 http:// 或 https:// 开头");
    assert_eq!(r.source, "file:///tmp/x");
    assert!(r.title.is_none() && r.content_md.is_none() && r.truncated.is_none());
}

#[test]
fn youtube_url_returns_unsupported_error() {
    let r = check_url("https://www.youtube.com/watch?v=abc").unwrap();
    assert!(!r.ok);
    assert!(r.error.as_deref().unwrap().contains("YouTube"));
    let r2 = check_url("https://youtu.be/abc").unwrap();
    assert!(!r2.ok);
    assert!(r2.error.as_deref().unwrap().contains("YouTube"));
}

#[test]
fn fetchable_urls_pass() {
    assert!(check_url("https://example.com/page").is_none());
    assert!(check_url("http://example.com").is_none());
    assert!(check_url("HTTP://example.com").is_some());
    assert!(check_url(" https://example.com").is_some());
    assert_eq!(fetch_source("  https://example.com \n"), "https://example.com");
}

#[test]
fn youtube_is_found_in_any_case() {
    assert!(is_youtube_url("https://WWW.YouTube.COM/x"));
    assert!(is_youtube_url("https://YOUTU.BE/x"));
    assert!(is_youtube_url("https://example.com/?next=youtube.com"));
    assert!(!is_youtube_url("https://example.com/youtube"));
    assert!(!is_youtube_url(""));
}

#[test]
fn limits_default_and_clamp() {
    let args = |timeout_ms, max_chars| FetchUrlArgs { url: "u".into(), timeout_ms, max_chars };
    assert_eq!(fetch_limits(&args(None, None)), (15_000, 120_000));
    assert_eq!(fetch_limits(&args(Some(1), Some(2))), (1, 2));
    assert_eq!(fetch_limits(&args(Some(60_000), Some(300_000))), (60_000, 300_000));
    assert_eq!(fetch_limits(&args(Some(60_001), Some(300_001))), (60_000, 300_000));
    assert_eq!(fetch_limits(&args(Some(u64::MAX), Some(u32::MAX))), (60_000, 300_000));
    assert_eq!(wait_ms(&args(None, None)), 17_000);
    assert_eq!(wait_ms(&args(Some(u64::MAX), None)), 62_000);
}

#[test]
fn failures_are_worded() {
    let r = request_failed("https://e.com", "operation timed out");
    assert_eq!(r.error.as_deref().unwrap(), "请求超时，请稍后重试");
    let r = request_failed("https://e.com", "connect timeout");
    assert_eq!(r.error.as_deref().unwrap(), "请求超时，请稍后重试");
    let r = request_failed("https://e.com", "dns error");
    assert_eq!(r.error.as_deref().unwrap(), "请求失败：dns error");
    assert!(!r.ok);
    assert_eq!(r.source, "https://e.com");
    assert_eq!(status_failed("u", 403, Some("Forbidden")).error.unwrap(), "禁止访问（403）");
    assert_eq!(status_failed("u", 404, Some("Not Found")).error.unwrap(), "页面不存在（404）");
    assert_eq!(status_failed("u", 429, None).error.unwrap(), "请求过于频繁（429），请稍后重试");
    assert_eq!(
        status_failed("u", 500, Some("Internal Server Error")).error.unwrap(),
        "HTTP 500 Internal Server Error"
    );
    assert_eq!(status_failed("u", 599, None).error.unwrap(), "HTTP 599 ");
}

#[test]
fn pages_are_cut_by_bytes() {
    let r = fetched("https://e.com", Some("T".into()), "hello".into(), 5);
    assert!(r.ok);
    assert_eq!(r.title.as_deref(), Some("T"));
    assert_eq!(r.content_md.as_deref(), Some("hello"));
    assert_eq!(r.truncated, Some(false));
    assert!(r.error.is_none());
    let r = fetched("https://e.com", None, "hello!".into(), 5);
    assert_eq!(r.content_md.as_deref(), Some("hello\n\n（内容已截断，来源：https://e.com）"));
    assert_eq!(r.truncated, Some(true));
    // Three characters of three bytes each are longer than five bytes, but
    // only as many characters are kept as there are.
    let r = fetched("https://e.com", None, "日本語".into(), 5);
    assert_eq!(r.truncated, Some(true));
    assert_eq!(r.content_md.as_deref(), Some("日本語\n\n（内容已截断，来源：https://e.com）"));
    let r = fetched("https://e.com", None, "日本語".into(), 2);
    assert_eq!(r.content_md.as_deref(), Some("日本\n\n（内容已截断，来源：https://e.com）"));
}

fn title_pattern() -> regex::Regex {
    regex::Regex::new(r"(?i)<title[^>]*>([^<]*)</title>").unwrap()
}

fn title_by_pattern(re: &regex::Regex, html: &str) -> Option<String> {
    re.captures(html).and_then(|c| c.get(1)).map(|m| m.as_str().trim().to_string())
}

#[test]
fn title_is_extracted() {
    assert_eq!(
        extract_title_from_html("<html><head><title>Hello</title></head></html>"),
        Some("Hello".to_string())
    );
    assert_eq!(extract_title_from_html("<TITLE lang=\"en\">\n  A  b \n</Title>"), Some("A  b".to_string()));
    assert_eq!(extract_title_from_html("<title></title>"), Some("".to_string()));
    assert_eq!(extract_title_from_html("no title here"), None);
    assert_eq!(extract_title_from_html("<title>a<b>c</title>"), None);
    assert_eq!(extract_title_from_html("<title>bad<b></title><title>good</title>"), Some("good".to_string()));
    assert_eq!(extract_title_from_html("<title<title>x</title>"), Some("x".to_string()));
    assert_eq!(extract_title_from_html("<titles>x</title>"), Some("x".to_string()));
    assert_eq!(extract_title_from_html("<title>x</title"), None);
    assert_eq!(extract_title_from_html(""), None);
}

#[test]
fn title_agrees_with_the_pattern() {
    let re = title_pattern();
    let pieces = ["<title", ">", "<", "</title>", "</TITLE>", "<TiTlE", " x ", "é", "/", "t"];
    // Every text of up to four pieces.
    let mut texts: Vec<String> = vec![String::new()];
    let mut layer: Vec<String> = vec![String::new()];
    for _ in 0..4 {
        let mut next = Vec::new();
        for t in &layer {
            for p in pieces {
                next.push(format!("{t}{p}"));
            }
        }
        texts.extend(next.iter().cloned());
        layer = next;
    }
    assert!(texts.len() > 10_000);
    for t in &texts {
        assert_eq!(extract_title_from_html(t), title_by_pattern(&re, t), "{t:?}");
    }
    for t in [
        "<html><head><meta charset=\"utf-8\"><title data-x='1'>  Page &amp; more </title></head>",
        "<svg><title>icon</title></svg><title>page</title>",
        "<TITLE>ÀÉÎ</TITLE>",
        "<title>\u{212a}</title>",
        "<\u{212a}></title><tit\u{131}e>x</title>",
        "<title>a</tit\u{131}e><title>b</title>",
    ] {
        assert_eq!(extract_title_from_html(t), title_by_pattern(&re, t), "{t:?}");
    }
}

#[test]
fn other_failures_are_worded() {
    assert_eq!(client_failed("u", "tls").error.unwrap(), "创建请求客户端失败：tls");
    assert_eq!(body_failed("u", "eof").error.unwrap(), "读取响应内容失败：eof");
    assert_eq!(wait_failed(true, "Timeout"), "抓取超时，请稍后重试");
    assert_eq!(wait_failed(false, "Disconnected"), "抓取异常：Disconnected");
}
