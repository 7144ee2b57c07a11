//! Fetching a web page: which addresses are fetched, how long and how much,
//! and how the outcome is worded.

use crate::text::{
    append_chars, begins_with, chars_of, contains_part, decimal, decimal_chars, has_part, least,
    lowercase, opt_string_view, opt_view, string_of, string_of_range, trim_chars, trimmed,
    unicode_lowercase,
};
use vstd::prelude::*;
use vstd::utf8::encode_utf8;

verus! {

/// How long a page is waited for where no time is asked for, in milliseconds.
pub const DEFAULT_TIMEOUT_MS: u64 = 15_000;

/// How long a page is waited for at most, in milliseconds.
pub const MAX_TIMEOUT_MS: u64 = 60_000;

/// How much longer than the timeout the caller waits for the fetch to give
/// up by itself, in milliseconds.
pub const GRACE_MS: u64 = 2_000;

/// How much of a page is kept where no limit is asked for.
pub const DEFAULT_MAX_CHARS: u32 = 120_000;

/// How much of a page is kept at most.
pub const MAX_MAX_CHARS: u32 = 300_000;

/// How the fetcher names itself.
pub const USER_AGENT: &'static str = "Mozilla/5.0 (compatible; Cove/1.0; +https://github.com)";

/// Which page to fetch.
#[derive(Debug)]
pub struct FetchUrlArgs {
    pub url: String,
    pub timeout_ms: Option<u64>,
    pub max_chars: Option<u32>,
}

/// A page that was fetched, or why it was not.
#[derive(Debug)]
pub struct FetchUrlResult {
    pub ok: bool,
    pub title: Option<String>,
    pub content_md: Option<String>,
    pub truncated: Option<bool>,
    pub error: Option<String>,
    /// The address, trimmed.
    pub source: String,
}

/// The mathematical content of a [`FetchUrlResult`].
pub struct FetchView {
    pub ok: bool,
    pub title: Option<Seq<char>>,
    pub content_md: Option<Seq<char>>,
    pub truncated: Option<bool>,
    pub error: Option<Seq<char>>,
    pub source: Seq<char>,
}

impl View for FetchUrlResult {
    type V = FetchView;

    open spec fn view(&self) -> FetchView {
        FetchView {
            ok: self.ok,
            title: opt_string_view(self.title),
            content_md: opt_string_view(self.content_md),
            truncated: self.truncated,
            error: opt_string_view(self.error),
            source: self.source@,
        }
    }
}

/// A fetch that failed, with its reason.
pub open spec fn failure(source: Seq<char>, error: Seq<char>) -> FetchView {
    FetchView {
        ok: false,
        title: None,
        content_md: None,
        truncated: None,
        error: Some(error),
        source,
    }
}

/// Whether the address is one of a video page of YouTube: in lower case, it
/// holds `youtube.com` or `youtu.be`.
pub open spec fn is_youtube(url: Seq<char>) -> bool {
    has_part(unicode_lowercase(url), "youtube.com"@) || has_part(
        unicode_lowercase(url),
        "youtu.be"@,
    )
}

/// Why the address is not fetched, if it is not: it is no web address, or it
/// is one of YouTube.
pub open spec fn refusal(url: Seq<char>) -> Option<Seq<char>> {
    if !"http://"@.is_prefix_of(url) && !"https://"@.is_prefix_of(url) {
        Some("无效 URL：须以 http:// 或 https:// 开头"@)
    } else if is_youtube(url) {
        Some("暂不支持 YouTube 字幕抓取，请使用普通网页链接"@)
    } else {
        None
    }
}

/// How a request that failed is worded, from the client's message: a
/// timeout, if the message speaks of one, else the message itself.
pub open spec fn request_failure_text(message: Seq<char>) -> Seq<char> {
    if has_part(message, "timed out"@) || has_part(message, "timeout"@) {
        "请求超时，请稍后重试"@
    } else {
        "请求失败："@ + message
    }
}

/// How a response that is no success is worded, from its status code and
/// the usual name of the code, where it has one.
pub open spec fn status_failure_text(code: u16, reason: Option<Seq<char>>) -> Seq<char> {
    if code == 403 {
        "禁止访问（403）"@
    } else if code == 404 {
        "页面不存在（404）"@
    } else if code == 429 {
        "请求过于频繁（429），请稍后重试"@
    } else {
        "HTTP "@ + decimal(code as nat) + " "@ + (match reason {
            Some(r) => r,
            None => Seq::empty(),
        })
    }
}

/// Whether a page is cut: it is longer, in bytes, than `max_chars`.
pub open spec fn is_cut(content: Seq<char>, max_chars: u32) -> bool {
    encode_utf8(content).len() > max_chars
}

/// The page as it is kept: in full, or its first `max_chars` characters and
/// a note that names the address.
pub open spec fn kept_content(content: Seq<char>, max_chars: u32, url: Seq<char>) -> Seq<char> {
    if is_cut(content, max_chars) {
        content.take(least(max_chars as int, content.len() as int)) + "\n\n（内容已截断，来源："@
            + url + "）"@
    } else {
        content
    }
}

/// A fetch that worked.
pub open spec fn success(
    url: Seq<char>,
    title: Option<Seq<char>>,
    content: Seq<char>,
    max_chars: u32,
) -> FetchView {
    FetchView {
        ok: true,
        title,
        content_md: Some(kept_content(content, max_chars, url)),
        truncated: Some(is_cut(content, max_chars)),
        error: None,
        source: url,
    }
}

/// How long a page is waited for and how much of it is kept: what is asked
/// for, or the defaults, and never more than the maxima.
pub fn fetch_limits(args: &FetchUrlArgs) -> (limits: (u64, u32))
    ensures
        limits.0 == least(
            match args.timeout_ms {
                Some(ms) => ms as int,
                None => DEFAULT_TIMEOUT_MS as int,
            },
            MAX_TIMEOUT_MS as int,
        ),
        limits.1 == least(
            match args.max_chars {
                Some(n) => n as int,
                None => DEFAULT_MAX_CHARS as int,
            },
            MAX_MAX_CHARS as int,
        ),
{
    let timeout = match args.timeout_ms {
        Some(ms) => ms,
        None => DEFAULT_TIMEOUT_MS,
    };
    let chars = match args.max_chars {
        Some(n) => n,
        None => DEFAULT_MAX_CHARS,
    };
    (
        if timeout <= MAX_TIMEOUT_MS {
            timeout
        } else {
            MAX_TIMEOUT_MS
        },
        if chars <= MAX_MAX_CHARS {
            chars
        } else {
            MAX_MAX_CHARS
        },
    )
}

/// How long the caller waits for the fetch to answer: its timeout, and a
/// little longer.
pub fn wait_ms(args: &FetchUrlArgs) -> (ms: u64)
    ensures
        ms == least(
            match args.timeout_ms {
                Some(ms) => ms as int,
                None => DEFAULT_TIMEOUT_MS as int,
            },
            MAX_TIMEOUT_MS as int,
        ) + GRACE_MS,
{
    fetch_limits(args).0 + GRACE_MS
}

/// Whether the address is one of YouTube.
pub fn is_youtube_url(url: &str) -> (yes: bool)
    ensures
        yes == is_youtube(url@),
{
    let lower = chars_of(lowercase(url).as_str());
    contains_part(&lower, &chars_of("youtube.com")) || contains_part(&lower, &chars_of("youtu.be"))
}

/// A fetch that failed.
fn failed(source: &str, error: String) -> (result: FetchUrlResult)
    ensures
        result@ == failure(source@, error@),
{
    FetchUrlResult {
        ok: false,
        title: None,
        content_md: None,
        truncated: None,
        error: Some(error),
        source: source.to_string(),
    }
}

/// The address as it is fetched: trimmed.
pub fn fetch_source(url: &str) -> (source: String)
    ensures
        source@ == trimmed(url@),
{
    string_of(&trim_chars(&chars_of(url)))
}

/// Looks at an address before anything is sent. Returns the failure to
/// report, or `None` for an address that is fetched.
pub fn check_url(source: &str) -> (result: Option<FetchUrlResult>)
    ensures
        match refusal(source@) {
            Some(error) => result matches Some(r) && r@ == failure(source@, error),
            None => result is None,
        },
{
    let chars = chars_of(source);
    if !begins_with(&chars, &chars_of("http://")) && !begins_with(&chars, &chars_of("https://")) {
        return Some(failed(source, "无效 URL：须以 http:// 或 https:// 开头".to_string()));
    }
    if is_youtube_url(source) {
        return Some(failed(source, "暂不支持 YouTube 字幕抓取，请使用普通网页链接".to_string()));
    }
    None
}

/// The failure to report when the request could not be made or got no
/// answer; `message` is what the client says of it.
pub fn request_failed(source: &str, message: &str) -> (result: FetchUrlResult)
    ensures
        result@ == failure(source@, request_failure_text(message@)),
{
    let chars = chars_of(message);
    if contains_part(&chars, &chars_of("timed out")) || contains_part(&chars, &chars_of("timeout")) {
        failed(source, "请求超时，请稍后重试".to_string())
    } else {
        let mut error = "请求失败：".to_string();
        error.append(message);
        failed(source, error)
    }
}

/// The failure to report for a response that is no success; `reason` is
/// the usual name of the status code.
pub fn status_failed(source: &str, code: u16, reason: Option<&str>) -> (result: FetchUrlResult)
    ensures
        result@ == failure(source@, status_failure_text(code, opt_view(reason))),
{
    if code == 403 {
        failed(source, "禁止访问（403）".to_string())
    } else if code == 404 {
        failed(source, "页面不存在（404）".to_string())
    } else if code == 429 {
        failed(source, "请求过于频繁（429），请稍后重试".to_string())
    } else {
        let mut error = "HTTP ".to_string();
        append_chars(&mut error, &decimal_chars(code as u128));
        error.append(" ");
        match reason {
            Some(r) => {
                error.append(r);
            },
            None => {
                assert(error@ + Seq::<char>::empty() =~= error@);
            },
        }
        failed(source, error)
    }
}

/// The page that was fetched, as it is reported: its title, and its text cut
/// to `max_chars`.
pub fn fetched(source: &str, title: Option<String>, content_md: String, max_chars: u32) -> (result:
    FetchUrlResult)
    ensures
        result@ == success(source@, opt_string_view(title), content_md@, max_chars),
{
    let truncated = content_md.as_str().as_bytes().len() > max_chars as usize;
    let content = if truncated {
        let chars = chars_of(content_md.as_str());
        let keep: usize = if max_chars as usize <= chars.len() {
            max_chars as usize
        } else {
            chars.len()
        };
        let mut cut = string_of_range(&chars, 0, keep);
        assert(chars@.subrange(0, keep as int) == content_md@.take(keep as int));
        cut.append("\n\n（内容已截断，来源：");
        cut.append(source);
        cut.append("）");
        cut
    } else {
        content_md
    };
    FetchUrlResult {
        ok: true,
        title,
        content_md: Some(content),
        truncated: Some(truncated),
        error: None,
        source: source.to_string(),
    }
}

/// Whether `s` holds `word` at `at`, ASCII capitals aside. `word` is in
/// lower case.
pub open spec fn holds_word(s: Seq<char>, word: Seq<char>, at: int) -> bool {
    0 <= at && at + word.len() <= s.len() && crate::text::ascii_lowercase(
        s.subrange(at, at + word.len()),
    ) == word
}

/// Where `c` first stands in `s` at or after `from`; the length of `s` if it
/// does not.
pub open spec fn next_at(s: Seq<char>, c: char, from: int) -> int
    decreases s.len() - from,
{
    if from < 0 || from >= s.len() {
        s.len() as int
    } else if s[from] == c {
        from
    } else {
        next_at(s, c, from + 1)
    }
}

/// The title that starts at `at`, if one does: `<title`, anything up to the
/// next `>`, the title up to the next `<`, and there `</title>`. The tags may
/// be written in capitals; the title comes trimmed.
pub open spec fn title_at(s: Seq<char>, at: int) -> Option<Seq<char>> {
    let close = next_at(s, '>', at + 6);
    let open = next_at(s, '<', close + 1);
    if holds_word(s, "<title"@, at) && close < s.len() && open < s.len() && holds_word(
        s,
        "</title>"@,
        open,
    ) {
        Some(trimmed(s.subrange(close + 1, open)))
    } else {
        None
    }
}

/// The first title at or after `from`.
pub open spec fn first_title(s: Seq<char>, from: int) -> Option<Seq<char>>
    decreases s.len() - from,
{
    if from < 0 || from >= s.len() {
        None
    } else {
        match title_at(s, from) {
            Some(title) => Some(title),
            None => first_title(s, from + 1),
        }
    }
}

/// Where `c` first stands at or after `from`.
fn find_next(s: &Vec<char>, c: char, from: usize) -> (at: usize)
    ensures
        at == next_at(s@, c, from as int),
        from <= at || at == s.len(),
        at <= s.len(),
{
    let mut i: usize = from;
    while i < s.len() && s[i] != c
        invariant
            next_at(s@, c, from as int) == next_at(s@, c, i as int),
            from <= i,
        decreases s.len() - i,
    {
        i += 1;
    }
    if i >= s.len() {
        s.len()
    } else {
        i
    }
}

/// Whether `s` holds `word` at `at`, ASCII capitals aside.
fn word_at(s: &Vec<char>, word: &str, at: usize) -> (yes: bool)
    ensures
        yes == holds_word(s@, word@, at as int),
{
    let w = chars_of(word);
    if w.len() > s.len() || at > s.len() - w.len() {
        return false;
    }
    let part = crate::text::slice_chars(s, at, at + w.len());
    let lower = crate::text::lowercase_chars(&part);
    crate::paths::same_chars(&lower, &w)
}

/// The title of a page: what stands in its first `title` element, trimmed.
pub fn extract_title_from_html(html: &str) -> (title: Option<String>)
    ensures
        opt_string_view(title) == first_title(html@, 0),
{
    let s = chars_of(html);
    let mut i: usize = 0;
    while i < s.len()
        invariant
            s@ == html@,
            first_title(html@, 0) == first_title(html@, i as int),
        decreases s.len() - i,
    {
        if word_at(&s, "<title", i) {
            proof {
                reveal_strlit("<title");
                reveal_strlit("</title>");
            }
            let close = find_next(&s, '>', i + 6);
            if close < s.len() {
                let open = find_next(&s, '<', close + 1);
                if open < s.len() && word_at(&s, "</title>", open) {
                    let inner = crate::text::slice_chars(&s, close + 1, open);
                    return Some(string_of(&trim_chars(&inner)));
                }
            }
        }
        i += 1;
    }
    None
}

/// The failure to report when the client could not be made; `message` is
/// what went wrong.
pub fn client_failed(source: &str, message: &str) -> (result: FetchUrlResult)
    ensures
        result@ == failure(source@, "创建请求客户端失败："@ + message@),
{
    let mut error = "创建请求客户端失败：".to_string();
    error.append(message);
    failed(source, error)
}

/// The failure to report when the body of the response could not be read;
/// `message` is what went wrong.
pub fn body_failed(source: &str, message: &str) -> (result: FetchUrlResult)
    ensures
        result@ == failure(source@, "读取响应内容失败："@ + message@),
{
    let mut error = "读取响应内容失败：".to_string();
    error.append(message);
    failed(source, error)
}

/// The complaint of a caller whose wait for the fetch ended without an
/// answer: that the fetch timed out, or, where the fetch gave up otherwise,
/// how.
pub fn wait_failed(timed_out: bool, detail: &str) -> (complaint: String)
    ensures
        complaint@ == (if timed_out {
            "抓取超时，请稍后重试"@
        } else {
            "抓取异常："@ + detail@
        }),
{
    if timed_out {
        "抓取超时，请稍后重试".to_string()
    } else {
        let mut complaint = "抓取异常：".to_string();
        complaint.append(detail);
        complaint
    }
}

} // verus!
