//! Names of attachment files: made safe, made unique, and read for what the
//! file holds.

use crate::fs_commands::detection::mime_view;
use crate::paths::{extension, find_last_dot, last_dot, path_extension};
use crate::text::{
    append_chars, ascii_lowercase, chars_are, chars_of, decimal, decimal_chars, list_has, lowercase_chars,
    string_of, string_of_range, strs, trim_chars, trimmed,
};
use vstd::prelude::*;
use vstd::string::StrSliceExecFns;

verus! {

/// Whether the character may not stand in a file name.
pub open spec fn is_unsafe_char(c: char) -> bool {
    c == '/' || c == '\\' || c == ':' || c == '*' || c == '?' || c == '"' || c == '<' || c == '>'
        || c == '|'
}

/// `name` with an underscore for each character that may not stand in a file
/// name.
pub open spec fn sanitized(name: Seq<char>) -> Seq<char> {
    name.map_values(
        |c: char|
            if is_unsafe_char(c) {
                '_'
            } else {
                c
            },
    )
}

/// The safe form of a file name: sanitised and trimmed, or `attachment` where
/// nothing is left.
pub open spec fn safe_name(name: Seq<char>) -> Seq<char> {
    if trimmed(sanitized(name)).len() == 0 {
        "attachment"@
    } else {
        trimmed(sanitized(name))
    }
}

/// Whether the file name has a stem and an extension: a last dot with
/// something before it and something after it.
pub open spec fn has_stem_and_ext(file_name: Seq<char>) -> bool {
    0 < last_dot(file_name) && last_dot(file_name) + 1 < file_name.len()
}

/// The stem of a file name: what stands before its last dot, or all of it
/// where it has no stem and extension.
pub open spec fn stem(file_name: Seq<char>) -> Seq<char> {
    if has_stem_and_ext(file_name) {
        file_name.take(last_dot(file_name))
    } else {
        file_name
    }
}

/// The extension of a file name: what stands after its last dot, where it
/// has a stem and an extension.
pub open spec fn ext(file_name: Seq<char>) -> Option<Seq<char>> {
    if has_stem_and_ext(file_name) {
        Some(file_name.skip(last_dot(file_name) + 1))
    } else {
        None
    }
}

/// The file name with the time stamp behind its stem.
pub open spec fn unique_name(file_name: Seq<char>, now_ms: nat) -> Seq<char> {
    match ext(file_name) {
        Some(e) => stem(file_name) + "_"@ + decimal(now_ms) + "."@ + e,
        None => stem(file_name) + "_"@ + decimal(now_ms),
    }
}

/// The extension of a file name with its ASCII capitals in lower case.
pub open spec fn lower_ext(file_name: Seq<char>) -> Option<Seq<char>> {
    match ext(file_name) {
        Some(e) => Some(ascii_lowercase(e)),
        None => None,
    }
}

/// The MIME type of an image with the given extension in lower case.
pub open spec fn image_mime(e: Option<Seq<char>>) -> Option<Seq<char>> {
    match e {
        Some(e) => if e == "png"@ {
            Some("image/png"@)
        } else if e == "jpg"@ || e == "jpeg"@ {
            Some("image/jpeg"@)
        } else if e == "gif"@ {
            Some("image/gif"@)
        } else if e == "webp"@ {
            Some("image/webp"@)
        } else {
            None
        },
        None => None,
    }
}

/// The extensions of files that are read as text.
pub open spec fn text_like_extensions() -> Seq<Seq<char>> {
    seq![
        "txt"@,
        "md"@,
        "qmd"@,
        "json"@,
        "csv"@,
        "ts"@,
        "tsx"@,
        "js"@,
        "jsx"@,
        "py"@,
        "rs"@,
        "go"@,
        "java"@,
        "c"@,
        "cpp"@,
        "h"@,
        "html"@,
        "css"@,
        "scss"@,
        "less"@,
        "xml"@,
        "yaml"@,
        "yml"@,
        "toml"@,
        "ini"@,
        "sh"@,
        "bash"@,
        "zsh"@,
        "fish"@,
        "ps1"@,
    ]
}

/// The note that follows a text that was cut: how long it was and how much
/// of it is kept.
pub open spec fn truncation_note(total: nat, kept: nat) -> Seq<char> {
    "\n\n[内容已截断：原始文本长度约 "@ + decimal(total) + " 字符，当前保留 "@ + decimal(kept)
        + " 字符]"@
}

/// The text cut to `max_chars` characters, with the note, if it is longer;
/// the text itself otherwise.
pub open spec fn truncated_text(text: Seq<char>, max_chars: nat) -> (Seq<char>, bool) {
    if text.len() <= max_chars {
        (text, false)
    } else {
        (text.take(max_chars as int) + truncation_note(text.len(), max_chars), true)
    }
}

/// The safe form of a file name.
pub fn safe_file_name(name: &str) -> (out: String)
    ensures
        out@ == safe_name(name@),
{
    let chars = chars_of(name);
    let mut clean: Vec<char> = Vec::new();
    let mut i: usize = 0;
    while i < chars.len()
        invariant
            i <= chars.len(),
            clean@ == sanitized(chars@.take(i as int)),
        decreases chars.len() - i,
    {
        let c = chars[i];
        let bad = c == '/' || c == '\\' || c == ':' || c == '*' || c == '?' || c == '"' || c == '<'
            || c == '>' || c == '|';
        clean.push(
            if bad {
                '_'
            } else {
                c
            },
        );
        assert(clean@ =~= sanitized(chars@.take(i + 1)));
        i += 1;
    }
    assert(chars@.take(chars.len() as int) == chars@);
    let kept = trim_chars(&clean);
    if kept.len() == 0 {
        "attachment".to_string()
    } else {
        string_of(&kept)
    }
}

/// The view of a stem and an optional extension.
pub open spec fn split_view(parts: (&str, Option<&str>)) -> (Seq<char>, Option<Seq<char>>) {
    (
        parts.0@,
        match parts.1 {
            Some(e) => Some(e@),
            None => None,
        },
    )
}

/// The stem and the extension of a file name. A name without a dot, or with
/// nothing before or nothing after its last dot, is all stem.
pub fn split_name_ext(file_name: &str) -> (parts: (&str, Option<&str>))
    ensures
        split_view(parts) == (stem(file_name@), ext(file_name@)),
{
    let chars = chars_of(file_name);
    match find_last_dot(&chars) {
        Some(dot) => {
            if dot > 0 && dot + 1 < chars.len() {
                let name = file_name.substring_char(0, dot);
                let e = file_name.substring_char(dot + 1, chars.len());
                assert(name@ =~= file_name@.take(dot as int));
                assert(e@ =~= file_name@.skip(dot + 1));
                (name, Some(e))
            } else {
                (file_name, None)
            }
        },
        None => (file_name, None),
    }
}

/// The file name with the time `now_ms`, in milliseconds, behind its stem, so
/// that two files saved under one name at different times do not collide.
pub fn unique_file_name(file_name: &str, now_ms: u128) -> (out: String)
    ensures
        out@ == unique_name(file_name@, now_ms as nat),
{
    let (name, e) = split_name_ext(file_name);
    let stamp = decimal_chars(now_ms);
    let mut out = name.to_string();
    out.append("_");
    append_chars(&mut out, &stamp);
    match e {
        Some(e) => {
            out.append(".");
            out.append(e);
            out
        },
        None => out,
    }
}

/// The extension of a file name in lower case, if it has one.
fn lower_ext_of(file_name: &str) -> (out: Option<Vec<char>>)
    ensures
        match out {
            Some(e) => lower_ext(file_name@) == Some(e@),
            None => lower_ext(file_name@) is None,
        },
{
    let (_, e) = split_name_ext(file_name);
    match e {
        Some(e) => Some(lowercase_chars(&chars_of(e))),
        None => None,
    }
}

/// The MIME type of the image that the file name's extension stands for,
/// capitals aside; `None` for any other file.
pub fn guess_image_mime_by_ext(file_name: &str) -> (mime: Option<&'static str>)
    ensures
        mime_view(mime) == image_mime(lower_ext(file_name@)),
{
    match lower_ext_of(file_name) {
        None => None,
        Some(e) => {
            if chars_are(&e, "png") {
                Some("image/png")
            } else if chars_are(&e, "jpg") || chars_are(&e, "jpeg") {
                Some("image/jpeg")
            } else if chars_are(&e, "gif") {
                Some("image/gif")
            } else if chars_are(&e, "webp") {
                Some("image/webp")
            } else {
                None
            }
        },
    }
}

/// Whether the file name's extension, capitals aside, is one of a text file.
pub fn is_text_like_extension(file_name: &str) -> (text: bool)
    ensures
        text == (match lower_ext(file_name@) {
            Some(e) => text_like_extensions().contains(e),
            None => false,
        }),
{
    let list = vec![
        "txt", "md", "qmd", "json", "csv", "ts", "tsx", "js", "jsx", "py", "rs", "go", "java", "c",
        "cpp", "h", "html", "css", "scss", "less", "xml", "yaml", "yml", "toml", "ini", "sh",
        "bash", "zsh", "fish", "ps1",
    ];
    assert(strs(list@) =~= text_like_extensions());
    match lower_ext_of(file_name) {
        Some(e) => list_has(&list, &e),
        None => false,
    }
}

/// The extension of the entry the path ends in, with its ASCII capitals in
/// lower case; empty where there is none.
pub fn get_extension(path: &str) -> (out: String)
    ensures
        out@ == (match extension(path@) {
            Some(e) => ascii_lowercase(e),
            None => Seq::empty(),
        }),
{
    match path_extension(path) {
        Some(e) => string_of(&lowercase_chars(&e)),
        None => String::new(),
    }
}

/// The text cut to `max_chars` characters and followed by a note, and `true`,
/// if it is longer than that; the text itself and `false` otherwise.
pub fn truncate_text_by_chars(text: String, max_chars: usize) -> (out: (String, bool))
    ensures
        (out.0@, out.1) == truncated_text(text@, max_chars as nat),
{
    let chars = chars_of(text.as_str());
    let total = chars.len();
    if total <= max_chars {
        return (text, false);
    }
    let mut out = string_of_range(&chars, 0, max_chars);
    assert(chars@.subrange(0, max_chars as int) == text@.take(max_chars as int));
    out.append("\n\n[内容已截断：原始文本长度约 ");
    append_chars(&mut out, &decimal_chars(total as u128));
    out.append(" 字符，当前保留 ");
    append_chars(&mut out, &decimal_chars(max_chars as u128));
    out.append(" 字符]");
    (out, true)
}

} // verus!
