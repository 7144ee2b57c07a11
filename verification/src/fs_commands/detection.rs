//! What a file is taken to hold: binary or text, and which MIME type.

use crate::paths::{extension, path_extension};
use crate::text::{ascii_lowercase, chars_are, chars_of, list_has, lowercase_chars, strs};
use vstd::prelude::*;
use vstd::utf8::{decode_utf8, valid_utf8};

verus! {

/// The largest file that is read as text, in bytes.
pub const READ_MAX_BYTES: u64 = 256_000;

/// The largest file that is read into a data URL, in bytes.
pub const READ_DATA_URL_MAX_BYTES: u64 = 26_214_400;

/// The longest line that is shown in full, in characters.
pub const LINE_MAX_CHARS: usize = 2000;

/// How many bytes of a file are looked at to tell binary from text.
pub const SNIFF_BYTES: usize = 8192;

/// The extensions of files that are binary whatever they hold.
pub open spec fn binary_extensions() -> Seq<Seq<char>> {
    seq![
        "exe"@,
        "dll"@,
        "so"@,
        "dylib"@,
        "bin"@,
        "pyc"@,
        "pyo"@,
        "zip"@,
        "tar"@,
        "gz"@,
        "xz"@,
        "z"@,
        "bz2"@,
        "7z"@,
        "rar"@,
        "png"@,
        "jpg"@,
        "jpeg"@,
        "gif"@,
        "webp"@,
        "ico"@,
        "bmp"@,
        "pdf"@,
        "woff"@,
        "woff2"@,
        "ttf"@,
        "otf"@,
        "mp3"@,
        "wav"@,
        "ogg"@,
        "mp4"@,
        "webm"@,
        "mov"@,
        "avi"@,
        "mkv"@,
    ]
}

/// The extensions of files that are text whatever they hold.
pub open spec fn text_extensions() -> Seq<Seq<char>> {
    seq![
        "txt"@,
        "md"@,
        "qmd"@,
        "markdown"@,
        "csv"@,
        "json"@,
        "yaml"@,
        "yml"@,
        "toml"@,
        "ini"@,
        "xml"@,
        "html"@,
        "htm"@,
        "css"@,
        "scss"@,
        "less"@,
        "js"@,
        "jsx"@,
        "ts"@,
        "tsx"@,
        "mjs"@,
        "cjs"@,
        "py"@,
        "rs"@,
        "go"@,
        "java"@,
        "c"@,
        "cpp"@,
        "h"@,
        "sh"@,
        "bash"@,
        "zsh"@,
        "fish"@,
        "ps1"@,
        "sql"@,
        "graphql"@,
        "vue"@,
        "svelte"@,
        "log"@,
        "cfg"@,
        "conf"@,
        "env"@,
    ]
}

/// Whether the path has an extension that, capitals aside, is in `list`.
pub open spec fn has_extension_in(p: Seq<char>, list: Seq<Seq<char>>) -> bool {
    match extension(p) {
        Some(e) => list.contains(ascii_lowercase(e)),
        None => false,
    }
}

/// Whether the path's extension, capitals aside, is among `list`.
fn extension_in(p: &str, list: Vec<&'static str>) -> (found: bool)
    ensures
        found == has_extension_in(p@, strs(list@)),
{
    match path_extension(p) {
        Some(e) => {
            let lower = lowercase_chars(&e);
            list_has(&list, &lower)
        },
        None => false,
    }
}

/// Whether the path's extension marks a binary file.
pub fn path_has_binary_extension(p: &str) -> (binary: bool)
    ensures
        binary == has_extension_in(p@, binary_extensions()),
{
    let list = vec![
        "exe", "dll", "so", "dylib", "bin", "pyc", "pyo", "zip", "tar", "gz", "xz", "z", "bz2",
        "7z", "rar", "png", "jpg", "jpeg", "gif", "webp", "ico", "bmp", "pdf", "woff", "woff2",
        "ttf", "otf", "mp3", "wav", "ogg", "mp4", "webm", "mov", "avi", "mkv",
    ];
    assert(strs(list@) =~= binary_extensions());
    extension_in(p, list)
}

/// Whether the path's extension marks a text file.
pub fn path_has_text_extension(p: &str) -> (text: bool)
    ensures
        text == has_extension_in(p@, text_extensions()),
{
    let list = vec![
        "txt", "md", "qmd", "markdown", "csv", "json", "yaml", "yml", "toml", "ini", "xml", "html",
        "htm", "css", "scss", "less", "js", "jsx", "ts", "tsx", "mjs", "cjs", "py", "rs", "go",
        "java", "c", "cpp", "h", "sh", "bash", "zsh", "fish", "ps1", "sql", "graphql", "vue",
        "svelte", "log", "cfg", "conf", "env",
    ];
    assert(strs(list@) =~= text_extensions());
    extension_in(p, list)
}

/// Whether the character is a control character: one of the first 32, or one
/// of the 33 from DEL on.
pub open spec fn is_control(c: char) -> bool {
    c <= '\u{1f}' || ('\u{7f}' <= c && c <= '\u{9f}')
}

/// Whether the character counts as printable: not a control character, or a
/// newline, carriage return or tab.
pub open spec fn is_printable(c: char) -> bool {
    !is_control(c) || c == '\n' || c == '\r' || c == '\t'
}

/// How many characters of `s` are printable.
pub open spec fn printable_count(s: Seq<char>) -> nat
    decreases s.len(),
{
    if s.len() == 0 {
        0
    } else {
        printable_count(s.drop_last()) + (if is_printable(s.last()) {
            1nat
        } else {
            0nat
        })
    }
}

/// Whether the bytes are binary: there are some, and they are not UTF-8 or
/// less than 70 in 100 of their characters are printable.
pub open spec fn binary_content(bytes: Seq<u8>) -> bool {
    bytes.len() > 0 && (!valid_utf8(bytes) || {
        let chars = decode_utf8(bytes);
        let total = if chars.len() == 0 {
            1
        } else {
            chars.len() as int
        };
        (printable_count(chars) as int) * 100 / total < 70
    })
}

/// `std::str::from_utf8`: the text that the bytes encode, if they are valid
/// UTF-8.
#[verifier::external_body]
fn decode(bytes: &[u8]) -> (text: Option<String>)
    ensures
        match text {
            Some(t) => valid_utf8(bytes@) && t@ == decode_utf8(bytes@),
            None => !valid_utf8(bytes@),
        },
{
    std::str::from_utf8(bytes).ok().map(|s| s.to_string())
}

/// Whether the character counts as printable.
fn printable(c: char) -> (yes: bool)
    ensures
        yes == is_printable(c),
{
    let control = c <= '\u{1f}' || ('\u{7f}' <= c && c <= '\u{9f}');
    !control || c == '\n' || c == '\r' || c == '\t'
}

proof fn lemma_printable_count_bound(s: Seq<char>)
    ensures
        printable_count(s) <= s.len(),
    decreases s.len(),
{
    if s.len() > 0 {
        lemma_printable_count_bound(s.drop_last());
    }
}

proof fn lemma_share_below(part: int, total: int)
    requires
        0 <= part,
        0 < total,
    ensures
        (part * 100 / total < 70) == (part * 100 < 70 * total),
{
    assert((part * 100 / total < 70) == (part * 100 < 70 * total)) by (nonlinear_arith)
        requires
            0 <= part,
            0 < total,
    ;
}

/// Whether the first bytes of a file, `head`, show it to be binary.
pub fn is_binary_content(head: &[u8]) -> (binary: bool)
    ensures
        binary == binary_content(head@),
{
    if head.len() == 0 {
        return false;
    }
    match decode(head) {
        None => true,
        Some(text) => {
            let chars = chars_of(text.as_str());
            let mut printable_chars: usize = 0;
            let mut i: usize = 0;
            while i < chars.len()
                invariant
                    i <= chars.len(),
                    printable_chars == printable_count(chars@.take(i as int)),
                    printable_chars <= i,
                decreases chars.len() - i,
            {
                proof {
                    assert(chars@.take(i + 1).drop_last() == chars@.take(i as int));
                }
                if printable(chars[i]) {
                    printable_chars += 1;
                }
                i += 1;
            }
            assert(chars@.take(chars.len() as int) == chars@);
            let total: usize = if chars.len() == 0 {
                1
            } else {
                chars.len()
            };
            proof {
                lemma_share_below(printable_chars as int, total as int);
            }
            (printable_chars as u128) * 100 < 70 * (total as u128)
        },
    }
}

/// Whether `bytes` starts with `magic`.
pub open spec fn has_magic(bytes: Seq<u8>, magic: Seq<u8>) -> bool {
    magic.is_prefix_of(bytes)
}

/// The MIME type that the first bytes of a file give away, if they are at
/// least 12 and start like a PNG, JPEG, GIF, WebP, PDF or ZIP file.
pub open spec fn mime_of_magic(bytes: Seq<u8>) -> Option<Seq<char>> {
    if bytes.len() < 12 {
        None
    } else if has_magic(bytes, seq![0x89u8, 0x50, 0x4E, 0x47, 0x0D, 0x0A, 0x1A, 0x0A]) {
        Some("image/png"@)
    } else if has_magic(bytes, seq![0xFFu8, 0xD8, 0xFF]) {
        Some("image/jpeg"@)
    } else if has_magic(bytes, seq![0x47u8, 0x49, 0x46, 0x38, 0x37, 0x61]) || has_magic(
        bytes,
        seq![0x47u8, 0x49, 0x46, 0x38, 0x39, 0x61],
    ) {
        Some("image/gif"@)
    } else if has_magic(bytes, seq![0x52u8, 0x49, 0x46, 0x46]) && bytes.subrange(8, 12) == seq![
        0x57u8,
        0x45,
        0x42,
        0x50,
    ] {
        Some("image/webp"@)
    } else if has_magic(bytes, seq![0x25u8, 0x50, 0x44, 0x46]) {
        Some("application/pdf"@)
    } else if has_magic(bytes, seq![0x50u8, 0x4B]) && (bytes[2] == 0x03 || bytes[2] == 0x05) {
        Some("application/zip"@)
    } else {
        None
    }
}

/// The view of an optional string slice.
pub open spec fn mime_view(m: Option<&'static str>) -> Option<Seq<char>> {
    match m {
        Some(s) => Some(s@),
        None => None,
    }
}

/// The MIME type that the first bytes of a file give away.
pub fn mime_from_magic(bytes: &[u8]) -> (mime: Option<&'static str>)
    ensures
        mime_view(mime) == mime_of_magic(bytes@),
{
    if bytes.len() < 12 {
        return None;
    }
    let b = bytes;
    if b[0] == 0x89 && b[1] == 0x50 && b[2] == 0x4E && b[3] == 0x47 && b[4] == 0x0D && b[5] == 0x0A
        && b[6] == 0x1A && b[7] == 0x0A {
        assert(has_magic(b@, seq![0x89u8, 0x50, 0x4E, 0x47, 0x0D, 0x0A, 0x1A, 0x0A]));
        return Some("image/png");
    }
    assert(!has_magic(b@, seq![0x89u8, 0x50, 0x4E, 0x47, 0x0D, 0x0A, 0x1A, 0x0A])) by {
        let m = seq![0x89u8, 0x50, 0x4E, 0x47, 0x0D, 0x0A, 0x1A, 0x0A];
        if has_magic(b@, m) {
            assert(forall|k: int| 0 <= k < 8 ==> m[k] == b@.subrange(0, 8)[k]);
            assert(m[0] == b@[0] && m[1] == b@[1] && m[2] == b@[2] && m[3] == b@[3] && m[4]
                == b@[4] && m[5] == b@[5] && m[6] == b@[6] && m[7] == b@[7]);
        }
    }
    if b[0] == 0xFF && b[1] == 0xD8 && b[2] == 0xFF {
        assert(has_magic(b@, seq![0xFFu8, 0xD8, 0xFF]));
        return Some("image/jpeg");
    }
    assert(!has_magic(b@, seq![0xFFu8, 0xD8, 0xFF])) by {
        let m = seq![0xFFu8, 0xD8, 0xFF];
        if has_magic(b@, m) {
            assert(m[0] == b@.subrange(0, 3)[0] && m[1] == b@.subrange(0, 3)[1] && m[2]
                == b@.subrange(0, 3)[2]);
        }
    }
    let gif = b[0] == 0x47 && b[1] == 0x49 && b[2] == 0x46 && b[3] == 0x38 && b[5] == 0x61;
    if gif && (b[4] == 0x37 || b[4] == 0x39) {
        if b[4] == 0x37 {
            assert(has_magic(b@, seq![0x47u8, 0x49, 0x46, 0x38, 0x37, 0x61]));
        } else {
            assert(has_magic(b@, seq![0x47u8, 0x49, 0x46, 0x38, 0x39, 0x61]));
        }
        return Some("image/gif");
    }
    assert(!has_magic(b@, seq![0x47u8, 0x49, 0x46, 0x38, 0x37, 0x61])) by {
        let m = seq![0x47u8, 0x49, 0x46, 0x38, 0x37, 0x61];
        if has_magic(b@, m) {
            let h = b@.subrange(0, 6);
            assert(m[0] == h[0] && m[1] == h[1] && m[2] == h[2] && m[3] == h[3] && m[4] == h[4]
                && m[5] == h[5]);
        }
    }
    assert(!has_magic(b@, seq![0x47u8, 0x49, 0x46, 0x38, 0x39, 0x61])) by {
        let m = seq![0x47u8, 0x49, 0x46, 0x38, 0x39, 0x61];
        if has_magic(b@, m) {
            let h = b@.subrange(0, 6);
            assert(m[0] == h[0] && m[1] == h[1] && m[2] == h[2] && m[3] == h[3] && m[4] == h[4]
                && m[5] == h[5]);
        }
    }
    let riff = b[0] == 0x52 && b[1] == 0x49 && b[2] == 0x46 && b[3] == 0x46;
    proof {
        let m = seq![0x52u8, 0x49, 0x46, 0x46];
        if riff {
            assert(has_magic(b@, m));
        } else if has_magic(b@, m) {
            let h = b@.subrange(0, 4);
            assert(m[0] == h[0] && m[1] == h[1] && m[2] == h[2] && m[3] == h[3]);
        }
    }
    let webp = b[8] == 0x57 && b[9] == 0x45 && b[10] == 0x42 && b[11] == 0x50;
    proof {
        let m = seq![0x57u8, 0x45, 0x42, 0x50];
        let t = b@.subrange(8, 12);
        if webp {
            assert(t =~= m);
        } else if t == m {
            assert(m[0] == t[0] && m[1] == t[1] && m[2] == t[2] && m[3] == t[3]);
        }
    }
    if riff && webp {
        return Some("image/webp");
    }
    let pdf = b[0] == 0x25 && b[1] == 0x50 && b[2] == 0x44 && b[3] == 0x46;
    proof {
        let m = seq![0x25u8, 0x50, 0x44, 0x46];
        if pdf {
            assert(has_magic(b@, m));
        } else if has_magic(b@, m) {
            let h = b@.subrange(0, 4);
            assert(m[0] == h[0] && m[1] == h[1] && m[2] == h[2] && m[3] == h[3]);
        }
    }
    if pdf {
        return Some("application/pdf");
    }
    let pk = b[0] == 0x50 && b[1] == 0x4B;
    proof {
        let m = seq![0x50u8, 0x4B];
        if pk {
            assert(has_magic(b@, m));
        } else if has_magic(b@, m) {
            let h = b@.subrange(0, 2);
            assert(m[0] == h[0] && m[1] == h[1]);
        }
    }
    if pk && (b[2] == 0x03 || b[2] == 0x05) {
        return Some("application/zip");
    }
    None
}

/// The MIME type that goes with an extension in lower case; the type of
/// arbitrary bytes where the extension is missing or unknown.
pub open spec fn mime_of_extension(ext: Option<Seq<char>>) -> Seq<char> {
    match ext {
        Some(e) => if e == "png"@ {
            "image/png"@
        } else if e == "jpg"@ || e == "jpeg"@ {
            "image/jpeg"@
        } else if e == "gif"@ {
            "image/gif"@
        } else if e == "webp"@ {
            "image/webp"@
        } else if e == "svg"@ {
            "image/svg+xml"@
        } else if e == "pdf"@ {
            "application/pdf"@
        } else if e == "docx"@ {
            "application/vnd.openxmlformats-officedocument.wordprocessingml.document"@
        } else if e == "xlsx"@ {
            "application/vnd.openxmlformats-officedocument.spreadsheetml.sheet"@
        } else if e == "pptx"@ {
            "application/vnd.openxmlformats-officedocument.presentationml.presentation"@
        } else {
            "application/octet-stream"@
        },
        None => "application/octet-stream"@,
    }
}

/// The extension of a path with its ASCII capitals in lower case.
pub open spec fn lower_extension(p: Seq<char>) -> Option<Seq<char>> {
    match extension(p) {
        Some(e) => Some(ascii_lowercase(e)),
        None => None,
    }
}

/// The MIME type that goes with the path's extension, capitals aside.
pub fn mime_from_extension(p: &str) -> (mime: &'static str)
    ensures
        mime@ == mime_of_extension(lower_extension(p@)),
{
    match path_extension(p) {
        None => "application/octet-stream",
        Some(raw) => {
            let e = lowercase_chars(&raw);
            if chars_are(&e, "png") {
                "image/png"
            } else if chars_are(&e, "jpg") || chars_are(&e, "jpeg") {
                "image/jpeg"
            } else if chars_are(&e, "gif") {
                "image/gif"
            } else if chars_are(&e, "webp") {
                "image/webp"
            } else if chars_are(&e, "svg") {
                "image/svg+xml"
            } else if chars_are(&e, "pdf") {
                "application/pdf"
            } else if chars_are(&e, "docx") {
                "application/vnd.openxmlformats-officedocument.wordprocessingml.document"
            } else if chars_are(&e, "xlsx") {
                "application/vnd.openxmlformats-officedocument.spreadsheetml.sheet"
            } else if chars_are(&e, "pptx") {
                "application/vnd.openxmlformats-officedocument.presentationml.presentation"
            } else {
                "application/octet-stream"
            }
        },
    }
}

} // verus!
