//! Turning documents into PDF: what is decoded, under which names the files
//! of a conversion go, and what the converters are called with.

use super::cache::{fnv1a, fnv1a_hash, hex16};
use crate::encoding::{
    base64_bytes, base64_text, body_of_data_url, data_url, data_url_body, data_url_text,
    decode_base64, MAX_ENCODABLE_BYTES,
};
use crate::text::{
    append_chars, chars_of, contains_text, decimal, decimal_chars, opt_string_view, push_text,
    string_of, trim_chars, trimmed, views,
};
use vstd::prelude::*;

verus! {

/// The files of one conversion.
#[derive(Debug)]
pub struct ConversionFiles {
    /// The document to convert.
    pub input: String,
    /// The PDF that comes out.
    pub output: String,
    /// The script that drives the office application.
    pub script: String,
}

/// The names of the files of a conversion that goes by `prefix`, for a
/// document with the extension `ext`.
pub open spec fn conversion_names(prefix: Seq<char>, ext: Seq<char>) -> (Seq<char>, Seq<char>, Seq<char>) {
    (prefix + "-input."@ + ext, prefix + "-output.pdf"@, prefix + ".applescript"@)
}

/// The name of the PDF that the typesetter leaves beside its input.
pub open spec fn rendered_name(prefix: Seq<char>) -> Seq<char> {
    prefix + "-input.pdf"@
}

/// The name under which the PDF of a document is kept in the cache: the
/// hash of the document's bytes, and `.pdf`.
pub open spec fn cache_name(bytes: Seq<u8>) -> Seq<char> {
    hex16(fnv1a_hash(bytes)) + ".pdf"@
}

/// The script that waits for the office application to show the document
/// whose name holds `prefix`, has it exported as PDF to `output`, and closes
/// it.
pub open spec fn export_script_text(app: Seq<char>, prefix: Seq<char>, output: Seq<char>) -> Seq<char> {
    "log \"[as] waiting for "@ + app + " window: "@ + prefix
        + "-input\"\nset docReady to false\nset pollCount to 0\nrepeat 120 times\n    set pollCount to pollCount + 1\n    try\n        tell application \"System Events\"\n            tell process \""@
        + app
        + "\"\n                set winNames to name of every window\n            end tell\n        end tell\n        repeat with wn in winNames\n            if wn contains \""@
        + prefix
        + "\" then\n                set docReady to true\n                exit repeat\n            end if\n        end repeat\n    on error errMsg\n        if pollCount mod 20 = 1 then\n            log \"[as] se_poll=\" & pollCount & \" error: \" & errMsg\n        end if\n    end try\n    if docReady then exit repeat\n    delay 0.5\nend repeat\n\nif not docReady then\n    error \"等待 "@
        + app + " 加载文档超时（60 秒），前缀: "@ + prefix
        + "\"\nend if\n\nlog \"[as] window found (poll=\" & pollCount & \"), exporting front document...\"\ntell application \""@
        + app + "\"\n    export front document to (POSIX file \""@ + output
        + "\") as PDF\n    close front document saving no\nend tell\nlog \"[as] export done\"\n"@
}

/// A name for a temp file that is taken at `micros`, a time in microseconds:
/// `cove-` and the time.
pub fn temp_prefix(micros: u128) -> (prefix: String)
    ensures
        prefix@ == "cove-"@ + decimal(micros as nat),
{
    let mut prefix = "cove-".to_string();
    append_chars(&mut prefix, &decimal_chars(micros));
    prefix
}

/// The view of decoded bytes or a complaint.
pub open spec fn decoded_view(r: Result<Vec<u8>, String>) -> Result<Seq<u8>, Seq<char>> {
    match r {
        Ok(bytes) => Ok(bytes@),
        Err(message) => Err(message@),
    }
}

/// The bytes of the document that a data URL holds. A text without a comma
/// is no data URL; a body that is no base64 text is refused with the
/// decoder's complaint.
pub fn decode_document(url: &str) -> (bytes: Result<Vec<u8>, String>)
    ensures
        match data_url_body(url@) {
            None => decoded_view(bytes) == Err::<Seq<u8>, Seq<char>>("无效的 data URL"@),
            Some(body) => match base64_bytes(body) {
                Some(b) => decoded_view(bytes) == Ok::<Seq<u8>, Seq<char>>(b),
                None => bytes is Err && "Base64 解码失败: "@.is_prefix_of(bytes->Err_0@),
            },
        },
{
    match body_of_data_url(url) {
        None => Err("无效的 data URL".to_string()),
        Some(body) => match decode_base64(body.as_str()) {
            Ok(b) => Ok(b),
            Err(complaint) => {
                let mut message = "Base64 解码失败: ".to_string();
                let ghost head = message@;
                message.append(complaint.as_str());
                assert(message@.subrange(0, head.len() as int) =~= head);
                Err(message)
            },
        },
    }
}

/// The name under which the PDF of the document with these bytes is kept in
/// the cache.
pub fn cache_file_name(bytes: &[u8]) -> (name: String)
    ensures
        name@ == cache_name(bytes@),
{
    let mut name = fnv1a(bytes);
    name.append(".pdf");
    name
}

/// The PDF as a data URL; `None` where it is too large to encode.
pub fn pdf_data_url(pdf: &[u8]) -> (url: Option<String>)
    ensures
        match url {
            Some(u) => pdf@.len() <= MAX_ENCODABLE_BYTES && u@ == data_url_text(
                "application/pdf"@,
                base64_text(pdf@),
            ),
            None => pdf@.len() > MAX_ENCODABLE_BYTES,
        },
{
    data_url("application/pdf", pdf)
}

/// The names of the files of a conversion that goes by `prefix`, for a
/// document with the extension `ext`.
pub fn conversion_files(prefix: &str, ext: &str) -> (files: ConversionFiles)
    ensures
        (files.input@, files.output@, files.script@) == conversion_names(prefix@, ext@),
{
    let mut input = prefix.to_string();
    input.append("-input.");
    input.append(ext);
    let mut output = prefix.to_string();
    output.append("-output.pdf");
    let mut script = prefix.to_string();
    script.append(".applescript");
    ConversionFiles { input, output, script }
}

/// The name of the PDF that the typesetter leaves beside the input of the
/// conversion that goes by `prefix`.
pub fn rendered_file(prefix: &str) -> (name: String)
    ensures
        name@ == rendered_name(prefix@),
{
    let mut name = prefix.to_string();
    name.append("-input.pdf");
    name
}

/// The arguments with which the document tool converts `input` to `output`.
pub fn to_pdf_arguments(input: &str, output: &str) -> (line: Vec<String>)
    ensures
        views(line@) == seq!["to-pdf"@, "-i"@, input@, "-o"@, output@],
{
    let mut line: Vec<String> = Vec::new();
    assert(views(line@) =~= Seq::empty());
    push_text(&mut line, "to-pdf");
    push_text(&mut line, "-i");
    push_text(&mut line, input);
    push_text(&mut line, "-o");
    push_text(&mut line, output);
    assert(views(line@) =~= seq!["to-pdf"@, "-i"@, input@, "-o"@, output@]);
    line
}

/// The arguments with which the typesetter renders `input` as PDF.
pub fn render_arguments(input: &str) -> (line: Vec<String>)
    ensures
        views(line@) == seq!["render"@, input@, "--to"@, "pdf"@],
{
    let mut line: Vec<String> = Vec::new();
    assert(views(line@) =~= Seq::empty());
    push_text(&mut line, "render");
    push_text(&mut line, input);
    push_text(&mut line, "--to");
    push_text(&mut line, "pdf");
    assert(views(line@) =~= seq!["render"@, input@, "--to"@, "pdf"@]);
    line
}

/// The arguments with which `input` is opened in the office application,
/// hidden and in the background.
pub fn open_arguments(app: &str, input: &str) -> (line: Vec<String>)
    ensures
        views(line@) == seq!["-j"@, "-g"@, "-a"@, app@, input@],
{
    let mut line: Vec<String> = Vec::new();
    assert(views(line@) =~= Seq::empty());
    push_text(&mut line, "-j");
    push_text(&mut line, "-g");
    push_text(&mut line, "-a");
    push_text(&mut line, app);
    push_text(&mut line, input);
    assert(views(line@) =~= seq!["-j"@, "-g"@, "-a"@, app@, input@]);
    line
}

/// The script that tells the office application to quit.
pub fn quit_script(app: &str) -> (script: String)
    ensures
        script@ == "tell application \""@ + app@ + "\" to quit"@,
{
    let mut script = "tell application \"".to_string();
    script.append(app);
    script.append("\" to quit");
    script
}

/// The script that has the office application export the document of the
/// conversion that goes by `prefix` to `output`.
pub fn export_script(app: &str, prefix: &str, output: &str) -> (script: String)
    ensures
        script@ == export_script_text(app@, prefix@, output@),
{
    let mut script = "log \"[as] waiting for ".to_string();
    script.append(app);
    script.append(" window: ");
    script.append(prefix);
    script.append(
        "-input\"\nset docReady to false\nset pollCount to 0\nrepeat 120 times\n    set pollCount to pollCount + 1\n    try\n        tell application \"System Events\"\n            tell process \"",
    );
    script.append(app);
    script.append(
        "\"\n                set winNames to name of every window\n            end tell\n        end tell\n        repeat with wn in winNames\n            if wn contains \"",
    );
    script.append(prefix);
    script.append(
        "\" then\n                set docReady to true\n                exit repeat\n            end if\n        end repeat\n    on error errMsg\n        if pollCount mod 20 = 1 then\n            log \"[as] se_poll=\" & pollCount & \" error: \" & errMsg\n        end if\n    end try\n    if docReady then exit repeat\n    delay 0.5\nend repeat\n\nif not docReady then\n    error \"等待 ",
    );
    script.append(app);
    script.append(" 加载文档超时（60 秒），前缀: ");
    script.append(prefix);
    script.append(
        "\"\nend if\n\nlog \"[as] window found (poll=\" & pollCount & \"), exporting front document...\"\ntell application \"",
    );
    script.append(app);
    script.append("\"\n    export front document to (POSIX file \"");
    script.append(output);
    script.append(
        "\") as PDF\n    close front document saving no\nend tell\nlog \"[as] export done\"\n",
    );
    script
}

/// Where the typesetter is found: where `which` says it is, if `which`
/// ended well and said anything; else the first of the usual places that is
/// among `existing`.
pub open spec fn quarto_place(which: Option<(bool, String)>, existing: Seq<Seq<char>>) -> Option<Seq<char>> {
    let said = match which {
        Some(run) => if run.0 && trimmed(run.1@).len() > 0 {
            Some(trimmed(run.1@))
        } else {
            None
        },
        None => None,
    };
    match said {
        Some(path) => Some(path),
        None => if existing.contains("/usr/local/bin/quarto"@) {
            Some("/usr/local/bin/quarto"@)
        } else if existing.contains("/opt/homebrew/bin/quarto"@) {
            Some("/opt/homebrew/bin/quarto"@)
        } else {
            None
        },
    }
}

/// Where the typesetter is found. `which` is how asking `which` for it
/// went: whether it ended well, and what it printed; `existing` are those
/// of the usual places that exist.
pub fn find_quarto(which: Option<(bool, String)>, existing: &Vec<String>) -> (place: Option<String>)
    ensures
        opt_string_view(place) == quarto_place(which, views(existing@)),
{
    match which {
        Some((success, printed)) => {
            let path = trim_chars(&chars_of(printed.as_str()));
            if success && path.len() > 0 {
                return Some(string_of(&path));
            }
        },
        None => {},
    }
    if contains_text(existing, "/usr/local/bin/quarto") {
        Some("/usr/local/bin/quarto".to_string())
    } else if contains_text(existing, "/opt/homebrew/bin/quarto") {
        Some("/opt/homebrew/bin/quarto".to_string())
    } else {
        None
    }
}

} // verus!
