//! What the attachment commands decide: what is kept under which name, which
//! attachments are read and how much of them.

use super::file_utils::{
    get_extension, guess_image_mime_by_ext, image_mime, is_text_like_extension, lower_ext,
    safe_file_name, safe_name, text_like_extensions, unique_file_name, unique_name,
};
use super::parsers::{asks_for, parse_page_range, rising};
use super::{
    ParseDocumentTextResult, ReadAttachmentDataUrlResult, ReadAttachmentTextArgs,
    SaveAttachmentFromBase64Args,
};
use crate::encoding::{base64_bytes, base64_text, data_url, data_url_text, decode_base64, MAX_ENCODABLE_BYTES};
use crate::fs_commands::detection::lower_extension;
use crate::paths::{extension, file_name};
use crate::text::{
    append_chars, ascii_lowercase, chars_of, decimal, decimal_chars, opt_string_view, text_eq,
    trim_chars, trimmed, views,
};
use vstd::prelude::*;

verus! {

/// The largest attachment that is read into a data URL, in bytes.
pub const MAX_DATA_URL_BYTES: u64 = 26_214_400;

/// The largest image that gets a preview, in bytes.
pub const MAX_PREVIEW_BYTES: u64 = 6_291_456;

/// How many bytes of an attachment are read as text where no limit is asked
/// for.
pub const DEFAULT_TEXT_BYTES: u64 = 131_072;

/// How many bytes of an attachment are read as text at most.
pub const MAX_TEXT_BYTES: u64 = 524_288;

/// The fewest characters of a document that are kept.
pub const MIN_TEXT_CHARS: usize = 4096;

/// How an attachment is read as text.
#[derive(Debug, Clone, Copy, PartialEq, Eq)]
pub enum DocumentKind {
    Pdf,
    Docx,
    Xlsx,
    Pptx,
    /// Any file that is text as it stands.
    Plain,
}

/// The bytes to keep and the names to keep them under.
#[derive(Debug)]
pub struct AttachmentPlan {
    pub bytes: Vec<u8>,
    /// The attachment's name, made safe.
    pub origin_name: String,
    /// The name of the file it is kept in.
    pub final_name: String,
}

/// The name of an attachment that comes from the file at `source_path`: the
/// safe form of the file's name, or `attachment` where the path ends in no
/// name.
pub open spec fn origin_name_of(source_path: Seq<char>) -> Seq<char> {
    match file_name(source_path) {
        Some(name) => safe_name(name),
        None => "attachment"@,
    }
}

/// The MIME type an attachment is sent as: PDF for a `pdf` extension, else
/// the image type its name stands for, else that of arbitrary bytes.
pub open spec fn attachment_mime_of(path: Seq<char>) -> Seq<char> {
    if lower_extension(path) == Some("pdf"@) {
        "application/pdf"@
    } else {
        match file_name(path) {
            Some(name) => match image_mime(lower_ext(name)) {
                Some(mime) => mime,
                None => "application/octet-stream"@,
            },
            None => match image_mime(lower_ext("file"@)) {
                Some(mime) => mime,
                None => "application/octet-stream"@,
            },
        }
    }
}

/// How many bytes and how many characters of an attachment are read: the
/// bytes asked for, or the default, but no more than the maximum; and as
/// many characters, but no fewer than the minimum.
pub open spec fn text_limits_of(max_bytes: Option<u64>) -> (u64, usize) {
    let wanted = match max_bytes {
        Some(n) => n,
        None => DEFAULT_TEXT_BYTES,
    };
    let bytes = if wanted <= MAX_TEXT_BYTES {
        wanted
    } else {
        MAX_TEXT_BYTES
    };
    (
        bytes,
        if bytes <= MIN_TEXT_CHARS {
            MIN_TEXT_CHARS
        } else {
            bytes as usize
        },
    )
}

/// How the attachment with the given file name and lower-case extension is
/// read, or why it is not read.
pub open spec fn document_kind_of(name: Seq<char>, ext: Seq<char>) -> Result<DocumentKind, Seq<char>> {
    let text_like = match lower_ext(name) {
        Some(e) => text_like_extensions().contains(e),
        None => false,
    };
    if ext == "pdf"@ {
        Ok(DocumentKind::Pdf)
    } else if ext == "docx"@ {
        Ok(DocumentKind::Docx)
    } else if ext == "xlsx"@ {
        Ok(DocumentKind::Xlsx)
    } else if ext == "pptx"@ {
        Ok(DocumentKind::Pptx)
    } else if !text_like {
        Err("该附件不是可读取的文本文件"@)
    } else if ext == "doc"@ {
        Err("DOC 老格式暂未支持，请先转换为 DOCX 或 PDF。"@)
    } else {
        Ok(DocumentKind::Plain)
    }
}

/// The view of a kind or a refusal.
pub open spec fn kind_view(r: Result<DocumentKind, String>) -> Result<DocumentKind, Seq<char>> {
    match r {
        Ok(kind) => Ok(kind),
        Err(message) => Err(message@),
    }
}

/// The warnings of a document's text: those of its reader, and one more
/// where the text is blank.
pub open spec fn document_warnings(content: Seq<char>, warnings: Seq<Seq<char>>) -> Seq<Seq<char>> {
    if trimmed(content).len() == 0 {
        warnings.push("解析结果为空文本"@)
    } else {
        warnings
    }
}

/// The section of one page of a PDF: a heading with the page's number, and
/// the page's text.
pub open spec fn page_section(page: nat, content: Seq<char>) -> Seq<char> {
    "# Page "@ + decimal(page) + seq!['\n'] + content + seq!['\n', '\n']
}

/// The sections of the pages `picked[..n]`, in order.
pub open spec fn page_sections(pages: Seq<Seq<char>>, picked: Seq<usize>, n: int) -> Seq<char>
    decreases n,
{
    if n <= 0 {
        Seq::empty()
    } else if 1 <= picked[n - 1] <= pages.len() {
        page_sections(pages, picked, n - 1) + page_section(
            picked[n - 1] as nat,
            pages[picked[n - 1] - 1],
        )
    } else {
        page_sections(pages, picked, n - 1)
    }
}

/// The warning that goes with a page range that asks for no page of the
/// document.
pub const PAGE_RANGE_WARNING: &'static str = "pageRange 无效，已回退为全文解析";

/// What a page range picks out of a PDF.
#[derive(Debug)]
pub enum PdfSelection {
    /// The pages that were asked for, each under its heading; nothing for a
    /// document without pages.
    Pages(String),
    /// The range asks for no page of the document: the whole document is
    /// read instead, with a warning.
    WholeDocument,
}

/// How many bytes of an attachment are read as text, and how many
/// characters of it are kept.
pub fn text_limits(args: &ReadAttachmentTextArgs) -> (limits: (u64, usize))
    ensures
        limits == text_limits_of(args.max_bytes),
{
    let wanted = match args.max_bytes {
        Some(n) => n,
        None => DEFAULT_TEXT_BYTES,
    };
    let bytes = if wanted <= MAX_TEXT_BYTES {
        wanted
    } else {
        MAX_TEXT_BYTES
    };
    let chars: usize = if bytes <= MIN_TEXT_CHARS as u64 {
        MIN_TEXT_CHARS
    } else {
        bytes as usize
    };
    (bytes, chars)
}

/// How the attachment at `path` is read as text, or why it is not.
pub fn document_kind(path: &str) -> (kind: Result<DocumentKind, String>)
    ensures
        kind_view(kind) == document_kind_of(
            match file_name(path@) {
                Some(name) => name,
                None => Seq::empty(),
            },
            match extension(path@) {
                Some(e) => ascii_lowercase(e),
                None => Seq::empty(),
            },
        ),
{
    let name = file_name_of(path);
    let ext = get_extension(path);
    let ext = ext.as_str();
    if text_eq(ext, "pdf") {
        Ok(DocumentKind::Pdf)
    } else if text_eq(ext, "docx") {
        Ok(DocumentKind::Docx)
    } else if text_eq(ext, "xlsx") {
        Ok(DocumentKind::Xlsx)
    } else if text_eq(ext, "pptx") {
        Ok(DocumentKind::Pptx)
    } else if !is_text_like_extension(name.as_str()) {
        Err("该附件不是可读取的文本文件".to_string())
    } else if text_eq(ext, "doc") {
        Err("DOC 老格式暂未支持，请先转换为 DOCX 或 PDF。".to_string())
    } else {
        Ok(DocumentKind::Plain)
    }
}

/// The name of the entry the path ends in, or the empty text.
fn file_name_of(path: &str) -> (name: String)
    ensures
        name@ == (match file_name(path@) {
            Some(n) => n,
            None => Seq::empty(),
        }),
{
    let chars = chars_of(path);
    let mut parts = crate::paths::path_components(&chars);
    if parts.len() == 0 {
        return String::new();
    }
    let ghost all = crate::text::seqs(parts@);
    let last = parts.pop().unwrap();
    assert(last@ == all.last());
    if crate::paths::is_name_part(&last) {
        crate::text::string_of(&last)
    } else {
        String::new()
    }
}

/// The text of an attachment, as it is handed to the caller.
pub fn finish_document(file_type: String, content: String, truncated: bool, warnings: Vec<String>) -> (result:
    ParseDocumentTextResult)
    ensures
        result.file_type@ == file_type@,
        result.content@ == content@,
        result.truncated == truncated,
        views(result.warnings@) == document_warnings(content@, views(warnings@)),
{
    let mut warnings = warnings;
    if trim_chars(&chars_of(content.as_str())).len() == 0 {
        crate::text::push_text(&mut warnings, "解析结果为空文本");
    }
    ParseDocumentTextResult { file_type, content, truncated, warnings }
}

/// What the page range `raw` picks out of the pages of a PDF: the sections
/// of the pages it asks for, in rising order, or the whole document where it
/// asks for none of them. Of a document without pages nothing is picked.
pub fn pick_pdf_pages(pages: &Vec<String>, raw: &str) -> (selection: PdfSelection)
    ensures
        match selection {
            PdfSelection::Pages(text) => exists|picked: Seq<usize>|
                #![trigger page_sections(views(pages@), picked, picked.len() as int)]
                {
                    &&& (picked.len() > 0 || pages.len() == 0)
                    &&& rising(picked)
                    &&& forall|page: usize|
                        #![trigger picked.contains(page)]
                        picked.contains(page) <==> (1 <= page <= pages.len() && asks_for(
                            raw@,
                            page as nat,
                        ))
                    &&& text@ == page_sections(views(pages@), picked, picked.len() as int)
                },
            PdfSelection::WholeDocument => pages.len() > 0 && forall|page: usize|
                1 <= page <= pages.len() ==> !asks_for(raw@, page as nat),
        },
{
    let picked = parse_page_range(raw, pages.len());
    if picked.len() == 0 && pages.len() > 0 {
        assert forall|page: usize| 1 <= page <= pages.len() implies !asks_for(
            raw@,
            page as nat,
        ) by {
            if asks_for(raw@, page as nat) {
                assert(picked@.contains(page));
            }
        }
        return PdfSelection::WholeDocument;
    }
    let mut text = String::new();
    let mut i: usize = 0;
    while i < picked.len()
        invariant
            i <= picked.len(),
            text@ == page_sections(views(pages@), picked@, i as int),
        decreases picked.len() - i,
    {
        let page = picked[i];
        if 1 <= page && page <= pages.len() {
            text.append("# Page ");
            append_chars(&mut text, &decimal_chars(page as u128));
            text.append("\n");
            text.append(pages[page - 1].as_str());
            text.append("\n\n");
            proof {
                reveal_strlit("\n");
                reveal_strlit("\n\n");
                assert("\n"@ =~= seq!['\n']);
                assert("\n\n"@ =~= seq!['\n', '\n']);
                assert(text@ =~= page_sections(views(pages@), picked@, i as int) + page_section(
                    page as nat,
                    views(pages@)[page - 1],
                ));
            }
        }
        i += 1;
    }
    PdfSelection::Pages(text)
}

/// The MIME type an attachment is sent as.
pub fn attachment_mime(path: &str) -> (mime: &'static str)
    ensures
        mime@ == attachment_mime_of(path@),
{
    let ext = get_extension(path);
    if text_eq(ext.as_str(), "pdf") {
        proof {
            match extension(path@) {
                Some(e) => {},
                None => {
                    reveal_strlit("pdf");
                },
            }
        }
        return "application/pdf";
    }
    proof {
        if lower_extension(path@) == Some("pdf"@) {
            assert(ext@ == "pdf"@);
        }
    }
    let name = file_name_of(path);
    let guessed = if crate::paths::has_no_name(path) {
        guess_image_mime_by_ext("file")
    } else {
        guess_image_mime_by_ext(name.as_str())
    };
    match guessed {
        Some(mime) => mime,
        None => "application/octet-stream",
    }
}

/// The MIME type of the preview of an attachment, if it gets one: it is an
/// image, by its name, of no more than 6 MiB.
pub fn preview_mime(file_name: &str, size: u64) -> (mime: Option<&'static str>)
    ensures
        crate::fs_commands::detection::mime_view(mime) == (if size > MAX_PREVIEW_BYTES {
            None
        } else {
            image_mime(lower_ext(file_name@))
        }),
{
    if size > MAX_PREVIEW_BYTES {
        return None;
    }
    guess_image_mime_by_ext(file_name)
}

/// What stands against sending an attachment as a data URL: it lies outside
/// the attachment directory, it is no file, or it is too large.
pub open spec fn attachment_fault(inside: bool, is_file: bool, len: u64) -> Option<Seq<char>> {
    if !inside {
        Some("无权读取该附件路径"@)
    } else if !is_file {
        Some("附件文件不存在"@)
    } else if len > MAX_DATA_URL_BYTES {
        Some("附件超过 25MB，无法以原生方式发送，请使用「文本提取」或缩小文件"@)
    } else {
        None
    }
}

/// Checks an attachment before it is read into a data URL.
pub fn check_attachment(inside: bool, is_file: bool, len: u64) -> (verdict: Result<(), String>)
    ensures
        crate::text::verdict_view(verdict) == attachment_fault(inside, is_file, len),
{
    if !inside {
        return Err("无权读取该附件路径".to_string());
    }
    if !is_file {
        return Err("附件文件不存在".to_string());
    }
    if len > MAX_DATA_URL_BYTES {
        return Err("附件超过 25MB，无法以原生方式发送，请使用「文本提取」或缩小文件".to_string());
    }
    Ok(())
}

/// The attachment at `path`, holding `bytes`, as a data URL; `None` where
/// the bytes are too many to encode.
pub fn read_attachment_as_data_url(path: &str, bytes: &[u8]) -> (result: Option<
    ReadAttachmentDataUrlResult,
>)
    ensures
        match result {
            Some(r) => bytes@.len() <= MAX_ENCODABLE_BYTES && r.data_url@ == data_url_text(
                attachment_mime_of(path@),
                base64_text(bytes@),
            ),
            None => bytes@.len() > MAX_ENCODABLE_BYTES,
        },
{
    match data_url(attachment_mime(path), bytes) {
        Some(url) => Some(ReadAttachmentDataUrlResult { data_url: url }),
        None => None,
    }
}

impl SaveAttachmentFromBase64Args {
    /// The bytes to keep and the names to keep them under, for an attachment
    /// that arrives at the time `now_ms`; or the decoder's complaint about
    /// the base64 text.
    pub fn plan(&self, now_ms: u128) -> (plan: Result<AttachmentPlan, String>)
        ensures
            match base64_bytes(self.content_base64@) {
                Some(bytes) => plan matches Ok(p) && {
                    &&& p.bytes@ == bytes
                    &&& p.origin_name@ == safe_name(self.name@)
                    &&& p.final_name@ == unique_name(safe_name(self.name@), now_ms as nat)
                },
                None => plan matches Err(message) && "Base64 解码失败："@.is_prefix_of(message@),
            },
    {
        match decode_base64(self.content_base64.as_str()) {
            Ok(bytes) => {
                let origin_name = safe_file_name(self.name.as_str());
                let final_name = unique_file_name(origin_name.as_str(), now_ms);
                Ok(AttachmentPlan { bytes, origin_name, final_name })
            },
            Err(complaint) => {
                let mut message = "Base64 解码失败：".to_string();
                let ghost head = message@;
                message.append(complaint.as_str());
                assert(message@.subrange(0, head.len() as int) =~= head);
                Err(message)
            },
        }
    }
}

/// The name of an attachment that comes from the file at `source_path`.
pub fn origin_name(source_path: &str) -> (name: String)
    ensures
        name@ == origin_name_of(source_path@),
{
    if crate::paths::has_no_name(source_path) {
        "attachment".to_string()
    } else {
        let name = file_name_of(source_path);
        safe_file_name(name.as_str())
    }
}

} // verus!
