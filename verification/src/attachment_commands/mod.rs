//! Attachments: files the user hands over, and what is read out of them.

pub mod commands;
pub mod file_utils;
pub mod parsers;

use vstd::prelude::*;

verus! {

/// Which file to take in as an attachment.
#[derive(Debug)]
pub struct SaveAttachmentFileArgs {
    pub source_path: String,
}

/// An attachment that was taken in.
#[derive(Debug)]
pub struct SaveAttachmentFileResult {
    /// Where the attachment is kept.
    pub path: String,
    /// The attachment's name, made safe.
    pub name: String,
    /// Its size in bytes.
    pub size: u64,
    /// A data URL of the attachment, for small images.
    pub preview_data_url: Option<String>,
}

/// An attachment that comes as base64 text, not as a file.
#[derive(Debug)]
pub struct SaveAttachmentFromBase64Args {
    pub name: String,
    pub content_base64: String,
    pub mime_type: Option<String>,
}

/// Which attachment to read into a data URL.
#[derive(Debug)]
pub struct ReadAttachmentDataUrlArgs {
    pub path: String,
}

/// An attachment as a data URL.
#[derive(Debug)]
pub struct ReadAttachmentDataUrlResult {
    pub data_url: String,
}

/// Which attachment to read as text, and how much of it.
#[derive(Debug)]
pub struct ReadAttachmentTextArgs {
    pub path: String,
    /// How many bytes to read at most; 128 KiB if missing, never more than
    /// 512 KiB.
    pub max_bytes: Option<u64>,
    /// Which pages of a PDF to read; all if missing.
    pub page_range: Option<String>,
}

/// The text of an attachment.
#[derive(Debug)]
pub struct ParseDocumentTextResult {
    /// The attachment's extension, in lower case.
    pub file_type: String,
    pub content: String,
    /// Whether the text was cut.
    pub truncated: bool,
    pub warnings: Vec<String>,
}

} // verus!
