//! File-system rules of a workspace: what counts as inside it, and what a
//! file is taken to hold.

pub mod detection;
pub mod list;
pub mod office;
pub mod read;
pub mod validation;
pub mod write;

use vstd::prelude::*;

verus! {

/// Why a file-system request was refused.
#[derive(Debug, Clone)]
pub enum FsError {
    /// The path is not inside the workspace.
    OutsideWorkspace,
    /// No such file or directory.
    NotFound,
    /// Not permitted, or the wrong kind of entry.
    NotAllowed(String),
    /// The file is binary and is not read as text.
    BinaryFile,
    /// The file is larger than the read limit.
    TooLarge,
    /// Any other I/O failure.
    Io(String),
}

/// What an I/O failure was about, as far as the library tells failures apart.
#[derive(Debug, Clone, Copy, PartialEq, Eq)]
pub enum IoFailure {
    NotFound,
    PermissionDenied,
    Other,
}

/// `s` as Rust's debug formatting writes a string: in double quotes, with
/// escapes. The text is whatever `format!("{:?}", s)` gives.
pub uninterp spec fn debug_quoted(s: Seq<char>) -> Seq<char>;

/// `<str as Debug>::fmt`, reached through `format!`: the string in double
/// quotes, with the characters that need it escaped.
#[verifier::external_body]
fn quote(s: &str) -> (out: String)
    ensures
        out@ == debug_quoted(s@),
{
    format!("{:?}", s)
}

/// The text of an error: the variant's name, followed for the variants that
/// carry a message by the quoted message in round brackets.
pub open spec fn error_text(e: FsError) -> Seq<char> {
    match e {
        FsError::OutsideWorkspace => "OutsideWorkspace"@,
        FsError::NotFound => "NotFound"@,
        FsError::NotAllowed(msg) => "NotAllowed("@ + debug_quoted(msg@) + ")"@,
        FsError::BinaryFile => "BinaryFile"@,
        FsError::TooLarge => "TooLarge"@,
        FsError::Io(msg) => "Io("@ + debug_quoted(msg@) + ")"@,
    }
}

/// The error that an I/O failure of the given kind, with the given message,
/// becomes.
pub open spec fn error_of_failure(kind: IoFailure, message: Seq<char>) -> FsErrorView {
    match kind {
        IoFailure::NotFound => FsErrorView::NotFound,
        IoFailure::PermissionDenied => FsErrorView::NotAllowed(message),
        IoFailure::Other => FsErrorView::Io(message),
    }
}

/// The mathematical content of an [`FsError`].
pub enum FsErrorView {
    OutsideWorkspace,
    NotFound,
    NotAllowed(Seq<char>),
    BinaryFile,
    TooLarge,
    Io(Seq<char>),
}

impl View for FsError {
    type V = FsErrorView;

    open spec fn view(&self) -> FsErrorView {
        match *self {
            FsError::OutsideWorkspace => FsErrorView::OutsideWorkspace,
            FsError::NotFound => FsErrorView::NotFound,
            FsError::NotAllowed(msg) => FsErrorView::NotAllowed(msg@),
            FsError::BinaryFile => FsErrorView::BinaryFile,
            FsError::TooLarge => FsErrorView::TooLarge,
            FsError::Io(msg) => FsErrorView::Io(msg@),
        }
    }
}

/// The view of a check's verdict.
pub open spec fn fault_view(verdict: Result<(), FsError>) -> Option<FsErrorView> {
    match verdict {
        Ok(_) => None,
        Err(e) => Some(e@),
    }
}

impl FsError {
    /// The error for an I/O failure: not found, not allowed with the
    /// failure's message, or a general I/O error with the message.
    pub fn from_io(kind: IoFailure, message: String) -> (e: FsError)
        ensures
            e@ == error_of_failure(kind, message@),
    {
        match kind {
            IoFailure::NotFound => FsError::NotFound,
            IoFailure::PermissionDenied => FsError::NotAllowed(message),
            IoFailure::Other => FsError::Io(message),
        }
    }

    /// The error as text, as a caller that only passes text on reports it.
    pub fn debug_text(&self) -> (out: String)
        ensures
            out@ == error_text(*self),
    {
        match self {
            FsError::OutsideWorkspace => "OutsideWorkspace".to_string(),
            FsError::NotFound => "NotFound".to_string(),
            FsError::NotAllowed(msg) => {
                let mut out = "NotAllowed(".to_string();
                let quoted = quote(msg.as_str());
                out.append(quoted.as_str());
                out.append(")");
                out
            },
            FsError::BinaryFile => "BinaryFile".to_string(),
            FsError::TooLarge => "TooLarge".to_string(),
            FsError::Io(msg) => {
                let mut out = "Io(".to_string();
                let quoted = quote(msg.as_str());
                out.append(quoted.as_str());
                out.append(")");
                out
            },
        }
    }
}

} // verus!
