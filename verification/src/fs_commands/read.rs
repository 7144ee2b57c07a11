//! Reading files of the workspace: which files are read as text, and how
//! their lines are shown.

use super::detection::{
    binary_content, has_extension_in, binary_extensions, is_binary_content, mime_from_extension,
    mime_from_magic, mime_of_extension, mime_of_magic, lower_extension, path_has_binary_extension,
    LINE_MAX_CHARS, READ_DATA_URL_MAX_BYTES, READ_MAX_BYTES,
};
use super::{fault_view, FsError, FsErrorView};
use crate::text::{
    append_chars, chars_of, decimal, decimal_chars, least, seqs, split, split_chars,
};
use vstd::prelude::*;

verus! {

/// How many lines are shown where no limit is asked for.
pub const DEFAULT_LINE_LIMIT: u64 = 2000;

/// Which lines of which file to show.
#[derive(Debug)]
pub struct ReadFileArgs {
    pub workspace_root: String,
    pub path: String,
    /// How many lines to pass over; none if missing.
    pub offset: Option<u64>,
    /// How many lines to show at most; 2000 if missing.
    pub limit: Option<u64>,
}

/// Which file to read as it is.
#[derive(Debug)]
pub struct ReadFileRawArgs {
    pub workspace_root: String,
    pub path: String,
}

/// Which file to read into a data URL.
#[derive(Debug)]
pub struct ReadFileAsDataUrlArgs {
    pub workspace_root: String,
    pub path: String,
}

/// A file as a data URL.
#[derive(Debug)]
pub struct ReadFileAsDataUrlResult {
    pub data_url: String,
}

/// `piece` without the carriage return it may end in.
pub open spec fn without_cr(piece: Seq<char>) -> Seq<char> {
    if piece.len() > 0 && piece.last() == '\r' {
        piece.drop_last()
    } else {
        piece
    }
}

/// The lines of a text. A line ends with a line feed, or with a carriage
/// return and a line feed; the last line need not end at all.
pub open spec fn lines(s: Seq<char>) -> Seq<Seq<char>> {
    let pieces = split(s, '\n');
    let ended = pieces.drop_last().map_values(|piece: Seq<char>| without_cr(piece));
    if pieces.last().len() == 0 {
        ended
    } else {
        ended.push(pieces.last())
    }
}

/// `count` zeros.
pub open spec fn zeros(count: nat) -> Seq<char> {
    Seq::new(count, |i: int| '0')
}

/// The number in decimal notation, with zeros in front up to five digits.
pub open spec fn padded(n: nat) -> Seq<char> {
    if decimal(n).len() < 5 {
        zeros((5 - decimal(n).len()) as nat) + decimal(n)
    } else {
        decimal(n)
    }
}

/// A line as it is shown: in full, or its first 2000 characters and a note
/// on how many were left out.
pub open spec fn shown(line: Seq<char>) -> Seq<char> {
    if line.len() > LINE_MAX_CHARS {
        line.take(LINE_MAX_CHARS as int) + "[... truncated "@ + decimal(
            (line.len() - LINE_MAX_CHARS) as nat,
        ) + " chars]"@
    } else {
        line
    }
}

/// A line with its number in front, and a line feed behind.
pub open spec fn numbered(number: nat, line: Seq<char>) -> Seq<char> {
    padded(number) + "| "@ + shown(line) + seq!['\n']
}

/// The lines `from` to `to`, `to` left out, each with its number; the first
/// line has the number 1.
pub open spec fn window(all: Seq<Seq<char>>, from: int, to: int) -> Seq<char>
    decreases to - from,
{
    if to <= from {
        Seq::empty()
    } else {
        window(all, from, to - 1) + numbered(to as nat, all[to - 1])
    }
}

/// Where the lines that are shown begin: after `offset` lines, or at the end
/// of the text.
pub open spec fn first_shown(offset: Option<u64>, total: int) -> int {
    least(
        match offset {
            Some(n) => n as int,
            None => 0,
        },
        total,
    )
}

/// Where the lines that are shown end: `limit` lines on, or at the end of the
/// text.
pub open spec fn last_shown(offset: Option<u64>, limit: Option<u64>, total: int) -> int {
    least(
        first_shown(offset, total) + (match limit {
            Some(n) => n as int,
            None => DEFAULT_LINE_LIMIT as int,
        }),
        total,
    )
}

/// What is shown of a text: the lines that were asked for, numbered.
pub open spec fn shown_text(content: Seq<char>, offset: Option<u64>, limit: Option<u64>) -> Seq<char> {
    let all = lines(content);
    window(
        all,
        first_shown(offset, all.len() as int),
        last_shown(offset, limit, all.len() as int),
    )
}

/// What stands against reading a file as text, going by its path and size
/// alone: it is a directory, it is too large, or its extension is binary.
pub open spec fn text_file_fault(path: Seq<char>, is_dir: bool, len: u64) -> Option<FsErrorView> {
    if is_dir {
        Some(FsErrorView::NotAllowed("is a directory"@))
    } else if len > READ_MAX_BYTES {
        Some(FsErrorView::TooLarge)
    } else if has_extension_in(path, binary_extensions()) {
        Some(FsErrorView::BinaryFile)
    } else {
        None
    }
}

/// Checks, before a file is opened, whether it may be read as text.
pub fn check_text_file(path: &str, is_dir: bool, len: u64) -> (verdict: Result<(), FsError>)
    ensures
        fault_view(verdict) == text_file_fault(path@, is_dir, len),
{
    if is_dir {
        return Err(FsError::NotAllowed("is a directory".to_string()));
    }
    if len > READ_MAX_BYTES {
        return Err(FsError::TooLarge);
    }
    if path_has_binary_extension(path) {
        return Err(FsError::BinaryFile);
    }
    Ok(())
}

/// Checks, by its first bytes, whether a file may be read as text: binary
/// content is refused.
pub fn check_text_content(head: &[u8]) -> (verdict: Result<(), FsError>)
    ensures
        fault_view(verdict) == (if binary_content(head@) {
            Some(FsErrorView::BinaryFile)
        } else {
            None
        }),
{
    if is_binary_content(head) {
        Err(FsError::BinaryFile)
    } else {
        Ok(())
    }
}

/// What stands against reading a file into a data URL: it is a directory, or
/// it is too large.
pub fn check_data_url_file(is_dir: bool, len: u64) -> (verdict: Result<(), FsError>)
    ensures
        fault_view(verdict) == (if is_dir {
            Some(FsErrorView::NotAllowed("is a directory"@))
        } else if len > READ_DATA_URL_MAX_BYTES {
            Some(FsErrorView::TooLarge)
        } else {
            None
        }),
{
    if is_dir {
        return Err(FsError::NotAllowed("is a directory".to_string()));
    }
    if len > READ_DATA_URL_MAX_BYTES {
        return Err(FsError::TooLarge);
    }
    Ok(())
}

/// The lines of a text.
pub fn text_lines(content: &str) -> (out: Vec<Vec<char>>)
    ensures
        seqs(out@) == lines(content@),
{
    let chars = chars_of(content);
    let mut pieces = split_chars(&chars, '\n');
    proof {
        crate::text::lemma_split_pieces(chars@, '\n');
    }
    let ghost all = seqs(pieces@);
    let last = pieces.pop().unwrap();
    assert(last@ == all.last());
    assert(seqs(pieces@) =~= all.drop_last());
    let ghost ended = all.drop_last().map_values(|piece: Seq<char>| without_cr(piece));
    let n = pieces.len();
    let mut i: usize = 0;
    while i < n
        invariant
            i <= n,
            n == pieces.len(),
            all.len() == n + 1,
            forall|k: int| 0 <= k < i ==> (#[trigger] pieces@[k])@ == without_cr(all[k]),
            forall|k: int| i <= k < n ==> (#[trigger] pieces@[k])@ == all[k],
        decreases n - i,
    {
        let m = pieces[i].len();
        if m > 0 && pieces[i][m - 1] == '\r' {
            let mut piece: Vec<char> = Vec::new();
            core::mem::swap(&mut piece, &mut pieces[i]);
            piece.pop();
            pieces[i] = piece;
        }
        i += 1;
    }
    assert(seqs(pieces@) =~= ended);
    if last.len() > 0 {
        pieces.push(last);
        assert(seqs(pieces@) =~= ended.push(last@));
    }
    pieces
}

/// Appends a line with its number in front and a line feed behind.
fn push_numbered(out: &mut String, number: usize, line: &Vec<char>)
    ensures
        final(out)@ == old(out)@ + numbered(number as nat, line@),
{
    let ghost before = out@;
    let digits = decimal_chars(number as u128);
    let mut pad: usize = 0;
    if digits.len() < 5 {
        let want: usize = 5 - digits.len();
        while pad < want
            invariant
                pad <= want,
                want == 5 - digits.len(),
                out@ == before + zeros(pad as nat),
            decreases want - pad,
        {
            out.append("0");
            proof {
                reveal_strlit("0");
                assert(out@ =~= before + zeros((pad + 1) as nat));
            }
            pad += 1;
        }
    }
    assert(out@ =~= before + zeros(pad as nat));
    append_chars(out, &digits);
    assert(out@ =~= before + padded(number as nat));
    out.append("| ");
    if line.len() > LINE_MAX_CHARS {
        let head = crate::text::slice_chars(line, 0, LINE_MAX_CHARS);
        assert(line@.subrange(0, LINE_MAX_CHARS as int) == line@.take(LINE_MAX_CHARS as int));
        append_chars(out, &head);
        out.append("[... truncated ");
        append_chars(out, &decimal_chars((line.len() - LINE_MAX_CHARS) as u128));
        out.append(" chars]");
    } else {
        append_chars(out, line);
    }
    out.append("\n");
    proof {
        reveal_strlit("\n");
        assert("\n"@ =~= seq!['\n']);
        assert(out@ =~= before + numbered(number as nat, line@));
    }
}

/// The number as a `usize`, or the largest `usize` if it does not fit.
fn clamp(n: u64) -> (out: usize)
    ensures
        out == least(n as int, usize::MAX as int),
{
    if n > usize::MAX as u64 {
        usize::MAX
    } else {
        n as usize
    }
}

/// What is shown of a file's text: the lines the arguments ask for, each
/// with its number in front.
pub fn read_file(args: &ReadFileArgs, content: &str) -> (out: String)
    ensures
        out@ == shown_text(content@, args.offset, args.limit),
{
    let all = text_lines(content);
    let total = all.len();
    let offset = clamp(
        match args.offset {
            Some(n) => n,
            None => 0,
        },
    );
    let limit = clamp(
        match args.limit {
            Some(n) => n,
            None => DEFAULT_LINE_LIMIT,
        },
    );
    let from = if offset <= total {
        offset
    } else {
        total
    };
    let to = if limit <= total - from {
        from + limit
    } else {
        total
    };
    assert(from == first_shown(args.offset, total as int));
    assert(to == last_shown(args.offset, args.limit, total as int));
    let mut out = String::new();
    let mut i: usize = from;
    while i < to
        invariant
            from <= i <= to <= total,
            total == all.len(),
            out@ == window(seqs(all@), from as int, i as int),
        decreases to - i,
    {
        push_numbered(&mut out, i + 1, &all[i]);
        i += 1;
    }
    out
}

/// The MIME type of a file: what its first bytes give away, else what its
/// extension stands for.
pub open spec fn mime_of_file(path: Seq<char>, bytes: Seq<u8>) -> Seq<char> {
    match mime_of_magic(bytes) {
        Some(mime) => mime,
        None => mime_of_extension(lower_extension(path)),
    }
}

/// The MIME type of the file at `path` that holds `bytes`.
pub fn mime_of(path: &str, bytes: &[u8]) -> (mime: &'static str)
    ensures
        mime@ == mime_of_file(path@, bytes@),
{
    match mime_from_magic(bytes) {
        Some(mime) => mime,
        None => mime_from_extension(path),
    }
}

/// The file at `path`, holding `bytes`, as a data URL of its MIME type;
/// `None` where the bytes are too many to encode.
pub fn read_file_as_data_url(path: &str, bytes: &[u8]) -> (result: Option<ReadFileAsDataUrlResult>)
    ensures
        match result {
            Some(r) => bytes@.len() <= crate::encoding::MAX_ENCODABLE_BYTES && r.data_url@
                == crate::encoding::data_url_text(
                mime_of_file(path@, bytes@),
                crate::encoding::base64_text(bytes@),
            ),
            None => bytes@.len() > crate::encoding::MAX_ENCODABLE_BYTES,
        },
{
    match crate::encoding::data_url(mime_of(path, bytes), bytes) {
        Some(url) => Some(ReadFileAsDataUrlResult { data_url: url }),
        None => None,
    }
}

} // verus!
