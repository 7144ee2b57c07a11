//! Changing the workspace: what is checked before a file or directory is
//! written, moved, copied or removed, and what is told of it afterwards.

use super::{fault_view, FsError, FsErrorView};
use crate::encoding::{base64_bytes, decode_base64};
use crate::text::{chars_of, opt_string_view, string_of, trim_chars, trimmed, views};
use crate::workspace_watcher::{relative_path, to_relative_path, FileChangeKind, WorkspaceFileChangedPayload};
use vstd::prelude::*;

verus! {

/// What to write where.
#[derive(Debug)]
pub struct WriteFileArgs {
    pub workspace_root: String,
    pub path: String,
    pub content: String,
}

/// Which directory to make where.
#[derive(Debug)]
pub struct CreateDirArgs {
    pub workspace_root: String,
    /// The parent directory, seen from the workspace root; blank for the
    /// root.
    pub path: String,
    /// The name of the new directory.
    pub name: String,
}

/// What to move where.
#[derive(Debug)]
pub struct MoveFileArgs {
    pub workspace_root: String,
    pub from_path: String,
    pub to_path: String,
}

/// What to copy where.
#[derive(Debug)]
pub struct CopyEntryArgs {
    pub workspace_root: String,
    pub from_path: String,
    pub to_path: String,
}

/// What to remove.
#[derive(Debug)]
pub struct RemoveEntryArgs {
    pub workspace_root: String,
    pub path: String,
}

/// What to show in the file manager.
#[derive(Debug)]
pub struct RevealInFinderArgs {
    pub workspace_root: String,
    pub path: String,
}

/// What to open, and with which application.
#[derive(Debug)]
pub struct OpenWithAppArgs {
    pub workspace_root: String,
    pub path: String,
    /// The application to open the file with; the default one if missing.
    pub open_with: Option<String>,
}

/// Which bytes to write where.
#[derive(Debug)]
pub struct WriteBinaryFileArgs {
    pub workspace_root: String,
    pub path: String,
    /// The bytes, as base64 text.
    pub content_base64: String,
}

/// The desktop that shows files.
#[derive(Debug, Clone, Copy, PartialEq, Eq)]
pub enum Desktop {
    MacOs,
    Windows,
    Other,
}

/// The mathematical content of a [`WorkspaceFileChangedPayload`].
pub open spec fn payload_view(p: WorkspaceFileChangedPayload) -> (Seq<char>, FileChangeKind) {
    (p.path@, p.kind)
}

/// The view of a result that carries a text.
pub open spec fn text_result_view(r: Result<String, FsError>) -> Result<Seq<char>, FsErrorView> {
    match r {
        Ok(text) => Ok(text@),
        Err(e) => Err(e@),
    }
}

/// The view of a result that carries bytes.
pub open spec fn bytes_result_view(r: Result<Vec<u8>, FsError>) -> Result<Seq<u8>, FsErrorView> {
    match r {
        Ok(bytes) => Ok(bytes@),
        Err(e) => Err(e@),
    }
}

/// The parent directory a new directory is made in: the one asked for, or
/// the workspace root, written `.`, where the path is blank.
pub open spec fn parent_of_new_dir(path: Seq<char>) -> Seq<char> {
    if trimmed(path).len() == 0 {
        "."@
    } else {
        path
    }
}

/// Whether the text holds the character.
pub open spec fn holds(s: Seq<char>, c: char) -> bool {
    exists|i: int| 0 <= i < s.len() && s[i] == c
}

/// The name of a new directory: the name asked for, trimmed; refused if
/// nothing is left or it holds a slash or a backslash.
pub open spec fn new_dir_name(name: Seq<char>) -> Result<Seq<char>, FsErrorView> {
    let n = trimmed(name);
    if n.len() == 0 || holds(n, '/') || holds(n, '\\') {
        Err(FsErrorView::NotAllowed("invalid folder name"@))
    } else {
        Ok(n)
    }
}

/// What stands against writing to a path: a directory is there.
pub fn check_write_target(is_dir: bool) -> (verdict: Result<(), FsError>)
    ensures
        fault_view(verdict) == (if is_dir {
            Some(FsErrorView::NotAllowed("path is a directory"@))
        } else {
            None
        }),
{
    if is_dir {
        Err(FsError::NotAllowed("path is a directory".to_string()))
    } else {
        Ok(())
    }
}

/// What stands against moving or copying to a path: something is there.
pub fn check_destination(exists: bool) -> (verdict: Result<(), FsError>)
    ensures
        fault_view(verdict) == (if exists {
            Some(FsErrorView::NotAllowed("destination already exists"@))
        } else {
            None
        }),
{
    if exists {
        Err(FsError::NotAllowed("destination already exists".to_string()))
    } else {
        Ok(())
    }
}

/// What stands against making a directory at a path: something is there.
pub fn check_new_dir(exists: bool) -> (verdict: Result<(), FsError>)
    ensures
        fault_view(verdict) == (if exists {
            Some(FsErrorView::NotAllowed("already exists"@))
        } else {
            None
        }),
{
    if exists {
        Err(FsError::NotAllowed("already exists".to_string()))
    } else {
        Ok(())
    }
}

impl CreateDirArgs {
    /// The parent directory to resolve.
    pub fn parent_path(&self) -> (path: String)
        ensures
            path@ == parent_of_new_dir(self.path@),
    {
        if trim_chars(&chars_of(self.path.as_str())).len() == 0 {
            ".".to_string()
        } else {
            self.path.clone()
        }
    }

    /// The name of the directory to make.
    pub fn folder_name(&self) -> (name: Result<String, FsError>)
        ensures
            text_result_view(name) == new_dir_name(self.name@),
    {
        let n = trim_chars(&chars_of(self.name.as_str()));
        let mut i: usize = 0;
        while i < n.len()
            invariant
                i <= n.len(),
                n@ == trimmed(self.name@),
                forall|k: int| 0 <= k < i ==> n@[k] != '/' && n@[k] != '\\',
            decreases n.len() - i,
        {
            if n[i] == '/' || n[i] == '\\' {
                assert(holds(n@, '/') || holds(n@, '\\'));
                return Err(FsError::NotAllowed("invalid folder name".to_string()));
            }
            i += 1;
        }
        if n.len() == 0 {
            return Err(FsError::NotAllowed("invalid folder name".to_string()));
        }
        Ok(string_of(&n))
    }
}

/// What is told when a directory was made at `new_dir`: that it was
/// created, under its path below the root; an error if it is not below the
/// root.
pub fn created_dir_payload(canonical_root: &str, new_dir: &str) -> (told: Result<
    WorkspaceFileChangedPayload,
    FsError,
>)
    ensures
        match relative_path(canonical_root@, new_dir@) {
            Some(rel) => told matches Ok(p) && payload_view(p) == (rel, FileChangeKind::Create),
            None => told matches Err(e) && e@ == FsErrorView::Io("strip prefix"@),
        },
{
    match to_relative_path(canonical_root, new_dir) {
        Some(rel) => Ok(WorkspaceFileChangedPayload { path: rel, kind: FileChangeKind::Create }),
        None => Err(FsError::Io("strip prefix".to_string())),
    }
}

/// The path that is told of `abs`: its path below the root, or `asked`, the
/// path as the caller gave it, where `abs` is not below the root.
pub open spec fn told_path(root: Seq<char>, abs: Seq<char>, asked: Seq<char>) -> Seq<char> {
    match relative_path(root, abs) {
        Some(rel) => rel,
        None => asked,
    }
}

/// The path that is told of `abs`.
fn path_to_tell(canonical_root: &str, abs: &str, asked: &str) -> (path: String)
    ensures
        path@ == told_path(canonical_root@, abs@, asked@),
{
    match to_relative_path(canonical_root, abs) {
        Some(rel) => rel,
        None => asked.to_string(),
    }
}

impl MoveFileArgs {
    /// Whether there is nothing to do: source and destination are one place.
    pub fn stays(from_abs: &str, to_abs: &str) -> (same: bool)
        ensures
            same == (from_abs@ == to_abs@),
    {
        crate::text::text_eq(from_abs, to_abs)
    }

    /// What is told after a move: that the source was renamed and the
    /// destination created.
    pub fn payloads(&self, canonical_root: &str, from_abs: &str, to_abs: &str) -> (told: (
        WorkspaceFileChangedPayload,
        WorkspaceFileChangedPayload,
    ))
        ensures
            payload_view(told.0) == (
                told_path(canonical_root@, from_abs@, self.from_path@),
                FileChangeKind::Rename,
            ),
            payload_view(told.1) == (
                told_path(canonical_root@, to_abs@, self.to_path@),
                FileChangeKind::Create,
            ),
    {
        (
            WorkspaceFileChangedPayload {
                path: path_to_tell(canonical_root, from_abs, self.from_path.as_str()),
                kind: FileChangeKind::Rename,
            },
            WorkspaceFileChangedPayload {
                path: path_to_tell(canonical_root, to_abs, self.to_path.as_str()),
                kind: FileChangeKind::Create,
            },
        )
    }
}

impl CopyEntryArgs {
    /// What is told after a copy: that the destination was created.
    pub fn payload(&self, canonical_root: &str, to_abs: &str) -> (told: WorkspaceFileChangedPayload)
        ensures
            payload_view(told) == (
                told_path(canonical_root@, to_abs@, self.to_path@),
                FileChangeKind::Create,
            ),
    {
        WorkspaceFileChangedPayload {
            path: path_to_tell(canonical_root, to_abs, self.to_path.as_str()),
            kind: FileChangeKind::Create,
        }
    }
}

impl RemoveEntryArgs {
    /// What is told after a removal: that the path, as it was asked for, was
    /// removed.
    pub fn payload(&self) -> (told: WorkspaceFileChangedPayload)
        ensures
            payload_view(told) == (self.path@, FileChangeKind::Remove),
    {
        WorkspaceFileChangedPayload { path: self.path.clone(), kind: FileChangeKind::Remove }
    }
}

impl WriteBinaryFileArgs {
    /// The bytes to write: what the base64 text stands for. A text that
    /// stands for nothing is an I/O error that quotes the decoder.
    pub fn content(&self) -> (bytes: Result<Vec<u8>, FsError>)
        ensures
            match base64_bytes(self.content_base64@) {
                Some(b) => bytes_result_view(bytes) == Ok::<Seq<u8>, FsErrorView>(b),
                None => bytes matches Err(FsError::Io(message)) && "base64 decode failed: "@.is_prefix_of(
                    message@,
                ),
            },
    {
        match decode_base64(self.content_base64.as_str()) {
            Ok(b) => Ok(b),
            Err(complaint) => {
                let mut message = "base64 decode failed: ".to_string();
                let ghost head = message@;
                message.append(complaint.as_str());
                assert(message@.subrange(0, head.len() as int) =~= head);
                Err(FsError::Io(message))
            },
        }
    }
}

/// The invocation that opens `abs`: `open`, with `-a <app>` where an
/// application is asked for, and the path.
pub open spec fn open_invocation(open_with: Option<Seq<char>>, abs: Seq<char>) -> (Seq<char>, Seq<Seq<char>>) {
    match open_with {
        Some(app) => ("open"@, seq!["-a"@, app, abs]),
        None => ("open"@, seq![abs]),
    }
}

impl OpenWithAppArgs {
    /// The program and arguments that open the resolved path `abs`.
    pub fn command(&self, abs: &str) -> (command: (String, Vec<String>))
        ensures
            (command.0@, views(command.1@)) == open_invocation(opt_string_view(self.open_with), abs@),
    {
        let mut args: Vec<String> = Vec::new();
        match &self.open_with {
            Some(app) => {
                args.push("-a".to_string());
                args.push(app.clone());
                args.push(abs.to_string());
                assert(views(args@) =~= seq!["-a"@, app@, abs@]);
            },
            None => {
                args.push(abs.to_string());
                assert(views(args@) =~= seq![abs@]);
            },
        }
        ("open".to_string(), args)
    }
}

/// The invocation that shows `abs` in the file manager of the desktop: on
/// macOS `open -R`, on Windows `explorer /select,`, elsewhere `xdg-open` on
/// the parent directory, where the path has one.
pub open spec fn reveal_invocation(desktop: Desktop, abs: Seq<char>, parent: Option<Seq<char>>) -> Option<
    (Seq<char>, Seq<Seq<char>>),
> {
    match desktop {
        Desktop::MacOs => Some(("open"@, seq!["-R"@, abs])),
        Desktop::Windows => Some(("explorer"@, seq!["/select,"@ + abs])),
        Desktop::Other => match parent {
            Some(dir) => Some(("xdg-open"@, seq![dir])),
            None => None,
        },
    }
}

/// The program and arguments that show the resolved path `abs` in the file
/// manager; `parent` is its parent directory, if it has one.
pub fn reveal_command(desktop: Desktop, abs: &str, parent: Option<&str>) -> (command: Option<
    (String, Vec<String>),
>)
    ensures
        crate::sandbox::command_view(command) == reveal_invocation(
            desktop,
            abs@,
            crate::text::opt_view(parent),
        ),
{
    let mut args: Vec<String> = Vec::new();
    match desktop {
        Desktop::MacOs => {
            args.push("-R".to_string());
            args.push(abs.to_string());
            assert(views(args@) =~= seq!["-R"@, abs@]);
            Some(("open".to_string(), args))
        },
        Desktop::Windows => {
            let mut select = "/select,".to_string();
            select.append(abs);
            args.push(select);
            assert(views(args@) =~= seq!["/select,"@ + abs@]);
            Some(("explorer".to_string(), args))
        },
        Desktop::Other => match parent {
            Some(dir) => {
                args.push(dir.to_string());
                assert(views(args@) =~= seq![dir@]);
                Some(("xdg-open".to_string(), args))
            },
            None => None,
        },
    }
}

} // verus!
