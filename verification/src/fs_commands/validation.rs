//! Containment: a path is accepted only if it lies inside the workspace.

use super::{FsError, FsErrorView};
use crate::paths::{
    is_inside, join_path, joined, lies_inside, normalized, path_components, render, resolve,
};
use crate::text::{chars_of, string_of};
use vstd::prelude::*;

verus! {

/// Why a path could not be brought into canonical form.
#[derive(Debug, Clone)]
pub enum Unresolved {
    /// Nothing exists at the path.
    Missing,
    /// Any other failure, with its message.
    Failed(String),
    /// The canonical path is not valid UTF-8.
    NotText,
}

/// What the check of an existing path answers, given the canonical forms of
/// the workspace root and of the path, or why there is none. The path is
/// accepted if it lies inside the root: it is the root or an entry below it.
pub open spec fn inside_existing(
    root: Result<String, Unresolved>,
    target: Result<String, Unresolved>,
) -> Result<Seq<char>, FsErrorView> {
    match root {
        Err(Unresolved::NotText) => Err(FsErrorView::Io("workspace path invalid utf-8"@)),
        Err(_) => Err(FsErrorView::NotFound),
        Ok(r) => match target {
            Err(Unresolved::Missing) => Err(FsErrorView::NotFound),
            Err(Unresolved::Failed(message)) => Err(FsErrorView::Io(message@)),
            Err(Unresolved::NotText) => Err(FsErrorView::Io("resolved path invalid utf-8"@)),
            Ok(t) => if lies_inside(r@, t@) {
                Ok(t@)
            } else {
                Err(FsErrorView::OutsideWorkspace)
            },
        },
    }
}

/// What the check of a path that need not exist answers, given the canonical
/// workspace root: the path, seen from the root and normalised, if the
/// root's components are the first of its components.
pub open spec fn inside_maybe_missing(root: Seq<char>, path: Seq<char>) -> Result<
    Seq<char>,
    FsErrorView,
> {
    let target = normalized(joined(root, path));
    if lies_inside(root, target) {
        Ok(target)
    } else {
        Err(FsErrorView::OutsideWorkspace)
    }
}

/// The view of a check's answer.
pub open spec fn answer_view(answer: Result<String, FsError>) -> Result<Seq<char>, FsErrorView> {
    match answer {
        Ok(path) => Ok(path@),
        Err(e) => Err(e@),
    }
}

/// The path with `.` and `..` resolved by the text alone; the path need not
/// exist.
pub fn normalize_path_components(p: &str) -> (out: String)
    ensures
        out@ == normalized(p@),
{
    let chars = chars_of(p);
    let parts = resolve(path_components(&chars));
    let text = render(&parts);
    string_of(&text)
}

/// The path to bring into canonical form: `path` itself if it is absolute,
/// else `path` below the canonical root.
pub fn workspace_target(canonical_root: &str, path: &str) -> (target: String)
    ensures
        target@ == joined(canonical_root@, path@),
{
    join_path(canonical_root, path)
}

/// Checks a path that must exist. `root` and `target` are the canonical
/// forms of the workspace root and of [`workspace_target`], as the file
/// system gave them, or the reason why it gave none.
pub fn ensure_inside_workspace_exists(
    root: Result<String, Unresolved>,
    target: Result<String, Unresolved>,
) -> (answer: Result<String, FsError>)
    ensures
        answer_view(answer) == inside_existing(root, target),
{
    let root = match root {
        Ok(r) => r,
        Err(Unresolved::NotText) => {
            return Err(FsError::Io("workspace path invalid utf-8".to_string()));
        },
        Err(_) => {
            return Err(FsError::NotFound);
        },
    };
    match target {
        Err(Unresolved::Missing) => Err(FsError::NotFound),
        Err(Unresolved::Failed(message)) => Err(FsError::Io(message)),
        Err(Unresolved::NotText) => Err(FsError::Io("resolved path invalid utf-8".to_string())),
        Ok(t) => {
            if is_inside(root.as_str(), t.as_str()) {
                Ok(t)
            } else {
                Err(FsError::OutsideWorkspace)
            }
        },
    }
}

/// Checks a path that need not exist, against the canonical workspace root.
/// What is accepted comes back normalised.
pub fn ensure_inside_workspace_may_not_exist(canonical_root: &str, path: &str) -> (answer: Result<
    String,
    FsError,
>)
    ensures
        answer_view(answer) == inside_maybe_missing(canonical_root@, path@),
{
    let target = workspace_target(canonical_root, path);
    let normal = normalize_path_components(target.as_str());
    if is_inside(canonical_root, normal.as_str()) {
        Ok(normal)
    } else {
        Err(FsError::OutsideWorkspace)
    }
}

} // verus!
