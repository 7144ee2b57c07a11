//! The temp directories of the document tool, and which of them a sandboxed
//! command may write to.

use crate::paths::{
    components, cur_dir, is_absolute, join_path, joined, parent_dir, path_components, same_parts,
};
use crate::text::{chars_of, opt_view, push_text, seqs, views};
use vstd::prelude::*;

verus! {

/// Whether a path is narrow enough to be made writable in the sandbox: it is
/// absolute, has no `.` or `..` component, and is at least two levels below
/// the root.
pub open spec fn safe_temp_path(path: Seq<char>) -> bool {
    &&& is_absolute(path)
    &&& forall|i: int|
        0 <= i < components(path).len() ==> #[trigger] components(path)[i] != cur_dir()
            && components(path)[i] != parent_dir()
    &&& components(path).len() >= 3
}

/// The temp directory that is used where none is configured: `.officellm/tmp`
/// below the home directory, or `/tmp` without a home directory.
pub open spec fn fallback_tmp(home: Option<Seq<char>>) -> Seq<char> {
    match home {
        Some(h) => joined(h, ".officellm/tmp"@),
        None => "/tmp"@,
    }
}

/// The configured temp directory, if it is to be tried: it is configured,
/// not empty, and safe.
pub open spec fn custom_tmp(configured: Option<Seq<char>>) -> Option<Seq<char>> {
    match configured {
        Some(dir) => if dir.len() > 0 && safe_temp_path(dir) {
            Some(dir)
        } else {
            None
        },
        None => None,
    }
}

/// The paths that a sandboxed command may write to for temp files: the
/// tool's temp directory, the system's, and the canonical form of the
/// system's where that is another path.
pub open spec fn temp_whitelist(tmp: Seq<char>, system: Seq<char>, canonical: Option<Seq<char>>) -> Seq<
    Seq<char>,
> {
    match canonical {
        Some(c) => if components(c) != components(system) {
            seq![tmp, system, c]
        } else {
            seq![tmp, system]
        },
        None => seq![tmp, system],
    }
}

/// Whether the path may be made writable in the sandbox.
pub fn is_safe_temp_path(path: &str) -> (safe: bool)
    ensures
        safe == safe_temp_path(path@),
{
    let chars = chars_of(path);
    if !crate::paths::starts_at_root(&chars) {
        return false;
    }
    let parts = path_components(&chars);
    let mut i: usize = 0;
    while i < parts.len()
        invariant
            i <= parts.len(),
            seqs(parts@) == components(path@),
            forall|k: int|
                0 <= k < i ==> #[trigger] components(path@)[k] != cur_dir() && components(
                    path@,
                )[k] != parent_dir(),
        decreases parts.len() - i,
    {
        let part = &parts[i];
        let dots = (part.len() == 1 && part[0] == '.') || (part.len() == 2 && part[0] == '.'
            && part[1] == '.');
        if dots {
            proof {
                if part.len() == 1 {
                    assert(part@ =~= cur_dir());
                } else {
                    assert(part@ =~= parent_dir());
                }
                assert(components(path@)[i as int] == part@);
            }
            return false;
        }
        proof {
            assert(components(path@)[i as int] == part@);
            if part@ == cur_dir() {
                assert(part@.len() == 1 && part@[0] == '.');
            }
            if part@ == parent_dir() {
                assert(part@.len() == 2 && part@[0] == '.' && part@[1] == '.');
            }
        }
        i += 1;
    }
    parts.len() >= 3
}

/// The configured temp directory, if it is to be tried.
pub fn custom_tmp_dir(configured: Option<&str>) -> (dir: Option<String>)
    ensures
        crate::text::opt_string_view(dir) == custom_tmp(opt_view(configured)),
{
    match configured {
        Some(dir) => {
            if dir.unicode_len() > 0 && is_safe_temp_path(dir) {
                Some(dir.to_string())
            } else {
                None
            }
        },
        None => None,
    }
}

/// The temp directory that is used where none is configured or the
/// configured one cannot be used.
pub fn fallback_tmp_dir(home: Option<&str>) -> (dir: String)
    ensures
        dir@ == fallback_tmp(opt_view(home)),
{
    match home {
        Some(h) => join_path(h, ".officellm/tmp"),
        None => "/tmp".to_string(),
    }
}

/// The paths that a sandboxed command may write to for temp files. `tmp` is
/// the tool's temp directory, `system` the system's, and `canonical` the
/// canonical form of the system's, where it could be had.
pub fn sandbox_temp_whitelist(tmp: &str, system: &str, canonical: Option<&str>) -> (paths: Vec<String>)
    ensures
        views(paths@) == temp_whitelist(tmp@, system@, opt_view(canonical)),
{
    let mut paths: Vec<String> = Vec::new();
    assert(views(paths@) =~= Seq::empty());
    push_text(&mut paths, tmp);
    push_text(&mut paths, system);
    assert(views(paths@) =~= seq![tmp@, system@]);
    match canonical {
        Some(c) => {
            let a = path_components(&chars_of(c));
            let b = path_components(&chars_of(system));
            if !same_parts(&a, &b) {
                push_text(&mut paths, c);
                assert(views(paths@) =~= seq![tmp@, system@, c@]);
            }
        },
        None => {},
    }
    paths
}

} // verus!
