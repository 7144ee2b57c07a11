//! Listing a directory of the workspace, and the facts of one entry.

use super::{fault_view, FsError, FsErrorView};
use crate::paths::{is_inside, lies_inside};
use crate::workspace_watcher::{relative_path, to_relative_path};
use super::detection::{
    binary_content, binary_extensions, has_extension_in, is_binary_content,
    path_has_binary_extension,
};
use crate::order::{in_order, key_views, stable_order};
use crate::text::{chars_of, lowercase, trim_chars, trimmed, unicode_lowercase};
use vstd::prelude::*;

verus! {

/// Which directory to list.
#[derive(Debug)]
pub struct ListDirArgs {
    pub workspace_root: String,
    /// The directory, seen from the workspace root; blank for the root.
    pub path: String,
    /// Whether entries whose names start with a dot are listed; they are
    /// unless this is `Some(false)`.
    pub include_hidden: Option<bool>,
}

/// One entry of a directory.
#[derive(Debug)]
pub struct ListDirEntry {
    pub name: String,
    /// The entry's path below the workspace root.
    pub path: String,
    pub is_dir: bool,
    pub mtime_secs: i64,
}

/// Which entry to look at.
#[derive(Debug)]
pub struct StatFileArgs {
    pub workspace_root: String,
    pub path: String,
}

/// The facts of one entry.
#[derive(Debug)]
pub struct StatFileResult {
    pub size: u64,
    pub mtime_secs: i64,
    pub is_dir: bool,
    pub is_binary: bool,
}

/// Whether the name is hidden: it starts with a dot.
pub open spec fn is_hidden(name: Seq<char>) -> bool {
    name.len() > 0 && name[0] == '.'
}

/// Whether an entry of the given name is listed: always, unless hidden
/// entries are excluded and the name is hidden.
pub open spec fn is_listed(include_hidden: Option<bool>, name: Seq<char>) -> bool {
    !(include_hidden == Some(false) && is_hidden(name))
}

/// The time of the last change as signed seconds: the seconds since the
/// epoch, wrapped into 64 signed bits, or 0 where the time is not known.
pub open spec fn mtime_of(secs: Option<u64>) -> i64 {
    match secs {
        Some(s) => if s <= i64::MAX as u64 {
            s as i64
        } else {
            (s - 0x1_0000_0000_0000_0000) as i64
        },
        None => 0,
    }
}

/// Whether an entry counts as binary: it is a file, and its extension is
/// binary or its first bytes, where they were read, are.
pub open spec fn entry_is_binary(is_file: bool, path: Seq<char>, head: Option<Seq<u8>>) -> bool {
    is_file && (has_extension_in(path, binary_extensions()) || (match head {
        Some(bytes) => binary_content(bytes),
        None => false,
    }))
}

/// The view of optional bytes.
pub open spec fn opt_bytes_view(head: Option<&[u8]>) -> Option<Seq<u8>> {
    match head {
        Some(bytes) => Some(bytes@),
        None => None,
    }
}

impl ListDirArgs {
    /// Whether the workspace root itself is to be listed: the path is blank.
    pub fn lists_root(&self) -> (root: bool)
        ensures
            root == (trimmed(self.path@).len() == 0),
    {
        trim_chars(&chars_of(self.path.as_str())).len() == 0
    }

    /// Whether an entry of the given name is listed.
    pub fn shows(&self, name: &str) -> (listed: bool)
        ensures
            listed == is_listed(self.include_hidden, name@),
    {
        let chars = chars_of(name);
        let hidden = chars.len() > 0 && chars[0] == '.';
        match self.include_hidden {
            Some(false) => !hidden,
            _ => true,
        }
    }
}

/// The time of the last change, from the seconds since the epoch where they
/// are known.
pub fn mtime_secs(secs: Option<u64>) -> (mtime: i64)
    ensures
        mtime == mtime_of(secs),
{
    match secs {
        Some(s) => {
            if s <= i64::MAX as u64 {
                s as i64
            } else {
                let low: u64 = s - 0x8000_0000_0000_0000;
                (low as i64) + i64::MIN
            }
        },
        None => 0,
    }
}

/// The facts of one entry. `head` holds the first bytes of a file, where
/// they were read.
pub fn stat_file(
    path: &str,
    size: u64,
    modified_secs: Option<u64>,
    is_dir: bool,
    is_file: bool,
    head: Option<&[u8]>,
) -> (result: StatFileResult)
    ensures
        result.size == size,
        result.mtime_secs == mtime_of(modified_secs),
        result.is_dir == is_dir,
        result.is_binary == entry_is_binary(is_file, path@, opt_bytes_view(head)),
{
    let is_binary = is_file && (path_has_binary_extension(path) || match head {
        Some(bytes) => is_binary_content(bytes),
        None => false,
    });
    StatFileResult { size, mtime_secs: mtime_secs(modified_secs), is_dir, is_binary }
}

/// The mathematical content of a [`ListDirEntry`].
pub struct EntryView {
    pub name: Seq<char>,
    pub path: Seq<char>,
    pub is_dir: bool,
    pub mtime_secs: i64,
}

impl View for ListDirEntry {
    type V = EntryView;

    open spec fn view(&self) -> EntryView {
        EntryView {
            name: self.name@,
            path: self.path@,
            is_dir: self.is_dir,
            mtime_secs: self.mtime_secs,
        }
    }
}

/// The views of the entries, in order.
pub open spec fn entry_views(entries: Seq<ListDirEntry>) -> Seq<EntryView> {
    entries.map_values(|e: ListDirEntry| e@)
}

/// The key by which an entry is listed: directories before files, and
/// within each by name in lower case, character by character.
pub open spec fn entry_key(e: EntryView) -> Seq<u64> {
    seq![
        if e.is_dir {
            0u64
        } else {
            1u64
        },
    ] + unicode_lowercase(e.name).map_values(|c: char| c as u64)
}

/// The keys of the entries, in order.
pub open spec fn entry_keys(entries: Seq<EntryView>) -> Seq<Seq<u64>> {
    entries.map_values(|e: EntryView| entry_key(e))
}

/// The key by which an entry is listed.
fn key_of(e: &ListDirEntry) -> (key: Vec<u64>)
    ensures
        key@ == entry_key(e@),
{
    let lower = chars_of(lowercase(e.name.as_str()).as_str());
    let mut key: Vec<u64> = Vec::new();
    key.push(
        if e.is_dir {
            0
        } else {
            1
        },
    );
    let ghost head = key@;
    let mut i: usize = 0;
    while i < lower.len()
        invariant
            i <= lower.len(),
            key@ == head + lower@.take(i as int).map_values(|c: char| c as u64),
        decreases lower.len() - i,
    {
        key.push(lower[i] as u64);
        assert(key@ =~= head + lower@.take(i + 1).map_values(|c: char| c as u64));
        i += 1;
    }
    assert(lower@.take(lower.len() as int) == lower@);
    key
}

/// The entries as they are listed: directories first, then files, each by
/// name in lower case; entries whose names are level stay as they came.
pub fn sort_entries(entries: Vec<ListDirEntry>) -> (sorted: Vec<ListDirEntry>)
    ensures
        exists|order: Seq<usize>|
            {
                &&& #[trigger] in_order(entry_keys(entry_views(entries@)), order)
                &&& sorted.len() == entries.len()
                &&& forall|i: int| 0 <= i < sorted.len() ==> (#[trigger] sorted@[i])@ == entries@[order[i] as int]@
            },
{
    let mut keys: Vec<Vec<u64>> = Vec::new();
    let mut i: usize = 0;
    while i < entries.len()
        invariant
            i <= entries.len(),
            keys.len() == i,
            forall|k: int| 0 <= k < i ==> (#[trigger] keys@[k])@ == entry_key(entries@[k]@),
        decreases entries.len() - i,
    {
        keys.push(key_of(&entries[i]));
        i += 1;
    }
    assert(key_views(keys@) =~= entry_keys(entry_views(entries@)));
    let order = stable_order(&keys);
    let mut sorted: Vec<ListDirEntry> = Vec::new();
    let mut k: usize = 0;
    while k < order.len()
        invariant
            k <= order.len(),
            sorted.len() == k,
            order.len() == entries.len(),
            forall|j: int| 0 <= j < order.len() ==> #[trigger] order@[j] < entries.len(),
            forall|j: int| 0 <= j < k ==> (#[trigger] sorted@[j])@ == entries@[order@[j] as int]@,
        decreases order.len() - k,
    {
        let e = &entries[order[k]];
        sorted.push(
            ListDirEntry {
                name: e.name.clone(),
                path: e.path.clone(),
                is_dir: e.is_dir,
                mtime_secs: e.mtime_secs,
            },
        );
        k += 1;
    }
    sorted
}

/// What stands against listing a directory: its canonical path does not
/// lie inside the workspace root, or it is no directory.
pub open spec fn list_target_fault(root: Seq<char>, dir: Seq<char>, is_dir: bool) -> Option<FsErrorView> {
    if !lies_inside(root, dir) {
        Some(FsErrorView::OutsideWorkspace)
    } else if !is_dir {
        Some(FsErrorView::NotAllowed("not a directory"@))
    } else {
        None
    }
}

/// Whether the canonical path `dir` lies inside the workspace.
pub fn check_list_inside(canonical_root: &str, dir: &str) -> (verdict: Result<(), FsError>)
    ensures
        fault_view(verdict) == (if lies_inside(canonical_root@, dir@) {
            None
        } else {
            Some(FsErrorView::OutsideWorkspace)
        }),
{
    if is_inside(canonical_root, dir) {
        Ok(())
    } else {
        Err(FsError::OutsideWorkspace)
    }
}

/// Checks a directory before it is listed.
pub fn check_list_target(canonical_root: &str, dir: &str, is_dir: bool) -> (verdict: Result<(), FsError>)
    ensures
        fault_view(verdict) == list_target_fault(canonical_root@, dir@, is_dir),
{
    match check_list_inside(canonical_root, dir) {
        Err(e) => Err(e),
        Ok(_) => {
            if is_dir {
                Ok(())
            } else {
                Err(FsError::NotAllowed("not a directory".to_string()))
            }
        },
    }
}

/// What is listed of one entry of a directory: nothing for an entry whose
/// canonical path does not lie inside the workspace or whose name is hidden
/// where hidden names are left out; else its name, its path below the root,
/// and its facts.
pub open spec fn listed_entry(
    include_hidden: Option<bool>,
    root: Seq<char>,
    canonical: Seq<char>,
    name: Seq<char>,
    is_dir: bool,
    modified_secs: Option<u64>,
) -> Option<EntryView> {
    match relative_path(root, canonical) {
        Some(rel) => if is_listed(include_hidden, name) {
            Some(EntryView { name, path: rel, is_dir, mtime_secs: mtime_of(modified_secs) })
        } else {
            None
        },
        None => None,
    }
}

/// The view of what is listed of an entry.
pub open spec fn listed_view(r: Option<ListDirEntry>) -> Option<EntryView> {
    match r {
        Some(e) => Some(e@),
        None => None,
    }
}

impl ListDirArgs {
    /// What is listed of the entry `name` whose canonical path is
    /// `canonical`.
    pub fn entry(
        &self,
        canonical_root: &str,
        canonical: &str,
        name: &str,
        is_dir: bool,
        modified_secs: Option<u64>,
    ) -> (listed: Option<ListDirEntry>)
        ensures
            listed_view(listed) == listed_entry(
                self.include_hidden,
                canonical_root@,
                canonical@,
                name@,
                is_dir,
                modified_secs,
            ),
    {
        if !self.shows(name) {
            return None;
        }
        match to_relative_path(canonical_root, canonical) {
            Some(rel) => Some(
                ListDirEntry {
                    name: name.to_string(),
                    path: rel,
                    is_dir,
                    mtime_secs: mtime_secs(modified_secs),
                },
            ),
            None => None,
        }
    }
}

} // verus!
