//! Changes in the workspace: which are worth telling, and under which path.

use crate::paths::{components, path_components, starts_with_parts, strip_prefix, stripped};
use crate::text::{chars_of, list_has, seqs, string_of, strs, text_eq, trim_chars, trimmed};
use vstd::prelude::*;

verus! {

/// How long changes are collected before they are told, in milliseconds.
pub const DEBOUNCE_MS: u64 = 400;

/// The name of the event that tells a change.
pub const EVENT_WORKSPACE_FILE_CHANGED: &'static str = "workspace-file-changed";

/// What happened to a file.
#[derive(Debug, Clone, Copy, PartialEq, Eq)]
pub enum FileChangeKind {
    Create,
    Modify,
    Remove,
    Rename,
}

/// What is told of one change.
#[derive(Debug, Clone)]
pub struct WorkspaceFileChangedPayload {
    /// The path below the workspace root, with forward slashes.
    pub path: String,
    pub kind: FileChangeKind,
}

/// Which workspace to watch.
#[derive(Debug)]
pub struct WatchWorkspaceArgs {
    pub workspace_root: String,
}

/// What the file system reported, as far as the watcher tells reports apart.
#[derive(Debug, Clone, Copy, PartialEq, Eq)]
pub enum ReportKind {
    Create,
    Modify,
    Remove,
    /// An access, or anything else.
    Other,
}

/// The names of directories whose contents are not watched.
pub open spec fn ignored_names() -> Seq<Seq<char>> {
    seq!["node_modules"@, ".git"@, "target"@, "dist"@, ".next"@, ".turbo"@, "build"@]
}

/// The components of `path` below `root`, if `path` is below `root`: its
/// components start with those of `root`.
pub open spec fn below(root: Seq<char>, path: Seq<char>) -> Option<Seq<Seq<char>>> {
    if components(root).is_prefix_of(components(path)) {
        Some(components(path).skip(components(root).len() as int))
    } else {
        None
    }
}

/// Whether the path is ignored: one of its components below the root, or of
/// all its components if it is not below the root, is an ignored name.
pub open spec fn ignored(path: Seq<char>, root: Seq<char>) -> bool {
    exists|i: int|
        0 <= i < looked_at(path, root).len() && ignored_names().contains(
            #[trigger] looked_at(path, root)[i],
        )
}

/// The components that decide whether a path is ignored: those below the
/// root, or all of them if the path is not below the root.
pub open spec fn looked_at(path: Seq<char>, root: Seq<char>) -> Seq<Seq<char>> {
    match below(root, path) {
        Some(rest) => rest,
        None => components(path),
    }
}

/// `s` with a forward slash for each backslash.
pub open spec fn forward_slashes(s: Seq<char>) -> Seq<char> {
    s.map_values(
        |c: char|
            if c == '\\' {
                '/'
            } else {
                c
            },
    )
}

/// The path below the root as it is told: what is left of its text without
/// the root, backslashes turned forward; `None` for a path that is not below
/// the root.
pub open spec fn relative_path(root: Seq<char>, path: Seq<char>) -> Option<Seq<char>> {
    match stripped(path, root) {
        Some(rest) => Some(forward_slashes(rest)),
        None => None,
    }
}

/// The change that a report stands for, if it stands for one.
pub open spec fn change_of(report: ReportKind) -> Option<FileChangeKind> {
    match report {
        ReportKind::Create => Some(FileChangeKind::Create),
        ReportKind::Modify => Some(FileChangeKind::Modify),
        ReportKind::Remove => Some(FileChangeKind::Remove),
        ReportKind::Other => None,
    }
}

/// The change that a report stands for. A rename is reported as a
/// modification.
pub fn kind_from_event(report: ReportKind) -> (kind: Option<FileChangeKind>)
    ensures
        kind == change_of(report),
{
    match report {
        ReportKind::Create => Some(FileChangeKind::Create),
        ReportKind::Modify => Some(FileChangeKind::Modify),
        ReportKind::Remove => Some(FileChangeKind::Remove),
        ReportKind::Other => None,
    }
}

/// The components of `path` below `root`, if `path` is below `root`.
fn strip_root(path: &str, root: &str) -> (out: (Vec<Vec<char>>, bool))
    ensures
        match below(root@, path@) {
            Some(rest) => out.1 && seqs(out.0@) == rest,
            None => !out.1 && seqs(out.0@) == components(path@),
        },
{
    let root_parts = path_components(&chars_of(root));
    let mut parts = path_components(&chars_of(path));
    if !starts_with_parts(&parts, &root_parts) {
        return (parts, false);
    }
    let ghost all = seqs(parts@);
    let mut rest: Vec<Vec<char>> = Vec::new();
    let n = parts.len();
    let from = root_parts.len();
    let mut i: usize = from;
    while i < n
        invariant
            from <= i <= n,
            n == parts.len(),
            all.len() == n,
            forall|k: int| i <= k < n ==> (#[trigger] parts@[k])@ == all[k],
            seqs(rest@) == all.subrange(from as int, i as int),
        decreases n - i,
    {
        let ghost sofar = seqs(rest@);
        let mut part: Vec<char> = Vec::new();
        core::mem::swap(&mut part, &mut parts[i]);
        rest.push(part);
        assert(seqs(rest@) =~= sofar.push(all[i as int]));
        i += 1;
    }
    assert(all.subrange(from as int, n as int) == all.skip(from as int));
    (rest, true)
}

/// Whether a change at `path` is passed over because it lies in a directory
/// that is not watched.
pub fn is_ignored(path: &str, workspace_root: &str) -> (skip: bool)
    ensures
        skip == ignored(path@, workspace_root@),
{
    let names = vec!["node_modules", ".git", "target", "dist", ".next", ".turbo", "build"];
    assert(strs(names@) =~= ignored_names());
    let (parts, _) = strip_root(path, workspace_root);
    let ghost looked = looked_at(path@, workspace_root@);
    let mut i: usize = 0;
    while i < parts.len()
        invariant
            i <= parts.len(),
            strs(names@) == ignored_names(),
            seqs(parts@) == looked,
            looked == looked_at(path@, workspace_root@),
            forall|k: int| 0 <= k < i ==> !ignored_names().contains(#[trigger] looked[k]),
        decreases parts.len() - i,
    {
        if list_has(&names, &parts[i]) {
            assert(ignored_names().contains(looked[i as int]));
            return true;
        }
        i += 1;
    }
    false
}

/// The path of `abs` below `root`, as it is told.
pub fn to_relative_path(root: &str, abs: &str) -> (rel: Option<String>)
    ensures
        crate::text::opt_string_view(rel) == relative_path(root@, abs@),
{
    let text = match strip_prefix(abs, root) {
        Some(rest) => rest,
        None => {
            return None;
        },
    };
    let mut out: Vec<char> = Vec::new();
    let mut i: usize = 0;
    while i < text.len()
        invariant
            i <= text.len(),
            out@ == forward_slashes(text@.take(i as int)),
        decreases text.len() - i,
    {
        let c = text[i];
        out.push(
            if c == '\\' {
                '/'
            } else {
                c
            },
        );
        assert(out@ =~= forward_slashes(text@.take(i + 1)));
        i += 1;
    }
    assert(text@.take(text.len() as int) == text@);
    Some(string_of(&out))
}

/// What is told of a report on `paths`: for a report that stands for a
/// change, each path that is not ignored and lies below the root, in the
/// order of `paths`, with the change; for any other report, nothing.
pub open spec fn told(report: ReportKind, paths: Seq<Seq<char>>, root: Seq<char>) -> Seq<
    (Seq<char>, FileChangeKind),
>
    decreases paths.len(),
{
    if paths.len() == 0 {
        Seq::empty()
    } else {
        let front = told(report, paths.drop_last(), root);
        match (change_of(report), relative_path(root, paths.last())) {
            (Some(kind), Some(rel)) => if ignored(paths.last(), root) {
                front
            } else {
                front.push((rel, kind))
            },
            _ => front,
        }
    }
}

/// The views of what is told.
pub open spec fn told_view(out: Seq<(String, FileChangeKind)>) -> Seq<(Seq<char>, FileChangeKind)> {
    out.map_values(|pair: (String, FileChangeKind)| (pair.0@, pair.1))
}

/// What is told of a report on `paths`.
pub fn collect_paths(report: ReportKind, paths: &Vec<String>, workspace_root: &str) -> (out: Vec<
    (String, FileChangeKind),
>)
    ensures
        told_view(out@) == told(report, crate::text::views(paths@), workspace_root@),
{
    let ghost all = crate::text::views(paths@);
    let mut out: Vec<(String, FileChangeKind)> = Vec::new();
    let mut i: usize = 0;
    assert(told_view(out@) =~= told(report, all.take(0), workspace_root@));
    while i < paths.len()
        invariant
            i <= paths.len(),
            all == crate::text::views(paths@),
            told_view(out@) == told(report, all.take(i as int), workspace_root@),
        decreases paths.len() - i,
    {
        proof {
            assert(all.take(i + 1).drop_last() == all.take(i as int));
            assert(all.take(i + 1).last() == paths@[i as int]@);
        }
        let ghost sofar = told_view(out@);
        match kind_from_event(report) {
            Some(kind) => {
                if !is_ignored(paths[i].as_str(), workspace_root) {
                    match to_relative_path(workspace_root, paths[i].as_str()) {
                        Some(rel) => {
                            out.push((rel, kind));
                            assert(told_view(out@) =~= sofar.push((rel@, kind)));
                        },
                        None => {},
                    }
                }
            },
            None => {},
        }
        i += 1;
    }
    assert(all.take(paths.len() as int) == all);
    out
}

/// What a request to watch asks for.
#[derive(Debug)]
pub enum WatchRequest {
    /// To stop watching: no workspace was named.
    Stop,
    /// To watch the workspace at this path.
    Watch(String),
}

/// What the request asks for: to stop, where the root is blank, else to
/// watch the root, trimmed.
pub open spec fn watch_request_of(root: Seq<char>) -> Option<Seq<char>> {
    if trimmed(root).len() == 0 {
        None
    } else {
        Some(trimmed(root))
    }
}

impl WatchWorkspaceArgs {
    /// What the request asks for.
    pub fn request(&self) -> (request: WatchRequest)
        ensures
            match request {
                WatchRequest::Stop => watch_request_of(self.workspace_root@) is None,
                WatchRequest::Watch(root) => watch_request_of(self.workspace_root@) == Some(root@),
            },
    {
        let root = trim_chars(&chars_of(self.workspace_root.as_str()));
        if root.len() == 0 {
            WatchRequest::Stop
        } else {
            WatchRequest::Watch(string_of(&root))
        }
    }
}

/// One change that waits to be told.
struct Pending {
    path: String,
    kind: FileChangeKind,
}

/// The changes that a sequence of pending entries stands for: for each
/// path, what happened to it last.
spec fn changes_of(entries: Seq<Pending>) -> Map<Seq<char>, FileChangeKind>
    decreases entries.len(),
{
    if entries.len() == 0 {
        Map::empty()
    } else {
        changes_of(entries.drop_last()).insert(entries.last().path@, entries.last().kind)
    }
}

/// No path occurs twice.
spec fn distinct_paths(entries: Seq<Pending>) -> bool {
    forall|i: int, j: int|
        #![trigger entries[i], entries[j]]
        0 <= i < j < entries.len() ==> entries[i].path@ != entries[j].path@
}

proof fn lemma_changes_absent(entries: Seq<Pending>, path: Seq<char>)
    requires
        forall|i: int| 0 <= i < entries.len() ==> (#[trigger] entries[i]).path@ != path,
    ensures
        !changes_of(entries).contains_key(path),
    decreases entries.len(),
{
    if entries.len() > 0 {
        lemma_changes_absent(entries.drop_last(), path);
    }
}

proof fn lemma_changes_present(entries: Seq<Pending>, i: int)
    requires
        0 <= i < entries.len(),
        distinct_paths(entries),
    ensures
        changes_of(entries).contains_key(entries[i].path@),
        changes_of(entries)[entries[i].path@] == entries[i].kind,
    decreases entries.len(),
{
    if i < entries.len() - 1 {
        let front = entries.drop_last();
        assert(distinct_paths(front)) by {
            assert forall|a: int, b: int|
                #![trigger front[a], front[b]]
                0 <= a < b < front.len() implies front[a].path@ != front[b].path@ by {
                assert(front[a] == entries[a] && front[b] == entries[b]);
            }
        }
        lemma_changes_present(front, i);
        assert(entries[i].path@ != entries[entries.len() - 1].path@);
    }
}

proof fn lemma_changes_covered(entries: Seq<Pending>, path: Seq<char>)
    requires
        changes_of(entries).contains_key(path),
    ensures
        exists|i: int| 0 <= i < entries.len() && (#[trigger] entries[i]).path@ == path,
    decreases entries.len(),
{
    if entries.len() > 0 {
        if entries.last().path@ == path {
            assert(entries[entries.len() - 1].path@ == path);
        } else {
            lemma_changes_covered(entries.drop_last(), path);
            let i = choose|i: int|
                0 <= i < entries.drop_last().len() && (#[trigger] entries.drop_last()[i]).path@
                    == path;
            assert(entries[i].path@ == path);
        }
    }
}

/// Where the entry of `path` stands, if there is one.
fn find_pending(pending: &Vec<Pending>, path: &str) -> (at: Option<usize>)
    ensures
        match at {
            Some(i) => i < pending.len() && pending@[i as int].path@ == path@,
            None => forall|k: int| 0 <= k < pending.len() ==> (#[trigger] pending@[k]).path@ != path@,
        },
{
    let mut i: usize = 0;
    while i < pending.len()
        invariant
            i <= pending.len(),
            forall|k: int| 0 <= k < i ==> (#[trigger] pending@[k]).path@ != path@,
        decreases pending.len() - i,
    {
        if text_eq(pending[i].path.as_str(), path) {
            return Some(i);
        }
        i += 1;
    }
    None
}

/// The changes that wait to be told: for each path, what happened to it
/// last. Changes are collected while they keep coming, and told together
/// once none has come for a while.
pub struct Debouncer {
    pending: Vec<Pending>,
}

impl View for Debouncer {
    type V = Map<Seq<char>, FileChangeKind>;

    closed spec fn view(&self) -> Map<Seq<char>, FileChangeKind> {
        changes_of(self.pending@)
    }
}

/// What is told of the changes `pending`: each path once, with what
/// happened to it last, and no other.
pub open spec fn tells(out: Seq<WorkspaceFileChangedPayload>, pending: Map<Seq<char>, FileChangeKind>) -> bool {
    &&& forall|i: int|
        0 <= i < out.len() ==> pending.contains_key((#[trigger] out[i]).path@) && pending[out[i].path@]
            == out[i].kind
    &&& forall|i: int, j: int|
        #![trigger out[i], out[j]]
        0 <= i < j < out.len() ==> out[i].path@ != out[j].path@
    &&& forall|path: Seq<char>|
        pending.contains_key(path) ==> exists|i: int|
            0 <= i < out.len() && (#[trigger] out[i]).path@ == path
}

impl Debouncer {
    #[verifier::type_invariant]
    spec fn paths_are_distinct(&self) -> bool {
        distinct_paths(self.pending@)
    }

    /// Nothing waits.
    pub fn new() -> (debouncer: Debouncer)
        ensures
            debouncer@ == Map::<Seq<char>, FileChangeKind>::empty(),
    {
        Debouncer { pending: Vec::new() }
    }

    /// Whether nothing waits.
    pub fn is_empty(&self) -> (empty: bool)
        ensures
            empty == (self@ == Map::<Seq<char>, FileChangeKind>::empty()),
    {
        proof {
            if self.pending.len() > 0 {
                let last = self.pending@.last();
                assert(changes_of(self.pending@).contains_key(last.path@));
            }
        }
        self.pending.len() == 0
    }

    /// Takes note of a change: what happened to the path last is what counts.
    pub fn record(&mut self, path: String, kind: FileChangeKind)
        ensures
            final(self)@ == old(self)@.insert(path@, kind),
    {
        proof {
            use_type_invariant(&*self);
        }
        let ghost before = self.pending@;
        let mut pending: Vec<Pending> = Vec::new();
        core::mem::swap(&mut pending, &mut self.pending);
        match find_pending(&pending, path.as_str()) {
            Some(i) => {
                let found = Pending { path, kind };
                pending[i] = found;
                proof {
                    lemma_changes_replace(before, i as int, found);
                    assert(pending@ == before.update(i as int, found));
                    assert forall|a: int, b: int|
                        #![trigger pending@[a], pending@[b]]
                        0 <= a < b < pending.len() implies pending@[a].path@ != pending@[b].path@ by {
                        assert(before[a].path@ != before[b].path@);
                        assert(pending@[a].path@ == before[a].path@);
                        assert(pending@[b].path@ == before[b].path@);
                    }
                }
            },
            None => {
                proof {
                    lemma_changes_absent(before, path@);
                }
                let added = Pending { path, kind };
                pending.push(added);
                proof {
                    assert(pending@.drop_last() == before);
                    assert forall|a: int, b: int|
                        #![trigger pending@[a], pending@[b]]
                        0 <= a < b < pending.len() implies pending@[a].path@ != pending@[b].path@ by {
                        if b < before.len() {
                            assert(before[a].path@ != before[b].path@);
                        } else {
                            assert(before[a].path@ != added.path@);
                        }
                    }
                }
            },
        }
        self.pending = pending;
    }

    /// Hands out everything that waits, to be told, and waits for nothing
    /// any more.
    pub fn flush(&mut self) -> (out: Vec<WorkspaceFileChangedPayload>)
        ensures
            tells(out@, old(self)@),
            final(self)@ == Map::<Seq<char>, FileChangeKind>::empty(),
    {
        proof {
            use_type_invariant(&*self);
        }
        let ghost before = self.pending@;
        let mut pending: Vec<Pending> = Vec::new();
        core::mem::swap(&mut pending, &mut self.pending);
        let mut out: Vec<WorkspaceFileChangedPayload> = Vec::new();
        let mut i: usize = 0;
        while i < pending.len()
            invariant
                i <= pending.len(),
                pending@ == before,
                out.len() == i,
                forall|k: int|
                    0 <= k < i ==> (#[trigger] out@[k]).path@ == before[k].path@ && out@[k].kind
                        == before[k].kind,
            decreases pending.len() - i,
        {
            out.push(
                WorkspaceFileChangedPayload { path: pending[i].path.clone(), kind: pending[i].kind },
            );
            i += 1;
        }
        proof {
            assert forall|k: int| 0 <= k < out.len() implies changes_of(before).contains_key(
                (#[trigger] out@[k]).path@,
            ) && changes_of(before)[out@[k].path@] == out@[k].kind by {
                lemma_changes_present(before, k);
            }
            assert forall|a: int, b: int|
                #![trigger out@[a], out@[b]]
                0 <= a < b < out.len() implies out@[a].path@ != out@[b].path@ by {
                assert(before[a].path@ != before[b].path@);
            }
            assert forall|path: Seq<char>| changes_of(before).contains_key(path) implies exists|
                k: int,
            |
                0 <= k < out.len() && (#[trigger] out@[k]).path@ == path by {
                lemma_changes_covered(before, path);
                let k = choose|k: int| 0 <= k < before.len() && (#[trigger] before[k]).path@ == path;
                assert(out@[k].path@ == path);
            }
        }
        out
    }
}

proof fn lemma_changes_replace(entries: Seq<Pending>, i: int, found: Pending)
    requires
        0 <= i < entries.len(),
        distinct_paths(entries),
        found.path@ == entries[i].path@,
    ensures
        changes_of(entries.update(i, found)) == changes_of(entries).insert(
            entries[i].path@,
            found.kind,
        ),
    decreases entries.len(),
{
    let front = entries.drop_last();
    let changed = entries.update(i, found);
    if i == entries.len() - 1 {
        assert(changed.drop_last() == front);
        assert(changes_of(changed) =~= changes_of(entries).insert(entries[i].path@, found.kind));
    } else {
        assert(distinct_paths(front)) by {
            assert forall|a: int, b: int|
                #![trigger front[a], front[b]]
                0 <= a < b < front.len() implies front[a].path@ != front[b].path@ by {
                assert(front[a] == entries[a] && front[b] == entries[b]);
            }
        }
        lemma_changes_replace(front, i, found);
        assert(changed.drop_last() == front.update(i, found));
        assert(changed.last() == entries.last());
        assert(entries[i].path@ != entries[entries.len() - 1].path@);
        assert(changes_of(changed) =~= changes_of(entries).insert(entries[i].path@, found.kind));
    }
}

} // verus!
