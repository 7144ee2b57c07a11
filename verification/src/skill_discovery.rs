//! Skills other tools have installed: where they are looked for.

use crate::paths::{join_path, joined};
use crate::text::{chars_of, opt_view, slice_chars, string_of, trim_chars, trimmed, views};
use vstd::prelude::*;

verus! {

/// One skill that was found.
#[derive(Debug, Clone)]
pub struct ExternalSkillEntry {
    /// Which tool it belongs to.
    pub source: String,
    /// The skill's name: the name of its directory.
    pub name: String,
    /// Where its `SKILL.md` is.
    pub path: String,
    /// What its `SKILL.md` holds.
    pub content: String,
}

/// `s` without every `~` followed by `mark` that it starts with.
pub open spec fn without_home_marks(s: Seq<char>, mark: char) -> Seq<char>
    decreases s.len(),
{
    if s.len() >= 2 && s[0] == '~' && s[1] == mark {
        without_home_marks(s.skip(2), mark)
    } else {
        s
    }
}

/// The path that a configured skill directory stands for: trimmed and, where
/// there is a home directory, with the home shorthand expanded. `~` is the
/// home directory itself; `~/` or `~\` and a path is that path below it.
pub open spec fn expanded_path(p: Seq<char>, home: Option<Seq<char>>) -> Seq<char> {
    let s = trimmed(p);
    match home {
        Some(h) => if s == seq!['~'] {
            h
        } else if s.len() >= 2 && s[0] == '~' && s[1] == '/' {
            joined(h, without_home_marks(s, '/'))
        } else if s.len() >= 2 && s[0] == '~' && s[1] == '\\' {
            joined(h, without_home_marks(s, '\\'))
        } else {
            s
        },
        None => s,
    }
}

/// `s` from the first place on where it does not go on with `~` and `mark`.
fn skip_home_marks(s: &Vec<char>, mark: char) -> (out: Vec<char>)
    ensures
        out@ == without_home_marks(s@, mark),
{
    let mut at: usize = 0;
    assert(s@.skip(0) == s@);
    while s.len() - at >= 2 && s[at] == '~' && s[at + 1] == mark
        invariant
            at <= s.len(),
            without_home_marks(s@, mark) == without_home_marks(s@.skip(at as int), mark),
        decreases s.len() - at,
    {
        assert(s@.skip(at as int).skip(2) == s@.skip(at + 2));
        at += 2;
    }
    let out = slice_chars(s, at, s.len());
    assert(s@.subrange(at as int, s.len() as int) == s@.skip(at as int));
    out
}

/// The path that a configured skill directory stands for, given the user's
/// home directory, if there is one.
pub fn expand_path(p: &str, home: Option<&str>) -> (out: String)
    ensures
        out@ == expanded_path(p@, opt_view(home)),
{
    let s = trim_chars(&chars_of(p));
    let h = match home {
        Some(h) => h,
        None => {
            return string_of(&s);
        },
    };
    if s.len() == 1 && s[0] == '~' {
        assert(s@ =~= seq!['~']);
        return h.to_string();
    }
    if s.len() >= 2 && s[0] == '~' && (s[1] == '/' || s[1] == '\\') {
        let rest = skip_home_marks(&s, s[1]);
        let rest = string_of(&rest);
        return join_path(h, rest.as_str());
    }
    string_of(&s)
}

/// The name of the file that describes a skill.
pub const SKILL_FILENAME: &'static str = "SKILL.md";

/// The largest skill file that is read, in bytes.
pub const MAX_SKILL_BYTES: u64 = 524_288;

/// A directory to look for skills in, and the tool its skills belong to.
#[derive(Debug)]
pub struct SkillRoot {
    pub path: String,
    pub source: String,
}

/// The mathematical content of a [`SkillRoot`]: path and source.
pub open spec fn root_view(root: SkillRoot) -> (Seq<char>, Seq<char>) {
    (root.path@, root.source@)
}

/// The views of the roots, in order.
pub open spec fn root_views(roots: Seq<SkillRoot>) -> Seq<(Seq<char>, Seq<char>)> {
    roots.map_values(|r: SkillRoot| root_view(r))
}

/// The given directories below `base`.
pub open spec fn below_base(base: Seq<char>, dirs: Seq<(Seq<char>, Seq<char>)>) -> Seq<
    (Seq<char>, Seq<char>),
> {
    dirs.map_values(|d: (Seq<char>, Seq<char>)| (crate::paths::joined(base, d.0), d.1))
}

/// The configured directories, expanded, as roots of custom skills.
pub open spec fn custom_roots_of(custom: Seq<Seq<char>>, home: Option<Seq<char>>) -> Seq<
    (Seq<char>, Seq<char>),
> {
    custom.map_values(|p: Seq<char>| (expanded_path(p, home), "custom"@))
}

/// Whether a skill file of this size is read.
pub fn is_readable_skill(len: u64) -> (readable: bool)
    ensures
        readable == (len <= MAX_SKILL_BYTES),
{
    len <= MAX_SKILL_BYTES
}

/// Appends the given directories below `base` to `roots`.
fn push_below(roots: &mut Vec<SkillRoot>, base: &str, dirs: &Vec<SkillRoot>)
    ensures
        root_views(final(roots)@) == root_views(old(roots)@) + below_base(base@, root_views(dirs@)),
{
    let ghost before = root_views(roots@);
    let ghost all = below_base(base@, root_views(dirs@));
    let mut i: usize = 0;
    assert(root_views(roots@) =~= before + all.take(0));
    while i < dirs.len()
        invariant
            i <= dirs.len(),
            all == below_base(base@, root_views(dirs@)),
            root_views(roots@) == before + all.take(i as int),
        decreases dirs.len() - i,
    {
        let ghost sofar = root_views(roots@);
        let root = SkillRoot {
            path: join_path(base, dirs[i].path.as_str()),
            source: dirs[i].source.clone(),
        };
        roots.push(root);
        assert(root_views(roots@) =~= sofar.push(all[i as int]));
        assert(all.take(i + 1) == all.take(i as int).push(all[i as int]));
        i += 1;
    }
    assert(all.take(dirs.len() as int) == all);
}

/// The directories where skills are looked for, in the order in which they
/// are searched: the tools' directories below the home directory; the
/// directory of skills that came with the application; the configured
/// directories; and the skill directories of the workspace, where one is
/// named. Which of them exist is for the caller to find out.
pub open spec fn skill_roots_of(
    home: Option<Seq<char>>,
    home_dirs: Seq<(Seq<char>, Seq<char>)>,
    bundled: Option<Seq<char>>,
    custom: Seq<Seq<char>>,
    workspace: Option<Seq<char>>,
    workspace_dirs: Seq<(Seq<char>, Seq<char>)>,
) -> Seq<(Seq<char>, Seq<char>)> {
    (match home {
        Some(h) => below_base(h, home_dirs),
        None => Seq::empty(),
    }) + (match bundled {
        Some(b) => seq![(b, "office"@)],
        None => Seq::empty(),
    }) + custom_roots_of(custom, home) + (match workspace {
        Some(w) => if w.len() > 0 {
            below_base(w, workspace_dirs)
        } else {
            Seq::empty()
        },
        None => Seq::empty(),
    })
}

/// The directories where skills are looked for, in the order in which they
/// are searched. `home_dirs` are the directories, seen from the home
/// directory, where tools keep their skills, each with the tool's name;
/// `workspace_dirs` the same for a workspace.
pub fn skill_roots(
    home: Option<&str>,
    home_dirs: &Vec<SkillRoot>,
    bundled: Option<&str>,
    custom: &Vec<String>,
    workspace: Option<&str>,
    workspace_dirs: &Vec<SkillRoot>,
) -> (roots: Vec<SkillRoot>)
    ensures
        root_views(roots@) == skill_roots_of(
            opt_view(home),
            root_views(home_dirs@),
            opt_view(bundled),
            views(custom@),
            opt_view(workspace),
            root_views(workspace_dirs@),
        ),
{
    let mut roots: Vec<SkillRoot> = Vec::new();
    assert(root_views(roots@) =~= Seq::empty());
    match home {
        Some(h) => {
            push_below(&mut roots, h, home_dirs);
        },
        None => {},
    }
    let ghost first = root_views(roots@);
    match bundled {
        Some(b) => {
            let ghost sofar = root_views(roots@);
            let root = SkillRoot { path: b.to_string(), source: "office".to_string() };
            roots.push(root);
            assert(root_views(roots@) =~= sofar.push((b@, "office"@)));
        },
        None => {},
    }
    let ghost second = root_views(roots@);
    assert(second =~= first + (match opt_view(bundled) {
        Some(b) => seq![(b, "office"@)],
        None => Seq::empty(),
    }));
    let ghost customs = custom_roots_of(views(custom@), opt_view(home));
    let mut i: usize = 0;
    assert(root_views(roots@) =~= second + customs.take(0));
    while i < custom.len()
        invariant
            i <= custom.len(),
            customs == custom_roots_of(views(custom@), opt_view(home)),
            root_views(roots@) == second + customs.take(i as int),
        decreases custom.len() - i,
    {
        let ghost sofar = root_views(roots@);
        let root = SkillRoot {
            path: expand_path(custom[i].as_str(), home),
            source: "custom".to_string(),
        };
        roots.push(root);
        assert(root_views(roots@) =~= sofar.push(customs[i as int]));
        assert(customs.take(i + 1) == customs.take(i as int).push(customs[i as int]));
        i += 1;
    }
    assert(customs.take(custom.len() as int) == customs);
    match workspace {
        Some(w) => {
            if w.unicode_len() > 0 {
                push_below(&mut roots, w, workspace_dirs);
            }
        },
        None => {},
    }
    assert(root_views(roots@) =~= skill_roots_of(
        opt_view(home),
        root_views(home_dirs@),
        opt_view(bundled),
        views(custom@),
        opt_view(workspace),
        root_views(workspace_dirs@),
    ));
    roots
}

/// The name of the skill whose `SKILL.md` lies directly in the root: the
/// name of the root directory, or the source where the root has no name.
pub fn flat_skill_name(root: &str, source: &str) -> (name: String)
    ensures
        name@ == (match crate::paths::file_name(root@) {
            Some(n) => n,
            None => source@,
        }),
{
    if crate::paths::has_no_name(root) {
        source.to_string()
    } else {
        let chars = chars_of(root);
        let mut parts = crate::paths::path_components(&chars);
        let ghost all = crate::text::seqs(parts@);
        let last = parts.pop().unwrap();
        assert(last@ == all.last());
        string_of(&last)
    }
}

/// One skill that was found in `dir`, a root or a directory below a root.
pub fn skill_entry(source: &str, name: String, dir: &str, content: String) -> (entry: ExternalSkillEntry)
    ensures
        entry.source@ == source@,
        entry.name@ == name@,
        entry.path@ == crate::paths::joined(dir@, SKILL_FILENAME@),
        entry.content@ == content@,
{
    ExternalSkillEntry {
        source: source.to_string(),
        name,
        path: join_path(dir, SKILL_FILENAME),
        content,
    }
}

} // verus!
