//! Paths as text, read by the POSIX rules: components are separated by `/`,
//! a leading `/` is the root, empty components and inner `.` components do
//! not count.
//!
//! A path's components are texts. The root is the component `/`, which no
//! name can be; `.` and `..` stand for themselves.

use crate::text::{chars_of, join_with, seqs, split, split_chars};
use vstd::prelude::*;

verus! {

/// Whether the path starts at the root.
pub open spec fn is_absolute(p: Seq<char>) -> bool {
    p.len() > 0 && p[0] == '/'
}

/// The component that stands for the root.
pub open spec fn root() -> Seq<char> {
    seq!['/']
}

/// The component that stands for the current directory.
pub open spec fn cur_dir() -> Seq<char> {
    seq!['.']
}

/// The component that stands for the parent directory.
pub open spec fn parent_dir() -> Seq<char> {
    seq!['.', '.']
}

/// Whether a component is the name of an entry: not the root, not `.` and
/// not `..`.
pub open spec fn is_name(part: Seq<char>) -> bool {
    part != root() && part != cur_dir() && part != parent_dir()
}

/// The pieces between slashes that count as components: the non-empty ones,
/// without `.` unless it is the very first piece of a relative path.
pub open spec fn kept(pieces: Seq<Seq<char>>, absolute: bool) -> Seq<Seq<char>>
    decreases pieces.len(),
{
    if pieces.len() == 0 {
        Seq::empty()
    } else {
        let front = kept(pieces.drop_last(), absolute);
        let piece = pieces.last();
        if piece.len() == 0 {
            front
        } else if piece == cur_dir() && (absolute || pieces.len() > 1) {
            front
        } else {
            front.push(piece)
        }
    }
}

/// The components of a path.
pub open spec fn components(p: Seq<char>) -> Seq<Seq<char>> {
    (if is_absolute(p) {
        seq![root()]
    } else {
        Seq::empty()
    }) + kept(split(p, '/'), is_absolute(p))
}

/// Whether `path` lies inside `root`: it is `root` itself or an entry below
/// it. The components of `root` are the first components of `path`; that
/// the text of one starts with the text of the other is not enough.
pub open spec fn lies_inside(root: Seq<char>, path: Seq<char>) -> bool {
    components(root).is_prefix_of(components(path))
}

/// The components of `parts` with `.` dropped and each `..` taking with it
/// the name before it; a `..` with no name before it is dropped.
pub open spec fn resolved(parts: Seq<Seq<char>>) -> Seq<Seq<char>>
    decreases parts.len(),
{
    if parts.len() == 0 {
        Seq::empty()
    } else {
        let front = resolved(parts.drop_last());
        let part = parts.last();
        if part == cur_dir() {
            front
        } else if part == parent_dir() {
            if front.len() > 0 && front.last() != root() {
                front.drop_last()
            } else {
                front
            }
        } else {
            front.push(part)
        }
    }
}

/// Resolving leaves no `.` and no `..` behind: what is left are the root,
/// if the path started there, and names.
pub proof fn lemma_resolved_has_no_dots(parts: Seq<Seq<char>>)
    ensures
        forall|i: int|
            0 <= i < resolved(parts).len() ==> #[trigger] resolved(parts)[i] != cur_dir()
                && resolved(parts)[i] != parent_dir(),
    decreases parts.len(),
{
    if parts.len() > 0 {
        let front = resolved(parts.drop_last());
        let part = parts.last();
        lemma_resolved_has_no_dots(parts.drop_last());
        assert forall|i: int| 0 <= i < resolved(parts).len() implies #[trigger] resolved(
            parts,
        )[i] != cur_dir() && resolved(parts)[i] != parent_dir() by {
            if part == cur_dir() {
                assert(resolved(parts)[i] == front[i]);
            } else if part == parent_dir() {
                assert(resolved(parts)[i] == front[i]);
            } else if i < front.len() {
                assert(resolved(parts)[i] == front[i]);
            } else {
                assert(resolved(parts)[i] == part);
            }
        }
    }
}

/// Resolving never climbs above where the path starts: the root, where the
/// components start with it, stays the first component.
pub proof fn lemma_resolved_keeps_root(parts: Seq<Seq<char>>)
    requires
        parts.len() > 0,
        parts[0] == root(),
    ensures
        resolved(parts).len() > 0,
        resolved(parts)[0] == root(),
    decreases parts.len(),
{
    let front = resolved(parts.drop_last());
    let part = parts.last();
    if parts.len() > 1 {
        assert(parts.drop_last()[0] == parts[0]);
        lemma_resolved_keeps_root(parts.drop_last());
        if part == parent_dir() && front.last() != root() {
            assert(front.len() >= 2);
            assert(front.drop_last()[0] == front[0]);
        } else if part != cur_dir() && part != parent_dir() {
            assert(front.push(part)[0] == front[0]);
        }
    } else {
        assert(front.len() == 0);
        assert(part == root());
        assert(root().len() == 1 && root()[0] == '/');
        assert(cur_dir()[0] == '.');
        assert(parent_dir().len() == 2);
        assert(resolved(parts) == front.push(part));
    }
}

/// The path with the given components, as text.
pub open spec fn rendered(parts: Seq<Seq<char>>) -> Seq<char> {
    if parts.len() > 0 && parts[0] == root() {
        root() + join_with(parts.skip(1), seq!['/'])
    } else {
        join_with(parts, seq!['/'])
    }
}

/// The path with `.` and `..` resolved by the text alone, without a look at
/// the disk.
pub open spec fn normalized(p: Seq<char>) -> Seq<char> {
    rendered(resolved(components(p)))
}

/// `path` seen from `base`: `path` itself if it is absolute, else `base`,
/// a slash unless `base` is empty or ends in one, and `path`.
pub open spec fn joined(base: Seq<char>, path: Seq<char>) -> Seq<char> {
    if is_absolute(path) {
        path
    } else if base.len() == 0 || base.last() == '/' {
        base + path
    } else {
        base + seq!['/'] + path
    }
}

/// The name of the entry the path ends in, if it ends in one.
pub open spec fn file_name(p: Seq<char>) -> Option<Seq<char>> {
    let parts = components(p);
    if parts.len() > 0 && is_name(parts.last()) {
        Some(parts.last())
    } else {
        None
    }
}

/// Where the last `.` of `name` stands, or -1 if it has none.
pub open spec fn last_dot(name: Seq<char>) -> int
    decreases name.len(),
{
    if name.len() == 0 {
        -1
    } else if name.last() == '.' {
        name.len() - 1
    } else {
        last_dot(name.drop_last())
    }
}

/// The extension of a file name: what follows its last `.`, unless the name
/// has no `.` or only the one it starts with.
pub open spec fn name_extension(name: Seq<char>) -> Option<Seq<char>> {
    if last_dot(name) <= 0 {
        None
    } else {
        Some(name.skip(last_dot(name) + 1))
    }
}

/// The extension of the entry the path ends in.
pub open spec fn extension(p: Seq<char>) -> Option<Seq<char>> {
    match file_name(p) {
        Some(name) => name_extension(name),
        None => None,
    }
}

/// Whether two character vectors hold the same characters.
pub fn same_chars(a: &Vec<char>, b: &Vec<char>) -> (same: bool)
    ensures
        same == (a@ == b@),
{
    if a.len() != b.len() {
        return false;
    }
    let mut i: usize = 0;
    while i < a.len()
        invariant
            i <= a.len(),
            a.len() == b.len(),
            forall|k: int| 0 <= k < i ==> a@[k] == b@[k],
        decreases a.len() - i,
    {
        if a[i] != b[i] {
            return false;
        }
        i += 1;
    }
    assert(a@ =~= b@);
    true
}

/// Whether the component is `.`.
fn is_cur_dir(part: &Vec<char>) -> (yes: bool)
    ensures
        yes == (part@ == cur_dir()),
{
    let yes = part.len() == 1 && part[0] == '.';
    proof {
        if yes {
            assert(part@ =~= cur_dir());
        }
    }
    yes
}

/// Whether the component is `..`.
fn is_parent_dir(part: &Vec<char>) -> (yes: bool)
    ensures
        yes == (part@ == parent_dir()),
{
    let yes = part.len() == 2 && part[0] == '.' && part[1] == '.';
    proof {
        if yes {
            assert(part@ =~= parent_dir());
        }
    }
    yes
}

/// Whether the component is the root.
fn is_root(part: &Vec<char>) -> (yes: bool)
    ensures
        yes == (part@ == root()),
{
    let yes = part.len() == 1 && part[0] == '/';
    proof {
        if yes {
            assert(part@ =~= root());
        }
    }
    yes
}

/// Whether the path starts at the root.
pub fn starts_at_root(p: &Vec<char>) -> (absolute: bool)
    ensures
        absolute == is_absolute(p@),
{
    p.len() > 0 && p[0] == '/'
}

/// The components of the path `p`.
pub fn path_components(p: &Vec<char>) -> (parts: Vec<Vec<char>>)
    ensures
        seqs(parts@) == components(p@),
{
    let absolute = starts_at_root(p);
    let mut pieces = split_chars(p, '/');
    let ghost all = seqs(pieces@);
    let mut parts: Vec<Vec<char>> = Vec::new();
    if absolute {
        let mut slash: Vec<char> = Vec::new();
        slash.push('/');
        assert(slash@ =~= root());
        parts.push(slash);
    }
    let ghost head = seqs(parts@);
    assert(head =~= if absolute {
        seq![root()]
    } else {
        Seq::empty()
    });
    let n = pieces.len();
    let mut i: usize = 0;
    assert(seqs(parts@) =~= head + kept(all.take(0), absolute));
    while i < n
        invariant
            i <= n,
            n == pieces.len(),
            all.len() == n,
            forall|k: int| i <= k < n ==> (#[trigger] pieces@[k])@ == all[k],
            seqs(parts@) == head + kept(all.take(i as int), absolute),
        decreases n - i,
    {
        let ghost sofar = seqs(parts@);
        proof {
            assert(all.take(i + 1).drop_last() == all.take(i as int));
            assert(all.take(i + 1).last() == all[i as int]);
        }
        let mut piece: Vec<char> = Vec::new();
        core::mem::swap(&mut piece, &mut pieces[i]);
        assert(piece@ == all[i as int]);
        let skip = piece.len() == 0 || (is_cur_dir(&piece) && (absolute || i > 0));
        if !skip {
            parts.push(piece);
            assert(seqs(parts@) =~= sofar.push(piece@));
        }
        assert(seqs(parts@) =~= head + kept(all.take(i + 1), absolute));
        i += 1;
    }
    assert(all.take(n as int) == all);
    parts
}

/// The pieces `parts[from..to]`, joined by `/`.
fn join_range(parts: &Vec<Vec<char>>, from: usize, to: usize) -> (out: Vec<char>)
    requires
        from <= to <= parts.len(),
    ensures
        out@ == join_with(seqs(parts@).subrange(from as int, to as int), seq!['/']),
{
    let ghost tail = seqs(parts@).subrange(from as int, to as int);
    let mut out: Vec<char> = Vec::new();
    let mut i: usize = from;
    while i < to
        invariant
            from <= i <= to <= parts.len(),
            tail == seqs(parts@).subrange(from as int, to as int),
            out@ == join_with(tail.take(i - from), seq!['/']),
        decreases to - i,
    {
        let ghost before = tail.take(i - from);
        let ghost after = tail.take(i - from + 1);
        proof {
            assert(after.drop_last() == before);
            assert(after.last() == parts@[i as int]@);
        }
        if i > from {
            out.push('/');
        }
        let piece = &parts[i];
        let ghost start = out@;
        let mut k: usize = 0;
        while k < piece.len()
            invariant
                k <= piece.len(),
                out@ == start + piece@.take(k as int),
            decreases piece.len() - k,
        {
            out.push(piece[k]);
            assert(piece@.take(k + 1) == piece@.take(k as int).push(piece@[k as int]));
            k += 1;
        }
        proof {
            assert(piece@.take(piece.len() as int) == piece@);
            if i == from {
                assert(out@ =~= after[0]);
            } else {
                assert(out@ =~= join_with(before, seq!['/']) + seq!['/'] + after.last());
            }
        }
        i += 1;
    }
    assert(tail.take(to - from) == tail);
    out
}

/// The components `parts[from..]`, joined by `/`.
fn join_from(parts: &Vec<Vec<char>>, from: usize) -> (out: Vec<char>)
    requires
        from <= parts.len(),
    ensures
        out@ == join_with(seqs(parts@).skip(from as int), seq!['/']),
{
    let out = join_range(parts, from, parts.len());
    assert(seqs(parts@).subrange(from as int, parts.len() as int) == seqs(parts@).skip(from as int));
    out
}

/// The path with the given components, as text.
pub fn render(parts: &Vec<Vec<char>>) -> (out: Vec<char>)
    ensures
        out@ == rendered(seqs(parts@)),
{
    if parts.len() > 0 && is_root(&parts[0]) {
        let rest = join_from(parts, 1);
        let mut out: Vec<char> = Vec::new();
        out.push('/');
        let mut k: usize = 0;
        while k < rest.len()
            invariant
                k <= rest.len(),
                out@ == root() + rest@.take(k as int),
            decreases rest.len() - k,
        {
            out.push(rest[k]);
            assert(rest@.take(k + 1) == rest@.take(k as int).push(rest@[k as int]));
            k += 1;
        }
        assert(rest@.take(rest.len() as int) == rest@);
        out
    } else {
        let out = join_from(parts, 0);
        assert(seqs(parts@).skip(0) == seqs(parts@));
        out
    }
}

/// The components with `.` and `..` resolved.
pub fn resolve(parts: Vec<Vec<char>>) -> (out: Vec<Vec<char>>)
    ensures
        seqs(out@) == resolved(seqs(parts@)),
{
    let ghost all = seqs(parts@);
    let mut parts = parts;
    let n = parts.len();
    let mut out: Vec<Vec<char>> = Vec::new();
    let mut i: usize = 0;
    assert(seqs(out@) =~= resolved(all.take(0)));
    while i < n
        invariant
            i <= n,
            n == parts.len(),
            all.len() == n,
            forall|k: int| i <= k < n ==> (#[trigger] parts@[k])@ == all[k],
            seqs(out@) == resolved(all.take(i as int)),
        decreases n - i,
    {
        let ghost sofar = seqs(out@);
        proof {
            assert(all.take(i + 1).drop_last() == all.take(i as int));
            assert(all.take(i + 1).last() == all[i as int]);
        }
        let mut part: Vec<char> = Vec::new();
        core::mem::swap(&mut part, &mut parts[i]);
        assert(part@ == all[i as int]);
        if is_cur_dir(&part) {
        } else if is_parent_dir(&part) {
            if out.len() > 0 && !is_root(&out[out.len() - 1]) {
                out.pop();
                assert(seqs(out@) =~= sofar.drop_last());
            }
        } else {
            out.push(part);
            assert(seqs(out@) =~= sofar.push(part@));
        }
        i += 1;
    }
    assert(all.take(n as int) == all);
    out
}

/// Where the last `.` of `name` stands, if it has one.
pub fn find_last_dot(name: &Vec<char>) -> (at: Option<usize>)
    ensures
        match at {
            Some(i) => i == last_dot(name@) && i < name.len(),
            None => last_dot(name@) == -1,
        },
{
    let mut at: Option<usize> = None;
    let mut i: usize = 0;
    while i < name.len()
        invariant
            i <= name.len(),
            match at {
                Some(k) => k == last_dot(name@.take(i as int)) && k < i,
                None => last_dot(name@.take(i as int)) == -1,
            },
        decreases name.len() - i,
    {
        proof {
            assert(name@.take(i + 1).drop_last() == name@.take(i as int));
        }
        if name[i] == '.' {
            at = Some(i);
        }
        i += 1;
    }
    assert(name@.take(name.len() as int) == name@);
    at
}

/// The extension of the entry the path ends in, if it has one.
pub fn path_extension(p: &str) -> (ext: Option<Vec<char>>)
    ensures
        match ext {
            Some(e) => extension(p@) == Some(e@),
            None => extension(p@) is None,
        },
{
    let chars = chars_of(p);
    let mut parts = path_components(&chars);
    if parts.len() == 0 {
        return None;
    }
    let ghost all = seqs(parts@);
    let name = parts.pop().unwrap();
    assert(name@ == all.last());
    if is_root(&name) || is_cur_dir(&name) || is_parent_dir(&name) {
        return None;
    }
    match find_last_dot(&name) {
        Some(dot) => {
            if dot == 0 {
                None
            } else {
                let mut ext: Vec<char> = Vec::new();
                let mut k: usize = dot + 1;
                while k < name.len()
                    invariant
                        dot + 1 <= k <= name.len(),
                        ext@ == name@.subrange(dot + 1, k as int),
                    decreases name.len() - k,
                {
                    ext.push(name[k]);
                    k += 1;
                }
                assert(ext@ =~= name@.skip(dot + 1));
                Some(ext)
            }
        },
        None => None,
    }
}

/// Whether the component is the name of an entry.
pub fn is_name_part(part: &Vec<char>) -> (yes: bool)
    ensures
        yes == is_name(part@),
{
    !is_root(part) && !is_cur_dir(part) && !is_parent_dir(part)
}

/// Whether the path ends in no entry's name.
pub fn has_no_name(p: &str) -> (none: bool)
    ensures
        none == (file_name(p@) is None),
{
    let chars = chars_of(p);
    let mut parts = path_components(&chars);
    if parts.len() == 0 {
        return true;
    }
    let ghost all = seqs(parts@);
    let last = parts.pop().unwrap();
    assert(last@ == all.last());
    !is_name_part(&last)
}

/// `path` seen from `base`.
pub fn join_path(base: &str, path: &str) -> (out: String)
    ensures
        out@ == joined(base@, path@),
{
    let p = chars_of(path);
    if starts_at_root(&p) {
        return path.to_string();
    }
    let b = chars_of(base);
    let mut out = base.to_string();
    if b.len() > 0 && b[b.len() - 1] != '/' {
        out.append("/");
        proof {
            reveal_strlit("/");
            assert("/"@ =~= seq!['/']);
        }
    }
    out.append(path);
    out
}

/// Whether two lists of components are the same.
pub fn same_parts(a: &Vec<Vec<char>>, b: &Vec<Vec<char>>) -> (same: bool)
    ensures
        same == (seqs(a@) == seqs(b@)),
{
    if a.len() != b.len() {
        assert(seqs(a@).len() != seqs(b@).len());
        return false;
    }
    let mut i: usize = 0;
    while i < a.len()
        invariant
            i <= a.len(),
            a.len() == b.len(),
            forall|k: int| 0 <= k < i ==> seqs(a@)[k] == seqs(b@)[k],
        decreases a.len() - i,
    {
        if !same_chars(&a[i], &b[i]) {
            assert(seqs(a@)[i as int] != seqs(b@)[i as int]);
            return false;
        }
        i += 1;
    }
    assert(seqs(a@) =~= seqs(b@));
    true
}

/// Whether the components `parts` start with the components `prefix`.
pub fn starts_with_parts(parts: &Vec<Vec<char>>, prefix: &Vec<Vec<char>>) -> (yes: bool)
    ensures
        yes == seqs(prefix@).is_prefix_of(seqs(parts@)),
{
    if prefix.len() > parts.len() {
        return false;
    }
    let mut i: usize = 0;
    while i < prefix.len()
        invariant
            i <= prefix.len() <= parts.len(),
            forall|k: int| 0 <= k < i ==> seqs(prefix@)[k] == seqs(parts@)[k],
        decreases prefix.len() - i,
    {
        if !same_chars(&prefix[i], &parts[i]) {
            assert(seqs(prefix@)[i as int] != seqs(parts@).subrange(0, prefix.len() as int)[i as int]);
            return false;
        }
        i += 1;
    }
    assert(seqs(prefix@) =~= seqs(parts@).subrange(0, prefix.len() as int));
    true
}

/// Where the pieces that count as components stand among the pieces between
/// the slashes of a path.
pub open spec fn kept_places(pieces: Seq<Seq<char>>, absolute: bool) -> Seq<int>
    decreases pieces.len(),
{
    if pieces.len() == 0 {
        Seq::empty()
    } else {
        let front = kept_places(pieces.drop_last(), absolute);
        let piece = pieces.last();
        if piece.len() == 0 {
            front
        } else if piece == cur_dir() && (absolute || pieces.len() > 1) {
            front
        } else {
            front.push(pieces.len() - 1)
        }
    }
}

/// What is left of the text of a path when its first `consumed` components
/// are taken away: the text from its next component to its last, as it
/// stands, with whatever is between them. With nothing taken away it is the
/// path up to its last component, or the root alone; with no component left
/// it is empty.
pub open spec fn remainder(p: Seq<char>, consumed: int) -> Seq<char> {
    let pieces = split(p, '/');
    let places = kept_places(pieces, is_absolute(p));
    let skipped = if is_absolute(p) {
        consumed - 1
    } else {
        consumed
    };
    if places.len() == 0 {
        if consumed <= 0 && is_absolute(p) {
            root()
        } else {
            Seq::empty()
        }
    } else if consumed <= 0 {
        join_with(pieces.subrange(0, places.last() + 1), seq!['/'])
    } else if 0 <= skipped < places.len() {
        join_with(pieces.subrange(places[skipped], places.last() + 1), seq!['/'])
    } else {
        Seq::empty()
    }
}

/// `path` without the components of `base` that it starts with, as text; or
/// `None` if it does not start with them.
pub open spec fn stripped(path: Seq<char>, base: Seq<char>) -> Option<Seq<char>> {
    if components(base).is_prefix_of(components(path)) {
        Some(remainder(path, components(base).len() as int))
    } else {
        None
    }
}

/// Where the pieces that count as components stand.
fn places_of(pieces: &Vec<Vec<char>>, absolute: bool) -> (places: Vec<usize>)
    ensures
        places@.map_values(|i: usize| i as int) == kept_places(seqs(pieces@), absolute),
        forall|k: int| 0 <= k < places.len() ==> #[trigger] places@[k] < pieces.len(),
{
    let ghost all = seqs(pieces@);
    let mut places: Vec<usize> = Vec::new();
    let mut i: usize = 0;
    assert(places@.map_values(|i: usize| i as int) =~= kept_places(all.take(0), absolute));
    while i < pieces.len()
        invariant
            i <= pieces.len(),
            all == seqs(pieces@),
            places@.map_values(|i: usize| i as int) == kept_places(all.take(i as int), absolute),
            forall|k: int| 0 <= k < places.len() ==> #[trigger] places@[k] < i,
        decreases pieces.len() - i,
    {
        proof {
            assert(all.take(i + 1).drop_last() == all.take(i as int));
            assert(all.take(i + 1).last() == pieces@[i as int]@);
        }
        let ghost before = places@.map_values(|i: usize| i as int);
        let piece = &pieces[i];
        let skip = piece.len() == 0 || (is_cur_dir(piece) && (absolute || i > 0));
        if !skip {
            places.push(i);
            assert(places@.map_values(|i: usize| i as int) =~= before.push(i as int));
        }
        i += 1;
    }
    assert(all.take(pieces.len() as int) == all);
    places
}

/// `path` without the components of `base` that it starts with, as text.
pub fn strip_prefix(path: &str, base: &str) -> (rest: Option<Vec<char>>)
    ensures
        match rest {
            Some(r) => stripped(path@, base@) == Some(r@),
            None => stripped(path@, base@) is None,
        },
{
    let chars = chars_of(path);
    let base_parts = path_components(&chars_of(base));
    let parts = path_components(&chars);
    if !starts_with_parts(&parts, &base_parts) {
        return None;
    }
    let absolute = starts_at_root(&chars);
    let pieces = split_chars(&chars, '/');
    let places = places_of(&pieces, absolute);
    let ghost spots = kept_places(seqs(pieces@), absolute);
    proof {
        assert forall|k: int| 0 <= k < places.len() implies spots[k] == places@[k] by {
            assert(spots[k] == places@.map_values(|i: usize| i as int)[k]);
        }
    }
    let consumed = base_parts.len();
    if places.len() == 0 {
        let mut rest: Vec<char> = Vec::new();
        if consumed == 0 && absolute {
            rest.push('/');
            assert(rest@ =~= root());
        }
        return Some(rest);
    }
    let end: usize = places[places.len() - 1] + 1;
    if consumed == 0 {
        return Some(join_range(&pieces, 0, end));
    }
    let skipped: usize = if absolute {
        consumed - 1
    } else {
        consumed
    };
    if skipped < places.len() {
        let from = places[skipped];
        proof {
            lemma_kept_places_rise(seqs(pieces@), absolute, skipped as int, places.len() - 1);
        }
        Some(join_range(&pieces, from, end))
    } else {
        Some(Vec::new())
    }
}

/// The places of the pieces that count rise: a later one stands behind an
/// earlier one, and all stand among the pieces.
proof fn lemma_kept_places_rise(pieces: Seq<Seq<char>>, absolute: bool, i: int, j: int)
    requires
        0 <= i <= j < kept_places(pieces, absolute).len(),
    ensures
        0 <= kept_places(pieces, absolute)[i] <= kept_places(pieces, absolute)[j] < pieces.len(),
    decreases pieces.len(),
{
    let places = kept_places(pieces, absolute);
    let front = kept_places(pieces.drop_last(), absolute);
    if pieces.len() > 0 {
        if places.len() == front.len() {
            assert(places == front);
            lemma_kept_places_rise(pieces.drop_last(), absolute, i, j);
        } else {
            assert(places == front.push(pieces.len() - 1));
            if j < front.len() {
                lemma_kept_places_rise(pieces.drop_last(), absolute, i, j);
            } else if i < front.len() {
                lemma_kept_places_rise(pieces.drop_last(), absolute, i, i);
            }
        }
    }
}

/// Whether `path` lies inside `root`.
pub fn is_inside(root: &str, path: &str) -> (inside: bool)
    ensures
        inside == lies_inside(root@, path@),
{
    let base = path_components(&chars_of(root));
    let parts = path_components(&chars_of(path));
    starts_with_parts(&parts, &base)
}

/// Text without a slash, put behind a path, lengthens the path's last
/// piece and leaves the others.
proof fn lemma_split_longer_piece(p: Seq<char>, more: Seq<char>)
    requires
        forall|i: int| 0 <= i < more.len() ==> more[i] != '/',
    ensures
        split(p, '/').len() >= 1,
        split(p + more, '/') == split(p, '/').drop_last().push(split(p, '/').last() + more),
    decreases more.len(),
{
    crate::text::lemma_split_pieces(p, '/');
    let pieces = split(p, '/');
    if more.len() == 0 {
        assert(p + more =~= p);
        assert(pieces.last() + more =~= pieces.last());
        assert(pieces.drop_last().push(pieces.last()) =~= pieces);
    } else {
        lemma_split_longer_piece(p, more.drop_last());
        assert((p + more).drop_last() =~= p + more.drop_last());
        assert((p + more).last() == more.last());
        let front = split(p + more.drop_last(), '/');
        assert(front.drop_last() =~= pieces.drop_last());
        assert(front.last().push(more.last()) =~= pieces.last() + more);
    }
}

/// Whether the path ends in a component that counts: not in a slash and not
/// in a `.` piece.
pub open spec fn ends_in_component(p: Seq<char>) -> bool {
    p.len() > 0 && p.last() != '/' && split(p, '/').last() != cur_dir()
}

/// A sibling is outside: a path whose text is that of `base` with more
/// behind it, and no slash in what was added, does not lie inside `base`,
/// though its text starts with the text of `base`.
pub proof fn lemma_sibling_is_outside(base: Seq<char>, more: Seq<char>)
    requires
        ends_in_component(base),
        more.len() > 0,
        forall|i: int| 0 <= i < more.len() ==> more[i] != '/',
    ensures
        base.is_prefix_of(base + more),
        !lies_inside(base, base + more),
{
    let path = base + more;
    assert(base.is_prefix_of(path)) by {
        assert(path.subrange(0, base.len() as int) =~= base);
    }
    lemma_split_longer_piece(base, more);
    let pieces = split(base, '/');
    let last = pieces.last();
    let longer = last + more;
    let absolute = is_absolute(base);
    assert(is_absolute(path) == absolute);
    assert(last.len() > 0) by {
        crate::text::lemma_split_pieces(base.drop_last(), '/');
    }
    let others = pieces.drop_last();
    let changed = others.push(longer);
    assert(changed.drop_last() =~= others);
    assert(longer.len() >= 2);
    assert(cur_dir().len() == 1);
    let shared = (if absolute {
        seq![root()]
    } else {
        Seq::empty()
    }) + kept(others, absolute);
    assert(components(base) =~= shared.push(last));
    assert(components(path) =~= shared.push(longer));
    if lies_inside(base, path) {
        let at = shared.len() as int;
        assert(components(path).subrange(0, components(base).len() as int)[at] == components(
            base,
        )[at]);
        assert(longer.len() == last.len() + more.len());
    }
}

} // verus!
