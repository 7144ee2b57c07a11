//! Argument vectors for `bwrap`, the namespace-sandboxing front-end of Linux.
//!
//! Inside the sandbox only what is bound exists, and only what is bound
//! writable can be written. What the policy denies does not stay writable:
//! a writable path of the policy that is denied is not bound, and a denied
//! path at or inside something writable is bound read-only behind it.
//! `bwrap` mounts in the order of its arguments, so the later bind prevails.

use super::{
    command_view, expand_tilde_in, tilde_expanded, home_as_str, home_dir, PolicyView,
    SandboxPolicy,
};
use crate::paths::{components, is_inside, lies_inside, path_components};
use crate::text::{chars_of, contains_text, opt_view, push_text, views};
use vstd::prelude::*;

verus! {

/// What was found on the machine the command will run on.
#[derive(Debug, Clone)]
pub struct LinuxHost {
    /// Whether `bwrap` can be run.
    pub bwrap_available: bool,
    /// Whether `/lib64` exists.
    pub lib64_exists: bool,
    /// The paths of the policy, home shorthand expanded, that were found on
    /// disk.
    pub existing_paths: Vec<String>,
}

/// The mathematical content of a [`LinuxHost`].
pub struct LinuxHostView {
    pub bwrap_available: bool,
    pub lib64_exists: bool,
    pub existing_paths: Seq<Seq<char>>,
}

impl View for LinuxHost {
    type V = LinuxHostView;

    open spec fn view(&self) -> LinuxHostView {
        LinuxHostView {
            bwrap_available: self.bwrap_available,
            lib64_exists: self.lib64_exists,
            existing_paths: views(self.existing_paths@),
        }
    }
}

/// The three arguments that bind `path` to itself inside the sandbox.
pub open spec fn bind(flag: Seq<char>, path: Seq<char>) -> Seq<Seq<char>> {
    seq![flag, path, path]
}

/// The read-only system directories and the process and device trees.
pub open spec fn system_binds() -> Seq<Seq<char>> {
    bind("--ro-bind"@, "/usr"@) + bind("--ro-bind"@, "/lib"@) + bind("--ro-bind"@, "/bin"@) + bind(
        "--ro-bind"@,
        "/etc"@,
    ) + seq!["--proc"@, "/proc"@, "--dev"@, "/dev"@]
}

/// The read-only bind of `/lib64`, where the host has it.
pub open spec fn lib64_bind(lib64_exists: bool) -> Seq<Seq<char>> {
    if lib64_exists {
        bind("--ro-bind"@, "/lib64"@)
    } else {
        Seq::empty()
    }
}

/// Whether `above` names `path` or a directory above it. A text without
/// components names nothing.
pub open spec fn covers(above: Seq<char>, path: Seq<char>) -> bool {
    components(above).len() > 0 && lies_inside(above, path)
}

/// Whether one of the paths of `list` covers `path`.
pub open spec fn covered_by(list: Seq<Seq<char>>, path: Seq<char>) -> bool {
    exists|k: int| 0 <= k < list.len() && covers(#[trigger] list[k], path)
}

/// The paths with their home shorthand expanded against `home`.
pub open spec fn expanded(paths: Seq<Seq<char>>, home: Option<Seq<char>>) -> Seq<Seq<char>> {
    paths.map_values(|p: Seq<char>| tilde_expanded(p, home))
}

/// The paths of `allow` that are bound writable, in the order of `allow`:
/// those that exist on the host and that no path of `deny` covers.
pub open spec fn writable_paths(
    allow: Seq<Seq<char>>,
    deny: Seq<Seq<char>>,
    existing: Seq<Seq<char>>,
) -> Seq<Seq<char>>
    decreases allow.len(),
{
    if allow.len() == 0 {
        Seq::empty()
    } else {
        let front = writable_paths(allow.drop_last(), deny, existing);
        if existing.contains(allow.last()) && !covered_by(deny, allow.last()) {
            front.push(allow.last())
        } else {
            front
        }
    }
}

/// The paths of `deny` that are bound read-only again, in the order of
/// `deny`: those that exist on the host and lie inside a writable path. A
/// denied path outside every writable path is not bound: nothing can write
/// to it, and a bind would only open it to reading.
pub open spec fn protected_paths(
    deny: Seq<Seq<char>>,
    writable: Seq<Seq<char>>,
    existing: Seq<Seq<char>>,
) -> Seq<Seq<char>>
    decreases deny.len(),
{
    if deny.len() == 0 {
        Seq::empty()
    } else {
        let front = protected_paths(deny.drop_last(), writable, existing);
        if existing.contains(deny.last()) && covered_by(writable, deny.last()) {
            front.push(deny.last())
        } else {
            front
        }
    }
}

/// A bind with `flag` for each path of `paths`, in their order.
pub open spec fn binds(flag: Seq<char>, paths: Seq<Seq<char>>) -> Seq<Seq<char>>
    decreases paths.len(),
{
    if paths.len() == 0 {
        Seq::empty()
    } else {
        binds(flag, paths.drop_last()) + bind(flag, paths.last())
    }
}

/// The read-only bind that takes back a directory that every command gets,
/// where a path of `deny` covers the directory.
pub open spec fn taken_back(path: Seq<char>, deny: Seq<Seq<char>>) -> Seq<Seq<char>> {
    if covered_by(deny, path) {
        bind("--ro-bind"@, path)
    } else {
        Seq::empty()
    }
}

/// The directory that every command gets, if it stays writable.
pub open spec fn base_writable(path: Seq<char>, deny: Seq<Seq<char>>) -> Seq<Seq<char>> {
    if covered_by(deny, path) {
        Seq::empty()
    } else {
        seq![path]
    }
}

/// All that stays writable: the workspace and `/tmp` unless denied, and the
/// policy's writable paths that are bound.
pub open spec fn writable_mounts(
    workspace_root: Seq<char>,
    policy: PolicyView,
    host: LinuxHostView,
    home: Option<Seq<char>>,
) -> Seq<Seq<char>> {
    let deny = expanded(policy.deny_write, home);
    base_writable(workspace_root, deny) + base_writable("/tmp"@, deny) + writable_paths(
        expanded(policy.allow_write, home),
        deny,
        host.existing_paths,
    )
}

/// The flag that cuts the command off from the network, unless the policy
/// allows the network.
pub open spec fn network_flag(allow_network: bool) -> Seq<Seq<char>> {
    if allow_network {
        Seq::empty()
    } else {
        seq!["--unshare-net"@]
    }
}

/// The writable binds: the workspace, `/tmp`, and each of the policy's
/// writable paths that exists and is not denied.
pub open spec fn writable_section(
    workspace_root: Seq<char>,
    policy: PolicyView,
    host: LinuxHostView,
    home: Option<Seq<char>>,
) -> Seq<Seq<char>> {
    bind("--bind"@, workspace_root) + bind("--bind"@, "/tmp"@) + binds(
        "--bind"@,
        writable_paths(
            expanded(policy.allow_write, home),
            expanded(policy.deny_write, home),
            host.existing_paths,
        ),
    )
}

/// The read-only binds of what the policy denies: of the workspace and of
/// `/tmp` where they are denied, and of each denied path that exists inside
/// something that stays writable.
pub open spec fn denied_section(
    workspace_root: Seq<char>,
    policy: PolicyView,
    host: LinuxHostView,
    home: Option<Seq<char>>,
) -> Seq<Seq<char>> {
    let deny = expanded(policy.deny_write, home);
    taken_back(workspace_root, deny) + taken_back("/tmp"@, deny) + binds(
        "--ro-bind"@,
        protected_paths(
            deny,
            writable_mounts(workspace_root, policy, host, home),
            host.existing_paths,
        ),
    )
}

/// The arguments of `bwrap`: the system binds; `/lib64` where it exists; the
/// writable binds; the read-only binds of what the policy denies, which come
/// after every writable bind and so prevail; the network flag; and last the
/// command as `sh -c <cmd>`. The home shorthand of the policy's paths is
/// expanded.
pub open spec fn bwrap_args(
    cmd: Seq<char>,
    workspace_root: Seq<char>,
    policy: PolicyView,
    host: LinuxHostView,
    home: Option<Seq<char>>,
) -> Seq<Seq<char>> {
    system_binds() + lib64_bind(host.lib64_exists) + writable_section(
        workspace_root,
        policy,
        host,
        home,
    ) + denied_section(workspace_root, policy, host, home) + network_flag(policy.allow_network)
        + seq!["sh"@, "-c"@, cmd]
}

/// The invocation of `bwrap` for `cmd`, or `None` where `bwrap` is missing.
pub open spec fn bwrap_command(
    cmd: Seq<char>,
    workspace_root: Seq<char>,
    policy: PolicyView,
    host: LinuxHostView,
    home: Option<Seq<char>>,
) -> Option<(Seq<char>, Seq<Seq<char>>)> {
    if host.bwrap_available {
        Some(("bwrap"@, bwrap_args(cmd, workspace_root, policy, host, home)))
    } else {
        None
    }
}

/// The sandbox is available where `bwrap` is.
pub fn is_supported(host: &LinuxHost) -> (supported: bool)
    ensures
        supported == host.bwrap_available,
{
    host.bwrap_available
}

/// Appends the three arguments that bind `path` to itself.
fn push_bind(args: &mut Vec<String>, flag: &str, path: &str)
    ensures
        views(final(args)@) == views(old(args)@) + bind(flag@, path@),
{
    let ghost before = views(args@);
    push_text(args, flag);
    push_text(args, path);
    push_text(args, path);
    assert(views(args@) =~= before + bind(flag@, path@));
}

/// Whether `above` names `path` or a directory above it.
pub fn covers_path(above: &str, path: &str) -> (yes: bool)
    ensures
        yes == covers(above@, path@),
{
    let base = path_components(&chars_of(above));
    base.len() > 0 && is_inside(above, path)
}

/// Whether one of the paths of `list` covers `path`.
pub fn is_covered(list: &Vec<String>, path: &str) -> (yes: bool)
    ensures
        yes == covered_by(views(list@), path@),
{
    let mut i: usize = 0;
    while i < list.len()
        invariant
            i <= list.len(),
            forall|k: int| 0 <= k < i ==> !covers(#[trigger] views(list@)[k], path@),
        decreases list.len() - i,
    {
        if covers_path(list[i].as_str(), path) {
            assert(covers(views(list@)[i as int], path@));
            return true;
        }
        i += 1;
    }
    false
}

/// The paths with their home shorthand expanded.
fn expand_all(paths: &Vec<String>, home: Option<&str>) -> (out: Vec<String>)
    ensures
        views(out@) == expanded(views(paths@), opt_view(home)),
{
    let mut out: Vec<String> = Vec::new();
    let mut i: usize = 0;
    assert(views(out@) =~= expanded(views(paths@).take(0), opt_view(home)));
    while i < paths.len()
        invariant
            i <= paths.len(),
            views(out@) == expanded(views(paths@).take(i as int), opt_view(home)),
        decreases paths.len() - i,
    {
        let path = expand_tilde_in(paths[i].as_str(), home);
        push_text(&mut out, path.as_str());
        assert(views(out@) =~= expanded(views(paths@).take(i + 1), opt_view(home)));
        i += 1;
    }
    assert(views(paths@).take(paths.len() as int) == views(paths@));
    out
}

/// Appends the writable binds, and returns the paths that stay writable.
fn push_writable_binds(
    args: &mut Vec<String>,
    workspace_root: &str,
    allow: &Vec<String>,
    deny: &Vec<String>,
    existing: &Vec<String>,
) -> (writable: Vec<String>)
    ensures
        views(final(args)@) == views(old(args)@) + (bind("--bind"@, workspace_root@) + bind(
            "--bind"@,
            "/tmp"@,
        ) + binds("--bind"@, writable_paths(views(allow@), views(deny@), views(existing@)))),
        views(writable@) == base_writable(workspace_root@, views(deny@)) + base_writable(
            "/tmp"@,
            views(deny@),
        ) + writable_paths(views(allow@), views(deny@), views(existing@)),
{
    let ghost before = views(args@);
    let mut writable: Vec<String> = Vec::new();
    assert(views(writable@) =~= Seq::empty());
    push_bind(args, "--bind", workspace_root);
    if !is_covered(deny, workspace_root) {
        push_text(&mut writable, workspace_root);
    }
    push_bind(args, "--bind", "/tmp");
    if !is_covered(deny, "/tmp") {
        push_text(&mut writable, "/tmp");
    }
    let ghost fixed = views(args@);
    let ghost base = views(writable@);
    assert(fixed =~= before + (bind("--bind"@, workspace_root@) + bind("--bind"@, "/tmp"@)));
    assert(base =~= base_writable(workspace_root@, views(deny@)) + base_writable(
        "/tmp"@,
        views(deny@),
    ));
    let mut i: usize = 0;
    while i < allow.len()
        invariant
            i <= allow.len(),
            views(args@) == fixed + binds(
                "--bind"@,
                writable_paths(views(allow@).take(i as int), views(deny@), views(existing@)),
            ),
            views(writable@) == base + writable_paths(
                views(allow@).take(i as int),
                views(deny@),
                views(existing@),
            ),
        decreases allow.len() - i,
    {
        let path = allow[i].as_str();
        proof {
            assert(views(allow@).take(i + 1).drop_last() == views(allow@).take(i as int));
            assert(views(allow@).take(i + 1).last() == path@);
        }
        if contains_text(existing, path) && !is_covered(deny, path) {
            let ghost chosen = writable_paths(
                views(allow@).take(i + 1),
                views(deny@),
                views(existing@),
            );
            assert(chosen.drop_last() == writable_paths(
                views(allow@).take(i as int),
                views(deny@),
                views(existing@),
            ));
            push_bind(args, "--bind", path);
            push_text(&mut writable, path);
        }
        assert(views(args@) =~= fixed + binds(
            "--bind"@,
            writable_paths(views(allow@).take(i + 1), views(deny@), views(existing@)),
        ));
        assert(views(writable@) =~= base + writable_paths(
            views(allow@).take(i + 1),
            views(deny@),
            views(existing@),
        ));
        i += 1;
    }
    assert(views(allow@).take(allow.len() as int) == views(allow@));
    assert(views(args@) =~= before + (bind("--bind"@, workspace_root@) + bind("--bind"@, "/tmp"@)
        + binds("--bind"@, writable_paths(views(allow@), views(deny@), views(existing@)))));
    writable
}

/// Appends the read-only binds of what is denied.
fn push_denied_binds(
    args: &mut Vec<String>,
    workspace_root: &str,
    deny: &Vec<String>,
    writable: &Vec<String>,
    existing: &Vec<String>,
)
    ensures
        views(final(args)@) == views(old(args)@) + (taken_back(workspace_root@, views(deny@))
            + taken_back("/tmp"@, views(deny@)) + binds(
            "--ro-bind"@,
            protected_paths(views(deny@), views(writable@), views(existing@)),
        )),
{
    let ghost before = views(args@);
    if is_covered(deny, workspace_root) {
        push_bind(args, "--ro-bind", workspace_root);
    }
    if is_covered(deny, "/tmp") {
        push_bind(args, "--ro-bind", "/tmp");
    }
    let ghost fixed = views(args@);
    assert(fixed =~= before + (taken_back(workspace_root@, views(deny@)) + taken_back(
        "/tmp"@,
        views(deny@),
    )));
    let mut k: usize = 0;
    while k < deny.len()
        invariant
            k <= deny.len(),
            views(args@) == fixed + binds(
                "--ro-bind"@,
                protected_paths(views(deny@).take(k as int), views(writable@), views(existing@)),
            ),
        decreases deny.len() - k,
    {
        let path = deny[k].as_str();
        proof {
            assert(views(deny@).take(k + 1).drop_last() == views(deny@).take(k as int));
            assert(views(deny@).take(k + 1).last() == path@);
        }
        if contains_text(existing, path) && is_covered(writable, path) {
            let ghost chosen = protected_paths(
                views(deny@).take(k + 1),
                views(writable@),
                views(existing@),
            );
            assert(chosen.drop_last() == protected_paths(
                views(deny@).take(k as int),
                views(writable@),
                views(existing@),
            ));
            push_bind(args, "--ro-bind", path);
        }
        assert(views(args@) =~= fixed + binds(
            "--ro-bind"@,
            protected_paths(views(deny@).take(k + 1), views(writable@), views(existing@)),
        ));
        k += 1;
    }
    assert(views(deny@).take(deny.len() as int) == views(deny@));
    assert(views(args@) =~= before + (taken_back(workspace_root@, views(deny@)) + taken_back(
        "/tmp"@,
        views(deny@),
    ) + binds(
        "--ro-bind"@,
        protected_paths(views(deny@), views(writable@), views(existing@)),
    )));
}

/// The sandboxed form of `cmd` for `policy` on `workspace_root`, with the
/// home shorthand of the policy's paths expanded against `home`.
pub fn build_command_in(
    cmd: &str,
    workspace_root: &str,
    policy: &SandboxPolicy,
    host: &LinuxHost,
    home: Option<&str>,
) -> (command: Option<(String, Vec<String>)>)
    ensures
        command_view(command) == bwrap_command(
            cmd@,
            workspace_root@,
            policy@,
            host@,
            opt_view(home),
        ),
{
    if !host.bwrap_available {
        return None;
    }
    let deny = expand_all(&policy.deny_write, home);
    let allow = expand_all(&policy.allow_write, home);
    let mut args: Vec<String> = Vec::new();
    assert(views(args@) =~= Seq::empty());
    push_bind(&mut args, "--ro-bind", "/usr");
    push_bind(&mut args, "--ro-bind", "/lib");
    push_bind(&mut args, "--ro-bind", "/bin");
    push_bind(&mut args, "--ro-bind", "/etc");
    push_text(&mut args, "--proc");
    push_text(&mut args, "/proc");
    push_text(&mut args, "--dev");
    push_text(&mut args, "/dev");
    assert(views(args@) =~= system_binds());
    if host.lib64_exists {
        push_bind(&mut args, "--ro-bind", "/lib64");
    }
    let ghost head = views(args@);
    assert(head =~= system_binds() + lib64_bind(host.lib64_exists));
    let writable = push_writable_binds(
        &mut args,
        workspace_root,
        &allow,
        &deny,
        &host.existing_paths,
    );
    assert(views(writable@) == writable_mounts(workspace_root@, policy@, host@, opt_view(home)));
    let ghost opened = views(args@);
    assert(opened == head + writable_section(workspace_root@, policy@, host@, opt_view(home)));
    push_denied_binds(&mut args, workspace_root, &deny, &writable, &host.existing_paths);
    let ghost guarded = views(args@);
    assert(guarded == opened + denied_section(workspace_root@, policy@, host@, opt_view(home)));
    if !policy.allow_network {
        push_text(&mut args, "--unshare-net");
    }
    assert(views(args@) =~= guarded + network_flag(policy.allow_network));
    push_text(&mut args, "sh");
    push_text(&mut args, "-c");
    push_text(&mut args, cmd);
    assert(views(args@) =~= guarded + network_flag(policy.allow_network) + seq!["sh"@, "-c"@, cmd@]);
    Some(("bwrap".to_string(), args))
}

/// The binds of a list of paths are three arguments for each path, in the
/// order of the paths.
pub proof fn lemma_binds_hold(flag: Seq<char>, paths: Seq<Seq<char>>, i: int)
    requires
        0 <= i < paths.len(),
    ensures
        binds(flag, paths).len() == 3 * paths.len(),
        binds(flag, paths).subrange(3 * i, 3 * i + 3) == bind(flag, paths[i]),
    decreases paths.len(),
{
    let front = binds(flag, paths.drop_last());
    if paths.len() > 1 {
        lemma_binds_hold(flag, paths.drop_last(), if i < paths.len() - 1 { i } else { 0 });
    }
    assert(front.len() == 3 * (paths.len() - 1));
    if i < paths.len() - 1 {
        assert(binds(flag, paths).subrange(3 * i, 3 * i + 3) =~= front.subrange(3 * i, 3 * i + 3));
    } else {
        assert(binds(flag, paths).subrange(3 * i, 3 * i + 3) =~= bind(flag, paths[i]));
    }
}

/// Every path that is bound writable for the policy is one of its writable
/// paths, exists on the host, and is covered by no denied path.
pub proof fn lemma_writable_paths_are_not_denied(
    allow: Seq<Seq<char>>,
    deny: Seq<Seq<char>>,
    existing: Seq<Seq<char>>,
    path: Seq<char>,
)
    requires
        writable_paths(allow, deny, existing).contains(path),
    ensures
        allow.contains(path),
        existing.contains(path),
        !covered_by(deny, path),
    decreases allow.len(),
{
    if allow.len() > 0 {
        let front = writable_paths(allow.drop_last(), deny, existing);
        if front.contains(path) {
            lemma_writable_paths_are_not_denied(allow.drop_last(), deny, existing, path);
            let at = choose|at: int| 0 <= at < allow.drop_last().len() && allow.drop_last()[at] == path;
            assert(allow[at] == path);
        } else {
            let at = choose|at: int|
                0 <= at < writable_paths(allow, deny, existing).len() && writable_paths(
                    allow,
                    deny,
                    existing,
                )[at] == path;
            assert(path == allow.last());
            assert(allow[allow.len() - 1] == path);
        }
    }
}

/// Every denied path that exists on the host and lies inside a writable
/// path is bound read-only.
pub proof fn lemma_protected_paths_hold(
    deny: Seq<Seq<char>>,
    writable: Seq<Seq<char>>,
    existing: Seq<Seq<char>>,
    k: int,
)
    requires
        0 <= k < deny.len(),
        existing.contains(deny[k]),
        covered_by(writable, deny[k]),
    ensures
        protected_paths(deny, writable, existing).contains(deny[k]),
    decreases deny.len(),
{
    let all = protected_paths(deny, writable, existing);
    let front = protected_paths(deny.drop_last(), writable, existing);
    if k < deny.len() - 1 {
        lemma_protected_paths_hold(deny.drop_last(), writable, existing, k);
        let at = choose|at: int| 0 <= at < front.len() && front[at] == deny[k];
        assert(all[at] == deny[k]);
    } else {
        assert(all == front.push(deny[k]));
        assert(all[all.len() - 1] == deny[k]);
    }
}

/// Nothing that the policy denies stays writable: no denied path covers
/// the workspace, `/tmp` or a writable path of the policy where that stays
/// writable.
pub proof fn lemma_denied_path_is_not_writable(
    workspace_root: Seq<char>,
    policy: PolicyView,
    host: LinuxHostView,
    home: Option<Seq<char>>,
    path: Seq<char>,
)
    requires
        writable_mounts(workspace_root, policy, host, home).contains(path),
    ensures
        !covered_by(expanded(policy.deny_write, home), path),
{
    let deny = expanded(policy.deny_write, home);
    let first = base_writable(workspace_root, deny);
    let second = base_writable("/tmp"@, deny);
    let rest = writable_paths(expanded(policy.allow_write, home), deny, host.existing_paths);
    let mounts = writable_mounts(workspace_root, policy, host, home);
    let at = choose|at: int| 0 <= at < mounts.len() && mounts[at] == path;
    if at >= first.len() + second.len() {
        assert(rest[at - first.len() - second.len()] == path);
        lemma_writable_paths_are_not_denied(
            expanded(policy.allow_write, home),
            deny,
            host.existing_paths,
            path,
        );
    }
}

/// A part of a sequence of arguments is found in the whole where it stands.
proof fn lemma_window(
    before: Seq<Seq<char>>,
    part: Seq<Seq<char>>,
    after: Seq<Seq<char>>,
    at: int,
)
    requires
        0 <= at,
        at + 3 <= part.len(),
    ensures
        (before + part + after).subrange(before.len() + at, before.len() + at + 3)
            == part.subrange(at, at + 3),
{
    assert((before + part + after).subrange(before.len() + at, before.len() + at + 3)
        =~= part.subrange(at, at + 3));
}

/// Every path that stays writable has its writable bind among the writable
/// binds.
pub proof fn lemma_writable_mount_is_bound(
    workspace_root: Seq<char>,
    policy: PolicyView,
    host: LinuxHostView,
    home: Option<Seq<char>>,
    path: Seq<char>,
) -> (i: int)
    requires
        writable_mounts(workspace_root, policy, host, home).contains(path),
    ensures
        0 <= i,
        i + 3 <= writable_section(workspace_root, policy, host, home).len(),
        writable_section(workspace_root, policy, host, home).subrange(i, i + 3) == bind(
            "--bind"@,
            path,
        ),
{
    let deny = expanded(policy.deny_write, home);
    let first = base_writable(workspace_root, deny);
    let second = base_writable("/tmp"@, deny);
    let allowed = writable_paths(expanded(policy.allow_write, home), deny, host.existing_paths);
    let mounts = writable_mounts(workspace_root, policy, host, home);
    let section = writable_section(workspace_root, policy, host, home);
    let base = bind("--bind"@, workspace_root) + bind("--bind"@, "/tmp"@);
    let at = choose|at: int| 0 <= at < mounts.len() && mounts[at] == path;
    if at >= first.len() + second.len() {
        let m = at - first.len() - second.len();
        assert(allowed[m] == path);
        lemma_binds_hold("--bind"@, allowed, m);
        lemma_window(base, binds("--bind"@, allowed), Seq::empty(), 3 * m);
        assert(section =~= base + binds("--bind"@, allowed) + Seq::empty());
        6 + 3 * m
    } else if mounts[at] == workspace_root {
        assert(section.subrange(0, 3) =~= bind("--bind"@, path));
        0
    } else {
        assert(path == "/tmp"@);
        assert(section.subrange(3, 6) =~= bind("--bind"@, path));
        3
    }
}

/// Every denied path that exists on the host and lies inside a path that
/// stays writable has its read-only bind among the read-only binds.
pub proof fn lemma_denied_path_is_bound(
    workspace_root: Seq<char>,
    policy: PolicyView,
    host: LinuxHostView,
    home: Option<Seq<char>>,
    k: int,
) -> (j: int)
    requires
        0 <= k < policy.deny_write.len(),
        host.existing_paths.contains(tilde_expanded(policy.deny_write[k], home)),
        covered_by(
            writable_mounts(workspace_root, policy, host, home),
            tilde_expanded(policy.deny_write[k], home),
        ),
    ensures
        0 <= j,
        j + 3 <= denied_section(workspace_root, policy, host, home).len(),
        denied_section(workspace_root, policy, host, home).subrange(j, j + 3) == bind(
            "--ro-bind"@,
            tilde_expanded(policy.deny_write[k], home),
        ),
{
    let deny = expanded(policy.deny_write, home);
    let denied = tilde_expanded(policy.deny_write[k], home);
    assert(deny[k] == denied);
    let mounts = writable_mounts(workspace_root, policy, host, home);
    let guarded = protected_paths(deny, mounts, host.existing_paths);
    let back = taken_back(workspace_root, deny) + taken_back("/tmp"@, deny);
    let section = denied_section(workspace_root, policy, host, home);
    lemma_protected_paths_hold(deny, mounts, host.existing_paths, k);
    let n = choose|n: int| 0 <= n < guarded.len() && guarded[n] == denied;
    lemma_binds_hold("--ro-bind"@, guarded, n);
    lemma_window(back, binds("--ro-bind"@, guarded), Seq::empty(), 3 * n);
    assert(section =~= back + binds("--ro-bind"@, guarded) + Seq::empty());
    back.len() + 3 * n
}

/// Where a denied path covers the workspace or `/tmp`, the read-only bind of
/// that directory is among the read-only binds.
pub proof fn lemma_denied_base_is_taken_back(
    workspace_root: Seq<char>,
    policy: PolicyView,
    host: LinuxHostView,
    home: Option<Seq<char>>,
    path: Seq<char>,
) -> (j: int)
    requires
        path == workspace_root || path == "/tmp"@,
        covered_by(expanded(policy.deny_write, home), path),
    ensures
        0 <= j,
        j + 3 <= denied_section(workspace_root, policy, host, home).len(),
        denied_section(workspace_root, policy, host, home).subrange(j, j + 3) == bind(
            "--ro-bind"@,
            path,
        ),
{
    let deny = expanded(policy.deny_write, home);
    let section = denied_section(workspace_root, policy, host, home);
    let first = taken_back(workspace_root, deny);
    if path == workspace_root {
        assert(section.subrange(0, 3) =~= bind("--ro-bind"@, path));
        0
    } else {
        let j = first.len() as int;
        assert(section.subrange(j, j + 3) =~= bind("--ro-bind"@, path));
        j
    }
}

/// The read-only binds of what is denied stand behind the writable binds:
/// a bind of the one section and a bind of the other are found in the
/// arguments in that order.
pub proof fn lemma_denied_section_follows(
    cmd: Seq<char>,
    workspace_root: Seq<char>,
    policy: PolicyView,
    host: LinuxHostView,
    home: Option<Seq<char>>,
    i: int,
    j: int,
)
    requires
        0 <= i,
        i + 3 <= writable_section(workspace_root, policy, host, home).len(),
        0 <= j,
        j + 3 <= denied_section(workspace_root, policy, host, home).len(),
    ensures
        ({
            let args = bwrap_args(cmd, workspace_root, policy, host, home);
            let head = system_binds() + lib64_bind(host.lib64_exists);
            let open_binds = writable_section(workspace_root, policy, host, home);
            let shut_binds = denied_section(workspace_root, policy, host, home);
            let at = head.len() + i;
            let then = head.len() + open_binds.len() + j;
            &&& at + 3 <= then
            &&& then + 3 <= args.len()
            &&& args.subrange(at, at + 3) == open_binds.subrange(i, i + 3)
            &&& args.subrange(then, then + 3) == shut_binds.subrange(j, j + 3)
        }),
{
    let args = bwrap_args(cmd, workspace_root, policy, host, home);
    let head = system_binds() + lib64_bind(host.lib64_exists);
    let open_binds = writable_section(workspace_root, policy, host, home);
    let shut_binds = denied_section(workspace_root, policy, host, home);
    let tail = network_flag(policy.allow_network) + seq!["sh"@, "-c"@, cmd];
    lemma_window(head, open_binds, shut_binds + tail, i);
    assert(args =~= head + open_binds + (shut_binds + tail));
    lemma_window(head + open_binds, shut_binds, tail, j);
    assert(args =~= (head + open_binds) + shut_binds + tail);
}

/// Deny prevails over allow: where a denied path that exists on the host
/// lies inside a path that stays writable, the arguments hold the read-only
/// bind of the denied path behind that writable bind.
pub proof fn lemma_deny_write_follows_allow_write(
    cmd: Seq<char>,
    workspace_root: Seq<char>,
    policy: PolicyView,
    host: LinuxHostView,
    home: Option<Seq<char>>,
    writable: Seq<char>,
    k: int,
)
    requires
        0 <= k < policy.deny_write.len(),
        writable_mounts(workspace_root, policy, host, home).contains(writable),
        covers(writable, tilde_expanded(policy.deny_write[k], home)),
        host.existing_paths.contains(tilde_expanded(policy.deny_write[k], home)),
    ensures
        ({
            let args = bwrap_args(cmd, workspace_root, policy, host, home);
            let denied = tilde_expanded(policy.deny_write[k], home);
            exists|i: int, j: int|
                #![trigger args.subrange(i, i + 3), args.subrange(j, j + 3)]
                0 <= i && i + 3 <= j && j + 3 <= args.len() && args.subrange(i, i + 3) == bind(
                    "--bind"@,
                    writable,
                ) && args.subrange(j, j + 3) == bind("--ro-bind"@, denied)
        }),
{
    let args = bwrap_args(cmd, workspace_root, policy, host, home);
    let denied = tilde_expanded(policy.deny_write[k], home);
    let mounts = writable_mounts(workspace_root, policy, host, home);
    let head = system_binds() + lib64_bind(host.lib64_exists);
    assert(covered_by(mounts, denied)) by {
        let at = choose|at: int| 0 <= at < mounts.len() && mounts[at] == writable;
        assert(covers(mounts[at], denied));
    }
    let i = lemma_writable_mount_is_bound(workspace_root, policy, host, home, writable);
    let j = lemma_denied_path_is_bound(workspace_root, policy, host, home, k);
    lemma_denied_section_follows(cmd, workspace_root, policy, host, home, i, j);
    let at = head.len() + i;
    let then = head.len() + writable_section(workspace_root, policy, host, home).len() + j;
    assert(args.subrange(at, at + 3) == bind("--bind"@, writable));
    assert(args.subrange(then, then + 3) == bind("--ro-bind"@, denied));
}

/// Deny prevails over what every command gets: where a denied path covers
/// the workspace or `/tmp`, the arguments hold the read-only bind of that
/// directory behind its writable bind.
pub proof fn lemma_deny_write_follows_base(
    cmd: Seq<char>,
    workspace_root: Seq<char>,
    policy: PolicyView,
    host: LinuxHostView,
    home: Option<Seq<char>>,
    path: Seq<char>,
)
    requires
        path == workspace_root || path == "/tmp"@,
        covered_by(expanded(policy.deny_write, home), path),
    ensures
        ({
            let args = bwrap_args(cmd, workspace_root, policy, host, home);
            exists|i: int, j: int|
                #![trigger args.subrange(i, i + 3), args.subrange(j, j + 3)]
                0 <= i && i + 3 <= j && j + 3 <= args.len() && args.subrange(i, i + 3) == bind(
                    "--bind"@,
                    path,
                ) && args.subrange(j, j + 3) == bind("--ro-bind"@, path)
        }),
{
    let args = bwrap_args(cmd, workspace_root, policy, host, home);
    let head = system_binds() + lib64_bind(host.lib64_exists);
    let section = writable_section(workspace_root, policy, host, home);
    let i: int = if path == workspace_root { 0 } else { 3 };
    assert(section.subrange(i, i + 3) =~= bind("--bind"@, path));
    let j = lemma_denied_base_is_taken_back(workspace_root, policy, host, home, path);
    lemma_denied_section_follows(cmd, workspace_root, policy, host, home, i, j);
    let at = head.len() + i;
    let then = head.len() + section.len() + j;
    assert(args.subrange(at, at + 3) == bind("--bind"@, path));
    assert(args.subrange(then, then + 3) == bind("--ro-bind"@, path));
}

/// The sandboxed form of `cmd` for `policy` on `workspace_root`, with the
/// home shorthand expanded against the current user's home directory.
pub fn build_command(
    cmd: &str,
    workspace_root: &str,
    policy: &SandboxPolicy,
    host: &LinuxHost,
) -> (command: Option<(String, Vec<String>)>)
    ensures
        exists|home: Option<Seq<char>>|
            command_view(command) == #[trigger] bwrap_command(
                cmd@,
                workspace_root@,
                policy@,
                host@,
                home,
            ),
        !host.bwrap_available ==> command is None,
{
    let home = home_dir();
    build_command_in(cmd, workspace_root, policy, host, home_as_str(&home))
}

} // verus!
