//! Seatbelt profiles for `sandbox-exec`, the sandboxing front-end of macOS.
//!
//! A profile is a list of rules, one per line. Later rules win over earlier
//! ones, so the order of the lines is part of the meaning: every deny-write
//! rule of the policy stands after every allow-write rule.

use super::{command_view, expand_tilde_in, tilde_expanded, home_as_str, home_dir, PolicyView, SandboxPolicy};
use crate::text::{
    chars_of, join, join_with, lemma_join_holds_part, lemma_part_offset_increases,
    lemma_part_offset_nonnegative, lemma_views_push, opt_view, part_offset, push_text, string_of,
    views,
};
use vstd::prelude::*;

verus! {

/// What one character of a path becomes inside a string literal of a profile:
/// a backslash or a double quote gets a backslash in front.
pub open spec fn escape_char(c: char) -> Seq<char> {
    if c == '\\' {
        seq!['\\', '\\']
    } else if c == '"' {
        seq!['\\', '"']
    } else {
        seq![c]
    }
}

/// `s` with every character escaped for a string literal of a profile.
pub open spec fn escaped(s: Seq<char>) -> Seq<char>
    decreases s.len(),
{
    if s.len() == 0 {
        Seq::empty()
    } else {
        escaped(s.drop_last()) + escape_char(s.last())
    }
}

/// How far a text gets as the body of a string literal of a profile, read
/// from the left: `Some(false)` if it stays inside the literal, `Some(true)`
/// if it stays inside and ends in a backslash that escapes what follows,
/// `None` if a double quote in it ends the literal.
pub open spec fn literal_state(body: Seq<char>) -> Option<bool>
    decreases body.len(),
{
    if body.len() == 0 {
        Some(false)
    } else {
        match literal_state(body.drop_last()) {
            None => None,
            Some(true) => Some(false),
            Some(false) => if body.last() == '\\' {
                Some(true)
            } else if body.last() == '"' {
                None
            } else {
                Some(false)
            },
        }
    }
}

/// No path breaks out of its literal: whatever the path holds, its escaped
/// form stays inside the string literal it is written into, and leaves no
/// backslash open that would swallow the closing quote.
pub proof fn lemma_escaped_stays_in_literal(s: Seq<char>)
    ensures
        literal_state(escaped(s)) == Some(false),
    decreases s.len(),
{
    if s.len() > 0 {
        let front = escaped(s.drop_last());
        let c = s.last();
        lemma_escaped_stays_in_literal(s.drop_last());
        if c == '\\' || c == '"' {
            let mid = front.push('\\');
            assert(mid.drop_last() == front);
            assert(literal_state(mid) == Some(true));
            assert(escaped(s) =~= mid.push(c));
            assert(mid.push(c).drop_last() == mid);
        } else {
            assert(escaped(s) =~= front.push(c));
            assert(front.push(c).drop_last() == front);
        }
    }
}

/// A rule that names a directory tree: `head`, the escaped path, and the
/// closing quote and brackets.
pub open spec fn subpath_rule(head: Seq<char>, path: Seq<char>) -> Seq<char> {
    head + escaped(path) + "\"))"@
}

pub open spec fn deny_read_rule(path: Seq<char>) -> Seq<char> {
    subpath_rule("(deny file-read* (subpath \""@, path)
}

pub open spec fn allow_write_rule(path: Seq<char>) -> Seq<char> {
    subpath_rule("(allow file-write* (subpath \""@, path)
}

pub open spec fn deny_write_rule(path: Seq<char>) -> Seq<char> {
    subpath_rule("(deny file-write* (subpath \""@, path)
}

/// One rule with head `head` for each path, each path expanded against `home`.
pub open spec fn subpath_rules(head: Seq<char>, paths: Seq<Seq<char>>, home: Option<Seq<char>>) -> Seq<
    Seq<char>,
> {
    paths.map_values(|p: Seq<char>| subpath_rule(head, tilde_expanded(p, home)))
}

/// The rules every profile starts with: deny by default, let the command run,
/// fork and signal itself, and let it read everything.
pub open spec fn opening_rules() -> Seq<Seq<char>> {
    seq![
        "(version 1)"@,
        "(deny default)"@,
        "(allow process-exec)"@,
        "(allow process-fork)"@,
        "(allow signal (target self))"@,
        "(allow sysctl-read)"@,
        "(allow file-read*)"@,
    ]
}

/// The write rules every profile has: deny all writes, then allow the
/// workspace and the temp area.
pub open spec fn base_write_rules(workspace_root: Seq<char>) -> Seq<Seq<char>> {
    seq![
        "(deny file-write*)"@,
        allow_write_rule(workspace_root),
        "(allow file-write* (subpath \"/tmp\"))"@,
        "(allow file-write* (subpath \"/private/tmp\"))"@,
    ]
}

pub open spec fn network_rule(allow_network: bool) -> Seq<char> {
    if allow_network {
        "(allow network*)"@
    } else {
        "(deny network*)"@
    }
}

/// The lines of the profile for a policy, in order: the opening rules, the
/// deny-read rules, the base write rules, the allow-write rules, the
/// deny-write rules, and the network rule.
pub open spec fn profile_lines(
    workspace_root: Seq<char>,
    policy: PolicyView,
    home: Option<Seq<char>>,
) -> Seq<Seq<char>> {
    opening_rules() + subpath_rules("(deny file-read* (subpath \""@, policy.deny_read, home)
        + base_write_rules(workspace_root) + subpath_rules(
        "(allow file-write* (subpath \""@,
        policy.allow_write,
        home,
    ) + subpath_rules("(deny file-write* (subpath \""@, policy.deny_write, home) + seq![
        network_rule(policy.allow_network),
    ]
}

/// The profile as text: its lines joined by newlines.
pub open spec fn profile_text(
    workspace_root: Seq<char>,
    policy: PolicyView,
    home: Option<Seq<char>>,
) -> Seq<char> {
    join_with(profile_lines(workspace_root, policy, home), "\n"@)
}

/// The line of the profile that holds the rule for `policy.deny_read[i]`.
pub open spec fn deny_read_line(i: int) -> int {
    opening_rules().len() + i
}

/// Read denials are exceptions to a base that allows all reads: in the
/// profile of any policy, the rule that allows reading stands before the
/// deny-read rule of every path of `deny_read`, and the rule that denies
/// everything by default stands before both.
pub proof fn lemma_deny_read_follows_allow_read(
    workspace_root: Seq<char>,
    policy: PolicyView,
    home: Option<Seq<char>>,
    i: int,
)
    requires
        0 <= i < policy.deny_read.len(),
    ensures
        ({
            let lines = profile_lines(workspace_root, policy, home);
            &&& lines[1] == "(deny default)"@
            &&& lines[6] == "(allow file-read*)"@
            &&& 6 < deny_read_line(i) < lines.len()
            &&& lines[deny_read_line(i)] == deny_read_rule(
                tilde_expanded(policy.deny_read[i], home),
            )
        }),
{
}

/// Writes are denied unless allowed: in the profile of any policy, the rule
/// that denies all writes stands before every rule that allows a write, and
/// the workspace and the temp area are allowed.
pub proof fn lemma_write_rules_follow_deny_all(
    workspace_root: Seq<char>,
    policy: PolicyView,
    home: Option<Seq<char>>,
)
    ensures
        ({
            let lines = profile_lines(workspace_root, policy, home);
            let base = (opening_rules().len() + policy.deny_read.len()) as int;
            &&& lines[base] == "(deny file-write*)"@
            &&& lines[base + 1] == allow_write_rule(workspace_root)
            &&& lines[base + 2] == "(allow file-write* (subpath \"/tmp\"))"@
            &&& lines[base + 3] == "(allow file-write* (subpath \"/private/tmp\"))"@
            &&& forall|i: int|
                0 <= i < policy.allow_write.len() ==> base < #[trigger] allow_write_line(policy, i)
            &&& lines.last() == network_rule(policy.allow_network)
        }),
{
}

/// The line of the profile that holds the rule for `policy.allow_write[i]`.
pub open spec fn allow_write_line(policy: PolicyView, i: int) -> int {
    opening_rules().len() + policy.deny_read.len() + 4 + i
}

/// The line of the profile that holds the rule for `policy.deny_write[j]`.
pub open spec fn deny_write_line(policy: PolicyView, j: int) -> int {
    opening_rules().len() + policy.deny_read.len() + 4 + policy.allow_write.len() + j
}

/// Deny wins: in the profile of any policy, the deny-write rule of every
/// path of `deny_write` stands after the allow-write rule of every path of
/// `allow_write`, in lines and in the text; so a path listed in both is
/// denied.
pub proof fn lemma_deny_write_follows_allow_write(
    workspace_root: Seq<char>,
    policy: PolicyView,
    home: Option<Seq<char>>,
    i: int,
    j: int,
)
    requires
        0 <= i < policy.allow_write.len(),
        0 <= j < policy.deny_write.len(),
    ensures
        ({
            let lines = profile_lines(workspace_root, policy, home);
            let text = profile_text(workspace_root, policy, home);
            let allow = allow_write_rule(tilde_expanded(policy.allow_write[i], home));
            let deny = deny_write_rule(tilde_expanded(policy.deny_write[j], home));
            let allow_at = part_offset(lines, "\n"@, allow_write_line(policy, i));
            let deny_at = part_offset(lines, "\n"@, deny_write_line(policy, j));
            &&& 0 <= allow_write_line(policy, i) < deny_write_line(policy, j) < lines.len()
            &&& lines[allow_write_line(policy, i)] == allow
            &&& lines[deny_write_line(policy, j)] == deny
            &&& 0 <= allow_at
            &&& allow_at + allow.len() <= deny_at
            &&& deny_at + deny.len() <= text.len()
            &&& text.subrange(allow_at, allow_at + allow.len()) == allow
            &&& text.subrange(deny_at, deny_at + deny.len()) == deny
        }),
{
    let lines = profile_lines(workspace_root, policy, home);
    let a = allow_write_line(policy, i);
    let d = deny_write_line(policy, j);
    lemma_part_offset_increases(lines, "\n"@, a, d);
    lemma_part_offset_nonnegative(lines, "\n"@, a);
    lemma_join_holds_part(lines, "\n"@, a);
    lemma_join_holds_part(lines, "\n"@, d);
}

/// The invocation of `sandbox-exec` that runs `cmd` under `profile`.
pub open spec fn seatbelt_command(profile: Seq<char>, cmd: Seq<char>) -> (Seq<char>, Seq<Seq<char>>) {
    ("sandbox-exec"@, seq!["-p"@, profile, "sh"@, "-c"@, cmd])
}

/// `sandbox-exec` is part of the system: always available.
pub fn is_supported() -> (supported: bool)
    ensures
        supported,
{
    true
}

/// Escapes `s` for a string literal of a profile.
pub fn escape_seatbelt(s: &str) -> (out: String)
    ensures
        out@ == escaped(s@),
{
    let chars = chars_of(s);
    let mut out: Vec<char> = Vec::new();
    let mut i: usize = 0;
    while i < chars.len()
        invariant
            i <= chars.len(),
            out@ == escaped(chars@.take(i as int)),
        decreases chars.len() - i,
    {
        let c = chars[i];
        proof {
            assert(chars@.take(i + 1).drop_last() == chars@.take(i as int));
        }
        if c == '\\' || c == '"' {
            out.push('\\');
        }
        out.push(c);
        i += 1;
    }
    assert(chars@.take(chars.len() as int) == chars@);
    string_of(&out)
}

/// The rule with head `head` for `path`.
fn rule_line(head: &str, path: &str) -> (line: String)
    ensures
        line@ == subpath_rule(head@, path@),
{
    let mut line = head.to_string();
    let body = escape_seatbelt(path);
    line.append(body.as_str());
    line.append("\"))");
    line
}

/// Appends to `lines` one rule with head `head` for each path of `paths`.
fn push_rules(lines: &mut Vec<String>, head: &str, paths: &Vec<String>, home: Option<&str>)
    ensures
        views(final(lines)@) == views(old(lines)@) + subpath_rules(
            head@,
            views(paths@),
            opt_view(home),
        ),
{
    let ghost before = views(lines@);
    let ghost rules = subpath_rules(head@, views(paths@), opt_view(home));
    let mut i: usize = 0;
    while i < paths.len()
        invariant
            i <= paths.len(),
            rules == subpath_rules(head@, views(paths@), opt_view(home)),
            views(lines@) == before + rules.take(i as int),
        decreases paths.len() - i,
    {
        let expanded = expand_tilde_in(paths[i].as_str(), home);
        let line = rule_line(head, expanded.as_str());
        let ghost sofar = lines@;
        lines.push(line);
        proof {
            lemma_views_push(sofar, line);
            assert(rules.take(i + 1) == rules.take(i as int).push(rules[i as int]));
            assert(views(lines@) =~= before + rules.take(i + 1));
        }
        i += 1;
    }
    assert(rules.take(paths.len() as int) == rules);
}

/// The Seatbelt profile for `policy` on `workspace_root`, with the home
/// shorthand of the policy's paths expanded against `home`.
pub fn generate_profile_in(workspace_root: &str, policy: &SandboxPolicy, home: Option<&str>) -> (profile:
    String)
    ensures
        profile@ == profile_text(workspace_root@, policy@, opt_view(home)),
{
    let mut lines: Vec<String> = Vec::new();
    assert(views(lines@) =~= Seq::empty());
    push_text(&mut lines, "(version 1)");
    push_text(&mut lines, "(deny default)");
    push_text(&mut lines, "(allow process-exec)");
    push_text(&mut lines, "(allow process-fork)");
    push_text(&mut lines, "(allow signal (target self))");
    push_text(&mut lines, "(allow sysctl-read)");
    push_text(&mut lines, "(allow file-read*)");
    assert(views(lines@) =~= opening_rules());
    push_rules(&mut lines, "(deny file-read* (subpath \"", &policy.deny_read, home);
    let ghost reads = views(lines@);
    push_text(&mut lines, "(deny file-write*)");
    let ghost sofar = lines@;
    let workspace = rule_line("(allow file-write* (subpath \"", workspace_root);
    lines.push(workspace);
    proof {
        lemma_views_push(sofar, workspace);
    }
    push_text(&mut lines, "(allow file-write* (subpath \"/tmp\"))");
    push_text(&mut lines, "(allow file-write* (subpath \"/private/tmp\"))");
    assert(views(lines@) =~= reads + base_write_rules(workspace_root@));
    push_rules(&mut lines, "(allow file-write* (subpath \"", &policy.allow_write, home);
    push_rules(&mut lines, "(deny file-write* (subpath \"", &policy.deny_write, home);
    if policy.allow_network {
        push_text(&mut lines, "(allow network*)");
    } else {
        push_text(&mut lines, "(deny network*)");
    }
    assert(views(lines@) =~= profile_lines(workspace_root@, policy@, opt_view(home)));
    join(&lines, "\n")
}

/// The Seatbelt profile for `policy` on `workspace_root`, with the home
/// shorthand expanded against the current user's home directory.
pub fn generate_profile(workspace_root: &str, policy: &SandboxPolicy) -> (profile: String)
    ensures
        exists|home: Option<Seq<char>>| profile@ == profile_text(workspace_root@, policy@, home),
{
    let home = home_dir();
    generate_profile_in(workspace_root, policy, home_as_str(&home))
}

/// The invocation of `sandbox-exec` that runs `cmd` through `sh -c` under
/// the given profile.
pub fn wrap_profile(profile: String, cmd: &str) -> (command: (String, Vec<String>))
    ensures
        (command.0@, views(command.1@)) == seatbelt_command(profile@, cmd@),
{
    let mut args: Vec<String> = Vec::new();
    args.push("-p".to_string());
    args.push(profile);
    args.push("sh".to_string());
    args.push("-c".to_string());
    args.push(cmd.to_string());
    assert(views(args@) =~= seatbelt_command(profile@, cmd@).1);
    ("sandbox-exec".to_string(), args)
}

/// The sandboxed form of `cmd` for `policy` on `workspace_root`, with the
/// home shorthand expanded against `home`.
pub fn build_command_in(
    cmd: &str,
    workspace_root: &str,
    policy: &SandboxPolicy,
    home: Option<&str>,
) -> (command: Option<(String, Vec<String>)>)
    ensures
        command_view(command) == Some(
            seatbelt_command(profile_text(workspace_root@, policy@, opt_view(home)), cmd@),
        ),
{
    let profile = generate_profile_in(workspace_root, policy, home);
    Some(wrap_profile(profile, cmd))
}

/// The sandboxed form of `cmd` for `policy` on `workspace_root`, with the
/// home shorthand expanded against the current user's home directory.
pub fn build_command(cmd: &str, workspace_root: &str, policy: &SandboxPolicy) -> (command: Option<
    (String, Vec<String>),
>)
    ensures
        exists|home: Option<Seq<char>>|
            command_view(command) == Some(
                seatbelt_command(#[trigger] profile_text(workspace_root@, policy@, home), cmd@),
            ),
{
    let home = home_dir();
    build_command_in(cmd, workspace_root, policy, home_as_str(&home))
}

} // verus!
