//! Running the document tool: what it is called with, in which environment,
//! and how its failures are worded.

use crate::paths::{join_path, joined};
use crate::text::{chars_of, push_text, string_of, trim_chars, trimmed, views};
use vstd::prelude::*;

verus! {

/// How long a command of the tool may run, in seconds.
pub const CLI_TIMEOUT_SECS: u64 = 120;

/// How long a serving tool is given before it is looked at for the first
/// time, in milliseconds.
pub const SERVE_SETTLE_MS: u64 = 500;

/// The arguments of a command: the command, the result format, and what the
/// caller adds.
pub open spec fn command_line(cmd: Seq<char>, args: Seq<Seq<char>>) -> Seq<Seq<char>> {
    seq![cmd, "--result-schema"@, "v2"@, "--strict"@] + args
}

/// The arguments that make the tool serve a session.
pub open spec fn serve_line() -> Seq<Seq<char>> {
    seq!["serve"@, "--transport"@, "stdio"@]
}

/// The environment of the tool, as names and values: its home, and its
/// temp directory, `tmp` below the home, under every name a temp directory
/// goes by.
pub open spec fn tool_environment(home: Seq<char>) -> Seq<(Seq<char>, Seq<char>)> {
    seq![("OFFICELLM_HOME"@, home)] + temp_environment(joined(home, "tmp"@))
}

/// The temp directory under every name it goes by.
pub open spec fn temp_environment(dir: Seq<char>) -> Seq<(Seq<char>, Seq<char>)> {
    seq![("TMPDIR"@, dir), ("TEMP"@, dir), ("TMP"@, dir), ("OFFICELLM_TEMP"@, dir)]
}

/// The views of names and values.
pub open spec fn pairs_view(pairs: Seq<(String, String)>) -> Seq<(Seq<char>, Seq<char>)> {
    pairs.map_values(|p: (String, String)| (p.0@, p.1@))
}

/// What a command that failed is reported to have said: what it wrote to its
/// error output, or, if that is nothing, what it wrote to its output.
pub open spec fn failure_said(stdout: Seq<char>, stderr: Seq<char>) -> Seq<char> {
    if stderr.len() == 0 {
        stdout
    } else {
        stderr
    }
}

/// How it is worded that the serving tool ended at once: with how it ended,
/// and with what it wrote to its error output, if anything.
pub open spec fn early_exit_text(exit_info: Seq<char>, said: Seq<char>) -> Seq<char> {
    "officellm serve 启动后立即退出 ("@ + exit_info + ")"@ + (if said.len() == 0 {
        Seq::empty()
    } else {
        ": "@ + said
    })
}

/// How it is worded that the first set-up of the tool failed: with how it
/// ended, and with what it wrote to its error output, trimmed.
pub open spec fn init_failure_text(status: Seq<char>, stderr: Seq<char>) -> Seq<char> {
    "officellm init exited with "@ + status + ": "@ + trimmed(stderr)
}

/// The arguments of the command `cmd`.
pub fn cli_arguments(cmd: &str, args: &Vec<String>) -> (line: Vec<String>)
    ensures
        views(line@) == command_line(cmd@, views(args@)),
{
    let mut line: Vec<String> = Vec::new();
    assert(views(line@) =~= Seq::empty());
    push_text(&mut line, cmd);
    push_text(&mut line, "--result-schema");
    push_text(&mut line, "v2");
    push_text(&mut line, "--strict");
    let ghost head = views(line@);
    assert(head =~= seq![cmd@, "--result-schema"@, "v2"@, "--strict"@]);
    let mut i: usize = 0;
    while i < args.len()
        invariant
            i <= args.len(),
            views(line@) == head + views(args@).take(i as int),
        decreases args.len() - i,
    {
        push_text(&mut line, args[i].as_str());
        assert(views(args@).take(i + 1) == views(args@).take(i as int).push(args@[i as int]@));
        i += 1;
    }
    assert(views(args@).take(args.len() as int) == views(args@));
    line
}

/// The arguments that make the tool serve a session.
pub fn serve_arguments() -> (line: Vec<String>)
    ensures
        views(line@) == serve_line(),
{
    let mut line: Vec<String> = Vec::new();
    assert(views(line@) =~= Seq::empty());
    push_text(&mut line, "serve");
    push_text(&mut line, "--transport");
    push_text(&mut line, "stdio");
    assert(views(line@) =~= serve_line());
    line
}

/// One name with its value.
fn pair(name: &str, value: &str) -> (out: (String, String))
    ensures
        (out.0@, out.1@) == (name@, value@),
{
    (name.to_string(), value.to_string())
}

/// The temp directory under the names by which a process finds it.
pub fn process_env(dir: &str) -> (env: Vec<(String, String)>)
    ensures
        pairs_view(env@) == seq![("TMPDIR"@, dir@), ("TEMP"@, dir@), ("TMP"@, dir@)],
{
    let mut env: Vec<(String, String)> = Vec::new();
    env.push(pair("TMPDIR", dir));
    env.push(pair("TEMP", dir));
    env.push(pair("TMP", dir));
    assert(pairs_view(env@) =~= seq![("TMPDIR"@, dir@), ("TEMP"@, dir@), ("TMP"@, dir@)]);
    env
}

/// The temp directory under every name it goes by.
pub fn tmp_env(dir: &str) -> (env: Vec<(String, String)>)
    ensures
        pairs_view(env@) == temp_environment(dir@),
{
    let mut env: Vec<(String, String)> = Vec::new();
    env.push(pair("TMPDIR", dir));
    env.push(pair("TEMP", dir));
    env.push(pair("TMP", dir));
    env.push(pair("OFFICELLM_TEMP", dir));
    assert(pairs_view(env@) =~= temp_environment(dir@));
    env
}

/// The environment of the tool with the given home.
pub fn tool_env(home: &str) -> (env: Vec<(String, String)>)
    ensures
        pairs_view(env@) == tool_environment(home@),
{
    let tmp = join_path(home, "tmp");
    let mut env: Vec<(String, String)> = Vec::new();
    env.push(pair("OFFICELLM_HOME", home));
    env.push(pair("TMPDIR", tmp.as_str()));
    env.push(pair("TEMP", tmp.as_str()));
    env.push(pair("TMP", tmp.as_str()));
    env.push(pair("OFFICELLM_TEMP", tmp.as_str()));
    assert(pairs_view(env@) =~= tool_environment(home@));
    env
}

/// What a command that failed is reported to have said.
pub fn failure_text(stdout: String, stderr: String) -> (said: String)
    ensures
        said@ == failure_said(stdout@, stderr@),
{
    if stderr.as_str().unicode_len() == 0 {
        stdout
    } else {
        stderr
    }
}

/// The complaint that the serving tool ended at once.
pub fn early_exit_message(exit_info: &str, said: &str) -> (message: String)
    ensures
        message@ == early_exit_text(exit_info@, said@),
{
    let mut message = "officellm serve 启动后立即退出 (".to_string();
    message.append(exit_info);
    message.append(")");
    if said.unicode_len() > 0 {
        message.append(": ");
        message.append(said);
    } else {
        assert(message@ + Seq::<char>::empty() =~= message@);
    }
    message
}

/// The complaint that the first set-up of the tool failed.
pub fn init_failure(status: &str, stderr: &str) -> (message: String)
    ensures
        message@ == init_failure_text(status@, stderr@),
{
    let mut message = "officellm init exited with ".to_string();
    message.append(status);
    message.append(": ");
    let said = string_of(&trim_chars(&chars_of(stderr)));
    message.append(said.as_str());
    message
}

} // verus!
