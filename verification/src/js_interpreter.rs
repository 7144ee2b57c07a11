//! Running a piece of JavaScript: how long and how much it may run, and how
//! its outcome is reported.

use crate::text::{append_chars, decimal, decimal_chars, join, join_with, opt_string_view, views};
use vstd::prelude::*;

verus! {

/// How much memory a script may use, in bytes.
pub const DEFAULT_MEMORY_LIMIT: usize = 67_108_864;

/// How deep a script's stack may grow, in bytes.
pub const DEFAULT_MAX_STACK: usize = 524_288;

/// How long a script may run where no time is asked for, in milliseconds.
pub const DEFAULT_TIMEOUT_MS: u64 = 30_000;

/// How long a script may run at most, in milliseconds.
pub const MAX_TIMEOUT_MS: u64 = 60_000;

/// Which script to run.
#[derive(Debug)]
pub struct RunJsArgs {
    pub workspace_root: String,
    pub code: String,
    pub timeout_ms: Option<u64>,
}

/// What a script left behind.
#[derive(Debug)]
pub struct JsExecutionResult {
    /// What the script wrote to the console, line by line.
    pub output: String,
    /// The value of the script, as text.
    pub result: String,
    pub error: Option<String>,
    pub execution_ms: u64,
}

/// How a script ended.
#[derive(Debug)]
pub enum JsOutcome {
    /// It ran into its timeout.
    TimedOut,
    /// It ended with this value, as text.
    Value(String),
    /// It failed with this message.
    Failed(String),
}

/// The mathematical content of a [`JsExecutionResult`].
pub struct JsResultView {
    pub output: Seq<char>,
    pub result: Seq<char>,
    pub error: Option<Seq<char>>,
    pub execution_ms: u64,
}

impl View for JsExecutionResult {
    type V = JsResultView;

    open spec fn view(&self) -> JsResultView {
        JsResultView {
            output: self.output@,
            result: self.result@,
            error: opt_string_view(self.error),
            execution_ms: self.execution_ms,
        }
    }
}

/// How long a script runs: what is asked for, or the default, and never
/// longer than the maximum.
pub open spec fn js_timeout(requested: Option<u64>) -> u64 {
    let wanted = match requested {
        Some(ms) => ms,
        None => DEFAULT_TIMEOUT_MS,
    };
    if wanted <= MAX_TIMEOUT_MS {
        wanted
    } else {
        MAX_TIMEOUT_MS
    }
}

/// What is reported of a script: what it wrote, line by line, and its value
/// or what went wrong.
pub open spec fn js_result(
    outcome: JsOutcome,
    console: Seq<Seq<char>>,
    timeout_ms: u64,
    execution_ms: u64,
) -> JsResultView {
    let output = join_with(console, seq!['\n']);
    match outcome {
        JsOutcome::TimedOut => JsResultView {
            output,
            result: Seq::empty(),
            error: Some("Execution timed out after "@ + decimal(timeout_ms as nat) + "ms"@),
            execution_ms,
        },
        JsOutcome::Value(text) => JsResultView { output, result: text@, error: None, execution_ms },
        JsOutcome::Failed(message) => JsResultView {
            output,
            result: Seq::empty(),
            error: Some(message@),
            execution_ms,
        },
    }
}

impl RunJsArgs {
    /// How long the script may run, in milliseconds.
    pub fn timeout_ms(&self) -> (ms: u64)
        ensures
            ms == js_timeout(self.timeout_ms),
    {
        let wanted = match self.timeout_ms {
            Some(ms) => ms,
            None => DEFAULT_TIMEOUT_MS,
        };
        if wanted <= MAX_TIMEOUT_MS {
            wanted
        } else {
            MAX_TIMEOUT_MS
        }
    }
}

/// A line of the console: the values that were written, with blanks between
/// them, behind the mark of the level.
pub fn console_line(prefix: &str, parts: &Vec<String>) -> (line: String)
    ensures
        line@ == prefix@ + join_with(views(parts@), " "@),
{
    let mut line = prefix.to_string();
    let written = join(parts, " ");
    line.append(written.as_str());
    line
}

/// A value as text: the value itself if it is a string; `undefined` for no
/// value; else the way the engine shows it.
pub fn stringify_value(text: Option<String>, is_nothing: bool, shown: String) -> (out: String)
    ensures
        out@ == (match text {
            Some(t) => t@,
            None => if is_nothing {
                "undefined"@
            } else {
                shown@
            },
        }),
{
    match text {
        Some(t) => t,
        None => {
            if is_nothing {
                "undefined".to_string()
            } else {
                shown
            }
        },
    }
}

/// What is reported of a script that ended as `outcome` after
/// `execution_ms`, having written `console`.
pub fn finish_script(outcome: JsOutcome, console: &Vec<String>, timeout_ms: u64, execution_ms: u64) -> (result:
    JsExecutionResult)
    ensures
        result@ == js_result(outcome, views(console@), timeout_ms, execution_ms),
{
    let output = join(console, "\n");
    proof {
        reveal_strlit("\n");
        assert("\n"@ =~= seq!['\n']);
    }
    match outcome {
        JsOutcome::TimedOut => {
            let mut error = "Execution timed out after ".to_string();
            append_chars(&mut error, &decimal_chars(timeout_ms as u128));
            error.append("ms");
            JsExecutionResult { output, result: String::new(), error: Some(error), execution_ms }
        },
        JsOutcome::Value(text) => JsExecutionResult { output, result: text, error: None, execution_ms },
        JsOutcome::Failed(message) => JsExecutionResult {
            output,
            result: String::new(),
            error: Some(message),
            execution_ms,
        },
    }
}

/// What an argument of a document command names, if it names a path.
#[derive(Debug, Clone, Copy, PartialEq, Eq)]
pub enum PathRole {
    /// A path that is read: it must exist inside the workspace.
    Input,
    /// A path that is written: it must lie inside the workspace.
    Output,
}

/// What the argument called `key` names: `i`, `input` and `path` name a path
/// that is read, `o` and `output` one that is written.
pub open spec fn role_of(key: Seq<char>) -> Option<PathRole> {
    if key == "i"@ || key == "input"@ || key == "path"@ {
        Some(PathRole::Input)
    } else if key == "o"@ || key == "output"@ {
        Some(PathRole::Output)
    } else {
        None
    }
}

/// What the argument called `key` names, if it names a path.
pub fn path_role(key: &str) -> (role: Option<PathRole>)
    ensures
        role == role_of(key@),
{
    if crate::text::text_eq(key, "i") || crate::text::text_eq(key, "input") || crate::text::text_eq(
        key,
        "path",
    ) {
        Some(PathRole::Input)
    } else if crate::text::text_eq(key, "o") || crate::text::text_eq(key, "output") {
        Some(PathRole::Output)
    } else {
        None
    }
}

/// The flag that an argument is passed under on the command line: one dash
/// before a key of one byte, two before any other.
pub fn cli_flag(key: &str) -> (flag: String)
    ensures
        flag@ == (if vstd::utf8::encode_utf8(key@).len() == 1 {
            "-"@
        } else {
            "--"@
        }) + key@,
{
    let mut flag = if key.as_bytes().len() == 1 {
        "-".to_string()
    } else {
        "--".to_string()
    };
    flag.append(key);
    flag
}

} // verus!
