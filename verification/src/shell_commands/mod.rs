//! Running a shell command in a workspace: sandboxed where possible, with a
//! timeout, and cancellable by key.

pub mod cancel;
pub mod runner;

pub use cancel::CancelRegistry;
pub use cancel::CancelToken;

use crate::text::opt_string_view;
use vstd::prelude::*;

verus! {

/// What a finished command left behind.
///
/// `exit_code` is the command's own exit code, or -1 where it did not exit
/// by itself. At most one of `timed_out` and `cancelled` is set.
#[derive(Debug)]
pub struct RunCommandResult {
    pub stdout: String,
    pub stderr: String,
    pub exit_code: i32,
    pub timed_out: bool,
    pub cancelled: bool,
    pub sandboxed: bool,
}

/// What to run, and where.
#[derive(Debug)]
pub struct RunCommandArgs {
    pub workspace_root: String,
    pub command: String,
    pub workdir: Option<String>,
    pub timeout_ms: Option<u64>,
    pub cancel_token: Option<String>,
}

/// The mathematical content of a [`RunCommandResult`].
pub struct ResultView {
    pub stdout: Seq<char>,
    pub stderr: Seq<char>,
    pub exit_code: i32,
    pub timed_out: bool,
    pub cancelled: bool,
    pub sandboxed: bool,
}

/// The mathematical content of a [`RunCommandArgs`].
pub struct ArgsView {
    pub workspace_root: Seq<char>,
    pub command: Seq<char>,
    pub workdir: Option<Seq<char>>,
    pub timeout_ms: Option<u64>,
    pub cancel_token: Option<Seq<char>>,
}

impl View for RunCommandResult {
    type V = ResultView;

    open spec fn view(&self) -> ResultView {
        ResultView {
            stdout: self.stdout@,
            stderr: self.stderr@,
            exit_code: self.exit_code,
            timed_out: self.timed_out,
            cancelled: self.cancelled,
            sandboxed: self.sandboxed,
        }
    }
}

impl View for RunCommandArgs {
    type V = ArgsView;

    open spec fn view(&self) -> ArgsView {
        ArgsView {
            workspace_root: self.workspace_root@,
            command: self.command@,
            workdir: opt_string_view(self.workdir),
            timeout_ms: self.timeout_ms,
            cancel_token: opt_string_view(self.cancel_token),
        }
    }
}

/// The registry after a command with the given key has started: the key, if
/// there is one, has a flag.
pub open spec fn registry_after_start(
    before: Map<Seq<char>, CancelToken>,
    key: Option<Seq<char>>,
    token: Option<CancelToken>,
) -> Map<Seq<char>, CancelToken> {
    match (key, token) {
        (Some(k), Some(t)) => before.insert(k, t),
        _ => before,
    }
}

/// Flags do not pile up: once a command that was started is finished, the
/// registry holds its key no more, and every other key as before the
/// command.
pub proof fn lemma_key_is_forgotten(
    before: Map<Seq<char>, CancelToken>,
    key: Seq<char>,
    token: CancelToken,
)
    ensures
        registry_after_start(before, Some(key), Some(token)).remove(key) == before.remove(key),
        !registry_after_start(before, Some(key), Some(token)).remove(key).contains_key(key),
{
    assert(before.insert(key, token).remove(key) =~= before.remove(key));
}

/// Before a command runs: registers a flag under the command's key, if it has
/// one, and returns the flag for the command to poll.
pub fn begin_command(registry: &mut CancelRegistry, args: &RunCommandArgs) -> (token: Option<
    CancelToken,
>)
    ensures
        token is Some <==> args.cancel_token is Some,
        final(registry)@ == registry_after_start(old(registry)@, args@.cancel_token, token),
{
    match &args.cancel_token {
        Some(key) => Some(registry.register(key.as_str())),
        None => None,
    }
}

/// After a command has finished, however it finished: forgets the flag of the
/// command's key, if it has one.
pub fn end_command(registry: &mut CancelRegistry, key: &Option<String>)
    ensures
        final(registry)@ == (match *key {
            Some(k) => old(registry)@.remove(k@),
            None => old(registry)@,
        }),
{
    match key {
        Some(k) => registry.remove(k.as_str()),
        None => {},
    }
}

/// Asks the running command with key `token` to stop. Returns whether there
/// is such a command; with an unknown key nothing happens.
pub fn cancel_command(registry: &CancelRegistry, token: &str) -> (found: bool)
    ensures
        found == registry@.contains_key(token@),
{
    registry.cancel(token)
}

} // verus!
