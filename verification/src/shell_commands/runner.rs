//! The life of one command, as a state machine.
//!
//! The machine decides; its driver acts. The driver hands the machine an
//! [`Event`], performs the [`Action`] it gets back, and reports how that went
//! with the next event, until the machine returns the command's result.

use super::cancel::CancelToken;
use super::{ArgsView, ResultView, RunCommandArgs, RunCommandResult};
use crate::fs_commands::validation::{answer_view, inside_existing};
use crate::fs_commands::{error_text, FsError};
use crate::paths::lies_inside;
use crate::sandbox::{
    build_sandbox_command_in, default_policy, home_as_str, home_dir, sandbox_command, PolicyView,
    SandboxBackend, SandboxPolicy,
};
use crate::text::{opt_string_view, opt_view, views};
use vstd::prelude::*;

verus! {

/// The timeout of a command that asks for none, in milliseconds.
pub const DEFAULT_TIMEOUT_MS: u64 = 120_000;

/// The longest timeout a command can have, in milliseconds.
pub const MAX_TIMEOUT_MS: u64 = 600_000;

/// The pause between two looks at a running command, in milliseconds.
pub const POLL_INTERVAL_MS: u64 = 50;

/// How long the output pipes are read after the command's fate is decided,
/// in milliseconds.
pub const DRAIN_TIMEOUT_MS: u64 = 3_000;

/// The exit code of a command that did not exit by itself.
pub const NO_EXIT_CODE: i32 = -1;

/// How a command ended.
#[derive(Debug, Clone, Copy, PartialEq, Eq)]
pub enum Fate {
    /// It exited by itself, with this exit code.
    Exited(i32),
    /// It ran into its timeout and was killed.
    TimedOut,
    /// It was cancelled and killed.
    Cancelled,
}

/// What a look at the child process shows.
#[derive(Debug, Clone, Copy, PartialEq, Eq)]
pub enum ChildStatus {
    /// Still running, or its state could not be read.
    Running,
    /// Exited, with an exit code unless a signal ended it.
    Exited(Option<i32>),
}

/// Where a command stands.
#[derive(Debug, Clone, Copy, PartialEq, Eq)]
pub enum Phase {
    /// Nothing has happened yet.
    Created,
    /// The working directory is being resolved.
    ResolvingWorkdir,
    /// The sandbox policy is being loaded.
    LoadingPolicy,
    /// The sandboxed form of the command is being spawned.
    SpawningSandboxed,
    /// The plain form of the command is being spawned.
    SpawningPlain,
    /// The process runs; its timer is being started.
    StartingTimer,
    /// The process runs; the driver is looking at it.
    Observing,
    /// The process runs; the driver pauses before the next look.
    Sleeping,
    /// The process group is being killed; `true` after a cancellation,
    /// `false` after a timeout.
    Killing(bool),
    /// The fate is decided; the output is being collected.
    Draining(Fate),
    /// The result or the error has been returned.
    Done,
}

/// What the driver reports.
pub enum Event {
    /// The driver is ready.
    Begin,
    /// The working directory was resolved to a path inside the workspace, or
    /// was refused.
    WorkdirResolved(Result<String, FsError>),
    /// What was found on the machine: the stored policy, if one could be
    /// read; the temp directories to add to its writable paths; the sandbox
    /// backend; the user's local tool directory, if it exists; and the `PATH`
    /// of this process.
    PolicyLoaded {
        stored: Option<SandboxPolicy>,
        temp_whitelist: Vec<String>,
        backend: SandboxBackend,
        local_bin: Option<String>,
        current_path: String,
    },
    /// The process was spawned; whether its output pipes are there.
    Spawned { has_stdout: bool, has_stderr: bool },
    /// The process could not be spawned.
    SpawnFailed(String),
    /// The timer runs.
    TimerStarted,
    /// A look at the child and at the timer.
    Observed { child: ChildStatus, timer_fired: bool },
    /// The pause is over.
    Slept,
    /// The process group and the child were killed and the child was reaped.
    Killed,
    /// What was read from the pipes before the drain timeout; `None` for a
    /// pipe that did not reach its end in time.
    Drained { stdout: Option<String>, stderr: Option<String> },
}

/// What the driver is to do next.
pub enum Action {
    /// Resolve `workdir` against the workspace and check that it is inside.
    ResolveWorkdir { workspace_root: String, workdir: String },
    /// Load the sandbox policy and look at the host: its sandbox backend,
    /// its temp directories, the user's local tool directory and the `PATH`.
    LoadPolicy,
    /// Spawn `program` with `args` in `workdir`, in a process group of its
    /// own, with `path_env` as `PATH`, stdin closed and both outputs piped.
    Spawn { program: String, args: Vec<String>, workdir: String, path_env: String },
    /// Start a timer that fires after `timeout_ms`.
    StartTimer { timeout_ms: u64 },
    /// Look whether the child has exited and whether the timer has fired.
    Observe,
    /// Pause for `ms`.
    Sleep { ms: u64 },
    /// Kill the whole process group, then the child itself, and reap it.
    Kill,
    /// Read both pipes to their end, for at most `timeout_ms` each, then
    /// close them.
    Drain { timeout_ms: u64 },
    /// Hand this to the caller: the command is over.
    Return(Result<RunCommandResult, String>),
    /// Nothing: the event did not belong to the phase.
    Ignore,
}

/// The mathematical content of an [`Action`].
pub enum ActionView {
    ResolveWorkdir { workspace_root: Seq<char>, workdir: Seq<char> },
    LoadPolicy,
    Spawn { program: Seq<char>, args: Seq<Seq<char>>, workdir: Seq<char>, path_env: Seq<char> },
    StartTimer { timeout_ms: u64 },
    Observe,
    Sleep { ms: u64 },
    Kill,
    Drain { timeout_ms: u64 },
    Return(Result<ResultView, Seq<char>>),
    Ignore,
}

impl View for Action {
    type V = ActionView;

    open spec fn view(&self) -> ActionView {
        match *self {
            Action::ResolveWorkdir { workspace_root, workdir } => ActionView::ResolveWorkdir {
                workspace_root: workspace_root@,
                workdir: workdir@,
            },
            Action::LoadPolicy => ActionView::LoadPolicy,
            Action::Spawn { program, args, workdir, path_env } => ActionView::Spawn {
                program: program@,
                args: views(args@),
                workdir: workdir@,
                path_env: path_env@,
            },
            Action::StartTimer { timeout_ms } => ActionView::StartTimer { timeout_ms },
            Action::Observe => ActionView::Observe,
            Action::Sleep { ms } => ActionView::Sleep { ms },
            Action::Kill => ActionView::Kill,
            Action::Drain { timeout_ms } => ActionView::Drain { timeout_ms },
            Action::Return(Ok(result)) => ActionView::Return(Ok(result@)),
            Action::Return(Err(message)) => ActionView::Return(Err(message@)),
            Action::Ignore => ActionView::Ignore,
        }
    }
}

/// One command on its way from start to result.
pub struct Execution {
    args: RunCommandArgs,
    cancel: Option<CancelToken>,
    path_env: String,
    phase: Phase,
    workdir: String,
    sandboxed: bool,
}

/// The mathematical content of an [`Execution`].
pub struct ExecutionView {
    pub args: ArgsView,
    /// Whether the command can be cancelled.
    pub has_token: bool,
    /// The `PATH` the command runs with, once the host was looked at.
    pub path_env: Seq<char>,
    pub phase: Phase,
    /// The resolved working directory, once there is one.
    pub workdir: Seq<char>,
    /// Whether the process that runs is the sandboxed form.
    pub sandboxed: bool,
}

impl View for Execution {
    type V = ExecutionView;

    closed spec fn view(&self) -> ExecutionView {
        ExecutionView {
            args: self.args@,
            has_token: self.cancel is Some,
            path_env: self.path_env@,
            phase: self.phase,
            workdir: self.workdir@,
            sandboxed: self.sandboxed,
        }
    }
}

/// What the machine cannot know before it asks: the user's home directory,
/// and whether the cancel flag was found set.
pub struct Ambient {
    pub home: Option<Seq<char>>,
    pub cancel_seen: bool,
}

/// The timeout a command runs under: what it asked for, or the default, and
/// never more than the maximum.
pub open spec fn effective_timeout(requested: Option<u64>) -> u64 {
    let wanted = match requested {
        Some(ms) => ms,
        None => DEFAULT_TIMEOUT_MS,
    };
    if wanted <= MAX_TIMEOUT_MS {
        wanted
    } else {
        MAX_TIMEOUT_MS
    }
}

/// The working directory a command asks for: its `workdir`, or the workspace
/// root itself, written `.`.
pub open spec fn requested_workdir(args: ArgsView) -> Seq<char> {
    match args.workdir {
        Some(dir) => dir,
        None => "."@,
    }
}

/// The `PATH` of a command: the user's local tool directory, where there is
/// one, in front of the current `PATH`.
pub open spec fn path_env_of(local_bin: Option<Seq<char>>, current: Seq<char>) -> Seq<char> {
    match local_bin {
        Some(dir) => dir + ":"@ + current,
        None => current,
    }
}

/// The policy a command runs under: the stored one, or the default, with the
/// temp directories added to its writable paths.
pub open spec fn effective_policy(stored: Option<SandboxPolicy>, temp_whitelist: Seq<String>) -> PolicyView {
    let base = match stored {
        Some(p) => p@,
        None => default_policy(),
    };
    PolicyView { allow_write: base.allow_write + views(temp_whitelist), ..base }
}

/// The fate of a command after one look at it, if the look decides it. An
/// exit counts before the timer, and the timer before the cancel flag.
pub open spec fn observed_fate(child: ChildStatus, timer_fired: bool, cancel_seen: bool) -> Option<Fate> {
    match child {
        ChildStatus::Exited(Some(code)) => Some(Fate::Exited(code)),
        ChildStatus::Exited(None) => Some(Fate::Exited(NO_EXIT_CODE)),
        ChildStatus::Running => if timer_fired {
            Some(Fate::TimedOut)
        } else if cancel_seen {
            Some(Fate::Cancelled)
        } else {
            None
        },
    }
}

/// The result of a command with the given fate and output. Output that was
/// not read in time counts as empty.
pub open spec fn result_of(
    fate: Fate,
    stdout: Option<Seq<char>>,
    stderr: Option<Seq<char>>,
    sandboxed: bool,
) -> ResultView {
    ResultView {
        stdout: match stdout {
            Some(text) => text,
            None => Seq::empty(),
        },
        stderr: match stderr {
            Some(text) => text,
            None => Seq::empty(),
        },
        exit_code: match fate {
            Fate::Exited(code) => code,
            _ => NO_EXIT_CODE,
        },
        timed_out: fate == Fate::TimedOut,
        cancelled: fate == Fate::Cancelled,
        sandboxed,
    }
}

/// The action that spawns the plain form of the command: `sh -c <command>`.
pub open spec fn plain_spawn(s: ExecutionView) -> ActionView {
    ActionView::Spawn {
        program: "sh"@,
        args: seq!["-c"@, s.args.command],
        workdir: s.workdir,
        path_env: s.path_env,
    }
}

/// A command that has not started.
pub open spec fn initial(args: ArgsView, has_token: bool) -> ExecutionView {
    ExecutionView {
        args,
        has_token,
        path_env: Seq::empty(),
        phase: Phase::Created,
        workdir: Seq::empty(),
        sandboxed: false,
    }
}

/// The machine: the state after `event`, and what the driver is to do next.
/// An event that does not belong to the phase changes nothing.
pub open spec fn next(s: ExecutionView, event: Event, ambient: Ambient) -> (ExecutionView, ActionView) {
    match (s.phase, event) {
        (Phase::Created, Event::Begin) => (
            ExecutionView { phase: Phase::ResolvingWorkdir, ..s },
            ActionView::ResolveWorkdir {
                workspace_root: s.args.workspace_root,
                workdir: requested_workdir(s.args),
            },
        ),
        (Phase::ResolvingWorkdir, Event::WorkdirResolved(Ok(dir))) => (
            ExecutionView { phase: Phase::LoadingPolicy, workdir: dir@, ..s },
            ActionView::LoadPolicy,
        ),
        (Phase::ResolvingWorkdir, Event::WorkdirResolved(Err(e))) => (
            ExecutionView { phase: Phase::Done, ..s },
            ActionView::Return(Err(error_text(e))),
        ),
        (
            Phase::LoadingPolicy,
            Event::PolicyLoaded { stored, temp_whitelist, backend, local_bin, current_path },
        ) => {
            let ready = ExecutionView {
                path_env: path_env_of(opt_string_view(local_bin), current_path@),
                ..s
            };
            match sandbox_command(
                backend,
                s.args.command,
                s.args.workspace_root,
                effective_policy(stored, temp_whitelist@),
                ambient.home,
            ) {
                Some(command) => (
                    ExecutionView { phase: Phase::SpawningSandboxed, ..ready },
                    ActionView::Spawn {
                        program: command.0,
                        args: command.1,
                        workdir: ready.workdir,
                        path_env: ready.path_env,
                    },
                ),
                None => (ExecutionView { phase: Phase::SpawningPlain, ..ready }, plain_spawn(ready)),
            }
        },
        (Phase::SpawningSandboxed, Event::SpawnFailed(_)) => (
            ExecutionView { phase: Phase::SpawningPlain, ..s },
            plain_spawn(s),
        ),
        (Phase::SpawningPlain, Event::SpawnFailed(message)) => (
            ExecutionView { phase: Phase::Done, ..s },
            ActionView::Return(Err(message@)),
        ),
        (Phase::SpawningSandboxed, Event::Spawned { has_stdout, has_stderr }) => after_spawn(
            s,
            true,
            has_stdout,
            has_stderr,
        ),
        (Phase::SpawningPlain, Event::Spawned { has_stdout, has_stderr }) => after_spawn(
            s,
            false,
            has_stdout,
            has_stderr,
        ),
        (Phase::StartingTimer, Event::TimerStarted) => (
            ExecutionView { phase: Phase::Observing, ..s },
            ActionView::Observe,
        ),
        (Phase::Observing, Event::Observed { child, timer_fired }) => {
            match observed_fate(child, timer_fired, s.has_token && ambient.cancel_seen) {
                Some(Fate::Exited(code)) => (
                    ExecutionView { phase: Phase::Draining(Fate::Exited(code)), ..s },
                    ActionView::Drain { timeout_ms: DRAIN_TIMEOUT_MS },
                ),
                Some(Fate::TimedOut) => (
                    ExecutionView { phase: Phase::Killing(false), ..s },
                    ActionView::Kill,
                ),
                Some(Fate::Cancelled) => (
                    ExecutionView { phase: Phase::Killing(true), ..s },
                    ActionView::Kill,
                ),
                None => (
                    ExecutionView { phase: Phase::Sleeping, ..s },
                    ActionView::Sleep { ms: POLL_INTERVAL_MS },
                ),
            }
        },
        (Phase::Sleeping, Event::Slept) => (
            ExecutionView { phase: Phase::Observing, ..s },
            ActionView::Observe,
        ),
        (Phase::Killing(cancelled), Event::Killed) => (
            ExecutionView {
                phase: Phase::Draining(
                    if cancelled {
                        Fate::Cancelled
                    } else {
                        Fate::TimedOut
                    },
                ),
                ..s
            },
            ActionView::Drain { timeout_ms: DRAIN_TIMEOUT_MS },
        ),
        (Phase::Draining(fate), Event::Drained { stdout, stderr }) => (
            ExecutionView { phase: Phase::Done, ..s },
            ActionView::Return(
                Ok(
                    result_of(
                        fate,
                        opt_string_view(stdout),
                        opt_string_view(stderr),
                        s.sandboxed,
                    ),
                ),
            ),
        ),
        _ => (s, ActionView::Ignore),
    }
}

/// After a spawn that worked: without both pipes the command is given up,
/// with them its timer is started.
pub open spec fn after_spawn(
    s: ExecutionView,
    sandboxed: bool,
    has_stdout: bool,
    has_stderr: bool,
) -> (ExecutionView, ActionView) {
    if !has_stdout {
        (ExecutionView { phase: Phase::Done, ..s }, ActionView::Return(Err("stdout pipe"@)))
    } else if !has_stderr {
        (ExecutionView { phase: Phase::Done, ..s }, ActionView::Return(Err("stderr pipe"@)))
    } else {
        (
            ExecutionView { phase: Phase::StartingTimer, sandboxed, ..s },
            ActionView::StartTimer { timeout_ms: effective_timeout(s.args.timeout_ms) },
        )
    }
}

/// The timeout a command runs under, in milliseconds.
pub fn effective_timeout_ms(requested: Option<u64>) -> (ms: u64)
    ensures
        ms == effective_timeout(requested),
        ms <= MAX_TIMEOUT_MS,
{
    let wanted = match requested {
        Some(ms) => ms,
        None => DEFAULT_TIMEOUT_MS,
    };
    if wanted <= MAX_TIMEOUT_MS {
        wanted
    } else {
        MAX_TIMEOUT_MS
    }
}

/// The `PATH` of a command. `local_bin` is the user's local tool directory,
/// if it exists; `current` is the `PATH` of this process.
pub fn build_path_env(local_bin: Option<&str>, current: &str) -> (path: String)
    ensures
        path@ == path_env_of(opt_view(local_bin), current@),
{
    match local_bin {
        Some(dir) => {
            let mut path = dir.to_string();
            path.append(":");
            path.append(current);
            path
        },
        None => current.to_string(),
    }
}

/// Where the user's local tools are, given the home directory.
pub fn local_bin_dir(home: &str) -> (dir: String)
    ensures
        dir@ == crate::paths::joined(home@, ".local/bin"@),
{
    crate::paths::join_path(home, ".local/bin")
}

/// The optional string as an optional string slice.
fn option_str(s: &Option<String>) -> (out: Option<&str>)
    ensures
        opt_view(out) == opt_string_view(*s),
{
    match s {
        Some(t) => Some(t.as_str()),
        None => None,
    }
}

/// What one look at a running command decides.
pub fn decide(child: ChildStatus, timer_fired: bool, cancel_seen: bool) -> (fate: Option<Fate>)
    ensures
        fate == observed_fate(child, timer_fired, cancel_seen),
{
    match child {
        ChildStatus::Exited(Some(code)) => Some(Fate::Exited(code)),
        ChildStatus::Exited(None) => Some(Fate::Exited(NO_EXIT_CODE)),
        ChildStatus::Running => if timer_fired {
            Some(Fate::TimedOut)
        } else if cancel_seen {
            Some(Fate::Cancelled)
        } else {
            None
        },
    }
}

/// The text that was read, or the empty text.
fn text_or_empty(text: Option<String>) -> (out: String)
    ensures
        out@ == (match text {
            Some(t) => t@,
            None => Seq::empty(),
        }),
{
    match text {
        Some(t) => t,
        None => String::new(),
    }
}

/// The result of a command with the given fate and output.
pub fn build_result(fate: Fate, stdout: Option<String>, stderr: Option<String>, sandboxed: bool) -> (result:
    RunCommandResult)
    ensures
        result@ == result_of(
            fate,
            opt_string_view(stdout),
            opt_string_view(stderr),
            sandboxed,
        ),
        !(result.timed_out && result.cancelled),
{
    let (exit_code, timed_out, cancelled) = match fate {
        Fate::Exited(code) => (code, false, false),
        Fate::TimedOut => (NO_EXIT_CODE, true, false),
        Fate::Cancelled => (NO_EXIT_CODE, false, true),
    };
    RunCommandResult {
        stdout: text_or_empty(stdout),
        stderr: text_or_empty(stderr),
        exit_code,
        timed_out,
        cancelled,
        sandboxed,
    }
}

impl Execution {
    /// A command that has not started. `cancel` is the flag that cancels it,
    /// if it can be cancelled.
    pub fn new(args: RunCommandArgs, cancel: Option<CancelToken>) -> (execution: Execution)
        ensures
            execution@ == initial(args@, cancel is Some),
    {
        Execution {
            args,
            cancel,
            path_env: String::new(),
            phase: Phase::Created,
            workdir: String::new(),
            sandboxed: false,
        }
    }

    /// Where the command stands.
    pub fn phase(&self) -> (phase: Phase)
        ensures
            phase == self@.phase,
    {
        self.phase
    }

    /// The action that spawns the plain form of the command.
    fn spawn_plain(&self) -> (action: Action)
        ensures
            action@ == plain_spawn(self@),
    {
        let mut args: Vec<String> = Vec::new();
        args.push("-c".to_string());
        args.push(self.args.command.clone());
        assert(views(args@) =~= seq!["-c"@, self.args.command@]);
        Action::Spawn {
            program: "sh".to_string(),
            args,
            workdir: self.workdir.clone(),
            path_env: self.path_env.clone(),
        }
    }

    /// The machine's move after a spawn that worked.
    fn spawned(&mut self, sandboxed: bool, has_stdout: bool, has_stderr: bool) -> (action: Action)
        ensures
            (final(self)@, action@) == after_spawn(old(self)@, sandboxed, has_stdout, has_stderr),
    {
        if !has_stdout {
            self.phase = Phase::Done;
            Action::Return(Err("stdout pipe".to_string()))
        } else if !has_stderr {
            self.phase = Phase::Done;
            Action::Return(Err("stderr pipe".to_string()))
        } else {
            self.phase = Phase::StartingTimer;
            self.sandboxed = sandboxed;
            Action::StartTimer { timeout_ms: effective_timeout_ms(self.args.timeout_ms) }
        }
    }

    /// One move of the machine, with what it would have to ask for given:
    /// the home directory, and whether the cancel flag is set.
    pub fn step_in(&mut self, event: Event, home: Option<&str>, cancel_seen: bool) -> (action: Action)
        ensures
            (final(self)@, action@) == next(
                old(self)@,
                event,
                (Ambient { home: opt_view(home), cancel_seen }),
            ),
    {
        match (self.phase, event) {
            (Phase::Created, Event::Begin) => {
                self.phase = Phase::ResolvingWorkdir;
                let workdir = match &self.args.workdir {
                    Some(dir) => dir.clone(),
                    None => ".".to_string(),
                };
                Action::ResolveWorkdir { workspace_root: self.args.workspace_root.clone(), workdir }
            },
            (Phase::ResolvingWorkdir, Event::WorkdirResolved(Ok(dir))) => {
                self.phase = Phase::LoadingPolicy;
                self.workdir = dir;
                Action::LoadPolicy
            },
            (Phase::ResolvingWorkdir, Event::WorkdirResolved(Err(e))) => {
                self.phase = Phase::Done;
                Action::Return(Err(e.debug_text()))
            },
            (
                Phase::LoadingPolicy,
                Event::PolicyLoaded { stored, temp_whitelist, backend, local_bin, current_path },
            ) => {
                self.path_env = build_path_env(option_str(&local_bin), current_path.as_str());
                let mut policy = SandboxPolicy::or_default(stored);
                policy.allow_writes(temp_whitelist);
                assert(policy@ == effective_policy(stored, temp_whitelist@));
                let command = build_sandbox_command_in(
                    &backend,
                    self.args.command.as_str(),
                    self.args.workspace_root.as_str(),
                    &policy,
                    home,
                );
                match command {
                    Some((program, args)) => {
                        self.phase = Phase::SpawningSandboxed;
                        Action::Spawn {
                            program,
                            args,
                            workdir: self.workdir.clone(),
                            path_env: self.path_env.clone(),
                        }
                    },
                    None => {
                        let action = self.spawn_plain();
                        self.phase = Phase::SpawningPlain;
                        action
                    },
                }
            },
            (Phase::SpawningSandboxed, Event::SpawnFailed(_)) => {
                let action = self.spawn_plain();
                self.phase = Phase::SpawningPlain;
                action
            },
            (Phase::SpawningPlain, Event::SpawnFailed(message)) => {
                self.phase = Phase::Done;
                Action::Return(Err(message))
            },
            (Phase::SpawningSandboxed, Event::Spawned { has_stdout, has_stderr }) => self.spawned(
                true,
                has_stdout,
                has_stderr,
            ),
            (Phase::SpawningPlain, Event::Spawned { has_stdout, has_stderr }) => self.spawned(
                false,
                has_stdout,
                has_stderr,
            ),
            (Phase::StartingTimer, Event::TimerStarted) => {
                self.phase = Phase::Observing;
                Action::Observe
            },
            (Phase::Observing, Event::Observed { child, timer_fired }) => {
                match decide(child, timer_fired, self.cancel.is_some() && cancel_seen) {
                    Some(Fate::Exited(code)) => {
                        self.phase = Phase::Draining(Fate::Exited(code));
                        Action::Drain { timeout_ms: DRAIN_TIMEOUT_MS }
                    },
                    Some(Fate::TimedOut) => {
                        self.phase = Phase::Killing(false);
                        Action::Kill
                    },
                    Some(Fate::Cancelled) => {
                        self.phase = Phase::Killing(true);
                        Action::Kill
                    },
                    None => {
                        self.phase = Phase::Sleeping;
                        Action::Sleep { ms: POLL_INTERVAL_MS }
                    },
                }
            },
            (Phase::Sleeping, Event::Slept) => {
                self.phase = Phase::Observing;
                Action::Observe
            },
            (Phase::Killing(cancelled), Event::Killed) => {
                self.phase = Phase::Draining(
                    if cancelled {
                        Fate::Cancelled
                    } else {
                        Fate::TimedOut
                    },
                );
                Action::Drain { timeout_ms: DRAIN_TIMEOUT_MS }
            },
            (Phase::Draining(fate), Event::Drained { stdout, stderr }) => {
                self.phase = Phase::Done;
                Action::Return(Ok(build_result(fate, stdout, stderr, self.sandboxed)))
            },
            _ => Action::Ignore,
        }
    }

    /// One move of the machine. Where the move depends on it, the machine
    /// asks for the user's home directory and reads the cancel flag; a
    /// command without a flag is never seen cancelled.
    pub fn step(&mut self, event: Event) -> (action: Action)
        ensures
            exists|ambient: Ambient| (final(self)@, action@) == #[trigger] next(old(self)@, event, ambient),
    {
        let home = match &event {
            Event::PolicyLoaded { .. } => home_dir(),
            _ => None,
        };
        let cancel_seen = match (&event, &self.cancel) {
            (Event::Observed { child: ChildStatus::Running, timer_fired: false }, Some(token)) => {
                token.is_cancelled()
            },
            _ => false,
        };
        self.step_in(event, home_as_str(&home), cancel_seen)
    }
}

/// The actions the machine hands out, one per step, when it is fed `steps`
/// from state `s`.
pub open spec fn actions_of(s: ExecutionView, steps: Seq<(Event, Ambient)>) -> Seq<ActionView>
    decreases steps.len(),
{
    if steps.len() == 0 {
        Seq::empty()
    } else {
        let moved = next(s, steps[0].0, steps[0].1);
        seq![moved.1] + actions_of(moved.0, steps.drop_first())
    }
}

/// A command that exits by itself is reported as it exited, whatever the
/// timer and the cancel flag say at that moment: it is not killed, neither
/// `timed_out` nor `cancelled` is set, and the exit code is the process's own.
pub proof fn lemma_exit_is_reported(
    s: ExecutionView,
    code: i32,
    timer_fired: bool,
    seen: Ambient,
    stdout: Option<String>,
    stderr: Option<String>,
    later: Ambient,
)
    requires
        s.phase == Phase::Observing,
    ensures
        ({
            let looked = next(
                s,
                (Event::Observed { child: ChildStatus::Exited(Some(code)), timer_fired }),
                seen,
            );
            let drained = next(looked.0, (Event::Drained { stdout, stderr }), later);
            &&& looked.1 == (ActionView::Drain { timeout_ms: DRAIN_TIMEOUT_MS })
            &&& drained.0.phase == Phase::Done
            &&& drained.1 matches ActionView::Return(Ok(result))
            &&& result.exit_code == code
            &&& !result.timed_out
            &&& !result.cancelled
            &&& result.sandboxed == s.sandboxed
        }),
{
}

/// A command that is still running when its timer has fired is killed, and
/// only then drained; its result has `timed_out` set, `cancelled` clear and
/// the exit code -1, whatever the cancel flag says.
pub proof fn lemma_timeout_is_reported(
    s: ExecutionView,
    seen: Ambient,
    stdout: Option<String>,
    stderr: Option<String>,
    later: Ambient,
)
    requires
        s.phase == Phase::Observing,
    ensures
        ({
            let looked = next(
                s,
                (Event::Observed { child: ChildStatus::Running, timer_fired: true }),
                seen,
            );
            let killed = next(looked.0, Event::Killed, later);
            let drained = next(killed.0, (Event::Drained { stdout, stderr }), later);
            &&& looked.1 == ActionView::Kill
            &&& killed.1 == (ActionView::Drain { timeout_ms: DRAIN_TIMEOUT_MS })
            &&& drained.0.phase == Phase::Done
            &&& drained.1 matches ActionView::Return(Ok(result))
            &&& result.exit_code == -1
            &&& result.timed_out
            &&& !result.cancelled
        }),
{
}

/// A command that is still running, whose timer has not fired and whose
/// cancel flag is found set, is killed, and only then drained; its result has
/// `cancelled` set, `timed_out` clear and the exit code -1.
pub proof fn lemma_cancel_is_reported(
    s: ExecutionView,
    seen: Ambient,
    stdout: Option<String>,
    stderr: Option<String>,
    later: Ambient,
)
    requires
        s.phase == Phase::Observing,
        s.has_token,
        seen.cancel_seen,
    ensures
        ({
            let looked = next(
                s,
                (Event::Observed { child: ChildStatus::Running, timer_fired: false }),
                seen,
            );
            let killed = next(looked.0, Event::Killed, later);
            let drained = next(killed.0, (Event::Drained { stdout, stderr }), later);
            &&& looked.1 == ActionView::Kill
            &&& killed.1 == (ActionView::Drain { timeout_ms: DRAIN_TIMEOUT_MS })
            &&& drained.0.phase == Phase::Done
            &&& drained.1 matches ActionView::Return(Ok(result))
            &&& result.exit_code == -1
            &&& result.cancelled
            &&& !result.timed_out
        }),
{
}

/// No result says both that the command timed out and that it was
/// cancelled.
pub proof fn lemma_result_flags_exclusive(s: ExecutionView, event: Event, ambient: Ambient)
    ensures
        next(s, event, ambient).1 matches ActionView::Return(Ok(result)) ==> !(result.timed_out
            && result.cancelled),
{
}

/// Killing comes before draining: the pipes of a command that timed out or
/// was cancelled are drained only in answer to the report that it was
/// killed.
pub proof fn lemma_kill_precedes_drain(s: ExecutionView, event: Event, ambient: Ambient)
    requires
        next(s, event, ambient).1 is Drain,
        !(next(s, event, ambient).0.phase matches Phase::Draining(Fate::Exited(_))),
    ensures
        s.phase is Killing,
        event is Killed,
{
}

/// Draining ends the command: whatever was read from the pipes, and be it
/// nothing because a pipe never reached its end, the report of the drain is
/// answered with the result.
pub proof fn lemma_drain_ends_the_command(
    s: ExecutionView,
    fate: Fate,
    stdout: Option<String>,
    stderr: Option<String>,
    ambient: Ambient,
)
    requires
        s.phase == Phase::Draining(fate),
    ensures
        next(s, (Event::Drained { stdout, stderr }), ambient).0.phase == Phase::Done,
        next(s, (Event::Drained { stdout, stderr }), ambient).1 == ActionView::Return(
            Ok(result_of(fate, opt_string_view(stdout), opt_string_view(stderr), s.sandboxed)),
        ),
{
}

/// The result says which form of the command ran: a process that was spawned
/// from the sandboxed form is reported as sandboxed; one that was spawned
/// from the plain form, be it because there is no sandbox or because the
/// sandboxed form could not be spawned, is not.
pub proof fn lemma_sandboxed_reflects_spawn(s: ExecutionView, failure: String, ambient: Ambient)
    requires
        s.phase == Phase::SpawningSandboxed || s.phase == Phase::SpawningPlain,
    ensures
        ({
            let spawned = next(s, (Event::Spawned { has_stdout: true, has_stderr: true }), ambient);
            &&& spawned.0.phase == Phase::StartingTimer
            &&& spawned.0.sandboxed == (s.phase == Phase::SpawningSandboxed)
            &&& spawned.1 == (ActionView::StartTimer {
                timeout_ms: effective_timeout(s.args.timeout_ms),
            })
        }),
        s.phase == Phase::SpawningSandboxed ==> {
            let retry = next(s, Event::SpawnFailed(failure), ambient);
            let spawned = next(
                retry.0,
                (Event::Spawned { has_stdout: true, has_stderr: true }),
                ambient,
            );
            &&& retry.0.phase == Phase::SpawningPlain
            &&& retry.1 == plain_spawn(s)
            &&& !spawned.0.sandboxed
        },
        s.phase == Phase::SpawningPlain ==> next(s, Event::SpawnFailed(failure), ambient).1
            == ActionView::Return(Err(failure@)),
{
}

/// Once the process runs, the phase alone decides whether the command is
/// sandboxed: no later step changes the flag.
pub proof fn lemma_sandboxed_is_settled(s: ExecutionView, event: Event, ambient: Ambient)
    requires
        s.phase != Phase::SpawningSandboxed,
        s.phase != Phase::SpawningPlain,
    ensures
        next(s, event, ambient).0.sandboxed == s.sandboxed,
{
}

/// Whether the step reports a working directory that was accepted.
pub open spec fn accepts_workdir(step: (Event, Ambient)) -> bool {
    step.0 matches Event::WorkdirResolved(Ok(_))
}

/// Nothing is spawned before the working directory is accepted: from the
/// start, as long as no event reports an accepted working directory, the
/// machine never asks for a spawn. A working directory that is refused ends
/// the command with the error's text.
pub proof fn lemma_no_spawn_before_workdir(s: ExecutionView, steps: Seq<(Event, Ambient)>)
    requires
        s.phase == Phase::Created || s.phase == Phase::ResolvingWorkdir || s.phase == Phase::Done,
        forall|i: int| 0 <= i < steps.len() ==> !accepts_workdir(#[trigger] steps[i]),
    ensures
        forall|i: int| 0 <= i < steps.len() ==> !(#[trigger] actions_of(s, steps)[i] is Spawn),
        actions_of(s, steps).len() == steps.len(),
    decreases steps.len(),
{
    if steps.len() > 0 {
        let moved = next(s, steps[0].0, steps[0].1);
        let rest = steps.drop_first();
        assert(!accepts_workdir(steps[0]));
        assert forall|i: int| 0 <= i < rest.len() implies !accepts_workdir(#[trigger] rest[i]) by {
            assert(rest[i] == steps[i + 1]);
        }
        lemma_no_spawn_before_workdir(moved.0, rest);
        assert forall|i: int| 0 <= i < steps.len() implies !(#[trigger] actions_of(s, steps)[i]
            is Spawn) by {
            if i > 0 {
                assert(actions_of(s, steps)[i] == actions_of(moved.0, rest)[i - 1]);
            }
        }
    }
}

/// A working directory that is refused ends the command at once: the machine
/// returns the error's text and is done.
pub proof fn lemma_refused_workdir_ends(s: ExecutionView, e: FsError, ambient: Ambient)
    requires
        s.phase == Phase::ResolvingWorkdir,
    ensures
        next(s, Event::WorkdirResolved(Err(e)), ambient).0.phase == Phase::Done,
        next(s, Event::WorkdirResolved(Err(e)), ambient).1 == ActionView::Return(
            Err(error_text(e)),
        ),
{
}

/// A working directory that escapes the workspace ends the command before
/// anything is spawned: where the canonical directory does not lie inside
/// the canonical root, the directory is answered with an error, and the
/// machine returns `OutsideWorkspace` and is done.
pub proof fn lemma_escaping_workdir_is_refused(
    s: ExecutionView,
    root: String,
    dir: String,
    answer: Result<String, FsError>,
    ambient: Ambient,
)
    requires
        s.phase == Phase::ResolvingWorkdir,
        !lies_inside(root@, dir@),
        answer_view(answer) == inside_existing(Ok(root), Ok(dir)),
    ensures
        next(s, Event::WorkdirResolved(answer), ambient).0.phase == Phase::Done,
        next(s, Event::WorkdirResolved(answer), ambient).1 == ActionView::Return(
            Err("OutsideWorkspace"@),
        ),
{
    assert(answer matches Err(FsError::OutsideWorkspace));
}

/// A command returns once: the step that hands out the result or the error
/// leaves the command done.
pub proof fn lemma_returns_once(s: ExecutionView, event: Event, ambient: Ambient)
    requires
        next(s, event, ambient).1 is Return,
    ensures
        s.phase != Phase::Done,
        next(s, event, ambient).0.phase == Phase::Done,
{
}

/// A command that is done stays done and asks for nothing more.
pub proof fn lemma_done_is_final(s: ExecutionView, event: Event, ambient: Ambient)
    requires
        s.phase == Phase::Done,
    ensures
        next(s, event, ambient) == (s, ActionView::Ignore),
{
}

} // verus!
