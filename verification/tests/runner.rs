use cove::fs_commands::validation::{
    ensure_inside_workspace_exists, normalize_path_components, workspace_target,
};
use cove::fs_commands::FsError;
use cove::sandbox::linux::LinuxHost;
use cove::sandbox::{SandboxBackend, SandboxPolicy};
use cove::shell_commands::runner::{
    build_path_env, build_result, decide, effective_timeout_ms, Action, ChildStatus, Event,
    Execution, Fate, Phase, DEFAULT_TIMEOUT_MS, DRAIN_TIMEOUT_MS, MAX_TIMEOUT_MS, NO_EXIT_CODE,
    POLL_INTERVAL_MS,
};
use cove::shell_commands::{CancelToken, RunCommandArgs, RunCommandResult};

fn args(command: &str, workdir: Option<&str>, timeout_ms: Option<u64>) -> RunCommandArgs {
    RunCommandArgs {
        workspace_root: "/ws".into(),
        command: command.into(),
        workdir: workdir.map(|s| s.to_string()),
        timeout_ms,
        cancel_token: None,
    }
}

/// Takes a fresh command up to the first look at the process, unsandboxed.
fn started(a: RunCommandArgs, cancel: Option<CancelToken>) -> (Execution, u64) {
    let mut ex = Execution::new(a, cancel);
    assert!(matches!(ex.step(Event::Begin), Action::ResolveWorkdir { .. }));
    assert!(matches!(ex.step(Event::WorkdirResolved(Ok("/ws".into()))), Action::LoadPolicy));
    let spawn = ex.step(Event::PolicyLoaded {
        stored: None,
        temp_whitelist: vec![],
        backend: SandboxBackend::Unsupported,
        local_bin: None,
        current_path: "/bin".into(),
    });
    assert!(matches!(spawn, Action::Spawn { .. }));
    let timer = ex.step(Event::Spawned { has_stdout: true, has_stderr: true });
    let timeout_ms = match timer {
        Action::StartTimer { timeout_ms } => timeout_ms,
        _ => panic!("expected the timer to be started"),
    };
    assert!(matches!(ex.step(Event::TimerStarted), Action::Observe));
    (ex, timeout_ms)
}

fn finish(ex: &mut Execution, stdout: Option<&str>, stderr: Option<&str>) -> RunCommandResult {
    let action = ex.step(Event::Drained {
        stdout: stdout.map(|s| s.to_string()),
        stderr: stderr.map(|s| s.to_string()),
    });
    assert_eq!(ex.phase(), Phase::Done);
    match action {
        Action::Return(Ok(result)) => result,
        _ => panic!("expected a result"),
    }
}

#[test]
fn echo_captures_stdout() {
    let (mut ex, timeout) = started(args("echo hello", None, Some(10_000)), None);
    assert_eq!(timeout, 10_000);
    let action = ex.step(Event::Observed { child: ChildStatus::Exited(Some(0)), timer_fired: false });
    assert!(matches!(action, Action::Drain { timeout_ms: DRAIN_TIMEOUT_MS }));
    let r = finish(&mut ex, Some("hello\n"), Some(""));
    assert_eq!(r.exit_code, 0);
    assert_eq!(r.stdout.trim(), "hello");
    assert!(!r.timed_out);
    assert!(!r.cancelled);
}

#[test]
fn stderr_captured() {
    let (mut ex, _) = started(args("echo err >&2", None, Some(10_000)), None);
    ex.step(Event::Observed { child: ChildStatus::Exited(Some(0)), timer_fired: false });
    let r = finish(&mut ex, Some(""), Some("err\n"));
    assert!(r.stderr.contains("err"));
    assert_eq!(r.stdout, "");
}

#[test]
fn exit_code_nonzero() {
    let (mut ex, timeout) = started(args("exit 42", None, None), None);
    assert_eq!(timeout, DEFAULT_TIMEOUT_MS);
    assert!(matches!(
        ex.step(Event::Observed { child: ChildStatus::Running, timer_fired: false }),
        Action::Sleep { ms: POLL_INTERVAL_MS }
    ));
    assert!(matches!(ex.step(Event::Slept), Action::Observe));
    ex.step(Event::Observed { child: ChildStatus::Exited(Some(42)), timer_fired: false });
    let r = finish(&mut ex, Some(""), Some(""));
    assert_eq!(r.exit_code, 42);
    assert!(!r.timed_out);
    assert!(!r.cancelled);
    assert!(!r.sandboxed);
}

#[test]
fn timeout_kills_long_command() {
    let (mut ex, timeout) = started(args("sleep 60", None, Some(500)), None);
    assert_eq!(timeout, 500);
    for _ in 0..9 {
        assert!(matches!(
            ex.step(Event::Observed { child: ChildStatus::Running, timer_fired: false }),
            Action::Sleep { ms: 50 }
        ));
        assert!(matches!(ex.step(Event::Slept), Action::Observe));
    }
    let action = ex.step(Event::Observed { child: ChildStatus::Running, timer_fired: true });
    assert!(matches!(action, Action::Kill));
    assert_eq!(ex.phase(), Phase::Killing(false));
    assert!(matches!(ex.step(Event::Killed), Action::Drain { timeout_ms: 3000 }));
    let r = finish(&mut ex, Some(""), Some(""));
    assert!(r.timed_out);
    assert!(!r.cancelled);
    assert_eq!(r.exit_code, -1);
}

#[test]
fn workdir_outside_workspace_rejected() {
    let mut ex = Execution::new(args("pwd", Some("/tmp"), Some(5_000)), None);
    match ex.step(Event::Begin) {
        Action::ResolveWorkdir { workspace_root, workdir } => {
            assert_eq!(workspace_root, "/ws");
            assert_eq!(workdir, "/tmp");
        }
        _ => panic!("expected the working directory to be resolved first"),
    }
    let r = ex.step(Event::WorkdirResolved(Err(FsError::OutsideWorkspace)));
    match r {
        Action::Return(Err(message)) => assert_eq!(message, "OutsideWorkspace"),
        _ => panic!("expected an error"),
    }
    assert_eq!(ex.phase(), Phase::Done);
    // Nothing is spawned afterwards, whatever is reported.
    assert!(matches!(ex.step(Event::Begin), Action::Ignore));
    assert!(matches!(
        ex.step(Event::PolicyLoaded {
            stored: None,
            temp_whitelist: vec![],
            backend: SandboxBackend::MacSeatbelt,
            local_bin: None,
            current_path: "/bin".into(),
        }),
        Action::Ignore
    ));
    assert!(matches!(ex.step(Event::WorkdirResolved(Ok("/ws".into()))), Action::Ignore));
}

/// Answers the request for the working directory as the validator does,
/// given the canonical paths of the root and of the directory asked for.
fn resolved(action: Action, canonical_root: &str, canonical_dir: &str) -> Event {
    match action {
        Action::ResolveWorkdir { workspace_root, workdir } => {
            assert_eq!(workspace_root, "/ws");
            let target = workspace_target(&workspace_root, &workdir);
            assert_eq!(normalize_path_components(&target), canonical_dir);
            Event::WorkdirResolved(ensure_inside_workspace_exists(
                Ok(canonical_root.to_string()),
                Ok(canonical_dir.to_string()),
            ))
        }
        _ => panic!("expected the working directory to be resolved first"),
    }
}

#[test]
fn workdir_checked_by_the_validator_is_rejected() {
    for (workdir, canonical_dir) in
        [("/tmp", "/tmp"), ("../ws2", "/ws2"), ("/ws2/sub", "/ws2/sub"), ("a/../../etc", "/etc")]
    {
        let mut ex = Execution::new(args("pwd", Some(workdir), Some(5_000)), None);
        let asked = ex.step(Event::Begin);
        let answer = resolved(asked, "/ws", canonical_dir);
        assert!(matches!(answer, Event::WorkdirResolved(Err(FsError::OutsideWorkspace))));
        match ex.step(answer) {
            Action::Return(Err(message)) => assert_eq!(message, "OutsideWorkspace"),
            _ => panic!("expected an error for {workdir}"),
        }
        assert_eq!(ex.phase(), Phase::Done);
        assert!(matches!(ex.step(Event::Spawned { has_stdout: true, has_stderr: true }), Action::Ignore));
    }
}

#[test]
fn workdir_checked_by_the_validator_is_accepted() {
    let mut ex = Execution::new(args("pwd", Some("sub/./dir"), None), None);
    let asked = ex.step(Event::Begin);
    let answer = resolved(asked, "/ws", "/ws/sub/dir");
    assert!(matches!(ex.step(answer), Action::LoadPolicy));
    let spawn = ex.step(Event::PolicyLoaded {
        stored: None,
        temp_whitelist: vec![],
        backend: SandboxBackend::Unsupported,
        local_bin: None,
        current_path: "/bin".into(),
    });
    match spawn {
        Action::Spawn { workdir, .. } => assert_eq!(workdir, "/ws/sub/dir"),
        _ => panic!("expected the process to be spawned"),
    }
}

#[test]
fn workdir_not_found_rejected() {
    let mut ex = Execution::new(args("pwd", Some("nowhere"), None), None);
    ex.step(Event::Begin);
    match ex.step(Event::WorkdirResolved(Err(FsError::NotFound))) {
        Action::Return(Err(message)) => assert_eq!(message, "NotFound"),
        _ => panic!("expected an error"),
    }
    let mut ex = Execution::new(args("pwd", Some("x"), None), None);
    ex.step(Event::Begin);
    match ex.step(Event::WorkdirResolved(Err(FsError::Io("bad \"disk\"".into())))) {
        Action::Return(Err(message)) => assert_eq!(message, "Io(\"bad \\\"disk\\\"\")"),
        _ => panic!("expected an error"),
    }
}

#[test]
fn default_workdir_is_workspace_root() {
    let mut ex = Execution::new(args("pwd", None, Some(10_000)), None);
    match ex.step(Event::Begin) {
        Action::ResolveWorkdir { workspace_root, workdir } => {
            assert_eq!(workspace_root, "/ws");
            assert_eq!(workdir, ".");
        }
        _ => panic!("expected the working directory to be resolved first"),
    }
    ex.step(Event::WorkdirResolved(Ok("/private/ws".into())));
    let spawn = ex.step(Event::PolicyLoaded {
        stored: None,
        temp_whitelist: vec![],
        backend: SandboxBackend::Unsupported,
        local_bin: None,
        current_path: "/bin".into(),
    });
    match spawn {
        Action::Spawn { program, args, workdir, path_env } => {
            assert_eq!(program, "sh");
            assert_eq!(args, vec!["-c", "pwd"]);
            assert_eq!(workdir, "/private/ws");
            assert_eq!(path_env, "/bin");
        }
        _ => panic!("expected a spawn"),
    }
}

#[test]
fn cancel_stops_running_command() {
    let token = CancelToken::new();
    let (mut ex, timeout) = started(args("sleep 60", None, Some(30_000)), Some(token.clone()));
    assert_eq!(timeout, 30_000);
    assert!(matches!(
        ex.step(Event::Observed { child: ChildStatus::Running, timer_fired: false }),
        Action::Sleep { .. }
    ));
    assert!(matches!(ex.step(Event::Slept), Action::Observe));
    token.cancel();
    let action = ex.step(Event::Observed { child: ChildStatus::Running, timer_fired: false });
    assert!(matches!(action, Action::Kill));
    assert_eq!(ex.phase(), Phase::Killing(true));
    assert!(matches!(ex.step(Event::Killed), Action::Drain { .. }));
    let r = finish(&mut ex, None, None);
    assert!(r.cancelled);
    assert!(!r.timed_out);
    assert_eq!(r.exit_code, -1);
}

#[test]
fn orphan_holding_pipe_does_not_block_drain() {
    // The shell has exited; a detached child still holds the pipes, so the
    // drain runs into its timeout on one of them and reports what it has.
    let (mut ex, _) = started(args("echo ok; (sleep 300 &)", None, Some(10_000)), None);
    let action = ex.step(Event::Observed { child: ChildStatus::Exited(Some(0)), timer_fired: false });
    assert!(matches!(action, Action::Drain { timeout_ms: 3000 }));
    let r = finish(&mut ex, Some("ok\n"), None);
    assert_eq!(r.exit_code, 0);
    assert!(!r.timed_out);
    assert_eq!(r.stdout, "ok\n");
    assert_eq!(r.stderr, "");
}

#[test]
fn exit_wins_over_timer_and_cancel_in_one_look() {
    let token = CancelToken::new();
    token.cancel();
    let (mut ex, _) = started(args("true", None, None), Some(token));
    let action = ex.step(Event::Observed { child: ChildStatus::Exited(Some(7)), timer_fired: true });
    assert!(matches!(action, Action::Drain { .. }));
    let r = finish(&mut ex, Some(""), Some(""));
    assert_eq!(r.exit_code, 7);
    assert!(!r.timed_out);
    assert!(!r.cancelled);
}

#[test]
fn timer_wins_over_cancel_in_one_look() {
    let token = CancelToken::new();
    token.cancel();
    let (mut ex, _) = started(args("sleep 9", None, None), Some(token));
    assert!(matches!(
        ex.step(Event::Observed { child: ChildStatus::Running, timer_fired: true }),
        Action::Kill
    ));
    ex.step(Event::Killed);
    let r = finish(&mut ex, None, None);
    assert!(r.timed_out);
    assert!(!r.cancelled);
}

#[test]
fn killed_by_signal_has_no_exit_code() {
    let (mut ex, _) = started(args("kill -9 $$", None, None), None);
    ex.step(Event::Observed { child: ChildStatus::Exited(None), timer_fired: false });
    let r = finish(&mut ex, Some(""), Some(""));
    assert_eq!(r.exit_code, -1);
    assert!(!r.timed_out);
    assert!(!r.cancelled);
}

#[test]
fn sandboxed_spawn_falls_back_to_plain_shell() {
    let mut ex = Execution::new(args("ls", None, None), None);
    ex.step(Event::Begin);
    ex.step(Event::WorkdirResolved(Ok("/ws".into())));
    let spawn = ex.step_in(
        Event::PolicyLoaded {
            stored: Some(SandboxPolicy::default()),
            temp_whitelist: vec!["/home/u/.officellm/tmp".into()],
            backend: SandboxBackend::MacSeatbelt,
            local_bin: Some("/home/u/.local/bin".into()),
            current_path: "/bin".into(),
        },
        Some("/home/u"),
        false,
    );
    match spawn {
        Action::Spawn { program, args, workdir, path_env } => {
            assert_eq!(program, "sandbox-exec");
            assert_eq!(args.len(), 5);
            assert_eq!(args[0], "-p");
            assert!(args[1].contains("(allow file-write* (subpath \"/home/u/.officellm/tmp\"))"));
            assert!(args[1].contains("(deny file-read* (subpath \"/home/u/.ssh\"))"));
            assert_eq!(&args[2..], ["sh", "-c", "ls"]);
            assert_eq!(workdir, "/ws");
            assert_eq!(path_env, "/home/u/.local/bin:/bin");
        }
        _ => panic!("expected a spawn"),
    }
    assert_eq!(ex.phase(), Phase::SpawningSandboxed);
    let retry = ex.step(Event::SpawnFailed("No such file or directory".into()));
    match retry {
        Action::Spawn { program, args, workdir, path_env } => {
            assert_eq!(program, "sh");
            assert_eq!(args, vec!["-c", "ls"]);
            assert_eq!(workdir, "/ws");
            assert_eq!(path_env, "/home/u/.local/bin:/bin");
        }
        _ => panic!("expected the plain shell"),
    }
    assert_eq!(ex.phase(), Phase::SpawningPlain);
    assert!(matches!(
        ex.step(Event::Spawned { has_stdout: true, has_stderr: true }),
        Action::StartTimer { .. }
    ));
    ex.step(Event::TimerStarted);
    ex.step(Event::Observed { child: ChildStatus::Exited(Some(0)), timer_fired: false });
    let r = finish(&mut ex, Some("a\n"), Some(""));
    assert!(!r.sandboxed);
}

#[test]
fn sandboxed_spawn_is_reported() {
    let mut ex = Execution::new(args("ls", None, None), None);
    ex.step(Event::Begin);
    ex.step(Event::WorkdirResolved(Ok("/ws".into())));
    let host = LinuxHost { bwrap_available: true, lib64_exists: false, existing_paths: vec![] };
    let spawn = ex.step(Event::PolicyLoaded {
        stored: None,
        temp_whitelist: vec![],
        backend: SandboxBackend::LinuxNamespace(host),
        local_bin: None,
        current_path: "/bin".into(),
    });
    assert!(matches!(spawn, Action::Spawn { ref program, .. } if program == "bwrap"));
    ex.step(Event::Spawned { has_stdout: true, has_stderr: true });
    ex.step(Event::TimerStarted);
    ex.step(Event::Observed { child: ChildStatus::Exited(Some(0)), timer_fired: false });
    let r = finish(&mut ex, Some(""), Some(""));
    assert!(r.sandboxed);
}

#[test]
fn disabled_policy_runs_unsandboxed() {
    let mut ex = Execution::new(args("ls", None, None), None);
    ex.step(Event::Begin);
    ex.step(Event::WorkdirResolved(Ok("/ws".into())));
    let mut policy = SandboxPolicy::default();
    policy.enabled = false;
    let spawn = ex.step(Event::PolicyLoaded {
        stored: Some(policy),
        temp_whitelist: vec![],
        backend: SandboxBackend::MacSeatbelt,
        local_bin: None,
        current_path: "/bin".into(),
    });
    assert!(matches!(spawn, Action::Spawn { ref program, .. } if program == "sh"));
    assert_eq!(ex.phase(), Phase::SpawningPlain);
}

#[test]
fn plain_spawn_failure_is_an_error() {
    let mut ex = Execution::new(args("ls", None, None), None);
    ex.step(Event::Begin);
    ex.step(Event::WorkdirResolved(Ok("/ws".into())));
    ex.step(Event::PolicyLoaded {
        stored: None,
        temp_whitelist: vec![],
        backend: SandboxBackend::Unsupported,
        local_bin: None,
        current_path: "/bin".into(),
    });
    match ex.step(Event::SpawnFailed("cannot fork".into())) {
        Action::Return(Err(message)) => assert_eq!(message, "cannot fork"),
        _ => panic!("expected an error"),
    }
    assert_eq!(ex.phase(), Phase::Done);
}

#[test]
fn missing_pipes_are_errors() {
    for (out, err, want) in [(false, true, "stdout pipe"), (true, false, "stderr pipe"), (false, false, "stdout pipe")] {
        let mut ex = Execution::new(args("ls", None, None), None);
        ex.step(Event::Begin);
        ex.step(Event::WorkdirResolved(Ok("/ws".into())));
        ex.step(Event::PolicyLoaded {
            stored: None,
            temp_whitelist: vec![],
            backend: SandboxBackend::Unsupported,
            local_bin: None,
            current_path: "/bin".into(),
        });
        match ex.step(Event::Spawned { has_stdout: out, has_stderr: err }) {
            Action::Return(Err(message)) => assert_eq!(message, want),
            _ => panic!("expected an error"),
        }
    }
}

#[test]
fn events_out_of_turn_change_nothing() {
    let mut ex = Execution::new(args("ls", None, None), None);
    assert_eq!(ex.phase(), Phase::Created);
    assert!(matches!(ex.step(Event::Killed), Action::Ignore));
    assert!(matches!(ex.step(Event::Slept), Action::Ignore));
    assert!(matches!(
        ex.step(Event::Observed { child: ChildStatus::Exited(Some(0)), timer_fired: true }),
        Action::Ignore
    ));
    assert!(matches!(ex.step(Event::Drained { stdout: None, stderr: None }), Action::Ignore));
    assert_eq!(ex.phase(), Phase::Created);
    let (mut ex, _) = started(args("ls", None, None), None);
    assert!(matches!(ex.step(Event::Killed), Action::Ignore));
    assert!(matches!(ex.step(Event::Begin), Action::Ignore));
    assert_eq!(ex.phase(), Phase::Observing);
}

#[test]
fn timeout_defaults_and_clamps() {
    assert_eq!(effective_timeout_ms(None), 120_000);
    assert_eq!(effective_timeout_ms(Some(500)), 500);
    assert_eq!(effective_timeout_ms(Some(0)), 0);
    assert_eq!(effective_timeout_ms(Some(600_000)), 600_000);
    assert_eq!(effective_timeout_ms(Some(600_001)), 600_000);
    assert_eq!(effective_timeout_ms(Some(u64::MAX)), MAX_TIMEOUT_MS);
    let (_, timeout) = started(args("ls", None, Some(9_999_999)), None);
    assert_eq!(timeout, 600_000);
}

#[test]
fn path_env_puts_local_tools_first() {
    assert_eq!(build_path_env(Some("/home/u/.local/bin"), "/usr/bin:/bin"), "/home/u/.local/bin:/usr/bin:/bin");
    assert_eq!(build_path_env(None, "/usr/bin:/bin"), "/usr/bin:/bin");
    assert_eq!(build_path_env(Some("/home/u/.local/bin"), ""), "/home/u/.local/bin:");
}

#[test]
fn one_look_decides() {
    assert_eq!(decide(ChildStatus::Exited(Some(3)), true, true), Some(Fate::Exited(3)));
    assert_eq!(decide(ChildStatus::Exited(None), false, false), Some(Fate::Exited(NO_EXIT_CODE)));
    assert_eq!(decide(ChildStatus::Running, true, true), Some(Fate::TimedOut));
    assert_eq!(decide(ChildStatus::Running, false, true), Some(Fate::Cancelled));
    assert_eq!(decide(ChildStatus::Running, false, false), None);
}

#[test]
fn results_by_fate() {
    let r = build_result(Fate::Exited(5), Some("o".into()), Some("e".into()), true);
    assert_eq!((r.stdout.as_str(), r.stderr.as_str(), r.exit_code), ("o", "e", 5));
    assert!(!r.timed_out && !r.cancelled && r.sandboxed);
    let r = build_result(Fate::TimedOut, None, Some("e".into()), false);
    assert_eq!((r.stdout.as_str(), r.stderr.as_str(), r.exit_code), ("", "e", -1));
    assert!(r.timed_out && !r.cancelled && !r.sandboxed);
    let r = build_result(Fate::Cancelled, Some("o".into()), None, false);
    assert_eq!((r.stdout.as_str(), r.stderr.as_str(), r.exit_code), ("o", "", -1));
    assert!(!r.timed_out && r.cancelled);
}
