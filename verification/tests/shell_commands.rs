use cove::shell_commands::{begin_command, cancel_command, end_command};
use cove::shell_commands::{CancelRegistry, CancelToken, RunCommandArgs};

#[test]
fn cancel_registry_register_and_cancel() {
    let mut reg = CancelRegistry::new();
    let token = reg.register("test-1");
    assert!(!token.is_cancelled());
    assert!(reg.cancel("test-1"));
    assert!(token.is_cancelled());
}

#[test]
fn cancel_registry_missing_key_returns_false() {
    let reg = CancelRegistry::new();
    assert!(!reg.cancel("nonexistent"));
}

#[test]
fn cancel_registry_remove() {
    let mut reg = CancelRegistry::new();
    let _token = reg.register("rm-1");
    reg.remove("rm-1");
    assert!(!reg.cancel("rm-1"));
}

#[test]
fn cancel_registry_keeps_keys_apart() {
    let mut reg = CancelRegistry::new();
    let a = reg.register("a");
    let b = reg.register("b");
    assert!(reg.cancel("b"));
    assert!(!a.is_cancelled());
    assert!(b.is_cancelled());
    reg.remove("b");
    assert!(reg.cancel("a"));
    assert!(a.is_cancelled());
    assert!(!reg.cancel("b"));
}

#[test]
fn cancel_registry_register_replaces() {
    let mut reg = CancelRegistry::new();
    let first = reg.register("k");
    let second = reg.register("k");
    assert!(reg.cancel("k"));
    assert!(!first.is_cancelled());
    assert!(second.is_cancelled());
    reg.remove("k");
    assert!(!reg.cancel("k"));
}

#[test]
fn cancel_unknown_key_has_no_effect() {
    let mut reg = CancelRegistry::new();
    let token = reg.register("known");
    assert!(!cancel_command(&reg, "unknown"));
    assert!(!token.is_cancelled());
    assert!(cancel_command(&reg, "known"));
    assert!(token.is_cancelled());
}

#[test]
fn token_clone_shares_the_flag() {
    let token = CancelToken::new();
    let other = token.clone();
    assert!(!other.is_cancelled());
    token.cancel();
    assert!(other.is_cancelled());
}

#[test]
fn command_registers_and_forgets_its_key() {
    let mut reg = CancelRegistry::new();
    let args = RunCommandArgs {
        workspace_root: "/ws".into(),
        command: "sleep 60".into(),
        workdir: None,
        timeout_ms: None,
        cancel_token: Some("abc-123".into()),
    };
    let token = begin_command(&mut reg, &args).unwrap();
    assert!(cancel_command(&reg, "abc-123"));
    assert!(token.is_cancelled());
    end_command(&mut reg, &args.cancel_token);
    assert!(!cancel_command(&reg, "abc-123"));

    let plain = RunCommandArgs {
        workspace_root: "/ws".into(),
        command: "true".into(),
        workdir: None,
        timeout_ms: None,
        cancel_token: None,
    };
    assert!(begin_command(&mut reg, &plain).is_none());
    end_command(&mut reg, &plain.cancel_token);
}
