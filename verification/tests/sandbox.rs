use cove::sandbox::linux::{covers_path, is_covered, LinuxHost};
use cove::sandbox::macos::{
    build_command, build_command_in, escape_seatbelt, generate_profile, generate_profile_in,
};
use cove::sandbox::{
    build_sandbox_command, build_sandbox_command_in, expand_tilde, expand_tilde_in,
    is_sandbox_supported, SandboxBackend, SandboxPolicy,
};

fn policy(deny_read: &[&str], allow_write: &[&str], deny_write: &[&str], net: bool) -> SandboxPolicy {
    SandboxPolicy {
        enabled: true,
        deny_read: deny_read.iter().map(|s| s.to_string()).collect(),
        allow_write: allow_write.iter().map(|s| s.to_string()).collect(),
        deny_write: deny_write.iter().map(|s| s.to_string()).collect(),
        allow_network: net,
    }
}

#[test]
fn test_generate_profile_contains_workspace() {
    let policy = SandboxPolicy::default();
    let profile = generate_profile("/Users/test/project", &policy);
    assert!(profile.contains("/Users/test/project"));
    assert!(profile.contains("(deny default)"));
    assert!(profile.contains("(deny network*)"));
}

#[test]
fn test_build_command_returns_sandbox_exec() {
    let policy = SandboxPolicy::default();
    let result = build_command("ls -la", "/Users/test/project", &policy);
    assert!(result.is_some());
    let (prog, args) = result.unwrap();
    assert_eq!(prog, "sandbox-exec");
    assert_eq!(args[0], "-p");
    assert_eq!(args[2], "sh");
    assert_eq!(args[3], "-c");
    assert_eq!(args[4], "ls -la");
}

#[test]
fn default_policy_denies_credentials() {
    let p = SandboxPolicy::default();
    assert!(p.enabled);
    assert_eq!(p.deny_read, vec!["~/.ssh", "~/.aws", "~/.gnupg", "~/.config/gcloud"]);
    assert!(p.allow_write.is_empty());
    assert!(p.deny_write.is_empty());
    assert!(!p.allow_network);
    let q = SandboxPolicy::or_default(None);
    assert_eq!(q.deny_read, p.deny_read);
    let stored = policy(&[], &["/x"], &[], true);
    let q = SandboxPolicy::or_default(Some(stored));
    assert_eq!(q.allow_write, vec!["/x"]);
    assert!(q.allow_network);
}

#[test]
fn allow_writes_appends() {
    let mut p = policy(&["/r"], &["/a"], &["/d"], true);
    p.allow_writes(vec!["/b".into(), "/c".into()]);
    assert_eq!(p.allow_write, vec!["/a", "/b", "/c"]);
    assert_eq!(p.deny_read, vec!["/r"]);
    assert_eq!(p.deny_write, vec!["/d"]);
    assert!(p.enabled && p.allow_network);
}

#[test]
fn expand_tilde_cases() {
    assert_eq!(expand_tilde_in("~", Some("/home/u")), "/home/u");
    assert_eq!(expand_tilde_in("~/.ssh", Some("/home/u")), "/home/u/.ssh");
    assert_eq!(expand_tilde_in("~/a~b", Some("/home/u")), "/home/u/a~b");
    assert_eq!(expand_tilde_in("~user/x", Some("/home/u")), "~user/x");
    assert_eq!(expand_tilde_in("/abs/~", Some("/home/u")), "/abs/~");
    assert_eq!(expand_tilde_in("", Some("/home/u")), "");
    assert_eq!(expand_tilde_in("~/.ssh", None), "~/.ssh");
    assert_eq!(expand_tilde_in("~", None), "~");
    assert_eq!(expand_tilde("/abs/path"), "/abs/path");
    assert_eq!(expand_tilde("~who"), "~who");
}

#[test]
fn escape_seatbelt_escapes_quotes_and_backslashes() {
    assert_eq!(escape_seatbelt("plain"), "plain");
    assert_eq!(escape_seatbelt("a\"b"), "a\\\"b");
    assert_eq!(escape_seatbelt("a\\b"), "a\\\\b");
    assert_eq!(escape_seatbelt("\\\""), "\\\\\\\"");
    assert_eq!(escape_seatbelt(""), "");
    assert_eq!(escape_seatbelt("/tmp/x\")) (allow default) (\""), "/tmp/x\\\")) (allow default) (\\\"");
}

#[test]
fn profile_text_exact() {
    let p = policy(&["~/.ssh", "/secret"], &["~/out", "/data"], &["/data/keep"], false);
    let profile = generate_profile_in("/ws", &p, Some("/home/u"));
    let expected = [
        "(version 1)",
        "(deny default)",
        "(allow process-exec)",
        "(allow process-fork)",
        "(allow signal (target self))",
        "(allow sysctl-read)",
        "(allow file-read*)",
        "(deny file-read* (subpath \"/home/u/.ssh\"))",
        "(deny file-read* (subpath \"/secret\"))",
        "(deny file-write*)",
        "(allow file-write* (subpath \"/ws\"))",
        "(allow file-write* (subpath \"/tmp\"))",
        "(allow file-write* (subpath \"/private/tmp\"))",
        "(allow file-write* (subpath \"/home/u/out\"))",
        "(allow file-write* (subpath \"/data\"))",
        "(deny file-write* (subpath \"/data/keep\"))",
        "(deny network*)",
    ]
    .join("\n");
    assert_eq!(profile, expected);
    let open = policy(&[], &[], &[], true);
    let profile = generate_profile_in("/w \"s\"", &open, None);
    assert!(profile.ends_with("(allow file-write* (subpath \"/private/tmp\"))\n(allow network*)"));
    assert!(profile.contains("(allow file-write* (subpath \"/w \\\"s\\\"\"))"));
}

#[test]
fn deny_write_stands_after_allow_write() {
    let p = policy(&[], &["/shared", "/other"], &["/shared"], false);
    let profile = generate_profile_in("/ws", &p, None);
    let allow = profile.find("(allow file-write* (subpath \"/shared\"))").unwrap();
    let other = profile.find("(allow file-write* (subpath \"/other\"))").unwrap();
    let deny = profile.find("(deny file-write* (subpath \"/shared\"))").unwrap();
    assert!(allow < deny);
    assert!(other < deny);
    // The workspace and the temp area can be denied too.
    let p = policy(&[], &[], &["/ws", "/tmp"], false);
    let profile = generate_profile_in("/ws", &p, None);
    assert!(
        profile.find("(allow file-write* (subpath \"/ws\"))").unwrap()
            < profile.find("(deny file-write* (subpath \"/ws\"))").unwrap()
    );
    assert!(
        profile.find("(allow file-write* (subpath \"/tmp\"))").unwrap()
            < profile.find("(deny file-write* (subpath \"/tmp\"))").unwrap()
    );
}

#[test]
fn mac_command_wraps_the_profile() {
    let p = policy(&[], &[], &[], false);
    let (prog, args) = build_command_in("echo 'a b'", "/ws", &p, None).unwrap();
    assert_eq!(prog, "sandbox-exec");
    assert_eq!(args.len(), 5);
    assert_eq!(args[1], generate_profile_in("/ws", &p, None));
    assert_eq!(&args[2..], ["sh", "-c", "echo 'a b'"]);
}

#[test]
fn linux_args_exact() {
    let p = policy(&["~/.ssh"], &["~/out", "/missing", "/data"], &["/never"], false);
    let host = LinuxHost {
        bwrap_available: true,
        lib64_exists: true,
        existing_paths: vec!["/data".into(), "/home/u/out".into(), "/unrelated".into()],
    };
    let (prog, args) =
        cove::sandbox::linux::build_command_in("make test", "/ws", &p, &host, Some("/home/u")).unwrap();
    assert_eq!(prog, "bwrap");
    assert_eq!(
        args,
        vec![
            "--ro-bind", "/usr", "/usr", "--ro-bind", "/lib", "/lib", "--ro-bind", "/bin", "/bin",
            "--ro-bind", "/etc", "/etc", "--proc", "/proc", "--dev", "/dev", "--ro-bind", "/lib64",
            "/lib64", "--bind", "/ws", "/ws", "--bind", "/tmp", "/tmp", "--bind", "/home/u/out",
            "/home/u/out", "--bind", "/data", "/data", "--unshare-net", "sh", "-c", "make test",
        ]
    );
}

const LINUX_HEAD: [&str; 16] = [
    "--ro-bind", "/usr", "/usr", "--ro-bind", "/lib", "/lib", "--ro-bind", "/bin", "/bin",
    "--ro-bind", "/etc", "/etc", "--proc", "/proc", "--dev", "/dev",
];

fn linux_binds(p: &SandboxPolicy, existing: &[&str], home: Option<&str>) -> Vec<String> {
    let host = LinuxHost {
        bwrap_available: true,
        lib64_exists: false,
        existing_paths: existing.iter().map(|s| s.to_string()).collect(),
    };
    let (_, args) = cove::sandbox::linux::build_command_in("ls", "/ws", p, &host, home).unwrap();
    assert_eq!(&args[..16], LINUX_HEAD);
    assert_eq!(&args[args.len() - 3..], ["sh", "-c", "ls"]);
    args[16..args.len() - 3].to_vec()
}

#[test]
fn linux_denied_path_is_not_bound_writable() {
    // The same path allowed and denied: it is left out.
    let p = policy(&[], &["/data", "/out"], &["/data"], true);
    assert_eq!(
        linux_binds(&p, &["/data", "/out"], None),
        ["--bind", "/ws", "/ws", "--bind", "/tmp", "/tmp", "--bind", "/out", "/out"]
    );
    // An allowed path below a denied one, and the shorthand on both sides.
    let p = policy(&[], &["~/secret/logs", "/home/u/ok"], &["~/secret/"], true);
    assert_eq!(
        linux_binds(&p, &["/home/u/secret/logs", "/home/u/ok", "/home/u/secret/"], Some("/home/u")),
        ["--bind", "/ws", "/ws", "--bind", "/tmp", "/tmp", "--bind", "/home/u/ok", "/home/u/ok"]
    );
    // A sibling of a denied path is not denied.
    let p = policy(&[], &["/data2"], &["/data"], true);
    assert_eq!(
        linux_binds(&p, &["/data", "/data2"], None),
        ["--bind", "/ws", "/ws", "--bind", "/tmp", "/tmp", "--bind", "/data2", "/data2"]
    );
    // An empty entry denies nothing.
    let p = policy(&[], &["/data"], &[""], true);
    assert_eq!(
        linux_binds(&p, &["/data", ""], None),
        ["--bind", "/ws", "/ws", "--bind", "/tmp", "/tmp", "--bind", "/data", "/data"]
    );
}

#[test]
fn linux_denied_path_inside_writable_is_bound_read_only_last() {
    let p = policy(&[], &["/data"], &["/ws/.git", "/data/keep", "/data/gone", "/etc/x"], false);
    assert_eq!(
        linux_binds(&p, &["/data", "/ws/.git", "/data/keep", "/etc/x"], None),
        [
            "--bind", "/ws", "/ws", "--bind", "/tmp", "/tmp", "--bind", "/data", "/data",
            "--ro-bind", "/ws/.git", "/ws/.git", "--ro-bind", "/data/keep", "/data/keep",
            "--unshare-net",
        ]
    );
    // Inside an allowed path that is itself denied: nothing is writable there.
    let p = policy(&[], &["/data/sub"], &["/data", "/data/sub/x"], true);
    assert_eq!(
        linux_binds(&p, &["/data", "/data/sub", "/data/sub/x"], None),
        ["--bind", "/ws", "/ws", "--bind", "/tmp", "/tmp"]
    );
}

#[test]
fn linux_denied_workspace_is_taken_back() {
    let p = policy(&[], &["/ws/out"], &["/ws"], true);
    assert_eq!(
        linux_binds(&p, &["/ws", "/ws/out"], None),
        ["--bind", "/ws", "/ws", "--bind", "/tmp", "/tmp", "--ro-bind", "/ws", "/ws"]
    );
    let p = policy(&[], &["/var/x"], &["/"], true);
    assert_eq!(
        linux_binds(&p, &["/", "/var/x"], None),
        [
            "--bind", "/ws", "/ws", "--bind", "/tmp", "/tmp", "--ro-bind", "/ws", "/ws",
            "--ro-bind", "/tmp", "/tmp",
        ]
    );
    // A denied directory inside the workspace, itself denied: bound once.
    let p = policy(&[], &[], &["/ws", "/ws/.git"], true);
    assert_eq!(
        linux_binds(&p, &["/ws", "/ws/.git"], None),
        ["--bind", "/ws", "/ws", "--bind", "/tmp", "/tmp", "--ro-bind", "/ws", "/ws"]
    );
    assert!(covers_path("/", "/ws"));
    assert!(covers_path("/ws/", "/ws"));
    assert!(!covers_path("/ws", "/"));
    assert!(!covers_path("", "/ws"));
    assert!(!covers_path("", "ws"));
    assert!(is_covered(&vec!["/a".to_string(), "/b".to_string()], "/b/c"));
    assert!(!is_covered(&vec!["/a".to_string(), "/b".to_string()], "/bc"));
}

#[test]
fn linux_args_without_lib64_with_network() {
    let p = policy(&[], &["/missing"], &[], true);
    let host = LinuxHost { bwrap_available: true, lib64_exists: false, existing_paths: vec![] };
    let (_, args) = cove::sandbox::linux::build_command_in("ls", "/ws", &p, &host, None).unwrap();
    assert_eq!(
        args,
        vec![
            "--ro-bind", "/usr", "/usr", "--ro-bind", "/lib", "/lib", "--ro-bind", "/bin", "/bin",
            "--ro-bind", "/etc", "/etc", "--proc", "/proc", "--dev", "/dev", "--bind", "/ws",
            "/ws", "--bind", "/tmp", "/tmp", "sh", "-c", "ls",
        ]
    );
}

#[test]
fn linux_without_bwrap_has_no_sandbox() {
    let p = policy(&[], &[], &[], false);
    let host = LinuxHost { bwrap_available: false, lib64_exists: true, existing_paths: vec![] };
    assert!(cove::sandbox::linux::build_command("ls", "/ws", &p, &host).is_none());
    assert!(!cove::sandbox::linux::is_supported(&host));
    assert!(!is_sandbox_supported(&SandboxBackend::LinuxNamespace(host)));
}

#[test]
fn backends() {
    let p = policy(&[], &[], &[], false);
    assert!(is_sandbox_supported(&SandboxBackend::MacSeatbelt));
    assert!(!is_sandbox_supported(&SandboxBackend::Unsupported));
    assert!(cove::sandbox::macos::is_supported());
    assert!(build_sandbox_command(&SandboxBackend::Unsupported, "ls", "/ws", &p).is_none());
    let (prog, _) = build_sandbox_command(&SandboxBackend::MacSeatbelt, "ls", "/ws", &p).unwrap();
    assert_eq!(prog, "sandbox-exec");
    let host = LinuxHost { bwrap_available: true, lib64_exists: false, existing_paths: vec![] };
    let linux = SandboxBackend::LinuxNamespace(host);
    assert!(is_sandbox_supported(&linux));
    let (prog, args) = build_sandbox_command_in(&linux, "ls", "/ws", &p, None).unwrap();
    assert_eq!(prog, "bwrap");
    assert_eq!(&args[args.len() - 4..], ["--unshare-net", "sh", "-c", "ls"]);
    let mut off = policy(&[], &[], &[], false);
    off.enabled = false;
    assert!(build_sandbox_command(&SandboxBackend::MacSeatbelt, "ls", "/ws", &off).is_none());
    assert!(build_sandbox_command_in(&linux, "ls", "/ws", &off, None).is_none());
    // A backend builds its invocation whatever the flag says.
    assert!(SandboxBackend::MacSeatbelt.build_invocation("ls", "/ws", &off, None).is_some());
}
