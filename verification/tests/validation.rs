use cove::fs_commands::validation::{
    ensure_inside_workspace_exists, ensure_inside_workspace_may_not_exist,
    normalize_path_components, workspace_target, Unresolved,
};
use cove::fs_commands::{FsError, IoFailure};
use cove::paths::is_inside;

#[test]
fn normalize_removes_cur_dir() {
    let result = normalize_path_components("/a/./b");
    assert_eq!(result, "/a/b");
}

#[test]
fn normalize_resolves_parent() {
    let result = normalize_path_components("/a/b/../c");
    assert_eq!(result, "/a/c");
}

#[test]
fn normalize_nested_parent() {
    let result = normalize_path_components("/a/b/c/../../d");
    assert_eq!(result, "/a/d");
}

#[test]
fn normalize_at_root() {
    let result = normalize_path_components("/../..");
    assert_eq!(result, "/");
}

#[test]
fn normalize_mixed() {
    let result = normalize_path_components("/a/./b/../c");
    assert_eq!(result, "/a/c");
}

#[test]
fn normalize_relative_and_redundant() {
    assert_eq!(normalize_path_components(""), "");
    assert_eq!(normalize_path_components("a//b/"), "a/b");
    assert_eq!(normalize_path_components("./a"), "a");
    assert_eq!(normalize_path_components("../a"), "a");
    assert_eq!(normalize_path_components("a/../.."), "");
    assert_eq!(normalize_path_components("//a"), "/a");
    assert_eq!(normalize_path_components("/a/..b/c"), "/a/..b/c");
}

#[test]
fn target_is_seen_from_the_root() {
    assert_eq!(workspace_target("/ws", "sub/file"), "/ws/sub/file");
    assert_eq!(workspace_target("/ws/", "sub"), "/ws/sub");
    assert_eq!(workspace_target("/ws", "/etc/passwd"), "/etc/passwd");
    assert_eq!(workspace_target("/ws", ""), "/ws/");
    assert_eq!(workspace_target("", "sub"), "sub");
}

#[test]
fn existing_path_inside_is_accepted() {
    let r = ensure_inside_workspace_exists(Ok("/ws".into()), Ok("/ws/sub".into()));
    assert_eq!(r.unwrap(), "/ws/sub");
    let r = ensure_inside_workspace_exists(Ok("/ws".into()), Ok("/ws".into()));
    assert_eq!(r.unwrap(), "/ws");
}

#[test]
fn existing_path_outside_is_refused() {
    let r = ensure_inside_workspace_exists(Ok("/ws".into()), Ok("/tmp".into()));
    assert!(matches!(r, Err(FsError::OutsideWorkspace)));
    let r = ensure_inside_workspace_exists(Ok("/ws/a".into()), Ok("/ws".into()));
    assert!(matches!(r, Err(FsError::OutsideWorkspace)));
}

#[test]
fn sibling_of_the_root_is_refused() {
    // The text of the root starts the text of the path; its components do not.
    let r = ensure_inside_workspace_exists(Ok("/tmp/ws".into()), Ok("/tmp/ws2".into()));
    assert!(matches!(r, Err(FsError::OutsideWorkspace)));
    let r = ensure_inside_workspace_exists(Ok("/tmp/ws".into()), Ok("/tmp/ws2/file".into()));
    assert!(matches!(r, Err(FsError::OutsideWorkspace)));
    let r = ensure_inside_workspace_exists(Ok("/tmp/ws".into()), Ok("/tmp/ws-old".into()));
    assert!(matches!(r, Err(FsError::OutsideWorkspace)));
    // The working directory `../ws2` below the root `/ws` resolves to `/ws2`.
    let target = workspace_target("/ws", "../ws2");
    assert_eq!(target, "/ws/../ws2");
    let r = ensure_inside_workspace_exists(Ok("/ws".into()), Ok("/ws2".into()));
    assert!(matches!(r, Err(FsError::OutsideWorkspace)));
    let r = ensure_inside_workspace_may_not_exist("/ws", "../ws2");
    assert!(matches!(r, Err(FsError::OutsideWorkspace)));
    let r = ensure_inside_workspace_may_not_exist("/tmp/ws", "/tmp/ws2/x");
    assert!(matches!(r, Err(FsError::OutsideWorkspace)));
    // An entry below the root, and the root written with a slash behind it.
    let r = ensure_inside_workspace_exists(Ok("/tmp/ws".into()), Ok("/tmp/ws/2".into()));
    assert_eq!(r.unwrap(), "/tmp/ws/2");
    let r = ensure_inside_workspace_exists(Ok("/tmp/ws/".into()), Ok("/tmp/ws".into()));
    assert_eq!(r.unwrap(), "/tmp/ws");
    assert!(is_inside("/tmp/ws", "/tmp/ws/a/b"));
    assert!(!is_inside("/tmp/ws", "/tmp/wsa/b"));
    assert!(!is_inside("/tmp/ws", "tmp/ws/a"));
}

#[test]
fn unresolved_paths_give_their_errors() {
    let r = ensure_inside_workspace_exists(Err(Unresolved::Missing), Ok("/ws".into()));
    assert!(matches!(r, Err(FsError::NotFound)));
    let r = ensure_inside_workspace_exists(Err(Unresolved::Failed("x".into())), Ok("/ws".into()));
    assert!(matches!(r, Err(FsError::NotFound)));
    let r = ensure_inside_workspace_exists(Err(Unresolved::NotText), Ok("/ws".into()));
    assert!(matches!(r, Err(FsError::Io(m)) if m == "workspace path invalid utf-8"));
    let r = ensure_inside_workspace_exists(Ok("/ws".into()), Err(Unresolved::Missing));
    assert!(matches!(r, Err(FsError::NotFound)));
    let r = ensure_inside_workspace_exists(Ok("/ws".into()), Err(Unresolved::Failed("boom".into())));
    assert!(matches!(r, Err(FsError::Io(m)) if m == "boom"));
    let r = ensure_inside_workspace_exists(Ok("/ws".into()), Err(Unresolved::NotText));
    assert!(matches!(r, Err(FsError::Io(m)) if m == "resolved path invalid utf-8"));
}

#[test]
fn missing_path_inside_is_normalised() {
    let r = ensure_inside_workspace_may_not_exist("/ws", "new/./file.txt");
    assert_eq!(r.unwrap(), "/ws/new/file.txt");
    let r = ensure_inside_workspace_may_not_exist("/ws", "a/../b");
    assert_eq!(r.unwrap(), "/ws/b");
    let r = ensure_inside_workspace_may_not_exist("/ws", "/ws/x");
    assert_eq!(r.unwrap(), "/ws/x");
}

#[test]
fn missing_path_that_escapes_is_refused() {
    let r = ensure_inside_workspace_may_not_exist("/ws", "../outside");
    assert!(matches!(r, Err(FsError::OutsideWorkspace)));
    let r = ensure_inside_workspace_may_not_exist("/ws", "/etc/passwd");
    assert!(matches!(r, Err(FsError::OutsideWorkspace)));
    let r = ensure_inside_workspace_may_not_exist("/ws", "a/../../ws2/x");
    assert!(matches!(r, Err(FsError::OutsideWorkspace)));
    // Components count, not characters: `/wsx` is not inside `/ws`.
    let r = ensure_inside_workspace_may_not_exist("/ws", "/wsx/file");
    assert!(matches!(r, Err(FsError::OutsideWorkspace)));
}

#[test]
fn error_text_names_the_variant() {
    assert_eq!(FsError::OutsideWorkspace.debug_text(), "OutsideWorkspace");
    assert_eq!(FsError::NotFound.debug_text(), "NotFound");
    assert_eq!(FsError::BinaryFile.debug_text(), "BinaryFile");
    assert_eq!(FsError::TooLarge.debug_text(), "TooLarge");
    assert_eq!(FsError::NotAllowed("is a directory".into()).debug_text(), "NotAllowed(\"is a directory\")");
    assert_eq!(FsError::Io("a \"b\"\n".into()).debug_text(), "Io(\"a \\\"b\\\"\\n\")");
    for e in [
        FsError::OutsideWorkspace,
        FsError::NotFound,
        FsError::NotAllowed("x".into()),
        FsError::BinaryFile,
        FsError::TooLarge,
        FsError::Io("y\\z".into()),
    ] {
        assert_eq!(e.debug_text(), format!("{:?}", e));
    }
}

#[test]
fn io_failures_become_errors() {
    assert!(matches!(FsError::from_io(IoFailure::NotFound, "gone".into()), FsError::NotFound));
    assert!(matches!(
        FsError::from_io(IoFailure::PermissionDenied, "denied".into()),
        FsError::NotAllowed(m) if m == "denied"
    ));
    assert!(matches!(FsError::from_io(IoFailure::Other, "odd".into()), FsError::Io(m) if m == "odd"));
}
