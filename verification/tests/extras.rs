use cove::attachment_commands::parsers::{
    finish_pptx, finish_xlsx, is_slide_name, order_slides, parse_plain_text, plain_read_len,
    sheet_section, slide_section,
};
use cove::docx_commands::cache::{app_locations, evict_lru, find_office_app, CachedFile};
use cove::fs_commands::list::{check_list_target, sort_entries, ListDirArgs, ListDirEntry};
use cove::fs_commands::read::read_file_as_data_url;
use cove::fs_commands::FsError;
use cove::js_interpreter::{
    cli_flag, console_line, finish_script, path_role, stringify_value, JsOutcome, PathRole,
    RunJsArgs,
};
use cove::order::stable_order;
use cove::sandbox::policy_path_in;
use cove::shell_commands::runner::local_bin_dir;
use cove::skill_commands::{check_skill_inside, cove_skills_dir, skill_dir};
use cove::skill_discovery::{
    flat_skill_name, is_readable_skill, skill_entry, skill_roots, SkillRoot,
};
use cove::workspace_watcher::{Debouncer, FileChangeKind, WatchRequest, WatchWorkspaceArgs};

fn entry(name: &str, is_dir: bool) -> ListDirEntry {
    ListDirEntry { name: name.into(), path: format!("p/{name}"), is_dir, mtime_secs: 1 }
}

#[test]
fn stable_order_sorts_and_keeps_ties() {
    let keys = vec![vec![3], vec![1], vec![2], vec![1], vec![], vec![1, 0], vec![3]];
    assert_eq!(stable_order(&keys), vec![4, 1, 3, 5, 2, 0, 6]);
    assert_eq!(stable_order(&vec![]), Vec::<usize>::new());
    assert_eq!(stable_order(&vec![vec![u64::MAX], vec![0]]), vec![1, 0]);
}

#[test]
fn entries_are_sorted_dirs_first() {
    let sorted = sort_entries(vec![
        entry("zeta.txt", false),
        entry("Alpha.txt", false),
        entry("src", true),
        entry("alpha.txt", false),
        entry("Docs", true),
        entry("beta", false),
        entry("ÉCOLE", false),
    ]);
    let names: Vec<&str> = sorted.iter().map(|e| e.name.as_str()).collect();
    assert_eq!(names, vec!["Docs", "src", "Alpha.txt", "alpha.txt", "beta", "zeta.txt", "ÉCOLE"]);
    assert_eq!(sorted[0].path, "p/Docs");
    assert!(sorted[0].is_dir && !sorted[2].is_dir);
    // The same order as a stable sort by the same comparison.
    let mut expected = vec![("b", false), ("B", false), ("a", true), ("A", true), ("c", false)];
    let input: Vec<ListDirEntry> = expected.iter().map(|(n, d)| entry(n, *d)).collect();
    expected.sort_by(|a, b| match (a.1, b.1) {
        (true, false) => std::cmp::Ordering::Less,
        (false, true) => std::cmp::Ordering::Greater,
        _ => a.0.to_lowercase().cmp(&b.0.to_lowercase()),
    });
    let got: Vec<(String, bool)> = sort_entries(input).into_iter().map(|e| (e.name, e.is_dir)).collect();
    let want: Vec<(String, bool)> = expected.into_iter().map(|(n, d)| (n.to_string(), d)).collect();
    assert_eq!(got, want);
}

#[test]
fn entries_of_a_listing() {
    let args = ListDirArgs { workspace_root: "/ws".into(), path: "".into(), include_hidden: Some(false) };
    let e = args.entry("/ws", "/ws/src/main.rs", "main.rs", false, Some(12)).unwrap();
    assert_eq!((e.name.as_str(), e.path.as_str(), e.is_dir, e.mtime_secs), ("main.rs", "src/main.rs", false, 12));
    assert!(args.entry("/ws", "/ws/.git", ".git", true, None).is_none());
    assert!(args.entry("/ws", "/elsewhere/x", "x", false, None).is_none());
    // A sibling whose name starts with that of the root is not inside it.
    assert!(args.entry("/ws", "/wsx/y", "y", false, None).is_none());
    assert!(matches!(check_list_target("/ws", "/wsx", true), Err(FsError::OutsideWorkspace)));
    assert!(matches!(check_list_target("/ws", "/ws2/src", true), Err(FsError::OutsideWorkspace)));
    assert!(check_list_target("/ws", "/ws/src", true).is_ok());
    assert!(matches!(check_list_target("/ws", "/tmp", true), Err(FsError::OutsideWorkspace)));
    assert!(matches!(check_list_target("/ws", "/ws/a.txt", false), Err(FsError::NotAllowed(m)) if m == "not a directory"));
}

#[test]
fn file_as_data_url() {
    let mut png = vec![0x89, 0x50, 0x4E, 0x47, 0x0D, 0x0A, 0x1A, 0x0A];
    png.extend_from_slice(&[0u8; 4]);
    let r = read_file_as_data_url("/ws/a.bin", &png).unwrap();
    assert_eq!(r.data_url, "data:image/png;base64,iVBORw0KGgoAAAAA");
    let r = read_file_as_data_url("/ws/a.svg", b"<svg/>").unwrap();
    assert_eq!(r.data_url, "data:image/svg+xml;base64,PHN2Zy8+");
}

#[test]
fn oldest_files_are_evicted() {
    let file = |i: u64, secs: u64, nanos: u32| CachedFile {
        path: format!("/cache/{i}.pdf"),
        modified_secs: secs,
        modified_nanos: nanos,
    };
    let few: Vec<CachedFile> = (0..49).map(|i| file(i, i, 0)).collect();
    assert!(evict_lru(&few).is_empty());
    let full: Vec<CachedFile> = (0..50).map(|i| file(i, 1000 - i, 0)).collect();
    assert_eq!(evict_lru(&full), vec!["/cache/49.pdf"]);
    let mut more: Vec<CachedFile> = (0..52).map(|i| file(i, 500, 7)).collect();
    more[10] = file(10, 499, 999_999_999);
    more[20] = file(20, 500, 6);
    assert_eq!(evict_lru(&more), vec!["/cache/10.pdf", "/cache/20.pdf", "/cache/0.pdf"]);
}

#[test]
fn office_app_lookup() {
    assert_eq!(
        app_locations("Pages"),
        ("/Applications/Pages.app".to_string(), "/System/Applications/Pages.app".to_string())
    );
    let existing = vec!["/System/Applications/Keynote.app".to_string()];
    assert_eq!(find_office_app(&vec!["Pages", "Keynote"], &existing), Some("Keynote"));
    assert_eq!(find_office_app(&vec!["Pages"], &existing), None);
    assert_eq!(find_office_app(&vec![], &existing), None);
    let both = vec!["/Applications/Pages.app".to_string(), "/Applications/Keynote.app".to_string()];
    assert_eq!(find_office_app(&vec!["Keynote", "Pages"], &both), Some("Keynote"));
}

#[test]
fn slides_are_named_ordered_and_shown() {
    assert!(is_slide_name("ppt/slides/slide1.xml"));
    assert!(!is_slide_name("ppt/slides/_rels/slide1.xml.rels"));
    assert!(!is_slide_name("ppt/slideLayouts/slideLayout1.xml"));
    assert!(is_slide_name("ppt/slides/slide.xml"));
    let names: Vec<String> = ["ppt/slides/slide10.xml", "ppt/slides/slide2.xml", "ppt/slides/slideX.xml", "ppt/slides/slide1.xml"]
        .iter()
        .map(|s| s.to_string())
        .collect();
    assert_eq!(
        order_slides(&names),
        vec!["ppt/slides/slideX.xml", "ppt/slides/slide1.xml", "ppt/slides/slide2.xml", "ppt/slides/slide10.xml"]
    );
    assert_eq!(slide_section(3, &vec!["Title".into(), "Body text".into()]), "# Slide 3\nTitle Body text\n\n");
    assert_eq!(slide_section(0, &vec!["x".into()]), "# Slide 1\nx\n\n");
    assert_eq!(slide_section(12, &vec![]), "# Slide 12\n[空白或无文本]\n\n");
}

#[test]
fn sheets_are_written_row_by_row() {
    let rows: Vec<Vec<String>> = vec![
        vec!["a".into(), "b".into()],
        vec!["".into(), " ".into()],
        vec![],
        vec!["1".into(), "".into(), "3".into()],
    ];
    assert_eq!(sheet_section("Sheet1", &rows), "# Sheet: Sheet1\na\tb\n1\t\t3\n\n");
    assert_eq!(sheet_section("Empty", &vec![]), "# Sheet: Empty\n\n");
}

#[test]
fn plain_text_is_cut_by_bytes() {
    assert_eq!(plain_read_len(11, 1024), 11);
    assert_eq!(plain_read_len(200, 50), 50);
    let (text, truncated, warnings) = parse_plain_text(b"hello world", 11, 1024);
    assert_eq!(text, "hello world");
    assert!(!truncated);
    assert!(warnings.is_empty());
    let (text, truncated, warnings) = parse_plain_text(&[b'a'; 50], 200, 50);
    assert!(truncated);
    assert_eq!(warnings, vec!["文件按字节上限截断"]);
    assert!(text.contains("内容已截断"));
    assert_eq!(text, format!("{}\n\n[内容已截断：原始文件超过 50 字节]", "a".repeat(50)));
    let (text, _, _) = parse_plain_text(&[b'a', 0xff, b'b'], 3, 10);
    assert_eq!(text, "a\u{fffd}b");
}

#[test]
fn debouncer_keeps_the_last_change() {
    let mut d = Debouncer::new();
    assert!(d.is_empty());
    assert!(d.flush().is_empty());
    d.record("a.txt".into(), FileChangeKind::Create);
    d.record("b.txt".into(), FileChangeKind::Modify);
    d.record("a.txt".into(), FileChangeKind::Remove);
    assert!(!d.is_empty());
    let mut told: Vec<(String, FileChangeKind)> = d.flush().into_iter().map(|p| (p.path, p.kind)).collect();
    told.sort_by(|a, b| a.0.cmp(&b.0));
    assert_eq!(
        told,
        vec![("a.txt".to_string(), FileChangeKind::Remove), ("b.txt".to_string(), FileChangeKind::Modify)]
    );
    assert!(d.is_empty());
    assert!(d.flush().is_empty());
}

#[test]
fn watch_requests() {
    let args = WatchWorkspaceArgs { workspace_root: "  ".into() };
    assert!(matches!(args.request(), WatchRequest::Stop));
    let args = WatchWorkspaceArgs { workspace_root: " /tmp/ws \n".into() };
    assert!(matches!(args.request(), WatchRequest::Watch(root) if root == "/tmp/ws"));
}

fn dirs(list: &[(&str, &str)]) -> Vec<SkillRoot> {
    list.iter().map(|(p, s)| SkillRoot { path: p.to_string(), source: s.to_string() }).collect()
}

#[test]
fn skill_roots_in_search_order() {
    let home_dirs = dirs(&[(".cove/skills", "cove"), (".agents/skills", "agents"), (".officellm/skills", "office")]);
    let workspace_dirs = dirs(&[(".agents/skills", "agents")]);
    let roots = skill_roots(
        Some("/home/u"),
        &home_dirs,
        Some("/data/officellm/skills"),
        &vec!["~/mine".into(), "/opt/skills".into()],
        Some("/ws"),
        &workspace_dirs,
    );
    let got: Vec<(&str, &str)> = roots.iter().map(|r| (r.path.as_str(), r.source.as_str())).collect();
    assert_eq!(
        got,
        vec![
            ("/home/u/.cove/skills", "cove"),
            ("/home/u/.agents/skills", "agents"),
            ("/home/u/.officellm/skills", "office"),
            ("/data/officellm/skills", "office"),
            ("/home/u/mine", "custom"),
            ("/opt/skills", "custom"),
            ("/ws/.agents/skills", "agents"),
        ]
    );
    let roots = skill_roots(None, &home_dirs, None, &vec!["~/mine".into()], Some(""), &workspace_dirs);
    let got: Vec<(&str, &str)> = roots.iter().map(|r| (r.path.as_str(), r.source.as_str())).collect();
    assert_eq!(got, vec![("~/mine", "custom")]);
    assert!(skill_roots(None, &home_dirs, None, &vec![], None, &workspace_dirs).is_empty());
}

#[test]
fn skill_files() {
    assert_eq!(flat_skill_name("/home/u/.officellm/skills", "office"), "skills");
    assert_eq!(flat_skill_name("/", "office"), "office");
    let e = skill_entry("agents", "my-skill".into(), "/home/u/.agents/skills/my-skill", "body".into());
    assert_eq!(e.path, "/home/u/.agents/skills/my-skill/SKILL.md");
    assert_eq!((e.source.as_str(), e.name.as_str(), e.content.as_str()), ("agents", "my-skill", "body"));
    assert!(is_readable_skill(512 * 1024));
    assert!(!is_readable_skill(512 * 1024 + 1));
    assert_eq!(cove_skills_dir(Some("/home/u")).unwrap(), "/home/u/.cove/skills");
    assert_eq!(cove_skills_dir(None).unwrap_err(), "Cannot determine home directory");
    assert_eq!(skill_dir("/home/u/.cove/skills", "my-skill").unwrap(), "/home/u/.cove/skills/my-skill");
    assert_eq!(skill_dir("/home/u/.cove/skills", "../x").unwrap_err(), "Skill name may only contain lowercase letters, digits, and hyphens");
    assert!(check_skill_inside("/home/u/.cove/skills", "/home/u/.cove/skills/a").is_ok());
    assert_eq!(check_skill_inside("/home/u/.cove/skills", "/etc/a").unwrap_err(), "Path traversal detected");
    assert_eq!(check_skill_inside("/home/u/.cove/skills", "/home/u/.cove/skillsx/a").unwrap_err(), "Path traversal detected");
}

#[test]
fn scripts_are_reported() {
    let args = |timeout_ms| RunJsArgs { workspace_root: "/ws".into(), code: "1+1".into(), timeout_ms };
    assert_eq!(args(None).timeout_ms(), 30_000);
    assert_eq!(args(Some(5)).timeout_ms(), 5);
    assert_eq!(args(Some(60_001)).timeout_ms(), 60_000);
    let console = vec!["a".to_string(), "[warn] b".to_string()];
    let r = finish_script(JsOutcome::Value("2".into()), &console, 30_000, 12);
    assert_eq!((r.output.as_str(), r.result.as_str(), r.execution_ms), ("a\n[warn] b", "2", 12));
    assert!(r.error.is_none());
    let r = finish_script(JsOutcome::TimedOut, &vec![], 1500, 1501);
    assert_eq!(r.error.as_deref(), Some("Execution timed out after 1500ms"));
    assert_eq!((r.output.as_str(), r.result.as_str()), ("", ""));
    let r = finish_script(JsOutcome::Failed("ReferenceError: x is not defined".into()), &console, 1, 2);
    assert_eq!(r.error.as_deref(), Some("ReferenceError: x is not defined"));
    assert_eq!(r.result, "");
    assert_eq!(console_line("[error] ", &vec!["x".into(), "1".into()]), "[error] x 1");
    assert_eq!(console_line("", &vec![]), "");
    assert_eq!(stringify_value(Some("s".into()), false, "String(s)".into()), "s");
    assert_eq!(stringify_value(None, true, "Undefined".into()), "undefined");
    assert_eq!(stringify_value(None, false, "Int(2)".into()), "Int(2)");
}

#[test]
fn well_known_paths() {
    assert_eq!(policy_path_in(Some("/home/u")), "/home/u/.officellm/sandbox-policy.json");
    assert_eq!(policy_path_in(None), "/tmp/.officellm/sandbox-policy.json");
    assert_eq!(local_bin_dir("/home/u"), "/home/u/.local/bin");
}

#[test]
fn sheets_and_slides_are_finished() {
    let (text, cut, warnings) = finish_xlsx(0, String::new(), 100);
    assert_eq!((text.as_str(), cut), ("该表格没有可读取的工作表。", false));
    assert!(warnings.is_empty());
    let (text, cut, _) = finish_xlsx(2, "# Sheet: a\nx\n\n".into(), 100);
    assert_eq!((text.as_str(), cut), ("# Sheet: a\nx\n\n", false));
    let (text, cut, _) = finish_xlsx(1, " \n".into(), 100);
    assert_eq!((text.as_str(), cut), ("该表格没有可读取的文本单元格。", false));
    let (text, cut, warnings) = finish_xlsx(1, "abcdef".into(), 3);
    assert!(cut && text.starts_with("abc\n\n["));
    assert_eq!(warnings, vec!["XLSX 文本按字符上限截断"]);
    let (text, cut, warnings) = finish_pptx(0, "ignored".into(), 100);
    assert_eq!((text.as_str(), cut), ("该演示文稿没有可读取的幻灯片。", false));
    assert!(warnings.is_empty());
    let (text, cut, warnings) = finish_pptx(2, "abcdef".into(), 3);
    assert!(cut && text.starts_with("abc"));
    assert_eq!(warnings, vec!["PPTX 文本按字符上限截断"]);
    let (text, cut, warnings) = finish_pptx(1, "abc".into(), 3);
    assert_eq!((text.as_str(), cut), ("abc", false));
    assert!(warnings.is_empty());
}

#[test]
fn command_arguments() {
    assert_eq!(cli_flag("i"), "-i");
    assert_eq!(cli_flag("limit"), "--limit");
    assert_eq!(cli_flag(""), "--");
    assert_eq!(cli_flag("é"), "--é");
    assert_eq!(path_role("i"), Some(PathRole::Input));
    assert_eq!(path_role("input"), Some(PathRole::Input));
    assert_eq!(path_role("path"), Some(PathRole::Input));
    assert_eq!(path_role("o"), Some(PathRole::Output));
    assert_eq!(path_role("output"), Some(PathRole::Output));
    assert_eq!(path_role("limit"), None);
    assert_eq!(path_role("Path"), None);
}
