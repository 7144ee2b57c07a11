use cove::docx_commands::cache::{files_to_evict, fnv1a};
use cove::docx_commands::conversion::{
    cache_file_name, conversion_files, decode_document, export_script, find_quarto,
    open_arguments, pdf_data_url, quit_script, render_arguments, rendered_file, temp_prefix,
    to_pdf_arguments,
};

#[test]
fn fnv1a_empty_input() {
    // FNV-1a offset basis = 0xcbf29ce484222325
    assert_eq!(fnv1a(b""), "cbf29ce484222325");
}

#[test]
fn fnv1a_known_value() {
    // Well-known FNV-1a 64-bit hash of "hello"
    assert_eq!(fnv1a(b"hello"), "a430d84680aabd0b");
}

#[test]
fn fnv1a_output_is_16_char_hex() {
    let h = fnv1a(b"test data");
    assert_eq!(h.len(), 16);
    assert!(h.chars().all(|c| c.is_ascii_hexdigit()));
}

#[test]
fn fnv1a_deterministic() {
    let input = b"determinism check";
    assert_eq!(fnv1a(input), fnv1a(input));
}

#[test]
fn fnv1a_different_inputs_differ() {
    assert_ne!(fnv1a(b"alpha"), fnv1a(b"beta"));
}

#[test]
fn fnv1a_single_byte() {
    assert_eq!(fnv1a(b"a"), "af63dc4c8601ec8c");
}

#[test]
fn eviction_leaves_room_for_one() {
    assert_eq!(files_to_evict(0), 0);
    assert_eq!(files_to_evict(49), 0);
    assert_eq!(files_to_evict(50), 1);
    assert_eq!(files_to_evict(60), 11);
}

#[test]
fn temp_prefix_holds_the_time() {
    assert_eq!(temp_prefix(1700000000000000), "cove-1700000000000000");
    assert_eq!(temp_prefix(0), "cove-0");
}

#[test]
fn documents_are_decoded() {
    assert_eq!(decode_document("data:application/x;base64,aGVsbG8=").unwrap(), b"hello");
    assert_eq!(decode_document(",").unwrap(), b"");
    assert_eq!(decode_document("no data url").unwrap_err(), "无效的 data URL");
    let complaint = decode_document("data:x;base64,@@@").unwrap_err();
    assert!(complaint.starts_with("Base64 解码失败: Invalid"), "{complaint}");
}

#[test]
fn conversion_names() {
    assert_eq!(cache_file_name(b"hello"), "a430d84680aabd0b.pdf");
    assert_eq!(pdf_data_url(b"%PDF").unwrap(), "data:application/pdf;base64,JVBERg==");
    let files = conversion_files("cove-17", "pptx");
    assert_eq!(files.input, "cove-17-input.pptx");
    assert_eq!(files.output, "cove-17-output.pdf");
    assert_eq!(files.script, "cove-17.applescript");
    assert_eq!(rendered_file("cove-17"), "cove-17-input.pdf");
}

#[test]
fn converter_command_lines() {
    assert_eq!(to_pdf_arguments("/t/in.docx", "/t/out.pdf"), vec!["to-pdf", "-i", "/t/in.docx", "-o", "/t/out.pdf"]);
    assert_eq!(render_arguments("/t/in.qmd"), vec!["render", "/t/in.qmd", "--to", "pdf"]);
    assert_eq!(open_arguments("Keynote", "/t/in.pptx"), vec!["-j", "-g", "-a", "Keynote", "/t/in.pptx"]);
    assert_eq!(quit_script("Pages"), "tell application \"Pages\" to quit");
}

#[test]
fn export_script_exact() {
    let office_app = "Keynote";
    let prefix = "cove-17";
    let output_str = "/tmp/cove-17-output.pdf";
    let expected = format!(
        r#"log "[as] waiting for {office_app} window: {prefix}-input"
set docReady to false
set pollCount to 0
repeat 120 times
    set pollCount to pollCount + 1
    try
        tell application "System Events"
            tell process "{office_app}"
                set winNames to name of every window
            end tell
        end tell
        repeat with wn in winNames
            if wn contains "{prefix}" then
                set docReady to true
                exit repeat
            end if
        end repeat
    on error errMsg
        if pollCount mod 20 = 1 then
            log "[as] se_poll=" & pollCount & " error: " & errMsg
        end if
    end try
    if docReady then exit repeat
    delay 0.5
end repeat

if not docReady then
    error "等待 {office_app} 加载文档超时（60 秒），前缀: {prefix}"
end if

log "[as] window found (poll=" & pollCount & "), exporting front document..."
tell application "{office_app}"
    export front document to (POSIX file "{output_str}") as PDF
    close front document saving no
end tell
log "[as] export done"
"#
    );
    assert_eq!(export_script(office_app, prefix, output_str), expected);
}

#[test]
fn typesetter_is_found() {
    let homebrew = vec!["/opt/homebrew/bin/quarto".to_string()];
    let both = vec!["/opt/homebrew/bin/quarto".to_string(), "/usr/local/bin/quarto".to_string()];
    assert_eq!(find_quarto(Some((true, "/usr/bin/quarto\n".into())), &both), Some("/usr/bin/quarto".to_string()));
    assert_eq!(find_quarto(Some((true, "  \n".into())), &homebrew), Some("/opt/homebrew/bin/quarto".to_string()));
    assert_eq!(find_quarto(Some((false, "/usr/bin/quarto".into())), &both), Some("/usr/local/bin/quarto".to_string()));
    assert_eq!(find_quarto(None, &vec![]), None);
}
