use cove::attachment_commands::commands::{
    attachment_mime, check_attachment, document_kind, finish_document, origin_name, pick_pdf_pages,
    preview_mime, read_attachment_as_data_url, text_limits, DocumentKind, PdfSelection,
};
use cove::attachment_commands::parsers::{finish_docx, finish_pdf};
use cove::attachment_commands::{ReadAttachmentTextArgs, SaveAttachmentFromBase64Args};
use cove::encoding::{body_of_data_url, data_url, decode_base64, encode_base64};

#[test]
fn base64_known_values() {
    assert_eq!(encode_base64(b"").unwrap(), "");
    assert_eq!(encode_base64(b"f").unwrap(), "Zg==");
    assert_eq!(encode_base64(b"fo").unwrap(), "Zm8=");
    assert_eq!(encode_base64(b"foo").unwrap(), "Zm9v");
    assert_eq!(encode_base64(b"foob").unwrap(), "Zm9vYg==");
    assert_eq!(encode_base64(b"fooba").unwrap(), "Zm9vYmE=");
    assert_eq!(encode_base64(b"foobar").unwrap(), "Zm9vYmFy");
    assert_eq!(encode_base64(&[0xfb, 0xff, 0xbe]).unwrap(), "+/++");
    assert_eq!(encode_base64(&[0, 0x10, 0x83, 0x10, 0x51, 0x87]).unwrap(), "ABCDEFGH");
    assert_eq!(decode_base64("Zm9vYmE=").unwrap(), b"fooba");
    assert!(decode_base64("Zm9vYmE").is_err());
    assert!(decode_base64("Zm9v YmE=").is_err());
    let all: Vec<u8> = (0..=255).collect();
    assert_eq!(decode_base64(&encode_base64(&all).unwrap()).unwrap(), all);
}

#[test]
fn base64_decoding_undoes_encoding() {
    for x in 0..=255u8 {
        assert_eq!(decode_base64(&encode_base64(&[x]).unwrap()).unwrap(), [x]);
        for y in 0..=255u8 {
            assert_eq!(decode_base64(&encode_base64(&[x, y]).unwrap()).unwrap(), [x, y]);
        }
    }
    // Of the texts of four signs, those decode that some bytes encode to:
    // no padding before the third sign, none before other signs, and no
    // bits set that belong to no byte.
    let signs = ['A', 'B', 'Q', 'R', 'g', 'w', '9', '+', '/', '=', '-', ' '];
    let value = |c: char| "ABCDEFGHIJKLMNOPQRSTUVWXYZabcdefghijklmnopqrstuvwxyz0123456789+/".find(c);
    for a in signs {
        for b in signs {
            for c in signs {
                for d in signs {
                    let text: String = [a, b, c, d].iter().collect();
                    let expected = match (value(a), value(b), value(c), value(d)) {
                        (Some(_), Some(_), Some(_), Some(_)) => true,
                        (Some(_), Some(_), Some(v), None) => d == '=' && v % 4 == 0,
                        (Some(_), Some(v), None, None) => c == '=' && d == '=' && v % 16 == 0,
                        _ => false,
                    };
                    match decode_base64(&text) {
                        Ok(bytes) => {
                            assert!(expected, "{text:?}");
                            assert_eq!(encode_base64(&bytes).unwrap(), text);
                        }
                        Err(_) => assert!(!expected, "{text:?}"),
                    }
                }
            }
        }
    }
    assert_eq!(decode_base64("").unwrap(), b"");
    assert!(decode_base64("Zg").is_err());
    assert!(decode_base64("Zg=").is_err());
    assert!(decode_base64("Zh==").is_err());
    assert!(decode_base64("Zm9vZg").is_err());
    assert!(decode_base64("Zg==Zm9v").is_err());
    assert!(decode_base64("Zm9v\n").is_err());
}

#[test]
fn data_urls() {
    assert_eq!(data_url("image/png", b"foo").unwrap(), "data:image/png;base64,Zm9v");
    assert_eq!(data_url("text/plain", b"").unwrap(), "data:text/plain;base64,");
    assert_eq!(body_of_data_url("data:image/png;base64,Zm9v"), Some("Zm9v".to_string()));
    assert_eq!(body_of_data_url("a,b,c"), Some("b,c".to_string()));
    assert_eq!(body_of_data_url("trailing,"), Some("".to_string()));
    assert_eq!(body_of_data_url("no comma"), None);
}

#[test]
fn attachment_data_url() {
    let r = read_attachment_as_data_url("/data/attachments/doc_1.PDF", b"%PDF").unwrap();
    assert_eq!(r.data_url, "data:application/pdf;base64,JVBERg==");
    let r = read_attachment_as_data_url("/data/attachments/p.jpeg", b"x").unwrap();
    assert_eq!(r.data_url, "data:image/jpeg;base64,eA==");
    assert_eq!(attachment_mime("/a/b.webp"), "image/webp");
    assert_eq!(attachment_mime("/a/b.txt"), "application/octet-stream");
    assert_eq!(attachment_mime("/a/b"), "application/octet-stream");
    assert_eq!(attachment_mime("/"), "application/octet-stream");
}

#[test]
fn attachments_are_checked() {
    assert!(check_attachment(true, true, 26_214_400).is_ok());
    assert_eq!(check_attachment(false, true, 1).unwrap_err(), "无权读取该附件路径");
    assert_eq!(check_attachment(true, false, 1).unwrap_err(), "附件文件不存在");
    assert_eq!(
        check_attachment(true, true, 26_214_401).unwrap_err(),
        "附件超过 25MB，无法以原生方式发送，请使用「文本提取」或缩小文件"
    );
    assert_eq!(check_attachment(false, false, u64::MAX).unwrap_err(), "无权读取该附件路径");
}

#[test]
fn previews_are_for_small_images() {
    assert_eq!(preview_mime("tiny.png", 69), Some("image/png"));
    assert_eq!(preview_mime("tiny.PNG", 6 * 1024 * 1024), Some("image/png"));
    assert_eq!(preview_mime("big.png", 6 * 1024 * 1024 + 1), None);
    assert_eq!(preview_mime("doc.pdf", 16), None);
}

#[test]
fn attachment_from_base64_is_planned() {
    let args = SaveAttachmentFromBase64Args {
        name: " my:report?.pdf ".into(),
        content_base64: "aGVsbG8=".into(),
        mime_type: Some("application/pdf".into()),
    };
    let plan = args.plan(1_700_000_000_000).unwrap();
    assert_eq!(plan.bytes, b"hello");
    assert_eq!(plan.origin_name, "my_report_.pdf");
    assert_eq!(plan.final_name, "my_report__1700000000000.pdf");
    let bad = SaveAttachmentFromBase64Args { name: "x".into(), content_base64: "@@".into(), mime_type: None };
    let message = bad.plan(0).unwrap_err();
    assert!(message.starts_with("Base64 解码失败：Invalid"), "{message}");
}

#[test]
fn attachment_names() {
    assert_eq!(origin_name("/home/u/Docs/my file.txt"), "my file.txt");
    assert_eq!(origin_name("/home/u/Docs/a:b.txt"), "a_b.txt");
    assert_eq!(origin_name("/"), "attachment");
    assert_eq!(origin_name("/home/u/.."), "attachment");
    assert_eq!(origin_name(""), "attachment");
}

#[test]
fn text_limits_default_and_clamp() {
    let args = |max_bytes| ReadAttachmentTextArgs { path: "/a".into(), max_bytes, page_range: None };
    assert_eq!(text_limits(&args(None)), (131_072, 131_072));
    assert_eq!(text_limits(&args(Some(10))), (10, 4096));
    assert_eq!(text_limits(&args(Some(4096))), (4096, 4096));
    assert_eq!(text_limits(&args(Some(4097))), (4097, 4097));
    assert_eq!(text_limits(&args(Some(524_288))), (524_288, 524_288));
    assert_eq!(text_limits(&args(Some(u64::MAX))), (524_288, 524_288));
}

#[test]
fn document_kinds() {
    assert_eq!(document_kind("/a/report.PDF").unwrap(), DocumentKind::Pdf);
    assert_eq!(document_kind("/a/report.docx").unwrap(), DocumentKind::Docx);
    assert_eq!(document_kind("/a/sheet.Xlsx").unwrap(), DocumentKind::Xlsx);
    assert_eq!(document_kind("/a/deck.pptx").unwrap(), DocumentKind::Pptx);
    assert_eq!(document_kind("/a/notes.md").unwrap(), DocumentKind::Plain);
    assert_eq!(document_kind("/a/main.RS").unwrap(), DocumentKind::Plain);
    assert_eq!(document_kind("/a/photo.png").unwrap_err(), "该附件不是可读取的文本文件");
    assert_eq!(document_kind("/a/old.doc").unwrap_err(), "该附件不是可读取的文本文件");
    assert_eq!(document_kind("/a/noext").unwrap_err(), "该附件不是可读取的文本文件");
}

#[test]
fn documents_are_finished() {
    let r = finish_document("pdf".into(), "hello".into(), false, vec![]);
    assert_eq!((r.file_type.as_str(), r.content.as_str(), r.truncated), ("pdf", "hello", false));
    assert!(r.warnings.is_empty());
    let r = finish_document("txt".into(), " \n\t".into(), true, vec!["w".into()]);
    assert!(r.truncated);
    assert_eq!(r.warnings, vec!["w", "解析结果为空文本"]);
    let (content, truncated, warnings) = finish_pdf("abcdef".into(), 3);
    assert!(truncated);
    assert!(content.starts_with("abc\n\n["));
    assert_eq!(warnings, vec!["PDF 文本按字符上限截断"]);
    let (content, truncated, warnings) = finish_docx("abc".into(), 3);
    assert_eq!((content.as_str(), truncated), ("abc", false));
    assert!(warnings.is_empty());
    let (_, _, warnings) = finish_docx("abcd".into(), 3);
    assert_eq!(warnings, vec!["DOCX 文本按字符上限截断"]);
}

#[test]
fn pdf_pages_are_picked() {
    let pages: Vec<String> = vec!["one".into(), "two".into(), "three".into()];
    match pick_pdf_pages(&pages, "3,1") {
        PdfSelection::Pages(text) => assert_eq!(text, "# Page 1\none\n\n# Page 3\nthree\n\n"),
        _ => panic!("expected pages"),
    }
    match pick_pdf_pages(&pages, "2-9") {
        PdfSelection::Pages(text) => assert_eq!(text, "# Page 2\ntwo\n\n# Page 3\nthree\n\n"),
        _ => panic!("expected pages"),
    }
    assert!(matches!(pick_pdf_pages(&pages, "7"), PdfSelection::WholeDocument));
    assert!(matches!(pick_pdf_pages(&pages, "x"), PdfSelection::WholeDocument));
    // Of a document without pages nothing is picked, and nothing is read
    // instead.
    assert!(matches!(pick_pdf_pages(&vec![], "1"), PdfSelection::Pages(text) if text.is_empty()));
    assert!(matches!(pick_pdf_pages(&vec![], "x"), PdfSelection::Pages(text) if text.is_empty()));
}
